//! Flattening of the shape forest: groups give way to their leaves.
use vstd::prelude::*;

use crate::image::{
    curves_model, lemma_shape_seq_model, shape_seq_model, CurveData, CurveShape, Image,
    ImageModel, RegionShape, Shape, ShapeModel,
};

verus! {

/// The curves and regions of a shape, depth first and left to right.
pub open spec fn leaves_of(s: ShapeModel) -> Seq<ShapeModel>
    decreases s,
{
    match s {
        ShapeModel::Group { content, .. } => leaves(content),
        _ => seq![s],
    }
}

/// The curves and regions of a forest, depth first and left to right.
pub open spec fn leaves(s: Seq<ShapeModel>) -> Seq<ShapeModel>
    decreases s,
{
    if s.len() == 0 {
        Seq::empty()
    } else {
        leaves(s.drop_last()) + leaves_of(s.last())
    }
}

/// The leaves of two forests side by side are the leaves of each, in turn.
pub proof fn lemma_leaves_append(a: Seq<ShapeModel>, b: Seq<ShapeModel>)
    ensures
        leaves(a + b) == leaves(a) + leaves(b),
    decreases b.len(),
{
    if b.len() == 0 {
        assert(a + b =~= a);
        assert(leaves(a) + leaves(b) =~= leaves(a));
    } else {
        assert((a + b).drop_last() =~= a + b.drop_last());
        lemma_leaves_append(a, b.drop_last());
        assert(leaves(a + b) =~= leaves(a) + leaves(b));
    }
}

/// No group is left among the leaves.
pub proof fn lemma_leaves_are_not_groups(s: Seq<ShapeModel>)
    ensures
        forall|i: int| 0 <= i < leaves(s).len() ==> !(#[trigger] leaves(s)[i] is Group),
    decreases s,
{
    if s.len() > 0 {
        lemma_leaves_are_not_groups(s.drop_last());
        lemma_leaves_of_are_not_groups(s.last());
        let l = leaves(s);
        let a = leaves(s.drop_last());
        let b = leaves_of(s.last());
        assert forall|i: int| 0 <= i < l.len() implies !(#[trigger] l[i] is Group) by {
            if i < a.len() {
                assert(l[i] == a[i]);
            } else {
                assert(l[i] == b[i - a.len()]);
            }
        }
    }
}

/// No group is left among the leaves of a shape.
pub proof fn lemma_leaves_of_are_not_groups(s: ShapeModel)
    ensures
        forall|i: int| 0 <= i < leaves_of(s).len() ==> !(#[trigger] leaves_of(s)[i] is Group),
    decreases s,
{
    if let ShapeModel::Group { content, .. } = s {
        lemma_leaves_are_not_groups(content);
    }
}

/// A forest without groups is its own leaves.
pub proof fn lemma_leaves_of_flat(s: Seq<ShapeModel>)
    requires
        forall|i: int| 0 <= i < s.len() ==> !(#[trigger] s[i] is Group),
    ensures
        leaves(s) == s,
    decreases s.len(),
{
    if s.len() > 0 {
        lemma_leaves_of_flat(s.drop_last());
        assert(!(s[s.len() - 1] is Group));
        assert(leaves_of(s.last()) == seq![s.last()]);
        assert(s.drop_last() + seq![s.last()] =~= s);
    } else {
        assert(s =~= Seq::empty());
    }
}

/// The document with its groups flattened and its editor tag cleared.
pub open spec fn stripped(i: ImageModel) -> ImageModel {
    ImageModel { editor: None, shapes: leaves(i.shapes), ..i }
}

/// Stripping a stripped document changes nothing.
pub proof fn lemma_strip_idempotent(i: ImageModel)
    ensures
        stripped(stripped(i)) == stripped(i),
{
    lemma_leaves_are_not_groups(i.shapes);
    lemma_leaves_of_flat(leaves(i.shapes));
}

impl CurveData {
    /// A copy of the path.
    pub fn duplicate(&self) -> (r: CurveData)
        ensures
            r@ == self@,
    {
        let mut segments = Vec::new();
        let mut i: usize = 0;
        while i < self.segments.len()
            invariant
                i <= self.segments@.len(),
                segments@ == self.segments@.take(i as int),
            decreases self.segments@.len() - i,
        {
            segments.push(self.segments[i]);
            proof {
                assert(self.segments@.take(i + 1) =~= self.segments@.take(i as int).push(
                    self.segments@[i as int],
                ));
            }
            i += 1;
        }
        assert(self.segments@.take(i as int) =~= self.segments@);
        CurveData { start: self.start, segments }
    }
}

/// A copy of a list of paths.
fn duplicate_curves(v: &Vec<CurveData>) -> (r: Vec<CurveData>)
    ensures
        curves_model(r@) == curves_model(v@),
{
    let mut out: Vec<CurveData> = Vec::new();
    let mut i: usize = 0;
    while i < v.len()
        invariant
            i <= v@.len(),
            curves_model(out@) =~= curves_model(v@).take(i as int),
        decreases v@.len() - i,
    {
        let ghost before = out@;
        let c = v[i].duplicate();
        out.push(c);
        proof {
            assert(curves_model(out@) =~= curves_model(before).push(c@));
        }
        i += 1;
    }
    assert(curves_model(v@).take(i as int) =~= curves_model(v@));
    out
}

/// Appends the leaves of `shape` to `shapes`.
pub fn flatten_shape(shapes: &mut Vec<Shape>, shape: &Shape)
    ensures
        shape_seq_model(final(shapes)@) == shape_seq_model(old(shapes)@) + leaves_of(shape@),
    decreases shape,
{
    match shape {
        Shape::Group(group) => {
            let ghost start = shape_seq_model(shapes@);
            let mut i: usize = 0;
            proof {
                lemma_shape_seq_model(group.content@);
                assert(start + leaves(shape_seq_model(group.content@).take(0)) =~= start);
            }
            while i < group.content.len()
                invariant
                    i <= group.content@.len(),
                    *shape == Shape::Group(*group),
                    shape_seq_model(group.content@).len() == group.content@.len(),
                    forall|x: int|
                        0 <= x < group.content@.len() ==> #[trigger] shape_seq_model(
                            group.content@,
                        )[x] == group.content@[x]@,
                    shape_seq_model(shapes@) == start + leaves(
                        shape_seq_model(group.content@).take(i as int),
                    ),
                decreases group.content@.len() - i,
            {
                proof {
                    assert(decreases_to!(*shape => (*shape)->Group_0));
                    assert(decreases_to!(*group => group.content));
                    assert(decreases_to!(group.content => group.content[i as int]));
                }
                flatten_shape(shapes, &group.content[i]);
                proof {
                    let m = shape_seq_model(group.content@);
                    assert(m.take(i + 1).drop_last() =~= m.take(i as int));
                    assert(m.take(i + 1).last() == group.content@[i as int]@);
                }
                i += 1;
            }
            proof {
                assert(shape_seq_model(group.content@).take(i as int) =~= shape_seq_model(
                    group.content@,
                ));
            }
        },
        Shape::Curve(curve) => {
            let ghost before = shapes@;
            let leaf = Shape::Curve(CurveShape { pen: curve.pen, data: curve.data.duplicate() });
            shapes.push(leaf);
            proof {
                lemma_shape_seq_model(before);
                lemma_shape_seq_model(shapes@);
                assert(shape_seq_model(shapes@) =~= shape_seq_model(before) + seq![leaf@]);
            }
        },
        Shape::Region(region) => {
            let ghost before = shapes@;
            let leaf = Shape::Region(
                RegionShape {
                    pen: region.pen,
                    brush: region.brush,
                    data: duplicate_curves(&region.data),
                },
            );
            shapes.push(leaf);
            proof {
                lemma_shape_seq_model(before);
                lemma_shape_seq_model(shapes@);
                assert(shape_seq_model(shapes@) =~= shape_seq_model(before) + seq![leaf@]);
            }
        },
    }
}

/// Flattens the groups of the document and clears its editor tag.
pub fn strip_image(image: &mut Image)
    ensures
        final(image)@ == stripped(old(image)@),
{
    image.editor = None;
    let mut shapes: Vec<Shape> = Vec::new();
    let mut i: usize = 0;
    proof {
        lemma_shape_seq_model(image.shapes@);
        assert(shape_seq_model(shapes@) =~= leaves(shape_seq_model(image.shapes@).take(0)));
    }
    while i < image.shapes.len()
        invariant
            i <= image.shapes@.len(),
            shape_seq_model(image.shapes@).len() == image.shapes@.len(),
            forall|x: int|
                0 <= x < image.shapes@.len() ==> #[trigger] shape_seq_model(image.shapes@)[x]
                    == image.shapes@[x]@,
            shape_seq_model(shapes@) == leaves(shape_seq_model(image.shapes@).take(i as int)),
        decreases image.shapes@.len() - i,
    {
        flatten_shape(&mut shapes, &image.shapes[i]);
        proof {
            let m = shape_seq_model(image.shapes@);
            assert(m.take(i + 1).drop_last() =~= m.take(i as int));
        }
        i += 1;
    }
    proof {
        assert(shape_seq_model(image.shapes@).take(i as int) =~= shape_seq_model(image.shapes@));
    }
    image.shapes = shapes;
}

} // verus!
