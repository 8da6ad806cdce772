//! Turns a document into the sequence of commands that a 2D canvas carries out.
//!
//! Coordinates and widths are given in document units: the canvas scales each
//! of them by one factor. Pen and brush indices are checked here, when a shape
//! is drawn, and not when the document is decoded.
use vstd::prelude::*;

use crate::image::{
    lemma_shape_seq_model, shape_seq_model, CurveData, CurveModel, CurveShape, Image, ImageModel,
    LineCap, LineJoin, Pattern, Pen, Point, RegionShape, Segment, Shape, ShapeModel, curves_model,
};
use crate::scalar::Real;
use crate::strip::{leaves, leaves_of, lemma_leaves_append};

verus! {

/// One drawing command for the canvas.
#[derive(Clone, Copy, Debug, PartialEq, Eq, Structural)]
pub enum Command {
    /// Drops the current path.
    NewPath,
    /// Starts a sub-path at the point.
    MoveTo(Point),
    /// A straight line to the point.
    LineTo(Point),
    /// A quadratic curve from the current point (first) through the control
    /// point (second) to the end point (third). A canvas that draws only cubic
    /// curves raises it to the cubic with controls `P1 + 2/3 (P2 - P1)` and
    /// `P3 + 2/3 (P2 - P3)`.
    QuadraticTo(Point, Point, Point),
    /// A cubic curve with two control points and an end point.
    CurveTo(Point, Point, Point),
    /// Closes the current sub-path.
    ClosePath,
    /// Starts a new sub-path of the same path without a current point.
    NewSubPath,
    /// Paints with the pattern from now on.
    SetSource(Pattern),
    SetLineWidth(Real),
    SetLineCap(LineCap),
    SetLineJoin(LineJoin),
    /// Strokes the current path and drops it.
    Stroke,
    /// Fills the current path, even-odd, and keeps it.
    FillPreserve,
}

/// A shape refers to a pen or a brush that the document does not have.
#[derive(Clone, Copy, Debug, PartialEq, Eq, Structural)]
pub enum RenderError {
    InvalidPen { index: usize, count: usize },
    InvalidBrush { index: usize, count: usize },
}

pub open spec fn segment_end(s: Segment) -> Point {
    match s {
        Segment::Line(l) => l.point_2,
        Segment::QuadraticBezier(q) => q.point_3,
        Segment::CubicBezier(c) => c.point_4,
    }
}

/// The current point before segment `i` is drawn.
pub open spec fn point_before(c: CurveModel, i: int) -> Point {
    if i == 0 {
        c.start
    } else {
        segment_end(c.segments[i - 1])
    }
}

pub open spec fn segment_command(c: CurveModel, i: int) -> Command {
    match c.segments[i] {
        Segment::Line(l) => Command::LineTo(l.point_2),
        Segment::QuadraticBezier(q) => Command::QuadraticTo(point_before(c, i), q.point_2, q.point_3),
        Segment::CubicBezier(b) => Command::CurveTo(b.point_2, b.point_3, b.point_4),
    }
}

/// The commands of the first `n` segments.
pub open spec fn segment_commands(c: CurveModel, n: int) -> Seq<Command> {
    Seq::new(n as nat, |i: int| segment_command(c, i))
}

/// A path: a move to its start, its segments, and a close where asked.
pub open spec fn plot(c: CurveModel, closed: bool) -> Seq<Command> {
    seq![Command::MoveTo(c.start)] + segment_commands(c, c.segments.len() as int) + if closed {
        seq![Command::ClosePath]
    } else {
        Seq::empty()
    }
}

pub open spec fn pen_commands(p: Pen) -> Seq<Command> {
    seq![
        Command::SetSource(p.pattern),
        Command::SetLineWidth(p.width),
        Command::SetLineCap(p.cap),
        Command::SetLineJoin(p.join),
    ]
}

/// The closed sub-paths of a region: each after the first starts with `NewSubPath`.
pub open spec fn region_paths(data: Seq<CurveModel>) -> Seq<Command>
    decreases data.len(),
{
    if data.len() == 0 {
        Seq::empty()
    } else if data.len() == 1 {
        plot(data[0], true)
    } else {
        region_paths(data.drop_last()) + seq![Command::NewSubPath] + plot(data.last(), true)
    }
}

pub open spec fn pen_at(i: ImageModel, index: usize) -> Result<Pen, RenderError> {
    if index < i.pens.len() {
        Ok(i.pens[index as int])
    } else {
        Err(RenderError::InvalidPen { index, count: i.pens.len() as usize })
    }
}

/// The commands of a curve or a region; a group draws nothing itself.
pub open spec fn leaf_commands(i: ImageModel, s: ShapeModel) -> Result<Seq<Command>, RenderError> {
    match s {
        ShapeModel::Group { .. } => Ok(Seq::empty()),
        ShapeModel::Curve { pen, data } => match pen_at(i, pen) {
            Ok(p) => Ok(plot(data, false) + pen_commands(p) + seq![Command::Stroke]),
            Err(e) => Err(e),
        },
        ShapeModel::Region { pen, brush, data } => {
            let fill = match brush {
                None => Ok(Seq::empty()),
                Some(b) => if b < i.brushes.len() {
                    Ok(seq![Command::SetSource(i.brushes[b as int].pattern), Command::FillPreserve])
                } else {
                    Err(RenderError::InvalidBrush { index: b, count: i.brushes.len() as usize })
                },
            };
            let finish = match pen {
                None => Ok(seq![Command::NewPath]),
                Some(p) => match pen_at(i, p) {
                    Ok(p) => Ok(pen_commands(p) + seq![Command::Stroke]),
                    Err(e) => Err(e),
                },
            };
            match (fill, finish) {
                (Ok(f), Ok(g)) => Ok(region_paths(data) + f + g),
                (Err(e), _) => Err(e),
                (_, Err(e)) => Err(e),
            }
        },
    }
}

/// The commands of a sequence of leaves, in order; the first leaf that fails gives the error.
pub open spec fn leaves_commands(i: ImageModel, s: Seq<ShapeModel>) -> Result<
    Seq<Command>,
    RenderError,
>
    decreases s.len(),
{
    if s.len() == 0 {
        Ok(Seq::empty())
    } else {
        match leaves_commands(i, s.drop_last()) {
            Err(e) => Err(e),
            Ok(p) => match leaf_commands(i, s.last()) {
                Ok(q) => Ok(p + q),
                Err(e) => Err(e),
            },
        }
    }
}

/// The commands that draw a document: a fresh path, then each leaf in order.
pub open spec fn render_commands(i: ImageModel) -> Result<Seq<Command>, RenderError> {
    match leaves_commands(i, leaves(i.shapes)) {
        Ok(q) => Ok(seq![Command::NewPath] + q),
        Err(e) => Err(e),
    }
}

/// The commands of two runs of leaves are those of each, in turn.
pub proof fn lemma_leaves_commands_append(i: ImageModel, a: Seq<ShapeModel>, b: Seq<ShapeModel>)
    ensures
        leaves_commands(i, a + b) == match leaves_commands(i, a) {
            Err(e) => Err(e),
            Ok(p) => match leaves_commands(i, b) {
                Ok(q) => Ok(p + q),
                Err(e) => Err(e),
            },
        },
    decreases b.len(),
{
    if b.len() == 0 {
        assert(a + b =~= a);
        if let Ok(p) = leaves_commands(i, a) {
            assert(p + Seq::empty() =~= p);
        }
    } else {
        assert((a + b).drop_last() =~= a + b.drop_last());
        lemma_leaves_commands_append(i, a, b.drop_last());
        if let Ok(p) = leaves_commands(i, a) {
            if let Ok(q) = leaves_commands(i, b.drop_last()) {
                if let Ok(r) = leaf_commands(i, b.last()) {
                    assert(p + q + r =~= p + (q + r));
                }
            }
        }
    }
}

/// Appends the commands of a path.
fn plot_curve_data(out: &mut Vec<Command>, data: &CurveData, closed: bool)
    ensures
        final(out)@ == old(out)@ + plot(data@, closed),
{
    let ghost start = out@;
    let ghost c = data@;
    out.push(Command::MoveTo(data.start));
    let mut current = data.start;
    let mut i: usize = 0;
    assert(segment_commands(c, 0) =~= Seq::<Command>::empty());
    while i < data.segments.len()
        invariant
            i <= data.segments@.len(),
            c == data@,
            current == point_before(c, i as int),
            out@ == start + seq![Command::MoveTo(c.start)] + segment_commands(c, i as int),
        decreases data.segments@.len() - i,
    {
        let cmd = match data.segments[i] {
            Segment::Line(l) => {
                current = l.point_2;
                Command::LineTo(l.point_2)
            },
            Segment::QuadraticBezier(q) => {
                let cmd = Command::QuadraticTo(current, q.point_2, q.point_3);
                current = q.point_3;
                cmd
            },
            Segment::CubicBezier(b) => {
                current = b.point_4;
                Command::CurveTo(b.point_2, b.point_3, b.point_4)
            },
        };
        out.push(cmd);
        proof {
            assert(segment_commands(c, i + 1) =~= segment_commands(c, i as int).push(
                segment_command(c, i as int),
            ));
        }
        i += 1;
    }
    if closed {
        out.push(Command::ClosePath);
    }
    assert(out@ =~= start + plot(c, closed));
}

/// Appends the commands that set up a pen.
fn set_pen(out: &mut Vec<Command>, pen: &Pen)
    ensures
        final(out)@ == old(out)@ + pen_commands(*pen),
{
    let ghost start = out@;
    out.push(Command::SetSource(pen.pattern));
    out.push(Command::SetLineWidth(pen.width));
    out.push(Command::SetLineCap(pen.cap));
    out.push(Command::SetLineJoin(pen.join));
    assert(out@ =~= start + pen_commands(*pen));
}

/// The pen at `index`, or the error that names it.
fn pen_at_index(image: &Image, index: usize) -> (r: Result<Pen, RenderError>)
    ensures
        r == pen_at(image@, index),
{
    if index < image.pens.len() {
        Ok(image.pens[index])
    } else {
        Err(RenderError::InvalidPen { index, count: image.pens.len() })
    }
}

/// Appends the commands of a curve: its open path, then a stroke with its pen.
fn render_curve(out: &mut Vec<Command>, curve: &CurveShape, image: &Image) -> (r: Result<
    (),
    RenderError,
>)
    ensures
        match leaf_commands(image@, ShapeModel::Curve { pen: curve.pen, data: curve.data@ }) {
            Ok(q) => r is Ok && final(out)@ == old(out)@ + q,
            Err(e) => r == Err::<(), RenderError>(e),
        },
{
    let ghost start = out@;
    plot_curve_data(out, &curve.data, false);
    let pen = pen_at_index(image, curve.pen)?;
    set_pen(out, &pen);
    out.push(Command::Stroke);
    assert(out@ =~= start + (plot(curve.data@, false) + pen_commands(pen) + seq![Command::Stroke]));
    Ok(())
}

/// Appends the commands of a region: its closed sub-paths, a fill with its
/// brush and a stroke with its pen, each where given.
fn render_region(out: &mut Vec<Command>, region: &RegionShape, image: &Image) -> (r: Result<
    (),
    RenderError,
>)
    ensures
        match leaf_commands(
            image@,
            ShapeModel::Region {
                pen: region.pen,
                brush: region.brush,
                data: curves_model(region.data@),
            },
        ) {
            Ok(q) => r is Ok && final(out)@ == old(out)@ + q,
            Err(e) => r == Err::<(), RenderError>(e),
        },
{
    let ghost start = out@;
    let ghost d = curves_model(region.data@);
    let mut i: usize = 0;
    assert(region_paths(d.take(0)) =~= Seq::<Command>::empty());
    while i < region.data.len()
        invariant
            i <= region.data@.len(),
            d == curves_model(region.data@),
            out@ == start + region_paths(d.take(i as int)),
        decreases region.data@.len() - i,
    {
        let ghost before = out@;
        if i > 0 {
            out.push(Command::NewSubPath);
        }
        plot_curve_data(out, &region.data[i], true);
        proof {
            assert(d.take(i + 1).drop_last() =~= d.take(i as int));
            if i == 0 {
                assert(d.take(1)[0] == d[0]);
                assert(out@ =~= start + region_paths(d.take(1)));
            } else {
                assert(out@ =~= start + region_paths(d.take(i + 1)));
            }
        }
        i += 1;
    }
    assert(d.take(i as int) =~= d);
    if let Some(b) = region.brush {
        if b >= image.brushes.len() {
            return Err(RenderError::InvalidBrush { index: b, count: image.brushes.len() });
        }
        out.push(Command::SetSource(image.brushes[b].pattern));
        out.push(Command::FillPreserve);
    }
    match region.pen {
        Some(p) => {
            let pen = pen_at_index(image, p)?;
            set_pen(out, &pen);
            out.push(Command::Stroke);
        },
        None => {
            out.push(Command::NewPath);
        },
    }
    Ok(())
}

/// The commands of one leaf alone.
proof fn lemma_leaves_commands_single(i: ImageModel, x: ShapeModel)
    ensures
        leaves_commands(i, seq![x]) == leaf_commands(i, x),
{
    assert(seq![x].drop_last() =~= Seq::<ShapeModel>::empty());
    assert(seq![x].last() == x);
    assert(leaves_commands(i, Seq::<ShapeModel>::empty()) == Ok::<Seq<Command>, RenderError>(
        Seq::empty(),
    ));
    if let Ok(q) = leaf_commands(i, x) {
        assert(Seq::<Command>::empty() + q =~= q);
    }
}

/// Appends the commands of every leaf of `shapes`, depth first.
fn render_shapes(out: &mut Vec<Command>, shapes: &Vec<Shape>, image: &Image) -> (r: Result<
    (),
    RenderError,
>)
    ensures
        match leaves_commands(image@, leaves(shape_seq_model(shapes@))) {
            Ok(q) => r is Ok && final(out)@ == old(out)@ + q,
            Err(e) => r == Err::<(), RenderError>(e),
        },
    decreases shapes,
{
    let ghost start = out@;
    let ghost m = shape_seq_model(shapes@);
    let ghost img = image@;
    proof {
        lemma_shape_seq_model(shapes@);
        assert(leaves(m.take(0)) =~= Seq::<ShapeModel>::empty());
        assert(start + Seq::<Command>::empty() =~= start);
    }
    let mut k: usize = 0;
    while k < shapes.len()
        invariant
            k <= shapes@.len(),
            m == shape_seq_model(shapes@),
            img == image@,
            m.len() == shapes@.len(),
            forall|x: int| 0 <= x < shapes@.len() ==> #[trigger] m[x] == shapes@[x]@,
            match leaves_commands(img, leaves(m.take(k as int))) {
                Ok(q) => out@ == start + q,
                Err(e) => false,
            },
        decreases shapes@.len() - k,
    {
        let ghost before = out@;
        let ghost prefix = leaves(m.take(k as int));
        let ghost added = leaves_of(m[k as int]);
        proof {
            assert(m.take(k + 1).drop_last() =~= m.take(k as int));
            assert(leaves(m.take(k + 1)) == prefix + added);
            lemma_leaves_commands_append(img, prefix, added);
            assert(m.take(k + 1) + m.skip(k + 1) =~= m);
            lemma_leaves_append(m.take(k + 1), m.skip(k + 1));
            lemma_leaves_commands_append(img, leaves(m.take(k + 1)), leaves(m.skip(k + 1)));
        }
        let step = match &shapes[k] {
            Shape::Group(g) => {
                proof {
                    assert(decreases_to!(*shapes => shapes[k as int]));
                    assert(decreases_to!(shapes[k as int] => (shapes[k as int])->Group_0));
                    assert(decreases_to!((shapes[k as int])->Group_0 => g.content));
                }
                render_shapes(out, &g.content, image)
            },
            Shape::Curve(c) => {
                proof {
                    lemma_leaves_commands_single(img, m[k as int]);
                }
                render_curve(out, c, image)
            },
            Shape::Region(g) => {
                proof {
                    lemma_leaves_commands_single(img, m[k as int]);
                }
                render_region(out, g, image)
            },
        };
        match step {
            Ok(()) => {
                proof {
                    if let Ok(q) = leaves_commands(img, prefix) {
                        if let Ok(q2) = leaves_commands(img, added) {
                            assert(out@ =~= start + (q + q2));
                        }
                    }
                }
            },
            Err(e) => {
                return Err(e);
            },
        }
        k += 1;
    }
    proof {
        assert(m.take(k as int) =~= m);
    }
    Ok(())
}

/// The commands that draw `image`, or the first pen or brush index that it lacks.
pub fn render(image: &Image) -> (r: Result<Vec<Command>, RenderError>)
    ensures
        match r {
            Ok(c) => render_commands(image@) == Ok::<Seq<Command>, RenderError>(c@),
            Err(e) => render_commands(image@) == Err::<Seq<Command>, RenderError>(e),
        },
{
    let mut out: Vec<Command> = Vec::new();
    out.push(Command::NewPath);
    render_shapes(&mut out, &image.shapes, image)?;
    Ok(out)
}

/// A leaf that fails makes the whole run of leaves fail.
pub proof fn lemma_leaves_commands_fail(i: ImageModel, s: Seq<ShapeModel>, k: int)
    requires
        0 <= k < s.len(),
        leaf_commands(i, s[k]) is Err,
    ensures
        leaves_commands(i, s) is Err,
    decreases s.len(),
{
    if k < s.len() - 1 {
        lemma_leaves_commands_fail(i, s.drop_last(), k);
    }
}

/// A curve whose pen index is out of range makes the render fail, wherever it
/// stands in the forest; decoding never looks at the index.
pub proof fn lemma_dangling_pen_fails(i: ImageModel, k: int)
    requires
        0 <= k < leaves(i.shapes).len(),
        leaves(i.shapes)[k] is Curve,
        leaves(i.shapes)[k]->Curve_pen >= i.pens.len(),
    ensures
        render_commands(i) is Err,
{
    lemma_leaves_commands_fail(i, leaves(i.shapes), k);
}

} // verus!
