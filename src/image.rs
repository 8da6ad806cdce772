use vstd::prelude::*;

use crate::json::{Json, JsonModel};
use crate::scalar::Real;

verus! {

/// A drawing: its size and unit, an optional editor tag, the pens and brushes
/// that shapes refer to by index, and the forest of shapes.
#[derive(Debug)]
pub struct Image {
    pub width: Real,
    pub height: Real,
    pub unit_per_inch: Real,
    pub editor: Option<String>,
    pub pens: Vec<Pen>,
    pub brushes: Vec<Brush>,
    pub shapes: Vec<Shape>,
}

#[derive(Clone, Copy, Debug, PartialEq, Eq, Structural)]
pub struct Point {
    pub x: Real,
    pub y: Real,
}

#[derive(Clone, Copy, Debug, PartialEq, Eq, Structural)]
pub struct Color {
    pub red: Real,
    pub green: Real,
    pub blue: Real,
    pub alpha: Real,
}

#[derive(Clone, Copy, Debug, PartialEq, Eq, Structural)]
pub struct MonochromePattern {
    pub color: Color,
}

#[derive(Clone, Copy, Debug, PartialEq, Eq, Structural)]
pub struct LinearGradientPattern {
    pub point_1: Point,
    pub color_1: Color,
    pub point_2: Point,
    pub color_2: Color,
}

#[derive(Clone, Copy, Debug, PartialEq, Eq, Structural)]
pub struct RadialGradientPattern {
    pub center_1: Point,
    pub radius_1: Real,
    pub color_1: Color,
    pub center_2: Point,
    pub radius_2: Real,
    pub color_2: Color,
}

#[derive(Clone, Copy, Debug, PartialEq, Eq, Structural)]
pub enum Pattern {
    Monochrome(MonochromePattern),
    LinearGradient(LinearGradientPattern),
    RadialGradient(RadialGradientPattern),
}

#[derive(Clone, Copy, Debug, PartialEq, Eq, Structural)]
pub enum LineCap {
    Butt,
    Round,
    Square,
}

#[derive(Clone, Copy, Debug, PartialEq, Eq, Structural)]
pub enum LineJoin {
    Miter,
    Round,
    Bevel,
}

#[derive(Clone, Copy, Debug, PartialEq, Eq, Structural)]
pub struct Pen {
    pub pattern: Pattern,
    pub width: Real,
    pub cap: LineCap,
    pub join: LineJoin,
}

#[derive(Clone, Copy, Debug, PartialEq, Eq, Structural)]
pub struct Brush {
    pub pattern: Pattern,
}

/// A group of shapes, with an annotation that editing tools keep on it
/// (`Json::Null` when there is none).
#[derive(Debug)]
pub struct GroupShape {
    pub content: Vec<Shape>,
    pub edit_annot: Json,
}

/// An open path stroked with the pen at index `pen`.
#[derive(Debug)]
pub struct CurveShape {
    pub pen: usize,
    pub data: CurveData,
}

/// Closed sub-paths, filled with the brush at index `brush` and stroked with
/// the pen at index `pen`, each where given.
#[derive(Debug)]
pub struct RegionShape {
    pub pen: Option<usize>,
    pub brush: Option<usize>,
    pub data: Vec<CurveData>,
}

#[derive(Debug)]
pub enum Shape {
    Group(GroupShape),
    Curve(CurveShape),
    Region(RegionShape),
}

#[derive(Clone, Copy, Debug, PartialEq, Eq, Structural)]
pub struct LineSegment {
    pub point_2: Point,
}

#[derive(Clone, Copy, Debug, PartialEq, Eq, Structural)]
pub struct QuadraticBezierSegment {
    pub point_2: Point,
    pub point_3: Point,
}

#[derive(Clone, Copy, Debug, PartialEq, Eq, Structural)]
pub struct CubicBezierSegment {
    pub point_2: Point,
    pub point_3: Point,
    pub point_4: Point,
}

#[derive(Clone, Copy, Debug, PartialEq, Eq, Structural)]
pub enum Segment {
    Line(LineSegment),
    QuadraticBezier(QuadraticBezierSegment),
    CubicBezier(CubicBezierSegment),
}

/// A path: a start point and the segments that follow it.
#[derive(Debug)]
pub struct CurveData {
    pub start: Point,
    pub segments: Vec<Segment>,
}

/// The mathematical form of a `CurveData`.
pub struct CurveModel {
    pub start: Point,
    pub segments: Seq<Segment>,
}

/// The mathematical form of a `Shape`.
pub enum ShapeModel {
    Group { content: Seq<ShapeModel>, edit_annot: JsonModel },
    Curve { pen: usize, data: CurveModel },
    Region { pen: Option<usize>, brush: Option<usize>, data: Seq<CurveModel> },
}

/// The mathematical form of an `Image`.
pub struct ImageModel {
    pub width: Real,
    pub height: Real,
    pub unit_per_inch: Real,
    pub editor: Option<Seq<char>>,
    pub pens: Seq<Pen>,
    pub brushes: Seq<Brush>,
    pub shapes: Seq<ShapeModel>,
}

impl View for CurveData {
    type V = CurveModel;

    open spec fn view(&self) -> CurveModel {
        CurveModel { start: self.start, segments: self.segments@ }
    }
}

/// The models of a sequence of paths, one for one.
pub open spec fn curves_model(s: Seq<CurveData>) -> Seq<CurveModel> {
    s.map_values(|c: CurveData| c@)
}

impl View for Shape {
    type V = ShapeModel;

    open spec fn view(&self) -> ShapeModel {
        shape_model(*self)
    }
}

pub open spec fn shape_model(s: Shape) -> ShapeModel
    decreases s,
{
    match s {
        Shape::Group(g) => ShapeModel::Group {
            content: shape_seq_model(g.content@),
            edit_annot: g.edit_annot@,
        },
        Shape::Curve(c) => ShapeModel::Curve { pen: c.pen, data: c.data@ },
        Shape::Region(r) => ShapeModel::Region {
            pen: r.pen,
            brush: r.brush,
            data: curves_model(r.data@),
        },
    }
}

/// The models of a sequence of shapes, one for one.
pub open spec fn shape_seq_model(s: Seq<Shape>) -> Seq<ShapeModel>
    decreases s,
{
    if s.len() == 0 {
        Seq::empty()
    } else {
        shape_seq_model(s.drop_last()).push(shape_model(s.last()))
    }
}

pub proof fn lemma_shape_seq_model(s: Seq<Shape>)
    ensures
        shape_seq_model(s).len() == s.len(),
        forall|i: int| 0 <= i < s.len() ==> #[trigger] shape_seq_model(s)[i] == s[i]@,
    decreases s.len(),
{
    if s.len() > 0 {
        lemma_shape_seq_model(s.drop_last());
    }
}

impl View for Image {
    type V = ImageModel;

    open spec fn view(&self) -> ImageModel {
        ImageModel {
            width: self.width,
            height: self.height,
            unit_per_inch: self.unit_per_inch,
            editor: match self.editor {
                Some(e) => Some(e@),
                None => None,
            },
            pens: self.pens@,
            brushes: self.brushes@,
            shapes: shape_seq_model(self.shapes@),
        }
    }
}

} // verus!
