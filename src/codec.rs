//! The positional encoding of points, colors, segments and paths, and the
//! string encoding of line caps and joins.
use vstd::prelude::*;

use crate::image::{
    Color, CubicBezierSegment, CurveData, CurveModel, LineCap, LineJoin, LineSegment, Point,
    QuadraticBezierSegment, Segment,
};
use crate::json::{
    all_from_json, array_of, lemma_all_from_json_error, lemma_all_from_json_round_trip,
    lemma_all_from_json_step, json_views, lemma_json_seq_model, DecodeError, Json, TagSet, JsonModel, JsonNumber,
};
use crate::scalar::{Real, ONE_BITS};

verus! {

pub open spec fn real_from_json(j: JsonModel) -> Result<Real, DecodeError> {
    match j {
        JsonModel::Number(n) => match n.float_bits {
            Some(b) => Ok(Real { bits: b }),
            None => Err(DecodeError::WrongType),
        },
        _ => Err(DecodeError::WrongType),
    }
}

pub open spec fn real_to_json(r: Real) -> JsonModel {
    JsonModel::Number(JsonNumber { float_bits: Some(r.bits), uint: None })
}

pub open spec fn index_from_json(j: JsonModel) -> Result<usize, DecodeError> {
    match j {
        JsonModel::Number(n) => match n.uint {
            Some(u) => if u <= usize::MAX {
                Ok(u as usize)
            } else {
                Err(DecodeError::WrongType)
            },
            None => Err(DecodeError::WrongType),
        },
        _ => Err(DecodeError::WrongType),
    }
}

pub open spec fn index_to_json(i: usize) -> JsonModel {
    JsonModel::Number(JsonNumber { float_bits: None, uint: Some(i as u64) })
}

/// A point is an array of exactly two numbers.
pub open spec fn point_from_json(j: JsonModel) -> Result<Point, DecodeError> {
    match j {
        JsonModel::Array(a) => if a.len() != 2 {
            Err(DecodeError::InvalidLength(a.len() as usize))
        } else {
            match (real_from_json(a[0]), real_from_json(a[1])) {
                (Ok(x), Ok(y)) => Ok(Point { x, y }),
                (Err(e), _) => Err(e),
                (_, Err(e)) => Err(e),
            }
        },
        _ => Err(DecodeError::WrongType),
    }
}

pub open spec fn point_to_json(p: Point) -> JsonModel {
    JsonModel::Array(seq![real_to_json(p.x), real_to_json(p.y)])
}

/// A color is an array of three or four numbers; a missing alpha is one.
pub open spec fn color_from_json(j: JsonModel) -> Result<Color, DecodeError> {
    match j {
        JsonModel::Array(a) => if a.len() < 3 || a.len() > 4 {
            Err(DecodeError::InvalidLength(a.len() as usize))
        } else {
            let alpha = if a.len() == 4 {
                real_from_json(a[3])
            } else {
                Ok(Real { bits: ONE_BITS })
            };
            match (real_from_json(a[0]), real_from_json(a[1]), real_from_json(a[2]), alpha) {
                (Ok(red), Ok(green), Ok(blue), Ok(alpha)) => Ok(Color { red, green, blue, alpha }),
                (Err(e), _, _, _) => Err(e),
                (_, Err(e), _, _) => Err(e),
                (_, _, Err(e), _) => Err(e),
                (_, _, _, Err(e)) => Err(e),
            }
        },
        _ => Err(DecodeError::WrongType),
    }
}

/// The alpha channel is written only where `0 <= alpha < 1`.
pub open spec fn color_to_json(c: Color) -> JsonModel {
    if c.alpha.in_unit_interval() {
        JsonModel::Array(
            seq![real_to_json(c.red), real_to_json(c.green), real_to_json(c.blue), real_to_json(c.alpha)],
        )
    } else {
        JsonModel::Array(seq![real_to_json(c.red), real_to_json(c.green), real_to_json(c.blue)])
    }
}

/// The colors that survive encoding: those whose alpha is written, and opaque ones.
pub open spec fn color_round_trips(c: Color) -> bool {
    c.alpha.in_unit_interval() || c.alpha.bits == ONE_BITS
}

pub open spec fn line_cap_from_json(j: JsonModel) -> Result<LineCap, DecodeError> {
    match j {
        JsonModel::Str(s) => if s == "butt"@ {
            Ok(LineCap::Butt)
        } else if s == "round"@ {
            Ok(LineCap::Round)
        } else if s == "square"@ {
            Ok(LineCap::Square)
        } else {
            Err(DecodeError::UnknownVariant(TagSet::LineCap))
        },
        _ => Err(DecodeError::WrongType),
    }
}

pub open spec fn line_cap_to_json(c: LineCap) -> JsonModel {
    JsonModel::Str(
        match c {
            LineCap::Butt => "butt"@,
            LineCap::Round => "round"@,
            LineCap::Square => "square"@,
        },
    )
}

pub open spec fn line_join_from_json(j: JsonModel) -> Result<LineJoin, DecodeError> {
    match j {
        JsonModel::Str(s) => if s == "miter"@ {
            Ok(LineJoin::Miter)
        } else if s == "round"@ {
            Ok(LineJoin::Round)
        } else if s == "bevel"@ {
            Ok(LineJoin::Bevel)
        } else {
            Err(DecodeError::UnknownVariant(TagSet::LineJoin))
        },
        _ => Err(DecodeError::WrongType),
    }
}

pub open spec fn line_join_to_json(c: LineJoin) -> JsonModel {
    JsonModel::Str(
        match c {
            LineJoin::Miter => "miter"@,
            LineJoin::Round => "round"@,
            LineJoin::Bevel => "bevel"@,
        },
    )
}

/// The number of elements of a segment's array: its tag and its points.
pub open spec fn segment_arity(tag: Seq<char>) -> int {
    if tag == "L"@ {
        2
    } else if tag == "Q"@ {
        3
    } else {
        4
    }
}

/// A segment is an array of a tag, `"L"`, `"Q"` or `"C"`, and one, two or three points.
pub open spec fn segment_from_json(j: JsonModel) -> Result<Segment, DecodeError> {
    match j {
        JsonModel::Array(a) => if a.len() == 0 {
            Err(DecodeError::InvalidLength(0))
        } else {
            match a[0] {
                JsonModel::Str(t) => if t != "L"@ && t != "Q"@ && t != "C"@ {
                    Err(DecodeError::UnknownVariant(TagSet::Segment))
                } else if a.len() != segment_arity(t) {
                    Err(DecodeError::InvalidLength(a.len() as usize))
                } else if t == "L"@ {
                    match point_from_json(a[1]) {
                        Ok(p2) => Ok(Segment::Line(LineSegment { point_2: p2 })),
                        Err(e) => Err(e),
                    }
                } else if t == "Q"@ {
                    match (point_from_json(a[1]), point_from_json(a[2])) {
                        (Ok(p2), Ok(p3)) => Ok(
                            Segment::QuadraticBezier(
                                QuadraticBezierSegment { point_2: p2, point_3: p3 },
                            ),
                        ),
                        (Err(e), _) => Err(e),
                        (_, Err(e)) => Err(e),
                    }
                } else {
                    match (point_from_json(a[1]), point_from_json(a[2]), point_from_json(a[3])) {
                        (Ok(p2), Ok(p3), Ok(p4)) => Ok(
                            Segment::CubicBezier(
                                CubicBezierSegment { point_2: p2, point_3: p3, point_4: p4 },
                            ),
                        ),
                        (Err(e), _, _) => Err(e),
                        (_, Err(e), _) => Err(e),
                        (_, _, Err(e)) => Err(e),
                    }
                },
                _ => Err(DecodeError::WrongType),
            }
        },
        _ => Err(DecodeError::WrongType),
    }
}

pub open spec fn segment_to_json(s: Segment) -> JsonModel {
    match s {
        Segment::Line(l) => JsonModel::Array(seq![JsonModel::Str("L"@), point_to_json(l.point_2)]),
        Segment::QuadraticBezier(q) => JsonModel::Array(
            seq![JsonModel::Str("Q"@), point_to_json(q.point_2), point_to_json(q.point_3)],
        ),
        Segment::CubicBezier(c) => JsonModel::Array(
            seq![
                JsonModel::Str("C"@),
                point_to_json(c.point_2),
                point_to_json(c.point_3),
                point_to_json(c.point_4),
            ],
        ),
    }
}

pub open spec fn segment_decoder() -> spec_fn(JsonModel) -> Result<Segment, DecodeError> {
    |x: JsonModel| segment_from_json(x)
}

pub open spec fn segment_encoder() -> spec_fn(Segment) -> JsonModel {
    |s: Segment| segment_to_json(s)
}

/// A path is an array of its start point followed by its segments, read to the end.
pub open spec fn curve_from_json(j: JsonModel) -> Result<CurveModel, DecodeError> {
    match j {
        JsonModel::Array(a) => if a.len() == 0 {
            Err(DecodeError::InvalidLength(0))
        } else {
            match point_from_json(a[0]) {
                Err(e) => Err(e),
                Ok(start) => match all_from_json(
                    a.skip(1),
                    segment_decoder(),
                ) {
                    Ok(segments) => Ok(CurveModel { start, segments }),
                    Err(e) => Err(e),
                },
            }
        },
        _ => Err(DecodeError::WrongType),
    }
}

pub open spec fn curve_to_json(c: CurveModel) -> JsonModel {
    JsonModel::Array(
        seq![point_to_json(c.start)] + c.segments.map_values(segment_encoder()),
    )
}

/// The elements of an array, where `j` is one.
fn elements(j: &Json) -> (r: Option<&Vec<Json>>)
    ensures
        match r {
            Some(a) => j@ == JsonModel::Array(json_views(a@)),
            None => !(j@ is Array),
        },
{
    match j {
        Json::Array(a) => {
            proof {
                lemma_json_seq_model(a@);
                assert(crate::json::json_seq_model(a@) =~= json_views(a@));
            }
            Some(a)
        },
        _ => None,
    }
}

impl Real {
    pub fn from_json(j: &Json) -> (r: Result<Real, DecodeError>)
        ensures
            r == real_from_json(j@),
    {
        match j {
            Json::Number(n) => match n.float_bits {
                Some(b) => Ok(Real { bits: b }),
                None => Err(DecodeError::WrongType),
            },
            _ => Err(DecodeError::WrongType),
        }
    }

    pub fn to_json(&self) -> (r: Json)
        ensures
            r@ == real_to_json(*self),
    {
        Json::Number(JsonNumber { float_bits: Some(self.bits), uint: None })
    }
}

pub fn index_from(j: &Json) -> (r: Result<usize, DecodeError>)
    ensures
        r == index_from_json(j@),
{
    match j {
        Json::Number(n) => match n.uint {
            Some(u) => if (u as u128) <= (usize::MAX as u128) {
                Ok(u as usize)
            } else {
                Err(DecodeError::WrongType)
            },
            None => Err(DecodeError::WrongType),
        },
        _ => Err(DecodeError::WrongType),
    }
}

pub fn index_to(i: usize) -> (r: Json)
    ensures
        r@ == index_to_json(i),
{
    Json::Number(JsonNumber { float_bits: None, uint: Some(i as u64) })
}

impl Point {
    pub fn from_json(j: &Json) -> (r: Result<Point, DecodeError>)
        ensures
            r == point_from_json(j@),
    {
        let a = match elements(j) {
            Some(a) => a,
            None => return Err(DecodeError::WrongType),
        };
        if a.len() != 2 {
            return Err(DecodeError::InvalidLength(a.len()));
        }
        let x = match Real::from_json(&a[0]) {
            Ok(x) => x,
            Err(e) => return Err(e),
        };
        let y = match Real::from_json(&a[1]) {
            Ok(y) => y,
            Err(e) => return Err(e),
        };
        Ok(Point { x, y })
    }

    pub fn to_json(&self) -> (r: Json)
        ensures
            r@ == point_to_json(*self),
    {
        let r = array_of(vec![self.x.to_json(), self.y.to_json()]);
        assert(r@ == point_to_json(*self)) by {
            if let JsonModel::Array(s) = r@ {
                assert(s =~= seq![real_to_json(self.x), real_to_json(self.y)]);
            }
        }
        r
    }
}

impl Color {
    pub fn from_json(j: &Json) -> (r: Result<Color, DecodeError>)
        ensures
            r == color_from_json(j@),
    {
        let a = match elements(j) {
            Some(a) => a,
            None => return Err(DecodeError::WrongType),
        };
        if a.len() < 3 || a.len() > 4 {
            return Err(DecodeError::InvalidLength(a.len()));
        }
        let red = match Real::from_json(&a[0]) {
            Ok(v) => v,
            Err(e) => return Err(e),
        };
        let green = match Real::from_json(&a[1]) {
            Ok(v) => v,
            Err(e) => return Err(e),
        };
        let blue = match Real::from_json(&a[2]) {
            Ok(v) => v,
            Err(e) => return Err(e),
        };
        let alpha = if a.len() == 4 {
            match Real::from_json(&a[3]) {
                Ok(v) => v,
                Err(e) => return Err(e),
            }
        } else {
            Real::one()
        };
        Ok(Color { red, green, blue, alpha })
    }

    pub fn to_json(&self) -> (r: Json)
        ensures
            r@ == color_to_json(*self),
    {
        if self.alpha.is_in_unit_interval() {
            let r = array_of(
                vec![self.red.to_json(), self.green.to_json(), self.blue.to_json(), self.alpha.to_json()],
            );
            assert(r@ == color_to_json(*self)) by {
                if let JsonModel::Array(s) = r@ {
                    assert(s =~= seq![
                        real_to_json(self.red),
                        real_to_json(self.green),
                        real_to_json(self.blue),
                        real_to_json(self.alpha),
                    ]);
                }
            }
            r
        } else {
            let r = array_of(vec![self.red.to_json(), self.green.to_json(), self.blue.to_json()]);
            assert(r@ == color_to_json(*self)) by {
                if let JsonModel::Array(s) = r@ {
                    assert(s =~= seq![
                        real_to_json(self.red),
                        real_to_json(self.green),
                        real_to_json(self.blue),
                    ]);
                }
            }
            r
        }
    }
}

impl LineCap {
    pub fn from_json(j: &Json) -> (r: Result<LineCap, DecodeError>)
        ensures
            r == line_cap_from_json(j@),
    {
        match j {
            Json::Str(s) => if crate::json::string_is(s, "butt") {
                Ok(LineCap::Butt)
            } else if crate::json::string_is(s, "round") {
                Ok(LineCap::Round)
            } else if crate::json::string_is(s, "square") {
                Ok(LineCap::Square)
            } else {
                Err(DecodeError::UnknownVariant(TagSet::LineCap))
            },
            _ => Err(DecodeError::WrongType),
        }
    }

    pub fn to_json(&self) -> (r: Json)
        ensures
            r@ == line_cap_to_json(*self),
    {
        let s = match self {
            LineCap::Butt => "butt",
            LineCap::Round => "round",
            LineCap::Square => "square",
        };
        Json::Str(s.to_owned())
    }
}

impl LineJoin {
    pub fn from_json(j: &Json) -> (r: Result<LineJoin, DecodeError>)
        ensures
            r == line_join_from_json(j@),
    {
        match j {
            Json::Str(s) => if crate::json::string_is(s, "miter") {
                Ok(LineJoin::Miter)
            } else if crate::json::string_is(s, "round") {
                Ok(LineJoin::Round)
            } else if crate::json::string_is(s, "bevel") {
                Ok(LineJoin::Bevel)
            } else {
                Err(DecodeError::UnknownVariant(TagSet::LineJoin))
            },
            _ => Err(DecodeError::WrongType),
        }
    }

    pub fn to_json(&self) -> (r: Json)
        ensures
            r@ == line_join_to_json(*self),
    {
        let s = match self {
            LineJoin::Miter => "miter",
            LineJoin::Round => "round",
            LineJoin::Bevel => "bevel",
        };
        Json::Str(s.to_owned())
    }
}

impl Segment {
    pub fn from_json(j: &Json) -> (r: Result<Segment, DecodeError>)
        ensures
            r == segment_from_json(j@),
    {
        let a = match elements(j) {
            Some(a) => a,
            None => return Err(DecodeError::WrongType),
        };
        if a.len() == 0 {
            return Err(DecodeError::InvalidLength(0));
        }
        let t = match &a[0] {
            Json::Str(t) => t,
            _ => return Err(DecodeError::WrongType),
        };
        let is_l = crate::json::string_is(t, "L");
        let is_q = crate::json::string_is(t, "Q");
        let is_c = crate::json::string_is(t, "C");
        if !is_l && !is_q && !is_c {
            return Err(DecodeError::UnknownVariant(TagSet::Segment));
        }
        let arity: usize = if is_l {
            2
        } else if is_q {
            3
        } else {
            4
        };
        if a.len() != arity {
            return Err(DecodeError::InvalidLength(a.len()));
        }
        let p2 = match Point::from_json(&a[1]) {
            Ok(p) => p,
            Err(e) => return Err(e),
        };
        if is_l {
            return Ok(Segment::Line(LineSegment { point_2: p2 }));
        }
        let p3 = match Point::from_json(&a[2]) {
            Ok(p) => p,
            Err(e) => return Err(e),
        };
        if is_q {
            return Ok(Segment::QuadraticBezier(QuadraticBezierSegment { point_2: p2, point_3: p3 }));
        }
        let p4 = match Point::from_json(&a[3]) {
            Ok(p) => p,
            Err(e) => return Err(e),
        };
        Ok(Segment::CubicBezier(CubicBezierSegment { point_2: p2, point_3: p3, point_4: p4 }))
    }

    pub fn to_json(&self) -> (r: Json)
        ensures
            r@ == segment_to_json(*self),
    {
        match self {
            Segment::Line(l) => {
                let r = array_of(vec![Json::Str("L".to_owned()), l.point_2.to_json()]);
                assert(r@ == segment_to_json(*self)) by {
                    if let JsonModel::Array(s) = r@ {
                        assert(s =~= seq![JsonModel::Str("L"@), point_to_json(l.point_2)]);
                    }
                }
                r
            },
            Segment::QuadraticBezier(q) => {
                let r = array_of(
                    vec![Json::Str("Q".to_owned()), q.point_2.to_json(), q.point_3.to_json()],
                );
                assert(r@ == segment_to_json(*self)) by {
                    if let JsonModel::Array(s) = r@ {
                        assert(s =~= seq![
                            JsonModel::Str("Q"@),
                            point_to_json(q.point_2),
                            point_to_json(q.point_3),
                        ]);
                    }
                }
                r
            },
            Segment::CubicBezier(c) => {
                let r = array_of(
                    vec![
                        Json::Str("C".to_owned()),
                        c.point_2.to_json(),
                        c.point_3.to_json(),
                        c.point_4.to_json(),
                    ],
                );
                assert(r@ == segment_to_json(*self)) by {
                    if let JsonModel::Array(s) = r@ {
                        assert(s =~= seq![
                            JsonModel::Str("C"@),
                            point_to_json(c.point_2),
                            point_to_json(c.point_3),
                            point_to_json(c.point_4),
                        ]);
                    }
                }
                r
            },
        }
    }
}

impl CurveData {
    pub fn from_json(j: &Json) -> (r: Result<CurveData, DecodeError>)
        ensures
            match r {
                Ok(c) => curve_from_json(j@) == Ok::<CurveModel, DecodeError>(c@),
                Err(e) => curve_from_json(j@) == Err::<CurveModel, DecodeError>(e),
            },
    {
        let a = match elements(j) {
            Some(a) => a,
            None => return Err(DecodeError::WrongType),
        };
        if a.len() == 0 {
            return Err(DecodeError::InvalidLength(0));
        }
        let start = match Point::from_json(&a[0]) {
            Ok(p) => p,
            Err(e) => return Err(e),
        };
        let ghost rest = json_views(a@).skip(1);
        let ghost d = segment_decoder();
        let mut segments: Vec<Segment> = Vec::new();
        let mut i: usize = 1;
        while i < a.len()
            invariant
                1 <= i <= a@.len(),
                rest == json_views(a@).skip(1),
                j@ == JsonModel::Array(json_views(a@)),
                point_from_json(json_views(a@)[0]) == Ok::<Point, DecodeError>(start),
                d == segment_decoder(),
                all_from_json(rest.take(i - 1), d) == Ok::<Seq<Segment>, DecodeError>(segments@),
            decreases a@.len() - i,
        {
            proof {
                lemma_all_from_json_step(rest, d, i - 1);
                assert(rest[i - 1] == a@[i as int]@);
            }
            match Segment::from_json(&a[i]) {
                Ok(s) => segments.push(s),
                Err(e) => {
                    proof {
                        lemma_all_from_json_error(rest, d, i as int);
                    }
                    return Err(e);
                },
            }
            i += 1;
        }
        proof {
            assert(rest.take(i - 1) =~= rest);
        }
        Ok(CurveData { start, segments })
    }

    pub fn to_json(&self) -> (r: Json)
        ensures
            r@ == curve_to_json(self@),
    {
        let mut v: Vec<Json> = Vec::new();
        v.push(self.start.to_json());
        let mut i: usize = 0;
        while i < self.segments.len()
            invariant
                i <= self.segments@.len(),
                v@.len() == i + 1,
                json_views(v@) =~= seq![point_to_json(self.start)]
                    + self.segments@.take(i as int).map_values(segment_encoder()),
            decreases self.segments@.len() - i,
        {
            let ghost before = v@;
            let x = self.segments[i].to_json();
            v.push(x);
            proof {
                assert(self.segments@.take(i + 1) =~= self.segments@.take(i as int).push(
                    self.segments@[i as int],
                ));
                assert(json_views(v@) =~= json_views(before).push(x@));
                assert(self.segments@.take(i + 1).map_values(segment_encoder()) =~= self.segments@.take(
                    i as int,
                ).map_values(segment_encoder()).push(segment_to_json(self.segments@[i as int])));
            }
            i += 1;
        }
        assert(self.segments@.take(i as int) =~= self.segments@);
        array_of(v)
    }
}

/// Decoding an encoded point gives it back.
pub proof fn lemma_point_round_trip(p: Point)
    ensures
        point_from_json(point_to_json(p)) == Ok::<Point, DecodeError>(p),
{
}

/// Decoding an encoded color gives it back, where its alpha is written or is one.
pub proof fn lemma_color_round_trip(c: Color)
    requires
        color_round_trips(c),
    ensures
        color_from_json(color_to_json(c)) == Ok::<Color, DecodeError>(c),
{
}

/// Decoding an encoded line cap gives it back.
pub proof fn lemma_line_cap_round_trip(c: LineCap)
    ensures
        line_cap_from_json(line_cap_to_json(c)) == Ok::<LineCap, DecodeError>(c),
{
    reveal_strlit("butt");
    reveal_strlit("round");
    reveal_strlit("square");
    assert("butt"@ != "round"@ && "butt"@ != "square"@ && "round"@ != "square"@) by {
        assert("butt"@.len() == 4 && "round"@.len() == 5 && "square"@.len() == 6);
    }
}

/// Decoding an encoded line join gives it back.
pub proof fn lemma_line_join_round_trip(c: LineJoin)
    ensures
        line_join_from_json(line_join_to_json(c)) == Ok::<LineJoin, DecodeError>(c),
{
    reveal_strlit("miter");
    reveal_strlit("round");
    reveal_strlit("bevel");
    assert("miter"@ != "round"@ && "miter"@ != "bevel"@ && "round"@ != "bevel"@) by {
        assert("miter"@[0] == 'm' && "round"@[0] == 'r' && "bevel"@[0] == 'b');
    }
}

/// Decoding an encoded segment gives it back.
pub proof fn lemma_segment_round_trip(s: Segment)
    ensures
        segment_from_json(segment_to_json(s)) == Ok::<Segment, DecodeError>(s),
{
    reveal_strlit("L");
    reveal_strlit("Q");
    reveal_strlit("C");
    assert("L"@ != "Q"@ && "L"@ != "C"@ && "Q"@ != "C"@) by {
        assert("L"@[0] == 'L' && "Q"@[0] == 'Q' && "C"@[0] == 'C');
    }
}

/// Decoding an encoded path gives it back.
pub proof fn lemma_curve_round_trip(c: CurveModel)
    ensures
        curve_from_json(curve_to_json(c)) == Ok::<CurveModel, DecodeError>(c),
{
    let e = segment_encoder();
    let d = segment_decoder();
    assert forall|i: int| 0 <= i < c.segments.len() implies d(e(#[trigger] c.segments[i]))
        == Ok::<Segment, DecodeError>(c.segments[i]) by {
        lemma_segment_round_trip(c.segments[i]);
    }
    lemma_all_from_json_round_trip(c.segments, e, d);
    if let JsonModel::Array(a) = curve_to_json(c) {
        assert(a.skip(1) =~= c.segments.map_values(e));
    }
}

/// A point decodes only from an array of two elements.
pub proof fn lemma_point_arity(a: Seq<JsonModel>)
    requires
        a.len() != 2,
    ensures
        point_from_json(JsonModel::Array(a)) == Err::<Point, DecodeError>(
            DecodeError::InvalidLength(a.len() as usize),
        ),
{
}

/// A color decodes only from an array of three or four elements.
pub proof fn lemma_color_arity(a: Seq<JsonModel>)
    requires
        a.len() < 3 || a.len() > 4,
    ensures
        color_from_json(JsonModel::Array(a)) == Err::<Color, DecodeError>(
            DecodeError::InvalidLength(a.len() as usize),
        ),
{
}

/// A segment decodes only from an array as long as its tag asks, and only
/// with a known tag.
pub proof fn lemma_segment_arity(a: Seq<JsonModel>, t: Seq<char>)
    requires
        a.len() > 0,
        a[0] == JsonModel::Str(t),
    ensures
        t != "L"@ && t != "Q"@ && t != "C"@ ==> segment_from_json(JsonModel::Array(a)) == Err::<
            Segment,
            DecodeError,
        >(DecodeError::UnknownVariant(TagSet::Segment)),
        (t == "L"@ || t == "Q"@ || t == "C"@) && a.len() != segment_arity(t) ==> segment_from_json(
            JsonModel::Array(a),
        ) == Err::<Segment, DecodeError>(DecodeError::InvalidLength(a.len() as usize)),
{
}

/// The alpha channel is written exactly where `0 <= alpha < 1`.
pub proof fn lemma_alpha_elision(c: Color)
    ensures
        color_to_json(c) is Array,
        color_to_json(c)->Array_0.len() == if c.alpha.in_unit_interval() {
            4int
        } else {
            3int
        },
{
}

} // verus!
