//! The object encoding of patterns, pens and brushes: named fields, unknown
//! fields refused, and a `type` field that picks the variant of a pattern.
use vstd::prelude::*;

use crate::codec::{
    color_from_json, color_round_trips, color_to_json, lemma_color_round_trip,
    lemma_line_cap_round_trip, lemma_line_join_round_trip, lemma_point_round_trip,
    line_cap_from_json, line_cap_to_json, line_join_from_json, line_join_to_json, point_from_json,
    point_to_json, real_from_json, real_to_json,
};
use crate::image::{
    Brush, Color, LineCap, LineJoin, LinearGradientPattern, MonochromePattern, Pattern, Pen, Point,
    RadialGradientPattern,
};
use crate::json::{
    find_member, keys_are_unique, keys_are_within, keys_model, keys_unique, keys_within,
    lemma_member_at, lemma_members_model, member, member_of, member_views, members_model, object_of, string_is,
    DecodeError, Json, TagSet, JsonModel, Member,
};
use crate::scalar::Real;

verus! {

/// The members of an object whose keys are unique and one of `allowed`.
pub open spec fn fields_of(j: JsonModel, allowed: Seq<Seq<char>>) -> Result<
    Seq<(Seq<char>, JsonModel)>,
    DecodeError,
> {
    match j {
        JsonModel::Object(m) => if !keys_unique(m) {
            Err(DecodeError::DuplicateField)
        } else if !keys_within(m, allowed) {
            Err(DecodeError::UnknownField)
        } else {
            Ok(m)
        },
        _ => Err(DecodeError::WrongType),
    }
}

/// The members and the `type` tag of an object whose keys are unique.
pub open spec fn tagged_of(j: JsonModel) -> Result<(Seq<(Seq<char>, JsonModel)>, Seq<char>), DecodeError> {
    match j {
        JsonModel::Object(m) => if !keys_unique(m) {
            Err(DecodeError::DuplicateField)
        } else {
            match member(m, "type"@) {
                Some(JsonModel::Str(t)) => Ok((m, t)),
                Some(_) => Err(DecodeError::WrongType),
                None => Err(DecodeError::MissingField),
            }
        },
        _ => Err(DecodeError::WrongType),
    }
}

/// A required field, decoded with `d`.
pub open spec fn field<T>(
    m: Seq<(Seq<char>, JsonModel)>,
    k: Seq<char>,
    d: spec_fn(JsonModel) -> Result<T, DecodeError>,
) -> Result<T, DecodeError> {
    match member(m, k) {
        Some(v) => d(v),
        None => Err(DecodeError::MissingField),
    }
}

pub open spec fn real_decoder() -> spec_fn(JsonModel) -> Result<Real, DecodeError> {
    |j: JsonModel| real_from_json(j)
}

pub open spec fn point_decoder() -> spec_fn(JsonModel) -> Result<Point, DecodeError> {
    |j: JsonModel| point_from_json(j)
}

pub open spec fn color_decoder() -> spec_fn(JsonModel) -> Result<Color, DecodeError> {
    |j: JsonModel| color_from_json(j)
}

pub open spec fn monochrome_keys() -> Seq<Seq<char>> {
    seq!["type"@, "color"@]
}

pub open spec fn linear_gradient_keys() -> Seq<Seq<char>> {
    seq!["type"@, "point-1"@, "color-1"@, "point-2"@, "color-2"@]
}

pub open spec fn radial_gradient_keys() -> Seq<Seq<char>> {
    seq!["type"@, "center-1"@, "radius-1"@, "color-1"@, "center-2"@, "radius-2"@, "color-2"@]
}

pub open spec fn pen_keys() -> Seq<Seq<char>> {
    seq!["pattern"@, "width"@, "cap"@, "join"@]
}

pub open spec fn brush_keys() -> Seq<Seq<char>> {
    seq!["pattern"@]
}

/// A pattern is an object tagged `monochrome`, `linear-gradient` or `radial-gradient`.
pub open spec fn pattern_from_json(j: JsonModel) -> Result<Pattern, DecodeError> {
    match tagged_of(j) {
        Err(e) => Err(e),
        Ok((m, t)) => if t == "monochrome"@ {
            if !keys_within(m, monochrome_keys()) {
                Err(DecodeError::UnknownField)
            } else {
                match field(m, "color"@, color_decoder()) {
                    Ok(color) => Ok(Pattern::Monochrome(MonochromePattern { color })),
                    Err(e) => Err(e),
                }
            }
        } else if t == "linear-gradient"@ {
            if !keys_within(m, linear_gradient_keys()) {
                Err(DecodeError::UnknownField)
            } else {
                match (
                    field(m, "point-1"@, point_decoder()),
                    field(m, "color-1"@, color_decoder()),
                    field(m, "point-2"@, point_decoder()),
                    field(m, "color-2"@, color_decoder()),
                ) {
                    (Ok(point_1), Ok(color_1), Ok(point_2), Ok(color_2)) => Ok(
                        Pattern::LinearGradient(
                            LinearGradientPattern { point_1, color_1, point_2, color_2 },
                        ),
                    ),
                    (Err(e), _, _, _) => Err(e),
                    (_, Err(e), _, _) => Err(e),
                    (_, _, Err(e), _) => Err(e),
                    (_, _, _, Err(e)) => Err(e),
                }
            }
        } else if t == "radial-gradient"@ {
            if !keys_within(m, radial_gradient_keys()) {
                Err(DecodeError::UnknownField)
            } else {
                match (
                    field(m, "center-1"@, point_decoder()),
                    field(m, "radius-1"@, real_decoder()),
                    field(m, "color-1"@, color_decoder()),
                    field(m, "center-2"@, point_decoder()),
                    field(m, "radius-2"@, real_decoder()),
                    field(m, "color-2"@, color_decoder()),
                ) {
                    (
                        Ok(center_1),
                        Ok(radius_1),
                        Ok(color_1),
                        Ok(center_2),
                        Ok(radius_2),
                        Ok(color_2),
                    ) => Ok(
                        Pattern::RadialGradient(
                            RadialGradientPattern {
                                center_1,
                                radius_1,
                                color_1,
                                center_2,
                                radius_2,
                                color_2,
                            },
                        ),
                    ),
                    (Err(e), _, _, _, _, _) => Err(e),
                    (_, Err(e), _, _, _, _) => Err(e),
                    (_, _, Err(e), _, _, _) => Err(e),
                    (_, _, _, Err(e), _, _) => Err(e),
                    (_, _, _, _, Err(e), _) => Err(e),
                    (_, _, _, _, _, Err(e)) => Err(e),
                }
            }
        } else {
            Err(DecodeError::UnknownVariant(TagSet::Pattern))
        },
    }
}

pub open spec fn pattern_to_json(p: Pattern) -> JsonModel {
    match p {
        Pattern::Monochrome(q) => JsonModel::Object(
            seq![("type"@, JsonModel::Str("monochrome"@)), ("color"@, color_to_json(q.color))],
        ),
        Pattern::LinearGradient(q) => JsonModel::Object(
            seq![
                ("type"@, JsonModel::Str("linear-gradient"@)),
                ("point-1"@, point_to_json(q.point_1)),
                ("color-1"@, color_to_json(q.color_1)),
                ("point-2"@, point_to_json(q.point_2)),
                ("color-2"@, color_to_json(q.color_2)),
            ],
        ),
        Pattern::RadialGradient(q) => JsonModel::Object(
            seq![
                ("type"@, JsonModel::Str("radial-gradient"@)),
                ("center-1"@, point_to_json(q.center_1)),
                ("radius-1"@, real_to_json(q.radius_1)),
                ("color-1"@, color_to_json(q.color_1)),
                ("center-2"@, point_to_json(q.center_2)),
                ("radius-2"@, real_to_json(q.radius_2)),
                ("color-2"@, color_to_json(q.color_2)),
            ],
        ),
    }
}

/// Every color of the pattern survives encoding.
pub open spec fn pattern_round_trips(p: Pattern) -> bool {
    match p {
        Pattern::Monochrome(q) => color_round_trips(q.color),
        Pattern::LinearGradient(q) => color_round_trips(q.color_1) && color_round_trips(q.color_2),
        Pattern::RadialGradient(q) => color_round_trips(q.color_1) && color_round_trips(q.color_2),
    }
}

pub open spec fn pen_from_json(j: JsonModel) -> Result<Pen, DecodeError> {
    match fields_of(j, pen_keys()) {
        Err(e) => Err(e),
        Ok(m) => match (
            field(m, "pattern"@, |v: JsonModel| pattern_from_json(v)),
            field(m, "width"@, real_decoder()),
            field(m, "cap"@, |v: JsonModel| line_cap_from_json(v)),
            field(m, "join"@, |v: JsonModel| line_join_from_json(v)),
        ) {
            (Ok(pattern), Ok(width), Ok(cap), Ok(join)) => Ok(Pen { pattern, width, cap, join }),
            (Err(e), _, _, _) => Err(e),
            (_, Err(e), _, _) => Err(e),
            (_, _, Err(e), _) => Err(e),
            (_, _, _, Err(e)) => Err(e),
        },
    }
}

pub open spec fn pen_to_json(p: Pen) -> JsonModel {
    JsonModel::Object(
        seq![
            ("pattern"@, pattern_to_json(p.pattern)),
            ("width"@, real_to_json(p.width)),
            ("cap"@, line_cap_to_json(p.cap)),
            ("join"@, line_join_to_json(p.join)),
        ],
    )
}

pub open spec fn brush_from_json(j: JsonModel) -> Result<Brush, DecodeError> {
    match fields_of(j, brush_keys()) {
        Err(e) => Err(e),
        Ok(m) => match field(m, "pattern"@, |v: JsonModel| pattern_from_json(v)) {
            Ok(pattern) => Ok(Brush { pattern }),
            Err(e) => Err(e),
        },
    }
}

pub open spec fn brush_to_json(b: Brush) -> JsonModel {
    JsonModel::Object(seq![("pattern"@, pattern_to_json(b.pattern))])
}

/// The members of an object, where `j` is one.
pub fn object_members(j: &Json) -> (r: Option<&Vec<Member>>)
    ensures
        match r {
            Some(m) => j@ == JsonModel::Object(members_model(m@)),
            None => !(j@ is Object),
        },
{
    match j {
        Json::Object(m) => Some(m),
        _ => None,
    }
}

/// The value of the required key `k` among members whose keys are unique.
pub fn required<'a>(m: &'a Vec<Member>, k: &str) -> (r: Result<&'a Json, DecodeError>)
    requires
        keys_unique(members_model(m@)),
    ensures
        match r {
            Ok(v) => member(members_model(m@), k@) == Some(v@),
            Err(e) => member(members_model(m@), k@) is None && e == DecodeError::MissingField,
        },
{
    match find_member(m, k) {
        Some(v) => Ok(v),
        None => Err(DecodeError::MissingField),
    }
}

fn monochrome_key_list() -> (r: Vec<&'static str>)
    ensures
        keys_model(r@) == monochrome_keys(),
{
    let r = vec!["type", "color"];
    assert(keys_model(r@) =~= monochrome_keys());
    r
}

fn linear_gradient_key_list() -> (r: Vec<&'static str>)
    ensures
        keys_model(r@) == linear_gradient_keys(),
{
    let r = vec!["type", "point-1", "color-1", "point-2", "color-2"];
    assert(keys_model(r@) =~= linear_gradient_keys());
    r
}

fn radial_gradient_key_list() -> (r: Vec<&'static str>)
    ensures
        keys_model(r@) == radial_gradient_keys(),
{
    let r = vec!["type", "center-1", "radius-1", "color-1", "center-2", "radius-2", "color-2"];
    assert(keys_model(r@) =~= radial_gradient_keys());
    r
}

fn pen_key_list() -> (r: Vec<&'static str>)
    ensures
        keys_model(r@) == pen_keys(),
{
    let r = vec!["pattern", "width", "cap", "join"];
    assert(keys_model(r@) =~= pen_keys());
    r
}

fn brush_key_list() -> (r: Vec<&'static str>)
    ensures
        keys_model(r@) == brush_keys(),
{
    let r = vec!["pattern"];
    assert(keys_model(r@) =~= brush_keys());
    r
}

impl Pattern {
    pub fn from_json(j: &Json) -> (r: Result<Pattern, DecodeError>)
        ensures
            r == pattern_from_json(j@),
    {
        let m = match object_members(j) {
            Some(m) => m,
            None => return Err(DecodeError::WrongType),
        };
        if !keys_are_unique(m) {
            return Err(DecodeError::DuplicateField);
        }
        let t = match find_member(m, "type") {
            Some(Json::Str(t)) => t,
            Some(_) => return Err(DecodeError::WrongType),
            None => return Err(DecodeError::MissingField),
        };
        if string_is(t, "monochrome") {
            if !keys_are_within(m, &monochrome_key_list()) {
                return Err(DecodeError::UnknownField);
            }
            let color = Color::from_json(required(m, "color")?)?;
            Ok(Pattern::Monochrome(MonochromePattern { color }))
        } else if string_is(t, "linear-gradient") {
            if !keys_are_within(m, &linear_gradient_key_list()) {
                return Err(DecodeError::UnknownField);
            }
            let point_1 = Point::from_json(required(m, "point-1")?)?;
            let color_1 = Color::from_json(required(m, "color-1")?)?;
            let point_2 = Point::from_json(required(m, "point-2")?)?;
            let color_2 = Color::from_json(required(m, "color-2")?)?;
            Ok(Pattern::LinearGradient(LinearGradientPattern { point_1, color_1, point_2, color_2 }))
        } else if string_is(t, "radial-gradient") {
            if !keys_are_within(m, &radial_gradient_key_list()) {
                return Err(DecodeError::UnknownField);
            }
            let center_1 = Point::from_json(required(m, "center-1")?)?;
            let radius_1 = Real::from_json(required(m, "radius-1")?)?;
            let color_1 = Color::from_json(required(m, "color-1")?)?;
            let center_2 = Point::from_json(required(m, "center-2")?)?;
            let radius_2 = Real::from_json(required(m, "radius-2")?)?;
            let color_2 = Color::from_json(required(m, "color-2")?)?;
            Ok(
                Pattern::RadialGradient(
                    RadialGradientPattern { center_1, radius_1, color_1, center_2, radius_2, color_2 },
                ),
            )
        } else {
            Err(DecodeError::UnknownVariant(TagSet::Pattern))
        }
    }
}

impl Pattern {
    pub fn to_json(&self) -> (r: Json)
        ensures
            r@ == pattern_to_json(*self),
    {
        match self {
            Pattern::Monochrome(q) => {
                let r = object_of(
                    vec![
                        member_of("type", Json::Str("monochrome".to_owned())),
                        member_of("color", q.color.to_json()),
                    ],
                );
                assert(r@ == pattern_to_json(*self)) by {
                    if let JsonModel::Object(s) = r@ {
                        assert(s =~= seq![
                            ("type"@, JsonModel::Str("monochrome"@)),
                            ("color"@, color_to_json(q.color)),
                        ]);
                    }
                }
                r
            },
            Pattern::LinearGradient(q) => {
                let r = object_of(
                    vec![
                        member_of("type", Json::Str("linear-gradient".to_owned())),
                        member_of("point-1", q.point_1.to_json()),
                        member_of("color-1", q.color_1.to_json()),
                        member_of("point-2", q.point_2.to_json()),
                        member_of("color-2", q.color_2.to_json()),
                    ],
                );
                assert(r@ == pattern_to_json(*self)) by {
                    if let JsonModel::Object(s) = r@ {
                        assert(s =~= seq![
                            ("type"@, JsonModel::Str("linear-gradient"@)),
                            ("point-1"@, point_to_json(q.point_1)),
                            ("color-1"@, color_to_json(q.color_1)),
                            ("point-2"@, point_to_json(q.point_2)),
                            ("color-2"@, color_to_json(q.color_2)),
                        ]);
                    }
                }
                r
            },
            Pattern::RadialGradient(q) => {
                let r = object_of(
                    vec![
                        member_of("type", Json::Str("radial-gradient".to_owned())),
                        member_of("center-1", q.center_1.to_json()),
                        member_of("radius-1", q.radius_1.to_json()),
                        member_of("color-1", q.color_1.to_json()),
                        member_of("center-2", q.center_2.to_json()),
                        member_of("radius-2", q.radius_2.to_json()),
                        member_of("color-2", q.color_2.to_json()),
                    ],
                );
                assert(r@ == pattern_to_json(*self)) by {
                    if let JsonModel::Object(s) = r@ {
                        assert(s =~= seq![
                            ("type"@, JsonModel::Str("radial-gradient"@)),
                            ("center-1"@, point_to_json(q.center_1)),
                            ("radius-1"@, real_to_json(q.radius_1)),
                            ("color-1"@, color_to_json(q.color_1)),
                            ("center-2"@, point_to_json(q.center_2)),
                            ("radius-2"@, real_to_json(q.radius_2)),
                            ("color-2"@, color_to_json(q.color_2)),
                        ]);
                    }
                }
                r
            },
        }
    }
}

impl Pen {
    pub fn from_json(j: &Json) -> (r: Result<Pen, DecodeError>)
        ensures
            r == pen_from_json(j@),
    {
        let m = match object_members(j) {
            Some(m) => m,
            None => return Err(DecodeError::WrongType),
        };
        if !keys_are_unique(m) {
            return Err(DecodeError::DuplicateField);
        }
        if !keys_are_within(m, &pen_key_list()) {
            return Err(DecodeError::UnknownField);
        }
        let pattern = Pattern::from_json(required(m, "pattern")?)?;
        let width = Real::from_json(required(m, "width")?)?;
        let cap = LineCap::from_json(required(m, "cap")?)?;
        let join = LineJoin::from_json(required(m, "join")?)?;
        Ok(Pen { pattern, width, cap, join })
    }

    pub fn to_json(&self) -> (r: Json)
        ensures
            r@ == pen_to_json(*self),
    {
        let r = object_of(
            vec![
                member_of("pattern", self.pattern.to_json()),
                member_of("width", self.width.to_json()),
                member_of("cap", self.cap.to_json()),
                member_of("join", self.join.to_json()),
            ],
        );
        assert(r@ == pen_to_json(*self)) by {
            if let JsonModel::Object(s) = r@ {
                assert(s =~= seq![
                    ("pattern"@, pattern_to_json(self.pattern)),
                    ("width"@, real_to_json(self.width)),
                    ("cap"@, line_cap_to_json(self.cap)),
                    ("join"@, line_join_to_json(self.join)),
                ]);
            }
        }
        r
    }
}

impl Brush {
    pub fn from_json(j: &Json) -> (r: Result<Brush, DecodeError>)
        ensures
            r == brush_from_json(j@),
    {
        let m = match object_members(j) {
            Some(m) => m,
            None => return Err(DecodeError::WrongType),
        };
        if !keys_are_unique(m) {
            return Err(DecodeError::DuplicateField);
        }
        if !keys_are_within(m, &brush_key_list()) {
            return Err(DecodeError::UnknownField);
        }
        let pattern = Pattern::from_json(required(m, "pattern")?)?;
        Ok(Brush { pattern })
    }

    pub fn to_json(&self) -> (r: Json)
        ensures
            r@ == brush_to_json(*self),
    {
        let r = object_of(vec![member_of("pattern", self.pattern.to_json())]);
        assert(r@ == brush_to_json(*self)) by {
            if let JsonModel::Object(s) = r@ {
                assert(s =~= seq![("pattern"@, pattern_to_json(self.pattern))]);
            }
        }
        r
    }
}

/// What the field names are made of, enough to tell any two apart.
pub proof fn lemma_field_names()
    ensures
        "type"@.len() == 4,
        "type"@[0] == 't',
        "color"@.len() == 5,
        "color"@[0] == 'c',
        "point-1"@.len() == 7,
        "point-1"@[0] == 'p',
        "point-1"@[1] == 'o',
        "point-1"@[2] == 'i',
        "point-1"@[6] == '1',
        "color-1"@.len() == 7,
        "color-1"@[0] == 'c',
        "color-1"@[1] == 'o',
        "color-1"@[2] == 'l',
        "color-1"@[6] == '1',
        "point-2"@.len() == 7,
        "point-2"@[0] == 'p',
        "point-2"@[1] == 'o',
        "point-2"@[2] == 'i',
        "point-2"@[6] == '2',
        "color-2"@.len() == 7,
        "color-2"@[0] == 'c',
        "color-2"@[1] == 'o',
        "color-2"@[2] == 'l',
        "color-2"@[6] == '2',
        "center-1"@.len() == 8,
        "center-1"@[0] == 'c',
        "center-1"@[7] == '1',
        "radius-1"@.len() == 8,
        "radius-1"@[0] == 'r',
        "radius-1"@[7] == '1',
        "center-2"@.len() == 8,
        "center-2"@[0] == 'c',
        "center-2"@[7] == '2',
        "radius-2"@.len() == 8,
        "radius-2"@[0] == 'r',
        "radius-2"@[7] == '2',
        "pattern"@.len() == 7,
        "pattern"@[0] == 'p',
        "pattern"@[1] == 'a',
        "pattern"@[2] == 't',
        "content"@.len() == 7,
        "content"@[0] == 'c',
        "content"@[1] == 'o',
        "content"@[2] == 'n',
        "brushes"@.len() == 7,
        "brushes"@[0] == 'b',
        "width"@.len() == 5,
        "width"@[0] == 'w',
        "cap"@.len() == 3,
        "cap"@[0] == 'c',
        "join"@.len() == 4,
        "join"@[0] == 'j',
        "edit-annot"@.len() == 10,
        "edit-annot"@[0] == 'e',
        "pen"@.len() == 3,
        "pen"@[0] == 'p',
        "brush"@.len() == 5,
        "brush"@[0] == 'b',
        "data"@.len() == 4,
        "data"@[0] == 'd',
        "unit-per-inch"@.len() == 13,
        "unit-per-inch"@[0] == 'u',
        "height"@.len() == 6,
        "height"@[0] == 'h',
        "editor"@.len() == 6,
        "editor"@[0] == 'e',
        "pens"@.len() == 4,
        "pens"@[0] == 'p',
        "shapes"@.len() == 6,
        "shapes"@[0] == 's',
{
    reveal_strlit("type");
    reveal_strlit("color");
    reveal_strlit("point-1");
    reveal_strlit("color-1");
    reveal_strlit("point-2");
    reveal_strlit("color-2");
    reveal_strlit("center-1");
    reveal_strlit("radius-1");
    reveal_strlit("center-2");
    reveal_strlit("radius-2");
    reveal_strlit("pattern");
    reveal_strlit("content");
    reveal_strlit("brushes");
    reveal_strlit("width");
    reveal_strlit("cap");
    reveal_strlit("join");
    reveal_strlit("edit-annot");
    reveal_strlit("pen");
    reveal_strlit("brush");
    reveal_strlit("data");
    reveal_strlit("unit-per-inch");
    reveal_strlit("height");
    reveal_strlit("editor");
    reveal_strlit("pens");
    reveal_strlit("shapes");
}

/// Decoding an encoded pattern gives it back, where its colors survive encoding.
pub proof fn lemma_pattern_round_trip(p: Pattern)
    requires
        pattern_round_trips(p),
    ensures
        pattern_from_json(pattern_to_json(p)) == Ok::<Pattern, DecodeError>(p),
{
    lemma_field_names();
    reveal_strlit("monochrome");
    reveal_strlit("linear-gradient");
    reveal_strlit("radial-gradient");
    assert("monochrome"@[0] == 'm' && "linear-gradient"@[0] == 'l' && "radial-gradient"@[0] == 'r');
    let m = pattern_to_json(p)->Object_0;
    assert(keys_unique(m));
    lemma_member_at(m, 0);
    match p {
        Pattern::Monochrome(q) => {
            lemma_member_at(m, 1);
            lemma_color_round_trip(q.color);
            assert(keys_within(m, monochrome_keys()));
        },
        Pattern::LinearGradient(q) => {
            lemma_member_at(m, 1);
            lemma_member_at(m, 2);
            lemma_member_at(m, 3);
            lemma_member_at(m, 4);
            lemma_color_round_trip(q.color_1);
            lemma_color_round_trip(q.color_2);
            lemma_point_round_trip(q.point_1);
            lemma_point_round_trip(q.point_2);
            assert(keys_within(m, linear_gradient_keys()));
        },
        Pattern::RadialGradient(q) => {
            lemma_member_at(m, 1);
            lemma_member_at(m, 2);
            lemma_member_at(m, 3);
            lemma_member_at(m, 4);
            lemma_member_at(m, 5);
            lemma_member_at(m, 6);
            lemma_color_round_trip(q.color_1);
            lemma_color_round_trip(q.color_2);
            lemma_point_round_trip(q.center_1);
            lemma_point_round_trip(q.center_2);
            assert(keys_within(m, radial_gradient_keys()));
        },
    }
}

/// Decoding an encoded pen gives it back, where its colors survive encoding.
pub proof fn lemma_pen_round_trip(p: Pen)
    requires
        pattern_round_trips(p.pattern),
    ensures
        pen_from_json(pen_to_json(p)) == Ok::<Pen, DecodeError>(p),
{
    lemma_field_names();
    let m = pen_to_json(p)->Object_0;
    assert(keys_unique(m));
    assert(keys_within(m, pen_keys()));
    lemma_member_at(m, 0);
    lemma_member_at(m, 1);
    lemma_member_at(m, 2);
    lemma_member_at(m, 3);
    lemma_pattern_round_trip(p.pattern);
    lemma_line_cap_round_trip(p.cap);
    lemma_line_join_round_trip(p.join);
}

/// Decoding an encoded brush gives it back, where its colors survive encoding.
pub proof fn lemma_brush_round_trip(b: Brush)
    requires
        pattern_round_trips(b.pattern),
    ensures
        brush_from_json(brush_to_json(b)) == Ok::<Brush, DecodeError>(b),
{
    lemma_field_names();
    let m = brush_to_json(b)->Object_0;
    assert(keys_unique(m));
    assert(m[0].0 == brush_keys()[0]);
    assert(keys_within(m, brush_keys()));
    lemma_member_at(m, 0);
    lemma_pattern_round_trip(b.pattern);
}

} // verus!
