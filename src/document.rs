//! The object encoding of shapes and of whole images.
use vstd::prelude::*;

use crate::codec::{
    curve_from_json, curve_to_json, index_from, index_from_json, index_to, index_to_json,
    lemma_curve_round_trip, real_from_json, real_to_json,
};
use crate::image::{
    curves_model, lemma_shape_seq_model, shape_seq_model, Brush, CurveData, CurveModel,
    CurveShape, GroupShape, Image, ImageModel, Pen, RegionShape, Shape, ShapeModel,
};
use crate::json::{
    all_from_json, has_key, key_index, member_index, json_views, keys_are_unique, keys_are_within, keys_model,
    keys_unique, keys_within, lemma_all_from_json_error, lemma_all_from_json_round_trip,
    lemma_all_from_json_step, lemma_json_seq_model, lemma_key_index_at, lemma_member_at, lemma_members_model, member,
    member_of, members_model, object_of, string_is, DecodeError, Json, TagSet, JsonModel, Member,
};
use crate::records::{
    brush_from_json, brush_to_json, fields_of, field, lemma_brush_round_trip, lemma_field_names,
    lemma_pen_round_trip, object_members, pattern_round_trips, pen_from_json, pen_to_json,
    real_decoder, required,
};
use crate::scalar::Real;

verus! {

pub open spec fn group_keys() -> Seq<Seq<char>> {
    seq!["type"@, "content"@, "edit-annot"@]
}

pub open spec fn curve_keys() -> Seq<Seq<char>> {
    seq!["type"@, "pen"@, "data"@]
}

pub open spec fn region_keys() -> Seq<Seq<char>> {
    seq!["type"@, "pen"@, "brush"@, "data"@]
}

pub open spec fn image_keys() -> Seq<Seq<char>> {
    seq!["width"@, "height"@, "unit-per-inch"@, "editor"@, "pens"@, "brushes"@, "shapes"@]
}

pub open spec fn curve_decoder() -> spec_fn(JsonModel) -> Result<CurveModel, DecodeError> {
    |j: JsonModel| curve_from_json(j)
}

pub open spec fn pen_decoder() -> spec_fn(JsonModel) -> Result<Pen, DecodeError> {
    |j: JsonModel| pen_from_json(j)
}

pub open spec fn brush_decoder() -> spec_fn(JsonModel) -> Result<Brush, DecodeError> {
    |j: JsonModel| brush_from_json(j)
}

/// An optional index: absent or `null` is none.
pub open spec fn optional_index(m: Seq<(Seq<char>, JsonModel)>, k: Seq<char>) -> Result<
    Option<usize>,
    DecodeError,
> {
    match member(m, k) {
        None => Ok(None),
        Some(JsonModel::Null) => Ok(None),
        Some(v) => match index_from_json(v) {
            Ok(i) => Ok(Some(i)),
            Err(e) => Err(e),
        },
    }
}

/// A required array, each element decoded with `d`.
pub open spec fn list_field<T>(
    m: Seq<(Seq<char>, JsonModel)>,
    k: Seq<char>,
    d: spec_fn(JsonModel) -> Result<T, DecodeError>,
) -> Result<Seq<T>, DecodeError> {
    match member(m, k) {
        Some(JsonModel::Array(a)) => all_from_json(a, d),
        Some(_) => Err(DecodeError::WrongType),
        None => Err(DecodeError::MissingField),
    }
}

/// A shape is an object tagged `group`, `curve` or `region`.
pub open spec fn shape_from_json(j: JsonModel) -> Result<ShapeModel, DecodeError>
    decreases j,
{
    match j {
        JsonModel::Object(m) => if !keys_unique(m) {
            Err(DecodeError::DuplicateField)
        } else {
            match member(m, "type"@) {
                None => Err(DecodeError::MissingField),
                Some(JsonModel::Str(t)) => if t == "group"@ {
                    if !keys_within(m, group_keys()) {
                        Err(DecodeError::UnknownField)
                    } else if !has_key(m, "content"@) {
                        Err(DecodeError::MissingField)
                    } else {
                        let edit_annot = match member(m, "edit-annot"@) {
                            Some(v) => v,
                            None => JsonModel::Null,
                        };
                        let i = key_index(m, "content"@);
                        match m[i].1 {
                            JsonModel::Array(a) => match shapes_from_json(a) {
                                Ok(content) => Ok(ShapeModel::Group { content, edit_annot }),
                                Err(e) => Err(e),
                            },
                            _ => Err(DecodeError::WrongType),
                        }
                    }
                } else if t == "curve"@ {
                    if !keys_within(m, curve_keys()) {
                        Err(DecodeError::UnknownField)
                    } else {
                        match (
                            field(m, "pen"@, |v: JsonModel| index_from_json(v)),
                            field(m, "data"@, curve_decoder()),
                        ) {
                            (Ok(pen), Ok(data)) => Ok(ShapeModel::Curve { pen, data }),
                            (Err(e), _) => Err(e),
                            (_, Err(e)) => Err(e),
                        }
                    }
                } else if t == "region"@ {
                    if !keys_within(m, region_keys()) {
                        Err(DecodeError::UnknownField)
                    } else {
                        match (
                            optional_index(m, "pen"@),
                            optional_index(m, "brush"@),
                            list_field(m, "data"@, curve_decoder()),
                        ) {
                            (Ok(pen), Ok(brush), Ok(data)) => Ok(
                                ShapeModel::Region { pen, brush, data },
                            ),
                            (Err(e), _, _) => Err(e),
                            (_, Err(e), _) => Err(e),
                            (_, _, Err(e)) => Err(e),
                        }
                    }
                } else {
                    Err(DecodeError::UnknownVariant(TagSet::Shape))
                },
                Some(_) => Err(DecodeError::WrongType),
            }
        },
        _ => Err(DecodeError::WrongType),
    }
}

/// Decodes each shape in order; the first that fails gives the error.
pub open spec fn shapes_from_json(s: Seq<JsonModel>) -> Result<Seq<ShapeModel>, DecodeError>
    decreases s,
{
    if s.len() == 0 {
        Ok(Seq::empty())
    } else {
        match shapes_from_json(s.drop_last()) {
            Err(e) => Err(e),
            Ok(p) => match shape_from_json(s.last()) {
                Ok(x) => Ok(p.push(x)),
                Err(e) => Err(e),
            },
        }
    }
}

pub open spec fn curve_encoder() -> spec_fn(CurveModel) -> JsonModel {
    |c: CurveModel| curve_to_json(c)
}

pub open spec fn pen_encoder() -> spec_fn(Pen) -> JsonModel {
    |p: Pen| pen_to_json(p)
}

pub open spec fn brush_encoder() -> spec_fn(Brush) -> JsonModel {
    |b: Brush| brush_to_json(b)
}

/// A member written only where the value is given.
pub open spec fn optional_index_member(k: Seq<char>, i: Option<usize>) -> Seq<(Seq<char>, JsonModel)> {
    match i {
        Some(i) => seq![(k, index_to_json(i))],
        None => Seq::empty(),
    }
}

/// The tag comes first, then the fields in order; an absent pen or brush and
/// a `null` annotation are left out.
pub open spec fn shape_to_json(s: ShapeModel) -> JsonModel
    decreases s,
{
    match s {
        ShapeModel::Group { content, edit_annot } => JsonModel::Object(
            seq![
                ("type"@, JsonModel::Str("group"@)),
                ("content"@, JsonModel::Array(shapes_to_json(content))),
            ] + if edit_annot is Null {
                Seq::empty()
            } else {
                seq![("edit-annot"@, edit_annot)]
            },
        ),
        ShapeModel::Curve { pen, data } => JsonModel::Object(
            seq![
                ("type"@, JsonModel::Str("curve"@)),
                ("pen"@, index_to_json(pen)),
                ("data"@, curve_to_json(data)),
            ],
        ),
        ShapeModel::Region { pen, brush, data } => JsonModel::Object(
            seq![("type"@, JsonModel::Str("region"@))] + optional_index_member("pen"@, pen)
                + optional_index_member("brush"@, brush) + seq![
                ("data"@, JsonModel::Array(data.map_values(curve_encoder()))),
            ],
        ),
    }
}

pub open spec fn shapes_to_json(s: Seq<ShapeModel>) -> Seq<JsonModel>
    decreases s,
{
    if s.len() == 0 {
        Seq::empty()
    } else {
        shapes_to_json(s.drop_last()).push(shape_to_json(s.last()))
    }
}

pub open spec fn image_from_json(j: JsonModel) -> Result<ImageModel, DecodeError> {
    match fields_of(j, image_keys()) {
        Err(e) => Err(e),
        Ok(m) => {
            let editor = match member(m, "editor"@) {
                None => Ok(None),
                Some(JsonModel::Null) => Ok(None),
                Some(JsonModel::Str(e)) => Ok(Some(e)),
                Some(_) => Err(DecodeError::WrongType),
            };
            let shapes = match member(m, "shapes"@) {
                Some(JsonModel::Array(a)) => shapes_from_json(a),
                Some(_) => Err(DecodeError::WrongType),
                None => Err(DecodeError::MissingField),
            };
            match (
                field(m, "width"@, real_decoder()),
                field(m, "height"@, real_decoder()),
                field(m, "unit-per-inch"@, real_decoder()),
                editor,
                list_field(m, "pens"@, pen_decoder()),
                list_field(m, "brushes"@, brush_decoder()),
                shapes,
            ) {
                (
                    Ok(width),
                    Ok(height),
                    Ok(unit_per_inch),
                    Ok(editor),
                    Ok(pens),
                    Ok(brushes),
                    Ok(shapes),
                ) => Ok(ImageModel { width, height, unit_per_inch, editor, pens, brushes, shapes }),
                (Err(e), _, _, _, _, _, _) => Err(e),
                (_, Err(e), _, _, _, _, _) => Err(e),
                (_, _, Err(e), _, _, _, _) => Err(e),
                (_, _, _, Err(e), _, _, _) => Err(e),
                (_, _, _, _, Err(e), _, _) => Err(e),
                (_, _, _, _, _, Err(e), _) => Err(e),
                (_, _, _, _, _, _, Err(e)) => Err(e),
            }
        },
    }
}

/// The fields in order; an absent editor tag is left out.
pub open spec fn image_to_json(i: ImageModel) -> JsonModel {
    JsonModel::Object(
        seq![
            ("width"@, real_to_json(i.width)),
            ("height"@, real_to_json(i.height)),
            ("unit-per-inch"@, real_to_json(i.unit_per_inch)),
        ] + match i.editor {
            Some(e) => seq![("editor"@, JsonModel::Str(e))],
            None => Seq::empty(),
        } + seq![
            ("pens"@, JsonModel::Array(i.pens.map_values(pen_encoder()))),
            ("brushes"@, JsonModel::Array(i.brushes.map_values(brush_encoder()))),
            ("shapes"@, JsonModel::Array(shapes_to_json(i.shapes))),
        ],
    )
}

/// One more shape decoded after a prefix that decoded.
pub proof fn lemma_shapes_from_json_step(s: Seq<JsonModel>, i: int)
    requires
        0 <= i < s.len(),
    ensures
        shapes_from_json(s.take(i + 1)) == match shapes_from_json(s.take(i)) {
            Err(e) => Err(e),
            Ok(p) => match shape_from_json(s[i]) {
                Ok(x) => Ok(p.push(x)),
                Err(e) => Err(e),
            },
        },
{
    assert(s.take(i + 1).drop_last() =~= s.take(i));
}

/// An error in a prefix is the error of the whole sequence.
pub proof fn lemma_shapes_from_json_error(s: Seq<JsonModel>, k: int)
    requires
        0 <= k <= s.len(),
        shapes_from_json(s.take(k)) is Err,
    ensures
        shapes_from_json(s) == shapes_from_json(s.take(k)),
    decreases s.len() - k,
{
    if k < s.len() {
        lemma_shapes_from_json_step(s, k);
        lemma_shapes_from_json_error(s, k + 1);
    } else {
        assert(s.take(k) =~= s);
    }
}

fn group_key_list() -> (r: Vec<&'static str>)
    ensures
        keys_model(r@) == group_keys(),
{
    let r = vec!["type", "content", "edit-annot"];
    assert(keys_model(r@) =~= group_keys());
    r
}

fn curve_key_list() -> (r: Vec<&'static str>)
    ensures
        keys_model(r@) == curve_keys(),
{
    let r = vec!["type", "pen", "data"];
    assert(keys_model(r@) =~= curve_keys());
    r
}

fn region_key_list() -> (r: Vec<&'static str>)
    ensures
        keys_model(r@) == region_keys(),
{
    let r = vec!["type", "pen", "brush", "data"];
    assert(keys_model(r@) =~= region_keys());
    r
}

fn image_key_list() -> (r: Vec<&'static str>)
    ensures
        keys_model(r@) == image_keys(),
{
    let r = vec!["width", "height", "unit-per-inch", "editor", "pens", "brushes", "shapes"];
    assert(keys_model(r@) =~= image_keys());
    r
}

/// Decodes an optional index among members whose keys are unique.
fn optional_index_from(m: &Vec<Member>, k: &str) -> (r: Result<Option<usize>, DecodeError>)
    requires
        keys_unique(members_model(m@)),
    ensures
        r == optional_index(members_model(m@), k@),
{
    match crate::json::find_member(m, k) {
        None => Ok(None),
        Some(Json::Null) => Ok(None),
        Some(v) => match index_from(v) {
            Ok(i) => Ok(Some(i)),
            Err(e) => Err(e),
        },
    }
}

/// Decodes each element of `a` as a path.
fn curves_from(a: &Vec<Json>) -> (r: Result<Vec<CurveData>, DecodeError>)
    ensures
        match r {
            Ok(v) => all_from_json(json_views(a@), curve_decoder()) == Ok::<
                Seq<CurveModel>,
                DecodeError,
            >(curves_model(v@)),
            Err(e) => all_from_json(json_views(a@), curve_decoder()) == Err::<
                Seq<CurveModel>,
                DecodeError,
            >(e),
        },
{
    let ghost s = json_views(a@);
    let mut out: Vec<CurveData> = Vec::new();
    assert(curves_model(out@) =~= Seq::empty());
    let mut i: usize = 0;
    while i < a.len()
        invariant
            i <= a@.len(),
            s == json_views(a@),
            all_from_json(s.take(i as int), curve_decoder()) == Ok::<Seq<CurveModel>, DecodeError>(
                curves_model(out@),
            ),
        decreases a@.len() - i,
    {
        proof {
            lemma_all_from_json_step(s, curve_decoder(), i as int);
        }
        match CurveData::from_json(&a[i]) {
            Ok(c) => {
                let ghost before = out@;
                out.push(c);
                proof {
                    assert(curves_model(out@) =~= curves_model(before).push(c@));
                }
            },
            Err(e) => {
                proof {
                    lemma_all_from_json_error(s, curve_decoder(), i + 1);
                }
                return Err(e);
            },
        }
        i += 1;
    }
    proof {
        assert(s.take(i as int) =~= s);
    }
    Ok(out)
}

/// Decodes each element of `a` as a pen.
fn pens_from(a: &Vec<Json>) -> (r: Result<Vec<Pen>, DecodeError>)
    ensures
        match r {
            Ok(v) => all_from_json(json_views(a@), pen_decoder()) == Ok::<Seq<Pen>, DecodeError>(v@),
            Err(e) => all_from_json(json_views(a@), pen_decoder()) == Err::<Seq<Pen>, DecodeError>(e),
        },
{
    let ghost s = json_views(a@);
    let mut out: Vec<Pen> = Vec::new();
    let mut i: usize = 0;
    while i < a.len()
        invariant
            i <= a@.len(),
            s == json_views(a@),
            all_from_json(s.take(i as int), pen_decoder()) == Ok::<Seq<Pen>, DecodeError>(out@),
        decreases a@.len() - i,
    {
        proof {
            lemma_all_from_json_step(s, pen_decoder(), i as int);
        }
        match Pen::from_json(&a[i]) {
            Ok(p) => out.push(p),
            Err(e) => {
                proof {
                    lemma_all_from_json_error(s, pen_decoder(), i + 1);
                }
                return Err(e);
            },
        }
        i += 1;
    }
    proof {
        assert(s.take(i as int) =~= s);
    }
    Ok(out)
}

/// Decodes each element of `a` as a brush.
fn brushes_from(a: &Vec<Json>) -> (r: Result<Vec<Brush>, DecodeError>)
    ensures
        match r {
            Ok(v) => all_from_json(json_views(a@), brush_decoder()) == Ok::<Seq<Brush>, DecodeError>(
                v@,
            ),
            Err(e) => all_from_json(json_views(a@), brush_decoder()) == Err::<
                Seq<Brush>,
                DecodeError,
            >(e),
        },
{
    let ghost s = json_views(a@);
    let mut out: Vec<Brush> = Vec::new();
    let mut i: usize = 0;
    while i < a.len()
        invariant
            i <= a@.len(),
            s == json_views(a@),
            all_from_json(s.take(i as int), brush_decoder()) == Ok::<Seq<Brush>, DecodeError>(out@),
        decreases a@.len() - i,
    {
        proof {
            lemma_all_from_json_step(s, brush_decoder(), i as int);
        }
        match Brush::from_json(&a[i]) {
            Ok(b) => out.push(b),
            Err(e) => {
                proof {
                    lemma_all_from_json_error(s, brush_decoder(), i + 1);
                }
                return Err(e);
            },
        }
        i += 1;
    }
    proof {
        assert(s.take(i as int) =~= s);
    }
    Ok(out)
}

/// Decodes each element of `a` as a shape.
pub fn shapes_from(a: &Vec<Json>) -> (r: Result<Vec<Shape>, DecodeError>)
    ensures
        match r {
            Ok(v) => shapes_from_json(json_views(a@)) == Ok::<Seq<ShapeModel>, DecodeError>(
                shape_seq_model(v@),
            ),
            Err(e) => shapes_from_json(json_views(a@)) == Err::<Seq<ShapeModel>, DecodeError>(e),
        },
    decreases a,
{
    let ghost s = json_views(a@);
    let mut content: Vec<Shape> = Vec::new();
    let mut k: usize = 0;
    while k < a.len()
        invariant
            k <= a@.len(),
            s == json_views(a@),
            shapes_from_json(s.take(k as int)) == Ok::<Seq<ShapeModel>, DecodeError>(
                shape_seq_model(content@),
            ),
        decreases a@.len() - k,
    {
        proof {
            lemma_shapes_from_json_step(s, k as int);
            assert(decreases_to!(*a => a[k as int]));
        }
        match Shape::from_json(&a[k]) {
            Ok(c) => {
                let ghost before = content@;
                content.push(c);
                proof {
                    lemma_shape_seq_model(before);
                    lemma_shape_seq_model(content@);
                    assert(shape_seq_model(content@) =~= shape_seq_model(before).push(c@));
                }
            },
            Err(e) => {
                proof {
                    lemma_shapes_from_json_error(s, k + 1);
                }
                return Err(e);
            },
        }
        k += 1;
    }
    proof {
        assert(s.take(k as int) =~= s);
    }
    Ok(content)
}

impl Shape {
    pub fn from_json(j: &Json) -> (r: Result<Shape, DecodeError>)
        ensures
            match r {
                Ok(s) => shape_from_json(j@) == Ok::<ShapeModel, DecodeError>(s@),
                Err(e) => shape_from_json(j@) == Err::<ShapeModel, DecodeError>(e),
            },
        decreases j,
    {
        let m = match j {
            Json::Object(m) => m,
            _ => return Err(DecodeError::WrongType),
        };
        let ghost mm = members_model(m@);
        proof {
            lemma_members_model(m@);
        }
        if !keys_are_unique(m) {
            return Err(DecodeError::DuplicateField);
        }
        let t = match crate::json::find_member(m, "type") {
            Some(Json::Str(t)) => t,
            Some(_) => return Err(DecodeError::WrongType),
            None => return Err(DecodeError::MissingField),
        };
        if string_is(t, "group") {
            if !keys_are_within(m, &group_key_list()) {
                return Err(DecodeError::UnknownField);
            }
            let i = match member_index(m, "content") {
                Some(i) => i,
                None => return Err(DecodeError::MissingField),
            };
            let edit_annot = match crate::json::find_member(m, "edit-annot") {
                Some(v) => v.duplicate(),
                None => Json::Null,
            };
            let a = match &m[i].value {
                Json::Array(a) => a,
                _ => return Err(DecodeError::WrongType),
            };
            proof {
                crate::json::lemma_array_views(*a);
                assert(mm[i as int].1 == JsonModel::Array(json_views(a@)));
                assert(decreases_to!(*j => (*j)->Object_0));
                assert(decreases_to!(*m => m[i as int]));
                assert(decreases_to!(m[i as int] => m[i as int].value));
                assert(decreases_to!(m[i as int].value => (m[i as int].value)->Array_0));
            }
            let content = shapes_from(a)?;
            Ok(Shape::Group(GroupShape { content, edit_annot }))
        } else if string_is(t, "curve") {
            if !keys_are_within(m, &curve_key_list()) {
                return Err(DecodeError::UnknownField);
            }
            let pen = index_from(required(m, "pen")?)?;
            let data = CurveData::from_json(required(m, "data")?)?;
            Ok(Shape::Curve(CurveShape { pen, data }))
        } else if string_is(t, "region") {
            if !keys_are_within(m, &region_key_list()) {
                return Err(DecodeError::UnknownField);
            }
            let pen = optional_index_from(m, "pen")?;
            let brush = optional_index_from(m, "brush")?;
            let data = match required(m, "data")? {
                Json::Array(a) => {
                    proof {
                        crate::json::lemma_array_views(*a);
                    }
                    curves_from(a)?
                },
                _ => return Err(DecodeError::WrongType),
            };
            Ok(Shape::Region(RegionShape { pen, brush, data }))
        } else {
            Err(DecodeError::UnknownVariant(TagSet::Shape))
        }
    }
}

impl Image {
    pub fn from_json(j: &Json) -> (r: Result<Image, DecodeError>)
        ensures
            match r {
                Ok(i) => image_from_json(j@) == Ok::<ImageModel, DecodeError>(i@),
                Err(e) => image_from_json(j@) == Err::<ImageModel, DecodeError>(e),
            },
    {
        let m = match object_members(j) {
            Some(m) => m,
            None => return Err(DecodeError::WrongType),
        };
        if !keys_are_unique(m) {
            return Err(DecodeError::DuplicateField);
        }
        if !keys_are_within(m, &image_key_list()) {
            return Err(DecodeError::UnknownField);
        }
        let width = Real::from_json(required(m, "width")?)?;
        let height = Real::from_json(required(m, "height")?)?;
        let unit_per_inch = Real::from_json(required(m, "unit-per-inch")?)?;
        let editor = match crate::json::find_member(m, "editor") {
            None => None,
            Some(Json::Null) => None,
            Some(Json::Str(e)) => Some(e.clone()),
            Some(_) => return Err(DecodeError::WrongType),
        };
        let pens = match required(m, "pens")? {
            Json::Array(a) => {
                proof {
                    crate::json::lemma_array_views(*a);
                }
                pens_from(a)?
            },
            _ => return Err(DecodeError::WrongType),
        };
        let brushes = match required(m, "brushes")? {
            Json::Array(a) => {
                proof {
                    crate::json::lemma_array_views(*a);
                }
                brushes_from(a)?
            },
            _ => return Err(DecodeError::WrongType),
        };
        let shapes = match required(m, "shapes")? {
            Json::Array(a) => {
                proof {
                    crate::json::lemma_array_views(*a);
                }
                shapes_from(a)?
            },
            _ => return Err(DecodeError::WrongType),
        };
        Ok(Image { width, height, unit_per_inch, editor, pens, brushes, shapes })
    }
}

pub proof fn lemma_shapes_to_json(s: Seq<ShapeModel>)
    ensures
        shapes_to_json(s).len() == s.len(),
        forall|i: int| 0 <= i < s.len() ==> #[trigger] shapes_to_json(s)[i] == shape_to_json(s[i]),
    decreases s.len(),
{
    if s.len() > 0 {
        lemma_shapes_to_json(s.drop_last());
    }
}

/// Encodes each shape of `v`.
fn shapes_to(v: &Vec<Shape>) -> (r: Json)
    ensures
        r@ == JsonModel::Array(shapes_to_json(shape_seq_model(v@))),
    decreases v,
{
    let ghost t = shapes_to_json(shape_seq_model(v@));
    proof {
        lemma_shape_seq_model(v@);
        lemma_shapes_to_json(shape_seq_model(v@));
    }
    let mut items: Vec<Json> = Vec::new();
    let mut k: usize = 0;
    while k < v.len()
        invariant
            k <= v@.len(),
            t == shapes_to_json(shape_seq_model(v@)),
            t.len() == v@.len(),
            forall|x: int| 0 <= x < v@.len() ==> #[trigger] t[x] == shape_to_json(v@[x]@),
            json_views(items@) =~= t.take(k as int),
        decreases v@.len() - k,
    {
        proof {
            assert(decreases_to!(*v => v[k as int]));
        }
        let ghost before = items@;
        let x = v[k].to_json();
        items.push(x);
        proof {
            assert(json_views(items@) =~= json_views(before).push(x@));
        }
        k += 1;
    }
    proof {
        assert(t.take(k as int) =~= t);
        crate::json::lemma_array_views(items);
    }
    Json::Array(items)
}

/// Encodes each path of `v`.
fn curves_to(v: &Vec<CurveData>) -> (r: Json)
    ensures
        r@ == JsonModel::Array(curves_model(v@).map_values(curve_encoder())),
{
    let ghost t = curves_model(v@).map_values(curve_encoder());
    let mut items: Vec<Json> = Vec::new();
    let mut k: usize = 0;
    while k < v.len()
        invariant
            k <= v@.len(),
            t == curves_model(v@).map_values(curve_encoder()),
            json_views(items@) =~= t.take(k as int),
        decreases v@.len() - k,
    {
        let ghost before = items@;
        let x = v[k].to_json();
        items.push(x);
        proof {
            assert(json_views(items@) =~= json_views(before).push(x@));
        }
        k += 1;
    }
    proof {
        assert(t.take(k as int) =~= t);
        crate::json::lemma_array_views(items);
    }
    Json::Array(items)
}

impl Shape {
    pub fn to_json(&self) -> (r: Json)
        ensures
            r@ == shape_to_json(self@),
        decreases self,
    {
        match self {
            Shape::Group(g) => {
                proof {
                    assert(decreases_to!(*self => (*self)->Group_0));
                    assert(decreases_to!(g => g.content));
                }
                let content = shapes_to(&g.content);
                let mut members = vec![
                    member_of("type", Json::Str("group".to_owned())),
                    member_of("content", content),
                ];
                let annotated = match &g.edit_annot {
                    Json::Null => false,
                    _ => true,
                };
                if annotated {
                    members.push(member_of("edit-annot", g.edit_annot.duplicate()));
                }
                let r = object_of(members);
                assert(r@ == shape_to_json(self@)) by {
                    if let JsonModel::Object(s) = r@ {
                        if annotated {
                            assert(s =~= seq![
                                ("type"@, JsonModel::Str("group"@)),
                                ("content"@, JsonModel::Array(shapes_to_json(shape_seq_model(g.content@)))),
                            ] + seq![("edit-annot"@, g.edit_annot@)]);
                        } else {
                            assert(s =~= seq![
                                ("type"@, JsonModel::Str("group"@)),
                                ("content"@, JsonModel::Array(shapes_to_json(shape_seq_model(g.content@)))),
                            ] + Seq::empty());
                        }
                    }
                }
                r
            },
            Shape::Curve(c) => {
                let r = object_of(
                    vec![
                        member_of("type", Json::Str("curve".to_owned())),
                        member_of("pen", index_to(c.pen)),
                        member_of("data", c.data.to_json()),
                    ],
                );
                assert(r@ == shape_to_json(self@)) by {
                    if let JsonModel::Object(s) = r@ {
                        assert(s =~= seq![
                            ("type"@, JsonModel::Str("curve"@)),
                            ("pen"@, index_to_json(c.pen)),
                            ("data"@, curve_to_json(c.data@)),
                        ]);
                    }
                }
                r
            },
            Shape::Region(g) => {
                let mut members = vec![member_of("type", Json::Str("region".to_owned()))];
                if let Some(p) = g.pen {
                    members.push(member_of("pen", index_to(p)));
                }
                if let Some(b) = g.brush {
                    members.push(member_of("brush", index_to(b)));
                }
                members.push(member_of("data", curves_to(&g.data)));
                let r = object_of(members);
                assert(r@ == shape_to_json(self@)) by {
                    if let JsonModel::Object(s) = r@ {
                        assert(s =~= seq![("type"@, JsonModel::Str("region"@))]
                            + optional_index_member("pen"@, g.pen) + optional_index_member(
                            "brush"@,
                            g.brush,
                        ) + seq![
                            ("data"@, JsonModel::Array(curves_model(g.data@).map_values(curve_encoder()))),
                        ]);
                    }
                }
                r
            },
        }
    }
}

impl Image {
    pub fn to_json(&self) -> (r: Json)
        ensures
            r@ == image_to_json(self@),
    {
        let mut members = vec![
            member_of("width", self.width.to_json()),
            member_of("height", self.height.to_json()),
            member_of("unit-per-inch", self.unit_per_inch.to_json()),
        ];
        if let Some(e) = &self.editor {
            members.push(member_of("editor", Json::Str(e.clone())));
        }
        let mut pens: Vec<Json> = Vec::new();
        let mut k: usize = 0;
        while k < self.pens.len()
            invariant
                k <= self.pens@.len(),
                json_views(pens@) =~= self.pens@.take(k as int).map_values(pen_encoder()),
            decreases self.pens@.len() - k,
        {
            let ghost before = pens@;
            let x = self.pens[k].to_json();
            pens.push(x);
            proof {
                assert(json_views(pens@) =~= json_views(before).push(x@));
                assert(self.pens@.take(k + 1) =~= self.pens@.take(k as int).push(self.pens@[k as int]));
            }
            k += 1;
        }
        assert(self.pens@.take(k as int) =~= self.pens@);
        let mut brushes: Vec<Json> = Vec::new();
        let mut k: usize = 0;
        while k < self.brushes.len()
            invariant
                k <= self.brushes@.len(),
                json_views(brushes@) =~= self.brushes@.take(k as int).map_values(brush_encoder()),
            decreases self.brushes@.len() - k,
        {
            let ghost before = brushes@;
            let x = self.brushes[k].to_json();
            brushes.push(x);
            proof {
                assert(json_views(brushes@) =~= json_views(before).push(x@));
                assert(self.brushes@.take(k + 1) =~= self.brushes@.take(k as int).push(
                    self.brushes@[k as int],
                ));
            }
            k += 1;
        }
        assert(self.brushes@.take(k as int) =~= self.brushes@);
        proof {
            crate::json::lemma_array_views(pens);
            crate::json::lemma_array_views(brushes);
        }
        members.push(member_of("pens", Json::Array(pens)));
        members.push(member_of("brushes", Json::Array(brushes)));
        members.push(member_of("shapes", shapes_to(&self.shapes)));
        let r = object_of(members);
        assert(r@ == image_to_json(self@)) by {
            let i = self@;
            if let JsonModel::Object(s) = r@ {
                assert(s =~= seq![
                    ("width"@, real_to_json(i.width)),
                    ("height"@, real_to_json(i.height)),
                    ("unit-per-inch"@, real_to_json(i.unit_per_inch)),
                ] + match i.editor {
                    Some(e) => seq![("editor"@, JsonModel::Str(e))],
                    None => Seq::empty(),
                } + seq![
                    ("pens"@, JsonModel::Array(i.pens.map_values(pen_encoder()))),
                    ("brushes"@, JsonModel::Array(i.brushes.map_values(brush_encoder()))),
                    ("shapes"@, JsonModel::Array(shapes_to_json(i.shapes))),
                ]);
            }
        }
        r
    }
}

/// An index survives encoding.
pub proof fn lemma_index_round_trip(i: usize)
    ensures
        index_from_json(index_to_json(i)) == Ok::<usize, DecodeError>(i),
{
}

/// Decoding an encoded shape gives it back.
pub proof fn lemma_shape_round_trip(s: ShapeModel)
    ensures
        shape_from_json(shape_to_json(s)) == Ok::<ShapeModel, DecodeError>(s),
    decreases s,
{
    lemma_field_names();
    reveal_strlit("group");
    reveal_strlit("curve");
    reveal_strlit("region");
    assert("group"@[0] == 'g' && "curve"@[0] == 'c' && "region"@[0] == 'r');
    let m = shape_to_json(s)->Object_0;
    match s {
        ShapeModel::Group { content, edit_annot } => {
            assert(keys_unique(m));
            assert(m[1].0 == group_keys()[1]);
            assert(keys_within(m, group_keys())) by {
                if m.len() == 3 {
                    assert(m[2].0 == group_keys()[2]);
                }
            }
            lemma_member_at(m, 0);
            lemma_key_index_at(m, 1);
            if m.len() == 3 {
                lemma_member_at(m, 2);
            } else {
                assert(!has_key(m, "edit-annot"@));
            }
            lemma_shapes_round_trip(content);
        },
        ShapeModel::Curve { pen, data } => {
            assert(keys_unique(m));
            assert(keys_within(m, curve_keys()));
            lemma_member_at(m, 0);
            lemma_member_at(m, 1);
            lemma_member_at(m, 2);
            lemma_curve_round_trip(data);
        },
        ShapeModel::Region { pen, brush, data } => {
            assert(keys_unique(m));
            assert(keys_within(m, region_keys()));
            lemma_member_at(m, 0);
            lemma_member_at(m, m.len() - 1);
            if pen is Some {
                lemma_member_at(m, 1);
            } else {
                assert(!has_key(m, "pen"@));
            }
            if brush is Some {
                lemma_member_at(m, m.len() - 2);
            } else {
                assert(!has_key(m, "brush"@));
            }
            assert forall|k: int| 0 <= k < data.len() implies curve_decoder()(
                curve_encoder()(#[trigger] data[k]),
            ) == Ok::<CurveModel, DecodeError>(data[k]) by {
                lemma_curve_round_trip(data[k]);
            }
            lemma_all_from_json_round_trip(data, curve_encoder(), curve_decoder());
        },
    }
}

/// Decoding encoded shapes gives them back.
pub proof fn lemma_shapes_round_trip(s: Seq<ShapeModel>)
    ensures
        shapes_from_json(shapes_to_json(s)) == Ok::<Seq<ShapeModel>, DecodeError>(s),
    decreases s,
{
    if s.len() > 0 {
        lemma_shapes_round_trip(s.drop_last());
        lemma_shape_round_trip(s.last());
        let t = shapes_to_json(s);
        assert(t.drop_last() == shapes_to_json(s.drop_last()));
        assert(s.drop_last().push(s.last()) =~= s);
    } else {
        assert(s =~= Seq::empty());
    }
}

/// Every color of every pen and brush survives encoding.
pub open spec fn image_round_trips(i: ImageModel) -> bool {
    &&& forall|k: int| 0 <= k < i.pens.len() ==> pattern_round_trips(#[trigger] i.pens[k].pattern)
    &&& forall|k: int|
        0 <= k < i.brushes.len() ==> pattern_round_trips(#[trigger] i.brushes[k].pattern)
}

/// Decoding an encoded image gives it back, where its colors survive encoding.
pub proof fn lemma_image_round_trip(i: ImageModel)
    requires
        image_round_trips(i),
    ensures
        image_from_json(image_to_json(i)) == Ok::<ImageModel, DecodeError>(i),
{
    lemma_field_names();
    let m = image_to_json(i)->Object_0;
    let n = m.len();
    assert(keys_unique(m));
    assert(keys_within(m, image_keys())) by {
        assert(m[0].0 == image_keys()[0]);
        assert(m[1].0 == image_keys()[1]);
        assert(m[2].0 == image_keys()[2]);
        if n == 7 {
            assert(m[3].0 == image_keys()[3]);
        }
        assert(m[n - 3].0 == image_keys()[4]);
        assert(m[n - 2].0 == image_keys()[5]);
        assert(m[n - 1].0 == image_keys()[6]);
    }
    lemma_member_at(m, 0);
    lemma_member_at(m, 1);
    lemma_member_at(m, 2);
    lemma_member_at(m, n - 3);
    lemma_member_at(m, n - 2);
    lemma_member_at(m, n - 1);
    if n == 7 {
        lemma_member_at(m, 3);
    } else {
        assert(!has_key(m, "editor"@));
    }
    assert forall|k: int| 0 <= k < i.pens.len() implies pen_decoder()(
        pen_encoder()(#[trigger] i.pens[k]),
    ) == Ok::<Pen, DecodeError>(i.pens[k]) by {
        lemma_pen_round_trip(i.pens[k]);
    }
    lemma_all_from_json_round_trip(i.pens, pen_encoder(), pen_decoder());
    assert forall|k: int| 0 <= k < i.brushes.len() implies brush_decoder()(
        brush_encoder()(#[trigger] i.brushes[k]),
    ) == Ok::<Brush, DecodeError>(i.brushes[k]) by {
        lemma_brush_round_trip(i.brushes[k]);
    }
    lemma_all_from_json_round_trip(i.brushes, brush_encoder(), brush_decoder());
    lemma_shapes_round_trip(i.shapes);
}

} // verus!
