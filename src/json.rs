use vstd::prelude::*;

verus! {

/// A JSON number as the library reads it: its value as an IEEE 754 binary64
/// bit pattern, and, where it is a non-negative integer, that integer.
#[derive(Clone, Copy, Debug, PartialEq, Eq, Structural)]
pub struct JsonNumber {
    pub float_bits: Option<u64>,
    pub uint: Option<u64>,
}

/// A member of a JSON object: a key and its value.
#[derive(Debug)]
pub struct Member {
    pub key: String,
    pub value: Json,
}

/// A JSON value. Object members keep the order in which they were written.
#[derive(Debug)]
pub enum Json {
    Null,
    Bool(bool),
    Number(JsonNumber),
    Str(String),
    Array(Vec<Json>),
    Object(Vec<Member>),
}

/// The mathematical form of a JSON value.
pub enum JsonModel {
    Null,
    Bool(bool),
    Number(JsonNumber),
    Str(Seq<char>),
    Array(Seq<JsonModel>),
    Object(Seq<(Seq<char>, JsonModel)>),
}

/// Why a JSON value does not decode to the entity asked for.
#[derive(Clone, Copy, Debug, PartialEq, Eq, Structural)]
pub enum DecodeError {
    /// The value is of another JSON type than the one expected.
    WrongType,
    /// A positional array holds a number of elements that its form does not allow.
    InvalidLength(usize),
    /// A tag names no variant of the entity; the set names the tags that it has.
    UnknownVariant(TagSet),
    /// An object holds a key that the entity does not have.
    UnknownField,
    /// An object lacks a key that the entity requires.
    MissingField,
    /// An object holds the same key twice.
    DuplicateField,
}

/// The entities that a tag picks a variant of.
#[derive(Clone, Copy, Debug, PartialEq, Eq, Structural)]
pub enum TagSet {
    LineCap,
    LineJoin,
    Pattern,
    Segment,
    Shape,
}

/// The tags of each entity.
pub open spec fn tags(t: TagSet) -> Seq<Seq<char>> {
    match t {
        TagSet::LineCap => seq!["butt"@, "round"@, "square"@],
        TagSet::LineJoin => seq!["miter"@, "round"@, "bevel"@],
        TagSet::Pattern => seq!["monochrome"@, "linear-gradient"@, "radial-gradient"@],
        TagSet::Segment => seq!["L"@, "Q"@, "C"@],
        TagSet::Shape => seq!["group"@, "curve"@, "region"@],
    }
}

impl TagSet {
    /// The tags that the entity accepts, for an error message.
    pub fn allowed(&self) -> (r: Vec<&'static str>)
        ensures
            keys_model(r@) == tags(*self),
    {
        let r = match self {
            TagSet::LineCap => vec!["butt", "round", "square"],
            TagSet::LineJoin => vec!["miter", "round", "bevel"],
            TagSet::Pattern => vec!["monochrome", "linear-gradient", "radial-gradient"],
            TagSet::Segment => vec!["L", "Q", "C"],
            TagSet::Shape => vec!["group", "curve", "region"],
        };
        assert(keys_model(r@) =~= tags(*self));
        r
    }
}

impl View for Json {
    type V = JsonModel;

    open spec fn view(&self) -> JsonModel {
        json_model(*self)
    }
}

pub open spec fn json_model(j: Json) -> JsonModel
    decreases j,
{
    match j {
        Json::Null => JsonModel::Null,
        Json::Bool(b) => JsonModel::Bool(b),
        Json::Number(n) => JsonModel::Number(n),
        Json::Str(s) => JsonModel::Str(s@),
        Json::Array(a) => JsonModel::Array(json_seq_model(a@)),
        Json::Object(m) => JsonModel::Object(members_model(m@)),
    }
}

/// The models of a sequence of JSON values, one for one.
pub open spec fn json_seq_model(s: Seq<Json>) -> Seq<JsonModel>
    decreases s,
{
    if s.len() == 0 {
        Seq::empty()
    } else {
        json_seq_model(s.drop_last()).push(json_model(s.last()))
    }
}

/// The members of an object, in the form that `JsonModel::Object` holds.
pub open spec fn members_model(m: Seq<Member>) -> Seq<(Seq<char>, JsonModel)>
    decreases m,
{
    if m.len() == 0 {
        Seq::empty()
    } else {
        members_model(m.drop_last()).push((m.last().key@, json_model(m.last().value)))
    }
}

pub proof fn lemma_json_seq_model(s: Seq<Json>)
    ensures
        json_seq_model(s).len() == s.len(),
        forall|i: int| 0 <= i < s.len() ==> #[trigger] json_seq_model(s)[i] == s[i]@,
    decreases s.len(),
{
    if s.len() > 0 {
        lemma_json_seq_model(s.drop_last());
    }
}

pub proof fn lemma_members_model(m: Seq<Member>)
    ensures
        members_model(m).len() == m.len(),
        forall|i: int|
            0 <= i < m.len() ==> #[trigger] members_model(m)[i] == (m[i].key@, m[i].value@),
    decreases m.len(),
{
    if m.len() > 0 {
        lemma_members_model(m.drop_last());
    }
}

/// The models of a sequence of JSON values.
pub open spec fn json_views(v: Seq<Json>) -> Seq<JsonModel> {
    v.map_values(|x: Json| x@)
}

/// The models of a sequence of members.
pub open spec fn member_views(v: Seq<Member>) -> Seq<(Seq<char>, JsonModel)> {
    v.map_values(|x: Member| (x.key@, x.value@))
}

/// No key occurs twice among the members.
pub open spec fn keys_unique(m: Seq<(Seq<char>, JsonModel)>) -> bool {
    forall|i: int, j: int| 0 <= i < j < m.len() ==> m[i].0 != m[j].0
}

/// Every key among the members is one of `allowed`.
pub open spec fn keys_within(m: Seq<(Seq<char>, JsonModel)>, allowed: Seq<Seq<char>>) -> bool {
    forall|i: int| 0 <= i < m.len() ==> allowed.contains(#[trigger] m[i].0)
}

pub open spec fn has_key(m: Seq<(Seq<char>, JsonModel)>, k: Seq<char>) -> bool {
    exists|i: int| 0 <= i < m.len() && m[i].0 == k
}

/// The value of key `k`, where the object has it.
pub open spec fn member(m: Seq<(Seq<char>, JsonModel)>, k: Seq<char>) -> Option<JsonModel> {
    if has_key(m, k) {
        Some(m[choose|i: int| 0 <= i < m.len() && m[i].0 == k].1)
    } else {
        None
    }
}

/// Among unique keys, the value of the key at `i` is the value at `i`.
pub proof fn lemma_member_at(m: Seq<(Seq<char>, JsonModel)>, i: int)
    requires
        keys_unique(m),
        0 <= i < m.len(),
    ensures
        member(m, m[i].0) == Some(m[i].1),
{
    let c = choose|c: int| 0 <= c < m.len() && m[c].0 == m[i].0;
    if c < i {
        assert(m[c].0 != m[i].0);
    } else if c > i {
        assert(m[i].0 != m[c].0);
    }
}

/// Among unique keys, the key at `i` is found at `i`.
pub proof fn lemma_key_index_at(m: Seq<(Seq<char>, JsonModel)>, i: int)
    requires
        keys_unique(m),
        0 <= i < m.len(),
    ensures
        has_key(m, m[i].0),
        key_index(m, m[i].0) == i,
{
    let c = key_index(m, m[i].0);
    if c < i {
        assert(m[c].0 != m[i].0);
    } else if c > i {
        assert(m[i].0 != m[c].0);
    }
}

/// Tells whether `s` holds the characters of `lit`.
pub fn string_is(s: &String, lit: &str) -> (r: bool)
    ensures
        r == (s@ == lit@),
{
    let t = lit.to_owned();
    *s == t
}

/// Finds the value of key `k` among members whose keys are unique.
pub fn find_member<'a>(m: &'a Vec<Member>, k: &str) -> (r: Option<&'a Json>)
    requires
        keys_unique(members_model(m@)),
    ensures
        match r {
            Some(v) => member(members_model(m@), k@) == Some(v@),
            None => member(members_model(m@), k@) is None,
        },
{
    let ghost mm = members_model(m@);
    proof {
        lemma_members_model(m@);
    }
    let mut i: usize = 0;
    while i < m.len()
        invariant
            i <= m@.len(),
            mm == members_model(m@),
            mm.len() == m@.len(),
            forall|x: int| 0 <= x < m@.len() ==> #[trigger] mm[x] == (m@[x].key@, m@[x].value@),
            keys_unique(mm),
            forall|j: int| 0 <= j < i ==> mm[j].0 != k@,
        decreases m@.len() - i,
    {
        if string_is(&m[i].key, k) {
            assert(mm[i as int].0 == k@);
            let ghost c = choose|c: int| 0 <= c < mm.len() && mm[c].0 == k@;
            assert(c == i) by {
                if c != i {
                    if c < i {
                        assert(mm[c].0 != mm[i as int].0);
                    } else {
                        assert(mm[i as int].0 != mm[c].0);
                    }
                }
            }
            return Some(&m[i].value);
        }
        i += 1;
    }
    None
}

/// The characters of each key.
pub open spec fn keys_model(v: Seq<&str>) -> Seq<Seq<char>> {
    v.map_values(|s: &str| s@)
}

/// Tells whether no key occurs twice among the members.
pub fn keys_are_unique(m: &Vec<Member>) -> (r: bool)
    ensures
        r == keys_unique(members_model(m@)),
{
    let ghost mm = members_model(m@);
    proof {
        lemma_members_model(m@);
    }
    let mut i: usize = 0;
    while i < m.len()
        invariant
            i <= m@.len(),
            mm == members_model(m@),
            mm.len() == m@.len(),
            forall|x: int| 0 <= x < m@.len() ==> #[trigger] mm[x] == (m@[x].key@, m@[x].value@),
            forall|a: int, b: int| 0 <= a < i && a < b < m@.len() ==> mm[a].0 != mm[b].0,
        decreases m@.len() - i,
    {
        let mut j: usize = i + 1;
        while j < m.len()
            invariant
                i < j <= m@.len(),
                mm == members_model(m@),
                mm.len() == m@.len(),
                forall|x: int|
                    0 <= x < m@.len() ==> #[trigger] mm[x] == (m@[x].key@, m@[x].value@),
                forall|a: int, b: int| 0 <= a < i && a < b < m@.len() ==> mm[a].0 != mm[b].0,
                forall|b: int| i < b < j ==> mm[i as int].0 != mm[b].0,
            decreases m@.len() - j,
        {
            if m[i].key == m[j].key {
                assert(mm[i as int].0 == mm[j as int].0);
                return false;
            }
            j += 1;
        }
        i += 1;
    }
    assert(keys_unique(mm));
    true
}

/// Tells whether every key among the members is one of `allowed`.
pub fn keys_are_within(m: &Vec<Member>, allowed: &Vec<&str>) -> (r: bool)
    ensures
        r == keys_within(members_model(m@), keys_model(allowed@)),
{
    let ghost mm = members_model(m@);
    proof {
        lemma_members_model(m@);
    }
    let ghost al = keys_model(allowed@);
    let mut i: usize = 0;
    while i < m.len()
        invariant
            i <= m@.len(),
            mm == members_model(m@),
            mm.len() == m@.len(),
            forall|x: int| 0 <= x < m@.len() ==> #[trigger] mm[x] == (m@[x].key@, m@[x].value@),
            al == keys_model(allowed@),
            forall|a: int| 0 <= a < i ==> al.contains(#[trigger] mm[a].0),
        decreases m@.len() - i,
    {
        let mut found = false;
        let mut j: usize = 0;
        while j < allowed.len()
            invariant
                j <= allowed@.len(),
                i < m@.len(),
                al == keys_model(allowed@),
                mm == members_model(m@),
                mm.len() == m@.len(),
                forall|x: int|
                    0 <= x < m@.len() ==> #[trigger] mm[x] == (m@[x].key@, m@[x].value@),
                found ==> al.contains(mm[i as int].0),
                !found ==> forall|k: int| 0 <= k < j ==> al[k] != mm[i as int].0,
            decreases allowed@.len() - j,
        {
            if string_is(&m[i].key, allowed[j]) {
                assert(al[j as int] == mm[i as int].0);
                found = true;
            }
            j += 1;
        }
        if !found {
            assert(!al.contains(mm[i as int].0)) by {
                if al.contains(mm[i as int].0) {
                    let k = choose|k: int| 0 <= k < al.len() && al[k] == mm[i as int].0;
                }
            }
            return false;
        }
        i += 1;
    }
    true
}

/// Decodes each element with `d`; the first element that fails gives the error.
pub open spec fn all_from_json<T>(
    s: Seq<JsonModel>,
    d: spec_fn(JsonModel) -> Result<T, DecodeError>,
) -> Result<Seq<T>, DecodeError>
    decreases s.len(),
{
    if s.len() == 0 {
        Ok(Seq::empty())
    } else {
        match all_from_json(s.drop_last(), d) {
            Err(e) => Err(e),
            Ok(p) => match d(s.last()) {
                Ok(x) => Ok(p.push(x)),
                Err(e) => Err(e),
            },
        }
    }
}

/// One more element decoded after a prefix that decoded.
pub proof fn lemma_all_from_json_step<T>(
    s: Seq<JsonModel>,
    d: spec_fn(JsonModel) -> Result<T, DecodeError>,
    i: int,
)
    requires
        0 <= i < s.len(),
    ensures
        all_from_json(s.take(i + 1), d) == match all_from_json(s.take(i), d) {
            Err(e) => Err(e),
            Ok(p) => match d(s[i]) {
                Ok(x) => Ok(p.push(x)),
                Err(e) => Err(e),
            },
        },
{
    assert(s.take(i + 1).drop_last() =~= s.take(i));
}

/// An error in a prefix is the error of the whole sequence.
pub proof fn lemma_all_from_json_error<T>(
    s: Seq<JsonModel>,
    d: spec_fn(JsonModel) -> Result<T, DecodeError>,
    k: int,
)
    requires
        0 <= k <= s.len(),
        all_from_json(s.take(k), d) is Err,
    ensures
        all_from_json(s, d) == all_from_json(s.take(k), d),
    decreases s.len() - k,
{
    if k < s.len() {
        lemma_all_from_json_step(s, d, k);
        lemma_all_from_json_error(s, d, k + 1);
    } else {
        assert(s.take(k) =~= s);
    }
}

/// Decoding what `e` encodes gives each element back.
pub proof fn lemma_all_from_json_round_trip<T>(
    s: Seq<T>,
    e: spec_fn(T) -> JsonModel,
    d: spec_fn(JsonModel) -> Result<T, DecodeError>,
)
    requires
        forall|i: int| 0 <= i < s.len() ==> d(e(#[trigger] s[i])) == Ok::<T, DecodeError>(s[i]),
    ensures
        all_from_json(s.map_values(e), d) == Ok::<Seq<T>, DecodeError>(s),
    decreases s.len(),
{
    if s.len() > 0 {
        let t = s.drop_last();
        assert forall|i: int| 0 <= i < t.len() implies d(e(#[trigger] t[i])) == Ok::<T, DecodeError>(t[i]) by {
            assert(t[i] == s[i]);
        }
        lemma_all_from_json_round_trip(t, e, d);
        assert(s.map_values(e).drop_last() =~= t.map_values(e));
        assert(t.push(s.last()) =~= s);
    } else {
        assert(s =~= Seq::empty());
    }
}

/// An array of JSON values.
pub fn array_of(v: Vec<Json>) -> (r: Json)
    ensures
        r@ == JsonModel::Array(json_views(v@)),
{
    proof {
        lemma_json_seq_model(v@);
        assert(json_seq_model(v@) =~= json_views(v@));
    }
    Json::Array(v)
}

/// A JSON object with the members `v`, in order.
pub fn object_of(v: Vec<Member>) -> (r: Json)
    ensures
        r@ == JsonModel::Object(member_views(v@)),
{
    proof {
        lemma_members_model(v@);
        assert(members_model(v@) =~= member_views(v@));
    }
    Json::Object(v)
}

/// A member with key `k` and value `v`.
pub fn member_of(k: &str, v: Json) -> (r: Member)
    ensures
        r.key@ == k@,
        r.value == v,
{
    Member { key: k.to_owned(), value: v }
}

/// The index of key `k` among the members, where it is there.
pub open spec fn key_index(m: Seq<(Seq<char>, JsonModel)>, k: Seq<char>) -> int {
    choose|i: int| 0 <= i < m.len() && m[i].0 == k
}

/// Finds the index of key `k` among members whose keys are unique.
pub fn member_index(m: &Vec<Member>, k: &str) -> (r: Option<usize>)
    requires
        keys_unique(members_model(m@)),
    ensures
        match r {
            Some(i) => {
                &&& has_key(members_model(m@), k@)
                &&& i < m@.len()
                &&& i == key_index(members_model(m@), k@)
                &&& m@[i as int].key@ == k@
                &&& member(members_model(m@), k@) == Some(m@[i as int].value@)
            },
            None => !has_key(members_model(m@), k@),
        },
{
    let ghost mm = members_model(m@);
    proof {
        lemma_members_model(m@);
    }
    let mut i: usize = 0;
    while i < m.len()
        invariant
            i <= m@.len(),
            mm == members_model(m@),
            mm.len() == m@.len(),
            forall|x: int| 0 <= x < m@.len() ==> #[trigger] mm[x] == (m@[x].key@, m@[x].value@),
            keys_unique(mm),
            forall|j: int| 0 <= j < i ==> mm[j].0 != k@,
        decreases m@.len() - i,
    {
        if string_is(&m[i].key, k) {
            assert(mm[i as int].0 == k@);
            let ghost c = key_index(mm, k@);
            assert(c == i) by {
                if c != i {
                    if c < i {
                        assert(mm[c].0 != mm[i as int].0);
                    } else {
                        assert(mm[i as int].0 != mm[c].0);
                    }
                }
            }
            return Some(i);
        }
        i += 1;
    }
    None
}

impl Json {
    /// A copy of the value.
    pub fn duplicate(&self) -> (r: Json)
        ensures
            r@ == self@,
        decreases self,
    {
        match self {
            Json::Null => Json::Null,
            Json::Bool(b) => Json::Bool(*b),
            Json::Number(n) => Json::Number(*n),
            Json::Str(s) => Json::Str(s.clone()),
            Json::Array(a) => {
                let mut v: Vec<Json> = Vec::new();
                let mut i: usize = 0;
                proof {
                    lemma_json_seq_model(a@);
                }
                while i < a.len()
                    invariant
                        i <= a@.len(),
                        *self == Json::Array(*a),
                        json_seq_model(a@).len() == a@.len(),
                        forall|x: int| 0 <= x < a@.len() ==> #[trigger] json_seq_model(a@)[x] == a@[x]@,
                        json_views(v@) =~= json_seq_model(a@).take(i as int),
                    decreases a@.len() - i,
                {
                    let ghost before = v@;
                    proof {
                        assert(decreases_to!(*self => (*self)->Array_0));
                        assert(decreases_to!(*a => a[i as int]));
                    }
                    let x = a[i].duplicate();
                    v.push(x);
                    proof {
                        assert(json_views(v@) =~= json_views(before).push(x@));
                    }
                    i += 1;
                }
                let r = array_of(v);
                assert(json_seq_model(a@).take(i as int) =~= json_seq_model(a@));
                r
            },
            Json::Object(m) => {
                let mut v: Vec<Member> = Vec::new();
                let mut i: usize = 0;
                proof {
                    lemma_members_model(m@);
                }
                while i < m.len()
                    invariant
                        i <= m@.len(),
                        *self == Json::Object(*m),
                        members_model(m@).len() == m@.len(),
                        forall|x: int| 0 <= x < m@.len() ==> #[trigger] members_model(m@)[x] == (m@[x].key@, m@[x].value@),
                        member_views(v@) =~= members_model(m@).take(i as int),
                    decreases m@.len() - i,
                {
                    let ghost before = v@;
                    proof {
                        assert(decreases_to!(*self => (*self)->Object_0));
                        assert(decreases_to!(*m => m[i as int]));
                        assert(decreases_to!(m[i as int] => m[i as int].value));
                    }
                    let x = Member { key: m[i].key.clone(), value: m[i].value.duplicate() };
                    v.push(x);
                    proof {
                        assert(member_views(v@) =~= member_views(before).push((x.key@, x.value@)));
                    }
                    i += 1;
                }
                let r = object_of(v);
                assert(members_model(m@).take(i as int) =~= members_model(m@));
                r
            },
        }
    }
}

pub proof fn lemma_array_views(a: Vec<Json>)
    ensures
        Json::Array(a)@ == JsonModel::Array(json_views(a@)),
{
    lemma_json_seq_model(a@);
    assert(json_seq_model(a@) =~= json_views(a@));
}

} // verus!
