//! The library's own JSON value, with the operations the launcher needs.
//!
//! Parsing and printing go through `serde_json`; everything the launcher
//! decides on a value (which member is there, what it holds, what is added or
//! removed) is verified code over [`Json`] and its view [`JsonV`].
use vstd::prelude::*;

use crate::text::str_eq;

verus! {

#[verifier::external_type_specification]
#[verifier::external_body]
pub struct ExNumber(serde_json::Number);

#[verifier::external_type_specification]
#[verifier::external_body]
pub struct ExValue(serde_json::Value);

/// A JSON value; object members keep their order.
#[derive(Debug)]
pub enum Json {
    Null,
    Bool(bool),
    Num(serde_json::Number),
    Str(String),
    Arr(Vec<Json>),
    Obj(Vec<(String, Json)>),
}

/// The mathematical value of a [`Json`].
pub enum JsonV {
    Null,
    Bool(bool),
    Num(serde_json::Number),
    Str(Seq<char>),
    Arr(Seq<JsonV>),
    Obj(Seq<(Seq<char>, JsonV)>),
}

pub open spec fn jview(j: Json) -> JsonV
    decreases j,
{
    match j {
        Json::Null => JsonV::Null,
        Json::Bool(b) => JsonV::Bool(b),
        Json::Num(n) => JsonV::Num(n),
        Json::Str(s) => JsonV::Str(s@),
        Json::Arr(v) => JsonV::Arr(
            Seq::new(
                v.len() as nat,
                |i: int|
                    if 0 <= i < v.len() {
                        jview(v@[i])
                    } else {
                        JsonV::Null
                    },
            ),
        ),
        Json::Obj(fs) => JsonV::Obj(
            Seq::new(
                fs.len() as nat,
                |i: int|
                    if 0 <= i < fs.len() {
                        (fs@[i].0@, jview(fs@[i].1))
                    } else {
                        (Seq::empty(), JsonV::Null)
                    },
            ),
        ),
    }
}

impl View for Json {
    type V = JsonV;

    open spec fn view(&self) -> JsonV {
        jview(*self)
    }
}

/// Index of the last member whose key is `key`.
pub open spec fn find_key(fields: Seq<(Seq<char>, JsonV)>, key: Seq<char>) -> Option<int>
    decreases fields.len(),
{
    if fields.len() == 0 {
        None
    } else if fields.last().0 == key {
        Some(fields.len() - 1)
    } else {
        find_key(fields.drop_last(), key)
    }
}

/// Object members with pairwise distinct keys.
pub open spec fn wf_fields(fields: Seq<(Seq<char>, JsonV)>) -> bool {
    forall|i: int, j: int|
        0 <= i < fields.len() && 0 <= j < fields.len() && i != j ==> #[trigger] fields[i].0
            != #[trigger] fields[j].0
}

/// The value of member `key` of `t`, if `t` is an object that has it.
pub open spec fn member(t: JsonV, key: Seq<char>) -> Option<JsonV> {
    match t {
        JsonV::Obj(fields) => match find_key(fields, key) {
            Some(i) => Some(fields[i].1),
            None => None,
        },
        _ => None,
    }
}

/// The text held by member `key` of `t`, if it is a string.
pub open spec fn member_str(t: JsonV, key: Seq<char>) -> Option<Seq<char>> {
    match member(t, key) {
        Some(JsonV::Str(s)) => Some(s),
        _ => None,
    }
}

/// `t` with member `key` set to `v`: replaced where it is, else added at the end.
pub open spec fn with_member(t: JsonV, key: Seq<char>, v: JsonV) -> JsonV {
    match t {
        JsonV::Obj(fields) => match find_key(fields, key) {
            Some(i) => JsonV::Obj(fields.update(i, (key, v))),
            None => JsonV::Obj(fields.push((key, v))),
        },
        _ => t,
    }
}

/// `t` without its last member named `key` (the only one, in an object
/// with distinct keys).
pub open spec fn without_member(t: JsonV, key: Seq<char>) -> JsonV {
    match t {
        JsonV::Obj(fields) => match find_key(fields, key) {
            Some(i) => JsonV::Obj(fields.remove(i)),
            None => t,
        },
        _ => t,
    }
}

/// What `serde_json::from_str` makes of a text.
pub uninterp spec fn json_parse(s: Seq<char>) -> Option<JsonV>;

/// What `serde_json::to_string` writes for a value.
pub uninterp spec fn json_text(j: JsonV) -> Seq<char>;

/// What the `toml` crate reads from a document, as JSON.
pub uninterp spec fn toml_parse(s: Seq<char>) -> Option<JsonV>;

pub proof fn lemma_find_key(fields: Seq<(Seq<char>, JsonV)>, key: Seq<char>)
    ensures
        find_key(fields, key) matches Some(i) ==> 0 <= i < fields.len() && fields[i].0 == key
            && forall|j: int| i < j < fields.len() ==> #[trigger] fields[j].0 != key,
        find_key(fields, key) is None ==> forall|i: int|
            0 <= i < fields.len() ==> #[trigger] fields[i].0 != key,
    decreases fields.len(),
{
    if fields.len() > 0 {
        lemma_find_key(fields.drop_last(), key);
        assert forall|i: int| 0 <= i < fields.len() - 1 implies #[trigger] fields[i].0
            == fields.drop_last()[i].0 by {}
    }
}

/// The view of an object's members, member by member.
pub proof fn lemma_obj_view(fs: Vec<(String, Json)>)
    ensures
        Json::Obj(fs)@ matches JsonV::Obj(vf) && vf.len() == fs.len() && forall|i: int|
            0 <= i < fs.len() ==> #[trigger] vf[i] == (fs@[i].0@, fs@[i].1@),
{
}

/// The keys of an object's members, in order.
pub open spec fn keys_of(fields: Seq<(Seq<char>, JsonV)>) -> Seq<Seq<char>> {
    fields.map_values(|f: (Seq<char>, JsonV)| f.0)
}

proof fn lemma_find_key_by_keys(a: Seq<(Seq<char>, JsonV)>, b: Seq<(Seq<char>, JsonV)>, key: Seq<char>)
    requires
        keys_of(a) == keys_of(b),
    ensures
        find_key(a, key) == find_key(b, key),
    decreases a.len(),
{
    assert(a.len() == keys_of(a).len());
    assert(b.len() == keys_of(b).len());
    if a.len() > 0 {
        assert(a.last().0 == keys_of(a)[a.len() - 1]);
        assert(b.last().0 == keys_of(b)[b.len() - 1]);
        assert(keys_of(a.drop_last()) =~= keys_of(a).drop_last());
        assert(keys_of(b.drop_last()) =~= keys_of(b).drop_last());
        lemma_find_key_by_keys(a.drop_last(), b.drop_last(), key);
    }
}

/// Setting a member changes that member and no other.
pub proof fn lemma_member_with(t: JsonV, key: Seq<char>, v: JsonV, k: Seq<char>)
    requires
        t is Obj,
    ensures
        member(with_member(t, key, v), k) == if k == key {
            Some(v)
        } else {
            member(t, k)
        },
        with_member(t, key, v) is Obj,
{
    let fields = t->Obj_0;
    lemma_find_key(fields, key);
    match find_key(fields, key) {
        Some(i) => {
            let u = fields.update(i, (key, v));
            assert(keys_of(u) =~= keys_of(fields));
            lemma_find_key_by_keys(u, fields, k);
            lemma_find_key(fields, k);
            if k == key {
                assert(find_key(u, k) == Some(i));
            } else {
                match find_key(fields, k) {
                    Some(m) => {
                        assert(m != i);
                        assert(u[m] == fields[m]);
                    },
                    None => {},
                }
            }
        },
        None => {
            let u = fields.push((key, v));
            assert(u.drop_last() =~= fields);
            lemma_find_key(fields, k);
            if k != key {
                assert(find_key(u, k) == find_key(fields, k));
                match find_key(fields, k) {
                    Some(m) => {
                        assert(u[m] == fields[m]);
                    },
                    None => {},
                }
            }
        },
    }
}

/// A value and its view are of the same kind.
pub proof fn lemma_view_kind(j: Json)
    ensures
        j is Null <==> j@ is Null,
        j is Bool <==> j@ is Bool,
        j is Num <==> j@ is Num,
        j is Str <==> j@ is Str,
        j is Arr <==> j@ is Arr,
        j is Obj <==> j@ is Obj,
{
}

/// Relies on the `Clone` that `serde_json::Number` derives: the copy is equal.
pub assume_specification[ <serde_json::Number as Clone>::clone ](n: &serde_json::Number) -> (r: serde_json::Number)
    ensures
        r == *n,
;

/// Converts a parsed `serde_json` value into the library's value, moving each part.
#[verifier::external_body]
pub(crate) fn from_serde(v: serde_json::Value) -> Json {
    match v {
        serde_json::Value::Null => Json::Null,
        serde_json::Value::Bool(b) => Json::Bool(b),
        serde_json::Value::Number(n) => Json::Num(n),
        serde_json::Value::String(s) => Json::Str(s),
        serde_json::Value::Array(a) => Json::Arr(a.into_iter().map(from_serde).collect()),
        serde_json::Value::Object(m) => Json::Obj(
            m.into_iter().map(|(k, v)| (k, from_serde(v))).collect(),
        ),
    }
}

/// Converts the library's value into a `serde_json` value, one part for one part.
#[verifier::external_body]
pub(crate) fn to_serde(j: &Json) -> serde_json::Value {
    match j {
        Json::Null => serde_json::Value::Null,
        Json::Bool(b) => serde_json::Value::Bool(*b),
        Json::Num(n) => serde_json::Value::Number(n.clone()),
        Json::Str(s) => serde_json::Value::String(s.clone()),
        Json::Arr(a) => serde_json::Value::Array(a.iter().map(to_serde).collect()),
        Json::Obj(fs) => serde_json::Value::Object(
            fs.iter().map(|(k, v)| (k.clone(), to_serde(v))).collect(),
        ),
    }
}

/// Relies on `serde_json::from_str::<serde_json::Value>`: the value depends on
/// the text alone, and an object's members have distinct keys.
#[verifier::external_body]
pub(crate) fn parse_json(s: &str) -> (r: Option<Json>)
    ensures
        match r {
            Some(j) => json_parse(s@) == Some(j@),
            None => json_parse(s@) is None,
        },
        r matches Some(j) && j@ matches JsonV::Obj(fields) ==> wf_fields(fields),
{
    serde_json::from_str::<serde_json::Value>(s).ok().map(from_serde)
}

/// Relies on `serde_json::to_string`: the text depends on the value alone.
#[verifier::external_body]
pub(crate) fn to_json_text(j: &Json) -> (r: String)
    ensures
        r@ == json_text(j@),
{
    serde_json::to_string(&to_serde(j)).unwrap_or_default()
}

/// Relies on `toml::from_str::<toml::Value>`, and on `serde_json::to_value`
/// for the step from the TOML table to JSON.
#[verifier::external_body]
pub(crate) fn parse_toml(s: &str) -> (r: Option<Json>)
    ensures
        match r {
            Some(j) => toml_parse(s@) == Some(j@),
            None => toml_parse(s@) is None,
        },
        r matches Some(j) && j@ matches JsonV::Obj(fields) ==> wf_fields(fields),
{
    toml::from_str::<toml::Value>(s).ok().and_then(|v| serde_json::to_value(v).ok()).map(
        from_serde,
    )
}

impl Json {
    /// Reads a JSON text.
    pub fn parse(s: &str) -> (r: Option<Json>)
        ensures
            match r {
                Some(j) => json_parse(s@) == Some(j@),
                None => json_parse(s@) is None,
            },
            r matches Some(j) && j@ matches JsonV::Obj(fields) ==> wf_fields(fields),
    {
        parse_json(s)
    }

    /// Reads a TOML document as JSON.
    pub fn from_toml(s: &str) -> (r: Option<Json>)
        ensures
            match r {
                Some(j) => toml_parse(s@) == Some(j@),
                None => toml_parse(s@) is None,
            },
            r matches Some(j) && j@ matches JsonV::Obj(fields) ==> wf_fields(fields),
    {
        parse_toml(s)
    }

    /// The JSON text of `self`.
    pub fn to_text(&self) -> (r: String)
        ensures
            r@ == json_text(self@),
    {
        to_json_text(self)
    }

    /// A string value.
    pub fn string(s: &str) -> (r: Json)
        ensures
            r@ == JsonV::Str(s@),
    {
        Json::Str(String::from_str(s))
    }

    /// Index of the last member named `key`, if `self` is an object.
    pub fn position(&self, key: &str) -> (r: Option<usize>)
        ensures
            match self@ {
                JsonV::Obj(fields) => match r {
                    Some(k) => find_key(fields, key@) == Some(k as int),
                    None => find_key(fields, key@) is None,
                },
                _ => r is None,
            },
    {
        match self {
            Json::Obj(fields) => {
                proof { lemma_obj_view(*fields); }
                let ghost vf = self@->Obj_0;
                let mut i: usize = fields.len();
                assert(vf.subrange(0, i as int) =~= vf);
                while i > 0
                    invariant
                        *self == Json::Obj(*fields),
                        vf == self@->Obj_0,
                        vf.len() == fields.len(),
                        forall|j: int| 0 <= j < fields.len() ==> #[trigger] vf[j] == (fields@[j].0@, fields@[j].1@),
                        i <= fields.len(),
                        find_key(vf, key@) == find_key(vf.subrange(0, i as int), key@),
                    decreases i,
                {
                    let ghost prefix = vf.subrange(0, i as int);
                    assert(prefix.drop_last() =~= vf.subrange(0, i - 1));
                    assert(prefix.last() == vf[i - 1]);
                    if str_eq(fields[i - 1].0.as_str(), key) {
                        return Some(i - 1);
                    }
                    i = i - 1;
                }
                None
            },
            _ => None,
        }
    }

    /// Member `key` of `self`.
    pub fn get(&self, key: &str) -> (r: Option<&Json>)
        ensures
            match r {
                Some(v) => member(self@, key@) == Some(v@),
                None => member(self@, key@) is None,
            },
    {
        match self.position(key) {
            Some(i) => match self {
                Json::Obj(fields) => {
                    proof {
                        lemma_obj_view(*fields);
                        lemma_find_key(self@->Obj_0, key@);
                    }
                    Some(&fields[i].1)
                },
                _ => None,
            },
            None => None,
        }
    }

    /// The text held by member `key`, if it is a string.
    pub fn get_str(&self, key: &str) -> (r: Option<&str>)
        ensures
            match r {
                Some(s) => member_str(self@, key@) == Some(s@),
                None => member_str(self@, key@) is None,
            },
    {
        match self.get(key) {
            Some(Json::Str(s)) => Some(s.as_str()),
            _ => None,
        }
    }

    /// `self` with member `key` set to `value`.
    pub fn with_member(self, key: &str, value: Json) -> (r: Json)
        ensures
            r@ == with_member(self@, key@, value@),
    {
        let pos = self.position(key);
        match self {
            Json::Obj(mut fields) => {
                proof { lemma_obj_view(fields); lemma_find_key(Json::Obj(fields)@->Obj_0, key@); }
                let ghost old_fields = fields;
                let ghost vf = Json::Obj(fields)@->Obj_0;
                let entry = (String::from_str(key), value);
                match pos {
                    Some(i) => {
                        fields.set(i, entry);
                        proof {
                            lemma_obj_view(fields);
                            assert(Json::Obj(fields)@->Obj_0 =~= vf.update(i as int, (key@, value@)));
                        }
                    },
                    None => {
                        fields.push(entry);
                        proof {
                            lemma_obj_view(fields);
                            assert(Json::Obj(fields)@->Obj_0 =~= vf.push((key@, value@)));
                        }
                    },
                }
                Json::Obj(fields)
            },
            other => other,
        }
    }

    /// Member `key`, taken out of `self`.
    pub fn into_member(self, key: &str) -> (r: Option<Json>)
        ensures
            match r {
                Some(v) => member(self@, key@) == Some(v@),
                None => member(self@, key@) is None,
            },
    {
        let pos = self.position(key);
        match self {
            Json::Obj(mut fields) => {
                proof { lemma_obj_view(fields); lemma_find_key(Json::Obj(fields)@->Obj_0, key@); }
                match pos {
                    Some(i) => {
                        let (_, v) = fields.remove(i);
                        Some(v)
                    },
                    None => None,
                }
            },
            _ => None,
        }
    }

    /// A copy of `self`.
    pub fn deep_clone(&self) -> (r: Json)
        ensures
            r@ == self@,
        decreases self,
    {
        match self {
            Json::Null => Json::Null,
            Json::Bool(b) => Json::Bool(*b),
            Json::Num(n) => Json::Num(n.clone()),
            Json::Str(s) => Json::Str(s.clone()),
            Json::Arr(v) => {
                assert(decreases_to!(*self => *v));
                let mut out: Vec<Json> = Vec::new();
                let mut i: usize = 0;
                while i < v.len()
                    invariant
                        *self == Json::Arr(*v),
                        decreases_to!(*self => *v),
                        i <= v.len(),
                        out.len() == i,
                        forall|k: int| 0 <= k < i ==> #[trigger] out@[k]@ == v@[k]@,
                    decreases v.len() - i,
                {
                    proof {
                        vstd::std_specs::vec::axiom_vec_index_decreases(*v, i as int);
                    }
                    let c = v[i].deep_clone();
                    out.push(c);
                    i = i + 1;
                }
                let r = Json::Arr(out);
                assert(r@->Arr_0 =~= self@->Arr_0) by {
                    assert(forall|k: int| 0 <= k < out.len() ==> #[trigger] r@->Arr_0[k] == out@[k]@);
                    assert(forall|k: int| 0 <= k < v.len() ==> #[trigger] self@->Arr_0[k] == v@[k]@);
                }
                r
            },
            Json::Obj(fs) => {
                assert(decreases_to!(*self => *fs));
                let mut out: Vec<(String, Json)> = Vec::new();
                let mut i: usize = 0;
                while i < fs.len()
                    invariant
                        *self == Json::Obj(*fs),
                        decreases_to!(*self => *fs),
                        i <= fs.len(),
                        out.len() == i,
                        forall|k: int| 0 <= k < i ==> #[trigger] out@[k].0@ == fs@[k].0@ && out@[k].1@ == fs@[k].1@,
                    decreases fs.len() - i,
                {
                    proof {
                        vstd::std_specs::vec::axiom_vec_index_decreases(*fs, i as int);
                    }
                    let c = fs[i].1.deep_clone();
                    out.push((fs[i].0.clone(), c));
                    i = i + 1;
                }
                proof { lemma_obj_view(out); lemma_obj_view(*fs); }
                let r = Json::Obj(out);
                assert(r@->Obj_0 =~= self@->Obj_0);
                r
            },
        }
    }

    /// An object with no members.
    pub fn empty_object() -> (r: Json)
        ensures
            r@ == JsonV::Obj(Seq::empty()),
    {
        let v: Vec<(String, Json)> = Vec::new();
        proof { lemma_obj_view(v); }
        let r = Json::Obj(v);
        assert(r@->Obj_0 =~= Seq::<(Seq<char>, JsonV)>::empty());
        r
    }

    /// `self` without its last member named `key`.
    pub fn without_member(self, key: &str) -> (r: Json)
        ensures
            r@ == without_member(self@, key@),
    {
        let pos = self.position(key);
        match self {
            Json::Obj(mut fields) => {
                proof { lemma_obj_view(fields); lemma_find_key(Json::Obj(fields)@->Obj_0, key@); }
                let ghost vf = Json::Obj(fields)@->Obj_0;
                match pos {
                    Some(i) => {
                        fields.remove(i);
                        proof {
                            lemma_obj_view(fields);
                            assert(Json::Obj(fields)@->Obj_0 =~= vf.remove(i as int));
                        }
                        Json::Obj(fields)
                    },
                    None => Json::Obj(fields),
                }
            },
            other => other,
        }
    }

    /// Whether `self` is an object with a member `key`.
    pub fn has(&self, key: &str) -> (r: bool)
        ensures
            r == (member(self@, key@) is Some),
    {
        self.position(key).is_some()
    }
}

} // verus!
