//! Item streams: newline-delimited JSON objects produced by a palette.
use vstd::prelude::*;

use crate::json::{
    find_key, json_parse, lemma_find_key, lemma_view_kind, json_text, jview, lemma_obj_view, member, member_str, parse_json,
    parse_toml, to_json_text, toml_parse, with_member, Json, JsonV,
};
use crate::text::{
    ends_with, join, join_with, lines, lines_of, starts_with, to_upper, trim, trimmed, upper_of,
    views, lemma_views_push,
};

verus! {

/// An item with its `id` defaulted from its `name` when it has none.
pub open spec fn normalized(v: JsonV) -> JsonV {
    match member(v, "id"@) {
        None => match member_str(v, "name"@) {
            Some(n) => with_member(v, "id"@, JsonV::Str(n)),
            None => v,
        },
        Some(_) => v,
    }
}

/// Each line that parses as JSON, normalized and written back; the others dropped.
pub open spec fn normalized_lines(ls: Seq<Seq<char>>) -> Seq<Seq<char>>
    decreases ls.len(),
{
    if ls.len() == 0 {
        Seq::<Seq<char>>::empty()
    } else {
        let rest = normalized_lines(ls.drop_last());
        match json_parse(ls.last()) {
            Some(v) => rest.push(json_text(normalized(v))),
            None => rest,
        }
    }
}

/// The text of each value, in order.
pub open spec fn texts_of(vs: Seq<JsonV>) -> Seq<Seq<char>> {
    vs.map_values(|v: JsonV| json_text(v))
}

/// What a data file holds as an item stream (JSON lines or one JSON array).
pub open spec fn json_data(content: Seq<char>) -> Seq<char> {
    let t = trimmed(content);
    if t.len() > 0 && t[0] == '[' {
        match json_parse(t) {
            Some(JsonV::Arr(vs)) => join_with(texts_of(vs), "\n"@),
            _ => content,
        }
    } else {
        content
    }
}

/// Index of the first member of `fields` that holds an array.
pub open spec fn first_array(fields: Seq<(Seq<char>, JsonV)>) -> Option<int>
    decreases fields.len(),
{
    if fields.len() == 0 {
        None
    } else if fields[0].1 is Arr {
        Some(0)
    } else {
        match first_array(fields.drop_first()) {
            Some(i) => Some(i + 1),
            None => None,
        }
    }
}

/// The item stream of a TOML data file: the entries of its first top-level array.
pub open spec fn toml_data(content: Seq<char>) -> Seq<char> {
    match toml_parse(content) {
        Some(JsonV::Obj(fields)) => match first_array(fields) {
            Some(i) => join_with(texts_of(fields[i].1->Arr_0), "\n"@),
            None => Seq::<char>::empty(),
        },
        _ => Seq::<char>::empty(),
    }
}

/// The value of an environment variable for a member: a string as it is,
/// anything else as JSON text.
pub open spec fn env_value(v: JsonV) -> Seq<char> {
    match v {
        JsonV::Str(s) => s,
        _ => json_text(v),
    }
}

/// The environment variables exported for a picked item.
pub open spec fn env_pairs(v: JsonV) -> Seq<(Seq<char>, Seq<char>)> {
    match v {
        JsonV::Obj(fields) => fields.map_values(
            |f: (Seq<char>, JsonV)| ("PAL_"@ + upper_of(f.0), env_value(f.1)),
        ),
        _ => Seq::empty(),
    }
}

pub open spec fn pair_views(v: Seq<(String, String)>) -> Seq<(Seq<char>, Seq<char>)> {
    v.map_values(|p: (String, String)| (p.0@, p.1@))
}

proof fn lemma_texts_push(a: Seq<JsonV>, i: int)
    requires
        0 <= i < a.len(),
    ensures
        texts_of(a.subrange(0, i + 1)) == texts_of(a.subrange(0, i)).push(json_text(a[i])),
{
    assert(texts_of(a.subrange(0, i + 1)) =~= texts_of(a.subrange(0, i)).push(json_text(a[i])));
}

proof fn lemma_env_push(f: Seq<(Seq<char>, JsonV)>, i: int)
    requires
        0 <= i < f.len(),
    ensures
        env_pairs(JsonV::Obj(f.subrange(0, i + 1))) == env_pairs(JsonV::Obj(f.subrange(0, i))).push(
            ("PAL_"@ + upper_of(f[i].0), env_value(f[i].1)),
        ),
{
    assert(env_pairs(JsonV::Obj(f.subrange(0, i + 1))) =~= env_pairs(JsonV::Obj(f.subrange(0, i))).push(
        ("PAL_"@ + upper_of(f[i].0), env_value(f[i].1)),
    ));
}

proof fn lemma_first_array_range(fields: Seq<(Seq<char>, JsonV)>)
    ensures
        first_array(fields) matches Some(i) ==> 0 <= i < fields.len() && fields[i].1 is Arr,
    decreases fields.len(),
{
    if fields.len() > 0 {
        lemma_first_array_range(fields.drop_first());
    }
}

/// Gives an item an `id` equal to its `name` when it has no `id`.
pub fn normalize_item(item: Json) -> (r: Json)
    ensures
        r@ == normalized(item@),
{
    if item.has("id") {
        return item;
    }
    let name = match item.get_str("name") {
        Some(n) => Json::string(n),
        None => return item,
    };
    item.with_member("id", name)
}

/// Normalizes an item stream: lines that are not JSON are dropped, the others
/// get a default `id`.
pub fn normalize_items(items: &str) -> (r: String)
    ensures
        r@ == join_with(normalized_lines(lines_of(items@)), "\n"@),
{
    let ls = lines(items);
    let mut out: Vec<String> = Vec::new();
    let mut i: usize = 0;
    while i < ls.len()
        invariant
            i <= ls.len(),
            views(ls@) == lines_of(items@),
            views(out@) == normalized_lines(views(ls@).subrange(0, i as int)),
        decreases ls.len() - i,
    {
        proof {
            assert(views(ls@).subrange(0, i + 1).drop_last() =~= views(ls@).subrange(0, i as int));
        }
        match parse_json(ls[i].as_str()) {
            Some(item) => {
                let n = normalize_item(item);
                let t = to_json_text(&n);
                proof { lemma_views_push(out@, t); }
                out.push(t);
            },
            None => {},
        }
        i = i + 1;
    }
    proof {
        assert(views(ls@).subrange(0, ls.len() as int) =~= views(ls@));
    }
    join(&out, "\n")
}

/// The texts of a list of values, joined into an item stream.
fn texts_joined(vs: &Vec<Json>) -> (r: String)
    ensures
        r@ == join_with(texts_of(jview(Json::Arr(*vs))->Arr_0), "\n"@),
{
    let mut out: Vec<String> = Vec::new();
    let mut i: usize = 0;
    let ghost av = jview(Json::Arr(*vs))->Arr_0;
    while i < vs.len()
        invariant
            i <= vs.len(),
            av == jview(Json::Arr(*vs))->Arr_0,
            av.len() == vs.len(),
            forall|j: int| 0 <= j < vs.len() ==> #[trigger] av[j] == vs@[j]@,
            views(out@) == texts_of(av.subrange(0, i as int)),
        decreases vs.len() - i,
    {
        let t = to_json_text(&vs[i]);
        proof {
            lemma_texts_push(av, i as int);
            lemma_views_push(out@, t);
        }
        out.push(t);
        i = i + 1;
    }
    proof {
        assert(av.subrange(0, vs.len() as int) =~= av);
    }
    join(&out, "\n")
}

/// Reads a JSON data file: one JSON array becomes JSON lines, anything else is
/// taken as JSON lines already.
pub fn parse_json_data(content: &str) -> (r: String)
    ensures
        r@ == json_data(content@),
{
    let t = trim(content);
    proof {
        reveal_strlit("[");
        if t@.len() > 0 && t@[0] == '[' {
            assert(t@.subrange(0, 1) =~= "["@);
        }
    }
    if starts_with(t, "[") {
        assert(t@[0] == t@.subrange(0, 1)[0]);
        match parse_json(t) {
            Some(j) => {
                proof { lemma_view_kind(j); }
                match j {
                    Json::Arr(vs) => texts_joined(&vs),
                    _ => String::from_str(content),
                }
            },
            None => String::from_str(content),
        }
    } else {
        String::from_str(content)
    }
}

/// Position of the first member that holds an array.
fn first_array_pos(fields: &Vec<(String, Json)>) -> (r: Option<usize>)
    ensures
        match r {
            Some(i) => first_array(jview(Json::Obj(*fields))->Obj_0) == Some(i as int),
            None => first_array(jview(Json::Obj(*fields))->Obj_0) is None,
        },
{
    proof { lemma_obj_view(*fields); }
    let ghost vf = jview(Json::Obj(*fields))->Obj_0;
    let mut i: usize = 0;
    proof { lemma_first_array_step(vf, 0); }
    while i < fields.len()
        invariant
            i <= fields.len(),
            vf == jview(Json::Obj(*fields))->Obj_0,
            vf.len() == fields.len(),
            forall|j: int| 0 <= j < fields.len() ==> #[trigger] vf[j] == (fields@[j].0@, fields@[j].1@),
            first_array(vf) == first_array_from(vf, i as int),
        decreases fields.len() - i,
    {
        proof { lemma_first_array_step(vf, i as int); }
        proof { lemma_view_kind(fields@[i as int].1); }
        match &fields[i].1 {
            Json::Arr(_) => return Some(i),
            _ => {},
        }
        i = i + 1;
    }
    proof { lemma_first_array_step(vf, i as int); }
    None
}

/// [`first_array`] of the members from `i` on, as an index into all of them.
pub open spec fn first_array_from(fields: Seq<(Seq<char>, JsonV)>, i: int) -> Option<int> {
    match first_array(fields.subrange(i, fields.len() as int)) {
        Some(k) => Some(k + i),
        None => None,
    }
}

proof fn lemma_first_array_step(fields: Seq<(Seq<char>, JsonV)>, i: int)
    requires
        0 <= i <= fields.len(),
    ensures
        i == 0 ==> first_array_from(fields, i) == first_array(fields),
        i < fields.len() ==> first_array_from(fields, i) == if fields[i].1 is Arr {
            Some(i)
        } else {
            first_array_from(fields, i + 1)
        },
        i == fields.len() ==> first_array_from(fields, i) is None,
{
    if i == 0 {
        assert(fields.subrange(0, fields.len() as int) =~= fields);
    }
    if i < fields.len() {
        assert(fields.subrange(i, fields.len() as int).drop_first() =~= fields.subrange(i + 1, fields.len() as int));
    }
}

/// Reads a TOML data file: the entries of its first top-level array, as JSON lines.
pub fn parse_toml_data(content: &str) -> (r: String)
    ensures
        r@ == toml_data(content@),
{
    match parse_toml(content) {
        Some(Json::Obj(fields)) => {
            proof { lemma_obj_view(fields); lemma_first_array_range(jview(Json::Obj(fields))->Obj_0); }
            match first_array_pos(&fields) {
                Some(i) => {
                    proof { lemma_view_kind(fields@[i as int].1); }
                    match &fields[i].1 {
                        Json::Arr(vs) => texts_joined(vs),
                        _ => String::new(),
                    }
                },
                None => String::new(),
            }
        },
        _ => String::new(),
    }
}

/// Reads a data file by its name: TOML when it ends in `.toml`, else JSON.
pub fn parse_data(content: &str, path: &str) -> (r: String)
    ensures
        r@ == if path@.len() >= 5 && path@.subrange(path@.len() - 5, path@.len() as int)
            == ".toml"@ {
            toml_data(content@)
        } else {
            json_data(content@)
        },
{
    proof { reveal_strlit(".toml"); }
    if ends_with(path, ".toml") {
        parse_toml_data(content)
    } else {
        parse_json_data(content)
    }
}

/// The environment variables to export for a picked item: `PAL_` and the
/// upper-cased key, for each member of the object it holds.
pub fn item_env_vars(selected: &str) -> (r: Vec<(String, String)>)
    ensures
        pair_views(r@) == match json_parse(selected@) {
            Some(v) => env_pairs(v),
            None => Seq::empty(),
        },
{
    let mut out: Vec<(String, String)> = Vec::new();
    match parse_json(selected) {
        Some(Json::Obj(fields)) => {
            proof { lemma_obj_view(fields); }
            let ghost vf = jview(Json::Obj(fields))->Obj_0;
            let mut i: usize = 0;
            while i < fields.len()
                invariant
                    i <= fields.len(),
                    vf == jview(Json::Obj(fields))->Obj_0,
                    vf.len() == fields.len(),
                    forall|j: int| 0 <= j < fields.len() ==> #[trigger] vf[j] == (fields@[j].0@, fields@[j].1@),
                    pair_views(out@) == env_pairs(JsonV::Obj(vf.subrange(0, i as int))),
                decreases fields.len() - i,
            {
                let mut name = String::from_str("PAL_");
                let up = to_upper(fields[i].0.as_str());
                name.append(up.as_str());
                let value = match &fields[i].1 {
                    Json::Str(s) => s.clone(),
                    other => to_json_text(other),
                };
                proof {
                    lemma_env_push(vf, i as int);
                    assert(pair_views(out@.push((name, value))) =~= pair_views(out@).push((name@, value@)));
                }
                out.push((name, value));
                i = i + 1;
            }
            proof { assert(vf.subrange(0, fields.len() as int) =~= vf); }
            out
        },
        _ => out,
    }
}

/// Once an object has no `id`, its normalized form has an `id` equal to its
/// `name`, and every other member is as it was.
pub proof fn lemma_id_defaults_to_name(v: JsonV, name: Seq<char>)
    requires
        v is Obj,
        member(v, "id"@) is None,
        member_str(v, "name"@) == Some(name),
    ensures
        member(normalized(v), "id"@) == Some(JsonV::Str(name)),
        forall|k: Seq<char>| k != "id"@ ==> #[trigger] member(normalized(v), k) == member(v, k),
{
    let fields = v->Obj_0;
    let nf = fields.push(("id"@, JsonV::Str(name)));
    assert(nf.drop_last() =~= fields);
    assert forall|k: Seq<char>| k != "id"@ implies #[trigger] member(normalized(v), k) == member(v, k) by {
        assert(find_key(nf, k) == find_key(fields, k));
        lemma_find_key(fields, k);
    }
}

} // verus!
