//! Combined palettes: the items of several palettes shown as one list, each
//! tagged with the palette it came from so that a pick goes back there.
use vstd::prelude::*;

use crate::config::{find_id, Config, Palette};
use crate::json::{
    json_parse, json_text, lemma_member_with, lemma_view_kind, member, member_str, parse_json,
    to_json_text, with_member, Json, JsonV,
};
use crate::text::{join, join_with, lines, lines_of, split_char, split_on, str_eq, views};


verus! {

/// The icons a source palette gives its items where they have none.
#[derive(Debug)]
pub struct IconFallbacks {
    pub icon: String,
    pub icon_xdg: String,
    pub icon_utf: String,
}

/// Whether member `key` of `v` is a non-empty string.
pub open spec fn has_text(v: JsonV, key: Seq<char>) -> bool {
    member_str(v, key) matches Some(s) && s.len() > 0
}

/// `v` with `fallback` for member `key` when that member is not a non-empty string.
pub open spec fn with_fallback(v: JsonV, key: Seq<char>, fallback: Seq<char>) -> JsonV {
    if fallback.len() > 0 && !has_text(v, key) {
        with_member(v, key, JsonV::Str(fallback))
    } else {
        v
    }
}

/// An item of a combined palette: tagged with its source in `_source`, with
/// the source's icons where it has none; `None` for what is not an object.
pub open spec fn tagged(v: JsonV, source: Seq<char>, fb: (Seq<char>, Seq<char>, Seq<char>)) -> Option<JsonV> {
    match v {
        JsonV::Obj(_) => Some(
            with_fallback(
                with_fallback(with_fallback(with_member(v, "_source"@, JsonV::Str(source)), "icon"@, fb.0), "icon_xdg"@, fb.1),
                "icon_utf"@,
                fb.2,
            ),
        ),
        _ => None,
    }
}

/// The tagged form of each line of a source palette's list that is a JSON object.
pub open spec fn tagged_lines(ls: Seq<Seq<char>>, source: Seq<char>, fb: (Seq<char>, Seq<char>, Seq<char>)) -> Seq<Seq<char>>
    decreases ls.len(),
{
    if ls.len() == 0 {
        Seq::empty()
    } else {
        let rest = tagged_lines(ls.drop_last(), source, fb);
        match json_parse(ls.last()) {
            Some(v) => match tagged(v, source, fb) {
                Some(t) => rest.push(json_text(t)),
                None => rest,
            },
            None => rest,
        }
    }
}

impl IconFallbacks {
    pub open spec fn parts(&self) -> (Seq<char>, Seq<char>, Seq<char>) {
        (self.icon@, self.icon_xdg@, self.icon_utf@)
    }

    /// A palette's icons, empty where it sets none.
    pub fn of_palette(p: &Palette) -> (r: IconFallbacks)
        ensures
            r.icon@ == match p.icon { Some(s) => s@, None => Seq::<char>::empty() },
            r.icon_xdg@ == match p.icon_xdg { Some(s) => s@, None => Seq::<char>::empty() },
            r.icon_utf@ == match p.icon_utf { Some(s) => s@, None => Seq::<char>::empty() },
    {
        IconFallbacks {
            icon: match &p.icon { Some(s) => s.clone(), None => String::new() },
            icon_xdg: match &p.icon_xdg { Some(s) => s.clone(), None => String::new() },
            icon_utf: match &p.icon_utf { Some(s) => s.clone(), None => String::new() },
        }
    }
}

fn fill_icon(item: Json, key: &str, fallback: &String) -> (r: Json)
    ensures
        r@ == with_fallback(item@, key@, fallback@),
{
    if fallback.unicode_len() == 0 {
        return item;
    }
    let has = match item.get_str(key) {
        Some(s) => s.unicode_len() > 0,
        None => false,
    };
    if has {
        item
    } else {
        item.with_member(key, Json::string(fallback.as_str()))
    }
}

/// Tags one item with its source palette and fills in missing icons.
pub fn tag_item(item: Json, source: &str, fb: &IconFallbacks) -> (r: Option<Json>)
    ensures
        match r {
            Some(t) => tagged(item@, source@, fb.parts()) == Some(t@),
            None => tagged(item@, source@, fb.parts()) is None,
        },
{
    proof { lemma_view_kind(item); }
    match item {
        Json::Obj(_) => {
            let t = item.with_member("_source", Json::string(source));
            let t = fill_icon(t, "icon", &fb.icon);
            let t = fill_icon(t, "icon_xdg", &fb.icon_xdg);
            let t = fill_icon(t, "icon_utf", &fb.icon_utf);
            Some(t)
        },
        _ => None,
    }
}

/// The lines a source palette contributes to a combined list.
pub fn tag_items(source: &str, items: &str, fb: &IconFallbacks) -> (r: Vec<String>)
    ensures
        views(r@) == tagged_lines(lines_of(items@), source@, fb.parts()),
{
    let ls = lines(items);
    let mut out: Vec<String> = Vec::new();
    let mut i: usize = 0;
    while i < ls.len()
        invariant
            i <= ls.len(),
            views(ls@) == lines_of(items@),
            views(out@) == tagged_lines(views(ls@).subrange(0, i as int), source@, fb.parts()),
        decreases ls.len() - i,
    {
        assert(views(ls@).subrange(0, i + 1).drop_last() =~= views(ls@).subrange(0, i as int));
        match parse_json(ls[i].as_str()) {
            Some(v) => match tag_item(v, source, fb) {
                Some(t) => {
                    let s = to_json_text(&t);
                    proof { crate::text::lemma_views_push(out@, s); }
                    out.push(s);
                },
                None => {},
            },
            None => {},
        }
        i = i + 1;
    }
    assert(views(ls@).subrange(0, ls.len() as int) =~= views(ls@));
    out
}

pub open spec fn text_or_empty(o: Option<String>) -> Seq<char> {
    match o {
        Some(s) => s@,
        None => Seq::empty(),
    }
}

/// A palette's icons, empty where it sets none.
pub open spec fn icons_of(p: Palette) -> (Seq<char>, Seq<char>, Seq<char>) {
    (text_or_empty(p.icon), text_or_empty(p.icon_xdg), text_or_empty(p.icon_utf))
}

/// The ids among `ids` that name a palette, in order, each with its icons.
pub open spec fn known_sources(entries: Seq<(String, Palette)>, ids: Seq<Seq<char>>) -> Seq<(Seq<char>, (Seq<char>, Seq<char>, Seq<char>))>
    decreases ids.len(),
{
    if ids.len() == 0 {
        Seq::empty()
    } else {
        let rest = known_sources(entries, ids.drop_last());
        match find_id(entries, ids.last()) {
            Some(i) => rest.push((ids.last(), icons_of(entries[i].1))),
            None => rest,
        }
    }
}

pub open spec fn source_views(v: Seq<(String, IconFallbacks)>) -> Seq<(Seq<char>, (Seq<char>, Seq<char>, Seq<char>))> {
    v.map_values(|e: (String, IconFallbacks)| (e.0@, e.1.parts()))
}

/// The palettes a combined palette draws from, in order, with their icons;
/// ids that name no palette are left out.
pub fn combine_sources(cfg: &Config, ids: &Vec<String>) -> (r: Vec<(String, IconFallbacks)>)
    ensures
        source_views(r@) == known_sources(cfg.palette@, views(ids@)),
{
    let mut out: Vec<(String, IconFallbacks)> = Vec::new();
    let mut i: usize = 0;
    assert(source_views(out@) =~= Seq::<(Seq<char>, (Seq<char>, Seq<char>, Seq<char>))>::empty());
    while i < ids.len()
        invariant
            i <= ids.len(),
            source_views(out@) == known_sources(cfg.palette@, views(ids@).subrange(0, i as int)),
        decreases ids.len() - i,
    {
        assert(views(ids@).subrange(0, i + 1).drop_last() =~= views(ids@).subrange(0, i as int));
        match cfg.palette_named(ids[i].as_str()) {
            Some(p) => {
                let entry = (ids[i].clone(), IconFallbacks::of_palette(p));
                let ghost before = out@;
                out.push(entry);
                assert(source_views(out@) =~= source_views(before).push((ids@[i as int]@, icons_of(*p))));
            },
            None => {},
        }
        i = i + 1;
    }
    assert(views(ids@).subrange(0, ids.len() as int) =~= views(ids@));
    out
}

/// The list of a combined palette, from each source's tagged lines.
pub fn combined_list(parts: &Vec<Vec<String>>) -> (r: String)
    ensures
        r@ == join_with(
            parts@.map_values(|p: Vec<String>| views(p@)).fold_left(
                Seq::<Seq<char>>::empty(),
                |acc: Seq<Seq<char>>, p: Seq<Seq<char>>| acc + p,
            ),
            "\n"@,
        ),
{
    let mut all: Vec<String> = Vec::new();
    let ghost pv = parts@.map_values(|p: Vec<String>| views(p@));
    let mut i: usize = 0;
    while i < parts.len()
        invariant
            i <= parts.len(),
            pv == parts@.map_values(|p: Vec<String>| views(p@)),
            views(all@) == pv.subrange(0, i as int).fold_left(
                Seq::<Seq<char>>::empty(),
                |acc: Seq<Seq<char>>, p: Seq<Seq<char>>| acc + p,
            ),
        decreases parts.len() - i,
    {
        let ghost before = views(all@);
        let mut j: usize = 0;
        while j < parts[i].len()
            invariant
                i < parts.len(),
                j <= parts@[i as int].len(),
                views(all@) == before + views(parts@[i as int]@.subrange(0, j as int)),
            decreases parts@[i as int].len() - j,
        {
            let s = parts[i][j].clone();
            proof {
                crate::text::lemma_views_push(all@, s);
                assert(views(parts@[i as int]@.subrange(0, j + 1)) =~= views(parts@[i as int]@.subrange(0, j as int)).push(s@));
            }
            all.push(s);
            j = j + 1;
        }
        proof {
            assert(parts@[i as int]@.subrange(0, parts@[i as int].len() as int) =~= parts@[i as int]@);
            assert(pv.subrange(0, i + 1).drop_last() =~= pv.subrange(0, i as int));
        }
        i = i + 1;
    }
    assert(pv.subrange(0, parts.len() as int) =~= pv);
    join(&all, "\n")
}

/// The ids on a chain of combined palettes being listed, separated by commas.
pub open spec fn chain_ids(chain: Seq<char>) -> Seq<Seq<char>> {
    if chain.len() == 0 {
        Seq::empty()
    } else {
        split_on(chain, ',')
    }
}

/// The chain once palette `id` is entered; `None` when `id` is already on it,
/// which would list a palette inside itself.
pub fn enter_combined(chain: &str, id: &str) -> (r: Option<String>)
    ensures
        match r {
            Some(next) => !chain_ids(chain@).contains(id@) && next@ == if chain@.len() == 0 {
                id@
            } else {
                chain@ + ","@ + id@
            },
            None => chain_ids(chain@).contains(id@),
        },
{
    if chain.unicode_len() > 0 {
        let ids = split_char(chain, ',');
        let mut i: usize = 0;
        while i < ids.len()
            invariant
                i <= ids.len(),
                views(ids@) == split_on(chain@, ','),
                chain@.len() > 0,
                forall|j: int| 0 <= j < i ==> #[trigger] ids@[j]@ != id@,
            decreases ids.len() - i,
        {
            if str_eq(ids[i].as_str(), id) {
                assert(views(ids@)[i as int] == id@);
                return None;
            }
            i = i + 1;
        }
        assert(!chain_ids(chain@).contains(id@)) by {
            if chain_ids(chain@).contains(id@) {
                let k = choose|k: int| 0 <= k < views(ids@).len() && views(ids@)[k] == id@;
                assert(ids@[k]@ == id@);
            }
        }
        Some(String::from_str(chain).concat(",").concat(id))
    } else {
        Some(String::from_str(id))
    }
}

/// The palette a combined item came from, as its pick reads it: the
/// `_source` member, when it is a non-empty string.
pub open spec fn source_of(v: Option<JsonV>) -> Option<Seq<char>> {
    match v {
        Some(j) => match member_str(j, "_source"@) {
            Some(s) => if s.len() > 0 {
                Some(s)
            } else {
                None
            },
            None => None,
        },
        None => None,
    }
}

/// The palette a pick of a combined item goes to.
pub fn pick_source(selected: &str) -> (r: Option<String>)
    ensures
        match r {
            Some(s) => source_of(json_parse(selected@)) == Some(s@),
            None => source_of(json_parse(selected@)) is None,
        },
{
    match parse_json(selected) {
        Some(v) => match v.get_str("_source") {
            Some(s) => if s.unicode_len() > 0 {
                Some(String::from_str(s))
            } else {
                None
            },
            None => None,
        },
        None => None,
    }
}

/// Index of the palette a pick of `item` goes to: the one its `_source` names.
pub open spec fn pick_target_index(entries: Seq<(String, Palette)>, item: Option<JsonV>) -> Option<int> {
    match source_of(item) {
        Some(s) => find_id(entries, s),
        None => None,
    }
}

/// The palette a pick of a combined item goes to: the configured palette its
/// `_source` names; `None` when it names none.
pub fn pick_target<'a>(cfg: &'a Config, selected: &str) -> (r: Option<&'a Palette>)
    ensures
        match pick_target_index(cfg.palette@, json_parse(selected@)) {
            Some(i) => r matches Some(p) && *p == cfg.palette@[i].1,
            None => r is None,
        },
{
    match pick_source(selected) {
        Some(s) => cfg.palette_named(s.as_str()),
        None => None,
    }
}

/// Every line a source palette contributes to a combined list is the text of
/// an item whose `_source` is that palette.
pub proof fn lemma_tagged_lines_carry_source(
    ls: Seq<Seq<char>>,
    source: Seq<char>,
    fb: (Seq<char>, Seq<char>, Seq<char>),
    k: int,
)
    requires
        source.len() > 0,
        0 <= k < tagged_lines(ls, source, fb).len(),
    ensures
        exists|t: JsonV| #[trigger] json_text(t) == tagged_lines(ls, source, fb)[k] && source_of(Some(t)) == Some(source),
    decreases ls.len(),
{
    let rest = tagged_lines(ls.drop_last(), source, fb);
    if k < rest.len() {
        lemma_tagged_lines_carry_source(ls.drop_last(), source, fb, k);
        let t = choose|t: JsonV| #[trigger] json_text(t) == rest[k] && source_of(Some(t)) == Some(source);
        assert(tagged_lines(ls, source, fb)[k] == rest[k]);
        assert(json_text(t) == tagged_lines(ls, source, fb)[k]);
    } else {
        let v = json_parse(ls.last())->Some_0;
        lemma_combine_round_trip(v, source, fb);
        let t = tagged(v, source, fb)->Some_0;
        assert(json_text(t) == tagged_lines(ls, source, fb)[k]);
    }
}

/// A pick of an item tagged with a source palette goes to that palette in
/// the configuration, and to no other.
pub proof fn lemma_pick_goes_to_source(
    entries: Seq<(String, Palette)>,
    v: JsonV,
    source: Seq<char>,
    fb: (Seq<char>, Seq<char>, Seq<char>),
)
    requires
        v is Obj,
        source.len() > 0,
    ensures
        pick_target_index(entries, tagged(v, source, fb)) == find_id(entries, source),
{
    lemma_combine_round_trip(v, source, fb);
}

proof fn lemma_fallback_keeps(v: JsonV, key: Seq<char>, fb: Seq<char>, k: Seq<char>)
    requires
        v is Obj,
        k != key,
    ensures
        with_fallback(v, key, fb) is Obj,
        member(with_fallback(v, key, fb), k) == member(v, k),
{
    lemma_member_with(v, key, JsonV::Str(fb), k);
}

/// An item tagged with a non-empty source palette id carries that id, and a
/// pick of it goes back to that palette.
pub proof fn lemma_combine_round_trip(v: JsonV, source: Seq<char>, fb: (Seq<char>, Seq<char>, Seq<char>))
    requires
        v is Obj,
        source.len() > 0,
    ensures
        tagged(v, source, fb) matches Some(t) && source_of(Some(t)) == Some(source),
{
    reveal_strlit("_source");
    reveal_strlit("icon");
    reveal_strlit("icon_xdg");
    reveal_strlit("icon_utf");
    let s = "_source"@;
    let t0 = with_member(v, s, JsonV::Str(source));
    lemma_member_with(v, s, JsonV::Str(source), s);
    assert("icon"@[0] != s[0]);
    assert("icon_xdg"@[0] != s[0]);
    assert("icon_utf"@[0] != s[0]);
    lemma_fallback_keeps(t0, "icon"@, fb.0, s);
    let t1 = with_fallback(t0, "icon"@, fb.0);
    lemma_fallback_keeps(t1, "icon_xdg"@, fb.1, s);
    let t2 = with_fallback(t1, "icon_xdg"@, fb.1);
    lemma_fallback_keeps(t2, "icon_utf"@, fb.2, s);
}

} // verus!
