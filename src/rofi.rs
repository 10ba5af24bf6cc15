//! Items as rofi shows them: dmenu rows, script-mode rows and blocks lines.
use vstd::prelude::*;

use crate::json::{lemma_obj_view, parse_json, Json, JsonV};
use crate::render::{
    display_of, icon_field, is_glyph, icon_of, parsed_lines, rendered_lines, rofi_display, rofi_row,
    rofi_row_of, rofi_script_row, script_row_of,
};
use crate::text::{join, join_with, lines, lines_of, views};

verus! {

/// The rofi rows of an item stream, and beside them the raw lines they
/// show, index for index; lines that are not JSON are left out.
pub fn format_items(items: &str) -> (r: (String, Vec<String>))
    ensures
        r.0@ == join_with(rendered_lines(lines_of(items@), |l: Seq<char>, v: JsonV| rofi_row(l, v)), "\n"@),
        views(r.1@) == parsed_lines(lines_of(items@)),
{
    let ls = lines(items);
    let ghost f = |l: Seq<char>, v: JsonV| rofi_row(l, v);
    let mut out: Vec<String> = Vec::new();
    let mut raw: Vec<String> = Vec::new();
    let mut i: usize = 0;
    while i < ls.len()
        invariant
            i <= ls.len(),
            views(ls@) == lines_of(items@),
            f == (|l: Seq<char>, v: JsonV| rofi_row(l, v)),
            views(out@) == rendered_lines(views(ls@).subrange(0, i as int), f),
            views(raw@) == parsed_lines(views(ls@).subrange(0, i as int)),
        decreases ls.len() - i,
    {
        assert(views(ls@).subrange(0, i + 1).drop_last() =~= views(ls@).subrange(0, i as int));
        match parse_json(ls[i].as_str()) {
            Some(v) => {
                let row = rofi_row_of(ls[i].as_str(), &v);
                let line = ls[i].clone();
                proof {
                    crate::text::lemma_views_push(out@, row);
                    crate::text::lemma_views_push(raw@, line);
                }
                out.push(row);
                raw.push(line);
            },
            None => {},
        }
        i = i + 1;
    }
    assert(views(ls@).subrange(0, ls.len() as int) =~= views(ls@));
    (join(&out, "\n"), raw)
}

/// The rofi script-mode rows of an item stream; lines that are not JSON are
/// left out.
pub fn format_script_items(items: &str) -> (r: String)
    ensures
        r@ == join_with(rendered_lines(lines_of(items@), |l: Seq<char>, v: JsonV| rofi_script_row(l, v)), "\n"@),
{
    let ls = lines(items);
    let ghost f = |l: Seq<char>, v: JsonV| rofi_script_row(l, v);
    let mut out: Vec<String> = Vec::new();
    let mut i: usize = 0;
    while i < ls.len()
        invariant
            i <= ls.len(),
            views(ls@) == lines_of(items@),
            f == (|l: Seq<char>, v: JsonV| rofi_script_row(l, v)),
            views(out@) == rendered_lines(views(ls@).subrange(0, i as int), f),
        decreases ls.len() - i,
    {
        assert(views(ls@).subrange(0, i + 1).drop_last() =~= views(ls@).subrange(0, i as int));
        match parse_json(ls[i].as_str()) {
            Some(v) => {
                let row = script_row_of(ls[i].as_str(), &v);
                proof { crate::text::lemma_views_push(out@, row); }
                out.push(row);
            },
            None => {},
        }
        i = i + 1;
    }
    assert(views(ls@).subrange(0, ls.len() as int) =~= views(ls@));
    join(&out, "\n")
}

/// A rofi-blocks line object for an item: what is shown, with markup, the
/// raw line as its data, and an icon name when the item has one.
pub open spec fn blocks_line(line: Seq<char>, v: JsonV) -> JsonV {
    let icon = icon_of(v, "icon_xdg"@, "icon"@);
    let base = seq![
        ("text"@, JsonV::Str(rofi_display(v))),
        ("markup"@, JsonV::Bool(true)),
        ("data"@, JsonV::Str(line)),
    ];
    JsonV::Obj(
        if !is_glyph(icon) && icon.len() > 0 {
            base.push(("icon"@, JsonV::Str(icon)))
        } else {
            base
        },
    )
}

/// The blocks line of each item that is JSON, in order.
pub open spec fn blocks_lines(ls: Seq<Seq<char>>) -> Seq<JsonV>
    decreases ls.len(),
{
    if ls.len() == 0 {
        Seq::empty()
    } else {
        let rest = blocks_lines(ls.drop_last());
        match crate::json::json_parse(ls.last()) {
            Some(v) => rest.push(blocks_line(ls.last(), v)),
            None => rest,
        }
    }
}

/// The rofi-blocks line objects of an item stream; lines that are not JSON
/// are left out.
pub fn format_blocks_lines(items: &str) -> (r: Vec<Json>)
    ensures
        r@.map_values(|j: Json| j@) == blocks_lines(lines_of(items@)),
{
    let ls = lines(items);
    let mut out: Vec<Json> = Vec::new();
    let mut i: usize = 0;
    assert(out@.map_values(|j: Json| j@) =~= Seq::<JsonV>::empty());
    while i < ls.len()
        invariant
            i <= ls.len(),
            views(ls@) == lines_of(items@),
            out@.map_values(|j: Json| j@) == blocks_lines(views(ls@).subrange(0, i as int)),
        decreases ls.len() - i,
    {
        assert(views(ls@).subrange(0, i + 1).drop_last() =~= views(ls@).subrange(0, i as int));
        match parse_json(ls[i].as_str()) {
            Some(v) => {
                let icon = icon_field(&v, "icon_xdg", "icon");
                let mut fs: Vec<(String, Json)> = Vec::new();
                fs.push((String::from_str("text"), Json::Str(display_of(&v))));
                fs.push((String::from_str("markup"), Json::Bool(true)));
                fs.push((String::from_str("data"), Json::string(ls[i].as_str())));
                if !crate::render::glyph_icon(icon.as_str()) && icon.unicode_len() > 0 {
                    fs.push((String::from_str("icon"), Json::Str(icon)));
                }
                proof { lemma_obj_view(fs); }
                let obj = Json::Obj(fs);
                assert(obj@->Obj_0 =~= blocks_line(ls@[i as int]@, v@)->Obj_0);
                let ghost before = out@;
                out.push(obj);
                assert(out@.map_values(|j: Json| j@) =~= before.map_values(|j: Json| j@).push(obj@));
            },
            None => {},
        }
        i = i + 1;
    }
    assert(views(ls@).subrange(0, ls.len() as int) =~= views(ls@));
    out
}

} // verus!
