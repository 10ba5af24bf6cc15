//! How frontends show an item stream: fzf lines and rofi entries.
use vstd::prelude::*;

use crate::json::{json_parse, lemma_view_kind, member, member_str, Json, JsonV};
use crate::prompts::{str_or, strings_in, strings_of};
use crate::text::{join, join_with, replace, replaced, views};

verus! {

/// The text of member `key`, empty when it is not a string.
pub open spec fn text_of(v: JsonV, key: Seq<char>) -> Seq<char> {
    str_or(member_str(v, key), Seq::empty())
}

/// The icon an item shows: member `primary` when present (empty unless a
/// string), else member `secondary`.
pub open spec fn icon_of(v: JsonV, primary: Seq<char>, secondary: Seq<char>) -> Seq<char> {
    match member(v, primary) {
        Some(JsonV::Str(s)) => s,
        Some(_) => Seq::empty(),
        None => text_of(v, secondary),
    }
}

/// The item's string keywords joined by spaces.
pub open spec fn keywords_of(v: JsonV) -> Seq<char> {
    match member(v, "keywords"@) {
        Some(JsonV::Arr(a)) => join_with(strings_of(a), " "@),
        _ => Seq::empty(),
    }
}

pub open spec fn is_word_char(c: char) -> bool {
    ('a' <= c && c <= 'z') || ('A' <= c && c <= 'Z') || ('0' <= c && c <= '9') || c == '-' || c
        == '_'
}

/// An icon that is a glyph to show in text rather than an icon name.
pub open spec fn is_glyph(icon: Seq<char>) -> bool {
    icon.len() > 0 && exists|i: int| 0 <= i < icon.len() && !is_word_char(#[trigger] icon[i])
}

/// The fzf line of an item: the raw line, what is shown, and the keywords,
/// separated by tabs.
pub open spec fn fzf_line(line: Seq<char>, v: JsonV) -> Seq<char> {
    let name = text_of(v, "name"@);
    let icon = icon_of(v, "icon_utf"@, "icon"@);
    let desc = text_of(v, "desc"@);
    let prefix = if is_glyph(icon) {
        icon + " "@
    } else {
        Seq::empty()
    };
    let display = if desc.len() == 0 {
        prefix + name
    } else {
        prefix + name + " \x1b[2m"@ + desc + "\x1b[0m"@
    };
    line + "\t"@ + display + "\t"@ + keywords_of(v)
}

/// The rendering of each line that is JSON, in order.
pub open spec fn rendered_lines(ls: Seq<Seq<char>>, f: spec_fn(Seq<char>, JsonV) -> Seq<char>) -> Seq<Seq<char>>
    decreases ls.len(),
{
    if ls.len() == 0 {
        Seq::empty()
    } else {
        let rest = rendered_lines(ls.drop_last(), f);
        match json_parse(ls.last()) {
            Some(v) => rest.push(f(ls.last(), v)),
            None => rest,
        }
    }
}

/// The lines of each item that is JSON, in order.
pub open spec fn parsed_lines(ls: Seq<Seq<char>>) -> Seq<Seq<char>>
    decreases ls.len(),
{
    if ls.len() == 0 {
        Seq::empty()
    } else {
        let rest = parsed_lines(ls.drop_last());
        match json_parse(ls.last()) {
            Some(v) => rest.push(ls.last()),
            None => rest,
        }
    }
}

/// Text with `&`, `<` and `>` escaped for Pango markup.
pub open spec fn markup_escaped(s: Seq<char>) -> Seq<char> {
    replaced(replaced(replaced(s, "&"@, "&amp;"@), "<"@, "&lt;"@), ">"@, "&gt;"@)
}

/// What rofi shows for an item: a glyph icon before the name, and the
/// description in small, faded markup.
pub open spec fn rofi_display(v: JsonV) -> Seq<char> {
    let name = text_of(v, "name"@);
    let icon = icon_of(v, "icon_xdg"@, "icon"@);
    let desc = text_of(v, "desc"@);
    let name_part = if is_glyph(icon) {
        icon + " "@ + name
    } else {
        name
    };
    if desc.len() == 0 {
        name_part
    } else {
        name_part + " <span size=\"small\" alpha=\"50%\">"@ + markup_escaped(desc) + "</span>"@
    }
}

/// A rofi dmenu row: what is shown, then the icon name and the keywords as
/// row options.
pub open spec fn rofi_row(line: Seq<char>, v: JsonV) -> Seq<char> {
    let icon = icon_of(v, "icon_xdg"@, "icon"@);
    let keywords = keywords_of(v);
    let icon_part = if is_glyph(icon) {
        Seq::empty()
    } else {
        "\0icon\x1f"@ + icon
    };
    let meta_part = if keywords.len() == 0 {
        Seq::empty()
    } else {
        "\x1fmeta\x1f"@ + keywords
    };
    rofi_display(v) + icon_part + meta_part
}

/// A rofi script-mode row: what is shown, then the raw line as its info,
/// an icon name and the keywords.
pub open spec fn rofi_script_row(line: Seq<char>, v: JsonV) -> Seq<char> {
    let icon = icon_of(v, "icon_xdg"@, "icon"@);
    let keywords = keywords_of(v);
    let opts = seq!["info\x1f"@ + line] + if !is_glyph(icon) && icon.len() > 0 {
        seq!["icon\x1f"@ + icon]
    } else {
        Seq::<Seq<char>>::empty()
    } + if keywords.len() > 0 {
        seq!["meta\x1f"@ + keywords]
    } else {
        Seq::<Seq<char>>::empty()
    };
    rofi_display(v) + "\0"@ + join_with(opts, "\x1f"@)
}

pub(crate) fn text_field(v: &Json, key: &str) -> (r: String)
    ensures
        r@ == text_of(v@, key@),
{
    match v.get_str(key) {
        Some(s) => String::from_str(s),
        None => String::new(),
    }
}

pub(crate) fn icon_field(v: &Json, primary: &str, secondary: &str) -> (r: String)
    ensures
        r@ == icon_of(v@, primary@, secondary@),
{
    match v.get(primary) {
        Some(j) => {
            proof { lemma_view_kind(*j); }
            match j {
                Json::Str(s) => s.clone(),
                _ => String::new(),
            }
        },
        None => text_field(v, secondary),
    }
}

pub(crate) fn keywords_field(v: &Json) -> (r: String)
    ensures
        r@ == keywords_of(v@),
{
    match v.get("keywords") {
        Some(j) => {
            proof { lemma_view_kind(*j); }
            match j {
                Json::Arr(a) => {
                    let words = strings_in(a);
                    join(&words, " ")
                },
                _ => String::new(),
            }
        },
        None => String::new(),
    }
}

/// Whether an icon is a glyph rather than an icon name.
pub fn glyph_icon(icon: &str) -> (r: bool)
    ensures
        r == is_glyph(icon@),
{
    let n = icon.unicode_len();
    let mut i: usize = 0;
    while i < n
        invariant
            n == icon@.len(),
            i <= n,
            forall|j: int| 0 <= j < i ==> is_word_char(#[trigger] icon@[j]),
        decreases n - i,
    {
        let c = icon.get_char(i);
        if !(('a' <= c && c <= 'z') || ('A' <= c && c <= 'Z') || ('0' <= c && c <= '9') || c == '-' || c == '_') {
            return true;
        }
        i = i + 1;
    }
    false
}

pub(crate) fn escape_markup(s: &str) -> (r: String)
    ensures
        r@ == markup_escaped(s@),
{
    proof { reveal_strlit("&"); reveal_strlit("<"); reveal_strlit(">"); }
    let a = replace(s, "&", "&amp;");
    let b = replace(a.as_str(), "<", "&lt;");
    replace(b.as_str(), ">", "&gt;")
}

pub(crate) fn fzf_row(line: &str, v: &Json) -> (r: String)
    ensures
        r@ == fzf_line(line@, v@),
{
    let name = text_field(v, "name");
    let icon = icon_field(v, "icon_utf", "icon");
    let desc = text_field(v, "desc");
    let prefix = if glyph_icon(icon.as_str()) {
        icon.concat(" ")
    } else {
        String::new()
    };
    let display = if desc.unicode_len() == 0 {
        prefix.concat(name.as_str())
    } else {
        prefix.concat(name.as_str()).concat(" \x1b[2m").concat(desc.as_str()).concat("\x1b[0m")
    };
    let kw = keywords_field(v);
    String::from_str(line).concat("\t").concat(display.as_str()).concat("\t").concat(kw.as_str())
}

pub(crate) fn display_of(v: &Json) -> (r: String)
    ensures
        r@ == rofi_display(v@),
{
    let name = text_field(v, "name");
    let icon = icon_field(v, "icon_xdg", "icon");
    let desc = text_field(v, "desc");
    let name_part = if glyph_icon(icon.as_str()) {
        icon.concat(" ").concat(name.as_str())
    } else {
        name
    };
    if desc.unicode_len() == 0 {
        name_part
    } else {
        let d = escape_markup(desc.as_str());
        name_part.concat(" <span size=\"small\" alpha=\"50%\">").concat(d.as_str()).concat("</span>")
    }
}

pub(crate) fn rofi_row_of(line: &str, v: &Json) -> (r: String)
    ensures
        r@ == rofi_row(line@, v@),
{
    let icon = icon_field(v, "icon_xdg", "icon");
    let kw = keywords_field(v);
    let mut out = display_of(v);
    if !glyph_icon(icon.as_str()) {
        out.append("\0icon\x1f");
        out.append(icon.as_str());
    }
    if kw.unicode_len() > 0 {
        out.append("\x1fmeta\x1f");
        out.append(kw.as_str());
    }
    out
}

pub(crate) fn script_row_of(line: &str, v: &Json) -> (r: String)
    ensures
        r@ == rofi_script_row(line@, v@),
{
    let icon = icon_field(v, "icon_xdg", "icon");
    let kw = keywords_field(v);
    let mut opts: Vec<String> = Vec::new();
    opts.push(String::from_str("info\x1f").concat(line));
    let ghost o1 = views(opts@);
    if !glyph_icon(icon.as_str()) && icon.unicode_len() > 0 {
        opts.push(String::from_str("icon\x1f").concat(icon.as_str()));
    }
    let ghost o2 = views(opts@);
    if kw.unicode_len() > 0 {
        opts.push(String::from_str("meta\x1f").concat(kw.as_str()));
    }
    proof {
        let i_part = if !is_glyph(icon@) && icon@.len() > 0 {
            seq!["icon\x1f"@ + icon@]
        } else {
            Seq::<Seq<char>>::empty()
        };
        let k_part = if kw@.len() > 0 {
            seq!["meta\x1f"@ + kw@]
        } else {
            Seq::<Seq<char>>::empty()
        };
        assert(o1 =~= seq!["info\x1f"@ + line@]);
        assert(o2 =~= o1 + i_part);
        assert(views(opts@) =~= o2 + k_part);
    }
    let joined = join(&opts, "\x1f");
    display_of(v).concat("\0").concat(joined.as_str())
}

} // verus!
