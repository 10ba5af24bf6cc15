//! Items as fzf shows them: the raw line, then what is shown, then keywords.
use vstd::prelude::*;

use crate::json::{parse_json, JsonV};
use crate::render::{fzf_line, fzf_row, rendered_lines};
use crate::text::{join, join_with, lines, lines_of, views};

verus! {

/// The fzf lines of an item stream; lines that are not JSON are left out.
pub fn format_items(items: &str) -> (r: String)
    ensures
        r@ == join_with(rendered_lines(lines_of(items@), |l: Seq<char>, v: JsonV| fzf_line(l, v)), "\n"@),
{
    let ls = lines(items);
    let ghost f = |l: Seq<char>, v: JsonV| fzf_line(l, v);
    let mut out: Vec<String> = Vec::new();
    let mut i: usize = 0;
    while i < ls.len()
        invariant
            i <= ls.len(),
            views(ls@) == lines_of(items@),
            f == (|l: Seq<char>, v: JsonV| fzf_line(l, v)),
            views(out@) == rendered_lines(views(ls@).subrange(0, i as int), f),
        decreases ls.len() - i,
    {
        assert(views(ls@).subrange(0, i + 1).drop_last() =~= views(ls@).subrange(0, i as int));
        match parse_json(ls[i].as_str()) {
            Some(v) => {
                let row = fzf_row(ls[i].as_str(), &v);
                proof { crate::text::lemma_views_push(out@, row); }
                out.push(row);
            },
            None => {},
        }
        i = i + 1;
    }
    assert(views(ls@).subrange(0, ls.len() as int) =~= views(ls@));
    join(&out, "\n")
}

} // verus!
