//! Host names from SSH's configuration and known-hosts files.
use vstd::prelude::*;

use crate::text::{
    contains_char, lines, lines_of, lower_of, split_char, split_on, split_whitespace, starts_with,
    str_eq, to_lower, trim, trimmed, views, words_of,
};

verus! {

/// A host entry that is a pattern rather than a name.
pub open spec fn is_pattern(h: Seq<char>) -> bool {
    h.contains('*') || h.contains('?') || h.contains('!')
}

pub open spec fn names_only(ws: Seq<Seq<char>>) -> Seq<Seq<char>> {
    ws.filter(|w: Seq<char>| !is_pattern(w))
}

/// The hosts a `Host` line names (keyword in any case).
pub open spec fn line_hosts(line: Seq<char>) -> Seq<Seq<char>> {
    let t = trimmed(line);
    let lower = lower_of(t);
    if lower.len() >= 5 && lower.subrange(0, 5) == "host "@ && t.len() >= 5 {
        names_only(words_of(t.subrange(5, t.len() as int)))
    } else {
        Seq::empty()
    }
}

/// The hosts of each line, in order.
pub open spec fn hosts_of_lines(ls: Seq<Seq<char>>, per_line: spec_fn(Seq<char>) -> Seq<Seq<char>>) -> Seq<Seq<char>>
    decreases ls.len(),
{
    if ls.len() == 0 {
        Seq::empty()
    } else {
        hosts_of_lines(ls.drop_last(), per_line) + per_line(ls.last())
    }
}

/// `v` with `h` added unless it is there.
pub open spec fn add_unique(v: Seq<Seq<char>>, h: Seq<char>) -> Seq<Seq<char>> {
    if v.contains(h) {
        v
    } else {
        v.push(h)
    }
}

/// `v` with each of `hs` added in turn unless it is there.
pub open spec fn add_all(v: Seq<Seq<char>>, hs: Seq<Seq<char>>) -> Seq<Seq<char>>
    decreases hs.len(),
{
    if hs.len() == 0 {
        v
    } else {
        add_unique(add_all(v, hs.drop_last()), hs.last())
    }
}

fn insert_unique(hosts: &mut Vec<String>, h: String)
    ensures
        views(final(hosts)@) == add_unique(views(old(hosts)@), h@),
{
    let mut i: usize = 0;
    while i < hosts.len()
        invariant
            i <= hosts.len(),
            forall|j: int| 0 <= j < i ==> #[trigger] hosts@[j]@ != h@,
        decreases hosts.len() - i,
    {
        if str_eq(hosts[i].as_str(), h.as_str()) {
            assert(views(hosts@)[i as int] == h@);
            return;
        }
        i = i + 1;
    }
    assert(!views(hosts@).contains(h@)) by {
        if views(hosts@).contains(h@) {
            let k = choose|k: int| 0 <= k < views(hosts@).len() && views(hosts@)[k] == h@;
            assert(hosts@[k]@ == h@);
        }
    }
    let ghost before = hosts@;
    hosts.push(h);
    proof { crate::text::lemma_views_push(before, h); }
}

fn add_hosts(hosts: &mut Vec<String>, hs: Vec<String>)
    ensures
        views(final(hosts)@) == add_all(views(old(hosts)@), views(hs@)),
{
    let ghost start = views(hosts@);
    let mut i: usize = 0;
    while i < hs.len()
        invariant
            i <= hs.len(),
            views(hosts@) == add_all(start, views(hs@).subrange(0, i as int)),
        decreases hs.len() - i,
    {
        assert(views(hs@).subrange(0, i + 1).drop_last() =~= views(hs@).subrange(0, i as int));
        insert_unique(hosts, hs[i].clone());
        i = i + 1;
    }
    assert(views(hs@).subrange(0, hs.len() as int) =~= views(hs@));
}

proof fn lemma_add_all_concat(v: Seq<Seq<char>>, a: Seq<Seq<char>>, b: Seq<Seq<char>>)
    ensures
        add_all(add_all(v, a), b) == add_all(v, a + b),
    decreases b.len(),
{
    if b.len() == 0 {
        assert(a + b =~= a);
    } else {
        lemma_add_all_concat(v, a, b.drop_last());
        assert((a + b).drop_last() =~= a + b.drop_last());
    }
}

fn names_without_patterns(ws: &Vec<String>) -> (r: Vec<String>)
    ensures
        views(r@) == names_only(views(ws@)),
{
    let mut out: Vec<String> = Vec::new();
    let mut i: usize = 0;
    while i < ws.len()
        invariant
            i <= ws.len(),
            views(out@) == names_only(views(ws@).subrange(0, i as int)),
        decreases ws.len() - i,
    {
        proof {
            reveal(Seq::filter);
            assert(views(ws@).subrange(0, i + 1).drop_last() =~= views(ws@).subrange(0, i as int));
        }
        let w = ws[i].as_str();
        if !(contains_char(w, '*') || contains_char(w, '?') || contains_char(w, '!')) {
            let c = ws[i].clone();
            proof { crate::text::lemma_views_push(out@, c); }
            out.push(c);
        }
        i = i + 1;
    }
    assert(views(ws@).subrange(0, ws.len() as int) =~= views(ws@));
    out
}

/// The hosts a `Host` line names.
pub fn host_line(line: &str) -> (r: Vec<String>)
    ensures
        views(r@) == line_hosts(line@),
{
    proof { reveal_strlit("host "); }
    let t = trim(line);
    let lower = to_lower(t);
    let n = t.unicode_len();
    if starts_with(lower.as_str(), "host ") && n >= 5 {
        let ws = split_whitespace(t.substring_char(5, n));
        names_without_patterns(&ws)
    } else {
        let v: Vec<String> = Vec::new();
        assert(views(v@) =~= Seq::<Seq<char>>::empty());
        v
    }
}

/// Adds the hosts named by the `Host` lines of an SSH configuration, leaving
/// out patterns and names already there.
pub fn parse_config_hosts(content: &str, hosts: &mut Vec<String>)
    ensures
        views(final(hosts)@) == add_all(
            views(old(hosts)@),
            hosts_of_lines(lines_of(content@), |l: Seq<char>| line_hosts(l)),
        ),
{
    let ls = lines(content);
    let ghost start = views(hosts@);
    let ghost f = |l: Seq<char>| line_hosts(l);
    let mut i: usize = 0;
    while i < ls.len()
        invariant
            i <= ls.len(),
            views(ls@) == lines_of(content@),
            f == (|l: Seq<char>| line_hosts(l)),
            views(hosts@) == add_all(start, hosts_of_lines(views(ls@).subrange(0, i as int), f)),
        decreases ls.len() - i,
    {
        let hs = host_line(ls[i].as_str());
        proof {
            assert(views(ls@).subrange(0, i + 1).drop_last() =~= views(ls@).subrange(0, i as int));
            lemma_add_all_concat(start, hosts_of_lines(views(ls@).subrange(0, i as int), f), views(hs@));
        }
        add_hosts(hosts, hs);
        i = i + 1;
    }
    assert(views(ls@).subrange(0, ls.len() as int) =~= views(ls@));
}

/// A known-hosts entry without its `[`…`]:port` wrapping.
pub open spec fn unbracketed(h: Seq<char>) -> Seq<char> {
    if h.len() > 0 && h[0] == '[' {
        split_on(drop_open_brackets(h), ']')[0]
    } else {
        h
    }
}

/// `h` without its leading `[` characters.
pub open spec fn drop_open_brackets(h: Seq<char>) -> Seq<char>
    decreases h.len(),
{
    if h.len() > 0 && h[0] == '[' {
        drop_open_brackets(h.drop_first())
    } else {
        h
    }
}

/// Whether an entry starts with an ASCII digit, as an address does.
pub open spec fn looks_numeric(h: Seq<char>) -> bool {
    h.len() > 0 && '0' <= h[0] && h[0] <= '9'
}

/// The host names of a known-hosts line: its first field split at commas,
/// with comments, markers, hashed entries and addresses left out.
pub open spec fn known_line_hosts(line: Seq<char>) -> Seq<Seq<char>> {
    let t = trimmed(line);
    if t.len() == 0 || t[0] == '#' || t[0] == '@' {
        Seq::empty()
    } else {
        let ws = words_of(t);
        if ws.len() == 0 || (ws[0].len() > 0 && ws[0][0] == '|') {
            Seq::empty()
        } else {
            split_on(ws[0], ',').map_values(|h: Seq<char>| unbracketed(h)).filter(
                |h: Seq<char>| !looks_numeric(h),
            )
        }
    }
}

fn strip_brackets(h: &str) -> (r: String)
    ensures
        r@ == unbracketed(h@),
{
    let n = h.unicode_len();
    if n == 0 || h.get_char(0) != '[' {
        return String::from_str(h);
    }
    let mut i: usize = 0;
    assert(h@.subrange(0, n as int) =~= h@);
    while i < n && h.get_char(i) == '['
        invariant
            n == h@.len(),
            i <= n,
            drop_open_brackets(h@) == drop_open_brackets(h@.subrange(i as int, n as int)),
        decreases n - i,
    {
        assert(h@.subrange(i as int, n as int).drop_first() =~= h@.subrange(i + 1, n as int));
        i = i + 1;
    }
    let rest = h.substring_char(i, n);
    let parts = split_char(rest, ']');
    proof { crate::text::lemma_split_on_nonempty(rest@, ']'); }
    parts[0].clone()
}

/// The host names of one known-hosts line.
pub fn known_host_line(line: &str) -> (r: Vec<String>)
    ensures
        views(r@) == known_line_hosts(line@),
{
    let mut out: Vec<String> = Vec::new();
    let t = trim(line);
    if t.unicode_len() == 0 || t.get_char(0) == '#' || t.get_char(0) == '@' {
        assert(views(out@) =~= Seq::<Seq<char>>::empty());
        return out;
    }
    let ws = split_whitespace(t);
    if ws.len() == 0 || (ws[0].as_str().unicode_len() > 0 && ws[0].as_str().get_char(0) == '|') {
        assert(views(out@) =~= Seq::<Seq<char>>::empty());
        return out;
    }
    let parts = split_char(ws[0].as_str(), ',');
    let ghost mapped = views(parts@).map_values(|h: Seq<char>| unbracketed(h));
    let mut i: usize = 0;
    proof {
        reveal(Seq::filter);
        assert(mapped.subrange(0, 0).filter(|h: Seq<char>| !looks_numeric(h)) =~= Seq::<Seq<char>>::empty());
    }
    while i < parts.len()
        invariant
            i <= parts.len(),
            mapped == views(parts@).map_values(|h: Seq<char>| unbracketed(h)),
            views(out@) == mapped.subrange(0, i as int).filter(|h: Seq<char>| !looks_numeric(h)),
        decreases parts.len() - i,
    {
        proof {
            reveal(Seq::filter);
            assert(mapped.subrange(0, i + 1).drop_last() =~= mapped.subrange(0, i as int));
        }
        let h = strip_brackets(parts[i].as_str());
        let numeric = h.as_str().unicode_len() > 0 && {
            let c = h.as_str().get_char(0);
            '0' <= c && c <= '9'
        };
        if !numeric {
            proof { crate::text::lemma_views_push(out@, h); }
            out.push(h);
        }
        i = i + 1;
    }
    assert(mapped.subrange(0, parts.len() as int) =~= mapped);
    out
}

/// Adds the host names of a known-hosts file, leaving out names already there.
pub fn parse_known_hosts(content: &str, hosts: &mut Vec<String>)
    ensures
        views(final(hosts)@) == add_all(
            views(old(hosts)@),
            hosts_of_lines(lines_of(content@), |l: Seq<char>| known_line_hosts(l)),
        ),
{
    let ls = lines(content);
    let ghost start = views(hosts@);
    let ghost f = |l: Seq<char>| known_line_hosts(l);
    let mut i: usize = 0;
    while i < ls.len()
        invariant
            i <= ls.len(),
            views(ls@) == lines_of(content@),
            f == (|l: Seq<char>| known_line_hosts(l)),
            views(hosts@) == add_all(start, hosts_of_lines(views(ls@).subrange(0, i as int), f)),
        decreases ls.len() - i,
    {
        let hs = known_host_line(ls[i].as_str());
        proof {
            assert(views(ls@).subrange(0, i + 1).drop_last() =~= views(ls@).subrange(0, i as int));
            lemma_add_all_concat(start, hosts_of_lines(views(ls@).subrange(0, i as int), f), views(hs@));
        }
        add_hosts(hosts, hs);
        i = i + 1;
    }
    assert(views(ls@).subrange(0, ls.len() as int) =~= views(ls@));
}

} // verus!
