//! The logic of the built-in palettes and the plain-text frontend; reading
//! files and starting programs is left to their callers.
use vstd::prelude::*;

use crate::config::{opt_view, Config};
use crate::json::{json_text, lemma_obj_view, to_json_text, Json, JsonV};
use crate::text::{find_char, index_of, join, join_with, lemma_index_of, lines, lines_of, split_char, split_on, split_whitespace, str_eq, trim, trimmed, views, words_of};

verus! {

/// What a desktop entry file says about its application.
#[derive(Debug)]
pub struct DesktopEntry {
    pub name: String,
    pub command: String,
    pub icon: String,
}

/// Where reading a desktop entry file stands after some lines.
pub struct DesktopScan {
    pub in_entry: bool,
    pub name: Option<Seq<char>>,
    pub command: Option<Seq<char>>,
    pub icon: Option<Seq<char>>,
    pub is_app: bool,
    pub no_display: bool,
    pub hidden: bool,
}

pub open spec fn scan_start() -> DesktopScan {
    DesktopScan { in_entry: false, name: None, command: None, icon: None, is_app: false, no_display: false, hidden: false }
}

/// One line of a desktop entry file read into the scan: a `[...]` header
/// says whether the `Desktop Entry` group starts, and inside it `key=value`
/// lines set what they name (the first `Name` only).
pub open spec fn scan_line(s: DesktopScan, line: Seq<char>) -> DesktopScan {
    let t = trimmed(line);
    if t.len() > 0 && t[0] == '[' {
        DesktopScan { in_entry: t == "[Desktop Entry]"@, ..s }
    } else if !s.in_entry {
        s
    } else {
        match index_of(t, '=') {
            None => s,
            Some(i) => {
                let key = t.subrange(0, i);
                let value = t.subrange(i + 1, t.len() as int);
                if key == "Name"@ && s.name is None {
                    DesktopScan { name: Some(value), ..s }
                } else if key == "Exec"@ {
                    DesktopScan { command: Some(value), ..s }
                } else if key == "Icon"@ {
                    DesktopScan { icon: Some(value), ..s }
                } else if key == "Type"@ {
                    DesktopScan { is_app: value == "Application"@, ..s }
                } else if key == "NoDisplay"@ {
                    DesktopScan { no_display: value == "true"@, ..s }
                } else if key == "Hidden"@ {
                    DesktopScan { hidden: value == "true"@, ..s }
                } else {
                    s
                }
            },
        }
    }
}

pub open spec fn scan_lines(ls: Seq<Seq<char>>) -> DesktopScan
    decreases ls.len(),
{
    if ls.len() == 0 {
        scan_start()
    } else {
        scan_line(scan_lines(ls.drop_last()), ls.last())
    }
}

/// The application a desktop entry file describes: `None` unless it is a
/// shown, not hidden application with a name and a command.
pub open spec fn desktop_app(content: Seq<char>) -> Option<(Seq<char>, Seq<char>, Seq<char>)> {
    let s = scan_lines(lines_of(content));
    if !s.is_app || s.no_display || s.hidden || s.name is None || s.command is None {
        None
    } else {
        Some((s.name->Some_0, s.command->Some_0, match s.icon {
            Some(i) => i,
            None => Seq::empty(),
        }))
    }
}

struct ScanState {
    in_entry: bool,
    name: Option<String>,
    command: Option<String>,
    icon: Option<String>,
    is_app: bool,
    no_display: bool,
    hidden: bool,
}

impl ScanState {
    spec fn model(&self) -> DesktopScan {
        DesktopScan {
            in_entry: self.in_entry,
            name: opt_view(self.name),
            command: opt_view(self.command),
            icon: opt_view(self.icon),
            is_app: self.is_app,
            no_display: self.no_display,
            hidden: self.hidden,
        }
    }
}

fn read_line(s: &mut ScanState, line: &str)
    ensures
        final(s).model() == scan_line(old(s).model(), line@),
{
    proof {
        reveal_strlit("[");
        reveal_strlit("Name");
    }
    let t = trim(line);
    let n = t.unicode_len();
    if n > 0 && t.get_char(0) == '[' {
        s.in_entry = str_eq(t, "[Desktop Entry]");
        return;
    }
    if !s.in_entry {
        return;
    }
    let i = match find_char(t, '=') {
        Some(i) => i,
        None => return,
    };
    proof { lemma_index_of(t@, '='); }
    let key = t.substring_char(0, i);
    let value = t.substring_char(i + 1, n);
    if str_eq(key, "Name") && s.name.is_none() {
        s.name = Some(String::from_str(value));
    } else if str_eq(key, "Exec") {
        s.command = Some(String::from_str(value));
    } else if str_eq(key, "Icon") {
        s.icon = Some(String::from_str(value));
    } else if str_eq(key, "Type") {
        s.is_app = str_eq(value, "Application");
    } else if str_eq(key, "NoDisplay") {
        s.no_display = str_eq(value, "true");
    } else if str_eq(key, "Hidden") {
        s.hidden = str_eq(value, "true");
    }
}

/// Reads a desktop entry file.
pub fn parse_desktop_entry(content: &str) -> (r: Option<DesktopEntry>)
    ensures
        match r {
            Some(e) => desktop_app(content@) == Some((e.name@, e.command@, e.icon@)),
            None => desktop_app(content@) is None,
        },
{
    let ls = lines(content);
    let mut s = ScanState {
        in_entry: false,
        name: None,
        command: None,
        icon: None,
        is_app: false,
        no_display: false,
        hidden: false,
    };
    let mut i: usize = 0;
    while i < ls.len()
        invariant
            i <= ls.len(),
            views(ls@) == lines_of(content@),
            s.model() == scan_lines(views(ls@).subrange(0, i as int)),
        decreases ls.len() - i,
    {
        assert(views(ls@).subrange(0, i + 1).drop_last() =~= views(ls@).subrange(0, i as int));
        read_line(&mut s, ls[i].as_str());
        i = i + 1;
    }
    assert(views(ls@).subrange(0, ls.len() as int) =~= views(ls@));
    if !s.is_app || s.no_display || s.hidden {
        return None;
    }
    match (s.name, s.command) {
        (Some(name), Some(command)) => {
            let icon = match s.icon {
                Some(i) => i,
                None => String::new(),
            };
            Some(DesktopEntry { name, command, icon })
        },
        _ => None,
    }
}

/// A desktop entry's command without its `%` field codes, words joined by
/// single spaces.
pub open spec fn launch_command(line: Seq<char>) -> Seq<char> {
    join_with(words_of(line).filter(|w: Seq<char>| !(w.len() > 0 && w[0] == '%')), " "@)
}

/// The command to start for a desktop entry's `Exec` line.
pub fn command_line(exec_line: &str) -> (r: String)
    ensures
        r@ == launch_command(exec_line@),
{
    let ws = split_whitespace(exec_line);
    let ghost wv = views(ws@);
    let mut kept: Vec<String> = Vec::new();
    let mut i: usize = 0;
    proof {
        reveal(Seq::filter);
    }
    assert(wv.subrange(0, 0).filter(|w: Seq<char>| !(w.len() > 0 && w[0] == '%')) =~= Seq::<Seq<char>>::empty());
    while i < ws.len()
        invariant
            i <= ws.len(),
            wv == views(ws@),
            views(kept@) == wv.subrange(0, i as int).filter(|w: Seq<char>| !(w.len() > 0 && w[0] == '%')),
        decreases ws.len() - i,
    {
        proof {
            reveal(Seq::filter);
            assert(wv.subrange(0, i + 1).drop_last() =~= wv.subrange(0, i as int));
        }
        let w = ws[i].as_str();
        if !(w.unicode_len() > 0 && w.get_char(0) == '%') {
            let c = ws[i].clone();
            proof { crate::text::lemma_views_push(kept@, c); }
            kept.push(c);
        }
        i = i + 1;
    }
    assert(wv.subrange(0, ws.len() as int) =~= wv);
    join(&kept, " ")
}

/// The line a numbered choice on standard input picks: the `n`-th, counting
/// from 1; empty for any other number.
pub fn numbered_choice(lines_shown: &Vec<String>, n: usize) -> (r: String)
    ensures
        r@ == if 1 <= n <= lines_shown@.len() {
            lines_shown@[n - 1]@
        } else {
            Seq::<char>::empty()
        },
{
    if n > 0 && n <= lines_shown.len() {
        lines_shown[n - 1].clone()
    } else {
        String::new()
    }
}

/// Which Firefox profile directory to read: the first whose name ends in
/// `.default-release`, else the last whose name holds `default`.
pub open spec fn profile_choice(names: Seq<Seq<char>>) -> Option<int> {
    if exists|i: int| 0 <= i < names.len() && is_release_profile(#[trigger] names[i]) {
        Some(choose|i: int| 0 <= i < names.len() && is_release_profile(names[i]) && forall|j: int| 0 <= j < i ==> !is_release_profile(#[trigger] names[j]))
    } else if exists|i: int| 0 <= i < names.len() && mentions_default(#[trigger] names[i]) {
        Some(choose|i: int| 0 <= i < names.len() && mentions_default(names[i]) && forall|j: int| i < j < names.len() ==> !mentions_default(#[trigger] names[j]))
    } else {
        None
    }
}

pub open spec fn is_release_profile(n: Seq<char>) -> bool {
    n.len() >= 16 && n.subrange(n.len() - 16, n.len() as int) == ".default-release"@
}

pub open spec fn mentions_default(n: Seq<char>) -> bool {
    exists|k: int| 0 <= k && k + 7 <= n.len() && #[trigger] n.subrange(k, k + 7) == "default"@
}

fn holds_default(n: &str) -> (r: bool)
    ensures
        r == mentions_default(n@),
{
    proof { reveal_strlit("default"); }
    let len = n.unicode_len();
    if len < 7 {
        return false;
    }
    let mut k: usize = 0;
    while k <= len - 7
        invariant
            len == n@.len(),
            7 <= len,
            k <= len - 6,
            forall|j: int| 0 <= j < k ==> #[trigger] n@.subrange(j, j + 7) != "default"@,
        decreases len - k,
    {
        if str_eq(n.substring_char(k, k + 7), "default") {
            return true;
        }
        k = k + 1;
    }
    assert forall|j: int| 0 <= j && j + 7 <= n@.len() implies #[trigger] n@.subrange(j, j + 7) != "default"@ by {
        assert(j < k);
    }
    false
}

/// The index of the Firefox profile directory to read, by directory name.
pub fn firefox_profile(names: &Vec<String>) -> (r: Option<usize>)
    ensures
        match r {
            Some(i) => profile_choice(views(names@)) == Some(i as int),
            None => profile_choice(views(names@)) is None,
        },
{
    proof { reveal_strlit(".default-release"); }
    let ghost nv = views(names@);
    let mut any: Option<usize> = None;
    let mut i: usize = 0;
    while i < names.len()
        invariant
            i <= names.len(),
            nv == views(names@),
            nv.len() == names.len(),
            forall|j: int| 0 <= j < i ==> !is_release_profile(#[trigger] nv[j]),
            match any {
                Some(a) => a < i && mentions_default(nv[a as int]) && forall|j: int| a < j < i ==> !mentions_default(#[trigger] nv[j]),
                None => forall|j: int| 0 <= j < i ==> !mentions_default(#[trigger] nv[j]),
            },
        decreases names.len() - i,
    {
        let n = names[i].as_str();
        if crate::text::ends_with(n, ".default-release") {
            proof {
                reveal_strlit(".default-release");
                assert(".default-release"@.len() == 16);
                assert(nv[i as int] == n@);
                assert(is_release_profile(nv[i as int]));
                let c = choose|k: int| 0 <= k < nv.len() && is_release_profile(nv[k]) && forall|j: int| 0 <= j < k ==> !is_release_profile(#[trigger] nv[j]);
                assert(c == i as int) by {
                    if c < i {
                        assert(!is_release_profile(nv[c]));
                    }
                    if c > i {
                        assert(!is_release_profile(nv[i as int]));
                    }
                }
            }
            return Some(i);
        }
        proof {
            reveal_strlit(".default-release");
            assert(".default-release"@.len() == 16);
            assert(nv[i as int] == n@);
        }
        if holds_default(n) {
            any = Some(i);
        }
        i = i + 1;
    }
    proof {
        assert(!exists|k: int| 0 <= k < nv.len() && is_release_profile(#[trigger] nv[k]));
        match any {
            Some(a) => {
                let c = choose|k: int| 0 <= k < nv.len() && mentions_default(nv[k]) && forall|j: int| k < j < nv.len() ==> !mentions_default(#[trigger] nv[j]);
                assert(mentions_default(nv[a as int]));
                assert(c == a as int) by {
                    if c < a {
                        assert(!mentions_default(nv[a as int]));
                    }
                    if c > a {
                        assert(!mentions_default(nv[c]));
                    }
                }
            },
            None => {},
        }
    }
    any
}

/// Whether palette `id` is shown under a scope of comma-separated ids.
pub open spec fn in_scope(scope: Option<Seq<char>>, id: Seq<char>) -> bool {
    match scope {
        Some(s) => split_on(s, ',').contains(id),
        None => true,
    }
}

/// The item that offers palette `id`.
pub open spec fn palette_item(id: Seq<char>, icon: Seq<char>) -> JsonV {
    JsonV::Obj(seq![("id"@, JsonV::Str(id)), ("name"@, JsonV::Str(id)), ("icon"@, JsonV::Str(icon))])
}

/// The items of the palette that lists palettes, one per palette in scope.
pub open spec fn palette_items(entries: Seq<(Seq<char>, Option<Seq<char>>)>, scope: Option<Seq<char>>) -> Seq<Seq<char>>
    decreases entries.len(),
{
    if entries.len() == 0 {
        Seq::empty()
    } else {
        let rest = palette_items(entries.drop_last(), scope);
        let (id, icon) = entries.last();
        if in_scope(scope, id) {
            rest.push(json_text(palette_item(id, match icon {
                Some(i) => i,
                None => "view-list"@,
            })))
        } else {
            rest
        }
    }
}

pub open spec fn palette_entries(cfg: Config) -> Seq<(Seq<char>, Option<Seq<char>>)> {
    cfg.palette@.map_values(|e: (String, crate::config::Palette)| (e.0@, opt_view(e.1.icon)))
}

fn scope_contains(scope: &Vec<String>, id: &str) -> (r: bool)
    ensures
        r == views(scope@).contains(id@),
{
    let mut i: usize = 0;
    while i < scope.len()
        invariant
            i <= scope.len(),
            forall|j: int| 0 <= j < i ==> #[trigger] scope@[j]@ != id@,
        decreases scope.len() - i,
    {
        if str_eq(scope[i].as_str(), id) {
            assert(views(scope@)[i as int] == id@);
            return true;
        }
        i = i + 1;
    }
    assert(!views(scope@).contains(id@)) by {
        if views(scope@).contains(id@) {
            let k = choose|k: int| 0 <= k < views(scope@).len() && views(scope@)[k] == id@;
            assert(scope@[k]@ == id@);
        }
    }
    false
}

/// The items of the palette that lists palettes, limited to `scope` (ids
/// separated by commas) when one is given.
pub fn pal_items(cfg: &Config, scope: Option<&str>) -> (r: String)
    ensures
        r@ == join_with(
            palette_items(
                palette_entries(*cfg),
                match scope {
                    Some(s) => Some(s@),
                    None => None,
                },
            ),
            "\n"@,
        ),
{
    let ghost sv = match scope {
        Some(s) => Some(s@),
        None => None::<Seq<char>>,
    };
    let ids = match scope {
        Some(s) => Some(split_char(s, ',')),
        None => None,
    };
    let ghost entries = palette_entries(*cfg);
    let mut out: Vec<String> = Vec::new();
    let mut i: usize = 0;
    while i < cfg.palette.len()
        invariant
            i <= cfg.palette.len(),
            entries == palette_entries(*cfg),
            entries.len() == cfg.palette@.len(),
            match ids {
                Some(v) => sv matches Some(s) && views(v@) == split_on(s, ','),
                None => sv is None,
            },
            views(out@) == palette_items(entries.subrange(0, i as int), sv),
        decreases cfg.palette.len() - i,
    {
        assert(entries.subrange(0, i + 1).drop_last() =~= entries.subrange(0, i as int));
        let id = cfg.palette[i].0.as_str();
        let shown = match &ids {
            Some(v) => scope_contains(v, id),
            None => true,
        };
        if shown {
            let icon = match &cfg.palette[i].1.icon {
                Some(s) => s.clone(),
                None => String::from_str("view-list"),
            };
            let mut fs: Vec<(String, Json)> = Vec::new();
            fs.push((String::from_str("id"), Json::string(id)));
            fs.push((String::from_str("name"), Json::string(id)));
            fs.push((String::from_str("icon"), Json::string(icon.as_str())));
            proof { lemma_obj_view(fs); }
            let obj = Json::Obj(fs);
            assert(obj@ == palette_item(id@, icon@)) by {
                assert(obj@->Obj_0 =~= palette_item(id@, icon@)->Obj_0);
            }
            let t = to_json_text(&obj);
            proof { crate::text::lemma_views_push(out@, t); }
            out.push(t);
        }
        i = i + 1;
    }
    assert(entries.subrange(0, cfg.palette.len() as int) =~= entries);
    join(&out, "\n")
}

} // verus!
