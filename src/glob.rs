//! File name patterns and the choice of directory entries when scanning.
use vstd::prelude::*;

use crate::text::{
    char_lower_first, join_path, lower_first, path_join, starts_with, str_eq, strip_prefix,
};

verus! {

/// Whether `name` matches `pattern`: `*` matches any run of characters, `?`
/// any one character, and any other character itself, case aside.
pub open spec fn glob(pattern: Seq<char>, name: Seq<char>) -> bool
    decreases pattern.len(), name.len(),
{
    if pattern.len() == 0 {
        name.len() == 0
    } else if pattern[0] == '*' {
        glob(pattern.drop_first(), name) || (name.len() > 0 && glob(pattern, name.drop_first()))
    } else if pattern[0] == '?' {
        name.len() > 0 && glob(pattern.drop_first(), name.drop_first())
    } else {
        name.len() > 0 && lower_first(name[0]) == lower_first(pattern[0]) && glob(
            pattern.drop_first(),
            name.drop_first(),
        )
    }
}

/// The characters of a text.
fn chars_of(s: &str) -> (r: Vec<char>)
    ensures
        r@ == s@,
{
    let n = s.unicode_len();
    let mut v: Vec<char> = Vec::new();
    let mut i: usize = 0;
    while i < n
        invariant
            n == s@.len(),
            i <= n,
            v@ == s@.subrange(0, i as int),
        decreases n - i,
    {
        v.push(s.get_char(i));
        i = i + 1;
        assert(v@ =~= s@.subrange(0, i as int));
    }
    v
}

fn same_lower(a: char, b: char) -> (r: bool)
    ensures
        r == (lower_first(a) == lower_first(b)),
{
    match (char_lower_first(a), char_lower_first(b)) {
        (Some(x), Some(y)) => x == y,
        (None, None) => true,
        _ => false,
    }
}

fn glob_from(p: &Vec<char>, n: &Vec<char>, pi: usize, ni: usize) -> (r: bool)
    requires
        pi <= p.len(),
        ni <= n.len(),
    ensures
        r == glob(p@.subrange(pi as int, p@.len() as int), n@.subrange(ni as int, n@.len() as int)),
    decreases p.len() - pi, n.len() - ni,
{
    let ghost ps = p@.subrange(pi as int, p@.len() as int);
    let ghost ns = n@.subrange(ni as int, n@.len() as int);
    if pi == p.len() {
        return ni == n.len();
    }
    assert(ps.drop_first() =~= p@.subrange(pi + 1, p@.len() as int));
    assert(ni < n.len() ==> ns.drop_first() =~= n@.subrange(ni + 1, n@.len() as int));
    let c = p[pi];
    if c == '*' {
        glob_from(p, n, pi + 1, ni) || (ni < n.len() && glob_from(p, n, pi, ni + 1))
    } else if c == '?' {
        ni < n.len() && glob_from(p, n, pi + 1, ni + 1)
    } else {
        ni < n.len() && same_lower(n[ni], c) && glob_from(p, n, pi + 1, ni + 1)
    }
}

/// Whether a file name matches a pattern; `*` alone matches every name.
pub fn glob_match(name: &str, pattern: &str) -> (r: bool)
    ensures
        r == (pattern@ == "*"@ || glob(pattern@, name@)),
{
    if str_eq(pattern, "*") {
        return true;
    }
    let p = chars_of(pattern);
    let n = chars_of(name);
    assert(p@.subrange(0, p@.len() as int) =~= p@);
    assert(n@.subrange(0, n@.len() as int) =~= n@);
    glob_from(&p, &n, 0, 0)
}

/// A path with a leading `~` (alone or before `/`) replaced by the home
/// directory, when there is one.
pub open spec fn home_path(path: Seq<char>, home: Option<Seq<char>>) -> Seq<char> {
    match home {
        Some(h) => if path.len() >= 2 && path.subrange(0, 2) == "~/"@ {
            path_join(h, path.subrange(2, path.len() as int))
        } else if path == "~"@ {
            h
        } else {
            path
        },
        None => path,
    }
}

/// Expands `~` in a path to scan.
pub fn expand_home(path: &str, home: Option<&str>) -> (r: String)
    ensures
        r@ == home_path(
            path@,
            match home {
                Some(h) => Some(h@),
                None => None,
            },
        ),
{
    proof { reveal_strlit("~/"); }
    match home {
        Some(h) => match strip_prefix(path, "~/") {
            Some(rest) => join_path(h, rest),
            None => if str_eq(path, "~") {
                String::from_str(h)
            } else {
                String::from_str(path)
            },
        },
        None => String::from_str(path),
    }
}

/// What a directory scan collects.
#[derive(Debug)]
pub struct ScanOptions<'a> {
    /// A pattern that names must match.
    pub pattern: Option<&'a str>,
    /// The extension files must have.
    pub extension: Option<&'a str>,
    /// How deep below the given directories to go.
    pub max_depth: usize,
    /// Whether names starting with `.` are seen.
    pub hidden: bool,
    pub dirs_only: bool,
    pub files_only: bool,
}

impl<'a> Default for ScanOptions<'a> {
    fn default() -> (r: ScanOptions<'a>)
        ensures
            r.pattern is None,
            r.extension is None,
            r.max_depth == 3,
            !r.hidden && !r.dirs_only && !r.files_only,
    {
        ScanOptions {
            pattern: None,
            extension: None,
            max_depth: 3,
            hidden: false,
            dirs_only: false,
            files_only: false,
        }
    }
}

/// What a scan does with one directory entry.
#[derive(Debug)]
pub struct EntryChoice {
    /// The entry is collected.
    pub keep: bool,
    /// The scan goes into the entry.
    pub descend: bool,
}

/// Whether an entry whose name, extension and kind are given is collected,
/// and whether the scan goes into it.
pub open spec fn entry_choice(opts: ScanOptions, name: Seq<char>, ext: Option<Seq<char>>, is_dir: bool) -> (bool, bool) {
    if !opts.hidden && name.len() > 0 && name[0] == '.' {
        (false, false)
    } else {
        let ext_ok = match opts.extension {
            Some(e) => ext == Some(e@),
            None => true,
        };
        let pattern_ok = match opts.pattern {
            Some(p) => p@ == "*"@ || glob(p@, name),
            None => true,
        };
        let kind_ok = if opts.dirs_only {
            is_dir
        } else if opts.files_only {
            !is_dir
        } else {
            true
        };
        (ext_ok && pattern_ok && kind_ok, is_dir)
    }
}

/// What a scan does with one directory entry.
pub fn choose_entry(opts: &ScanOptions, name: &str, ext: Option<&str>, is_dir: bool) -> (r: EntryChoice)
    ensures
        (r.keep, r.descend) == entry_choice(
            *opts,
            name@,
            match ext {
                Some(e) => Some(e@),
                None => None,
            },
            is_dir,
        ),
{
    proof {
        reveal_strlit(".");
        if name@.len() > 0 && name@[0] == '.' {
            assert(name@.subrange(0, 1) =~= "."@);
        }
    }
    let dot = starts_with(name, ".");
    assert(dot ==> name@[0] == name@.subrange(0, 1)[0]);
    if !opts.hidden && dot {
        return EntryChoice { keep: false, descend: false };
    }
    let ext_ok = match opts.extension {
        Some(e) => match ext {
            Some(x) => str_eq(x, e),
            None => false,
        },
        None => true,
    };
    let pattern_ok = match opts.pattern {
        Some(p) => glob_match(name, p),
        None => true,
    };
    let kind_ok = if opts.dirs_only {
        is_dir
    } else if opts.files_only {
        !is_dir
    } else {
        true
    };
    EntryChoice { keep: ext_ok && pattern_ok && kind_ok, descend: is_dir }
}

/// Whether a scan still reads a directory at `depth` below where it started.
pub fn within_depth(opts: &ScanOptions, depth: usize) -> (r: bool)
    ensures
        r == (depth <= opts.max_depth),
{
    depth <= opts.max_depth
}

} // verus!
