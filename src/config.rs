//! The launcher's configuration: general defaults, palettes and frontends by id.
use vstd::prelude::*;

use crate::json::Json;
use crate::text::str_eq;

verus! {

/// The default palette id.
pub fn palette() -> (r: String)
    ensures
        r@ == "combine"@,
{
    String::from_str("combine")
}

/// The default frontend id.
pub fn frontend() -> (r: String)
    ensures
        r@ == "fzf"@,
{
    String::from_str("fzf")
}

/// The `general` section.
#[derive(Debug)]
pub struct General {
    pub default_palette: String,
    pub default_frontend: String,
}

impl Default for General {
    fn default() -> (r: General)
        ensures
            r.default_palette@ == "combine"@,
            r.default_frontend@ == "fzf"@,
    {
        General { default_palette: palette(), default_frontend: frontend() }
    }
}

/// A palette's configuration.
#[derive(Debug)]
pub struct Palette {
    /// Location of the plugin behind it.
    pub base: Option<String>,
    /// Whether its rendered list is cached.
    pub cache: bool,
    /// Whether its items come from the `data` file instead of the plugin.
    pub auto_list: bool,
    /// Whether a pick goes to `default_action` instead of the plugin.
    pub auto_pick: bool,
    pub data: Option<String>,
    /// Palettes combined into this one, in order.
    pub includes: Vec<String>,
    pub default_action: Option<String>,
    pub action_key: Option<String>,
    pub icon: Option<String>,
    pub icon_xdg: Option<String>,
    pub icon_utf: Option<String>,
    /// Whether the palette is driven by a typed query.
    pub input: bool,
    pub input_prompt: Option<String>,
    /// Other keys, handed to the plugin as they are.
    pub extra: Vec<(String, Json)>,
}

/// A frontend's configuration.
#[derive(Debug)]
pub struct Frontend {
    pub base: Option<String>,
    pub extra: Vec<(String, Json)>,
}

/// The whole configuration.
#[derive(Debug)]
pub struct Config {
    pub general: General,
    pub palette: Vec<(String, Palette)>,
    pub frontend: Vec<(String, Frontend)>,
}

pub open spec fn opt_view(o: Option<String>) -> Option<Seq<char>> {
    match o {
        Some(s) => Some(s@),
        None => None,
    }
}

/// A palette with only a base, as the built-in entries are.
pub open spec fn is_plain_palette(p: Palette, base: Seq<char>) -> bool {
    &&& opt_view(p.base) == Some(base)
    &&& !p.cache && !p.auto_list && !p.auto_pick && !p.input
    &&& p.data is None && p.default_action is None && p.action_key is None
    &&& p.icon is None && p.icon_xdg is None && p.icon_utf is None && p.input_prompt is None
    &&& p.includes@.len() == 0 && p.extra@.len() == 0
}

/// Entries with pairwise distinct ids, as configuration tables have.
pub open spec fn unique_ids<T>(entries: Seq<(String, T)>) -> bool {
    forall|i: int, j: int|
        0 <= i < entries.len() && 0 <= j < entries.len() && i != j ==> #[trigger] entries[i].0@
            != #[trigger] entries[j].0@
}

impl Config {
    /// Each palette and each frontend id appears once.
    pub open spec fn wf(&self) -> bool {
        unique_ids(self.palette@) && unique_ids(self.frontend@)
    }
}

proof fn lemma_builtin_ids_distinct()
    ensures
        forall|i: int, j: int|
            0 <= i < builtin_palettes().len() && 0 <= j < builtin_palettes().len() && i != j
                ==> #[trigger] builtin_palettes()[i].0 != #[trigger] builtin_palettes()[j].0,
{
    reveal_strlit("apps");
    reveal_strlit("bookmarks");
    reveal_strlit("pals");
    reveal_strlit("psg");
    reveal_strlit("combine");
    let t = builtin_palettes();
    assert(t[0].0[0] == 'a' && t[1].0[0] == 'b' && t[2].0[0] == 'p' && t[3].0[0] == 'p' && t[4].0[0] == 'c');
    assert(t[2].0.len() == 4 && t[3].0.len() == 3);
}

/// Index of the last entry named `id`.
pub open spec fn find_id<T>(entries: Seq<(String, T)>, id: Seq<char>) -> Option<int>
    decreases entries.len(),
{
    if entries.len() == 0 {
        None
    } else if entries.last().0@ == id {
        Some(entries.len() - 1)
    } else {
        find_id(entries.drop_last(), id)
    }
}

/// Looks an entry up by id.
pub fn lookup<'a, T>(entries: &'a Vec<(String, T)>, id: &str) -> (r: Option<&'a T>)
    ensures
        match r {
            Some(v) => find_id(entries@, id@) matches Some(i) && *v == entries@[i].1,
            None => find_id(entries@, id@) is None,
        },
{
    let mut i: usize = entries.len();
    assert(entries@.subrange(0, i as int) =~= entries@);
    while i > 0
        invariant
            i <= entries.len(),
            find_id(entries@, id@) == find_id(entries@.subrange(0, i as int), id@),
        decreases i,
    {
        let ghost prefix = entries@.subrange(0, i as int);
        assert(prefix.drop_last() =~= entries@.subrange(0, i - 1));
        assert(prefix.last() == entries@[i - 1]);
        if str_eq(entries[i - 1].0.as_str(), id) {
            return Some(&entries[i - 1].1);
        }
        i = i - 1;
    }
    None
}

impl Palette {
    /// A palette that only names its plugin.
    pub fn with_base(base: &str) -> (r: Palette)
        ensures
            is_plain_palette(r, base@),
    {
        Palette {
            base: Some(String::from_str(base)),
            cache: false,
            auto_list: false,
            auto_pick: false,
            data: None,
            includes: Vec::new(),
            default_action: None,
            action_key: None,
            icon: None,
            icon_xdg: None,
            icon_utf: None,
            input: false,
            input_prompt: None,
            extra: Vec::new(),
        }
    }
}

/// The built-in palettes: id and location.
pub open spec fn builtin_palettes() -> Seq<(Seq<char>, Seq<char>)> {
    seq![
        ("apps"@, "builtin/palettes/apps"@),
        ("bookmarks"@, "builtin/palettes/bookmarks"@),
        ("pals"@, "builtin/palettes/pals"@),
        ("psg"@, "builtin/palettes/psg"@),
        ("combine"@, "builtin/palettes/combine"@),
    ]
}

impl Config {
    /// The compiled-in configuration that every loaded one starts from.
    pub fn base() -> (r: Config)
        ensures
            r.general.default_palette@ == "combine"@,
            r.general.default_frontend@ == "fzf"@,
            r.palette@.len() == builtin_palettes().len(),
            forall|i: int|
                0 <= i < r.palette@.len() ==> #[trigger] r.palette@[i].0@ == builtin_palettes()[i].0
                    && is_plain_palette(r.palette@[i].1, builtin_palettes()[i].1),
            r.frontend@.len() == 0,
            r.wf(),
    {
        proof { lemma_builtin_ids_distinct(); }
        let mut palette: Vec<(String, Palette)> = Vec::new();
        palette.push((String::from_str("apps"), Palette::with_base("builtin/palettes/apps")));
        palette.push((String::from_str("bookmarks"), Palette::with_base("builtin/palettes/bookmarks")));
        palette.push((String::from_str("pals"), Palette::with_base("builtin/palettes/pals")));
        palette.push((String::from_str("psg"), Palette::with_base("builtin/palettes/psg")));
        palette.push((String::from_str("combine"), Palette::with_base("builtin/palettes/combine")));
        let r = Config { general: General::default(), palette, frontend: Vec::new() };
        assert(unique_ids(r.palette@)) by {
            assert forall|i: int, j: int|
                0 <= i < r.palette@.len() && 0 <= j < r.palette@.len() && i != j implies #[trigger] r.palette@[i].0@
                    != #[trigger] r.palette@[j].0@ by {
                assert(builtin_palettes()[i].0 != builtin_palettes()[j].0);
            }
        }
        r
    }

    /// The palette named `id`.
    pub fn palette_named(&self, id: &str) -> (r: Option<&Palette>)
        ensures
            match r {
                Some(p) => find_id(self.palette@, id@) matches Some(i) && *p == self.palette@[i].1,
                None => find_id(self.palette@, id@) is None,
            },
    {
        lookup(&self.palette, id)
    }

    /// The frontend named `id`.
    pub fn frontend_named(&self, id: &str) -> (r: Option<&Frontend>)
        ensures
            match r {
                Some(f) => find_id(self.frontend@, id@) matches Some(i) && *f == self.frontend@[i].1,
                None => find_id(self.frontend@, id@) is None,
            },
    {
        lookup(&self.frontend, id)
    }
}

} // verus!
