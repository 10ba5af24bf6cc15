//! The display cache: a palette's last item list and its rendering, served at
//! once while a detached process regenerates both.
use vstd::prelude::*;

use crate::config::{Frontend, Palette};
use crate::text::{join_path, path_join, str_eq};

verus! {

/// The cache file names of a palette for a frontend kind: rendering, then items.
pub open spec fn cache_names(palette: Seq<char>, frontend: Seq<char>) -> (Seq<char>, Seq<char>) {
    (palette + "."@ + frontend + ".display"@, palette + "."@ + frontend + ".items"@)
}

/// The paths of a palette's cache files in `dir`: rendering, then items.
pub fn cache_files(dir: &str, palette: &str, frontend: &str) -> (r: (String, String))
    ensures
        r.0@ == path_join(dir@, cache_names(palette@, frontend@).0),
        r.1@ == path_join(dir@, cache_names(palette@, frontend@).1),
{
    let stem = String::from_str(palette).concat(".").concat(frontend);
    let display = stem.clone().concat(".display");
    let items = stem.concat(".items");
    (join_path(dir, display.as_str()), join_path(dir, items.as_str()))
}

/// Whether a palette shown through a frontend goes through the cache: the
/// palette is cacheable and the frontend takes pre-rendered lists.
pub fn uses_cache(p: &Palette, f: &Frontend) -> (r: bool)
    ensures
        r == (p.cache && (f.base matches Some(b) && b@ == "builtin/frontends/rofi"@)),
{
    p.cache && match &f.base {
        Some(b) => str_eq(b.as_str(), "builtin/frontends/rofi"),
        None => false,
    }
}

/// How a cached palette is served.
#[derive(PartialEq, Eq, Structural, Clone, Copy, Debug)]
pub enum CachePlan {
    /// Show the cached rendering now and regenerate both files in the background.
    Serve,
    /// List now, store both files, then show.
    Build,
}

pub open spec fn plan_for(display_exists: bool, items_exists: bool) -> CachePlan {
    if display_exists && items_exists {
        CachePlan::Serve
    } else {
        CachePlan::Build
    }
}

/// Serves from the cache only when both of its files exist.
pub fn cache_plan(display_exists: bool, items_exists: bool) -> (r: CachePlan)
    ensures
        r == plan_for(display_exists, items_exists),
{
    if display_exists && items_exists {
        CachePlan::Serve
    } else {
        CachePlan::Build
    }
}

/// Whether regeneration for a frontend kind writes the cache files.
pub fn regen_writes(frontend: &str) -> (r: bool)
    ensures
        r == (frontend@ == "rofi"@),
{
    str_eq(frontend, "rofi")
}

/// The raw item the frontend's selected index points at; empty when there is none.
pub fn item_at(index: Option<usize>, raw_items: &Vec<String>) -> (r: String)
    ensures
        r@ == match index {
            Some(i) => if i < raw_items@.len() {
                raw_items@[i as int]@
            } else {
                Seq::<char>::empty()
            },
            None => Seq::<char>::empty(),
        },
{
    match index {
        Some(i) => if i < raw_items.len() {
            raw_items[i].clone()
        } else {
            String::new()
        },
        None => String::new(),
    }
}

/// What is stored for a palette: its rendering and its items.
pub struct CacheEntry {
    pub display: Seq<char>,
    pub items: Seq<char>,
}

/// What one run of a cached palette does.
pub struct CacheRun {
    /// Whether the palette was listed before anything was shown.
    pub listed_first: bool,
    /// The rendering shown.
    pub shown: Seq<char>,
    /// Whether a background regeneration was started.
    pub regenerates: bool,
}

/// One run, given the cache before it, what listing the palette would give,
/// and how a listing is rendered: what it does and the cache after it.
pub open spec fn serve_run(
    cache: Option<CacheEntry>,
    listing: Seq<char>,
    render: spec_fn(Seq<char>) -> Seq<char>,
) -> (CacheRun, Option<CacheEntry>) {
    match plan_for(cache is Some, cache is Some) {
        CachePlan::Serve => (
            CacheRun { listed_first: false, shown: cache->Some_0.display, regenerates: true },
            cache,
        ),
        CachePlan::Build => (
            CacheRun { listed_first: true, shown: render(listing), regenerates: false },
            Some(CacheEntry { display: render(listing), items: listing }),
        ),
    }
}

/// The cache once a background regeneration from `listing` has finished.
pub open spec fn regenerated(listing: Seq<char>, render: spec_fn(Seq<char>) -> Seq<char>) -> Option<CacheEntry> {
    Some(CacheEntry { display: render(listing), items: listing })
}

/// After a first run fills the cache, a second run shows the cached rendering
/// without listing first and starts a regeneration; once that has finished,
/// a third run shows the regenerated data.
pub proof fn lemma_cache_staleness(
    first: Seq<char>,
    second: Seq<char>,
    third: Seq<char>,
    render: spec_fn(Seq<char>) -> Seq<char>,
)
    ensures
        ({
            let (r1, c1) = serve_run(None, first, render);
            let (r2, c2) = serve_run(c1, second, render);
            let (r3, c3) = serve_run(regenerated(second, render), third, render);
            &&& r1.listed_first && r1.shown == render(first)
            &&& !r2.listed_first && r2.regenerates && r2.shown == render(first)
            &&& !r3.listed_first && r3.shown == render(second)
        }),
{
}

} // verus!
