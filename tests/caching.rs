use pal::cache::{cache_files, cache_plan, item_at, regen_writes, uses_cache, CachePlan};
use pal::config::{Frontend, Palette};

#[test]
fn first_run_builds_then_later_runs_serve() {
    assert_eq!(cache_plan(false, false), CachePlan::Build);
    assert_eq!(cache_plan(true, false), CachePlan::Build);
    assert_eq!(cache_plan(false, true), CachePlan::Build);
    assert_eq!(cache_plan(true, true), CachePlan::Serve);
}

#[test]
fn cache_file_names() {
    let (d, i) = cache_files("/home/u/.cache/pal", "apps", "rofi");
    assert_eq!(d, "/home/u/.cache/pal/apps.rofi.display");
    assert_eq!(i, "/home/u/.cache/pal/apps.rofi.items");
}

#[test]
fn only_cacheable_palettes_on_rofi_use_cache() {
    let mut p = Palette::with_base("builtin/palettes/apps");
    let rofi = Frontend { base: Some("builtin/frontends/rofi".to_string()), extra: vec![] };
    let fzf = Frontend { base: Some("builtin/frontends/fzf".to_string()), extra: vec![] };
    assert!(!uses_cache(&p, &rofi));
    p.cache = true;
    assert!(uses_cache(&p, &rofi));
    assert!(!uses_cache(&p, &fzf));
    assert!(regen_writes("rofi"));
    assert!(!regen_writes("fzf"));
}

#[test]
fn selected_index_picks_raw_item() {
    let raw = vec!["{\"id\":\"a\"}".to_string(), "{\"id\":\"b\"}".to_string()];
    assert_eq!(item_at(Some(1), &raw), "{\"id\":\"b\"}");
    assert_eq!(item_at(Some(2), &raw), "");
    assert_eq!(item_at(None, &raw), "");
}
