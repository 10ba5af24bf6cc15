use pal::combine::{
    combine_sources, combined_list, enter_combined, pick_target, pick_source, tag_item, tag_items, IconFallbacks,
};
use pal::config::{Config, Palette};
use pal::json::Json;

fn value(s: &str) -> serde_json::Value {
    serde_json::from_str(s).unwrap()
}

fn no_icons() -> IconFallbacks {
    IconFallbacks { icon: String::new(), icon_xdg: String::new(), icon_utf: String::new() }
}

#[test]
fn items_carry_their_source_and_pick_goes_back() {
    let a = tag_items("a", "{\"id\":\"1\"}\n{\"id\":\"2\"}", &no_icons());
    let b = tag_items("b", "{\"id\":\"3\"}\nnot json\n[1]", &no_icons());
    assert_eq!(a.len(), 2);
    assert_eq!(b.len(), 1);
    for line in &a {
        assert_eq!(pick_source(line), Some("a".to_string()));
    }
    assert_eq!(pick_source(&b[0]), Some("b".to_string()));
    let list = combined_list(&vec![a, b]);
    let sources: Vec<String> = list.lines().map(|l| pick_source(l).unwrap()).collect();
    assert_eq!(sources, vec!["a", "a", "b"]);
}

#[test]
fn icons_fill_only_missing_fields() {
    let fb = IconFallbacks { icon: "app".to_string(), icon_xdg: String::new(), icon_utf: "*".to_string() };
    let t = tag_item(Json::parse("{\"id\":\"1\",\"icon\":\"own\",\"icon_utf\":\"\"}").unwrap(), "s", &fb).unwrap();
    assert_eq!(value(&(t).to_text()), value("{\"id\":\"1\",\"icon\":\"own\",\"icon_utf\":\"*\",\"_source\":\"s\"}"));
    assert!(tag_item(Json::parse("\"x\"").unwrap(), "s", &fb).is_none());
}

#[test]
fn pick_without_source_goes_nowhere() {
    assert_eq!(pick_source("{\"id\":\"1\"}"), None);
    assert_eq!(pick_source("{\"_source\":\"\"}"), None);
    assert_eq!(pick_source("garbage"), None);
}

#[test]
fn sources_skip_unknown_palettes() {
    let mut cfg = Config::base();
    let mut p = Palette::with_base("builtin/palettes/ssh");
    p.icon_xdg = Some("net".to_string());
    cfg.palette.push(("ssh".to_string(), p));
    let ids = vec!["ssh".to_string(), "missing".to_string(), "apps".to_string()];
    let s = combine_sources(&cfg, &ids);
    assert_eq!(s.len(), 2);
    assert_eq!(s[0].0, "ssh");
    assert_eq!(s[0].1.icon_xdg, "net");
    assert_eq!(s[1].0, "apps");
}

#[test]
fn combined_palettes_cannot_include_themselves() {
    assert_eq!(enter_combined("", "all"), Some("all".to_string()));
    assert_eq!(enter_combined("all", "apps"), Some("all,apps".to_string()));
    assert_eq!(enter_combined("all,apps", "all"), None);
    assert_eq!(enter_combined("all,apps", "ap"), Some("all,apps,ap".to_string()));
}

#[test]
fn pick_goes_to_the_source_palette() {
    let mut cfg = Config::base();
    cfg.palette.push(("b".to_string(), Palette::with_base("plugins/b")));
    let line = tag_items("b", "{\"id\":\"3\"}", &no_icons()).remove(0);
    assert_eq!(pick_target(&cfg, &line).unwrap().base.as_deref(), Some("plugins/b"));
    let unknown = tag_items("zz", "{\"id\":\"3\"}", &no_icons()).remove(0);
    assert!(pick_target(&cfg, &unknown).is_none());
    assert!(pick_target(&cfg, "{\"id\":\"3\"}").is_none());
}
