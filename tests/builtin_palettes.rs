use pal::builtins::{command_line, numbered_choice, pal_items, parse_desktop_entry};
use pal::config::{Config, Palette};

#[test]
fn desktop_entry_of_an_application() {
    let content = "[Desktop Entry]\nName=Firefox\nName=Other\nExec=firefox %u\nIcon=firefox\nType=Application\n[Desktop Action new]\nExec=firefox --new-window\n";
    let e = parse_desktop_entry(content).unwrap();
    assert_eq!(e.name, "Firefox");
    assert_eq!(e.command, "firefox %u");
    assert_eq!(e.icon, "firefox");
}

#[test]
fn desktop_entries_that_are_not_shown() {
    assert!(parse_desktop_entry("[Desktop Entry]\nName=A\nExec=a\nType=Link\n").is_none());
    assert!(parse_desktop_entry("[Desktop Entry]\nName=A\nExec=a\nType=Application\nNoDisplay=true\n").is_none());
    assert!(parse_desktop_entry("[Desktop Entry]\nName=A\nExec=a\nType=Application\nHidden=true\n").is_none());
    assert!(parse_desktop_entry("[Desktop Entry]\nName=A\nType=Application\n").is_none());
    assert!(parse_desktop_entry("Name=A\nExec=a\nType=Application\n").is_none());
    let e = parse_desktop_entry("[Desktop Entry]\nType=Application\nName=A\nExec=a\n").unwrap();
    assert_eq!(e.icon, "");
}

#[test]
fn field_codes_are_dropped_from_commands() {
    assert_eq!(command_line("code --new %F  --wait %u"), "code --new --wait");
    assert_eq!(command_line("%U"), "");
}

#[test]
fn numbered_choice_counts_from_one() {
    let shown = vec!["a".to_string(), "b".to_string()];
    assert_eq!(numbered_choice(&shown, 1), "a");
    assert_eq!(numbered_choice(&shown, 2), "b");
    assert_eq!(numbered_choice(&shown, 0), "");
    assert_eq!(numbered_choice(&shown, 3), "");
}

#[test]
fn palette_of_palettes() {
    let mut cfg = Config::base();
    let mut p = Palette::with_base("x");
    p.icon = Some("star".to_string());
    cfg.palette.push(("mine".to_string(), p));
    let all = pal_items(&cfg, None);
    let rows: Vec<serde_json::Value> = all.lines().map(|l| serde_json::from_str(l).unwrap()).collect();
    assert_eq!(rows.len(), 6);
    assert_eq!(rows[0]["id"], "apps");
    assert_eq!(rows[0]["icon"], "view-list");
    assert_eq!(rows[5]["icon"], "star");
    let scoped = pal_items(&cfg, Some("mine,psg"));
    let ids: Vec<String> = scoped
        .lines()
        .map(|l| serde_json::from_str::<serde_json::Value>(l).unwrap()["id"].as_str().unwrap().to_string())
        .collect();
    assert_eq!(ids, vec!["psg", "mine"]);
}

#[test]
fn firefox_profile_prefers_release() {
    let names = |v: &[&str]| v.iter().map(|s| s.to_string()).collect::<Vec<_>>();
    assert_eq!(pal::builtins::firefox_profile(&names(&["x.default", "y.default-release", "z.default-release"])), Some(1));
    assert_eq!(pal::builtins::firefox_profile(&names(&["a.default", "Crash Reports", "b-default-old"])), Some(2));
    assert_eq!(pal::builtins::firefox_profile(&names(&["profiles.ini", "Crash Reports"])), None);
}
