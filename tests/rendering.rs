use pal::render::glyph_icon;

fn value(s: &str) -> serde_json::Value {
    serde_json::from_str(s).unwrap()
}

#[test]
fn fzf_lines_carry_raw_item_display_and_keywords() {
    let items = "{\"name\":\"Files\",\"icon\":\"folder\",\"keywords\":[\"fm\",3,\"dir\"]}\nbad\n{\"name\":\"Mail\",\"icon_utf\":\"✉\",\"desc\":\"inbox\"}";
    let out = pal::fzf::format_items(items);
    let rows: Vec<&str> = out.split('\n').collect();
    assert_eq!(rows.len(), 2);
    assert_eq!(rows[0], "{\"name\":\"Files\",\"icon\":\"folder\",\"keywords\":[\"fm\",3,\"dir\"]}\tFiles\tfm dir");
    assert_eq!(rows[1], "{\"name\":\"Mail\",\"icon_utf\":\"✉\",\"desc\":\"inbox\"}\t✉ Mail \x1b[2minbox\x1b[0m\t");
}

#[test]
fn glyphs_and_icon_names() {
    assert!(glyph_icon("✉"));
    assert!(glyph_icon("a b"));
    assert!(!glyph_icon("network-server"));
    assert!(!glyph_icon(""));
}

#[test]
fn rofi_rows_and_raw_items_line_up() {
    let items = "{\"name\":\"A&B\",\"desc\":\"<x>\",\"icon\":\"app\",\"keywords\":[\"k\"]}\nnope\n{\"name\":\"G\",\"icon_xdg\":\"★\"}";
    let (display, raw) = pal::rofi::format_items(items);
    assert_eq!(
        display,
        "A&B <span size=\"small\" alpha=\"50%\">&lt;x&gt;</span>\0icon\x1fapp\x1fmeta\x1fk\n★ G"
    );
    assert_eq!(raw, vec![
        "{\"name\":\"A&B\",\"desc\":\"<x>\",\"icon\":\"app\",\"keywords\":[\"k\"]}".to_string(),
        "{\"name\":\"G\",\"icon_xdg\":\"★\"}".to_string(),
    ]);
}

#[test]
fn rofi_script_rows_carry_info() {
    let line = "{\"name\":\"A\",\"icon\":\"app\"}";
    assert_eq!(pal::rofi::format_script_items(line), format!("A\0info\x1f{line}\x1ficon\x1fapp"));
    let plain = "{\"name\":\"B\"}";
    assert_eq!(pal::rofi::format_script_items(plain), format!("B\0info\x1f{plain}"));
}

#[test]
fn rofi_blocks_lines() {
    let lines = pal::rofi::format_blocks_lines("{\"name\":\"A\",\"icon\":\"app\"}\n{\"name\":\"B\",\"icon\":\"☺\"}");
    assert_eq!(lines.len(), 2);
    assert_eq!(
        value(&(lines[0]).to_text()),
        value("{\"text\":\"A\",\"markup\":true,\"data\":\"{\\\"name\\\":\\\"A\\\",\\\"icon\\\":\\\"app\\\"}\",\"icon\":\"app\"}")
    );
    assert_eq!(value(&(lines[1]).to_text())["text"], "☺ B");
    assert!(value(&(lines[1]).to_text()).get("icon").is_none());
}

#[test]
fn home_expansion() {
    assert_eq!(pal::glob::expand_home("~/apps", Some("/home/u")), "/home/u/apps");
    assert_eq!(pal::glob::expand_home("~", Some("/home/u")), "/home/u");
    assert_eq!(pal::glob::expand_home("~x", Some("/home/u")), "~x");
    assert_eq!(pal::glob::expand_home("~/apps", None), "~/apps");
}
