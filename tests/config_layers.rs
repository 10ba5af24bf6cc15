use pal::json::Json;
use pal::layers::{base_layer, general_of, load_layers, merge_layers, ConfigError};

fn value(s: &str) -> serde_json::Value {
    serde_json::from_str(s).unwrap()
}

#[test]
fn project_file_overrides_packaged_default() {
    let files = vec![
        Some("[general]\ndefault_frontend = \"fzf\"\ndefault_palette = \"mycommands\"\n".to_string()),
        None,
        Some("[general]\ndefault_frontend = \"rofi\"\n".to_string()),
        None,
    ];
    let tree = load_layers(base_layer(), &files, None, None).unwrap();
    let v = value(&(tree).to_text());
    assert_eq!(v["general"]["default_frontend"], "rofi");
    assert_eq!(v["general"]["default_palette"], "mycommands");
    assert_eq!(v["palette"]["psg"]["base"], "builtin/palettes/psg");
}

#[test]
fn tables_merge_key_by_key() {
    let layers = vec![
        Json::parse("{\"palette\":{\"a\":{\"base\":\"x\",\"cache\":true}},\"n\":1}").unwrap(),
        Json::parse("{\"palette\":{\"a\":{\"base\":\"y\"},\"b\":{\"base\":\"z\"}}}").unwrap(),
    ];
    let m = merge_layers(&layers);
    assert_eq!(
        value(&(m).to_text()),
        value("{\"palette\":{\"a\":{\"base\":\"y\",\"cache\":true},\"b\":{\"base\":\"z\"}},\"n\":1}")
    );
}

#[test]
fn environment_and_log_level_come_last() {
    let files = vec![Some("[general]\ndefault_frontend = \"rofi\"\n".to_string())];
    let env = "{\"general\":{\"default_frontend\":\"stdin\"}}";
    let tree = load_layers(base_layer(), &files, Some(env), Some("debug")).unwrap();
    let v = value(&(tree).to_text());
    assert_eq!(v["general"]["default_frontend"], "stdin");
    assert_eq!(v["general"]["log_level"], "debug");
    assert_eq!(v["general"]["default_palette"], "combine");
}

#[test]
fn unreadable_file_is_reported_by_position() {
    let files = vec![None, Some("[general\n".to_string()), Some("also = [broken".to_string())];
    assert!(matches!(load_layers(base_layer(), &files, None, None), Err(ConfigError::Parse(1))));
    assert!(matches!(load_layers(base_layer(), &vec![], Some("[1]"), None), Err(ConfigError::Environment)));
}

#[test]
fn project_frontend_reaches_typed_configuration() {
    let files = vec![
        Some("[general]\ndefault_frontend = \"fzf\"\n".to_string()),
        None,
        Some("[general]\ndefault_frontend = \"rofi\"\n".to_string()),
        None,
    ];
    let g = general_of(&load_layers(base_layer(), &files, None, None).unwrap()).unwrap();
    assert_eq!(g.default_frontend, "rofi");
    assert_eq!(g.default_palette, "combine");
}

#[test]
fn general_settings_of_wrong_type_are_errors() {
    assert!(matches!(general_of(&Json::parse("{\"general\":{\"default_palette\":3}}").unwrap()), Err(ConfigError::Invalid(_))));
    assert!(matches!(general_of(&Json::parse("{\"general\":1}").unwrap()), Err(ConfigError::Invalid(_))));
    let g = general_of(&Json::parse("{}").unwrap()).unwrap();
    assert_eq!((g.default_palette.as_str(), g.default_frontend.as_str()), ("combine", "fzf"));
}

#[test]
fn later_arrays_replace_earlier_ones() {
    let layers = vec![
        Json::parse("{\"palette\":{\"c\":{\"include\":[\"a\",\"b\"]}}}").unwrap(),
        Json::parse("{\"palette\":{\"c\":{\"include\":[\"x\"]}}}").unwrap(),
    ];
    let m = merge_layers(&layers);
    assert_eq!(value(&m.to_text()), value("{\"palette\":{\"c\":{\"include\":[\"x\"]}}}"));
}
