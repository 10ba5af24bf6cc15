use pal::items::{item_env_vars, normalize_item, normalize_items, parse_data, parse_json_data, parse_toml_data};
use pal::json::Json;

fn value(s: &str) -> serde_json::Value {
    serde_json::from_str(s).unwrap()
}

#[test]
fn item_without_id_takes_its_name() {
    let out = normalize_items("{\"name\": \"Foo\"}");
    assert_eq!(value(&out), value("{\"name\": \"Foo\", \"id\": \"Foo\"}"));
}

#[test]
fn item_with_id_keeps_it() {
    let out = normalize_items("{\"id\": \"x\", \"name\": \"Foo\"}");
    assert_eq!(value(&out), value("{\"id\": \"x\", \"name\": \"Foo\"}"));
}

#[test]
fn item_without_string_name_gets_no_id() {
    let out = normalize_items("{\"name\": 3}");
    assert_eq!(value(&out), value("{\"name\": 3}"));
    let j = normalize_item(Json::parse("[1]").unwrap());
    assert_eq!((j).to_text(), "[1]");
}

#[test]
fn stream_lines_end_at_newlines() {
    let out = normalize_items("{\"name\":\"a\"}\r\n{\"name\":\"b\"}\n");
    let rows: Vec<&str> = out.split('\n').collect();
    assert_eq!(rows.len(), 2);
    assert_eq!(value(rows[0]), value("{\"id\":\"a\",\"name\":\"a\"}"));
    assert_eq!(value(rows[1]), value("{\"id\":\"b\",\"name\":\"b\"}"));
}

#[test]
fn stream_drops_lines_that_are_not_json() {
    let out = normalize_items("{\"name\":\"a\"}\n\nnot json\n{\"name\":\"b\"}\n");
    let got: Vec<serde_json::Value> = out.lines().map(value).collect();
    assert_eq!(got, vec![value("{\"id\":\"a\",\"name\":\"a\"}"), value("{\"id\":\"b\",\"name\":\"b\"}")]);
    assert_eq!(normalize_items(""), "");
}

#[test]
fn json_array_data_becomes_lines() {
    let out = parse_json_data("  [{\"name\":\"a\"}, {\"name\":\"b\"}]\n");
    assert_eq!(out, "{\"name\":\"a\"}\n{\"name\":\"b\"}");
    assert_eq!(parse_json_data("{\"name\":\"a\"}\n"), "{\"name\":\"a\"}\n");
    assert_eq!(parse_json_data("[broken"), "[broken");
}

#[test]
fn toml_data_takes_first_array() {
    let doc = "title = \"x\"\n[[cmd]]\nname = \"a\"\n[[cmd]]\nname = \"b\"\n";
    assert_eq!(parse_toml_data(doc), "{\"name\":\"a\"}\n{\"name\":\"b\"}");
    assert_eq!(parse_toml_data("a = 1"), "");
    assert_eq!(parse_toml_data("= broken"), "");
    assert_eq!(parse_data(doc, "cmds.toml"), parse_toml_data(doc));
    assert_eq!(parse_data("[{\"a\":1}]", "cmds.json"), "{\"a\":1}");
}

#[test]
fn toml_reads_tables() {
    let t = Json::from_toml("[palettes.pals]\ncommand = [\"run.sh\"]\n").unwrap();
    assert_eq!((t).to_text(), "{\"palettes\":{\"pals\":{\"command\":[\"run.sh\"]}}}");
    assert!(Json::from_toml("x = ").is_none());
}

#[test]
fn env_vars_of_picked_item() {
    let vars = item_env_vars("{\"name\":\"Foo\",\"pid\":42,\"icon_xdg\":\"x\"}");
    let mut got: Vec<(String, String)> = vars;
    got.sort();
    assert_eq!(
        got,
        vec![
            ("PAL_ICON_XDG".to_string(), "x".to_string()),
            ("PAL_NAME".to_string(), "Foo".to_string()),
            ("PAL_PID".to_string(), "42".to_string()),
        ]
    );
    assert!(item_env_vars("not json").is_empty());
    assert!(item_env_vars("[1,2]").is_empty());
}
