use pal::config::{Frontend, Palette};
use pal::json::Json;
use pal::plugin::{
    builtin_for, builtin_has_op, builtin_manifest, manifest_source, merge_configs, Builtin,
    Invocation, ManifestSource, Plugin, PluginError,
};

fn value(s: &str) -> serde_json::Value {
    serde_json::from_str(s).unwrap()
}

#[test]
fn caller_value_overrides_manifest() {
    let manifest = Json::parse("{\"icon\":\"a\",\"command\":[\"run\"]}").unwrap();
    let caller = Json::parse("{\"icon\":\"b\"}").unwrap();
    let merged = merge_configs(manifest, caller);
    assert_eq!(value(&(merged).to_text()), value("{\"icon\":\"b\",\"command\":[\"run\"]}"));
}

#[test]
fn absent_or_null_caller_value_keeps_manifest() {
    let manifest = Json::parse("{\"icon\":\"a\"}").unwrap();
    let p = Palette::with_base("plugins/x");
    let merged = merge_configs(manifest, p.to_json());
    let v = value(&(merged).to_text());
    assert_eq!(v["icon"], "a");
    assert_eq!(v["base"], "plugins/x");
    assert_eq!(v["cache"], false);
    let manifest = Json::parse("{\"icon\":\"a\"}").unwrap();
    let merged = merge_configs(manifest, Json::parse("{\"icon\":null}").unwrap());
    assert_eq!(value(&(merged).to_text()), value("{\"icon\":\"a\"}"));
}

#[test]
fn palette_and_frontend_configuration_members() {
    let mut p = Palette::with_base("builtin/palettes/apps");
    p.icon = Some("i".to_string());
    p.extra.push(("browser".to_string(), Json::string("firefox")));
    let v = value(&(p.to_json()).to_text());
    assert_eq!(
        v,
        value("{\"base\":\"builtin/palettes/apps\",\"cache\":false,\"auto_list\":false,\"auto_pick\":false,\"icon\":\"i\",\"input\":false,\"browser\":\"firefox\"}")
    );
    let f = Frontend { base: None, extra: vec![("theme".to_string(), Json::string("dark"))] };
    assert_eq!(value(&(f.to_json()).to_text()), value("{\"theme\":\"dark\"}"));
}

#[test]
fn external_plugin_runs_manifest_command() {
    let manifest = Json::from_toml("command = [\"bin/run.sh\", \"--x\"]\nicon = \"a\"").unwrap();
    let caller = Json::parse("{\"icon\":\"b\"}").unwrap();
    let p = Plugin::new("/plugins/mine", manifest, caller).unwrap();
    assert_eq!(p.executable.as_deref(), Some("/plugins/mine/bin/run.sh"));
    match p.invocation("list", None) {
        Invocation::External { program, args, stdin } => {
            assert_eq!(program, "/plugins/mine/bin/run.sh");
            assert_eq!(args, vec!["list"]);
            assert_eq!(value(&stdin)["icon"], "b");
        }
        _ => panic!("expected an external invocation"),
    }
    match p.invocation("pick", Some("{\"id\":1}")) {
        Invocation::External { stdin, .. } => assert_eq!(stdin, "{\"id\":1}"),
        _ => panic!("expected an external invocation"),
    }
}

#[test]
fn missing_command_is_an_error() {
    let manifest = Json::parse("{\"icon\":\"a\"}").unwrap();
    let r = Plugin::new("/plugins/broken", manifest, Json::empty_object());
    assert!(matches!(r, Err(PluginError::MissingCommand)));
    let r = Plugin::new("/p", Json::parse("{\"command\":[]}").unwrap(), Json::empty_object());
    assert!(matches!(r, Err(PluginError::MissingCommand)));
}

#[test]
fn builtin_plugin_is_dispatched_in_process() {
    let p = Plugin::new("builtin/palettes/pals", Json::empty_object(), Json::empty_object()).unwrap();
    assert!(p.executable.is_none());
    match p.invocation("list", None) {
        Invocation::Builtin { path, op, input } => {
            assert_eq!(path, "palettes/pals");
            assert_eq!(op, "list");
            assert!(input.is_none());
        }
        _ => panic!("expected a built-in invocation"),
    }
    assert_eq!(builtin_for("builtin/frontends/fzf"), Some(Builtin::Fzf));
    assert_eq!(builtin_for("palettes/ssh"), Some(Builtin::Ssh));
    assert_eq!(builtin_for("builtin/palettes/nope"), None);
    assert!(builtin_has_op(Builtin::Rofi, "input_run"));
    assert!(!builtin_has_op(Builtin::Stdin, "prompt"));
    assert!(builtin_has_op(Builtin::Combine, "pick"));
}

#[test]
fn manifests_come_from_table_or_file() {
    match manifest_source("builtin/palettes/pals") {
        ManifestSource::Builtin(rest) => assert_eq!(rest, "palettes/pals"),
        _ => panic!("expected the built-in table"),
    }
    match manifest_source("/p/mine") {
        ManifestSource::File(path) => assert_eq!(path, "/p/mine/plugin.toml"),
        _ => panic!("expected a file"),
    }
    let table = Json::from_toml("[palettes.pals]\nicon = \"p\"\n").unwrap();
    let m = builtin_manifest(table, "palettes/pals");
    assert_eq!((m).to_text(), "{\"icon\":\"p\"}");
    let table = Json::from_toml("[palettes.pals]\nicon = \"p\"\n").unwrap();
    assert_eq!((builtin_manifest(table, "frontends/fzf")).to_text(), "{}");
}
