use pal::cli::{Cli, Command};
use pal::config::{frontend, palette, Config, Frontend, General, Palette};
use pal::launch::{
    action_dir, action_location, expand_path, list_format, list_source, pick_route, plan_run,
    prompt_input, prompt_output, rofi_header, rofi_step, selection_of, ListFormat, ListSource,
    PickRoute, ResolveError, RofiStep, RunMode,
};

fn config() -> Config {
    let mut cfg = Config::base();
    cfg.frontend.push(("fzf".to_string(), Frontend { base: Some("builtin/frontends/fzf".to_string()), extra: vec![] }));
    cfg.frontend.push(("rofi".to_string(), Frontend { base: Some("builtin/frontends/rofi".to_string()), extra: vec![] }));
    cfg.frontend.push(("bare".to_string(), Frontend { base: None, extra: vec![] }));
    let mut q = Palette::with_base("plugins/search");
    q.input = true;
    q.input_prompt = Some("Search".to_string());
    cfg.palette.push(("search".to_string(), q));
    let mut c = Palette::with_base("builtin/palettes/apps");
    c.cache = true;
    cfg.palette.push(("cached".to_string(), c));
    cfg
}

#[test]
fn defaults() {
    assert_eq!(palette(), "combine");
    assert_eq!(frontend(), "fzf");
    let g = General::default();
    assert_eq!(g.default_palette, "combine");
    assert_eq!(g.default_frontend, "fzf");
    let cli = Cli::default();
    assert_eq!(cli.config, "pal.default.toml");
    assert!(cli.log_level.is_none() && cli.command.is_none());
    assert!(!Command::Plugins.needs_config());
    assert!(Command::ShowConfig.needs_config());
}

#[test]
fn base_config_has_builtin_palettes() {
    let cfg = Config::base();
    let ids: Vec<&str> = cfg.palette.iter().map(|(id, _)| id.as_str()).collect();
    assert_eq!(ids, vec!["apps", "bookmarks", "pals", "psg", "combine"]);
    assert_eq!(cfg.palette_named("psg").unwrap().base.as_deref(), Some("builtin/palettes/psg"));
    assert!(cfg.palette_named("nope").is_none());
    assert!(cfg.frontend_named("fzf").is_none());
}

#[test]
fn plans_runs() {
    let cfg = config();
    let p = plan_run(&cfg, None, None).unwrap();
    assert_eq!((p.palette_id.as_str(), p.frontend_id.as_str(), p.mode), ("combine", "fzf", RunMode::Plain));
    assert_eq!(plan_run(&cfg, Some("rofi"), Some("cached")).unwrap().mode, RunMode::Cached);
    assert_eq!(plan_run(&cfg, Some("fzf"), Some("cached")).unwrap().mode, RunMode::Plain);
    let live = plan_run(&cfg, Some("fzf"), Some("search")).unwrap();
    assert_eq!(live.mode, RunMode::LiveFzf);
    assert_eq!(live.message, "Search");
    assert_eq!(plan_run(&cfg, Some("rofi"), Some("search")).unwrap().mode, RunMode::LiveRofi);
}

#[test]
fn run_errors() {
    let cfg = config();
    assert!(matches!(plan_run(&cfg, None, Some("nope")), Err(ResolveError::PaletteNotFound(n)) if n == "nope"));
    assert!(matches!(plan_run(&cfg, Some("nope"), None), Err(ResolveError::FrontendNotFound(n)) if n == "nope"));
    assert!(matches!(plan_run(&cfg, Some("bare"), None), Err(ResolveError::FrontendWithoutBase)));
}

#[test]
fn selections_and_steps() {
    assert_eq!(selection_of(" \n"), None);
    assert_eq!(selection_of("{\"id\":1}\n"), Some("{\"id\":1}\n".to_string()));
    assert!(matches!(rofi_step("", None, None), RofiStep::Start));
    assert!(matches!(rofi_step("0", None, None), RofiStep::Start));
    assert!(matches!(rofi_step("2", Some("que"), None), RofiStep::Query(q) if q == "que"));
    assert!(matches!(rofi_step("2", Some(""), None), RofiStep::Idle));
    assert!(matches!(rofi_step("1", None, Some("{}")), RofiStep::Pick(i) if i == "{}"));
    assert!(matches!(rofi_step("1", None, None), RofiStep::Idle));
    assert!(matches!(rofi_step("9", None, None), RofiStep::Idle));
    assert_eq!(rofi_header("Find", false), "\0prompt\x1fFind> \x1fmarkup-rows\x1ftrue");
    assert_eq!(rofi_header("Find", true), "\0prompt\x1fFind> \x1fmarkup-rows\x1ftrue\x1fkeep-filter\x1ffalse");
    assert_eq!(list_format("fzf"), ListFormat::Fzf);
    assert_eq!(list_format("rofi"), ListFormat::Rofi);
    assert_eq!(list_format("stdin"), ListFormat::Raw);
}

#[test]
fn list_and_pick_routes() {
    let mut p = Palette::with_base("plugins/cmds");
    assert!(matches!(list_source(&p), ListSource::Plugin));
    assert!(matches!(pick_route(&p, "{}"), PickRoute::Plugin));
    p.auto_list = true;
    p.data = Some("cmds.toml".to_string());
    assert!(matches!(list_source(&p), ListSource::Data(d) if d == "cmds.toml"));
    p.auto_pick = true;
    assert!(matches!(pick_route(&p, "{}"), PickRoute::ActionUnset));
    p.default_action = Some("copy".to_string());
    p.action_key = Some("cmd".to_string());
    assert!(matches!(pick_route(&p, "{\"cmd\":\"ls\"}"), PickRoute::Action { name, value } if name == "copy" && value == "ls"));
    assert!(matches!(pick_route(&p, "{\"cmd\":1}"), PickRoute::Action { value, .. } if value.is_empty()));
    let none = Palette { base: None, ..Palette::with_base("x") };
    assert!(matches!(list_source(&none), ListSource::Empty));
    assert!(matches!(pick_route(&none, "{}"), PickRoute::Nothing));
}

#[test]
fn actions_and_paths() {
    assert_eq!(action_dir("copy", Some("/home/u/.config")), "/home/u/.config/pal/plugins/actions/copy");
    assert_eq!(action_dir("copy", None), "plugins/actions/copy");
    assert_eq!(action_location("copy", "/l/copy", true), "/l/copy");
    assert_eq!(action_location("copy", "/l/copy", false), "github:zcag/pal/plugins/actions/copy");
    assert_eq!(expand_path("~/x", None, Some("/home/u"), None, "/cwd"), "/home/u/x");
    assert_eq!(expand_path("/abs", None, Some("/home/u"), Some("/cfg"), "/cwd"), "/abs");
    assert_eq!(expand_path("rel", None, None, Some("/cfg"), "/cwd"), "/cfg/rel");
    assert_eq!(expand_path("rel", None, None, Some("conf"), "/cwd"), "/cwd/conf/rel");
    assert_eq!(expand_path("rel", None, Some("/h"), Some("~/conf"), "/cwd"), "/h/conf/rel");
    assert_eq!(expand_path("rel", None, None, None, "/cwd"), "rel");
    assert_eq!(expand_path("github:a/b/c", Some("/data/c"), None, None, "/cwd"), "/data/c");
}

#[test]
fn prompt_command_input_and_output() {
    assert_eq!(prompt_input("  ").len(), 0);
    assert_eq!(prompt_input("[{\"key\":\"a\"},{\"key\":\"b\"}]").len(), 2);
    assert_eq!(prompt_input("{\"key\":\"a\"}").len(), 1);
    assert_eq!(prompt_input("[broken").len(), 0);
    assert_eq!(prompt_output(&vec![("a".to_string(), "x".to_string())]), "x");
    let two = prompt_output(&vec![("a".to_string(), "x".to_string()), ("b".to_string(), "y".to_string())]);
    let expected: serde_json::Value = serde_json::from_str("{\"a\":\"x\",\"b\":\"y\"}").unwrap();
    assert_eq!(serde_json::from_str::<serde_json::Value>(&two).unwrap(), expected);
}

#[test]
fn prompt_frontend_choice() {
    assert_eq!(pal::launch::prompt_frontend(Some("rofi"), Some("stdin"), "fzf"), "rofi");
    assert_eq!(pal::launch::prompt_frontend(None, Some("stdin"), "fzf"), "stdin");
    assert_eq!(pal::launch::prompt_frontend(None, None, "fzf"), "fzf");
}
