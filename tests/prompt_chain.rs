use pal::prompts::{
    apply_answers, choice_items, escape_answer, item_prompts, prompt_answer, ChainStep,
    ItemPrompts, PromptChain, PromptKind, PromptSpec,
};
use pal::json::Json;

fn value(s: &str) -> serde_json::Value {
    serde_json::from_str(s).unwrap()
}

const TWO_PROMPTS: &str = "{\"name\":\"deploy\",\"cmd\":\"deploy {{env}} {{tag}}\",\"prompts\":[{\"key\":\"env\",\"message\":\"Env\"},{\"key\":\"tag\",\"type\":\"choice\",\"options\":[\"a\",\"b\",3]}]}";

fn chain() -> PromptChain {
    match item_prompts(TWO_PROMPTS) {
        ItemPrompts::Ask(specs) => PromptChain::start(specs),
        _ => panic!("expected prompts"),
    }
}

#[test]
fn reads_prompt_specs() {
    let c = chain();
    assert_eq!(c.prompts.len(), 2);
    assert_eq!(c.prompts[0].key, "env");
    assert_eq!(c.prompts[0].message, "Env");
    assert!(matches!(c.prompts[0].kind, PromptKind::Text));
    assert_eq!(c.prompts[1].message, "tag");
    match &c.prompts[1].kind {
        PromptKind::Choice(o) => assert_eq!(o, &vec!["a".to_string(), "b".to_string()]),
        _ => panic!("expected a choice"),
    }
}

#[test]
fn cancelling_second_prompt_cancels_chain() {
    let c = chain();
    let c = match c.reply("prod") {
        ChainStep::Continue(c) => c,
        _ => panic!("expected the next prompt"),
    };
    assert!(c.current().is_some());
    assert!(matches!(c.reply("   "), ChainStep::Cancelled));
    // the item is left as it was: it still asks its prompts
    assert!(matches!(item_prompts(TWO_PROMPTS), ItemPrompts::Ask(_)));
}

#[test]
fn finished_chain_fills_item() {
    let c = chain();
    let c = match c.reply("pr\"od") {
        ChainStep::Continue(c) => c,
        _ => panic!("expected the next prompt"),
    };
    let answers = match c.reply("{\"id\":\"b\",\"name\":\"b\"}") {
        ChainStep::Done(a) => a,
        _ => panic!("expected the chain to finish"),
    };
    assert_eq!(answers, vec![("env".to_string(), "pr\"od".to_string()), ("tag".to_string(), "b".to_string())]);
    let out = apply_answers(TWO_PROMPTS, &answers).unwrap();
    assert_eq!(
        value(&out),
        value("{\"name\":\"deploy\",\"cmd\":\"deploy pr\\\"od b\",\"env\":\"pr\\\"od\",\"tag\":\"b\"}")
    );
}

#[test]
fn answers_do_not_replace_members() {
    let answers = vec![("name".to_string(), "x".to_string())];
    let out = apply_answers("{\"name\":\"n\",\"prompts\":[]}", &answers).unwrap();
    assert_eq!(value(&out), value("{\"name\":\"n\"}"));
    assert!(apply_answers("nope", &answers).is_none());
}

#[test]
fn items_without_prompts() {
    assert!(matches!(item_prompts("{\"name\":\"a\"}"), ItemPrompts::Nothing));
    assert!(matches!(item_prompts("{\"prompts\":[]}"), ItemPrompts::Nothing));
    assert!(matches!(item_prompts("{\"prompts\":3}"), ItemPrompts::Unreadable));
    assert!(matches!(item_prompts("{\"prompts\":[{\"type\":\"choice\"}]}"), ItemPrompts::Unreadable));
    assert!(matches!(item_prompts("not json"), ItemPrompts::Unreadable));
}

#[test]
fn replies_become_answers() {
    let text = PromptSpec::from_json(&Json::parse("{\"key\":\"q\"}").unwrap()).unwrap();
    assert_eq!(prompt_answer(&text, " x "), Some(" x ".to_string()));
    assert_eq!(prompt_answer(&text, ""), None);
    let choice = PromptSpec::from_json(&Json::parse("{\"key\":\"c\",\"type\":\"choice\",\"options\":[]}").unwrap()).unwrap();
    assert_eq!(prompt_answer(&choice, "{\"id\":\"7\"}"), Some("7".to_string()));
    assert_eq!(prompt_answer(&choice, " plain \n"), Some("plain".to_string()));
    assert_eq!(prompt_answer(&choice, "\n"), None);
}

#[test]
fn choice_list_and_escaping() {
    let out = choice_items(&vec!["a".to_string(), "b".to_string()]);
    let got: Vec<serde_json::Value> = out.lines().map(value).collect();
    assert_eq!(got, vec![value("{\"id\":\"a\",\"name\":\"a\"}"), value("{\"id\":\"b\",\"name\":\"b\"}")]);
    assert_eq!(escape_answer("a\\b\"c"), "a\\\\b\\\"c");
}
