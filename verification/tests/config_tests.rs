use openchad::config::{
    build_info_prompts, config_ctx_json, parse_task, select_category, validate_endpoints,
    BotConfig, ConfigEndpoint, ConfigMacro, ConfigResponse, MacroStep, TaskKind,
};
use openchad::error::ResolveError;
use openchad::text::StrMap;

fn endpoint(task: &str, id: &str) -> ConfigEndpoint {
    ConfigEndpoint {
        task: task.to_string(),
        categorization: "c".to_string(),
        designation: "d".to_string(),
        id: id.to_string(),
        icon: '*',
    }
}

fn response(prompt: &[&str]) -> ConfigResponse {
    ConfigResponse {
        args: None,
        prompt: prompt.iter().map(|s| s.to_string()).collect(),
        transform: None,
        footer: None,
    }
}

fn config() -> BotConfig {
    let mut props = StrMap::new();
    props.set_pair("name".to_string(), "Chad".to_string());
    BotConfig {
        fallback_endpoint: "Chat".to_string(),
        props,
        endpoints: vec![
            ("/chat".to_string(), endpoint("responses.greet", "Chat")),
            ("/plan".to_string(), endpoint("macros.plan", "Plan")),
        ],
        responses: vec![("greet".to_string(), response(&["Hello"]))],
        macros: vec![(
            "plan".to_string(),
            ConfigMacro {
                steps: vec![MacroStep { task: "responses.greet".to_string(), args: StrMap::new() }],
            },
        )],
        providers: Vec::new(),
        help_prompt: vec!["Help for {{fallbackEndpoint}}".to_string()],
        categorize_prompt: vec!["Pick for {{props.name}}".to_string()],
        message_history: 12,
    }
}

#[test]
fn task_ids_split_into_kind_and_name() {
    assert_eq!(parse_task("responses.greet"), (TaskKind::Responses, "greet".to_string()));
    assert_eq!(parse_task("macros.plan"), (TaskKind::Macros, "plan".to_string()));
    assert_eq!(parse_task("providers.search"), (TaskKind::Providers, "search".to_string()));
    assert_eq!(parse_task("widgets.foo"), (TaskKind::Other, "foo".to_string()));
    assert_eq!(parse_task("responses.a.b"), (TaskKind::Responses, "a".to_string()));
    assert_eq!(parse_task("nodot"), (TaskKind::Other, "".to_string()));
}

#[test]
fn valid_endpoints_pass_validation() {
    assert!(validate_endpoints(&config()).is_ok());
}

#[test]
fn provider_endpoints_are_rejected_at_startup() {
    let mut c = config();
    c.endpoints.push(("/bad".to_string(), endpoint("providers.search", "Bad")));
    match validate_endpoints(&c) {
        Err(ResolveError::ConfigValidation { detail }) => {
            assert_eq!(detail, "invalid task id `providers.search` for route `/bad`");
        }
        other => panic!("unexpected: {:?}", other),
    }
}

#[test]
fn missing_task_entries_are_rejected_at_startup() {
    let mut c = config();
    c.endpoints.push(("/bad".to_string(), endpoint("responses.ghost", "Bad")));
    assert!(validate_endpoints(&c).is_err());
}

#[test]
fn known_categories_pass_through() {
    let c = config();
    assert_eq!(select_category(&c, "Plan"), "Plan");
}

#[test]
fn unknown_categories_fall_back() {
    let c = config();
    assert_eq!(select_category(&c, "Gibberish"), "Chat");
}

#[test]
fn headless_shape_mirrors_the_config() {
    let c = config();
    let h = c.headless();
    assert_eq!(h.fallback_endpoint, "Chat");
    assert_eq!(h.endpoints.len(), 2);
    assert_eq!(h.endpoints[1].task, "macros.plan");
    assert_eq!(h.responses.len(), 1);
    assert_eq!(h.macros.len(), 1);
    assert_eq!(h.message_history, 12);
}

#[test]
fn config_context_is_exact_json() {
    let mut c = config();
    c.responses.clear();
    c.macros.clear();
    c.endpoints.truncate(1);
    c.help_prompt = vec!["h".to_string()];
    c.categorize_prompt = Vec::new();
    let json = config_ctx_json(&c);
    let mut expected = String::new();
    expected.push_str("{\"fallbackEndpoint\":\"Chat\",\"props\":{\"name\":\"Chad\"},");
    expected.push_str("\"endpoints\":[{\"task\":\"responses.greet\",\"categorization\":\"c\",");
    expected.push_str("\"designation\":\"d\",\"id\":\"Chat\",\"icon\":\"*\"}],");
    expected.push_str("\"responses\":{},\"macros\":{},\"providers\":{},");
    expected.push_str("\"helpPrompt\":[\"h\"],\"categorizePrompt\":[],\"messageHistory\":12}");
    assert_eq!(json, expected);
}

#[test]
fn info_prompts_render_against_the_config() {
    let c = config();
    let (help, categorize) = build_info_prompts(&c).unwrap();
    assert_eq!(help, "Help for Chat");
    assert_eq!(categorize, "Pick for Chad");
}
