use openchad::config::{BotConfig, ConfigMacro, ConfigProvider, ConfigResponse, MacroStep};
use openchad::error::ResolveError;
use openchad::provider::{PropRule, Provider, Redirect};
use openchad::resolver::{Resolver, StepAction, Tick};
use openchad::stream::StreamAssembler;
use openchad::text::StrMap;

fn str_map(pairs: &[(&str, &str)]) -> StrMap {
    let mut m = StrMap::new();
    for (k, v) in pairs {
        m.set_pair(k.to_string(), v.to_string());
    }
    m
}

fn response(prompt: &[&str], transform: Option<&[(&str, &str)]>, footer: Option<&str>) -> ConfigResponse {
    ConfigResponse {
        args: None,
        prompt: prompt.iter().map(|s| s.to_string()).collect(),
        transform: transform.map(str_map),
        footer: footer.map(|s| s.to_string()),
    }
}

fn macro_of(steps: &[(&str, &[(&str, &str)])]) -> ConfigMacro {
    ConfigMacro {
        steps: steps
            .iter()
            .map(|(task, args)| MacroStep { task: task.to_string(), args: str_map(args) })
            .collect(),
    }
}

fn base_config() -> BotConfig {
    BotConfig {
        fallback_endpoint: "Chat".to_string(),
        props: StrMap::new(),
        endpoints: Vec::new(),
        responses: Vec::new(),
        macros: Vec::new(),
        providers: Vec::new(),
        help_prompt: Vec::new(),
        categorize_prompt: Vec::new(),
        message_history: 4,
    }
}

#[test]
fn stream_resolution_of_a_response_task() {
    let mut config = base_config();
    config.responses.push(("greet".to_string(), response(&["Hello {{input}}"], None, None)));

    let mut r = Resolver::start(&config, "dt".to_string(), "responses.greet".to_string(), "world".to_string());
    match r.tick().unwrap() {
        Tick::Action(StepAction::StreamModel { prompt, input, footer }) => {
            assert_eq!(prompt, "Hello world");
            assert_eq!(input, "world");
            assert_eq!(footer, "");
        }
        other => panic!("unexpected tick: {:?}", other),
    }
    assert!(r.is_done());

    // The emitted stream is the model's chunks in order, then exactly one
    // footer item — here the empty one.
    let mut a = StreamAssembler::new(String::new());
    let first = a.on_chunk("Hi".to_string());
    assert_eq!(first, "Hi");
    let last = a.finish();
    assert_eq!(last, "");
}

#[test]
fn macro_steps_pass_transform_values_on() {
    let mut config = base_config();
    config.responses.push(("a".to_string(), response(&["A"], Some(&[("x", "42")]), None)));
    config.responses.push(("b".to_string(), response(&["B {{input}}"], None, None)));
    config.macros.push((
        "m".to_string(),
        macro_of(&[("responses.a", &[]), ("responses.b", &[("input", "{{transform.x}}")])]),
    ));

    let mut r = Resolver::start(&config, "dt".to_string(), "macros.m".to_string(), "start".to_string());
    assert!(matches!(r.tick().unwrap(), Tick::Working)); // frame pushed
    assert!(matches!(r.tick().unwrap(), Tick::Working)); // step a prepared
    match r.tick().unwrap() {
        Tick::Action(StepAction::CallModel { prompt, input }) => {
            assert_eq!(prompt, "A");
            assert_eq!(input, "start");
        }
        other => panic!("unexpected tick: {:?}", other),
    }
    r.model_output("out-a".to_string()).unwrap();
    assert!(matches!(r.tick().unwrap(), Tick::Working)); // step b prepared
    match r.tick().unwrap() {
        Tick::Action(StepAction::StreamModel { prompt, input, .. }) => {
            // Step b receives the literal value step a's transform set.
            assert_eq!(input, "42");
            assert_eq!(prompt, "B 42");
        }
        other => panic!("unexpected tick: {:?}", other),
    }
}

#[test]
fn macro_runs_buffered_steps_then_one_stream() {
    let mut config = base_config();
    config.responses.push(("a".to_string(), response(&["PA"], None, None)));
    config.responses.push(("b".to_string(), response(&["PB"], None, None)));
    config.responses.push(("c".to_string(), response(&["PC"], None, None)));
    config.macros.push((
        "chain".to_string(),
        macro_of(&[("responses.a", &[]), ("responses.b", &[]), ("responses.c", &[])]),
    ));

    let mut r = Resolver::start(&config, "dt".to_string(), "macros.chain".to_string(), "in".to_string());
    let mut buffered: Vec<String> = Vec::new();
    let streamed: String;
    loop {
        match r.tick().unwrap() {
            Tick::Working => continue,
            Tick::Action(StepAction::CallModel { prompt, .. }) => {
                buffered.push(prompt);
                r.model_output("out".to_string()).unwrap();
            }
            Tick::Action(StepAction::StreamModel { prompt, .. }) => {
                streamed = prompt;
                break;
            }
            other => panic!("unexpected action: {:?}", other),
        }
    }
    // Exactly N-1 buffered resolutions, in declared order, then the one
    // streaming resolution.
    assert_eq!(buffered, vec!["PA".to_string(), "PB".to_string()]);
    assert_eq!(streamed, "PC");
    assert!(r.is_done());
}

#[test]
fn unknown_kind_fails_the_stream_resolver() {
    let config = base_config();
    let mut r = Resolver::start(&config, "dt".to_string(), "widgets.foo".to_string(), "x".to_string());
    let err = r.tick().unwrap_err();
    assert_eq!(err, ResolveError::UnresolvedStreamableTask { task: "widgets.foo".to_string() });
    assert_eq!(err.message(), "`widgets.foo` can't be resolved to a stream");
}

#[test]
fn provider_as_terminal_task_fails() {
    let mut config = base_config();
    config.providers.push((
        "p".to_string(),
        ConfigProvider {
            args: None,
            provider: "svc".to_string(),
            props: StrMap::new(),
            transform: None,
        },
    ));
    let mut r = Resolver::start(&config, "dt".to_string(), "providers.p".to_string(), "x".to_string());
    let err = r.tick().unwrap_err();
    assert_eq!(err, ResolveError::UnresolvedStreamableTask { task: "providers.p".to_string() });
}

#[test]
fn empty_macro_fails_fast() {
    let mut config = base_config();
    config.macros.push(("void".to_string(), macro_of(&[])));
    let mut r = Resolver::start(&config, "dt".to_string(), "macros.void".to_string(), "x".to_string());
    match r.tick() {
        Err(ResolveError::ConfigValidation { detail }) => {
            assert_eq!(detail, "macro `macros.void` has no steps");
        }
        other => panic!("unexpected: {:?}", other),
    }
}

#[test]
fn missing_response_entry_is_unresolved() {
    let config = base_config();
    let mut r = Resolver::start(&config, "dt".to_string(), "responses.nope".to_string(), "x".to_string());
    let err = r.tick().unwrap_err();
    assert_eq!(err, ResolveError::UnresolvedTask { task: "responses.nope".to_string() });
}

fn provider_config(props: &[(&str, &str)], transform: Option<&[(&str, &str)]>) -> ConfigProvider {
    ConfigProvider {
        args: None,
        provider: "svc".to_string(),
        props: str_map(props),
        transform: transform.map(str_map),
    }
}

fn provider_def(rules: Vec<PropRule>, query_defaults: Option<&[(&str, &str)]>) -> Provider {
    Provider {
        url: "http://svc/{{input}}".to_string(),
        env: None,
        prop_rules: rules,
        headers: None,
        body: None,
        query: query_defaults.map(str_map),
    }
}

fn start_provider_macro(config: &BotConfig) -> (Resolver<'_>, String) {
    let mut r = Resolver::start(config, "dt".to_string(), "macros.m".to_string(), "term".to_string());
    assert!(matches!(r.tick().unwrap(), Tick::Working));
    assert!(matches!(r.tick().unwrap(), Tick::Working));
    match r.tick().unwrap() {
        Tick::Action(StepAction::NeedProvider { name }) => (r, name),
        other => panic!("unexpected: {:?}", other),
    }
}

fn provider_macro_config(props: &[(&str, &str)], transform: Option<&[(&str, &str)]>) -> BotConfig {
    let mut config = base_config();
    config.providers.push(("p".to_string(), provider_config(props, transform)));
    config.responses.push(("done".to_string(), response(&["D {{transform.r}}"], None, None)));
    config.macros.push((
        "m".to_string(),
        macro_of(&[("providers.p", &[]), ("responses.done", &[])]),
    ));
    config
}

#[test]
fn missing_required_prop_fails_before_any_call() {
    let config = provider_macro_config(&[("q", "{{input}}")], None);
    let (mut r, name) = start_provider_macro(&config);
    assert_eq!(name, "svc");
    let def = provider_def(
        vec![PropRule {
            required: true,
            redirect: Redirect::Query,
            props: vec!["q".to_string(), "loc".to_string()],
        }],
        None,
    );
    // `loc` is marked required but the binding supplies no value for it:
    // the preparation fails and no request is ever assembled.
    match r.provider_def(def, Vec::new()) {
        Err(ResolveError::RequiredPropMissing { prop }) => assert_eq!(prop, "loc"),
        other => panic!("unexpected: {:?}", other),
    }
}

#[test]
fn unruled_prop_fails() {
    let config = provider_macro_config(&[("mystery", "1")], None);
    let (mut r, _) = start_provider_macro(&config);
    let def = provider_def(
        vec![PropRule { required: false, redirect: Redirect::Query, props: vec!["q".to_string()] }],
        None,
    );
    match r.provider_def(def, Vec::new()) {
        Err(ResolveError::PropRuleMissing { prop }) => assert_eq!(prop, "mystery"),
        other => panic!("unexpected: {:?}", other),
    }
}

#[test]
fn provider_round_trip_feeds_the_transform() {
    let config = provider_macro_config(
        &[("q", "{{input}}")],
        Some(&[("r", "{{response.answer}}")]),
    );
    let (mut r, _) = start_provider_macro(&config);
    let def = provider_def(
        vec![PropRule { required: true, redirect: Redirect::Query, props: vec!["q".to_string()] }],
        Some(&[("kind", "web")]),
    );
    let request = match r.provider_def(def, Vec::new()) {
        Ok(StepAction::CallProvider { request }) => request,
        other => panic!("unexpected: {:?}", other),
    };
    assert_eq!(request.url, "http://svc/term");
    // Defaults come first; the per-call property is overlaid on top.
    assert_eq!(request.query.get("kind"), Some("web".to_string()));
    assert_eq!(request.query.get("q"), Some("term".to_string()));
    assert_eq!(request.body.len(), 0);
    assert_eq!(request.headers.len(), 0);

    r.provider_response("{\"answer\":\"42\"}".to_string()).unwrap();
    assert!(matches!(r.tick().unwrap(), Tick::Working));
    match r.tick().unwrap() {
        Tick::Action(StepAction::StreamModel { prompt, input, .. }) => {
            assert_eq!(prompt, "D 42");
            // A provider contributes no visible text: the working input
            // it leaves behind is empty.
            assert_eq!(input, "");
        }
        other => panic!("unexpected: {:?}", other),
    }
}

#[test]
fn non_json_provider_answer_fails() {
    let config = provider_macro_config(&[], None);
    let (mut r, _) = start_provider_macro(&config);
    let def = provider_def(Vec::new(), None);
    match r.provider_def(def, Vec::new()) {
        Ok(StepAction::CallProvider { .. }) => {}
        other => panic!("unexpected: {:?}", other),
    }
    match r.provider_response("not json".to_string()) {
        Err(ResolveError::ProviderCall { .. }) => {}
        other => panic!("unexpected: {:?}", other),
    }
}

#[test]
fn provider_env_allow_list_filters() {
    let mut config = provider_macro_config(&[("q", "{{env.KEY}}")], None);
    config.providers[0].1.props = str_map(&[("q", "{{env.KEY}}")]);
    let (mut r, _) = start_provider_macro(&config);
    let mut def = provider_def(
        vec![PropRule { required: false, redirect: Redirect::Headers, props: vec!["q".to_string()] }],
        None,
    );
    def.env = Some(vec!["KEY".to_string()]);
    let env_pairs = vec![
        ("KEY".to_string(), "secret".to_string()),
        ("OTHER".to_string(), "hidden".to_string()),
    ];
    let request = match r.provider_def(def, env_pairs) {
        Ok(StepAction::CallProvider { request }) => request,
        other => panic!("unexpected: {:?}", other),
    };
    assert_eq!(request.headers.get("q"), Some("secret".to_string()));
}

#[test]
fn nested_macro_as_intermediate_step_is_drained() {
    let mut config = base_config();
    config.responses.push(("inner".to_string(), response(&["PI"], None, Some("F"))));
    config.responses.push(("outer".to_string(), response(&["PO {{input}}"], None, None)));
    config.macros.push(("nested".to_string(), macro_of(&[("responses.inner", &[])])));
    config.macros.push((
        "top".to_string(),
        macro_of(&[("macros.nested", &[]), ("responses.outer", &[])]),
    ));

    let mut r = Resolver::start(&config, "dt".to_string(), "macros.top".to_string(), "x".to_string());
    let prompt = loop {
        match r.tick().unwrap() {
            Tick::Working => continue,
            Tick::Action(StepAction::CallModel { prompt, .. }) => {
                assert_eq!(prompt, "PI");
                r.model_output("drained".to_string()).unwrap();
            }
            Tick::Action(StepAction::StreamModel { prompt, .. }) => break prompt,
            other => panic!("unexpected: {:?}", other),
        }
    };
    // The nested macro's buffered result is its stream drained: the model
    // output with the pre-rendered footer appended.
    assert_eq!(prompt, "PO drainedF");
}

#[test]
fn unknown_kind_cannot_run_as_intermediate_step() {
    let mut config = base_config();
    config.responses.push(("done".to_string(), response(&["D"], None, None)));
    config.macros.push((
        "m".to_string(),
        macro_of(&[("widgets.foo", &[]), ("responses.done", &[])]),
    ));
    let mut r = Resolver::start(&config, "dt".to_string(), "macros.m".to_string(), "x".to_string());
    assert!(matches!(r.tick().unwrap(), Tick::Working));
    assert!(matches!(r.tick().unwrap(), Tick::Working));
    let err = r.tick().unwrap_err();
    assert_eq!(err, ResolveError::UnsupportedBufferedTask { task: "widgets.foo".to_string() });
    assert_eq!(err.message(), "`widgets.foo` can't be run as an intermediate task");
}

#[test]
fn missing_provider_definition_fails_by_name() {
    let config = provider_macro_config(&[], None);
    let (mut r, name) = start_provider_macro(&config);
    assert_eq!(name, "svc");
    let err = r.fail_provider_missing();
    assert_eq!(err, ResolveError::ProviderNotFound { provider: "svc".to_string() });
    assert_eq!(err.message(), "`svc` is not a provider");
}

#[test]
fn transport_failures_abort_the_chain() {
    let mut config = base_config();
    config.responses.push(("greet".to_string(), response(&["P"], None, None)));
    let mut r = Resolver::start(&config, "dt".to_string(), "responses.greet".to_string(), "x".to_string());
    let _ = r.tick().unwrap();
    let err = r.fail_transport("connection refused".to_string());
    assert_eq!(err, ResolveError::Transport { detail: "connection refused".to_string() });
    assert_eq!(err.message(), "transport failed: connection refused");
}

#[test]
fn self_recursive_macro_hits_the_depth_bound() {
    let mut config = base_config();
    config.macros.push(("loop".to_string(), macro_of(&[("macros.loop", &[])])));
    let mut r = Resolver::start(&config, "dt".to_string(), "macros.loop".to_string(), "x".to_string());
    let err = loop {
        match r.tick() {
            Ok(Tick::Working) => continue,
            Ok(other) => panic!("unexpected: {:?}", other),
            Err(e) => break e,
        }
    };
    match err {
        ResolveError::ConfigValidation { detail } => {
            assert_eq!(detail, "macro recursion is too deep at `macros.loop`");
        }
        other => panic!("unexpected: {:?}", other),
    }
}
