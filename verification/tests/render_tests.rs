use openchad::context::{ctx_json_text, RenderCtx};
use openchad::error::ResolveError;
use openchad::render::{json_is_valid, render_template, render_template_lines, trim};
use openchad::text::StrMap;

fn ctx(input: &str, pairs: &[(&str, &str)]) -> RenderCtx {
    let mut transform = StrMap::new();
    for (k, v) in pairs {
        transform.set_pair(k.to_string(), v.to_string());
    }
    RenderCtx {
        input: input.to_string(),
        datetime: "2024-01-01 09:30 AM".to_string(),
        props: StrMap::new(),
        transform,
        args: StrMap::new(),
    }
}

#[test]
fn literal_text_renders_unchanged() {
    let c = ctx_json_text(&ctx("ignored", &[("k", "v")]));
    let out = render_template("just plain text, no variables.", c.as_str()).unwrap();
    assert_eq!(out, "just plain text, no variables.");
}

#[test]
fn literal_text_survives_any_context() {
    // Whatever the context holds — even text that is not JSON at all —
    // a literal template comes back unchanged.
    let out = render_template("static", "this is not json").unwrap();
    assert_eq!(out, "static");
}

#[test]
fn variables_interpolate() {
    let c = ctx_json_text(&ctx("world", &[]));
    let out = render_template("Hello {{input}}", c.as_str()).unwrap();
    assert_eq!(out, "Hello world");
}

#[test]
fn transform_paths_interpolate() {
    let c = ctx_json_text(&ctx("x", &[("city", "Oslo")]));
    let out = render_template("in {{transform.city}}", c.as_str()).unwrap();
    assert_eq!(out, "in Oslo");
}

#[test]
fn datetime_is_exposed() {
    let c = ctx_json_text(&ctx("x", &[]));
    let out = render_template("at {{datetime}}", c.as_str()).unwrap();
    assert_eq!(out, "at 2024-01-01 09:30 AM");
}

#[test]
fn bad_template_is_a_template_error() {
    let c = ctx_json_text(&ctx("x", &[]));
    match render_template("{% broken", c.as_str()) {
        Err(ResolveError::Template { .. }) => {}
        other => panic!("unexpected: {:?}", other),
    }
}

#[test]
fn undefined_variable_path_is_a_template_error() {
    let c = ctx_json_text(&ctx("x", &[]));
    match render_template("{{ nothing.here }}", c.as_str()) {
        Err(ResolveError::Template { .. }) => {}
        other => panic!("unexpected: {:?}", other),
    }
}

#[test]
fn multiline_bodies_join_with_newlines() {
    let c = ctx_json_text(&ctx("w", &[]));
    let lines = vec!["first {{input}}".to_string(), "second".to_string()];
    let out = render_template_lines(&lines, c.as_str()).unwrap();
    assert_eq!(out, "first w\nsecond");
}

#[test]
fn trim_helper_is_exposed_to_templates() {
    let c = ctx_json_text(&ctx("__pad__", &[]));
    let out = render_template("{{ trim(input, \"_\") }}", c.as_str()).unwrap();
    assert_eq!(out, "pad");
}

#[test]
fn trim_strips_both_ends() {
    assert_eq!(trim("xxhixx", "x"), "hi");
    assert_eq!(trim("hi", "x"), "hi");
    assert_eq!(trim("xxxx", "x"), "");
    assert_eq!(trim("padded", ""), "padded");
    assert_eq!(trim("abcba", "ab"), "bcb");
}

#[test]
fn rendering_is_idempotent() {
    let c1 = ctx_json_text(&ctx("same", &[("k", "v")]));
    let c2 = ctx_json_text(&ctx("same", &[("k", "v")]));
    assert_eq!(c1, c2);
    let a = render_template("{{input}}-{{transform.k}}", c1.as_str()).unwrap();
    let b = render_template("{{input}}-{{transform.k}}", c2.as_str()).unwrap();
    assert_eq!(a, b);
    assert_eq!(a, "same-v");
}

#[test]
fn json_validity_check() {
    assert!(json_is_valid("{\"a\":1}"));
    assert!(json_is_valid("[1,2,3]"));
    assert!(!json_is_valid("nope{"));
}
