use openchad::context::{ctx_json_text, ctx_json_with_output, RenderCtx};
use openchad::error::ResolveError;
use openchad::jsontext::{append_json_string, join_lines, usize_to_string};
use openchad::resolve::{apply_transform, response_finish};
use openchad::config::ConfigResponse;
use openchad::text::{concat_strings, str_eq, str_starts_with, StrMap};

#[test]
fn maps_keep_insertion_order_and_overwrite_in_place() {
    let mut m = StrMap::new();
    m.set_pair("b".to_string(), "1".to_string());
    m.set_pair("a".to_string(), "2".to_string());
    m.set_pair("b".to_string(), "3".to_string());
    assert_eq!(m.len(), 2);
    assert_eq!(m.key_at(0).as_str(), "b");
    assert_eq!(m.val_at(0).as_str(), "3");
    assert_eq!(m.key_at(1).as_str(), "a");
    assert_eq!(m.get("b"), Some("3".to_string()));
    assert_eq!(m.get("a"), Some("2".to_string()));
    assert_eq!(m.get("missing"), None);
}

#[test]
fn duplicate_copies_everything() {
    let mut m = StrMap::new();
    m.set_pair("k".to_string(), "v".to_string());
    let d = m.duplicate();
    assert_eq!(d.len(), 1);
    assert_eq!(d.get("k"), Some("v".to_string()));
}

#[test]
fn string_comparisons() {
    assert!(str_eq("abc", "abc"));
    assert!(!str_eq("abc", "abd"));
    assert!(!str_eq("abc", "ab"));
    assert!(str_starts_with("data: x", "data: "));
    assert!(!str_starts_with("dat", "data: "));
    assert!(str_starts_with("anything", ""));
}

#[test]
fn json_strings_escape_what_json_needs() {
    let mut out = String::new();
    append_json_string(&mut out, "a\"b\\c\nd");
    assert_eq!(out, "\"a\\\"b\\\\c\\u000ad\"");
}

#[test]
fn numbers_format_in_decimal() {
    assert_eq!(usize_to_string(0), "0");
    assert_eq!(usize_to_string(7), "7");
    assert_eq!(usize_to_string(12345), "12345");
}

#[test]
fn lines_join_with_newlines() {
    assert_eq!(join_lines(&vec![]), "");
    assert_eq!(join_lines(&vec!["one".to_string()]), "one");
    assert_eq!(join_lines(&vec!["one".to_string(), "two".to_string()]), "one\ntwo");
}

#[test]
fn pieces_concatenate_in_order() {
    let pieces = vec!["a".to_string(), "".to_string(), "bc".to_string()];
    assert_eq!(concat_strings(&pieces), "abc");
}

#[test]
fn context_json_is_exact() {
    let mut props = StrMap::new();
    props.set_pair("p".to_string(), "1".to_string());
    let ctx = RenderCtx {
        input: "a".to_string(),
        datetime: "d".to_string(),
        props,
        transform: StrMap::new(),
        args: StrMap::new(),
    };
    assert_eq!(
        ctx_json_text(&ctx),
        "{\"input\":\"a\",\"datetime\":\"d\",\"props\":{\"p\":\"1\"},\"transform\":{},\"args\":{}}"
    );
    assert_eq!(
        ctx_json_with_output(&ctx, "out"),
        "{\"input\":\"a\",\"datetime\":\"d\",\"props\":{\"p\":\"1\"},\"transform\":{},\"args\":{},\"output\":\"out\"}"
    );
}

fn plain_ctx(input: &str) -> RenderCtx {
    RenderCtx {
        input: input.to_string(),
        datetime: "d".to_string(),
        props: StrMap::new(),
        transform: StrMap::new(),
        args: StrMap::new(),
    }
}

#[test]
fn transforms_merge_in_declared_order() {
    let ctx = ctx_json_text(&plain_ctx("v"));
    let mut entries = StrMap::new();
    entries.set_pair("first".to_string(), "{{input}}".to_string());
    entries.set_pair("second".to_string(), "two".to_string());
    let mut base = StrMap::new();
    base.set_pair("first".to_string(), "old".to_string());
    let merged = apply_transform(base, &entries, ctx.as_str()).unwrap();
    assert_eq!(merged.get("first"), Some("v".to_string()));
    assert_eq!(merged.get("second"), Some("two".to_string()));
}

#[test]
fn transform_template_failures_abort() {
    let ctx = ctx_json_text(&plain_ctx("v"));
    let mut entries = StrMap::new();
    entries.set_pair("bad".to_string(), "{% nope".to_string());
    match apply_transform(StrMap::new(), &entries, ctx.as_str()) {
        Err(ResolveError::Template { .. }) => {}
        other => panic!("unexpected: {:?}", other),
    }
}

#[test]
fn buffered_finish_appends_footer_and_is_repeatable() {
    let cfg = ConfigResponse {
        args: None,
        prompt: vec!["p".to_string()],
        transform: Some({
            let mut t = StrMap::new();
            t.set_pair("last".to_string(), "{{output}}".to_string());
            t
        }),
        footer: Some(" [{{output}}]".to_string()),
    };
    let ctx = plain_ctx("in");
    let (text1, t1) = response_finish(&cfg, &ctx, "answer", StrMap::new()).unwrap();
    let (text2, t2) = response_finish(&cfg, &ctx, "answer", StrMap::new()).unwrap();
    assert_eq!(text1, "answer [answer]");
    // Identical context state and identical upstream output give an
    // identical result and an identical transform.
    assert_eq!(text1, text2);
    assert_eq!(t1.get("last"), Some("answer".to_string()));
    assert_eq!(t2.get("last"), Some("answer".to_string()));
    assert_eq!(t1.len(), t2.len());
}
