use nodeauth::clash::{render, template_or_default, DEFAULT_TEMPLATE, TOKEN_PLACEHOLDER};

#[test]
fn render_replaces_every_placeholder() {
    let template = "a: __NODE_TOKEN__\nb: __NODE_TOKEN__";
    assert_eq!(render(template, "tok"), "a: tok\nb: tok");
}

#[test]
fn render_is_noop_without_placeholder() {
    let template = "password: literal";
    assert_eq!(render(template, "tok"), template);
}

#[test]
fn default_template_carries_the_placeholder() {
    assert!(DEFAULT_TEMPLATE.contains(TOKEN_PLACEHOLDER));
    let rendered = render(DEFAULT_TEMPLATE, "abc123");
    assert!(!rendered.contains(TOKEN_PLACEHOLDER));
    assert!(rendered.contains("password: abc123"));
}

#[test]
fn render_scans_left_to_right_without_overlap() {
    assert_eq!(render("__NODE_TOKEN__NODE_TOKEN__", "x"), "xNODE_TOKEN__");
    assert_eq!(render("", "x"), "");
    assert_eq!(render("__NODE_TOKEN", "x"), "__NODE_TOKEN");
}

#[test]
fn render_with_empty_token_removes_placeholders() {
    assert_eq!(render("p: __NODE_TOKEN__;", ""), "p: ;");
}

#[test]
fn template_or_default_prefers_the_stored_template() {
    assert_eq!(template_or_default(None), DEFAULT_TEMPLATE);
    assert_eq!(template_or_default(Some("proxies: []  # custom".to_string())), "proxies: []  # custom");
}
