use agent_framework::redact::{scrub_error_body, scrub_secrets, MAX_ERROR_BODY_LEN};

#[test]
fn truncates_long_bodies() {
    let long = "x".repeat(MAX_ERROR_BODY_LEN + 500);
    let s = scrub_error_body(&long);
    assert!(s.len() <= MAX_ERROR_BODY_LEN + 64);
    assert!(s.contains("[truncated"));
}

#[test]
fn preserves_short_bodies() {
    assert_eq!(scrub_error_body("hello"), "hello");
}

#[test]
fn scrubs_bearer_token() {
    let input = r#"{"error": "Bearer sk-abc123 rejected"}"#;
    let out = scrub_error_body(input);
    assert!(!out.contains("sk-abc123"));
    assert!(out.contains("Bearer [REDACTED]"));
}

#[test]
fn scrubs_sk_prefixed_keys() {
    let input = "debug: key=sk-proj-abc123xyz and sk-ant-def456";
    let out = scrub_error_body(input);
    assert!(!out.contains("abc123xyz"));
    assert!(!out.contains("def456"));
    assert!(out.contains("sk-[REDACTED]"));
}

#[test]
fn scrubs_in_json_quotes() {
    let input = r#"{"authorization": "Bearer sk-abc"}"#;
    let out = scrub_error_body(input);
    assert!(!out.contains("sk-abc"));
}

#[test]
fn respects_utf8_boundaries() {
    let mut s = "a".repeat(MAX_ERROR_BODY_LEN - 2);
    s.push('é');
    s.push('é');
    let out = scrub_error_body(&s);
    assert!(out.contains("[truncated") || out.len() == s.len());
}

#[test]
fn scrubbing_twice_changes_nothing_more() {
    for input in [
        "Bearer sk-abc123 rejected",
        "sk-proj-abc and sk-ant-def, then sk-x",
        "Bearer ",
        "no secret here",
        "ends with sk-",
    ] {
        let once = scrub_secrets(input);
        assert_eq!(scrub_secrets(&once), once);
    }
}

#[test]
fn a_body_of_the_largest_length_is_kept() {
    let body = "y".repeat(MAX_ERROR_BODY_LEN);
    assert_eq!(scrub_error_body(&body), body);
}

#[test]
fn only_the_replacement_follows_a_prefix() {
    let out = scrub_secrets("xoxb-1 AKIA ghs_2,sk-sk-3 'bearer ghp_4'");
    assert_eq!(out, "xoxb-[REDACTED] AKIA ghs_[REDACTED],sk-[REDACTED] 'bearer [REDACTED]'");
}

#[test]
fn scrubbed_bodies_stay_bounded() {
    let out = scrub_error_body(&"sk-a ".repeat(1000));
    assert!(out.contains("sk-[REDACTED]"));
    assert!(out.len() <= 4 * (MAX_ERROR_BODY_LEN + 42));
}

#[test]
fn scrubbed_texts_do_not_tell_tokens_apart() {
    let scrub = |token: &str| scrub_secrets(&format!("x AKI\"AKIA{token}, Bearer {token}"));
    assert_eq!(scrub("k1"), scrub("quite-another"));
    assert_eq!(scrub_secrets("sk-xBearer t"), "sk-[REDACTED] t");
}
