use agent_framework::secret::SecretString;

#[test]
fn debug_is_redacted() {
    let s = SecretString::new("super-secret-key");
    assert_eq!(s.debug_text(), "SecretString([REDACTED])");
    assert_eq!(s.display_text(), "[REDACTED]");
}

#[test]
fn expose_returns_inner() {
    let s = SecretString::new("value");
    assert_eq!(s.expose(), "value");
}

#[test]
fn clone_is_independent() {
    let a = SecretString::new("k");
    let b = a.clone();
    assert_eq!(a.expose(), "k");
    assert_eq!(b.expose(), "k");
    drop(a);
    assert_eq!(b.expose(), "k");
}

#[test]
fn into_inner_gives_the_string() {
    assert_eq!(SecretString::new("inner").into_inner(), "inner");
}
