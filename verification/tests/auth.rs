use nost::auth::bearer_token;

// The token is everything after the scheme prefix.
#[test]
fn bearer_token_is_sliced_out() {
    assert_eq!(bearer_token("Bearer abc123"), Some("abc123"));
    assert_eq!(bearer_token("Bearer "), Some(""));
}

// Values without the exact scheme carry no token.
#[test]
fn other_schemes_carry_no_token() {
    assert_eq!(bearer_token(""), None);
    assert_eq!(bearer_token("Basic abc"), None);
    assert_eq!(bearer_token("bearer abc"), None);
    assert_eq!(bearer_token("Bearer"), None);
}
