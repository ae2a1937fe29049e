use mnml_tickets_linear::auth::parse_token;

#[test]
fn token_is_trimmed() {
    assert_eq!(parse_token("  lin_api_SECRET-REDACTED\n"), Some("lin_api_SECRET-REDACTED".to_string()));
    assert_eq!(parse_token("abc"), Some("abc".to_string()));
}

#[test]
fn blank_token_file_is_rejected() {
    assert_eq!(parse_token(""), None);
    assert_eq!(parse_token(" \n\t \r\n"), None);
    assert_eq!(parse_token("\u{3000}"), None);
}
