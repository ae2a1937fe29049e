use mnml_tickets_linear::linear::{http_failure, http_success, reply_data, view_issues, GraphqlReply, Issue};

#[test]
fn reply_errors_are_joined() {
    let reply = GraphqlReply {
        errors: Some(vec![Some("bad filter".to_string()), None, Some("no access".to_string())]),
        data: Some(serde_json::from_str("{}").unwrap()),
    };
    assert_eq!(reply_data(reply).unwrap_err(), "Linear GraphQL errors: bad filter / no access");
}

#[test]
fn reply_without_messages_still_fails() {
    let reply = GraphqlReply { errors: Some(vec![None]), data: None };
    assert_eq!(reply_data(reply).unwrap_err(), "Linear GraphQL errors: ");
}

#[test]
fn reply_with_empty_errors_yields_data() {
    let data: serde_json::Value = serde_json::from_str(r#"{"issues": {"nodes": []}}"#).unwrap();
    let reply = GraphqlReply { errors: Some(vec![]), data: Some(data.clone()) };
    assert_eq!(reply_data(reply).unwrap(), data);
}

#[test]
fn reply_missing_data() {
    let reply = GraphqlReply { errors: None, data: None };
    assert_eq!(reply_data(reply).unwrap_err(), "Linear response missing `data` field");
}

#[test]
fn missing_view_is_reported() {
    assert_eq!(
        view_issues("abc123", None).unwrap_err(),
        "Linear: view abc123 not found or not accessible"
    );
    let found: Vec<Issue> = Vec::new();
    assert!(view_issues("abc123", Some(found)).unwrap().is_empty());
}

#[test]
fn http_success_is_2xx() {
    assert!(http_success(200));
    assert!(http_success(204));
    assert!(http_success(299));
    assert!(!http_success(199));
    assert!(!http_success(300));
    assert!(!http_success(404));
}

#[test]
fn http_failure_text_names_status_and_body() {
    assert_eq!(
        http_failure(400, Some("Bad Request"), "{\"errors\":[]}"),
        "Linear API HTTP 400 Bad Request: {\"errors\":[]}"
    );
    assert_eq!(http_failure(599, None, ""), "Linear API HTTP 599 <unknown status code>: ");
}
