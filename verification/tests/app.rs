use mnml_tickets_linear::app::{source_of, App, TabSource};
use mnml_tickets_linear::config::{Config, Tab};
use mnml_tickets_linear::linear::Issue;

fn issue(id: &str) -> Issue {
    Issue {
        id: format!("id-{id}"),
        identifier: id.to_string(),
        title: format!("title {id}"),
        url: format!("https://linear.app/x/issue/{id}"),
        priority: None,
        priority_label: None,
        updated_at: None,
        state: None,
        assignee: None,
        team: None,
    }
}

fn json(text: &str) -> serde_json::Value {
    serde_json::from_str(text).expect("json")
}

fn config() -> Config {
    Config {
        refresh_interval_secs: 60,
        tabs: vec![
            Tab { name: "Mine".to_string(), filter: Some(json(r#"{"assignee": {"isMe": {"eq": true}}}"#)), view_id: None },
            Tab { name: "Triage".to_string(), filter: None, view_id: Some("abc123def456".to_string()) },
        ],
    }
}

#[test]
fn new_app_has_one_fresh_tab_per_config_entry() {
    let app = App::new(config());
    assert_eq!(app.tabs.len(), 2);
    assert_eq!(app.active_tab, 0);
    assert_eq!(app.status, "");
    assert_eq!(app.tabs[0].name, "Mine");
    assert!(app.tabs[0].issues.is_empty());
    assert_eq!(app.tabs[0].selected, 0);
    assert!(app.tabs[0].last_fetched.is_none());
    assert!(app.tabs[0].last_error.is_none());
    match &app.tabs[0].source {
        TabSource::Filter(f) => assert_eq!(f, &json(r#"{"assignee": {"isMe": {"eq": true}}}"#)),
        other => panic!("unexpected {other:?}"),
    }
    match &app.tabs[1].source {
        TabSource::View(id) => assert_eq!(id, "abc123def456"),
        other => panic!("unexpected {other:?}"),
    }
    assert_eq!(app.active().name, "Mine");
}

#[test]
fn source_prefers_view_and_falls_back_to_empty_filter() {
    let both = Tab { name: "B".to_string(), filter: Some(json("{}")), view_id: Some("v".to_string()) };
    assert!(matches!(source_of(&both), TabSource::View(ref id) if id == "v"));
    let neither = Tab { name: "N".to_string(), filter: None, view_id: None };
    match source_of(&neither) {
        TabSource::Filter(f) => assert_eq!(f, json("{}")),
        other => panic!("unexpected {other:?}"),
    }
}

#[test]
fn refresh_success_records_issues_and_status() {
    let mut app = App::new(config());
    let (idx, source, limit) = app.start_refresh();
    assert_eq!(idx, 0);
    assert_eq!(limit, 100);
    assert!(matches!(source, TabSource::Filter(_)));
    assert_eq!(app.status, "refreshing Mine…");
    app.finish_refresh(idx, Ok(vec![issue("ENG-1"), issue("ENG-2")]), std::time::Instant::now());
    assert_eq!(app.status, "Mine · 2 issues");
    assert_eq!(app.tabs[0].issues.len(), 2);
    assert!(app.tabs[0].last_fetched.is_some());
    assert!(app.tabs[0].last_error.is_none());
}

#[test]
fn refresh_keeps_cursor_but_holds_it_to_last_issue() {
    let mut app = App::new(config());
    let many: Vec<Issue> = (0..12).map(|i| issue(&format!("ENG-{i}"))).collect();
    app.finish_refresh(0, Ok(many), std::time::Instant::now());
    app.move_selection(8);
    assert_eq!(app.tabs[0].selected, 8);
    let few: Vec<Issue> = (0..12).map(|i| issue(&format!("ENG-{i}"))).collect();
    app.finish_refresh(0, Ok(few), std::time::Instant::now());
    assert_eq!(app.tabs[0].selected, 8);
    app.finish_refresh(0, Ok(vec![issue("A"), issue("B"), issue("C")]), std::time::Instant::now());
    assert_eq!(app.tabs[0].selected, 2);
    app.finish_refresh(0, Ok(vec![]), std::time::Instant::now());
    assert_eq!(app.tabs[0].selected, 0);
    assert_eq!(app.status, "Mine · 0 issues");
}

#[test]
fn refresh_failure_keeps_issues_and_reports() {
    let mut app = App::new(config());
    app.finish_refresh(0, Ok(vec![issue("ENG-1")]), std::time::Instant::now());
    app.finish_refresh(0, Err("Linear API HTTP 500".to_string()), std::time::Instant::now());
    assert_eq!(app.tabs[0].issues.len(), 1);
    assert_eq!(app.tabs[0].last_error.as_deref(), Some("Linear API HTTP 500"));
    assert_eq!(app.status, "error: Linear API HTTP 500");
    app.finish_refresh(0, Ok(vec![]), std::time::Instant::now());
    assert!(app.tabs[0].last_error.is_none());
}

#[test]
fn switch_tab_shows_loading_only_when_never_fetched() {
    let mut app = App::new(config());
    app.switch_tab(1);
    assert_eq!(app.active_tab, 1);
    assert_eq!(app.status, "loading Triage…");
    app.finish_refresh(0, Ok(vec![]), std::time::Instant::now());
    app.status = "kept".to_string();
    app.switch_tab(0);
    assert_eq!(app.status, "kept");
    app.switch_tab(2);
    assert_eq!(app.active_tab, 0);
}

#[test]
fn move_selection_clamps_and_ignores_empty_tab() {
    let mut app = App::new(config());
    app.move_selection(5);
    assert_eq!(app.tabs[0].selected, 0);
    app.finish_refresh(0, Ok(vec![issue("A"), issue("B"), issue("C")]), std::time::Instant::now());
    app.move_selection(-3);
    assert_eq!(app.tabs[0].selected, 0);
    app.move_selection(1);
    assert_eq!(app.tabs[0].selected, 1);
    app.move_selection(isize::MAX - 1);
    assert_eq!(app.tabs[0].selected, 2);
    app.move_selection(isize::MIN);
    assert_eq!(app.tabs[0].selected, 0);
}

#[test]
fn focused_issue_and_open_status() {
    let mut app = App::new(config());
    assert!(app.focused_issue().is_none());
    app.finish_refresh(0, Ok(vec![issue("ENG-1"), issue("ENG-2")]), std::time::Instant::now());
    app.move_selection(1);
    let url = app.focused_issue().expect("focused").url.clone();
    assert_eq!(url, "https://linear.app/x/issue/ENG-2");
    app.record_open(Ok(()));
    assert_eq!(app.status, "opened ENG-2 in browser");
    app.record_open(Err("no browser".to_string()));
    assert_eq!(app.status, "open failed: no browser");
}

#[test]
fn active_mut_edits_active_tab() {
    let mut app = App::new(config());
    app.switch_tab(1);
    app.active_mut().last_error = Some("x".to_string());
    assert_eq!(app.tabs[1].last_error.as_deref(), Some("x"));
    assert!(app.tabs[0].last_error.is_none());
}

#[test]
fn duplicate_source_is_equal() {
    let s = TabSource::View("v".to_string());
    assert!(matches!(s.duplicate(), TabSource::View(ref id) if id == "v"));
}

#[test]
fn moving_down_then_up_returns_inside_list() {
    let mut app = App::new(config());
    let issues: Vec<Issue> = (0..6).map(|i| issue(&format!("ENG-{i}"))).collect();
    app.finish_refresh(0, Ok(issues), std::time::Instant::now());
    app.move_selection(1);
    app.move_selection(3);
    assert_eq!(app.tabs[0].selected, 4);
    app.move_selection(-3);
    assert_eq!(app.tabs[0].selected, 1);
}
