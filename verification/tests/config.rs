use mnml_tickets_linear::config::{default_refresh, Config, ConfigError, Tab};

/// Builds a `Config` from TOML text the way the viewer's loader reads it:
/// `refresh_interval_secs` defaults, `filter` and `view_id` are optional.
fn config_from_toml(text: &str) -> Config {
    let table: toml::Table = toml::from_str(text).expect("toml parses");
    let refresh_interval_secs = match table.get("refresh_interval_secs") {
        Some(v) => v.as_integer().expect("integer") as u64,
        None => default_refresh(),
    };
    let mut tabs = Vec::new();
    for t in table.get("tabs").and_then(|v| v.as_array()).expect("tabs array") {
        let t = t.as_table().expect("tab table");
        tabs.push(Tab {
            name: t.get("name").and_then(|v| v.as_str()).expect("name").to_string(),
            filter: t.get("filter").map(|v| serde_json::to_value(v).expect("json")),
            view_id: t.get("view_id").map(|v| v.as_str().expect("string").to_string()),
        });
    }
    Config { refresh_interval_secs, tabs }
}

fn json(text: &str) -> serde_json::Value {
    serde_json::from_str(text).expect("json")
}

fn tab(name: &str, filter: Option<serde_json::Value>, view_id: Option<&str>) -> Tab {
    Tab { name: name.to_string(), filter, view_id: view_id.map(|s| s.to_string()) }
}

#[test]
fn example_config_parses_and_validates() {
    let cfg = config_from_toml(Config::EXAMPLE);
    cfg.validate().expect("example validates");
    // The scaffold has at least Mine + Cycle uncommented.
    assert!(cfg.tabs.len() >= 2);
}

#[test]
fn validate_rejects_tab_with_neither_filter_nor_view_id() {
    let raw = r##"
[[tabs]]
name = "Bad"
"##;
    let cfg = config_from_toml(raw);
    assert!(cfg.validate().is_err());
}

#[test]
fn validate_rejects_tab_with_both_filter_and_view_id() {
    let raw = r##"
[[tabs]]
name = "Bad"
filter = {}
view_id = "abc"
"##;
    let cfg = config_from_toml(raw);
    assert!(cfg.validate().is_err());
}

#[test]
fn example_config_has_default_interval_and_named_tabs() {
    let cfg = config_from_toml(Config::EXAMPLE);
    assert_eq!(cfg.refresh_interval_secs, 60);
    assert_eq!(cfg.tabs[0].name, "Mine");
    assert_eq!(cfg.tabs[1].name, "Cycle");
    assert!(cfg.tabs[0].filter.is_some());
    assert!(cfg.tabs[0].view_id.is_none());
}

#[test]
fn default_refresh_is_sixty_seconds() {
    assert_eq!(default_refresh(), 60);
    let cfg = config_from_toml("[[tabs]]\nname = \"A\"\nview_id = \"x\"\n");
    assert_eq!(cfg.refresh_interval_secs, 60);
}

#[test]
fn validate_rejects_empty_tab_list() {
    let cfg = Config { refresh_interval_secs: 60, tabs: vec![] };
    let err = cfg.validate().unwrap_err();
    assert!(matches!(err, ConfigError::NoTabs));
    assert_eq!(err.message(), "config: at least one [[tabs]] entry required");
}

#[test]
fn validate_reports_first_bad_tab_missing_source() {
    let cfg = Config {
        refresh_interval_secs: 0,
        tabs: vec![
            tab("Good", None, Some("v1")),
            tab("Bad", None, None),
            tab("Worse", Some(json("{}")), Some("v2")),
        ],
    };
    let err = cfg.validate().unwrap_err();
    match &err {
        ConfigError::MissingSource { index, name } => {
            assert_eq!(*index, 1);
            assert_eq!(name, "Bad");
        }
        other => panic!("unexpected {other:?}"),
    }
    assert_eq!(
        err.message(),
        "tab #1 (Bad): needs either `filter = {...}` or `view_id = \"...\"`"
    );
}

#[test]
fn validate_reports_both_sources() {
    let cfg = Config {
        refresh_interval_secs: 5,
        tabs: vec![tab("Both", Some(json(r#"{"a": 1}"#)), Some("v"))],
    };
    let err = cfg.validate().unwrap_err();
    assert!(matches!(err, ConfigError::BothSources { index: 0, .. }));
    assert_eq!(err.message(), "tab #0 (Both): set EITHER `filter` OR `view_id`, not both");
}

#[test]
fn validate_accepts_filter_or_view_tabs() {
    let cfg = Config {
        refresh_interval_secs: 5,
        tabs: vec![
            tab("F", Some(json(r#"{"team": {"key": {"eq": "ENG"}}}"#)), None),
            tab("V", None, Some("abc123def456")),
        ],
    };
    assert!(cfg.validate().is_ok());
}

#[test]
fn error_message_counts_beyond_nine() {
    let mut tabs = Vec::new();
    for i in 0..12 {
        tabs.push(tab(&format!("t{i}"), None, Some("v")));
    }
    tabs.push(tab("late", None, None));
    let cfg = Config { refresh_interval_secs: 5, tabs };
    let err = cfg.validate().unwrap_err();
    assert_eq!(
        err.message(),
        "tab #12 (late): needs either `filter = {...}` or `view_id = \"...\"`"
    );
}
