use mnml_tickets_linear::app::App;
use mnml_tickets_linear::config::{Config, Tab};
use mnml_tickets_linear::linear::{Issue, Team, User, WorkflowState};
use mnml_tickets_linear::theme::Color;
use mnml_tickets_linear::keys::Effect;
use mnml_tickets_linear::ui::{
    format_updated, issue_row, priority_color, refresh_due, state_color, status_line, tab_labels,
    tab_strip, table_view, timer_restarts, Style, TableView, Width,
};

fn plain(fg: Color) -> Style {
    Style { fg: Some(fg), bg: None, bold: false, dim: false }
}

fn full_issue() -> Issue {
    Issue {
        id: "uuid".to_string(),
        identifier: "ENG-1234".to_string(),
        title: "Fix the thing".to_string(),
        url: "https://linear.app/acme/issue/ENG-1234".to_string(),
        priority: Some(1),
        priority_label: Some("Urgent".to_string()),
        updated_at: Some("2026-06-03T10:11:12.000Z".to_string()),
        state: Some(WorkflowState {
            name: "In Progress".to_string(),
            kind: "started".to_string(),
            color: "#f2c94c".to_string(),
        }),
        assignee: Some(User { display_name: "chrismclennan".to_string(), name: "Chris".to_string() }),
        team: Some(Team { key: "ENG".to_string() }),
    }
}

fn bare_issue() -> Issue {
    Issue {
        id: "u2".to_string(),
        identifier: "ENG-1235".to_string(),
        title: "AI".to_string(),
        url: "u".to_string(),
        priority: None,
        priority_label: None,
        updated_at: None,
        state: None,
        assignee: None,
        team: None,
    }
}

#[test]
fn format_updated_keeps_the_date() {
    assert_eq!(format_updated("2026-06-03T10:11:12.000Z"), "2026-06-03");
    assert_eq!(format_updated("2026-06-03"), "2026-06-03");
    assert_eq!(format_updated(""), "");
    assert_eq!(format_updated("T"), "");
}

#[test]
fn state_colors() {
    assert_eq!(state_color("completed"), plain(Color::Green));
    assert_eq!(state_color("canceled"), plain(Color::DarkGray));
    assert_eq!(state_color("started"), plain(Color::Cyan));
    assert_eq!(state_color("triage"), plain(Color::Yellow));
    assert_eq!(state_color("backlog"), plain(Color::White));
    assert_eq!(state_color("unstarted"), plain(Color::White));
    assert_eq!(state_color(""), plain(Color::Gray));
    assert_eq!(state_color("Completed"), plain(Color::Gray));
}

#[test]
fn priority_colors() {
    assert_eq!(priority_color(Some(1)), Style { fg: Some(Color::Red), bg: None, bold: true, dim: false });
    assert_eq!(priority_color(Some(2)), plain(Color::LightRed));
    assert_eq!(priority_color(Some(3)), plain(Color::Yellow));
    assert_eq!(priority_color(Some(4)), plain(Color::DarkGray));
    assert_eq!(priority_color(Some(0)), plain(Color::Gray));
    assert_eq!(priority_color(None), plain(Color::Gray));
    assert_eq!(priority_color(Some(9)), plain(Color::Gray));
}

#[test]
fn rows_show_fields_and_placeholders() {
    let r = issue_row(&full_issue());
    assert_eq!(r.key, "ENG-1234");
    assert_eq!(r.state, "In Progress");
    assert_eq!(r.state_style, plain(Color::Cyan));
    assert_eq!(r.priority, "Urgent");
    assert_eq!(r.priority_style, Style { fg: Some(Color::Red), bg: None, bold: true, dim: false });
    assert_eq!(r.assignee, "chrismclennan");
    assert_eq!(r.updated, "2026-06-03");
    assert_eq!(r.title, "Fix the thing");

    let r = issue_row(&bare_issue());
    assert_eq!(r.state, "?");
    assert_eq!(r.state_style, plain(Color::Gray));
    assert_eq!(r.priority, "—");
    assert_eq!(r.assignee, "—");
    assert_eq!(r.updated, "—");
}

#[test]
fn assignee_falls_back_to_name() {
    let mut i = full_issue();
    i.assignee = Some(User { display_name: String::new(), name: "andrew".to_string() });
    assert_eq!(issue_row(&i).assignee, "andrew");
}

fn app() -> App {
    App::new(Config {
        refresh_interval_secs: 60,
        tabs: vec![
            Tab { name: "Mine".to_string(), filter: None, view_id: Some("a".to_string()) },
            Tab { name: "Cycle".to_string(), filter: None, view_id: Some("b".to_string()) },
        ],
    })
}

#[test]
fn tab_labels_number_tabs_and_count_fetched() {
    let mut app = app();
    assert_eq!(tab_labels(&app), vec!["1.Mine".to_string(), "2.Cycle".to_string()]);
    app.finish_refresh(0, Ok(vec![full_issue(), bare_issue()]), std::time::Instant::now());
    assert_eq!(tab_labels(&app), vec!["1.Mine (2)".to_string(), "2.Cycle".to_string()]);
}

#[test]
fn table_view_states() {
    let mut app = app();
    match table_view(&app.tabs[0]) {
        TableView::Loading { text, style } => {
            assert_eq!(text, "loading…");
            assert_eq!(style, plain(Color::DarkGray));
        }
        _ => panic!("expected loading"),
    }
    app.finish_refresh(0, Ok(vec![]), std::time::Instant::now());
    match table_view(&app.tabs[0]) {
        TableView::NoMatches { text, style } => {
            assert_eq!(text, "(no issues match this query)");
            assert_eq!(style, plain(Color::DarkGray));
        }
        _ => panic!("expected no matches"),
    }
    app.finish_refresh(0, Ok(vec![full_issue(), bare_issue()]), std::time::Instant::now());
    match table_view(&app.tabs[0]) {
        TableView::Rows(t) => {
            assert_eq!(t.title, " Mine ");
            assert_eq!(t.header, vec!["KEY", "STATE", "PRIORITY", "ASSIGNEE", "UPDATED", "TITLE"]);
            assert_eq!(t.header_style, Style { fg: Some(Color::DarkGray), bg: None, bold: true, dim: false });
            assert_eq!(
                t.widths,
                vec![
                    Width::Length(10),
                    Width::Length(14),
                    Width::Length(10),
                    Width::Length(18),
                    Width::Length(12),
                    Width::Min(20)
                ]
            );
            assert_eq!(t.rows.len(), 2);
            assert_eq!(t.rows[1].key, "ENG-1235");
            assert_eq!(t.rows[1].key_style, plain(Color::Yellow));
            assert_eq!(t.selected, 0);
            assert_eq!(t.highlight_style, Style { fg: None, bg: Some(Color::DarkGray), bold: true, dim: false });
            assert_eq!(t.highlight_symbol, "▸ ");
        }
        _ => panic!("expected rows"),
    }
    app.finish_refresh(0, Err("boom".to_string()), std::time::Instant::now());
    match table_view(&app.tabs[0]) {
        TableView::Failed { text, style } => {
            assert_eq!(text, "error: boom\n\nPress `r` to retry.");
            assert_eq!(style, plain(Color::Red));
        }
        _ => panic!("expected failure"),
    }
}

#[test]
fn refresh_due_after_interval_unless_disabled() {
    assert!(!refresh_due(0, 1000));
    assert!(!refresh_due(60, 59));
    assert!(refresh_due(60, 60));
    assert!(refresh_due(60, 61));
}

#[test]
fn tab_strip_highlights_active_tab() {
    let mut app = app();
    app.switch_tab(1);
    let strip = tab_strip(&app);
    assert_eq!(strip.title, " linear ");
    assert_eq!(strip.labels, vec!["1.Mine".to_string(), "2.Cycle".to_string()]);
    assert_eq!(strip.selected, 1);
    assert_eq!(
        strip.highlight_style,
        Style { fg: Some(Color::Black), bg: Some(Color::Cyan), bold: true, dim: false }
    );
}

#[test]
fn status_line_shows_status_and_hint() {
    let mut app = app();
    app.switch_tab(1);
    let line = status_line(&app);
    assert_eq!(line.text, " loading Cycle… ");
    assert_eq!(line.text_style, plain(Color::White));
    assert_eq!(line.hint, " 1-9 tab · ↑↓/jk move · Enter/o open · r refresh · q quit ");
    assert_eq!(line.hint_style, Style { fg: Some(Color::DarkGray), bg: None, bold: false, dim: true });
}

#[test]
fn timer_restarts_after_actions_that_do_not_quit() {
    assert!(!timer_restarts(None));
    assert!(!timer_restarts(Some(Effect::Quit)));
    assert!(timer_restarts(Some(Effect::Idle)));
    assert!(timer_restarts(Some(Effect::Refresh)));
    assert!(timer_restarts(Some(Effect::OpenFocused)));
}
