use mnml_tickets_linear::app::App;
use mnml_tickets_linear::config::{Config, Tab};
use mnml_tickets_linear::keys::{apply, handle, press_action, Action, Effect, Key, KeyCode};
use mnml_tickets_linear::linear::Issue;

fn view_tab(name: &str) -> Tab {
    Tab { name: name.to_string(), filter: None, view_id: Some(format!("{name}-id")) }
}

fn app_with(n: usize) -> App {
    let tabs = (0..n).map(|i| view_tab(&format!("T{i}"))).collect();
    App::new(Config { refresh_interval_secs: 60, tabs })
}

fn issue(id: &str) -> Issue {
    Issue {
        id: format!("id-{id}"),
        identifier: id.to_string(),
        title: format!("title {id}"),
        url: format!("https://linear.app/x/issue/{id}"),
        priority: None,
        priority_label: None,
        updated_at: None,
        state: None,
        assignee: None,
        team: None,
    }
}

fn key(code: KeyCode) -> Key {
    Key { code, ctrl: false }
}

fn ch(c: char) -> Key {
    key(KeyCode::Char(c))
}

#[test]
fn readme_key_table() {
    let app = app_with(1);
    assert_eq!(handle(ch('q'), &app), Some(Action::Quit));
    assert_eq!(handle(key(KeyCode::Esc), &app), Some(Action::Quit));
    assert_eq!(handle(Key { code: KeyCode::Char('c'), ctrl: true }, &app), Some(Action::Quit));
    assert_eq!(handle(ch('c'), &app), None);
    assert_eq!(handle(ch('r'), &app), Some(Action::Refresh));
    assert_eq!(handle(key(KeyCode::Up), &app), Some(Action::Up));
    assert_eq!(handle(ch('k'), &app), Some(Action::Up));
    assert_eq!(handle(key(KeyCode::Down), &app), Some(Action::Down));
    assert_eq!(handle(ch('j'), &app), Some(Action::Down));
    assert_eq!(handle(key(KeyCode::PageUp), &app), Some(Action::PageUp));
    assert_eq!(handle(key(KeyCode::PageDown), &app), Some(Action::PageDown));
    assert_eq!(handle(ch('g'), &app), Some(Action::Home));
    assert_eq!(handle(key(KeyCode::Home), &app), Some(Action::Home));
    assert_eq!(handle(ch('G'), &app), Some(Action::End));
    assert_eq!(handle(key(KeyCode::End), &app), Some(Action::End));
    assert_eq!(handle(key(KeyCode::Enter), &app), Some(Action::OpenInBrowser));
    assert_eq!(handle(ch('o'), &app), Some(Action::OpenInBrowser));
    assert_eq!(handle(key(KeyCode::Tab), &app), Some(Action::NextTab));
    assert_eq!(handle(key(KeyCode::BackTab), &app), Some(Action::PrevTab));
    assert_eq!(handle(key(KeyCode::Other), &app), None);
    assert_eq!(handle(ch('x'), &app), None);
}

#[test]
fn digit_keys_pick_tabs() {
    let app = app_with(1);
    assert_eq!(handle(ch('1'), &app), Some(Action::SwitchTab(0)));
    assert_eq!(handle(ch('5'), &app), Some(Action::SwitchTab(4)));
    assert_eq!(handle(ch('9'), &app), Some(Action::SwitchTab(8)));
    assert_eq!(handle(ch('0'), &app), None);
}

#[test]
fn quit_ignores_control_for_q() {
    let app = app_with(1);
    assert_eq!(handle(Key { code: KeyCode::Char('q'), ctrl: true }, &app), Some(Action::Quit));
}

#[test]
fn apply_quit_refresh_open_leave_state() {
    let mut app = app_with(2);
    assert_eq!(apply(Action::Quit, &mut app), Effect::Quit);
    assert_eq!(apply(Action::Refresh, &mut app), Effect::Refresh);
    assert_eq!(apply(Action::OpenInBrowser, &mut app), Effect::OpenFocused);
    assert_eq!(app.active_tab, 0);
    assert_eq!(app.status, "");
}

#[test]
fn next_then_prev_returns_to_tab() {
    let mut app = app_with(3);
    assert_eq!(apply(Action::NextTab, &mut app), Effect::Refresh);
    assert_eq!(app.active_tab, 1);
    assert_eq!(app.status, "loading T1…");
    apply(Action::PrevTab, &mut app);
    assert_eq!(app.active_tab, 0);
}

#[test]
fn cycling_wraps_both_ways() {
    let mut app = app_with(3);
    apply(Action::PrevTab, &mut app);
    assert_eq!(app.active_tab, 2);
    apply(Action::NextTab, &mut app);
    assert_eq!(app.active_tab, 0);
}

#[test]
fn switch_to_fetched_tab_needs_no_refresh() {
    let mut app = app_with(2);
    app.finish_refresh(1, Ok(vec![issue("ENG-1")]), std::time::Instant::now());
    app.status = "before".to_string();
    assert_eq!(apply(Action::SwitchTab(1), &mut app), Effect::Idle);
    assert_eq!(app.active_tab, 1);
    assert_eq!(app.status, "before");
}

#[test]
fn switch_out_of_range_keeps_tab_but_refreshes_unfetched_active() {
    let mut app = app_with(2);
    assert_eq!(apply(Action::SwitchTab(7), &mut app), Effect::Refresh);
    assert_eq!(app.active_tab, 0);
    assert_eq!(app.status, "");
}

#[test]
fn movement_actions_move_the_cursor() {
    let mut app = app_with(1);
    let issues: Vec<Issue> = (0..25).map(|i| issue(&format!("ENG-{i}"))).collect();
    app.finish_refresh(0, Ok(issues), std::time::Instant::now());
    assert_eq!(apply(Action::Down, &mut app), Effect::Idle);
    assert_eq!(app.tabs[0].selected, 1);
    apply(Action::PageDown, &mut app);
    assert_eq!(app.tabs[0].selected, 11);
    apply(Action::Up, &mut app);
    assert_eq!(app.tabs[0].selected, 10);
    apply(Action::End, &mut app);
    assert_eq!(app.tabs[0].selected, 24);
    apply(Action::PageDown, &mut app);
    assert_eq!(app.tabs[0].selected, 24);
    apply(Action::PageUp, &mut app);
    assert_eq!(app.tabs[0].selected, 14);
    apply(Action::Home, &mut app);
    assert_eq!(app.tabs[0].selected, 0);
    apply(Action::Up, &mut app);
    assert_eq!(app.tabs[0].selected, 0);
}

#[test]
fn only_presses_act() {
    let app = app_with(1);
    assert_eq!(press_action(ch('q'), true, &app), Some(Action::Quit));
    assert_eq!(press_action(ch('q'), false, &app), None);
    assert_eq!(press_action(ch('x'), true, &app), None);
}
