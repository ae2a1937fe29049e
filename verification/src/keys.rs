//! Keyboard chord → action, and what an action does to the state.

use vstd::prelude::*;

use crate::app::{jumped, moved, switched, App};

verus! {

/// The keys the viewer tells apart.
#[derive(Debug, Clone, Copy, PartialEq, Eq)]
pub enum KeyCode {
    Char(char),
    Esc,
    Enter,
    Tab,
    BackTab,
    Up,
    Down,
    PageUp,
    PageDown,
    Home,
    End,
    /// Any other key.
    Other,
}

/// A key press: the key and whether Control was held.
#[derive(Debug, Clone, Copy, PartialEq, Eq)]
pub struct Key {
    pub code: KeyCode,
    pub ctrl: bool,
}

/// What a key asks for.
#[derive(Debug, Clone, Copy, PartialEq, Eq)]
pub enum Action {
    Quit,
    Refresh,
    Up,
    Down,
    PageUp,
    PageDown,
    Home,
    End,
    OpenInBrowser,
    SwitchTab(usize),
    NextTab,
    PrevTab,
}

/// The key table: `q`/`Esc`/`Ctrl+C` quit, `r` refreshes, arrows and
/// `k`/`j` move, `PgUp`/`PgDn` jump, `Home`/`g` and `End`/`G` go to the
/// ends, `Enter`/`o` open, `Tab`/`BackTab` cycle, `1`-`9` pick a tab.
pub open spec fn action_for(k: Key) -> Option<Action> {
    match k.code {
        KeyCode::Char(c) => {
            if c == 'q' {
                Some(Action::Quit)
            } else if c == 'c' && k.ctrl {
                Some(Action::Quit)
            } else if c == 'r' {
                Some(Action::Refresh)
            } else if c == 'k' {
                Some(Action::Up)
            } else if c == 'j' {
                Some(Action::Down)
            } else if c == 'g' {
                Some(Action::Home)
            } else if c == 'G' {
                Some(Action::End)
            } else if c == 'o' {
                Some(Action::OpenInBrowser)
            } else if '1' <= c <= '9' {
                Some(Action::SwitchTab((c as u32 - '1' as u32) as usize))
            } else {
                None
            }
        },
        KeyCode::Esc => Some(Action::Quit),
        KeyCode::Up => Some(Action::Up),
        KeyCode::Down => Some(Action::Down),
        KeyCode::PageUp => Some(Action::PageUp),
        KeyCode::PageDown => Some(Action::PageDown),
        KeyCode::Home => Some(Action::Home),
        KeyCode::End => Some(Action::End),
        KeyCode::Enter => Some(Action::OpenInBrowser),
        KeyCode::Tab => Some(Action::NextTab),
        KeyCode::BackTab => Some(Action::PrevTab),
        KeyCode::Other => None,
    }
}

/// The action bound to `key`, if any.
pub fn handle(key: Key, _app: &App) -> (r: Option<Action>)
    ensures
        r == action_for(key),
{
    match key.code {
        KeyCode::Char(c) => {
            if c == 'q' {
                Some(Action::Quit)
            } else if c == 'c' && key.ctrl {
                Some(Action::Quit)
            } else if c == 'r' {
                Some(Action::Refresh)
            } else if c == 'k' {
                Some(Action::Up)
            } else if c == 'j' {
                Some(Action::Down)
            } else if c == 'g' {
                Some(Action::Home)
            } else if c == 'G' {
                Some(Action::End)
            } else if c == 'o' {
                Some(Action::OpenInBrowser)
            } else if '1' <= c && c <= '9' {
                Some(Action::SwitchTab((c as u32 - '1' as u32) as usize))
            } else {
                None
            }
        },
        KeyCode::Esc => Some(Action::Quit),
        KeyCode::Up => Some(Action::Up),
        KeyCode::Down => Some(Action::Down),
        KeyCode::PageUp => Some(Action::PageUp),
        KeyCode::PageDown => Some(Action::PageDown),
        KeyCode::Home => Some(Action::Home),
        KeyCode::End => Some(Action::End),
        KeyCode::Enter => Some(Action::OpenInBrowser),
        KeyCode::Tab => Some(Action::NextTab),
        KeyCode::BackTab => Some(Action::PrevTab),
        KeyCode::Other => None,
    }
}

/// The action of one key event: only presses act (releases and repeats
/// reported by the terminal are ignored).
pub fn press_action(key: Key, pressed: bool, app: &App) -> (r: Option<Action>)
    ensures
        r == if pressed {
            action_for(key)
        } else {
            None
        },
{
    if pressed {
        handle(key, app)
    } else {
        None
    }
}

/// The work an action leaves for the caller.
#[derive(Debug, Clone, Copy, PartialEq, Eq)]
pub enum Effect {
    /// Leave the viewer.
    Quit,
    /// Fetch the active tab.
    Refresh,
    /// Open the focused issue in a browser.
    OpenFocused,
    /// Nothing more.
    Idle,
}

/// The tab after `i` of `n`, wrapping to the first.
pub open spec fn next_tab(i: nat, n: nat) -> nat {
    (i + 1) % n
}

/// The tab before `i` of `n`, wrapping to the last.
pub open spec fn prev_tab(i: nat, n: nat) -> nat {
    if i == 0 {
        (n - 1) as nat
    } else {
        (i - 1) as nat
    }
}

/// After a tab change, a tab that was never fetched is fetched.
pub open spec fn effect_after_switch(app: App) -> Effect {
    if app.active_tab_state().last_fetched is None {
        Effect::Refresh
    } else {
        Effect::Idle
    }
}

/// Row steps of the paging actions.
pub const PAGE_ROWS: isize = 10;

/// Carries out `action` on the state and says what is left to do.
#[verifier::spinoff_prover]
pub fn apply(action: Action, app: &mut App) -> (r: Effect)
    requires
        old(app).wf(),
    ensures
        final(app).wf(),
        final(app).tabs.len() == old(app).tabs.len(),
        match action {
            Action::Quit => r == Effect::Quit && *final(app) == *old(app),
            Action::Refresh => r == Effect::Refresh && *final(app) == *old(app),
            Action::OpenInBrowser => r == Effect::OpenFocused && *final(app) == *old(app),
            Action::Up => r == Effect::Idle && moved(*old(app), *final(app), -1),
            Action::Down => r == Effect::Idle && moved(*old(app), *final(app), 1),
            Action::PageUp => r == Effect::Idle && moved(*old(app), *final(app), -10),
            Action::PageDown => r == Effect::Idle && moved(*old(app), *final(app), 10),
            Action::Home => r == Effect::Idle && jumped(*old(app), *final(app), 0),
            Action::End => r == Effect::Idle && jumped(
                *old(app),
                *final(app),
                old(app).active_tab_state().issues.len() - 1,
            ),
            Action::NextTab => {
                &&& switched(
                    *old(app),
                    *final(app),
                    next_tab(old(app).active_tab as nat, old(app).tabs.len() as nat) as usize,
                )
                &&& final(app).active_tab == if old(app).active_tab + 1 < old(app).tabs.len() {
                    old(app).active_tab + 1
                } else {
                    0
                }
                &&& r == effect_after_switch(*final(app))
            },
            Action::PrevTab => {
                &&& switched(
                    *old(app),
                    *final(app),
                    prev_tab(old(app).active_tab as nat, old(app).tabs.len() as nat) as usize,
                )
                &&& final(app).active_tab == if old(app).active_tab == 0 {
                    old(app).tabs.len() - 1
                } else {
                    old(app).active_tab - 1
                }
                &&& r == effect_after_switch(*final(app))
            },
            Action::SwitchTab(i) => {
                &&& switched(*old(app), *final(app), i)
                &&& r == effect_after_switch(*final(app))
            },
        },
{
    proof {
        assert(app.tabs@[app.active_tab as int].fits_in_memory());
    }
    match action {
        Action::Quit => Effect::Quit,
        Action::Refresh => Effect::Refresh,
        Action::OpenInBrowser => Effect::OpenFocused,
        Action::Up => {
            app.move_selection(-1);
            Effect::Idle
        },
        Action::Down => {
            app.move_selection(1);
            Effect::Idle
        },
        Action::PageUp => {
            app.move_selection(-PAGE_ROWS);
            Effect::Idle
        },
        Action::PageDown => {
            app.move_selection(PAGE_ROWS);
            Effect::Idle
        },
        Action::Home => {
            app.jump_selection(false);
            Effect::Idle
        },
        Action::End => {
            app.jump_selection(true);
            Effect::Idle
        },
        Action::NextTab => {
            let next: usize = (app.active_tab + 1) % app.tabs.len();
            proof {
                lemma_cycling_stays_in_range(app.active_tab as nat, app.tabs.len() as nat);
                if app.tabs.len() > 1 {
                    lemma_cycling_moves(app.active_tab as nat, app.tabs.len() as nat);
                } else {
                    assert((app.active_tab + 1) % 1 == 0) by (nonlinear_arith);
                }
            }
            app.switch_tab(next);
            refresh_if_unfetched(app)
        },
        Action::PrevTab => {
            let prev: usize = if app.active_tab == 0 {
                app.tabs.len() - 1
            } else {
                app.active_tab - 1
            };
            app.switch_tab(prev);
            refresh_if_unfetched(app)
        },
        Action::SwitchTab(i) => {
            app.switch_tab(i);
            refresh_if_unfetched(app)
        },
    }
}

/// `Refresh` when the active tab was never fetched, else `Idle`.
fn refresh_if_unfetched(app: &App) -> (r: Effect)
    requires
        app.wf(),
    ensures
        r == effect_after_switch(*app),
{
    if app.tabs[app.active_tab].last_fetched.is_none() {
        Effect::Refresh
    } else {
        Effect::Idle
    }
}

/// Cycling forward one tab and then back one lands on the starting tab.
pub proof fn lemma_prev_undoes_next(i: nat, n: nat)
    requires
        i < n,
    ensures
        prev_tab(next_tab(i, n), n) == i,
{
    if i + 1 < n {
        assert((i + 1) % n == i + 1) by (nonlinear_arith)
            requires
                i + 1 < n,
        ;
    } else {
        assert((i + 1) % n == 0) by (nonlinear_arith)
            requires
                i + 1 == n,
        ;
    }
}

/// Cycling back one tab and then forward one lands on the starting tab.
pub proof fn lemma_next_undoes_prev(i: nat, n: nat)
    requires
        i < n,
    ensures
        next_tab(prev_tab(i, n), n) == i,
{
    if i == 0 {
        assert(n % n == 0) by (nonlinear_arith)
            requires
                n > 0,
        ;
    } else {
        assert(i % n == i) by (nonlinear_arith)
            requires
                i < n,
        ;
    }
}

/// Both cycling directions stay on an existing tab.
pub proof fn lemma_cycling_stays_in_range(i: nat, n: nat)
    requires
        i < n,
    ensures
        next_tab(i, n) < n,
        prev_tab(i, n) < n,
{
    assert((i + 1) % n < n) by (nonlinear_arith)
        requires
            n > 0,
    ;
}

/// Keys `1` to `9` pick tabs one to nine, with or without Control.
pub proof fn lemma_digit_picks_tab(c: char, ctrl: bool)
    requires
        '1' <= c <= '9',
    ensures
        action_for(Key { code: KeyCode::Char(c), ctrl }) == Some(
            Action::SwitchTab((c as u32 - '1' as u32) as usize),
        ),
        (c as u32 - '1' as u32) < 9,
{
}

/// `q`, `Esc` and `Ctrl+C` quit.
pub proof fn lemma_quit_keys(ctrl: bool)
    ensures
        action_for(Key { code: KeyCode::Char('q'), ctrl }) == Some(Action::Quit),
        action_for(Key { code: KeyCode::Esc, ctrl }) == Some(Action::Quit),
        action_for(Key { code: KeyCode::Char('c'), ctrl: true }) == Some(Action::Quit),
{
}

/// With more than one tab, cycling always leaves the current tab: forward
/// goes to the following tab, or from the last to the first; back goes to
/// the preceding tab, or from the first to the last.
pub proof fn lemma_cycling_moves(i: nat, n: nat)
    requires
        1 < n,
        i < n,
    ensures
        next_tab(i, n) != i,
        prev_tab(i, n) != i,
        i + 1 < n ==> next_tab(i, n) == i + 1,
        i + 1 == n ==> next_tab(i, n) == 0,
        i > 0 ==> prev_tab(i, n) == i - 1,
        i == 0 ==> prev_tab(i, n) == n - 1,
{
    if i + 1 < n {
        assert((i + 1) % n == i + 1) by (nonlinear_arith)
            requires
                i + 1 < n,
        ;
    } else {
        assert((i + 1) % n == 0) by (nonlinear_arith)
            requires
                i + 1 == n,
        ;
    }
}

} // verus!
