//! The viewer's state: one entry per configured tab, the active tab,
//! each tab's selection, and the status line.
//!
//! Fetching issues and opening a browser happen outside; the state
//! machine hands out what to fetch or open and records what came back.

use vstd::prelude::*;

use crate::config::{Config, Tab};
use crate::linear::Issue;
use crate::text::{decimal, push_decimal};

verus! {

/// `std::time::Instant`, declared so that the time of a fetch can be
/// recorded; nothing inside a value is visible here.
#[verifier::external_type_specification]
#[verifier::external_body]
pub struct ExInstant(std::time::Instant);

/// How many issues one fetch asks for (results are not paged further).
pub const FETCH_LIMIT: u32 = 100;

/// Where a tab's issues come from.
#[derive(Debug, Clone)]
pub enum TabSource {
    /// A filter object for the `issues(filter: ...)` query.
    Filter(serde_json::Value),
    /// A saved view, by id.
    View(String),
}

/// Whether a JSON value is the empty object `{}`.
pub uninterp spec fn json_is_empty_object(v: serde_json::Value) -> bool;

/// An empty JSON object, `{}`: calls `serde_json::Map::new` and wraps the
/// map as `serde_json::Value::Object`. The contract claims only that the
/// value is the empty object (`Map::new` makes a map with no members).
#[verifier::external_body]
fn empty_filter() -> (v: serde_json::Value)
    ensures
        json_is_empty_object(v),
{
    serde_json::Value::Object(serde_json::Map::new())
}

/// The source a tab is loaded from: its view when it names one, else its
/// filter, else (for a tab that validation would refuse) the empty filter `{}`.
pub open spec fn source_for(t: Tab, s: TabSource) -> bool {
    match t.view_id {
        Some(v) => s matches TabSource::View(id) && id@ == v@,
        None => match t.filter {
            Some(f) => s == TabSource::Filter(f),
            None => s matches TabSource::Filter(f) && json_is_empty_object(f),
        },
    }
}

/// The source of tab `t`.
pub fn source_of(t: &Tab) -> (s: TabSource)
    ensures
        source_for(*t, s),
{
    if let Some(view_id) = &t.view_id {
        TabSource::View(view_id.clone())
    } else if let Some(filter) = &t.filter {
        TabSource::Filter(filter.clone())
    } else {
        TabSource::Filter(empty_filter())
    }
}

impl TabSource {
    /// An equal copy of this source.
    pub fn duplicate(&self) -> (r: TabSource)
        ensures
            r == *self,
    {
        match self {
            TabSource::Filter(f) => TabSource::Filter(f.clone()),
            TabSource::View(id) => TabSource::View(id.clone()),
        }
    }
}

/// One tab: its issues and where the cursor is.
pub struct TabState {
    pub name: String,
    pub source: TabSource,
    pub issues: Vec<Issue>,
    pub selected: usize,
    pub last_fetched: Option<std::time::Instant>,
    pub last_error: Option<String>,
}

impl TabState {
    /// The cursor is on an issue, or at 0 when there is none.
    pub open spec fn selection_ok(self) -> bool {
        self.selected == 0 || self.selected < self.issues.len()
    }

    /// The issue list is no longer than memory allows: an issue takes
    /// more than two bytes, and no allocation exceeds `isize::MAX` bytes.
    pub open spec fn fits_in_memory(self) -> bool {
        self.issues.len() <= isize::MAX / 2
    }
}

/// `t` with its cursor at `s`, all else equal.
pub open spec fn with_selected(t: TabState, s: usize) -> TabState {
    TabState {
        name: t.name,
        source: t.source,
        issues: t.issues,
        selected: s,
        last_fetched: t.last_fetched,
        last_error: t.last_error,
    }
}

/// `x` held to `lo..=hi` (`Ord::clamp`).
pub open spec fn clamp(x: int, lo: int, hi: int) -> int {
    if x < lo {
        lo
    } else if x > hi {
        hi
    } else {
        x
    }
}

/// The tab as it stands right after a successful fetch of `issues` at `now`.
pub open spec fn refreshed(
    t: TabState,
    issues: Vec<Issue>,
    now: std::time::Instant,
) -> TabState {
    TabState {
        name: t.name,
        source: t.source,
        issues: issues,
        selected: if issues.len() == 0 {
            0
        } else if t.selected < issues.len() - 1 {
            t.selected
        } else {
            (issues.len() - 1) as usize
        },
        last_fetched: Some(now),
        last_error: None,
    }
}

/// The tab as it stands right after a failed fetch.
pub open spec fn failed(t: TabState, e: String) -> TabState {
    TabState {
        name: t.name,
        source: t.source,
        issues: t.issues,
        selected: t.selected,
        last_fetched: t.last_fetched,
        last_error: Some(e),
    }
}

/// A tab freshly made from its configuration entry.
pub open spec fn fresh_tab(t: Tab, s: TabState) -> bool {
    &&& s.name@ == t.name@
    &&& source_for(t, s.source)
    &&& s.issues@.len() == 0
    &&& s.selected == 0
    &&& s.last_fetched is None
    &&& s.last_error is None
}

/// Status text while tab `name` loads for the first time.
pub open spec fn loading_text(name: Seq<char>) -> Seq<char> {
    "loading "@ + name + "…"@
}

/// Status text while tab `name` is being fetched.
pub open spec fn refreshing_text(name: Seq<char>) -> Seq<char> {
    "refreshing "@ + name + "…"@
}

/// Status text after tab `name` fetched `n` issues.
pub open spec fn fetched_text(name: Seq<char>, n: nat) -> Seq<char> {
    name + " · "@ + decimal(n) + " issues"@
}

/// The whole viewer state.
pub struct App {
    pub cfg: Config,
    pub tabs: Vec<TabState>,
    pub active_tab: usize,
    pub status: String,
}

/// `new` is `old` after `switch_tab(idx)`.
pub open spec fn switched(old: App, new: App, idx: usize) -> bool {
    &&& new.cfg == old.cfg
    &&& new.tabs@ == old.tabs@
    &&& if idx < old.tabs.len() {
        &&& new.active_tab == idx
        &&& if old.tabs@[idx as int].last_fetched is None {
            new.status@ == loading_text(old.tabs@[idx as int].name@)
        } else {
            new.status == old.status
        }
    } else {
        &&& new.active_tab == old.active_tab
        &&& new.status == old.status
    }
}

/// `new` is `old` after `move_selection(delta)`.
pub open spec fn moved(old: App, new: App, delta: int) -> bool {
    let a = old.active_tab as int;
    let t = old.tabs@[a];
    &&& new.cfg == old.cfg
    &&& new.active_tab == old.active_tab
    &&& new.status == old.status
    &&& if t.issues.len() == 0 {
        new.tabs@ == old.tabs@
    } else {
        new.tabs@ == old.tabs@.update(
            a,
            with_selected(t, clamp(t.selected + delta, 0, t.issues.len() - 1) as usize),
        )
    }
}

/// `new` is `old` with the active tab's cursor put on issue `idx` (for a
/// tab with issues; a tab without issues is left as it is).
pub open spec fn jumped(old: App, new: App, idx: int) -> bool {
    let a = old.active_tab as int;
    let t = old.tabs@[a];
    &&& new.cfg == old.cfg
    &&& new.active_tab == old.active_tab
    &&& new.status == old.status
    &&& if t.issues.len() == 0 {
        new.tabs@ == old.tabs@
    } else {
        new.tabs@ == old.tabs@.update(a, with_selected(t, idx as usize))
    }
}

impl App {
    /// At least one tab, the active one exists, every cursor in range, every
    /// issue list within memory.
    pub open spec fn wf(self) -> bool {
        &&& self.tabs.len() > 0
        &&& self.active_tab < self.tabs.len()
        &&& forall|i: int|
            0 <= i < self.tabs.len() ==> (#[trigger] self.tabs@[i]).selection_ok()
                && self.tabs@[i].fits_in_memory()
    }

    /// The active tab.
    pub open spec fn active_tab_state(self) -> TabState {
        self.tabs@[self.active_tab as int]
    }

    /// The state for `cfg`, before any fetch: one fresh tab per
    /// configured tab, the first one active, an empty status line.
    pub fn new(cfg: Config) -> (app: App)
        requires
            cfg.tabs.len() > 0,
        ensures
            app.wf(),
            app.cfg == cfg,
            app.tabs.len() == cfg.tabs.len(),
            forall|i: int| 0 <= i < cfg.tabs.len() ==> fresh_tab(cfg.tabs@[i], #[trigger] app.tabs@[i]),
            app.active_tab == 0,
            app.status@ == Seq::<char>::empty(),
    {
        let n: usize = cfg.tabs.len();
        let mut tabs: Vec<TabState> = Vec::new();
        for i in 0..n
            invariant
                n == cfg.tabs.len(),
                tabs.len() == i,
                forall|j: int| 0 <= j < i ==> fresh_tab(cfg.tabs@[j], #[trigger] tabs@[j]),
        {
            let t = &cfg.tabs[i];
            tabs.push(
                TabState {
                    name: t.name.clone(),
                    source: source_of(t),
                    issues: Vec::new(),
                    selected: 0,
                    last_fetched: None,
                    last_error: None,
                },
            );
        }
        App { cfg, tabs, active_tab: 0, status: String::new() }
    }

    /// The active tab.
    pub fn active(&self) -> (t: &TabState)
        requires
            self.wf(),
        ensures
            *t == self.active_tab_state(),
    {
        &self.tabs[self.active_tab]
    }

    /// Makes tab `idx` active when it exists; a tab that was never
    /// fetched shows "loading …" in the status line.
    pub fn switch_tab(&mut self, idx: usize)
        requires
            old(self).wf(),
        ensures
            final(self).wf(),
            switched(*old(self), *final(self), idx),
    {
        if idx < self.tabs.len() {
            self.active_tab = idx;
            if self.tabs[idx].last_fetched.is_none() {
                let mut s = String::from_str("loading ");
                s.append(self.tabs[idx].name.as_str());
                s.append("…");
                self.status = s;
            }
        }
    }

    /// Moves the active tab's cursor by `delta`, held to the first and
    /// last issue; nothing happens on a tab without issues. The cursor
    /// plus `delta` must fit in an `isize`.
    pub fn move_selection(&mut self, delta: isize)
        requires
            old(self).wf(),
            old(self).active_tab_state().issues.len() > 0 ==> old(self).active_tab_state().selected
                + delta <= isize::MAX,
        ensures
            final(self).wf(),
            moved(*old(self), *final(self), delta as int),
    {
        let a: usize = self.active_tab;
        let len: usize = self.tabs[a].issues.len();
        if len == 0 {
            return;
        }
        let s: i128 = self.tabs[a].selected as i128 + delta as i128;
        let hi: i128 = len as i128 - 1;
        let new: usize = if s < 0 {
            0
        } else if s > hi {
            (len - 1) as usize
        } else {
            s as usize
        };
        self.tabs[a].selected = new;
    }
    /// Puts the active tab's cursor on its first issue, or on its last one
    /// when `to_end`; nothing happens on a tab without issues.
    pub fn jump_selection(&mut self, to_end: bool)
        requires
            old(self).wf(),
        ensures
            final(self).wf(),
            jumped(
                *old(self),
                *final(self),
                if to_end {
                    old(self).active_tab_state().issues.len() - 1
                } else {
                    0
                },
            ),
    {
        let a: usize = self.active_tab;
        let len: usize = self.tabs[a].issues.len();
        if len == 0 {
            return;
        }
        self.tabs[a].selected = if to_end {
            len - 1
        } else {
            0
        };
    }

    /// The active tab, for changing in place.
    pub fn active_mut(&mut self) -> (t: &mut TabState)
        requires
            old(self).wf(),
        ensures
            *t == old(self).active_tab_state(),
            final(self).tabs@ == old(self).tabs@.update(old(self).active_tab as int, *final(t)),
            final(self).active_tab == old(self).active_tab,
            final(self).cfg == old(self).cfg,
            final(self).status == old(self).status,
    {
        let a: usize = self.active_tab;
        &mut self.tabs[a]
    }

    /// Starts a fetch of the active tab: says so in the status line and
    /// hands out the tab's index, its source and how many issues to ask for.
    pub fn start_refresh(&mut self) -> (r: (usize, TabSource, u32))
        requires
            old(self).wf(),
        ensures
            final(self).wf(),
            r.0 == old(self).active_tab,
            r.1 == old(self).active_tab_state().source,
            r.2 == FETCH_LIMIT,
            final(self).status@ == refreshing_text(old(self).active_tab_state().name@),
            final(self).cfg == old(self).cfg,
            final(self).tabs@ == old(self).tabs@,
            final(self).active_tab == old(self).active_tab,
    {
        let idx: usize = self.active_tab;
        let source = self.tabs[idx].source.duplicate();
        let mut s = String::from_str("refreshing ");
        s.append(self.tabs[idx].name.as_str());
        s.append("…");
        self.status = s;
        (idx, source, FETCH_LIMIT)
    }

    /// Records the outcome of the fetch of tab `idx` that finished at `now`.
    ///
    /// On success the tab holds the new issues, its cursor is kept but held
    /// to the last issue, and its error is cleared; on failure its issues
    /// stay and it keeps the error. The status line says which.
    pub fn finish_refresh(
        &mut self,
        idx: usize,
        outcome: Result<Vec<Issue>, String>,
        now: std::time::Instant,
    )
        requires
            old(self).wf(),
            idx < old(self).tabs.len(),
            outcome matches Ok(issues) ==> issues.len() <= isize::MAX / 2,
        ensures
            final(self).wf(),
            final(self).cfg == old(self).cfg,
            final(self).active_tab == old(self).active_tab,
            match outcome {
                Ok(issues) => {
                    &&& final(self).tabs@ == old(self).tabs@.update(
                        idx as int,
                        refreshed(old(self).tabs@[idx as int], issues, now),
                    )
                    &&& final(self).status@ == fetched_text(
                        old(self).tabs@[idx as int].name@,
                        issues.len() as nat,
                    )
                },
                Err(e) => {
                    &&& final(self).tabs@ == old(self).tabs@.update(
                        idx as int,
                        failed(old(self).tabs@[idx as int], e),
                    )
                    &&& final(self).status@ == "error: "@ + e@
                },
            },
    {
        match outcome {
            Ok(issues) => {
                let n: usize = issues.len();
                let sel: usize = self.tabs[idx].selected;
                let last: usize = if n == 0 {
                    0
                } else {
                    n - 1
                };
                let new_sel: usize = if sel < last {
                    sel
                } else {
                    last
                };
                let mut s = self.tabs[idx].name.clone();
                s.append(" · ");
                push_decimal(&mut s, n);
                s.append(" issues");
                self.tabs[idx].issues = issues;
                self.tabs[idx].last_fetched = Some(now);
                self.tabs[idx].last_error = None;
                self.tabs[idx].selected = new_sel;
                self.status = s;
            },
            Err(e) => {
                let mut s = String::from_str("error: ");
                s.append(e.as_str());
                self.tabs[idx].last_error = Some(e);
                self.status = s;
            },
        }
    }

    /// The issue under the cursor of the active tab, if any.
    pub fn focused_issue(&self) -> (r: Option<&Issue>)
        requires
            self.wf(),
        ensures
            self.active_tab_state().selected < self.active_tab_state().issues.len() ==> (r matches Some(
                i,
            ) && *i == self.active_tab_state().issues@[self.active_tab_state().selected as int]),
            self.active_tab_state().selected >= self.active_tab_state().issues.len() ==> r is None,
    {
        let t = &self.tabs[self.active_tab];
        if t.selected < t.issues.len() {
            Some(&t.issues[t.selected])
        } else {
            None
        }
    }

    /// Records in the status line whether opening the focused issue in a
    /// browser worked.
    pub fn record_open(&mut self, outcome: Result<(), String>)
        requires
            old(self).wf(),
            old(self).active_tab_state().selected < old(self).active_tab_state().issues.len(),
        ensures
            final(self).wf(),
            final(self).cfg == old(self).cfg,
            final(self).tabs@ == old(self).tabs@,
            final(self).active_tab == old(self).active_tab,
            match outcome {
                Ok(()) => final(self).status@ == "opened "@ + old(self).active_tab_state().issues@[old(
                    self,
                ).active_tab_state().selected as int].identifier@ + " in browser"@,
                Err(e) => final(self).status@ == "open failed: "@ + e@,
            },
    {
        match outcome {
            Ok(()) => {
                let t = &self.tabs[self.active_tab];
                let mut s = String::from_str("opened ");
                s.append(t.issues[t.selected].identifier.as_str());
                s.append(" in browser");
                self.status = s;
            },
            Err(e) => {
                let mut s = String::from_str("open failed: ");
                s.append(e.as_str());
                self.status = s;
            },
        }
    }
}

/// Moving the cursor never leaves the active tab's issue list, and moving
/// by `d` and then by `-d` inside the list returns to the start.
pub proof fn lemma_move_back_and_forth(a: App, b: App, c: App, d: int)
    requires
        a.wf(),
        moved(a, b, d),
        moved(b, c, -d),
        0 <= a.active_tab_state().selected + d < a.active_tab_state().issues.len(),
    ensures
        c.tabs@ == a.tabs@,
        c.active_tab == a.active_tab,
{
    let t = a.active_tab_state();
    assert(with_selected(with_selected(t, (t.selected + d) as usize), t.selected) == t);
    assert(b.tabs@.update(a.active_tab as int, t) =~= a.tabs@);
}

/// Where a move lands: on the cursor plus `d` while that stays inside the
/// issue list, else on the first or the last issue.
pub proof fn lemma_move_lands(old: App, new: App, d: int)
    requires
        old.wf(),
        moved(old, new, d),
        old.active_tab_state().issues.len() > 0,
    ensures
        ({
            let s = old.active_tab_state().selected as int;
            let n = old.active_tab_state().issues.len() as int;
            let got = new.active_tab_state().selected as int;
            &&& 0 <= s + d < n ==> got == s + d
            &&& s + d < 0 ==> got == 0
            &&& s + d >= n ==> got == n - 1
            &&& 0 <= got < n
        }),
        new.active_tab == old.active_tab,
        new.tabs.len() == old.tabs.len(),
{
}

} // verus!
