//! What the screen shows: the tab strip, the issue table, the status line
//! and their colours, and when the active tab is due for a refresh.

use vstd::prelude::*;

use crate::app::{App, TabState};
use crate::keys::Effect;
use crate::linear::Issue;
use crate::text::{chars_of, decimal, find_char, first_index_of, push_decimal, same_text};
use crate::theme::Color;

verus! {

/// How a piece of text is drawn: its colours (`None` keeps the
/// terminal's), bold, dim.
#[derive(Debug, Clone, Copy, PartialEq, Eq)]
pub struct Style {
    pub fg: Option<Color>,
    pub bg: Option<Color>,
    pub bold: bool,
    pub dim: bool,
}

/// Plain text in colour `c`.
pub open spec fn fg_style(c: Color) -> Style {
    Style { fg: Some(c), bg: None, bold: false, dim: false }
}

/// Plain text in colour `c`.
pub fn fg(c: Color) -> (s: Style)
    ensures
        s == fg_style(c),
{
    Style { fg: Some(c), bg: None, bold: false, dim: false }
}

/// The colour of a workflow state kind.
pub open spec fn state_style(kind: Seq<char>) -> Style {
    if kind == "completed"@ {
        fg_style(Color::Green)
    } else if kind == "canceled"@ {
        fg_style(Color::DarkGray)
    } else if kind == "started"@ {
        fg_style(Color::Cyan)
    } else if kind == "triage"@ {
        fg_style(Color::Yellow)
    } else if kind == "backlog"@ || kind == "unstarted"@ {
        fg_style(Color::White)
    } else {
        fg_style(Color::Gray)
    }
}

/// Workflow state kinds (backlog / unstarted / started / completed /
/// canceled / triage) mapped to a readable colour.
pub fn state_color(kind: &str) -> (s: Style)
    ensures
        s == state_style(kind@),
{
    if same_text(kind, "completed") {
        fg(Color::Green)
    } else if same_text(kind, "canceled") {
        fg(Color::DarkGray)
    } else if same_text(kind, "started") {
        fg(Color::Cyan)
    } else if same_text(kind, "triage") {
        fg(Color::Yellow)
    } else if same_text(kind, "backlog") || same_text(kind, "unstarted") {
        fg(Color::White)
    } else {
        fg(Color::Gray)
    }
}

/// The colour of a priority: 1 urgent, 2 high, 3 medium, 4 low, else none.
pub open spec fn priority_style(p: Option<i32>) -> Style {
    let v = match p {
        Some(v) => v,
        None => 0,
    };
    if v == 1 {
        Style { fg: Some(Color::Red), bg: None, bold: true, dim: false }
    } else if v == 2 {
        fg_style(Color::LightRed)
    } else if v == 3 {
        fg_style(Color::Yellow)
    } else if v == 4 {
        fg_style(Color::DarkGray)
    } else {
        fg_style(Color::Gray)
    }
}

/// Priority (0 = none, 1 = urgent, 2 = high, 3 = medium, 4 = low) → colour.
pub fn priority_color(p: Option<i32>) -> (s: Style)
    ensures
        s == priority_style(p),
{
    let v: i32 = match p {
        Some(v) => v,
        None => 0,
    };
    if v == 1 {
        Style { fg: Some(Color::Red), bg: None, bold: true, dim: false }
    } else if v == 2 {
        fg(Color::LightRed)
    } else if v == 3 {
        fg(Color::Yellow)
    } else if v == 4 {
        fg(Color::DarkGray)
    } else {
        fg(Color::Gray)
    }
}

/// The date part of an ISO 8601 timestamp: everything before the first `T`.
pub open spec fn date_part(s: Seq<char>) -> Seq<char> {
    s.take(first_index_of(s, 'T') as int)
}

/// ISO 8601 timestamp → `YYYY-MM-DD`.
pub fn format_updated(s: &str) -> (r: String)
    ensures
        r@ == date_part(s@),
{
    let v = chars_of(s);
    let k: usize = find_char(&v, 0, v.len(), 'T');
    proof {
        assert(v@.subrange(0, v@.len() as int) =~= v@);
    }
    String::from_str(s.substring_char(0, k))
}

/// The strip label of tab number `i` (counted from 0): `N.name`, with the
/// issue count once the tab has been fetched.
pub open spec fn tab_label(i: nat, t: TabState) -> Seq<char> {
    decimal(i + 1) + "."@ + t.name@ + if t.last_fetched is Some {
        " ("@ + decimal(t.issues.len() as nat) + ")"@
    } else {
        Seq::<char>::empty()
    }
}

/// The labels of the tab strip, in order.
pub fn tab_labels(app: &App) -> (labels: Vec<String>)
    ensures
        labels.len() == app.tabs.len(),
        forall|i: int| 0 <= i < app.tabs.len() ==> #[trigger] labels@[i]@ == tab_label(i as nat, app.tabs@[i]),
{
    let n: usize = app.tabs.len();
    let mut labels: Vec<String> = Vec::new();
    for i in 0..n
        invariant
            n == app.tabs.len(),
            labels.len() == i,
            forall|j: int| 0 <= j < i ==> #[trigger] labels@[j]@ == tab_label(j as nat, app.tabs@[j]),
    {
        let t = &app.tabs[i];
        let mut s = String::new();
        push_decimal(&mut s, i + 1);
        s.append(".");
        s.append(t.name.as_str());
        if t.last_fetched.is_some() {
            s.append(" (");
            push_decimal(&mut s, t.issues.len());
            s.append(")");
        }
        labels.push(s);
    }
    labels
}

/// The tab strip: a bordered block titled ` linear ` holding one label per
/// tab, with the active tab highlighted.
pub struct TabStrip {
    pub title: String,
    pub labels: Vec<String>,
    pub selected: usize,
    pub highlight_style: Style,
}

/// The highlight of the active tab: bold black on cyan.
pub open spec fn tab_highlight_style() -> Style {
    Style { fg: Some(Color::Black), bg: Some(Color::Cyan), bold: true, dim: false }
}

/// The tab strip of `app`.
pub fn tab_strip(app: &App) -> (strip: TabStrip)
    ensures
        strip.title@ == " linear "@,
        strip.labels.len() == app.tabs.len(),
        forall|i: int| 0 <= i < app.tabs.len() ==> #[trigger] strip.labels@[i]@ == tab_label(i as nat, app.tabs@[i]),
        strip.selected == app.active_tab,
        strip.highlight_style == tab_highlight_style(),
{
    TabStrip {
        title: String::from_str(" linear "),
        labels: tab_labels(app),
        selected: app.active_tab,
        highlight_style: Style { fg: Some(Color::Black), bg: Some(Color::Cyan), bold: true, dim: false },
    }
}

/// The cells of one table row.
pub struct IssueRow {
    pub key: String,
    pub key_style: Style,
    pub state: String,
    pub state_style: Style,
    pub priority: String,
    pub priority_style: Style,
    pub assignee: String,
    pub updated: String,
    pub title: String,
}

/// The name shown for an assignee: the display name, or the name when the
/// display name is empty.
pub open spec fn assignee_text(i: Issue) -> Seq<char> {
    match i.assignee {
        Some(a) => if a.display_name@.len() == 0 {
            a.name@
        } else {
            a.display_name@
        },
        None => "—"@,
    }
}

/// `r` is the row shown for issue `i`; absent fields show `?` (state) or `—`.
pub open spec fn row_of(i: Issue, r: IssueRow) -> bool {
    &&& r.key@ == i.identifier@
    &&& r.key_style == fg_style(Color::Yellow)
    &&& r.state@ == match i.state {
        Some(s) => s.name@,
        None => "?"@,
    }
    &&& r.state_style == state_style(
        match i.state {
            Some(s) => s.kind@,
            None => ""@,
        },
    )
    &&& r.priority@ == match i.priority_label {
        Some(l) => l@,
        None => "—"@,
    }
    &&& r.priority_style == priority_style(i.priority)
    &&& r.assignee@ == assignee_text(i)
    &&& r.updated@ == match i.updated_at {
        Some(u) => date_part(u@),
        None => "—"@,
    }
    &&& r.title@ == i.title@
}

/// The row for one issue.
pub fn issue_row(i: &Issue) -> (r: IssueRow)
    ensures
        row_of(*i, r),
{
    let state = match &i.state {
        Some(s) => s.name.clone(),
        None => String::from_str("?"),
    };
    let state_style = match &i.state {
        Some(s) => state_color(s.kind.as_str()),
        None => state_color(""),
    };
    let priority = match &i.priority_label {
        Some(l) => l.clone(),
        None => String::from_str("—"),
    };
    let assignee = match &i.assignee {
        Some(a) => if a.display_name.as_str().unicode_len() == 0 {
            a.name.clone()
        } else {
            a.display_name.clone()
        },
        None => String::from_str("—"),
    };
    let updated = match &i.updated_at {
        Some(u) => format_updated(u.as_str()),
        None => String::from_str("—"),
    };
    IssueRow {
        key: i.identifier.clone(),
        key_style: fg(Color::Yellow),
        state,
        state_style,
        priority,
        priority_style: priority_color(i.priority),
        assignee,
        updated,
        title: i.title.clone(),
    }
}

/// A column's width: exactly `n` cells, or at least `n`.
#[derive(Debug, Clone, Copy, PartialEq, Eq)]
pub enum Width {
    Length(u16),
    Min(u16),
}

/// The issue table: a bordered block titled ` name `, a header row, one
/// row per issue, and the cursor's row highlighted and marked.
pub struct IssueTable {
    pub title: String,
    pub header: Vec<String>,
    pub header_style: Style,
    pub widths: Vec<Width>,
    pub rows: Vec<IssueRow>,
    pub selected: usize,
    pub highlight_style: Style,
    pub highlight_symbol: String,
}

/// What the table area shows for a tab.
pub enum TableView {
    /// The last fetch failed: the message, with a hint to retry.
    Failed { text: String, style: Style },
    /// Fetched, and nothing matched: the note to show.
    NoMatches { text: String, style: Style },
    /// Not fetched yet: the note to show.
    Loading { text: String, style: Style },
    /// The issues.
    Rows(IssueTable),
}

/// The text shown for a failed fetch.
pub open spec fn failed_text(e: Seq<char>) -> Seq<char> {
    "error: "@ + e + "\n\nPress `r` to retry."@
}

/// The header cells of the issue table.
pub open spec fn header_cells() -> Seq<Seq<char>> {
    seq!["KEY"@, "STATE"@, "PRIORITY"@, "ASSIGNEE"@, "UPDATED"@, "TITLE"@]
}

/// The column widths of the issue table.
pub open spec fn column_widths() -> Seq<Width> {
    seq![
        Width::Length(10),
        Width::Length(14),
        Width::Length(10),
        Width::Length(18),
        Width::Length(12),
        Width::Min(20),
    ]
}

/// The table of tab `t`, which has issues.
pub open spec fn table_of(t: TabState, tb: IssueTable) -> bool {
    &&& tb.title@ == " "@ + t.name@ + " "@
    &&& tb.header@.len() == 6
    &&& forall|k: int| 0 <= k < 6 ==> #[trigger] tb.header@[k]@ == header_cells()[k]
    &&& tb.header_style == Style { fg: Some(Color::DarkGray), bg: None, bold: true, dim: false }
    &&& tb.widths@ == column_widths()
    &&& tb.rows.len() == t.issues.len()
    &&& forall|k: int| 0 <= k < tb.rows.len() ==> row_of(t.issues@[k], #[trigger] tb.rows@[k])
    &&& tb.selected == t.selected
    &&& tb.highlight_style == Style { fg: None, bg: Some(Color::DarkGray), bold: true, dim: false }
    &&& tb.highlight_symbol@ == "▸ "@
}

/// The table area for tab `t`: its error in red if the last fetch failed,
/// else a dim note when it has no issues, else its issue table.
pub fn table_view(t: &TabState) -> (v: TableView)
    ensures
        match t.last_error {
            Some(e) => v matches TableView::Failed { text, style } && text@ == failed_text(e@)
                && style == fg_style(Color::Red),
            None => if t.issues.len() == 0 {
                if t.last_fetched is Some {
                    v matches TableView::NoMatches { text, style } && text@
                        == "(no issues match this query)"@ && style == fg_style(Color::DarkGray)
                } else {
                    v matches TableView::Loading { text, style } && text@ == "loading…"@ && style
                        == fg_style(Color::DarkGray)
                }
            } else {
                v matches TableView::Rows(tb) && table_of(*t, tb) && tb.selected == t.selected
                    && tb.rows.len() == t.issues.len()
            },
        },
{
    if let Some(e) = &t.last_error {
        let mut s = String::from_str("error: ");
        s.append(e.as_str());
        s.append("\n\nPress `r` to retry.");
        return TableView::Failed { text: s, style: fg(Color::Red) };
    }
    if t.issues.len() == 0 {
        if t.last_fetched.is_some() {
            return TableView::NoMatches {
                text: String::from_str("(no issues match this query)"),
                style: fg(Color::DarkGray),
            };
        }
        return TableView::Loading { text: String::from_str("loading…"), style: fg(Color::DarkGray) };
    }
    let n: usize = t.issues.len();
    let mut rows: Vec<IssueRow> = Vec::new();
    for k in 0..n
        invariant
            n == t.issues.len(),
            rows.len() == k,
            forall|j: int| 0 <= j < k ==> row_of(t.issues@[j], #[trigger] rows@[j]),
    {
        rows.push(issue_row(&t.issues[k]));
    }
    let mut title = String::from_str(" ");
    title.append(t.name.as_str());
    title.append(" ");
    let header = vec![
        String::from_str("KEY"),
        String::from_str("STATE"),
        String::from_str("PRIORITY"),
        String::from_str("ASSIGNEE"),
        String::from_str("UPDATED"),
        String::from_str("TITLE"),
    ];
    let widths = vec![
        Width::Length(10),
        Width::Length(14),
        Width::Length(10),
        Width::Length(18),
        Width::Length(12),
        Width::Min(20),
    ];
    assert(widths@ =~= column_widths());
    TableView::Rows(
        IssueTable {
            title,
            header,
            header_style: Style { fg: Some(Color::DarkGray), bg: None, bold: true, dim: false },
            widths,
            rows,
            selected: t.selected,
            highlight_style: Style { fg: None, bg: Some(Color::DarkGray), bold: true, dim: false },
            highlight_symbol: String::from_str("▸ "),
        },
    )
}

/// The status line: the status text, then the key hint.
pub struct StatusLine {
    pub text: String,
    pub text_style: Style,
    pub hint: String,
    pub hint_style: Style,
}

/// The key hint shown after the status.
pub open spec fn key_hint() -> Seq<char> {
    " 1-9 tab · ↑↓/jk move · Enter/o open · r refresh · q quit "@
}

/// The status line of `app`: ` status ` in white, then the hint, dim grey.
pub fn status_line(app: &App) -> (line: StatusLine)
    ensures
        line.text@ == " "@ + app.status@ + " "@,
        line.text_style == fg_style(Color::White),
        line.hint@ == key_hint(),
        line.hint_style == (Style { fg: Some(Color::DarkGray), bg: None, bold: false, dim: true }),
{
    let mut text = String::from_str(" ");
    text.append(app.status.as_str());
    text.append(" ");
    StatusLine {
        text,
        text_style: fg(Color::White),
        hint: String::from_str(" 1-9 tab · ↑↓/jk move · Enter/o open · r refresh · q quit "),
        hint_style: Style { fg: Some(Color::DarkGray), bg: None, bold: false, dim: true },
    }
}

/// Whether the active tab is due for its periodic refresh: the interval is
/// not zero and at least that many seconds have passed since the last
/// refresh or handled key.
pub fn refresh_due(interval_secs: u64, elapsed_secs: u64) -> (due: bool)
    ensures
        due == (interval_secs > 0 && elapsed_secs >= interval_secs),
{
    interval_secs > 0 && elapsed_secs >= interval_secs
}

/// Whether the refresh timer starts again after a key event whose action
/// had `effect` (`None` when the key had no action): it does after every
/// action that does not quit.
pub fn timer_restarts(effect: Option<Effect>) -> (restart: bool)
    ensures
        restart == (effect matches Some(e) && e != Effect::Quit),
{
    match effect {
        Some(Effect::Quit) => false,
        Some(_) => true,
        None => false,
    }
}

/// The highlighted row of an issue table is the tab's cursor, and there is
/// one row per issue, each showing that issue's identifier and title.
pub proof fn lemma_table_follows_tab(t: TabState, tb: IssueTable)
    requires
        table_of(t, tb),
    ensures
        tb.selected == t.selected,
        tb.rows.len() == t.issues.len(),
        forall|k: int|
            0 <= k < tb.rows.len() ==> (#[trigger] tb.rows@[k]).key@ == t.issues@[k].identifier@
                && tb.rows@[k].title@ == t.issues@[k].title@,
{
    assert forall|k: int| 0 <= k < tb.rows.len() implies (#[trigger] tb.rows@[k]).key@
        == t.issues@[k].identifier@ && tb.rows@[k].title@ == t.issues@[k].title@ by {
        assert(row_of(t.issues@[k], tb.rows@[k]));
    }
}

/// The date part of a timestamp is the text before its first `T`: a prefix
/// holding no `T`, followed in the timestamp by a `T` unless it is all of it.
pub proof fn lemma_date_part(s: Seq<char>)
    ensures
        date_part(s).len() <= s.len(),
        date_part(s) == s.take(date_part(s).len() as int),
        !date_part(s).contains('T'),
        date_part(s).len() < s.len() ==> s[date_part(s).len() as int] == 'T',
{
    lemma_first_index_of(s, 'T');
    let k = first_index_of(s, 'T') as int;
    assert(date_part(s).len() == k);
    if date_part(s).contains('T') {
        let j = choose|j: int| 0 <= j < date_part(s).len() && date_part(s)[j] == 'T';
        assert(s[j] == 'T');
    }
}

proof fn lemma_first_index_of(s: Seq<char>, c: char)
    ensures
        first_index_of(s, c) <= s.len(),
        forall|j: int| 0 <= j < first_index_of(s, c) ==> s[j] != c,
        first_index_of(s, c) < s.len() ==> s[first_index_of(s, c) as int] == c,
    decreases s.len(),
{
    if s.len() > 0 && s[0] != c {
        lemma_first_index_of(s.drop_first(), c);
        assert forall|j: int| 0 <= j < first_index_of(s, c) implies s[j] != c by {
            if j > 0 {
                assert(s[j] == s.drop_first()[j - 1]);
            }
        }
    }
}

} // verus!
