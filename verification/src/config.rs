//! The configuration: refresh interval and the tab list, and the
//! rules a configuration must meet before the viewer starts.

use vstd::prelude::*;

use crate::text::{decimal, push_decimal};

verus! {

/// `serde_json::Value`, declared so that filter objects can be held and
/// handed on; nothing inside a value is visible here.
#[verifier::external_type_specification]
#[verifier::external_body]
pub struct ExJsonValue(serde_json::Value);

/// `<serde_json::Value as Clone>::clone`: claims that the copy equals the
/// source (`Value`'s `Clone` is derived, member by member).
pub assume_specification[ <serde_json::Value as Clone>::clone ](v: &serde_json::Value) -> (r: serde_json::Value)
    ensures
        r == *v,
;

/// The configured refresh interval when the file names none, in seconds.
pub fn default_refresh() -> (secs: u64)
    ensures
        secs == 60,
{
    60
}

/// The whole configuration.
#[derive(Debug, Clone)]
pub struct Config {
    /// Polling interval. `0` disables auto-refresh; the user can still
    /// press `r` to refresh the active tab.
    pub refresh_interval_secs: u64,
    /// Tab list — at least one required.
    pub tabs: Vec<Tab>,
}

/// One configured tab.
#[derive(Debug, Clone)]
pub struct Tab {
    /// Label shown in the tab strip.
    pub name: String,
    /// A filter object for the `issues(filter: ...)` query; exclusive with `view_id`.
    pub filter: Option<serde_json::Value>,
    /// The id of a saved view; exclusive with `filter`.
    pub view_id: Option<String>,
}

/// Why a configuration was rejected.
#[derive(Debug, Clone)]
pub enum ConfigError {
    /// The tab list is empty.
    NoTabs,
    /// Tab `index` names neither a filter nor a view.
    MissingSource { index: usize, name: String },
    /// Tab `index` names both a filter and a view.
    BothSources { index: usize, name: String },
}

/// A tab is well-formed when it has exactly one of `filter` and `view_id`.
pub open spec fn tab_ok(t: Tab) -> bool {
    t.filter is Some != t.view_id is Some
}

/// Every tab before position `n` is well-formed.
pub open spec fn tabs_ok_before(tabs: Seq<Tab>, n: int) -> bool {
    forall|i: int| 0 <= i < n ==> #[trigger] tab_ok(tabs[i])
}

/// A configuration the viewer accepts: at least one tab, each well-formed.
pub open spec fn config_ok(c: Config) -> bool {
    c.tabs.len() > 0 && tabs_ok_before(c.tabs@, c.tabs.len() as int)
}

impl Config {
    /// The scaffold written on first run.
    pub const EXAMPLE: &'static str = r##"# mnml-tickets-linear config. Edit and re-run.

# Auto-refresh in seconds. 0 disables; user can still press `r`.
refresh_interval_secs = 60

# ── Tabs ─────────────────────────────────────────────────────────
# Each `[[tabs]]` entry is one tab. Either:
#   filter  = <JSON filter object>     (substitute for Linear views)
#   view_id = "abc123def"              (saved Linear view id)
#
# Tabs are switched via 1-9 keys (or click) and ordered left→right
# as listed.
#
# Filter object reference:
#   https://developers.linear.app/docs/graphql/working-with-the-graphql-api/filtering

# All open issues assigned to me, most recent first.
[[tabs]]
name = "Mine"
filter = { assignee = { isMe = { eq = true } }, state = { type = { nin = ["completed", "canceled"] } } }

# This sprint's open issues — replace `team.key` with your team's
# 2-3 letter prefix (e.g. "ENG" for the team whose issues are
# `ENG-1234`).
[[tabs]]
name = "Cycle"
filter = { cycle = { isActive = { eq = true } }, team = { key = { eq = "ENG" } } }

# Issues in a specific saved view (paste the id from the URL).
# [[tabs]]
# name = "Triage"
# view_id = "abc123def456"
"##;

    /// Accepts exactly the configurations of [`config_ok`]; otherwise
    /// reports an empty tab list, or else the first ill-formed tab.
    pub fn validate(&self) -> (r: Result<(), ConfigError>)
        ensures
            r is Ok <==> config_ok(*self),
            self.tabs.len() == 0 ==> r matches Err(ConfigError::NoTabs),
            match r {
                Ok(()) => true,
                Err(ConfigError::NoTabs) => self.tabs.len() == 0,
                Err(ConfigError::MissingSource { index, name }) => {
                    &&& index < self.tabs.len()
                    &&& tabs_ok_before(self.tabs@, index as int)
                    &&& self.tabs@[index as int].filter is None
                    &&& self.tabs@[index as int].view_id is None
                    &&& name@ == self.tabs@[index as int].name@
                },
                Err(ConfigError::BothSources { index, name }) => {
                    &&& index < self.tabs.len()
                    &&& tabs_ok_before(self.tabs@, index as int)
                    &&& self.tabs@[index as int].filter is Some
                    &&& self.tabs@[index as int].view_id is Some
                    &&& name@ == self.tabs@[index as int].name@
                },
            },
    {
        if self.tabs.len() == 0 {
            return Err(ConfigError::NoTabs);
        }
        let n: usize = self.tabs.len();
        for i in 0..n
            invariant
                n == self.tabs.len(),
                tabs_ok_before(self.tabs@, i as int),
        {
            let t = &self.tabs[i];
            match (&t.filter, &t.view_id) {
                (Some(_), None) => {},
                (None, Some(_)) => {},
                (None, None) => {
                    assert(!tab_ok(self.tabs@[i as int]));
                    return Err(ConfigError::MissingSource { index: i, name: t.name.clone() });
                },
                (Some(_), Some(_)) => {
                    assert(!tab_ok(self.tabs@[i as int]));
                    return Err(ConfigError::BothSources { index: i, name: t.name.clone() });
                },
            }
        }
        Ok(())
    }
}

/// The text of a configuration error, as the viewer prints it.
pub open spec fn config_error_text(e: ConfigError) -> Seq<char> {
    match e {
        ConfigError::NoTabs => "config: at least one [[tabs]] entry required"@,
        ConfigError::MissingSource { index, name } => "tab #"@ + decimal(index as nat) + " ("@
            + name@ + "): needs either `filter = {...}` or `view_id = \"...\"`"@,
        ConfigError::BothSources { index, name } => "tab #"@ + decimal(index as nat) + " ("@
            + name@ + "): set EITHER `filter` OR `view_id`, not both"@,
    }
}

impl ConfigError {
    /// The message shown for this error.
    pub fn message(&self) -> (s: String)
        ensures
            s@ == config_error_text(*self),
    {
        match self {
            ConfigError::NoTabs => String::from_str("config: at least one [[tabs]] entry required"),
            ConfigError::MissingSource { index, name } => {
                let mut s = String::from_str("tab #");
                push_decimal(&mut s, *index);
                s.append(" (");
                s.append(name.as_str());
                s.append("): needs either `filter = {...}` or `view_id = \"...\"`");
                s
            },
            ConfigError::BothSources { index, name } => {
                let mut s = String::from_str("tab #");
                push_decimal(&mut s, *index);
                s.append(" (");
                s.append(name.as_str());
                s.append("): set EITHER `filter` OR `view_id`, not both");
                s
            },
        }
    }
}

} // verus!
