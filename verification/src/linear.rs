//! What the tracker's GraphQL API hands back: issues and the rules that decide a
//! reply before its `data` is read.

use vstd::prelude::*;

use crate::text::{decimal, push_decimal};

verus! {

/// One issue as the search queries return it.
#[derive(Debug, Clone)]
pub struct Issue {
    pub id: String,
    pub identifier: String,
    pub title: String,
    pub url: String,
    /// 0 = no priority, 1 = urgent, 2 = high, 3 = medium, 4 = low.
    pub priority: Option<i32>,
    pub priority_label: Option<String>,
    pub updated_at: Option<String>,
    pub state: Option<WorkflowState>,
    pub assignee: Option<User>,
    pub team: Option<Team>,
}

/// An issue's workflow state.
#[derive(Debug, Clone)]
pub struct WorkflowState {
    pub name: String,
    /// "backlog" | "unstarted" | "started" | "completed" | "canceled" | "triage"
    pub kind: String,
    pub color: String,
}

/// An assignee.
#[derive(Debug, Clone)]
pub struct User {
    pub display_name: String,
    pub name: String,
}

/// The team an issue belongs to.
#[derive(Debug, Clone)]
pub struct Team {
    pub key: String,
}

/// The parts of a GraphQL reply body that decide its outcome.
pub struct GraphqlReply {
    /// The `errors` member when it is an array: for each entry, its
    /// `message` when that is a string.
    pub errors: Option<Vec<Option<String>>>,
    /// The `data` member, when present.
    pub data: Option<serde_json::Value>,
}

/// The messages that are present, in order.
pub open spec fn present_messages(es: Seq<Option<String>>) -> Seq<Seq<char>>
    decreases es.len(),
{
    if es.len() == 0 {
        seq![]
    } else {
        let init = present_messages(es.drop_last());
        match es.last() {
            Some(m) => init.push(m@),
            None => init,
        }
    }
}

/// `parts` joined by `sep` (`[String]::join`).
pub open spec fn join(parts: Seq<Seq<char>>, sep: Seq<char>) -> Seq<char>
    decreases parts.len(),
{
    if parts.len() == 0 {
        seq![]
    } else if parts.len() == 1 {
        parts[0]
    } else {
        join(parts.drop_last(), sep) + sep + parts.last()
    }
}

/// The error text for a reply that carries errors.
pub open spec fn errors_text(es: Seq<Option<String>>) -> Seq<char> {
    "Linear GraphQL errors: "@ + join(present_messages(es), " / "@)
}

/// A reply is an error when it carries a non-empty `errors` array.
pub open spec fn reply_has_errors(r: GraphqlReply) -> bool {
    r.errors matches Some(es) && es.len() > 0
}

/// Joins the present messages of `es` with `" / "`.
fn join_messages(es: &Vec<Option<String>>) -> (s: String)
    ensures
        s@ == join(present_messages(es@), " / "@),
{
    let mut s = String::new();
    let mut count: usize = 0;
    let n: usize = es.len();
    for i in 0..n
        invariant
            n == es.len(),
            count == present_messages(es@.take(i as int)).len(),
            count <= i,
            s@ == join(present_messages(es@.take(i as int)), " / "@),
    {
        let ghost prev = present_messages(es@.take(i as int));
        proof {
            assert(es@.take(i + 1).drop_last() =~= es@.take(i as int));
        }
        match &es[i] {
            Some(m) => {
                proof {
                    assert(prev.push(m@).drop_last() =~= prev);
                }
                if count > 0 {
                    s.append(" / ");
                }
                s.append(m.as_str());
                count = count + 1;
            },
            None => {},
        }
    }
    proof {
        assert(es@.take(n as int) =~= es@);
    }
    s
}

/// Decides a reply: its errors when it carries any, else its `data`,
/// else the complaint that `data` is missing.
pub fn reply_data(reply: GraphqlReply) -> (r: Result<serde_json::Value, String>)
    ensures
        reply_has_errors(reply) ==> (r matches Err(e) && e@ == errors_text(reply.errors->0@)),
        !reply_has_errors(reply) ==> match reply.data {
            Some(d) => r == Ok::<serde_json::Value, String>(d),
            None => (r matches Err(e) && e@ == "Linear response missing `data` field"@),
        },
{
    if let Some(es) = &reply.errors {
        if es.len() > 0 {
            let mut s = String::from_str("Linear GraphQL errors: ");
            let joined = join_messages(es);
            s.append(joined.as_str());
            return Err(s);
        }
    }
    match reply.data {
        Some(d) => Ok(d),
        None => Err(String::from_str("Linear response missing `data` field")),
    }
}

/// The text for a saved view that the API did not return.
pub open spec fn view_missing_text(view_id: Seq<char>) -> Seq<char> {
    "Linear: view "@ + view_id + " not found or not accessible"@
}

/// The issues of a saved view, or the complaint that the view was not found.
pub fn view_issues(view_id: &str, found: Option<Vec<Issue>>) -> (r: Result<Vec<Issue>, String>)
    ensures
        match found {
            Some(v) => r == Ok::<Vec<Issue>, String>(v),
            None => (r matches Err(e) && e@ == view_missing_text(view_id@)),
        },
{
    match found {
        Some(v) => Ok(v),
        None => {
            let mut s = String::from_str("Linear: view ");
            s.append(view_id);
            s.append(" not found or not accessible");
            Err(s)
        },
    }
}

/// A status code in `200..300` is success (`StatusCode::is_success`).
pub fn http_success(code: u16) -> (ok: bool)
    ensures
        ok == (200 <= code < 300),
{
    200 <= code && code < 300
}

/// The text for a reply whose HTTP status is not success: the code, its
/// reason phrase (or `<unknown status code>`), then the reply body.
pub open spec fn http_failure_text(code: u16, reason: Option<Seq<char>>, body: Seq<char>) -> Seq<char> {
    "Linear API HTTP "@ + decimal(code as nat) + " "@ + match reason {
        Some(r) => r,
        None => "<unknown status code>"@,
    } + ": "@ + body
}

/// The error for a reply with HTTP status `code`, reason phrase `reason`
/// and body `body`.
pub fn http_failure(code: u16, reason: Option<&str>, body: &str) -> (e: String)
    ensures
        e@ == http_failure_text(code, match reason {
            Some(r) => Some(r@),
            None => None,
        }, body@),
{
    let mut s = String::from_str("Linear API HTTP ");
    push_decimal(&mut s, code as usize);
    s.append(" ");
    match reason {
        Some(r) => s.append(r),
        None => s.append("<unknown status code>"),
    }
    s.append(": ");
    s.append(body);
    s
}

} // verus!
