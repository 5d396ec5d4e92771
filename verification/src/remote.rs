//! The remote prompt-configuration fetch: what each response means.
//!
//! The remote service is polled with a conditional request; the HTTP call,
//! the bearer token and the entity-tag header live outside the library. What
//! a status code and body yield — no change, a new configuration text, or a
//! failure — is decided here.

use vstd::prelude::*;

verus! {

use crate::json::{JsonVal, obj_lookup, json_tree_of};
use crate::text::dec_digits;

/// What one fetch of the remote configuration yields.
pub enum RemoteFetchOutcome {
    /// The service reported the configuration unchanged.
    NotModified,
    /// A fresh configuration text to parse and publish.
    NewConfig(String),
    /// The fetch failed; the current snapshot stays.
    Failed(String),
}

/// The configuration text a remote response body carries, at
/// `parameters.prompts.defaultValue.value`.
pub open spec fn remote_value_of(t: JsonVal) -> Option<Seq<char>> {
    match t {
        JsonVal::Obj(o) => match obj_lookup(o@, "parameters"@) {
            Some(JsonVal::Obj(ps)) => match obj_lookup(ps@, "prompts"@) {
                Some(JsonVal::Obj(pr)) => match obj_lookup(pr@, "defaultValue"@) {
                    Some(JsonVal::Obj(dv)) => match obj_lookup(dv@, "value"@) {
                        Some(JsonVal::Str(s)) => Some(s@),
                        _ => None,
                    },
                    _ => None,
                },
                _ => None,
            },
            _ => None,
        },
        _ => None,
    }
}

fn extract_remote_value(t: &JsonVal) -> (r: Option<String>)
    ensures
        match r {
            Some(s) => remote_value_of(*t) == Some(s@),
            None => remote_value_of(*t) is None,
        },
{
    let dv = match t.get("parameters") {
        Some(ps) => match ps.get("prompts") {
            Some(pr) => match pr.get("defaultValue") {
                Some(dv) => dv,
                None => {
                    return None;
                },
            },
            None => {
                return None;
            },
        },
        None => {
            return None;
        },
    };
    match dv.get("value") {
        Some(v) => match v.as_str() {
            Some(s) => Some(s.clone()),
            None => None,
        },
        None => None,
    }
}

/// Interprets one response of the remote configuration service: a
/// not-modified status yields no change; a success status yields the
/// configuration text at `parameters.prompts.defaultValue.value`, or a
/// failure naming the missing field; any other status fails with the status
/// and the server body as context.
pub fn remote_fetch_decision(status: u16, body: &str) -> (r: RemoteFetchOutcome)
    ensures
        status == 304 ==> r is NotModified,
        status == 200 ==> match json_tree_of(body@) {
            Some(t) => match remote_value_of(t) {
                Some(v) => r matches RemoteFetchOutcome::NewConfig(s) && s@ == v,
                None => r matches RemoteFetchOutcome::Failed(m) && m@
                    == "Missing parameters.prompts.defaultValue.value in remoteConfig"@,
            },
            None => r matches RemoteFetchOutcome::Failed(m) && m@
                == "Invalid JSON from remoteConfig"@,
        },
        status != 304 && status != 200 ==> (r matches RemoteFetchOutcome::Failed(m) && m@
            == "Unexpected status "@ + dec_digits(status as nat) + ": "@ + body@),
{
    if status == 304 {
        return RemoteFetchOutcome::NotModified;
    }
    if status == 200 {
        return match crate::json::parse_json_tree(body) {
            Some(tree) => match extract_remote_value(&tree) {
                Some(v) => RemoteFetchOutcome::NewConfig(v),
                None => RemoteFetchOutcome::Failed(
                    String::from_str(
                        "Missing parameters.prompts.defaultValue.value in remoteConfig",
                    ),
                ),
            },
            None => RemoteFetchOutcome::Failed(String::from_str("Invalid JSON from remoteConfig")),
        };
    }
    let mut m = String::from_str("Unexpected status ");
    let digits = crate::text::u64_to_string(status as u64);
    m.append(digits.as_str());
    m.append(": ");
    m.append(body);
    RemoteFetchOutcome::Failed(m)
}

} // verus!
