//! The control plane: forcing a prompt reload over a side-channel request.
//!
//! A reload request names a source — local, remote, or both — and gets back
//! a report with one detail line per reload leg. The reloads themselves do
//! file and network work outside the library; which legs run and what the
//! report says is decided here.

use vstd::prelude::*;

verus! {

/// The query of a reload request.
pub struct ReloadRequest {
    pub source: Option<String>,
}

/// Which reload legs a request runs.
pub enum ReloadSource {
    Local,
    Remote,
    Both,
}

/// How one reload leg went.
pub enum LegOutcome {
    /// A new snapshot was published.
    Reloaded,
    /// Nothing changed; the snapshot stays.
    Unchanged,
    /// The leg failed; the snapshot stays.
    Error(String),
    /// The leg is switched off by configuration.
    Disabled,
}

/// The reload report returned to the caller.
pub struct ReloadReport {
    pub success: bool,
    pub message: String,
    pub details: Vec<String>,
}

/// Which legs a request's `source` parameter selects: `local` and `remote`
/// select one leg, a missing parameter defaults to `local`, and any other
/// value runs both legs.
pub fn reload_plan(req: &ReloadRequest) -> (r: ReloadSource)
    ensures
        match &req.source {
            Some(s) => if s@ == "local"@ {
                r is Local
            } else if s@ == "remote"@ {
                r is Remote
            } else {
                r is Both
            },
            None => r is Local,
        },
{
    match &req.source {
        Some(s) => {
            if crate::text::str_eq(s.as_str(), "local") {
                ReloadSource::Local
            } else if crate::text::str_eq(s.as_str(), "remote") {
                ReloadSource::Remote
            } else {
                ReloadSource::Both
            }
        },
        None => ReloadSource::Local,
    }
}

/// The detail line one leg contributes to the report.
pub open spec fn leg_detail_spec(remote: bool, o: LegOutcome) -> Seq<char> {
    let prefix: Seq<char> = if remote {
        "Remote"@
    } else {
        "Local"@
    };
    match o {
        LegOutcome::Reloaded => prefix + " reloaded"@,
        LegOutcome::Unchanged => prefix + " unchanged"@,
        LegOutcome::Error(e) => prefix + " error: "@ + e@,
        LegOutcome::Disabled => prefix + " disabled"@,
    }
}

/// Renders the detail line of one reload leg.
pub fn leg_detail(remote: bool, o: &LegOutcome) -> (r: String)
    ensures
        r@ == leg_detail_spec(remote, *o),
{
    let mut s = if remote {
        String::from_str("Remote")
    } else {
        String::from_str("Local")
    };
    match o {
        LegOutcome::Reloaded => s.append(" reloaded"),
        LegOutcome::Unchanged => s.append(" unchanged"),
        LegOutcome::Error(e) => {
            s.append(" error: ");
            s.append(e.as_str());
        },
        LegOutcome::Disabled => s.append(" disabled"),
    }
    s
}

/// True when a leg counts as a failure.
pub open spec fn leg_failed(o: LegOutcome) -> bool {
    o is Error
}

/// Builds the report of a reload request from its detail lines: success when
/// no leg failed, with the matching summary message.
pub fn reload_report(details: Vec<String>, ok: bool) -> (r: ReloadReport)
    ensures
        r.success == ok,
        ok ==> r.message@ == "Reload complete"@,
        !ok ==> r.message@ == "Reload errors"@,
        r.details == details,
{
    ReloadReport {
        success: ok,
        message: if ok {
            String::from_str("Reload complete")
        } else {
            String::from_str("Reload errors")
        },
        details,
    }
}

/// Whether a leg outcome leaves the report successful.
pub fn leg_ok(o: &LegOutcome) -> (r: bool)
    ensures
        r == !leg_failed(*o),
{
    match o {
        LegOutcome::Error(_) => false,
        _ => true,
    }
}

} // verus!
