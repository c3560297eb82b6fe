use vstd::prelude::*;
use crate::state::Status;
use crate::text::{decimal_text, int_text, joined, text};
use crate::tui::{bool_string, bool_text};

verus! {

/// The diagnostic report: control-plane URL, state path, enrolment, known commands, queued
/// events and the last error (`none` when there is none), one per line.
pub open spec fn report_text(url: Seq<char>, state_path: Seq<char>, s: Status) -> Seq<char> {
    "control_plane_url: "@ + url + "\nstate_path: "@ + state_path + "\nenrolled: "@ + bool_text(s.identity_present)
        + "\nknown_commands: "@ + int_text(s.known_commands as int) + "\nqueued_events: "@ + int_text(s.queued_events as int)
        + "\nlast_error: "@ + match s.last_error { Some(e) => e@, None => "none"@ }
}

/// The diagnostic report of the local state; it makes no network call.
pub fn doctor_report(control_plane_url: &str, state_path: &str, status: &Status) -> (r: String)
    ensures
        r@ == report_text(control_plane_url@, state_path@, *status),
{
    proof {
        reveal_strlit("control_plane_url: ");
        reveal_strlit("\nstate_path: ");
        reveal_strlit("\nenrolled: ");
        reveal_strlit("\nknown_commands: ");
        reveal_strlit("\nqueued_events: ");
        reveal_strlit("\nlast_error: ");
        reveal_strlit("none");
    }
    let enrolled = bool_string(status.identity_present);
    let commands = decimal_text(status.known_commands);
    let queued = decimal_text(status.queued_events);
    let last = match &status.last_error {
        Some(e) => e.clone(),
        None => text("none"),
    };
    let r = joined("control_plane_url: ", control_plane_url);
    let r = joined(r.as_str(), "\nstate_path: ");
    let r = joined(r.as_str(), state_path);
    let r = joined(r.as_str(), "\nenrolled: ");
    let r = joined(r.as_str(), enrolled.as_str());
    let r = joined(r.as_str(), "\nknown_commands: ");
    let r = joined(r.as_str(), commands.as_str());
    let r = joined(r.as_str(), "\nqueued_events: ");
    let r = joined(r.as_str(), queued.as_str());
    let r = joined(r.as_str(), "\nlast_error: ");
    joined(r.as_str(), last.as_str())
}

/// Why the diagnosis fails.
#[derive(Debug, PartialEq, Eq, Structural)]
pub enum DoctorError {
    /// Not enrolled, and no enrollment token to enroll with.
    CannotEnroll,
}

impl DoctorError {
    /// The error's text.
    pub fn message(&self) -> (m: String)
        ensures
            m@ == "not enrolled and AGENT_LOOM_ENROLLMENT_TOKEN is absent"@,
    {
        proof { reveal_strlit("not enrolled and AGENT_LOOM_ENROLLMENT_TOKEN is absent"); }
        text("not enrolled and AGENT_LOOM_ENROLLMENT_TOKEN is absent")
    }
}

/// The diagnosis fails exactly when the runtime is not enrolled and has no enrollment token.
pub fn doctor_verdict(status: &Status, enrollment_token: &Option<String>) -> (r: Result<(), DoctorError>)
    ensures
        r is Err <==> (!status.identity_present && enrollment_token is None),
{
    if !status.identity_present && enrollment_token.is_none() {
        Err(DoctorError::CannotEnroll)
    } else {
        Ok(())
    }
}

} // verus!
