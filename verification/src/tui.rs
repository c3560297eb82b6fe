use vstd::prelude::*;
use crate::state::Status;
use crate::text::{decimal_text, int_text, joined, text};

verus! {

/// `true` or `false`, as `Display` writes a boolean.
pub open spec fn bool_text(b: bool) -> Seq<char> {
    if b { "true"@ } else { "false"@ }
}

/// The text of a boolean.
pub fn bool_string(b: bool) -> (s: String)
    ensures
        s@ == bool_text(b),
{
    if b {
        proof { reveal_strlit("true"); }
        text("true")
    } else {
        proof { reveal_strlit("false"); }
        text("false")
    }
}

/// The status line: enrolment, known commands and queued events.
pub open spec fn summary_text(s: Status) -> Seq<char> {
    "enrolled: "@ + bool_text(s.identity_present) + " | commands: "@ + int_text(s.known_commands as int)
        + " | queued events: "@ + int_text(s.queued_events as int)
}

/// What the last-error panel shows: the last error, or a note that the daemon reports the
/// online status.
pub open spec fn last_error_text(s: Status) -> Seq<char> {
    match s.last_error {
        Some(e) => e@,
        None => "online status is reported by the daemon"@,
    }
}

/// The texts of the status screen.
#[derive(Debug)]
pub struct StatusScreen {
    pub title: String,
    pub summary: String,
    pub error_title: String,
    pub last_error: String,
}

/// The texts the status screen shows for a status; the same status always gives the same
/// screen.
pub fn status_screen(status: &Status) -> (screen: StatusScreen)
    ensures
        screen.title@ == "Agent Loom Runtime \u{2014} q to quit"@,
        screen.summary@ == summary_text(*status),
        screen.error_title@ == "Last error"@,
        screen.last_error@ == last_error_text(*status),
{
    proof {
        reveal_strlit("Agent Loom Runtime \u{2014} q to quit");
        reveal_strlit("enrolled: ");
        reveal_strlit(" | commands: ");
        reveal_strlit(" | queued events: ");
        reveal_strlit("Last error");
        reveal_strlit("online status is reported by the daemon");
    }
    let enrolled = bool_string(status.identity_present);
    let commands = decimal_text(status.known_commands);
    let queued = decimal_text(status.queued_events);
    let a = joined("enrolled: ", enrolled.as_str());
    let b = joined(a.as_str(), " | commands: ");
    let c = joined(b.as_str(), commands.as_str());
    let d = joined(c.as_str(), " | queued events: ");
    let summary = joined(d.as_str(), queued.as_str());
    let last_error = match &status.last_error {
        Some(e) => e.clone(),
        None => text("online status is reported by the daemon"),
    };
    StatusScreen {
        title: text("Agent Loom Runtime \u{2014} q to quit"),
        summary,
        error_title: text("Last error"),
        last_error,
    }
}

} // verus!
