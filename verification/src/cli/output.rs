use vstd::prelude::*;

use crate::domain::time::Timestamp;
use crate::error::{ErrorPayload, SillokError};
use crate::text::text_eq;

verus! {

/// CLI output rendering mode.
#[derive(Debug, Clone, Copy, PartialEq, Eq, Structural)]
pub enum OutputMode {
    /// Compact machine output optimized for agent token usage.
    Compact,
    /// Full JSON response envelope.
    Json,
    /// Human-readable command summaries.
    Human,
}

/// Failed command response.
#[derive(Debug, Clone)]
pub struct FailureResponse {
    pub ok: bool,
    pub command: &'static str,
    pub generated_at: Timestamp,
    pub error: ErrorPayload,
}

impl FailureResponse {
    /// The failure response for `error` raised by `command`.
    pub fn new(command: &'static str, generated_at: Timestamp, error: &SillokError) -> (r: Self)
        ensures
            !r.ok,
            r.command == command,
            r.generated_at == generated_at,
            r.error.code == error.code,
            r.error.message@ == error.message@,
    {
        FailureResponse { ok: false, command, generated_at, error: error.payload() }
    }
}

/// The commands whose compact output is just their ids.
pub open spec fn id_command(command: Seq<char>) -> bool {
    ||| command == "init"@
    ||| command == "note"@
    ||| command == "objective"@
    ||| command == "amend"@
    ||| command == "retract"@
    ||| command == "truncate"@
}

/// Compact output shows only the ids for commands that create or change
/// records, when there are ids to show.
pub fn should_compact_to_ids(command: &str, has_ids: bool) -> (b: bool)
    ensures
        b == (has_ids && id_command(command@)),
{
    if !has_ids {
        return false;
    }
    proof {
        reveal_strlit("init");
        reveal_strlit("note");
        reveal_strlit("objective");
        reveal_strlit("amend");
        reveal_strlit("retract");
        reveal_strlit("truncate");
    }
    text_eq(command, "init") || text_eq(command, "note") || text_eq(command, "objective")
        || text_eq(command, "amend") || text_eq(command, "retract") || text_eq(command, "truncate")
}

} // verus!
