use vstd::prelude::*;

use crate::domain::event::RecordStatus;

verus! {

/// Global options and the command to run.
#[derive(Debug)]
pub struct Cli {
    /// Archive store path. Defaults to SILLOK_STORE or XDG data-local storage.
    pub store: Option<String>,
    /// Print readable summaries instead of JSON.
    pub human: bool,
    /// Accepted for explicitness; JSON is the default output.
    pub json: bool,
    /// Event timestamp for backfills. RFC3339 or YYYY-MM-DDTHH:MM:SS.
    pub at: Option<String>,
    /// Timezone used for local day attribution and naive --at parsing.
    pub tz: Option<String>,
    pub command: Command,
}

/// Top-level command set.
#[derive(Debug)]
pub enum Command {
    /// Initialize the archive if absent.
    Init,
    /// Record a completed task or work note.
    Note(NoteArgs),
    /// Manage day objectives.
    Objective(ObjectiveArgs),
    /// Amend the current derived state of a record.
    Amend(AmendArgs),
    /// Retract a record from current views.
    Retract(RetractArgs),
    /// Show one record and its event history.
    Show(IdArgs),
    /// Summarize a day.
    Day(DayArgs),
    /// Query current records by creation time.
    Query(QueryArgs),
    /// Render a task tree.
    Tree(TreeArgs),
    /// Validate archive integrity.
    Doctor,
    /// Export current derived data.
    Export(ExportArgs),
    /// Backup and reset the whole archive.
    Truncate(TruncateArgs),
}

impl Command {
    /// Stable command name for JSON responses.
    pub fn name(&self) -> (s: &'static str)
        ensures
            s@ == match self {
                Command::Init => "init"@,
                Command::Note(_) => "note"@,
                Command::Objective(_) => "objective"@,
                Command::Amend(_) => "amend"@,
                Command::Retract(_) => "retract"@,
                Command::Show(_) => "show"@,
                Command::Day(_) => "day"@,
                Command::Query(_) => "query"@,
                Command::Tree(_) => "tree"@,
                Command::Doctor => "doctor"@,
                Command::Export(_) => "export"@,
                Command::Truncate(_) => "truncate"@,
            },
    {
        match self {
            Command::Init => "init",
            Command::Note(_) => "note",
            Command::Objective(_) => "objective",
            Command::Amend(_) => "amend",
            Command::Retract(_) => "retract",
            Command::Show(_) => "show",
            Command::Day(_) => "day",
            Command::Query(_) => "query",
            Command::Tree(_) => "tree",
            Command::Doctor => "doctor",
            Command::Export(_) => "export",
            Command::Truncate(_) => "truncate",
        }
    }
}

/// Args for `note`.
#[derive(Debug)]
pub struct NoteArgs {
    pub text: String,
    pub parent: Option<String>,
    pub purpose: Option<String>,
    pub tags: Vec<String>,
    pub status: RecordStatus,
}

/// Args for `objective`.
#[derive(Debug)]
pub struct ObjectiveArgs {
    pub command: ObjectiveCommand,
}

/// Objective subcommands.
#[derive(Debug)]
pub enum ObjectiveCommand {
    Add(ObjectiveAddArgs),
    Complete(ObjectiveCompleteArgs),
}

/// Args for `objective add`.
#[derive(Debug)]
pub struct ObjectiveAddArgs {
    pub text: String,
    pub tags: Vec<String>,
}

/// Args for `objective complete`.
#[derive(Debug)]
pub struct ObjectiveCompleteArgs {
    pub id: String,
    pub note: Option<String>,
}

/// Args for `amend`.
#[derive(Debug)]
pub struct AmendArgs {
    pub id: String,
    pub text: Option<String>,
    pub status: Option<RecordStatus>,
    pub purpose: Option<String>,
    pub tags: Vec<String>,
}

/// Args for `retract`.
#[derive(Debug)]
pub struct RetractArgs {
    pub id: String,
    pub reason: String,
}

/// Args containing a single id.
#[derive(Debug)]
pub struct IdArgs {
    pub id: String,
}

/// Args for `day`.
#[derive(Debug)]
pub struct DayArgs {
    pub date: Option<String>,
}

/// Args for `query`.
#[derive(Debug)]
pub struct QueryArgs {
    pub from: String,
    pub to: String,
    pub context: Option<String>,
    pub tag: Option<String>,
    pub status: Option<RecordStatus>,
}

/// Args for `tree`.
#[derive(Debug)]
pub struct TreeArgs {
    pub date: Option<String>,
    pub root: Option<String>,
}

/// Args for `export`.
#[derive(Debug)]
pub struct ExportArgs {
    pub command: ExportCommand,
}

/// Export subcommands.
#[derive(Debug)]
pub enum ExportCommand {
    Json(ExportJsonArgs),
}

/// Args for `export json`.
#[derive(Debug)]
pub struct ExportJsonArgs {
    pub from: Option<String>,
    pub to: Option<String>,
}

/// Args for `truncate`.
#[derive(Debug)]
pub struct TruncateArgs {
    /// Required confirmation for destructive reset.
    pub yes: bool,
}

} // verus!
