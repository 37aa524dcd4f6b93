use vstd::prelude::*;

use crate::domain::event::{EventKind, KindView, RecordKind, RecordStatus};
use crate::domain::id::{id_bytes, ChronicleId};
use crate::domain::time::{DayKey, DayKeyView, Timestamp};
use crate::error::SillokError;
use crate::text::push_str;

verus! {

/// Converts a chronicle id into compact SQL BLOB storage.
pub fn id_blob(id: ChronicleId) -> (b: Vec<u8>)
    ensures
        b@ == id_bytes(id@),
{
    id.to_vec()
}

/// Converts an optional id into compact SQL BLOB storage.
pub fn optional_id_blob(id: Option<ChronicleId>) -> (b: Option<Vec<u8>>)
    ensures
        id is None ==> b is None,
        id matches Some(v) ==> b matches Some(bytes) && bytes@ == id_bytes(v@),
{
    match id {
        Some(value) => Some(value.to_vec()),
        None => None,
    }
}

/// The SQL label of a record kind.
pub open spec fn kind_text(kind: RecordKind) -> Seq<char> {
    match kind {
        RecordKind::Day => "day"@,
        RecordKind::Task => "task"@,
        RecordKind::Objective => "objective"@,
    }
}

/// The SQL label of a record status.
pub open spec fn status_text(status: RecordStatus) -> Seq<char> {
    match status {
        RecordStatus::Open => "open"@,
        RecordStatus::Active => "active"@,
        RecordStatus::Blocked => "blocked"@,
        RecordStatus::Completed => "completed"@,
        RecordStatus::Retracted => "retracted"@,
    }
}

/// Converts a record kind into its SQL label.
pub fn kind_label(kind: RecordKind) -> (s: &'static str)
    ensures
        s@ == kind_text(kind),
{
    match kind {
        RecordKind::Day => "day",
        RecordKind::Task => "task",
        RecordKind::Objective => "objective",
    }
}

/// Parses a record kind SQL label.
pub fn parse_kind(value: &str) -> (r: Result<RecordKind, SillokError>)
    ensures
        r matches Ok(k) ==> kind_text(k) == value@,
        (exists|k: RecordKind| kind_text(k) == value@) ==> r is Ok,
        r matches Err(e) ==> e.code == "invalid_datashape" && e.message@ == "unknown record kind `"@
            + value@ + "`"@,
{
    proof {
        reveal_strlit("day");
        reveal_strlit("task");
        reveal_strlit("objective");
    }
    if crate::text::text_eq(value, "day") {
        Ok(RecordKind::Day)
    } else if crate::text::text_eq(value, "task") {
        Ok(RecordKind::Task)
    } else if crate::text::text_eq(value, "objective") {
        Ok(RecordKind::Objective)
    } else {
        let mut message = String::from_str("unknown record kind `");
        push_str(&mut message, value);
        push_str(&mut message, "`");
        proof {
            reveal_strlit("unknown record kind `");
            reveal_strlit("`");
        }
        Err(SillokError::new("invalid_datashape", message))
    }
}

/// Converts a record status into its SQL label.
pub fn status_label(status: RecordStatus) -> (s: &'static str)
    ensures
        s@ == status_text(status),
{
    match status {
        RecordStatus::Open => "open",
        RecordStatus::Active => "active",
        RecordStatus::Blocked => "blocked",
        RecordStatus::Completed => "completed",
        RecordStatus::Retracted => "retracted",
    }
}

/// Parses a record status SQL label.
pub fn parse_status(value: &str) -> (r: Result<RecordStatus, SillokError>)
    ensures
        r matches Ok(s) ==> status_text(s) == value@,
        (exists|s: RecordStatus| status_text(s) == value@) ==> r is Ok,
        r matches Err(e) ==> e.code == "invalid_datashape" && e.message@
            == "unknown record status `"@ + value@ + "`"@,
{
    proof {
        reveal_strlit("open");
        reveal_strlit("active");
        reveal_strlit("blocked");
        reveal_strlit("completed");
        reveal_strlit("retracted");
    }
    if crate::text::text_eq(value, "open") {
        Ok(RecordStatus::Open)
    } else if crate::text::text_eq(value, "active") {
        Ok(RecordStatus::Active)
    } else if crate::text::text_eq(value, "blocked") {
        Ok(RecordStatus::Blocked)
    } else if crate::text::text_eq(value, "completed") {
        Ok(RecordStatus::Completed)
    } else if crate::text::text_eq(value, "retracted") {
        Ok(RecordStatus::Retracted)
    } else {
        let mut message = String::from_str("unknown record status `");
        push_str(&mut message, value);
        push_str(&mut message, "`");
        proof {
            reveal_strlit("unknown record status `");
            reveal_strlit("`");
        }
        Err(SillokError::new("invalid_datashape", message))
    }
}

/// The index label of an event kind.
pub open spec fn event_kind_text(kind: KindView) -> Seq<char> {
    match kind {
        KindView::ArchiveInitialized { .. } => "archive_initialized"@,
        KindView::DayOpened { .. } => "day_opened"@,
        KindView::ObjectiveAdded { .. } => "objective_added"@,
        KindView::ObjectiveCompleted { .. } => "objective_completed"@,
        KindView::TaskRecorded { .. } => "task_recorded"@,
        KindView::TaskAmended { .. } => "task_amended"@,
        KindView::TaskRetracted { .. } => "task_retracted"@,
        KindView::TaskLinked { .. } => "task_linked"@,
        KindView::TaskUnlinked { .. } => "task_unlinked"@,
    }
}

/// Returns a compact event-kind discriminator for indexes.
pub fn event_kind_label(kind: &EventKind) -> (s: &'static str)
    ensures
        s@ == event_kind_text(kind@),
{
    match kind {
        EventKind::ArchiveInitialized { .. } => "archive_initialized",
        EventKind::DayOpened { .. } => "day_opened",
        EventKind::ObjectiveAdded { .. } => "objective_added",
        EventKind::ObjectiveCompleted { .. } => "objective_completed",
        EventKind::TaskRecorded { .. } => "task_recorded",
        EventKind::TaskAmended { .. } => "task_amended",
        EventKind::TaskRetracted { .. } => "task_retracted",
        EventKind::TaskLinked { .. } => "task_linked",
        EventKind::TaskUnlinked { .. } => "task_unlinked",
    }
}

/// Builds a persisted day key from SQL columns.
pub fn day_key(date: String, timezone: String) -> (k: DayKey)
    ensures
        k@ == (DayKeyView { date: date@, timezone: timezone@ }),
{
    DayKey { date, timezone }
}

/// Builds a timestamp from an integer SQL column.
pub fn timestamp(millis: i64) -> (t: Timestamp)
    ensures
        t@ == millis,
{
    Timestamp::from_millis(millis)
}

/// A label names exactly one kind and exactly one status: parsing a label
/// gives back what was labelled.
pub proof fn lemma_labels_roundtrip(k: RecordKind, s: RecordStatus, k2: RecordKind, s2: RecordStatus)
    ensures
        kind_text(k) == kind_text(k2) ==> k == k2,
        status_text(s) == status_text(s2) ==> s == s2,
{
    reveal_strlit("day");
    reveal_strlit("task");
    reveal_strlit("objective");
    reveal_strlit("open");
    reveal_strlit("active");
    reveal_strlit("blocked");
    reveal_strlit("completed");
    reveal_strlit("retracted");
    if k != k2 {
        assert(kind_text(k)[0] != kind_text(k2)[0]);
    }
    if s != s2 {
        assert(status_text(s)[0] != status_text(s2)[0]);
    }
}

} // verus!
