use vstd::prelude::*;

use crate::domain::archive::{Archive, ArchiveView};
use crate::domain::id::id_text;
use crate::domain::time::Timestamp;
use crate::error::SillokError;
use crate::storage::handle::{is_legacy_store_path, legacy_path};
use crate::text::text_eq;

verus! {

/// Identity and size of an archive, as sync reports it.
#[derive(Debug, Clone, PartialEq, Eq)]
pub struct ArchiveSummary {
    pub archive_id: String,
    pub created_at: Timestamp,
    pub event_count: usize,
}

/// Summarizes an archive.
pub fn summary(archive: &Archive) -> (s: ArchiveSummary)
    ensures
        s.archive_id@ == id_text(archive@.archive_id),
        s.created_at == archive.created_at,
        s.event_count == archive@.events.len(),
{
    ArchiveSummary {
        archive_id: archive.archive_id.to_string(),
        created_at: archive.created_at,
        event_count: archive.events.len(),
    }
}

/// Refuses sync on a legacy archive path.
pub fn reject_legacy_sync(path: &str) -> (r: Result<(), SillokError>)
    ensures
        r is Ok <==> !legacy_path(path@),
        r matches Err(e) ==> e.code == "migration_required" && e.message@
            == "`sync` requires a v2 SQLite/Turso store"@,
{
    if is_legacy_store_path(path) {
        proof {
            reveal_strlit("`sync` requires a v2 SQLite/Turso store");
        }
        Err(
            SillokError::new(
                "migration_required",
                String::from_str("`sync` requires a v2 SQLite/Turso store"),
            ),
        )
    } else {
        Ok(())
    }
}

/// The local store must be rebuilt unless it already holds the merged archive.
pub fn needs_local_rebuild(local: Option<&Archive>, merged: &Archive) -> (b: bool)
    ensures
        b == !(local matches Some(a) && a@ == merged@),
{
    match local {
        Some(archive) => !archive.same(merged),
        None => true,
    }
}

/// A sync attempt is tried once more when its push was rejected.
pub fn should_retry(error: &SillokError) -> (b: bool)
    ensures
        b == (error.code@ == "sync_push_rejected"@),
{
    text_eq(error.code, "sync_push_rejected")
}

} // verus!
