use vstd::prelude::*;

use crate::error::SillokError;
use crate::storage::handle::{is_legacy_store_path, legacy_path};
use crate::text::{owned, push_str};

verus! {

/// What a migration run does once its source archive has been read.
#[derive(Debug, Clone, Copy, PartialEq, Eq)]
pub enum MigrationStep {
    /// A dry run: report what would be migrated and write nothing.
    Report,
    /// Import the archive into the new store.
    Import,
}

/// The message refusing `source` as a migration source.
pub open spec fn invalid_source_message(source: Seq<char>) -> Seq<char> {
    "migration source `"@ + source + "` is not a legacy .slk.zst archive"@
}

/// The message refusing to overwrite an existing target store.
pub open spec fn target_exists_message(target: Seq<char>) -> Seq<char> {
    "target store `"@ + target + "` already exists"@
}

/// Checks that `source` names a legacy compressed archive (its file name
/// ends in `.slk.zst`); anything else is refused.
pub fn check_migration_source(source: &str) -> (r: Result<(), SillokError>)
    ensures
        r is Ok <==> legacy_path(source@),
        r matches Err(e) ==> e.code == "invalid_migration_source" && e.message@
            == invalid_source_message(source@),
{
    if is_legacy_store_path(source) {
        Ok(())
    } else {
        let mut message = owned("migration source `");
        push_str(&mut message, source);
        push_str(&mut message, "` is not a legacy .slk.zst archive");
        proof {
            reveal_strlit("migration source `");
            reveal_strlit("` is not a legacy .slk.zst archive");
        }
        Err(SillokError::new("invalid_migration_source", message))
    }
}

/// Decides what a migration run does after reading its source: a dry run
/// only reports; otherwise `--yes` is required and the target must not exist.
pub fn migration_step(dry_run: bool, yes: bool, target: &str, target_exists: bool) -> (r: Result<
    MigrationStep,
    SillokError,
>)
    ensures
        dry_run ==> r == Ok::<MigrationStep, SillokError>(MigrationStep::Report),
        !dry_run && !yes ==> (r matches Err(e) && e.code == "confirmation_required" && e.message@
            == "migrate requires --yes unless --dry-run is used"@),
        !dry_run && yes && target_exists ==> (r matches Err(e) && e.code == "target_exists"
            && e.message@ == target_exists_message(target@)),
        !dry_run && yes && !target_exists ==> r == Ok::<MigrationStep, SillokError>(
            MigrationStep::Import,
        ),
{
    if dry_run {
        return Ok(MigrationStep::Report);
    }
    if !yes {
        let message = owned("migrate requires --yes unless --dry-run is used");
        return Err(SillokError::new("confirmation_required", message));
    }
    if target_exists {
        let mut message = owned("target store `");
        push_str(&mut message, target);
        push_str(&mut message, "` already exists");
        proof {
            reveal_strlit("target store `");
            reveal_strlit("` already exists");
        }
        return Err(SillokError::new("target_exists", message));
    }
    Ok(MigrationStep::Import)
}

} // verus!
