use vstd::prelude::*;

use crate::domain::archive::{Archive, ArchiveView};
use crate::domain::id::{id_text, ChronicleId};
use crate::error::SillokError;
use crate::domain::view::{build_error, builds};
use crate::sync::merge::{merge_archives, mesh, opt_archive_view, MergeOutcome};
use crate::text::{ascii_lower, ascii_lowercase, push_str, text_eq, trim, trimmed};

verus! {

/// Direction of a single sync operation.
#[derive(Debug, Clone, Copy, PartialEq, Eq, Structural)]
pub enum SyncMode {
    /// Overwrite the local store with the remote archive.
    Pull,
    /// Overwrite the remote archive with the local store.
    Push,
    /// Merge both sides; ask which to keep when the archives differ.
    Run,
}

impl SyncMode {
    /// Stable action label used in the command response.
    pub fn action(self) -> (s: &'static str)
        ensures
            s@ == match self {
                SyncMode::Pull => "pull"@,
                SyncMode::Push => "push"@,
                SyncMode::Run => "run"@,
            },
    {
        match self {
            SyncMode::Pull => "pull",
            SyncMode::Push => "push",
            SyncMode::Run => "run",
        }
    }
}

/// Which side a sync attempt writes to, and whether an event merge happened.
#[derive(Debug)]
pub struct Target {
    /// Archive the local database should reflect; `None` leaves it untouched.
    pub local_target: Option<Archive>,
    /// Archive to write to the remote; `None` skips the push.
    pub remote_target: Option<Archive>,
    pub merged: bool,
}

/// Side to keep when `run` cannot merge two different archives.
#[derive(Debug, Clone, Copy, PartialEq, Eq, Structural)]
pub enum Keep {
    Local,
    Remote,
}

/// An answer to the keep-which-side prompt.
#[derive(Debug, Clone, Copy, PartialEq, Eq, Structural)]
pub enum Answer {
    Keep(Keep),
    Abort,
}

/// View of an optional archive reference.
pub open spec fn opt_ref_view(o: Option<&Archive>) -> Option<ArchiveView> {
    match o {
        Some(a) => Some(a@),
        None => None,
    }
}

/// The two sides are archives with different ids.
pub open spec fn mismatched(local: Option<ArchiveView>, remote: Option<ArchiveView>) -> bool {
    local is Some && remote is Some && local->Some_0.archive_id != remote->Some_0.archive_id
}

/// Text of the error given when `run` meets two different archives and no side was chosen.
pub open spec fn mismatch_message(local_id: u128, remote_id: u128) -> Seq<char> {
    "local archive `"@ + id_text(local_id) + "` and remote archive `"@ + id_text(remote_id)
        + "` differ; rerun `sync pull` to keep the remote or `sync push` to keep the local"@
}

/// What `run` gives when the archives can be merged.
pub open spec fn run_merge(
    local: Option<ArchiveView>,
    remote: Option<ArchiveView>,
    r: Result<Target, SillokError>,
) -> bool {
    match (local, remote) {
        (None, None) => r matches Err(e) && e.code == "archive_missing",
        (Some(a), None) => one_side(a, r),
        (None, Some(a)) => one_side(a, r),
        (Some(a), Some(b)) => match mesh(a, b) {
            None => r matches Err(e) && e.code == "sync_merge_conflict",
            Some(x) => {
                &&& r is Ok <==> builds(x)
                &&& r matches Ok(t) ==> opt_archive_view(t.local_target) == Some(x)
                    && opt_archive_view(t.remote_target) == Some(x) && t.merged == !(x == a && x
                    == b)
                &&& r matches Err(e) ==> build_error(x, e)
            },
        },
    }
}

/// What `run` gives when only archive `a` exists: both sides adopt it.
pub open spec fn one_side(a: ArchiveView, r: Result<Target, SillokError>) -> bool {
    &&& r is Ok <==> builds(a)
    &&& r matches Ok(t) ==> opt_archive_view(t.local_target) == Some(a) && opt_archive_view(
        t.remote_target,
    ) == Some(a) && !t.merged
    &&& r matches Err(e) ==> build_error(a, e)
}

fn copy_opt_archive(o: Option<&Archive>) -> (r: Option<Archive>)
    ensures
        opt_archive_view(r) == opt_ref_view(o),
{
    match o {
        Some(a) => Some(a.copy()),
        None => None,
    }
}

fn mismatch_error(local_id: ChronicleId, remote_id: ChronicleId) -> (e: SillokError)
    ensures
        e.code == "sync_mismatch_needs_choice",
        e.message@ == mismatch_message(local_id@, remote_id@),
{
    let mut message = String::from_str("local archive `");
    push_str(&mut message, local_id.to_string().as_str());
    push_str(&mut message, "` and remote archive `");
    push_str(&mut message, remote_id.to_string().as_str());
    push_str(
        &mut message,
        "` differ; rerun `sync pull` to keep the remote or `sync push` to keep the local",
    );
    proof {
        reveal_strlit("local archive `");
        reveal_strlit("` and remote archive `");
        reveal_strlit(
            "` differ; rerun `sync pull` to keep the remote or `sync push` to keep the local",
        );
    }
    SillokError::new("sync_mismatch_needs_choice", message)
}

/// Picks which archive each side should adopt for the chosen sync mode.
///
/// `pull` and `push` overwrite wholesale and never consult `archive_id`;
/// `push` refuses when there is no local archive to send.
/// `run` merges at the event level unless both sides hold archives with
/// different ids; then it keeps the side in `choice`, and refuses when no
/// side was chosen.
pub fn select_target(
    mode: SyncMode,
    choice: Option<Keep>,
    local: Option<&Archive>,
    remote: Option<&Archive>,
) -> (r: Result<Target, SillokError>)
    ensures
        mode == SyncMode::Pull ==> (r matches Ok(t) && opt_archive_view(t.local_target)
            == opt_ref_view(remote) && t.remote_target is None && !t.merged),
        mode == SyncMode::Push && local is Some ==> (r matches Ok(t) && t.local_target is None
            && opt_archive_view(t.remote_target) == opt_ref_view(local) && !t.merged),
        mode == SyncMode::Push && local is None ==> (r matches Err(e) && e.code == "archive_missing"
            && e.message@ == "cannot push because the local archive is missing"@),
        mode == SyncMode::Run && mismatched(opt_ref_view(local), opt_ref_view(remote)) ==> match choice {
            None => r matches Err(e) && e.code == "sync_mismatch_needs_choice" && e.message@
                == mismatch_message(
                opt_ref_view(local)->Some_0.archive_id,
                opt_ref_view(remote)->Some_0.archive_id,
            ),
            Some(Keep::Local) => r matches Ok(t) && t.local_target is None && opt_archive_view(
                t.remote_target,
            ) == opt_ref_view(local) && !t.merged,
            Some(Keep::Remote) => r matches Ok(t) && opt_archive_view(t.local_target)
                == opt_ref_view(remote) && t.remote_target is None && !t.merged,
        },
        mode == SyncMode::Run && !mismatched(opt_ref_view(local), opt_ref_view(remote)) ==> run_merge(
            opt_ref_view(local),
            opt_ref_view(remote),
            r,
        ),
{
    match mode {
        SyncMode::Pull => Ok(
            Target { local_target: copy_opt_archive(remote), remote_target: None, merged: false },
        ),
        SyncMode::Push => match local {
            Some(_) => Ok(
                Target { local_target: None, remote_target: copy_opt_archive(local), merged: false },
            ),
            None => Err(
                SillokError::new(
                    "archive_missing",
                    String::from_str("cannot push because the local archive is missing"),
                ),
            ),
        },
        SyncMode::Run => {
            if let (Some(local_archive), Some(remote_archive)) = (local, remote) {
                if local_archive.archive_id.as_u128() != remote_archive.archive_id.as_u128() {
                    return match choice {
                        None => Err(mismatch_error(local_archive.archive_id, remote_archive.archive_id)),
                        Some(Keep::Local) => Ok(
                            Target {
                                local_target: None,
                                remote_target: Some(local_archive.copy()),
                                merged: false,
                            },
                        ),
                        Some(Keep::Remote) => Ok(
                            Target {
                                local_target: Some(remote_archive.copy()),
                                remote_target: None,
                                merged: false,
                            },
                        ),
                    };
                }
            }
            let outcome = merge_archives(local, remote)?;
            let MergeOutcome { archive, merged } = outcome;
            match archive {
                Some(archive) => Ok(
                    Target { local_target: Some(archive.copy()), remote_target: Some(archive), merged },
                ),
                None => Err(
                    SillokError::new(
                        "archive_missing",
                        String::from_str(
                            "cannot sync because local and remote archives are both missing",
                        ),
                    ),
                ),
            }
        },
    }
}

/// Reads an answer to the keep-which-side prompt: `l`/`local`, `r`/`remote`
/// or `a`/`abort`, ignoring surrounding whitespace and ASCII case; `None` for
/// anything else.
pub fn parse_answer(line: &str) -> (r: Option<Answer>)
    ensures
        ({
            let w = ascii_lower(trimmed(line@));
            r == if w == "l"@ || w == "local"@ {
                Some(Answer::Keep(Keep::Local))
            } else if w == "r"@ || w == "remote"@ {
                Some(Answer::Keep(Keep::Remote))
            } else if w == "a"@ || w == "abort"@ {
                Some(Answer::Abort)
            } else {
                None
            }
        }),
{
    let t = trim(line);
    let w = ascii_lowercase(t.as_str());
    let word = w.as_str();
    proof {
        reveal_strlit("l");
        reveal_strlit("local");
        reveal_strlit("r");
        reveal_strlit("remote");
        reveal_strlit("a");
        reveal_strlit("abort");
    }
    if text_eq(word, "l") || text_eq(word, "local") {
        Some(Answer::Keep(Keep::Local))
    } else if text_eq(word, "r") || text_eq(word, "remote") {
        Some(Answer::Keep(Keep::Remote))
    } else if text_eq(word, "a") || text_eq(word, "abort") {
        Some(Answer::Abort)
    } else {
        None
    }
}

} // verus!
