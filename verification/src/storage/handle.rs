use vstd::prelude::*;

use crate::error::SillokError;
use crate::storage::sql::store::SqlStore;
use crate::storage::store::ArchiveStore;
use crate::text::{ends_with, owned, push_str};

verus! {

/// Where the segment ending at `end` starts: just after the nearest `/` before it.
pub open spec fn segment_start(p: Seq<char>, end: int) -> int
    decreases end,
{
    if end <= 0 || p[end - 1] == '/' {
        end
    } else {
        segment_start(p, end - 1)
    }
}

/// The last segment of `p[..end]` that is neither empty nor `.` (the final
/// component that `Path::file_name` reports), or `None` when there is none.
pub open spec fn last_segment_before(p: Seq<char>, end: int) -> Option<Seq<char>>
    decreases end,
{
    if end <= 0 {
        None
    } else if p[end - 1] == '/' {
        last_segment_before(p, end - 1)
    } else {
        let start = segment_start(p, end);
        if end == start + 1 && p[start] == '.' {
            last_segment_before(p, start)
        } else {
            Some(p.subrange(start, end))
        }
    }
}

/// The file name of a path: its last segment that is neither empty nor `.`.
pub open spec fn last_segment(p: Seq<char>) -> Option<Seq<char>> {
    last_segment_before(p, p.len() as int)
}

/// The path names a legacy compressed archive: its file name ends in `.slk.zst`.
pub open spec fn legacy_path(p: Seq<char>) -> bool {
    last_segment(p) matches Some(name) && name.len() >= 8 && name.subrange(
        name.len() - 8,
        name.len() as int,
    ) == ".slk.zst"@
}

/// The file name of `path`, found scanning from the end.
fn file_name(path: &str) -> (r: Option<String>)
    ensures
        r matches Some(s) ==> last_segment(path@) == Some(s@),
        r is None ==> last_segment(path@) is None,
{
    let n = path.unicode_len();
    let mut end: usize = n;
    loop
        invariant
            n == path@.len(),
            end <= n,
            last_segment_before(path@, end as int) == last_segment(path@),
        decreases end,
    {
        if end == 0 {
            return None;
        }
        if path.get_char(end - 1) == '/' {
            end = end - 1;
        } else {
            let mut start: usize = end;
            while start > 0 && path.get_char(start - 1) != '/'
                invariant
                    n == path@.len(),
                    start <= end <= n,
                    end > 0,
                    path@[end - 1] != '/',
                    segment_start(path@, start as int) == segment_start(path@, end as int),
                decreases start,
            {
                start = start - 1;
            }
            assert(segment_start(path@, start as int) == start);
            if end == start + 1 && path.get_char(start) == '.' {
                end = start;
            } else {
                let mut name = String::new();
                let mut k: usize = start;
                while k < end
                    invariant
                        n == path@.len(),
                        start <= k <= end <= n,
                        name@ == path@.subrange(start as int, k as int),
                    decreases end - k,
                {
                    crate::text::push_char(&mut name, path.get_char(k));
                    assert(path@.subrange(start as int, k + 1) =~= path@.subrange(
                        start as int,
                        k as int,
                    ).push(path@[k as int]));
                    k = k + 1;
                }
                return Some(name);
            }
        }
    }
}

/// Whether a path names a legacy compressed archive (file name ending in `.slk.zst`).
pub fn is_legacy_store_path(path: &str) -> (b: bool)
    ensures
        b == legacy_path(path@),
{
    proof {
        reveal_strlit(".slk.zst");
    }
    match file_name(path) {
        Some(name) => ends_with(name.as_str(), ".slk.zst"),
        None => false,
    }
}

/// User-selected store path plus backend detection helpers.
#[derive(Debug, Clone)]
pub struct StoreHandle {
    path: String,
}

/// Text of the error for a mutation on a legacy archive path.
pub open spec fn migration_message(p: Seq<char>) -> Seq<char> {
    "`"@ + p + "` is a legacy archive; run `sillok migrate --store "@ + p + "` first"@
}

impl StoreHandle {
    /// Creates a handle for a concrete store path.
    pub fn new(path: String) -> (h: Self)
        ensures
            h.path_view() == path@,
    {
        StoreHandle { path }
    }

    /// The requested store path.
    pub closed spec fn path_view(&self) -> Seq<char> {
        self.path@
    }

    /// Returns the requested store path.
    pub fn path(&self) -> (p: &str)
        ensures
            p@ == self.path_view(),
    {
        self.path.as_str()
    }

    /// Returns whether the path names a legacy compressed archive.
    pub fn is_legacy_path(&self) -> (b: bool)
        ensures
            b == legacy_path(self.path_view()),
    {
        is_legacy_store_path(self.path.as_str())
    }

    /// Builds a legacy archive store wrapper.
    pub fn legacy(&self) -> (s: ArchiveStore)
        ensures
            s.path_view() == self.path_view(),
    {
        ArchiveStore::new(self.path.clone())
    }

    /// Builds a Turso-backed store wrapper.
    pub fn sql(&self) -> (s: SqlStore)
        ensures
            s.path_view() == self.path_view(),
    {
        SqlStore::new(self.path.clone())
    }

    /// Requires a mutable database path.
    pub fn require_sql_mutation(&self) -> (r: Result<SqlStore, SillokError>)
        ensures
            r is Ok <==> !legacy_path(self.path_view()),
            r matches Ok(s) ==> s.path_view() == self.path_view(),
            r matches Err(e) ==> e.code == "migration_required" && e.message@ == migration_message(
                self.path_view(),
            ),
    {
        if self.is_legacy_path() {
            let mut message = String::from_str("`");
            push_str(&mut message, self.path.as_str());
            push_str(&mut message, "` is a legacy archive; run `sillok migrate --store ");
            push_str(&mut message, self.path.as_str());
            push_str(&mut message, "` first");
            proof {
                reveal_strlit("`");
                reveal_strlit("` is a legacy archive; run `sillok migrate --store ");
                reveal_strlit("` first");
            }
            Err(SillokError::new("migration_required", message))
        } else {
            Ok(self.sql())
        }
    }
}

} // verus!
