use vstd::prelude::*;

use crate::domain::archive::{Archive, ArchiveView, ARCHIVE_SCHEMA_VERSION};
use crate::domain::event::{KindView, WorkContext};
use crate::domain::time::Timestamp;

verus! {

/// The legacy compressed-archive store at a path.
#[derive(Debug, Clone)]
pub struct ArchiveStore {
    path: String,
}

impl ArchiveStore {
    /// A store handle for `path`.
    pub fn new(path: String) -> (s: Self)
        ensures
            s.path_view() == path@,
    {
        ArchiveStore { path }
    }

    /// The store's path.
    pub closed spec fn path_view(&self) -> Seq<char> {
        self.path@
    }

    /// Returns the store's path.
    pub fn path(&self) -> (p: &str)
        ensures
            p@ == self.path_view(),
    {
        self.path.as_str()
    }

    /// The archive to start from: the one on disk, or a fresh one when the
    /// store file does not exist (`existing` is what was read from disk).
    pub fn read_or_new(
        &self,
        existing: Option<Archive>,
        recorded_at: Timestamp,
        actor: String,
        context: WorkContext,
    ) -> (a: Archive)
        ensures
            existing matches Some(e) ==> a@ == e@,
            existing is None ==> fresh_archive(a@, recorded_at@, actor@, context@),
    {
        match existing {
            Some(archive) => archive,
            None => Archive::new(recorded_at, actor, context),
        }
    }

    /// The archive after initializing: the existing one, or a fresh one that
    /// must then be written; the flag says whether it was created.
    pub fn init(
        &self,
        existing: Option<Archive>,
        recorded_at: Timestamp,
        actor: String,
        context: WorkContext,
    ) -> (r: (Archive, bool))
        ensures
            existing matches Some(e) ==> r.0@ == e@ && !r.1,
            existing is None ==> fresh_archive(r.0@, recorded_at@, actor@, context@) && r.1,
    {
        let created = existing.is_none();
        (self.read_or_new(existing, recorded_at, actor, context), created)
    }
}

/// `a` is a fresh archive made at `recorded_at` by `actor` in `context`.
pub open spec fn fresh_archive(a: ArchiveView, recorded_at: i64, actor: Seq<char>, context: crate::domain::event::ContextView) -> bool {
    &&& a.schema_version == ARCHIVE_SCHEMA_VERSION
    &&& a.created_at == recorded_at
    &&& a.events.len() == 1
    &&& a.events[0].kind == (KindView::ArchiveInitialized { archive_id: a.archive_id })
    &&& a.events[0].event_at == recorded_at
    &&& a.events[0].recorded_at == recorded_at
    &&& a.events[0].actor == actor
    &&& a.events[0].context == context
}


} // verus!
