use vstd::prelude::*;

use crate::domain::event::{
    copy_events, events_view, ChronicleEvent, EventKind, EventView, KindView, WorkContext,
};
use crate::domain::id::ChronicleId;
use crate::domain::time::Timestamp;

verus! {

/// The only archive schema this library reads and writes.
pub const ARCHIVE_SCHEMA_VERSION: u32 = 1;

/// Append-only persisted archive.
#[derive(Debug, Clone, PartialEq, Eq)]
pub struct Archive {
    pub schema_version: u32,
    pub archive_id: ChronicleId,
    pub created_at: Timestamp,
    pub events: Vec<ChronicleEvent>,
}

/// Mathematical view of an archive.
pub struct ArchiveView {
    pub schema_version: u32,
    pub archive_id: u128,
    pub created_at: i64,
    pub events: Seq<EventView>,
}

impl View for Archive {
    type V = ArchiveView;

    open spec fn view(&self) -> ArchiveView {
        ArchiveView {
            schema_version: self.schema_version,
            archive_id: self.archive_id@,
            created_at: self.created_at@,
            events: events_view(self.events@),
        }
    }
}

impl Archive {
    /// Creates a new archive with an initialization event.
    pub fn new(recorded_at: Timestamp, actor: String, context: WorkContext) -> (a: Self)
        ensures
            a@.schema_version == ARCHIVE_SCHEMA_VERSION,
            a@.created_at == recorded_at@,
            a@.events.len() == 1,
            a@.events[0].kind == (KindView::ArchiveInitialized { archive_id: a@.archive_id }),
            a@.events[0].event_at == recorded_at@,
            a@.events[0].recorded_at == recorded_at@,
            a@.events[0].actor == actor@,
            a@.events[0].context == context@,
    {
        let archive_id = ChronicleId::new_v7();
        let init = ChronicleEvent::new(
            recorded_at,
            recorded_at,
            actor,
            context,
            EventKind::ArchiveInitialized { archive_id },
        );
        let events = vec![init];
        let a = Archive { schema_version: ARCHIVE_SCHEMA_VERSION, archive_id, created_at: recorded_at, events };
        assert(a@.events[0] == init@);
        a
    }

    /// Appends one event to the archive.
    pub fn push(&mut self, event: ChronicleEvent)
        ensures
            final(self)@ == (ArchiveView { events: old(self)@.events.push(event@), ..old(self)@ }),
    {
        self.events.push(event);
        assert(final(self)@.events =~= old(self)@.events.push(event@));
    }

    /// An equal copy of the archive.
    pub fn copy(&self) -> (a: Self)
        ensures
            a@ == self@,
    {
        Archive {
            schema_version: self.schema_version,
            archive_id: self.archive_id,
            created_at: self.created_at,
            events: copy_events(&self.events),
        }
    }

    /// Whether two archives are equal in every field and event.
    pub fn same(&self, other: &Self) -> (b: bool)
        ensures
            b == (self@ == other@),
    {
        if self.schema_version != other.schema_version || self.archive_id.as_u128()
            != other.archive_id.as_u128() || self.created_at.as_millis()
            != other.created_at.as_millis() || self.events.len() != other.events.len() {
            assert(self@.events.len() == self.events@.len());
            return false;
        }
        let mut i: usize = 0;
        while i < self.events.len()
            invariant
                i <= self.events.len(),
                self.events.len() == other.events.len(),
                forall|j: int| 0 <= j < i ==> #[trigger] self.events@[j]@ == other.events@[j]@,
            decreases self.events.len() - i,
        {
            if !self.events[i].same(&other.events[i]) {
                assert(self@.events[i as int] != other@.events[i as int]);
                return false;
            }
            i = i + 1;
        }
        assert(self@.events =~= other@.events);
        true
    }
}

} // verus!
