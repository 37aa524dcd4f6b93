use vstd::prelude::*;

use crate::domain::id::{is_v7, ChronicleId};
use crate::domain::time::{DayKey, DayKeyView, Timestamp};
use crate::text::{
    contains_text, copy_opt, copy_strs, opt_eq, opt_view, owned, strs_eq, strs_view, text_contains,
};

verus! {

/// Runtime context captured at event creation.
#[derive(Debug, Clone, PartialEq, Eq)]
pub struct WorkContext {
    pub cwd: Option<String>,
    pub git_root: Option<String>,
    pub git_branch: Option<String>,
    pub git_head: Option<String>,
    pub git_remote: Option<String>,
}

/// Mathematical view of a work context.
pub struct ContextView {
    pub cwd: Option<Seq<char>>,
    pub git_root: Option<Seq<char>>,
    pub git_branch: Option<Seq<char>>,
    pub git_head: Option<Seq<char>>,
    pub git_remote: Option<Seq<char>>,
}

impl ContextView {
    /// The compact context key: the Git root, else the cwd, else `unknown`.
    pub open spec fn key(self) -> Seq<char> {
        match self.git_root {
            Some(root) => root,
            None => match self.cwd {
                Some(cwd) => cwd,
                None => "unknown"@,
            },
        }
    }
}

impl View for WorkContext {
    type V = ContextView;

    open spec fn view(&self) -> ContextView {
        ContextView {
            cwd: opt_view(self.cwd),
            git_root: opt_view(self.git_root),
            git_branch: opt_view(self.git_branch),
            git_head: opt_view(self.git_head),
            git_remote: opt_view(self.git_remote),
        }
    }
}

impl WorkContext {
    /// Returns a compact context key for indexing.
    pub fn key(&self) -> (s: String)
        ensures
            s@ == self@.key(),
    {
        match &self.git_root {
            Some(value) => value.clone(),
            None => match &self.cwd {
                Some(value) => value.clone(),
                None => owned("unknown"),
            },
        }
    }

    /// Whether the context key contains `needle` (substring match).
    pub fn key_contains(&self, needle: &str) -> (b: bool)
        ensures
            b == contains_text(self@.key(), needle@),
    {
        let key = self.key();
        text_contains(key.as_str(), needle)
    }

    /// An equal copy of the context.
    pub fn copy(&self) -> (c: Self)
        ensures
            c@ == self@,
    {
        WorkContext {
            cwd: copy_opt(&self.cwd),
            git_root: copy_opt(&self.git_root),
            git_branch: copy_opt(&self.git_branch),
            git_head: copy_opt(&self.git_head),
            git_remote: copy_opt(&self.git_remote),
        }
    }

    /// Whether two contexts are equal.
    pub fn same(&self, other: &Self) -> (b: bool)
        ensures
            b == (self@ == other@),
    {
        opt_eq(&self.cwd, &other.cwd) && opt_eq(&self.git_root, &other.git_root) && opt_eq(
            &self.git_branch,
            &other.git_branch,
        ) && opt_eq(&self.git_head, &other.git_head) && opt_eq(&self.git_remote, &other.git_remote)
    }
}

/// Current lifecycle state derived for a chronicle record.
#[derive(Debug, Clone, Copy, PartialEq, Eq, Structural, Hash)]
pub enum RecordStatus {
    Open,
    Active,
    Blocked,
    Completed,
    Retracted,
}

/// Record kind in the derived chronicle view.
#[derive(Debug, Clone, Copy, PartialEq, Eq, Structural, Hash)]
pub enum RecordKind {
    Day,
    Task,
    Objective,
}

/// Domain mutation recorded in the archive.
#[derive(Debug, Clone, PartialEq, Eq)]
#[allow(inconsistent_fields)]
pub enum EventKind {
    ArchiveInitialized { archive_id: ChronicleId },
    DayOpened { day_id: ChronicleId, day_key: DayKey },
    ObjectiveAdded { objective_id: ChronicleId, day_id: ChronicleId, text: String, tags: Vec<String> },
    ObjectiveCompleted { objective_id: ChronicleId, note: Option<String> },
    TaskRecorded {
        task_id: ChronicleId,
        day_id: ChronicleId,
        parent_id: ChronicleId,
        text: String,
        purpose: Option<String>,
        tags: Vec<String>,
        status: RecordStatus,
    },
    TaskAmended {
        record_id: ChronicleId,
        text: Option<String>,
        status: Option<RecordStatus>,
        purpose: Option<String>,
        tags: Option<Vec<String>>,
    },
    TaskRetracted { record_id: ChronicleId, reason: String },
    TaskLinked { child_id: ChronicleId, parent_id: ChronicleId },
    TaskUnlinked { child_id: ChronicleId },
}

/// Mathematical view of an event kind.
#[allow(inconsistent_fields)]
pub enum KindView {
    ArchiveInitialized { archive_id: u128 },
    DayOpened { day_id: u128, day_key: DayKeyView },
    ObjectiveAdded { objective_id: u128, day_id: u128, text: Seq<char>, tags: Seq<Seq<char>> },
    ObjectiveCompleted { objective_id: u128, note: Option<Seq<char>> },
    TaskRecorded {
        task_id: u128,
        day_id: u128,
        parent_id: u128,
        text: Seq<char>,
        purpose: Option<Seq<char>>,
        tags: Seq<Seq<char>>,
        status: RecordStatus,
    },
    TaskAmended {
        record_id: u128,
        text: Option<Seq<char>>,
        status: Option<RecordStatus>,
        purpose: Option<Seq<char>>,
        tags: Option<Seq<Seq<char>>>,
    },
    TaskRetracted { record_id: u128, reason: Seq<char> },
    TaskLinked { child_id: u128, parent_id: u128 },
    TaskUnlinked { child_id: u128 },
}

/// View of optional tags.
pub open spec fn opt_strs_view(o: Option<Vec<String>>) -> Option<Seq<Seq<char>>> {
    match o {
        Some(v) => Some(strs_view(v@)),
        None => None,
    }
}

impl View for EventKind {
    type V = KindView;

    open spec fn view(&self) -> KindView {
        match self {
            EventKind::ArchiveInitialized { archive_id } => KindView::ArchiveInitialized {
                archive_id: archive_id@,
            },
            EventKind::DayOpened { day_id, day_key } => KindView::DayOpened {
                day_id: day_id@,
                day_key: day_key@,
            },
            EventKind::ObjectiveAdded { objective_id, day_id, text, tags } =>
                KindView::ObjectiveAdded {
                objective_id: objective_id@,
                day_id: day_id@,
                text: text@,
                tags: strs_view(tags@),
            },
            EventKind::ObjectiveCompleted { objective_id, note } => KindView::ObjectiveCompleted {
                objective_id: objective_id@,
                note: opt_view(*note),
            },
            EventKind::TaskRecorded { task_id, day_id, parent_id, text, purpose, tags, status } =>
                KindView::TaskRecorded {
                task_id: task_id@,
                day_id: day_id@,
                parent_id: parent_id@,
                text: text@,
                purpose: opt_view(*purpose),
                tags: strs_view(tags@),
                status: *status,
            },
            EventKind::TaskAmended { record_id, text, status, purpose, tags } =>
                KindView::TaskAmended {
                record_id: record_id@,
                text: opt_view(*text),
                status: *status,
                purpose: opt_view(*purpose),
                tags: opt_strs_view(*tags),
            },
            EventKind::TaskRetracted { record_id, reason } => KindView::TaskRetracted {
                record_id: record_id@,
                reason: reason@,
            },
            EventKind::TaskLinked { child_id, parent_id } => KindView::TaskLinked {
                child_id: child_id@,
                parent_id: parent_id@,
            },
            EventKind::TaskUnlinked { child_id } => KindView::TaskUnlinked { child_id: child_id@ },
        }
    }
}

impl KindView {
    /// The primary record id affected by an event kind.
    pub open spec fn primary(self) -> Option<u128> {
        match self {
            KindView::ArchiveInitialized { .. } => None,
            KindView::DayOpened { day_id, .. } => Some(day_id),
            KindView::ObjectiveAdded { objective_id, .. } => Some(objective_id),
            KindView::ObjectiveCompleted { objective_id, .. } => Some(objective_id),
            KindView::TaskRecorded { task_id, .. } => Some(task_id),
            KindView::TaskAmended { record_id, .. } => Some(record_id),
            KindView::TaskRetracted { record_id, .. } => Some(record_id),
            KindView::TaskLinked { child_id, .. } => Some(child_id),
            KindView::TaskUnlinked { child_id } => Some(child_id),
        }
    }

    /// All ids an event kind references, in field order.
    pub open spec fn referenced(self) -> Seq<u128> {
        match self {
            KindView::ArchiveInitialized { archive_id } => seq![archive_id],
            KindView::DayOpened { day_id, .. } => seq![day_id],
            KindView::ObjectiveAdded { objective_id, day_id, .. } => seq![objective_id, day_id],
            KindView::ObjectiveCompleted { objective_id, .. } => seq![objective_id],
            KindView::TaskRecorded { task_id, day_id, parent_id, .. } => seq![
                task_id,
                day_id,
                parent_id,
            ],
            KindView::TaskAmended { record_id, .. } => seq![record_id],
            KindView::TaskRetracted { record_id, .. } => seq![record_id],
            KindView::TaskLinked { child_id, parent_id } => seq![child_id, parent_id],
            KindView::TaskUnlinked { child_id } => seq![child_id],
        }
    }
}

/// An equal copy of optional tags.
fn copy_opt_strs(o: &Option<Vec<String>>) -> (r: Option<Vec<String>>)
    ensures
        opt_strs_view(r) == opt_strs_view(*o),
{
    match o {
        Some(v) => Some(copy_strs(v)),
        None => None,
    }
}

fn opt_strs_eq(a: &Option<Vec<String>>, b: &Option<Vec<String>>) -> (r: bool)
    ensures
        r == (opt_strs_view(*a) == opt_strs_view(*b)),
{
    match (a, b) {
        (Some(x), Some(y)) => strs_eq(x, y),
        (None, None) => true,
        _ => false,
    }
}

fn opt_status_eq(a: Option<RecordStatus>, b: Option<RecordStatus>) -> (r: bool)
    ensures
        r == (a == b),
{
    match (a, b) {
        (Some(x), Some(y)) => x == y,
        (None, None) => true,
        _ => false,
    }
}

impl EventKind {
    /// An equal copy of the kind.
    pub fn copy(&self) -> (k: Self)
        ensures
            k@ == self@,
    {
        match self {
            EventKind::ArchiveInitialized { archive_id } => EventKind::ArchiveInitialized {
                archive_id: *archive_id,
            },
            EventKind::DayOpened { day_id, day_key } => EventKind::DayOpened {
                day_id: *day_id,
                day_key: day_key.copy(),
            },
            EventKind::ObjectiveAdded { objective_id, day_id, text, tags } =>
                EventKind::ObjectiveAdded {
                objective_id: *objective_id,
                day_id: *day_id,
                text: text.clone(),
                tags: copy_strs(tags),
            },
            EventKind::ObjectiveCompleted { objective_id, note } =>
                EventKind::ObjectiveCompleted { objective_id: *objective_id, note: copy_opt(note) },
            EventKind::TaskRecorded { task_id, day_id, parent_id, text, purpose, tags, status } =>
                EventKind::TaskRecorded {
                task_id: *task_id,
                day_id: *day_id,
                parent_id: *parent_id,
                text: text.clone(),
                purpose: copy_opt(purpose),
                tags: copy_strs(tags),
                status: *status,
            },
            EventKind::TaskAmended { record_id, text, status, purpose, tags } =>
                EventKind::TaskAmended {
                record_id: *record_id,
                text: copy_opt(text),
                status: *status,
                purpose: copy_opt(purpose),
                tags: copy_opt_strs(tags),
            },
            EventKind::TaskRetracted { record_id, reason } => EventKind::TaskRetracted {
                record_id: *record_id,
                reason: reason.clone(),
            },
            EventKind::TaskLinked { child_id, parent_id } => EventKind::TaskLinked {
                child_id: *child_id,
                parent_id: *parent_id,
            },
            EventKind::TaskUnlinked { child_id } => EventKind::TaskUnlinked { child_id: *child_id },
        }
    }

    /// Whether two kinds are equal.
    pub fn same(&self, other: &Self) -> (b: bool)
        ensures
            b == (self@ == other@),
    {
        match (self, other) {
            (
                EventKind::ArchiveInitialized { archive_id: a },
                EventKind::ArchiveInitialized { archive_id: b },
            ) => a.as_u128() == b.as_u128(),
            (
                EventKind::DayOpened { day_id: a, day_key: ka },
                EventKind::DayOpened { day_id: b, day_key: kb },
            ) => a.as_u128() == b.as_u128() && ka.same(kb),
            (
                EventKind::ObjectiveAdded { objective_id: o1, day_id: d1, text: t1, tags: g1 },
                EventKind::ObjectiveAdded { objective_id: o2, day_id: d2, text: t2, tags: g2 },
            ) => o1.as_u128() == o2.as_u128() && d1.as_u128() == d2.as_u128() && t1.eq(t2)
                && strs_eq(g1, g2),
            (
                EventKind::ObjectiveCompleted { objective_id: o1, note: n1 },
                EventKind::ObjectiveCompleted { objective_id: o2, note: n2 },
            ) => o1.as_u128() == o2.as_u128() && opt_eq(n1, n2),
            (
                EventKind::TaskRecorded {
                    task_id: i1,
                    day_id: d1,
                    parent_id: p1,
                    text: t1,
                    purpose: u1,
                    tags: g1,
                    status: s1,
                },
                EventKind::TaskRecorded {
                    task_id: i2,
                    day_id: d2,
                    parent_id: p2,
                    text: t2,
                    purpose: u2,
                    tags: g2,
                    status: s2,
                },
            ) => i1.as_u128() == i2.as_u128() && d1.as_u128() == d2.as_u128() && p1.as_u128()
                == p2.as_u128() && t1.eq(t2) && opt_eq(u1, u2) && strs_eq(g1, g2) && *s1 == *s2,
            (
                EventKind::TaskAmended { record_id: r1, text: t1, status: s1, purpose: u1, tags: g1 },
                EventKind::TaskAmended { record_id: r2, text: t2, status: s2, purpose: u2, tags: g2 },
            ) => r1.as_u128() == r2.as_u128() && opt_eq(t1, t2) && opt_status_eq(*s1, *s2)
                && opt_eq(u1, u2) && opt_strs_eq(g1, g2),
            (
                EventKind::TaskRetracted { record_id: r1, reason: w1 },
                EventKind::TaskRetracted { record_id: r2, reason: w2 },
            ) => r1.as_u128() == r2.as_u128() && w1.eq(w2),
            (
                EventKind::TaskLinked { child_id: c1, parent_id: p1 },
                EventKind::TaskLinked { child_id: c2, parent_id: p2 },
            ) => c1.as_u128() == c2.as_u128() && p1.as_u128() == p2.as_u128(),
            (EventKind::TaskUnlinked { child_id: c1 }, EventKind::TaskUnlinked { child_id: c2 }) =>
                c1.as_u128() == c2.as_u128(),
            _ => false,
        }
    }

    /// Returns the primary record id affected by this event.
    pub fn primary_record_id(&self) -> (r: Option<ChronicleId>)
        ensures
            r matches Some(id) ==> self@.primary() == Some(id@),
            r is None ==> self@.primary() is None,
    {
        match self {
            EventKind::ArchiveInitialized { .. } => None,
            EventKind::DayOpened { day_id, .. } => Some(*day_id),
            EventKind::ObjectiveAdded { objective_id, .. } => Some(*objective_id),
            EventKind::ObjectiveCompleted { objective_id, .. } => Some(*objective_id),
            EventKind::TaskRecorded { task_id, .. } => Some(*task_id),
            EventKind::TaskAmended { record_id, .. } => Some(*record_id),
            EventKind::TaskRetracted { record_id, .. } => Some(*record_id),
            EventKind::TaskLinked { child_id, .. } => Some(*child_id),
            EventKind::TaskUnlinked { child_id } => Some(*child_id),
        }
    }

    /// Returns all record ids referenced by this event.
    pub fn referenced_ids(&self) -> (ids: Vec<ChronicleId>)
        ensures
            ids@.map_values(|id: ChronicleId| id@) == self@.referenced(),
    {
        let ids = match self {
            EventKind::ArchiveInitialized { archive_id } => vec![*archive_id],
            EventKind::DayOpened { day_id, .. } => vec![*day_id],
            EventKind::ObjectiveAdded { objective_id, day_id, .. } => vec![*objective_id, *day_id],
            EventKind::ObjectiveCompleted { objective_id, .. } => vec![*objective_id],
            EventKind::TaskRecorded { task_id, day_id, parent_id, .. } => vec![
                *task_id,
                *day_id,
                *parent_id,
            ],
            EventKind::TaskAmended { record_id, .. } => vec![*record_id],
            EventKind::TaskRetracted { record_id, .. } => vec![*record_id],
            EventKind::TaskLinked { child_id, parent_id } => vec![*child_id, *parent_id],
            EventKind::TaskUnlinked { child_id } => vec![*child_id],
        };
        assert(ids@.map_values(|id: ChronicleId| id@) =~= self@.referenced());
        ids
    }

    /// Whether this event kind references `id`.
    pub fn references(&self, id: ChronicleId) -> (b: bool)
        ensures
            b == self@.referenced().contains(id@),
    {
        let ids = self.referenced_ids();
        let mut i: usize = 0;
        while i < ids.len()
            invariant
                i <= ids.len(),
                ids@.map_values(|x: ChronicleId| x@) == self@.referenced(),
                forall|j: int| 0 <= j < i ==> ids@[j]@ != id@,
            decreases ids.len() - i,
        {
            if ids[i].as_u128() == id.as_u128() {
                assert(self@.referenced()[i as int] == id@);
                return true;
            }
            i = i + 1;
        }
        assert forall|j: int| 0 <= j < self@.referenced().len() implies self@.referenced()[j]
            != id@ by {
            assert(self@.referenced()[j] == ids@[j]@);
        }
        false
    }
}

/// One append-only event in the archive.
#[derive(Debug, Clone, PartialEq, Eq)]
pub struct ChronicleEvent {
    pub event_id: ChronicleId,
    pub event_at: Timestamp,
    pub recorded_at: Timestamp,
    pub actor: String,
    pub context: WorkContext,
    pub kind: EventKind,
}

/// Mathematical view of an event.
pub struct EventView {
    pub event_id: u128,
    pub event_at: i64,
    pub recorded_at: i64,
    pub actor: Seq<char>,
    pub context: ContextView,
    pub kind: KindView,
}

impl View for ChronicleEvent {
    type V = EventView;

    open spec fn view(&self) -> EventView {
        EventView {
            event_id: self.event_id@,
            event_at: self.event_at@,
            recorded_at: self.recorded_at@,
            actor: self.actor@,
            context: self.context@,
            kind: self.kind@,
        }
    }
}

/// View of a list of events.
pub open spec fn events_view(v: Seq<ChronicleEvent>) -> Seq<EventView> {
    v.map_values(|e: ChronicleEvent| e@)
}

impl ChronicleEvent {
    /// Creates an event with a fresh event id.
    pub fn new(
        event_at: Timestamp,
        recorded_at: Timestamp,
        actor: String,
        context: WorkContext,
        kind: EventKind,
    ) -> (e: Self)
        ensures
            e.event_at == event_at,
            e.recorded_at == recorded_at,
            e.actor@ == actor@,
            e.context@ == context@,
            e.kind@ == kind@,
            is_v7(e.event_id@),
    {
        ChronicleEvent { event_id: ChronicleId::new_v7(), event_at, recorded_at, actor, context, kind }
    }

    /// Returns the primary record id affected by this event.
    pub fn primary_record_id(&self) -> (r: Option<ChronicleId>)
        ensures
            r matches Some(id) ==> self@.kind.primary() == Some(id@),
            r is None ==> self@.kind.primary() is None,
    {
        self.kind.primary_record_id()
    }

    /// Whether this event references `id`.
    pub fn references(&self, id: ChronicleId) -> (b: bool)
        ensures
            b == self@.kind.referenced().contains(id@),
    {
        self.kind.references(id)
    }

    /// An equal copy of the event.
    pub fn copy(&self) -> (e: Self)
        ensures
            e@ == self@,
    {
        ChronicleEvent {
            event_id: self.event_id,
            event_at: self.event_at,
            recorded_at: self.recorded_at,
            actor: self.actor.clone(),
            context: self.context.copy(),
            kind: self.kind.copy(),
        }
    }

    /// Whether two events are equal in every field.
    pub fn same(&self, other: &Self) -> (b: bool)
        ensures
            b == (self@ == other@),
    {
        self.event_id.as_u128() == other.event_id.as_u128() && self.event_at.as_millis()
            == other.event_at.as_millis() && self.recorded_at.as_millis()
            == other.recorded_at.as_millis() && self.actor.eq(&other.actor) && self.context.same(
            &other.context,
        ) && self.kind.same(&other.kind)
    }
}

/// An equal copy of a list of events.
pub fn copy_events(v: &Vec<ChronicleEvent>) -> (r: Vec<ChronicleEvent>)
    ensures
        events_view(r@) == events_view(v@),
{
    let mut r: Vec<ChronicleEvent> = Vec::new();
    let mut i: usize = 0;
    while i < v.len()
        invariant
            i <= v.len(),
            r@.len() == i,
            forall|j: int| 0 <= j < i ==> #[trigger] r@[j]@ == v@[j]@,
        decreases v.len() - i,
    {
        r.push(v[i].copy());
        i = i + 1;
    }
    assert(events_view(r@) =~= events_view(v@));
    r
}

} // verus!
