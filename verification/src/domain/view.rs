use vstd::prelude::*;

use std::collections::HashMap;

use crate::domain::archive::{Archive, ArchiveView, ARCHIVE_SCHEMA_VERSION};
use crate::domain::graph::{parents_acyclic, validate_parent_graph};
use crate::domain::index_lookup::lookup_day_bucket;
use crate::domain::indexes::{
    day_bucket, ids_view, lemma_filter_take_step, rebuild_indexes, timeline_ok, view_buckets_nonempty,
    view_indexed,
};
use crate::domain::reducer::missing_message;
use crate::error::SillokError;
use crate::text::{push_decimal, push_str};
use crate::domain::event::{ContextView, EventView, KindView, RecordKind, RecordStatus, WorkContext};
use crate::domain::id::ChronicleId;
use crate::domain::time::{DayKey, DayKeyView, Timestamp};
use crate::text::{copy_opt, copy_strs, opt_view, strs_view};

verus! {

broadcast use vstd::std_specs::hash::group_hash_axioms;

/// Current record state derived from append-only events.
#[derive(Debug, Clone, PartialEq, Eq)]
pub struct DerivedRecord {
    pub record_id: ChronicleId,
    pub kind: RecordKind,
    pub day_id: ChronicleId,
    pub parent_id: Option<ChronicleId>,
    pub text: String,
    pub purpose: Option<String>,
    pub tags: Vec<String>,
    pub status: RecordStatus,
    pub created_at: Timestamp,
    pub updated_at: Timestamp,
    pub context: WorkContext,
    pub retraction_reason: Option<String>,
    pub day_key: Option<DayKey>,
}

/// Mathematical view of a derived record.
pub struct RecordView {
    pub record_id: u128,
    pub kind: RecordKind,
    pub day_id: u128,
    pub parent_id: Option<u128>,
    pub text: Seq<char>,
    pub purpose: Option<Seq<char>>,
    pub tags: Seq<Seq<char>>,
    pub status: RecordStatus,
    pub created_at: i64,
    pub updated_at: i64,
    pub context: ContextView,
    pub retraction_reason: Option<Seq<char>>,
    pub day_key: Option<DayKeyView>,
}

/// View of an optional id.
pub open spec fn opt_id_view(o: Option<ChronicleId>) -> Option<u128> {
    match o {
        Some(id) => Some(id@),
        None => None,
    }
}

/// View of an optional day key.
pub open spec fn opt_key_view(o: Option<DayKey>) -> Option<DayKeyView> {
    match o {
        Some(k) => Some(k@),
        None => None,
    }
}

impl View for DerivedRecord {
    type V = RecordView;

    open spec fn view(&self) -> RecordView {
        RecordView {
            record_id: self.record_id@,
            kind: self.kind,
            day_id: self.day_id@,
            parent_id: opt_id_view(self.parent_id),
            text: self.text@,
            purpose: opt_view(self.purpose),
            tags: strs_view(self.tags@),
            status: self.status,
            created_at: self.created_at@,
            updated_at: self.updated_at@,
            context: self.context@,
            retraction_reason: opt_view(self.retraction_reason),
            day_key: opt_key_view(self.day_key),
        }
    }
}

/// View of a list of records.
pub open spec fn records_view(v: Seq<DerivedRecord>) -> Seq<RecordView> {
    v.map_values(|r: DerivedRecord| r@)
}

impl DerivedRecord {
    /// An equal copy of the record.
    pub fn copy(&self) -> (r: Self)
        ensures
            r@ == self@,
    {
        DerivedRecord {
            record_id: self.record_id,
            kind: self.kind,
            day_id: self.day_id,
            parent_id: self.parent_id,
            text: self.text.clone(),
            purpose: copy_opt(&self.purpose),
            tags: copy_strs(&self.tags),
            status: self.status,
            created_at: self.created_at,
            updated_at: self.updated_at,
            context: self.context.copy(),
            retraction_reason: copy_opt(&self.retraction_reason),
            day_key: match &self.day_key {
                Some(k) => Some(k.copy()),
                None => None,
            },
        }
    }
}

/// Tree output node used by `tree` and day summaries.
#[derive(Debug)]
pub struct RecordTreeNode {
    pub record: DerivedRecord,
    pub children: Vec<RecordTreeNode>,
}

/// The derived state that replaying events produces.
pub struct ChronicleState {
    /// Current records by id.
    pub records: Map<u128, RecordView>,
    /// Day records by day key, in the order the days were first opened.
    pub days: Seq<(DayKeyView, u128)>,
    /// Day ids opened again for an already-open day key, mapped to the first one.
    pub aliases: Map<u128, u128>,
}

/// The state before any event.
pub open spec fn empty_state() -> ChronicleState {
    ChronicleState { records: Map::empty(), days: Seq::empty(), aliases: Map::empty() }
}

/// The first day id recorded for a key.
pub open spec fn day_lookup(days: Seq<(DayKeyView, u128)>, key: DayKeyView) -> Option<u128>
    decreases days.len(),
{
    if days.len() == 0 {
        None
    } else if days[0].0 == key {
        Some(days[0].1)
    } else {
        day_lookup(days.drop_first(), key)
    }
}

/// Resolves a day alias to its canonical day id; other ids map to themselves.
pub open spec fn canonical(s: ChronicleState, id: u128) -> u128 {
    if s.aliases.contains_key(id) {
        s.aliases[id]
    } else {
        id
    }
}

/// The `Day <date>` text of a day record.
pub open spec fn day_text(key: DayKeyView) -> Seq<char> {
    "Day "@ + key.date
}

/// The record a `DayOpened` event creates.
pub open spec fn day_record(e: EventView, day_id: u128, key: DayKeyView) -> RecordView {
    RecordView {
        record_id: day_id,
        kind: RecordKind::Day,
        day_id: day_id,
        parent_id: None,
        text: day_text(key),
        purpose: None,
        tags: Seq::empty(),
        status: RecordStatus::Open,
        created_at: e.event_at,
        updated_at: e.recorded_at,
        context: e.context,
        retraction_reason: None,
        day_key: Some(key),
    }
}

/// The record an `ObjectiveAdded` event creates under day `day_id`.
pub open spec fn objective_record(
    e: EventView,
    objective_id: u128,
    day_id: u128,
    text: Seq<char>,
    tags: Seq<Seq<char>>,
) -> RecordView {
    RecordView {
        record_id: objective_id,
        kind: RecordKind::Objective,
        day_id: day_id,
        parent_id: Some(day_id),
        text: text,
        purpose: None,
        tags: tags,
        status: RecordStatus::Open,
        created_at: e.event_at,
        updated_at: e.recorded_at,
        context: e.context,
        retraction_reason: None,
        day_key: None,
    }
}

/// The record a `TaskRecorded` event creates.
pub open spec fn task_record(
    e: EventView,
    task_id: u128,
    day_id: u128,
    parent_id: u128,
    text: Seq<char>,
    purpose: Option<Seq<char>>,
    tags: Seq<Seq<char>>,
    status: RecordStatus,
) -> RecordView {
    RecordView {
        record_id: task_id,
        kind: RecordKind::Task,
        day_id: day_id,
        parent_id: Some(parent_id),
        text: text,
        purpose: purpose,
        tags: tags,
        status: status,
        created_at: e.event_at,
        updated_at: e.recorded_at,
        context: e.context,
        retraction_reason: None,
        day_key: None,
    }
}

/// Keeps `old` when the amendment leaves a field out.
pub open spec fn amended<T>(old: T, new: Option<T>) -> T {
    match new {
        Some(v) => v,
        None => old,
    }
}

/// The effect of one event on the derived state. An event that references a
/// record that does not exist fails with that record's (canonical) id.
pub open spec fn step(s: ChronicleState, e: EventView) -> Result<ChronicleState, u128> {
    match e.kind {
        KindView::ArchiveInitialized { .. } => Ok(s),
        KindView::DayOpened { day_id, day_key } => match day_lookup(s.days, day_key) {
            Some(first) => if first != day_id {
                Ok(ChronicleState { aliases: s.aliases.insert(day_id, first), ..s })
            } else {
                Ok(
                    ChronicleState {
                        records: s.records.insert(day_id, day_record(e, day_id, day_key)),
                        ..s
                    },
                )
            },
            None => Ok(
                ChronicleState {
                    records: s.records.insert(day_id, day_record(e, day_id, day_key)),
                    days: s.days.push((day_key, day_id)),
                    ..s
                },
            ),
        },
        KindView::ObjectiveAdded { objective_id, day_id, text, tags } => {
            let d = canonical(s, day_id);
            if !s.records.contains_key(d) {
                Err(d)
            } else {
                Ok(
                    ChronicleState {
                        records: s.records.insert(
                            objective_id,
                            objective_record(e, objective_id, d, text, tags),
                        ),
                        ..s
                    },
                )
            }
        },
        KindView::ObjectiveCompleted { objective_id, note } => {
            let id = canonical(s, objective_id);
            if !s.records.contains_key(id) {
                Err(id)
            } else {
                let r = s.records[id];
                Ok(
                    ChronicleState {
                        records: s.records.insert(
                            id,
                            RecordView {
                                status: RecordStatus::Completed,
                                updated_at: e.recorded_at,
                                purpose: if note is Some {
                                    note
                                } else {
                                    r.purpose
                                },
                                ..r
                            },
                        ),
                        ..s
                    },
                )
            }
        },
        KindView::TaskRecorded { task_id, day_id, parent_id, text, purpose, tags, status } => {
            let d = canonical(s, day_id);
            let p = canonical(s, parent_id);
            if !s.records.contains_key(d) {
                Err(d)
            } else if !s.records.contains_key(p) {
                Err(p)
            } else {
                Ok(
                    ChronicleState {
                        records: s.records.insert(
                            task_id,
                            task_record(e, task_id, d, p, text, purpose, tags, status),
                        ),
                        ..s
                    },
                )
            }
        },
        KindView::TaskAmended { record_id, text, status, purpose, tags } => {
            let id = canonical(s, record_id);
            if !s.records.contains_key(id) {
                Err(id)
            } else {
                let r = s.records[id];
                Ok(
                    ChronicleState {
                        records: s.records.insert(
                            id,
                            RecordView {
                                text: amended(r.text, text),
                                status: amended(r.status, status),
                                purpose: if purpose is Some {
                                    purpose
                                } else {
                                    r.purpose
                                },
                                tags: amended(r.tags, tags),
                                updated_at: e.recorded_at,
                                ..r
                            },
                        ),
                        ..s
                    },
                )
            }
        },
        KindView::TaskRetracted { record_id, reason } => {
            let id = canonical(s, record_id);
            if !s.records.contains_key(id) {
                Err(id)
            } else {
                let r = s.records[id];
                Ok(
                    ChronicleState {
                        records: s.records.insert(
                            id,
                            RecordView {
                                status: RecordStatus::Retracted,
                                retraction_reason: Some(reason),
                                updated_at: e.recorded_at,
                                ..r
                            },
                        ),
                        ..s
                    },
                )
            }
        },
        KindView::TaskLinked { child_id, parent_id } => {
            let p = canonical(s, parent_id);
            let c = canonical(s, child_id);
            if !s.records.contains_key(p) {
                Err(p)
            } else if !s.records.contains_key(c) {
                Err(c)
            } else {
                let r = s.records[c];
                Ok(
                    ChronicleState {
                        records: s.records.insert(
                            c,
                            RecordView { parent_id: Some(p), updated_at: e.recorded_at, ..r },
                        ),
                        ..s
                    },
                )
            }
        },
        KindView::TaskUnlinked { child_id } => {
            let c = canonical(s, child_id);
            if !s.records.contains_key(c) {
                Err(c)
            } else {
                let r = s.records[c];
                Ok(
                    ChronicleState {
                        records: s.records.insert(
                            c,
                            RecordView { parent_id: None, updated_at: e.recorded_at, ..r },
                        ),
                        ..s
                    },
                )
            }
        },
    }
}

/// Replays events in order from a state; the first failing event's missing id is the error.
pub open spec fn replay(s: ChronicleState, events: Seq<EventView>) -> Result<ChronicleState, u128>
    decreases events.len(),
{
    if events.len() == 0 {
        Ok(s)
    } else {
        match replay(s, events.drop_last()) {
            Ok(mid) => step(mid, events.last()),
            Err(id) => Err(id),
        }
    }
}

/// What every replayed state satisfies: records sit under their own id, and
/// every parent, day, day-index entry and alias names an existing record.
pub open spec fn state_inv(s: ChronicleState) -> bool {
    &&& forall|id: u128| #[trigger] s.records.contains_key(id) ==> s.records[id].record_id == id
    &&& forall|id: u128| #[trigger]
        s.records.contains_key(id) ==> (s.records[id].parent_id matches Some(p)
            ==> s.records.contains_key(p))
    &&& forall|id: u128| #[trigger]
        s.records.contains_key(id) ==> s.records.contains_key(s.records[id].day_id)
    &&& forall|i: int| 0 <= i < s.days.len() ==> s.records.contains_key(#[trigger] s.days[i].1)
    &&& forall|a: u128| #[trigger]
        s.aliases.contains_key(a) ==> s.records.contains_key(s.aliases[a])
}

pub proof fn lemma_day_lookup_in(days: Seq<(DayKeyView, u128)>, key: DayKeyView)
    ensures
        day_lookup(days, key) matches Some(id) ==> exists|i: int|
            0 <= i < days.len() && #[trigger] days[i].1 == id,
    decreases days.len(),
{
    if days.len() > 0 && days[0].0 != key {
        lemma_day_lookup_in(days.drop_first(), key);
        if day_lookup(days, key) is Some {
            let id = day_lookup(days, key)->0;
            let i = choose|i: int| 0 <= i < days.drop_first().len() && #[trigger] days.drop_first()[i].1 == id;
            assert(days[i + 1].1 == id);
        }
    } else if days.len() > 0 {
        assert(days[0].1 == day_lookup(days, key)->0);
    }
}

proof fn lemma_insert_inv(s: ChronicleState, k: u128, r: RecordView)
    requires
        state_inv(s),
        r.record_id == k,
        r.parent_id matches Some(p) ==> s.records.contains_key(p),
        s.records.contains_key(r.day_id) || r.day_id == k,
    ensures
        state_inv(ChronicleState { records: s.records.insert(k, r), ..s }),
{
    let t = ChronicleState { records: s.records.insert(k, r), ..s };
    assert forall|id: u128| #[trigger] t.records.contains_key(id) implies t.records[id].record_id
        == id && (t.records[id].parent_id matches Some(p) ==> t.records.contains_key(p))
        && t.records.contains_key(t.records[id].day_id) by {
        if id != k {
            assert(s.records.contains_key(id));
        }
    }
    assert forall|i: int| 0 <= i < t.days.len() implies t.records.contains_key(
        #[trigger] t.days[i].1,
    ) by {
        assert(s.records.contains_key(s.days[i].1));
    }
    assert forall|a: u128| #[trigger] t.aliases.contains_key(a) implies t.records.contains_key(
        t.aliases[a],
    ) by {
        assert(s.records.contains_key(s.aliases[a]));
    }
}

/// Every step keeps the state invariant.
pub proof fn lemma_step_inv(s: ChronicleState, e: EventView)
    requires
        state_inv(s),
        step(s, e) is Ok,
    ensures
        state_inv(step(s, e)->Ok_0),
{
    match e.kind {
        KindView::ArchiveInitialized { .. } => {},
        KindView::DayOpened { day_id, day_key } => {
            lemma_day_lookup_in(s.days, day_key);
            match day_lookup(s.days, day_key) {
                Some(first) => {
                    let i = choose|i: int| 0 <= i < s.days.len() && #[trigger] s.days[i].1 == first;
                    assert(s.records.contains_key(s.days[i].1));
                    if first != day_id {
                        let t = step(s, e)->Ok_0;
                        assert forall|a: u128| #[trigger] t.aliases.contains_key(a) implies t.records.contains_key(
                            t.aliases[a],
                        ) by {
                            if a != day_id {
                                assert(s.records.contains_key(s.aliases[a]));
                            }
                        }
                    } else {
                        lemma_insert_inv(s, day_id, day_record(e, day_id, day_key));
                    }
                },
                None => {
                    lemma_insert_inv(s, day_id, day_record(e, day_id, day_key));
                    let m = ChronicleState {
                        records: s.records.insert(day_id, day_record(e, day_id, day_key)),
                        ..s
                    };
                    let t = step(s, e)->Ok_0;
                    assert(t == ChronicleState { days: m.days.push((day_key, day_id)), ..m });
                    assert forall|i: int| 0 <= i < t.days.len() implies t.records.contains_key(
                        #[trigger] t.days[i].1,
                    ) by {
                        if i < s.days.len() {
                            assert(t.days[i] == m.days[i]);
                            assert(m.records.contains_key(m.days[i].1));
                        }
                    }
                },
            }
        },
        KindView::ObjectiveAdded { objective_id, day_id, text, tags } => {
            let d = canonical(s, day_id);
            lemma_insert_inv(s, objective_id, objective_record(e, objective_id, d, text, tags));
        },
        KindView::ObjectiveCompleted { objective_id, note } => {
            let id = canonical(s, objective_id);
            let r = s.records[id];
            lemma_insert_inv(
                s,
                id,
                RecordView {
                    status: RecordStatus::Completed,
                    updated_at: e.recorded_at,
                    purpose: if note is Some {
                        note
                    } else {
                        r.purpose
                    },
                    ..r
                },
            );
        },
        KindView::TaskRecorded { task_id, day_id, parent_id, text, purpose, tags, status } => {
            let d = canonical(s, day_id);
            let p = canonical(s, parent_id);
            lemma_insert_inv(s, task_id, task_record(e, task_id, d, p, text, purpose, tags, status));
        },
        KindView::TaskAmended { record_id, text, status, purpose, tags } => {
            let id = canonical(s, record_id);
            let r = s.records[id];
            lemma_insert_inv(
                s,
                id,
                RecordView {
                    text: amended(r.text, text),
                    status: amended(r.status, status),
                    purpose: if purpose is Some {
                        purpose
                    } else {
                        r.purpose
                    },
                    tags: amended(r.tags, tags),
                    updated_at: e.recorded_at,
                    ..r
                },
            );
        },
        KindView::TaskRetracted { record_id, reason } => {
            let id = canonical(s, record_id);
            let r = s.records[id];
            lemma_insert_inv(
                s,
                id,
                RecordView {
                    status: RecordStatus::Retracted,
                    retraction_reason: Some(reason),
                    updated_at: e.recorded_at,
                    ..r
                },
            );
        },
        KindView::TaskLinked { child_id, parent_id } => {
            let p = canonical(s, parent_id);
            let c = canonical(s, child_id);
            let r = s.records[c];
            lemma_insert_inv(s, c, RecordView { parent_id: Some(p), updated_at: e.recorded_at, ..r });
        },
        KindView::TaskUnlinked { child_id } => {
            let c = canonical(s, child_id);
            let r = s.records[c];
            lemma_insert_inv(s, c, RecordView { parent_id: None, updated_at: e.recorded_at, ..r });
        },
    }
}

/// Replaying from the empty state keeps the state invariant.
pub proof fn lemma_replay_inv(events: Seq<EventView>)
    requires
        replay(empty_state(), events) is Ok,
    ensures
        state_inv(replay(empty_state(), events)->Ok_0),
    decreases events.len(),
{
    if events.len() > 0 {
        lemma_replay_inv(events.drop_last());
        lemma_step_inv(replay(empty_state(), events.drop_last())->Ok_0, events.last());
    }
}

/// A replayed state holds finitely many records.
pub proof fn lemma_replay_finite(events: Seq<EventView>)
    requires
        replay(empty_state(), events) is Ok,
    ensures
        replay(empty_state(), events)->Ok_0.records.dom().finite(),
    decreases events.len(),
{
    if events.len() == 0 {
        assert(empty_state().records.dom() =~= Set::<u128>::empty());
    } else {
        lemma_replay_finite(events.drop_last());
        let s = replay(empty_state(), events.drop_last())->Ok_0;
        let t = step(s, events.last())->Ok_0;
        assert(t.records.dom() =~= s.records.dom() || exists|k: u128| t.records.dom() =~= s.records.dom().insert(k));
    }
}

/// A recorded task becomes a record under its own id that carries the
/// event's text, purpose, tags and status, is created at the event time and
/// updated at the recording time, and hangs below the canonical parent on the
/// canonical day.
pub proof fn lemma_task_recorded_record(s: ChronicleState, e: EventView)
    requires
        e.kind is TaskRecorded,
        step(s, e) is Ok,
    ensures
        ({
            let id = e.kind->TaskRecorded_task_id;
            let r = step(s, e)->Ok_0.records[id];
            &&& step(s, e)->Ok_0.records.contains_key(id)
            &&& r.record_id == id
            &&& r.kind == RecordKind::Task
            &&& r.day_id == canonical(s, e.kind->TaskRecorded_day_id)
            &&& r.parent_id == Some(canonical(s, e.kind->TaskRecorded_parent_id))
            &&& r.text == e.kind->TaskRecorded_text
            &&& r.purpose == e.kind->TaskRecorded_purpose
            &&& r.tags == e.kind->TaskRecorded_tags
            &&& r.status == e.kind->TaskRecorded_status
            &&& r.created_at == e.event_at
            &&& r.updated_at == e.recorded_at
            &&& r.context == e.context
            &&& r.retraction_reason is None
        }),
{
}

/// An added objective becomes an open objective record under its own id
/// that carries the event's text and tags, is created at the event time and
/// updated at the recording time, and hangs below the canonical day.
pub proof fn lemma_objective_added_record(s: ChronicleState, e: EventView)
    requires
        e.kind is ObjectiveAdded,
        step(s, e) is Ok,
    ensures
        ({
            let id = e.kind->ObjectiveAdded_objective_id;
            let r = step(s, e)->Ok_0.records[id];
            &&& step(s, e)->Ok_0.records.contains_key(id)
            &&& r.record_id == id
            &&& r.kind == RecordKind::Objective
            &&& r.day_id == canonical(s, e.kind->ObjectiveAdded_day_id)
            &&& r.parent_id == Some(canonical(s, e.kind->ObjectiveAdded_day_id))
            &&& r.text == e.kind->ObjectiveAdded_text
            &&& r.purpose is None
            &&& r.tags == e.kind->ObjectiveAdded_tags
            &&& r.status == RecordStatus::Open
            &&& r.created_at == e.event_at
            &&& r.updated_at == e.recorded_at
            &&& r.context == e.context
            &&& r.retraction_reason is None
        }),
{
}

/// Opening a day for a key that has no day yet creates an open day record
/// under the day id, with no parent, named `Day <date>`, created at the
/// event time, and registers the day for its key. Opening it again under
/// another id only makes that id an alias of the first day.
pub proof fn lemma_day_opened_record(s: ChronicleState, e: EventView)
    requires
        e.kind is DayOpened,
    ensures
        ({
            let d = e.kind->DayOpened_day_id;
            let key = e.kind->DayOpened_day_key;
            let t = step(s, e)->Ok_0;
            &&& step(s, e) is Ok
            &&& day_lookup(s.days, key) is None ==> {
                &&& t.records.contains_key(d)
                &&& t.records[d].record_id == d
                &&& t.records[d].kind == RecordKind::Day
                &&& t.records[d].day_id == d
                &&& t.records[d].parent_id is None
                &&& t.records[d].text == "Day "@ + key.date
                &&& t.records[d].status == RecordStatus::Open
                &&& t.records[d].created_at == e.event_at
                &&& t.records[d].day_key == Some(key)
                &&& day_lookup(t.days, key) == Some(d)
            }
            &&& (day_lookup(s.days, key) is Some && day_lookup(s.days, key)->Some_0 != d) ==> (
            t.records == s.records && t.aliases == s.aliases.insert(d, day_lookup(s.days, key)->Some_0))
        }),
{
    let key = e.kind->DayOpened_day_key;
    let d = e.kind->DayOpened_day_id;
    if day_lookup(s.days, key) is None {
        lemma_day_lookup_push(s.days, key, d);
    }
}

/// Looking up a key in days with a new entry for a key not yet present finds that entry.
proof fn lemma_day_lookup_push(days: Seq<(DayKeyView, u128)>, key: DayKeyView, d: u128)
    requires
        day_lookup(days, key) is None,
    ensures
        day_lookup(days.push((key, d)), key) == Some(d),
    decreases days.len(),
{
    if days.len() > 0 {
        assert(days.push((key, d)).drop_first() =~= days.drop_first().push((key, d)));
        lemma_day_lookup_push(days.drop_first(), key, d);
    }
}

/// The state of a non-empty event list is the last event applied to the
/// state of the ones before it.
pub proof fn lemma_replay_last(events: Seq<EventView>)
    requires
        events.len() > 0,
        replay(empty_state(), events) is Ok,
    ensures
        replay(empty_state(), events.drop_last()) is Ok,
        replay(empty_state(), events) == step(
            replay(empty_state(), events.drop_last())->Ok_0,
            events.last(),
        ),
{
}

/// An event that fails while replaying a prefix makes the whole replay fail with it.
pub proof fn lemma_replay_extend_err(events: Seq<EventView>, i: int)
    requires
        0 <= i <= events.len(),
        replay(empty_state(), events.take(i)) is Err,
    ensures
        replay(empty_state(), events) == replay(empty_state(), events.take(i)),
    decreases events.len() - i,
{
    if i == events.len() {
        assert(events.take(i) =~= events);
    } else {
        assert(events.drop_last().take(i) =~= events.take(i));
        lemma_replay_extend_err(events.drop_last(), i);
    }
}

/// `ChronicleView::build` accepts the archive.
pub open spec fn builds(a: ArchiveView) -> bool {
    &&& a.schema_version == ARCHIVE_SCHEMA_VERSION
    &&& replay(empty_state(), a.events) matches Ok(s)
    &&& parents_acyclic(s)
}

/// `e` is the error `ChronicleView::build` gives for the archive.
pub open spec fn build_error(a: ArchiveView, e: SillokError) -> bool {
    if a.schema_version != ARCHIVE_SCHEMA_VERSION {
        e.code == "unsupported_schema" && e.message@ == "archive schema "@ + crate::text::decimal(
            a.schema_version as nat,
        ) + " is not supported"@
    } else {
        match replay(empty_state(), a.events) {
            Err(id) => e.code == "record_not_found" && e.message@ == missing_message(id),
            Ok(_) => e.code == "parent_cycle",
        }
    }
}

/// The derived state of an archive that builds.
pub open spec fn state_of(a: ArchiveView) -> ChronicleState {
    replay(empty_state(), a.events)->Ok_0
}

/// In-memory projection optimized for command execution.
pub struct ChronicleView<'a> {
    pub archive: &'a Archive,
    /// Records in the order they were first created.
    pub records: Vec<DerivedRecord>,
    /// Position of each record in `records`.
    pub positions: HashMap<u128, usize>,
    /// Day records by day key, first-opened first.
    pub days: Vec<(DayKey, ChronicleId)>,
    /// Later day ids for an open day key, mapped to the canonical day id.
    pub aliases: HashMap<u128, ChronicleId>,
    /// All record ids ordered by `(created_at, record_id)`.
    pub timeline: Vec<ChronicleId>,
    /// Record ids per day, each bucket in timeline order.
    pub by_day: Vec<(ChronicleId, Vec<ChronicleId>)>,
    /// Record ids per tag, each bucket in timeline order.
    pub by_tag: Vec<(String, Vec<ChronicleId>)>,
    /// Record ids per context key, each bucket in timeline order.
    pub by_context: Vec<(String, Vec<ChronicleId>)>,
    /// Record ids per status, each bucket in timeline order.
    pub by_status: Vec<(RecordStatus, Vec<ChronicleId>)>,
}

/// View of the day index.
pub open spec fn days_view(v: Seq<(DayKey, ChronicleId)>) -> Seq<(DayKeyView, u128)> {
    v.map_values(|p: (DayKey, ChronicleId)| (p.0@, p.1@))
}

impl<'a> ChronicleView<'a> {
    /// The derived state this view holds.
    pub open spec fn state(&self) -> ChronicleState {
        ChronicleState {
            records: Map::new(
                |id: u128| self.positions@.contains_key(id),
                |id: u128| self.records@[self.positions@[id] as int]@,
            ),
            days: days_view(self.days@),
            aliases: self.aliases@.map_values(|c: ChronicleId| c@),
        }
    }

    /// `records` and `positions` describe the same set of records, each once.
    pub open spec fn wf(&self) -> bool {
        &&& forall|id: u128| #[trigger]
            self.positions@.contains_key(id) ==> self.positions@[id] < self.records@.len()
                && self.records@[self.positions@[id] as int].record_id@ == id
        &&& forall|i: int|
            0 <= i < self.records@.len() ==> self.positions@.contains_key(
                #[trigger] self.records@[i].record_id@,
            ) && self.positions@[self.records@[i].record_id@] == i
        &&& self.positions@.dom().finite()
        &&& self.positions@.dom().len() == self.records@.len()
    }
}

/// Whether a record is not retracted.
pub open spec fn is_visible(s: ChronicleState) -> spec_fn(u128) -> bool {
    |id: u128| s.records[id].status != RecordStatus::Retracted
}

/// Whether a record is a visible record other than `day` itself.
pub open spec fn is_day_member(s: ChronicleState, day: u128) -> spec_fn(u128) -> bool {
    |id: u128| id != day && s.records[id].status != RecordStatus::Retracted
}

/// The records with the given ids, in order.
pub open spec fn recs(s: ChronicleState, ids: Seq<u128>) -> Seq<RecordView> {
    ids.map_values(|id: u128| s.records[id])
}

/// Visible records in `(created_at, record_id)` order.
pub open spec fn visible_seq(s: ChronicleState, t: Seq<u128>) -> Seq<RecordView> {
    recs(s, t.filter(is_visible(s)))
}

/// Visible non-day records attributed to `day`, in `(created_at, record_id)` order.
pub open spec fn day_records_seq(s: ChronicleState, t: Seq<u128>, day: u128) -> Seq<RecordView> {
    recs(s, day_bucket(s, t, day).filter(is_day_member(s, day)))
}

impl<'a> ChronicleView<'a> {
    /// Returns a record by id.
    pub fn record(&self, id: &ChronicleId) -> (r: Option<&DerivedRecord>)
        requires
            self.wf(),
        ensures
            r is Some <==> self.state().records.contains_key(id@),
            r matches Some(rec) ==> rec@ == self.state().records[id@],
    {
        match self.position(*id) {
            Some(i) => Some(&self.records[i]),
            None => None,
        }
    }

    /// Returns a day id by key.
    pub fn day_id(&self, key: &DayKey) -> (r: Option<ChronicleId>)
        ensures
            opt_id_view(r) == day_lookup(self.state().days, key@),
    {
        self.lookup_day(key)
    }

    /// Appends copies of the records with ids `ids[..]` that satisfy `pred`.
    fn collect(
        &self,
        ids: &Vec<ChronicleId>,
        exclude: Option<ChronicleId>,
        out: &mut Vec<DerivedRecord>,
    )
        requires
            self.wf(),
            forall|i: int| 0 <= i < ids@.len() ==> self.state().records.contains_key(#[trigger] ids@[i]@),
        ensures
            records_view(final(out)@) == records_view(old(out)@) + recs(
                self.state(),
                ids_view(ids@).filter(match exclude {
                    Some(d) => is_day_member(self.state(), d@),
                    None => is_visible(self.state()),
                }),
            ),
    {
        let ghost s = self.state();
        let ghost pred = match exclude {
            Some(d) => is_day_member(s, d@),
            None => is_visible(s),
        };
        let ghost t = ids_view(ids@);
        let ghost start = records_view(out@);
        let mut k: usize = 0;
        assert(t.take(0).filter(pred) =~= Seq::<u128>::empty());
        assert(records_view(out@) =~= start + recs(s, t.take(0).filter(pred)));
        while k < ids.len()
            invariant
                self.wf(),
                s == self.state(),
                t == ids_view(ids@),
                pred == match exclude {
                    Some(d) => is_day_member(s, d@),
                    None => is_visible(s),
                },
                k <= ids@.len(),
                forall|i: int| 0 <= i < ids@.len() ==> s.records.contains_key(#[trigger] ids@[i]@),
                records_view(out@) == start + recs(s, t.take(k as int).filter(pred)),
            decreases ids@.len() - k,
        {
            let id = ids[k];
            assert(s.records.contains_key(id@));
            assert(t[k as int] == id@);
            let pos = match self.position(id) {
                Some(p) => p,
                None => {
                    assert(false);
                    0
                },
            };
            proof {
                lemma_filter_take_step(t, k as int, pred);
            }
            let rec = &self.records[pos];
            let keep = match exclude {
                Some(d) => id.as_u128() != d.as_u128() && rec.status != RecordStatus::Retracted,
                None => rec.status != RecordStatus::Retracted,
            };
            if keep {
                let ghost before = out@;
                out.push(rec.copy());
                assert(records_view(out@) =~= records_view(before).push(s.records[id@]));
                assert(recs(s, t.take(k + 1).filter(pred)) =~= recs(s, t.take(k as int).filter(pred)).push(s.records[id@]));
            }
            k = k + 1;
        }
        assert(t.take(t.len() as int) =~= t);
    }

    /// Returns current visible records ordered by creation time and id.
    pub fn visible_records(&self) -> (r: Vec<DerivedRecord>)
        requires
            self.wf(),
            view_indexed(self),
        ensures
            records_view(r@) == visible_seq(self.state(), ids_view(self.timeline@)),
    {
        let mut out: Vec<DerivedRecord> = Vec::new();
        proof {
            let t = ids_view(self.timeline@);
            assert forall|i: int| 0 <= i < self.timeline@.len() implies self.state().records.contains_key(#[trigger] self.timeline@[i]@) by {
                assert(t[i] == self.timeline@[i]@);
                assert(t.contains(t[i]));
            }
        }
        self.collect(&self.timeline, None, &mut out);
        assert(records_view(out@) =~= visible_seq(self.state(), ids_view(self.timeline@)));
        out
    }

    /// Returns visible non-day records for a day ordered by creation time and id.
    pub fn records_for_day(&self, day_id: ChronicleId) -> (r: Vec<DerivedRecord>)
        requires
            self.wf(),
            view_indexed(self),
        ensures
            records_view(r@) == day_records_seq(self.state(), ids_view(self.timeline@), day_id@),
    {
        let mut out: Vec<DerivedRecord> = Vec::new();
        match lookup_day_bucket(self, day_id) {
            Some(i) => {
                let ids = &self.by_day[i].1;
                proof {
                    let s = self.state();
                    let t = ids_view(self.timeline@);
                    let b = crate::domain::indexes::id_index_view(self.by_day@);
                    assert(b[i as int].1 == day_bucket(s, t, b[i as int].0));
                    assert(ids_view(ids@) == day_bucket(s, t, day_id@));
                    assert forall|j: int| 0 <= j < ids@.len() implies s.records.contains_key(#[trigger] ids@[j]@) by {
                        assert(ids_view(ids@)[j] == ids@[j]@);
                        let pred = crate::domain::indexes::in_day(s, day_id@);
                        t.lemma_filter_contains_rev(pred, ids@[j]@);
                        assert(t.filter(pred).contains(ids@[j]@));
                    }
                }
                self.collect(ids, Some(day_id), &mut out);
                assert(records_view(out@) =~= day_records_seq(self.state(), ids_view(self.timeline@), day_id@));
            },
            None => {
                let ghost s = self.state();
                assert(day_bucket(s, ids_view(self.timeline@), day_id@).filter(is_day_member(s, day_id@)) =~= Seq::<u128>::empty());
                assert(records_view(out@) =~= day_records_seq(s, ids_view(self.timeline@), day_id@));
            },
        }
        out
    }

    /// Builds the derived state and secondary indexes from an archive.
    pub fn build(archive: &'a Archive) -> (r: Result<Self, SillokError>)
        ensures
            archive@.schema_version != ARCHIVE_SCHEMA_VERSION ==> (r matches Err(e) && e.code
                == "unsupported_schema" && e.message@ == "archive schema "@ + crate::text::decimal(
                archive@.schema_version as nat,
            ) + " is not supported"@),
            archive@.schema_version == ARCHIVE_SCHEMA_VERSION ==> match replay(
                empty_state(),
                archive@.events,
            ) {
                Err(id) => r matches Err(e) && e.code == "record_not_found" && e.message@
                    == missing_message(id),
                Ok(s) => {
                    &&& r is Ok <==> parents_acyclic(s)
                    &&& r matches Ok(v) ==> v.wf() && v.archive == archive && v.state() == s
                        && view_indexed(&v) && view_buckets_nonempty(&v)
                    &&& r matches Err(e) ==> e.code == "parent_cycle"
                },
            },
    {
        if archive.schema_version != ARCHIVE_SCHEMA_VERSION {
            let mut message = String::from_str("archive schema ");
            push_decimal(&mut message, archive.schema_version as u64);
            push_str(&mut message, " is not supported");
            return Err(SillokError::new("unsupported_schema", message));
        }
        let ghost events = archive@.events;
        let mut view = ChronicleView::empty(archive);
        let mut i: usize = 0;
        assert(events.take(0) =~= Seq::<EventView>::empty());
        while i < archive.events.len()
            invariant
                view.wf(),
                view.archive == archive,
                archive.schema_version == ARCHIVE_SCHEMA_VERSION,
                events == archive@.events,
                i <= events.len(),
                replay(empty_state(), events.take(i as int)) == Ok::<ChronicleState, u128>(view.state()),
            decreases events.len() - i,
        {
            let ghost before = view.state();
            let r = view.apply(&archive.events[i]);
            proof {
                assert(events.take(i + 1).drop_last() =~= events.take(i as int));
                assert(events.take(i + 1).last() == archive.events@[i as int]@);
            }
            if r.is_err() {
                proof {
                    lemma_replay_extend_err(events, i + 1);
                }
                return match r {
                    Err(e) => Err(e),
                    Ok(_) => Err(SillokError::new("record_not_found", String::new())),
                };
            }
            i = i + 1;
        }
        assert(events.take(events.len() as int) =~= events);
        proof {
            lemma_replay_inv(events);
        }
        rebuild_indexes(&mut view);
        validate_parent_graph(&view)?;
        Ok(view)
    }
}

} // verus!
