use vstd::prelude::*;

use std::collections::HashMap;

use crate::domain::archive::Archive;
use crate::domain::event::{ChronicleEvent, EventKind, RecordKind, RecordStatus};
use crate::domain::id::{id_text, ChronicleId};
use crate::domain::time::{DayKey, DayKeyView};
use crate::domain::view::{
    canonical, day_lookup, day_record, empty_state, opt_id_view, step, ChronicleState, ChronicleView,
    DerivedRecord, RecordView,
};
use crate::error::SillokError;
use crate::text::{copy_opt, copy_strs, push_str};

pub use crate::domain::graph::validate_parent_graph;
pub use crate::domain::indexes::rebuild_indexes;

verus! {

broadcast use vstd::std_specs::hash::group_hash_axioms;

/// Message of the error for an event that references a missing record.
pub open spec fn missing_message(id: u128) -> Seq<char> {
    "record `"@ + id_text(id) + "` does not exist"@
}

/// The `record_not_found` error for `id`.
pub fn missing_record(id: ChronicleId) -> (e: SillokError)
    ensures
        e.code == "record_not_found",
        e.message@ == missing_message(id@),
{
    let mut message = String::from_str("record `");
    let text = id.to_string();
    push_str(&mut message, text.as_str());
    push_str(&mut message, "` does not exist");
    SillokError::new("record_not_found", message)
}

proof fn lemma_day_lookup_at(days: Seq<(DayKeyView, u128)>, key: DayKeyView, i: int)
    requires
        0 <= i <= days.len(),
        forall|j: int| 0 <= j < i ==> #[trigger] days[j].0 != key,
        i == days.len() || days[i].0 == key,
    ensures
        day_lookup(days, key) == if i < days.len() {
            Some(days[i].1)
        } else {
            None::<u128>
        },
    decreases i,
{
    if i > 0 {
        let t = days.drop_first();
        assert forall|j: int| 0 <= j < i - 1 implies #[trigger] t[j].0 != key by {
            assert(t[j] == days[j + 1]);
        }
        if i < days.len() {
            assert(t[i - 1] == days[i]);
        }
        lemma_day_lookup_at(t, key, i - 1);
    }
}

/// Builds the record of a `DayOpened` event.
fn make_day_record(event: &ChronicleEvent, day_id: ChronicleId, key: &DayKey) -> (r: DerivedRecord)
    ensures
        r@ == day_record(event@, day_id@, key@),
{
    let mut text = String::from_str("Day ");
    push_str(&mut text, key.date.as_str());
    let r = DerivedRecord {
        record_id: day_id,
        kind: RecordKind::Day,
        day_id,
        parent_id: None,
        text,
        purpose: None,
        tags: Vec::new(),
        status: RecordStatus::Open,
        created_at: event.event_at,
        updated_at: event.recorded_at,
        context: event.context.copy(),
        retraction_reason: None,
        day_key: Some(key.copy()),
    };
    assert(r@.tags =~= Seq::<Seq<char>>::empty());
    r
}

impl<'a> ChronicleView<'a> {
    /// A view of `archive` holding no records yet.
    pub fn empty(archive: &'a Archive) -> (v: Self)
        ensures
            v.wf(),
            v.archive == archive,
            v.state() == empty_state(),
            v.timeline@.len() == 0,
    {
        let v = ChronicleView {
            archive,
            records: Vec::new(),
            positions: HashMap::new(),
            days: Vec::new(),
            aliases: HashMap::new(),
            timeline: Vec::new(),
            by_day: Vec::new(),
            by_tag: Vec::new(),
            by_context: Vec::new(),
            by_status: Vec::new(),
        };
        assert(v.positions@.dom() =~= Set::<u128>::empty());
        assert(v.state().records =~= Map::<u128, RecordView>::empty());
        assert(v.state().days =~= Seq::<(DayKeyView, u128)>::empty());
        assert(v.state().aliases =~= Map::<u128, u128>::empty());
        v
    }

    /// Resolves a day alias to the canonical day id; other ids map to themselves.
    pub fn canonical_id(&self, id: ChronicleId) -> (c: ChronicleId)
        ensures
            c@ == canonical(self.state(), id@),
    {
        match self.aliases.get(&id.as_u128()) {
            Some(first) => *first,
            None => id,
        }
    }

    /// Position of a record in `records`.
    pub fn position(&self, id: ChronicleId) -> (p: Option<usize>)
        requires
            self.wf(),
        ensures
            p is Some <==> self.state().records.contains_key(id@),
            p matches Some(i) ==> i < self.records@.len() && i == self.positions@[id@]
                && self.records@[i as int]@ == self.state().records[id@],
    {
        match self.positions.get(&id.as_u128()) {
            Some(i) => Some(*i),
            None => None,
        }
    }

    /// The first day id recorded for a day key.
    pub fn lookup_day(&self, key: &DayKey) -> (r: Option<ChronicleId>)
        ensures
            opt_id_view(r) == day_lookup(self.state().days, key@),
    {
        let mut i: usize = 0;
        while i < self.days.len()
            invariant
                i <= self.days@.len(),
                forall|j: int| 0 <= j < i ==> #[trigger] self.days@[j].0@ != key@,
            decreases self.days@.len() - i,
        {
            if self.days[i].0.same(key) {
                proof {
                    let d = self.state().days;
                    assert forall|j: int| 0 <= j < i implies #[trigger] d[j].0 != key@ by {
                        assert(d[j].0 == self.days@[j].0@);
                    }
                    lemma_day_lookup_at(d, key@, i as int);
                }
                return Some(self.days[i].1);
            }
            i = i + 1;
        }
        proof {
            let d = self.state().days;
            assert forall|j: int| 0 <= j < d.len() implies #[trigger] d[j].0 != key@ by {
                assert(d[j].0 == self.days@[j].0@);
            }
            lemma_day_lookup_at(d, key@, d.len() as int);
        }
        None
    }

    /// Inserts or replaces the record with `r`'s id.
    fn put_record(&mut self, r: DerivedRecord)
        requires
            old(self).wf(),
        ensures
            final(self).wf(),
            final(self).archive == old(self).archive,
            final(self).state() == (ChronicleState {
                records: old(self).state().records.insert(r@.record_id, r@),
                ..old(self).state()
            }),
            final(self).timeline == old(self).timeline,
            final(self).by_day == old(self).by_day,
            final(self).by_tag == old(self).by_tag,
            final(self).by_context == old(self).by_context,
            final(self).by_status == old(self).by_status,
    {
        let ghost old_records = self.state().records;
        let id = r.record_id.as_u128();
        match self.positions.get(&id) {
            Some(i) => {
                let i = *i;
                self.records.set(i, r);
            },
            None => {
                let n = self.records.len();
                self.records.push(r);
                self.positions.insert(id, n);
            },
        }
        assert(self.state().records =~= old_records.insert(id, r@));
        assert(self.state().days =~= old(self).state().days);
        assert(self.state().aliases =~= old(self).state().aliases);
    }

    /// Applies one event to the derived state.
    pub fn apply(&mut self, event: &ChronicleEvent) -> (r: Result<(), SillokError>)
        requires
            old(self).wf(),
        ensures
            final(self).wf(),
            final(self).archive == old(self).archive,
            final(self).timeline == old(self).timeline,
            final(self).by_day == old(self).by_day,
            final(self).by_tag == old(self).by_tag,
            final(self).by_context == old(self).by_context,
            final(self).by_status == old(self).by_status,
            r is Err ==> *final(self) == *old(self),
            match step(old(self).state(), event@) {
                Ok(s) => r is Ok && final(self).state() == s,
                Err(id) => r matches Err(e) && e.code == "record_not_found" && e.message@
                    == missing_message(id),
            },
    {
        let ghost s = self.state();
        match &event.kind {
            EventKind::ArchiveInitialized { .. } => Ok(()),
            EventKind::DayOpened { day_id, day_key } => {
                match self.lookup_day(day_key) {
                    Some(first) => {
                        if first.as_u128() != day_id.as_u128() {
                            self.aliases.insert(day_id.as_u128(), first);
                            assert(self.state().aliases =~= s.aliases.insert(day_id@, first@));
                            assert(self.state().records =~= s.records);
                        } else {
                            let rec = make_day_record(event, *day_id, day_key);
                            self.put_record(rec);
                        }
                    },
                    None => {
                        let rec = make_day_record(event, *day_id, day_key);
                        self.put_record(rec);
                        let ghost mid = self.state();
                        self.days.push((day_key.copy(), *day_id));
                        assert(self.state().days =~= mid.days.push((day_key@, day_id@)));
                        assert(self.state().records =~= mid.records);
                    },
                }
                Ok(())
            },
            EventKind::ObjectiveAdded { objective_id, day_id, text, tags } => {
                let d = self.canonical_id(*day_id);
                if self.position(d).is_none() {
                    return Err(missing_record(d));
                }
                let rec = DerivedRecord {
                    record_id: *objective_id,
                    kind: RecordKind::Objective,
                    day_id: d,
                    parent_id: Some(d),
                    text: text.clone(),
                    purpose: None,
                    tags: copy_strs(tags),
                    status: RecordStatus::Open,
                    created_at: event.event_at,
                    updated_at: event.recorded_at,
                    context: event.context.copy(),
                    retraction_reason: None,
                    day_key: None,
                };
                self.put_record(rec);
                Ok(())
            },
            EventKind::ObjectiveCompleted { objective_id, note } => {
                let id = self.canonical_id(*objective_id);
                let pos = match self.position(id) {
                    Some(p) => p,
                    None => return Err(missing_record(id)),
                };
                let mut rec = self.records[pos].copy();
                rec.status = RecordStatus::Completed;
                rec.updated_at = event.recorded_at;
                if note.is_some() {
                    rec.purpose = copy_opt(note);
                }
                self.put_record(rec);
                Ok(())
            },
            EventKind::TaskRecorded { task_id, day_id, parent_id, text, purpose, tags, status } => {
                let d = self.canonical_id(*day_id);
                let p = self.canonical_id(*parent_id);
                if self.position(d).is_none() {
                    return Err(missing_record(d));
                }
                if self.position(p).is_none() {
                    return Err(missing_record(p));
                }
                let rec = DerivedRecord {
                    record_id: *task_id,
                    kind: RecordKind::Task,
                    day_id: d,
                    parent_id: Some(p),
                    text: text.clone(),
                    purpose: copy_opt(purpose),
                    tags: copy_strs(tags),
                    status: *status,
                    created_at: event.event_at,
                    updated_at: event.recorded_at,
                    context: event.context.copy(),
                    retraction_reason: None,
                    day_key: None,
                };
                self.put_record(rec);
                Ok(())
            },
            EventKind::TaskAmended { record_id, text, status, purpose, tags } => {
                let id = self.canonical_id(*record_id);
                let pos = match self.position(id) {
                    Some(p) => p,
                    None => return Err(missing_record(id)),
                };
                let mut rec = self.records[pos].copy();
                if let Some(value) = text {
                    rec.text = value.clone();
                }
                if let Some(value) = status {
                    rec.status = *value;
                }
                if purpose.is_some() {
                    rec.purpose = copy_opt(purpose);
                }
                if let Some(value) = tags {
                    rec.tags = copy_strs(value);
                }
                rec.updated_at = event.recorded_at;
                self.put_record(rec);
                Ok(())
            },
            EventKind::TaskRetracted { record_id, reason } => {
                let id = self.canonical_id(*record_id);
                let pos = match self.position(id) {
                    Some(p) => p,
                    None => return Err(missing_record(id)),
                };
                let mut rec = self.records[pos].copy();
                rec.status = RecordStatus::Retracted;
                rec.retraction_reason = Some(reason.clone());
                rec.updated_at = event.recorded_at;
                self.put_record(rec);
                Ok(())
            },
            EventKind::TaskLinked { child_id, parent_id } => {
                let p = self.canonical_id(*parent_id);
                let c = self.canonical_id(*child_id);
                if self.position(p).is_none() {
                    return Err(missing_record(p));
                }
                let pos = match self.position(c) {
                    Some(i) => i,
                    None => return Err(missing_record(c)),
                };
                let mut rec = self.records[pos].copy();
                rec.parent_id = Some(p);
                rec.updated_at = event.recorded_at;
                self.put_record(rec);
                Ok(())
            },
            EventKind::TaskUnlinked { child_id } => {
                let c = self.canonical_id(*child_id);
                let pos = match self.position(c) {
                    Some(i) => i,
                    None => return Err(missing_record(c)),
                };
                let mut rec = self.records[pos].copy();
                rec.parent_id = None;
                rec.updated_at = event.recorded_at;
                self.put_record(rec);
                Ok(())
            },
        }
    }
}

/// Applies one event to the derived view.
pub fn apply_event(view: &mut ChronicleView<'_>, event: &ChronicleEvent) -> (r: Result<(), SillokError>)
    requires
        old(view).wf(),
    ensures
        final(view).wf(),
        final(view).archive == old(view).archive,
        final(view).timeline == old(view).timeline,
        final(view).by_day == old(view).by_day,
        final(view).by_tag == old(view).by_tag,
        final(view).by_context == old(view).by_context,
        final(view).by_status == old(view).by_status,
        r is Err ==> *final(view) == *old(view),
        match step(old(view).state(), event@) {
            Ok(s) => r is Ok && final(view).state() == s,
            Err(id) => r matches Err(e) && e.code == "record_not_found" && e.message@
                == missing_message(id),
        },
{
    view.apply(event)
}

} // verus!
