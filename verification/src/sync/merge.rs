use vstd::prelude::*;

use std::collections::HashMap;

use vstd::set_lib::{lemma_int_range, lemma_len_subset, lemma_subset_equality, set_int_range};

use crate::domain::archive::{Archive, ArchiveView, ARCHIVE_SCHEMA_VERSION};
use crate::domain::event::{events_view, ChronicleEvent, EventKind, EventView, KindView};
use crate::domain::id::ChronicleId;
use crate::domain::indexes::ids_view;
use crate::domain::time::Timestamp;
use crate::domain::view::{build_error, builds, opt_id_view, ChronicleView};
use crate::error::SillokError;
use crate::text::push_str;

verus! {

broadcast use vstd::std_specs::hash::group_hash_axioms;

/// Replay rank of an event kind: initialization, then days, then records,
/// then changes to records.
pub open spec fn rank(k: KindView) -> u8 {
    match k {
        KindView::ArchiveInitialized { .. } => 0,
        KindView::DayOpened { .. } => 1,
        KindView::ObjectiveAdded { .. } => 2,
        KindView::TaskRecorded { .. } => 2,
        KindView::ObjectiveCompleted { .. } => 3,
        KindView::TaskAmended { .. } => 3,
        KindView::TaskRetracted { .. } => 3,
        KindView::TaskLinked { .. } => 3,
        KindView::TaskUnlinked { .. } => 3,
    }
}

/// The record an event creates, if it creates one.
pub open spec fn created_id(k: KindView) -> Option<u128> {
    match k {
        KindView::DayOpened { day_id, .. } => Some(day_id),
        KindView::ObjectiveAdded { objective_id, .. } => Some(objective_id),
        KindView::TaskRecorded { task_id, .. } => Some(task_id),
        _ => None,
    }
}

/// The records an event needs to exist before it can be replayed.
pub open spec fn dependency_ids(k: KindView) -> Seq<u128> {
    match k {
        KindView::ArchiveInitialized { .. } => Seq::empty(),
        KindView::DayOpened { .. } => Seq::empty(),
        KindView::ObjectiveAdded { day_id, .. } => seq![day_id],
        KindView::ObjectiveCompleted { objective_id, .. } => seq![objective_id],
        KindView::TaskRecorded { day_id, parent_id, .. } => seq![day_id, parent_id],
        KindView::TaskAmended { record_id, .. } => seq![record_id],
        KindView::TaskRetracted { record_id, .. } => seq![record_id],
        KindView::TaskLinked { child_id, parent_id } => seq![child_id, parent_id],
        KindView::TaskUnlinked { child_id } => seq![child_id],
    }
}

/// Replay order between two events: by rank, recording time, event time, then event id.
pub open spec fn key_lt(a: EventView, b: EventView) -> bool {
    let ra = rank(a.kind);
    let rb = rank(b.kind);
    ||| ra < rb
    ||| ra == rb && a.recorded_at < b.recorded_at
    ||| ra == rb && a.recorded_at == b.recorded_at && a.event_at < b.event_at
    ||| ra == rb && a.recorded_at == b.recorded_at && a.event_at == b.event_at && a.event_id
        < b.event_id
}

/// Event `e` must wait for event `f`: `f` creates a record that `e` needs.
pub open spec fn depends(e: EventView, f: EventView) -> bool {
    &&& f != e
    &&& created_id(f.kind) matches Some(r)
    &&& dependency_ids(e.kind).contains(r)
}

/// Every event of `all` that `e` waits for is already placed.
pub open spec fn deps_placed(all: Set<EventView>, placed: Seq<EventView>, e: EventView) -> bool {
    forall|f: EventView| all.contains(f) && #[trigger] depends(e, f) ==> placed.contains(f)
}

/// `e` is the next event to place: ready, not yet placed, and before every
/// other such event.
pub open spec fn next_event(all: Set<EventView>, placed: Seq<EventView>, e: EventView) -> bool {
    &&& all.contains(e)
    &&& !placed.contains(e)
    &&& deps_placed(all, placed, e)
    &&& forall|f: EventView|
        #![trigger deps_placed(all, placed, f)]
        all.contains(f) && !placed.contains(f) && deps_placed(all, placed, f) && f != e ==> key_lt(e, f)
}

/// Places the events of `all` after `placed`, always taking the earliest ready
/// one; `None` when a dependency cycle leaves events that never become ready.
pub open spec fn greedy(all: Set<EventView>, placed: Seq<EventView>) -> Option<Seq<EventView>>
    decreases all.len() - placed.len(),
{
    if placed.len() >= all.len() {
        Some(placed)
    } else if exists|e: EventView| next_event(all, placed, e) {
        greedy(all, placed.push(choose|e: EventView| next_event(all, placed, e)))
    } else {
        None
    }
}

/// No record is created by two different events.
pub open spec fn single_creation(all: Set<EventView>) -> bool {
    forall|e: EventView, f: EventView|
        #![trigger all.contains(e), all.contains(f)]
        all.contains(e) && all.contains(f) && created_id(e.kind) is Some && created_id(e.kind)
            == created_id(f.kind) ==> e == f
}

/// The replay order of a set of events: dependencies first, ties broken by
/// the replay key; `None` on a double creation or a dependency cycle.
pub open spec fn causal_order(all: Set<EventView>) -> Option<Seq<EventView>> {
    if single_creation(all) {
        greedy(all, Seq::empty())
    } else {
        None
    }
}

/// No two positions of `s` hold events with one id.
pub open spec fn distinct_ids(s: Seq<EventView>) -> bool {
    forall|i: int, j: int|
        0 <= i < s.len() && 0 <= j < s.len() && i != j ==> #[trigger] s[i].event_id
            != #[trigger] s[j].event_id
}

/// Events sharing an id carry the same payload.
pub open spec fn consistent(s: Seq<EventView>) -> bool {
    forall|i: int, j: int|
        0 <= i < s.len() && 0 <= j < s.len() && #[trigger] s[i].event_id == #[trigger] s[j].event_id
            ==> s[i] == s[j]
}

/// Event `es[i]` waits for event `es[j]` (by position).
pub open spec fn idx_dep(es: Seq<EventView>, i: int, j: int) -> bool {
    &&& j != i
    &&& created_id(es[j].kind) matches Some(r)
    &&& dependency_ids(es[i].kind).contains(r)
}

/// Every event that `es[i]` waits for is marked placed.
pub open spec fn idx_ready(es: Seq<EventView>, placed: Seq<bool>, i: int) -> bool {
    forall|j: int| 0 <= j < es.len() && #[trigger] idx_dep(es, i, j) ==> placed[j]
}

/// `m` maps each record created among the first `upto` events to its creator.
pub open spec fn creators_upto(es: Seq<EventView>, m: Map<u128, usize>, upto: int) -> bool {
    &&& forall|r: u128| #[trigger] m.contains_key(r) ==> m[r] < upto && created_id(es[m[r] as int].kind)
        == Some(r)
    &&& forall|j: int|
        0 <= j < upto && #[trigger] created_id(es[j].kind) is Some ==> m.contains_key(
            created_id(es[j].kind)->Some_0,
        ) && m[created_id(es[j].kind)->Some_0] == j
}

/// Rank of an event kind.
fn event_rank(kind: &EventKind) -> (r: u8)
    ensures
        r == rank(kind@),
{
    match kind {
        EventKind::ArchiveInitialized { .. } => 0,
        EventKind::DayOpened { .. } => 1,
        EventKind::ObjectiveAdded { .. } | EventKind::TaskRecorded { .. } => 2,
        EventKind::ObjectiveCompleted { .. }
        | EventKind::TaskAmended { .. }
        | EventKind::TaskRetracted { .. }
        | EventKind::TaskLinked { .. }
        | EventKind::TaskUnlinked { .. } => 3,
    }
}

/// The record an event creates.
fn created_record_id(event: &ChronicleEvent) -> (r: Option<ChronicleId>)
    ensures
        opt_id_view(r) == created_id(event@.kind),
{
    match &event.kind {
        EventKind::DayOpened { day_id, .. } => Some(*day_id),
        EventKind::ObjectiveAdded { objective_id, .. } => Some(*objective_id),
        EventKind::TaskRecorded { task_id, .. } => Some(*task_id),
        EventKind::ArchiveInitialized { .. }
        | EventKind::ObjectiveCompleted { .. }
        | EventKind::TaskAmended { .. }
        | EventKind::TaskRetracted { .. }
        | EventKind::TaskLinked { .. }
        | EventKind::TaskUnlinked { .. } => None,
    }
}

/// The records an event needs, in field order.
fn dependency_record_ids(event: &ChronicleEvent) -> (r: Vec<ChronicleId>)
    ensures
        ids_view(r@) == dependency_ids(event@.kind),
{
    let r = match &event.kind {
        EventKind::ArchiveInitialized { .. } | EventKind::DayOpened { .. } => Vec::new(),
        EventKind::ObjectiveAdded { day_id, .. } => vec![*day_id],
        EventKind::ObjectiveCompleted { objective_id, .. } => vec![*objective_id],
        EventKind::TaskRecorded { day_id, parent_id, .. } => vec![*day_id, *parent_id],
        EventKind::TaskAmended { record_id, .. } => vec![*record_id],
        EventKind::TaskRetracted { record_id, .. } => vec![*record_id],
        EventKind::TaskLinked { child_id, parent_id } => vec![*child_id, *parent_id],
        EventKind::TaskUnlinked { child_id } => vec![*child_id],
    };
    assert(ids_view(r@) =~= dependency_ids(event@.kind));
    r
}

/// The replay key of the event at `index`.
fn sort_key(event: &ChronicleEvent, index: usize) -> (k: (u8, Timestamp, Timestamp, ChronicleId, usize))
    ensures
        k.0 == rank(event@.kind),
        k.1 == event.recorded_at,
        k.2 == event.event_at,
        k.3 == event.event_id,
        k.4 == index,
{
    (event_rank(&event.kind), event.recorded_at, event.event_at, event.event_id, index)
}

/// Whether key `a` sorts before key `b` (lexicographically).
fn key_before(
    a: &(u8, Timestamp, Timestamp, ChronicleId, usize),
    b: &(u8, Timestamp, Timestamp, ChronicleId, usize),
) -> (r: bool)
    ensures
        r == (a.0 < b.0 || (a.0 == b.0 && (a.1@ < b.1@ || (a.1@ == b.1@ && (a.2@ < b.2@ || (a.2@
            == b.2@ && (a.3@ < b.3@ || (a.3@ == b.3@ && a.4 < b.4)))))))),
{
    if a.0 != b.0 {
        return a.0 < b.0;
    }
    if a.1.as_millis() != b.1.as_millis() {
        return a.1.as_millis() < b.1.as_millis();
    }
    if a.2.as_millis() != b.2.as_millis() {
        return a.2.as_millis() < b.2.as_millis();
    }
    if a.3.as_u128() != b.3.as_u128() {
        return a.3.as_u128() < b.3.as_u128();
    }
    a.4 < b.4
}


/// Events of `all` with one id are one event.
pub open spec fn ids_unique(all: Set<EventView>) -> bool {
    forall|e: EventView, f: EventView|
        #![trigger all.contains(e), all.contains(f)]
        all.contains(e) && all.contains(f) && e.event_id == f.event_id ==> e == f
}

/// The events at positions `ord` of `es`.
pub open spec fn placed_events(es: Seq<EventView>, ord: Seq<usize>) -> Seq<EventView> {
    ord.map_values(|j: usize| es[j as int])
}

proof fn lemma_key_lt_facts(a: EventView, b: EventView, c: EventView)
    ensures
        key_lt(a, b) ==> !key_lt(b, a),
        key_lt(a, b) && key_lt(b, c) ==> key_lt(a, c),
        a.event_id != b.event_id ==> key_lt(a, b) || key_lt(b, a),
{
}

proof fn lemma_next_unique(all: Set<EventView>, placed: Seq<EventView>, e: EventView, f: EventView)
    requires
        ids_unique(all),
        next_event(all, placed, e),
        next_event(all, placed, f),
    ensures
        e == f,
{
    if e != f {
        assert(deps_placed(all, placed, f));
        assert(deps_placed(all, placed, e));
        assert(key_lt(e, f));
        assert(key_lt(f, e));
        lemma_key_lt_facts(e, f, e);
    }
}

proof fn lemma_distinct_to_set(es: Seq<EventView>)
    requires
        distinct_ids(es),
    ensures
        es.no_duplicates(),
        es.to_set().len() == es.len(),
        ids_unique(es.to_set()),
{
    assert forall|i: int, j: int| 0 <= i < es.len() && 0 <= j < es.len() && i != j implies es[i]
        != es[j] by {
        assert(es[i].event_id != es[j].event_id);
    }
    es.unique_seq_to_set();
    assert forall|e: EventView, f: EventView|
        es.to_set().contains(e) && es.to_set().contains(f) && e.event_id
            == f.event_id implies e == f by {
        let i = choose|i: int| 0 <= i < es.len() && es[i] == e;
        let j = choose|j: int| 0 <= j < es.len() && es[j] == f;
        if i != j {
            assert(es[i].event_id != es[j].event_id);
        }
    }
}

proof fn lemma_placed_contains(es: Seq<EventView>, ord: Seq<usize>, j: int)
    requires
        distinct_ids(es),
        es.len() <= usize::MAX,
        0 <= j < es.len(),
        forall|t: int| 0 <= t < ord.len() ==> ord[t] < es.len(),
    ensures
        placed_events(es, ord).contains(es[j]) <==> ord.contains(j as usize),
{
    let p = placed_events(es, ord);
    if ord.contains(j as usize) {
        let t = choose|t: int| 0 <= t < ord.len() && ord[t] == j as usize;
        assert(p[t] == es[ord[t] as int]);
        assert(ord[t] as int == j);
        assert(p.contains(es[j]));
    }
    if p.contains(es[j]) {
        let t = choose|t: int| 0 <= t < p.len() && p[t] == es[j];
        let k = ord[t] as int;
        assert(p[t] == es[k]);
        if k != j {
            assert(es[k].event_id != es[j].event_id);
        }
        assert(ord[t] == j as usize);
    }
}

proof fn lemma_ready_agree(es: Seq<EventView>, ord: Seq<usize>, placed: Seq<bool>, x: int)
    requires
        distinct_ids(es),
        es.len() <= usize::MAX,
        placed.len() == es.len(),
        forall|j: int| 0 <= j < es.len() ==> (#[trigger] placed[j] <==> ord.contains(j as usize)),
        forall|t: int| 0 <= t < ord.len() ==> ord[t] < es.len(),
        0 <= x < es.len(),
    ensures
        idx_ready(es, placed, x) == deps_placed(es.to_set(), placed_events(es, ord), es[x]),
{
    let all = es.to_set();
    let p = placed_events(es, ord);
    if idx_ready(es, placed, x) {
        assert forall|f: EventView| all.contains(f) && #[trigger] depends(es[x], f) implies p.contains(
            f,
        ) by {
            let j = choose|j: int| 0 <= j < es.len() && es[j] == f;
            assert(j != x);
            assert(idx_dep(es, x, j));
            assert(placed[j]);
            lemma_placed_contains(es, ord, j);
        }
    }
    if deps_placed(all, p, es[x]) {
        assert forall|j: int| 0 <= j < es.len() && #[trigger] idx_dep(es, x, j) implies placed[j] by {
            assert(es[j].event_id != es[x].event_id);
            assert(depends(es[x], es[j]));
            assert(all.contains(es[j]));
            lemma_placed_contains(es, ord, j);
        }
    }
}

proof fn lemma_greedy_step(all: Set<EventView>, placed: Seq<EventView>, e: EventView)
    requires
        ids_unique(all),
        next_event(all, placed, e),
        placed.len() < all.len(),
    ensures
        greedy(all, placed) == greedy(all, placed.push(e)),
{
    let c = choose|x: EventView| next_event(all, placed, x);
    lemma_next_unique(all, placed, c, e);
}

proof fn lemma_greedy_stuck(all: Set<EventView>, placed: Seq<EventView>)
    requires
        placed.len() < all.len(),
        forall|f: EventView| all.contains(f) && !placed.contains(f) ==> !deps_placed(all, placed, f),
    ensures
        greedy(all, placed) is None,
{
    assert(!exists|e: EventView| next_event(all, placed, e));
}

proof fn lemma_distinct_indices_len(q: Seq<usize>, n: usize)
    requires
        q.no_duplicates(),
        forall|t: int| 0 <= t < q.len() ==> q[t] < n,
    ensures
        q.len() <= n,
{
    let qi = q.map_values(|x: usize| x as int);
    assert forall|i: int, j: int| 0 <= i < qi.len() && 0 <= j < qi.len() && i != j implies qi[i]
        != qi[j] by {
        assert(q[i] != q[j]);
    }
    qi.unique_seq_to_set();
    lemma_int_range(0, n as int);
    assert forall|x: int| qi.to_set().contains(x) implies set_int_range(0, n as int).contains(x) by {
        let t = choose|t: int| 0 <= t < qi.len() && qi[t] == x;
        assert(q[t] < n);
    }
    lemma_len_subset(qi.to_set(), set_int_range(0, n as int));
}


proof fn lemma_queue_bound(ord: Seq<usize>, rv: Seq<usize>, n: usize)
    requires
        ord.no_duplicates(),
        rv.no_duplicates(),
        forall|t: int| 0 <= t < ord.len() ==> ord[t] < n,
        forall|t: int| 0 <= t < rv.len() ==> rv[t] < n && !ord.contains(#[trigger] rv[t]),
    ensures
        ord.len() + rv.len() <= n,
{
    let q = ord + rv;
    assert forall|i: int, j: int| 0 <= i < q.len() && 0 <= j < q.len() && i != j implies q[i]
        != q[j] by {
        if i < ord.len() && j >= ord.len() {
            assert(q[j] == rv[j - ord.len()]);
            assert(ord.contains(q[i]));
        } else if j < ord.len() && i >= ord.len() {
            assert(q[i] == rv[i - ord.len()]);
            assert(ord.contains(q[j]));
        }
    }
    assert forall|t: int| 0 <= t < q.len() implies q[t] < n by {
        if t >= ord.len() {
            assert(q[t] == rv[t - ord.len()]);
        }
    }
    lemma_distinct_indices_len(q, n);
}

/// Under a creator map for all events, no record has two creators.
proof fn lemma_creators_single(es: Seq<EventView>, m: Map<u128, usize>)
    requires
        creators_upto(es, m, es.len() as int),
    ensures
        single_creation(es.to_set()),
{
    let all = es.to_set();
    assert forall|e: EventView, f: EventView|
        all.contains(e) && all.contains(f) && created_id(e.kind) is Some && created_id(e.kind)
            == created_id(f.kind) implies e == f by {
        let i = choose|i: int| 0 <= i < es.len() && es[i] == e;
        let j = choose|j: int| 0 <= j < es.len() && es[j] == f;
        assert(created_id(es[i].kind) is Some);
        assert(created_id(es[j].kind) is Some);
    }
}

fn multiple_creation_error(record_id: ChronicleId) -> (e: SillokError)
    ensures
        e.code == "sync_merge_conflict",
{
    let mut message = String::from_str("record `");
    push_str(&mut message, record_id.to_string().as_str());
    push_str(&mut message, "` has multiple creation events");
    SillokError::new("sync_merge_conflict", message)
}

/// Maps each created record to the position of its creating event.
fn creation_index(events: &Vec<ChronicleEvent>) -> (r: Result<HashMap<u128, usize>, SillokError>)
    requires
        distinct_ids(events_view(events@)),
    ensures
        r matches Ok(m) ==> creators_upto(events_view(events@), m@, events.len() as int),
        r matches Err(e) ==> !single_creation(events_view(events@).to_set()) && e.code
            == "sync_merge_conflict",
{
    let ghost es = events_view(events@);
    let mut creation: HashMap<u128, usize> = HashMap::new();
    let mut i: usize = 0;
    while i < events.len()
        invariant
            es == events_view(events@),
            distinct_ids(es),
            i <= events.len(),
            creators_upto(es, creation@, i as int),
        decreases events.len() - i,
    {
        assert(es[i as int] == events@[i as int]@);
        match created_record_id(&events[i]) {
            Some(record_id) => {
                let key = record_id.as_u128();
                match creation.get(&key) {
                    Some(j) => {
                        proof {
                            let j = *j as int;
                            let all = es.to_set();
                            assert(created_id(es[j].kind) == Some(key));
                            assert(es[j].event_id != es[i as int].event_id);
                            assert(all.contains(es[j]));
                            assert(all.contains(es[i as int]));
                        }
                        return Err(multiple_creation_error(record_id));
                    },
                    None => {
                        let ghost before = creation@;
                        creation.insert(key, i);
                        proof {
                            assert forall|j: int|
                                0 <= j < i + 1 && #[trigger] created_id(es[j].kind)
                                    is Some implies creation@.contains_key(
                                created_id(es[j].kind)->Some_0,
                            ) && creation@[created_id(es[j].kind)->Some_0] == j by {
                                if j < i {
                                    assert(before.contains_key(created_id(es[j].kind)->Some_0));
                                }
                            }
                        }
                    },
                }
            },
            None => {},
        }
        i = i + 1;
    }
    Ok(creation)
}

/// Whether every event that `events[i]` waits for is placed.
fn is_ready(
    events: &Vec<ChronicleEvent>,
    creation: &HashMap<u128, usize>,
    placed: &Vec<bool>,
    i: usize,
) -> (b: bool)
    requires
        i < events.len(),
        placed.len() == events.len(),
        creators_upto(events_view(events@), creation@, events.len() as int),
    ensures
        b == idx_ready(events_view(events@), placed@, i as int),
{
    let ghost es = events_view(events@);
    assert(es[i as int] == events@[i as int]@);
    let deps = dependency_record_ids(&events[i]);
    let ghost dv = dependency_ids(es[i as int].kind);
    let mut k: usize = 0;
    while k < deps.len()
        invariant
            es == events_view(events@),
            i < events.len(),
            placed.len() == events.len(),
            creators_upto(es, creation@, events.len() as int),
            ids_view(deps@) == dv,
            dv == dependency_ids(es[i as int].kind),
            k <= deps.len(),
            forall|j: int|
                0 <= j < es.len() && j != i && #[trigger] created_id(es[j].kind) is Some && dv.take(
                    k as int,
                ).contains(created_id(es[j].kind)->Some_0) ==> placed@[j],
        decreases deps.len() - k,
    {
        let r = deps[k].as_u128();
        assert(dv[k as int] == r);
        let found = creation.get(&r);
        match found {
            Some(j) => {
                if *j != i && !placed[*j] {
                    assert(dv.contains(r));
                    assert(creation@.contains_key(r) && creation@[r] == *j);
                    assert(created_id(es[*j as int].kind) == Some(r));
                    assert(idx_dep(es, i as int, *j as int));
                    return false;
                }
            },
            None => {},
        }
        proof {
            assert forall|j: int|
                0 <= j < es.len() && j != i && #[trigger] created_id(es[j].kind) is Some
                    && dv.take(k + 1).contains(created_id(es[j].kind)->Some_0) implies placed@[j] by {
                let c = created_id(es[j].kind)->Some_0;
                let tk = dv.take(k + 1);
                let w = choose|w: int| 0 <= w < tk.len() && #[trigger] tk[w] == c;
                if w < k {
                    assert(dv.take(k as int)[w] == c);
                } else {
                    assert(c == r);
                    assert(creation@.contains_key(c));
                }
            }
        }
        k = k + 1;
    }
    assert(dv.take(deps.len() as int) =~= dv);
    true
}

/// Position in `ready` of the event with the smallest replay key.
fn min_ready_position(events: &Vec<ChronicleEvent>, ready: &Vec<usize>) -> (pos: usize)
    requires
        ready.len() > 0,
        forall|t: int| 0 <= t < ready.len() ==> ready@[t] < events.len(),
        ready@.no_duplicates(),
        distinct_ids(events_view(events@)),
    ensures
        pos < ready.len(),
        forall|t: int|
            0 <= t < ready.len() && t != pos ==> key_lt(
                events_view(events@)[ready@[pos as int] as int],
                events_view(events@)[#[trigger] ready@[t] as int],
            ),
{
    let ghost es = events_view(events@);
    let mut best: usize = 0;
    let mut t: usize = 1;
    while t < ready.len()
        invariant
            es == events_view(events@),
            distinct_ids(es),
            ready@.no_duplicates(),
            forall|u: int| 0 <= u < ready.len() ==> ready@[u] < events.len(),
            best < t <= ready.len(),
            forall|u: int|
                0 <= u < t && u != best ==> key_lt(
                    es[ready@[best as int] as int],
                    es[#[trigger] ready@[u] as int],
                ),
        decreases ready.len() - t,
    {
        let x = ready[t];
        let y = ready[best];
        let a = sort_key(&events[x], x);
        let b = sort_key(&events[y], y);
        proof {
            assert(es[x as int] == events@[x as int]@);
            assert(es[y as int] == events@[y as int]@);
            assert(x != y);
            assert(es[x as int].event_id != es[y as int].event_id);
            lemma_key_lt_facts(es[x as int], es[y as int], es[x as int]);
        }
        if key_before(&a, &b) {
            proof {
                assert(key_lt(es[x as int], es[y as int]));
                assert forall|u: int|
                    0 <= u < t + 1 && u != t implies key_lt(
                    es[x as int],
                    es[#[trigger] ready@[u] as int],
                ) by {
                    if u != best {
                        lemma_key_lt_facts(es[x as int], es[y as int], es[ready@[u] as int]);
                    }
                }
            }
            best = t;
        } else {
            assert(key_lt(es[y as int], es[x as int]));
        }
        t = t + 1;
    }
    best
}


/// For each event, the positions of the events that wait for it.
fn build_dependents(events: &Vec<ChronicleEvent>, creation: &HashMap<u128, usize>) -> (d: Vec<
    Vec<usize>,
>)
    requires
        creators_upto(events_view(events@), creation@, events.len() as int),
    ensures
        d.len() == events.len(),
        forall|a: int, b: int| 0 <= a < d.len() && 0 <= b < d@[a].len() ==> d@[a]@[b] < events.len(),
        forall|a: int, b: int|
            0 <= a < events.len() && 0 <= b < events.len() && #[trigger] idx_dep(
                events_view(events@),
                a,
                b,
            ) ==> d@[b]@.contains(a as usize),
{
    let ghost es = events_view(events@);
    let n = events.len();
    let mut dependents: Vec<Vec<usize>> = Vec::new();
    let mut k: usize = 0;
    while k < n
        invariant
            k <= n,
            dependents.len() == k,
            forall|a: int| 0 <= a < k ==> (#[trigger] dependents@[a])@.len() == 0,
        decreases n - k,
    {
        dependents.push(Vec::new());
        k = k + 1;
    }
    let mut i: usize = 0;
    while i < n
        invariant
            es == events_view(events@),
            n == events.len(),
            creators_upto(es, creation@, n as int),
            i <= n,
            dependents.len() == n,
            forall|a: int, b: int|
                0 <= a < n && 0 <= b < dependents@[a].len() ==> dependents@[a]@[b] < n,
            forall|a: int, b: int|
                0 <= a < i && 0 <= b < n && #[trigger] idx_dep(es, a, b) ==> dependents@[b]@.contains(
                    a as usize,
                ),
        decreases n - i,
    {
        assert(es[i as int] == events@[i as int]@);
        let deps = dependency_record_ids(&events[i]);
        let ghost dv = dependency_ids(es[i as int].kind);
        let mut k: usize = 0;
        while k < deps.len()
            invariant
                es == events_view(events@),
                n == events.len(),
                creators_upto(es, creation@, n as int),
                i < n,
                ids_view(deps@) == dv,
                dv == dependency_ids(es[i as int].kind),
                k <= deps.len(),
                dependents.len() == n,
                forall|a: int, b: int|
                    0 <= a < n && 0 <= b < dependents@[a].len() ==> dependents@[a]@[b] < n,
                forall|a: int, b: int|
                    0 <= a < i && 0 <= b < n && #[trigger] idx_dep(es, a, b)
                        ==> dependents@[b]@.contains(a as usize),
                forall|b: int|
                    0 <= b < n && b != i && #[trigger] created_id(es[b].kind) is Some && dv.take(
                        k as int,
                    ).contains(created_id(es[b].kind)->Some_0) ==> dependents@[b]@.contains(
                        i,
                    ),
            decreases deps.len() - k,
        {
            let r = deps[k].as_u128();
            assert(dv[k as int] == r);
            let ghost before = dependents@;
            match creation.get(&r) {
                Some(j) => {
                    let j = *j;
                    if j != i {
                        dependents[j].push(i);
                        proof {
                            assert forall|a: int| 0 <= a < n && a != j implies dependents@[a] == before[a] by {}
                            assert(dependents@[j as int]@ == before[j as int]@.push(i));
                        }
                    }
                },
                None => {},
            }
            proof {
                assert forall|a: int, b: int|
                    0 <= a < n && 0 <= b < dependents@[a].len() implies dependents@[a]@[b] < n by {
                    if b < before[a].len() {
                    }
                }
                assert forall|a: int, b: int|
                    0 <= a < i && 0 <= b < n && #[trigger] idx_dep(es, a, b) implies dependents@[b]@.contains(
                        a as usize,
                    ) by {
                    assert(before[b]@.contains(a as usize));
                    let w = choose|w: int| 0 <= w < before[b]@.len() && before[b]@[w] == a as usize;
                    assert(dependents@[b]@[w] == a as usize);
                }
                assert forall|b: int|
                    0 <= b < n && b != i && #[trigger] created_id(es[b].kind) is Some && dv.take(
                        k + 1,
                    ).contains(created_id(es[b].kind)->Some_0) implies dependents@[b]@.contains(i) by {
                    let c = created_id(es[b].kind)->Some_0;
                    let tk = dv.take(k + 1);
                    let w = choose|w: int| 0 <= w < tk.len() && #[trigger] tk[w] == c;
                    if w < k {
                        assert(dv.take(k as int)[w] == c);
                        assert(before[b]@.contains(i));
                        let w2 = choose|w2: int| 0 <= w2 < before[b]@.len() && before[b]@[w2] == i;
                        assert(dependents@[b]@[w2] == i);
                    } else {
                        assert(c == r);
                        assert(creation@.contains_key(c));
                        assert(creation@[c] == b);
                        assert(dependents@[b]@.last() == i);
                    }
                }
            }
            k = k + 1;
        }
        proof {
            assert(dv.take(deps.len() as int) =~= dv);
            assert forall|a: int, b: int|
                0 <= a < i + 1 && 0 <= b < n && #[trigger] idx_dep(es, a, b) implies dependents@[b]@.contains(
                    a as usize,
                ) by {
                if a == i {
                    assert(created_id(es[b].kind) is Some);
                }
            }
        }
        i = i + 1;
    }
    dependents
}


fn cycle_error() -> (e: SillokError)
    ensures
        e.code == "sync_merge_conflict",
{
    SillokError::new(
        "sync_merge_conflict",
        String::from_str("event dependency graph could not be topologically ordered"),
    )
}

/// A vector of `n` copies of `false`.
fn falses(n: usize) -> (v: Vec<bool>)
    ensures
        v.len() == n,
        forall|j: int| 0 <= j < n ==> !#[trigger] v@[j],
{
    let mut v: Vec<bool> = Vec::new();
    let mut k: usize = 0;
    while k < n
        invariant
            k <= n,
            v.len() == k,
            forall|j: int| 0 <= j < k ==> !#[trigger] v@[j],
        decreases n - k,
    {
        v.push(false);
        k = k + 1;
    }
    v
}

/// The main loop's facts about the ready list.
pub open spec fn ready_list_ok(
    es: Seq<EventView>,
    placed: Seq<bool>,
    queued: Seq<bool>,
    ready: Seq<usize>,
) -> bool {
    &&& forall|t: int|
        0 <= t < ready.len() ==> #[trigger] ready[t] < es.len() && !placed[ready[t] as int]
            && idx_ready(es, placed, ready[t] as int)
    &&& ready.no_duplicates()
    &&& forall|x: int|
        0 <= x < es.len() && !#[trigger] placed[x] && idx_ready(es, placed, x) ==> ready.contains(
            x as usize,
        )
    &&& forall|x: int| 0 <= x < es.len() ==> (#[trigger] queued[x] <==> placed[x] || ready.contains(x as usize))
}

/// `placed` marks exactly the positions listed in `ord`.
pub open spec fn marks(es: Seq<EventView>, placed: Seq<bool>, ord: Seq<usize>) -> bool {
    &&& placed.len() == es.len()
    &&& forall|j: int| 0 <= j < es.len() ==> (#[trigger] placed[j] <==> ord.contains(j as usize))
    &&& ord.no_duplicates()
    &&& forall|t: int| 0 <= t < ord.len() ==> #[trigger] ord[t] < es.len()
}

proof fn lemma_ready_monotone(es: Seq<EventView>, pl0: Seq<bool>, pl1: Seq<bool>, x: int)
    requires
        pl0.len() == es.len(),
        pl1.len() == es.len(),
        forall|j: int| 0 <= j < es.len() && #[trigger] pl0[j] ==> pl1[j],
        idx_ready(es, pl0, x),
    ensures
        idx_ready(es, pl1, x),
{
    assert forall|j: int| 0 <= j < es.len() && #[trigger] idx_dep(es, x, j) implies pl1[j] by {
        assert(pl0[j]);
    }
}

/// Orders events so that each comes after the events creating the records it
/// needs, taking the earliest ready event by replay key at each step.
fn order_events(events: Vec<ChronicleEvent>) -> (r: Result<Vec<ChronicleEvent>, SillokError>)
    requires
        distinct_ids(events_view(events@)),
    ensures
        match causal_order(events_view(events@).to_set()) {
            Some(q) => r matches Ok(v) && events_view(v@) == q,
            None => r matches Err(e) && e.code == "sync_merge_conflict",
        },
{
    let ghost es = events_view(events@);
    let ghost all = es.to_set();
    let n = events.len();
    let creation = match creation_index(&events) {
        Ok(m) => m,
        Err(e) => {
            return Err(e);
        },
    };
    proof {
        lemma_creators_single(es, creation@);
        lemma_distinct_to_set(es);
    }
    let dependents = build_dependents(&events, &creation);
    let mut placed = falses(n);
    let mut queued = falses(n);
    let mut ready: Vec<usize> = Vec::new();
    let mut i: usize = 0;
    while i < n
        invariant
            es == events_view(events@),
            n == events.len(),
            creators_upto(es, creation@, n as int),
            i <= n,
            placed.len() == n,
            queued.len() == n,
            forall|j: int| 0 <= j < n ==> !#[trigger] placed@[j],
            forall|t: int|
                0 <= t < ready.len() ==> #[trigger] ready@[t] < i && idx_ready(es, placed@, ready@[t] as int),
            ready@.no_duplicates(),
            forall|x: int| 0 <= x < i && idx_ready(es, placed@, x) ==> ready@.contains(x as usize),
            forall|x: int| 0 <= x < n ==> (#[trigger] queued@[x] <==> x < i && ready@.contains(x as usize)),
        decreases n - i,
    {
        if is_ready(&events, &creation, &placed, i) {
            let ghost before = ready@;
            ready.push(i);
            queued.set(i, true);
            proof {
                assert forall|x: int| 0 <= x < i + 1 && idx_ready(es, placed@, x) implies ready@.contains(x as usize) by {
                    if x < i {
                        let w = choose|w: int| 0 <= w < before.len() && before[w] == x as usize;
                        assert(ready@[w] == x as usize);
                    } else {
                        assert(ready@[ready.len() - 1] == i);
                    }
                }
                assert forall|x: int| 0 <= x < n implies (#[trigger] queued@[x] <==> x < i + 1 && ready@.contains(x as usize)) by {
                    if x < i && before.contains(x as usize) {
                        let w = choose|w: int| 0 <= w < before.len() && before[w] == x as usize;
                        assert(ready@[w] == x as usize);
                    }
                    if ready@.contains(x as usize) && x != i {
                        let w = choose|w: int| 0 <= w < ready@.len() && ready@[w] == x as usize;
                        assert(w < before.len());
                        assert(before[w] == x as usize);
                    }
                    if x == i {
                        assert(ready@[ready.len() - 1] == i);
                    }
                }
            }
        }
        i = i + 1;
    }
    let mut ordered: Vec<ChronicleEvent> = Vec::new();
    let ghost mut ord: Seq<usize> = Seq::empty();
    proof {
        lemma_queue_bound(ord, ready@, n);
        assert(placed_events(es, ord) =~= Seq::<EventView>::empty());
        assert(events_view(ordered@) =~= placed_events(es, ord));
    }
    while ready.len() > 0
        invariant
            es == events_view(events@),
            all == es.to_set(),
            n == events.len(),
            distinct_ids(es),
            all.len() == n,
            ids_unique(all),
            single_creation(all),
            creators_upto(es, creation@, n as int),
            dependents.len() == n,
            forall|a: int, b: int|
                0 <= a < n && 0 <= b < dependents@[a].len() ==> dependents@[a]@[b] < n,
            forall|a: int, b: int|
                0 <= a < n && 0 <= b < n && #[trigger] idx_dep(es, a, b) ==> dependents@[b]@.contains(
                    a as usize,
                ),
            queued.len() == n,
            marks(es, placed@, ord),
            ready_list_ok(es, placed@, queued@, ready@),
            ordered.len() == ord.len(),
            events_view(ordered@) == placed_events(es, ord),
            greedy(all, Seq::empty()) == greedy(all, placed_events(es, ord)),
            ord.len() + ready.len() <= n,
        decreases 2 * n - 2 * ordered.len() - ready.len(),
    {
        let pos = min_ready_position(&events, &ready);
        let ghost rv0 = ready@;
        let ghost pl0 = placed@;
        let ghost ord0 = ord;
        let p = ready.remove(pos);
        proof {
            let pe = placed_events(es, ord);
            lemma_ready_agree(es, ord, pl0, p as int);
            assert(!pe.contains(es[p as int])) by {
                lemma_placed_contains(es, ord, p as int);
            }
            assert forall|f: EventView|
                #![trigger deps_placed(all, pe, f)]
                all.contains(f) && !pe.contains(f) && deps_placed(all, pe, f) && f != es[p as int] implies key_lt(
                es[p as int],
                f,
            ) by {
                let x = choose|x: int| 0 <= x < es.len() && es[x] == f;
                lemma_placed_contains(es, ord, x);
                lemma_ready_agree(es, ord, pl0, x);
                assert(!pl0[x]);
                assert(idx_ready(es, pl0, x));
                assert(rv0.contains(x as usize));
                let t = choose|t: int| 0 <= t < rv0.len() && rv0[t] == x as usize;
                assert(t != pos);
            }
            assert(next_event(all, pe, es[p as int]));
            lemma_greedy_step(all, pe, es[p as int]);
            assert(placed_events(es, ord.push(p)) =~= pe.push(es[p as int]));
        }
        ordered.push(events[p].copy());
        placed.set(p, true);
        proof {
            assert(events_view(ordered@) =~= placed_events(es, ord).push(es[p as int]));
            ord = ord.push(p);
            assert forall|j: int| 0 <= j < n implies (#[trigger] placed@[j] <==> ord.contains(j as usize)) by {
                if j == p {
                    assert(ord[ord.len() - 1] == p);
                } else {
                    if ord.contains(j as usize) {
                        let w = choose|w: int| 0 <= w < ord.len() && ord[w] == j as usize;
                        assert(ord0[w] == j as usize);
                    }
                    if pl0[j] {
                        assert(ord0.contains(j as usize));
                        let w = choose|w: int| 0 <= w < ord0.len() && ord0[w] == j as usize;
                        assert(ord[w] == j as usize);
                    }
                }
            }
            assert forall|a: int, b: int| 0 <= a < ord.len() && 0 <= b < ord.len() && a != b implies ord[a] != ord[b] by {
                let last = ord.len() - 1;
                assert(!pl0[p as int]);
                if a == last {
                    assert(ord[b] == ord0[b]);
                    assert(ord0.contains(ord0[b]));
                    if ord0[b] == p {
                        assert(pl0[p as int]);
                    }
                } else if b == last {
                    assert(ord[a] == ord0[a]);
                    assert(ord0.contains(ord0[a]));
                    if ord0[a] == p {
                        assert(pl0[p as int]);
                    }
                } else {
                    assert(ord[a] == ord0[a]);
                    assert(ord[b] == ord0[b]);
                }
            }
            assert(marks(es, placed@, ord));
        }
        let ghost rv1 = ready@;
        proof {
            // The ready list without `p`, against the grown placed set.
            assert forall|t: int| 0 <= t < rv1.len() implies #[trigger] rv1[t] < n && !placed@[rv1[t] as int]
                && idx_ready(es, placed@, rv1[t] as int) by {
                let w = if t < pos { t } else { t + 1 };
                assert(rv1[t] == rv0[w]);
                assert(w != pos);
                lemma_ready_monotone(es, pl0, placed@, rv1[t] as int);
            }
            assert forall|a: int, b: int| 0 <= a < rv1.len() && 0 <= b < rv1.len() && a != b implies rv1[a] != rv1[b] by {
                let wa = if a < pos { a } else { a + 1 };
                let wb = if b < pos { b } else { b + 1 };
                assert(rv1[a] == rv0[wa]);
                assert(rv1[b] == rv0[wb]);
            }
            assert forall|x: int| 0 <= x < n implies (#[trigger] queued@[x] <==> placed@[x] || rv1.contains(x as usize)) by {
                if rv0.contains(x as usize) && x != p {
                    let w = choose|w: int| 0 <= w < rv0.len() && rv0[w] == x as usize;
                    assert(w != pos);
                    let t = if w < pos { w } else { w - 1 };
                    assert(rv1[t] == x as usize);
                }
                if rv1.contains(x as usize) {
                    let t = choose|t: int| 0 <= t < rv1.len() && rv1[t] == x as usize;
                    let w = if t < pos { t } else { t + 1 };
                    assert(rv0[w] == x as usize);
                }
                if x == p {
                    assert(rv0[pos as int] == p);
                }
            }
            assert forall|x: int| 0 <= x < n && !placed@[x] && idx_ready(es, pl0, x) implies rv1.contains(x as usize) by {
                assert(!pl0[x]);
                assert(rv0.contains(x as usize));
                let w = choose|w: int| 0 <= w < rv0.len() && rv0[w] == x as usize;
                assert(w != pos);
                let t = if w < pos { w } else { w - 1 };
                assert(rv1[t] == x as usize);
            }
        }
        let list = &dependents[p];
        let mut t: usize = 0;
        while t < list.len()
            invariant
                es == events_view(events@),
                n == events.len(),
                creators_upto(es, creation@, n as int),
                p < n,
                list@ == dependents@[p as int]@,
                forall|b: int| 0 <= b < list.len() ==> list@[b] < n,
                t <= list.len(),
                queued.len() == n,
                marks(es, placed@, ord),
                pl0.len() == n,
                forall|j: int| 0 <= j < n ==> (#[trigger] placed@[j] <==> pl0[j] || j == p),
                forall|u: int| 0 <= u < ready.len() ==> #[trigger] ready@[u] < n && !placed@[ready@[u] as int]
                    && idx_ready(es, placed@, ready@[u] as int),
                ready@.no_duplicates(),
                forall|x: int| 0 <= x < n ==> (#[trigger] queued@[x] <==> placed@[x] || ready@.contains(x as usize)),
                forall|x: int| 0 <= x < n && !placed@[x] && #[trigger] idx_ready(es, pl0, x) ==> ready@.contains(x as usize),
                forall|u: int|
                    0 <= u < t && !placed@[#[trigger] list@[u] as int] && idx_ready(es, placed@, list@[u] as int)
                        ==> ready@.contains(list@[u]),
                ord.len() + ready.len() <= n,
                rv1.len() <= ready.len(),
            decreases list.len() - t,
        {
            let d = list[t];
            let ghost rb = ready@;
            if !queued[d] && is_ready(&events, &creation, &placed, d) {
                proof {
                    lemma_queue_bound(ord, rb.push(d), n);
                }
                ready.push(d);
                queued.set(d, true);
                proof {
                    assert(ready@ == rb.push(d));
                    assert forall|x: int| 0 <= x < n implies (#[trigger] queued@[x] <==> placed@[x] || ready@.contains(x as usize)) by {
                        if x == d {
                            assert(ready@[ready.len() - 1] == d);
                        } else {
                            if rb.contains(x as usize) {
                                let w = choose|w: int| 0 <= w < rb.len() && rb[w] == x as usize;
                                assert(ready@[w] == x as usize);
                            }
                            if ready@.contains(x as usize) {
                                let w = choose|w: int| 0 <= w < ready@.len() && ready@[w] == x as usize;
                                assert(w < rb.len());
                                assert(rb[w] == x as usize);
                            }
                        }
                    }
                    assert forall|x: int| 0 <= x < n && !placed@[x] && #[trigger] idx_ready(es, pl0, x) implies ready@.contains(x as usize) by {
                        assert(rb.contains(x as usize));
                        let w = choose|w: int| 0 <= w < rb.len() && rb[w] == x as usize;
                        assert(ready@[w] == x as usize);
                    }
                    assert forall|u: int|
                        0 <= u < t + 1 && !placed@[#[trigger] list@[u] as int] && idx_ready(es, placed@, list@[u] as int)
                            implies ready@.contains(list@[u]) by {
                        if u < t {
                            assert(rb.contains(list@[u]));
                            let w = choose|w: int| 0 <= w < rb.len() && rb[w] == list@[u];
                            assert(ready@[w] == list@[u]);
                        } else {
                            assert(ready@[ready.len() - 1] == d);
                        }
                    }
                }
            } else {
                proof {
                    if queued@[d as int] && !placed@[d as int] {
                        assert(ready@.contains(d));
                    }
                }
            }
            t = t + 1;
        }
        proof {
            assert forall|x: int| 0 <= x < n && !#[trigger] placed@[x] && idx_ready(es, placed@, x) implies ready@.contains(x as usize) by {
                if idx_dep(es, x, p as int) {
                    assert(list@.contains(x as usize));
                    let u = choose|u: int| 0 <= u < list@.len() && list@[u] == x as usize;
                    assert(!placed@[list@[u] as int]);
                } else {
                    assert forall|j: int| 0 <= j < es.len() && #[trigger] idx_dep(es, x, j) implies pl0[j] by {
                        assert(placed@[j]);
                    }
                    assert(idx_ready(es, pl0, x));
                }
            }
            assert(ready_list_ok(es, placed@, queued@, ready@));
        }
    }
    proof {
        let pe = placed_events(es, ord);
        if ordered.len() < n {
            assert forall|f: EventView| all.contains(f) && !pe.contains(f) implies !deps_placed(all, pe, f) by {
                let x = choose|x: int| 0 <= x < es.len() && es[x] == f;
                lemma_placed_contains(es, ord, x);
                lemma_ready_agree(es, ord, placed@, x);
                if deps_placed(all, pe, f) {
                    assert(!placed@[x]);
                    assert(idx_ready(es, placed@, x));
                    assert(ready@.contains(x as usize));
                }
            }
            lemma_greedy_stuck(all, pe);
        }
    }
    if ordered.len() == n {
        Ok(ordered)
    } else {
        Err(cycle_error())
    }
}


/// The events of two archives merged: their union, in causal order; `None`
/// when one event id carries two payloads, a record has two creators, or the
/// dependencies form a cycle.
pub open spec fn merged_events_of(a: Seq<EventView>, b: Seq<EventView>) -> Option<Seq<EventView>> {
    if consistent(a + b) {
        causal_order((a + b).to_set())
    } else {
        None
    }
}

fn conflict_error(event_id: ChronicleId) -> (e: SillokError)
    ensures
        e.code == "sync_merge_conflict",
{
    let mut message = String::from_str("event id `");
    push_str(&mut message, event_id.to_string().as_str());
    push_str(&mut message, "` has conflicting payloads");
    SillokError::new("sync_merge_conflict", message)
}

/// Facts kept while collecting the distinct events of `s`.
pub open spec fn collected(s: Seq<EventView>, m: int, ev: Seq<EventView>, by_id: Map<u128, usize>) -> bool {
    &&& distinct_ids(ev)
    &&& consistent(s.take(m))
    &&& forall|id: u128| #[trigger] by_id.contains_key(id) ==> by_id[id] < ev.len() && ev[by_id[id] as int].event_id == id
    &&& forall|k: int| 0 <= k < ev.len() ==> by_id.contains_key(#[trigger] ev[k].event_id)
    &&& forall|i: int| 0 <= i < m ==> by_id.contains_key(#[trigger] s[i].event_id) && ev[by_id[s[i].event_id] as int] == s[i]
    &&& forall|k: int| 0 <= k < ev.len() ==> s.take(m).contains(#[trigger] ev[k])
}

/// Adds `event`, the event at position `m` of `s`, unless an equal event is
/// already collected; fails when a collected event has its id and another payload.
fn absorb(
    events: &mut Vec<ChronicleEvent>,
    by_event_id: &mut HashMap<u128, usize>,
    event: &ChronicleEvent,
    Ghost(s): Ghost<Seq<EventView>>,
    Ghost(m): Ghost<int>,
) -> (r: Result<(), SillokError>)
    requires
        0 <= m < s.len(),
        event@ == s[m],
        collected(s, m, events_view(old(events)@), old(by_event_id)@),
    ensures
        r is Ok ==> collected(s, m + 1, events_view(final(events)@), final(by_event_id)@),
        r matches Err(e) ==> !consistent(s) && e.code == "sync_merge_conflict",
{
    let ghost ev = events_view(events@);
    proof {
        assert(s.take(m + 1) =~= s.take(m).push(s[m]));
    }
    let id = event.event_id.as_u128();
    match by_event_id.get(&id) {
        Some(index) => {
            let index = *index;
            if !events[index].same(event) {
                proof {
                    assert(ev[index as int] == events@[index as int]@);
                    assert(s.take(m).contains(ev[index as int]));
                    let i = choose|i: int| 0 <= i < m && s.take(m)[i] == ev[index as int];
                    assert(s[i] == ev[index as int]);
                    assert(s[i].event_id == s[m].event_id);
                    assert(!consistent(s));
                }
                return Err(conflict_error(event.event_id));
            }
            proof {
                assert(ev[index as int] == events@[index as int]@);
                let t = s.take(m + 1);
                assert forall|i: int, j: int|
                    0 <= i < t.len() && 0 <= j < t.len() && #[trigger] t[i].event_id
                        == #[trigger] t[j].event_id implies t[i] == t[j] by {
                    if i < m {
                        assert(t[i] == s[i]);
                        assert(by_event_id@.contains_key(s[i].event_id));
                    }
                    if j < m {
                        assert(t[j] == s[j]);
                        assert(by_event_id@.contains_key(s[j].event_id));
                    }
                    if i < m && j < m {
                        assert(s.take(m)[i] == s[i]);
                        assert(s.take(m)[j] == s[j]);
                    }
                }
                assert forall|k: int| 0 <= k < ev.len() implies t.contains(#[trigger] ev[k]) by {
                    assert(s.take(m).contains(ev[k]));
                    let i = choose|i: int| 0 <= i < m && s.take(m)[i] == ev[k];
                    assert(t[i] == ev[k]);
                }
            }
        },
        None => {
            let n = events.len();
            events.push(event.copy());
            by_event_id.insert(id, n);
            proof {
                let ev1 = events_view(events@);
                assert(ev1 =~= ev.push(s[m]));
                let t = s.take(m + 1);
                assert forall|i: int, j: int|
                    0 <= i < ev1.len() && 0 <= j < ev1.len() && i != j implies #[trigger] ev1[i].event_id
                        != #[trigger] ev1[j].event_id by {
                    if i < n && j < n {
                        assert(ev1[i] == ev[i] && ev1[j] == ev[j]);
                    } else if i < n {
                        assert(by_event_id@.contains_key(ev[i].event_id) || true);
                        assert(ev1[i] == ev[i]);
                    } else {
                        assert(ev1[j] == ev[j]);
                    }
                }
                assert forall|i: int, j: int|
                    0 <= i < t.len() && 0 <= j < t.len() && #[trigger] t[i].event_id
                        == #[trigger] t[j].event_id implies t[i] == t[j] by {
                    if i < m && j < m {
                        assert(s.take(m)[i] == s[i]);
                        assert(s.take(m)[j] == s[j]);
                    } else if i < m {
                        assert(t[i] == s[i]);
                    } else if j < m {
                        assert(t[j] == s[j]);
                    }
                }
                assert forall|k: int| 0 <= k < ev1.len() implies t.contains(#[trigger] ev1[k]) by {
                    if k < n {
                        assert(s.take(m).contains(ev[k]));
                        let i = choose|i: int| 0 <= i < m && s.take(m)[i] == ev[k];
                        assert(t[i] == ev[k]);
                    } else {
                        assert(t[m] == s[m]);
                    }
                }
                assert forall|k: int| 0 <= k < ev1.len() implies by_event_id@.contains_key(#[trigger] ev1[k].event_id) by {
                    if k < n {
                        assert(ev1[k] == ev[k]);
                    }
                }
                assert forall|i: int| 0 <= i < m + 1 implies by_event_id@.contains_key(#[trigger] s[i].event_id)
                    && ev1[by_event_id@[s[i].event_id] as int] == s[i] by {
                    if i < m {
                        assert(ev1[by_event_id@[s[i].event_id] as int] == ev[by_event_id@[s[i].event_id] as int]);
                    }
                }
                assert forall|x: u128| #[trigger] by_event_id@.contains_key(x) implies by_event_id@[x] < ev1.len()
                    && ev1[by_event_id@[x] as int].event_id == x by {
                    if x != id {
                        assert(ev1[by_event_id@[x] as int] == ev[by_event_id@[x] as int]);
                    }
                }
            }
        },
    }
    Ok(())
}

/// Union of two archives' events by event id, in causal order.
fn merged_events(local: &Archive, remote: &Archive) -> (r: Result<Vec<ChronicleEvent>, SillokError>)
    ensures
        match merged_events_of(local@.events, remote@.events) {
            Some(q) => r matches Ok(v) && events_view(v@) == q,
            None => r matches Err(e) && e.code == "sync_merge_conflict",
        },
{
    let ghost s = local@.events + remote@.events;
    let ghost la = local@.events.len() as int;
    let mut events: Vec<ChronicleEvent> = Vec::new();
    let mut by_event_id: HashMap<u128, usize> = HashMap::new();
    proof {
        assert(s.take(0) =~= Seq::<EventView>::empty());
    }
    let mut i: usize = 0;
    while i < local.events.len()
        invariant
            s == local@.events + remote@.events,
            la == local@.events.len(),
            i <= local.events.len(),
            collected(s, i as int, events_view(events@), by_event_id@),
        decreases local.events.len() - i,
    {
        assert(s[i as int] == local@.events[i as int]);
        absorb(&mut events, &mut by_event_id, &local.events[i], Ghost(s), Ghost(i as int))?;
        i = i + 1;
    }
    let mut j: usize = 0;
    while j < remote.events.len()
        invariant
            s == local@.events + remote@.events,
            la == local@.events.len(),
            j <= remote.events.len(),
            collected(s, la + j, events_view(events@), by_event_id@),
        decreases remote.events.len() - j,
    {
        assert(s[la + j] == remote@.events[j as int]);
        absorb(&mut events, &mut by_event_id, &remote.events[j], Ghost(s), Ghost(la + j))?;
        j = j + 1;
    }
    let ghost total = s.len() as int;
    let ghost ev = events_view(events@);
    proof {
        assert(s.take(total) =~= s);
        assert(ev.to_set() =~= s.to_set()) by {
            assert forall|x: EventView| ev.to_set().contains(x) implies s.to_set().contains(x) by {
                let k = choose|k: int| 0 <= k < ev.len() && ev[k] == x;
                assert(s.take(total).contains(ev[k]));
            }
            assert forall|x: EventView| s.to_set().contains(x) implies ev.to_set().contains(x) by {
                let i = choose|i: int| 0 <= i < s.len() && s[i] == x;
                assert(by_event_id@.contains_key(s[i].event_id));
                let k = by_event_id@[s[i].event_id] as int;
                assert(ev[k] == x);
            }
        }
    }
    order_events(events)
}


/// `a`'s identity is the older one: `(created_at, archive_id)` is at most `b`'s.
pub open spec fn identity_first(a: ArchiveView, b: ArchiveView) -> bool {
    a.created_at < b.created_at || (a.created_at == b.created_at && a.archive_id <= b.archive_id)
}

/// Two archives meshed into one: the older identity and the merged events.
pub open spec fn mesh(a: ArchiveView, b: ArchiveView) -> Option<ArchiveView> {
    match merged_events_of(a.events, b.events) {
        Some(events) => Some(
            ArchiveView {
                schema_version: ARCHIVE_SCHEMA_VERSION,
                archive_id: if identity_first(a, b) { a.archive_id } else { b.archive_id },
                created_at: if identity_first(a, b) { a.created_at } else { b.created_at },
                events,
            },
        ),
        None => None,
    }
}

/// Result of merging local and remote archives.
#[derive(Debug, Clone)]
pub struct MergeOutcome {
    pub archive: Option<Archive>,
    pub merged: bool,
}

/// View of an optional archive.
pub open spec fn opt_archive_view(o: Option<Archive>) -> Option<ArchiveView> {
    match o {
        Some(a) => Some(a@),
        None => None,
    }
}

/// What merging one present archive with an absent one gives.
pub open spec fn merge_one(a: ArchiveView, r: Result<MergeOutcome, SillokError>) -> bool {
    &&& r is Ok <==> builds(a)
    &&& r matches Ok(o) ==> opt_archive_view(o.archive) == Some(a) && !o.merged
    &&& r matches Err(e) ==> build_error(a, e)
}

/// What merging two present archives gives.
pub open spec fn merge_two(l: ArchiveView, m: ArchiveView, r: Result<MergeOutcome, SillokError>) -> bool {
    match mesh(l, m) {
        None => r matches Err(e) && e.code == "sync_merge_conflict",
        Some(x) => {
            &&& r is Ok <==> builds(x)
            &&& r matches Ok(o) ==> opt_archive_view(o.archive) == Some(x) && o.merged == !(x == l
                && x == m)
            &&& r matches Err(e) ==> build_error(x, e)
        },
    }
}

/// Checks that `archive` builds into a view, giving the build's error if not.
fn validate(archive: &Archive) -> (r: Result<(), SillokError>)
    ensures
        r is Ok <==> builds(archive@),
        r matches Err(e) ==> build_error(archive@, e),
{
    match ChronicleView::build(archive) {
        Ok(_) => Ok(()),
        Err(e) => Err(e),
    }
}

/// Merges two optional archives by event id and validates the resulting view.
pub fn merge_archives(local: Option<&Archive>, remote: Option<&Archive>) -> (r: Result<
    MergeOutcome,
    SillokError,
>)
    ensures
        match (local, remote) {
            (None, None) => r matches Ok(o) && o.archive is None && !o.merged,
            (Some(a), None) => merge_one(a@, r),
            (None, Some(a)) => merge_one(a@, r),
            (Some(l), Some(m)) => merge_two(l@, m@, r),
        },
{
    match (local, remote) {
        (None, None) => Ok(MergeOutcome { archive: None, merged: false }),
        (Some(archive), None) => {
            validate(archive)?;
            Ok(MergeOutcome { archive: Some(archive.copy()), merged: false })
        },
        (None, Some(archive)) => {
            validate(archive)?;
            Ok(MergeOutcome { archive: Some(archive.copy()), merged: false })
        },
        (Some(local_archive), Some(remote_archive)) => {
            // The older identity survives, so every replica converges on the
            // same archive id whichever side merges first.
            let local_first = local_archive.created_at.as_millis()
                < remote_archive.created_at.as_millis() || (local_archive.created_at.as_millis()
                == remote_archive.created_at.as_millis() && local_archive.archive_id.as_u128()
                <= remote_archive.archive_id.as_u128());
            let (archive_id, created_at) = if local_first {
                (local_archive.archive_id, local_archive.created_at)
            } else {
                (remote_archive.archive_id, remote_archive.created_at)
            };
            let events = merged_events(local_archive, remote_archive)?;
            let archive = Archive { schema_version: ARCHIVE_SCHEMA_VERSION, archive_id, created_at, events };
            validate(&archive)?;
            let merged = !archive.same(local_archive) || !archive.same(remote_archive);
            Ok(MergeOutcome { archive: Some(archive), merged })
        },
    }
}


proof fn lemma_consistent_set(s: Seq<EventView>)
    ensures
        consistent(s) == ids_unique(s.to_set()),
{
    if consistent(s) {
        assert forall|e: EventView, f: EventView|
            s.to_set().contains(e) && s.to_set().contains(f) && e.event_id
                == f.event_id implies e == f by {
            let i = choose|i: int| 0 <= i < s.len() && s[i] == e;
            let j = choose|j: int| 0 <= j < s.len() && s[j] == f;
            assert(s[i].event_id == s[j].event_id);
        }
    }
    if ids_unique(s.to_set()) {
        assert forall|i: int, j: int|
            0 <= i < s.len() && 0 <= j < s.len() && #[trigger] s[i].event_id
                == #[trigger] s[j].event_id implies s[i] == s[j] by {
            assert(s.to_set().contains(s[i]));
            assert(s.to_set().contains(s[j]));
        }
    }
}

proof fn lemma_greedy_result(all: Set<EventView>, placed: Seq<EventView>)
    requires
        all.finite(),
        placed.no_duplicates(),
        forall|i: int| 0 <= i < placed.len() ==> all.contains(#[trigger] placed[i]),
        forall|i: int|
            0 <= i < placed.len() ==> deps_placed(all, placed.take(i), #[trigger] placed[i]),
    ensures
        greedy(all, placed) matches Some(q) ==> {
            &&& q.no_duplicates()
            &&& q.to_set() == all
            &&& forall|i: int| 0 <= i < q.len() ==> deps_placed(all, q.take(i), #[trigger] q[i])
        },
    decreases all.len() - placed.len(),
{
    if placed.len() >= all.len() {
        placed.unique_seq_to_set();
        assert(placed.to_set().subset_of(all));
        lemma_len_subset(placed.to_set(), all);
        lemma_subset_equality(placed.to_set(), all);
    } else if exists|e: EventView| next_event(all, placed, e) {
        let e = choose|e: EventView| next_event(all, placed, e);
        let p2 = placed.push(e);
        assert forall|i: int, j: int| 0 <= i < p2.len() && 0 <= j < p2.len() && i != j implies p2[i]
            != p2[j] by {
            if i == placed.len() {
                assert(placed.contains(p2[j]) || j == placed.len());
            } else if j == placed.len() {
                assert(placed.contains(p2[i]));
            }
        }
        assert forall|i: int| 0 <= i < p2.len() implies deps_placed(all, p2.take(i), #[trigger] p2[i]) by {
            if i < placed.len() {
                assert(p2.take(i) =~= placed.take(i));
            } else {
                assert(p2.take(i) =~= placed);
            }
        }
        lemma_greedy_result(all, p2);
    }
}

/// Meshing is symmetric: the same two archives give the same merged archive,
/// or the same refusal, in either order.
pub proof fn lemma_mesh_symmetric(a: ArchiveView, b: ArchiveView)
    ensures
        mesh(a, b) == mesh(b, a),
{
    lemma_consistent_set(a.events + b.events);
    lemma_consistent_set(b.events + a.events);
    vstd::seq_lib::seq_to_set_distributes_over_add(a.events, b.events);
    vstd::seq_lib::seq_to_set_distributes_over_add(b.events, a.events);
    assert((a.events + b.events).to_set() =~= (b.events + a.events).to_set());
}

/// No event is lost or repeated: a mesh holds every event of both sides,
/// each exactly once, and no two of its events share an id.
pub proof fn lemma_mesh_keeps_events(a: ArchiveView, b: ArchiveView)
    requires
        mesh(a, b) is Some,
    ensures
        mesh(a, b)->Some_0.events.to_set() == (a.events + b.events).to_set(),
        mesh(a, b)->Some_0.events.no_duplicates(),
        distinct_ids(mesh(a, b)->Some_0.events),
{
    let all = (a.events + b.events).to_set();
    lemma_consistent_set(a.events + b.events);
    vstd::seq_lib::seq_to_set_is_finite(a.events + b.events);
    lemma_greedy_result(all, Seq::empty());
    let q = mesh(a, b)->Some_0.events;
    assert forall|i: int, j: int| 0 <= i < q.len() && 0 <= j < q.len() && i != j implies #[trigger] q[i].event_id
        != #[trigger] q[j].event_id by {
        assert(q.to_set().contains(q[i]));
        assert(q.to_set().contains(q[j]));
    }
}

/// A mesh replays cleanly in order: every event comes after each event that
/// creates a record it needs.
pub proof fn lemma_mesh_causal(a: ArchiveView, b: ArchiveView)
    requires
        mesh(a, b) is Some,
    ensures
        forall|i: int, j: int|
            0 <= i < mesh(a, b)->Some_0.events.len() && 0 <= j < mesh(a, b)->Some_0.events.len()
                && #[trigger] depends(mesh(a, b)->Some_0.events[i], mesh(a, b)->Some_0.events[j])
                ==> j < i,
{
    let all = (a.events + b.events).to_set();
    vstd::seq_lib::seq_to_set_is_finite(a.events + b.events);
    lemma_greedy_result(all, Seq::empty());
    let q = mesh(a, b)->Some_0.events;
    assert forall|i: int, j: int| 0 <= i < q.len() && 0 <= j < q.len() && #[trigger] depends(q[i], q[j]) implies j < i by {
        assert(deps_placed(all, q.take(i), q[i]));
        assert(q.to_set().contains(q[j]));
        assert(q.take(i).contains(q[j]));
        let k = choose|k: int| 0 <= k < i && q.take(i)[k] == q[j];
        assert(q[k] == q[j]);
    }
}

/// Meshing an already meshed archive with itself changes nothing: a second
/// sync of the same merged artifact finds nothing to merge.
pub proof fn lemma_mesh_stable(a: ArchiveView, b: ArchiveView)
    requires
        mesh(a, b) is Some,
    ensures
        mesh(mesh(a, b)->Some_0, mesh(a, b)->Some_0) == mesh(a, b),
{
    let x = mesh(a, b)->Some_0;
    lemma_mesh_keeps_events(a, b);
    lemma_consistent_set(a.events + b.events);
    lemma_consistent_set(x.events + x.events);
    vstd::seq_lib::seq_to_set_distributes_over_add(x.events, x.events);
    assert((x.events + x.events).to_set() =~= (a.events + b.events).to_set());
}

/// Meshing is associative: three replicas converge on the same archive
/// whichever pair meshes first.
pub proof fn lemma_mesh_associative(a: ArchiveView, b: ArchiveView, c: ArchiveView)
    requires
        mesh(a, b) is Some,
        mesh(b, c) is Some,
    ensures
        mesh(mesh(a, b)->Some_0, c) == mesh(a, mesh(b, c)->Some_0),
{
    let x = mesh(a, b)->Some_0;
    let y = mesh(b, c)->Some_0;
    lemma_mesh_keeps_events(a, b);
    lemma_mesh_keeps_events(b, c);
    lemma_consistent_set(x.events + c.events);
    lemma_consistent_set(a.events + y.events);
    vstd::seq_lib::seq_to_set_distributes_over_add(x.events, c.events);
    vstd::seq_lib::seq_to_set_distributes_over_add(a.events, y.events);
    vstd::seq_lib::seq_to_set_distributes_over_add(a.events, b.events);
    vstd::seq_lib::seq_to_set_distributes_over_add(b.events, c.events);
    assert((x.events + c.events).to_set() =~= (a.events + y.events).to_set());
}

} // verus!
