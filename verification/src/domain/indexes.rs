use vstd::prelude::*;

use crate::domain::event::{RecordStatus};
use crate::domain::id::ChronicleId;
use crate::domain::view::{ChronicleState, ChronicleView};
use crate::error::SillokError;

pub use crate::domain::graph::validate_parent_graph;

verus! {

broadcast use vstd::std_specs::hash::group_hash_axioms;

/// View of a list of ids.
pub open spec fn ids_view(v: Seq<ChronicleId>) -> Seq<u128> {
    v.map_values(|c: ChronicleId| c@)
}

/// Record `a` sorts before record `b` by `(created_at, record_id)`.
pub open spec fn record_before(s: ChronicleState, a: u128, b: u128) -> bool {
    let ra = s.records[a];
    let rb = s.records[b];
    ra.created_at < rb.created_at || (ra.created_at == rb.created_at && a < b)
}

/// `t` lists every record exactly once, ordered by `(created_at, record_id)`.
pub open spec fn timeline_ok(s: ChronicleState, t: Seq<u128>) -> bool {
    &&& forall|i: int, j: int| 0 <= i < j < t.len() ==> record_before(s, #[trigger] t[i], #[trigger] t[j])
    &&& forall|id: u128| s.records.contains_key(id) <==> #[trigger] t.contains(id)
}

/// Lexicographic order on `(created_at, record_id)` keys.
pub open spec fn pair_le(a: (i64, u128), b: (i64, u128)) -> bool {
    a.0 < b.0 || (a.0 == b.0 && a.1 <= b.1)
}

/// `v` is in ascending key order.
pub open spec fn pairs_sorted(v: Seq<(i64, u128)>) -> bool {
    forall|i: int, j: int| 0 <= i < j < v.len() ==> pair_le(#[trigger] v[i], #[trigger] v[j])
}

/// Sorts keys ascending (`slice::sort_unstable`; tuples compare lexicographically).
#[verifier::external_body]
fn sort_keys(v: &mut Vec<(i64, u128)>)
    ensures
        final(v)@.to_multiset() == old(v)@.to_multiset(),
        pairs_sorted(final(v)@),
{
    v.sort_unstable();
}

/// Every bucket of an index holds at least one record id.
pub open spec fn nonempty_buckets<K>(b: Seq<(K, Vec<ChronicleId>)>) -> bool {
    forall|j: int| 0 <= j < b.len() ==> #[trigger] b[j].1@.len() > 0
}

/// No index of the view has an empty bucket.
pub open spec fn view_buckets_nonempty(view: &ChronicleView<'_>) -> bool {
    &&& nonempty_buckets(view.by_day@)
    &&& nonempty_buckets(view.by_tag@)
    &&& nonempty_buckets(view.by_context@)
    &&& nonempty_buckets(view.by_status@)
}

/// The timeline and the day, tag, context and status indexes all describe the view's records.
pub open spec fn view_indexed(view: &ChronicleView<'_>) -> bool {
    let s = view.state();
    let t = ids_view(view.timeline@);
    &&& timeline_ok(s, t)
    &&& day_index_ok(s, t, id_index_view(view.by_day@))
    &&& tag_index_ok(s, t, text_index_view(view.by_tag@))
    &&& context_index_ok(s, t, text_index_view(view.by_context@))
    &&& status_index_ok(s, t, status_index_view(view.by_status@))
}

/// Rebuilds secondary indexes after all events are reduced.
pub fn rebuild_indexes(view: &mut ChronicleView<'_>)
    requires
        old(view).wf(),
    ensures
        final(view).wf(),
        final(view).state() == old(view).state(),
        final(view).archive == old(view).archive,
        view_indexed(final(view)),
        view_buckets_nonempty(final(view)),
{
    view.timeline = build_timeline(view);
    view.by_day = build_day_index(view);
    view.by_tag = build_tag_index(view);
    view.by_context = build_context_index(view);
    view.by_status = build_status_index(view);
}

/// All record ids ordered by `(created_at, record_id)`.
fn build_timeline(view: &ChronicleView<'_>) -> (t: Vec<ChronicleId>)
    requires
        view.wf(),
    ensures
        timeline_ok(view.state(), ids_view(t@)),
{
    let ghost s = view.state();
    let mut keys: Vec<(i64, u128)> = Vec::new();
    let mut i: usize = 0;
    while i < view.records.len()
        invariant
            view.wf(),
            s == view.state(),
            i <= view.records@.len(),
            keys@.len() == i,
            forall|j: int| 0 <= j < i ==> #[trigger] keys@[j] == (
                view.records@[j].created_at@,
                view.records@[j].record_id@,
            ),
        decreases view.records@.len() - i,
    {
        let r = &view.records[i];
        keys.push((r.created_at.as_millis(), r.record_id.as_u128()));
        i = i + 1;
    }
    let ghost unsorted = keys@;
    proof {
        assert forall|a: int, b: int| 0 <= a < b < unsorted.len() implies unsorted[a] != unsorted[b] by {
            assert(view.positions@[view.records@[a].record_id@] == a);
            assert(view.positions@[view.records@[b].record_id@] == b);
        }
        assert(unsorted.no_duplicates());
    }
    sort_keys(&mut keys);
    let ghost sorted = keys@;
    proof {
        broadcast use vstd::seq_lib::group_to_multiset_ensures;
        unsorted.lemma_multiset_has_no_duplicates();
        assert forall|x: (i64, u128)| sorted.contains(x) <==> unsorted.contains(x) by {
            assert(sorted.to_multiset().count(x) == unsorted.to_multiset().count(x));
        }
        assert forall|x: (i64, u128)| #[trigger] sorted.to_multiset().count(x) <= 1 by {
            if unsorted.to_multiset().count(x) > 1 {
                assert(unsorted.to_multiset().count(x) == 1);
            }
        }
        sorted.lemma_multiset_has_no_duplicates_conv();
    }
    let mut t: Vec<ChronicleId> = Vec::new();
    let mut k: usize = 0;
    while k < keys.len()
        invariant
            keys@ == sorted,
            k <= keys@.len(),
            t@.len() == k,
            forall|j: int| 0 <= j < k ==> #[trigger] t@[j]@ == sorted[j].1,
        decreases keys@.len() - k,
    {
        t.push(ChronicleId::from_u128(keys[k].1));
        k = k + 1;
    }
    proof {
        let tv = ids_view(t@);
        assert forall|j: int| 0 <= j < sorted.len() implies s.records.contains_key(#[trigger] sorted[j].1)
            && s.records[sorted[j].1].created_at == sorted[j].0 by {
            assert(sorted.contains(sorted[j]));
            let q = choose|q: int| 0 <= q < unsorted.len() && unsorted[q] == sorted[j];
            assert(s.records.contains_key(view.records@[q].record_id@));
        }
        assert forall|a: int, b: int| 0 <= a < b < tv.len() implies record_before(s, #[trigger] tv[a], #[trigger] tv[b]) by {
            assert(tv[a] == sorted[a].1 && tv[b] == sorted[b].1);
            assert(pair_le(sorted[a], sorted[b]));
            assert(sorted[a] != sorted[b]);
            assert(s.records.contains_key(sorted[a].1));
            assert(s.records.contains_key(sorted[b].1));
        }
        assert forall|id: u128| s.records.contains_key(id) <==> #[trigger] tv.contains(id) by {
            if s.records.contains_key(id) {
                let q = view.positions@[id] as int;
                assert(unsorted[q] == (view.records@[q].created_at@, id));
                assert(sorted.contains(unsorted[q]));
                let j = choose|j: int| 0 <= j < sorted.len() && sorted[j] == unsorted[q];
                assert(tv[j] == id);
            }
            if tv.contains(id) {
                let j = choose|j: int| 0 <= j < tv.len() && tv[j] == id;
                assert(tv[j] == sorted[j].1);
            }
        }
    }
    t
}

/// Records of a timeline that belong to day `day`.
pub open spec fn day_bucket(s: ChronicleState, t: Seq<u128>, day: u128) -> Seq<u128> {
    t.filter(in_day(s, day))
}

/// Whether a record belongs to day `day`.
pub open spec fn in_day(s: ChronicleState, day: u128) -> spec_fn(u128) -> bool {
    |id: u128| s.records[id].day_id == day
}

/// Records of a timeline with status `status`.
pub open spec fn status_bucket(s: ChronicleState, t: Seq<u128>, status: RecordStatus) -> Seq<u128> {
    t.filter(has_status(s, status))
}

/// Whether a record has status `status`.
pub open spec fn has_status(s: ChronicleState, status: RecordStatus) -> spec_fn(u128) -> bool {
    |id: u128| s.records[id].status == status
}

/// Records of a timeline whose context key is `key`.
pub open spec fn context_bucket(s: ChronicleState, t: Seq<u128>, key: Seq<char>) -> Seq<u128> {
    t.filter(in_context(s, key))
}

/// Whether a record's context key is `key`.
pub open spec fn in_context(s: ChronicleState, key: Seq<char>) -> spec_fn(u128) -> bool {
    |id: u128| s.records[id].context.key() == key
}

/// How often `tag` occurs in `tags`.
pub open spec fn tag_count(tags: Seq<Seq<char>>, tag: Seq<char>) -> nat {
    tags.filter(is_tag(tag)).len()
}

/// Whether a tag equals `tag`.
pub open spec fn is_tag(tag: Seq<char>) -> spec_fn(Seq<char>) -> bool {
    |x: Seq<char>| x == tag
}

/// `n` copies of `id`.
pub open spec fn repeat_id(id: u128, n: nat) -> Seq<u128> {
    Seq::new(n, |i: int| id)
}

/// Records of a timeline carrying `tag`, each repeated once per occurrence of the tag.
pub open spec fn tag_bucket(s: ChronicleState, t: Seq<u128>, tag: Seq<char>) -> Seq<u128>
    decreases t.len(),
{
    if t.len() == 0 {
        Seq::empty()
    } else {
        tag_bucket(s, t.drop_last(), tag) + repeat_id(t.last(), tag_count(s.records[t.last()].tags, tag))
    }
}

/// View of an index keyed by ids.
pub open spec fn id_index_view(b: Seq<(ChronicleId, Vec<ChronicleId>)>) -> Seq<(u128, Seq<u128>)> {
    b.map_values(|p: (ChronicleId, Vec<ChronicleId>)| (p.0@, ids_view(p.1@)))
}

/// View of an index keyed by status.
pub open spec fn status_index_view(b: Seq<(RecordStatus, Vec<ChronicleId>)>) -> Seq<(RecordStatus, Seq<u128>)> {
    b.map_values(|p: (RecordStatus, Vec<ChronicleId>)| (p.0, ids_view(p.1@)))
}

/// View of an index keyed by text.
pub open spec fn text_index_view(b: Seq<(String, Vec<ChronicleId>)>) -> Seq<(Seq<char>, Seq<u128>)> {
    b.map_values(|p: (String, Vec<ChronicleId>)| (p.0@, ids_view(p.1@)))
}

/// The day index over timeline `t`: distinct keys, each bucket the day's
/// records in timeline order, and a bucket for every record's day.
pub open spec fn day_index_ok(s: ChronicleState, t: Seq<u128>, b: Seq<(u128, Seq<u128>)>) -> bool {
    &&& forall|i: int, j: int| 0 <= i < j < b.len() ==> #[trigger] b[i].0 != #[trigger] b[j].0
    &&& forall|i: int| 0 <= i < b.len() ==> #[trigger] b[i].1 == day_bucket(s, t, b[i].0)
    &&& forall|q: int| 0 <= q < t.len() ==> has_bucket(b, s.records[#[trigger] t[q]].day_id)
}

/// The status index over timeline `t`.
pub open spec fn status_index_ok(s: ChronicleState, t: Seq<u128>, b: Seq<(RecordStatus, Seq<u128>)>) -> bool {
    &&& forall|i: int, j: int| 0 <= i < j < b.len() ==> #[trigger] b[i].0 != #[trigger] b[j].0
    &&& forall|i: int| 0 <= i < b.len() ==> #[trigger] b[i].1 == status_bucket(s, t, b[i].0)
    &&& forall|q: int| 0 <= q < t.len() ==> has_bucket(b, s.records[#[trigger] t[q]].status)
}

/// The context index over timeline `t`.
pub open spec fn context_index_ok(s: ChronicleState, t: Seq<u128>, b: Seq<(Seq<char>, Seq<u128>)>) -> bool {
    &&& forall|i: int, j: int| 0 <= i < j < b.len() ==> #[trigger] b[i].0 != #[trigger] b[j].0
    &&& forall|i: int| 0 <= i < b.len() ==> #[trigger] b[i].1 == context_bucket(s, t, b[i].0)
    &&& forall|q: int| 0 <= q < t.len() ==> has_bucket(b, s.records[#[trigger] t[q]].context.key())
}

/// The tag index over timeline `t`.
pub open spec fn tag_index_ok(s: ChronicleState, t: Seq<u128>, b: Seq<(Seq<char>, Seq<u128>)>) -> bool {
    &&& forall|i: int, j: int| 0 <= i < j < b.len() ==> #[trigger] b[i].0 != #[trigger] b[j].0
    &&& forall|i: int| 0 <= i < b.len() ==> #[trigger] b[i].1 == tag_bucket(s, t, b[i].0)
    &&& forall|q: int, m: int|
        0 <= q < t.len() && 0 <= m < s.records[t[q]].tags.len() ==> has_bucket(
            b,
            #[trigger] s.records[#[trigger] t[q]].tags[m],
        )
}

/// The tag index part-way through a record: buckets also hold `id` once per
/// occurrence among the record's first tags.
pub open spec fn tag_index_partial(
    s: ChronicleState,
    t: Seq<u128>,
    id: u128,
    done: Seq<Seq<char>>,
    b: Seq<(Seq<char>, Seq<u128>)>,
) -> bool {
    &&& forall|i: int, j: int| 0 <= i < j < b.len() ==> #[trigger] b[i].0 != #[trigger] b[j].0
    &&& forall|i: int|
        0 <= i < b.len() ==> #[trigger] b[i].1 == tag_bucket(s, t, b[i].0) + repeat_id(
            id,
            tag_count(done, b[i].0),
        )
    &&& forall|q: int, m: int|
        0 <= q < t.len() && 0 <= m < s.records[t[q]].tags.len() ==> has_bucket(
            b,
            #[trigger] s.records[#[trigger] t[q]].tags[m],
        )
    &&& forall|m: int| 0 <= m < done.len() ==> has_bucket(b, #[trigger] done[m])
}

pub(crate) proof fn lemma_tag_bucket_none(s: ChronicleState, t: Seq<u128>, tag: Seq<char>)
    requires
        forall|q: int| 0 <= q < t.len() ==> tag_count(s.records[#[trigger] t[q]].tags, tag) == 0,
    ensures
        tag_bucket(s, t, tag) == Seq::<u128>::empty(),
    decreases t.len(),
{
    if t.len() > 0 {
        let d = t.drop_last();
        assert forall|q: int| 0 <= q < d.len() implies tag_count(s.records[#[trigger] d[q]].tags, tag) == 0 by {
            assert(d[q] == t[q]);
        }
        lemma_tag_bucket_none(s, d, tag);
        assert(tag_count(s.records[t[t.len() - 1]].tags, tag) == 0);
        assert(tag_bucket(s, t, tag) =~= Seq::<u128>::empty());
    }
}

/// Some bucket of `b` has key `key`.
pub open spec fn has_bucket<K, V>(b: Seq<(K, V)>, key: K) -> bool {
    exists|w: int| 0 <= w < b.len() && #[trigger] b[w].0 == key
}

pub(crate) proof fn lemma_filter_take_step<A>(t: Seq<A>, k: int, pred: spec_fn(A) -> bool)
    requires
        0 <= k < t.len(),
    ensures
        t.take(k + 1).filter(pred) == if pred(t[k]) {
            t.take(k).filter(pred).push(t[k])
        } else {
            t.take(k).filter(pred)
        },
{
    assert(t.take(k + 1).drop_last() =~= t.take(k));
    reveal_with_fuel(Seq::filter, 1);
}

pub(crate) proof fn lemma_filter_none<A>(t: Seq<A>, pred: spec_fn(A) -> bool)
    requires
        forall|i: int| 0 <= i < t.len() ==> !pred(#[trigger] t[i]),
    ensures
        t.filter(pred) == Seq::<A>::empty(),
    decreases t.len(),
{
    reveal_with_fuel(Seq::filter, 1);
    if t.len() > 0 {
        let d = t.drop_last();
        assert forall|i: int| 0 <= i < d.len() implies !pred(#[trigger] d[i]) by {
            assert(d[i] == t[i]);
        }
        lemma_filter_none(d, pred);
        assert(!pred(t[t.len() - 1]));
    }
}

/// Appends `id` to bucket `i`.
fn bucket_push<K>(buckets: &mut Vec<(K, Vec<ChronicleId>)>, i: usize, id: ChronicleId, dummy: K)
    requires
        i < old(buckets)@.len(),
    ensures
        final(buckets)@.len() == old(buckets)@.len(),
        final(buckets)@[i as int].0 == old(buckets)@[i as int].0,
        final(buckets)@[i as int].1@ == old(buckets)@[i as int].1@.push(id),
        forall|j: int| 0 <= j < final(buckets)@.len() && j != i ==> #[trigger] final(buckets)@[j]
            == old(buckets)@[j],
{
    let mut pair = (dummy, Vec::new());
    buckets.set_and_swap(i, &mut pair);
    pair.1.push(id);
    buckets.set(i, pair);
}

/// Finds the bucket for a day.
pub(crate) fn find_day_bucket(b: &Vec<(ChronicleId, Vec<ChronicleId>)>, day: ChronicleId) -> (r: usize)
    ensures
        r <= b@.len(),
        r < b@.len() ==> b@[r as int].0@ == day@,
        forall|j: int| 0 <= j < r ==> #[trigger] b@[j].0@ != day@,
{
    let mut i: usize = 0;
    while i < b.len()
        invariant
            i <= b@.len(),
            forall|j: int| 0 <= j < i ==> #[trigger] b@[j].0@ != day@,
        decreases b@.len() - i,
    {
        if b[i].0.as_u128() == day.as_u128() {
            return i;
        }
        i = i + 1;
    }
    i
}

/// Record ids per day, each bucket in timeline order.
fn build_day_index(view: &ChronicleView<'_>) -> (b: Vec<(ChronicleId, Vec<ChronicleId>)>)
    requires
        view.wf(),
        timeline_ok(view.state(), ids_view(view.timeline@)),
    ensures
        day_index_ok(view.state(), ids_view(view.timeline@), id_index_view(b@)),
        nonempty_buckets(b@),
{
    let ghost s = view.state();
    let ghost t = ids_view(view.timeline@);
    let mut b: Vec<(ChronicleId, Vec<ChronicleId>)> = Vec::new();
    let mut k: usize = 0;
    while k < view.timeline.len()
        invariant
            view.wf(),
            s == view.state(),
            t == ids_view(view.timeline@),
            timeline_ok(s, t),
            nonempty_buckets(b@),
            k <= t.len(),
            day_index_ok(s, t.take(k as int), id_index_view(b@)),
        decreases t.len() - k,
    {
        let id = view.timeline[k];
        assert(t[k as int] == id@);
        assert(t.contains(id@));
        let pos = match view.position(id) {
            Some(p) => p,
            None => {
                assert(false);
                0
            },
        };
        let day = view.records[pos].day_id;
        let i = find_day_bucket(&b, day);
        let ghost ob = b@;
        let ghost old_b = id_index_view(b@);
        let ghost tk = t.take(k as int);
        let ghost tk1 = t.take(k + 1);
        assert(tk1 =~= tk.push(id@));
        if i < b.len() {
            bucket_push(&mut b, i, id, day);
        } else {
            b.push((day, vec![id]));
        }
        proof {
            let nb = id_index_view(b@);
            assert(nb.len() >= old_b.len());
            assert forall|j: int| 0 <= j < old_b.len() implies #[trigger] nb[j].0 == old_b[j].0 by {
                if j != i {
                    assert(b@[j] == ob[j]);
                }
            }
            if i == ob.len() {
                assert(forall|q: int| 0 <= q < tk.len() ==> s.records[#[trigger] tk[q]].day_id != day@) by {
                    assert forall|q: int| 0 <= q < tk.len() implies s.records[#[trigger] tk[q]].day_id != day@ by {
                        assert(has_bucket(old_b, s.records[tk[q]].day_id));
                        let w = choose|w: int| 0 <= w < old_b.len() && #[trigger] old_b[w].0 == s.records[tk[q]].day_id;
                        assert(ob[w].0@ != day@);
                    }
                }
                lemma_filter_none(tk, in_day(s, day@));
            }
            assert forall|j: int| 0 <= j < nb.len() implies #[trigger] nb[j].1 == day_bucket(s, tk1, nb[j].0) by {
                let key = nb[j].0;
                lemma_filter_take_step(t, k as int, in_day(s, key));
                assert(s.records[id@].day_id == day@);
                if j < old_b.len() {
                    assert(old_b[j].1 == day_bucket(s, tk, old_b[j].0));
                    if j == i {
                        assert(nb[j].1 =~= old_b[j].1.push(id@));
                        assert(in_day(s, key)(id@));
                        assert(nb[j].1 == day_bucket(s, tk1, key));
                    } else {
                        assert(b@[j] == ob[j]);
                        assert(nb[j] == old_b[j]);
                        if j < i {
                            assert(ob[j].0@ != day@);
                        } else {
                            assert(old_b[i as int].0 == day@);
                            assert(old_b[i as int].0 != old_b[j].0);
                        }
                        assert(key != day@);
                        assert(!in_day(s, key)(id@));
                        assert(nb[j].1 == day_bucket(s, tk1, key));
                    }
                } else {
                    assert(nb[j].1 =~= seq![id@]);
                    assert(day_bucket(s, tk, day@) =~= Seq::<u128>::empty());
                    assert(nb[j].1 == day_bucket(s, tk1, key));
                }
            }
            assert forall|a: int, c: int| 0 <= a < c < nb.len() implies #[trigger] nb[a].0 != #[trigger] nb[c].0 by {
                if c < old_b.len() {
                } else {
                    assert(ob[a].0@ != day@);
                }
            }
            assert forall|q: int| 0 <= q < tk1.len() implies has_bucket(nb, s.records[#[trigger] tk1[q]].day_id) by {
                if q < k {
                    assert(tk1[q] == tk[q]);
                    assert(has_bucket(old_b, s.records[tk[q]].day_id));
                    let w = choose|w: int| 0 <= w < old_b.len() && #[trigger] old_b[w].0 == s.records[tk[q]].day_id;
                    assert(nb[w].0 == old_b[w].0);
                } else {
                    assert(tk1[q] == id@);
                    assert(nb[i as int].0 == day@);
                }
            }
            assert(forall|a: int, c: int| 0 <= a < c < nb.len() ==> #[trigger] nb[a].0 != #[trigger] nb[c].0);
            assert(forall|a: int| 0 <= a < nb.len() ==> #[trigger] nb[a].1 == day_bucket(s, tk1, nb[a].0));
            assert(day_index_ok(s, tk1, nb));
        }
        k = k + 1;
    }
    assert(t.take(t.len() as int) =~= t);
    b
}

/// Finds the bucket for a status.
pub(crate) fn find_status_bucket(b: &Vec<(RecordStatus, Vec<ChronicleId>)>, day: RecordStatus) -> (r: usize)
    ensures
        r <= b@.len(),
        r < b@.len() ==> b@[r as int].0 == day,
        forall|j: int| 0 <= j < r ==> #[trigger] b@[j].0 != day,
{
    let mut i: usize = 0;
    while i < b.len()
        invariant
            i <= b@.len(),
            forall|j: int| 0 <= j < i ==> #[trigger] b@[j].0 != day,
        decreases b@.len() - i,
    {
        if b[i].0 == day {
            return i;
        }
        i = i + 1;
    }
    i
}

/// Record ids per status, each bucket in timeline order.
fn build_status_index(view: &ChronicleView<'_>) -> (b: Vec<(RecordStatus, Vec<ChronicleId>)>)
    requires
        view.wf(),
        timeline_ok(view.state(), ids_view(view.timeline@)),
    ensures
        status_index_ok(view.state(), ids_view(view.timeline@), status_index_view(b@)),
        nonempty_buckets(b@),
{
    let ghost s = view.state();
    let ghost t = ids_view(view.timeline@);
    let mut b: Vec<(RecordStatus, Vec<ChronicleId>)> = Vec::new();
    let mut k: usize = 0;
    while k < view.timeline.len()
        invariant
            view.wf(),
            s == view.state(),
            t == ids_view(view.timeline@),
            timeline_ok(s, t),
            nonempty_buckets(b@),
            k <= t.len(),
            status_index_ok(s, t.take(k as int), status_index_view(b@)),
        decreases t.len() - k,
    {
        let id = view.timeline[k];
        assert(t[k as int] == id@);
        assert(t.contains(id@));
        let pos = match view.position(id) {
            Some(p) => p,
            None => {
                assert(false);
                0
            },
        };
        let day = view.records[pos].status;
        let i = find_status_bucket(&b, day);
        let ghost ob = b@;
        let ghost old_b = status_index_view(b@);
        let ghost tk = t.take(k as int);
        let ghost tk1 = t.take(k + 1);
        assert(tk1 =~= tk.push(id@));
        if i < b.len() {
            bucket_push(&mut b, i, id, day);
        } else {
            b.push((day, vec![id]));
        }
        proof {
            let nb = status_index_view(b@);
            assert(nb.len() >= old_b.len());
            assert forall|j: int| 0 <= j < old_b.len() implies #[trigger] nb[j].0 == old_b[j].0 by {
                if j != i {
                    assert(b@[j] == ob[j]);
                }
            }
            if i == ob.len() {
                assert(forall|q: int| 0 <= q < tk.len() ==> s.records[#[trigger] tk[q]].status != day) by {
                    assert forall|q: int| 0 <= q < tk.len() implies s.records[#[trigger] tk[q]].status != day by {
                        assert(has_bucket(old_b, s.records[tk[q]].status));
                        let w = choose|w: int| 0 <= w < old_b.len() && #[trigger] old_b[w].0 == s.records[tk[q]].status;
                        assert(ob[w].0 != day);
                    }
                }
                lemma_filter_none(tk, has_status(s, day));
            }
            assert forall|j: int| 0 <= j < nb.len() implies #[trigger] nb[j].1 == status_bucket(s, tk1, nb[j].0) by {
                let key = nb[j].0;
                lemma_filter_take_step(t, k as int, has_status(s, key));
                assert(s.records[id@].status == day);
                if j < old_b.len() {
                    assert(old_b[j].1 == status_bucket(s, tk, old_b[j].0));
                    if j == i {
                        assert(nb[j].1 =~= old_b[j].1.push(id@));
                        assert(has_status(s, key)(id@));
                        assert(nb[j].1 == status_bucket(s, tk1, key));
                    } else {
                        assert(b@[j] == ob[j]);
                        assert(nb[j] == old_b[j]);
                        if j < i {
                            assert(ob[j].0 != day);
                        } else {
                            assert(old_b[i as int].0 == day);
                            assert(old_b[i as int].0 != old_b[j].0);
                        }
                        assert(key != day);
                        assert(!has_status(s, key)(id@));
                        assert(nb[j].1 == status_bucket(s, tk1, key));
                    }
                } else {
                    assert(nb[j].1 =~= seq![id@]);
                    assert(status_bucket(s, tk, day) =~= Seq::<u128>::empty());
                    assert(nb[j].1 == status_bucket(s, tk1, key));
                }
            }
            assert forall|a: int, c: int| 0 <= a < c < nb.len() implies #[trigger] nb[a].0 != #[trigger] nb[c].0 by {
                if c < old_b.len() {
                } else {
                    assert(ob[a].0 != day);
                }
            }
            assert forall|q: int| 0 <= q < tk1.len() implies has_bucket(nb, s.records[#[trigger] tk1[q]].status) by {
                if q < k {
                    assert(tk1[q] == tk[q]);
                    assert(has_bucket(old_b, s.records[tk[q]].status));
                    let w = choose|w: int| 0 <= w < old_b.len() && #[trigger] old_b[w].0 == s.records[tk[q]].status;
                    assert(nb[w].0 == old_b[w].0);
                } else {
                    assert(tk1[q] == id@);
                    assert(nb[i as int].0 == day);
                }
            }
            assert(forall|a: int, c: int| 0 <= a < c < nb.len() ==> #[trigger] nb[a].0 != #[trigger] nb[c].0);
            assert(forall|a: int| 0 <= a < nb.len() ==> #[trigger] nb[a].1 == status_bucket(s, tk1, nb[a].0));
            assert(status_index_ok(s, tk1, nb));
        }
        k = k + 1;
    }
    assert(t.take(t.len() as int) =~= t);
    b
}

/// Finds the bucket for a context key.
fn find_context_bucket(b: &Vec<(String, Vec<ChronicleId>)>, day: &String) -> (r: usize)
    ensures
        r <= b@.len(),
        r < b@.len() ==> b@[r as int].0@ == day@,
        forall|j: int| 0 <= j < r ==> #[trigger] b@[j].0@ != day@,
{
    let mut i: usize = 0;
    while i < b.len()
        invariant
            i <= b@.len(),
            forall|j: int| 0 <= j < i ==> #[trigger] b@[j].0@ != day@,
        decreases b@.len() - i,
    {
        if b[i].0.eq(day) {
            return i;
        }
        i = i + 1;
    }
    i
}

/// Record ids per context key, each bucket in timeline order.
fn build_context_index(view: &ChronicleView<'_>) -> (b: Vec<(String, Vec<ChronicleId>)>)
    requires
        view.wf(),
        timeline_ok(view.state(), ids_view(view.timeline@)),
    ensures
        context_index_ok(view.state(), ids_view(view.timeline@), text_index_view(b@)),
        nonempty_buckets(b@),
{
    let ghost s = view.state();
    let ghost t = ids_view(view.timeline@);
    let mut b: Vec<(String, Vec<ChronicleId>)> = Vec::new();
    let mut k: usize = 0;
    while k < view.timeline.len()
        invariant
            view.wf(),
            s == view.state(),
            t == ids_view(view.timeline@),
            timeline_ok(s, t),
            nonempty_buckets(b@),
            k <= t.len(),
            context_index_ok(s, t.take(k as int), text_index_view(b@)),
        decreases t.len() - k,
    {
        let id = view.timeline[k];
        assert(t[k as int] == id@);
        assert(t.contains(id@));
        let pos = match view.position(id) {
            Some(p) => p,
            None => {
                assert(false);
                0
            },
        };
        let day = view.records[pos].context.key();
        let i = find_context_bucket(&b, &day);
        let ghost ob = b@;
        let ghost old_b = text_index_view(b@);
        let ghost tk = t.take(k as int);
        let ghost tk1 = t.take(k + 1);
        assert(tk1 =~= tk.push(id@));
        if i < b.len() {
            bucket_push(&mut b, i, id, String::new());
        } else {
            b.push((day, vec![id]));
        }
        proof {
            let nb = text_index_view(b@);
            assert(nb.len() >= old_b.len());
            assert forall|j: int| 0 <= j < old_b.len() implies #[trigger] nb[j].0 == old_b[j].0 by {
                if j != i {
                    assert(b@[j] == ob[j]);
                }
            }
            if i == ob.len() {
                assert(forall|q: int| 0 <= q < tk.len() ==> s.records[#[trigger] tk[q]].context.key() != day@) by {
                    assert forall|q: int| 0 <= q < tk.len() implies s.records[#[trigger] tk[q]].context.key() != day@ by {
                        assert(has_bucket(old_b, s.records[tk[q]].context.key()));
                        let w = choose|w: int| 0 <= w < old_b.len() && #[trigger] old_b[w].0 == s.records[tk[q]].context.key();
                        assert(ob[w].0@ != day@);
                    }
                }
                lemma_filter_none(tk, in_context(s, day@));
            }
            assert forall|j: int| 0 <= j < nb.len() implies #[trigger] nb[j].1 == context_bucket(s, tk1, nb[j].0) by {
                let key = nb[j].0;
                lemma_filter_take_step(t, k as int, in_context(s, key));
                assert(s.records[id@].context.key() == day@);
                if j < old_b.len() {
                    assert(old_b[j].1 == context_bucket(s, tk, old_b[j].0));
                    if j == i {
                        assert(nb[j].1 =~= old_b[j].1.push(id@));
                        assert(in_context(s, key)(id@));
                        assert(nb[j].1 == context_bucket(s, tk1, key));
                    } else {
                        assert(b@[j] == ob[j]);
                        assert(nb[j] == old_b[j]);
                        if j < i {
                            assert(ob[j].0@ != day@);
                        } else {
                            assert(old_b[i as int].0 == day@);
                            assert(old_b[i as int].0 != old_b[j].0);
                        }
                        assert(key != day@);
                        assert(!in_context(s, key)(id@));
                        assert(nb[j].1 == context_bucket(s, tk1, key));
                    }
                } else {
                    assert(nb[j].1 =~= seq![id@]);
                    assert(context_bucket(s, tk, day@) =~= Seq::<u128>::empty());
                    assert(nb[j].1 == context_bucket(s, tk1, key));
                }
            }
            assert forall|a: int, c: int| 0 <= a < c < nb.len() implies #[trigger] nb[a].0 != #[trigger] nb[c].0 by {
                if c < old_b.len() {
                } else {
                    assert(ob[a].0@ != day@);
                }
            }
            assert forall|q: int| 0 <= q < tk1.len() implies has_bucket(nb, s.records[#[trigger] tk1[q]].context.key()) by {
                if q < k {
                    assert(tk1[q] == tk[q]);
                    assert(has_bucket(old_b, s.records[tk[q]].context.key()));
                    let w = choose|w: int| 0 <= w < old_b.len() && #[trigger] old_b[w].0 == s.records[tk[q]].context.key();
                    assert(nb[w].0 == old_b[w].0);
                } else {
                    assert(tk1[q] == id@);
                    assert(nb[i as int].0 == day@);
                }
            }
            assert(forall|a: int, c: int| 0 <= a < c < nb.len() ==> #[trigger] nb[a].0 != #[trigger] nb[c].0);
            assert(forall|a: int| 0 <= a < nb.len() ==> #[trigger] nb[a].1 == context_bucket(s, tk1, nb[a].0));
            assert(context_index_ok(s, tk1, nb));
        }
        k = k + 1;
    }
    assert(t.take(t.len() as int) =~= t);
    b
}

/// Finds the bucket for a tag.
pub(crate) fn find_tag_bucket(b: &Vec<(String, Vec<ChronicleId>)>, tag: &String) -> (r: usize)
    ensures
        r <= b@.len(),
        r < b@.len() ==> b@[r as int].0@ == tag@,
        forall|j: int| 0 <= j < r ==> #[trigger] b@[j].0@ != tag@,
{
    let mut i: usize = 0;
    while i < b.len()
        invariant
            i <= b@.len(),
            forall|j: int| 0 <= j < i ==> #[trigger] b@[j].0@ != tag@,
        decreases b@.len() - i,
    {
        if b[i].0.eq(tag) {
            return i;
        }
        i = i + 1;
    }
    i
}

/// Record ids per tag, each bucket in timeline order, a record once per occurrence of the tag.
fn build_tag_index(view: &ChronicleView<'_>) -> (b: Vec<(String, Vec<ChronicleId>)>)
    requires
        view.wf(),
        timeline_ok(view.state(), ids_view(view.timeline@)),
    ensures
        tag_index_ok(view.state(), ids_view(view.timeline@), text_index_view(b@)),
        nonempty_buckets(b@),
{
    let ghost s = view.state();
    let ghost t = ids_view(view.timeline@);
    let mut b: Vec<(String, Vec<ChronicleId>)> = Vec::new();
    let mut k: usize = 0;
    while k < view.timeline.len()
        invariant
            view.wf(),
            s == view.state(),
            t == ids_view(view.timeline@),
            timeline_ok(s, t),
            nonempty_buckets(b@),
            k <= t.len(),
            tag_index_ok(s, t.take(k as int), text_index_view(b@)),
        decreases t.len() - k,
    {
        let id = view.timeline[k];
        assert(t[k as int] == id@);
        assert(t.contains(id@));
        let pos = match view.position(id) {
            Some(p) => p,
            None => {
                assert(false);
                0
            },
        };
        let tags = &view.records[pos].tags;
        let ghost tv = s.records[id@].tags;
        assert(tv == crate::text::strs_view(tags@));
        let ghost tk = t.take(k as int);
        let ghost tk1 = t.take(k + 1);
        assert(tk1 =~= tk.push(id@));
        proof {
            let nb = text_index_view(b@);
            assert forall|i: int| 0 <= i < nb.len() implies #[trigger] nb[i].1 == tag_bucket(s, tk, nb[i].0) + repeat_id(
                id@,
                tag_count(tv.take(0), nb[i].0),
            ) by {
                assert(tv.take(0).filter(is_tag(nb[i].0)) =~= Seq::<Seq<char>>::empty());
                assert(nb[i].1 =~= tag_bucket(s, tk, nb[i].0) + repeat_id(id@, 0));
            }
        }
        let mut j: usize = 0;
        while j < tags.len()
            invariant
                view.wf(),
                s == view.state(),
                tv == crate::text::strs_view(tags@),
                nonempty_buckets(b@),
                j <= tags@.len(),
                tag_index_partial(s, tk, id@, tv.take(j as int), text_index_view(b@)),
            decreases tags@.len() - j,
        {
            let tag = &tags[j];
            assert(tv[j as int] == tag@);
            let i = find_tag_bucket(&b, tag);
            let ghost ob = b@;
            let ghost old_b = text_index_view(b@);
            let ghost dj = tv.take(j as int);
            let ghost dj1 = tv.take(j + 1);
            assert(dj1 =~= dj.push(tag@));
            if i < b.len() {
                bucket_push(&mut b, i, id, String::new());
            } else {
                b.push((tag.clone(), vec![id]));
            }
            proof {
                let nb = text_index_view(b@);
                assert forall|w: int| 0 <= w < old_b.len() implies #[trigger] nb[w].0 == old_b[w].0 by {
                    if w != i {
                        assert(b@[w] == ob[w]);
                    }
                }
                if i == ob.len() {
                    assert forall|q: int| 0 <= q < tk.len() implies tag_count(s.records[#[trigger] tk[q]].tags, tag@) == 0 by {
                        assert forall|m: int| 0 <= m < s.records[tk[q]].tags.len() implies !is_tag(tag@)(#[trigger] s.records[tk[q]].tags[m]) by {
                            assert(has_bucket(old_b, s.records[tk[q]].tags[m]));
                            let w = choose|w: int| 0 <= w < old_b.len() && #[trigger] old_b[w].0 == s.records[tk[q]].tags[m];
                            assert(ob[w].0@ != tag@);
                        }
                        lemma_filter_none(s.records[tk[q]].tags, is_tag(tag@));
                    }
                    lemma_tag_bucket_none(s, tk, tag@);
                    assert forall|m: int| 0 <= m < dj.len() implies !is_tag(tag@)(#[trigger] dj[m]) by {
                        assert(has_bucket(old_b, dj[m]));
                        let w = choose|w: int| 0 <= w < old_b.len() && #[trigger] old_b[w].0 == dj[m];
                        assert(ob[w].0@ != tag@);
                    }
                    lemma_filter_none(dj, is_tag(tag@));
                }
                assert forall|w: int| 0 <= w < nb.len() implies #[trigger] nb[w].1 == tag_bucket(s, tk, nb[w].0) + repeat_id(
                    id@,
                    tag_count(dj1, nb[w].0),
                ) by {
                    let key = nb[w].0;
                    lemma_filter_take_step(tv, j as int, is_tag(key));
                    if w < old_b.len() {
                        if w == i {
                            assert(nb[w].1 =~= old_b[w].1.push(id@));
                            assert(tag_bucket(s, tk, key) + repeat_id(id@, tag_count(dj1, key)) =~= (tag_bucket(s, tk, key) + repeat_id(id@, tag_count(dj, key))).push(id@));
                        } else {
                            assert(b@[w] == ob[w]);
                            if w < i {
                                assert(ob[w].0@ != tag@);
                            } else {
                                assert(old_b[i as int].0 != old_b[w].0);
                            }
                            assert(key != tag@);
                        }
                    } else {
                        assert(nb[w].1 =~= seq![id@]);
                        assert(tag_bucket(s, tk, key) + repeat_id(id@, tag_count(dj1, key)) =~= seq![id@]);
                    }
                }
                assert forall|a: int, c: int| 0 <= a < c < nb.len() implies #[trigger] nb[a].0 != #[trigger] nb[c].0 by {
                    if c >= old_b.len() {
                        assert(ob[a].0@ != tag@);
                    }
                }
                assert forall|q: int, m: int| 0 <= q < tk.len() && 0 <= m < s.records[tk[q]].tags.len() implies has_bucket(
                    nb,
                    #[trigger] s.records[#[trigger] tk[q]].tags[m],
                ) by {
                    assert(has_bucket(old_b, s.records[tk[q]].tags[m]));
                    let w = choose|w: int| 0 <= w < old_b.len() && #[trigger] old_b[w].0 == s.records[tk[q]].tags[m];
                    assert(nb[w].0 == old_b[w].0);
                }
                assert forall|m: int| 0 <= m < dj1.len() implies has_bucket(nb, #[trigger] dj1[m]) by {
                    if m < j {
                        assert(dj1[m] == dj[m]);
                        assert(has_bucket(old_b, dj[m]));
                        let w = choose|w: int| 0 <= w < old_b.len() && #[trigger] old_b[w].0 == dj[m];
                        assert(nb[w].0 == old_b[w].0);
                    } else {
                        assert(nb[i as int].0 == tag@);
                    }
                }
            }
            j = j + 1;
        }
        proof {
            let nb = text_index_view(b@);
            assert(tv.take(tv.len() as int) =~= tv);
            assert(tk1.drop_last() =~= tk);
            assert forall|i: int| 0 <= i < nb.len() implies #[trigger] nb[i].1 == tag_bucket(s, tk1, nb[i].0) by {
                assert(tag_bucket(s, tk1, nb[i].0) == tag_bucket(s, tk, nb[i].0) + repeat_id(id@, tag_count(tv, nb[i].0)));
            }
            assert forall|q: int, m: int| 0 <= q < tk1.len() && 0 <= m < s.records[tk1[q]].tags.len() implies has_bucket(
                nb,
                #[trigger] s.records[#[trigger] tk1[q]].tags[m],
            ) by {
                if q < k {
                    assert(tk1[q] == tk[q]);
                } else {
                    assert(tk1[q] == id@);
                    assert(tv[m] == tv.take(tv.len() as int)[m]);
                }
            }
        }
        k = k + 1;
    }
    assert(t.take(t.len() as int) =~= t);
    b
}

} // verus!
