use vstd::prelude::*;

use crate::domain::event::RecordStatus;
use crate::domain::id::ChronicleId;
use crate::domain::index_lookup::{lookup_status_bucket, lookup_tag_bucket};
use crate::domain::indexes::{
    has_status, ids_view, is_tag, lemma_filter_take_step, repeat_id, status_bucket, tag_count, status_index_view, tag_bucket,
    text_index_view, timeline_ok, view_indexed,
};
use crate::domain::time::Timestamp;
use crate::domain::view::{is_visible, recs, records_view, visible_seq, ChronicleState, ChronicleView, DerivedRecord, RecordView};
use crate::text::{contains_text, owned, strs_view, text_eq};

verus! {

/// Filter bounds shared by the record-query paths.
pub struct RecordQuery<'a> {
    pub from: Timestamp,
    pub to: Timestamp,
    pub context: Option<&'a str>,
    pub tag: Option<&'a str>,
    pub status: Option<RecordStatus>,
}

/// Mathematical view of a record query.
pub struct QueryView {
    pub from: i64,
    pub to: i64,
    pub context: Option<Seq<char>>,
    pub tag: Option<Seq<char>>,
    pub status: Option<RecordStatus>,
}

/// View of an optional text slice.
pub open spec fn opt_str_view(o: Option<&str>) -> Option<Seq<char>> {
    match o {
        Some(s) => Some(s@),
        None => None,
    }
}

impl<'a> View for RecordQuery<'a> {
    type V = QueryView;

    open spec fn view(&self) -> QueryView {
        QueryView {
            from: self.from@,
            to: self.to@,
            context: opt_str_view(self.context),
            tag: opt_str_view(self.tag),
            status: self.status,
        }
    }
}

/// A visible record created within `[from, to]` that passes every supplied filter.
pub open spec fn record_matches(r: RecordView, q: QueryView) -> bool {
    &&& q.from <= r.created_at <= q.to
    &&& r.status != RecordStatus::Retracted
    &&& (q.status matches Some(st) ==> r.status == st)
    &&& (q.tag matches Some(tag) ==> r.tags.contains(tag))
    &&& (q.context matches Some(c) ==> contains_text(r.context.key(), c))
}

/// Record ids that match a query.
pub open spec fn matches_query(s: ChronicleState, q: QueryView) -> spec_fn(u128) -> bool {
    |id: u128| record_matches(s.records[id], q)
}

/// The ids a query walks: the smaller of the tag and status buckets when both
/// filters are given, the one bucket when one is, else the timeline; then
/// only the matching ones.
pub open spec fn query_ids(s: ChronicleState, t: Seq<u128>, q: QueryView) -> Seq<u128> {
    let source = match (q.tag, q.status) {
        (Some(tag), Some(st)) => if tag_bucket(s, t, tag).len() <= status_bucket(s, t, st).len() {
            tag_bucket(s, t, tag)
        } else {
            status_bucket(s, t, st)
        },
        (Some(tag), None) => tag_bucket(s, t, tag),
        (None, Some(st)) => status_bucket(s, t, st),
        (None, None) => t,
    };
    source.filter(matches_query(s, q))
}

/// Every entry of a tag bucket is on the timeline it was drawn from.
proof fn lemma_tag_bucket_members(s: ChronicleState, t: Seq<u128>, tag: Seq<char>)
    ensures
        forall|i: int| 0 <= i < tag_bucket(s, t, tag).len() ==> t.contains(#[trigger] tag_bucket(s, t, tag)[i]),
    decreases t.len(),
{
    if t.len() > 0 {
        let d = t.drop_last();
        lemma_tag_bucket_members(s, d, tag);
        let head = tag_bucket(s, d, tag);
        let tail = repeat_id(t.last(), tag_count(s.records[t.last()].tags, tag));
        assert forall|i: int| 0 <= i < tag_bucket(s, t, tag).len() implies t.contains(#[trigger] tag_bucket(s, t, tag)[i]) by {
            if i < head.len() {
                let x = head[i];
                assert(d.contains(x));
                let w = choose|w: int| 0 <= w < d.len() && d[w] == x;
                assert(t[w] == x);
            } else {
                assert(tag_bucket(s, t, tag)[i] == tail[i - head.len()]);
                assert(t[t.len() - 1] == t.last());
            }
        }
    }
}

/// Every entry of a status bucket is on the timeline it was drawn from.
proof fn lemma_status_bucket_members(s: ChronicleState, t: Seq<u128>, st: RecordStatus)
    ensures
        forall|i: int| 0 <= i < status_bucket(s, t, st).len() ==> t.contains(#[trigger] status_bucket(s, t, st)[i]),
{
    let b = status_bucket(s, t, st);
    assert forall|i: int| 0 <= i < b.len() implies t.contains(#[trigger] b[i]) by {
        assert(b.contains(b[i]));
        t.lemma_filter_contains_rev(has_status(s, st), b[i]);
    }
}

/// Ids drawn from the timeline all name records of the state.
proof fn lemma_members_are_records(s: ChronicleState, t: Seq<u128>, ids: Seq<ChronicleId>)
    requires
        timeline_ok(s, t),
        forall|i: int| 0 <= i < ids.len() ==> t.contains(#[trigger] ids_view(ids)[i]),
    ensures
        forall|i: int| 0 <= i < ids.len() ==> s.records.contains_key(#[trigger] ids[i]@),
{
    assert forall|i: int| 0 <= i < ids.len() implies s.records.contains_key(#[trigger] ids[i]@) by {
        assert(ids_view(ids)[i] == ids[i]@);
        assert(t.contains(ids_view(ids)[i]));
    }
}

fn tags_contain(tags: &Vec<String>, tag: &str) -> (b: bool)
    ensures
        b == strs_view(tags@).contains(tag@),
{
    let mut i: usize = 0;
    while i < tags.len()
        invariant
            i <= tags@.len(),
            forall|j: int| 0 <= j < i ==> #[trigger] tags@[j]@ != tag@,
        decreases tags@.len() - i,
    {
        if text_eq(tags[i].as_str(), tag) {
            assert(strs_view(tags@)[i as int] == tag@);
            return true;
        }
        i = i + 1;
    }
    assert forall|j: int| 0 <= j < strs_view(tags@).len() implies strs_view(tags@)[j] != tag@ by {
        assert(strs_view(tags@)[j] == tags@[j]@);
    }
    false
}

/// Whether a record passes the query's filters.
pub fn record_matches_query(record: &DerivedRecord, filter: &RecordQuery<'_>) -> (b: bool)
    ensures
        b == record_matches(record@, filter@),
{
    if record.created_at.as_millis() < filter.from.as_millis() || record.created_at.as_millis()
        > filter.to.as_millis() {
        return false;
    }
    if record.status == RecordStatus::Retracted {
        return false;
    }
    if let Some(required_status) = filter.status {
        if record.status != required_status {
            return false;
        }
    }
    if let Some(required_tag) = filter.tag {
        if !tags_contain(&record.tags, required_tag) {
            return false;
        }
    }
    if let Some(required_context) = filter.context {
        if !record.context.key_contains(required_context) {
            return false;
        }
    }
    true
}

impl<'a> ChronicleView<'a> {
    /// Appends copies of the records among `ids` that pass `filter`.
    fn push_matching_records(
        &self,
        ids: &Vec<ChronicleId>,
        records: &mut Vec<DerivedRecord>,
        filter: &RecordQuery<'_>,
    )
        requires
            self.wf(),
            forall|i: int| 0 <= i < ids@.len() ==> self.state().records.contains_key(#[trigger] ids@[i]@),
        ensures
            records_view(final(records)@) == records_view(old(records)@) + recs(
                self.state(),
                ids_view(ids@).filter(matches_query(self.state(), filter@)),
            ),
    {
        let ghost s = self.state();
        let ghost pred = matches_query(s, filter@);
        let ghost t = ids_view(ids@);
        let ghost start = records_view(records@);
        let mut k: usize = 0;
        assert(t.take(0).filter(pred) =~= Seq::<u128>::empty());
        assert(records_view(records@) =~= start + recs(s, t.take(0).filter(pred)));
        while k < ids.len()
            invariant
                self.wf(),
                s == self.state(),
                t == ids_view(ids@),
                pred == matches_query(s, filter@),
                k <= ids@.len(),
                forall|i: int| 0 <= i < ids@.len() ==> s.records.contains_key(#[trigger] ids@[i]@),
                records_view(records@) == start + recs(s, t.take(k as int).filter(pred)),
            decreases ids@.len() - k,
        {
            let id = ids[k];
            assert(s.records.contains_key(id@));
            assert(t[k as int] == id@);
            let pos = match self.position(id) {
                Some(p) => p,
                None => {
                    assert(false);
                    0
                },
            };
            proof {
                lemma_filter_take_step(t, k as int, pred);
            }
            let rec = &self.records[pos];
            if record_matches_query(rec, filter) {
                let ghost before = records@;
                records.push(rec.copy());
                assert(records_view(records@) =~= records_view(before).push(s.records[id@]));
                assert(recs(s, t.take(k + 1).filter(pred)) =~= recs(s, t.take(k as int).filter(pred)).push(
                    s.records[id@],
                ));
            }
            k = k + 1;
        }
        assert(t.take(t.len() as int) =~= t);
    }

    /// Returns visible records within an inclusive creation-time range.
    pub fn query(
        &self,
        from: Timestamp,
        to: Timestamp,
        context: Option<&str>,
        tag: Option<&str>,
        status: Option<RecordStatus>,
    ) -> (r: Vec<DerivedRecord>)
        requires
            self.wf(),
            view_indexed(self),
        ensures
            records_view(r@) == recs(
                self.state(),
                query_ids(
                    self.state(),
                    ids_view(self.timeline@),
                    QueryView {
                        from: from@,
                        to: to@,
                        context: opt_str_view(context),
                        tag: opt_str_view(tag),
                        status,
                    },
                ),
            ),
    {
        let ghost s = self.state();
        let ghost t = ids_view(self.timeline@);
        let filter = RecordQuery { from, to, context, tag, status };
        let ghost q = filter@;
        let mut records: Vec<DerivedRecord> = Vec::new();
        let ghost pred = matches_query(s, q);
        proof {
            assert forall|i: int| 0 <= i < self.timeline@.len() implies s.records.contains_key(#[trigger] self.timeline@[i]@) by {
                assert(t[i] == self.timeline@[i]@);
                assert(t.contains(t[i]));
            }
        }
        let tag_ids = match tag {
            Some(required_tag) => lookup_tag_bucket(self, &owned(required_tag)),
            None => None,
        };
        let status_ids = match status {
            Some(required_status) => lookup_status_bucket(self, required_status),
            None => None,
        };
        proof {
            let tb = text_index_view(self.by_tag@);
            let sb = status_index_view(self.by_status@);
            if tag_ids is Some {
                let i = tag_ids->Some_0 as int;
                assert(tb[i].1 == tag_bucket(s, t, tb[i].0));
            }
            if status_ids is Some {
                let i = status_ids->Some_0 as int;
                assert(sb[i].1 == status_bucket(s, t, sb[i].0));
            }
        }
        match (tag, status) {
            (Some(_), Some(_)) => match (tag_ids, status_ids) {
                (Some(ti), Some(si)) => {
                    let a = &self.by_tag[ti].1;
                    let b = &self.by_status[si].1;
                    proof {
                        lemma_tag_bucket_members(s, t, q.tag->Some_0);
                        lemma_status_bucket_members(s, t, status->Some_0);
                        lemma_members_are_records(s, t, a@);
                        lemma_members_are_records(s, t, b@);
                    }
                    if a.len() <= b.len() {
                        self.push_matching_records(a, &mut records, &filter);
                    } else {
                        self.push_matching_records(b, &mut records, &filter);
                    }
                },
                _ => {
                    proof {
                        let tb = tag_bucket(s, t, q.tag->Some_0);
                        let sb = status_bucket(s, t, status->Some_0);
                        let src = if tb.len() <= sb.len() { tb } else { sb };
                        assert(src =~= Seq::<u128>::empty());
                        assert(src.filter(pred) =~= Seq::<u128>::empty());
                    }
                },
            },
            (Some(_), None) => match tag_ids {
                Some(ti) => {
                    let a = &self.by_tag[ti].1;
                    proof {
                        lemma_tag_bucket_members(s, t, q.tag->Some_0);
                        lemma_members_are_records(s, t, a@);
                    }
                    self.push_matching_records(a, &mut records, &filter);
                },
                None => {
                    assert(tag_bucket(s, t, q.tag->Some_0).filter(pred) =~= Seq::<u128>::empty());
                },
            },
            (None, Some(_)) => match status_ids {
                Some(si) => {
                    let b = &self.by_status[si].1;
                    proof {
                        lemma_status_bucket_members(s, t, status->Some_0);
                        lemma_members_are_records(s, t, b@);
                    }
                    self.push_matching_records(b, &mut records, &filter);
                },
                None => {
                    assert(status_bucket(s, t, status->Some_0).filter(pred) =~= Seq::<u128>::empty());
                },
            },
            (None, None) => {
                self.push_matching_records(&self.timeline, &mut records, &filter);
            },
        }
        assert(records_view(records@) =~= recs(s, query_ids(s, t, q)));
        records
    }
}

/// The visible records are exactly what a query over the whole time range,
/// with no other filter, returns, in the same order.
pub proof fn lemma_visible_is_full_query(s: ChronicleState, t: Seq<u128>)
    ensures
        visible_seq(s, t) == recs(
            s,
            query_ids(
                s,
                t,
                QueryView { from: i64::MIN, to: i64::MAX, context: None, tag: None, status: None },
            ),
        ),
{
    let q = QueryView { from: i64::MIN, to: i64::MAX, context: None, tag: None, status: None };
    assert(matches_query(s, q) =~= is_visible(s));
}

/// On a view, `visible_records()` and `query(i64::MIN, i64::MAX, None, None,
/// None)` describe the same records in the same order: both contracts
/// denote the sequence this lemma equates.
pub proof fn lemma_view_visible_records_are_full_query(view: &ChronicleView<'_>)
    ensures
        visible_seq(view.state(), ids_view(view.timeline@)) == recs(
            view.state(),
            query_ids(
                view.state(),
                ids_view(view.timeline@),
                QueryView { from: i64::MIN, to: i64::MAX, context: None, tag: None, status: None },
            ),
        ),
{
    lemma_visible_is_full_query(view.state(), ids_view(view.timeline@));
}

/// Every record a query returns lies in its creation-time range, is not
/// retracted, and passes each filter it was given: its status is the asked
/// status, its tags include the asked tag, and the asked context text occurs
/// in its context key (git root, else working directory, else `unknown`).
pub proof fn lemma_query_results_pass_filters(s: ChronicleState, t: Seq<u128>, q: QueryView, i: int)
    requires
        0 <= i < query_ids(s, t, q).len(),
    ensures
        ({
            let r = s.records[query_ids(s, t, q)[i]];
            &&& q.from <= r.created_at <= q.to
            &&& r.status != RecordStatus::Retracted
            &&& q.status matches Some(st) ==> r.status == st
            &&& q.tag matches Some(tag) ==> r.tags.contains(tag)
            &&& q.context matches Some(c) ==> contains_text(r.context.key(), c)
        }),
{
    let source = match (q.tag, q.status) {
        (Some(tag), Some(st)) => if tag_bucket(s, t, tag).len() <= status_bucket(s, t, st).len() {
            tag_bucket(s, t, tag)
        } else {
            status_bucket(s, t, st)
        },
        (Some(tag), None) => tag_bucket(s, t, tag),
        (None, Some(st)) => status_bucket(s, t, st),
        (None, None) => t,
    };
    assert(query_ids(s, t, q) == source.filter(matches_query(s, q)));
    source.lemma_filter_pred(matches_query(s, q), i);
}

/// A record of the timeline that carries a tag is in that tag's bucket.
proof fn lemma_tag_bucket_has(s: ChronicleState, t: Seq<u128>, tag: Seq<char>, x: u128)
    requires
        t.contains(x),
        s.records[x].tags.contains(tag),
    ensures
        tag_bucket(s, t, tag).contains(x),
    decreases t.len(),
{
    let tags = s.records[x].tags;
    if t.last() == x {
        let k = choose|k: int| 0 <= k < tags.len() && tags[k] == tag;
        tags.lemma_filter_contains(is_tag(tag), k);
        let rep = repeat_id(t.last(), tag_count(tags, tag));
        assert(rep.len() > 0);
        assert(rep[0] == x);
        let b = tag_bucket(s, t, tag);
        assert(b == tag_bucket(s, t.drop_last(), tag) + rep);
        assert(b[tag_bucket(s, t.drop_last(), tag).len() as int] == x);
    } else {
        let k = choose|k: int| 0 <= k < t.len() && t[k] == x;
        assert(k < t.len() - 1);
        assert(t.drop_last()[k] == x);
        lemma_tag_bucket_has(s, t.drop_last(), tag, x);
        let b0 = tag_bucket(s, t.drop_last(), tag);
        let j = choose|j: int| 0 <= j < b0.len() && b0[j] == x;
        let b = tag_bucket(s, t, tag);
        assert(b[j] == x);
    }
}

/// A query returns every record of the timeline that lies in its
/// creation-time range, is not retracted, and passes each filter it was
/// given.
pub proof fn lemma_query_finds_every_match(s: ChronicleState, t: Seq<u128>, q: QueryView, x: u128)
    requires
        t.contains(x),
        q.from <= s.records[x].created_at <= q.to,
        s.records[x].status != RecordStatus::Retracted,
        q.status matches Some(st) ==> s.records[x].status == st,
        q.tag matches Some(tag) ==> s.records[x].tags.contains(tag),
        q.context matches Some(c) ==> contains_text(s.records[x].context.key(), c),
    ensures
        query_ids(s, t, q).contains(x),
{
    let source = match (q.tag, q.status) {
        (Some(tag), Some(st)) => if tag_bucket(s, t, tag).len() <= status_bucket(s, t, st).len() {
            tag_bucket(s, t, tag)
        } else {
            status_bucket(s, t, st)
        },
        (Some(tag), None) => tag_bucket(s, t, tag),
        (None, Some(st)) => status_bucket(s, t, st),
        (None, None) => t,
    };
    let k = choose|k: int| 0 <= k < t.len() && t[k] == x;
    if let Some(tag) = q.tag {
        lemma_tag_bucket_has(s, t, tag, x);
    }
    if let Some(st) = q.status {
        t.lemma_filter_contains(has_status(s, st), k);
    }
    assert(source.contains(x));
    let j = choose|j: int| 0 <= j < source.len() && source[j] == x;
    assert(matches_query(s, q)(source[j]));
    source.lemma_filter_contains(matches_query(s, q), j);
    assert(query_ids(s, t, q) == source.filter(matches_query(s, q)));
}

} // verus!
