use vstd::prelude::*;

use crate::domain::event::RecordStatus;
use crate::domain::id::ChronicleId;
use crate::domain::indexes::{
    day_bucket, find_day_bucket, find_status_bucket, find_tag_bucket, has_bucket, has_status,
    id_index_view, ids_view, in_day, is_tag, lemma_filter_none, lemma_tag_bucket_none,
    status_bucket, status_index_view, tag_bucket, tag_count, text_index_view, view_indexed,
};
use crate::domain::view::ChronicleView;

verus! {

/// The day bucket of `day`, if the index holds one; otherwise the day has no records.
pub fn lookup_day_bucket(view: &ChronicleView<'_>, day: ChronicleId) -> (r: Option<usize>)
    requires
        view_indexed(view),
    ensures
        r matches Some(i) ==> i < view.by_day@.len() && view.by_day@[i as int].0@ == day@,
        r is None ==> day_bucket(view.state(), ids_view(view.timeline@), day@) == Seq::<u128>::empty(),
{
    let i = find_day_bucket(&view.by_day, day);
    if i < view.by_day.len() {
        Some(i)
    } else {
        proof {
            let s = view.state();
            let t = ids_view(view.timeline@);
            let b = id_index_view(view.by_day@);
            assert forall|q: int| 0 <= q < t.len() implies !in_day(s, day@)(#[trigger] t[q]) by {
                assert(has_bucket(b, s.records[t[q]].day_id));
                let w = choose|w: int| 0 <= w < b.len() && #[trigger] b[w].0 == s.records[t[q]].day_id;
                assert(view.by_day@[w].0@ != day@);
            }
            lemma_filter_none(t, in_day(s, day@));
        }
        None
    }
}

/// The status bucket of `status`, if the index holds one; otherwise no record has it.
pub fn lookup_status_bucket(view: &ChronicleView<'_>, status: RecordStatus) -> (r: Option<usize>)
    requires
        view_indexed(view),
    ensures
        r matches Some(i) ==> i < view.by_status@.len() && view.by_status@[i as int].0 == status,
        r is None ==> status_bucket(view.state(), ids_view(view.timeline@), status) == Seq::<u128>::empty(),
{
    let i = find_status_bucket(&view.by_status, status);
    if i < view.by_status.len() {
        Some(i)
    } else {
        proof {
            let s = view.state();
            let t = ids_view(view.timeline@);
            let b = status_index_view(view.by_status@);
            assert forall|q: int| 0 <= q < t.len() implies !has_status(s, status)(#[trigger] t[q]) by {
                assert(has_bucket(b, s.records[t[q]].status));
                let w = choose|w: int| 0 <= w < b.len() && #[trigger] b[w].0 == s.records[t[q]].status;
                assert(view.by_status@[w].0 != status);
            }
            lemma_filter_none(t, has_status(s, status));
        }
        None
    }
}

/// The tag bucket of `tag`, if the index holds one; otherwise no record carries it.
pub fn lookup_tag_bucket(view: &ChronicleView<'_>, tag: &String) -> (r: Option<usize>)
    requires
        view_indexed(view),
    ensures
        r matches Some(i) ==> i < view.by_tag@.len() && view.by_tag@[i as int].0@ == tag@,
        r is None ==> tag_bucket(view.state(), ids_view(view.timeline@), tag@) == Seq::<u128>::empty(),
{
    let i = find_tag_bucket(&view.by_tag, tag);
    if i < view.by_tag.len() {
        Some(i)
    } else {
        proof {
            let s = view.state();
            let t = ids_view(view.timeline@);
            let b = text_index_view(view.by_tag@);
            assert forall|q: int| 0 <= q < t.len() implies tag_count(s.records[#[trigger] t[q]].tags, tag@) == 0 by {
                assert forall|m: int| 0 <= m < s.records[t[q]].tags.len() implies !is_tag(tag@)(#[trigger] s.records[t[q]].tags[m]) by {
                    assert(has_bucket(b, s.records[t[q]].tags[m]));
                    let w = choose|w: int| 0 <= w < b.len() && #[trigger] b[w].0 == s.records[t[q]].tags[m];
                    assert(view.by_tag@[w].0@ != tag@);
                }
                lemma_filter_none(s.records[t[q]].tags, is_tag(tag@));
            }
            lemma_tag_bucket_none(s, t, tag@);
        }
        None
    }
}

} // verus!
