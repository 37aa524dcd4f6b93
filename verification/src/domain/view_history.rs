use vstd::prelude::*;

use crate::domain::event::{events_view, ChronicleEvent, EventView};
use crate::domain::id::ChronicleId;
use crate::domain::view::ChronicleView;

verus! {

/// Event `a` comes before event `b` in a record's history: by recording
/// time, then event id, then position in the archive.
pub open spec fn history_lt(es: Seq<EventView>, a: int, b: int) -> bool {
    ||| es[a].recorded_at < es[b].recorded_at
    ||| es[a].recorded_at == es[b].recorded_at && es[a].event_id < es[b].event_id
    ||| es[a].recorded_at == es[b].recorded_at && es[a].event_id == es[b].event_id && a < b
}

/// `pos` lists the positions of the events that reference `id`, each once, in history order.
pub open spec fn history_order(es: Seq<EventView>, id: u128, pos: Seq<int>) -> bool {
    &&& forall|k: int|
        0 <= k < pos.len() ==> 0 <= #[trigger] pos[k] < es.len() && es[pos[k]].kind.referenced().contains(
            id,
        )
    &&& forall|p: int| 0 <= p < es.len() && es[p].kind.referenced().contains(id) ==> pos.contains(p)
    &&& forall|i: int, j: int| 0 <= i < j < pos.len() ==> history_lt(es, #[trigger] pos[i], #[trigger] pos[j])
}

/// The positions `pos` as ints.
pub open spec fn as_ints(pos: Seq<usize>) -> Seq<int> {
    pos.map_values(|p: usize| p as int)
}

impl<'a> ChronicleView<'a> {
    /// Returns the event history affecting one record, ordered by recording
    /// time and event id (archive order among equals).
    pub fn events_for_record(&self, id: ChronicleId) -> (r: Vec<ChronicleEvent>)
        ensures
            exists|pos: Seq<int>|
                #[trigger] history_order(self.archive@.events, id@, pos) && events_view(r@) == pos.map_values(
                    |p: int| self.archive@.events[p],
                ),
    {
        let events = &self.archive.events;
        let ghost es = events_view(events@);
        let mut sorted: Vec<usize> = Vec::new();
        let mut p: usize = 0;
        while p < events.len()
            invariant
                es == events_view(events@),
                p <= events.len(),
                forall|k: int|
                    0 <= k < sorted.len() ==> #[trigger] sorted@[k] < p && es[sorted@[k] as int].kind.referenced().contains(
                        id@,
                    ),
                forall|q: int| 0 <= q < p && es[q].kind.referenced().contains(id@) ==> as_ints(sorted@).contains(q),
                forall|i: int, j: int|
                    0 <= i < j < sorted.len() ==> history_lt(es, #[trigger] sorted@[i] as int, #[trigger] sorted@[j] as int),
            decreases events.len() - p,
        {
            assert(es[p as int] == events@[p as int]@);
            if events[p].references(id) {
                let mut q: usize = 0;
                while q < sorted.len() && !(events[p].recorded_at.as_millis()
                    < events[sorted[q]].recorded_at.as_millis() || (events[p].recorded_at.as_millis()
                    == events[sorted[q]].recorded_at.as_millis() && events[p].event_id.as_u128()
                    < events[sorted[q]].event_id.as_u128()))
                    invariant
                        es == events_view(events@),
                        p < events.len(),
                        q <= sorted.len(),
                        forall|k: int| 0 <= k < sorted.len() ==> #[trigger] sorted@[k] < p,
                        forall|k: int| 0 <= k < q ==> history_lt(es, #[trigger] sorted@[k] as int, p as int),
                    decreases sorted.len() - q,
                {
                    assert(es[sorted@[q as int] as int] == events@[sorted@[q as int] as int]@);
                    q = q + 1;
                }
                proof {
                    if q < sorted.len() {
                        assert(es[sorted@[q as int] as int] == events@[sorted@[q as int] as int]@);
                        assert(history_lt(es, p as int, sorted@[q as int] as int));
                    }
                }
                let ghost before = sorted@;
                sorted.insert(q, p);
                proof {
                    let s1 = sorted@;
                    assert(s1 =~= before.insert(q as int, p));
                    assert forall|i: int, j: int| 0 <= i < j < s1.len() implies history_lt(es, #[trigger] s1[i] as int, #[trigger] s1[j] as int) by {
                        if j < q {
                            assert(s1[i] == before[i] && s1[j] == before[j]);
                        } else if j == q {
                            assert(s1[i] == before[i]);
                        } else if i == q {
                            assert(s1[j] == before[j - 1]);
                            assert(history_lt(es, p as int, before[q as int] as int));
                            if j - 1 > q {
                                assert(history_lt(es, before[q as int] as int, before[j - 1] as int));
                            }
                        } else if i < q {
                            assert(s1[i] == before[i]);
                            assert(s1[j] == before[j - 1]);
                            if j - 1 > q {
                                assert(history_lt(es, before[q as int] as int, before[j - 1] as int));
                            }
                            if j - 1 >= q {
                                assert(history_lt(es, p as int, before[q as int] as int));
                            }
                        } else {
                            assert(s1[i] == before[i - 1]);
                            assert(s1[j] == before[j - 1]);
                        }
                    }
                    assert forall|x: int| 0 <= x < p + 1 && es[x].kind.referenced().contains(id@) implies as_ints(s1).contains(x) by {
                        if x == p {
                            assert(as_ints(s1)[q as int] == x);
                        } else {
                            assert(as_ints(before).contains(x));
                            let w = choose|w: int| 0 <= w < as_ints(before).len() && as_ints(before)[w] == x;
                            if w < q {
                                assert(as_ints(s1)[w] == x);
                            } else {
                                assert(as_ints(s1)[w + 1] == x);
                            }
                        }
                    }
                    assert forall|k: int| 0 <= k < s1.len() implies #[trigger] s1[k] < p + 1 && es[s1[k] as int].kind.referenced().contains(id@) by {
                        if k < q {
                            assert(s1[k] == before[k]);
                        } else if k > q {
                            assert(s1[k] == before[k - 1]);
                        }
                    }
                }
            } else {
                proof {
                    assert forall|x: int| 0 <= x < p + 1 && es[x].kind.referenced().contains(id@) implies as_ints(sorted@).contains(x) by {
                        if x == p {
                            assert(!es[p as int].kind.referenced().contains(id@));
                        }
                    }
                }
            }
            p = p + 1;
        }
        let mut out: Vec<ChronicleEvent> = Vec::new();
        let mut k: usize = 0;
        while k < sorted.len()
            invariant
                es == events_view(events@),
                k <= sorted.len(),
                forall|j: int| 0 <= j < sorted.len() ==> #[trigger] sorted@[j] < events.len(),
                out@.len() == k,
                forall|j: int| 0 <= j < k ==> #[trigger] out@[j]@ == es[sorted@[j] as int],
            decreases sorted.len() - k,
        {
            out.push(events[sorted[k]].copy());
            k = k + 1;
        }
        proof {
            let pos = as_ints(sorted@);
            assert(history_order(es, id@, pos)) by {
                assert forall|i: int, j: int| 0 <= i < j < pos.len() implies history_lt(es, #[trigger] pos[i], #[trigger] pos[j]) by {
                    assert(pos[i] == sorted@[i] as int);
                    assert(pos[j] == sorted@[j] as int);
                }
                assert forall|kk: int| 0 <= kk < pos.len() implies 0 <= #[trigger] pos[kk] < es.len() && es[pos[kk]].kind.referenced().contains(id@) by {
                    assert(pos[kk] == sorted@[kk] as int);
                }
            }
            assert(events_view(out@) =~= pos.map_values(|p: int| self.archive@.events[p]));
        }
        out
    }
}

} // verus!
