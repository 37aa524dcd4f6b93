use vstd::prelude::*;

use crate::domain::view::{ChronicleState, ChronicleView};
use crate::error::SillokError;

verus! {

/// The `k`-th record up the parent chain from `id`.
pub open spec fn ancestor(s: ChronicleState, id: u128, k: nat) -> Option<u128>
    decreases k,
{
    if k == 0 {
        Some(id)
    } else {
        match ancestor(s, id, (k - 1) as nat) {
            Some(a) => if s.records.contains_key(a) {
                s.records[a].parent_id
            } else {
                None
            },
            None => None,
        }
    }
}

/// The `k`-th ancestor of `id` is a record without a parent.
pub open spec fn root_at(s: ChronicleState, id: u128, k: nat) -> bool {
    ancestor(s, id, k) matches Some(a) && s.records.contains_key(a) && s.records[a].parent_id is None
}

/// Following parents from `id` reaches a root within as many steps as there are records.
pub open spec fn chain_ends(s: ChronicleState, id: u128) -> bool {
    exists|k: nat| k <= s.records.dom().len() && #[trigger] root_at(s, id, k)
}

/// No record's parent chain runs into a cycle.
pub open spec fn parents_acyclic(s: ChronicleState) -> bool {
    forall|id: u128| #[trigger] s.records.contains_key(id) ==> chain_ends(s, id)
}

/// Some record names a parent that is not a record.
pub open spec fn parent_missing(s: ChronicleState) -> bool {
    exists|id: u128| #[trigger]
        s.records.contains_key(id) && s.records[id].parent_id is Some
            && !s.records.contains_key(s.records[id].parent_id->Some_0)
}

/// Once the chain from `id` leaves the records, it has no further ancestors.
proof fn lemma_ancestor_stops(s: ChronicleState, id: u128, k: nat, j: nat)
    requires
        k < j,
        ancestor(s, id, k) matches Some(a) ==> !s.records.contains_key(a),
    ensures
        ancestor(s, id, j) is None,
    decreases j,
{
    if j > k + 1 {
        lemma_ancestor_stops(s, id, k, (j - 1) as nat);
    }
}

/// Walks the parent chain of the record at position `i`.
fn walk_to_root(view: &ChronicleView<'_>, i: usize) -> (r: Result<(), SillokError>)
    requires
        view.wf(),
        i < view.records@.len(),
    ensures
        r is Ok <==> chain_ends(view.state(), view.records@[i as int].record_id@),
        r matches Err(e) ==> e.code == "parent_cycle" || e.code == "missing_parent",
        r matches Err(e) ==> (e.code == "missing_parent" ==> parent_missing(view.state())),
{
    let ghost s = view.state();
    let n = view.records.len();
    assert(s.records.dom() =~= view.positions@.dom());
    let start = view.records[i].record_id;
    assert(s.records.contains_key(start@));
    let mut cur = start;
    let mut steps: usize = 0;
    let mut pos: usize = i;
    loop
        invariant
            view.wf(),
            s == view.state(),
            n == s.records.dom().len(),
            steps <= n,
            start@ == view.records@[i as int].record_id@,
            ancestor(s, start@, steps as nat) == Some(cur@),
            s.records.contains_key(cur@),
            pos < view.records@.len(),
            view.records@[pos as int]@ == s.records[cur@],
            forall|k: nat| k < steps ==> !#[trigger] root_at(s, start@, k),
        decreases n - steps,
    {
        match view.records[pos].parent_id {
            None => {
                assert(root_at(s, start@, steps as nat));
                return Ok(());
            },
            Some(parent) => {
                assert(!root_at(s, start@, steps as nat));
                let p = match view.position(parent) {
                    Some(p) => p,
                    None => {
                        assert(ancestor(s, start@, (steps + 1) as nat) == Some(parent@));
                        assert forall|k: nat| k <= s.records.dom().len() implies !#[trigger] root_at(s, start@, k) by {
                            if k > steps + 1 {
                                lemma_ancestor_stops(s, start@, (steps + 1) as nat, k);
                            }
                        }
                        assert(s.records.contains_key(cur@) && s.records[cur@].parent_id == Some(parent@));
                        let mut message = String::from_str("record `");
                        crate::text::push_str(&mut message, cur.to_string().as_str());
                        crate::text::push_str(&mut message, "` points to missing parent `");
                        crate::text::push_str(&mut message, parent.to_string().as_str());
                        crate::text::push_str(&mut message, "`");
                        return Err(SillokError::new("missing_parent", message));
                    },
                };
                if steps == n {
                    assert forall|k: nat| k <= s.records.dom().len() implies !#[trigger] root_at(s, start@, k) by {}
                    let mut message = String::from_str("parent cycle includes `");
                    let text = cur.to_string();
                    crate::text::push_str(&mut message, text.as_str());
                    crate::text::push_str(&mut message, "`");
                    return Err(SillokError::new("parent_cycle", message));
                }
                assert(ancestor(s, start@, (steps + 1) as nat) == Some(parent@));
                cur = parent;
                pos = p;
                steps = steps + 1;
            },
        }
    }
}

/// Validates the parent graph: every parent chain must reach a root, so no
/// record may name a missing parent or sit on a cycle.
pub fn validate_parent_graph(view: &ChronicleView<'_>) -> (r: Result<(), SillokError>)
    requires
        view.wf(),
    ensures
        r is Ok <==> parents_acyclic(view.state()),
        r matches Err(e) ==> e.code == "parent_cycle" || e.code == "missing_parent",
        r matches Err(e) ==> (e.code == "missing_parent" ==> parent_missing(view.state())),
        !parent_missing(view.state()) ==> (r matches Err(e) ==> e.code == "parent_cycle"),
{
    let ghost s = view.state();
    let n = view.records.len();
    let mut i: usize = 0;
    while i < n
        invariant
            view.wf(),
            s == view.state(),
            n == view.records@.len(),
            i <= n,
            forall|j: int| 0 <= j < i ==> chain_ends(s, #[trigger] view.records@[j].record_id@),
        decreases n - i,
    {
        let r = walk_to_root(view, i);
        if r.is_err() {
            assert(s.records.contains_key(view.records@[i as int].record_id@));
            return r;
        }
        i = i + 1;
    }
    assert forall|id: u128| #[trigger] s.records.contains_key(id) implies chain_ends(s, id) by {
        let j = view.positions@[id] as int;
        assert(view.records@[j].record_id@ == id);
    }
    Ok(())
}

/// `a` and `b` hold the same records with the same parents.
pub open spec fn same_parents(a: ChronicleState, b: ChronicleState) -> bool {
    &&& a.records.dom() == b.records.dom()
    &&& forall|x: u128| #[trigger] a.records.contains_key(x) ==> b.records[x].parent_id == a.records[x].parent_id
}

/// States with the same records and parents have the same ancestors.
proof fn lemma_ancestor_same(a: ChronicleState, b: ChronicleState, id: u128, k: nat)
    requires
        same_parents(a, b),
    ensures
        ancestor(b, id, k) == ancestor(a, id, k),
    decreases k,
{
    if k > 0 {
        lemma_ancestor_same(a, b, id, (k - 1) as nat);
        if let Some(x) = ancestor(a, id, (k - 1) as nat) {
            assert(a.records.contains_key(x) == b.records.contains_key(x));
        }
    }
}

/// Changing records without touching any parent keeps the parent graph acyclic.
pub proof fn lemma_acyclic_same_parents(a: ChronicleState, b: ChronicleState)
    requires
        same_parents(a, b),
        parents_acyclic(a),
    ensures
        parents_acyclic(b),
{
    assert forall|id: u128| #[trigger] b.records.contains_key(id) implies chain_ends(b, id) by {
        assert(a.records.contains_key(id));
        let k = choose|k: nat| k <= a.records.dom().len() && #[trigger] root_at(a, id, k);
        lemma_ancestor_same(a, b, id, k);
        let x = ancestor(a, id, k)->Some_0;
        assert(a.records.contains_key(x));
        assert(root_at(b, id, k));
    }
}

/// Every ancestor of a record is a record, when every parent is a record.
proof fn lemma_ancestor_in(s: ChronicleState, id: u128, k: nat)
    requires
        s.records.contains_key(id),
        forall|x: u128| #[trigger]
            s.records.contains_key(x) ==> (s.records[x].parent_id matches Some(p)
                ==> s.records.contains_key(p)),
    ensures
        ancestor(s, id, k) matches Some(a) ==> s.records.contains_key(a),
    decreases k,
{
    if k > 0 {
        lemma_ancestor_in(s, id, (k - 1) as nat);
    }
}

/// The `k+1`-th ancestor of a record is the `k`-th ancestor of its parent.
proof fn lemma_ancestor_shift(s: ChronicleState, id: u128, p: u128, k: nat)
    requires
        s.records.contains_key(id),
        s.records[id].parent_id == Some(p),
    ensures
        ancestor(s, id, (k + 1) as nat) == ancestor(s, p, k),
    decreases k,
{
    if k > 0 {
        lemma_ancestor_shift(s, id, p, (k - 1) as nat);
        assert(ancestor(s, id, k) == ancestor(s, p, (k - 1) as nat));
    } else {
        assert(ancestor(s, id, 0) == Some(id));
    }
}

/// Old chains do not meet a record added under a new id.
proof fn lemma_ancestor_old(a: ChronicleState, b: ChronicleState, n: u128, id: u128, k: nat)
    requires
        !a.records.contains_key(n),
        a.records.contains_key(id),
        b.records == a.records.insert(n, b.records[n]),
        forall|x: u128| #[trigger]
            a.records.contains_key(x) ==> (a.records[x].parent_id matches Some(p)
                ==> a.records.contains_key(p)),
    ensures
        ancestor(b, id, k) == ancestor(a, id, k),
    decreases k,
{
    if k > 0 {
        lemma_ancestor_old(a, b, n, id, (k - 1) as nat);
        lemma_ancestor_in(a, id, (k - 1) as nat);
    }
}

/// Records already present keep a finished chain once a record is added
/// under a new id.
proof fn lemma_fresh_old_chains(a: ChronicleState, b: ChronicleState, n: u128, id: u128)
    requires
        chain_ends(a, id),
        a.records.contains_key(id),
        !a.records.contains_key(n),
        b.records == a.records.insert(n, b.records[n]),
        forall|x: u128| #[trigger]
            a.records.contains_key(x) ==> (a.records[x].parent_id matches Some(p)
                ==> a.records.contains_key(p)),
    ensures
        exists|k: nat| k <= a.records.dom().len() && #[trigger] root_at(b, id, k),
{
    let k = choose|k: nat| k <= a.records.dom().len() && #[trigger] root_at(a, id, k);
    lemma_ancestor_old(a, b, n, id, k);
    lemma_ancestor_in(a, id, k);
    let x = ancestor(a, id, k)->Some_0;
    assert(x != n);
    assert(root_at(b, id, k));
}

/// Adding a record under a new id, as a root or under an existing record,
/// keeps the parent graph acyclic.
pub proof fn lemma_acyclic_fresh_insert(a: ChronicleState, b: ChronicleState, n: u128)
    requires
        parents_acyclic(a),
        a.records.dom().finite(),
        !a.records.contains_key(n),
        b.records == a.records.insert(n, b.records[n]),
        b.records[n].parent_id matches Some(p) ==> a.records.contains_key(p),
        forall|x: u128| #[trigger]
            a.records.contains_key(x) ==> (a.records[x].parent_id matches Some(p)
                ==> a.records.contains_key(p)),
    ensures
        parents_acyclic(b),
{
    assert(b.records.dom() =~= a.records.dom().insert(n));
    assert(b.records.dom().len() == a.records.dom().len() + 1);
    assert forall|id: u128| #[trigger] b.records.contains_key(id) implies chain_ends(b, id) by {
        if id == n {
            match b.records[n].parent_id {
                None => {
                    assert(root_at(b, n, 0));
                },
                Some(p) => {
                    lemma_fresh_old_chains(a, b, n, p);
                    let k = choose|k: nat| k <= a.records.dom().len() && #[trigger] root_at(b, p, k);
                    lemma_ancestor_shift(b, n, p, k);
                    assert(root_at(b, n, (k + 1) as nat));
                },
            }
        } else {
            lemma_fresh_old_chains(a, b, n, id);
        }
    }
}

} // verus!
