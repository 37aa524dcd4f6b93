use vstd::prelude::*;

use crate::domain::event::RecordStatus;
use crate::domain::id::ChronicleId;
use crate::domain::indexes::{ids_view, lemma_filter_take_step, timeline_ok, view_indexed};
use crate::domain::reducer::{missing_message, missing_record};
use crate::domain::view::{ChronicleState, ChronicleView, DerivedRecord, RecordTreeNode, RecordView};
use crate::error::SillokError;
use crate::text::push_str;

verus! {

/// Mathematical view of a record tree.
pub struct TreeView {
    pub record: RecordView,
    pub children: Seq<TreeView>,
}

/// View of a tree node.
pub open spec fn tree_view(n: RecordTreeNode) -> TreeView
    decreases n,
{
    TreeView {
        record: n.record@,
        children: Seq::new(
            n.children@.len(),
            |i: int|
                if 0 <= i < n.children@.len() {
                    tree_view(n.children@[i])
                } else {
                    arbitrary()
                },
        ),
    }
}

/// Whether a record is a visible child of `parent`.
pub open spec fn shown_child_of(s: ChronicleState, parent: u128) -> spec_fn(u128) -> bool {
    |id: u128| s.records[id].parent_id == Some(parent) && s.records[id].status != RecordStatus::Retracted
}

/// The visible children of `parent` in `(created_at, record_id)` order.
pub open spec fn shown_children(s: ChronicleState, t: Seq<u128>, parent: u128) -> Seq<u128> {
    t.filter(shown_child_of(s, parent))
}

/// The visible tree under `id`, reached along `path`. A record met again on
/// its own path is a parent cycle and fails with that record's id.
pub open spec fn tree_of(s: ChronicleState, t: Seq<u128>, id: u128, path: Seq<u128>) -> Result<TreeView, u128>
    decreases t.len() - path.len(), 0nat, 0nat,
{
    if path.contains(id) || path.len() >= t.len() {
        Err(id)
    } else {
        match forest_of(s, t, shown_children(s, t, id), path.push(id)) {
            Ok(children) => Ok(TreeView { record: s.records[id], children }),
            Err(x) => Err(x),
        }
    }
}

/// The trees under each of `ids`, reached along `path`; the first failure wins.
pub open spec fn forest_of(s: ChronicleState, t: Seq<u128>, ids: Seq<u128>, path: Seq<u128>) -> Result<Seq<TreeView>, u128>
    decreases t.len() - path.len(), 1nat, ids.len(),
{
    if ids.len() == 0 {
        Ok(Seq::empty())
    } else {
        match forest_of(s, t, ids.drop_last(), path) {
            Ok(before) => match tree_of(s, t, ids.last(), path) {
                Ok(node) => Ok(before.push(node)),
                Err(x) => Err(x),
            },
            Err(x) => Err(x),
        }
    }
}

proof fn lemma_forest_extend_err(s: ChronicleState, t: Seq<u128>, ids: Seq<u128>, path: Seq<u128>, i: int)
    requires
        0 <= i <= ids.len(),
        forest_of(s, t, ids.take(i), path) is Err,
    ensures
        forest_of(s, t, ids, path) == forest_of(s, t, ids.take(i), path),
    decreases ids.len() - i,
{
    if i == ids.len() {
        assert(ids.take(i) =~= ids);
    } else {
        assert(ids.drop_last().take(i) =~= ids.take(i));
        lemma_forest_extend_err(s, t, ids.drop_last(), path, i);
    }
}

/// Message of the error for a parent cycle met while building a tree.
pub open spec fn cycle_message(id: u128) -> Seq<char> {
    "cycle detected at `"@ + crate::domain::id::id_text(id) + "`"@
}

fn cycle_error(id: ChronicleId) -> (e: SillokError)
    ensures
        e.code == "parent_cycle",
        e.message@ == cycle_message(id@),
{
    let mut message = String::from_str("cycle detected at `");
    let text = id.to_string();
    push_str(&mut message, text.as_str());
    push_str(&mut message, "`");
    SillokError::new("parent_cycle", message)
}

fn path_contains(path: &Vec<ChronicleId>, id: ChronicleId) -> (b: bool)
    ensures
        b == ids_view(path@).contains(id@),
{
    let mut i: usize = 0;
    while i < path.len()
        invariant
            i <= path@.len(),
            forall|j: int| 0 <= j < i ==> #[trigger] path@[j]@ != id@,
        decreases path@.len() - i,
    {
        if path[i].as_u128() == id.as_u128() {
            assert(ids_view(path@)[i as int] == id@);
            return true;
        }
        i = i + 1;
    }
    assert forall|j: int| 0 <= j < ids_view(path@).len() implies ids_view(path@)[j] != id@ by {
        assert(ids_view(path@)[j] == path@[j]@);
    }
    false
}

impl<'a> ChronicleView<'a> {
    /// The visible children of `parent`, in timeline order.
    fn child_ids(&self, parent: ChronicleId) -> (r: Vec<ChronicleId>)
        requires
            self.wf(),
            view_indexed(self),
        ensures
            ids_view(r@) == shown_children(self.state(), ids_view(self.timeline@), parent@),
    {
        let ghost s = self.state();
        let ghost t = ids_view(self.timeline@);
        let ghost pred = shown_child_of(s, parent@);
        let mut out: Vec<ChronicleId> = Vec::new();
        let mut k: usize = 0;
        assert(t.take(0).filter(pred) =~= Seq::<u128>::empty());
        while k < self.timeline.len()
            invariant
                self.wf(),
                view_indexed(self),
                s == self.state(),
                t == ids_view(self.timeline@),
                pred == shown_child_of(s, parent@),
                k <= t.len(),
                ids_view(out@) == t.take(k as int).filter(pred),
            decreases t.len() - k,
        {
            let id = self.timeline[k];
            assert(t[k as int] == id@);
            assert(t.contains(id@));
            let pos = match self.position(id) {
                Some(p) => p,
                None => {
                    assert(false);
                    0
                },
            };
            proof {
                lemma_filter_take_step(t, k as int, pred);
            }
            let rec = &self.records[pos];
            let is_child = match rec.parent_id {
                Some(p) => p.as_u128() == parent.as_u128(),
                None => false,
            };
            if is_child && rec.status != RecordStatus::Retracted {
                out.push(id);
                assert(ids_view(out@) =~= t.take(k as int).filter(pred).push(id@));
            }
            k = k + 1;
        }
        assert(t.take(t.len() as int) =~= t);
        out
    }

    fn tree_inner(&self, id: ChronicleId, path: &mut Vec<ChronicleId>) -> (r: Result<RecordTreeNode, SillokError>)
        requires
            self.wf(),
            view_indexed(self),
            self.state().records.contains_key(id@),
        ensures
            ids_view(final(path)@) == ids_view(old(path)@),
            match tree_of(self.state(), ids_view(self.timeline@), id@, ids_view(old(path)@)) {
                Ok(tv) => r matches Ok(n) && tree_view(n) == tv,
                Err(x) => r matches Err(e) && e.code == "parent_cycle" && e.message@ == cycle_message(x),
            },
        decreases self.timeline@.len() - old(path)@.len(),
    {
        let ghost s = self.state();
        let ghost t = ids_view(self.timeline@);
        let ghost p0 = ids_view(path@);
        if path_contains(path, id) || path.len() >= self.timeline.len() {
            return Err(cycle_error(id));
        }
        let pos = match self.position(id) {
            Some(p) => p,
            None => {
                assert(false);
                return Err(cycle_error(id));
            },
        };
        let kids = self.child_ids(id);
        path.push(id);
        let ghost p1 = ids_view(path@);
        assert(p1 =~= p0.push(id@));
        let ghost cs = shown_children(s, t, id@);
        let mut nodes: Vec<RecordTreeNode> = Vec::new();
        let mut j: usize = 0;
        assert(cs.take(0) =~= Seq::<u128>::empty());
        while j < kids.len()
            invariant
                self.wf(),
                view_indexed(self),
                s == self.state(),
                t == ids_view(self.timeline@),
                ids_view(kids@) == cs,
                cs == shown_children(s, t, id@),
                ids_view(path@) == p1,
                p1.len() <= t.len(),
                path@.len() == old(path)@.len() + 1,
                p0 == ids_view(old(path)@),
                p1 == p0.push(id@),
                !p0.contains(id@),
                p0.len() < t.len(),
                j <= kids@.len(),
                forest_of(s, t, cs.take(j as int), p1) matches Ok(f) && Seq::new(nodes@.len(), |i: int| tree_view(nodes@[i])) == f,
                nodes@.len() == j,
            decreases kids@.len() - j,
        {
            let kid = kids[j];
            assert(cs[j as int] == kid@);
            proof {
                let pred = shown_child_of(s, id@);
                t.lemma_filter_contains_rev(pred, kid@);
                assert(t.filter(pred).contains(kid@));
                assert(cs.contains(kid@));
                assert(t.contains(kid@));
                assert(timeline_ok(s, t));
            }
            let r = self.tree_inner(kid, path);
            assert(cs.take(j + 1).drop_last() =~= cs.take(j as int));
            assert(cs.take(j + 1).last() == kid@);
            match r {
                Ok(node) => {
                    let ghost before = nodes@;
                    nodes.push(node);
                    assert(Seq::new(nodes@.len(), |i: int| tree_view(nodes@[i])) =~= Seq::new(before.len(), |i: int| tree_view(before[i])).push(tree_view(node)));
                },
                Err(e) => {
                    proof {
                        let tk = tree_of(s, t, kid@, p1);
                        assert(tk is Err);
                        assert(forest_of(s, t, cs.take(j + 1), p1) == Err::<Seq<TreeView>, u128>(tk->Err_0));
                        lemma_forest_extend_err(s, t, cs, p1, j + 1);
                        assert(forest_of(s, t, cs, p1) == Err::<Seq<TreeView>, u128>(tk->Err_0));
                        assert(tree_of(s, t, id@, p0) == Err::<TreeView, u128>(tk->Err_0));
                    }
                    let ghost before = path@;
                    path.pop();
                    assert(ids_view(path@) =~= ids_view(before).drop_last());
                    assert(ids_view(path@) =~= p0);
                    return Err(e);
                },
            }
            j = j + 1;
        }
        let ghost before = path@;
        path.pop();
        assert(ids_view(path@) =~= ids_view(before).drop_last());
        assert(ids_view(path@) =~= p0);
        assert(cs.take(cs.len() as int) =~= cs);
        let node = RecordTreeNode { record: self.records[pos].copy(), children: nodes };
        assert(tree_view(node).children =~= Seq::new(nodes@.len(), |i: int| tree_view(nodes@[i])));
        Ok(node)
    }

    /// Builds a visible tree from a root id.
    pub fn tree(&self, root_id: ChronicleId) -> (r: Result<RecordTreeNode, SillokError>)
        requires
            self.wf(),
            view_indexed(self),
        ensures
            !self.state().records.contains_key(root_id@) ==> (r matches Err(e) && e.code
                == "record_not_found" && e.message@ == missing_message(root_id@)),
            self.state().records.contains_key(root_id@) ==> match tree_of(
                self.state(),
                ids_view(self.timeline@),
                root_id@,
                Seq::empty(),
            ) {
                Ok(tv) => r matches Ok(n) && tree_view(n) == tv,
                Err(x) => r matches Err(e) && e.code == "parent_cycle" && e.message@ == cycle_message(x),
            },
    {
        if self.position(root_id).is_none() {
            return Err(missing_record(root_id));
        }
        let mut path: Vec<ChronicleId> = Vec::new();
        assert(ids_view(path@) =~= Seq::<u128>::empty());
        self.tree_inner(root_id, &mut path)
    }
}

/// No node below the root of `tv` holds a retracted record, at any depth.
pub open spec fn hides_retracted(tv: TreeView) -> bool
    decreases tv,
{
    forall|i: int|
        0 <= i < tv.children.len() ==> (#[trigger] tv.children[i]).record.status
            != RecordStatus::Retracted && hides_retracted(tv.children[i])
}

/// Each child of `tv` holds a record whose parent is `tv`'s record id.
pub open spec fn children_point_back(tv: TreeView, id: u128) -> bool {
    forall|i: int| 0 <= i < tv.children.len() ==> (#[trigger] tv.children[i]).record.parent_id == Some(id)
}

/// A tree built from the view shows no retracted record below its root, and
/// each child it shows names its parent in the tree as its parent.
pub proof fn lemma_tree_hides_retracted(s: ChronicleState, t: Seq<u128>, id: u128, path: Seq<u128>)
    requires
        tree_of(s, t, id, path) is Ok,
    ensures
        hides_retracted(tree_of(s, t, id, path)->Ok_0),
        children_point_back(tree_of(s, t, id, path)->Ok_0, id),
    decreases t.len() - path.len(), 0nat, 0nat,
{
    let ids = shown_children(s, t, id);
    assert forall|j: int| 0 <= j < ids.len() implies s.records[#[trigger] ids[j]].status
        != RecordStatus::Retracted && s.records[ids[j]].parent_id == Some(id) by {
        t.lemma_filter_pred(shown_child_of(s, id), j);
    }
    lemma_forest_hides_retracted(s, t, ids, path.push(id));
}

/// Each tree in a forest built from the view holds the record of its id and
/// hides retracted records below it.
proof fn lemma_forest_hides_retracted(s: ChronicleState, t: Seq<u128>, ids: Seq<u128>, path: Seq<u128>)
    requires
        forest_of(s, t, ids, path) is Ok,
    ensures
        forest_of(s, t, ids, path)->Ok_0.len() == ids.len(),
        forall|i: int|
            0 <= i < ids.len() ==> (#[trigger] forest_of(s, t, ids, path)->Ok_0[i]).record
                == s.records[ids[i]] && hides_retracted(forest_of(s, t, ids, path)->Ok_0[i]),
    decreases t.len() - path.len(), 1nat, ids.len(),
{
    if ids.len() > 0 {
        lemma_forest_hides_retracted(s, t, ids.drop_last(), path);
        lemma_tree_hides_retracted(s, t, ids.last(), path);
    }
}

/// A tree built from the view shows, as a child of its root, every record of
/// the timeline that names the root as its parent and is not retracted.
pub proof fn lemma_tree_shows_every_child(s: ChronicleState, t: Seq<u128>, id: u128, path: Seq<u128>, x: u128)
    requires
        tree_of(s, t, id, path) is Ok,
        t.contains(x),
        s.records[x].parent_id == Some(id),
        s.records[x].status != RecordStatus::Retracted,
    ensures
        exists|i: int|
            0 <= i < tree_of(s, t, id, path)->Ok_0.children.len() && (#[trigger] tree_of(
                s,
                t,
                id,
                path,
            )->Ok_0.children[i]).record == s.records[x],
{
    let ids = shown_children(s, t, id);
    let k = choose|k: int| 0 <= k < t.len() && t[k] == x;
    t.lemma_filter_contains(shown_child_of(s, id), k);
    let j = choose|j: int| 0 <= j < ids.len() && ids[j] == x;
    lemma_forest_hides_retracted(s, t, ids, path.push(id));
    let tv = tree_of(s, t, id, path)->Ok_0;
    assert(tv.children[j].record == s.records[x]);
}

} // verus!
