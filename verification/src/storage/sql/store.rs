use vstd::prelude::*;

use crate::domain::event::{RecordStatus, WorkContext};
use crate::domain::id::ChronicleId;
use crate::domain::time::{DayKey, Timestamp};

verus! {

/// Summary of a SQL-backed store.
#[derive(Debug, Clone)]
pub struct StoreInfo {
    pub archive_id: ChronicleId,
    pub created_at: Timestamp,
}

/// Validation and sizing details for a SQL-backed store.
#[derive(Debug, Clone)]
pub struct StoreStats {
    pub info: StoreInfo,
    pub event_count: usize,
    pub record_count: usize,
}

/// The Turso-backed store at a path.
#[derive(Debug, Clone)]
pub struct SqlStore {
    path: String,
}

impl SqlStore {
    /// A store handle for `path`.
    pub fn new(path: String) -> (s: Self)
        ensures
            s.path_view() == path@,
    {
        SqlStore { path }
    }

    /// The store's path.
    pub closed spec fn path_view(&self) -> Seq<char> {
        self.path@
    }

    /// Returns the store's path.
    pub fn path(&self) -> (p: &str)
        ensures
            p@ == self.path_view(),
    {
        self.path.as_str()
    }
}

/// Input for task creation.
#[derive(Debug)]
pub struct TaskInput {
    pub recorded_at: Timestamp,
    pub event_at: Timestamp,
    pub actor: String,
    pub context: WorkContext,
    pub day_key: DayKey,
    pub parent: Option<ChronicleId>,
    pub text: String,
    pub purpose: Option<String>,
    pub tags: Vec<String>,
    pub status: RecordStatus,
}

/// Input for objective creation.
#[derive(Debug)]
pub struct ObjectiveInput {
    pub recorded_at: Timestamp,
    pub event_at: Timestamp,
    pub actor: String,
    pub context: WorkContext,
    pub day_key: DayKey,
    pub text: String,
    pub tags: Vec<String>,
}

/// Input for objective completion.
#[derive(Debug)]
pub struct CompleteObjectiveInput {
    pub recorded_at: Timestamp,
    pub event_at: Timestamp,
    pub actor: String,
    pub context: WorkContext,
    pub objective_id: ChronicleId,
    pub note: Option<String>,
}

/// Input for record amendments.
#[derive(Debug)]
pub struct AmendInput {
    pub recorded_at: Timestamp,
    pub event_at: Timestamp,
    pub actor: String,
    pub context: WorkContext,
    pub record_id: ChronicleId,
    pub text: Option<String>,
    pub status: Option<RecordStatus>,
    pub purpose: Option<String>,
    pub tags: Option<Vec<String>>,
}

/// Input for retractions.
#[derive(Debug)]
pub struct RetractInput {
    pub recorded_at: Timestamp,
    pub event_at: Timestamp,
    pub actor: String,
    pub context: WorkContext,
    pub record_id: ChronicleId,
    pub reason: String,
}

/// SQL bind placeholders `?1, ?2, ..., ?count`.
pub open spec fn placeholder_list(count: nat) -> Seq<char>
    decreases count,
{
    if count == 0 {
        Seq::empty()
    } else if count == 1 {
        "?1"@
    } else {
        placeholder_list((count - 1) as nat) + ", ?"@ + crate::text::decimal(count)
    }
}

/// The bind placeholders for `count` values.
pub fn placeholders(count: usize) -> (s: String)
    ensures
        s@ == placeholder_list(count as nat),
{
    let mut s = String::new();
    let mut i: usize = 0;
    while i < count
        invariant
            i <= count,
            s@ == placeholder_list(i as nat),
        decreases count - i,
    {
        i = i + 1;
        proof {
            reveal_strlit("?1");
            reveal_strlit(", ?");
            reveal_strlit("?");
        }
        if i == 1 {
            crate::text::push_str(&mut s, "?");
            crate::text::push_decimal(&mut s, 1);
            assert(crate::text::decimal(1) == seq!['1']) by {
                reveal_with_fuel(crate::text::decimal, 2);
            }
            assert(s@ =~= "?1"@);
        } else {
            crate::text::push_str(&mut s, ", ?");
            crate::text::push_decimal(&mut s, i as u64);
        }
    }
    s
}

} // verus!
