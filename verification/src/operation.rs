use vstd::prelude::*;

use crate::domain::event::{ContextView, WorkContext};
use crate::domain::time::{rfc3339_parse, zone_lookup, Timestamp, ZoneChoice, ZoneView};
use crate::error::SillokError;
use crate::storage::handle::StoreHandle;
use crate::domain::text::{
    clean_tag, violation, EntryText, PurposeText, ReasonText, TagText, ENTRY_MAX_CHARS,
    PURPOSE_MAX_CHARS, REASON_MAX_CHARS, TAG_MAX_CHARS,
};
use crate::text::{insert_sorted, owned, push_str, strictly_sorted, strs_view, trim, trimmed};

verus! {

/// `prefix` followed by the rule's name.
fn violation_error(code: &'static str, prefix: &str, name: &str) -> (e: SillokError)
    ensures
        e.code == code,
        e.message@ == prefix@ + name@,
{
    let mut message = owned(prefix);
    push_str(&mut message, name);
    SillokError::new(code, message)
}

/// Validates task/objective text and returns the trimmed string.
pub fn clean_entry(raw: String) -> (r: Result<String, SillokError>)
    ensures
        match violation(trimmed(raw@), ENTRY_MAX_CHARS as nat) {
            None => r matches Ok(s) && s@ == trimmed(raw@),
            Some(v) => r matches Err(e) && e.code == "invalid_text" && e.message@
                == "invalid entry text: "@ + v.label(),
        },
{
    match EntryText::try_new(raw) {
        Ok(value) => Ok(value.into_inner()),
        Err(error) => Err(violation_error("invalid_text", "invalid entry text: ", error.name())),
    }
}

/// Validates optional purpose text.
pub fn clean_purpose(raw: Option<String>) -> (r: Result<Option<String>, SillokError>)
    ensures
        raw is None ==> r matches Ok(None),
        raw matches Some(v) ==> match violation(trimmed(v@), PURPOSE_MAX_CHARS as nat) {
            None => r matches Ok(Some(s)) && s@ == trimmed(v@),
            Some(v) => r matches Err(e) && e.code == "invalid_purpose" && e.message@
                == "invalid purpose text: "@ + v.label(),
        },
{
    match raw {
        Some(value) => match PurposeText::try_new(value) {
            Ok(value) => Ok(Some(value.into_inner())),
            Err(error) => Err(
                violation_error("invalid_purpose", "invalid purpose text: ", error.name()),
            ),
        },
        None => Ok(None),
    }
}

/// Validates retraction reason text.
pub fn clean_reason(raw: String) -> (r: Result<String, SillokError>)
    ensures
        match violation(trimmed(raw@), REASON_MAX_CHARS as nat) {
            None => r matches Ok(s) && s@ == trimmed(raw@),
            Some(v) => r matches Err(e) && e.code == "invalid_reason" && e.message@
                == "invalid reason: "@ + v.label(),
        },
{
    match ReasonText::try_new(raw) {
        Ok(value) => Ok(value.into_inner()),
        Err(error) => Err(violation_error("invalid_reason", "invalid reason: ", error.name())),
    }
}

/// The cleaned tags of `raw`, as a set.
pub open spec fn tag_set(raw: Seq<String>) -> Set<Seq<char>> {
    Set::new(|t: Seq<char>| exists|i: int| 0 <= i < raw.len() && #[trigger] clean_tag(raw[i]@) == t)
}

/// Every tag of `raw` is valid once cleaned.
pub open spec fn tags_valid(raw: Seq<String>) -> bool {
    forall|i: int| 0 <= i < raw.len() ==> violation(#[trigger] clean_tag(raw[i]@), TAG_MAX_CHARS as nat) is None
}

/// Tag `i` is the first that breaks a rule, and `message` names the rule.
pub open spec fn first_bad_tag(raw: Seq<String>, i: int, message: Seq<char>) -> bool {
    &&& 0 <= i < raw.len()
    &&& tags_valid(raw.take(i))
    &&& violation(clean_tag(raw[i]@), TAG_MAX_CHARS as nat) matches Some(v)
    &&& message == "invalid tag: "@ + v.label()
}

/// The position of the first tag that breaks a rule.
#[verifier::opaque]
pub open spec fn first_bad_index(raw: Seq<String>) -> int {
    choose|i: int|
        0 <= i < raw.len() && tags_valid(raw.take(i)) && #[trigger] violation(
            clean_tag(raw[i]@),
            TAG_MAX_CHARS as nat,
        ) is Some
}

proof fn lemma_first_bad_index(raw: Seq<String>, i: int)
    requires
        0 <= i < raw.len(),
        tags_valid(raw.take(i)),
        violation(clean_tag(raw[i]@), TAG_MAX_CHARS as nat) is Some,
    ensures
        first_bad_index(raw) == i,
{
    reveal(first_bad_index);
    let j = first_bad_index(raw);
    if j < i {
        assert(raw.take(i)[j] == raw[j]);
    } else if j > i {
        assert(raw.take(j)[i] == raw[i]);
    }
}

/// Validates, lowercases and deduplicates tags, returning them sorted.
pub fn clean_tags(raw: Vec<String>) -> (r: Result<Vec<String>, SillokError>)
    ensures
        r is Ok <==> tags_valid(raw@),
        r matches Ok(v) ==> strictly_sorted(strs_view(v@)) && strs_view(v@).to_set() == tag_set(raw@),
        r matches Err(e) ==> e.code == "invalid_tag" && first_bad_tag(raw@, first_bad_index(raw@), e.message@),
{
    let mut tags: Vec<String> = Vec::new();
    let mut i: usize = 0;
    assert(strs_view(tags@).to_set() =~= tag_set(raw@.take(0)));
    while i < raw.len()
        invariant
            i <= raw.len(),
            tags_valid(raw@.take(i as int)),
            strictly_sorted(strs_view(tags@)),
            strs_view(tags@).to_set() == tag_set(raw@.take(i as int)),
        decreases raw.len() - i,
    {
        let item = raw[i].clone();
        assert(item@ == raw@[i as int]@);
        let value = match TagText::try_new(item) {
            Ok(tag) => tag.into_inner(),
            Err(error) => {
                let e = violation_error("invalid_tag", "invalid tag: ", error.name());
                proof {
                    lemma_first_bad_index(raw@, i as int);
                }
                assert(first_bad_tag(raw@, i as int, e.message@));
                return Err(e);
            },
        };
        assert(value@ == clean_tag(raw@[i as int]@));
        insert_sorted(&mut tags, value);
        proof {
            let t1 = raw@.take(i + 1);
            let t0 = raw@.take(i as int);
            assert forall|j: int| 0 <= j < t1.len() implies violation(#[trigger] clean_tag(t1[j]@), TAG_MAX_CHARS as nat) is None by {
                if j < i {
                    assert(t1[j] == t0[j]);
                }
            }
            assert(tag_set(t1) =~= tag_set(t0).insert(clean_tag(raw@[i as int]@))) by {
                assert forall|t: Seq<char>| tag_set(t1).contains(t) implies tag_set(t0).insert(clean_tag(raw@[i as int]@)).contains(t) by {
                    let j = choose|j: int| 0 <= j < t1.len() && #[trigger] clean_tag(t1[j]@) == t;
                    if j < i {
                        assert(t0[j] == t1[j]);
                        assert(clean_tag(t0[j]@) == t);
                    }
                }
                assert forall|t: Seq<char>| tag_set(t0).insert(clean_tag(raw@[i as int]@)).contains(t) implies tag_set(t1).contains(t) by {
                    if t == clean_tag(raw@[i as int]@) {
                        assert(clean_tag(t1[i as int]@) == t);
                    } else {
                        let j = choose|j: int| 0 <= j < t0.len() && #[trigger] clean_tag(t0[j]@) == t;
                        assert(t1[j] == t0[j]);
                        assert(clean_tag(t1[j]@) == t);
                    }
                }
            }
        }
        i = i + 1;
    }
    assert(raw@.take(raw@.len() as int) =~= raw@);
    Ok(tags)
}

/// Runtime values shared by command handlers.
#[derive(Debug, Clone)]
pub struct OperationContext {
    pub store: StoreHandle,
    pub recorded_at: Timestamp,
    pub event_at: Timestamp,
    pub actor: String,
    pub work_context: WorkContext,
    pub zone: ZoneChoice,
    pub warnings: Vec<String>,
}

/// The actor name: the configured one when it is not blank, else `agent`.
pub open spec fn actor_name(configured: Option<Seq<char>>) -> Seq<char> {
    match configured {
        Some(v) => if trimmed(v).len() > 0 {
            v
        } else {
            "agent"@
        },
        None => "agent"@,
    }
}

impl OperationContext {
    /// Builds runtime context from the command-line fields and the values
    /// read from the environment: the current time, the configured actor,
    /// and the captured work context with its warnings.
    pub fn new(
        store_path: String,
        at: Option<String>,
        tz: Option<String>,
        now: Timestamp,
        configured_actor: Option<String>,
        work_context: WorkContext,
        warnings: Vec<String>,
    ) -> (r: Result<Self, SillokError>)
        ensures
            r matches Ok(c) ==> {
                &&& c.store.path_view() == store_path@
                &&& c.recorded_at == now
                &&& at is None ==> c.event_at == now
                &&& c.actor@ == actor_name(crate::text::opt_view(configured_actor))
                &&& c.work_context@ == work_context@
                &&& c.warnings@ == warnings@
                &&& tz is None ==> c.zone@ == ZoneView::Local
                &&& tz is Some ==> c.zone@ == ZoneView::Named(zone_lookup(tz->Some_0@)->Some_0)
            },
            tz is Some && zone_lookup(tz->Some_0@) is None ==> (r matches Err(e) && e.code
                == "invalid_timezone"),
            (tz is None || zone_lookup(tz->Some_0@) is Some) && at is None ==> r is Ok,
            (tz is None || zone_lookup(tz->Some_0@) is Some) && at is Some && rfc3339_parse(
                at->Some_0@,
            ) is Some ==> (r matches Ok(c) && c.event_at@ == rfc3339_parse(at->Some_0@)->Some_0),
            r matches Err(e) ==> e.code == "invalid_timezone" || e.code == "invalid_timestamp"
                || e.code == "ambiguous_timestamp",
    {
        let zone = match tz {
            Some(name) => ZoneChoice::parse(Some(name.as_str()))?,
            None => ZoneChoice::parse(None)?,
        };
        let event_at = match at {
            Some(value) => zone.parse_timestamp(value.as_str())?,
            None => now,
        };
        let actor = match configured_actor {
            Some(value) => {
                if trim(value.as_str()).unicode_len() > 0 {
                    value
                } else {
                    proof {
                        reveal_strlit("agent");
                    }
                    String::from_str("agent")
                }
            },
            None => {
                proof {
                    reveal_strlit("agent");
                }
                String::from_str("agent")
            },
        };
        Ok(
            OperationContext {
                store: StoreHandle::new(store_path),
                recorded_at: now,
                event_at,
                actor,
                work_context,
                zone,
                warnings,
            },
        )
    }

    /// Clones the actor for event construction.
    pub fn actor(&self) -> (s: String)
        ensures
            s@ == self.actor@,
    {
        self.actor.clone()
    }

    /// Clones the work context for event construction.
    pub fn context(&self) -> (c: WorkContext)
        ensures
            c@ == self.work_context@,
    {
        self.work_context.copy()
    }
}

} // verus!
