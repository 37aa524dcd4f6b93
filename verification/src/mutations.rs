use vstd::prelude::*;

use crate::cli::args::{AmendArgs, NoteArgs, ObjectiveAddArgs, ObjectiveCompleteArgs, RetractArgs};
use crate::domain::archive::{Archive, ArchiveView};
use crate::domain::event::{
    events_view, opt_strs_view, ChronicleEvent, EventKind, EventView, KindView, RecordKind,
    RecordStatus,
};
use crate::domain::view_query::{record_matches, QueryView};
use crate::domain::id::{id_text, uuid_parse, ChronicleId};
use crate::domain::time::{DayKey, DayKeyView};
use crate::domain::view::{
    lemma_day_lookup_in, lemma_objective_added_record, lemma_replay_last, lemma_task_recorded_record, amended, build_error, builds, canonical, day_lookup, empty_state, is_visible, lemma_replay_finite,
    lemma_replay_inv, lemma_step_inv, replay, state_inv, state_of, step, ChronicleState, ChronicleView,
    DerivedRecord, RecordView,
};
use crate::domain::graph::{
    lemma_acyclic_fresh_insert, lemma_acyclic_same_parents, parents_acyclic, same_parents,
};
use crate::error::SillokError;
use crate::mutation_helpers::{
    active_in, day_choice, day_for_key, day_key_resolves, day_opened_event, fresh_record_id,
    inactive_error, parent_target, parse_optional_id, require_active_record, require_output_record,
    stamped_by, zone_day,
};
use crate::domain::text::{violation, ENTRY_MAX_CHARS, PURPOSE_MAX_CHARS, REASON_MAX_CHARS};
use crate::operation::{
    clean_entry, clean_purpose, clean_reason, clean_tags, tag_set, tags_valid, OperationContext,
};
use crate::text::{opt_view, push_str, strictly_sorted, strs_view, trimmed};

verus! {

/// `new` is `old` with `events` appended.
pub open spec fn extended(old: ArchiveView, events: Seq<EventView>) -> ArchiveView {
    ArchiveView { events: old.events + events, ..old }
}

/// Event `e` was made by `ctx` with kind `kind`.
pub open spec fn made_by(e: EventView, ctx: OperationContext, kind: KindView) -> bool {
    &&& e.event_at == ctx.event_at@
    &&& e.recorded_at == ctx.recorded_at@
    &&& e.actor == ctx.actor@
    &&& e.context == ctx.work_context@
    &&& e.kind == kind
}

/// Optional text, trimmed.
pub open spec fn opt_trimmed(o: Option<Seq<char>>) -> Option<Seq<char>> {
    match o {
        Some(v) => Some(trimmed(v)),
        None => None,
    }
}

/// Optional purpose text that `clean_purpose` accepts.
pub open spec fn purpose_ok(o: Option<Seq<char>>) -> bool {
    o matches Some(v) ==> violation(trimmed(v), PURPOSE_MAX_CHARS as nat) is None
}

/// Cleaned tags: sorted, without repeats, exactly the cleaned inputs.
pub open spec fn cleaned_tags(tags: Seq<Seq<char>>, raw: Seq<String>) -> bool {
    strictly_sorted(tags) && tags.to_set() == tag_set(raw)
}

/// Appends `events` to a copy of the archive, builds it, and adopts it when it
/// builds and holds record `id`, returning that record.
fn commit(archive: &mut Archive, events: Vec<ChronicleEvent>, id: ChronicleId) -> (r: Result<
    DerivedRecord,
    SillokError,
>)
    ensures
        ({
            let next = extended(old(archive)@, events_view(events@));
            &&& r is Err ==> final(archive)@ == old(archive)@
            &&& r is Ok <==> builds(next) && state_of(next).records.contains_key(id@)
            &&& r matches Ok(rec) ==> final(archive)@ == next && rec@ == state_of(next).records[id@]
            &&& r matches Err(e) ==> (!builds(next) && build_error(next, e)) || (builds(next)
                && e.code == "record_not_found")
        }),
{
    let ghost next_view = extended(archive@, events_view(events@));
    let mut next = archive.copy();
    let mut i: usize = 0;
    while i < events.len()
        invariant
            i <= events.len(),
            next@ == extended(archive@, events_view(events@).take(i as int)),
        decreases events.len() - i,
    {
        next.push(events[i].copy());
        assert(events_view(events@).take(i + 1) =~= events_view(events@).take(i as int).push(
            events@[i as int]@,
        ));
        assert(archive@.events + events_view(events@).take(i + 1) =~= (archive@.events
            + events_view(events@).take(i as int)).push(events@[i as int]@));
        i = i + 1;
    }
    assert(events_view(events@).take(events.len() as int) =~= events_view(events@));
    assert(next@ == next_view);
    let record = match ChronicleView::build(&next) {
        Ok(view) => match require_output_record(&view, id) {
            Ok(record) => record,
            Err(e) => {
                return Err(e);
            },
        },
        Err(e) => {
            return Err(e);
        },
    };
    *archive = next;
    Ok(record)
}

/// The events that open a new day, when one is to be opened first.
fn day_prefix(ctx: &OperationContext, day_to_open: Option<(ChronicleId, DayKey)>) -> (events: Vec<
    ChronicleEvent,
>)
    ensures
        match day_to_open {
            Some(p) => events@.len() == 1 && made_by(
                events@[0]@,
                *ctx,
                KindView::DayOpened { day_id: p.0@, day_key: p.1@ },
            ),
            None => events@.len() == 0,
        },
{
    let mut events: Vec<ChronicleEvent> = Vec::new();
    match day_to_open {
        Some((new_day_id, key)) => {
            events.push(day_opened_event(ctx, new_day_id, key));
        },
        None => {},
    }
    events
}

/// Appending at most one day event and then `last` leaves `last` at the end,
/// right after the day event when there is one.
proof fn lemma_append_after(old: ArchiveView, pre: Seq<EventView>, last: EventView)
    requires
        pre.len() <= 1,
    ensures
        ({
            let new = extended(old, pre.push(last));
            &&& new.events.last() == last
            &&& new.events.len() == old.events.len() + pre.len() + 1
            &&& pre.len() == 0 ==> new == extended(old, seq![last])
            &&& pre.len() == 1 ==> new.events[old.events.len() as int] == pre[0] && new == extended(
                old,
                seq![new.events[old.events.len() as int], last],
            )
        }),
{
    if pre.len() == 0 {
        assert(pre.push(last) =~= seq![last]);
    } else {
        assert(pre.push(last) =~= seq![pre[0], last]);
    }
}

/// Under the state invariant, the canonical id of a record or day alias is a record.
proof fn lemma_canonical_in(s: ChronicleState, x: u128)
    requires
        state_inv(s),
        s.records.contains_key(x) || s.aliases.contains_key(x),
    ensures
        s.records.contains_key(canonical(s, x)),
{
}

/// Appending an event that changes the fields of an existing record, but not
/// its parent, keeps the archive building and the record present.
proof fn lemma_update_builds(old: ArchiveView, e: EventView, id: u128)
    requires
        builds(old),
        state_of(old).records.contains_key(id),
        (e.kind is TaskAmended && e.kind->TaskAmended_record_id == id) || (e.kind is TaskRetracted
            && e.kind->TaskRetracted_record_id == id) || (e.kind is ObjectiveCompleted
            && e.kind->ObjectiveCompleted_objective_id == id),
    ensures
        builds(extended(old, seq![e])),
        state_of(extended(old, seq![e])).records.contains_key(id),
{
    let s0 = state_of(old);
    lemma_replay_inv(old.events);
    lemma_replay_one_more(old, e);
    lemma_canonical_in(s0, id);
    let c = canonical(s0, id);
    let s1 = step(s0, e)->Ok_0;
    lemma_same_parents_update(s0, e, c);
    lemma_acyclic_same_parents(s0, s1);
}

/// An amendment, retraction or completion of record `c` changes only its fields.
#[verifier::rlimit(30)]
proof fn lemma_same_parents_update(s0: ChronicleState, e: EventView, c: u128)
    requires
        s0.records.contains_key(c),
        (e.kind is TaskAmended && canonical(s0, e.kind->TaskAmended_record_id) == c) || (
        e.kind is TaskRetracted && canonical(s0, e.kind->TaskRetracted_record_id) == c) || (
        e.kind is ObjectiveCompleted && canonical(s0, e.kind->ObjectiveCompleted_objective_id) == c),
    ensures
        step(s0, e) is Ok,
        same_parents(s0, step(s0, e)->Ok_0),
{
    let s1 = step(s0, e)->Ok_0;
    assert(s1.records == s0.records.insert(c, s1.records[c]));
    assert(s1.records[c].parent_id == s0.records[c].parent_id);
    assert(s1.records.dom() =~= s0.records.dom());
}

/// Opening a day under a new id for a key that has no day keeps the state
/// sound and acyclic, and adds that day.
proof fn lemma_open_day(s: ChronicleState, e: EventView)
    requires
        state_inv(s),
        parents_acyclic(s),
        s.records.dom().finite(),
        e.kind is DayOpened,
        !s.records.contains_key(e.kind->DayOpened_day_id),
        day_lookup(s.days, e.kind->DayOpened_day_key) is None,
    ensures
        step(s, e) is Ok,
        state_inv(step(s, e)->Ok_0),
        parents_acyclic(step(s, e)->Ok_0),
        step(s, e)->Ok_0.records.dom().finite(),
        step(s, e)->Ok_0.records == s.records.insert(
            e.kind->DayOpened_day_id,
            step(s, e)->Ok_0.records[e.kind->DayOpened_day_id],
        ),
{
    let t = step(s, e)->Ok_0;
    lemma_step_inv(s, e);
    lemma_acyclic_fresh_insert(s, t, e.kind->DayOpened_day_id);
}

/// Adding a task or objective under a new id, attached to existing records,
/// keeps the parent graph acyclic and holds the new record.
proof fn lemma_add_record(s: ChronicleState, e: EventView, n: u128)
    requires
        state_inv(s),
        parents_acyclic(s),
        s.records.dom().finite(),
        !s.records.contains_key(n),
        (e.kind is TaskRecorded && e.kind->TaskRecorded_task_id == n && s.records.contains_key(
            canonical(s, e.kind->TaskRecorded_day_id),
        ) && s.records.contains_key(canonical(s, e.kind->TaskRecorded_parent_id))) || (
        e.kind is ObjectiveAdded && e.kind->ObjectiveAdded_objective_id == n
            && s.records.contains_key(canonical(s, e.kind->ObjectiveAdded_day_id))),
    ensures
        step(s, e) is Ok,
        parents_acyclic(step(s, e)->Ok_0),
        step(s, e)->Ok_0.records.contains_key(n),
{
    let t = step(s, e)->Ok_0;
    if e.kind is TaskRecorded {
        lemma_task_step(s, e, n);
    } else {
        lemma_objective_step(s, e, n);
    }
    lemma_acyclic_fresh_insert(s, t, n);
}

/// A new task inserts one record under its own id, below an existing record.
proof fn lemma_task_step(s: ChronicleState, e: EventView, n: u128)
    requires
        e.kind is TaskRecorded,
        e.kind->TaskRecorded_task_id == n,
        s.records.contains_key(canonical(s, e.kind->TaskRecorded_day_id)),
        s.records.contains_key(canonical(s, e.kind->TaskRecorded_parent_id)),
    ensures
        step(s, e) is Ok,
        step(s, e)->Ok_0.records == s.records.insert(n, step(s, e)->Ok_0.records[n]),
        step(s, e)->Ok_0.records[n].parent_id matches Some(p) && s.records.contains_key(p),
{
}

/// A new objective inserts one record under its own id, below an existing day.
proof fn lemma_objective_step(s: ChronicleState, e: EventView, n: u128)
    requires
        e.kind is ObjectiveAdded,
        e.kind->ObjectiveAdded_objective_id == n,
        s.records.contains_key(canonical(s, e.kind->ObjectiveAdded_day_id)),
    ensures
        step(s, e) is Ok,
        step(s, e)->Ok_0.records == s.records.insert(n, step(s, e)->Ok_0.records[n]),
        step(s, e)->Ok_0.records[n].parent_id matches Some(p) && s.records.contains_key(p),
{
}

/// `x` is a record of `s`, or the day that is being opened.
pub open spec fn names_record(s: ChronicleState, x: u128, opened: Option<u128>) -> bool {
    s.records.contains_key(x) || opened == Some(x)
}

/// The day id opened by `pre`, if it opens one.
pub open spec fn opened_day(pre: Seq<EventView>) -> Option<u128> {
    if pre.len() == 1 {
        Some(pre[0].kind->DayOpened_day_id)
    } else {
        None
    }
}

/// Appending a new task or objective under a fresh id, after at most one
/// event that opens a new day under another fresh id, to an archive that
/// builds gives an archive that builds and holds the new record.
proof fn lemma_record_added(old: ArchiveView, pre: Seq<EventView>, last: EventView, n: u128)
    requires
        builds(old),
        pre.len() <= 1,
        !state_of(old).records.contains_key(n),
        pre.len() == 1 ==> (pre[0].kind is DayOpened && !state_of(old).records.contains_key(
            pre[0].kind->DayOpened_day_id,
        ) && day_lookup(state_of(old).days, pre[0].kind->DayOpened_day_key) is None && n
            != pre[0].kind->DayOpened_day_id),
        (last.kind is TaskRecorded && last.kind->TaskRecorded_task_id == n && names_record(
            state_of(old),
            last.kind->TaskRecorded_day_id,
            opened_day(pre),
        ) && names_record(state_of(old), last.kind->TaskRecorded_parent_id, opened_day(pre))) || (
        last.kind is ObjectiveAdded && last.kind->ObjectiveAdded_objective_id == n && names_record(
            state_of(old),
            last.kind->ObjectiveAdded_day_id,
            opened_day(pre),
        )),
    ensures
        builds(extended(old, pre.push(last))),
        state_of(extended(old, pre.push(last))).records.contains_key(n),
{
    let s0 = state_of(old);
    lemma_replay_inv(old.events);
    lemma_replay_finite(old.events);
    if pre.len() == 0 {
        assert(pre.push(last) =~= seq![last]);
        lemma_replay_one_more(old, last);
        if last.kind is TaskRecorded {
            lemma_canonical_in(s0, last.kind->TaskRecorded_day_id);
            lemma_canonical_in(s0, last.kind->TaskRecorded_parent_id);
        } else {
            lemma_canonical_in(s0, last.kind->ObjectiveAdded_day_id);
        }
        lemma_add_record(s0, last, n);
    } else {
        let mid = extended(old, seq![pre[0]]);
        assert(extended(old, pre.push(last)).events =~= extended(mid, seq![last]).events);
        assert(extended(old, pre.push(last)) == extended(mid, seq![last]));
        lemma_replay_one_more(old, pre[0]);
        lemma_open_day(s0, pre[0]);
        let s1 = step(s0, pre[0])->Ok_0;
        assert(replay(empty_state(), mid.events) == Ok::<ChronicleState, u128>(s1));
        lemma_replay_one_more(mid, last);
        let d = pre[0].kind->DayOpened_day_id;
        assert(s1.records.contains_key(d));
        assert(forall|x: u128| s0.records.contains_key(x) ==> #[trigger] s1.records.contains_key(x));
        if last.kind is TaskRecorded {
            lemma_canonical_in(s1, last.kind->TaskRecorded_day_id);
            lemma_canonical_in(s1, last.kind->TaskRecorded_parent_id);
        } else {
            lemma_canonical_in(s1, last.kind->ObjectiveAdded_day_id);
        }
        lemma_add_record(s1, last, n);
    }
}

/// The events `pre` open the day in `open_pair`, or nothing when it is `None`.
pub open spec fn opens(pre: Seq<EventView>, open_pair: Option<(ChronicleId, DayKey)>) -> bool {
    match open_pair {
        Some(p) => pre.len() == 1 && pre[0].kind == (KindView::DayOpened {
            day_id: p.0@,
            day_key: p.1@,
        }),
        None => pre.len() == 0,
    }
}

/// Once `note` has resolved its day and parent and drawn a fresh task id,
/// appending its events gives an archive that builds and holds the task.
proof fn lemma_task_ready(
    old: ArchiveView,
    ctx: OperationContext,
    parent: Option<ChronicleId>,
    day_id: ChronicleId,
    parent_id: ChronicleId,
    open_pair: Option<(ChronicleId, DayKey)>,
    pre: Seq<EventView>,
    last: EventView,
    n: u128,
)
    requires
        builds(old),
        parent matches Some(p) ==> active_in(state_of(old), p@) && day_id@ == state_of(
            old,
        ).records[p@].day_id && parent_id == p && open_pair is None,
        parent is None ==> parent_id == day_id && exists|k: DayKeyView|
            zone_day(ctx.zone@, ctx.event_at@, k) && #[trigger] day_choice(
                state_of(old),
                k,
                (day_id, open_pair),
            ),
        opens(pre, open_pair),
        last.kind is TaskRecorded,
        last.kind->TaskRecorded_task_id == n,
        last.kind->TaskRecorded_day_id == day_id@,
        last.kind->TaskRecorded_parent_id == parent_id@,
        !state_of(old).records.contains_key(n),
        open_pair is Some ==> n != open_pair->Some_0.0@,
    ensures
        builds(extended(old, pre.push(last))),
        state_of(extended(old, pre.push(last))).records.contains_key(n),
{
    let s0 = state_of(old);
    lemma_replay_inv(old.events);
    if parent is None && open_pair is None {
        let k = choose|k: DayKeyView|
            zone_day(ctx.zone@, ctx.event_at@, k) && #[trigger] day_choice(s0, k, (day_id, open_pair));
        lemma_day_lookup_in(s0.days, k);
    }
    assert(names_record(s0, day_id@, opened_day(pre)));
    assert(names_record(s0, parent_id@, opened_day(pre)));
    lemma_record_added(old, pre, last, n);
}

/// Once `objective add` has resolved its day and drawn a fresh objective id,
/// appending its events gives an archive that builds and holds the objective.
proof fn lemma_objective_ready(
    old: ArchiveView,
    k: DayKeyView,
    day_id: ChronicleId,
    open_pair: Option<(ChronicleId, DayKey)>,
    pre: Seq<EventView>,
    last: EventView,
    n: u128,
)
    requires
        builds(old),
        day_choice(state_of(old), k, (day_id, open_pair)),
        opens(pre, open_pair),
        last.kind is ObjectiveAdded,
        last.kind->ObjectiveAdded_objective_id == n,
        last.kind->ObjectiveAdded_day_id == day_id@,
        !state_of(old).records.contains_key(n),
        open_pair is Some ==> n != open_pair->Some_0.0@,
    ensures
        builds(extended(old, pre.push(last))),
        state_of(extended(old, pre.push(last))).records.contains_key(n),
{
    let s0 = state_of(old);
    lemma_replay_inv(old.events);
    if open_pair is None {
        lemma_day_lookup_in(s0.days, k);
    }
    assert(names_record(s0, day_id@, opened_day(pre)));
    lemma_record_added(old, pre, last, n);
}

/// Builds the view of the current archive.
fn current_view(archive: &Archive) -> (r: Result<ChronicleView<'_>, SillokError>)
    ensures
        r is Ok <==> builds(archive@),
        r matches Ok(v) ==> v.wf() && v.state() == state_of(archive@),
        r matches Err(e) ==> build_error(archive@, e),
{
    ChronicleView::build(archive)
}

/// The text inputs of `note` are valid.
pub open spec fn note_inputs_ok(args: NoteArgs) -> bool {
    &&& violation(trimmed(args.text@), ENTRY_MAX_CHARS as nat) is None
    &&& purpose_ok(opt_view(args.purpose))
    &&& tags_valid(args.tags@)
    &&& args.parent matches Some(raw) ==> uuid_parse(raw@) is Some
}

/// What a successful `note` did: it appended a task (after opening its day
/// when the day was new), and `rec` is the task as the new archive derives it.
pub open spec fn note_done(
    ctx: OperationContext,
    args: NoteArgs,
    old: ArchiveView,
    new: ArchiveView,
    rec: DerivedRecord,
) -> bool {
    let s0 = state_of(old);
    let task = new.events.last();
    &&& builds(old)
    &&& builds(new)
    &&& task.kind matches KindView::TaskRecorded { task_id, day_id, parent_id, text, purpose, tags, status }
    &&& made_by(task, ctx, task.kind)
    &&& task_id == rec@.record_id
    &&& text == trimmed(args.text@)
    &&& purpose == opt_trimmed(opt_view(args.purpose))
    &&& cleaned_tags(tags, args.tags@)
    &&& status == args.status
    &&& rec@ == state_of(new).records[task_id]
    &&& match args.parent {
        Some(raw) => {
            &&& new == extended(old, seq![task])
            &&& parent_id == uuid_parse(raw@)->Some_0
            &&& active_in(s0, parent_id)
            &&& day_id == s0.records[parent_id].day_id
        },
        None => {
            &&& parent_id == day_id
            &&& exists|k: DayKeyView| #[trigger] zone_day(ctx.zone@, ctx.event_at@, k) && match day_lookup(s0.days, k) {
                Some(d) => d == day_id && new == extended(old, seq![task]),
                None => new.events.len() == old.events.len() + 2 && new == extended(
                    old,
                    seq![new.events[old.events.len() as int], task],
                ) && made_by(
                    new.events[old.events.len() as int],
                    ctx,
                    KindView::DayOpened { day_id, day_key: k },
                ),
            }
        },
    }
}

/// Records a task, opening its day first when needed.
#[verifier::rlimit(60)]
pub fn note(ctx: &OperationContext, archive: &mut Archive, args: NoteArgs) -> (r: Result<
    DerivedRecord,
    SillokError,
>)
    ensures
        r is Err ==> final(archive)@ == old(archive)@,
        r matches Ok(rec) ==> note_done(*ctx, args, old(archive)@, final(archive)@, rec),
        !note_inputs_ok(args) ==> r is Err,
        violation(trimmed(args.text@), ENTRY_MAX_CHARS as nat) is Some ==> (r matches Err(e)
            && e.code == "invalid_text"),
        note_inputs_ok(args) && !builds(old(archive)@) ==> (r matches Err(e) && build_error(
            old(archive)@,
            e,
        )),
        note_inputs_ok(args) && builds(old(archive)@) && (args.parent matches Some(raw)
            && !active_in(state_of(old(archive)@), uuid_parse(raw@)->Some_0)) ==> (r matches Err(e)
            && inactive_error(state_of(old(archive)@), uuid_parse(args.parent->Some_0@)->Some_0, e)),
        note_inputs_ok(args) && builds(old(archive)@) && (args.parent is Some ==> active_in(
            state_of(old(archive)@),
            uuid_parse(args.parent->Some_0@)->Some_0,
        )) && (args.parent is None ==> day_key_resolves(ctx.zone@, ctx.event_at@)) ==> r is Ok,
{
    let ghost old_archive = archive@;
    let text = clean_entry(args.text)?;
    let purpose = clean_purpose(args.purpose)?;
    let tags = clean_tags(args.tags)?;
    let parent = parse_optional_id(args.parent)?;
    let view = current_view(archive)?;
    let (day_id, parent_id, day_to_open) = parent_target(ctx, &view, parent)?;
    let ghost s0 = view.state();
    let opened: Option<ChronicleId> = match &day_to_open {
        Some(p) => Some(p.0),
        None => None,
    };
    let ghost open_pair = day_to_open;
    let mut events = day_prefix(ctx, day_to_open);
    let ghost pre = events_view(events@);
    let task_id = fresh_record_id(&view, opened);
    let task = ChronicleEvent::new(
        ctx.event_at,
        ctx.recorded_at,
        ctx.actor(),
        ctx.context(),
        EventKind::TaskRecorded {
            task_id,
            day_id,
            parent_id,
            text,
            purpose,
            tags,
            status: args.status,
        },
    );
    let ghost task_view = task@;
    events.push(task);
    assert(events_view(events@) =~= pre.push(task_view));
    proof {
        lemma_task_ready(old_archive, *ctx, parent, day_id, parent_id, open_pair, pre, task_view, task_id@);
    }
    let r = commit(archive, events, task_id);
    proof {
        if r is Ok {
            lemma_append_after(old_archive, pre, task_view);
        }
    }
    r
}


/// What a successful `objective add` did: it appended an objective for the
/// day of the event time (after opening that day when it was new).
pub open spec fn objective_added(
    ctx: OperationContext,
    args: ObjectiveAddArgs,
    old: ArchiveView,
    new: ArchiveView,
    rec: DerivedRecord,
) -> bool {
    let s0 = state_of(old);
    let added = new.events.last();
    &&& builds(old)
    &&& builds(new)
    &&& added.kind matches KindView::ObjectiveAdded { objective_id, day_id, text, tags }
    &&& made_by(added, ctx, added.kind)
    &&& objective_id == rec@.record_id
    &&& text == trimmed(args.text@)
    &&& cleaned_tags(tags, args.tags@)
    &&& rec@ == state_of(new).records[objective_id]
    &&& exists|k: DayKeyView| #[trigger] zone_day(ctx.zone@, ctx.event_at@, k) && match day_lookup(s0.days, k) {
        Some(d) => d == day_id && new == extended(old, seq![added]),
        None => new.events.len() == old.events.len() + 2 && new == extended(
            old,
            seq![new.events[old.events.len() as int], added],
        ) && made_by(
            new.events[old.events.len() as int],
            ctx,
            KindView::DayOpened { day_id, day_key: k },
        ),
    }
}

/// Adds an objective to the day of the event time.
#[verifier::rlimit(60)]
pub fn objective_add(ctx: &OperationContext, archive: &mut Archive, args: ObjectiveAddArgs) -> (r:
    Result<DerivedRecord, SillokError>)
    ensures
        r is Err ==> final(archive)@ == old(archive)@,
        r matches Ok(rec) ==> objective_added(*ctx, args, old(archive)@, final(archive)@, rec),
        violation(trimmed(args.text@), ENTRY_MAX_CHARS as nat) is Some ==> (r matches Err(e)
            && e.code == "invalid_text"),
        !tags_valid(args.tags@) ==> r is Err,
        violation(trimmed(args.text@), ENTRY_MAX_CHARS as nat) is None && tags_valid(args.tags@)
            && day_key_resolves(ctx.zone@, ctx.event_at@) && builds(old(archive)@) ==> r is Ok,
{
    let ghost old_archive = archive@;
    let text = clean_entry(args.text)?;
    let tags = clean_tags(args.tags)?;
    let day_key = ctx.zone.day_key(ctx.event_at)?;
    let ghost k = day_key@;
    let view = current_view(archive)?;
    let ghost s0 = view.state();
    let (day_id, day_to_open) = day_for_key(&view, day_key);
    let opened: Option<ChronicleId> = match &day_to_open {
        Some(p) => Some(p.0),
        None => None,
    };
    let ghost open_pair = day_to_open;
    let mut events = day_prefix(ctx, day_to_open);
    let ghost pre = events_view(events@);
    let objective_id = fresh_record_id(&view, opened);
    let added = ChronicleEvent::new(
        ctx.event_at,
        ctx.recorded_at,
        ctx.actor(),
        ctx.context(),
        EventKind::ObjectiveAdded { objective_id, day_id, text, tags },
    );
    let ghost added_view = added@;
    events.push(added);
    assert(events_view(events@) =~= pre.push(added_view));
    proof {
        lemma_objective_ready(old_archive, k, day_id, open_pair, pre, added_view, objective_id@);
    }
    let r = commit(archive, events, objective_id);
    proof {
        if r is Ok {
            lemma_append_after(old_archive, pre, added_view);
            assert(zone_day(ctx.zone@, ctx.event_at@, k));
        }
    }
    r
}

/// Text of the error for completing a record that is not an objective.
pub open spec fn not_objective_message(id: u128) -> Seq<char> {
    "record `"@ + id_text(id) + "` is not an objective"@
}

/// Marks an active objective completed, with an optional note.
#[verifier::rlimit(40)]
pub fn objective_complete(
    ctx: &OperationContext,
    archive: &mut Archive,
    args: ObjectiveCompleteArgs,
) -> (r: Result<DerivedRecord, SillokError>)
    ensures
        r is Err ==> final(archive)@ == old(archive)@,
        uuid_parse(args.id@) is None ==> (r matches Err(e) && e.code == "invalid_id"),
        uuid_parse(args.id@) is Some && purpose_ok(opt_view(args.note)) && builds(
            old(archive)@,
        ) ==> {
            let s0 = state_of(old(archive)@);
            let id = uuid_parse(args.id@)->Some_0;
            &&& !active_in(s0, id) ==> (r matches Err(e) && inactive_error(s0, id, e))
            &&& active_in(s0, id) && s0.records[id].kind != RecordKind::Objective ==> (r matches Err(
                e,
            ) && e.code == "invalid_record_kind" && e.message@ == not_objective_message(id))
        },
        r matches Ok(rec) ==> {
            let s0 = state_of(old(archive)@);
            let id = uuid_parse(args.id@)->Some_0;
            let done = final(archive)@.events.last();
            &&& builds(old(archive)@)
            &&& active_in(s0, id)
            &&& s0.records[id].kind == RecordKind::Objective
            &&& final(archive)@ == extended(old(archive)@, seq![done])
            &&& made_by(
                done,
                *ctx,
                KindView::ObjectiveCompleted { objective_id: id, note: opt_trimmed(opt_view(args.note)) },
            )
            &&& rec@ == state_of(final(archive)@).records[id]
        },
        uuid_parse(args.id@) is Some && !purpose_ok(opt_view(args.note)) ==> (r matches Err(e)
            && e.code == "invalid_purpose"),
        r is Ok ==> purpose_ok(opt_view(args.note)),
        uuid_parse(args.id@) is Some && purpose_ok(opt_view(args.note)) && builds(old(archive)@)
            && active_in(state_of(old(archive)@), uuid_parse(args.id@)->Some_0) && state_of(
            old(archive)@,
        ).records[uuid_parse(args.id@)->Some_0].kind == RecordKind::Objective ==> r is Ok,
{
    let ghost old_archive = archive@;
    let objective_id = ChronicleId::parse(args.id.as_str())?;
    let note = clean_purpose(args.note)?;
    let view = current_view(archive)?;
    let record = require_active_record(&view, objective_id)?;
    if record.kind != RecordKind::Objective {
        let mut message = String::from_str("record `");
        push_str(&mut message, objective_id.to_string().as_str());
        push_str(&mut message, "` is not an objective");
        proof {
            reveal_strlit("record `");
            reveal_strlit("` is not an objective");
        }
        return Err(SillokError::new("invalid_record_kind", message));
    }
    let mut events: Vec<ChronicleEvent> = Vec::new();
    events.push(
        ChronicleEvent::new(
            ctx.event_at,
            ctx.recorded_at,
            ctx.actor(),
            ctx.context(),
            EventKind::ObjectiveCompleted { objective_id, note },
        ),
    );
    proof {
        let ev = events_view(events@);
        assert(ev =~= seq![ev[0]]);
        lemma_update_builds(archive@, ev[0], objective_id@);
    }
    let r = commit(archive, events, objective_id);
    proof {
        if r is Ok {
            let ev = events_view(events@);
            assert(ev =~= seq![ev[0]]);
            assert(archive@.events.last() == ev[0]);
        }
    }
    r
}

/// The changes `amend` was given, cleaned; `None` for each field left alone
/// (an empty tag list leaves the tags alone).
pub open spec fn amend_inputs_ok(args: AmendArgs) -> bool {
    &&& args.text matches Some(t) ==> violation(trimmed(t@), ENTRY_MAX_CHARS as nat) is None
    &&& purpose_ok(opt_view(args.purpose))
    &&& tags_valid(args.tags@)
}

/// Cleans optional task text.
fn clean_optional_entry(raw: Option<String>) -> (r: Result<Option<String>, SillokError>)
    ensures
        raw is None ==> r matches Ok(None),
        raw matches Some(v) ==> match violation(trimmed(v@), ENTRY_MAX_CHARS as nat) {
            None => r matches Ok(Some(s)) && s@ == trimmed(v@),
            Some(_) => r matches Err(e) && e.code == "invalid_text",
        },
{
    match raw {
        Some(value) => Ok(Some(clean_entry(value)?)),
        None => Ok(None),
    }
}

/// The tag change of an amendment: `None` for no tags, else the cleaned tags.
fn tags_change(raw: Vec<String>) -> (r: Result<Option<Vec<String>>, SillokError>)
    ensures
        r is Ok <==> tags_valid(raw@),
        r matches Ok(o) ==> (o is None <==> raw@.len() == 0),
        r matches Ok(o) ==> (o matches Some(t) ==> cleaned_tags(strs_view(t@), raw@)),
        r matches Err(e) ==> e.code == "invalid_tag",
{
    let ghost raw_tags = raw@;
    let tags = clean_tags(raw)?;
    if tags.len() == 0 {
        proof {
            if raw_tags.len() > 0 {
                assert(tag_set(raw_tags).contains(crate::domain::text::clean_tag(raw_tags[0]@)));
                assert(strs_view(tags@).to_set().contains(crate::domain::text::clean_tag(raw_tags[0]@)));
            }
        }
        Ok(None)
    } else {
        proof {
            if raw_tags.len() == 0 {
                assert(strs_view(tags@).to_set().contains(strs_view(tags@)[0]));
            }
        }
        Ok(Some(tags))
    }
}

/// Amends the text, status, purpose or tags of an active record.
#[verifier::rlimit(60)]
pub fn amend(ctx: &OperationContext, archive: &mut Archive, args: AmendArgs) -> (r: Result<
    DerivedRecord,
    SillokError,
>)
    ensures
        r is Err ==> final(archive)@ == old(archive)@,
        uuid_parse(args.id@) is None ==> (r matches Err(e) && e.code == "invalid_id"),
        uuid_parse(args.id@) is Some && amend_inputs_ok(args) && args.text is None
            && args.status is None && args.purpose is None && args.tags@.len() == 0 ==> (r matches Err(
            e,
        ) && e.code == "empty_amendment"),
        r matches Ok(rec) ==> {
            let s0 = state_of(old(archive)@);
            let id = uuid_parse(args.id@)->Some_0;
            let change = final(archive)@.events.last();
            &&& builds(old(archive)@)
            &&& active_in(s0, id)
            &&& final(archive)@ == extended(old(archive)@, seq![change])
            &&& change.kind matches KindView::TaskAmended { record_id, text, status, purpose, tags }
            &&& made_by(change, *ctx, change.kind)
            &&& record_id == id
            &&& text == opt_trimmed(opt_view(args.text))
            &&& status == args.status
            &&& purpose == opt_trimmed(opt_view(args.purpose))
            &&& (args.tags@.len() == 0 <==> tags is None)
            &&& tags matches Some(t) ==> cleaned_tags(t, args.tags@)
            &&& rec@ == state_of(final(archive)@).records[id]
        },
        uuid_parse(args.id@) is Some && (args.text matches Some(t) && violation(
            trimmed(t@),
            ENTRY_MAX_CHARS as nat,
        ) is Some) ==> (r matches Err(e) && e.code == "invalid_text"),
        uuid_parse(args.id@) is Some && (args.text matches Some(t) ==> violation(
            trimmed(t@),
            ENTRY_MAX_CHARS as nat,
        ) is None) && !purpose_ok(opt_view(args.purpose)) ==> (r matches Err(e) && e.code
            == "invalid_purpose"),
        uuid_parse(args.id@) is Some && (args.text matches Some(t) ==> violation(
            trimmed(t@),
            ENTRY_MAX_CHARS as nat,
        ) is None) && purpose_ok(opt_view(args.purpose)) && !tags_valid(args.tags@) ==> (r matches Err(
            e,
        ) && e.code == "invalid_tag"),
        uuid_parse(args.id@) is Some && amend_inputs_ok(args) && !(args.text is None
            && args.status is None && args.purpose is None && args.tags@.len() == 0) && builds(
            old(archive)@,
        ) && !active_in(state_of(old(archive)@), uuid_parse(args.id@)->Some_0) ==> (r matches Err(
            e,
        ) && inactive_error(state_of(old(archive)@), uuid_parse(args.id@)->Some_0, e)),
        r is Ok ==> amend_inputs_ok(args) && !(args.text is None && args.status is None
            && args.purpose is None && args.tags@.len() == 0),
        uuid_parse(args.id@) is Some && amend_inputs_ok(args) && !(args.text is None
            && args.status is None && args.purpose is None && args.tags@.len() == 0) && builds(
            old(archive)@,
        ) && active_in(state_of(old(archive)@), uuid_parse(args.id@)->Some_0) ==> r is Ok,
{
    let record_id = ChronicleId::parse(args.id.as_str())?;
    let text = clean_optional_entry(args.text)?;
    let purpose = clean_purpose(args.purpose)?;
    let tags_update = tags_change(args.tags)?;
    if text.is_none() && args.status.is_none() && purpose.is_none() && tags_update.is_none() {
        return Err(
            SillokError::new(
                "empty_amendment",
                String::from_str("amend requires at least one changed field"),
            ),
        );
    }
    let view = current_view(archive)?;
    require_active_record(&view, record_id)?;
    let mut events: Vec<ChronicleEvent> = Vec::new();
    events.push(
        ChronicleEvent::new(
            ctx.event_at,
            ctx.recorded_at,
            ctx.actor(),
            ctx.context(),
            EventKind::TaskAmended { record_id, text, status: args.status, purpose, tags: tags_update },
        ),
    );
    proof {
        let ev = events_view(events@);
        assert(ev =~= seq![ev[0]]);
        lemma_update_builds(archive@, ev[0], record_id@);
    }
    let r = commit(archive, events, record_id);
    proof {
        if r is Ok {
            let ev = events_view(events@);
            assert(ev =~= seq![ev[0]]);
            assert(archive@.events.last() == ev[0]);
        }
    }
    r
}

/// Retracts an active record that is not a day.
#[verifier::rlimit(40)]
pub fn retract(ctx: &OperationContext, archive: &mut Archive, args: RetractArgs) -> (r: Result<
    DerivedRecord,
    SillokError,
>)
    ensures
        r is Err ==> final(archive)@ == old(archive)@,
        uuid_parse(args.id@) is None ==> (r matches Err(e) && e.code == "invalid_id"),
        uuid_parse(args.id@) is Some && violation(trimmed(args.reason@), REASON_MAX_CHARS as nat)
            is None && builds(old(archive)@) ==> {
            let s0 = state_of(old(archive)@);
            let id = uuid_parse(args.id@)->Some_0;
            &&& !active_in(s0, id) ==> (r matches Err(e) && inactive_error(s0, id, e))
            &&& active_in(s0, id) && s0.records[id].kind == RecordKind::Day ==> (r matches Err(e)
                && e.code == "invalid_operation")
        },
        r matches Ok(rec) ==> {
            let s0 = state_of(old(archive)@);
            let id = uuid_parse(args.id@)->Some_0;
            let change = final(archive)@.events.last();
            &&& builds(old(archive)@)
            &&& active_in(s0, id)
            &&& s0.records[id].kind != RecordKind::Day
            &&& final(archive)@ == extended(old(archive)@, seq![change])
            &&& made_by(
                change,
                *ctx,
                KindView::TaskRetracted { record_id: id, reason: trimmed(args.reason@) },
            )
            &&& rec@ == state_of(final(archive)@).records[id]
        },
        uuid_parse(args.id@) is Some && violation(trimmed(args.reason@), REASON_MAX_CHARS as nat)
            is Some ==> (r matches Err(e) && e.code == "invalid_reason"),
        r is Ok ==> violation(trimmed(args.reason@), REASON_MAX_CHARS as nat) is None,
        uuid_parse(args.id@) is Some && violation(trimmed(args.reason@), REASON_MAX_CHARS as nat)
            is None && builds(old(archive)@) && active_in(
            state_of(old(archive)@),
            uuid_parse(args.id@)->Some_0,
        ) && state_of(old(archive)@).records[uuid_parse(args.id@)->Some_0].kind != RecordKind::Day
            ==> r is Ok,
{
    let record_id = ChronicleId::parse(args.id.as_str())?;
    let reason = clean_reason(args.reason)?;
    let view = current_view(archive)?;
    let record = require_active_record(&view, record_id)?;
    if record.kind == RecordKind::Day {
        return Err(
            SillokError::new(
                "invalid_operation",
                String::from_str("day records cannot be retracted; use truncate for a full reset"),
            ),
        );
    }
    let mut events: Vec<ChronicleEvent> = Vec::new();
    events.push(
        ChronicleEvent::new(
            ctx.event_at,
            ctx.recorded_at,
            ctx.actor(),
            ctx.context(),
            EventKind::TaskRetracted { record_id, reason },
        ),
    );
    proof {
        let ev = events_view(events@);
        assert(ev =~= seq![ev[0]]);
        lemma_update_builds(archive@, ev[0], record_id@);
    }
    let r = commit(archive, events, record_id);
    proof {
        if r is Ok {
            let ev = events_view(events@);
            assert(ev =~= seq![ev[0]]);
            assert(archive@.events.last() == ev[0]);
        }
    }
    r
}


proof fn lemma_replay_one_more(old: ArchiveView, e: EventView)
    ensures
        replay(empty_state(), extended(old, seq![e]).events) == match replay(empty_state(), old.events) {
            Ok(s0) => step(s0, e),
            Err(id) => Err(id),
        },
{
    let evs = extended(old, seq![e]).events;
    assert(evs.drop_last() =~= old.events);
    assert(evs.last() == e);
}

/// Amending changes only what it was given: the amended record takes each
/// given value, keeps every other field, and is marked updated at the
/// amendment's recording time; every other record stays as it was.
pub proof fn lemma_amend_effect(old: ArchiveView, change: EventView)
    requires
        builds(extended(old, seq![change])),
        change.kind is TaskAmended,
    ensures
        replay(empty_state(), old.events) matches Ok(s0) && ({
            let new = state_of(extended(old, seq![change]));
            let id = canonical(s0, change.kind->TaskAmended_record_id);
            let r0 = s0.records[id];
            &&& s0.records.contains_key(id)
            &&& new.records[id] == (RecordView {
                text: amended(r0.text, change.kind->TaskAmended_text),
                status: amended(r0.status, change.kind->TaskAmended_status),
                purpose: if change.kind->TaskAmended_purpose is Some {
                    change.kind->TaskAmended_purpose
                } else {
                    r0.purpose
                },
                tags: amended(r0.tags, change.kind->TaskAmended_tags),
                updated_at: change.recorded_at,
                ..r0
            })
            &&& forall|x: u128| x != id ==> #[trigger] new.records.contains_key(x) == s0.records.contains_key(x)
            &&& forall|x: u128| x != id && s0.records.contains_key(x) ==> #[trigger] new.records[x] == s0.records[x]
        }),
{
    lemma_replay_one_more(old, change);
}


/// Completing an objective marks it completed at the completion's recording
/// time and stores the completion note, when there is one, as its purpose;
/// every other record stays as it was.
pub proof fn lemma_complete_effect(old: ArchiveView, done: EventView)
    requires
        builds(extended(old, seq![done])),
        done.kind is ObjectiveCompleted,
    ensures
        replay(empty_state(), old.events) matches Ok(s0) && ({
            let new = state_of(extended(old, seq![done]));
            let id = canonical(s0, done.kind->ObjectiveCompleted_objective_id);
            let note = done.kind->ObjectiveCompleted_note;
            &&& s0.records.contains_key(id)
            &&& new.records[id] == (RecordView {
                status: RecordStatus::Completed,
                updated_at: done.recorded_at,
                purpose: if note is Some {
                    note
                } else {
                    s0.records[id].purpose
                },
                ..s0.records[id]
            })
            &&& forall|x: u128| x != id ==> #[trigger] new.records.contains_key(x) == s0.records.contains_key(x)
            &&& forall|x: u128| x != id && s0.records.contains_key(x) ==> #[trigger] new.records[x] == s0.records[x]
        }),
{
    lemma_replay_one_more(old, done);
}

/// A retraction hides the record: it is marked retracted with its reason,
/// drops out of the visible records and of every query, and every other
/// record stays as it was.
pub proof fn lemma_retract_effect(old: ArchiveView, change: EventView)
    requires
        builds(extended(old, seq![change])),
        change.kind is TaskRetracted,
    ensures
        replay(empty_state(), old.events) matches Ok(s0) && ({
            let new = state_of(extended(old, seq![change]));
            let id = canonical(s0, change.kind->TaskRetracted_record_id);
            &&& s0.records.contains_key(id)
            &&& new.records[id] == (RecordView {
                status: RecordStatus::Retracted,
                retraction_reason: Some(change.kind->TaskRetracted_reason),
                updated_at: change.recorded_at,
                ..s0.records[id]
            })
            &&& !is_visible(new)(id)
            &&& forall|q: QueryView| !#[trigger] record_matches(new.records[id], q)
            &&& forall|x: u128| x != id ==> #[trigger] new.records.contains_key(x) == s0.records.contains_key(x)
            &&& forall|x: u128| x != id && s0.records.contains_key(x) ==> #[trigger] new.records[x] == s0.records[x]
        }),
{
    lemma_replay_one_more(old, change);
}

/// Refuses a truncate that was not explicitly confirmed with `--yes`.
pub fn confirm_truncate(yes: bool) -> (r: Result<(), SillokError>)
    ensures
        r is Ok <==> yes,
        r matches Err(e) ==> e.code == "confirmation_required" && e.message@
            == "truncate requires --yes"@,
{
    if yes {
        Ok(())
    } else {
        Err(SillokError::new("confirmation_required", crate::text::owned("truncate requires --yes")))
    }
}

/// The task `note` returns is created at the command's event time (the
/// `--at` time, not the time it was recorded) and updated at the recording
/// time, and carries the trimmed text and purpose, the given status and the
/// cleaned tags.
pub proof fn lemma_note_record(
    ctx: OperationContext,
    args: NoteArgs,
    old: ArchiveView,
    new: ArchiveView,
    rec: DerivedRecord,
)
    requires
        note_done(ctx, args, old, new, rec),
    ensures
        rec@.kind == RecordKind::Task,
        rec@.created_at == ctx.event_at@,
        rec@.updated_at == ctx.recorded_at@,
        rec@.text == trimmed(args.text@),
        rec@.purpose == opt_trimmed(opt_view(args.purpose)),
        rec@.status == args.status,
        cleaned_tags(rec@.tags, args.tags@),
        rec@.retraction_reason is None,
{
    lemma_replay_last(new.events);
    lemma_task_recorded_record(replay(empty_state(), new.events.drop_last())->Ok_0, new.events.last());
}

/// The objective `objective add` returns is an open objective created at the
/// command's event time, with the trimmed text and the cleaned tags.
pub proof fn lemma_objective_record(
    ctx: OperationContext,
    args: ObjectiveAddArgs,
    old: ArchiveView,
    new: ArchiveView,
    rec: DerivedRecord,
)
    requires
        objective_added(ctx, args, old, new, rec),
    ensures
        rec@.kind == RecordKind::Objective,
        rec@.status == RecordStatus::Open,
        rec@.created_at == ctx.event_at@,
        rec@.updated_at == ctx.recorded_at@,
        rec@.text == trimmed(args.text@),
        cleaned_tags(rec@.tags, args.tags@),
        rec@.purpose is None,
{
    lemma_replay_last(new.events);
    lemma_objective_added_record(replay(empty_state(), new.events.drop_last())->Ok_0, new.events.last());
}

} // verus!
