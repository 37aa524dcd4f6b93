use vstd::prelude::*;

use crate::domain::event::{ChronicleEvent, EventKind, KindView, RecordStatus};
use crate::domain::id::{id_text, uuid_parse, uuid_text_length, ChronicleId};
use crate::domain::reducer::{missing_message, missing_record};
use crate::domain::time::{date_text, millis_representable, zone_civil_date, DayKey, DayKeyView, ZoneView};
use crate::domain::view::{day_lookup, opt_id_view, ChronicleState, ChronicleView, DerivedRecord};
use crate::error::SillokError;
use crate::operation::OperationContext;
use crate::text::push_str;

verus! {

/// Parses an optional UUID argument.
pub fn parse_optional_id(raw: Option<String>) -> (r: Result<Option<ChronicleId>, SillokError>)
    ensures
        raw is None ==> r matches Ok(None),
        raw matches Some(v) ==> {
            &&& r is Ok <==> uuid_parse(v@) is Some
            &&& r matches Ok(o) ==> o matches Some(id) && uuid_parse(v@) == Some(id@)
            &&& r matches Err(e) ==> e.code == "invalid_id"
            &&& !uuid_text_length(v@.len()) ==> r is Err
            &&& forall|x: u128| v@ == #[trigger] id_text(x) ==> (r matches Ok(Some(id)) && id@ == x)
        },
{
    match raw {
        Some(value) => match ChronicleId::parse(value.as_str()) {
            Ok(id) => Ok(Some(id)),
            Err(error) => Err(error),
        },
        None => Ok(None),
    }
}

/// Text of the error for a retracted record.
pub open spec fn retracted_message(id: u128) -> Seq<char> {
    "record `"@ + id_text(id) + "` has been retracted"@
}

/// The record exists and is not retracted.
pub open spec fn active_in(s: ChronicleState, id: u128) -> bool {
    s.records.contains_key(id) && s.records[id].status != RecordStatus::Retracted
}

/// The error for a record that is missing or retracted.
pub open spec fn inactive_error(s: ChronicleState, id: u128, e: SillokError) -> bool {
    if !s.records.contains_key(id) {
        e.code == "record_not_found" && e.message@ == missing_message(id)
    } else {
        e.code == "record_retracted" && e.message@ == retracted_message(id)
    }
}

/// Requires an existing record and copies it for output.
pub fn require_output_record(view: &ChronicleView<'_>, record_id: ChronicleId) -> (r: Result<
    DerivedRecord,
    SillokError,
>)
    requires
        view.wf(),
    ensures
        r is Ok <==> view.state().records.contains_key(record_id@),
        r matches Ok(rec) ==> rec@ == view.state().records[record_id@],
        r matches Err(e) ==> e.code == "record_not_found" && e.message@ == missing_message(
            record_id@,
        ),
{
    match view.record(&record_id) {
        Some(record) => Ok(record.copy()),
        None => Err(missing_record(record_id)),
    }
}

/// Requires an existing non-retracted record.
pub fn require_active_record(view: &ChronicleView<'_>, record_id: ChronicleId) -> (r: Result<
    DerivedRecord,
    SillokError,
>)
    requires
        view.wf(),
    ensures
        r is Ok <==> active_in(view.state(), record_id@),
        r matches Ok(rec) ==> rec@ == view.state().records[record_id@],
        r matches Err(e) ==> inactive_error(view.state(), record_id@, e),
{
    let record = require_output_record(view, record_id)?;
    if record.status == RecordStatus::Retracted {
        let mut message = String::from_str("record `");
        push_str(&mut message, record_id.to_string().as_str());
        push_str(&mut message, "` has been retracted");
        proof {
            reveal_strlit("record `");
            reveal_strlit("` has been retracted");
        }
        Err(SillokError::new("record_retracted", message))
    } else {
        Ok(record)
    }
}

/// How a new entry lands on the day with key `key`: the day's existing id, or
/// a fresh id with the day to open.
pub open spec fn day_choice(
    s: ChronicleState,
    key: DayKeyView,
    r: (ChronicleId, Option<(ChronicleId, DayKey)>),
) -> bool {
    match day_lookup(s.days, key) {
        Some(d) => r.0@ == d && r.1 is None,
        None => r.1 matches Some(p) && p.0 == r.0 && p.1@ == key && !s.records.contains_key(r.0@),
    }
}

/// The ids below `k`.
pub open spec fn ids_below(k: u128) -> Set<u128> {
    Set::new(|j: u128| j < k)
}

proof fn lemma_ids_below(k: u128)
    ensures
        ids_below(k).finite(),
        ids_below(k).len() == k,
    decreases k,
{
    if k == 0 {
        assert(ids_below(0) =~= Set::<u128>::empty());
    } else {
        lemma_ids_below((k - 1) as u128);
        assert(ids_below(k) =~= ids_below((k - 1) as u128).insert((k - 1) as u128));
    }
}

/// Among `n + 2` small ids, some id is neither in a finite set of `n` ids nor
/// the one excluded id.
proof fn lemma_room_left(used: Set<u128>, avoid: u128, k: u128)
    requires
        used.finite(),
        k == used.len() + 2,
    ensures
        exists|j: u128| j < k && !#[trigger] used.contains(j) && j != avoid,
{
    lemma_ids_below(k);
    let cover = used.insert(avoid);
    if !(exists|j: u128| j < k && !#[trigger] used.contains(j) && j != avoid) {
        assert(ids_below(k).subset_of(cover));
        vstd::set_lib::lemma_len_subset(ids_below(k), cover);
    }
}

/// An id that names no record of the view and differs from `avoid`: a fresh
/// version-7 id, or, when that one is taken, the least free small id.
pub fn fresh_record_id(view: &ChronicleView<'_>, avoid: Option<ChronicleId>) -> (id: ChronicleId)
    requires
        view.wf(),
    ensures
        !view.state().records.contains_key(id@),
        avoid matches Some(a) ==> id@ != a@,
{
    let avoided: u128 = match avoid {
        Some(a) => a.as_u128(),
        None => 0,
    };
    let has_avoid = avoid.is_some();
    let drawn = ChronicleId::new_v7();
    if view.position(drawn).is_none() && !(has_avoid && drawn.as_u128() == avoided) {
        return drawn;
    }
    let ghost used = view.state().records.dom();
    proof {
        assert(used =~= view.positions@.dom());
    }
    let n = view.records.len();
    let limit: u128 = n as u128 + 2;
    let mut c: u128 = 0;
    while c < limit
        invariant
            view.wf(),
            used == view.state().records.dom(),
            used.finite(),
            used.len() == n,
            limit == n + 2,
            c <= limit,
            avoided == (match avoid {
                Some(a) => a@,
                None => 0,
            }),
            has_avoid == avoid is Some,
            forall|j: u128| j < c ==> #[trigger] used.contains(j) || (has_avoid && j == avoided),
        decreases limit - c,
    {
        let candidate = ChronicleId::from_u128(c);
        if view.position(candidate).is_none() && !(has_avoid && c == avoided) {
            return candidate;
        }
        c = c + 1;
    }
    proof {
        lemma_room_left(used, avoided, limit);
        let j = choose|j: u128| j < limit && !#[trigger] used.contains(j) && j != avoided;
        assert(used.contains(j) || (has_avoid && j == avoided));
    }
    drawn
}

/// Finds or allocates a day id for a day key.
pub fn day_for_key(view: &ChronicleView<'_>, day_key: DayKey) -> (r: (
    ChronicleId,
    Option<(ChronicleId, DayKey)>,
))
    requires
        view.wf(),
    ensures
        day_choice(view.state(), day_key@, r),
{
    match view.day_id(&day_key) {
        Some(day_id) => (day_id, None),
        None => {
            let day_id = fresh_record_id(view, None);
            (day_id, Some((day_id, day_key)))
        },
    }
}

/// The context fields of `e` are those of `ctx`.
pub open spec fn stamped_by(e: ChronicleEvent, ctx: OperationContext) -> bool {
    &&& e.event_at == ctx.event_at
    &&& e.recorded_at == ctx.recorded_at
    &&& e.actor@ == ctx.actor@
    &&& e.context@ == ctx.work_context@
}

/// Builds a `DayOpened` event.
pub fn day_opened_event(ctx: &OperationContext, day_id: ChronicleId, day_key: DayKey) -> (e:
    ChronicleEvent)
    ensures
        stamped_by(e, *ctx),
        e.kind@ == (KindView::DayOpened { day_id: day_id@, day_key: day_key@ }),
{
    ChronicleEvent::new(
        ctx.event_at,
        ctx.recorded_at,
        ctx.actor(),
        ctx.context(),
        EventKind::DayOpened { day_id, day_key },
    )
}

/// `k` is the day key of time `ts` in zone `z`: in a named zone, that zone's
/// civil date; in the local zone, a key labelled `local`.
pub open spec fn zone_day(z: ZoneView, ts: i64, k: DayKeyView) -> bool {
    match z {
        ZoneView::Named(name) => zone_civil_date(name, ts) matches Some(d) && k == (DayKeyView {
            date: date_text(d),
            timezone: name,
        }),
        ZoneView::Local => k.timezone == "local"@,
    }
}

/// The zone is known to give a day for the instant `ts`: a named zone whose
/// date chrono computes for it. Whether the machine's local zone does
/// depends on the environment, so it is never known here.
pub open spec fn day_key_resolves(z: ZoneView, ts: i64) -> bool {
    match z {
        ZoneView::Local => false,
        ZoneView::Named(name) => millis_representable(ts) && zone_civil_date(name, ts) is Some,
    }
}

/// Resolves the target day and parent for a new task: under a parent, the
/// parent's day; else the day of the event time, opening it when new.
pub fn parent_target(
    ctx: &OperationContext,
    view: &ChronicleView<'_>,
    parent: Option<ChronicleId>,
) -> (r: Result<(ChronicleId, ChronicleId, Option<(ChronicleId, DayKey)>), SillokError>)
    requires
        view.wf(),
    ensures
        parent matches Some(p) ==> {
            &&& r is Ok <==> active_in(view.state(), p@)
            &&& r matches Ok(t) ==> t.0@ == view.state().records[p@].day_id && t.1 == p
                && t.2 is None
            &&& r matches Err(e) ==> inactive_error(view.state(), p@, e)
        },
        parent is None ==> {
            &&& r matches Ok(t) ==> t.1 == t.0 && exists|k: DayKeyView|
                zone_day(ctx.zone@, ctx.event_at@, k) && #[trigger] day_choice(
                    view.state(),
                    k,
                    (t.0, t.2),
                )
            &&& day_key_resolves(ctx.zone@, ctx.event_at@) ==> r is Ok
            &&& ctx.zone@ is Named ==> (r is Ok ==> day_key_resolves(ctx.zone@, ctx.event_at@))
            &&& r matches Err(e) ==> e.code == "invalid_timestamp"
        },
{
    match parent {
        Some(parent_id) => match require_active_record(view, parent_id) {
            Ok(parent_record) => Ok((parent_record.day_id, parent_id, None)),
            Err(error) => Err(error),
        },
        None => match ctx.zone.day_key(ctx.event_at) {
            Ok(day_key) => {
                let ghost k = day_key@;
                let (day_id, day_to_open) = day_for_key(view, day_key);
                assert(day_choice(view.state(), k, (day_id, day_to_open)));
                Ok((day_id, day_id, day_to_open))
            },
            Err(error) => Err(error),
        },
    }
}

} // verus!
