use vstd::prelude::*;

use crate::domain::event::RecordKind;
use crate::domain::time::{
    reading_admits, reading_instant, reading_known, rfc3339_parse, timestamp_text, Timestamp,
    ZoneChoice,
};
use crate::domain::view::{records_view, DerivedRecord, RecordView};
use crate::error::SillokError;
use crate::storage::handle::{legacy_path, StoreHandle};
use crate::text::{lowercase, owned, push_str, to_lowercase, trim, trimmed};

verus! {

/// Refuses reads from a legacy archive path.
pub fn reject_legacy_read(store: &StoreHandle, command: &'static str) -> (r: Result<(), SillokError>)
    ensures
        r is Ok <==> !legacy_path(store.path_view()),
        r matches Err(e) ==> e.code == "migration_required" && e.message@ == "`"@ + command@
            + "` requires a v2 store; run `sillok migrate` for legacy archives"@,
{
    if store.is_legacy_path() {
        let mut message = owned("`");
        push_str(&mut message, command);
        push_str(&mut message, "` requires a v2 store; run `sillok migrate` for legacy archives");
        proof {
            reveal_strlit("`");
            reveal_strlit("` requires a v2 store; run `sillok migrate` for legacy archives");
        }
        Err(SillokError::new("migration_required", message))
    } else {
        Ok(())
    }
}

/// The bounds of an export: none, or both parsed in `zone` and in order.
/// Giving only one of the two is refused.
pub fn export_range(zone: &ZoneChoice, from: Option<&str>, to: Option<&str>) -> (r: Result<
    Option<(Timestamp, Timestamp)>,
    SillokError,
>)
    ensures
        from is None && to is None ==> r matches Ok(None),
        from is None != to is None ==> (r matches Err(e) && e.code == "invalid_range" && e.message@
            == "export json requires both --from and --to or neither"@),
        r matches Ok(Some(p)) ==> from is Some && to is Some && p.0@ <= p.1@,
        from is Some && to is Some && rfc3339_parse(from->Some_0@) is Some && rfc3339_parse(
            to->Some_0@,
        ) is Some ==> {
            let a = rfc3339_parse(from->Some_0@)->Some_0;
            let b = rfc3339_parse(to->Some_0@)->Some_0;
            &&& a <= b ==> (r matches Ok(Some(p)) && p.0@ == a && p.1@ == b)
            &&& a > b ==> (r matches Err(e) && e.code == "invalid_range")
        },
        r matches Ok(Some(p)) ==> reading_admits(zone@, from->Some_0@, p.0@) && reading_admits(
            zone@,
            to->Some_0@,
            p.1@,
        ),
        from is Some && to is Some && reading_known(zone@, from->Some_0@) && reading_known(
            zone@,
            to->Some_0@,
        ) ==> (r is Ok <==> reading_instant(zone@, from->Some_0@) is Some && reading_instant(
            zone@,
            to->Some_0@,
        ) is Some && reading_instant(zone@, from->Some_0@)->Some_0 <= reading_instant(
            zone@,
            to->Some_0@,
        )->Some_0),
        r matches Err(e) ==> e.code == "invalid_range" || e.code == "invalid_timestamp" || e.code
            == "ambiguous_timestamp",
{
    match (from, to) {
        (Some(from), Some(to)) => {
            let from = zone.parse_timestamp(from)?;
            let to = zone.parse_timestamp(to)?;
            ensure_range(from, to)?;
            Ok(Some((from, to)))
        },
        (None, None) => Ok(None),
        _ => Err(
            SillokError::new(
                "invalid_range",
                owned("export json requires both --from and --to or neither"),
            ),
        ),
    }
}

/// Checks that a query range is not inverted.
pub fn ensure_range(from: Timestamp, to: Timestamp) -> (r: Result<(), SillokError>)
    ensures
        r is Ok <==> from@ <= to@,
        r matches Err(e) ==> e.code == "invalid_range" && e.message@ == "from `"@ + timestamp_text(
            from@,
        ) + "` is after to `"@ + timestamp_text(to@) + "`"@,
{
    if from.as_millis() <= to.as_millis() {
        Ok(())
    } else {
        let mut message = owned("from `");
        push_str(&mut message, from.to_rfc3339().as_str());
        push_str(&mut message, "` is after to `");
        push_str(&mut message, to.to_rfc3339().as_str());
        push_str(&mut message, "`");
        proof {
            reveal_strlit("from `");
            reveal_strlit("` is after to `");
            reveal_strlit("`");
        }
        Err(SillokError::new("invalid_range", message))
    }
}

/// A tag filter, trimmed and lowercased; `None` when nothing is left.
pub fn normalize_optional_tag(value: Option<String>) -> (r: Option<String>)
    ensures
        value is None ==> r is None,
        value matches Some(raw) ==> if lowercase(trimmed(raw@)).len() == 0 {
            r is None
        } else {
            r matches Some(t) && t@ == lowercase(trimmed(raw@))
        },
{
    match value {
        Some(raw) => {
            let t = trim(raw.as_str());
            let lowered = to_lowercase(t.as_str());
            if lowered.unicode_len() == 0 {
                None
            } else {
                Some(lowered)
            }
        },
        None => None,
    }
}

/// The title of a query listing.
pub fn query_title(from: Timestamp, to: Timestamp) -> (s: String)
    ensures
        s@ == "Query "@ + timestamp_text(from@) + " to "@ + timestamp_text(to@),
{
    let mut s = owned("Query ");
    push_str(&mut s, from.to_rfc3339().as_str());
    push_str(&mut s, " to ");
    push_str(&mut s, to.to_rfc3339().as_str());
    proof {
        reveal_strlit("Query ");
        reveal_strlit(" to ");
    }
    s
}

/// Whether a record is an objective.
pub open spec fn is_objective() -> spec_fn(RecordView) -> bool {
    |r: RecordView| r.kind == RecordKind::Objective
}

/// The objectives among a day's records, in order.
pub fn objectives_of(records: &Vec<DerivedRecord>) -> (r: Vec<DerivedRecord>)
    ensures
        records_view(r@) == records_view(records@).filter(is_objective()),
{
    let ghost rs = records_view(records@);
    let mut out: Vec<DerivedRecord> = Vec::new();
    let mut i: usize = 0;
    assert(rs.take(0).filter(is_objective()) =~= Seq::<RecordView>::empty());
    while i < records.len()
        invariant
            i <= records.len(),
            rs == records_view(records@),
            records_view(out@) == rs.take(i as int).filter(is_objective()),
        decreases records.len() - i,
    {
        proof {
            crate::domain::indexes::lemma_filter_take_step(rs, i as int, is_objective());
        }
        if records[i].kind == RecordKind::Objective {
            let ghost before = out@;
            out.push(records[i].copy());
            assert(records_view(out@) =~= records_view(before).push(rs[i as int]));
        }
        i = i + 1;
    }
    assert(rs.take(rs.len() as int) =~= rs);
    out
}

} // verus!
