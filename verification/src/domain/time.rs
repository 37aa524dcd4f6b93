use vstd::prelude::*;

use chrono::Datelike;
use chrono::Offset;
use chrono::TimeZone;

use crate::error::SillokError;
use crate::text::{decimal, owned, push_char, push_decimal, push_signed_decimal, push_str, signed_decimal};

verus! {

/// Whether chrono can represent `ms` milliseconds since the epoch as a UTC
/// instant (`DateTime::<Utc>::from_timestamp_millis` returns `Some`).
pub uninterp spec fn millis_representable(ms: i64) -> bool;

/// The RFC3339 text chrono renders for a representable UTC instant
/// (`DateTime::<Utc>::to_rfc3339`).
pub uninterp spec fn rfc3339_text(ms: i64) -> Seq<char>;

/// The UTC milliseconds of an RFC3339 text, when chrono accepts it
/// (`DateTime::parse_from_rfc3339`).
pub uninterp spec fn rfc3339_parse(s: Seq<char>) -> Option<i64>;

/// A naive wall-clock reading parsed with a chrono format string, as the
/// milliseconds it would have if read in UTC (`NaiveDateTime::parse_from_str`).
pub uninterp spec fn naive_parse(s: Seq<char>, fmt: Seq<char>) -> Option<i64>;

/// The canonical IANA name of a timezone name that chrono-tz knows
/// (`chrono_tz::Tz::from_str`).
pub uninterp spec fn zone_lookup(s: Seq<char>) -> Option<Seq<char>>;

/// The civil date (year, month, day) of a UTC instant in a named IANA zone;
/// `None` when the zone is unknown, the instant is not representable, or its
/// local reading falls outside chrono's date range.
pub uninterp spec fn zone_civil_date(zone: Seq<char>, ms: i64) -> Option<(i32, u32, u32)>;

/// How a naive wall-clock reading maps to UTC in a named zone
/// (`TimeZone::from_local_datetime`): tag 0 with the instant when it is
/// unique, tag 1 when it is ambiguous, tag 2 when it does not exist.
pub uninterp spec fn zone_resolve(zone: Seq<char>, naive_ms: i64) -> (u8, i64);

/// The civil date of a `YYYY-MM-DD` text, when chrono accepts it
/// (`NaiveDate::parse_from_str`).
pub uninterp spec fn date_parse(s: Seq<char>) -> Option<(i32, u32, u32)>;

/// Checks that `ms` is a representable UTC instant.
#[verifier::external_body]
fn utc_representable(ms: i64) -> (b: bool)
    ensures
        b == millis_representable(ms),
{
    chrono::DateTime::<chrono::Utc>::from_timestamp_millis(ms).is_some()
}

/// Renders a UTC instant as RFC3339.
#[verifier::external_body]
fn utc_rfc3339(ms: i64) -> (r: Option<String>)
    ensures
        r.is_some() == millis_representable(ms),
        r matches Some(s) ==> s@ == rfc3339_text(ms),
{
    chrono::DateTime::<chrono::Utc>::from_timestamp_millis(ms).map(|value| value.to_rfc3339())
}

/// Parses RFC3339 text into UTC milliseconds.
#[verifier::external_body]
fn parse_rfc3339_millis(raw: &str) -> (r: Option<i64>)
    ensures
        r == rfc3339_parse(raw@),
{
    match chrono::DateTime::parse_from_rfc3339(raw) {
        Ok(value) => Some(value.with_timezone(&chrono::Utc).timestamp_millis()),
        Err(_) => None,
    }
}

/// Parses a naive wall-clock reading; on failure returns chrono's message.
#[verifier::external_body]
fn parse_naive_millis(raw: &str, fmt: &str) -> (r: Result<i64, String>)
    ensures
        r.is_ok() == naive_parse(raw@, fmt@).is_some(),
        r matches Ok(v) ==> naive_parse(raw@, fmt@) == Some(v),
{
    match chrono::NaiveDateTime::parse_from_str(raw, fmt) {
        Ok(value) => Ok(value.and_utc().timestamp_millis()),
        Err(error) => Err(error.to_string()),
    }
}

/// Looks up an IANA timezone name; on failure returns chrono-tz's message.
#[verifier::external_body]
fn lookup_zone(raw: &str) -> (r: Result<String, String>)
    ensures
        r.is_ok() == zone_lookup(raw@).is_some(),
        r matches Ok(name) ==> zone_lookup(raw@) == Some(name@),
{
    match <chrono_tz::Tz as std::str::FromStr>::from_str(raw) {
        Ok(tz) => Ok(tz.name().to_string()),
        Err(error) => Err(error.to_string()),
    }
}

/// The civil date of an instant in a named zone: chrono-tz's offset for the
/// instant (`TimeZone::offset_from_utc_datetime`) added to the UTC reading
/// with `NaiveDateTime::checked_add_offset`, which gives `None` instead of
/// panicking when the local reading leaves chrono's range.
#[verifier::external_body]
fn civil_date_in_zone(zone: &str, ms: i64) -> (r: Option<(i32, u32, u32)>)
    ensures
        r == zone_civil_date(zone@, ms),
{
    let tz = <chrono_tz::Tz as std::str::FromStr>::from_str(zone).ok()?;
    let utc = chrono::DateTime::<chrono::Utc>::from_timestamp_millis(ms)?.naive_utc();
    let offset = tz.offset_from_utc_datetime(&utc).fix();
    let local = utc.checked_add_offset(offset)?;
    Some((local.year(), local.month(), local.day()))
}

/// The civil date of an instant in the machine's local zone, computed as in
/// `civil_date_in_zone` with `chrono::Local`. The local zone comes from the
/// environment, so nothing is said of the date itself, nor of whether the
/// local reading stays in chrono's range; a date comes back only for a
/// representable instant.
#[verifier::external_body]
fn civil_date_local(ms: i64) -> (r: Option<(i32, u32, u32)>)
    ensures
        r is Some ==> millis_representable(ms),
{
    let utc = chrono::DateTime::<chrono::Utc>::from_timestamp_millis(ms)?.naive_utc();
    let offset = chrono::Local.offset_from_utc_datetime(&utc).fix();
    let local = utc.checked_add_offset(offset)?;
    Some((local.year(), local.month(), local.day()))
}

/// Maps a naive reading to UTC in a named zone.
#[verifier::external_body]
fn resolve_in_zone(zone: &str, naive_ms: i64) -> (r: (u8, i64))
    ensures
        r == zone_resolve(zone@, naive_ms),
{
    let tz = match <chrono_tz::Tz as std::str::FromStr>::from_str(zone) {
        Ok(value) => value,
        Err(_) => return (2, 0),
    };
    let naive = match chrono::DateTime::<chrono::Utc>::from_timestamp_millis(naive_ms) {
        Some(value) => value.naive_utc(),
        None => return (2, 0),
    };
    match tz.from_local_datetime(&naive) {
        chrono::LocalResult::Single(value) => (0, value.with_timezone(&chrono::Utc).timestamp_millis()),
        chrono::LocalResult::Ambiguous(_, _) => (1, 0),
        chrono::LocalResult::None => (2, 0),
    }
}

/// Maps a naive reading to UTC in the machine's local zone
/// (`TimeZone::from_local_datetime` on `chrono::Local`). The local zone comes
/// from the environment, so which outcome comes back is not said; a unique
/// instant lies less than a day from the naive reading, since chrono's UTC
/// offsets are below one day.
#[verifier::external_body]
fn resolve_local(naive_ms: i64) -> (r: (u8, i64))
    ensures
        r.0 <= 2,
        r.0 == 0 ==> naive_ms - 86_400_000 < r.1 < naive_ms + 86_400_000,
{
    let naive = match chrono::DateTime::<chrono::Utc>::from_timestamp_millis(naive_ms) {
        Some(value) => value.naive_utc(),
        None => return (2, 0),
    };
    match chrono::Local.from_local_datetime(&naive) {
        chrono::LocalResult::Single(value) => (0, value.with_timezone(&chrono::Utc).timestamp_millis()),
        chrono::LocalResult::Ambiguous(_, _) => (1, 0),
        chrono::LocalResult::None => (2, 0),
    }
}

/// Parses a `YYYY-MM-DD` date; on failure returns chrono's message.
#[verifier::external_body]
fn parse_civil_date(raw: &str) -> (r: Result<(i32, u32, u32), String>)
    ensures
        r.is_ok() == date_parse(raw@).is_some(),
        r matches Ok(d) ==> date_parse(raw@) == Some(d),
{
    match chrono::NaiveDate::parse_from_str(raw, "%Y-%m-%d") {
        Ok(date) => Ok((date.year(), date.month(), date.day())),
        Err(error) => Err(error.to_string()),
    }
}

/// Reads the system clock (`chrono::Utc::now`, in milliseconds). The value
/// varies from call to call; it is a valid chrono instant (so it converts back
/// with `from_timestamp_millis`) and not before the Unix epoch, since chrono
/// builds it from the time elapsed since the epoch.
#[verifier::external_body]
fn current_millis() -> (ms: i64)
    ensures
        ms >= 0,
        millis_representable(ms),
{
    chrono::Utc::now().timestamp_millis()
}

/// Zero-pads a number to at least `width` digits.
pub open spec fn padded(n: nat, width: nat) -> Seq<char>
    decreases width,
{
    if width <= decimal(n).len() {
        decimal(n)
    } else {
        seq!['0'] + padded(n, (width - 1) as nat)
    }
}

/// chrono's `%Y`: four zero-padded digits in 0..=9999, otherwise a sign and
/// at least four digits.
pub open spec fn year_text(y: int) -> Seq<char> {
    if 0 <= y <= 9999 {
        padded(y as nat, 4)
    } else if y < 0 {
        seq!['-'] + padded((-y) as nat, 4)
    } else {
        seq!['+'] + padded(y as nat, 4)
    }
}

/// chrono's `%Y-%m-%d` rendering of a civil date.
pub open spec fn date_text(d: (i32, u32, u32)) -> Seq<char> {
    year_text(d.0 as int) + seq!['-'] + padded(d.1 as nat, 2) + seq!['-'] + padded(d.2 as nat, 2)
}

/// Millisecond UTC timestamp. Milliseconds keep storage compact and sorting cheap.
#[derive(Debug, Clone, Copy, PartialEq, Eq, Structural, PartialOrd, Ord, Hash)]
pub struct Timestamp(i64);

impl View for Timestamp {
    type V = i64;

    closed spec fn view(&self) -> i64 {
        self.0
    }
}

/// Spec of `Timestamp::to_rfc3339`: RFC3339 when representable, else the raw milliseconds.
pub open spec fn timestamp_text(ms: i64) -> Seq<char> {
    if millis_representable(ms) {
        rfc3339_text(ms)
    } else {
        signed_decimal(ms as int)
    }
}

impl Timestamp {
    /// Returns the current UTC timestamp: an instant chrono can represent, at
    /// or after the Unix epoch.
    pub fn now() -> (t: Self)
        ensures
            t@ >= 0,
            millis_representable(t@),
    {
        Timestamp(current_millis())
    }

    /// Builds a timestamp from raw milliseconds.
    pub fn from_millis(value: i64) -> (t: Self)
        ensures
            t@ == value,
    {
        Timestamp(value)
    }

    /// Returns raw milliseconds since the Unix epoch.
    pub fn as_millis(&self) -> (v: i64)
        ensures
            v == self@,
    {
        self.0
    }

    /// Checks that the instant is representable in UTC and returns its milliseconds.
    pub fn to_utc(self) -> (r: Result<i64, SillokError>)
        ensures
            r.is_ok() == millis_representable(self@),
            r matches Ok(v) ==> v == self@,
            r matches Err(e) ==> e.code == "invalid_timestamp" && e.message@
                == "timestamp milliseconds out of range: "@ + signed_decimal(self@ as int),
    {
        if utc_representable(self.0) {
            Ok(self.0)
        } else {
            let mut message = String::from_str("timestamp milliseconds out of range: ");
            push_signed_decimal(&mut message, self.0);
            Err(SillokError::new("invalid_timestamp", message))
        }
    }

    /// Formats the timestamp as RFC3339 for stable JSON output.
    pub fn to_rfc3339(self) -> (s: String)
        ensures
            s@ == timestamp_text(self@),
    {
        match utc_rfc3339(self.0) {
            Some(text) => text,
            None => {
                let mut s = String::new();
                push_signed_decimal(&mut s, self.0);
                assert(s@ =~= signed_decimal(self@ as int));
                s
            },
        }
    }
}

/// Day key derived from an event timestamp and the selected timezone.
#[derive(Debug, Clone, PartialEq, Eq)]
pub struct DayKey {
    pub date: String,
    pub timezone: String,
}

/// Mathematical view of a day key.
pub struct DayKeyView {
    pub date: Seq<char>,
    pub timezone: Seq<char>,
}

impl View for DayKey {
    type V = DayKeyView;

    open spec fn view(&self) -> DayKeyView {
        DayKeyView { date: self.date@, timezone: self.timezone@ }
    }
}

impl DayKey {
    /// An equal copy of the key.
    pub fn copy(&self) -> (k: Self)
        ensures
            k@ == self@,
    {
        DayKey { date: self.date.clone(), timezone: self.timezone.clone() }
    }

    /// Whether two keys name the same day.
    pub fn same(&self, other: &DayKey) -> (b: bool)
        ensures
            b == (self@ == other@),
    {
        self.date == other.date && self.timezone == other.timezone
    }
}

/// Timezone selector used for day attribution and naive timestamp parsing.
#[derive(Debug, Clone, PartialEq, Eq)]
pub enum ZoneChoice {
    Local,
    Named(String),
}

/// Mathematical view of a zone choice.
pub enum ZoneView {
    Local,
    Named(Seq<char>),
}

impl View for ZoneChoice {
    type V = ZoneView;

    open spec fn view(&self) -> ZoneView {
        match self {
            ZoneChoice::Local => ZoneView::Local,
            ZoneChoice::Named(name) => ZoneView::Named(name@),
        }
    }
}

/// The label persisted for a zone: `local` or the IANA name.
pub open spec fn zone_label(z: ZoneView) -> Seq<char> {
    match z {
        ZoneView::Local => "local"@,
        ZoneView::Named(name) => name,
    }
}

/// Appends zero-padding and digits.
fn push_padded(out: &mut String, n: u64, width: u64)
    requires
        width <= 4,
    ensures
        final(out)@ == old(out)@ + padded(n as nat, width as nat),
    decreases width,
{
    let s = crate::text::decimal_string(n);
    let len = s.as_str().unicode_len();
    if (width as usize) <= len {
        push_str(out, s.as_str());
        proof {
            reveal_with_fuel(padded, 1);
        }
    } else {
        push_char(out, '0');
        push_padded(out, n, width - 1);
        assert(final(out)@ =~= old(out)@ + padded(n as nat, width as nat));
    }
}

/// Renders a civil date as chrono's `%Y-%m-%d`.
pub fn format_date(d: (i32, u32, u32)) -> (s: String)
    ensures
        s@ == date_text(d),
{
    let mut s = String::new();
    let y = d.0;
    if 0 <= y && y <= 9999 {
        push_padded(&mut s, y as u64, 4);
    } else if y < 0 {
        push_char(&mut s, '-');
        let m: u64 = (-(y as i64)) as u64;
        push_padded(&mut s, m, 4);
    } else {
        push_char(&mut s, '+');
        push_padded(&mut s, y as u64, 4);
    }
    let ghost ytext = s@;
    assert(ytext =~= year_text(y as int));
    push_char(&mut s, '-');
    push_padded(&mut s, d.1 as u64, 2);
    push_char(&mut s, '-');
    push_padded(&mut s, d.2 as u64, 2);
    assert(s@ =~= date_text(d));
    s
}

/// The naive reading of a timestamp text: the first of the two accepted
/// layouts that parses.
pub open spec fn naive_reading(raw: Seq<char>) -> Option<i64> {
    if naive_parse(raw, "%Y-%m-%dT%H:%M:%S"@) is Some {
        naive_parse(raw, "%Y-%m-%dT%H:%M:%S"@)
    } else {
        naive_parse(raw, "%Y-%m-%d %H:%M:%S"@)
    }
}

/// Whether the text and zone alone fix what parsing gives: RFC 3339 text,
/// text that does not parse, or any text in a named zone. A naive reading in
/// the machine's local zone depends on the environment.
pub open spec fn reading_known(z: ZoneView, raw: Seq<char>) -> bool {
    rfc3339_parse(raw) is Some || naive_reading(raw) is None || z is Named
}

/// The instant a timestamp text names in zone `z`, where that is fixed: its
/// RFC 3339 instant, or in a named zone the unique instant of its naive
/// reading; `None` when it does not parse, is ambiguous, or does not exist.
pub open spec fn reading_instant(z: ZoneView, raw: Seq<char>) -> Option<i64> {
    if rfc3339_parse(raw) is Some {
        rfc3339_parse(raw)
    } else {
        match (naive_reading(raw), z) {
            (Some(n), ZoneView::Named(name)) => if zone_resolve(name, n).0 == 0 {
                Some(zone_resolve(name, n).1)
            } else {
                None
            },
            _ => None,
        }
    }
}

/// `t` can be what parsing `raw` in zone `z` gives: the fixed instant where
/// that is known, else (a naive reading in the local zone) an instant less
/// than a day from the reading.
pub open spec fn reading_admits(z: ZoneView, raw: Seq<char>, t: i64) -> bool {
    if reading_known(z, raw) {
        reading_instant(z, raw) == Some(t)
    } else {
        naive_reading(raw) matches Some(n) && n - 86_400_000 < t < n + 86_400_000
    }
}

/// The error text for a naive reading that is ambiguous in a zone.
pub open spec fn ambiguous_message(raw: Seq<char>, label: Seq<char>) -> Seq<char> {
    "timestamp `"@ + raw + "` is ambiguous in "@ + label
}

/// The error text for a naive reading that does not exist in a zone.
pub open spec fn missing_time_message(raw: Seq<char>, label: Seq<char>) -> Seq<char> {
    "timestamp `"@ + raw + "` does not exist in "@ + label
}

/// Turns how a naive reading resolved in a zone (tag 0 with the instant, 1
/// when ambiguous, anything else when the reading does not exist) into the
/// parse result for `raw` in the zone labelled `label`.
pub fn resolution_result(raw: &str, label: &str, outcome: (u8, i64)) -> (r: Result<
    Timestamp,
    SillokError,
>)
    ensures
        outcome.0 == 0 ==> (r matches Ok(t) && t@ == outcome.1),
        outcome.0 == 1 ==> (r matches Err(e) && e.code == "ambiguous_timestamp" && e.message@
            == ambiguous_message(raw@, label@)),
        outcome.0 >= 2 ==> (r matches Err(e) && e.code == "invalid_timestamp" && e.message@
            == missing_time_message(raw@, label@)),
{
    if outcome.0 == 0 {
        Ok(Timestamp(outcome.1))
    } else {
        let mut message = owned("timestamp `");
        push_str(&mut message, raw);
        if outcome.0 == 1 {
            push_str(&mut message, "` is ambiguous in ");
            push_str(&mut message, label);
            proof {
                reveal_strlit("timestamp `");
                reveal_strlit("` is ambiguous in ");
            }
            Err(SillokError::new("ambiguous_timestamp", message))
        } else {
            push_str(&mut message, "` does not exist in ");
            push_str(&mut message, label);
            proof {
                reveal_strlit("timestamp `");
                reveal_strlit("` does not exist in ");
            }
            Err(SillokError::new("invalid_timestamp", message))
        }
    }
}

impl ZoneChoice {
    /// Parses an optional timezone name. Absence means system-local time.
    pub fn parse(value: Option<&str>) -> (r: Result<Self, SillokError>)
        ensures
            value is None ==> (r matches Ok(z) && z@ == ZoneView::Local),
            value matches Some(raw) ==> (r is Ok <==> zone_lookup(raw@) is Some),
            value matches Some(raw) ==> (r matches Ok(z) ==> zone_lookup(raw@) matches Some(
                name,
            ) && z@ == ZoneView::Named(name)),
            r matches Err(e) ==> e.code == "invalid_timezone",
    {
        match value {
            Some(raw) => match lookup_zone(raw) {
                Ok(name) => Ok(ZoneChoice::Named(name)),
                Err(detail) => {
                    let mut message = String::from_str("invalid timezone `");
                    push_str(&mut message, raw);
                    push_str(&mut message, "`: ");
                    push_str(&mut message, detail.as_str());
                    Err(SillokError::new("invalid_timezone", message))
                },
            },
            None => Ok(ZoneChoice::Local),
        }
    }

    /// Returns a stable label for persisted day records.
    pub fn label(&self) -> (s: String)
        ensures
            s@ == zone_label(self@),
    {
        match self {
            ZoneChoice::Local => owned("local"),
            ZoneChoice::Named(name) => name.clone(),
        }
    }

    /// Derives the local calendar day for a timestamp.
    pub fn day_key(&self, timestamp: Timestamp) -> (r: Result<DayKey, SillokError>)
        ensures
            self@ is Local ==> (r is Ok ==> millis_representable(timestamp@)),
            self@ is Local ==> (r matches Ok(k) ==> k@.timezone == "local"@),
            self@ matches ZoneView::Named(name) ==> (r is Ok <==> millis_representable(
                timestamp@,
            ) && zone_civil_date(name, timestamp@) is Some),
            self@ matches ZoneView::Named(name) ==> (r matches Ok(k) ==> zone_civil_date(
                name,
                timestamp@,
            ) matches Some(d) && k@ == (DayKeyView { date: date_text(d), timezone: name })),
            r matches Err(e) ==> e.code == "invalid_timestamp",
    {
        let ms = timestamp.to_utc()?;
        match self {
            ZoneChoice::Local => match civil_date_local(ms) {
                Some(d) => Ok(self.day_key_for_date(d)),
                None => Err(SillokError::new("invalid_timestamp", owned("timestamp is out of range"))),
            },
            ZoneChoice::Named(name) => match civil_date_in_zone(name.as_str(), ms) {
                Some(d) => Ok(self.day_key_for_date(d)),
                None => {
                    let mut message = String::from_str("timestamp milliseconds out of range: ");
                    push_signed_decimal(&mut message, ms);
                    Err(SillokError::new("invalid_timestamp", message))
                },
            },
        }
    }

    /// Builds a day key for an explicit local date.
    pub fn day_key_for_date(&self, date: (i32, u32, u32)) -> (k: DayKey)
        ensures
            k@ == (DayKeyView { date: date_text(date), timezone: zone_label(self@) }),
    {
        DayKey { date: format_date(date), timezone: self.label() }
    }

    /// Parses a timestamp. RFC3339 inputs keep their offset; naive inputs use this zone.
    pub fn parse_timestamp(&self, raw: &str) -> (r: Result<Timestamp, SillokError>)
        ensures
            rfc3339_parse(raw@) matches Some(ms) ==> (r matches Ok(t) && t@ == ms),
            rfc3339_parse(raw@) is None && naive_parse(raw@, "%Y-%m-%dT%H:%M:%S"@) is None
                && naive_parse(raw@, "%Y-%m-%d %H:%M:%S"@) is None ==> (r matches Err(e)
                && e.code == "invalid_timestamp"),
            self@ matches ZoneView::Named(name) ==> (rfc3339_parse(raw@) is None ==> {
                let naive = if naive_parse(raw@, "%Y-%m-%dT%H:%M:%S"@) is Some {
                    naive_parse(raw@, "%Y-%m-%dT%H:%M:%S"@)
                } else {
                    naive_parse(raw@, "%Y-%m-%d %H:%M:%S"@)
                };
                naive matches Some(n) ==> {
                    let (tag, ms) = zone_resolve(name, n);
                    &&& tag == 0 ==> (r matches Ok(t) && t@ == ms)
                    &&& tag == 1 ==> (r matches Err(e) && e.code == "ambiguous_timestamp")
                    &&& tag != 0 && tag != 1 ==> (r matches Err(e) && e.code
                        == "invalid_timestamp")
                }
            }),
            self@ is Local && rfc3339_parse(raw@) is None ==> {
                let naive = if naive_parse(raw@, "%Y-%m-%dT%H:%M:%S"@) is Some {
                    naive_parse(raw@, "%Y-%m-%dT%H:%M:%S"@)
                } else {
                    naive_parse(raw@, "%Y-%m-%d %H:%M:%S"@)
                };
                naive matches Some(n) ==> (r matches Ok(t) ==> n - 86_400_000 < t@ < n
                    + 86_400_000)
            },
            reading_known(self@, raw@) ==> (r is Ok <==> reading_instant(self@, raw@) is Some),
            r matches Ok(t) ==> reading_admits(self@, raw@, t@),
            r matches Err(e) ==> e.code == "invalid_timestamp" || e.code == "ambiguous_timestamp",
    {
        if let Some(ms) = parse_rfc3339_millis(raw) {
            return Ok(Timestamp(ms));
        }
        let naive = match parse_naive_millis(raw, "%Y-%m-%dT%H:%M:%S") {
            Ok(value) => value,
            Err(_) => match parse_naive_millis(raw, "%Y-%m-%d %H:%M:%S") {
                Ok(value) => value,
                Err(detail) => {
                    let mut message = String::from_str("invalid timestamp `");
                    push_str(&mut message, raw);
                    push_str(&mut message, "`: ");
                    push_str(&mut message, detail.as_str());
                    return Err(SillokError::new("invalid_timestamp", message));
                },
            },
        };
        let outcome = match self {
            ZoneChoice::Local => resolve_local(naive),
            ZoneChoice::Named(name) => resolve_in_zone(name.as_str(), naive),
        };
        let label = self.label();
        resolution_result(raw, label.as_str(), outcome)
    }

    /// Parses a YYYY-MM-DD date.
    pub fn parse_date(&self, raw: &str) -> (r: Result<DayKey, SillokError>)
        ensures
            r is Ok <==> date_parse(raw@) is Some,
            r matches Ok(k) ==> date_parse(raw@) matches Some(d) && k@ == (DayKeyView {
                date: date_text(d),
                timezone: zone_label(self@),
            }),
            r matches Err(e) ==> e.code == "invalid_date",
    {
        match parse_civil_date(raw) {
            Ok(date) => Ok(self.day_key_for_date(date)),
            Err(detail) => {
                let mut message = String::from_str("invalid date `");
                push_str(&mut message, raw);
                push_str(&mut message, "`: ");
                push_str(&mut message, detail.as_str());
                Err(SillokError::new("invalid_date", message))
            },
        }
    }
}

} // verus!
