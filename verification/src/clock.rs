//! Instants, ages and calendar days.
//!
//! Times are read, written and subtracted by `chrono`; the thresholds that the tracker applies to
//! the resulting ages are computed here.

use vstd::prelude::*;

use crate::text::{decimal, digit};

verus! {

pub const NANOS_PER_SEC: i128 = 1_000_000_000;

pub const NANOS_PER_HOUR: i128 = 3_600_000_000_000;

/// A point in time: whole seconds since the Unix epoch and the nanoseconds after them. The
/// nanoseconds pass one second only inside a leap second.
pub struct Instant {
    pub secs: int,
    pub nanos: int,
}

/// Whether `chrono` has a date and time for the instant `t`.
pub open spec fn valid_instant(t: Instant) -> bool {
    &&& -8_334_601_228_800 <= t.secs <= 8_210_266_876_799
    &&& 0 <= t.nanos < 2_000_000_000
    &&& t.nanos >= 1_000_000_000 ==> t.secs % 60 == 59
}

/// Whether `t` is an instant that the clock can show: at or after the Unix epoch, and outside any
/// leap second.
pub open spec fn clock_instant(t: Instant) -> bool {
    valid_instant(t) && 0 <= t.secs && t.nanos < 1_000_000_000
}

/// Whether `t` falls in the years 0 to 9999 and outside any leap second.
pub open spec fn common_instant(t: Instant) -> bool {
    &&& -62_167_219_200 <= t.secs <= 253_402_300_799
    &&& 0 <= t.nanos < 1_000_000_000
}

/// The nanoseconds from `since` to `now`, negative when `since` is the later one. A leap second is
/// counted when it lies at the earlier end of a span within the day.
pub open spec fn elapsed(now: Instant, since: Instant) -> int {
    let leap: int = if now.secs % 86_400 > since.secs % 86_400 && since.nanos >= 1_000_000_000 {
        1
    } else if now.secs % 86_400 < since.secs % 86_400 && now.nanos >= 1_000_000_000 {
        -1
    } else {
        0
    };
    (now.secs - since.secs + leap) * 1_000_000_000 + now.nanos - since.nanos
}

/// What `chrono::DateTime::parse_from_rfc3339` reads from a text: seconds and nanoseconds of the
/// instant, or nothing for a text it refuses.
pub uninterp spec fn rfc3339_reading(s: Seq<char>) -> Option<(i64, u32)>;

/// What `chrono::DateTime::to_rfc3339` writes for the instant in UTC.
pub uninterp spec fn rfc3339_writing(secs: i64, nanos: u32) -> Seq<char>;

/// What `chrono::NaiveDate` writes for a day under `%Y-%m-%d`; days are counted from
/// January 1 of the year 1, which is day 1.
pub uninterp spec fn date_writing(day: i32) -> Seq<char>;

/// The day that `chrono::NaiveDate::parse_from_str` reads from a text under `%Y-%m-%d`.
pub uninterp spec fn date_reading(s: Seq<char>) -> Option<i32>;

/// The instant that a time stamp stands for.
pub open spec fn instant_of(s: Seq<char>) -> Option<Instant> {
    match rfc3339_reading(s) {
        Some((secs, nanos)) => Some(Instant { secs: secs as int, nanos: nanos as int }),
        None => None,
    }
}

/// The time stamp of an instant.
pub open spec fn stamp(t: Instant) -> Seq<char> {
    rfc3339_writing(t.secs as i64, t.nanos as u32)
}

/// Whether the time stamp of the instant can be relied on: where the instant falls in the years 0 to
/// 9999, the stamp reads back as it.
pub open spec fn stamps_back(t: Instant) -> bool {
    common_instant(t) ==> instant_of(stamp(t)) == Some(t)
}

/// How long before `now` the time stamp `since` lies, in nanoseconds; `None` where `since` is no
/// time stamp.
pub open spec fn age(now: Instant, since: Seq<char>) -> Option<int> {
    match instant_of(since) {
        Some(t) => Some(elapsed(now, t)),
        None => None,
    }
}

/// The days that `chrono::NaiveDate` covers.
pub open spec fn valid_day(day: int) -> bool {
    -95_746_129 <= day <= 95_745_399
}

/// Whether the name of the day can be relied on: in the years 1 to 9999 it reads back as the day.
pub open spec fn names_back(day: i32) -> bool {
    1 <= day <= 3_652_059 ==> date_reading(date_writing(day)) == Some(day)
}

/// Calls `chrono::DateTime::parse_from_rfc3339`. Claimed: the outcome is a function of the text,
/// and an instant that is read is one that `chrono` covers.
#[verifier::external_body]
fn parse_rfc3339(s: &str) -> (r: Option<(i64, u32)>)
    ensures
        r == rfc3339_reading(s@),
        r matches Some(p) ==> valid_instant(Instant { secs: p.0 as int, nanos: p.1 as int }),
{
    match chrono::DateTime::parse_from_rfc3339(s) {
        Ok(d) => Some((d.timestamp(), d.timestamp_subsec_nanos())),
        Err(_) => None,
    }
}

/// Calls `chrono::DateTime::to_rfc3339` on an instant in UTC. Claimed: the text is a function of
/// the instant, and between the years 0 and 9999 reading it gives the instant back.
#[verifier::external_body]
fn format_rfc3339(secs: i64, nanos: u32) -> (r: String)
    requires
        valid_instant(Instant { secs: secs as int, nanos: nanos as int }),
    ensures
        r@ == rfc3339_writing(secs, nanos),
        common_instant(Instant { secs: secs as int, nanos: nanos as int }) ==> rfc3339_reading(r@)
            == Some((secs, nanos)),
{
    chrono::DateTime::from_timestamp(secs, nanos).unwrap().to_rfc3339()
}

/// Calls `chrono::DateTime::signed_duration_since`. Claimed: the two parts of the duration add up
/// to the nanoseconds between the instants.
#[verifier::external_body]
fn duration_between(now: (i64, u32), since: (i64, u32)) -> (r: (i64, i32))
    requires
        valid_instant(Instant { secs: now.0 as int, nanos: now.1 as int }),
        valid_instant(Instant { secs: since.0 as int, nanos: since.1 as int }),
    ensures
        r.0 * 1_000_000_000 + r.1 == elapsed(
            Instant { secs: now.0 as int, nanos: now.1 as int },
            Instant { secs: since.0 as int, nanos: since.1 as int },
        ),
{
    let later = chrono::DateTime::from_timestamp(now.0, now.1).unwrap();
    let earlier = chrono::DateTime::from_timestamp(since.0, since.1).unwrap();
    let d = later.signed_duration_since(earlier);
    (d.num_seconds(), d.subsec_nanos())
}

/// Calls `chrono::Utc::now`. Claimed: the clock stands at or after the Unix epoch and outside any
/// leap second; nothing is said of which instant it is.
#[verifier::external_body]
fn utc_now() -> (r: (i64, u32))
    ensures
        0 <= r.0 <= 8_210_266_876_799,
        r.1 < 1_000_000_000,
{
    let d = chrono::Utc::now();
    (d.timestamp(), d.timestamp_subsec_nanos())
}

/// Calls `chrono::Local::now` for the local calendar day. Claimed: it is a day that `chrono`
/// covers; nothing is said of which day it is.
#[verifier::external_body]
fn local_day() -> (r: i32)
    ensures
        valid_day(r as int),
{
    chrono::Datelike::num_days_from_ce(&chrono::Local::now().date_naive())
}

/// Calls `chrono::NaiveDate::format` with `%Y-%m-%d`. Claimed: the text is a function of the day,
/// and between the years 1 and 9999 reading it gives the day back.
#[verifier::external_body]
fn format_day(day: i32) -> (r: String)
    requires
        valid_day(day as int),
    ensures
        r@ == date_writing(day),
        1 <= day <= 3_652_059 ==> date_reading(r@) == Some(day),
{
    chrono::NaiveDate::from_num_days_from_ce_opt(day).unwrap().format("%Y-%m-%d").to_string()
}

/// Calls `chrono::NaiveDate::parse_from_str` with `%Y-%m-%d`. Claimed: the outcome is a function
/// of the text, and a day that is read is one that `chrono` covers.
#[verifier::external_body]
fn parse_day(s: &str) -> (r: Option<i32>)
    ensures
        r == date_reading(s@),
        r matches Some(d) ==> valid_day(d as int),
{
    match chrono::NaiveDate::parse_from_str(s, "%Y-%m-%d") {
        Ok(d) => Some(chrono::Datelike::num_days_from_ce(&d)),
        Err(_) => None,
    }
}

/// A local time to the second, by calendar and clock. The second passes 59 only inside a leap
/// second.
pub struct LocalTime {
    pub year: int,
    pub month: int,
    pub day: int,
    pub hour: int,
    pub minute: int,
    pub second: int,
}

/// Whether the parts of a local time lie within the ranges that `chrono` documents for them.
pub open spec fn valid_local_time(t: LocalTime) -> bool {
    &&& -262_144 <= t.year <= 262_143
    &&& 1 <= t.month <= 12
    &&& 1 <= t.day <= 31
    &&& 0 <= t.hour <= 23
    &&& 0 <= t.minute <= 59
    &&& 0 <= t.second <= 60
}

/// A number below a hundred, in two digits.
pub open spec fn two_digits(n: int) -> Seq<char> {
    seq![digit(n / 10), digit(n % 10)]
}

/// A number in at least four digits.
pub open spec fn padded_year(n: int) -> Seq<char> {
    if n < 10_000 {
        two_digits(n / 100) + two_digits(n % 100)
    } else {
        decimal(n as nat)
    }
}

/// A year in at least four digits, with a sign before them outside the years 0 to 9999.
pub open spec fn year_text(year: int) -> Seq<char> {
    if 0 <= year <= 9_999 {
        padded_year(year)
    } else if year > 0 {
        seq!['+'] + padded_year(year)
    } else {
        seq!['-'] + padded_year(-year)
    }
}

/// A local time as it stands in the names of snapshots: `YYYYMMDD_HHMMSS`.
pub open spec fn moment_text(t: LocalTime) -> Seq<char> {
    year_text(t.year) + two_digits(t.month) + two_digits(t.day) + seq!['_'] + two_digits(t.hour)
        + two_digits(t.minute) + two_digits(t.second)
}

/// Whether a text is that of some local time.
pub open spec fn is_moment(s: Seq<char>) -> bool {
    exists|t: LocalTime| valid_local_time(t) && s == #[trigger] moment_text(t)
}

/// Calls `chrono::Local::now` and writes the local time under `%Y%m%d_%H%M%S`. Claimed: the text is
/// that of some local time, with its year, month, day, hour, minute and second in this order;
/// nothing is said of which time it is.
#[verifier::external_body]
fn local_moment() -> (r: String)
    ensures
        is_moment(r@),
{
    chrono::Local::now().format("%Y%m%d_%H%M%S").to_string()
}

/// An instant that `chrono` covers.
#[derive(Clone, Copy)]
pub struct Timestamp {
    secs: i64,
    nanos: u32,
}

impl View for Timestamp {
    type V = Instant;

    closed spec fn view(&self) -> Instant {
        Instant { secs: self.secs as int, nanos: self.nanos as int }
    }
}

impl Timestamp {
    #[verifier::type_invariant]
    spec fn covered(self) -> bool {
        valid_instant(Instant { secs: self.secs as int, nanos: self.nanos as int })
    }

    /// The instant of the given seconds and nanoseconds, if there is one.
    pub fn new(secs: i64, nanos: u32) -> (r: Option<Timestamp>)
        ensures
            r is Some <==> valid_instant(Instant { secs: secs as int, nanos: nanos as int }),
            r matches Some(t) ==> t@ == (Instant { secs: secs as int, nanos: nanos as int }),
    {
        if secs < -8_334_601_228_800 || secs > 8_210_266_876_799 || nanos >= 2_000_000_000 {
            return None;
        }
        // Counted from the earliest instant, which starts a minute, the seconds are not negative.
        let from_start: u64 = (secs + 8_334_601_228_800) as u64;
        if nanos >= 1_000_000_000 && from_start % 60 != 59 {
            return None;
        }
        Some(Timestamp { secs, nanos })
    }

    /// The current instant.
    pub fn now() -> (t: Timestamp)
        ensures
            clock_instant(t@),
    {
        let (secs, nanos) = utc_now();
        Timestamp { secs, nanos }
    }

    /// The instant that a time stamp stands for.
    pub fn parse(s: &str) -> (r: Option<Timestamp>)
        ensures
            r is Some <==> instant_of(s@) is Some,
            r matches Some(t) ==> instant_of(s@) == Some(t@) && valid_instant(t@),
    {
        match parse_rfc3339(s) {
            Some((secs, nanos)) => Some(Timestamp { secs, nanos }),
            None => None,
        }
    }

    /// The time stamp of the instant.
    pub fn to_rfc3339(&self) -> (s: String)
        ensures
            s@ == stamp(self@),
            valid_instant(self@),
            stamps_back(self@),
    {
        proof {
            use_type_invariant(self);
        }
        format_rfc3339(self.secs, self.nanos)
    }

    /// The nanoseconds from `since` to this instant.
    pub fn since(&self, since: &Timestamp) -> (n: i128)
        ensures
            n == elapsed(self@, since@),
    {
        proof {
            use_type_invariant(self);
            use_type_invariant(since);
        }
        let (secs, nanos) = duration_between((self.secs, self.nanos), (since.secs, since.nanos));
        secs as i128 * NANOS_PER_SEC + nanos as i128
    }

    /// The nanoseconds since the Unix epoch; zero before it.
    pub fn unix_nanos(&self) -> (n: u128)
        ensures
            n == (if self@.secs < 0 {
                0
            } else {
                self@.secs * 1_000_000_000 + self@.nanos
            }),
    {
        proof {
            use_type_invariant(self);
        }
        if self.secs < 0 {
            0
        } else {
            self.secs as u128 * 1_000_000_000 + self.nanos as u128
        }
    }

    /// How long ago the time stamp `since` lies.
    pub fn age_of(&self, since: &str) -> (n: Option<i128>)
        ensures
            n is Some <==> age(self@, since@) is Some,
            n matches Some(a) ==> age(self@, since@) == Some(a as int) && valid_age(a as int),
    {
        proof {
            use_type_invariant(self);
        }
        match Timestamp::parse(since) {
            Some(t) => {
                proof {
                    elapsed_is_valid_age(self@, t@);
                }
                Some(self.since(&t))
            },
            None => None,
        }
    }
}

/// Whether a duration can hold the age.
pub open spec fn valid_age(nanos: int) -> bool {
    -9_223_372_036_854_775_807_000_000 <= nanos <= 9_223_372_036_854_775_807_000_000
}

/// Whether something of the given age is older than `hours`.
pub open spec fn older_than(nanos: int, hours: u64) -> bool {
    nanos > hours as int * NANOS_PER_HOUR
}

/// Whether something of the given age counts as stale: four hours without activity.
pub open spec fn stale_age(age: Option<int>) -> bool {
    age matches Some(n) && n >= 4 * NANOS_PER_HOUR
}

/// Whether something of the given age is ripe for reconciliation: older than `hours`, and not
/// touched within the last thirty minutes. The whole hours of its age if it is.
pub open spec fn reconcile_age(age: Option<int>, hours: u64) -> Option<int> {
    match age {
        Some(n) if older_than(n, hours) && n > NANOS_PER_HOUR / 2 => Some(n / (NANOS_PER_HOUR as int)),
        _ => None,
    }
}

/// Between instants that `chrono` covers, every age is one that a duration can hold.
pub proof fn elapsed_is_valid_age(now: Instant, since: Instant)
    requires
        valid_instant(now),
        valid_instant(since),
    ensures
        valid_age(elapsed(now, since)),
{
}

/// Whether something of the given age is older than `hours`.
pub fn is_older_than(nanos: i128, hours: u64) -> (b: bool)
    ensures
        b == older_than(nanos as int, hours),
{
    nanos > hours as i128 * NANOS_PER_HOUR
}

/// Whether something of the given age counts as stale.
pub fn is_stale_age(age: Option<i128>) -> (b: bool)
    ensures
        age is None ==> !b,
        age matches Some(n) ==> b == stale_age(Some(n as int)),
{
    match age {
        Some(n) => n >= 4 * NANOS_PER_HOUR,
        None => false,
    }
}

/// The whole hours of an age that is ripe for reconciliation under the threshold `hours`.
pub fn hours_to_reconcile(age: Option<i128>, hours: u64) -> (r: Option<u64>)
    requires
        age matches Some(n) ==> valid_age(n as int),
    ensures
        r is Some ==> age is Some,
        age matches Some(n) ==> (r is Some <==> reconcile_age(Some(n as int), hours) is Some),
        r matches Some(h) ==> reconcile_age(Some(age->0 as int), hours) == Some(h as int),
{
    match age {
        Some(n) => {
            if is_older_than(n, hours) && n > NANOS_PER_HOUR / 2 {
                Some((n / NANOS_PER_HOUR) as u64)
            } else {
                None
            }
        },
        None => None,
    }
}

/// The local calendar day.
pub fn today() -> (day: i32)
    ensures
        valid_day(day as int),
{
    local_day()
}

/// The local time, as it stands in the names of snapshots. Which time it is, the clock says.
pub fn moment() -> (r: String)
    ensures
        is_moment(r@),
{
    local_moment()
}

/// The name of a calendar day: `YYYY-MM-DD`.
pub fn day_name(day: i32) -> (r: String)
    requires
        valid_day(day as int),
    ensures
        r@ == date_writing(day),
        names_back(day),
{
    format_day(day)
}

/// The calendar day that a name stands for.
pub fn named_day(name: &str) -> (r: Option<i32>)
    ensures
        r == date_reading(name@),
{
    parse_day(name)
}

}
