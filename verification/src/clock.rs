//! Time zones, wall clocks and the civil calendar.
//!
//! An instant and a wall-clock reading are both milliseconds: an instant since
//! the Unix epoch, a wall-clock reading since 1970-01-01T00:00 on that clock.
use chrono::{DateTime, Datelike, NaiveDate, Offset, TimeZone, Utc};
use chrono_tz::Tz;
use iso8601_timestamp::Timestamp;
use vstd::prelude::*;

verus! {

/// Milliseconds of a day.
pub const DAY_MS: i64 = 86_400_000;

/// First instant (and first wall-clock reading) that the calendar supports:
/// -262143-01-01T00:00.
pub const MIN_MS: i64 = -8_334_601_228_800_000;

/// Last one: 262142-12-31T23:59:59.999.
pub const MAX_MS: i64 = 8_210_266_876_799_999;

/// First year that the calendar supports.
pub const MIN_YEAR: i32 = -262_143;

/// Last one.
pub const MAX_YEAR: i32 = 262_142;

/// Day number of 1970-01-01, where 0001-01-01 is day 1.
pub const EPOCH_DAY: i64 = 719_163;

/// Whether a millisecond value is one that the calendar supports.
pub open spec fn on_calendar(ms: int) -> bool {
    MIN_MS <= ms <= MAX_MS
}

/// Whole days since the epoch.
pub open spec fn day_of(ms: int) -> int {
    ms / (DAY_MS as int)
}

/// Days from Monday (0) to Sunday (6). The epoch was a Thursday.
pub open spec fn weekday_of(ms: int) -> int {
    (day_of(ms) + 3) % 7
}

/// Whether a year of the Gregorian calendar has 366 days.
pub open spec fn is_leap(y: int) -> bool {
    y % 4 == 0 && (y % 100 != 0 || y % 400 == 0)
}

/// Number of days of a month.
pub open spec fn days_in_month(y: int, m: int) -> int {
    if m == 2 {
        if is_leap(y) {
            29
        } else {
            28
        }
    } else if m == 4 || m == 6 || m == 9 || m == 11 {
        30
    } else {
        31
    }
}

/// Number of days of a year before the first of a month.
pub open spec fn days_before_month(y: int, m: int) -> int
    decreases m,
{
    if m <= 1 {
        0
    } else {
        days_before_month(y, m - 1) + days_in_month(y, m - 1)
    }
}

/// Number of a date's day, where 0001-01-01 is day 1.
pub open spec fn day_number(y: int, m: int, d: int) -> int {
    365 * (y - 1) + (y - 1) / 4 - (y - 1) / 100 + (y - 1) / 400 + days_before_month(y, m) + d
}

/// Whether year, month and day name a date that the calendar supports.
pub open spec fn is_date(y: int, m: int, d: int) -> bool {
    MIN_YEAR <= y <= MAX_YEAR && 1 <= m <= 12 && 1 <= d <= days_in_month(y, m)
}

/// Whether a name is that of a time zone.
pub uninterp spec fn zone_known(name: Seq<char>) -> bool;

/// What the wall clocks of a zone show at an instant.
pub uninterp spec fn zone_wall(zone: Seq<char>, ms: int) -> int;

/// The earliest instant at which the wall clocks of a zone show a reading, with
/// the zone's offset from UTC in seconds at that instant; nothing where they
/// never show it.
pub uninterp spec fn zone_instant(zone: Seq<char>, wall: int) -> Option<(int, int)>;

/// Whether a zone's offset from UTC at readings up to three days from one differs from an
/// offset by a day at most.
pub open spec fn offsets_near(zone: Seq<char>, wall: int, offset: int) -> bool {
    forall|w: int|
        on_calendar(w) && -3 * DAY_MS <= w - wall <= 3 * DAY_MS ==> match #[trigger] zone_instant(
            zone,
            w,
        ) {
            Some(p) => -86_400 <= p.1 - offset <= 86_400,
            None => true,
        }
}

/// `str::parse::<chrono_tz::Tz>`: succeeds on the names of time zones, of which
/// "UTC" is one.
#[verifier::external_body]
fn parses_as_zone(name: &str) -> (r: bool)
    ensures
        r == zone_known(name@),
        name@ == "UTC"@ ==> r,
{
    name.parse::<Tz>().is_ok()
}

/// `chrono::DateTime::with_timezone` and `naive_local`: the wall-clock reading of
/// an instant in a zone. It lies less than a day from the instant, and in UTC it is
/// the instant. Instants on the first and the last day of the calendar are left out:
/// there `naive_local` may panic.
#[verifier::external_body]
fn wall_clock(zone: &str, ms: i64) -> (r: i64)
    requires
        zone_known(zone@),
        MIN_MS + DAY_MS <= ms <= MAX_MS - DAY_MS,
    ensures
        r == zone_wall(zone@, ms as int),
        -DAY_MS < r - ms < DAY_MS,
        zone@ == "UTC"@ ==> r == ms,
{
    let zone: Tz = zone.parse().unwrap();
    let at = Utc.timestamp_millis_opt(ms).unwrap();
    at.with_timezone(&zone).naive_local().and_utc().timestamp_millis()
}

/// `chrono::TimeZone::from_local_datetime`, its earliest result: the instant at
/// which a zone's wall clocks show a reading, with the offset (in seconds) by
/// which the reading is ahead of UTC. In UTC every reading is its own instant. At readings
/// up to three days apart the offsets of a zone differ by a day at most: in the table that
/// `chrono_tz` comes with (`prebuilt/timezones.rs`) no change of a zone's clocks is by more
/// than 86400 seconds, and no two changes of one zone lie less than six days apart.
#[verifier::external_body]
fn earliest_instant(zone: &str, wall: i64) -> (r: Option<(i64, i32)>)
    requires
        zone_known(zone@),
        on_calendar(wall as int),
    ensures
        match r {
            Some(p) => zone_instant(zone@, wall as int) == Some((p.0 as int, p.1 as int)) && p.0
                == wall - p.1 * 1000 && -86_400 < p.1 < 86_400 && on_calendar(p.0 as int),
            None => zone_instant(zone@, wall as int) is None,
        },
        r matches Some(p) ==> offsets_near(zone@, wall as int, p.1 as int),
        zone@ == "UTC"@ ==> r == Some((wall, 0i32)),
{
    let zone: Tz = zone.parse().unwrap();
    let wall = DateTime::from_timestamp_millis(wall).unwrap().naive_utc();
    let at = zone.from_local_datetime(&wall).earliest();
    at.map(|at| (at.timestamp_millis(), at.offset().fix().local_minus_utc()))
}

/// `chrono::Datelike::year`, `month` and `day` of a wall-clock reading.
#[verifier::external_body]
fn date_of(wall: i64) -> (r: (i32, u32, u32))
    requires
        on_calendar(wall as int),
    ensures
        is_date(r.0 as int, r.1 as int, r.2 as int),
        day_number(r.0 as int, r.1 as int, r.2 as int) == day_of(wall as int) + EPOCH_DAY,
{
    let date = DateTime::from_timestamp_millis(wall).unwrap().date_naive();
    (date.year(), date.month(), date.day())
}

/// `chrono::Weekday::num_days_from_monday` of a wall-clock reading's day.
#[verifier::external_body]
fn weekday_number(wall: i64) -> (r: u32)
    requires
        on_calendar(wall as int),
    ensures
        r == weekday_of(wall as int),
{
    DateTime::from_timestamp_millis(wall).unwrap().weekday().num_days_from_monday()
}

/// `chrono::NaiveDate::from_ymd_opt` and `num_days_from_ce`: the number of a
/// date's day, where there is such a date on the calendar.
#[verifier::external_body]
fn number_of_day(year: i32, month: u32, day: u32) -> (r: Option<i32>)
    ensures
        match r {
            Some(n) => is_date(year as int, month as int, day as int) && n == day_number(
                year as int,
                month as int,
                day as int,
            ),
            None => !is_date(year as int, month as int, day as int),
        },
{
    NaiveDate::from_ymd_opt(year, month, day).map(|date| date.num_days_from_ce())
}

/// `chrono::NaiveDate::pred_opt` of the first of a month: the day of the month of
/// the day before it, where both are on the calendar.
#[verifier::external_body]
fn day_before_first(year: i32, month: u32) -> (r: Option<u32>)
    ensures
        match r {
            Some(d) => is_date(year as int, month as int, 1) && !(year == MIN_YEAR && month == 1)
                && d == (if month == 1 {
                31
            } else {
                days_in_month(year as int, month - 1)
            }),
            None => !is_date(year as int, month as int, 1) || (year == MIN_YEAR && month == 1),
        },
{
    NaiveDate::from_ymd_opt(year, month, 1).and_then(|date| date.pred_opt()).map(|date| date.day())
}

/// `iso8601_timestamp::Timestamp::now_utc`: the current time, in milliseconds
/// since the epoch. Nothing is promised of a clock's reading.
#[verifier::external_body]
pub(crate) fn now_ms() -> (r: i64) {
    Timestamp::now_utc().duration_since(Timestamp::UNIX_EPOCH).whole_milliseconds() as i64
}

/// The zone that a name stands for: unknown names stand for UTC.
pub open spec fn zone_used(name: Seq<char>) -> Seq<char> {
    if zone_known(name) {
        name
    } else {
        "UTC"@
    }
}

/// Whether a name is that of a time zone.
pub fn is_zone(name: &str) -> (r: bool)
    ensures
        r == zone_known(name@),
{
    parses_as_zone(name)
}

/// The zone that a name stands for: unknown names stand for UTC.
pub fn zone_or_utc(name: &str) -> (r: String)
    ensures
        r@ == zone_used(name@),
        zone_known(r@),
{
    if parses_as_zone(name) {
        name.to_owned()
    } else {
        let utc = "UTC";
        let known: bool = parses_as_zone(utc);
        assert(known);
        utc.to_owned()
    }
}

/// An instant that the calendar does not support is taken for the epoch.
pub open spec fn supported(ms: int) -> int {
    if on_calendar(ms) {
        ms
    } else {
        0
    }
}

/// An instant that the calendar does not support is taken for the epoch.
pub fn ms_to_utc(ms: i64) -> (r: i64)
    ensures
        r == supported(ms as int),
        on_calendar(r as int),
{
    if MIN_MS <= ms && ms <= MAX_MS {
        ms
    } else {
        0
    }
}

/// What the wall clocks of a named zone show at an instant.
pub fn local_clock(zone: &str, ms: i64) -> (r: i64)
    requires
        MIN_MS + DAY_MS <= ms <= MAX_MS - DAY_MS,
    ensures
        r == zone_wall(zone_used(zone@), ms as int),
        -DAY_MS < r - ms < DAY_MS,
        zone_used(zone@) == "UTC"@ ==> r == ms,
{
    let zone = zone_or_utc(zone);
    wall_clock(zone.as_str(), ms)
}

/// Three hours, in milliseconds.
pub const THREE_HOURS_MS: i64 = 10_800_000;

/// The instant for a wall-clock reading in a zone. A reading that occurs twice
/// stands for its earlier instant. One that never occurs (the clocks skip it) is
/// taken with the offset that the zone had three hours earlier, so that it moves
/// forward by what the clocks skip; where there is no such offset either, or the
/// result leaves the calendar, it is taken for UTC.
pub open spec fn local_instant(zone: Seq<char>, wall: int) -> int {
    match zone_instant(zone, wall) {
        Some(p) => p.0,
        None => match zone_instant(zone, wall - THREE_HOURS_MS) {
            Some(p) => if on_calendar(wall - p.1 * 1000) {
                wall - p.1 * 1000
            } else {
                wall
            },
            None => wall,
        },
    }
}

/// Whether a zone's offset at a reading, where it has one, is what its clocks are ahead of
/// UTC by, less than a day, and near the offsets around it.
pub open spec fn offset_regular(zone: Seq<char>, wall: int) -> bool {
    match zone_instant(zone, wall) {
        Some(p) => {
            &&& p.0 == wall - p.1 * 1000
            &&& -86_400 < p.1 < 86_400
            &&& offsets_near(zone, wall, p.1)
        },
        None => true,
    }
}

/// Whether the offsets by which a reading is taken as an instant are regular.
pub open spec fn reading_regular(zone: Seq<char>, wall: int) -> bool {
    &&& on_calendar(wall)
    &&& on_calendar(wall - THREE_HOURS_MS)
    &&& offset_regular(zone, wall)
    &&& zone_instant(zone, wall) is None ==> offset_regular(zone, wall - THREE_HOURS_MS)
}

/// Readings that are a day or more apart stand for instants in the same order.
pub proof fn lemma_readings_keep_order(zone: Seq<char>, wall: int, later: int)
    requires
        reading_regular(zone, wall),
        reading_regular(zone, later),
        wall + DAY_MS <= later,
    ensures
        local_instant(zone, wall) <= local_instant(zone, later),
{
}

/// The instant for a wall-clock reading in a zone, by the rule of
/// [`local_instant`].
pub fn local_to_utc_ms(zone: &str, wall: i64) -> (r: i64)
    requires
        zone_known(zone@),
        on_calendar(wall as int),
        on_calendar(wall - THREE_HOURS_MS),
    ensures
        r == local_instant(zone@, wall as int),
        on_calendar(r as int),
        reading_regular(zone@, wall as int),
        zone@ == "UTC"@ ==> r == wall,
{
    match earliest_instant(zone, wall) {
        Some(p) => p.0,
        None => {
            match earliest_instant(zone, wall - THREE_HOURS_MS) {
                Some(p) => {
                    let shifted: i64 = wall - (p.1 as i64) * 1000;
                    if MIN_MS <= shifted && shifted <= MAX_MS {
                        shifted
                    } else {
                        wall
                    }
                },
                None => wall,
            }
        },
    }
}

/// Days from Monday (0) to Sunday (6) of a wall-clock reading's day.
pub fn days_from_monday(wall: i64) -> (r: i64)
    requires
        on_calendar(wall as int),
    ensures
        r == weekday_of(wall as int),
        0 <= r < 7,
{
    weekday_number(wall) as i64
}

/// Year, month (1 to 12) and day of a wall-clock reading.
pub fn civil_date(wall: i64) -> (r: (i32, u32, u32))
    requires
        on_calendar(wall as int),
    ensures
        is_date(r.0 as int, r.1 as int, r.2 as int),
        day_number(r.0 as int, r.1 as int, r.2 as int) == day_of(wall as int) + EPOCH_DAY,
{
    date_of(wall)
}

/// The last day that a month is taken to have. Where the month after it is not on
/// the calendar, that is the 28th.
pub open spec fn last_day(y: int, m: int) -> int {
    let next = if m == 12 {
        (y + 1, 1int)
    } else {
        (y, m + 1)
    };
    if y >= MIN_YEAR && is_date(next.0, next.1, 1) {
        days_in_month(y, m)
    } else {
        28
    }
}

/// The last day of a month, by the rule of [`last_day`].
pub fn last_day_of_month(year: i32, month: u32) -> (r: u32)
    requires
        1 <= month <= 12,
        i32::MIN <= year < i32::MAX,
    ensures
        r == last_day(year as int, month as int),
        28 <= r <= 31,
{
    let (next_year, next_month): (i32, u32) = if month == 12 {
        (year + 1, 1)
    } else {
        (year, month + 1)
    };
    match day_before_first(next_year, next_month) {
        Some(d) => d,
        None => 28,
    }
}

/// The month that comes `add` months after month `month0` (counted from 0) of a
/// year, as a year and a month from 1 to 12.
pub open spec fn months_later(year: int, month0: int, add: int) -> (int, int) {
    (year + (month0 + add) / 12, (month0 + add) % 12 + 1)
}

/// The month that comes `add` months after month `month0` (counted from 0).
pub fn add_months(year: i32, month0: i64, add: i64) -> (r: (i32, u32))
    requires
        i64::MIN <= month0 + add <= i64::MAX,
        i32::MIN <= (month0 + add) / 12 <= i32::MAX,
        i32::MIN <= year + (month0 + add) / 12 <= i32::MAX,
    ensures
        (r.0 as int, r.1 as int) == months_later(year as int, month0 as int, add as int),
        1 <= r.1 <= 12,
{
    let total: i64 = month0 + add;
    let rest: i64 = total % 12;
    let (q, m0): (i64, i64) = if rest < 0 {
        (total / 12 - 1, rest + 12)
    } else {
        (total / 12, rest)
    };
    assert(q == total as int / 12 && m0 == total as int % 12);
    (year + q as i32, m0 as u32 + 1)
}

/// The wall-clock reading of a date at the time of day of another reading, where
/// the calendar has the date.
pub fn on_date(year: i32, month: u32, day: u32, time_of: i64) -> (r: Option<i64>)
    requires
        on_calendar(time_of as int),
    ensures
        match r {
            Some(w) => is_date(year as int, month as int, day as int) && w == (day_number(
                year as int,
                month as int,
                day as int,
            ) - EPOCH_DAY) * DAY_MS + time_of as int % (DAY_MS as int) && on_calendar(w as int),
            None => !is_date(year as int, month as int, day as int),
        },
{
    match number_of_day(year, month, day) {
        Some(n) => {
            proof {
                lemma_date_on_calendar(year as int, month as int, day as int);
            }
            let rest: i64 = time_of % DAY_MS;
            let time: i64 = if rest < 0 {
                rest + DAY_MS
            } else {
                rest
            };
            assert(time == time_of as int % (DAY_MS as int));
            Some((n as i64 - EPOCH_DAY) * DAY_MS + time)
        },
        None => None,
    }
}

/// Year, month and day of a day number.
pub open spec fn date_numbered(n: int) -> (int, int, int) {
    choose|p: (int, int, int)| is_date(p.0, p.1, p.2) && #[trigger] day_number(p.0, p.1, p.2) == n
}

/// A later date has a greater day number.
pub proof fn lemma_day_number_increases(y: int, m: int, d: int, y2: int, m2: int, d2: int)
    requires
        is_date(y, m, d),
        is_date(y2, m2, d2),
        y < y2 || (y == y2 && (m < m2 || (m == m2 && d < d2))),
    ensures
        day_number(y, m, d) < day_number(y2, m2, d2),
{
    lemma_days_before_month(y, m);
    lemma_days_before_month(y2, m2);
    if y < y2 {
        assert(365 * (y - 1) + (y - 1) / 4 - (y - 1) / 100 + (y - 1) / 400 + (if is_leap(y) {
            366int
        } else {
            365int
        }) == 365 * y + y / 4 - y / 100 + y / 400);
    } else if m < m2 {
        lemma_months_add_up(y, m, m2);
    }
}

/// The days before a month count those of every earlier month.
proof fn lemma_months_add_up(y: int, m: int, m2: int)
    requires
        1 <= m < m2 <= 12,
    ensures
        days_before_month(y, m) + days_in_month(y, m) <= days_before_month(y, m2),
    decreases m2,
{
    if m + 1 < m2 {
        lemma_months_add_up(y, m, m2 - 1);
    }
}

/// A day number belongs to one date.
pub proof fn lemma_date_numbered(y: int, m: int, d: int)
    requires
        is_date(y, m, d),
    ensures
        date_numbered(day_number(y, m, d)) == (y, m, d),
{
    let n = day_number(y, m, d);
    let given = (y, m, d);
    assert(is_date(given.0, given.1, given.2) && day_number(given.0, given.1, given.2) == n);
    let p = date_numbered(n);
    assert(is_date(p.0, p.1, p.2) && day_number(p.0, p.1, p.2) == n);
    if p.0 < y || (p.0 == y && (p.1 < m || (p.1 == m && p.2 < d))) {
        lemma_day_number_increases(p.0, p.1, p.2, y, m, d);
    } else if p != given {
        lemma_day_number_increases(y, m, d, p.0, p.1, p.2);
    }
}

/// Every day of the calendar has a date.
pub proof fn lemma_day_has_date(n: int)
    requires
        -95_746_129 <= n <= 95_745_399,
    ensures
        ({
            let p = date_numbered(n);
            is_date(p.0, p.1, p.2) && day_number(p.0, p.1, p.2) == n
        }),
    decreases n + 95_746_129,
{
    if n == -95_746_129 {
        assert(day_number(MIN_YEAR as int, 1, 1) == n);
        lemma_date_numbered(MIN_YEAR as int, 1, 1);
    } else {
        lemma_day_has_date(n - 1);
        let (y, m, d) = date_numbered(n - 1);
        if d < days_in_month(y, m) {
            lemma_date_numbered(y, m, d + 1);
        } else if m < 12 {
            assert(day_number(y, m + 1, 1) == n);
            lemma_date_numbered(y, m + 1, 1);
        } else {
            assert(days_before_month(y, 12) + 31 == if is_leap(y) {
                366int
            } else {
                365int
            }) by {
                reveal_with_fuel(days_before_month, 13);
            }
            assert(days_before_month(y + 1, 1) == 0);
            assert(day_number(y + 1, 1, 1) == n);
            assert(y < MAX_YEAR) by {
                if y == MAX_YEAR {
                    assert(!is_leap(y));
                }
            }
            lemma_date_numbered(y + 1, 1, 1);
        }
    }
}

/// Before each month of a year there are at most 335 days, and with the month
/// itself at most a year.
proof fn lemma_days_before_month(y: int, m: int)
    requires
        1 <= m <= 12,
    ensures
        0 <= days_before_month(y, m),
        days_before_month(y, m) + days_in_month(y, m) <= if is_leap(y) {
            366int
        } else {
            365int
        },
{
    reveal_with_fuel(days_before_month, 13);
}

/// A date of the calendar lies between its first and its last day.
proof fn lemma_date_on_calendar(y: int, m: int, d: int)
    requires
        is_date(y, m, d),
    ensures
        -95_746_129 <= day_number(y, m, d) <= 95_745_399,
{
    lemma_days_before_month(y, m);
}

} // verus!
