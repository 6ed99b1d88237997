//! Calendar events: recurrence, validation, edits and RSVPs.
use crate::calendar_laws;
use crate::clock::{self, DAY_MS, EPOCH_DAY, MAX_MS, MIN_MS, add_months, civil_date, days_from_monday, last_day_of_month, local_clock, local_to_utc_ms, ms_to_utc, now_ms, on_date, zone_or_utc};
use crate::error::Error;
use crate::files::{File, FileView};
use crate::patch::{self, renew, renew_opt, renew_opt_rows, renew_opt_text, renew_text};
use crate::table::{self, Row};
use crate::text::{self, copy_opt};
use vstd::prelude::*;
use vstd::string::*;

verus! {

/// Upper bound on how many occurrences a series may have.
pub const MAX_OCCURRENCES: usize = 730;

/// How often a recurring event repeats.
#[derive(Clone, Copy, Debug, PartialEq, Eq)]
pub enum Frequency {
    Daily,
    Weekly,
    Monthly,
}

/// Day of the week.
#[derive(Clone, Copy, Debug, PartialEq, Eq)]
pub enum Weekday {
    Monday,
    Tuesday,
    Wednesday,
    Thursday,
    Friday,
    Saturday,
    Sunday,
}

/// When a recurring series stops.
#[derive(Clone, Copy, Debug, PartialEq, Eq)]
pub enum RecurrenceEnd {
    /// After a number of occurrences.
    Count { count: u16 },
    /// After an instant.
    Until { timestamp: i64 },
}

/// How an event recurs.
#[derive(Debug, PartialEq, Eq)]
pub struct RecurrenceRule {
    /// Unit of the interval.
    pub freq: Frequency,
    /// An occurrence every so many units.
    pub interval: u16,
    /// For weekly rules: the weekdays; none means the weekday of the start.
    pub by_weekday: Vec<Weekday>,
    /// When the series stops.
    pub end: RecurrenceEnd,
    /// Starts of occurrences that are skipped.
    pub exceptions: Vec<i64>,
}

/// What a [`RecurrenceRule`] holds.
pub struct RecurrenceRuleView {
    pub freq: Frequency,
    pub interval: u16,
    pub by_weekday: Seq<Weekday>,
    pub end: RecurrenceEnd,
    pub exceptions: Seq<i64>,
}

impl View for RecurrenceRule {
    type V = RecurrenceRuleView;

    open spec fn view(&self) -> RecurrenceRuleView {
        RecurrenceRuleView {
            freq: self.freq,
            interval: self.interval,
            by_weekday: self.by_weekday@,
            end: self.end,
            exceptions: self.exceptions@,
        }
    }
}

/// What an optional rule holds.
pub open spec fn opt_rule(r: Option<RecurrenceRule>) -> Option<RecurrenceRuleView> {
    match r {
        Some(r) => Some(r@),
        None => None,
    }
}

/// A scheduled event of a server.
#[derive(Debug, PartialEq, Eq)]
pub struct CalendarEvent {
    pub id: String,
    pub server: String,
    pub channel: Option<String>,
    pub creator: String,
    pub title: String,
    pub description: Option<String>,
    pub location: Option<String>,
    /// Instant of the first occurrence.
    pub start: i64,
    /// Instant at which the first occurrence ends.
    pub end: Option<i64>,
    /// Length of an occurrence; derived from `start` and `end`.
    pub duration_ms: i64,
    /// Upper bound of the whole series; derived.
    pub series_end: i64,
    pub all_day: bool,
    /// Name of the time zone whose wall clock the recurrence follows.
    pub timezone: String,
    pub recurrence: Option<RecurrenceRule>,
    pub color: Option<String>,
    /// Whether the whole series was cancelled.
    pub cancelled: bool,
    /// Files of this event, by their ids.
    pub attachments: Option<Vec<File>>,
    pub source_message_id: Option<String>,
    pub created_at: i64,
    pub edited_at: Option<i64>,
}

/// What a [`CalendarEvent`] holds.
pub struct CalendarEventView {
    pub id: Seq<char>,
    pub server: Seq<char>,
    pub channel: Option<Seq<char>>,
    pub creator: Seq<char>,
    pub title: Seq<char>,
    pub description: Option<Seq<char>>,
    pub location: Option<Seq<char>>,
    pub start: i64,
    pub end: Option<i64>,
    pub duration_ms: i64,
    pub series_end: i64,
    pub all_day: bool,
    pub timezone: Seq<char>,
    pub recurrence: Option<RecurrenceRuleView>,
    pub color: Option<Seq<char>>,
    pub cancelled: bool,
    pub attachments: Option<Seq<FileView>>,
    pub source_message_id: Option<Seq<char>>,
    pub created_at: i64,
    pub edited_at: Option<i64>,
}

impl View for CalendarEvent {
    type V = CalendarEventView;

    open spec fn view(&self) -> CalendarEventView {
        CalendarEventView {
            id: self.id@,
            server: self.server@,
            channel: text::opt_text(self.channel),
            creator: self.creator@,
            title: self.title@,
            description: text::opt_text(self.description),
            location: text::opt_text(self.location),
            start: self.start,
            end: self.end,
            duration_ms: self.duration_ms,
            series_end: self.series_end,
            all_day: self.all_day,
            timezone: self.timezone@,
            recurrence: opt_rule(self.recurrence),
            color: text::opt_text(self.color),
            cancelled: self.cancelled,
            attachments: table::opt_row_views(self.attachments),
            source_message_id: text::opt_text(self.source_message_id),
            created_at: self.created_at,
            edited_at: self.edited_at,
        }
    }
}

impl Weekday {
    /// Days from Monday (0) to Sunday (6).
    pub open spec fn number(self) -> int {
        match self {
            Weekday::Monday => 0,
            Weekday::Tuesday => 1,
            Weekday::Wednesday => 2,
            Weekday::Thursday => 3,
            Weekday::Friday => 4,
            Weekday::Saturday => 5,
            Weekday::Sunday => 6,
        }
    }

    /// Days from Monday (0) to Sunday (6).
    pub fn num_from_monday(&self) -> (r: i64)
        ensures
            r == self.number(),
            0 <= r < 7,
    {
        match self {
            Weekday::Monday => 0,
            Weekday::Tuesday => 1,
            Weekday::Wednesday => 2,
            Weekday::Thursday => 3,
            Weekday::Friday => 4,
            Weekday::Saturday => 5,
            Weekday::Sunday => 6,
        }
    }
}

/// Whether a list of weekdays holds the day with a number.
pub open spec fn has_day(days: Seq<Weekday>, d: int) -> bool {
    exists|i: int| 0 <= i < days.len() && (#[trigger] days[i]).number() == d
}

/// The numbers from `d` on of the weekdays in a list, in order, each once.
pub open spec fn days_from(days: Seq<Weekday>, d: int) -> Seq<int>
    decreases 7 - d,
{
    if d >= 7 {
        Seq::empty()
    } else if has_day(days, d) {
        seq![d] + days_from(days, d + 1)
    } else {
        days_from(days, d + 1)
    }
}

/// How many of a list of numbers lie below a bound.
pub open spec fn count_below(list: Seq<int>, bound: int) -> int
    decreases list.len(),
{
    if list.len() == 0 {
        0
    } else {
        count_below(list.drop_last(), bound) + if list.last() < bound {
            1int
        } else {
            0int
        }
    }
}

/// The interval of a rule; a zero counts as one.
pub open spec fn interval_of(rule: RecurrenceRuleView) -> int {
    if rule.interval == 0 {
        1
    } else {
        rule.interval as int
    }
}

/// At most how many occurrences a rule has.
pub open spec fn occurrence_cap(rule: RecurrenceRuleView) -> int {
    match rule.end {
        RecurrenceEnd::Count { count } => if count < MAX_OCCURRENCES {
            count as int
        } else {
            MAX_OCCURRENCES as int
        },
        RecurrenceEnd::Until { timestamp } => MAX_OCCURRENCES as int,
    }
}

/// Whether an instant comes after the end of a rule.
pub open spec fn past_end(rule: RecurrenceRuleView, ms: int) -> bool {
    match rule.end {
        RecurrenceEnd::Count { count } => false,
        RecurrenceEnd::Until { timestamp } => ms > timestamp,
    }
}

/// A wall-clock reading, where the calendar supports it.
pub open spec fn reading(wall: int) -> Option<int> {
    if clock::on_calendar(wall) {
        Some(wall)
    } else {
        None
    }
}

/// The wall-clock reading of occurrence `k` of a rule whose first occurrence is at
/// reading `wall`; nothing where the calendar has no such reading.
///
/// Days and weeks step by the interval. A list of weekdays is walked through in
/// every interval-th week from the first occurrence's on, without the days that
/// come before it. Months step by the interval and keep the day of the month, or
/// take the month's last day where it has no such day.
pub open spec fn candidate(rule: RecurrenceRuleView, wall: int, k: int) -> Option<int> {
    let interval = interval_of(rule);
    match rule.freq {
        Frequency::Daily => reading(wall + interval * k * DAY_MS),
        Frequency::Weekly => if rule.by_weekday.len() == 0 {
            reading(wall + interval * k * 7 * DAY_MS)
        } else {
            let days = days_from(rule.by_weekday, 0);
            let j = k + count_below(days, clock::weekday_of(wall));
            reading(
                wall - clock::weekday_of(wall) * DAY_MS + interval * (j / days.len() as int) * 7 * DAY_MS
                    + days[j % days.len() as int] * DAY_MS,
            )
        },
        Frequency::Monthly => {
            let first = clock::date_numbered(clock::day_of(wall) + EPOCH_DAY);
            let month = clock::months_later(first.0, first.1 - 1, interval * k);
            let last = clock::last_day(month.0, month.1);
            let day = if first.2 < last {
                first.2
            } else {
                last
            };
            if clock::is_date(month.0, month.1, day) {
                Some((clock::day_number(month.0, month.1, day) - EPOCH_DAY) * DAY_MS + wall % (DAY_MS as int))
            } else {
                None
            }
        },
    }
}

/// Whether the series goes on with occurrence `k`.
pub open spec fn goes_on(rule: RecurrenceRuleView, zone: Seq<char>, wall: int, k: int) -> bool {
    match candidate(rule, wall, k) {
        Some(w) => !past_end(rule, clock::local_instant(zone, w)),
        None => false,
    }
}

/// Number of occurrences from occurrence `k` on.
pub open spec fn occurrences_from(
    rule: RecurrenceRuleView,
    zone: Seq<char>,
    wall: int,
    k: int,
) -> nat
    decreases occurrence_cap(rule) - k,
{
    if k < occurrence_cap(rule) && goes_on(rule, zone, wall, k) {
        1 + occurrences_from(rule, zone, wall, k + 1)
    } else {
        0
    }
}

/// The wall-clock reading of an event's start in its time zone.
pub open spec fn start_wall(event: CalendarEventView) -> int {
    clock::zone_wall(clock::zone_used(event.timezone), clock::supported(event.start as int))
}

/// The starts of all occurrences of an event. Without a rule it occurs once. With
/// one, the readings of [`candidate`] are taken in order, as instants, up to the
/// rule's end, the cap, or the end of the calendar.
pub open spec fn series(event: CalendarEventView) -> Seq<int> {
    match event.recurrence {
        None => seq![event.start as int],
        Some(rule) => Seq::new(
            occurrences_from(rule, clock::zone_used(event.timezone), start_wall(event), 0),
            |k: int|
                clock::local_instant(
                    clock::zone_used(event.timezone),
                    candidate(rule, start_wall(event), k)->Some_0,
                ),
        ),
    }
}

/// Integers of a list.
pub open spec fn ints(list: Seq<i64>) -> Seq<int> {
    Seq::new(list.len(), |i: int| list[i] as int)
}

/// Whether the series of a start can be laid out. The first nine days and the last
/// day of the calendar are left out: readings around them leave the calendar.
/// (Instants off the calendar are taken for the epoch.)
pub open spec fn start_supported(start: int) -> bool {
    clock::on_calendar(start) ==> MIN_MS + 9 * DAY_MS <= start <= MAX_MS - DAY_MS
}

/// Whether the calendar goes on long enough after a start for any series of a valid rule.
pub open spec fn has_room(start: int) -> bool {
    MIN_MS + 9 * DAY_MS <= start <= MAX_MS - 1_200_000 * DAY_MS
}

/// Whether a list is in strictly ascending order.
pub open spec fn ascending(list: Seq<int>) -> bool {
    forall|a: int, b: int| 0 <= a < b < list.len() ==> #[trigger] list[a] < #[trigger] list[b]
}

/// Whether no number of a list is less than one before it.
pub open spec fn in_order(list: Seq<int>) -> bool {
    forall|a: int, b: int| 0 <= a < b < list.len() ==> #[trigger] list[a] <= #[trigger] list[b]
}

/// Once the first `n` occurrences are known to go on, and either the cap is reached
/// or the series stops there, `n` is their number.
proof fn lemma_series_length(
    rule: RecurrenceRuleView,
    zone: Seq<char>,
    wall: int,
    k: int,
    n: int,
)
    requires
        0 <= k <= n <= occurrence_cap(rule),
        forall|i: int| k <= i < n ==> #[trigger] goes_on(rule, zone, wall, i),
        n == occurrence_cap(rule) || !goes_on(rule, zone, wall, n),
    ensures
        occurrences_from(rule, zone, wall, k) == n - k,
    decreases n - k,
{
    if k < n {
        assert(goes_on(rule, zone, wall, k));
        lemma_series_length(rule, zone, wall, k + 1, n);
    }
}

/// The numbers in a list of weekdays are in order and lie between 0 and 6.
proof fn lemma_days_ordered(days: Seq<Weekday>, d: int)
    requires
        0 <= d <= 7,
    ensures
        days_from(days, d).len() <= 7 - d,
        forall|i: int| 0 <= i < days_from(days, d).len() ==> d <= #[trigger] days_from(days, d)[i] < 7,
    decreases 7 - d,
{
    if d < 7 {
        lemma_days_ordered(days, d + 1);
        let rest = days_from(days, d + 1);
        if has_day(days, d) {
            assert forall|i: int| 0 <= i < days_from(days, d).len() implies d <= #[trigger] days_from(
                days,
                d,
            )[i] < 7 by {
                if i > 0 {
                    assert(days_from(days, d)[i] == rest[i - 1]);
                }
            }
        } else {
            assert forall|i: int| 0 <= i < days_from(days, d).len() implies d <= #[trigger] days_from(
                days,
                d,
            )[i] < 7 by {
                assert(days_from(days, d)[i] == rest[i]);
            }
        }
    }
}

/// A list that holds some weekday gives some number.
proof fn lemma_days_not_empty(days: Seq<Weekday>, d: int, w: int)
    requires
        0 <= d <= w < 7,
        has_day(days, w),
    ensures
        days_from(days, d).len() > 0,
    decreases 7 - d,
{
    if d < w && !has_day(days, d) {
        lemma_days_not_empty(days, d + 1, w);
    }
}

/// The weekday numbers of a list, in order, each once.
fn sorted_days(days: &Vec<Weekday>) -> (r: Vec<i64>)
    ensures
        ints(r@) == days_from(days@, 0),
{
    let mut out: Vec<i64> = Vec::new();
    let mut d: i64 = 0;
    assert(ints(out@) + days_from(days@, 0) =~= days_from(days@, 0));
    while d < 7
        invariant
            0 <= d <= 7,
            ints(out@) + days_from(days@, d as int) == days_from(days@, 0),
        decreases 7 - d,
    {
        let mut found: bool = false;
        let mut i: usize = 0;
        while i < days.len() && !found
            invariant
                i <= days.len(),
                found ==> has_day(days@, d as int),
                !found ==> forall|j: int| 0 <= j < i ==> (#[trigger] days@[j]).number() != d,
            decreases days.len() - i + (if found { 0int } else { 1int }),
        {
            if days[i].num_from_monday() == d {
                assert(days@[i as int].number() == d);
                found = true;
            } else {
                i = i + 1;
            }
        }
        assert(found == has_day(days@, d as int));
        let ghost before = out@;
        if found {
            out.push(d);
            assert(ints(out@) =~= ints(before).push(d as int));
            assert(ints(before) + days_from(days@, d as int) =~= ints(out@) + days_from(
                days@,
                d + 1,
            ));
        }
        d = d + 1;
    }
    assert(ints(out@) + days_from(days@, 7) =~= ints(out@));
    out
}

/// How many numbers of a list lie below a bound.
fn number_below(list: &Vec<i64>, bound: i64) -> (r: usize)
    ensures
        r == count_below(ints(list@), bound as int),
        r <= list.len(),
{
    let mut n: usize = 0;
    let mut i: usize = 0;
    assert(ints(list@).take(0) =~= Seq::<int>::empty());
    while i < list.len()
        invariant
            i <= list.len(),
            n <= i,
            n == count_below(ints(list@).take(i as int), bound as int),
        decreases list.len() - i,
    {
        assert(ints(list@).take(i + 1).drop_last() =~= ints(list@).take(i as int));
        if list[i] < bound {
            n = n + 1;
        }
        i = i + 1;
    }
    assert(ints(list@).take(i as int) =~= ints(list@));
    n
}

/// The wall-clock reading `days` days after another, where the calendar has it.
fn days_later(wall: i64, days: i64) -> (r: Option<i64>)
    requires
        clock::on_calendar(wall as int),
        -1_000_000_000 <= days <= 1_000_000_000,
    ensures
        match r {
            Some(w) => reading(wall + days * DAY_MS) == Some(w as int),
            None => reading(wall + days * DAY_MS) is None,
        },
{
    let w: i64 = wall + days * DAY_MS;
    if MIN_MS <= w && w <= MAX_MS {
        Some(w)
    } else {
        None
    }
}

/// A product of an interval and an index stays small.
proof fn lemma_step_bounds(interval: int, k: int)
    by (nonlinear_arith)
    requires
        1 <= interval <= 65_535,
        0 <= k <= 1_000,
    ensures
        0 <= interval * k <= 65_535_000,
{
}

/// What the loop over occurrences works with.
struct Plan<'a> {
    rule: &'a RecurrenceRule,
    wall: i64,
    interval: i64,
    days: Vec<i64>,
    skipped: usize,
    first: (i32, u32, u32),
}

impl<'a> Plan<'a> {
    spec fn wf(self) -> bool {
        &&& MIN_MS + 8 * DAY_MS <= self.wall <= MAX_MS
        &&& self.interval == interval_of(self.rule@)
        &&& 1 <= self.interval <= 65_535
        &&& ints(self.days@) == days_from(self.rule@.by_weekday, 0)
        &&& self.skipped == count_below(ints(self.days@), clock::weekday_of(self.wall as int))
        &&& self.skipped <= self.days.len() <= 7
        &&& self.rule@.by_weekday.len() > 0 ==> self.days.len() > 0
        &&& forall|i: int| 0 <= i < self.days.len() ==> 0 <= #[trigger] self.days@[i] < 7
        &&& clock::is_date(self.first.0 as int, self.first.1 as int, self.first.2 as int)
        &&& clock::day_number(self.first.0 as int, self.first.1 as int, self.first.2 as int)
            == clock::day_of(self.wall as int) + EPOCH_DAY
        &&& (self.first.0 as int, self.first.1 as int, self.first.2 as int) == clock::date_numbered(
            clock::day_of(self.wall as int) + EPOCH_DAY,
        )
    }

    fn new(rule: &'a RecurrenceRule, wall: i64) -> (p: Self)
        requires
            MIN_MS + 8 * DAY_MS <= wall <= MAX_MS,
        ensures
            p.wf(),
            p.rule == rule,
            p.wall == wall,
    {
        let days = sorted_days(&rule.by_weekday);
        let skipped: usize = number_below(&days, days_from_monday(wall));
        let first = civil_date(wall);
        let interval: i64 = if rule.interval == 0 {
            1
        } else {
            rule.interval as i64
        };
        proof {
            clock::lemma_date_numbered(first.0 as int, first.1 as int, first.2 as int);
            lemma_days_ordered(rule.by_weekday@, 0);
            assert(ints(days@).len() == days@.len());
            assert forall|i: int| 0 <= i < days.len() implies 0 <= #[trigger] days@[i] < 7 by {
                assert(ints(days@)[i] == days@[i]);
            }
            if rule.by_weekday.len() > 0 {
                let w = rule.by_weekday@[0].number();
                assert(has_day(rule.by_weekday@, w));
                lemma_days_not_empty(rule.by_weekday@, 0, w);
            }
        }
        Plan { rule, wall, interval, days, skipped, first }
    }

    /// The reading of occurrence `k`.
    fn reading_of(&self, k: usize) -> (r: Option<i64>)
        requires
            self.wf(),
            k <= MAX_OCCURRENCES,
        ensures
            match r {
                Some(w) => candidate(self.rule@, self.wall as int, k as int) == Some(w as int)
                    && clock::on_calendar(w as int) && w >= MIN_MS + DAY_MS,
                None => candidate(self.rule@, self.wall as int, k as int) is None,
            },
    {
        let interval: i64 = self.interval;
        proof {
            lemma_step_bounds(interval as int, k as int);
        }
        let steps: i64 = interval * (k as i64);
        match self.rule.freq {
            Frequency::Daily => days_later(self.wall, steps),
            Frequency::Weekly => {
                if self.rule.by_weekday.len() == 0 {
                    assert(self.wall + steps * 7 * DAY_MS == self.wall + (steps * 7) * DAY_MS);
                    days_later(self.wall, steps * 7)
                } else {
                    let n: usize = self.days.len();
                    let j: usize = k + self.skipped;
                    let block: i64 = (j / n) as i64;
                    let day: i64 = self.days[j % n];
                    let anchor: i64 = days_from_monday(self.wall);
                    proof {
                        assert(0 <= j as int / n as int <= j) by (nonlinear_arith)
                            requires
                                n > 0,
                        ;
                        assert(0 <= j as int % n as int && (j as int % n as int) < n) by (nonlinear_arith)
                            requires
                                n > 0,
                        ;
                        lemma_step_bounds(interval as int, block as int);
                        assert(ints(self.days@)[j as int % n as int] == day);
                    }
                    let weeks: i64 = interval * block;
                    let w: i64 = self.wall - anchor * DAY_MS + weeks * 7 * DAY_MS + day * DAY_MS;
                    if MIN_MS <= w && w <= MAX_MS {
                        Some(w)
                    } else {
                        None
                    }
                }
            },
            Frequency::Monthly => {
                let month0: i64 = self.first.1 as i64 - 1;
                let (y, month) = add_months(self.first.0, month0, steps);
                let last: u32 = last_day_of_month(y, month);
                let day: u32 = if self.first.2 < last {
                    self.first.2
                } else {
                    last
                };
                let r = on_date(y, month, day, self.wall);
                proof {
                    if r is Some {
                        lemma_later_month(
                            self.first.0 as int,
                            self.first.1 as int,
                            self.first.2 as int,
                            steps as int,
                            y as int,
                            month as int,
                            day as int,
                            self.wall as int,
                        );
                    }
                }
                r
            },
        }
    }
}

/// A date some months later, on the same or an earlier day of its month, is not
/// more than a few days before the date it was counted from.
proof fn lemma_later_month(y: int, m: int, d: int, add: int, y2: int, m2: int, d2: int, wall: int)
    requires
        clock::is_date(y, m, d),
        clock::is_date(y2, m2, d2),
        add >= 0,
        (y2, m2) == clock::months_later(y, m - 1, add),
        d2 == d || d2 >= 28,
        MIN_MS + 8 * DAY_MS <= wall,
        clock::day_number(y, m, d) == clock::day_of(wall) + EPOCH_DAY,
    ensures
        (clock::day_number(y2, m2, d2) - EPOCH_DAY) * DAY_MS >= MIN_MS + DAY_MS,
{
    if (y2, m2, d2) != (y, m, d) {
        if y < y2 || (y == y2 && (m < m2 || (m == m2 && d < d2))) {
            clock::lemma_day_number_increases(y, m, d, y2, m2, d2);
        } else {
            assert(y2 == y && m2 == m && d2 < d);
            assert(clock::day_number(y2, m2, d2) >= clock::day_number(y, m, d) - 3);
        }
    }
}

/// The wall-clock reading of occurrence `k` of a rule whose first occurrence is at a
/// reading; nothing where the calendar has no such reading.
pub fn reading_of_occurrence(rule: &RecurrenceRule, wall: i64, k: usize) -> (r: Option<i64>)
    requires
        MIN_MS + 8 * DAY_MS <= wall <= MAX_MS,
        k <= MAX_OCCURRENCES,
    ensures
        match r {
            Some(w) => candidate(rule@, wall as int, k as int) == Some(w as int),
            None => candidate(rule@, wall as int, k as int) is None,
        },
{
    Plan::new(rule, wall).reading_of(k)
}

/// Whether an instant comes after the end of a rule.
pub fn is_past_end(end: &RecurrenceEnd, ms: i64) -> (r: bool)
    ensures
        forall|rule: RecurrenceRuleView|
            rule.end == *end ==> r == #[trigger] past_end(rule, ms as int),
{
    match end {
        RecurrenceEnd::Until { timestamp } => ms > *timestamp,
        RecurrenceEnd::Count { .. } => false,
    }
}

/// Every occurrence start of a series, in chronological order. An event without a rule
/// occurs once, at its start.
///
/// A valid series is never cut short by the cap: one with a count has as many
/// occurrences. In UTC the order is strict, and a valid series begins at the start of its
/// event.
pub fn series_occurrence_starts(event: &CalendarEvent) -> (r: Vec<i64>)
    requires
        event.recurrence is Some ==> start_supported(event.start as int),
    ensures
        ints(r@) == series(event@),
        in_order(ints(r@)),
        first_problem(event@) is None && has_room(event.start as int) ==> (
        event@.recurrence matches Some(rule) ==> match rule.end {
            RecurrenceEnd::Count { count } => r@.len() == count,
            RecurrenceEnd::Until { .. } => r@.len() < MAX_OCCURRENCES,
        }),
        clock::zone_used(event@.timezone) == "UTC"@ ==> ascending(ints(r@)),
        clock::zone_used(event@.timezone) == "UTC"@ && first_problem(event@) is None && has_room(
            event.start as int,
        ) ==> r@.len() > 0 && r@[0] == event.start,
{
    let rule = match &event.recurrence {
        None => {
            let mut once: Vec<i64> = Vec::new();
            once.push(event.start);
            assert(ints(once@) =~= seq![event.start as int]);
            return once;
        },
        Some(rule) => rule,
    };
    let zone = zone_or_utc(event.timezone.as_str());
    let wall: i64 = local_clock(event.timezone.as_str(), ms_to_utc(event.start));
    let plan = Plan::new(rule, wall);
    let cap: usize = match rule.end {
        RecurrenceEnd::Count { count } => if (count as usize) < MAX_OCCURRENCES {
            count as usize
        } else {
            MAX_OCCURRENCES
        },
        RecurrenceEnd::Until { timestamp } => MAX_OCCURRENCES,
    };
    let mut out: Vec<i64> = Vec::new();
    let mut stopped: bool = false;
    while out.len() < cap && !stopped
        invariant
            plan.wf(),
            plan.rule == rule,
            plan.wall == wall,
            clock::zone_known(zone@),
            cap == occurrence_cap(rule@),
            cap <= MAX_OCCURRENCES,
            out.len() <= cap,
            forall|i: int| 0 <= i < out.len() ==> #[trigger] goes_on(rule@, zone@, wall as int, i),
            forall|i: int|
                0 <= i < out.len() ==> (#[trigger] out@[i]) == clock::local_instant(
                    zone@,
                    candidate(rule@, wall as int, i)->Some_0,
                ),
            forall|i: int|
                0 <= i < out.len() ==> clock::reading_regular(
                    zone@,
                    (#[trigger] candidate(rule@, wall as int, i))->Some_0,
                ),
            zone@ == "UTC"@ ==> forall|i: int|
                0 <= i < out.len() ==> candidate(rule@, wall as int, i) == Some(
                    (#[trigger] out@[i]) as int,
                ),
            stopped ==> !goes_on(rule@, zone@, wall as int, out.len() as int),
            stopped && zone@ == "UTC"@ ==> match candidate(rule@, wall as int, out.len() as int) {
                Some(w) => past_end(rule@, w),
                None => true,
            },
        decreases cap - out.len() + (if stopped { 0int } else { 1int }),
    {
        match plan.reading_of(out.len()) {
            None => {
                stopped = true;
            },
            Some(w) => {
                let ms: i64 = local_to_utc_ms(zone.as_str(), w);
                if is_past_end(&rule.end, ms) {
                    assert(past_end(rule@, ms as int));
                    stopped = true;
                } else {
                    assert(!past_end(rule@, ms as int));
                    assert(goes_on(rule@, zone@, wall as int, out.len() as int));
                    out.push(ms);
                }
            },
        }
    }
    proof {
        lemma_series_length(rule@, zone@, wall as int, 0, out.len() as int);
        assert(event@.recurrence == Some(rule@));
        assert(ints(out@) =~= series(event@));
        if first_problem(event@) is None && has_room(event.start as int) {
            if rule.end is Count {
                calendar_laws::law_counted_series_is_complete(event@);
            }
            if zone@ == "UTC"@ {
                calendar_laws::law_valid_series_begins_at_its_start(event@);
            }
        }
        assert forall|a: int, b: int| 0 <= a < b < out.len() implies #[trigger] ints(out@)[a]
            <= #[trigger] ints(out@)[b] by {
            assert(ints(out@)[a] == out@[a] && ints(out@)[b] == out@[b]);
            assert(goes_on(rule@, zone@, wall as int, a) && goes_on(rule@, zone@, wall as int, b));
            calendar_laws::law_readings_are_days_apart(rule@, wall as int, a, b);
            clock::lemma_readings_keep_order(
                zone@,
                candidate(rule@, wall as int, a)->Some_0,
                candidate(rule@, wall as int, b)->Some_0,
            );
        }
        if zone@ == "UTC"@ {
            assert forall|a: int, b: int| 0 <= a < b < out.len() implies #[trigger] ints(out@)[a]
                < #[trigger] ints(out@)[b] by {
                assert(ints(out@)[a] == out@[a] && ints(out@)[b] == out@[b]);
                calendar_laws::law_readings_are_days_apart(rule@, wall as int, a, b);
            }
        }
    }
    out
}

/// Whether a list holds a number.
fn holds(list: &Vec<i64>, v: i64) -> (r: bool)
    ensures
        r == list@.contains(v),
{
    let mut i: usize = 0;
    while i < list.len()
        invariant
            i <= list.len(),
            forall|j: int| 0 <= j < i ==> list@[j] != v,
        decreases list.len() - i,
    {
        if list[i] == v {
            return true;
        }
        i = i + 1;
    }
    false
}

/// A sum, held within the range of `i64`.
pub open spec fn bounded_sum(a: int, b: int) -> int {
    if a + b > i64::MAX {
        i64::MAX as int
    } else if a + b < i64::MIN {
        i64::MIN as int
    } else {
        a + b
    }
}

/// A number, or zero where it is negative.
pub open spec fn at_least_zero(a: int) -> int {
    if a < 0 {
        0
    } else {
        a
    }
}

/// Whether an occurrence start was excepted from the series.
pub open spec fn excepted(event: CalendarEventView, ms: int) -> bool {
    match event.recurrence {
        Some(rule) => exists|i: int|
            0 <= i < rule.exceptions.len() && #[trigger] rule.exceptions[i] == ms,
        None => false,
    }
}

/// Whether an occurrence that starts at an instant takes place and overlaps the
/// window from `from` to `to`, both included.
pub open spec fn in_window(event: CalendarEventView, from: int, to: int, ms: int) -> bool {
    &&& !excepted(event, ms)
    &&& ms <= to
    &&& bounded_sum(ms, at_least_zero(event.duration_ms as int)) >= from
}

/// Occurrence starts that overlap the window from `from` to `to`, without the
/// excepted ones. A window that begins after the end of the series has none.
pub fn occurrences_in_window(event: &CalendarEvent, from: i64, to: i64) -> (r: Vec<i64>)
    requires
        event.recurrence is Some ==> start_supported(event.start as int),
    ensures
        ints(r@) == series(event@).filter(
            |ms: int| in_window(event@, from as int, to as int, ms),
        ),
        r@.len() > 0 && span_consistent(event@) ==> series_end_of(event@) >= from,
{
    let duration: i64 = if event.duration_ms < 0 {
        0
    } else {
        event.duration_ms
    };
    let starts = series_occurrence_starts(event);
    let mut out: Vec<i64> = Vec::new();
    let ghost q = |ms: int| in_window(event@, from as int, to as int, ms);
    let mut i: usize = 0;
    proof {
        reveal(Seq::filter);
        assert(ints(out@) =~= ints(starts@).take(0).filter(q));
    }
    while i < starts.len()
        invariant
            i <= starts.len(),
            duration == at_least_zero(event@.duration_ms as int),
            q == (|ms: int| in_window(event@, from as int, to as int, ms)),
            ints(out@) == ints(starts@).take(i as int).filter(q),
        decreases starts.len() - i,
    {
        let s: i64 = starts[i];
        let skip: bool = match &event.recurrence {
            Some(rule) => {
                let h: bool = holds(&rule.exceptions, s);
                proof {
                    if h {
                        let k = choose|k: int| 0 <= k < rule.exceptions@.len() && rule.exceptions@[k] == s;
                        assert(rule@.exceptions[k] == s);
                    }
                }
                h
            },
            None => false,
        };
        assert(skip == excepted(event@, s as int));
        let end: i64 = if s > i64::MAX - duration {
            i64::MAX
        } else {
            s + duration
        };
        proof {
            table::lemma_filter_take(ints(starts@), q, i as int);
            assert(ints(starts@)[i as int] == s);
        }
        if !skip && s <= to && end >= from {
            let ghost before = out@;
            out.push(s);
            assert(ints(out@) =~= ints(before).push(s as int));
        }
        i = i + 1;
    }
    assert(ints(starts@).take(i as int) =~= ints(starts@));
    proof {
        if out.len() > 0 {
            let first = ints(out@)[0];
            assert(ints(out@).contains(first));
            table::lemma_filter_members(series(event@), q, first);
            let k = choose|k: int| 0 <= k < series(event@).len() && series(event@)[k] == first;
            if span_consistent(event@) {
                calendar_laws::lemma_series_end_bounds(event@, k);
            }
        }
    }
    out
}

/// Length of an occurrence, from start to end: zero where there is no end or the
/// end comes first.
pub open spec fn duration_of(start: int, end: Option<i64>) -> int {
    match end {
        Some(e) => at_least_zero(e - start),
        None => 0,
    }
}

/// The end of the whole series: of the only occurrence its end (or its start, where
/// it has none), of a recurring event the end of the last occurrence (or of the
/// start, where nothing occurs).
pub open spec fn series_end_of(event: CalendarEventView) -> int {
    match event.recurrence {
        None => match event.end {
            Some(e) => e as int,
            None => event.start as int,
        },
        Some(rule) => bounded_sum(
            if series(event).len() == 0 {
                event.start as int
            } else {
                series(event).last()
            },
            at_least_zero(event.duration_ms as int),
        ),
    }
}

/// Whether an event ends after it starts, where it has an end.
pub open spec fn end_follows(event: CalendarEventView) -> bool {
    event.end is Some ==> event.start < event.end->Some_0
}

/// Whether the length of an event without a rule is that from its start to its end, which
/// comes after it.
pub open spec fn span_consistent(event: CalendarEventView) -> bool {
    event.recurrence is None ==> end_follows(event) && event.duration_ms == duration_of(
        event.start as int,
        event.end,
    )
}

/// The first property that an event does not have, by name. They are looked at in
/// the order of this definition.
pub open spec fn first_problem(event: CalendarEventView) -> Option<&'static str> {
    if text::blank(event.title) || event.title.len() > 100 {
        Some("title")
    } else if !clock::zone_known(event.timezone) {
        Some("timezone")
    } else if event.description is Some && event.description->Some_0.len() > 2000 {
        Some("description")
    } else if event.location is Some && event.location->Some_0.len() > 200 {
        Some("location")
    } else if event.color is Some && event.color->Some_0.len() > 32 {
        Some("color")
    } else if event.end is Some && event.end->Some_0 <= event.start {
        Some("end")
    } else {
        match event.recurrence {
            Some(rule) => rule_problem(event, rule),
            None => None,
        }
    }
}

/// The first property that the rule of an event does not have, by name.
pub open spec fn rule_problem(event: CalendarEventView, rule: RecurrenceRuleView) -> Option<
    &'static str,
> {
    if !(1 <= rule.interval <= 52) {
        Some("interval")
    } else if rule.by_weekday.len() > 0 && rule.freq != Frequency::Weekly {
        Some("by_weekday")
    } else if rule.by_weekday.len() > 0 && !has_day(
        rule.by_weekday,
        clock::weekday_of(start_wall(event)),
    ) {
        Some("by_weekday_anchor")
    } else {
        match rule.end {
            RecurrenceEnd::Count { count } => if 1 <= count <= MAX_OCCURRENCES {
                None
            } else {
                Some("count")
            },
            RecurrenceEnd::Until { timestamp } => if timestamp < event.start {
                Some("until")
            } else if series(event).len() >= MAX_OCCURRENCES {
                Some("until_range")
            } else {
                None
            },
        }
    }
}

/// The outcome of a check that found a problem or none.
pub open spec fn checked(problem: Option<&'static str>) -> Result<(), Error> {
    match problem {
        Some(error) => Err(Error::FailedValidation { error }),
        None => Ok(()),
    }
}

fn longer_than(s: &Option<String>, max: usize) -> (r: bool)
    ensures
        r == (*s is Some && s->Some_0@.len() > max),
{
    match s {
        Some(x) => text::length(x.as_str()) > max,
        None => false,
    }
}

fn failed(error: &'static str) -> (r: Result<(), Error>)
    ensures
        r == checked(Some(error)),
{
    Err(Error::FailedValidation { error })
}

/// Fields of an event that can be unset.
#[derive(Clone, Copy, Debug, PartialEq, Eq)]
pub enum FieldsCalendarEvent {
    Channel,
    Description,
    Location,
    End,
    Recurrence,
    Color,
    SourceMessageId,
    EditedAt,
}

impl FieldsCalendarEvent {
    /// The name that the field is stored under.
    #[verifier::allow_in_spec]
    pub fn as_path(&self) -> (r: Option<&'static str>)
        returns
            (match *self {
                FieldsCalendarEvent::Channel => Some("channel"),
                FieldsCalendarEvent::Description => Some("description"),
                FieldsCalendarEvent::Location => Some("location"),
                FieldsCalendarEvent::End => Some("end"),
                FieldsCalendarEvent::Recurrence => Some("recurrence"),
                FieldsCalendarEvent::Color => Some("color"),
                FieldsCalendarEvent::SourceMessageId => Some("source_message_id"),
                FieldsCalendarEvent::EditedAt => Some("edited_at"),
            }),
    {
        match *self {
            FieldsCalendarEvent::Channel => Some("channel"),
            FieldsCalendarEvent::Description => Some("description"),
            FieldsCalendarEvent::Location => Some("location"),
            FieldsCalendarEvent::End => Some("end"),
            FieldsCalendarEvent::Recurrence => Some("recurrence"),
            FieldsCalendarEvent::Color => Some("color"),
            FieldsCalendarEvent::SourceMessageId => Some("source_message_id"),
            FieldsCalendarEvent::EditedAt => Some("edited_at"),
        }
    }
}

/// New values for some fields of an event.
#[derive(Debug, PartialEq, Eq)]
pub struct PartialCalendarEvent {
    pub id: Option<String>,
    pub server: Option<String>,
    pub channel: Option<String>,
    pub creator: Option<String>,
    pub title: Option<String>,
    pub description: Option<String>,
    pub location: Option<String>,
    pub start: Option<i64>,
    pub end: Option<i64>,
    pub duration_ms: Option<i64>,
    pub series_end: Option<i64>,
    pub all_day: Option<bool>,
    pub timezone: Option<String>,
    pub recurrence: Option<RecurrenceRule>,
    pub color: Option<String>,
    pub cancelled: Option<bool>,
    pub attachments: Option<Vec<File>>,
    pub source_message_id: Option<String>,
    pub created_at: Option<i64>,
    pub edited_at: Option<i64>,
}

impl Default for PartialCalendarEvent {
    /// No new value for any field.
    fn default() -> (r: Self)
        ensures
            r.changes_nothing(),
    {
        PartialCalendarEvent {
            id: None,
            server: None,
            channel: None,
            creator: None,
            title: None,
            description: None,
            location: None,
            start: None,
            end: None,
            duration_ms: None,
            series_end: None,
            all_day: None,
            timezone: None,
            recurrence: None,
            color: None,
            cancelled: None,
            attachments: None,
            source_message_id: None,
            created_at: None,
            edited_at: None,
        }
    }
}

/// Gives an optional rule its new value where there is one.
fn renew_rule(slot: &mut Option<RecurrenceRule>, new: Option<RecurrenceRule>)
    ensures
        opt_rule(*final(slot)) == patch::pick_opt(opt_rule(new), opt_rule(*old(slot))),
{
    if let Some(v) = new {
        *slot = Some(v);
    }
}

impl PartialCalendarEvent {
    /// Whether no field has a new value.
    pub open spec fn changes_nothing(self) -> bool {
        &&& self.id is None
        &&& self.server is None
        &&& self.channel is None
        &&& self.creator is None
        &&& self.title is None
        &&& self.description is None
        &&& self.location is None
        &&& self.start is None
        &&& self.end is None
        &&& self.duration_ms is None
        &&& self.series_end is None
        &&& self.all_day is None
        &&& self.timezone is None
        &&& self.recurrence is None
        &&& self.color is None
        &&& self.cancelled is None
        &&& self.attachments is None
        &&& self.source_message_id is None
        &&& self.created_at is None
        &&& self.edited_at is None
    }

    /// An event with the new values.
    pub open spec fn applied_to(self, event: CalendarEventView) -> CalendarEventView {
        CalendarEventView {
            id: patch::pick(text::opt_text(self.id), event.id),
            server: patch::pick(text::opt_text(self.server), event.server),
            channel: patch::pick_opt(text::opt_text(self.channel), event.channel),
            creator: patch::pick(text::opt_text(self.creator), event.creator),
            title: patch::pick(text::opt_text(self.title), event.title),
            description: patch::pick_opt(text::opt_text(self.description), event.description),
            location: patch::pick_opt(text::opt_text(self.location), event.location),
            start: patch::pick(self.start, event.start),
            end: patch::pick_opt(self.end, event.end),
            duration_ms: patch::pick(self.duration_ms, event.duration_ms),
            series_end: patch::pick(self.series_end, event.series_end),
            all_day: patch::pick(self.all_day, event.all_day),
            timezone: patch::pick(text::opt_text(self.timezone), event.timezone),
            recurrence: patch::pick_opt(opt_rule(self.recurrence), event.recurrence),
            color: patch::pick_opt(text::opt_text(self.color), event.color),
            cancelled: patch::pick(self.cancelled, event.cancelled),
            attachments: patch::pick_opt(table::opt_row_views(self.attachments), event.attachments),
            source_message_id: patch::pick_opt(
                text::opt_text(self.source_message_id),
                event.source_message_id,
            ),
            created_at: patch::pick(self.created_at, event.created_at),
            edited_at: patch::pick_opt(self.edited_at, event.edited_at),
        }
    }

    /// Whether a new value moves occurrences.
    pub open spec fn moves_time(self) -> bool {
        self.start is Some || self.end is Some || self.timezone is Some || self.recurrence is Some
    }
}

/// An event with a field unset.
pub open spec fn without_field(event: CalendarEventView, field: FieldsCalendarEvent) -> CalendarEventView {
    match field {
        FieldsCalendarEvent::Channel => CalendarEventView { channel: None, ..event },
        FieldsCalendarEvent::Description => CalendarEventView { description: None, ..event },
        FieldsCalendarEvent::Location => CalendarEventView { location: None, ..event },
        FieldsCalendarEvent::End => CalendarEventView { end: None, ..event },
        FieldsCalendarEvent::Recurrence => CalendarEventView { recurrence: None, ..event },
        FieldsCalendarEvent::Color => CalendarEventView { color: None, ..event },
        FieldsCalendarEvent::SourceMessageId => CalendarEventView {
            source_message_id: None,
            ..event
        },
        FieldsCalendarEvent::EditedAt => CalendarEventView { edited_at: None, ..event },
    }
}

/// An event with several fields unset, one after the other.
pub open spec fn without_fields(
    event: CalendarEventView,
    fields: Seq<FieldsCalendarEvent>,
) -> CalendarEventView
    decreases fields.len(),
{
    if fields.len() == 0 {
        event
    } else {
        without_field(without_fields(event, fields.drop_last()), fields.last())
    }
}

/// Whether a removal moves occurrences.
pub open spec fn removal_moves_time(fields: Seq<FieldsCalendarEvent>) -> bool {
    exists|i: int|
        0 <= i < fields.len() && (#[trigger] fields[i] == FieldsCalendarEvent::End || fields[i]
            == FieldsCalendarEvent::Recurrence)
}

/// An event with its exceptions dropped.
pub open spec fn without_exceptions(event: CalendarEventView) -> CalendarEventView {
    CalendarEventView {
        recurrence: match event.recurrence {
            Some(rule) => Some(RecurrenceRuleView { exceptions: Seq::empty(), ..rule }),
            None => None,
        },
        ..event
    }
}

/// An event with its derived duration.
pub open spec fn with_duration(event: CalendarEventView) -> CalendarEventView {
    CalendarEventView {
        duration_ms: duration_of(event.start as int, event.end) as i64,
        ..event
    }
}

/// An event with its derived series end.
pub open spec fn with_series_end(event: CalendarEventView) -> CalendarEventView {
    CalendarEventView { series_end: series_end_of(event) as i64, ..event }
}

/// An event after an edit: fields unset, new values applied, the duration derived,
/// exceptions dropped where an occurrence may have moved, then the series end
/// derived and the time of the edit noted.
pub open spec fn edited(
    event: CalendarEventView,
    partial: PartialCalendarEvent,
    remove: Seq<FieldsCalendarEvent>,
    now: i64,
) -> CalendarEventView {
    let changed = with_duration(partial.applied_to(without_fields(event, remove)));
    let kept = if partial.moves_time() || removal_moves_time(remove) {
        without_exceptions(changed)
    } else {
        changed
    };
    CalendarEventView { edited_at: Some(now), ..with_series_end(kept) }
}

/// Whether the time from start to end is a number that can be held.
pub open spec fn span_fits(start: int, end: Option<i64>) -> bool {
    end is Some ==> i64::MIN <= end->Some_0 - start <= i64::MAX
}

impl CalendarEvent {
    /// Derives the duration from start and end.
    pub(crate) fn recompute_duration(&mut self)
        requires
            span_fits(old(self).start as int, old(self).end),
        ensures
            final(self)@ == with_duration(old(self)@),
    {
        self.duration_ms = match self.end {
            Some(e) => {
                let d: i64 = e - self.start;
                if d < 0 {
                    0
                } else {
                    d
                }
            },
            None => 0,
        };
    }

    /// The end of the whole series. No occurrence ends after it.
    pub fn compute_series_end(&self) -> (r: i64)
        requires
            self.recurrence is Some ==> start_supported(self.start as int),
        ensures
            r == series_end_of(self@),
            span_consistent(self@) ==> forall|k: int|
                0 <= k < series(self@).len() ==> bounded_sum(
                    #[trigger] series(self@)[k],
                    at_least_zero(self.duration_ms as int),
                ) <= r,
    {
        let duration: i64 = if self.duration_ms < 0 {
            0
        } else {
            self.duration_ms
        };
        match &self.recurrence {
            None => match self.end {
                Some(e) => e,
                None => self.start,
            },
            Some(rule) => {
                let starts = series_occurrence_starts(self);
                proof {
                    assert forall|k: int| 0 <= k < series(self@).len() implies bounded_sum(
                        #[trigger] series(self@)[k],
                        at_least_zero(self.duration_ms as int),
                    ) <= series_end_of(self@) by {
                        calendar_laws::lemma_series_end_bounds(self@, k);
                    }
                }
                assert(ints(starts@).len() == starts@.len());
                let last: i64 = if starts.len() == 0 {
                    self.start
                } else {
                    assert(ints(starts@).last() == starts@[starts.len() - 1]);
                    starts[starts.len() - 1]
                };
                if last > i64::MAX - duration {
                    i64::MAX
                } else {
                    last + duration
                }
            },
        }
    }

    /// Checks what must hold of every stored event; the first property that does
    /// not hold is named in the error.
    pub fn validate(&self) -> (r: Result<(), Error>)
        requires
            self.recurrence is Some ==> start_supported(self.start as int),
        ensures
            r == checked(first_problem(self@)),
    {
        if text::is_blank(self.title.as_str()) || text::length(self.title.as_str()) > 100 {
            return failed("title");
        }
        if !clock::is_zone(self.timezone.as_str()) {
            return failed("timezone");
        }
        if longer_than(&self.description, 2000) {
            return failed("description");
        }
        if longer_than(&self.location, 200) {
            return failed("location");
        }
        if longer_than(&self.color, 32) {
            return failed("color");
        }
        if let Some(end) = self.end {
            if end <= self.start {
                return failed("end");
            }
        }
        if let Some(rule) = &self.recurrence {
            assert(self@.recurrence == Some(rule@));
            if !(1 <= rule.interval && rule.interval <= 52) {
                return failed("interval");
            }
            if rule.by_weekday.len() > 0 {
                let weekly: bool = match rule.freq {
                    Frequency::Weekly => true,
                    _ => false,
                };
                if !weekly {
                    return failed("by_weekday");
                }
                let wall: i64 = local_clock(self.timezone.as_str(), ms_to_utc(self.start));
                let anchor: i64 = days_from_monday(wall);
                let mut found: bool = false;
                let mut i: usize = 0;
                while i < rule.by_weekday.len() && !found
                    invariant
                        i <= rule.by_weekday.len(),
                        found ==> has_day(rule.by_weekday@, anchor as int),
                        !found ==> forall|j: int|
                            0 <= j < i ==> (#[trigger] rule.by_weekday@[j]).number() != anchor,
                    decreases rule.by_weekday.len() - i + (if found { 0int } else { 1int }),
                {
                    if rule.by_weekday[i].num_from_monday() == anchor {
                        assert(rule.by_weekday@[i as int].number() == anchor);
                        found = true;
                    } else {
                        i = i + 1;
                    }
                }
                if !found {
                    return failed("by_weekday_anchor");
                }
            }
            match rule.end {
                RecurrenceEnd::Count { count } => {
                    if count < 1 || count as usize > MAX_OCCURRENCES {
                        return failed("count");
                    }
                },
                RecurrenceEnd::Until { timestamp } => {
                    if timestamp < self.start {
                        return failed("until");
                    }
                    let starts = series_occurrence_starts(self);
                    assert(ints(starts@).len() == starts@.len());
                    if starts.len() >= MAX_OCCURRENCES {
                        return failed("until_range");
                    }
                },
            }
        }
        Ok(())
    }

    /// Unsets an optional field.
    pub fn remove_field(&mut self, field: &FieldsCalendarEvent)
        ensures
            final(self)@ == without_field(old(self)@, *field),
    {
        match field {
            FieldsCalendarEvent::Channel => {
                self.channel = None;
            },
            FieldsCalendarEvent::Description => {
                self.description = None;
            },
            FieldsCalendarEvent::Location => {
                self.location = None;
            },
            FieldsCalendarEvent::End => {
                self.end = None;
            },
            FieldsCalendarEvent::Recurrence => {
                self.recurrence = None;
            },
            FieldsCalendarEvent::Color => {
                self.color = None;
            },
            FieldsCalendarEvent::SourceMessageId => {
                self.source_message_id = None;
            },
            FieldsCalendarEvent::EditedAt => {
                self.edited_at = None;
            },
        }
    }

    /// Unsets several optional fields.
    pub(crate) fn remove_fields(&mut self, fields: &Vec<FieldsCalendarEvent>)
        ensures
            final(self)@ == without_fields(old(self)@, fields@),
    {
        let mut i: usize = 0;
        assert(fields@.take(0) =~= Seq::<FieldsCalendarEvent>::empty());
        while i < fields.len()
            invariant
                i <= fields.len(),
                self@ == without_fields(old(self)@, fields@.take(i as int)),
            decreases fields.len() - i,
        {
            assert(fields@.take(i + 1).drop_last() =~= fields@.take(i as int));
            self.remove_field(&fields[i]);
            i = i + 1;
        }
        assert(fields@.take(i as int) =~= fields@);
    }

    /// Applies new values.
    pub fn apply_options(&mut self, partial: PartialCalendarEvent)
        ensures
            final(self)@ == partial.applied_to(old(self)@),
    {
        renew_text(&mut self.id, partial.id);
        renew_text(&mut self.server, partial.server);
        renew_opt_text(&mut self.channel, partial.channel);
        renew_text(&mut self.creator, partial.creator);
        renew_text(&mut self.title, partial.title);
        renew_opt_text(&mut self.description, partial.description);
        renew_opt_text(&mut self.location, partial.location);
        renew(&mut self.start, partial.start);
        renew_opt(&mut self.end, partial.end);
        renew(&mut self.duration_ms, partial.duration_ms);
        renew(&mut self.series_end, partial.series_end);
        renew(&mut self.all_day, partial.all_day);
        renew_text(&mut self.timezone, partial.timezone);
        renew_rule(&mut self.recurrence, partial.recurrence);
        renew_opt_text(&mut self.color, partial.color);
        renew(&mut self.cancelled, partial.cancelled);
        renew_opt_rows(&mut self.attachments, partial.attachments);
        renew_opt_text(&mut self.source_message_id, partial.source_message_id);
        renew(&mut self.created_at, partial.created_at);
        renew_opt(&mut self.edited_at, partial.edited_at);
    }

    /// Applies an edit at a given time and checks the result. The derived fields are
    /// recomputed, and exceptions are dropped where an occurrence may have moved.
    pub fn apply_edit(
        &mut self,
        partial: PartialCalendarEvent,
        remove: &Vec<FieldsCalendarEvent>,
        now: i64,
    ) -> (r: Result<(), Error>)
        requires
            edit_supported(old(self)@, partial, remove@),
        ensures
            final(self)@ == edited(old(self)@, partial, remove@, now),
            r == checked(first_problem(final(self)@)),
    {
        let moves: bool = partial.start.is_some() || partial.end.is_some()
            || partial.timezone.is_some() || partial.recurrence.is_some() || moves_time(remove);
        self.remove_fields(remove);
        self.apply_options(partial);
        self.recompute_duration();
        if moves {
            if let Some(mut rule) = self.recurrence.take() {
                rule.exceptions = Vec::new();
                assert(rule@.exceptions =~= Seq::empty());
                self.recurrence = Some(rule);
            }
        }
        proof {
            assert(self@.recurrence is Some <==> self.recurrence is Some);
        }
        self.series_end = self.compute_series_end();
        self.edited_at = Some(now);
        self.validate()
    }
}

/// Whether the result of an edit has a span that can be held and a start whose
/// series can be laid out.
pub open spec fn edit_supported(
    event: CalendarEventView,
    partial: PartialCalendarEvent,
    remove: Seq<FieldsCalendarEvent>,
) -> bool {
    let changed = partial.applied_to(without_fields(event, remove));
    &&& span_fits(changed.start as int, changed.end)
    &&& changed.recurrence is Some ==> start_supported(changed.start as int)
}

/// Whether a removal moves occurrences.
fn moves_time(fields: &Vec<FieldsCalendarEvent>) -> (r: bool)
    ensures
        r == removal_moves_time(fields@),
{
    let mut i: usize = 0;
    while i < fields.len()
        invariant
            i <= fields.len(),
            forall|j: int|
                0 <= j < i ==> #[trigger] fields@[j] != FieldsCalendarEvent::End && fields@[j]
                    != FieldsCalendarEvent::Recurrence,
        decreases fields.len() - i,
    {
        match fields[i] {
            FieldsCalendarEvent::End | FieldsCalendarEvent::Recurrence => {
                assert(fields@[i as int] == FieldsCalendarEvent::End || fields@[i as int]
                    == FieldsCalendarEvent::Recurrence);
                return true;
            },
            _ => {},
        }
        i = i + 1;
    }
    false
}

impl RecurrenceRule {
    /// A copy of the rule.
    pub fn copy(&self) -> (r: Self)
        ensures
            r@ == self@,
    {
        RecurrenceRule {
            freq: self.freq,
            interval: self.interval,
            by_weekday: copy_days(&self.by_weekday),
            end: self.end,
            exceptions: copy_ints(&self.exceptions),
        }
    }
}

fn copy_days(list: &Vec<Weekday>) -> (r: Vec<Weekday>)
    ensures
        r@ == list@,
{
    let mut out: Vec<Weekday> = Vec::new();
    let mut i: usize = 0;
    while i < list.len()
        invariant
            i <= list.len(),
            out@ == list@.take(i as int),
        decreases list.len() - i,
    {
        out.push(list[i]);
        assert(list@.take(i + 1) =~= list@.take(i as int).push(list@[i as int]));
        i = i + 1;
    }
    assert(list@.take(i as int) =~= list@);
    out
}

fn copy_ints(list: &Vec<i64>) -> (r: Vec<i64>)
    ensures
        r@ == list@,
{
    let mut out: Vec<i64> = Vec::new();
    let mut i: usize = 0;
    while i < list.len()
        invariant
            i <= list.len(),
            out@ == list@.take(i as int),
        decreases list.len() - i,
    {
        out.push(list[i]);
        assert(list@.take(i + 1) =~= list@.take(i as int).push(list@[i as int]));
        i = i + 1;
    }
    assert(list@.take(i as int) =~= list@);
    out
}

impl Row for CalendarEvent {
    fn dup(&self) -> (r: Self) {
        CalendarEvent {
            id: self.id.clone(),
            server: self.server.clone(),
            channel: copy_opt(&self.channel),
            creator: self.creator.clone(),
            title: self.title.clone(),
            description: copy_opt(&self.description),
            location: copy_opt(&self.location),
            start: self.start,
            end: self.end,
            duration_ms: self.duration_ms,
            series_end: self.series_end,
            all_day: self.all_day,
            timezone: self.timezone.clone(),
            recurrence: match &self.recurrence {
                Some(rule) => Some(rule.copy()),
                None => None,
            },
            color: copy_opt(&self.color),
            cancelled: self.cancelled,
            attachments: table::copy_opt_rows(&self.attachments),
            source_message_id: copy_opt(&self.source_message_id),
            created_at: self.created_at,
            edited_at: self.edited_at,
        }
    }
}

/// What identifies an RSVP: an event and a user.
#[derive(Clone, Debug, PartialEq, Eq)]
pub struct EventRsvpKey {
    pub event: String,
    pub user: String,
}

/// How an invitee answered.
#[derive(Clone, Copy, Debug, PartialEq, Eq)]
pub enum RsvpStatus {
    /// Invited, no answer yet.
    Pending,
    /// Accepted.
    Going,
    /// Declined, or withdrawn after accepting.
    NotGoing,
}

/// A user's RSVP to an event.
#[derive(Clone, Debug, PartialEq, Eq)]
pub struct EventRsvp {
    pub id: EventRsvpKey,
    pub status: RsvpStatus,
    /// The user who issued the invite.
    pub invited_by: String,
    /// Whether this user ever accepted.
    pub had_accepted: bool,
    pub created_at: i64,
    pub responded_at: Option<i64>,
}

impl View for EventRsvp {
    type V = EventRsvp;

    open spec fn view(&self) -> EventRsvp {
        *self
    }
}

impl Row for EventRsvp {
    fn dup(&self) -> (r: Self) {
        EventRsvp {
            id: EventRsvpKey { event: self.id.event.clone(), user: self.id.user.clone() },
            status: self.status,
            invited_by: self.invited_by.clone(),
            had_accepted: self.had_accepted,
            created_at: self.created_at,
            responded_at: self.responded_at,
        }
    }
}

/// An RSVP after a response at a given time. `Pending` cannot be chosen; accepting
/// is remembered.
pub open spec fn responded(rsvp: EventRsvp, target: RsvpStatus, now: i64) -> EventRsvp {
    match target {
        RsvpStatus::Pending => rsvp,
        RsvpStatus::Going => EventRsvp {
            status: RsvpStatus::Going,
            had_accepted: true,
            responded_at: Some(now),
            ..rsvp
        },
        RsvpStatus::NotGoing => EventRsvp {
            status: RsvpStatus::NotGoing,
            responded_at: Some(now),
            ..rsvp
        },
    }
}

impl EventRsvp {
    /// A pending invite, issued at a given time.
    pub fn invite_at(event_id: &str, user_id: &str, invited_by: &str, now: i64) -> (r: EventRsvp)
        ensures
            r.id.event@ == event_id@,
            r.id.user@ == user_id@,
            r.status == RsvpStatus::Pending,
            r.invited_by@ == invited_by@,
            !r.had_accepted,
            r.created_at == now,
            r.responded_at is None,
    {
        EventRsvp {
            id: EventRsvpKey { event: event_id.to_owned(), user: user_id.to_owned() },
            status: RsvpStatus::Pending,
            invited_by: invited_by.to_owned(),
            had_accepted: false,
            created_at: now,
            responded_at: None,
        }
    }

    /// A pending invite, issued now.
    pub fn new_invite(event_id: &str, user_id: &str, invited_by: &str) -> (r: EventRsvp)
        ensures
            r.id.event@ == event_id@,
            r.id.user@ == user_id@,
            r.status == RsvpStatus::Pending,
            r.invited_by@ == invited_by@,
            !r.had_accepted,
            r.responded_at is None,
    {
        EventRsvp::invite_at(event_id, user_id, invited_by, now_ms())
    }

    /// Applies a response that came at a given time.
    pub fn respond_at(&mut self, target: RsvpStatus, now: i64) -> (r: Result<(), Error>)
        ensures
            *final(self) == responded(*old(self), target, now),
            r == (if target == RsvpStatus::Pending {
                Err::<(), Error>(Error::InvalidOperation)
            } else {
                Ok(())
            }),
    {
        match target {
            RsvpStatus::Pending => {
                return Err(Error::InvalidOperation);
            },
            RsvpStatus::Going => {
                self.status = RsvpStatus::Going;
                self.had_accepted = true;
            },
            RsvpStatus::NotGoing => {
                self.status = RsvpStatus::NotGoing;
            },
        }
        self.responded_at = Some(now);
        Ok(())
    }

    /// Applies a response that came now.
    pub fn apply_response(&mut self, target: RsvpStatus) -> (r: Result<(), Error>)
        ensures
            exists|now: i64| *final(self) == #[trigger] responded(*old(self), target, now),
            r == (if target == RsvpStatus::Pending {
                Err::<(), Error>(Error::InvalidOperation)
            } else {
                Ok(())
            }),
    {
        self.respond_at(target, now_ms())
    }
}

/// What identifies a reminder: an event, a user, an occurrence and how long before
/// it the reminder is due.
#[derive(Clone, Debug, PartialEq, Eq)]
pub struct ReminderSentKey {
    pub event: String,
    pub user: String,
    pub occurrence: i64,
    pub offset: i64,
}

/// A reminder that was sent.
#[derive(Clone, Debug, PartialEq, Eq)]
pub struct ReminderSent {
    pub id: ReminderSentKey,
    pub sent_at: i64,
}

impl View for ReminderSent {
    type V = ReminderSent;

    open spec fn view(&self) -> ReminderSent {
        *self
    }
}

impl Row for ReminderSent {
    fn dup(&self) -> (r: Self) {
        ReminderSent { id: self.id.copy(), sent_at: self.sent_at }
    }
}

impl ReminderSentKey {
    /// A copy of the key.
    pub fn copy(&self) -> (r: Self)
        ensures
            r == *self,
    {
        ReminderSentKey {
            event: self.event.clone(),
            user: self.user.clone(),
            occurrence: self.occurrence,
            offset: self.offset,
        }
    }
}

} // verus!
