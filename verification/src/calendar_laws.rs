//! What holds of every series, window, edit and answer.
use crate::calendar::{
    self, CalendarEventView, EventRsvp, FieldsCalendarEvent, Frequency, PartialCalendarEvent,
    RecurrenceEnd, RecurrenceRuleView, RsvpStatus, Weekday, MAX_OCCURRENCES,
};
use crate::channel_laws;
use crate::clock::{self, DAY_MS, EPOCH_DAY};
use crate::table;
use crate::text;
use vstd::prelude::*;

verus! {

/// A series has at most as many occurrences as its rule's count, and never more
/// than 730.
pub proof fn law_series_is_bounded(event: CalendarEventView)
    ensures
        calendar::series(event).len() <= MAX_OCCURRENCES,
        event.recurrence matches Some(rule) ==> (rule.end matches RecurrenceEnd::Count { count }
            ==> calendar::series(event).len() <= count),
{
    if let Some(rule) = event.recurrence {
        lemma_length_within_cap(
            rule,
            clock::zone_used(event.timezone),
            calendar::start_wall(event),
            0,
        );
    }
}

proof fn lemma_length_within_cap(rule: RecurrenceRuleView, zone: Seq<char>, wall: int, k: int)
    requires
        0 <= k <= calendar::occurrence_cap(rule),
    ensures
        calendar::occurrences_from(rule, zone, wall, k) <= calendar::occurrence_cap(rule) - k,
    decreases calendar::occurrence_cap(rule) - k,
{
    if k < calendar::occurrence_cap(rule) {
        lemma_length_within_cap(rule, zone, wall, k + 1);
    }
}

proof fn lemma_occurrence_goes_on(
    rule: RecurrenceRuleView,
    zone: Seq<char>,
    wall: int,
    k: int,
    i: int,
)
    requires
        k <= i < k + calendar::occurrences_from(rule, zone, wall, k),
    ensures
        calendar::goes_on(rule, zone, wall, i),
    decreases i - k,
{
    if k < i {
        lemma_occurrence_goes_on(rule, zone, wall, k + 1, i);
    }
}

/// Every occurrence is one of the rule's readings, taken as an instant, and none
/// lies after the instant at which the rule ends.
pub proof fn law_no_occurrence_after_the_end(event: CalendarEventView, i: int)
    requires
        event.recurrence is Some,
        0 <= i < calendar::series(event).len(),
    ensures
        calendar::candidate(event.recurrence->Some_0, calendar::start_wall(event), i) is Some,
        !calendar::past_end(event.recurrence->Some_0, calendar::series(event)[i]),
{
    lemma_occurrence_goes_on(
        event.recurrence->Some_0,
        clock::zone_used(event.timezone),
        calendar::start_wall(event),
        0,
        i,
    );
}

/// Walking through a list of weekdays week by week: `j` days of the list on.
spec fn weekday_step(days: Seq<int>, interval: int, j: int) -> int {
    interval * (j / days.len() as int) * 7 + days[j % days.len() as int]
}

proof fn lemma_days_ascending(days: Seq<Weekday>, d: int)
    requires
        0 <= d <= 7,
    ensures
        calendar::ascending(calendar::days_from(days, d)),
        forall|i: int|
            0 <= i < calendar::days_from(days, d).len() ==> d <= #[trigger] calendar::days_from(
                days,
                d,
            )[i] < 7,
    decreases 7 - d,
{
    if d < 7 {
        lemma_days_ascending(days, d + 1);
        let rest = calendar::days_from(days, d + 1);
        let all = calendar::days_from(days, d);
        if calendar::has_day(days, d) {
            assert forall|i: int| 0 <= i < all.len() implies d <= #[trigger] all[i] < 7 by {
                if i > 0 {
                    assert(all[i] == rest[i - 1]);
                }
            }
            assert forall|a: int, b: int| 0 <= a < b < all.len() implies #[trigger] all[a]
                < #[trigger] all[b] by {
                assert(all[b] == rest[b - 1]);
                if a > 0 {
                    assert(all[a] == rest[a - 1]);
                }
            }
        } else {
            assert forall|i: int| 0 <= i < all.len() implies d <= #[trigger] all[i] < 7 by {
                assert(all[i] == rest[i]);
            }
        }
    }
}

proof fn lemma_weekday_steps(days: Seq<int>, interval: int, j: int)
    requires
        days.len() > 0,
        calendar::ascending(days),
        forall|i: int| 0 <= i < days.len() ==> 0 <= #[trigger] days[i] < 7,
        interval >= 1,
        j >= 0,
    ensures
        weekday_step(days, interval, j) + 1 <= weekday_step(days, interval, j + 1),
{
    let n = days.len() as int;
    let b = j / n;
    let r = j % n;
    assert(j == b * n + r && 0 <= r < n) by (nonlinear_arith)
        requires
            n > 0,
            b == j / n,
            r == j % n,
    ;
    if r + 1 < n {
        assert((j + 1) / n == b && (j + 1) % n == r + 1) by {
            vstd::arithmetic::div_mod::lemma_fundamental_div_mod_converse(j + 1, n, b, r + 1);
        }
        assert(days[r] < days[r + 1]);
    } else {
        assert((j + 1) / n == b + 1 && (j + 1) % n == 0) by {
            assert((b + 1) * n == b * n + n) by (nonlinear_arith);
            vstd::arithmetic::div_mod::lemma_fundamental_div_mod_converse(j + 1, n, b + 1, 0);
        }
        assert(interval * (b + 1) == interval * b + interval) by (nonlinear_arith);
        assert(0 <= days[0] && days[r] < 7);
    }
}

proof fn lemma_weekday_walk(days: Seq<int>, interval: int, j: int, j2: int)
    requires
        days.len() > 0,
        calendar::ascending(days),
        forall|i: int| 0 <= i < days.len() ==> 0 <= #[trigger] days[i] < 7,
        interval >= 1,
        0 <= j < j2,
    ensures
        weekday_step(days, interval, j) + 1 <= weekday_step(days, interval, j2),
    decreases j2 - j,
{
    lemma_weekday_steps(days, interval, j2 - 1);
    if j + 1 < j2 {
        lemma_weekday_walk(days, interval, j, j2 - 1);
    }
}

proof fn lemma_count_below_not_negative(list: Seq<int>, bound: int)
    ensures
        0 <= calendar::count_below(list, bound) <= list.len(),
    decreases list.len(),
{
    if list.len() > 0 {
        lemma_count_below_not_negative(list.drop_last(), bound);
    }
}

/// The readings of a rule come at least a day apart, in the order of their numbers.
pub proof fn law_readings_are_days_apart(rule: RecurrenceRuleView, wall: int, k: int, k2: int)
    requires
        0 <= k < k2,
        calendar::candidate(rule, wall, k) is Some,
        calendar::candidate(rule, wall, k2) is Some,
        clock::on_calendar(wall),
    ensures
        calendar::candidate(rule, wall, k)->Some_0 + DAY_MS <= calendar::candidate(
            rule,
            wall,
            k2,
        )->Some_0,
{
    let interval = calendar::interval_of(rule);
    assert(interval * k + 1 <= interval * k2) by (nonlinear_arith)
        requires
            interval >= 1,
            k < k2,
    ;
    match rule.freq {
        Frequency::Daily => {},
        Frequency::Weekly => {
            if rule.by_weekday.len() > 0 {
                let days = calendar::days_from(rule.by_weekday, 0);
                lemma_days_ascending(rule.by_weekday, 0);
                lemma_some_day(rule.by_weekday);
                lemma_count_below_not_negative(days, clock::weekday_of(wall));
                let skipped = calendar::count_below(days, clock::weekday_of(wall));
                lemma_weekday_walk(days, interval, k + skipped, k2 + skipped);
            }
        },
        Frequency::Monthly => {
            let first = clock::date_numbered(clock::day_of(wall) + EPOCH_DAY);
            let a = clock::months_later(first.0, first.1 - 1, interval * k);
            let b = clock::months_later(first.0, first.1 - 1, interval * k2);
            let last_a = clock::last_day(a.0, a.1);
            let last_b = clock::last_day(b.0, b.1);
            let day_a = if first.2 < last_a { first.2 } else { last_a };
            let day_b = if first.2 < last_b { first.2 } else { last_b };
            clock::lemma_day_number_increases(a.0, a.1, day_a, b.0, b.1, day_b);
        },
    }
}

proof fn lemma_some_day(list: Seq<Weekday>)
    requires
        list.len() > 0,
    ensures
        calendar::days_from(list, 0).len() > 0,
{
    let w = list[0].number();
    assert(calendar::has_day(list, w));
    lemma_some_day_from(list, 0, w);
}

proof fn lemma_some_day_from(list: Seq<Weekday>, d: int, w: int)
    requires
        0 <= d <= w < 7,
        calendar::has_day(list, w),
    ensures
        calendar::days_from(list, d).len() > 0,
    decreases 7 - d,
{
    if d < w && !calendar::has_day(list, d) {
        lemma_some_day_from(list, d + 1, w);
    }
}

proof fn lemma_count_below_finds(list: Seq<int>, v: int, at: int)
    requires
        calendar::ascending(list),
        0 <= at < list.len(),
        list[at] == v,
    ensures
        calendar::count_below(list, v) == at,
    decreases list.len(),
{
    let rest = list.drop_last();
    if at == list.len() - 1 {
        lemma_count_below_all(rest, v);
        assert forall|i: int| 0 <= i < rest.len() implies #[trigger] rest[i] < v by {
            assert(rest[i] == list[i] && list[i] < list[at]);
        }
    } else {
        assert(list[at] < list[list.len() - 1]);
        lemma_count_below_finds(rest, v, at);
    }
}

proof fn lemma_count_below_all(list: Seq<int>, v: int)
    ensures
        (forall|i: int| 0 <= i < list.len() ==> #[trigger] list[i] < v) ==> calendar::count_below(
            list,
            v,
        ) == list.len(),
    decreases list.len(),
{
    if list.len() > 0 {
        lemma_count_below_all(list.drop_last(), v);
        if forall|i: int| 0 <= i < list.len() ==> #[trigger] list[i] < v {
            assert(list[list.len() - 1] < v);
            assert forall|i: int| 0 <= i < list.drop_last().len() implies #[trigger] list.drop_last()[i]
                < v by {
                assert(list[i] < v);
            }
        }
    }
}

proof fn lemma_day_listed(days: Seq<Weekday>, d: int, v: int)
    requires
        0 <= d <= v < 7,
        calendar::has_day(days, v),
    ensures
        calendar::days_from(days, d).contains(v),
    decreases 7 - d,
{
    let all = calendar::days_from(days, d);
    if d == v {
        assert(all[0] == v);
    } else {
        lemma_day_listed(days, d + 1, v);
        let rest = calendar::days_from(days, d + 1);
        let i = choose|i: int| 0 <= i < rest.len() && rest[i] == v;
        if calendar::has_day(days, d) {
            assert(all[i + 1] == v);
        } else {
            assert(all[i] == v);
        }
    }
}

/// A series never drops its own start: the first reading of a valid event's rule is
/// the reading of the event's start. (Left out is the last month of the calendar.)
pub proof fn law_valid_series_begins_at_its_start(event: CalendarEventView)
    requires
        calendar::first_problem(event) is None,
        event.recurrence is Some,
        clock::on_calendar(calendar::start_wall(event)),
        calendar::start_wall(event) < clock::MAX_MS - 31 * DAY_MS,
    ensures
        calendar::candidate(event.recurrence->Some_0, calendar::start_wall(event), 0) == Some(
            calendar::start_wall(event),
        ),
{
    let rule = event.recurrence->Some_0;
    let wall = calendar::start_wall(event);
    let interval = calendar::interval_of(rule);
    assert(interval * 0 == 0) by (nonlinear_arith);
    match rule.freq {
        Frequency::Daily => {},
        Frequency::Weekly => {
            if rule.by_weekday.len() > 0 {
                let days = calendar::days_from(rule.by_weekday, 0);
                let anchor = clock::weekday_of(wall);
                lemma_days_ascending(rule.by_weekday, 0);
                lemma_day_listed(rule.by_weekday, 0, anchor);
                let at = choose|i: int| 0 <= i < days.len() && days[i] == anchor;
                lemma_count_below_finds(days, anchor, at);
                vstd::arithmetic::div_mod::lemma_small_mod(at as nat, days.len());
                vstd::arithmetic::div_mod::lemma_basic_div(at, days.len() as int);
            }
        },
        Frequency::Monthly => {
            clock::lemma_day_has_date(clock::day_of(wall) + EPOCH_DAY);
            let (y, m, d) = clock::date_numbered(clock::day_of(wall) + EPOCH_DAY);
            assert(clock::months_later(y, m - 1, 0) == (y, m));
            if y == clock::MAX_YEAR && m == 12 {
                assert(clock::days_before_month(y, 12) == 334) by {
                    reveal_with_fuel(clock::days_before_month, 13);
                }
                assert(false);
            }
        },
    }
}

/// The rule of a valid event has all the readings that a series can take, where the
/// calendar goes on long enough.
proof fn lemma_reading_exists(rule: RecurrenceRuleView, wall: int, k: int)
    requires
        1 <= rule.interval <= 52,
        0 <= k <= MAX_OCCURRENCES,
        clock::MIN_MS + 8 * DAY_MS <= wall <= clock::MAX_MS - 1_190_000 * DAY_MS,
    ensures
        calendar::candidate(rule, wall, k) is Some,
{
    let interval = calendar::interval_of(rule);
    assert(0 <= interval * k <= 37_960) by (nonlinear_arith)
        requires
            1 <= interval <= 52,
            0 <= k <= 730,
    ;
    match rule.freq {
        Frequency::Daily => {},
        Frequency::Weekly => {
            if rule.by_weekday.len() > 0 {
                let days = calendar::days_from(rule.by_weekday, 0);
                lemma_days_ascending(rule.by_weekday, 0);
                lemma_some_day(rule.by_weekday);
                lemma_days_few(rule.by_weekday, 0);
                lemma_count_below_not_negative(days, clock::weekday_of(wall));
                let n = days.len() as int;
                let j = k + calendar::count_below(days, clock::weekday_of(wall));
                let week = j / n;
                assert(0 <= week <= j && 0 <= j % n < n) by (nonlinear_arith)
                    requires
                        n > 0,
                        j >= 0,
                        week == j / n,
                ;
                assert(0 <= interval * week <= 38_324) by (nonlinear_arith)
                    requires
                        1 <= interval <= 52,
                        0 <= week <= 737,
                ;
                assert(0 <= days[j % n] < 7);
            }
        },
        Frequency::Monthly => {
            clock::lemma_day_has_date(clock::day_of(wall) + EPOCH_DAY);
            let (y, m, d) = clock::date_numbered(clock::day_of(wall) + EPOCH_DAY);
            let last = clock::MAX_YEAR - 3_170;
            if y > last {
                assert(clock::day_number(last, 1, 1) > 94_580_000) by {
                    assert(clock::days_before_month(last, 1) == 0);
                }
                clock::lemma_day_number_increases(last, 1, 1, y, m, d);
                assert(false);
            }
            let month = clock::months_later(y, m - 1, interval * k);
            assert(y <= month.0 <= y + 3_164);
            assert(clock::last_day(month.0, month.1) == clock::days_in_month(month.0, month.1));
        },
    }
}

proof fn lemma_days_few(days: Seq<Weekday>, d: int)
    requires
        0 <= d <= 7,
    ensures
        calendar::days_from(days, d).len() <= 7 - d,
    decreases 7 - d,
{
    if d < 7 {
        lemma_days_few(days, d + 1);
    }
}

proof fn lemma_all_go_on(rule: RecurrenceRuleView, zone: Seq<char>, wall: int, k: int)
    requires
        rule.end is Count,
        1 <= rule.interval <= 52,
        0 <= k <= calendar::occurrence_cap(rule),
        clock::MIN_MS + 8 * DAY_MS <= wall <= clock::MAX_MS - 1_190_000 * DAY_MS,
    ensures
        calendar::occurrences_from(rule, zone, wall, k) == calendar::occurrence_cap(rule) - k,
    decreases calendar::occurrence_cap(rule) - k,
{
    if k < calendar::occurrence_cap(rule) {
        lemma_reading_exists(rule, wall, k);
        assert(calendar::goes_on(rule, zone, wall, k));
        lemma_all_go_on(rule, zone, wall, k + 1);
    }
}

/// A valid series with a count has exactly as many occurrences, in every zone. (Left out
/// are the first days and the last three thousand years of the calendar.)
pub proof fn law_counted_series_is_complete(event: CalendarEventView)
    requires
        calendar::first_problem(event) is None,
        event.recurrence is Some,
        event.recurrence->Some_0.end is Count,
        clock::MIN_MS + 8 * DAY_MS <= calendar::start_wall(event) <= clock::MAX_MS - 1_190_000
            * DAY_MS,
    ensures
        calendar::series(event).len() == event.recurrence->Some_0.end->count,
{
    lemma_all_go_on(
        event.recurrence->Some_0,
        clock::zone_used(event.timezone),
        calendar::start_wall(event),
        0,
    );
}

/// With the starts of a series in order, no occurrence ends after the end of the series.
pub proof fn lemma_series_end_bounds(event: CalendarEventView, k: int)
    requires
        0 <= k < calendar::series(event).len(),
        calendar::in_order(calendar::series(event)),
        calendar::span_consistent(event),
    ensures
        calendar::bounded_sum(
            calendar::series(event)[k],
            calendar::at_least_zero(event.duration_ms as int),
        ) <= calendar::series_end_of(event),
{
    if k < calendar::series(event).len() - 1 {
        assert(calendar::series(event)[k] <= calendar::series(event)[calendar::series(event).len()
            - 1]);
    }
}

/// What a window returns are occurrences of the series: none of them excepted, each
/// starting no later than the window's end and ending no earlier than its start.
/// And it returns every such occurrence.
pub proof fn law_window_returns_the_overlapping(event: CalendarEventView, from: int, to: int, ms: int)
    ensures
        calendar::series(event).filter(
            |s: int| calendar::in_window(event, from, to, s),
        ).contains(ms) <==> {
            &&& calendar::series(event).contains(ms)
            &&& !calendar::excepted(event, ms)
            &&& ms <= to
            &&& calendar::bounded_sum(
                ms,
                calendar::at_least_zero(event.duration_ms as int),
            ) >= from
        },
{
    table::lemma_filter_members(
        calendar::series(event),
        |s: int| calendar::in_window(event, from, to, s),
        ms,
    );
}

/// An event with an occurrence in a window is found by the bounds that it is stored
/// with: its start is not after the window's end, and its series end not before the
/// window's start. So a series that began before the window is found.
pub proof fn law_stored_bounds_find_the_series(
    event: CalendarEventView,
    from: int,
    to: int,
    k: int,
)
    requires
        event.recurrence is Some,
        event.series_end == calendar::series_end_of(event),
        0 <= k < calendar::series(event).len(),
        calendar::in_window(event, from, to, calendar::series(event)[k]),
        event.start <= calendar::series(event)[k] <= calendar::series(event).last(),
    ensures
        event.start <= to,
        event.series_end >= from,
{
}

/// An edit that moves no occurrence keeps the exceptions; one that may move an
/// occurrence leaves none.
pub proof fn law_edit_and_exceptions(
    event: CalendarEventView,
    partial: PartialCalendarEvent,
    remove: Seq<FieldsCalendarEvent>,
    now: i64,
)
    ensures
        ({
            let result = calendar::edited(event, partial, remove, now);
            if partial.moves_time() || calendar::removal_moves_time(remove) {
                result.recurrence matches Some(rule) ==> rule.exceptions.len() == 0
            } else {
                result.recurrence == event.recurrence
            }
        }),
{
    if !(partial.moves_time() || calendar::removal_moves_time(remove)) {
        lemma_recurrence_kept(event, remove);
    }
}

proof fn lemma_recurrence_kept(event: CalendarEventView, remove: Seq<FieldsCalendarEvent>)
    requires
        !calendar::removal_moves_time(remove),
    ensures
        calendar::without_fields(event, remove).recurrence == event.recurrence,
    decreases remove.len(),
{
    if remove.len() > 0 {
        let rest = remove.drop_last();
        assert(remove[remove.len() - 1] == remove.last());
        assert(!calendar::removal_moves_time(rest)) by {
            if calendar::removal_moves_time(rest) {
                let i = choose|i: int|
                    0 <= i < rest.len() && (#[trigger] rest[i] == FieldsCalendarEvent::End || rest[i]
                        == FieldsCalendarEvent::Recurrence);
                assert(remove[i] == rest[i]);
            }
        }
        lemma_recurrence_kept(event, rest);
    }
}

/// After an edit the duration and the series end are those that follow from the
/// other fields.
pub proof fn law_edit_derives(
    event: CalendarEventView,
    partial: PartialCalendarEvent,
    remove: Seq<FieldsCalendarEvent>,
    now: i64,
)
    requires
        calendar::edit_supported(event, partial, remove),
    ensures
        ({
            let result = calendar::edited(event, partial, remove, now);
            &&& result.duration_ms == calendar::duration_of(result.start as int, result.end)
            &&& result.series_end == calendar::series_end_of(result)
            &&& result.edited_at == Some(now)
        }),
{
    let changed = calendar::with_duration(
        partial.applied_to(calendar::without_fields(event, remove)),
    );
    let kept = if partial.moves_time() || calendar::removal_moves_time(remove) {
        calendar::without_exceptions(changed)
    } else {
        changed
    };
    let result = calendar::edited(event, partial, remove, now);
    assert(calendar::series(kept) == calendar::series(result));
    assert(calendar::series_end_of(kept) == calendar::series_end_of(result));
    lemma_series_end_fits(kept);
}

proof fn lemma_series_end_fits(event: CalendarEventView)
    ensures
        i64::MIN <= calendar::series_end_of(event) <= i64::MAX,
{
}

/// Once a user has accepted, no later answer makes that undone; an answer never
/// changes whose RSVP it is, who issued the invite or when.
pub proof fn law_acceptance_is_remembered(rsvp: EventRsvp, target: RsvpStatus, now: i64)
    ensures
        rsvp.had_accepted ==> calendar::responded(rsvp, target, now).had_accepted,
        target == RsvpStatus::Going ==> calendar::responded(rsvp, target, now).had_accepted,
        calendar::responded(rsvp, target, now).id == rsvp.id,
        calendar::responded(rsvp, target, now).invited_by == rsvp.invited_by,
        calendar::responded(rsvp, target, now).created_at == rsvp.created_at,
{
}

/// How many days, weeks or months a rule steps by: as many as its interval, and at least
/// one.
pub open spec fn steps_of(rule: RecurrenceRuleView) -> int {
    if rule.interval >= 1 {
        rule.interval as int
    } else {
        1
    }
}

/// How many days so many steps of a weekly rule are.
pub open spec fn days_of_steps(rule: RecurrenceRuleView, count: int) -> int {
    count * (7 * steps_of(rule))
}

/// Readings of a daily rule are as many days apart as its interval says; those of a weekly
/// rule without a list of weekdays as many weeks. They begin at the first reading.
pub proof fn law_days_and_weeks_step_by_the_interval(
    rule: RecurrenceRuleView,
    wall: int,
    k: int,
)
    requires
        k >= 0,
        clock::on_calendar(wall),
        rule.freq == Frequency::Daily || rule.freq == Frequency::Weekly && rule.by_weekday.len()
            == 0,
    ensures
        calendar::candidate(rule, wall, 0) == Some(wall),
        calendar::candidate(rule, wall, k) is Some && calendar::candidate(rule, wall, k + 1)
            is Some ==> calendar::candidate(rule, wall, k + 1)->Some_0 - calendar::candidate(
            rule,
            wall,
            k,
        )->Some_0 == steps_of(rule) * DAY_MS * if rule.freq == Frequency::Daily {
            1int
        } else {
            7int
        },
        calendar::candidate(rule, wall, k + 1) is Some ==> calendar::candidate(rule, wall, k)
            is Some,
{
    let n = calendar::interval_of(rule);
    assert(n * (k + 1) == n * k + n) by (nonlinear_arith);
    assert(n * 0 == 0) by (nonlinear_arith);
    assert(n * k >= 0) by (nonlinear_arith)
        requires
            n >= 0,
            k >= 0,
    ;
}

/// Every reading of a weekly rule with a list of weekdays falls on one of them, at the time
/// of day of the first reading and not before it, in a week that is a multiple of the
/// interval after the week of the first.
pub proof fn law_listed_weekdays_are_kept(rule: RecurrenceRuleView, wall: int, k: int)
    requires
        k >= 0,
        clock::on_calendar(wall),
        rule.freq == Frequency::Weekly,
        rule.by_weekday.len() > 0,
        calendar::candidate(rule, wall, k) is Some,
    ensures
        ({
            let w = calendar::candidate(rule, wall, k)->Some_0;
            let monday = wall / (DAY_MS as int) - clock::weekday_of(wall);
            let later = w / (DAY_MS as int) - clock::weekday_of(w);
            &&& exists|i: int|
                0 <= i < rule.by_weekday.len() && (#[trigger] rule.by_weekday[i]).number()
                    == clock::weekday_of(w)
            &&& w % (DAY_MS as int) == wall % (DAY_MS as int)
            &&& w / (DAY_MS as int) >= wall / (DAY_MS as int)
            &&& exists|m: int|
                m >= 0 && later - monday == #[trigger] days_of_steps(rule, m)
        }),
{
    let days = calendar::days_from(rule.by_weekday, 0);
    let anchor = clock::weekday_of(wall);
    let n = days.len() as int;
    let interval = calendar::interval_of(rule);
    lemma_days_ascending(rule.by_weekday, 0);
    lemma_some_day(rule.by_weekday);
    lemma_count_below_not_negative(days, anchor);
    let skipped = calendar::count_below(days, anchor);
    let j = k + skipped;
    let week = j / n;
    let at = j % n;
    assert(0 <= week && 0 <= at < n && j == week * n + at) by (nonlinear_arith)
        requires
            n > 0,
            j >= 0,
            week == j / n,
            at == j % n,
    ;
    let d = days[at];
    assert(0 <= d < 7);
    lemma_day_is_listed(rule.by_weekday, 0, at);
    let x = interval * week;
    assert(x >= 0) by (nonlinear_arith)
        requires
            interval >= 1,
            week >= 0,
            x == interval * week,
    ;
    let w = calendar::candidate(rule, wall, k)->Some_0;
    let shift = 7 * x + d - anchor;
    assert(w == wall + shift * DAY_MS);
    assert(clock::day_of(w) == clock::day_of(wall) + shift);
    assert((clock::day_of(wall) + 3 - anchor) % 7 == 0);
    assert(clock::weekday_of(w) == d);
    if week == 0 {
        // the days before the first are skipped
        assert(x == 0) by (nonlinear_arith)
            requires
                week == 0,
                x == interval * week,
        ;
        assert(j == at) by (nonlinear_arith)
            requires
                week == 0,
                j == week * n + at,
        ;
        lemma_count_below_within(days, anchor, at);
        assert(shift >= 0);
    } else {
        assert(x >= 1) by (nonlinear_arith)
            requires
                interval >= 1,
                week >= 1,
                x == interval * week,
        ;
    }
    assert(week * (7 * interval) == 7 * x) by (nonlinear_arith)
        requires
            x == interval * week,
    ;
    assert(days_of_steps(rule, week) == 7 * x);
    assert(calendar::has_day(rule.by_weekday, d));
}

proof fn lemma_day_is_listed(list: Seq<Weekday>, from: int, at: int)
    requires
        0 <= from <= 7,
        0 <= at < calendar::days_from(list, from).len(),
    ensures
        calendar::has_day(list, calendar::days_from(list, from)[at]),
    decreases 7 - from,
{
    if from < 7 {
        if calendar::has_day(list, from) {
            if at > 0 {
                lemma_day_is_listed(list, from + 1, at - 1);
                assert(calendar::days_from(list, from)[at] == calendar::days_from(
                    list,
                    from + 1,
                )[at - 1]);
            }
        } else {
            lemma_day_is_listed(list, from + 1, at);
        }
    }
}

/// With numbers in order, as many lie below a bound as come before the first that does not.
proof fn lemma_count_below_within(list: Seq<int>, bound: int, at: int)
    requires
        calendar::ascending(list),
        0 <= at < list.len(),
    ensures
        list[at] < bound <==> at < calendar::count_below(list, bound),
    decreases list.len(),
{
    let rest = list.drop_last();
    assert forall|a: int, b: int| 0 <= a < b < rest.len() implies #[trigger] rest[a]
        < #[trigger] rest[b] by {
        assert(list[a] < list[b]);
    }
    lemma_count_below_not_negative(rest, bound);
    if at < rest.len() {
        assert(list[at] < list[list.len() - 1]);
        lemma_count_below_within(rest, bound, at);
        if list.last() < bound {
            lemma_count_below_within(rest, bound, rest.len() - 1);
            assert(rest[rest.len() - 1] < list[list.len() - 1]);
        }
    } else {
        if list.last() < bound {
            lemma_count_below_all(rest, bound);
            assert forall|i: int| 0 <= i < rest.len() implies #[trigger] rest[i] < bound by {
                assert(list[i] < list[list.len() - 1]);
            }
        }
    }
}

/// Every listed weekday of every interval-th week is a reading of a weekly rule, from the
/// first reading on.
pub proof fn law_no_listed_weekday_is_left_out(
    rule: RecurrenceRuleView,
    wall: int,
    week: int,
    i: int,
)
    requires
        clock::on_calendar(wall),
        rule.freq == Frequency::Weekly,
        0 <= i < rule.by_weekday.len(),
        week > 0 || week == 0 && rule.by_weekday[i].number() >= clock::weekday_of(wall),
        clock::on_calendar(
            wall + (days_of_steps(rule, week) + rule.by_weekday[i].number()
                - clock::weekday_of(wall)) * DAY_MS,
        ),
    ensures
        exists|k: int|
            k >= 0 && #[trigger] calendar::candidate(rule, wall, k) == Some(
                wall + (days_of_steps(rule, week) + rule.by_weekday[i].number()
                    - clock::weekday_of(wall)) * DAY_MS,
            ),
{
    let days = calendar::days_from(rule.by_weekday, 0);
    let anchor = clock::weekday_of(wall);
    let n = days.len() as int;
    let d = rule.by_weekday[i].number();
    let interval = calendar::interval_of(rule);
    lemma_days_ascending(rule.by_weekday, 0);
    assert(calendar::has_day(rule.by_weekday, d));
    lemma_day_listed(rule.by_weekday, 0, d);
    let at = choose|at: int| 0 <= at < days.len() && days[at] == d;
    lemma_count_below_not_negative(days, anchor);
    let skipped = calendar::count_below(days, anchor);
    let j = week * n + at;
    let k = j - skipped;
    assert(j / n == week && j % n == at) by {
        vstd::arithmetic::div_mod::lemma_fundamental_div_mod_converse(j, n, week, at);
    }
    if week == 0 {
        lemma_count_below_within(days, anchor, at);
        assert(j == at) by (nonlinear_arith)
            requires
                week == 0,
                j == week * n + at,
        ;
    } else {
        assert(j >= n) by (nonlinear_arith)
            requires
                week >= 1,
                at >= 0,
                n > 0,
                j == week * n + at,
        ;
    }
    assert(week * (7 * interval) == interval * week * 7) by (nonlinear_arith);
    let target = wall + (week * (7 * interval) + d - anchor) * DAY_MS;
    assert(wall - anchor * DAY_MS + interval * week * 7 * DAY_MS + d * DAY_MS == target) by (nonlinear_arith)
        requires
            week * (7 * interval) == interval * week * 7,
            target == wall + (week * (7 * interval) + d - anchor) * DAY_MS,
    ;
    assert(calendar::candidate(rule, wall, k) == Some(target));
}

/// Readings of a monthly rule are as many months apart as its interval says, at the same
/// time of day and on the same day of the month; in months that have no such day on their
/// last. (Left out is the last month of the calendar.)
pub proof fn law_months_step_by_the_interval(rule: RecurrenceRuleView, wall: int, k: int)
    requires
        k >= 0,
        clock::on_calendar(wall),
        rule.freq == Frequency::Monthly,
        calendar::candidate(rule, wall, k) is Some,
        calendar::candidate(rule, wall, k)->Some_0 < clock::MAX_MS - 31 * DAY_MS,
    ensures
        ({
            let w = calendar::candidate(rule, wall, k)->Some_0;
            let from = clock::date_numbered(wall / (DAY_MS as int) + EPOCH_DAY);
            let to = clock::date_numbered(w / (DAY_MS as int) + EPOCH_DAY);
            &&& w % (DAY_MS as int) == wall % (DAY_MS as int)
            &&& (to.0 * 12 + to.1) - (from.0 * 12 + from.1) == steps_of(rule) * k
            &&& to.2 == from.2 || to.2 < from.2 && to.2 == clock::days_in_month(to.0, to.1)
        }),
{
    let interval = calendar::interval_of(rule);
    clock::lemma_day_has_date(clock::day_of(wall) + EPOCH_DAY);
    let (y, m, d) = clock::date_numbered(clock::day_of(wall) + EPOCH_DAY);
    let add = interval * k;
    assert(add >= 0) by (nonlinear_arith)
        requires
            interval >= 1,
            k >= 0,
            add == interval * k,
    ;
    let month = clock::months_later(y, m - 1, add);
    let last = clock::last_day(month.0, month.1);
    let day = if d < last {
        d
    } else {
        last
    };
    let w = calendar::candidate(rule, wall, k)->Some_0;
    assert(clock::is_date(month.0, month.1, day));
    assert(clock::day_of(w) + EPOCH_DAY == clock::day_number(month.0, month.1, day));
    clock::lemma_date_numbered(month.0, month.1, day);
    assert(month.0 * 12 + month.1 - (y * 12 + m) == add);
    if month.0 == clock::MAX_YEAR && month.1 == 12 {
        assert(clock::days_before_month(month.0, 12) == 334) by {
            reveal_with_fuel(clock::days_before_month, 13);
        }
        assert(false);
    }
    assert(last == clock::days_in_month(month.0, month.1));
}

/// Weekdays follow one another and come back after seven days; the day of the epoch was
/// a Thursday.
pub proof fn law_weekdays_follow_one_another(wall: int)
    ensures
        0 <= clock::weekday_of(wall) < 7,
        clock::weekday_of(wall + DAY_MS) == (clock::weekday_of(wall) + 1) % 7,
        clock::weekday_of(0) == Weekday::Thursday.number(),
        Weekday::Tuesday.number() == Weekday::Monday.number() + 1,
        Weekday::Wednesday.number() == Weekday::Tuesday.number() + 1,
        Weekday::Thursday.number() == Weekday::Wednesday.number() + 1,
        Weekday::Friday.number() == Weekday::Thursday.number() + 1,
        Weekday::Saturday.number() == Weekday::Friday.number() + 1,
        Weekday::Sunday.number() == Weekday::Saturday.number() + 1,
        Weekday::Monday.number() == 0,
{
}

/// The readings of a series are counted from what the clocks of the event's own time zone
/// show at its start, in UTC where the zone is unknown, and each is taken as an instant of
/// that zone.
pub proof fn law_series_is_laid_out_on_local_clocks(event: CalendarEventView, k: int)
    requires
        event.recurrence is Some,
        clock::on_calendar(event.start as int),
        0 <= k < calendar::series(event).len(),
    ensures
        ({
            let zone = if clock::zone_known(event.timezone) {
                event.timezone
            } else {
                "UTC"@
            };
            let first = clock::zone_wall(zone, event.start as int);
            let w = calendar::candidate(event.recurrence->Some_0, first, k);
            &&& w is Some
            &&& clock::zone_instant(zone, w->Some_0) matches Some(p) ==> calendar::series(event)[k]
                == p.0
            &&& clock::zone_instant(zone, w->Some_0) is None ==> (clock::zone_instant(
                zone,
                w->Some_0 - 10_800_000,
            ) matches Some(p) ==> (clock::on_calendar(w->Some_0 - p.1 * 1000)
                ==> calendar::series(event)[k] == w->Some_0 - p.1 * 1000))
        }),
{
    law_no_occurrence_after_the_end(event, k);
}

/// An event without a rule occurs once, at its start.
pub proof fn law_single_event_occurs_once(event: CalendarEventView)
    requires
        event.recurrence is None,
    ensures
        calendar::series(event).len() == 1,
        calendar::series(event)[0] == event.start,
        event.end matches Some(e) ==> calendar::series_end_of(event) == e,
        event.end is None ==> calendar::series_end_of(event) == event.start,
{
}

/// A series ends where its rule says: no occurrence is later than the instant it runs until,
/// and the next reading, where there is one and the cap was not reached, is.
pub proof fn law_series_runs_until_its_end(event: CalendarEventView, i: int)
    requires
        event.recurrence is Some,
        event.recurrence->Some_0.end is Until,
    ensures
        ({
            let until = event.recurrence->Some_0.end->timestamp;
            let len = calendar::series(event).len() as int;
            let next = calendar::candidate(
                event.recurrence->Some_0,
                calendar::start_wall(event),
                len,
            );
            &&& 0 <= i < len ==> calendar::series(event)[i] <= until
            &&& len < 730 && next is Some ==> clock::local_instant(
                clock::zone_used(event.timezone),
                next->Some_0,
            ) > until
        }),
{
    let rule = event.recurrence->Some_0;
    let zone = clock::zone_used(event.timezone);
    let wall = calendar::start_wall(event);
    if 0 <= i < calendar::series(event).len() {
        law_no_occurrence_after_the_end(event, i);
    }
    lemma_stops_there(rule, zone, wall, 0);
}

proof fn lemma_stops_there(rule: RecurrenceRuleView, zone: Seq<char>, wall: int, k: int)
    requires
        0 <= k <= calendar::occurrence_cap(rule),
    ensures
        ({
            let n = k + calendar::occurrences_from(rule, zone, wall, k);
            n == calendar::occurrence_cap(rule) || !calendar::goes_on(rule, zone, wall, n)
        }),
    decreases calendar::occurrence_cap(rule) - k,
{
    if k < calendar::occurrence_cap(rule) && calendar::goes_on(rule, zone, wall, k) {
        lemma_stops_there(rule, zone, wall, k + 1);
        lemma_length_within_cap(rule, zone, wall, k + 1);
    }
}

/// A window holds exactly the occurrences that were not excepted, start no later than it
/// ends, and last until it begins or longer.
pub proof fn law_window_holds_what_overlaps(
    event: CalendarEventView,
    from: i64,
    to: i64,
    ms: int,
)
    requires
        i64::MIN <= ms,
        ms + event.duration_ms <= i64::MAX,
    ensures
        calendar::in_window(event, from as int, to as int, ms) <==> {
            &&& event.recurrence matches Some(rule) ==> forall|i: int|
                0 <= i < rule.exceptions.len() ==> #[trigger] rule.exceptions[i] != ms
            &&& ms <= to
            &&& from <= ms || from <= ms + event.duration_ms
        },
{
}

/// The end of a recurring series lies one duration behind its last occurrence.
pub proof fn law_series_end_is_the_last_end(event: CalendarEventView)
    requires
        event.recurrence is Some,
        calendar::series(event).len() > 0,
        0 <= event.duration_ms,
        i64::MIN <= calendar::series(event).last(),
        calendar::series(event).last() + event.duration_ms <= i64::MAX,
    ensures
        calendar::series_end_of(event) == calendar::series(event)[calendar::series(event).len()
            - 1] + event.duration_ms,
{
}

/// The duration of an event is the time from its start to its end, and none where it has no
/// end or one that comes first.
pub proof fn law_duration_is_from_start_to_end(start: i64, end: i64)
    ensures
        end >= start ==> start + calendar::duration_of(start as int, Some(end)) == end,
        end < start ==> calendar::duration_of(start as int, Some(end)) == 0,
        calendar::duration_of(start as int, None) == 0,
{
}

/// An event is valid exactly where it has a title of at most 100 characters that are not
/// all blank, a known time zone, texts that are not too long, an end after its start, and
/// a rule that is valid.
pub proof fn law_when_an_event_is_valid(event: CalendarEventView)
    ensures
        ({
            let problem = calendar::first_problem(event);
            &&& problem is None <==> {
                &&& !text::blank(event.title) && event.title.len() <= 100
                &&& clock::zone_known(event.timezone)
                &&& event.description matches Some(s) ==> s.len() <= 2000
                &&& event.location matches Some(s) ==> s.len() <= 200
                &&& event.color matches Some(s) ==> s.len() <= 32
                &&& event.end matches Some(e) ==> event.start < e
                &&& event.recurrence matches Some(rule) ==> rule_valid(event, rule)
            }
            &&& text::blank(event.title) ==> problem == Some("title")
        }),
{
}

/// Whether the rule of an event is valid: its interval is from 1 to 52, weekdays are listed
/// only for weekly rules and then with that of the start, and the series has from 1 to 730
/// occurrences, or runs until an instant not before the start that is reached within 730.
pub open spec fn rule_valid(event: CalendarEventView, rule: RecurrenceRuleView) -> bool {
    &&& 1 <= rule.interval <= 52
    &&& rule.by_weekday.len() > 0 ==> rule.freq == Frequency::Weekly && exists|i: int|
        0 <= i < rule.by_weekday.len() && (#[trigger] rule.by_weekday[i]).number()
            == clock::weekday_of(calendar::start_wall(event))
    &&& match rule.end {
        RecurrenceEnd::Count { count } => 1 <= count <= 730,
        RecurrenceEnd::Until { timestamp } => event.start <= timestamp && calendar::series(
            event,
        ).len() < 730,
    }
}

/// An edited event has what the edit gives, nothing in fields that it unsets, and else what
/// it had.
pub proof fn law_edited_event_has_what_is_given(
    event: CalendarEventView,
    partial: PartialCalendarEvent,
    remove: Seq<FieldsCalendarEvent>,
    now: i64,
)
    ensures
        ({
            let r = calendar::edited(event, partial, remove, now);
            &&& channel_laws::set_to(text::opt_text(partial.id), event.id, r.id)
            &&& channel_laws::set_to(text::opt_text(partial.server), event.server, r.server)
            &&& channel_laws::set_to(text::opt_text(partial.creator), event.creator, r.creator)
            &&& channel_laws::set_to(text::opt_text(partial.title), event.title, r.title)
            &&& channel_laws::set_to(text::opt_text(partial.timezone), event.timezone, r.timezone)
            &&& channel_laws::set_to(partial.start, event.start, r.start)
            &&& channel_laws::set_to(partial.all_day, event.all_day, r.all_day)
            &&& channel_laws::set_to(partial.cancelled, event.cancelled, r.cancelled)
            &&& channel_laws::set_to(partial.created_at, event.created_at, r.created_at)
            &&& channel_laws::set_or_unset(
                text::opt_text(partial.channel),
                remove.contains(FieldsCalendarEvent::Channel),
                event.channel,
                r.channel,
            )
            &&& channel_laws::set_or_unset(
                text::opt_text(partial.description),
                remove.contains(FieldsCalendarEvent::Description),
                event.description,
                r.description,
            )
            &&& channel_laws::set_or_unset(
                text::opt_text(partial.location),
                remove.contains(FieldsCalendarEvent::Location),
                event.location,
                r.location,
            )
            &&& channel_laws::set_or_unset(
                partial.end,
                remove.contains(FieldsCalendarEvent::End),
                event.end,
                r.end,
            )
            &&& channel_laws::set_or_unset(
                text::opt_text(partial.color),
                remove.contains(FieldsCalendarEvent::Color),
                event.color,
                r.color,
            )
            &&& channel_laws::set_or_unset(
                text::opt_text(partial.source_message_id),
                remove.contains(FieldsCalendarEvent::SourceMessageId),
                event.source_message_id,
                r.source_message_id,
            )
            &&& channel_laws::set_or_unset(
                table::opt_row_views(partial.attachments),
                false,
                event.attachments,
                r.attachments,
            )
            &&& r.recurrence is Some <==> partial.recurrence is Some || event.recurrence is Some
                && !remove.contains(FieldsCalendarEvent::Recurrence)
            &&& partial.recurrence matches Some(rule) ==> r.recurrence->Some_0.freq == rule.freq
                && r.recurrence->Some_0.interval == rule.interval && r.recurrence->Some_0.by_weekday
                == rule.by_weekday@ && r.recurrence->Some_0.end == rule.end
            &&& partial.recurrence is None && event.recurrence is Some && r.recurrence is Some
                ==> r.recurrence->Some_0.freq == event.recurrence->Some_0.freq
                && r.recurrence->Some_0.interval == event.recurrence->Some_0.interval
                && r.recurrence->Some_0.by_weekday == event.recurrence->Some_0.by_weekday
                && r.recurrence->Some_0.end == event.recurrence->Some_0.end
            &&& r.edited_at == Some(now)
        }),
{
    lemma_unset(event, remove);
}

proof fn lemma_unset(event: CalendarEventView, fields: Seq<FieldsCalendarEvent>)
    ensures
        ({
            let r = calendar::without_fields(event, fields);
            let off = |f: FieldsCalendarEvent| fields.contains(f);
            &&& r.id == event.id && r.server == event.server && r.creator == event.creator
                && r.title == event.title && r.start == event.start && r.timezone
                == event.timezone && r.all_day == event.all_day && r.cancelled == event.cancelled
                && r.attachments == event.attachments && r.created_at == event.created_at
            &&& r.channel == if off(FieldsCalendarEvent::Channel) {
                None
            } else {
                event.channel
            }
            &&& r.description == if off(FieldsCalendarEvent::Description) {
                None
            } else {
                event.description
            }
            &&& r.location == if off(FieldsCalendarEvent::Location) {
                None
            } else {
                event.location
            }
            &&& r.end == if off(FieldsCalendarEvent::End) {
                None
            } else {
                event.end
            }
            &&& r.recurrence == if off(FieldsCalendarEvent::Recurrence) {
                None
            } else {
                event.recurrence
            }
            &&& r.color == if off(FieldsCalendarEvent::Color) {
                None
            } else {
                event.color
            }
            &&& r.source_message_id == if off(FieldsCalendarEvent::SourceMessageId) {
                None
            } else {
                event.source_message_id
            }
        }),
    decreases fields.len(),
{
    if fields.len() > 0 {
        let rest = fields.drop_last();
        lemma_unset(event, rest);
        assert(fields[fields.len() - 1] == fields.last());
        assert forall|f: FieldsCalendarEvent|
            fields.contains(f) == (rest.contains(f) || f == fields.last()) by {
            if fields.contains(f) {
                let k = choose|k: int| 0 <= k < fields.len() && fields[k] == f;
                if k < rest.len() {
                    assert(rest[k] == f);
                }
            }
            if rest.contains(f) {
                let k = choose|k: int| 0 <= k < rest.len() && rest[k] == f;
                assert(fields[k] == f);
            }
        }
    }
}

/// An answer is what it is from then on, and its time is noted; that an invitation was
/// accepted is noted with the acceptance and never before. Nobody can go back to not having
/// answered.
pub proof fn law_answers_are_noted(rsvp: EventRsvp, target: RsvpStatus, now: i64)
    ensures
        ({
            let r = calendar::responded(rsvp, target, now);
            &&& target != RsvpStatus::Pending ==> r.status == target && r.responded_at == Some(now)
            &&& target == RsvpStatus::Pending ==> r == rsvp
            &&& r.had_accepted <==> rsvp.had_accepted || target == RsvpStatus::Going
        }),
{
}

/// What is wrong with an event is named: the first of its title, time zone, description,
/// location, colour, end and rule.
pub proof fn law_problems_are_named(event: CalendarEventView)
    ensures
        ({
            let problem = calendar::first_problem(event);
            let title = !text::blank(event.title) && event.title.len() <= 100;
            let zone = title && clock::zone_known(event.timezone);
            let about = zone && (event.description matches Some(s) ==> s.len() <= 2000);
            let place = about && (event.location matches Some(s) ==> s.len() <= 200);
            let colour = place && (event.color matches Some(s) ==> s.len() <= 32);
            let end = colour && (event.end matches Some(e) ==> event.start < e);
            &&& !title ==> problem == Some("title")
            &&& title && !zone ==> problem == Some("timezone")
            &&& zone && !about ==> problem == Some("description")
            &&& about && !place ==> problem == Some("location")
            &&& place && !colour ==> problem == Some("color")
            &&& colour && !end ==> problem == Some("end")
            &&& end ==> (event.recurrence matches Some(rule) ==> {
                let steps = 1 <= rule.interval <= 52;
                let days = steps && (rule.by_weekday.len() == 0 || rule.freq == Frequency::Weekly);
                let anchor = days && (rule.by_weekday.len() == 0 || exists|i: int|
                    0 <= i < rule.by_weekday.len() && (#[trigger] rule.by_weekday[i]).number()
                        == clock::weekday_of(calendar::start_wall(event)));
                &&& !steps ==> problem == Some("interval")
                &&& steps && !days ==> problem == Some("by_weekday")
                &&& days && !anchor ==> problem == Some("by_weekday_anchor")
                &&& anchor ==> match rule.end {
                    RecurrenceEnd::Count { count } => !(1 <= count <= 730) ==> problem == Some(
                        "count",
                    ),
                    RecurrenceEnd::Until { timestamp } => if timestamp < event.start {
                        problem == Some("until")
                    } else {
                        calendar::series(event).len() >= 730 ==> problem == Some("until_range")
                    },
                }
            })
        }),
{
}

/// An edit that gives a new start, end, time zone or rule, or takes the end or the rule
/// away, leaves no exceptions; any other leaves the rule as it was.
pub proof fn law_when_exceptions_are_dropped(
    event: CalendarEventView,
    partial: PartialCalendarEvent,
    remove: Seq<FieldsCalendarEvent>,
    now: i64,
)
    ensures
        ({
            let r = calendar::edited(event, partial, remove, now);
            let moves = partial.start is Some || partial.end is Some || partial.timezone is Some
                || partial.recurrence is Some || remove.contains(FieldsCalendarEvent::End)
                || remove.contains(FieldsCalendarEvent::Recurrence);
            &&& moves ==> (r.recurrence matches Some(rule) ==> rule.exceptions.len() == 0)
            &&& !moves ==> r.recurrence == event.recurrence
        }),
{
    law_edit_and_exceptions(event, partial, remove, now);
    if calendar::removal_moves_time(remove) {
        let i = choose|i: int|
            0 <= i < remove.len() && (#[trigger] remove[i] == FieldsCalendarEvent::End || remove[i]
                == FieldsCalendarEvent::Recurrence);
        assert(remove.contains(remove[i]));
    }
}

/// Months have their usual number of days; February has one more in years that can be
/// divided by four, but for centuries that cannot be divided by four hundred.
pub proof fn law_how_long_months_are(year: int, month: int)
    requires
        1 <= month <= 12,
    ensures
        month == 4 || month == 6 || month == 9 || month == 11 ==> clock::days_in_month(year, month)
            == 30,
        month == 2 && year % 400 == 0 ==> clock::days_in_month(year, month) == 29,
        month == 2 && year % 100 == 0 && year % 400 != 0 ==> clock::days_in_month(year, month)
            == 28,
        month == 2 && year % 4 == 0 && year % 100 != 0 ==> clock::days_in_month(year, month) == 29,
        month == 2 && year % 4 != 0 ==> clock::days_in_month(year, month) == 28,
        month % 2 == 1 && month <= 7 || month % 2 == 0 && month >= 8 ==> clock::days_in_month(
            year,
            month,
        ) == 31,
{
    if year % 400 == 0 {
        assert(year % 4 == 0 && year % 100 == 0);
    }
}

/// The day after a date is the next of its month, or the first of the next month.
pub proof fn law_days_of_the_calendar_follow(year: int, month: int, day: int)
    requires
        clock::is_date(year, month, day),
    ensures
        day < clock::days_in_month(year, month) ==> clock::day_number(year, month, day + 1)
            == clock::day_number(year, month, day) + 1,
        day == clock::days_in_month(year, month) && month < 12 ==> clock::day_number(
            year,
            month + 1,
            1,
        ) == clock::day_number(year, month, day) + 1,
        day == 31 && month == 12 ==> clock::day_number(year + 1, 1, 1) == clock::day_number(
            year,
            12,
            31,
        ) + 1,
        clock::day_number(1970, 1, 1) == EPOCH_DAY,
{
    if month == 12 {
        assert(clock::days_before_month(year, 12) == if clock::is_leap(year) {
            335int
        } else {
            334int
        }) by {
            reveal_with_fuel(clock::days_before_month, 13);
        }
        assert(clock::is_leap(year) <==> (year / 4 - (year - 1) / 4) - (year / 100 - (year - 1)
            / 100) + (year / 400 - (year - 1) / 400) == 1);
    }
}

/// Instants that the calendar does not support are taken for the epoch, and all others as
/// they are; unknown zones are taken for UTC.
pub proof fn law_what_is_not_supported(ms: int, name: Seq<char>)
    ensures
        clock::on_calendar(ms) ==> clock::supported(ms) == ms,
        !clock::on_calendar(ms) ==> clock::supported(ms) == 0,
        clock::zone_known(name) ==> clock::zone_used(name) == name,
        !clock::zone_known(name) ==> clock::zone_used(name) == "UTC"@,
{
}

} // verus!
