use chrono::{Datelike, TimeZone, Timelike, Utc};
use chrono_tz::America::New_York;
use chrono_tz::Tz;
use revolt_core::calendar::{
    is_past_end, occurrences_in_window, reading_of_occurrence, series_occurrence_starts,
    CalendarEvent, EventRsvp, FieldsCalendarEvent, Frequency, PartialCalendarEvent, RecurrenceEnd,
    RecurrenceRule, ReminderSentKey, RsvpStatus, Weekday, MAX_OCCURRENCES,
};
use revolt_core::calendar_store::NewEvent;
use revolt_core::clock::{
    add_months, civil_date, days_from_monday, is_zone, last_day_of_month, local_clock,
    local_to_utc_ms, on_date, zone_or_utc,
};
use revolt_core::db::ReferenceDb;
use revolt_core::error::Error;
use revolt_core::files::{File, FileHash, Metadata};
use revolt_core::table::Row;

/// An event at a wall-clock time in a zone.
fn event_at_local(
    tz: Tz,
    (y, mo, d): (i32, u32, u32),
    h: u32,
    mi: u32,
    recurrence: Option<RecurrenceRule>,
) -> CalendarEvent {
    let start_ms = tz.with_ymd_and_hms(y, mo, d, h, mi, 0).single().unwrap().timestamp_millis();
    let mut event = CalendarEvent {
        id: "01EVENT".to_string(),
        server: "01SERVER".to_string(),
        channel: None,
        creator: "01USER".to_string(),
        title: "Standup".to_string(),
        description: None,
        location: None,
        start: start_ms,
        end: Some(start_ms + 30 * 60 * 1000),
        duration_ms: 30 * 60 * 1000,
        series_end: start_ms,
        all_day: false,
        timezone: tz.name().to_string(),
        recurrence,
        color: None,
        cancelled: false,
        attachments: None,
        source_message_id: None,
        created_at: 0,
        edited_at: None,
    };
    event.series_end = event.compute_series_end();
    event
}

fn day_ms(days: i64) -> i64 {
    days * 24 * 60 * 60 * 1000
}

fn rule(freq: Frequency, count: u16) -> RecurrenceRule {
    RecurrenceRule {
        freq,
        interval: 1,
        by_weekday: vec![],
        end: RecurrenceEnd::Count { count },
        exceptions: vec![],
    }
}

#[test]
fn daily_count_spacing() {
    let event =
        event_at_local(chrono_tz::UTC, (2026, 6, 1), 9, 0, Some(rule(Frequency::Daily, 5)));
    let starts = series_occurrence_starts(&event);
    assert_eq!(starts.len(), 5);
    for w in starts.windows(2) {
        assert_eq!(w[1] - w[0], day_ms(1));
    }
}

#[test]
fn weekly_by_weekday_until() {
    let start = chrono_tz::UTC.with_ymd_and_hms(2026, 6, 1, 12, 0, 0).single().unwrap();
    let until = start.timestamp_millis() + day_ms(15);
    let rule = RecurrenceRule {
        freq: Frequency::Weekly,
        interval: 1,
        by_weekday: vec![Weekday::Monday, Weekday::Wednesday, Weekday::Friday],
        end: RecurrenceEnd::Until { timestamp: until },
        exceptions: vec![],
    };
    let event = event_at_local(chrono_tz::UTC, (2026, 6, 1), 12, 0, Some(rule));
    let starts = series_occurrence_starts(&event);
    // Mon 1, Wed 3, Fri 5, Mon 8, Wed 10, Fri 12, Mon 15, then Wed 17 is too late.
    assert_eq!(starts.len(), 7);
    assert!(starts.iter().all(|s| *s <= until));
}

#[test]
fn monthly_clamps_to_last_day() {
    // Jan 31, then Feb 28 (2026 is no leap year), then Mar 31.
    let event =
        event_at_local(chrono_tz::UTC, (2026, 1, 31), 10, 0, Some(rule(Frequency::Monthly, 3)));
    let starts = series_occurrence_starts(&event);
    assert_eq!(starts.len(), 3);
    let days: Vec<u32> =
        starts.iter().map(|ms| Utc.timestamp_millis_opt(*ms).unwrap().day()).collect();
    assert_eq!(days, vec![31, 28, 31]);
}

#[test]
fn dst_gap_shifts_forward() {
    // 02:30 in New York does not exist on 2025-03-09: clocks went from 02:00 to 03:00.
    let event = event_at_local(New_York, (2025, 3, 7), 2, 30, Some(rule(Frequency::Daily, 4)));
    let starts = series_occurrence_starts(&event);
    assert_eq!(starts.len(), 4);
    for w in starts.windows(2) {
        assert!(w[1] > w[0]);
    }
    let gap_local = Utc.timestamp_millis_opt(starts[2]).unwrap().with_timezone(&New_York);
    assert_eq!(gap_local.hour(), 3);
    assert_eq!(gap_local.minute(), 30);
}

#[test]
fn weekly_preserves_wall_clock_across_dst() {
    let event = event_at_local(New_York, (2025, 3, 5), 18, 0, Some(rule(Frequency::Weekly, 3)));
    let starts = series_occurrence_starts(&event);
    assert_eq!(starts.len(), 3);
    for s in &starts {
        let local = Utc.timestamp_millis_opt(*s).unwrap().with_timezone(&New_York);
        assert_eq!(local.hour(), 18, "wall-clock hour drifted across DST");
    }
    assert_ne!(starts[1] - starts[0], starts[2] - starts[1]);
}

#[test]
fn window_returns_series_anchored_before_window() {
    let event =
        event_at_local(chrono_tz::UTC, (2026, 1, 5), 12, 0, Some(rule(Frequency::Weekly, 20)));
    let from =
        chrono_tz::UTC.with_ymd_and_hms(2026, 3, 1, 0, 0, 0).single().unwrap().timestamp_millis();
    let to = from + day_ms(7);
    let occ = occurrences_in_window(&event, from, to);
    assert_eq!(occ.len(), 1);
    assert!(occ[0] >= from && occ[0] <= to);
    assert!(event.series_end >= from);
}

#[test]
fn exceptions_are_skipped() {
    let mut event =
        event_at_local(chrono_tz::UTC, (2026, 6, 1), 9, 0, Some(rule(Frequency::Daily, 5)));
    let all = series_occurrence_starts(&event);
    if let Some(r) = event.recurrence.as_mut() {
        r.exceptions = vec![all[2]];
    }
    let occ = occurrences_in_window(&event, all[0], all[4]);
    assert_eq!(occ.len(), 4);
    assert!(!occ.contains(&all[2]));
}

#[test]
fn an_event_without_a_rule_occurs_once() {
    let event = event_at_local(New_York, (2026, 6, 1), 9, 0, None);
    assert_eq!(series_occurrence_starts(&event), vec![event.start]);
    assert_eq!(event.series_end, event.start + 30 * 60 * 1000);
    assert_eq!(occurrences_in_window(&event, event.start, event.start), vec![event.start]);
    assert!(occurrences_in_window(&event, event.start + day_ms(1), event.start + day_ms(2))
        .is_empty());
}

#[test]
fn an_ambiguous_time_is_the_earlier_one() {
    // 01:30 occurs twice in New York on 2025-11-02.
    let event = event_at_local(New_York, (2025, 11, 1), 1, 30, Some(rule(Frequency::Daily, 2)));
    let starts = series_occurrence_starts(&event);
    assert_eq!(starts[1] - starts[0], day_ms(1));
}

#[test]
fn a_long_interval_in_a_series() {
    let mut every_third = rule(Frequency::Weekly, 4);
    every_third.interval = 3;
    every_third.by_weekday = vec![Weekday::Sunday, Weekday::Monday];
    let event = event_at_local(chrono_tz::UTC, (2026, 6, 1), 9, 0, Some(every_third));
    let starts = series_occurrence_starts(&event);
    let days: Vec<i64> = starts.iter().map(|s| (s - event.start) / day_ms(1)).collect();
    assert_eq!(days, vec![0, 6, 21, 27]);
}

#[test]
fn rsvp_state_machine() {
    let mut rsvp = EventRsvp::new_invite("01EVENT", "01USER", "01HOST");
    assert_eq!(rsvp.status, RsvpStatus::Pending);
    assert!(!rsvp.had_accepted);

    assert!(rsvp.apply_response(RsvpStatus::Pending).is_err());

    rsvp.apply_response(RsvpStatus::Going).unwrap();
    assert_eq!(rsvp.status, RsvpStatus::Going);
    assert!(rsvp.had_accepted);
    assert!(rsvp.responded_at.is_some());

    rsvp.apply_response(RsvpStatus::NotGoing).unwrap();
    assert_eq!(rsvp.status, RsvpStatus::NotGoing);
    assert!(rsvp.had_accepted);
}

#[test]
fn responses_are_noted_with_their_time() {
    let mut rsvp = EventRsvp::invite_at("e", "u", "h", 10);
    assert_eq!(rsvp.created_at, 10);
    assert_eq!(rsvp.respond_at(RsvpStatus::Pending, 11), Err(Error::InvalidOperation));
    assert_eq!(rsvp.responded_at, None);
    rsvp.respond_at(RsvpStatus::NotGoing, 12).unwrap();
    assert_eq!(rsvp.responded_at, Some(12));
    assert!(!rsvp.had_accepted);
}

#[test]
fn validate_rejects_bad_input() {
    let mut event = event_at_local(chrono_tz::UTC, (2026, 6, 1), 9, 0, None);
    assert!(event.validate().is_ok());

    event.timezone = "Not/AZone".to_string();
    assert!(event.validate().is_err());
    event.timezone = "UTC".to_string();

    event.end = Some(event.start - 1);
    assert!(event.validate().is_err());
    event.end = Some(event.start + 1000);

    event.recurrence = Some(RecurrenceRule {
        freq: Frequency::Daily,
        interval: 1,
        by_weekday: vec![],
        end: RecurrenceEnd::Until { timestamp: event.start + day_ms(5000) },
        exceptions: vec![],
    });
    assert!(event.validate().is_err());

    event.recurrence = Some(RecurrenceRule {
        freq: Frequency::Daily,
        interval: 1,
        by_weekday: vec![Weekday::Monday],
        end: RecurrenceEnd::Count { count: 3 },
        exceptions: vec![],
    });
    assert!(event.validate().is_err());
}

#[test]
fn each_bad_property_is_named() {
    let good = || {
        event_at_local(chrono_tz::UTC, (2026, 6, 1), 9, 0, Some(rule(Frequency::Weekly, 3)))
    };
    let named = |error: &'static str| Err(Error::FailedValidation { error });
    assert_eq!(good().validate(), Ok(()));

    let mut event = good();
    event.title = " \u{3000}\t".to_string();
    assert_eq!(event.validate(), named("title"));
    event.title = "\u{e9}".repeat(100);
    assert_eq!(event.validate(), Ok(()));
    event.title = "\u{e9}".repeat(101);
    assert_eq!(event.validate(), named("title"));

    let mut event = good();
    event.timezone = "Mars/Base".to_string();
    assert_eq!(event.validate(), named("timezone"));

    let mut event = good();
    event.description = Some("d".repeat(2001));
    assert_eq!(event.validate(), named("description"));

    let mut event = good();
    event.location = Some("l".repeat(201));
    assert_eq!(event.validate(), named("location"));

    let mut event = good();
    event.color = Some("c".repeat(33));
    assert_eq!(event.validate(), named("color"));

    let mut event = good();
    event.end = Some(event.start);
    assert_eq!(event.validate(), named("end"));

    for interval in [0, 53] {
        let mut event = good();
        event.recurrence.as_mut().unwrap().interval = interval;
        assert_eq!(event.validate(), named("interval"));
    }

    let mut event = good();
    event.recurrence.as_mut().unwrap().freq = Frequency::Monthly;
    event.recurrence.as_mut().unwrap().by_weekday = vec![Weekday::Monday];
    assert_eq!(event.validate(), named("by_weekday"));

    // 2026-06-01 is a Monday
    let mut event = good();
    event.recurrence.as_mut().unwrap().by_weekday = vec![Weekday::Tuesday];
    assert_eq!(event.validate(), named("by_weekday_anchor"));
    event.recurrence.as_mut().unwrap().by_weekday = vec![Weekday::Tuesday, Weekday::Monday];
    assert_eq!(event.validate(), Ok(()));

    for count in [0, MAX_OCCURRENCES as u16 + 1] {
        let mut event = good();
        event.recurrence.as_mut().unwrap().end = RecurrenceEnd::Count { count };
        assert_eq!(event.validate(), named("count"));
    }

    let mut event = good();
    event.recurrence.as_mut().unwrap().end = RecurrenceEnd::Until { timestamp: event.start - 1 };
    assert_eq!(event.validate(), named("until"));
    event.recurrence.as_mut().unwrap().end =
        RecurrenceEnd::Until { timestamp: event.start + day_ms(7 * 800) };
    assert_eq!(event.validate(), named("until_range"));
}

#[test]
fn no_series_is_longer_than_the_limit() {
    let mut event =
        event_at_local(chrono_tz::UTC, (2026, 6, 1), 9, 0, Some(rule(Frequency::Daily, 1)));
    event.recurrence.as_mut().unwrap().end =
        RecurrenceEnd::Until { timestamp: event.start + day_ms(5000) };
    assert_eq!(series_occurrence_starts(&event).len(), MAX_OCCURRENCES);
}

fn launch() -> NewEvent {
    NewEvent {
        server: "01SERVER".to_string(),
        creator: "01HOST".to_string(),
        title: "Launch".to_string(),
        description: None,
        location: None,
        start: 1_900_000_000_000,
        end: Some(1_900_003_600_000),
        all_day: false,
        timezone: "UTC".to_string(),
        recurrence: None,
        color: None,
        channel: None,
    }
}

fn create(db: &mut ReferenceDb, new: NewEvent) -> Result<CalendarEvent, Error> {
    CalendarEvent::create(
        db,
        new.server,
        new.creator,
        new.title,
        new.description,
        new.location,
        new.start,
        new.end,
        new.all_day,
        new.timezone,
        new.recurrence,
        new.color,
        new.channel,
    )
}

#[test]
fn driver_round_trip() {
    let mut db = ReferenceDb::new();
    let event = create(&mut db, launch()).unwrap();

    let fetched = db.fetch_event(&event.id).unwrap();
    assert_eq!(fetched.title, "Launch");
    assert_eq!(fetched.series_end, 1_900_003_600_000);

    let in_window =
        db.fetch_events_for_server_in_window("01SERVER", 1_899_000_000_000, 1_901_000_000_000);
    assert_eq!(in_window.len(), 1);

    // A second invitation changes nothing
    assert!(EventRsvp::invite(&mut db, &event.id, "01GUEST", "01HOST"));
    assert!(!EventRsvp::invite(&mut db, &event.id, "01GUEST", "01HOST"));

    let mut rsvp = db.fetch_rsvp(&event.id, "01GUEST").unwrap();
    rsvp.apply_response(RsvpStatus::Going).unwrap();
    db.update_rsvp(&rsvp).unwrap();
    let after = db.fetch_rsvp(&event.id, "01GUEST").unwrap();
    assert_eq!(after.status, RsvpStatus::Going);
    assert!(after.had_accepted);
    // What the invitation said stays
    assert_eq!(after.invited_by, "01HOST");
    assert_eq!(after.created_at, rsvp.created_at);

    let all = db.fetch_rsvps_for_event(&event.id);
    assert_eq!(all.len(), 1);

    db.delete_rsvps_for_event(&event.id);
    assert!(db.fetch_rsvps_for_event(&event.id).is_empty());

    db.delete_event(&event.id).unwrap();
    assert!(db.fetch_event(&event.id).is_err());
}

#[test]
fn an_update_keeps_what_the_invitation_said() {
    let mut db = ReferenceDb::new();
    assert!(db.insert_rsvp_if_absent(&EventRsvp::invite_at("e", "u", "host", 1)));
    let mut other = EventRsvp::invite_at("e", "u", "somebody", 2);
    other.respond_at(RsvpStatus::Going, 3).unwrap();
    db.update_rsvp(&other).unwrap();
    let stored = db.fetch_rsvp("e", "u").unwrap();
    assert_eq!(stored.invited_by, "host");
    assert_eq!(stored.created_at, 1);
    assert_eq!(stored.status, RsvpStatus::Going);
    assert_eq!(stored.responded_at, Some(3));
    let stranger = EventRsvp::invite_at("e", "v", "host", 1);
    assert_eq!(db.update_rsvp(&stranger), Err(Error::NotFound));
}

#[test]
fn edit_recomputes_derived_fields_and_clears_exceptions() {
    let mut db = ReferenceDb::new();
    let start = 1_900_000_000_000;
    let mut event = CalendarEvent::create(
        &mut db,
        "01S".to_string(),
        "01H".to_string(),
        "Sync".to_string(),
        None,
        None,
        start,
        Some(start + 3_600_000),
        false,
        "UTC".to_string(),
        Some(rule(Frequency::Weekly, 4)),
        None,
        None,
    )
    .unwrap();
    let original_series_end = event.series_end;

    // An occurrence was cancelled
    if let Some(r) = event.recurrence.as_mut() {
        r.exceptions = vec![start];
    }

    // All of the series two weeks later
    let new_start = start + day_ms(14);
    let partial = PartialCalendarEvent {
        start: Some(new_start),
        end: Some(new_start + 3_600_000),
        ..Default::default()
    };
    event.edit(&mut db, partial, &vec![]).unwrap();

    assert_eq!(event.start, new_start);
    assert!(event.series_end > original_series_end, "series_end must move with start (H4)");
    assert!(
        event.recurrence.as_ref().unwrap().exceptions.is_empty(),
        "exceptions cleared on time-affecting edit (M1)"
    );
    assert!(event.edited_at.is_some());

    let refetched = db.fetch_event(&event.id).unwrap();
    assert_eq!(refetched.start, new_start);
    assert_eq!(refetched.series_end, event.series_end);
    assert!(refetched.recurrence.as_ref().unwrap().exceptions.is_empty());
}

#[test]
fn an_edit_that_leaves_the_time_keeps_the_exceptions() {
    let mut db = ReferenceDb::new();
    let mut new = launch();
    new.recurrence = Some(rule(Frequency::Daily, 3));
    let mut event = create(&mut db, new).unwrap();
    event.recurrence.as_mut().unwrap().exceptions = vec![event.start];
    let partial = PartialCalendarEvent { title: Some("Party".to_string()), ..Default::default() };
    event.edit_at(&mut db, partial, &vec![FieldsCalendarEvent::Location], 55).unwrap();
    assert_eq!(event.title, "Party");
    assert_eq!(event.edited_at, Some(55));
    assert_eq!(event.recurrence.as_ref().unwrap().exceptions, vec![event.start]);
    assert_eq!(db.fetch_event(&event.id).unwrap(), event);

    let bad = PartialCalendarEvent { title: Some(" ".to_string()), ..Default::default() };
    assert_eq!(
        event.edit_at(&mut db, bad, &vec![], 56),
        Err(Error::FailedValidation { error: "title" })
    );
    assert_eq!(db.fetch_event(&event.id).unwrap().title, "Party");
}

#[test]
fn delete_missing_is_not_found() {
    let mut db = ReferenceDb::new();
    assert!(db.delete_event("does-not-exist").is_err());
    assert!(db.delete_rsvp("nope", "nobody").is_err());
    assert!(db.fetch_rsvp("nope", "nobody").is_err());
}

#[test]
fn created_events_are_complete() {
    let event = CalendarEvent::build(launch(), "id".to_string(), 77).unwrap();
    assert_eq!(event.id, "id");
    assert_eq!(event.created_at, 77);
    assert_eq!(event.duration_ms, 3_600_000);
    assert_eq!(event.series_end, 1_900_003_600_000);
    assert!(!event.cancelled);
    let mut bad = launch();
    bad.title = String::new();
    assert_eq!(
        CalendarEvent::build(bad, "id".to_string(), 77),
        Err(Error::FailedValidation { error: "title" })
    );
}

#[test]
fn answers_go_with_members_users_and_servers() {
    let mut db = ReferenceDb::new();
    let mut a = CalendarEvent::build(launch(), "a".to_string(), 1).unwrap();
    a.source_message_id = Some("m1".to_string());
    let mut b = a.dup();
    b.id = "b".to_string();
    b.server = "other".to_string();
    db.insert_event(&a).unwrap();
    db.insert_event(&b).unwrap();
    for event in ["a", "b"] {
        for user in ["u", "v"] {
            assert!(EventRsvp::invite(&mut db, event, user, "h"));
        }
    }
    assert_eq!(db.fetch_imported_source_ids("01SERVER"), vec!["m1"]);
    db.delete_rsvps_for_member("01SERVER", "u");
    assert!(db.fetch_rsvp("a", "u").is_err());
    assert!(db.fetch_rsvp("b", "u").is_ok());
    db.delete_rsvps_for_user("u");
    assert!(db.fetch_rsvp("b", "u").is_err());
    assert!(db.fetch_rsvp("b", "v").is_ok());
    db.delete_calendar_for_server("other");
    assert!(db.fetch_event("b").is_err());
    assert!(db.fetch_rsvp("b", "v").is_err());
    assert!(db.fetch_rsvp("a", "v").is_ok());
    db.delete_rsvp("a", "v").unwrap();
    assert!(db.fetch_rsvps_for_event("a").is_empty());
}

#[test]
fn reminders_are_sent_once() {
    let mut db = ReferenceDb::new();
    let key = |occurrence: i64| ReminderSentKey {
        event: "e".to_string(),
        user: "u".to_string(),
        occurrence,
        offset: 900_000,
    };
    assert!(db.mark_reminder_sent_at(&key(10), 1));
    assert!(!db.mark_reminder_sent_if_absent(&key(10)));
    assert!(db.mark_reminder_sent_if_absent(&key(20)));
    assert_eq!(db.delete_reminders_sent_before(20), 1);
    assert_eq!(db.delete_reminders_sent_before(20), 0);
    assert!(db.mark_reminder_sent_if_absent(&key(10)));
}

#[test]
fn months_and_days() {
    assert_eq!(last_day_of_month(2024, 2), 29);
    assert_eq!(last_day_of_month(2026, 2), 28);
    assert_eq!(last_day_of_month(2000, 2), 29);
    assert_eq!(last_day_of_month(1900, 2), 28);
    assert_eq!(last_day_of_month(2026, 12), 31);
    assert_eq!(add_months(2026, 11, 1), (2027, 1));
    assert_eq!(add_months(2026, 0, -1), (2025, 12));
    assert_eq!(add_months(2026, 0, 25), (2028, 2));
    let wall = Utc.with_ymd_and_hms(2026, 6, 1, 9, 30, 0).unwrap().timestamp_millis();
    assert_eq!(civil_date(wall), (2026, 6, 1));
    assert_eq!(days_from_monday(wall), 0);
    assert_eq!(days_from_monday(wall + day_ms(6)), 6);
    assert_eq!(on_date(2026, 2, 30, wall), None);
    let moved = Utc.with_ymd_and_hms(2027, 1, 2, 9, 30, 0).unwrap().timestamp_millis();
    assert_eq!(on_date(2027, 1, 2, wall), Some(moved));
}

#[test]
fn zones_are_known_by_name() {
    assert!(is_zone("Europe/Berlin"));
    assert!(is_zone("UTC"));
    assert!(!is_zone("Berlin"));
    assert_eq!(zone_or_utc("Europe/Berlin"), "Europe/Berlin");
    assert_eq!(zone_or_utc("nowhere"), "UTC");
    let ms = Utc.with_ymd_and_hms(2026, 7, 1, 10, 0, 0).unwrap().timestamp_millis();
    assert_eq!(local_clock("Europe/Berlin", ms) - ms, 2 * 3_600_000);
    assert_eq!(local_to_utc_ms("Europe/Berlin", ms + 2 * 3_600_000), ms);
    assert_eq!(local_clock("UTC", ms), ms);
}

#[test]
fn stored_events_change_and_are_found_for_reminders() {
    let mut db = ReferenceDb::new();
    let event = CalendarEvent::build(launch(), "e".to_string(), 1).unwrap();
    db.insert_event(&event).unwrap();
    assert!(db.insert_event(&event).is_err());
    let partial = PartialCalendarEvent {
        title: Some("Party".to_string()),
        location: Some("here".to_string()),
        ..Default::default()
    };
    db.update_event("e", partial, &vec![FieldsCalendarEvent::End]).unwrap();
    let stored = db.fetch_event("e").unwrap();
    assert_eq!(stored.title, "Party");
    assert_eq!(stored.location.as_deref(), Some("here"));
    assert_eq!(stored.end, None);
    assert_eq!(stored.series_end, event.series_end);
    assert_eq!(
        db.update_event("none", PartialCalendarEvent::default(), &vec![]),
        Err(Error::NotFound)
    );
    let mut replaced = stored.dup();
    replaced.title = "Again".to_string();
    assert_eq!(db.replace_event(&replaced), Ok(()));
    assert_eq!(db.fetch_event("e").unwrap().title, "Again");
    replaced.id = "none".to_string();
    assert_eq!(db.replace_event(&replaced), Err(Error::NotFound));

    assert_eq!(db.fetch_events_in_reminder_window(event.start, event.start).len(), 1);
    assert!(db.fetch_events_in_reminder_window(event.start - 1, event.start).is_empty());
    assert!(db
        .fetch_events_in_reminder_window(event.start, event.series_end + 1)
        .is_empty());
    replaced.id = "e".to_string();
    replaced.cancelled = true;
    db.replace_event(&replaced).unwrap();
    assert!(db.fetch_events_in_reminder_window(event.start, event.start).is_empty());
    assert_eq!(FieldsCalendarEvent::SourceMessageId.as_path(), Some("source_message_id"));
}

#[test]
fn events_are_made_under_fresh_ids() {
    let mut db = ReferenceDb::new();
    let first = create(&mut db, launch()).unwrap();
    let second = create(&mut db, launch()).unwrap();
    assert_eq!(first.id.len(), 26);
    assert_eq!(second.id.len(), 26);
    assert_ne!(first.id, second.id);
    let mut bad = launch();
    bad.title = String::new();
    assert_eq!(create(&mut db, bad), Err(Error::FailedValidation { error: "title" }));
}

#[test]
fn messages_are_imported_under_their_id_once() {
    let mut db = ReferenceDb::new();
    for (id, source) in [("a", "m1"), ("b", "m2"), ("c", "m1")] {
        let mut event = CalendarEvent::build(launch(), id.to_string(), 1).unwrap();
        event.source_message_id = Some(source.to_string());
        db.insert_event(&event).unwrap();
    }
    assert_eq!(db.fetch_imported_source_ids("01SERVER"), vec!["m1", "m2"]);
}

fn file(id: &str) -> File {
    FileHash {
        id: "h".to_string(),
        processed_hash: "p".to_string(),
        created_at: 1,
        bucket_id: "bucket".to_string(),
        path: "path".to_string(),
        iv: String::new(),
        format_version: None,
        metadata: Metadata::File,
        content_type: "text/plain".to_string(),
        size: 12,
    }
    .into_file_at(id.to_string(), "attachments".to_string(), "a".to_string(), "u".to_string(), 9)
}

#[test]
fn attachments_go_with_the_calendar() {
    let mut db = ReferenceDb::new();
    for id in ["x", "y", "z"] {
        db.insert_attachment(&file(id)).unwrap();
    }
    let mut event = CalendarEvent::build(launch(), "a".to_string(), 1).unwrap();
    assert_eq!(event.attachments, None);
    event.apply_options(PartialCalendarEvent {
        attachments: Some(vec![file("x"), file("z"), file("missing")]),
        ..Default::default()
    });
    db.insert_event(&event).unwrap();
    let mut other = CalendarEvent::build(launch(), "b".to_string(), 1).unwrap();
    other.server = "other".to_string();
    other.attachments = Some(vec![file("y")]);
    db.insert_event(&other).unwrap();

    db.delete_calendar_for_server("01SERVER");
    let deleted: Vec<(&str, Option<bool>)> =
        db.files.rows.iter().map(|f| (f.id.as_str(), f.deleted)).collect();
    assert_eq!(deleted, vec![("x", Some(true)), ("y", None), ("z", Some(true))]);
    assert_eq!(db.fetch_event("b").unwrap(), other);
}

#[test]
fn readings_follow_the_rule() {
    let monthly = RecurrenceRule { interval: 2, ..rule(Frequency::Monthly, 9) };
    let at = |y: i32, m: u32, d: u32| {
        Utc.with_ymd_and_hms(y, m, d, 9, 30, 0).unwrap().timestamp_millis()
    };
    assert_eq!(reading_of_occurrence(&monthly, at(2026, 1, 31), 0), Some(at(2026, 1, 31)));
    assert_eq!(reading_of_occurrence(&monthly, at(2026, 1, 31), 2), Some(at(2026, 5, 31)));
    assert_eq!(reading_of_occurrence(&monthly, at(2026, 1, 31), 4), Some(at(2026, 9, 30)));
    let daily = RecurrenceRule { interval: 3, ..rule(Frequency::Daily, 9) };
    assert_eq!(reading_of_occurrence(&daily, at(2026, 2, 27), 1), Some(at(2026, 3, 2)));

    assert!(is_past_end(&RecurrenceEnd::Until { timestamp: 5 }, 6));
    assert!(!is_past_end(&RecurrenceEnd::Until { timestamp: 5 }, 5));
    assert!(!is_past_end(&RecurrenceEnd::Count { count: 1 }, i64::MAX));
}

#[test]
fn a_counted_series_is_complete_and_ends_where_it_says() {
    for freq in [Frequency::Daily, Frequency::Weekly, Frequency::Monthly] {
        let event = event_at_local(chrono_tz::UTC, (2026, 1, 31), 9, 0, Some(rule(freq, 40)));
        assert!(event.validate().is_ok());
        let starts = series_occurrence_starts(&event);
        assert_eq!(starts.len(), 40);
        assert_eq!(starts[0], event.start);
        assert!(starts.windows(2).all(|pair| pair[0] < pair[1]));
        assert!(starts.iter().all(|start| start + event.duration_ms <= event.series_end));
        assert_eq!(event.series_end, starts[39] + event.duration_ms);
    }
}

#[test]
fn series_stay_in_order_where_clocks_skip_a_day() {
    // Samoa skipped 30 December 2011
    let tz: Tz = "Pacific/Apia".parse().unwrap();
    let event = event_at_local(tz, (2011, 12, 27), 10, 0, Some(rule(Frequency::Daily, 7)));
    let starts = series_occurrence_starts(&event);
    let utc = |day: u32, hour: u32| {
        Utc.with_ymd_and_hms(2011, 12, day, hour, 0, 0).unwrap().timestamp_millis()
    };
    assert_eq!(starts[..5], [utc(27, 20), utc(28, 20), utc(29, 20), utc(30, 10), utc(30, 20)]);
    assert!(starts.windows(2).all(|pair| pair[0] <= pair[1]));
    assert_eq!(event.series_end, starts[6] + event.duration_ms);
    assert!(occurrences_in_window(&event, event.series_end + 1, i64::MAX).is_empty());
}
