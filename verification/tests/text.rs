use revolt_core::db::is_duplicate_key;
use revolt_core::events::{CalendarEventNotification, CalendarEventPayload, EventV1};
use revolt_core::text::{
    chars_of, contains_part, int_string, is_before, is_blank, is_white_space, joined, length,
    same, to_hex, trim,
};

#[test]
fn white_space_is_what_unicode_says() {
    for n in 0..=0x10FFFFu32 {
        if let Some(c) = char::from_u32(n) {
            assert_eq!(is_white_space(c), c.is_whitespace(), "{n:x}");
        }
    }
    assert!(is_blank(""));
    assert!(is_blank(" \t\u{2003}"));
    assert!(!is_blank(" x "));
}

#[test]
fn texts_are_ordered_by_their_bytes() {
    let list = ["", "a", "aa", "ab", "b", "\u{e9}", "\u{ffff}", "\u{10000}", "Z"];
    for a in list {
        for b in list {
            assert_eq!(is_before(a, b), a < b, "{a:?} {b:?}");
            assert_eq!(same(a, b), a == b);
        }
    }
}

#[test]
fn texts_are_trimmed_like_strings() {
    for s in ["", " ", "a", " a b ", "\u{3000}x\n", "\u{85}\u{a0}y"] {
        assert_eq!(trim(s), s.trim());
    }
}

#[test]
fn numbers_and_bytes_as_texts() {
    for n in [0, 7, 10, 99, 100, -1, 12345, i32::MAX, i32::MIN] {
        assert_eq!(int_string(n), n.to_string());
    }
    assert_eq!(to_hex(&vec![0, 15, 16, 255]), "000f10ff");
    assert_eq!(joined("a", "b"), "ab");
    assert_eq!(length("\u{e9}\u{10000}"), 2);
    assert_eq!(chars_of("a\u{e9}"), vec!['a', '\u{e9}']);
}

#[test]
fn parts_are_found_in_texts() {
    for (s, part) in [
        ("", ""),
        ("abc", ""),
        ("abc", "abc"),
        ("abc", "bc"),
        ("aab", "ab"),
        ("abc", "abcd"),
        ("abc", "ac"),
        ("", "a"),
    ] {
        assert_eq!(contains_part(s, part), s.contains(part), "{s:?} {part:?}");
    }
}

#[test]
fn duplicate_keys_are_told_by_their_code() {
    assert!(is_duplicate_key(Some(11000)));
    assert!(!is_duplicate_key(Some(11001)));
    assert!(!is_duplicate_key(None));
}

#[test]
fn calendar_notifications_read_well() {
    let payload = |kind: CalendarEventNotification| CalendarEventPayload {
        user: "u".to_string(),
        event_id: "e".to_string(),
        server_id: "s".to_string(),
        title: "Launch".to_string(),
        kind,
        occurrence_start: None,
    };
    let text = |a: &str, b: &str| (a.to_string(), b.to_string());
    assert_eq!(
        payload(CalendarEventNotification::Invited).render(),
        text("Event invitation", "You're invited to Launch")
    );
    assert_eq!(
        payload(CalendarEventNotification::Cancelled).render(),
        text("Event cancelled", "Launch was cancelled")
    );
    assert_eq!(
        payload(CalendarEventNotification::Reminder).render(),
        text("Upcoming event", "Launch is starting soon")
    );
    assert_eq!(CalendarEventNotification::Invited.as_str(), "invited");
    assert_eq!(CalendarEventNotification::Cancelled.as_str(), "cancelled");
    assert_eq!(CalendarEventNotification::Reminder.as_str(), "reminder");
}

#[test]
fn events_go_to_their_topics() {
    let event = || EventV1::ServerDelete { id: "s".to_string() };
    assert_eq!(event().p("topic".to_string()).topic, "topic");
    assert_eq!(event().private("u".to_string()).topic, "u!");
    assert_eq!(event().server("s".to_string()).topic, "su");
    assert_eq!(event().global().topic, "global");
    let topics: Vec<String> = event()
        .p_user("u".to_string(), &vec!["s".to_string(), "t".to_string()])
        .into_iter()
        .map(|p| p.topic)
        .collect();
    assert_eq!(topics, vec!["u", "su", "tu"]);
}
