use revolt_core::channel_store::ChannelUnread;
use revolt_core::channels::Channel;
use revolt_core::db::ReferenceDb;

fn thread(id: &str) -> Channel {
    Channel::Thread {
        id: id.to_string(),
        server: new_id(),
        parent_channel: new_id(),
        name: "thread".to_string(),
        creator: new_id(),
        origin_message_id: None,
        last_message_id: None,
        archived: false,
        archived_timestamp: None,
        auto_archive_minutes: 0,
        locked: false,
        applied_tags: vec![],
    }
}

fn new_id() -> String {
    ulid::Ulid::new().to_string()
}

#[test]
fn mention_after_channel_delete_leaves_no_unread() {
    let mut db = ReferenceDb::new();
    let id = new_id();
    let user = new_id();
    let channel = thread(&id);
    db.insert_channel(&channel).unwrap();
    db.delete_channel(&channel);

    db.add_mention_to_unread(&id, &user, &vec![new_id()]);

    assert!(db.fetch_unread(&user, &id).is_none());
    assert!(db.fetch_unread_mentions(&user).is_empty());
}

#[test]
fn many_mentions_after_channel_delete_leave_no_unread() {
    let mut db = ReferenceDb::new();
    let id = new_id();
    let user = new_id();
    let channel = thread(&id);
    db.insert_channel(&channel).unwrap();
    db.delete_channel(&channel);

    db.add_mention_to_many_unreads(&id, &vec![user.clone()], &vec![new_id()]);

    assert!(db.fetch_unread(&user, &id).is_none());
    assert!(db.fetch_unread_mentions(&user).is_empty());
}

#[test]
fn ack_after_channel_delete_leaves_no_unread() {
    let mut db = ReferenceDb::new();
    let id = new_id();
    let user = new_id();
    let channel = thread(&id);
    db.insert_channel(&channel).unwrap();
    db.delete_channel(&channel);

    let unread = db.acknowledge_message(&id, &user, &new_id());

    assert!(unread.is_none());
    assert!(db.fetch_unread(&user, &id).is_none());
}

#[test]
fn ack_channels_after_channel_delete_leaves_no_unread() {
    let mut db = ReferenceDb::new();
    let live = new_id();
    let deleted = new_id();
    let user = new_id();
    db.insert_channel(&thread(&live)).unwrap();
    let deleted_channel = thread(&deleted);
    db.insert_channel(&deleted_channel).unwrap();
    db.delete_channel(&deleted_channel);

    db.acknowledge_channels(&user, &vec![live.clone(), deleted.clone()]).unwrap();

    assert!(db.fetch_unread(&user, &live).is_some());
    assert!(db.fetch_unread(&user, &deleted).is_none());
}

#[test]
fn first_mention_creates_unread_for_live_channel() {
    let mut db = ReferenceDb::new();
    let id = new_id();
    let user = new_id();
    let message = new_id();
    db.insert_channel(&thread(&id)).unwrap();

    db.add_mention_to_unread(&id, &user, &vec![message.clone()]);

    let unread = db.fetch_unread(&user, &id);
    assert_eq!(unread.and_then(|u| u.mentions), Some(vec![message]));
}

#[test]
fn delete_channel_purges_existing_unreads() {
    let mut db = ReferenceDb::new();
    let id = new_id();
    let user = new_id();
    let channel = thread(&id);
    db.insert_channel(&channel).unwrap();

    db.add_mention_to_unread(&id, &user, &vec![new_id()]);
    assert!(db.fetch_unread(&user, &id).is_some());
    db.delete_channel(&channel);

    assert!(db.fetch_unread(&user, &id).is_none());
}

#[test]
fn ack_creates_unread_for_live_channel() {
    let mut db = ReferenceDb::new();
    let id = new_id();
    let user = new_id();
    let message = new_id();
    db.insert_channel(&thread(&id)).unwrap();

    let unread = db.acknowledge_message(&id, &user, &message);
    assert_eq!(unread.and_then(|u| u.last_id), Some(message.clone()));

    let stored = db.fetch_unread(&user, &id);
    assert_eq!(stored.and_then(|u| u.last_id), Some(message));
}

#[test]
fn many_mentions_create_unread_for_live_channel() {
    let mut db = ReferenceDb::new();
    let id = new_id();
    let user = new_id();
    let message = new_id();
    db.insert_channel(&thread(&id)).unwrap();

    db.add_mention_to_many_unreads(&id, &vec![user.clone()], &vec![message.clone()]);

    let unread = db.fetch_unread(&user, &id);
    assert_eq!(unread.and_then(|u| u.mentions), Some(vec![message]));
}

#[test]
fn what_was_read_is_no_mention() {
    let mut db = ReferenceDb::new();
    db.insert_channel(&thread("c")).unwrap();
    db.insert_channel(&thread("d")).unwrap();
    let text = |s: &str| s.to_string();
    db.add_mention_to_unread("c", "u", &vec![text("01"), text("02")]);
    db.add_mention_to_unread("c", "u", &vec![text("03")]);
    assert_eq!(
        db.fetch_unread("u", "c").unwrap().mentions,
        Some(vec![text("01"), text("02"), text("03")])
    );
    assert_eq!(db.fetch_unread_mentions("u").len(), 1);

    db.acknowledge_message("c", "u", "02");
    let unread = db.fetch_unread("u", "c").unwrap();
    assert_eq!(unread.last_id, Some(text("02")));
    assert_eq!(unread.mentions, Some(vec![text("03")]));

    db.acknowledge_channels_at("u", &vec![text("c"), text("d")], "09").unwrap();
    let last: Vec<Option<String>> =
        db.fetch_unreads("u").into_iter().map(|u: ChannelUnread| u.last_id).collect();
    assert_eq!(last, vec![Some(text("09")), Some(text("09"))]);
    assert!(db.fetch_unreads("v").is_empty());
    assert!(!db.discard_unreads_if_channel_gone("c"));
    db.channels.rows.retain(|c| c.id() != "c");
    assert!(db.discard_unreads_if_channel_gone("c"));
    assert!(db.fetch_unread("u", "c").is_none());
    assert!(db.fetch_unread("u", "d").is_some());
}

#[test]
fn a_channel_listed_twice_is_read_once() {
    let mut db = ReferenceDb::new();
    db.insert_channel(&thread("c")).unwrap();
    let text = |s: &str| s.to_string();
    db.add_mention_to_unread("c", "v", &vec![text("01")]);
    let list = vec![text("c"), text("gone"), text("c"), text("gone")];
    assert_eq!(db.acknowledge_channels_at("u", &list, "09"), Ok(()));
    let unreads = db.fetch_unreads("u");
    assert_eq!(unreads.len(), 1);
    assert_eq!(unreads[0].channel, "c");
    assert_eq!(unreads[0].last_id, Some(text("09")));
    assert_eq!(unreads[0].mentions, None);
    assert_eq!(db.fetch_unread("v", "c").unwrap().mentions, Some(vec![text("01")]));

    db.acknowledge_channels("u", &list).unwrap();
    assert_eq!(db.fetch_unread("u", "c").unwrap().last_id.map(|id| id.len()), Some(26));
    db.acknowledge_channels("u", &vec![]).unwrap();
    assert_eq!(db.fetch_unreads("u").len(), 1);
}

#[test]
fn a_user_listed_twice_is_mentioned_once() {
    let mut db = ReferenceDb::new();
    db.insert_channel(&thread("c")).unwrap();
    let text = |s: &str| s.to_string();
    db.add_mention_to_many_unreads("c", &vec![text("u"), text("v"), text("u")], &vec![text("01")]);
    assert_eq!(db.fetch_unread("u", "c").unwrap().mentions, Some(vec![text("01")]));
    assert_eq!(db.fetch_unread("v", "c").unwrap().mentions, Some(vec![text("01")]));
}
