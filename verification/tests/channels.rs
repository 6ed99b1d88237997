use revolt_core::channel_ops::{
    DataCreateGroup, DataCreateServerChannel, DataCreateThread, GroupLeft, OriginMessage,
    ServerChannelType, SystemMessage,
};
use revolt_core::channels::{
    Channel, FieldsChannel, ForumSortOrder, ForumTag, OverrideField, PartialChannel,
    RolePermissions, VoiceInformation,
};
use revolt_core::db::ReferenceDb;
use revolt_core::error::Error;
use revolt_core::events::EventV1;
use revolt_core::people::{PartialServer, Relationship, RelationshipStatus, Server, User};
use revolt_core::table::Row;
use ulid::Ulid;

fn id(t: u64) -> String {
    Ulid::from_parts(t, 0).to_string()
}

fn ordered_ids() -> (String, String, String) {
    let (id1, id2, id3) = (id(1_000), id(2_000), id(3_000));
    assert!(id1 < id2 && id2 < id3, "ULIDs must sort by time as plain strings");
    assert!([&id1, &id2, &id3].iter().all(|id| id.len() == 26));
    (id1, id2, id3)
}

fn group_last_message_id(channel: Channel) -> Option<String> {
    match channel {
        Channel::Group { last_message_id, .. } => last_message_id,
        other => panic!("expected a Group channel, got {other:?}"),
    }
}

fn dm_state(channel: Channel) -> (bool, Option<String>) {
    match channel {
        Channel::DirectMessage { active, last_message_id, .. } => (active, last_message_id),
        other => panic!("expected a DirectMessage channel, got {other:?}"),
    }
}

fn texts(list: &[&str]) -> Vec<String> {
    list.iter().map(|s| s.to_string()).collect()
}

fn group(id: &str, owner: &str, recipients: &[&str]) -> Channel {
    Channel::Group {
        id: id.to_string(),
        name: "test".to_string(),
        owner: owner.to_string(),
        description: None,
        recipients: texts(recipients),
        icon: None,
        last_message_id: None,
        permissions: None,
        nsfw: false,
        spoiler: false,
        voice: None,
    }
}

fn text_channel(id: &str, server: &str) -> Channel {
    Channel::TextChannel {
        id: id.to_string(),
        server: server.to_string(),
        name: "general".to_string(),
        description: None,
        icon: None,
        last_message_id: None,
        default_permissions: None,
        role_permissions: RolePermissions::new(),
        nsfw: false,
        spoiler: false,
        voice: None,
        slowmode: None,
        announcement: None,
    }
}

fn user(id: &str) -> User {
    User {
        id: id.to_string(),
        username: format!("name of {id}"),
        avatar: None,
        relations: vec![],
        bot: false,
        presence: None,
        last_acknowledged_policy_change: 0,
        other: String::new(),
    }
}

#[test]
fn last_message_id_only_moves_forward() {
    let mut db = ReferenceDb::new();
    let (id1, id2, id3) = ordered_ids();
    let group_id = "01LMIDGROUP".to_string();

    db.insert_channel(&group("01LMIDGROUP", "01LMIDOWNER", &["01LMIDOWNER"])).unwrap();

    assert!(db.set_last_message_id_if_newer(&group_id, &id2, false));
    let stored = group_last_message_id(db.fetch_channel(&group_id).unwrap());
    assert_eq!(stored.as_deref(), Some(id2.as_str()));

    assert!(!db.set_last_message_id_if_newer(&group_id, &id1, false));
    let stored = group_last_message_id(db.fetch_channel(&group_id).unwrap());
    assert_eq!(stored.as_deref(), Some(id2.as_str()));

    assert!(!db.set_last_message_id_if_newer(&group_id, &id2, false));

    assert!(db.set_last_message_id_if_newer(&group_id, &id3, false));
    let stored = group_last_message_id(db.fetch_channel(&group_id).unwrap());
    assert_eq!(stored.as_deref(), Some(id3.as_str()));
}

#[test]
fn last_message_id_dm_reopen_only_when_newer() {
    let mut db = ReferenceDb::new();
    let (id1, id2, id3) = ordered_ids();
    let dm_id = "01LMIDDM".to_string();

    db.insert_channel(&Channel::DirectMessage {
        id: dm_id.clone(),
        active: false,
        recipients: vec!["01LMIDUSERA".to_string(), "01LMIDUSERB".to_string()],
        last_message_id: None,
    })
    .unwrap();

    assert!(db.set_last_message_id_if_newer(&dm_id, &id2, true));
    let (active, stored) = dm_state(db.fetch_channel(&dm_id).unwrap());
    assert!(active, "a winning id must reopen the DM");
    assert_eq!(stored.as_deref(), Some(id2.as_str()));

    // It is closed again
    db.update_channel(
        &dm_id,
        &PartialChannel { active: Some(false), ..Default::default() },
        &vec![],
    )
    .unwrap();

    assert!(!db.set_last_message_id_if_newer(&dm_id, &id1, true));
    let (active, stored) = dm_state(db.fetch_channel(&dm_id).unwrap());
    assert!(!active, "a losing id must not reopen a closed DM");
    assert_eq!(stored.as_deref(), Some(id2.as_str()));

    assert!(db.set_last_message_id_if_newer(&dm_id, &id3, true));
    let (active, stored) = dm_state(db.fetch_channel(&dm_id).unwrap());
    assert!(active, "a newer id must reopen the DM");
    assert_eq!(stored.as_deref(), Some(id3.as_str()));
}

#[test]
fn last_message_id_skips_missing_and_saved_messages() {
    let mut db = ReferenceDb::new();
    let (id1, _, _) = ordered_ids();

    assert!(
        !db.set_last_message_id_if_newer("does-not-exist", &id1, false),
        "a missing channel is Ok(false), not an error"
    );

    let saved_id = "01LMIDSAVED".to_string();
    db.insert_channel(&Channel::SavedMessages {
        id: saved_id.clone(),
        user: "01LMIDUSERA".to_string(),
    })
    .unwrap();

    assert!(
        !db.set_last_message_id_if_newer(&saved_id, &id1, false),
        "Saved Messages is Ok(false), not an error"
    );
}

#[test]
fn group_voice_calling_toggle() {
    let group = |voice| Channel::Group {
        id: "0".to_string(),
        name: "test".to_string(),
        owner: "1".to_string(),
        description: None,
        recipients: vec![],
        icon: None,
        last_message_id: None,
        permissions: None,
        nsfw: false,
        spoiler: false,
        voice,
    };

    // Not set: no calls
    assert!(group(None).voice().is_none());

    let enabled = group(Some(VoiceInformation { max_users: None, disabled: false }));
    assert!(enabled.voice().is_some());
    assert_eq!(enabled.voice().unwrap().max_users, None);

    let limited = group(Some(VoiceInformation { max_users: Some(5), disabled: false }));
    assert_eq!(limited.voice().unwrap().max_users, Some(5));

    // Turned off
    let off = group(Some(VoiceInformation { max_users: Some(5), disabled: true }));
    assert!(off.voice().is_none());
}

#[test]
fn direct_messages_and_saved_messages_can_always_call() {
    let dm = Channel::DirectMessage {
        id: "d".to_string(),
        active: true,
        recipients: texts(&["a", "b"]),
        last_message_id: None,
    };
    assert!(dm.voice().is_some());
    assert!(dm.is_direct_dm());
    assert!(!group("g", "a", &["a"]).is_direct_dm());
    assert!(text_channel("c", "s").voice().is_none());
    assert_eq!(dm.users(), Ok(texts(&["a", "b"])));
    assert!(text_channel("c", "s").users().is_err());
    assert_eq!(text_channel("c", "s").server(), Some("s"));
    assert_eq!(dm.server(), None);
    assert!(dm.contains_user("a"));
    assert!(!dm.contains_user("c"));
    assert_eq!(Channel::default_auto_archive_minutes(), 1440);
}

#[test]
fn fields_are_set_and_unset() {
    let mut channel = text_channel("c", "s");
    channel.apply_options(PartialChannel {
        name: Some("new".to_string()),
        description: Some("what it is for".to_string()),
        nsfw: Some(true),
        slowmode: Some(5),
        owner: Some("ignored".to_string()),
        default_permissions: Some(OverrideField { a: 1, d: 2 }),
        ..Default::default()
    });
    match &channel {
        Channel::TextChannel { name, description, nsfw, slowmode, default_permissions, .. } => {
            assert_eq!(name, "new");
            assert_eq!(description.as_deref(), Some("what it is for"));
            assert!(*nsfw);
            assert_eq!(*slowmode, Some(5));
            assert_eq!(*default_permissions, Some(OverrideField { a: 1, d: 2 }));
        }
        other => panic!("expected a text channel, got {other:?}"),
    }
    channel.remove_fields(vec![FieldsChannel::Description, FieldsChannel::DefaultPermissions]);
    match &channel {
        Channel::TextChannel { name, description, default_permissions, .. } => {
            assert_eq!(name, "new");
            assert_eq!(*description, None);
            assert_eq!(*default_permissions, None);
        }
        other => panic!("expected a text channel, got {other:?}"),
    }
    assert_eq!(FieldsChannel::DefaultPermissions.as_path(), Some("default_permissions"));
    assert_eq!(FieldsChannel::Icon.as_path(), Some("icon"));
}

#[test]
fn a_change_is_stored_and_told() {
    let mut db = ReferenceDb::new();
    let mut channel = text_channel("c", "s");
    db.insert_channel(&channel).unwrap();
    assert!(db.insert_channel(&channel).is_err());
    let partial = PartialChannel { name: Some("new".to_string()), ..Default::default() };
    let told = channel.update(&mut db, partial.dup(), vec![FieldsChannel::Icon]).unwrap();
    assert_eq!(db.fetch_channel("c").unwrap(), channel);
    assert_eq!(
        told.event,
        EventV1::ChannelUpdate {
            id: "c".to_string(),
            data: partial.dup(),
            clear: vec![FieldsChannel::Icon],
        }
    );
    let mut missing = text_channel("missing", "s");
    assert!(missing.update(&mut db, partial, vec![]).is_err());
    assert_eq!(db.fetch_channel("missing"), Err(Error::NotFound));
}

fn server(id: &str, owner: &str) -> Server {
    Server {
        id: id.to_string(),
        owner: owner.to_string(),
        name: "server".to_string(),
        description: None,
        channels: vec![],
        roles: vec![],
        default_permissions: 0,
        other: vec![],
    }
}

fn data(channel_type: ServerChannelType) -> DataCreateServerChannel {
    DataCreateServerChannel {
        channel_type,
        name: "room".to_string(),
        description: None,
        nsfw: None,
        spoiler: None,
        voice: None,
        announcement: None,
    }
}

#[test]
fn servers_get_channels_up_to_a_limit() {
    let mut db = ReferenceDb::new();
    let mut home = server("s", "o");
    let (text, extended) = Channel::create_server_channel_as(
        &mut db,
        &mut home,
        data(ServerChannelType::Text),
        true,
        1,
        "c1".to_string(),
    )
    .unwrap();
    assert_eq!(text.id(), "c1");
    assert_eq!(home.channels, texts(&["c1"]));
    let extended = extended.unwrap();
    assert_eq!(
        extended.change,
        PartialServer { channels: Some(texts(&["c1"])), ..Default::default() }
    );
    assert_eq!(extended.created.topic, "s");
    assert_eq!(extended.created.event, EventV1::ChannelCreate(text.dup()));
    let (forum, _) = Channel::create_server_channel_as(
        &mut db,
        &mut home,
        data(ServerChannelType::Forum),
        true,
        1,
        "c2".to_string(),
    )
    .unwrap();
    assert!(matches!(forum, Channel::Forum { .. }));
    assert_eq!(
        Channel::create_server_channel(
            &mut db,
            &mut home,
            data(ServerChannelType::Voice),
            true,
            1
        )
        .unwrap_err(),
        Error::TooManyChannels { max: 1 }
    );
    assert_eq!(db.fetch_channel("c1").unwrap(), text);
}

#[test]
fn threads_hang_on_their_parent() {
    let mut db = ReferenceDb::new();
    let parent = text_channel("p", "s");
    db.insert_channel(&parent).unwrap();
    let data = DataCreateThread { name: "talk".to_string(), auto_archive_minutes: None };
    let origin = OriginMessage {
        id: "m".to_string(),
        channel: "p".to_string(),
        thread_id: None,
    };
    let made = Channel::create_thread_as(
        &mut db,
        &parent,
        &user("u"),
        Some(&origin),
        &data,
        1,
        "t".to_string(),
    )
    .unwrap();
    assert_eq!(made.channel.id(), "t");
    assert_eq!(made.stamped_message.as_deref(), Some("m"));
    assert_eq!(
        made.notice.message,
        SystemMessage::ThreadCreated {
            id: "t".to_string(),
            by: "u".to_string(),
            name: "talk".to_string(),
        }
    );
    match &made.channel {
        Channel::Thread { parent_channel, creator, auto_archive_minutes, archived, .. } => {
            assert_eq!(parent_channel, "p");
            assert_eq!(creator, "u");
            assert_eq!(*auto_archive_minutes, Channel::default_auto_archive_minutes());
            assert!(!archived);
        }
        other => panic!("expected a thread, got {other:?}"),
    }
    assert_eq!(made.channel.permission_target(&db).unwrap(), parent);
    assert_eq!(parent.permission_target(&db).unwrap(), parent);
    assert_eq!(db.fetch_threads_by_parent("p").len(), 1);
    assert_eq!(db.fetch_active_threads().len(), 1);

    assert_eq!(
        Channel::create_thread(&mut db, &parent, &user("u"), None, &data, 1).unwrap_err(),
        Error::TooManyChannels { max: 1 }
    );
    let started = OriginMessage { thread_id: Some("t".to_string()), ..origin };
    assert_eq!(
        Channel::create_thread(&mut db, &parent, &user("u"), Some(&started), &data, 5)
            .unwrap_err(),
        Error::ThreadAlreadyExists
    );
    assert!(Channel::create_thread(
        &mut db,
        &group("g", "u", &["u"]),
        &user("u"),
        None,
        &data,
        5
    )
    .is_err());

    // With the parent, the thread goes
    let gone = parent.delete(&mut db);
    assert!(gone.ids.contains(&"t".to_string()));
    assert!(db.fetch_channel("t").is_err());
    assert!(db.fetch_channel("p").is_err());
}

#[test]
fn posts_of_a_forum_have_its_tags() {
    let mut db = ReferenceDb::new();
    let forum = Channel::Forum {
        id: "f".to_string(),
        server: "s".to_string(),
        name: "help".to_string(),
        description: None,
        icon: None,
        last_message_id: None,
        default_permissions: None,
        role_permissions: RolePermissions::new(),
        nsfw: false,
        spoiler: false,
        tags: vec![ForumTag {
            id: "open".to_string(),
            name: "Open".to_string(),
            emoji: None,
            moderated: false,
        }],
        require_tag: true,
        default_sort: ForumSortOrder::LatestActivity,
    };
    db.insert_channel(&forum).unwrap();
    let (post, _) = Channel::create_forum_post_as(
        &mut db,
        &forum,
        &user("u"),
        "how to".to_string(),
        texts(&["open"]),
        Some(60),
        10,
        "post".to_string(),
    )
    .unwrap();
    match &post {
        Channel::Thread { applied_tags, auto_archive_minutes, .. } => {
            assert_eq!(*applied_tags, texts(&["open"]));
            assert_eq!(*auto_archive_minutes, 60);
        }
        other => panic!("expected a thread, got {other:?}"),
    }
    assert!(Channel::create_forum_post(
        &mut db,
        &text_channel("c", "s"),
        &user("u"),
        "how to".to_string(),
        vec![],
        None,
        10
    )
    .is_err());
}

#[test]
fn groups_grow_and_shrink() {
    let mut db = ReferenceDb::new();
    let (mut made, told) = Channel::create_group_as(
        &mut db,
        DataCreateGroup {
            name: "friends".to_string(),
            description: None,
            icon: None,
            users: texts(&["b", "a", "b"]),
            nsfw: None,
            spoiler: None,
        },
        "a".to_string(),
        3,
        "g".to_string(),
    )
    .unwrap();
    assert!(made.contains_user("a") && made.contains_user("b"));
    assert_eq!(made.users().unwrap().len(), 2);
    assert_eq!(told.len(), 2);
    let added = made.add_user_to_group(&mut db, &user("c"), "a", 3).unwrap();
    assert_eq!(
        added.joined.event,
        EventV1::ChannelGroupJoin { id: "g".to_string(), user: "c".to_string() }
    );
    assert_eq!(
        made.add_user_to_group(&mut db, &user("c"), "a", 4).unwrap_err(),
        Error::AlreadyInGroup
    );
    assert_eq!(
        made.add_user_to_group(&mut db, &user("d"), "a", 3).unwrap_err(),
        Error::GroupTooLarge { max: 3 }
    );
    assert_eq!(made.users().unwrap().len(), 3);
    let stored = db.fetch_channel("g").unwrap();
    assert_eq!(stored.users().unwrap().len(), 3);

    // The owner leaves: another member gets the group
    match stored.remove_user_from_group(&mut db, &user("a"), None, false).unwrap() {
        GroupLeft::Left { ownership, notice, .. } => {
            assert!(ownership.is_some());
            assert_eq!(notice.unwrap().message, SystemMessage::UserLeft { id: "a".to_string() });
        }
        other => panic!("expected the group to stay, got {other:?}"),
    }
    let stored = db.fetch_channel("g").unwrap();
    assert!(!stored.contains_user("a"));
    match &stored {
        Channel::Group { owner, .. } => assert!(owner == "b" || owner == "c"),
        other => panic!("expected a group, got {other:?}"),
    }

    // Another member is removed, without a word
    match stored.remove_user_from_group(&mut db, &user("c"), Some("b"), true).unwrap() {
        GroupLeft::Left { notice, .. } => assert!(notice.is_none()),
        other => panic!("expected the group to stay, got {other:?}"),
    }

    // The last one leaves
    let stored = db.fetch_channel("g").unwrap();
    let last = stored.users().unwrap()[0].clone();
    assert!(matches!(
        stored.remove_user_from_group(&mut db, &user(&last), None, false).unwrap(),
        GroupLeft::Deleted(_)
    ));
    assert!(db.fetch_channel("g").is_err());
}

#[test]
fn large_groups_are_refused() {
    let mut db = ReferenceDb::new();
    let data = || DataCreateGroup {
        name: "many".to_string(),
        description: None,
        icon: None,
        users: texts(&["b", "c"]),
        nsfw: None,
        spoiler: None,
    };
    assert_eq!(
        Channel::create_group(&mut db, data(), "a".to_string(), 2).unwrap_err(),
        Error::GroupTooLarge { max: 2 }
    );
    assert!(Channel::create_group(&mut db, data(), "a".to_string(), 3).is_ok());
}

#[test]
fn direct_messages_join_two_users() {
    let mut db = ReferenceDb::new();
    let (dm, _) =
        Channel::create_dm_as(&mut db, &user("a"), &user("b"), "d".to_string()).unwrap();
    assert_eq!(dm.users().unwrap(), texts(&["a", "b"]));
    assert_eq!(db.find_direct_message_channel("b", "a").unwrap(), dm);
    assert!(db.find_direct_message_channel("a", "c").is_err());
    let (saved, _) = Channel::create_dm(&mut db, &user("a"), &user("a")).unwrap();
    assert!(matches!(saved, Channel::SavedMessages { .. }));
    assert_eq!(db.find_saved_messages_channel("a").unwrap(), saved);
    let mut ids: Vec<String> =
        db.find_direct_messages("a").iter().map(|c| c.id().to_string()).collect();
    ids.sort();
    let mut expected = vec!["d".to_string(), saved.id().to_string()];
    expected.sort();
    assert_eq!(ids, expected);
    assert!(db.find_group_message_channels("a").is_empty());
}

#[test]
fn members_of_groups_are_stored() {
    let mut db = ReferenceDb::new();
    db.insert_channel(&group("g", "a", &["a"])).unwrap();
    db.insert_channel(&group("h", "b", &["b", "c"])).unwrap();
    db.add_user_to_group("g", "c").unwrap();
    assert_eq!(db.find_group_message_channels("c").len(), 2);
    db.remove_user_from_group("g", "c").unwrap();
    assert_eq!(db.find_group_message_channels("c").len(), 1);
    db.remove_user_from_groups(&texts(&["g", "h"]), "c");
    assert!(db.find_group_message_channels("c").is_empty());
    assert!(db.add_user_to_group("none", "c").is_err());
    assert_eq!(db.fetch_channels(&texts(&["h", "none"])).len(), 1);
}

#[test]
fn roles_have_permissions_in_a_channel() {
    let mut db = ReferenceDb::new();
    let mut channel = text_channel("c", "s");
    db.insert_channel(&channel).unwrap();
    let told = channel
        .set_role_permission(&mut db, "role", OverrideField { a: 4, d: 8 })
        .unwrap();
    assert!(matches!(told.event, EventV1::ChannelUpdate { .. }));
    match db.fetch_channel("c").unwrap() {
        Channel::TextChannel { role_permissions, .. } => {
            assert_eq!(role_permissions.rows().len(), 1);
            assert_eq!(role_permissions.rows()[0].role, "role");
            assert_eq!(role_permissions.rows()[0].permissions, OverrideField { a: 4, d: 8 });
        }
        other => panic!("expected a text channel, got {other:?}"),
    }
    let mut dm = group("g", "a", &["a"]);
    db.insert_channel(&dm).unwrap();
    assert_eq!(
        dm.set_role_permission(&mut db, "role", OverrideField { a: 0, d: 0 }).unwrap_err(),
        Error::InvalidOperation
    );
    let (told, payload) = channel.ack("u", "m");
    assert_eq!(
        told.event,
        EventV1::ChannelAck {
            id: "c".to_string(),
            user: "u".to_string(),
            message_id: "m".to_string(),
        }
    );
    assert_eq!(payload.channel_id, "c");
}

#[test]
fn relationships_are_looked_up() {
    let mut a = user("a");
    a.relations.push(Relationship { id: "b".to_string(), status: RelationshipStatus::Friend });
    assert_eq!(a.relationship_with("b"), RelationshipStatus::Friend);
    assert_eq!(a.relationship_with("c"), RelationshipStatus::Unrelated);
    assert_eq!(a.relationship_with("a"), RelationshipStatus::User);
}

#[test]
fn channels_are_made_under_fresh_ids() {
    let mut db = ReferenceDb::new();
    let data = DataCreateGroup {
        name: "two".to_string(),
        description: None,
        icon: None,
        users: texts(&["b"]),
        nsfw: None,
        spoiler: None,
    };
    let (group, _) = Channel::create_group(&mut db, data, "a".to_string(), 2).unwrap();
    let (dm, _) = Channel::create_dm(&mut db, &user("a"), &user("b")).unwrap();
    let parent = text_channel("p", "s");
    db.insert_channel(&parent).unwrap();
    let data = DataCreateThread { name: "talk".to_string(), auto_archive_minutes: None };
    let made = Channel::create_thread(&mut db, &parent, &user("u"), None, &data, 1).unwrap();
    for channel in [&group, &dm, &made.channel] {
        assert_eq!(channel.id().len(), 26);
        assert_eq!(db.fetch_channel(channel.id()).unwrap(), *channel);
    }
}

#[test]
fn what_is_no_stored_group_stays_as_it_is() {
    let mut db = ReferenceDb::new();
    let mut text = text_channel("c", "s");
    db.insert_channel(&text).unwrap();
    db.add_mention_to_unread("c", "u", &vec!["m".to_string()]);
    let before = text.dup();
    assert_eq!(
        text.remove_user_from_group(&mut db, &user("u"), None, false).unwrap_err(),
        Error::InvalidOperation
    );
    assert_eq!(
        text.add_user_to_group(&mut db, &user("u"), "a", 3).unwrap_err(),
        Error::InvalidOperation
    );
    assert_eq!(text, before);
    assert_eq!(db.fetch_channel("c").unwrap(), before);
    assert_eq!(db.fetch_unreads("u").len(), 1);

    // Only the store does not know the group
    let mut unknown = group("g", "a", &["a"]);
    assert_eq!(
        unknown.add_user_to_group(&mut db, &user("b"), "a", 3).unwrap_err(),
        Error::NotFound
    );
    assert_eq!(unknown.users().unwrap(), texts(&["a", "b"]));
}

#[test]
fn a_role_has_permissions_once() {
    let mut roles = RolePermissions::new();
    roles.put("a", OverrideField { a: 1, d: 0 });
    roles.put("b", OverrideField { a: 2, d: 0 });
    roles.put("a", OverrideField { a: 0, d: 3 });
    let held: Vec<(&str, i64, i64)> = roles
        .rows()
        .iter()
        .map(|r| (r.role.as_str(), r.permissions.a, r.permissions.d))
        .collect();
    assert_eq!(held, vec![("a", 0, 3), ("b", 2, 0)]);
}
