use revolt_core::cache::{Entry, Topics, Viewable};
use revolt_core::channels::{Channel, OverrideField, PartialChannel, RolePermissions};
use revolt_core::events::{EventV1, ReadyPayloadFields};
use revolt_core::gateway::State;
use revolt_core::people::{
    FieldsMember, Member, PartialMember, PartialRole, PartialServer, PartialUser, Presence,
    Relationship, RelationshipStatus, Role, Server, User,
};
use revolt_core::ready::{
    callable_channels, known_users, listed_channels, membership_servers, pending_policy_changes,
    voice_users_in, Fetched, PolicyChange, VoiceState,
};
use revolt_core::table::{Row, Table};

const VIEW_CHANNEL: i64 = 1 << 20;

fn user(id: &str) -> User {
    User {
        id: id.to_string(),
        username: "member".to_string(),
        avatar: None,
        relations: vec![],
        bot: false,
        presence: None,
        last_acknowledged_policy_change: 0,
        other: "{}".to_string(),
    }
}

fn texts(list: &[&str]) -> Vec<String> {
    list.iter().map(|s| s.to_string()).collect()
}

fn sees(ids: &[&str]) -> Viewable {
    Viewable { ids: texts(ids) }
}

fn server_with(id: &str, channels: &[&str]) -> Server {
    Server {
        id: id.to_string(),
        owner: "01USER0000000000000000OWNER".to_string(),
        name: "server".to_string(),
        description: None,
        channels: texts(channels),
        roles: vec![Role {
            id: "role".to_string(),
            name: "mod".to_string(),
            rank: 1,
            permissions: OverrideField { a: 0, d: 0 },
            colour: None,
            other: vec![],
        }],
        default_permissions: VIEW_CHANNEL,
        other: vec!["{}".to_string()],
    }
}

fn text_channel(id: &str, server: &str, name: &str, denied: bool) -> Channel {
    Channel::TextChannel {
        id: id.to_string(),
        server: server.to_string(),
        name: name.to_string(),
        description: None,
        icon: None,
        last_message_id: None,
        default_permissions: if denied {
            Some(OverrideField { a: 0, d: VIEW_CHANNEL })
        } else {
            None
        },
        role_permissions: RolePermissions::new(),
        nsfw: false,
        spoiler: false,
        voice: None,
        slowmode: None,
        announcement: None,
    }
}

fn thread(id: &str, parent: &str, server: &str) -> Channel {
    Channel::Thread {
        id: id.to_string(),
        server: server.to_string(),
        parent_channel: parent.to_string(),
        name: "thread".to_string(),
        creator: "c".to_string(),
        origin_message_id: None,
        last_message_id: None,
        archived: false,
        archived_timestamp: None,
        auto_archive_minutes: 60,
        locked: false,
        applied_tags: vec![],
    }
}

fn member(server: &str, user: &str) -> Member {
    Member {
        server: server.to_string(),
        user: user.to_string(),
        nickname: None,
        roles: vec![],
        other: vec![],
    }
}

/// The state of a user who is a plain member of a server.
fn member_state(user: User, server: &Server) -> State {
    let own = member(&server.id, &user.id);
    let mut state = State::from(user, 20);
    state.cache.servers.rows.push(Entry { key: server.id.clone(), row: server.dup() });
    state.cache.members.rows.push(Entry { key: server.id.clone(), row: own });
    state
}

fn renamed(id: &str, name: &str) -> EventV1 {
    EventV1::ChannelUpdate {
        id: id.to_string(),
        data: PartialChannel { name: Some(name.to_string()), ..Default::default() },
        clear: vec![],
    }
}

#[test]
fn hidden_channel_update_is_dropped_for_denied_member() {
    let server = server_with(
        "01SERVER00000000000000000A",
        &["01CHANNEL000000000000HIDDEN", "01CHANNEL00000000000VISIBLE"],
    );
    let hidden = text_channel("01CHANNEL000000000000HIDDEN", &server.id, "hidden", true);
    let visible = text_channel("01CHANNEL00000000000VISIBLE", &server.id, "visible", false);

    // The hidden channel is not in the cache: it is fetched when it is needed.
    let mut state = member_state(user("01USER000000000000000MEMBER"), &server);
    state.cache.channels.rows.push(visible.dup());
    let fetched = Table { rows: vec![hidden.dup()] };
    let view = sees(&["01CHANNEL00000000000VISIBLE"]);

    assert!(
        state
            .handle_incoming_event_v1(renamed(hidden.id(), "renamed secret"), &fetched, &view, &view)
            .is_empty(),
        "hidden-channel update must be dropped for a denied member"
    );

    let forwarded = state.handle_incoming_event_v1(
        renamed(visible.id(), "renamed public"),
        &Table { rows: vec![] },
        &view,
        &view,
    );
    assert_eq!(forwarded.len(), 1, "visible-channel update must still be forwarded");
    assert!(
        matches!(forwarded[0], EventV1::ChannelUpdate { .. }),
        "forwarded event must remain a ChannelUpdate"
    );
}

#[test]
fn a_channel_that_comes_into_view_is_created() {
    let server = server_with("s", &["c"]);
    let channel = text_channel("c", "s", "room", true);
    let mut state = member_state(user("u"), &server);
    let fetched = Table { rows: vec![channel.dup()] };
    let told =
        state.handle_incoming_event_v1(renamed("c", "open"), &fetched, &sees(&[]), &sees(&["c"]));
    assert!(told.iter().any(|e| matches!(e, EventV1::ChannelCreate(c) if c.id() == "c")));
    assert!(state.subscribed.contains("c"));

    let told = state.handle_incoming_event_v1(
        renamed("c", "closed"),
        &Table { rows: vec![] },
        &sees(&["c"]),
        &sees(&[]),
    );
    assert!(told
        .iter()
        .any(|e| *e == EventV1::ChannelDelete { id: "c".to_string() }));
    assert!(!state.subscribed.contains("c"));
}

#[test]
fn threads_are_seen_like_their_parents() {
    let server = server_with("s", &["p"]);
    let parent = text_channel("p", "s", "room", false);
    let mut state = member_state(user("u"), &server);
    state.cache.channels.rows.push(parent.dup());
    let none = Table { rows: vec![] };
    let told = state.handle_incoming_event_v1(
        EventV1::ChannelCreate(thread("t", "p", "s")),
        &none,
        &sees(&[]),
        &sees(&[]),
    );
    assert!(told.is_empty());
    let told = state.handle_incoming_event_v1(
        EventV1::ChannelCreate(thread("t", "p", "s")),
        &none,
        &sees(&["p"]),
        &sees(&["p"]),
    );
    assert_eq!(told.len(), 1);
    assert!(state.cache.can_view_channel(&thread("t", "p", "s"), &none, &sees(&["p"])));
    assert!(!state.cache.can_view_channel(&thread("t", "p", "s"), &none, &sees(&["t"])));
    let kept = state.cache.filter_accessible_channels(
        vec![parent.dup(), thread("t", "p", "s"), text_channel("q", "s", "x", true)],
        &none,
        &sees(&["p"]),
    );
    assert_eq!(kept.iter().map(|c| c.id().to_string()).collect::<Vec<_>>(), texts(&["p", "t"]));
}

#[test]
fn copies_of_an_event_are_dropped() {
    let mut state = State::from(user("u"), 2);
    let none = Table { rows: vec![] };
    let online = |id: &str| EventV1::UserUpdate {
        id: "v".to_string(),
        data: PartialUser { online: Some(true), other: None },
                clear: vec![],
        event_id: Some(id.to_string()),
    };
    let mut send = |event: EventV1| {
        state.handle_incoming_event_v1(event, &none, &sees(&[]), &sees(&[])).len()
    };
    assert_eq!(send(online("e1")), 1);
    assert_eq!(send(online("e1")), 0);
    assert_eq!(send(online("e2")), 1);
    assert_eq!(send(online("e3")), 1);
    assert_eq!(send(online("e3")), 0);
}

#[test]
fn nothing_is_left_of_a_server_that_was_left() {
    let server = server_with("s", &["c"]);
    let mut state = member_state(user("u"), &server);
    state.cache.channels.rows.push(text_channel("c", "s", "room", false));
    state.subscribed = Topics { list: texts(&["s", "c"]) };
    let told = state.handle_incoming_event_v1(
        EventV1::ServerMemberLeave {
            id: "s".to_string(),
            user: "u".to_string(),
            payload: "Leave".to_string(),
        },
        &Table { rows: vec![] },
        &sees(&["c"]),
        &sees(&[]),
    );
    assert_eq!(told.len(), 1);
    assert_eq!(state.cache.servers.len(), 0);
    assert_eq!(state.cache.channels.len(), 0);
    assert!(!state.subscribed.contains("s"));
    assert!(!state.subscribed.contains("c"));
}

#[test]
fn changes_of_servers_roles_and_members_reach_the_cache() {
    let server = server_with("s", &[]);
    let mut state = member_state(user("u"), &server);
    let none = Table { rows: vec![] };
    let mut send = |event: EventV1| {
        state.handle_incoming_event_v1(event, &none, &sees(&[]), &sees(&[]));
    };
    send(EventV1::ServerUpdate {
        id: "s".to_string(),
        data: PartialServer {
            name: Some("new".to_string()),
            other: Some("{\"nsfw\":true}".to_string()),
            ..Default::default()
        },
        clear: vec![],
    });
    send(EventV1::ServerRoleUpdate {
        id: "s".to_string(),
        role_id: "role".to_string(),
        data: PartialRole { rank: Some(7), ..Default::default() },
        clear: vec![],
    });
    send(EventV1::ServerMemberUpdate {
        server: "s".to_string(),
        user: "u".to_string(),
        data: PartialMember { nickname: Some("nick".to_string()), ..Default::default() },
        clear: vec![FieldsMember::Roles],
    });
    assert_eq!(state.cache.servers.rows[0].row.name, "new");
    assert_eq!(state.cache.servers.rows[0].row.other, texts(&["{}", "{\"nsfw\":true}"]));
    assert_eq!(state.cache.servers.rows[0].row.roles[0].rank, 7);
    assert_eq!(state.cache.members.rows[0].row.nickname.as_deref(), Some("nick"));
    let told = state.handle_incoming_event_v1(
        EventV1::ServerRoleDelete { id: "s".to_string(), role_id: "role".to_string() },
        &none,
        &sees(&[]),
        &sees(&[]),
    );
    assert_eq!(told.len(), 1);
    assert!(state.cache.servers.rows[0].row.roles.is_empty());
}

#[test]
fn presence_is_told_to_servers_unless_invisible() {
    let server = server_with("s", &[]);
    let state = member_state(user("u"), &server);
    let told = state.broadcast_presence_change_as(true, false, "e".to_string());
    assert!(told.iter().any(|p| p.topic == "s"));
    assert!(told.iter().all(|p| {
        p.event
            == EventV1::UserUpdate {
                id: "u".to_string(),
                data: PartialUser { online: Some(true), other: None },
                clear: vec![],
                event_id: Some("e".to_string()),
            }
    }));
    for told in state.broadcast_presence_change(false, false) {
        match told.event {
            EventV1::UserUpdate { data, event_id, .. } => {
                assert_eq!(data.online, Some(false));
                assert_eq!(event_id.map(|id| id.len()), Some(26));
            }
            other => panic!("expected an update, got {other:?}"),
        }
    }
    assert!(!state.broadcast_presence_change(false, false).is_empty());
    assert!(state.broadcast_presence_change(true, true).is_empty());
    let mut hidden = user("u");
    hidden.presence = Some(Presence::Invisible);
    let state = member_state(hidden, &server);
    assert!(state.broadcast_presence_change(true, false).is_empty());
    assert_eq!(state.clone_user().id, "u");
}

fn all_fields() -> ReadyPayloadFields {
    ReadyPayloadFields {
        users: true,
        servers: true,
        channels: true,
        members: true,
        emojis: true,
        voice_states: true,
        user_settings: texts(&["theme"]),
        channel_unreads: true,
        policy_changes: true,
    }
}

fn group(id: &str, members: &[&str]) -> Channel {
    Channel::Group {
        id: id.to_string(),
        name: "group".to_string(),
        owner: members[0].to_string(),
        description: None,
        recipients: texts(members),
        icon: None,
        last_message_id: None,
        permissions: None,
        nsfw: false,
        spoiler: false,
        voice: None,
    }
}

#[test]
fn a_client_is_told_what_it_can_see() {
    let mut me = user("u");
    me.relations
        .push(Relationship { id: "friend".to_string(), status: RelationshipStatus::Friend });
    me.last_acknowledged_policy_change = 10;
    let mut state = State::from(me, 20);
    let data = Fetched {
        policy_changes: vec![
            PolicyChange { created_time: 5, payload: "old".to_string() },
            PolicyChange { created_time: 15, payload: "new".to_string() },
        ],
        members: vec![Member { roles: texts(&["role"]), ..member("s", "u") }],
        servers: vec![server_with("s", &["seen", "hidden"])],
        direct_messages: vec![group("g", &["u", "mate"])],
        server_channels: vec![
            text_channel("seen", "s", "seen", false),
            text_channel("hidden", "s", "hidden", true),
        ],
        voice_states: vec![],
        voice_members: vec![member("s", "mate")],
        users: vec![user("friend"), user("mate")],
        online: texts(&["friend"]),
        threads: vec![thread("t", "seen", "s"), thread("h", "hidden", "s")],
        emojis: texts(&["smile"]),
        stickers: vec![],
        user_settings: texts(&["dark"]),
        channel_unreads: texts(&["unread"]),
    };
    let parents = Table {
        rows: vec![
            text_channel("seen", "s", "seen", false),
            text_channel("hidden", "s", "hidden", true),
        ],
    };
    let view = sees(&["seen", "g"]);
    let ready = state.generate_ready_payload(&all_fields(), data, &parents, &view, &view);
    let ids: Vec<String> =
        ready.channels.unwrap().iter().map(|c| c.id().to_string()).collect();
    assert!(ids.contains(&"seen".to_string()));
    assert!(ids.contains(&"g".to_string()));
    assert!(ids.contains(&"t".to_string()));
    assert!(!ids.contains(&"hidden".to_string()));
    assert!(!ids.contains(&"h".to_string()));
    let changes = ready.policy_changes.unwrap();
    assert_eq!(changes.len(), 1);
    assert_eq!(changes[0].payload, "new");
    assert_eq!(ready.servers.unwrap(), vec![server_with("s", &["seen", "hidden"])]);
    assert_eq!(ready.members.unwrap().len(), 2);
    // The client's own roles decide what it can see
    assert_eq!(state.cache.members.rows.len(), 1);
    assert_eq!(state.cache.members.rows[0].row.user, "u");
    assert_eq!(state.cache.members.rows[0].row.roles, texts(&["role"]));
    let users = ready.users.unwrap();
    let online = |id: &str| users.iter().find(|k| k.user.id == id).unwrap().online;
    assert!(online("friend"));
    assert!(!online("mate"));
    assert!(state.subscribed.contains("seen"));
    assert!(!state.subscribed.contains("hidden"));
}

#[test]
fn what_was_not_asked_for_is_not_told() {
    let mut state = State::from(user("u"), 20);
    let fields = ReadyPayloadFields {
        users: false,
        servers: false,
        channels: false,
        members: false,
        emojis: false,
        voice_states: false,
        user_settings: vec![],
        channel_unreads: false,
        policy_changes: false,
    };
    let data = Fetched {
        policy_changes: vec![],
        members: vec![],
        servers: vec![],
        direct_messages: vec![],
        server_channels: vec![],
        voice_states: vec![],
        voice_members: vec![],
        users: vec![],
        online: vec![],
        threads: vec![],
        emojis: vec![],
        stickers: vec![],
        user_settings: vec![],
        channel_unreads: vec![],
    };
    let none = Table { rows: vec![] };
    let ready = state.generate_ready_payload(&fields, data, &none, &sees(&[]), &sees(&[]));
    assert!(ready.users.is_none());
    assert!(ready.servers.is_none());
    assert!(ready.channels.is_none());
    assert!(ready.members.is_none());
    assert!(ready.voice_states.is_none());
    assert!(ready.emojis.is_none());
    assert!(ready.channel_unreads.is_none());
    assert!(ready.policy_changes.is_none());
}

#[test]
fn what_is_to_be_fetched_for_a_client() {
    assert_eq!(membership_servers(&vec![member("s", "u"), member("t", "u")]), texts(&["s", "t"]));
    assert_eq!(
        listed_channels(&vec![server_with("s", &["a", "b"]), server_with("t", &["c"])]),
        texts(&["a", "b", "c"])
    );
    let callable = callable_channels(&vec![
        group("g", &["u"]),
        text_channel("c", "s", "x", false),
        thread("t", "c", "s"),
    ]);
    assert_eq!(callable.len(), 1);
    let states = vec![VoiceState { id: "c".to_string(), participants: texts(&["v"]) }];
    let known = known_users(&user("u"), &vec![group("g", &["u", "w"])], &states);
    assert!(known.contains("v"));
    assert!(known.contains("w"));
    assert!(!known.contains("x"));
    let channels = Table { rows: vec![text_channel("c", "s", "x", false)] };
    assert!(voice_users_in(&channels, &states, "s").contains("v"));
    assert!(!voice_users_in(&channels, &states, "other").contains("v"));
    let mut state = member_state(user("u"), &server_with("s", &["c", "d"]));
    state.cache.channels.rows.push(text_channel("c", "s", "x", false));
    assert_eq!(state.unknown_channels("s"), texts(&["d"]));
    assert!(state.unknown_channels("other").is_empty());
    let wanted = state.users_to_fetch(&vec![group("g", &["u", "w"])], &states);
    assert!(wanted.contains("w") && wanted.contains("v"));
    assert!(!wanted.contains("u"));
    let mut bot = user("u");
    bot.bot = true;
    assert!(pending_policy_changes(&bot, true, &vec![]).is_none());
    assert!(pending_policy_changes(&user("u"), false, &vec![]).is_none());
    assert_eq!(pending_policy_changes(&user("u"), true, &vec![]), Some(vec![]));
}
