//! Events, the topics that they are published on, and the messages that other
//! services exchange.
use crate::channels::{Channel, ChannelView, FieldsChannel, PartialChannel, PartialChannelView};
use crate::follows::{ChannelFollow, ChannelFollowView};
use crate::people::{
    FieldsMember, FieldsRole, FieldsServer, PartialMember, PartialMemberView, PartialRole,
    PartialRoleView, PartialServer, PartialServerView, PartialUser, PartialUserView,
    RelationshipStatus, Server, ServerView, User, UserView,
};
use crate::table::{self, copy_rows, copy_values, Row};
use crate::text::{self, copy_opt, copy_texts, joined};
use vstd::prelude::*;

verus! {

/// Data of a ping.
#[derive(Debug, PartialEq, Eq)]
pub enum Ping {
    Binary(Vec<u8>),
    Number(usize),
}

/// Which fields a ready event has.
#[derive(Debug, PartialEq, Eq)]
pub struct ReadyPayloadFields {
    pub users: bool,
    pub servers: bool,
    pub channels: bool,
    pub members: bool,
    pub emojis: bool,
    pub voice_states: bool,
    /// Names of the settings to send.
    pub user_settings: Vec<String>,
    pub channel_unreads: bool,
    pub policy_changes: bool,
}

impl Default for ReadyPayloadFields {
    /// Everything but settings and unreads.
    fn default() -> (r: Self)
        ensures
            r.users && r.servers && r.channels && r.members && r.emojis && r.voice_states,
            r.user_settings@.len() == 0,
            !r.channel_unreads,
            r.policy_changes,
    {
        ReadyPayloadFields {
            users: true,
            servers: true,
            channels: true,
            members: true,
            emojis: true,
            voice_states: true,
            user_settings: Vec::new(),
            channel_unreads: false,
            policy_changes: true,
        }
    }
}

/// What a client sends.
#[derive(Debug, PartialEq, Eq)]
pub enum ClientMessage {
    Authenticate { token: String },
    BeginTyping { channel: String },
    EndTyping { channel: String },
    Subscribe { server_id: String },
    Ping { data: Ping, responded: Option<()> },
    /// Asks for a challenge to claim a device.
    E2EERequestChallenge { device_id: String },
    /// Proves possession of a device's identity key.
    E2EEProveDevice { device_id: String, signature: String },
    /// Acknowledges delivery of envelopes.
    E2EEAck { ids: Vec<String> },
}

/// A friend request was accepted.
#[derive(Debug, PartialEq, Eq)]
pub struct FRAcceptedPayload {
    pub accepted_user: User,
    pub user: String,
}

/// A friend request was received.
#[derive(Debug, PartialEq, Eq)]
pub struct FRReceivedPayload {
    pub from_user: User,
    pub user: String,
}

/// A notification with a title and a text.
#[derive(Debug, PartialEq, Eq)]
pub struct GenericPayload {
    pub title: String,
    pub body: String,
    pub icon: Option<String>,
    pub user: User,
}

/// A call started or ended.
#[derive(Clone, Debug, PartialEq, Eq)]
pub struct DmCallPayload {
    pub initiator_id: String,
    pub channel_id: String,
    pub started_at: Option<String>,
    pub ended: bool,
}

/// A call, with those who are told of it.
#[derive(Clone, Debug, PartialEq, Eq)]
pub struct InternalDmCallPayload {
    pub payload: DmCallPayload,
    pub recipients: Option<Vec<String>>,
}

/// A user acknowledged a message.
#[derive(Clone, Debug, PartialEq, Eq)]
pub struct AckPayload {
    pub user_id: String,
    pub channel_id: String,
    pub message_id: String,
}

/// A queued acknowledgement, of a channel or of a server.
#[derive(Clone, Debug, PartialEq, Eq)]
pub struct AckEventPayload {
    pub user_id: String,
    pub channel_id: Option<String>,
    pub server_id: Option<String>,
}

/// What a calendar notification is about.
#[derive(Clone, Copy, Debug, PartialEq, Eq)]
pub enum CalendarEventNotification {
    /// The user was invited.
    Invited,
    /// The event was cancelled.
    Cancelled,
    /// An occurrence is about to start.
    Reminder,
}

impl CalendarEventNotification {
    /// The name that clients know it by.
    pub open spec fn name(self) -> &'static str {
        match self {
            CalendarEventNotification::Invited => "invited",
            CalendarEventNotification::Cancelled => "cancelled",
            CalendarEventNotification::Reminder => "reminder",
        }
    }

    /// The name that clients know it by.
    pub fn as_str(&self) -> (r: &'static str)
        ensures
            r == self.name(),
    {
        match self {
            CalendarEventNotification::Invited => "invited",
            CalendarEventNotification::Cancelled => "cancelled",
            CalendarEventNotification::Reminder => "reminder",
        }
    }
}

/// A notification of one user about a calendar event.
#[derive(Clone, Debug, PartialEq, Eq)]
pub struct CalendarEventPayload {
    pub user: String,
    pub event_id: String,
    pub server_id: String,
    pub title: String,
    pub kind: CalendarEventNotification,
    /// For reminders: when the occurrence starts.
    pub occurrence_start: Option<i64>,
}

impl CalendarEventPayload {
    /// Title and text for platforms that show a notification as it was sent.
    pub open spec fn shown(self) -> (Seq<char>, Seq<char>) {
        match self.kind {
            CalendarEventNotification::Invited => (
                "Event invitation"@,
                "You're invited to "@ + self.title@,
            ),
            CalendarEventNotification::Cancelled => (
                "Event cancelled"@,
                self.title@ + " was cancelled"@,
            ),
            CalendarEventNotification::Reminder => (
                "Upcoming event"@,
                self.title@ + " is starting soon"@,
            ),
        }
    }

    /// Title and text for platforms that show a notification as it was sent.
    pub fn render(&self) -> (r: (String, String))
        ensures
            (r.0@, r.1@) == self.shown(),
    {
        match self.kind {
            CalendarEventNotification::Invited => (
                "Event invitation".to_owned(),
                joined("You're invited to ", self.title.as_str()),
            ),
            CalendarEventNotification::Cancelled => (
                "Event cancelled".to_owned(),
                joined(self.title.as_str(), " was cancelled"),
            ),
            CalendarEventNotification::Reminder => (
                "Upcoming event".to_owned(),
                joined(self.title.as_str(), " is starting soon"),
            ),
        }
    }
}

/// An event, as far as decisions depend on it.
#[derive(Debug, PartialEq, Eq)]
pub enum EventV1 {
    /// A channel came to be, or came into view.
    ChannelCreate(Channel),
    /// A channel changed.
    ChannelUpdate {
        id: String,
        data: PartialChannel,
        clear: Vec<FieldsChannel>,
    },
    /// A channel was deleted, or went out of view.
    ChannelDelete {
        id: String,
    },
    /// A user joined a group.
    ChannelGroupJoin {
        id: String,
        user: String,
    },
    /// A user left a group.
    ChannelGroupLeave {
        id: String,
        user: String,
    },
    /// A user acknowledged a message.
    ChannelAck {
        id: String,
        user: String,
        message_id: String,
    },
    /// A channel started to follow another.
    ChannelFollowCreate {
        follow: ChannelFollow,
    },
    /// A channel stopped following another.
    ChannelFollowDelete {
        id: String,
        source_channel: String,
        target_channel: String,
    },
    /// The followers of a channel changed.
    ChannelFollowersUpdate {
        channel: String,
    },
    /// The user came into a server.
    ServerCreate {
        id: String,
        server: Server,
        channels: Vec<Channel>,
        /// Its emojis, stickers and voice states, in their encoded form.
        payload: String,
    },
    /// A server changed.
    ServerUpdate {
        id: String,
        data: PartialServer,
        clear: Vec<FieldsServer>,
    },
    /// A server was deleted.
    ServerDelete {
        id: String,
    },
    /// A user joined a server.
    ServerMemberJoin {
        id: String,
        user: String,
        /// The member, in its encoded form.
        payload: String,
    },
    /// A user left a server.
    ServerMemberLeave {
        id: String,
        user: String,
        /// The reason, in its encoded form.
        payload: String,
    },
    /// A member of a server changed.
    ServerMemberUpdate {
        server: String,
        user: String,
        data: PartialMember,
        clear: Vec<FieldsMember>,
    },
    /// A role of a server changed.
    ServerRoleUpdate {
        id: String,
        role_id: String,
        data: PartialRole,
        clear: Vec<FieldsRole>,
    },
    /// A role of a server was deleted.
    ServerRoleDelete {
        id: String,
        role_id: String,
    },
    /// A user changed.
    UserUpdate {
        id: String,
        data: PartialUser,
        /// The names of the fields that were unset.
        clear: Vec<String>,
        /// Tells copies of one event apart from others.
        event_id: Option<String>,
    },
    /// The relationship to a user changed.
    UserRelationship {
        id: String,
        user: User,
    },
    /// A message was sent; with how the receiver relates to its author, where the author is sent along.
    Message {
        author: String,
        relationship: Option<RelationshipStatus>,
        payload: String,
    },
    /// A user registered a device.
    E2EEDeviceCreate {
        user_id: String,
        device_id: String,
    },
    /// A device of a user was revoked.
    E2EEDeviceDelete {
        user_id: String,
        device_id: String,
    },
    /// Any other event, in its encoded form.
    Other {
        payload: String,
    },
}

/// What a [`EventV1`] holds.
pub enum EventV1View {
    ChannelCreate(ChannelView),
    ChannelUpdate {
        id: Seq<char>,
        data: PartialChannelView,
        clear: Seq<FieldsChannel>,
    },
    ChannelDelete {
        id: Seq<char>,
    },
    ChannelGroupJoin {
        id: Seq<char>,
        user: Seq<char>,
    },
    ChannelGroupLeave {
        id: Seq<char>,
        user: Seq<char>,
    },
    ChannelAck {
        id: Seq<char>,
        user: Seq<char>,
        message_id: Seq<char>,
    },
    ChannelFollowCreate {
        follow: ChannelFollowView,
    },
    ChannelFollowDelete {
        id: Seq<char>,
        source_channel: Seq<char>,
        target_channel: Seq<char>,
    },
    ChannelFollowersUpdate {
        channel: Seq<char>,
    },
    ServerCreate {
        id: Seq<char>,
        server: ServerView,
        channels: Seq<ChannelView>,
        payload: Seq<char>,
    },
    ServerUpdate {
        id: Seq<char>,
        data: PartialServerView,
        clear: Seq<FieldsServer>,
    },
    ServerDelete {
        id: Seq<char>,
    },
    ServerMemberJoin {
        id: Seq<char>,
        user: Seq<char>,
        payload: Seq<char>,
    },
    ServerMemberLeave {
        id: Seq<char>,
        user: Seq<char>,
        payload: Seq<char>,
    },
    ServerMemberUpdate {
        server: Seq<char>,
        user: Seq<char>,
        data: PartialMemberView,
        clear: Seq<FieldsMember>,
    },
    ServerRoleUpdate {
        id: Seq<char>,
        role_id: Seq<char>,
        data: PartialRoleView,
        clear: Seq<FieldsRole>,
    },
    ServerRoleDelete {
        id: Seq<char>,
        role_id: Seq<char>,
    },
    UserUpdate {
        id: Seq<char>,
        data: PartialUserView,
        clear: Seq<Seq<char>>,
        event_id: Option<Seq<char>>,
    },
    UserRelationship {
        id: Seq<char>,
        user: UserView,
    },
    Message {
        author: Seq<char>,
        relationship: Option<RelationshipStatus>,
        payload: Seq<char>,
    },
    E2EEDeviceCreate {
        user_id: Seq<char>,
        device_id: Seq<char>,
    },
    E2EEDeviceDelete {
        user_id: Seq<char>,
        device_id: Seq<char>,
    },
    Other {
        payload: Seq<char>,
    },
}

impl View for EventV1 {
    type V = EventV1View;

    open spec fn view(&self) -> EventV1View {
        match *self {
            EventV1::ChannelCreate(x) => EventV1View::ChannelCreate(x@),
            EventV1::ChannelUpdate { id, data, clear } => EventV1View::ChannelUpdate {
                id: id@,
                data: data@,
                clear: clear@,
            },
            EventV1::ChannelDelete { id } => EventV1View::ChannelDelete {
                id: id@,
            },
            EventV1::ChannelGroupJoin { id, user } => EventV1View::ChannelGroupJoin {
                id: id@,
                user: user@,
            },
            EventV1::ChannelGroupLeave { id, user } => EventV1View::ChannelGroupLeave {
                id: id@,
                user: user@,
            },
            EventV1::ChannelAck { id, user, message_id } => EventV1View::ChannelAck {
                id: id@,
                user: user@,
                message_id: message_id@,
            },
            EventV1::ChannelFollowCreate { follow } => EventV1View::ChannelFollowCreate {
                follow: follow@,
            },
            EventV1::ChannelFollowDelete { id, source_channel, target_channel } => EventV1View::ChannelFollowDelete {
                id: id@,
                source_channel: source_channel@,
                target_channel: target_channel@,
            },
            EventV1::ChannelFollowersUpdate { channel } => EventV1View::ChannelFollowersUpdate {
                channel: channel@,
            },
            EventV1::ServerCreate { id, server, channels, payload } => EventV1View::ServerCreate {
                payload: payload@,
                id: id@,
                server: server@,
                channels: table::row_views(channels@),
            },
            EventV1::ServerUpdate { id, data, clear } => EventV1View::ServerUpdate {
                id: id@,
                data: data@,
                clear: clear@,
            },
            EventV1::ServerDelete { id } => EventV1View::ServerDelete {
                id: id@,
            },
            EventV1::ServerMemberJoin { id, user, payload } => EventV1View::ServerMemberJoin {
                id: id@,
                user: user@,
                payload: payload@,
            },
            EventV1::ServerMemberLeave { id, user, payload } => EventV1View::ServerMemberLeave {
                id: id@,
                user: user@,
                payload: payload@,
            },
            EventV1::ServerMemberUpdate { server, user, data, clear } => EventV1View::ServerMemberUpdate {
                server: server@,
                user: user@,
                data: data@,
                clear: clear@,
            },
            EventV1::ServerRoleUpdate { id, role_id, data, clear } => EventV1View::ServerRoleUpdate {
                id: id@,
                role_id: role_id@,
                data: data@,
                clear: clear@,
            },
            EventV1::ServerRoleDelete { id, role_id } => EventV1View::ServerRoleDelete {
                id: id@,
                role_id: role_id@,
            },
            EventV1::UserUpdate { id, data, clear, event_id } => EventV1View::UserUpdate {
                id: id@,
                data: data@,
                clear: text::texts(clear@),
                event_id: text::opt_text(event_id),
            },
            EventV1::UserRelationship { id, user } => EventV1View::UserRelationship {
                id: id@,
                user: user@,
            },
            EventV1::Message { author, relationship, payload } => EventV1View::Message {
                author: author@,
                relationship: relationship,
                payload: payload@,
            },
            EventV1::E2EEDeviceCreate { user_id, device_id } => EventV1View::E2EEDeviceCreate {
                user_id: user_id@,
                device_id: device_id@,
            },
            EventV1::E2EEDeviceDelete { user_id, device_id } => EventV1View::E2EEDeviceDelete {
                user_id: user_id@,
                device_id: device_id@,
            },
            EventV1::Other { payload } => EventV1View::Other {
                payload: payload@,
            },
        }
    }
}

impl Row for EventV1 {
    fn dup(&self) -> (r: Self) {
        match self {
            EventV1::ChannelCreate(x) => EventV1::ChannelCreate(x.dup()),
            EventV1::ChannelUpdate { id, data, clear } => EventV1::ChannelUpdate {
                id: id.clone(),
                data: data.dup(),
                clear: copy_values(clear),
            },
            EventV1::ChannelDelete { id } => EventV1::ChannelDelete {
                id: id.clone(),
            },
            EventV1::ChannelGroupJoin { id, user } => EventV1::ChannelGroupJoin {
                id: id.clone(),
                user: user.clone(),
            },
            EventV1::ChannelGroupLeave { id, user } => EventV1::ChannelGroupLeave {
                id: id.clone(),
                user: user.clone(),
            },
            EventV1::ChannelAck { id, user, message_id } => EventV1::ChannelAck {
                id: id.clone(),
                user: user.clone(),
                message_id: message_id.clone(),
            },
            EventV1::ChannelFollowCreate { follow } => EventV1::ChannelFollowCreate {
                follow: follow.dup(),
            },
            EventV1::ChannelFollowDelete { id, source_channel, target_channel } => EventV1::ChannelFollowDelete {
                id: id.clone(),
                source_channel: source_channel.clone(),
                target_channel: target_channel.clone(),
            },
            EventV1::ChannelFollowersUpdate { channel } => EventV1::ChannelFollowersUpdate {
                channel: channel.clone(),
            },
            EventV1::ServerCreate { id, server, channels, payload } => EventV1::ServerCreate {
                payload: payload.clone(),
                id: id.clone(),
                server: server.dup(),
                channels: copy_rows(channels),
            },
            EventV1::ServerUpdate { id, data, clear } => EventV1::ServerUpdate {
                id: id.clone(),
                data: data.dup(),
                clear: copy_values(clear),
            },
            EventV1::ServerDelete { id } => EventV1::ServerDelete {
                id: id.clone(),
            },
            EventV1::ServerMemberJoin { id, user, payload } => EventV1::ServerMemberJoin {
                id: id.clone(),
                user: user.clone(),
                payload: payload.clone(),
            },
            EventV1::ServerMemberLeave { id, user, payload } => EventV1::ServerMemberLeave {
                id: id.clone(),
                user: user.clone(),
                payload: payload.clone(),
            },
            EventV1::ServerMemberUpdate { server, user, data, clear } => EventV1::ServerMemberUpdate {
                server: server.clone(),
                user: user.clone(),
                data: data.dup(),
                clear: copy_values(clear),
            },
            EventV1::ServerRoleUpdate { id, role_id, data, clear } => EventV1::ServerRoleUpdate {
                id: id.clone(),
                role_id: role_id.clone(),
                data: data.dup(),
                clear: copy_values(clear),
            },
            EventV1::ServerRoleDelete { id, role_id } => EventV1::ServerRoleDelete {
                id: id.clone(),
                role_id: role_id.clone(),
            },
            EventV1::UserUpdate { id, data, clear, event_id } => EventV1::UserUpdate {
                id: id.clone(),
                data: data.dup(),
                clear: copy_texts(clear),
                event_id: copy_opt(event_id),
            },
            EventV1::UserRelationship { id, user } => EventV1::UserRelationship {
                id: id.clone(),
                user: user.dup(),
            },
            EventV1::Message { author, relationship, payload } => EventV1::Message {
                author: author.clone(),
                relationship: *relationship,
                payload: payload.clone(),
            },
            EventV1::E2EEDeviceCreate { user_id, device_id } => EventV1::E2EEDeviceCreate {
                user_id: user_id.clone(),
                device_id: device_id.clone(),
            },
            EventV1::E2EEDeviceDelete { user_id, device_id } => EventV1::E2EEDeviceDelete {
                user_id: user_id.clone(),
                device_id: device_id.clone(),
            },
            EventV1::Other { payload } => EventV1::Other {
                payload: payload.clone(),
            },
        }
    }
}

/// An event on its way to a topic.
#[derive(Debug, PartialEq, Eq)]
pub struct Published {
    pub topic: String,
    pub event: EventV1,
}

/// What a [`Published`] holds.
pub struct PublishedView {
    pub topic: Seq<char>,
    pub event: EventV1View,
}

impl View for Published {
    type V = PublishedView;

    open spec fn view(&self) -> PublishedView {
        PublishedView {
            topic: self.topic@,
            event: self.event@,
        }
    }
}

impl Row for Published {
    fn dup(&self) -> (r: Self) {
        Published {
            topic: self.topic.clone(),
            event: self.event.dup(),
        }
    }
}

/// The topic that only a user's own connections receive.
pub open spec fn private_topic(user: Seq<char>) -> Seq<char> {
    user + "!"@
}

/// The topic of the events of a server's members.
pub open spec fn member_topic(server: Seq<char>) -> Seq<char> {
    server + "u"@
}

/// What is published to tell everyone who receives a user: the user's own topic, then
/// the member topic of each of the user's servers.
pub open spec fn to_user(event: EventV1View, user: Seq<char>, servers: Seq<Seq<char>>) -> Seq<
    PublishedView,
> {
    seq![PublishedView { topic: user, event }] + Seq::new(
        servers.len(),
        |i: int| PublishedView { topic: member_topic(servers[i]), event },
    )
}

impl EventV1 {
    /// Publishes on a topic.
    pub fn p(self, channel: String) -> (r: Published)
        ensures
            r@ == (PublishedView { topic: channel@, event: self@ }),
    {
        Published { topic: channel, event: self }
    }

    /// Publishes to everyone who receives a user.
    pub fn p_user(self, id: String, servers: &Vec<String>) -> (r: Vec<Published>)
        ensures
            table::row_views(r@) == to_user(self@, id@, text::texts(servers@)),
    {
        let mut out: Vec<Published> = Vec::new();
        out.push(self.dup().p(id));
        let ghost all = to_user(self@, id@, text::texts(servers@));
        let mut i: usize = 0;
        assert(table::row_views(out@) =~= all.take(1));
        while i < servers.len()
            invariant
                i <= servers.len(),
                all == to_user(self@, id@, text::texts(servers@)),
                table::row_views(out@) == all.take(i + 1),
            decreases servers.len() - i,
        {
            let ghost before = out@;
            out.push(self.dup().server(servers[i].clone()));
            assert(table::row_views(out@) =~= table::row_views(before).push(all[i + 1]));
            assert(all.take(i + 2) =~= all.take(i + 1).push(all[i + 1]));
            i = i + 1;
        }
        assert(all.take(i + 1) =~= all);
        out
    }

    /// Publishes to a user's own connections.
    pub fn private(self, id: String) -> (r: Published)
        ensures
            r@ == (PublishedView { topic: private_topic(id@), event: self@ }),
    {
        self.p(joined(id.as_str(), "!"))
    }

    /// Publishes to those who receive the events of a server's members.
    pub fn server(self, id: String) -> (r: Published)
        ensures
            r@ == (PublishedView { topic: member_topic(id@), event: self@ }),
    {
        self.p(joined(id.as_str(), "u"))
    }

    /// Publishes to all connections.
    pub fn global(self) -> (r: Published)
        ensures
            r@ == (PublishedView { topic: "global"@, event: self@ }),
    {
        self.p("global".to_owned())
    }
}

/// A user's own topic, a server's member topic and a plain topic are kept apart by
/// their last characters: two private topics are the same only for the same user.
pub proof fn law_private_topics_are_apart(a: Seq<char>, b: Seq<char>)
    ensures
        private_topic(a) == private_topic(b) ==> a == b,
        private_topic(a) != member_topic(b),
{
    reveal_strlit("!");
    reveal_strlit("u");
    if private_topic(a) == private_topic(b) {
        assert(private_topic(a).drop_last() =~= a);
        assert(private_topic(b).drop_last() =~= b);
    }
    assert(private_topic(a).last() == '!');
    assert(member_topic(b).last() == 'u');
}

/// Everyone who receives a user is told of an event about them: on the user's own topic, and
/// on the member topic of each of the user's servers.
pub proof fn law_everyone_who_receives_a_user_is_told(
    event: EventV1View,
    user: Seq<char>,
    servers: Seq<Seq<char>>,
    i: int,
)
    requires
        0 <= i < servers.len(),
    ensures
        ({
            let told = to_user(event, user, servers);
            &&& told.len() == servers.len() + 1
            &&& told[0].topic == user && told[0].event == event
            &&& told[i + 1].topic == servers[i] + "u"@ && told[i + 1].event == event
        }),
{
}

/// A notification about an event of a calendar says what happened to it, and names it.
pub proof fn law_notifications_name_the_event(p: CalendarEventPayload)
    ensures
        p.kind == CalendarEventNotification::Invited ==> p.shown().0 == "Event invitation"@
            && p.shown().1 == "You're invited to "@ + p.title@ && p.kind.name() == "invited",
        p.kind == CalendarEventNotification::Cancelled ==> p.shown().0 == "Event cancelled"@
            && p.shown().1 == p.title@ + " was cancelled"@ && p.kind.name() == "cancelled",
        p.kind == CalendarEventNotification::Reminder ==> p.shown().0 == "Upcoming event"@
            && p.shown().1 == p.title@ + " is starting soon"@ && p.kind.name() == "reminder",
{
}

} // verus!
