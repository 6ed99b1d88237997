//! The state of a connection: which events reach its client, in which form, and which
//! topics it receives.
use crate::cache::{self, Cache, CacheView, Entry, SeenEvents, Topics, Viewable};
use crate::channel_ops;
use crate::channel_store;
use crate::channels::{self, Channel, ChannelView, FieldsChannel, PartialChannel, PartialChannelView};
use crate::events::{self, EventV1, EventV1View, Published, PublishedView};
use crate::ids::{self, new_id};
use crate::people::{
    self, FieldsMember, FieldsRole, FieldsServer, Member, MemberView, PartialMember,
    PartialMemberView, PartialRole, PartialRoleView, PartialServer, PartialServerView, PartialUser,
    PartialUserView, Presence,
    Role, RoleView, Server, ServerView, User,
};
use crate::table::{self, Row, Table};
use crate::text::{self, contains_text, joined, same};
use vstd::prelude::*;

verus! {

/// A thread and whether it could be viewed.
pub struct Prior {
    pub id: String,
    pub seen: bool,
}

/// What a [`Prior`] holds.
pub struct PriorView {
    pub id: Seq<char>,
    pub seen: bool,
}

impl View for Prior {
    type V = PriorView;

    open spec fn view(&self) -> PriorView {
        PriorView { id: self.id@, seen: self.seen }
    }
}

impl Row for Prior {
    fn dup(&self) -> (r: Self) {
        Prior { id: self.id.clone(), seen: self.seen }
    }
}

/// What is left to do with an event once the cache has it.
pub enum Pending {
    /// The client does not get it.
    Dropped,
    /// The client gets it as it is.
    Forward,
    /// A channel changed: see whether it, and its threads, came into view or went out
    /// of it.
    Channel { id: String, seen: bool, threads: Vec<Prior> },
    /// What can be viewed of a server may have changed.
    Server { id: String },
}

/// What a [`Pending`] holds.
pub enum PendingView {
    Dropped,
    Forward,
    Channel { id: Seq<char>, seen: bool, threads: Seq<PriorView> },
    Server { id: Seq<char> },
}

impl View for Pending {
    type V = PendingView;

    open spec fn view(&self) -> PendingView {
        match *self {
            Pending::Dropped => PendingView::Dropped,
            Pending::Forward => PendingView::Forward,
            Pending::Channel { id, seen, threads } => PendingView::Channel {
                id: id@,
                seen,
                threads: table::row_views(threads@),
            },
            Pending::Server { id } => PendingView::Server { id: id@ },
        }
    }
}

/// The state of a connection.
pub struct State {
    pub cache: Cache,
    /// The topic that only the user's own connections receive.
    pub private_topic: String,
    /// The topics that the connection receives.
    pub subscribed: Topics,
}

/// What a [`State`] holds.
#[verifier::ext_equal]
pub struct StateView {
    pub cache: CacheView,
    pub private_topic: Seq<char>,
    pub subscribed: Set<Seq<char>>,
}

impl View for State {
    type V = StateView;

    open spec fn view(&self) -> StateView {
        StateView {
            cache: self.cache@,
            private_topic: self.private_topic@,
            subscribed: self.subscribed@,
        }
    }
}

/// A state that receives one more topic.
pub open spec fn receiving(s: StateView, topic: Seq<char>) -> StateView {
    StateView { subscribed: s.subscribed.insert(topic), ..s }
}

/// A state that receives a topic no longer.
pub open spec fn not_receiving(s: StateView, topic: Seq<char>) -> StateView {
    StateView { subscribed: s.subscribed.remove(topic), ..s }
}

/// Channels with those of a list put in, one after the other.
pub open spec fn with_channels(rows: Seq<ChannelView>, list: Seq<ChannelView>) -> Seq<ChannelView>
    decreases list.len(),
{
    if list.len() == 0 {
        rows
    } else {
        table::upserted::<Channel>(with_channels(rows, list.drop_last()), list.last())
    }
}

/// The state once a channel came to be; it is received where it can be viewed.
pub open spec fn channel_created(s: StateView, c: ChannelView, visible: bool) -> StateView {
    StateView {
        cache: CacheView { channels: table::upserted::<Channel>(s.cache.channels, c), ..s.cache },
        subscribed: if visible {
            s.subscribed.insert(channels::id_of(c))
        } else {
            s.subscribed
        },
        ..s
    }
}

/// The channels once one changed. One that is not in the cache is taken as it was
/// fetched.
pub open spec fn channels_updated(
    rows: Seq<ChannelView>,
    fetched: Seq<ChannelView>,
    id: Seq<char>,
    data: PartialChannelView,
    clear: Seq<FieldsChannel>,
) -> Seq<ChannelView> {
    if table::has_id::<Channel>(rows, id) {
        table::mapped(rows, table::with_id::<Channel>(id), channel_store::updated(data, clear))
    } else if table::has_id::<Channel>(fetched, id) {
        rows.push(table::row_of::<Channel>(fetched, id))
    } else {
        rows
    }
}

/// Whether a channel of the cache can be viewed.
pub open spec fn in_view(
    rows: Seq<ChannelView>,
    fetched: Seq<ChannelView>,
    viewable: Seq<Seq<char>>,
    id: Seq<char>,
) -> bool {
    table::has_id::<Channel>(rows, id) && cache::can_view(
        rows,
        fetched,
        viewable,
        table::row_of::<Channel>(rows, id),
    )
}

/// The threads of a channel, each with whether it can be viewed.
pub open spec fn thread_states(
    rows: Seq<ChannelView>,
    fetched: Seq<ChannelView>,
    viewable: Seq<Seq<char>>,
    parent: Seq<char>,
) -> Seq<PriorView> {
    let threads = rows.filter(channel_store::thread_of(parent));
    Seq::new(
        threads.len(),
        |i: int|
            PriorView {
                id: channels::id_of(threads[i]),
                seen: cache::can_view(rows, fetched, viewable, threads[i]),
            },
    )
}

/// The state once the user is in a server: the server, the membership and the channels
/// are known, and the server is received; bots receive its members too.
pub open spec fn server_created(
    s: StateView,
    id: Seq<char>,
    server: ServerView,
    list: Seq<ChannelView>,
) -> StateView {
    let topics = s.subscribed.insert(id);
    StateView {
        cache: CacheView {
            servers: cache::with_entry::<Server>(s.cache.servers, id, server),
            members: cache::with_entry::<Member>(
                s.cache.members,
                id,
                MemberView {
                    server: server.id,
                    user: s.cache.user_id,
                    nickname: None,
                    roles: Seq::empty(),
                    other: Seq::empty(),
                },
            ),
            channels: with_channels(s.cache.channels, list),
            ..s.cache
        },
        subscribed: if s.cache.is_bot {
            topics.insert(events::member_topic(id))
        } else {
            topics
        },
        ..s
    }
}

/// The state once the user is no longer in a server: nothing of it is known or received.
pub open spec fn server_gone(s: StateView, id: Seq<char>) -> StateView {
    let known = cache::has_key::<Server>(s.cache.servers, id);
    let gone = if known {
        cache::at_key::<Server>(s.cache.servers, id).channels
    } else {
        Seq::empty()
    };
    StateView {
        cache: CacheView {
            servers: cache::without_key::<Server>(s.cache.servers, id),
            members: cache::without_key::<Member>(s.cache.members, id),
            channels: s.cache.channels.filter(channel_ops::channel_not_among(gone)),
            ..s.cache
        },
        subscribed: s.subscribed.remove(id).difference(cache::topics_of(gone)),
        ..s
    }
}

/// A server once it changed.
pub open spec fn server_change(data: PartialServerView, clear: Seq<FieldsServer>) -> spec_fn(
    ServerView,
) -> ServerView {
    |v: ServerView| people::server_with(people::server_without(v, clear), data)
}

/// A member once it changed.
pub open spec fn member_change(data: PartialMemberView, clear: Seq<FieldsMember>) -> spec_fn(
    MemberView,
) -> MemberView {
    |v: MemberView| people::member_with(people::member_without(v, clear), data)
}

/// A role once it changed.
pub open spec fn role_change(data: PartialRoleView, clear: Seq<FieldsRole>) -> spec_fn(
    RoleView,
) -> RoleView {
    |v: RoleView| people::role_with(people::role_without(v, clear), data)
}

/// A server once one of its roles changed.
pub open spec fn role_changed_in(
    role_id: Seq<char>,
    data: PartialRoleView,
    clear: Seq<FieldsRole>,
) -> spec_fn(ServerView) -> ServerView {
    |v: ServerView|
        ServerView {
            roles: table::mapped(
                v.roles,
                table::with_id::<Role>(role_id),
                role_change(data, clear),
            ),
            ..v
        }
}

/// A server once one of its roles was deleted.
pub open spec fn role_deleted_in(role_id: Seq<char>) -> spec_fn(ServerView) -> ServerView {
    |v: ServerView| ServerView { roles: v.roles.filter(table::without_id::<Role>(role_id)), ..v }
}

/// Whether the user has a role in a server.
pub open spec fn has_role(s: StateView, server: Seq<char>, role: Seq<char>) -> bool {
    cache::has_key::<Member>(s.cache.members, server) && cache::at_key::<Member>(
        s.cache.members,
        server,
    ).roles.contains(role)
}

/// What is to be done about a server: where something that decides about permissions
/// changed, what can be viewed of it is found anew.
pub open spec fn about_server(id: Seq<char>, matters: bool) -> PendingView {
    if matters {
        PendingView::Server { id }
    } else {
        PendingView::Forward
    }
}

/// What comes of an event as it reaches the cache: the state, the event as it goes on,
/// and what is left to do.
pub open spec fn begun(
    s: StateView,
    event: EventV1View,
    fetched: Seq<ChannelView>,
    viewable: Seq<Seq<char>>,
) -> (StateView, EventV1View, PendingView) {
    let rows = s.cache.channels;
    match event {
        EventV1View::ChannelCreate(c) => {
            let visible = !(c is Thread) || cache::can_view(rows, fetched, viewable, c);
            (
                channel_created(s, c, visible),
                event,
                if visible {
                    PendingView::Forward
                } else {
                    PendingView::Dropped
                },
            )
        },
        EventV1View::ChannelUpdate { id, data, clear } => {
            let after = channels_updated(rows, fetched, id, data, clear);
            (
                StateView { cache: CacheView { channels: after, ..s.cache }, ..s },
                event,
                if table::has_id::<Channel>(rows, id) || table::has_id::<Channel>(fetched, id) {
                    PendingView::Channel {
                        id,
                        seen: in_view(rows, fetched, viewable, id),
                        threads: thread_states(rows, fetched, viewable, id),
                    }
                } else {
                    PendingView::Dropped
                },
            )
        },
        EventV1View::ChannelDelete { id } => (
            StateView {
                cache: CacheView {
                    channels: rows.filter(table::without_id::<Channel>(id)),
                    ..s.cache
                },
                ..not_receiving(s, id)
            },
            event,
            PendingView::Forward,
        ),
        EventV1View::ChannelGroupJoin { id, user } => (
            receiving(s, user),
            event,
            PendingView::Forward,
        ),
        EventV1View::ChannelGroupLeave { id, user } => (
            if user == s.cache.user_id {
                not_receiving(s, id)
            } else if !cache::can_subscribe(s.cache, user) {
                not_receiving(s, user)
            } else {
                s
            },
            event,
            PendingView::Forward,
        ),
        EventV1View::ServerCreate { id, server, channels, .. } => (
            server_created(s, id, server, channels),
            event,
            PendingView::Server { id },
        ),
        EventV1View::ServerUpdate { id, data, clear } => (
            StateView {
                cache: CacheView {
                    servers: cache::changed_at::<Server>(
                        s.cache.servers,
                        id,
                        server_change(data, clear),
                    ),
                    ..s.cache
                },
                ..s
            },
            event,
            about_server(id, data.default_permissions is Some),
        ),
        EventV1View::ServerDelete { id } => (server_gone(s, id), event, PendingView::Forward),
        EventV1View::ServerMemberLeave { id, user, .. } => (
            if user == s.cache.user_id {
                server_gone(s, id)
            } else {
                s
            },
            event,
            PendingView::Forward,
        ),
        EventV1View::ServerMemberUpdate { server, user, data, clear } => if user
            == s.cache.user_id {
            (
                StateView {
                    cache: CacheView {
                        members: cache::changed_at::<Member>(
                            s.cache.members,
                            server,
                            member_change(data, clear),
                        ),
                        ..s.cache
                    },
                    ..s
                },
                event,
                about_server(
                    server,
                    data.roles is Some || clear.contains(FieldsMember::Roles),
                ),
            )
        } else {
            (s, event, PendingView::Forward)
        },
        EventV1View::ServerRoleUpdate { id, role_id, data, clear } => (
            StateView {
                cache: CacheView {
                    servers: cache::changed_at::<Server>(
                        s.cache.servers,
                        id,
                        role_changed_in(role_id, data, clear),
                    ),
                    ..s.cache
                },
                ..s
            },
            event,
            about_server(
                id,
                (data.rank is Some || data.permissions is Some) && has_role(s, id, role_id),
            ),
        ),
        EventV1View::ServerRoleDelete { id, role_id } => (
            StateView {
                cache: CacheView {
                    servers: cache::changed_at::<Server>(
                        s.cache.servers,
                        id,
                        role_deleted_in(role_id),
                    ),
                    ..s.cache
                },
                ..s
            },
            event,
            about_server(id, has_role(s, id, role_id)),
        ),
        EventV1View::UserUpdate { id, data, clear, event_id } => {
            let told = EventV1View::UserUpdate { id, data, clear, event_id: None };
            match event_id {
                Some(seen) => if s.cache.seen.contains(seen) {
                    (s, event, PendingView::Dropped)
                } else {
                    (
                        StateView {
                            cache: CacheView {
                                seen: cache::seen_with(s.cache.seen, s.cache.capacity, seen),
                                ..s.cache
                            },
                            ..s
                        },
                        told,
                        PendingView::Forward,
                    )
                },
                None => (s, told, PendingView::Forward),
            }
        },
        EventV1View::UserRelationship { id, user } => {
            let after = StateView {
                cache: CacheView {
                    users: cache::with_entry::<User>(s.cache.users, id, user),
                    ..s.cache
                },
                ..s
            };
            (
                if cache::can_subscribe(after.cache, id) {
                    receiving(after, id)
                } else {
                    not_receiving(after, id)
                },
                event,
                PendingView::Forward,
            )
        },
        EventV1View::Message { author, relationship, payload } => (
            s,
            EventV1View::Message {
                author,
                relationship: match relationship {
                    Some(_) => Some(
                        people::relationship(
                            cache::at_key::<User>(s.cache.users, s.cache.user_id),
                            author,
                        ),
                    ),
                    None => None,
                },
                payload,
            },
            PendingView::Forward,
        ),
        _ => (s, event, PendingView::Forward),
    }
}

/// The channels of a server.
pub open spec fn in_server(id: Seq<char>) -> spec_fn(ChannelView) -> bool {
    |c: ChannelView| channels::server_of(c) == Some(id)
}

/// What tells a client that channels are gone.
pub open spec fn channels_gone(list: Seq<ChannelView>) -> Seq<EventV1View> {
    Seq::new(list.len(), |i: int| EventV1View::ChannelDelete { id: channels::id_of(list[i]) })
}

/// What tells a client of channels.
pub open spec fn channels_came(list: Seq<ChannelView>) -> Seq<EventV1View> {
    Seq::new(list.len(), |i: int| EventV1View::ChannelCreate(list[i]))
}

/// The channels of a server in the cache that can be viewed, or that cannot.
pub open spec fn server_channels(
    rows: Seq<ChannelView>,
    fetched: Seq<ChannelView>,
    viewable: Seq<Seq<char>>,
    id: Seq<char>,
    visible: bool,
) -> Seq<ChannelView> {
    rows.filter(in_server(id)).filter(
        |c: ChannelView| cache::can_view(rows, fetched, viewable, c) == visible,
    )
}

/// Channels of a server that the cache did not have.
pub open spec fn unknown_in(server: ServerView, known: Seq<Seq<char>>) -> spec_fn(ChannelView) -> bool {
    |c: ChannelView|
        server.channels.contains(channels::id_of(c)) && !known.contains(channels::id_of(c))
}

/// The channels of a server that were fetched, were not in the cache, and can be viewed.
pub open spec fn newly_viewable(
    rows: Seq<ChannelView>,
    fetched: Seq<ChannelView>,
    viewable: Seq<Seq<char>>,
    server: ServerView,
    id: Seq<char>,
) -> Seq<ChannelView> {
    let known = channel_ops::ids_of(rows.filter(in_server(id)));
    let hidden = channel_ops::ids_of(server_channels(rows, fetched, viewable, id, false));
    let left = rows.filter(channel_ops::channel_not_among(hidden));
    fetched.filter(unknown_in(server, known)).filter(
        cache::viewable_among(left, fetched, viewable),
    )
}

/// The state once what can be viewed of a server was found anew, and what the client is
/// told: hidden channels are gone and no longer received, those that came into view are
/// known and received.
pub open spec fn recalculated(
    s: StateView,
    id: Seq<char>,
    fetched: Seq<ChannelView>,
    viewable: Seq<Seq<char>>,
) -> (StateView, Seq<EventV1View>) {
    if !cache::has_key::<Server>(s.cache.servers, id) {
        (s, Seq::empty())
    } else {
        let rows = s.cache.channels;
        let shown = server_channels(rows, fetched, viewable, id, true);
        let hidden = server_channels(rows, fetched, viewable, id, false);
        let new = newly_viewable(
            rows,
            fetched,
            viewable,
            cache::at_key::<Server>(s.cache.servers, id),
            id,
        );
        (
            StateView {
                cache: CacheView {
                    channels: with_channels(
                        rows.filter(channel_ops::channel_not_among(channel_ops::ids_of(hidden))),
                        new,
                    ),
                    ..s.cache
                },
                subscribed: s.subscribed.union(
                    cache::topics_of(channel_ops::ids_of(shown)),
                ).difference(cache::topics_of(channel_ops::ids_of(hidden))).union(
                    cache::topics_of(channel_ops::ids_of(new)),
                ),
                ..s
            },
            channels_gone(hidden) + channels_came(new),
        )
    }
}

/// What the client is told of threads that came into view or went out of it.
pub open spec fn thread_events(
    rows: Seq<ChannelView>,
    fetched: Seq<ChannelView>,
    viewable: Seq<Seq<char>>,
    threads: Seq<PriorView>,
) -> Seq<EventV1View>
    decreases threads.len(),
{
    if threads.len() == 0 {
        Seq::empty()
    } else {
        let rest = thread_events(rows, fetched, viewable, threads.drop_last());
        let thread = threads.last();
        let seen = in_view(rows, fetched, viewable, thread.id);
        if seen == thread.seen {
            rest
        } else if seen {
            rest.push(EventV1View::ChannelCreate(table::row_of::<Channel>(rows, thread.id)))
        } else {
            rest.push(EventV1View::ChannelDelete { id: thread.id })
        }
    }
}

/// The topics once threads came into view or went out of it.
pub open spec fn thread_topics(
    topics: Set<Seq<char>>,
    rows: Seq<ChannelView>,
    fetched: Seq<ChannelView>,
    viewable: Seq<Seq<char>>,
    threads: Seq<PriorView>,
) -> Set<Seq<char>>
    decreases threads.len(),
{
    if threads.len() == 0 {
        topics
    } else {
        let rest = thread_topics(topics, rows, fetched, viewable, threads.drop_last());
        let thread = threads.last();
        let seen = in_view(rows, fetched, viewable, thread.id);
        if seen == thread.seen {
            rest
        } else if seen {
            rest.insert(thread.id)
        } else {
            rest.remove(thread.id)
        }
    }
}

/// What comes of an event once it is known what can be viewed after it: the state, and
/// what the client gets. Nothing: the event is dropped. More than one: they go out
/// together, the event itself last.
pub open spec fn finished(
    s: StateView,
    event: EventV1View,
    pending: PendingView,
    fetched: Seq<ChannelView>,
    viewable: Seq<Seq<char>>,
) -> (StateView, Seq<EventV1View>) {
    let rows = s.cache.channels;
    match pending {
        PendingView::Dropped => (s, Seq::empty()),
        PendingView::Forward => (s, seq![event]),
        PendingView::Server { id } => {
            let (after, more) = recalculated(s, id, fetched, viewable);
            (after, more.push(event))
        },
        PendingView::Channel { id, seen, threads } => {
            let sees = in_view(rows, fetched, viewable, id);
            let topics = thread_topics(s.subscribed, rows, fetched, viewable, threads);
            let more = thread_events(rows, fetched, viewable, threads);
            if !seen && !sees {
                (s, Seq::empty())
            } else if seen && sees {
                (StateView { subscribed: topics, ..s }, more.push(event))
            } else if sees {
                (
                    StateView { subscribed: topics.insert(id), ..s },
                    more.push(EventV1View::ChannelCreate(table::row_of::<Channel>(rows, id))),
                )
            } else {
                (
                    StateView { subscribed: topics.remove(id), ..s },
                    more.push(EventV1View::ChannelDelete { id }),
                )
            }
        },
    }
}

/// What comes of an event, where `before` can be viewed before it reaches the cache and
/// `after` once it has.
pub open spec fn handled(
    s: StateView,
    event: EventV1View,
    fetched: Seq<ChannelView>,
    before: Seq<Seq<char>>,
    after: Seq<Seq<char>>,
) -> (StateView, Seq<EventV1View>) {
    let (mid, told, pending) = begun(s, event, fetched, before);
    finished(mid, told, pending, fetched, after)
}

/// What tells others that the user came online or went offline: each server, then the
/// user's own topic.
pub open spec fn presence_told(
    cache: CacheView,
    online: bool,
    event_id: Seq<char>,
) -> Seq<PublishedView> {
    let event = EventV1View::UserUpdate {
        id: cache.user_id,
        data: PartialUserView { online: Some(online), other: None },
        clear: Seq::empty(),
        event_id: Some(event_id),
    };
    Seq::new(
        cache.servers.len(),
        |i: int| PublishedView { topic: cache.servers[i].key, event },
    ).push(PublishedView { topic: cache.user_id, event })
}

/// Whether a change of presence is told: not of users who are invisible.
pub open spec fn presence_shows(cache: CacheView) -> bool {
    cache::at_key::<User>(cache.users, cache.user_id).presence != Some(Presence::Invisible)
}

/// The ids of channels.
pub(crate) fn channel_ids(list: &Vec<Channel>) -> (r: Vec<String>)
    ensures
        text::texts(r@) == channel_ops::ids_of(table::row_views(list@)),
{
    let mut out: Vec<String> = Vec::new();
    let ghost all = channel_ops::ids_of(table::row_views(list@));
    let mut i: usize = 0;
    assert(text::texts(out@) =~= all.take(0));
    while i < list.len()
        invariant
            i <= list.len(),
            all == channel_ops::ids_of(table::row_views(list@)),
            text::texts(out@) == all.take(i as int),
        decreases list.len() - i,
    {
        let ghost before = text::texts(out@);
        out.push(list[i].id().to_owned());
        assert(text::texts(out@) =~= before.push(all[i as int]));
        assert(all.take(i + 1) =~= all.take(i as int).push(all[i as int]));
        i = i + 1;
    }
    assert(all.take(i as int) =~= all);
    out
}

impl State {
    /// Keys apart, and the own user known.
    pub open spec fn wf(&self) -> bool {
        self.cache.wf()
    }

    /// The state of a new connection of a user; it remembers as many events as told.
    pub fn from(user: User, capacity: usize) -> (r: State)
        requires
            capacity > 0,
        ensures
            r.wf(),
            r.cache.user_id@ == user.id@,
            !r.cache.is_bot,
            cache::has_key::<User>(r.cache.users@, user.id@),
            cache::at_key::<User>(r.cache.users@, user.id@) == user@,
            r.cache.users@.len() == 1,
            r.cache.channels@.len() == 0,
            r.cache.servers@.len() == 0,
            r.cache.members@.len() == 0,
            r.cache.seen_events.capacity == capacity,
            r.cache.seen_events.ids@.len() == 0,
            r.private_topic@ == events::private_topic(user.id@),
            r.subscribed@ == Set::<Seq<char>>::empty(),
    {
        let user_id = user.id.clone();
        let mut users: Table<Entry<User>> = Table::new();
        let ghost v = cache::EntryView { key: user_id@, row: user@ };
        proof {
            table::lemma_upserted::<Entry<User>>(users@, v);
        }
        users.put_at(user_id.as_str(), user);
        let private_topic = joined(user_id.as_str(), "!");
        State {
            cache: Cache {
                user_id,
                is_bot: false,
                users,
                channels: Table::new(),
                servers: Table::new(),
                members: Table::new(),
                seen_events: SeenEvents::new(capacity),
            },
            private_topic,
            subscribed: Topics::new(),
        }
    }

    /// A copy of the own user.
    pub fn clone_user(&self) -> (r: User)
        requires
            self.wf(),
        ensures
            r@ == cache::at_key::<User>(self.cache.users@, self.cache.user_id@),
    {
        let entry = self.cache.users.fetch(self.cache.user_id.as_str()).unwrap();
        entry.row
    }

    fn on_channel_create(
        &mut self,
        channel: &Channel,
        fetched: &Table<Channel>,
        before: &Viewable,
    ) -> (r: bool)
        requires
            old(self).wf(),
        ensures
            final(self).wf(),
            r == (!(channel@ is Thread) || cache::can_view(
                old(self)@.cache.channels,
                fetched@,
                text::texts(before.ids@),
                channel@,
            )),
            final(self)@ == channel_created(old(self)@, channel@, r),
    {
        let visible: bool = match channel {
            Channel::Thread { .. } => self.cache.can_view_channel(channel, fetched, before),
            _ => true,
        };
        let id = channel.id().to_owned();
        self.cache.channels.upsert(id.as_str(), channel.dup());
        if visible {
            self.subscribed.insert(id);
        }
        visible
    }

    fn thread_priors(&self, parent: &str, fetched: &Table<Channel>, before: &Viewable) -> (r: Vec<
        Prior,
    >)
        ensures
            table::row_views(r@) == thread_states(
                self.cache.channels@,
                fetched@,
                text::texts(before.ids@),
                parent@,
            ),
    {
        let p = |c: &Channel| -> (b: bool)
            ensures
                b == channel_store::thread_of(parent@)(c@),
            {
                match c {
                    Channel::Thread { parent_channel, .. } => same(
                        parent_channel.as_str(),
                        parent,
                    ),
                    _ => false,
                }
            };
        let threads = self.cache.channels.select(p, Ghost(channel_store::thread_of(parent@)));
        let ghost all = thread_states(
            self.cache.channels@,
            fetched@,
            text::texts(before.ids@),
            parent@,
        );
        let mut out: Vec<Prior> = Vec::new();
        let mut i: usize = 0;
        assert(table::row_views(out@) =~= all.take(0));
        while i < threads.len()
            invariant
                i <= threads.len(),
                table::row_views(threads@) == self.cache.channels@.filter(
                    channel_store::thread_of(parent@),
                ),
                all == thread_states(
                    self.cache.channels@,
                    fetched@,
                    text::texts(before.ids@),
                    parent@,
                ),
                table::row_views(out@) == all.take(i as int),
            decreases threads.len() - i,
        {
            let ghost so_far = table::row_views(out@);
            assert(table::row_views(threads@)[i as int] == threads@[i as int]@);
            let seen: bool = self.cache.can_view_channel(&threads[i], fetched, before);
            out.push(Prior { id: threads[i].id().to_owned(), seen });
            assert(table::row_views(out@) =~= so_far.push(all[i as int]));
            assert(all.take(i + 1) =~= all.take(i as int).push(all[i as int]));
            i = i + 1;
        }
        assert(all.take(i as int) =~= all);
        out
    }

    fn sees(&self, id: &str, fetched: &Table<Channel>, viewable: &Viewable) -> (r: bool)
        ensures
            r == in_view(self.cache.channels@, fetched@, text::texts(viewable.ids@), id@),
    {
        match self.cache.channels.position(id) {
            Some(i) => {
                let channel = self.cache.channels.get(i);
                self.cache.can_view_channel(&channel, fetched, viewable)
            },
            None => false,
        }
    }

    fn on_channel_update(
        &mut self,
        id: &str,
        data: &PartialChannel,
        clear: &Vec<FieldsChannel>,
        fetched: &Table<Channel>,
    ) -> (r: bool)
        requires
            old(self).wf(),
        ensures
            final(self).wf(),
            r == (table::has_id::<Channel>(old(self)@.cache.channels, id@) || table::has_id::<
                Channel,
            >(fetched@, id@)),
            final(self)@ == (StateView {
                cache: CacheView {
                    channels: channels_updated(
                        old(self)@.cache.channels,
                        fetched@,
                        id@,
                        data@,
                        clear@,
                    ),
                    ..old(self)@.cache
                },
                ..old(self)@
            }),
    {
        match self.cache.channels.position(id) {
            Some(i) => {
                let mut channel = self.cache.channels.get(i);
                proof {
                    channel_store::lemma_update_keeps_id(channel@, data@, clear@);
                }
                channel.remove_each(clear);
                channel.apply_options(data.dup());
                self.cache.channels.replace(
                    i,
                    channel,
                    Ghost(channel_store::updated(data@, clear@)),
                );
                true
            },
            None => match fetched.fetch(id) {
                Some(channel) => {
                    proof {
                        table::lemma_keyed_push::<Channel>(self.cache.channels@, channel@);
                    }
                    self.cache.channels.push(channel);
                    true
                },
                None => false,
            },
        }
    }

    fn put_channels(&mut self, list: &Vec<Channel>)
        requires
            old(self).wf(),
        ensures
            final(self).wf(),
            final(self)@ == (StateView {
                cache: CacheView {
                    channels: with_channels(
                        old(self)@.cache.channels,
                        table::row_views(list@),
                    ),
                    ..old(self)@.cache
                },
                ..old(self)@
            }),
    {
        let ghost all = table::row_views(list@);
        let ghost first = self@;
        let mut i: usize = 0;
        assert(all.take(0).len() == 0);
        while i < list.len()
            invariant
                i <= list.len(),
                all == table::row_views(list@),
                self.wf(),
                self@ == (StateView {
                    cache: CacheView {
                        channels: with_channels(first.cache.channels, all.take(i as int)),
                        ..first.cache
                    },
                    ..first
                }),
            decreases list.len() - i,
        {
            assert(all.take(i + 1).drop_last() =~= all.take(i as int));
            assert(all.take(i + 1).last() == list@[i as int]@);
            let id = list[i].id().to_owned();
            self.cache.channels.upsert(id.as_str(), list[i].dup());
            i = i + 1;
        }
        assert(all.take(i as int) =~= all);
    }

    fn on_server_create(&mut self, id: &str, server: &Server, list: &Vec<Channel>)
        requires
            old(self).wf(),
        ensures
            final(self).wf(),
            final(self)@ == server_created(
                old(self)@,
                id@,
                server@,
                table::row_views(list@),
            ),
    {
        self.subscribed.insert(id.to_owned());
        if self.cache.is_bot {
            self.subscribed.insert(joined(id, "u"));
        }
        let member = Member {
            server: server.id.clone(),
            user: self.cache.user_id.clone(),
            nickname: None,
            roles: Vec::new(),
            other: Vec::new(),
        };
        assert(text::texts(member.roles@) =~= Seq::<Seq<char>>::empty());
        assert(text::texts(member.other@) =~= Seq::<Seq<char>>::empty());
        self.cache.servers.put_at(id, server.dup());
        self.cache.members.put_at(id, member);
        self.put_channels(list);
    }

    fn drop_channels(&mut self, ids: &Vec<String>)
        requires
            old(self).wf(),
        ensures
            final(self).wf(),
            final(self)@ == (StateView {
                cache: CacheView {
                    channels: old(self)@.cache.channels.filter(
                        channel_ops::channel_not_among(text::texts(ids@)),
                    ),
                    ..old(self)@.cache
                },
                subscribed: old(self)@.subscribed.difference(
                    cache::topics_of(text::texts(ids@)),
                ),
                ..old(self)@
            }),
    {
        let ghost q = channel_ops::channel_not_among(text::texts(ids@));
        proof {
            table::lemma_keyed_filter::<Channel>(self.cache.channels@, q);
        }
        self.subscribed.remove_all(ids);
        let p = |c: &Channel| -> (b: bool)
            ensures
                b == channel_ops::channel_not_among(text::texts(ids@))(c@),
            { !contains_text(ids, c.id()) };
        self.cache.channels.retain(p, Ghost(q));
    }

    fn on_server_gone(&mut self, id: &str)
        requires
            old(self).wf(),
        ensures
            final(self).wf(),
            final(self)@ == server_gone(old(self)@, id@),
    {
        let gone: Vec<String> = match self.cache.servers.look(id) {
            Some(server) => text::copy_texts(&server.channels),
            None => Vec::new(),
        };
        proof {
            if !cache::has_key::<Server>(self.cache.servers@, id@) {
                assert(text::texts(gone@) =~= Seq::<Seq<char>>::empty());
            }
        }
        self.subscribed.remove(id);
        self.drop_channels(&gone);
        self.cache.servers.delete(id);
        self.cache.members.delete(id);
    }

    fn on_server_update(&mut self, id: &str, data: &PartialServer, clear: &Vec<FieldsServer>)
        requires
            old(self).wf(),
        ensures
            final(self).wf(),
            final(self)@ == (StateView {
                cache: CacheView {
                    servers: cache::changed_at::<Server>(
                        old(self)@.cache.servers,
                        id@,
                        server_change(data@, clear@),
                    ),
                    ..old(self)@.cache
                },
                ..old(self)@
            }),
    {
        let ghost f = server_change(data@, clear@);
        match self.cache.servers.position(id) {
            Some(i) => {
                let mut server = self.cache.servers.get(i).row;
                server.remove_fields(clear);
                server.apply_options(data.dup());
                self.cache.servers.change_at(i, server, Ghost(f));
            },
            None => {
                proof {
                    cache::lemma_nothing_at::<Server>(self.cache.servers@, id@, f);
                }
            },
        }
    }

    fn on_member_update(&mut self, server: &str, data: &PartialMember, clear: &Vec<FieldsMember>)
        requires
            old(self).wf(),
        ensures
            final(self).wf(),
            final(self)@ == (StateView {
                cache: CacheView {
                    members: cache::changed_at::<Member>(
                        old(self)@.cache.members,
                        server@,
                        member_change(data@, clear@),
                    ),
                    ..old(self)@.cache
                },
                ..old(self)@
            }),
    {
        let ghost f = member_change(data@, clear@);
        match self.cache.members.position(server) {
            Some(i) => {
                let mut member = self.cache.members.get(i).row;
                member.remove_fields(clear);
                member.apply_options(data.dup());
                self.cache.members.change_at(i, member, Ghost(f));
            },
            None => {
                proof {
                    cache::lemma_nothing_at::<Member>(self.cache.members@, server@, f);
                }
            },
        }
    }

    fn on_role_update(
        &mut self,
        id: &str,
        role_id: &str,
        data: &PartialRole,
        clear: &Vec<FieldsRole>,
    )
        requires
            old(self).wf(),
        ensures
            final(self).wf(),
            final(self)@ == (StateView {
                cache: CacheView {
                    servers: cache::changed_at::<Server>(
                        old(self)@.cache.servers,
                        id@,
                        role_changed_in(role_id@, data@, clear@),
                    ),
                    ..old(self)@.cache
                },
                ..old(self)@
            }),
    {
        let ghost f = role_changed_in(role_id@, data@, clear@);
        match self.cache.servers.position(id) {
            Some(i) => {
                let mut server = self.cache.servers.get(i).row;
                server.roles = changed_roles(&server.roles, role_id, data, clear);
                self.cache.servers.change_at(i, server, Ghost(f));
            },
            None => {
                proof {
                    cache::lemma_nothing_at::<Server>(self.cache.servers@, id@, f);
                }
            },
        }
    }

    fn on_role_delete(&mut self, id: &str, role_id: &str)
        requires
            old(self).wf(),
        ensures
            final(self).wf(),
            final(self)@ == (StateView {
                cache: CacheView {
                    servers: cache::changed_at::<Server>(
                        old(self)@.cache.servers,
                        id@,
                        role_deleted_in(role_id@),
                    ),
                    ..old(self)@.cache
                },
                ..old(self)@
            }),
    {
        let ghost f = role_deleted_in(role_id@);
        match self.cache.servers.position(id) {
            Some(i) => {
                let mut server = self.cache.servers.get(i).row;
                let mut roles = Table { rows: server.roles };
                roles.delete(role_id);
                server.roles = roles.rows;
                self.cache.servers.change_at(i, server, Ghost(f));
            },
            None => {
                proof {
                    cache::lemma_nothing_at::<Server>(self.cache.servers@, id@, f);
                }
            },
        }
    }

    fn holds_role(&self, server: &str, role: &str) -> (r: bool)
        ensures
            r == has_role(self@, server@, role@),
    {
        match self.cache.members.look(server) {
            Some(member) => contains_text(&member.roles, role),
            None => false,
        }
    }

    fn on_relationship(&mut self, id: &str, user: &User)
        requires
            old(self).wf(),
        ensures
            final(self).wf(),
            final(self)@ == begun(
                old(self)@,
                (EventV1View::UserRelationship { id: id@, user: user@ }),
                Seq::empty(),
                Seq::empty(),
            ).0,
    {
        proof {
            let v = cache::EntryView { key: id@, row: user@ };
            table::lemma_upserted::<Entry<User>>(self.cache.users@, v);
            if id@ != self.cache.user_id@ {
                table::lemma_upserted_elsewhere::<Entry<User>>(
                    self.cache.users@,
                    v,
                    self.cache.user_id@,
                );
            }
        }
        self.cache.users.put_at(id, user.dup());
        if self.cache.can_subscribe_to_user(id) {
            self.subscribed.insert(id.to_owned());
        } else {
            self.subscribed.remove(id);
        }
    }

    /// Takes an event into the cache; tells what goes on of it, and what is left to do
    /// once it is known what can be viewed after it.
    pub fn begin_event(
        &mut self,
        event: EventV1,
        fetched: &Table<Channel>,
        before: &Viewable,
    ) -> (r: (EventV1, Pending))
        requires
            old(self).wf(),
        ensures
            final(self).wf(),
            (final(self)@, r.0@, r.1@) == begun(
                old(self)@,
                event@,
                fetched@,
                text::texts(before.ids@),
            ),
    {
        match event {
            EventV1::ChannelCreate(channel) => {
                let visible: bool = self.on_channel_create(&channel, fetched, before);
                let pending = if visible {
                    Pending::Forward
                } else {
                    Pending::Dropped
                };
                (EventV1::ChannelCreate(channel), pending)
            },
            EventV1::ChannelUpdate { id, data, clear } => {
                let seen: bool = self.sees(id.as_str(), fetched, before);
                let threads = self.thread_priors(id.as_str(), fetched, before);
                let known: bool = self.on_channel_update(id.as_str(), &data, &clear, fetched);
                let pending = if known {
                    Pending::Channel { id: id.clone(), seen, threads }
                } else {
                    Pending::Dropped
                };
                (EventV1::ChannelUpdate { id, data, clear }, pending)
            },
            EventV1::ChannelDelete { id } => {
                self.subscribed.remove(id.as_str());
                self.cache.channels.delete(id.as_str());
                (EventV1::ChannelDelete { id }, Pending::Forward)
            },
            EventV1::ChannelGroupJoin { id, user } => {
                self.subscribed.insert(user.clone());
                (EventV1::ChannelGroupJoin { id, user }, Pending::Forward)
            },
            EventV1::ChannelGroupLeave { id, user } => {
                if same(user.as_str(), self.cache.user_id.as_str()) {
                    self.subscribed.remove(id.as_str());
                } else if !self.cache.can_subscribe_to_user(user.as_str()) {
                    self.subscribed.remove(user.as_str());
                }
                (EventV1::ChannelGroupLeave { id, user }, Pending::Forward)
            },
            EventV1::ServerCreate { id, server, channels, payload } => {
                self.on_server_create(id.as_str(), &server, &channels);
                let pending = Pending::Server { id: id.clone() };
                (EventV1::ServerCreate { id, server, channels, payload }, pending)
            },
            EventV1::ServerUpdate { id, data, clear } => {
                self.on_server_update(id.as_str(), &data, &clear);
                let pending = if data.default_permissions.is_some() {
                    Pending::Server { id: id.clone() }
                } else {
                    Pending::Forward
                };
                (EventV1::ServerUpdate { id, data, clear }, pending)
            },
            EventV1::ServerDelete { id } => {
                self.on_server_gone(id.as_str());
                (EventV1::ServerDelete { id }, Pending::Forward)
            },
            EventV1::ServerMemberLeave { id, user, payload } => {
                if same(user.as_str(), self.cache.user_id.as_str()) {
                    self.on_server_gone(id.as_str());
                }
                (EventV1::ServerMemberLeave { id, user, payload }, Pending::Forward)
            },
            EventV1::ServerMemberUpdate { server, user, data, clear } => {
                let mut pending = Pending::Forward;
                if same(user.as_str(), self.cache.user_id.as_str()) {
                    self.on_member_update(server.as_str(), &data, &clear);
                    if data.roles.is_some() || clears_roles(&clear) {
                        pending = Pending::Server { id: server.clone() };
                    }
                }
                (EventV1::ServerMemberUpdate { server, user, data, clear }, pending)
            },
            EventV1::ServerRoleUpdate { id, role_id, data, clear } => {
                self.on_role_update(id.as_str(), role_id.as_str(), &data, &clear);
                let matters: bool = (data.rank.is_some() || data.permissions.is_some())
                    && self.holds_role(id.as_str(), role_id.as_str());
                let pending = if matters {
                    Pending::Server { id: id.clone() }
                } else {
                    Pending::Forward
                };
                (EventV1::ServerRoleUpdate { id, role_id, data, clear }, pending)
            },
            EventV1::ServerRoleDelete { id, role_id } => {
                self.on_role_delete(id.as_str(), role_id.as_str());
                let pending = if self.holds_role(id.as_str(), role_id.as_str()) {
                    Pending::Server { id: id.clone() }
                } else {
                    Pending::Forward
                };
                (EventV1::ServerRoleDelete { id, role_id }, pending)
            },
            EventV1::UserUpdate { id, data, clear, event_id } => match event_id {
                Some(seen) => {
                    if self.cache.seen_events.contains(seen.as_str()) {
                        (EventV1::UserUpdate { id, data, clear, event_id: Some(seen) }, Pending::Dropped)
                    } else {
                        self.cache.seen_events.put(seen);
                        (EventV1::UserUpdate { id, data, clear, event_id: None }, Pending::Forward)
                    }
                },
                None => (EventV1::UserUpdate { id, data, clear, event_id: None }, Pending::Forward),
            },
            EventV1::UserRelationship { id, user } => {
                self.on_relationship(id.as_str(), &user);
                (EventV1::UserRelationship { id, user }, Pending::Forward)
            },
            EventV1::Message { author, relationship, payload } => {
                let relationship = match relationship {
                    Some(_) => Some(self.clone_user().relationship_with(author.as_str())),
                    None => None,
                };
                (EventV1::Message { author, relationship, payload }, Pending::Forward)
            },
            other => (other, Pending::Forward),
        }
    }

    fn split_server_channels(
        &self,
        id: &str,
        fetched: &Table<Channel>,
        viewable: &Viewable,
        visible: bool,
    ) -> (r: Vec<Channel>)
        ensures
            table::row_views(r@) == server_channels(
                self.cache.channels@,
                fetched@,
                text::texts(viewable.ids@),
                id@,
                visible,
            ),
    {
        let own = Table { rows: self.known_channels(id) };
        let p = |c: &Channel| -> (b: bool)
            ensures
                b == (cache::can_view(
                    self.cache.channels@,
                    fetched@,
                    text::texts(viewable.ids@),
                    c@,
                ) == visible),
            { self.cache.can_view_channel(c, fetched, viewable) == visible };
        let ghost q = |c: ChannelView|
            cache::can_view(
                self.cache.channels@,
                fetched@,
                text::texts(viewable.ids@),
                c,
            ) == visible;
        own.select(p, Ghost(q))
    }

    fn known_channels(&self, id: &str) -> (r: Vec<Channel>)
        ensures
            table::row_views(r@) == self.cache.channels@.filter(in_server(id@)),
    {
        let p = |c: &Channel| -> (b: bool)
            ensures
                b == in_server(id@)(c@),
            {
                match c.server() {
                    Some(server) => same(server, id),
                    None => false,
                }
            };
        self.cache.channels.select(p, Ghost(in_server(id@)))
    }

    /// Ids of the channels of a server that the cache does not have; these are to be
    /// fetched before what can be viewed of the server is found anew.
    pub fn unknown_channels(&self, id: &str) -> (r: Vec<String>)
        ensures
            if cache::has_key::<Server>(self.cache.servers@, id@) {
                text::texts(r@) == cache::at_key::<Server>(
                    self.cache.servers@,
                    id@,
                ).channels.filter(
                    |c: Seq<char>|
                        !channel_ops::ids_of(self.cache.channels@.filter(in_server(id@))).contains(
                            c,
                        ),
                )
            } else {
                r@.len() == 0
            },
    {
        let mut out: Vec<String> = Vec::new();
        if let Some(server) = self.cache.servers.look(id) {
            let known = channel_ids(&self.known_channels(id));
            let ghost all = text::texts(server.channels@);
            let ghost q = |c: Seq<char>|
                !channel_ops::ids_of(self.cache.channels@.filter(in_server(id@))).contains(c);
            let mut i: usize = 0;
            proof {
                reveal(Seq::filter);
                assert(text::texts(out@) =~= all.take(0).filter(q));
            }
            while i < server.channels.len()
                invariant
                    i <= server.channels.len(),
                    all == text::texts(server.channels@),
                    text::texts(known@) == channel_ops::ids_of(
                        self.cache.channels@.filter(in_server(id@)),
                    ),
                    q == (|c: Seq<char>|
                        !channel_ops::ids_of(
                            self.cache.channels@.filter(in_server(id@)),
                        ).contains(c)),
                    text::texts(out@) == all.take(i as int).filter(q),
                decreases server.channels.len() - i,
            {
                proof {
                    table::lemma_filter_take(all, q, i as int);
                }
                if !contains_text(&known, server.channels[i].as_str()) {
                    let ghost before = text::texts(out@);
                    out.push(server.channels[i].clone());
                    assert(text::texts(out@) =~= before.push(all[i as int]));
                }
                i = i + 1;
            }
            assert(all.take(i as int) =~= all);
        }
        out
    }

    /// Finds anew what can be viewed of a server; what the client is told of it.
    pub fn recalculate_server(
        &mut self,
        id: &str,
        fetched: &Table<Channel>,
        viewable: &Viewable,
    ) -> (r: Vec<EventV1>)
        requires
            old(self).wf(),
        ensures
            final(self).wf(),
            (final(self)@, table::row_views(r@)) == recalculated(
                old(self)@,
                id@,
                fetched@,
                text::texts(viewable.ids@),
            ),
    {
        let mut out: Vec<EventV1> = Vec::new();
        let ghost first = self@;
        let listed = match self.cache.servers.look(id) {
            Some(server) => text::copy_texts(&server.channels),
            None => {
                assert(table::row_views(out@) =~= Seq::<EventV1View>::empty());
                return out;
            },
        };
        let shown = channel_ids(&self.split_server_channels(id, fetched, viewable, true));
        let hidden_channels = self.split_server_channels(id, fetched, viewable, false);
        let hidden = channel_ids(&hidden_channels);
        let known = channel_ids(&self.known_channels(id));
        self.subscribed.insert_all(&shown);
        self.drop_channels(&hidden);
        let ghost gone = table::row_views(hidden_channels@);
        let mut i: usize = 0;
        assert(text::texts(hidden@).len() == hidden@.len());
        assert(table::row_views(out@) =~= channels_gone(gone).take(0));
        while i < hidden.len()
            invariant
                i <= hidden.len(),
                hidden@.len() == gone.len(),
                text::texts(hidden@) == channel_ops::ids_of(gone),
                table::row_views(out@) == channels_gone(gone).take(i as int),
            decreases hidden.len() - i,
        {
            let ghost before = table::row_views(out@);
            assert(text::texts(hidden@)[i as int] == hidden@[i as int]@);
            out.push(EventV1::ChannelDelete { id: hidden[i].clone() });
            assert(table::row_views(out@) =~= before.push(channels_gone(gone)[i as int]));
            assert(channels_gone(gone).take(i + 1) =~= channels_gone(gone).take(i as int).push(
                channels_gone(gone)[i as int],
            ));
            i = i + 1;
        }
        assert(channels_gone(gone).take(i as int) =~= channels_gone(gone));
        let ghost server = cache::at_key::<Server>(first.cache.servers, id@);
        let p = |c: &Channel| -> (b: bool)
            ensures
                b == (text::texts(listed@).contains(channels::id_of(c@)) && !text::texts(
                    known@,
                ).contains(channels::id_of(c@))),
            { contains_text(&listed, c.id()) && !contains_text(&known, c.id()) };
        let unknown = fetched.select(p, Ghost(unknown_in(server, text::texts(known@))));
        let new = self.cache.filter_accessible_channels(unknown, fetched, viewable);
        let ghost came = table::row_views(new@);
        self.put_channels(&new);
        let new_ids = channel_ids(&new);
        self.subscribed.insert_all(&new_ids);
        let ghost told = table::row_views(out@);
        let mut k: usize = 0;
        assert(table::row_views(out@) =~= told + channels_came(came).take(0));
        while k < new.len()
            invariant
                k <= new.len(),
                came == table::row_views(new@),
                table::row_views(out@) == told + channels_came(came).take(k as int),
            decreases new.len() - k,
        {
            let ghost before = table::row_views(out@);
            out.push(EventV1::ChannelCreate(new[k].dup()));
            assert(came[k as int] == new@[k as int]@);
            assert(table::row_views(out@) =~= before.push(channels_came(came)[k as int]));
            assert(channels_came(came).take(k + 1) =~= channels_came(came).take(k as int).push(
                channels_came(came)[k as int],
            ));
            assert(table::row_views(out@) =~= told + channels_came(came).take(k + 1));
            k = k + 1;
        }
        assert(channels_came(came).take(k as int) =~= channels_came(came));
        out
    }

    fn finish_threads(
        &mut self,
        threads: &Vec<Prior>,
        fetched: &Table<Channel>,
        after: &Viewable,
    ) -> (r: Vec<EventV1>)
        requires
            old(self).wf(),
        ensures
            final(self).wf(),
            final(self)@ == (StateView {
                subscribed: thread_topics(
                    old(self)@.subscribed,
                    old(self)@.cache.channels,
                    fetched@,
                    text::texts(after.ids@),
                    table::row_views(threads@),
                ),
                ..old(self)@
            }),
            table::row_views(r@) == thread_events(
                old(self)@.cache.channels,
                fetched@,
                text::texts(after.ids@),
                table::row_views(threads@),
            ),
    {
        let mut out: Vec<EventV1> = Vec::new();
        let ghost all = table::row_views(threads@);
        let ghost ids = text::texts(after.ids@);
        let ghost first = self@;
        let mut i: usize = 0;
        assert(all.take(0).len() == 0);
        assert(table::row_views(out@) =~= Seq::<EventV1View>::empty());
        while i < threads.len()
            invariant
                i <= threads.len(),
                all == table::row_views(threads@),
                ids == text::texts(after.ids@),
                self.wf(),
                self@ == (StateView {
                    subscribed: thread_topics(
                        first.subscribed,
                        first.cache.channels,
                        fetched@,
                        ids,
                        all.take(i as int),
                    ),
                    ..first
                }),
                table::row_views(out@) == thread_events(
                    first.cache.channels,
                    fetched@,
                    ids,
                    all.take(i as int),
                ),
            decreases threads.len() - i,
        {
            assert(all.take(i + 1).drop_last() =~= all.take(i as int));
            assert(all.take(i + 1).last() == threads@[i as int]@);
            let ghost before = table::row_views(out@);
            let seen: bool = self.sees(threads[i].id.as_str(), fetched, after);
            if seen != threads[i].seen {
                if seen {
                    if let Some(channel) = self.cache.channels.fetch(threads[i].id.as_str()) {
                        self.subscribed.insert(threads[i].id.clone());
                        out.push(EventV1::ChannelCreate(channel));
                        assert(table::row_views(out@) =~= before.push(
                            EventV1View::ChannelCreate(channel@),
                        ));
                    }
                } else {
                    self.subscribed.remove(threads[i].id.as_str());
                    out.push(EventV1::ChannelDelete { id: threads[i].id.clone() });
                    assert(table::row_views(out@) =~= before.push(
                        (EventV1View::ChannelDelete { id: threads@[i as int].id@ }),
                    ));
                }
            }
            i = i + 1;
        }
        assert(all.take(i as int) =~= all);
        out
    }

    /// Does what was left to do with an event; what the client gets. Nothing: the event
    /// is dropped. More than one: they go out together, the event itself last.
    pub fn finish_event(
        &mut self,
        event: EventV1,
        pending: Pending,
        fetched: &Table<Channel>,
        after: &Viewable,
    ) -> (r: Vec<EventV1>)
        requires
            old(self).wf(),
            pending matches Pending::Channel { id, .. } ==> table::has_id::<Channel>(
                old(self)@.cache.channels,
                id@,
            ),
        ensures
            final(self).wf(),
            (final(self)@, table::row_views(r@)) == finished(
                old(self)@,
                event@,
                pending@,
                fetched@,
                text::texts(after.ids@),
            ),
    {
        match pending {
            Pending::Dropped => {
                let out: Vec<EventV1> = Vec::new();
                assert(table::row_views(out@) =~= Seq::<EventV1View>::empty());
                out
            },
            Pending::Forward => {
                let mut out: Vec<EventV1> = Vec::new();
                out.push(event);
                assert(table::row_views(out@) =~= seq![event@]);
                out
            },
            Pending::Server { id } => {
                let mut out = self.recalculate_server(id.as_str(), fetched, after);
                let ghost more = table::row_views(out@);
                out.push(event);
                assert(table::row_views(out@) =~= more.push(event@));
                out
            },
            Pending::Channel { id, seen, threads } => {
                let sees: bool = self.sees(id.as_str(), fetched, after);
                if !seen && !sees {
                    let out: Vec<EventV1> = Vec::new();
                    assert(table::row_views(out@) =~= Seq::<EventV1View>::empty());
                    return out;
                }
                let told = if seen && sees {
                    event
                } else if sees {
                    match self.cache.channels.fetch(id.as_str()) {
                        Some(channel) => EventV1::ChannelCreate(channel),
                        None => event,
                    }
                } else {
                    EventV1::ChannelDelete { id: id.clone() }
                };
                let mut out = self.finish_threads(&threads, fetched, after);
                let ghost more = table::row_views(out@);
                out.push(told);
                assert(table::row_views(out@) =~= more.push(told@));
                if sees && !seen {
                    self.subscribed.insert(id);
                } else if !sees {
                    self.subscribed.remove(id.as_str());
                }
                out
            },
        }
    }

    /// Handles an event: `before` can be viewed before it reaches the cache, `after`
    /// once it has. What the client gets: nothing where the event is dropped, and where
    /// there is more than one they go out together, the event itself last.
    pub fn handle_incoming_event_v1(
        &mut self,
        event: EventV1,
        fetched: &Table<Channel>,
        before: &Viewable,
        after: &Viewable,
    ) -> (r: Vec<EventV1>)
        requires
            old(self).wf(),
        ensures
            final(self).wf(),
            (final(self)@, table::row_views(r@)) == handled(
                old(self)@,
                event@,
                fetched@,
                text::texts(before.ids@),
                text::texts(after.ids@),
            ),
    {
        let ghost first = self@;
        proof {
            if let EventV1View::ChannelUpdate { id, data, clear } = event@ {
                lemma_updated_channel_is_known(first.cache.channels, fetched@, id, data, clear);
            }
        }
        let (told, pending) = self.begin_event(event, fetched, before);
        self.finish_event(told, pending, fetched, after)
    }

    /// What tells others that the user came online or went offline, under an id that
    /// tells copies of the event apart from others. Nothing of invisible users, nor
    /// where events are turned off.
    pub fn broadcast_presence_change_as(
        &self,
        target: bool,
        events_disabled: bool,
        event_id: String,
    ) -> (r: Vec<Published>)
        requires
            self.wf(),
        ensures
            table::row_views(r@) == if events_disabled || !presence_shows(self@.cache) {
                Seq::empty()
            } else {
                presence_told(self@.cache, target, event_id@)
            },
    {
        let mut out: Vec<Published> = Vec::new();
        assert(table::row_views(out@) =~= Seq::<PublishedView>::empty());
        if events_disabled {
            return out;
        }
        let invisible: bool = match self.clone_user().presence {
            Some(Presence::Invisible) => true,
            _ => false,
        };
        if invisible {
            return out;
        }
        let clear: Vec<String> = Vec::new();
        assert(text::texts(clear@) =~= Seq::<Seq<char>>::empty());
        let event = EventV1::UserUpdate {
            id: self.cache.user_id.clone(),
            data: PartialUser { online: Some(target), other: None },
            clear,
            event_id: Some(event_id),
        };
        let ghost all = presence_told(self@.cache, target, event_id@);
        let mut i: usize = 0;
        assert(table::row_views(out@) =~= all.take(0));
        while i < self.cache.servers.rows.len()
            invariant
                i <= self.cache.servers.rows.len(),
                all == presence_told(self@.cache, target, event_id@),
                event@ == (EventV1View::UserUpdate {
                    id: self.cache.user_id@,
                    data: PartialUserView { online: Some(target), other: None },
                    clear: Seq::empty(),
                    event_id: Some(event_id@),
                }),
                table::row_views(out@) == all.take(i as int),
            decreases self.cache.servers.rows.len() - i,
        {
            let ghost before = table::row_views(out@);
            assert(self.cache.servers@[i as int] == self.cache.servers.rows@[i as int]@);
            out.push(event.dup().p(self.cache.servers.rows[i].key.clone()));
            assert(table::row_views(out@) =~= before.push(all[i as int]));
            assert(all.take(i + 1) =~= all.take(i as int).push(all[i as int]));
            i = i + 1;
        }
        let ghost before = table::row_views(out@);
        out.push(event.p(self.cache.user_id.clone()));
        assert(table::row_views(out@) =~= before.push(all[i as int]));
        assert(table::row_views(out@) =~= all);
        out
    }

    /// What tells others that the user came online or went offline, under a fresh id.
    pub fn broadcast_presence_change(&self, target: bool, events_disabled: bool) -> (r: Vec<
        Published,
    >)
        requires
            self.wf(),
        ensures
            if events_disabled || !presence_shows(self@.cache) {
                r@.len() == 0
            } else {
                exists|event_id: Seq<char>|
                    ids::is_id(event_id) && table::row_views(r@) == #[trigger] presence_told(
                        self@.cache,
                        target,
                        event_id,
                    )
            },
    {
        let event_id = new_id();
        let r = self.broadcast_presence_change_as(target, events_disabled, event_id);
        assert(table::row_views(r@).len() == r@.len());
        r
    }
}

fn clears_roles(clear: &Vec<FieldsMember>) -> (r: bool)
    ensures
        r == clear@.contains(FieldsMember::Roles),
{
    let mut i: usize = 0;
    while i < clear.len()
        invariant
            i <= clear.len(),
            forall|j: int| 0 <= j < i ==> #[trigger] clear@[j] != FieldsMember::Roles,
        decreases clear.len() - i,
    {
        match clear[i] {
            FieldsMember::Roles => {
                assert(clear@[i as int] == FieldsMember::Roles);
                return true;
            },
            FieldsMember::Nickname => {},
        }
        i = i + 1;
    }
    false
}

fn changed_roles(roles: &Vec<Role>, role_id: &str, data: &PartialRole, clear: &Vec<FieldsRole>) -> (r:
    Vec<Role>)
    ensures
        table::row_views(r@) == table::mapped(
            table::row_views(roles@),
            table::with_id::<Role>(role_id@),
            role_change(data@, clear@),
        ),
{
    let mut out: Vec<Role> = Vec::new();
    let ghost all = table::mapped(
        table::row_views(roles@),
        table::with_id::<Role>(role_id@),
        role_change(data@, clear@),
    );
    let mut i: usize = 0;
    assert(table::row_views(out@) =~= all.take(0));
    while i < roles.len()
        invariant
            i <= roles.len(),
            all == table::mapped(
                table::row_views(roles@),
                table::with_id::<Role>(role_id@),
                role_change(data@, clear@),
            ),
            table::row_views(out@) == all.take(i as int),
        decreases roles.len() - i,
    {
        let ghost before = table::row_views(out@);
        let mut role = roles[i].dup();
        if same(role.id.as_str(), role_id) {
            role.remove_fields(clear);
            role.apply_options(data.dup());
        }
        out.push(role);
        assert(table::row_views(out@) =~= before.push(all[i as int]));
        assert(all.take(i + 1) =~= all.take(i as int).push(all[i as int]));
        i = i + 1;
    }
    assert(all.take(i as int) =~= all);
    out
}

/// A channel that was in the cache or was fetched is in the cache once it changed.
proof fn lemma_updated_channel_is_known(
    rows: Seq<ChannelView>,
    fetched: Seq<ChannelView>,
    id: Seq<char>,
    data: PartialChannelView,
    clear: Seq<FieldsChannel>,
)
    requires
        table::keyed::<Channel>(rows),
    ensures
        table::has_id::<Channel>(channels_updated(rows, fetched, id, data, clear), id) == (
        table::has_id::<Channel>(rows, id) || table::has_id::<Channel>(fetched, id)),
{
    let f = channel_store::updated(data, clear);
    if table::has_id::<Channel>(rows, id) {
        assert forall|c: ChannelView| #[trigger] channels::id_of(f(c)) == channels::id_of(c) by {
            channel_store::lemma_update_keeps_id(c, data, clear);
        }
        table::lemma_row_of_mapped::<Channel>(rows, id, f);
    } else if table::has_id::<Channel>(fetched, id) {
        let c = table::row_of::<Channel>(fetched, id);
        table::lemma_first_row_matches(fetched, table::with_id::<Channel>(id));
        assert(rows.push(c)[rows.len() as int] == c);
        assert(table::with_id::<Channel>(id)(rows.push(c)[rows.len() as int]));
    }
}

/// An update of a channel that cannot be viewed, neither before nor after it, never
/// reaches the client, and changes nothing of what is received. One of a channel that
/// is not known at all does not either.
pub proof fn law_hidden_update_is_dropped(
    s: StateView,
    id: Seq<char>,
    data: PartialChannelView,
    clear: Seq<FieldsChannel>,
    fetched: Seq<ChannelView>,
    before: Seq<Seq<char>>,
    after: Seq<Seq<char>>,
)
    requires
        !in_view(s.cache.channels, fetched, before, id),
        !in_view(
            channels_updated(s.cache.channels, fetched, id, data, clear),
            fetched,
            after,
            id,
        ),
    ensures
        ({
            let event = EventV1View::ChannelUpdate { id, data, clear };
            let r = handled(s, event, fetched, before, after);
            r.1.len() == 0 && r.0.subscribed == s.subscribed
        }),
{
}

/// An update of a channel that can be viewed before and after it reaches the client as
/// it is, as the last of what the client gets.
pub proof fn law_visible_update_is_forwarded(
    s: StateView,
    id: Seq<char>,
    data: PartialChannelView,
    clear: Seq<FieldsChannel>,
    fetched: Seq<ChannelView>,
    before: Seq<Seq<char>>,
    after: Seq<Seq<char>>,
)
    requires
        in_view(s.cache.channels, fetched, before, id),
        in_view(
            channels_updated(s.cache.channels, fetched, id, data, clear),
            fetched,
            after,
            id,
        ),
    ensures
        ({
            let event = EventV1View::ChannelUpdate { id, data, clear };
            let told = handled(s, event, fetched, before, after).1;
            told.len() > 0 && told.last() == event
        }),
{
}

/// A new thread reaches the client, and is received, only where its parent can be
/// viewed.
pub proof fn law_hidden_thread_is_dropped(
    s: StateView,
    thread: ChannelView,
    fetched: Seq<ChannelView>,
    before: Seq<Seq<char>>,
    after: Seq<Seq<char>>,
)
    requires
        thread is Thread,
        !cache::can_view(s.cache.channels, fetched, before, thread),
    ensures
        ({
            let r = handled(s, EventV1View::ChannelCreate(thread), fetched, before, after);
            r.1.len() == 0 && r.0.subscribed == s.subscribed
        }),
{
}

/// Of the copies of one update of a user only the first reaches the client.
pub proof fn law_copies_are_dropped(
    s: StateView,
    event: EventV1View,
    copy: EventV1View,
    fetched: Seq<ChannelView>,
    viewable: Seq<Seq<char>>,
)
    requires
        event is UserUpdate,
        copy is UserUpdate,
        event->UserUpdate_event_id is Some,
        copy->UserUpdate_event_id == event->UserUpdate_event_id,
        s.cache.capacity > 0,
    ensures
        handled(
            handled(s, event, fetched, viewable, viewable).0,
            copy,
            fetched,
            viewable,
            viewable,
        ).1.len() == 0,
{
    let id = event->UserUpdate_event_id->Some_0;
    let after = handled(s, event, fetched, viewable, viewable).0;
    if !s.cache.seen.contains(id) {
        let seen = cache::seen_with(s.cache.seen, s.cache.capacity, id);
        assert(seen[seen.len() - 1] == id);
        assert(after.cache.seen.contains(id));
    }
}

/// Where channels were put in, every channel was there or was put in.
proof fn lemma_with_channels_members(
    rows: Seq<ChannelView>,
    list: Seq<ChannelView>,
    c: ChannelView,
)
    requires
        with_channels(rows, list).contains(c),
    ensures
        rows.contains(c) || list.contains(c),
    decreases list.len(),
{
    if list.len() > 0 {
        let rest = with_channels(rows, list.drop_last());
        let all = with_channels(rows, list);
        let i = choose|i: int| 0 <= i < all.len() && all[i] == c;
        if c == list.last() {
            assert(list[list.len() - 1] == c);
        } else {
            assert(i < rest.len() && rest[i] == c);
            lemma_with_channels_members(rows, list.drop_last(), c);
            if list.drop_last().contains(c) {
                let k = choose|k: int|
                    0 <= k < list.drop_last().len() && list.drop_last()[k] == c;
                assert(list[k] == c);
            }
        }
    }
}

/// Once what can be viewed of a server was found anew, every channel of it that is left
/// in the cache can be viewed, and no channel that went out of view is received.
pub proof fn law_only_viewable_channels_are_left(
    s: StateView,
    id: Seq<char>,
    fetched: Seq<ChannelView>,
    viewable: Seq<Seq<char>>,
    c: ChannelView,
)
    requires
        cache::has_key::<Server>(s.cache.servers, id),
    ensures
        ({
            let rows = s.cache.channels;
            let hidden = channel_ops::ids_of(
                server_channels(rows, fetched, viewable, id, false),
            );
            let left = rows.filter(channel_ops::channel_not_among(hidden));
            let server = cache::at_key::<Server>(s.cache.servers, id);
            let new = newly_viewable(rows, fetched, viewable, server, id);
            let after = recalculated(s, id, fetched, viewable).0;
            &&& after.cache.channels.contains(c) && in_server(id)(c) ==> cache::can_view(
                rows,
                fetched,
                viewable,
                c,
            ) || cache::can_view(left, fetched, viewable, c)
            &&& hidden.contains(channels::id_of(c)) && !channel_ops::ids_of(new).contains(
                channels::id_of(c),
            ) ==> !after.subscribed.contains(channels::id_of(c))
        }),
{
    let rows = s.cache.channels;
    let hidden_channels = server_channels(rows, fetched, viewable, id, false);
    let hidden = channel_ops::ids_of(hidden_channels);
    let left = rows.filter(channel_ops::channel_not_among(hidden));
    let server = cache::at_key::<Server>(s.cache.servers, id);
    let new = newly_viewable(rows, fetched, viewable, server, id);
    let after = recalculated(s, id, fetched, viewable).0;
    if after.cache.channels.contains(c) && in_server(id)(c) {
        lemma_with_channels_members(left, new, c);
        if left.contains(c) {
            table::lemma_filter_members(rows, channel_ops::channel_not_among(hidden), c);
            if !cache::can_view(rows, fetched, viewable, c) {
                let q = |c: ChannelView| cache::can_view(rows, fetched, viewable, c) == false;
                table::lemma_filter_members(rows, in_server(id), c);
                table::lemma_filter_members(rows.filter(in_server(id)), q, c);
                let k = choose|k: int|
                    0 <= k < hidden_channels.len() && hidden_channels[k] == c;
                assert(hidden[k] == channels::id_of(c));
            }
        } else {
            let known = channel_ops::ids_of(rows.filter(in_server(id)));
            table::lemma_filter_members(
                fetched.filter(unknown_in(server, known)),
                cache::viewable_among(left, fetched, viewable),
                c,
            );
        }
    }
}

/// Once the user is out of a server, neither the server nor any of its listed channels
/// is known or received.
pub proof fn law_nothing_is_left_of_a_server(s: StateView, id: Seq<char>, channel: Seq<char>)
    requires
        cache::has_key::<Server>(s.cache.servers, id),
        cache::at_key::<Server>(s.cache.servers, id).channels.contains(channel),
    ensures
        ({
            let after = server_gone(s, id);
            &&& !after.subscribed.contains(id)
            &&& !after.subscribed.contains(channel)
            &&& !table::has_id::<Channel>(after.cache.channels, channel)
            &&& !cache::has_key::<Server>(after.cache.servers, id)
            &&& !cache::has_key::<Member>(after.cache.members, id)
        }),
{
    let after = server_gone(s, id);
    let gone = cache::at_key::<Server>(s.cache.servers, id).channels;
    table::lemma_id_gone::<Entry<Server>>(s.cache.servers, id);
    table::lemma_id_gone::<Entry<Member>>(s.cache.members, id);
    if table::has_id::<Channel>(after.cache.channels, channel) {
        let q = table::with_id::<Channel>(channel);
        table::lemma_first_row_matches(after.cache.channels, q);
        let c = after.cache.channels[table::first_row(after.cache.channels, q)];
        table::lemma_filter_members(
            s.cache.channels,
            channel_ops::channel_not_among(gone),
            c,
        );
        assert(after.cache.channels.contains(c));
    }
}

} // verus!
