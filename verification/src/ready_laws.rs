//! What holds of a connection once it was told what it can see.
use crate::cache::{self, Entry, EntryView};
use crate::channel_ops;
use crate::channels::{self, Channel, ChannelView};
use crate::events;
use crate::gateway::{self, StateView};
use crate::gateway_laws;
use crate::people::{Member, MemberView, Server, ServerView, User, UserView};
use crate::ready::{self, Fetched, PolicyChangeView, VoiceStateView};
use crate::table;
use vstd::prelude::*;

verus! {

/// Once a client is connected, it receives itself, its private topic, and every server, user
/// and channel that it was told of, whether it is a bot or not. Bots receive the members of
/// their servers too.
pub proof fn law_what_a_client_is_told_of_is_received(
    s: StateView,
    data: Fetched,
    list: Seq<ChannelView>,
    i: int,
)
    ensures
        ({
            let own = cache::at_key::<User>(s.cache.users, s.cache.user_id);
            let topics = ready::ready_state(s, data, list).subscribed;
            &&& topics.contains(s.private_topic)
            &&& topics.contains(own.id)
            &&& 0 <= i < data.servers@.len() ==> topics.contains(data.servers@[i].id@)
            &&& 0 <= i < data.users@.len() ==> topics.contains(data.users@[i].id@)
            &&& 0 <= i < list.len() ==> topics.contains(channels::id_of(list[i]))
            &&& 0 <= i < data.servers@.len() && own.bot ==> topics.contains(
                data.servers@[i].id@ + "u"@,
            )
        }),
{
    let users = table::row_views(data.users@);
    let servers = table::row_views(data.servers@);
    if 0 <= i < servers.len() {
        assert(servers[i].id == data.servers@[i].id@);
    }
    if 0 <= i < users.len() {
        assert(users[i].id == data.users@[i].id@);
    }
    if 0 <= i < list.len() {
        assert(channel_ops::ids_of(list)[i] == channels::id_of(list[i]));
    }
}

/// A connected client receives nothing but itself, its private topic, and the servers, users
/// and channels that it was told of; only bots receive members.
pub proof fn law_nothing_else_is_received(
    s: StateView,
    data: Fetched,
    list: Seq<ChannelView>,
    topic: Seq<char>,
)
    requires
        ready::ready_state(s, data, list).subscribed.contains(topic),
    ensures
        ({
            let own = cache::at_key::<User>(s.cache.users, s.cache.user_id);
            ||| topic == s.private_topic
            ||| topic == own.id
            ||| exists|i: int| 0 <= i < data.servers@.len() && #[trigger] data.servers@[i].id@
                == topic
            ||| exists|i: int| 0 <= i < data.users@.len() && #[trigger] data.users@[i].id@
                == topic
            ||| exists|i: int| 0 <= i < list.len() && #[trigger] channels::id_of(list[i])
                == topic
            ||| own.bot && exists|i: int|
                0 <= i < data.servers@.len() && (#[trigger] data.servers@[i].id@) + "u"@ == topic
        }),
{
    let own = cache::at_key::<User>(s.cache.users, s.cache.user_id);
    let users = table::row_views(data.users@);
    let servers = table::row_views(data.servers@);
    if topic != s.private_topic && topic != own.id {
        if exists|i: int| 0 <= i < users.len() && #[trigger] users[i].id == topic {
            let i = choose|i: int| 0 <= i < users.len() && #[trigger] users[i].id == topic;
            assert(data.users@[i].id@ == topic);
        } else if exists|i: int|
            0 <= i < servers.len() && (#[trigger] servers[i].id == topic || own.bot && topic
                == events::member_topic(servers[i].id)) {
            let i = choose|i: int|
                0 <= i < servers.len() && (#[trigger] servers[i].id == topic || own.bot && topic
                    == events::member_topic(servers[i].id));
            assert(data.servers@[i].id@ == servers[i].id);
        } else {
            let ids = channel_ops::ids_of(list);
            let i = choose|i: int| 0 <= i < ids.len() && ids[i] == topic;
            assert(channels::id_of(list[i]) == topic);
        }
    }
}

/// Whether the row at a place of a list is the last with its key.
pub open spec fn is_last<V>(list: Seq<V>, key: spec_fn(V) -> Seq<char>, i: int) -> bool {
    0 <= i < list.len() && forall|j: int| i < j < list.len() ==> key(#[trigger] list[j]) != key(
        list[i],
    )
}

proof fn lemma_servers(list: Seq<ServerView>, i: int, key: Seq<char>)
    ensures
        table::keyed::<Entry<Server>>(ready::servers_by_id(list)),
        is_last(list, |v: ServerView| v.id, i) ==> cache::has_key::<Server>(
            ready::servers_by_id(list),
            list[i].id,
        ) && cache::at_key::<Server>(ready::servers_by_id(list), list[i].id) == list[i],
        cache::has_key::<Server>(ready::servers_by_id(list), key) ==> exists|k: int|
            0 <= k < list.len() && (#[trigger] list[k]).id == key,
    decreases list.len(),
{
    let id = |v: ServerView| v.id;
    if list.len() > 0 {
        let rest = list.drop_last();
        lemma_servers(rest, i, key);
        let last = list.last();
        assert(list[list.len() - 1] == last);
        let before = ready::servers_by_id(rest);
        let e = EntryView { key: last.id, row: last };
        table::lemma_upserted::<Entry<Server>>(before, e);
        if is_last(list, id, i) && i < rest.len() {
            assert(id(list[list.len() - 1]) != id(list[i]));
            assert(rest[i] == list[i]);
            assert forall|j: int| i < j < rest.len() implies id(#[trigger] rest[j]) != id(
                rest[i],
            ) by {
                assert(rest[j] == list[j]);
            }
            table::lemma_upserted_elsewhere::<Entry<Server>>(before, e, list[i].id);
        }
        if key != last.id {
            table::lemma_upserted_elsewhere::<Entry<Server>>(before, e, key);
            if cache::has_key::<Server>(before, key) {
                let k = choose|k: int| 0 <= k < rest.len() && (#[trigger] rest[k]).id == key;
                assert(list[k].id == key);
            }
        }
    }
}

proof fn lemma_members(list: Seq<MemberView>, i: int, key: Seq<char>)
    ensures
        table::keyed::<Entry<Member>>(ready::members_by_server(list)),
        is_last(list, |v: MemberView| v.server, i) ==> cache::has_key::<Member>(
            ready::members_by_server(list),
            list[i].server,
        ) && cache::at_key::<Member>(ready::members_by_server(list), list[i].server) == list[i],
        cache::has_key::<Member>(ready::members_by_server(list), key) ==> exists|k: int|
            0 <= k < list.len() && (#[trigger] list[k]).server == key,
    decreases list.len(),
{
    let id = |v: MemberView| v.server;
    if list.len() > 0 {
        let rest = list.drop_last();
        lemma_members(rest, i, key);
        let last = list.last();
        assert(list[list.len() - 1] == last);
        let before = ready::members_by_server(rest);
        let e = EntryView { key: last.server, row: last };
        table::lemma_upserted::<Entry<Member>>(before, e);
        if is_last(list, id, i) && i < rest.len() {
            assert(id(list[list.len() - 1]) != id(list[i]));
            assert(rest[i] == list[i]);
            assert forall|j: int| i < j < rest.len() implies id(#[trigger] rest[j]) != id(
                rest[i],
            ) by {
                assert(rest[j] == list[j]);
            }
            table::lemma_upserted_elsewhere::<Entry<Member>>(before, e, list[i].server);
        }
        if key != last.server {
            table::lemma_upserted_elsewhere::<Entry<Member>>(before, e, key);
            if cache::has_key::<Member>(before, key) {
                let k = choose|k: int| 0 <= k < rest.len() && (#[trigger] rest[k]).server == key;
                assert(list[k].server == key);
            }
        }
    }
}

proof fn lemma_users(list: Seq<UserView>, i: int, key: Seq<char>)
    ensures
        table::keyed::<Entry<User>>(ready::users_by_id(list)),
        is_last(list, |v: UserView| v.id, i) ==> cache::has_key::<User>(
            ready::users_by_id(list),
            list[i].id,
        ) && cache::at_key::<User>(ready::users_by_id(list), list[i].id) == list[i],
        cache::has_key::<User>(ready::users_by_id(list), key) ==> exists|k: int|
            0 <= k < list.len() && (#[trigger] list[k]).id == key,
    decreases list.len(),
{
    let id = |v: UserView| v.id;
    if list.len() > 0 {
        let rest = list.drop_last();
        lemma_users(rest, i, key);
        let last = list.last();
        assert(list[list.len() - 1] == last);
        let before = ready::users_by_id(rest);
        let e = EntryView { key: last.id, row: last };
        table::lemma_upserted::<Entry<User>>(before, e);
        if is_last(list, id, i) && i < rest.len() {
            assert(id(list[list.len() - 1]) != id(list[i]));
            assert(rest[i] == list[i]);
            assert forall|j: int| i < j < rest.len() implies id(#[trigger] rest[j]) != id(
                rest[i],
            ) by {
                assert(rest[j] == list[j]);
            }
            table::lemma_upserted_elsewhere::<Entry<User>>(before, e, list[i].id);
        }
        if key != last.id {
            table::lemma_upserted_elsewhere::<Entry<User>>(before, e, key);
            if cache::has_key::<User>(before, key) {
                let k = choose|k: int| 0 <= k < rest.len() && (#[trigger] rest[k]).id == key;
                assert(list[k].id == key);
            }
        }
    }
}

proof fn lemma_channels(list: Seq<ChannelView>, i: int, key: Seq<char>)
    ensures
        table::keyed::<Channel>(gateway::with_channels(Seq::empty(), list)),
        is_last(list, |v: ChannelView| channels::id_of(v), i) ==> table::has_id::<Channel>(
            gateway::with_channels(Seq::empty(), list),
            channels::id_of(list[i]),
        ) && table::row_of::<Channel>(
            gateway::with_channels(Seq::empty(), list),
            channels::id_of(list[i]),
        ) == list[i],
        table::has_id::<Channel>(gateway::with_channels(Seq::empty(), list), key) ==> exists|k: int|
            0 <= k < list.len() && channels::id_of(#[trigger] list[k]) == key,
    decreases list.len(),
{
    let id = |v: ChannelView| channels::id_of(v);
    if list.len() > 0 {
        let rest = list.drop_last();
        lemma_channels(rest, i, key);
        let last = list.last();
        assert(list[list.len() - 1] == last);
        let before = gateway::with_channels(Seq::empty(), rest);
        table::lemma_upserted::<Channel>(before, last);
        if is_last(list, id, i) && i < rest.len() {
            assert(id(list[list.len() - 1]) != id(list[i]));
            assert(rest[i] == list[i]);
            assert forall|j: int| i < j < rest.len() implies id(#[trigger] rest[j]) != id(
                rest[i],
            ) by {
                assert(rest[j] == list[j]);
            }
            table::lemma_upserted_elsewhere::<Channel>(before, last, channels::id_of(list[i]));
        }
        if key != channels::id_of(last) {
            table::lemma_upserted_elsewhere::<Channel>(before, last, key);
            if table::has_id::<Channel>(before, key) {
                let k = choose|k: int|
                    0 <= k < rest.len() && channels::id_of(#[trigger] rest[k]) == key;
                assert(channels::id_of(list[k]) == key);
            }
        }
    }
}

/// A connected client knows every server, every membership of its user, every channel and
/// every user that it was told of, as it was told last, and itself as it was known.
pub proof fn law_what_a_client_is_told_of_is_known(
    s: StateView,
    data: Fetched,
    list: Seq<ChannelView>,
    i: int,
)
    ensures
        ({
            let r = ready::ready_state(s, data, list).cache;
            let own = cache::at_key::<User>(s.cache.users, s.cache.user_id);
            let servers = table::row_views(data.servers@);
            let members = table::row_views(data.members@);
            let users = table::row_views(data.users@);
            &&& is_last(servers, |v: ServerView| v.id, i) ==> cache::has_key::<Server>(
                r.servers,
                servers[i].id,
            ) && cache::at_key::<Server>(r.servers, servers[i].id) == servers[i]
            &&& is_last(members, |v: MemberView| v.server, i) ==> cache::has_key::<Member>(
                r.members,
                members[i].server,
            ) && cache::at_key::<Member>(r.members, members[i].server) == members[i]
            &&& is_last(list, |v: ChannelView| channels::id_of(v), i) ==> table::has_id::<Channel>(
                r.channels,
                channels::id_of(list[i]),
            ) && table::row_of::<Channel>(r.channels, channels::id_of(list[i])) == list[i]
            &&& is_last(users, |v: UserView| v.id, i) && users[i].id != s.cache.user_id
                ==> cache::has_key::<User>(r.users, users[i].id) && cache::at_key::<User>(
                r.users,
                users[i].id,
            ) == users[i]
            &&& cache::has_key::<User>(r.users, s.cache.user_id)
            &&& cache::at_key::<User>(r.users, s.cache.user_id) == own
            &&& r.is_bot == own.bot
            &&& r.user_id == s.cache.user_id
        }),
{
    let servers = table::row_views(data.servers@);
    let members = table::row_views(data.members@);
    let users = table::row_views(data.users@);
    let own = cache::at_key::<User>(s.cache.users, s.cache.user_id);
    lemma_servers(servers, i, Seq::empty());
    lemma_members(members, i, Seq::empty());
    lemma_channels(list, i, Seq::empty());
    lemma_users(users, i, Seq::empty());
    let before = ready::users_by_id(users);
    let e = EntryView { key: s.cache.user_id, row: own };
    table::lemma_upserted::<Entry<User>>(before, e);
    if is_last(users, |v: UserView| v.id, i) && users[i].id != s.cache.user_id {
        table::lemma_upserted_elsewhere::<Entry<User>>(before, e, users[i].id);
    }
}

/// A connected client knows no server, membership or channel that it was not told of, and
/// no user but those and its own.
pub proof fn law_nothing_else_is_known(
    s: StateView,
    data: Fetched,
    list: Seq<ChannelView>,
    key: Seq<char>,
)
    ensures
        ({
            let r = ready::ready_state(s, data, list).cache;
            &&& cache::has_key::<Server>(r.servers, key) ==> exists|k: int|
                0 <= k < data.servers@.len() && (#[trigger] data.servers@[k]).id@ == key
            &&& cache::has_key::<Member>(r.members, key) ==> exists|k: int|
                0 <= k < data.members@.len() && (#[trigger] data.members@[k])@.server == key
            &&& table::has_id::<Channel>(r.channels, key) ==> exists|k: int|
                0 <= k < list.len() && channels::id_of(#[trigger] list[k]) == key
            &&& cache::has_key::<User>(r.users, key) && key != s.cache.user_id ==> exists|k: int|
                0 <= k < data.users@.len() && (#[trigger] data.users@[k]).id@ == key
        }),
{
    let r = ready::ready_state(s, data, list).cache;
    let servers = table::row_views(data.servers@);
    let members = table::row_views(data.members@);
    let users = table::row_views(data.users@);
    lemma_servers(servers, 0, key);
    lemma_members(members, 0, key);
    lemma_channels(list, 0, key);
    lemma_users(users, 0, key);
    if cache::has_key::<Server>(r.servers, key) {
        let k = choose|k: int| 0 <= k < servers.len() && (#[trigger] servers[k]).id == key;
        assert(data.servers@[k].id@ == key);
    }
    if cache::has_key::<Member>(r.members, key) {
        let k = choose|k: int| 0 <= k < members.len() && (#[trigger] members[k]).server == key;
        assert(data.members@[k]@.server == key);
    }
    if cache::has_key::<User>(r.users, key) && key != s.cache.user_id {
        let own = cache::at_key::<User>(s.cache.users, s.cache.user_id);
        table::lemma_upserted_elsewhere::<Entry<User>>(
            ready::users_by_id(users),
            EntryView { key: s.cache.user_id, row: own },
            key,
        );
        let k = choose|k: int| 0 <= k < users.len() && (#[trigger] users[k]).id == key;
        assert(data.users@[k].id@ == key);
    }
}

/// A client is told of exactly the channels that were fetched and can be viewed: of servers
/// where they are viewable, of threads where the parent is, and of all that are in no
/// server.
pub proof fn law_viewable_channels_are_told(
    rows: Seq<ChannelView>,
    data: Fetched,
    fetched: Seq<ChannelView>,
    before: Seq<Seq<char>>,
    after: Seq<Seq<char>>,
    c: ChannelView,
)
    requires
        c !is Thread,
        table::row_views(data.direct_messages@).contains(c) || table::row_views(
            data.server_channels@,
        ).contains(c),
        gateway_laws::shown_by(before, c),
    ensures
        ready::ready_channels(rows, data, fetched, before, after).contains(c),
{
    let dms = table::row_views(data.direct_messages@);
    let more = table::row_views(data.server_channels@);
    let offered = dms + more;
    let q = cache::viewable_among(rows, fetched, before);
    if dms.contains(c) {
        let i = choose|i: int| 0 <= i < dms.len() && dms[i] == c;
        assert(offered[i] == c);
    } else {
        let i = choose|i: int| 0 <= i < more.len() && more[i] == c;
        assert(offered[dms.len() + i] == c);
    }
    assert(q(c));
    table::lemma_filter_members(offered, q, c);
    let a = offered.filter(q);
    let i = choose|i: int| 0 <= i < a.len() && a[i] == c;
    assert(ready::ready_channels(rows, data, fetched, before, after)[i] == c);
}

/// A client is told of the threads that its user has joined, where the parent is known, is a
/// text channel or a forum, and can be viewed.
pub proof fn law_viewable_threads_are_told(
    rows: Seq<ChannelView>,
    data: Fetched,
    fetched: Seq<ChannelView>,
    before: Seq<Seq<char>>,
    after: Seq<Seq<char>>,
    c: ChannelView,
    i: int,
)
    requires
        c is Thread,
        table::row_views(data.threads@).contains(c),
        table::keyed::<Channel>(rows),
        0 <= i < rows.len(),
        rows[i] is TextChannel || rows[i] is Forum,
        channels::id_of(rows[i]) == c->Thread_parent_channel,
        after.contains(c->Thread_parent_channel),
    ensures
        ready::ready_channels(rows, data, fetched, before, after).contains(c),
{
    let threads = table::row_views(data.threads@);
    let q = cache::viewable_among(rows, fetched, after);
    table::lemma_keyed_row::<Channel>(rows, c->Thread_parent_channel, i);
    assert(q(c));
    table::lemma_filter_members(threads, q, c);
    let b = threads.filter(q);
    let k = choose|k: int| 0 <= k < b.len() && b[k] == c;
    let a = (table::row_views(data.direct_messages@) + table::row_views(
        data.server_channels@,
    )).filter(cache::viewable_among(rows, fetched, before));
    assert(ready::ready_channels(rows, data, fetched, before, after)[a.len() + k] == c);
}

/// No channel that a client is told of is hidden from it.
pub proof fn law_hidden_channels_are_not_told(
    rows: Seq<ChannelView>,
    data: Fetched,
    fetched: Seq<ChannelView>,
    before: Seq<Seq<char>>,
    after: Seq<Seq<char>>,
    c: ChannelView,
)
    requires
        ready::ready_channels(rows, data, fetched, before, after).contains(c),
    ensures
        gateway_laws::shown_by(before, c) || gateway_laws::shown_by(after, c),
{
    ready::law_ready_channels_are_viewable(rows, data, fetched, before, after, c);
}

/// Users are told with whether they are online, the client's own among them, who is.
pub proof fn law_users_are_told_with_their_presence(
    users: Seq<UserView>,
    online: Seq<Seq<char>>,
    own: UserView,
    i: int,
)
    requires
        0 <= i < users.len(),
    ensures
        ({
            let told = ready::users_told(users, online, own);
            &&& told.len() == users.len() + 1
            &&& told[i].user == users[i]
            &&& told[i].online <==> exists|k: int|
                0 <= k < online.len() && #[trigger] online[k] == users[i].id
            &&& told[users.len() as int].user == own
            &&& told[users.len() as int].online
        }),
{
}

/// Pending changes of policies are those after the last that the user acknowledged; bots,
/// and those who did not ask, are told of none.
pub proof fn law_which_policy_changes_are_told(
    user: UserView,
    asked: bool,
    all: Seq<PolicyChangeView>,
    p: PolicyChangeView,
)
    ensures
        ({
            let told = ready::policies_for(user, asked, all);
            &&& told is Some <==> asked && !user.bot
            &&& told is Some ==> (told->Some_0.contains(p) <==> all.contains(p) && p.created_time
                > user.last_acknowledged_policy_change)
        }),
{
    table::lemma_filter_members(
        all,
        ready::changed_after(user.last_acknowledged_policy_change),
        p,
    );
}

/// The users that a client knows of are those related to its user, those it shares a direct
/// message or a group with, and those in its calls.
pub proof fn law_which_users_are_known(
    user: UserView,
    list: Seq<ChannelView>,
    states: Seq<VoiceStateView>,
    id: Seq<char>,
)
    ensures
        ready::users_known(user, list, states).contains(id) <==> {
            ||| exists|i: int| 0 <= i < user.relations.len() && #[trigger] user.relations[i].id
                == id
            ||| exists|i: int|
                0 <= i < list.len() && (#[trigger] list[i] is DirectMessage && list[
                i]->DirectMessage_recipients.contains(id) || list[i] is Group && list[
                i]->Group_recipients.contains(id))
            ||| exists|i: int| 0 <= i < states.len() && (#[trigger] states[i]).participants.contains(
                id,
            )
        },
{
    let q = cache::talks_with(id);
    if table::any_row(list, q) {
        let i = choose|i: int| 0 <= i < list.len() && q(#[trigger] list[i]);
        assert(list[i] is DirectMessage || list[i] is Group);
    }
    if exists|i: int|
        0 <= i < list.len() && (#[trigger] list[i] is DirectMessage && list[
        i]->DirectMessage_recipients.contains(id) || list[i] is Group && list[
        i]->Group_recipients.contains(id)) {
        let i = choose|i: int|
            0 <= i < list.len() && (#[trigger] list[i] is DirectMessage && list[
            i]->DirectMessage_recipients.contains(id) || list[i] is Group && list[
            i]->Group_recipients.contains(id));
        assert(q(list[i]));
    }
}

/// Calls can be in direct messages, in groups, and in text channels with voice.
pub proof fn law_where_calls_can_be(c: ChannelView)
    ensures
        ready::can_have_call()(c) <==> c is DirectMessage || c is Group || c is TextChannel
            && c->TextChannel_voice is Some,
{
}

/// The channels to be fetched are those that the servers list.
pub proof fn law_listed_channels_are_fetched(servers: Seq<ServerView>, id: Seq<char>)
    ensures
        ready::channels_listed(servers).contains(id) <==> exists|i: int|
            0 <= i < servers.len() && (#[trigger] servers[i]).channels.contains(id),
    decreases servers.len(),
{
    if servers.len() > 0 {
        let rest = servers.drop_last();
        law_listed_channels_are_fetched(rest, id);
        let a = ready::channels_listed(rest);
        let b = servers.last().channels;
        assert(servers[servers.len() - 1] == servers.last());
        if a.contains(id) {
            let k = choose|k: int| 0 <= k < a.len() && a[k] == id;
            assert((a + b)[k] == id);
            let i = choose|i: int|
                0 <= i < rest.len() && (#[trigger] rest[i]).channels.contains(id);
            assert(servers[i] == rest[i]);
        }
        if b.contains(id) {
            let k = choose|k: int| 0 <= k < b.len() && b[k] == id;
            assert((a + b)[a.len() + k] == id);
        }
        if (a + b).contains(id) {
            let k = choose|k: int| 0 <= k < (a + b).len() && (a + b)[k] == id;
            if k >= a.len() {
                assert(b[k - a.len()] == id);
            } else {
                assert(a[k] == id);
            }
        }
        assert forall|i: int| 0 <= i < rest.len() implies rest[i] == #[trigger] servers[i] by {}
    }
}

/// A client that asks for calls is told of the memberships of those in them, besides its
/// user's own.
pub proof fn law_which_memberships_are_told(data: Fetched, calls: bool, m: MemberView)
    ensures
        ready::ready_members(data, calls).contains(m) <==> table::row_views(
            data.members@,
        ).contains(m) || calls && table::row_views(data.voice_members@).contains(m),
{
    let a = table::row_views(data.members@);
    let b = table::row_views(data.voice_members@);
    if a.contains(m) {
        let k = choose|k: int| 0 <= k < a.len() && a[k] == m;
        assert((a + b)[k] == m);
    }
    if b.contains(m) {
        let k = choose|k: int| 0 <= k < b.len() && b[k] == m;
        assert((a + b)[a.len() + k] == m);
    }
    if (a + b).contains(m) {
        let k = choose|k: int| 0 <= k < (a + b).len() && (a + b)[k] == m;
        if k >= a.len() {
            assert(b[k - a.len()] == m);
        } else {
            assert(a[k] == m);
        }
    }
}

/// The users in the calls of a server are those in calls in its channels.
pub proof fn law_who_is_in_calls_of_a_server(
    list: Seq<ChannelView>,
    states: Seq<VoiceStateView>,
    server: Seq<char>,
    id: Seq<char>,
    i: int,
    k: int,
)
    requires
        table::keyed::<Channel>(list),
        0 <= i < states.len(),
        0 <= k < list.len(),
        channels::id_of(list[k]) == states[i].id,
        states[i].participants.contains(id),
    ensures
        channels::server_of(list[k]) == Some(server) ==> ready::in_call_of_server(
            list,
            states,
            server,
            id,
        ),
{
    table::lemma_keyed_row::<Channel>(list, states[i].id, k);
}

/// Nobody is in the calls of a server who is in no call, or only in calls elsewhere.
pub proof fn law_who_is_not_in_calls_of_a_server(
    list: Seq<ChannelView>,
    states: Seq<VoiceStateView>,
    server: Seq<char>,
    id: Seq<char>,
)
    requires
        ready::in_call_of_server(list, states, server, id),
    ensures
        exists|i: int, k: int|
            0 <= i < states.len() && (#[trigger] states[i]).participants.contains(id) && 0 <= k
                < list.len() && channels::id_of(#[trigger] list[k]) == states[i].id
                && channels::server_of(list[k]) == Some(server),
{
    let i = choose|i: int|
        0 <= i < states.len() && (#[trigger] states[i]).participants.contains(id)
            && table::has_id::<Channel>(list, states[i].id) && channels::server_of(
            table::row_of::<Channel>(list, states[i].id),
        ) == Some(server);
    let q = table::with_id::<Channel>(states[i].id);
    table::lemma_first_row_matches(list, q);
    assert(channels::id_of(list[table::first_row(list, q)]) == states[i].id);
}

/// The servers to be fetched are those that the user is a member of, in order.
pub proof fn law_servers_of_memberships_are_fetched(members: Seq<MemberView>, i: int)
    requires
        0 <= i < members.len(),
    ensures
        ready::servers_of(members).len() == members.len(),
        ready::servers_of(members)[i] == members[i].server,
{
}

} // verus!
