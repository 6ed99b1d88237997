//! What a client is told once it is connected, and what has to be fetched for it.
use crate::cache::{self, CacheView, Entry, EntryView, Topics, Viewable};
use crate::channel_ops;
use crate::channels::{self, Channel, ChannelView};
use crate::events::{self, ReadyPayloadFields};
use crate::gateway::{self, channel_ids, State, StateView};
use crate::people::{Member, MemberView, Server, ServerView, User, UserView};
use crate::table::{self, copy_rows, Row, Table};
use crate::text::{self, contains_text, copy_texts, joined, same};
use vstd::prelude::*;

verus! {

/// A change of the policies of the instance.
#[derive(Debug, PartialEq, Eq)]
pub struct PolicyChange {
    pub created_time: i64,
    /// The change in its encoded form.
    pub payload: String,
}

/// What a [`PolicyChange`] holds.
pub struct PolicyChangeView {
    pub created_time: i64,
    pub payload: Seq<char>,
}

impl View for PolicyChange {
    type V = PolicyChangeView;

    open spec fn view(&self) -> PolicyChangeView {
        PolicyChangeView { created_time: self.created_time, payload: self.payload@ }
    }
}

impl Row for PolicyChange {
    fn dup(&self) -> (r: Self) {
        PolicyChange { created_time: self.created_time, payload: self.payload.clone() }
    }
}

/// Who is in a call.
#[derive(Debug, PartialEq, Eq)]
pub struct VoiceState {
    /// The channel of the call.
    pub id: String,
    pub participants: Vec<String>,
}

/// What a [`VoiceState`] holds.
pub struct VoiceStateView {
    pub id: Seq<char>,
    pub participants: Seq<Seq<char>>,
}

impl View for VoiceState {
    type V = VoiceStateView;

    open spec fn view(&self) -> VoiceStateView {
        VoiceStateView { id: self.id@, participants: text::texts(self.participants@) }
    }
}

impl Row for VoiceState {
    fn dup(&self) -> (r: Self) {
        VoiceState { id: self.id.clone(), participants: copy_texts(&self.participants) }
    }
}

/// A user as the client sees it.
#[derive(Debug, PartialEq, Eq)]
pub struct KnownUser {
    pub user: User,
    pub online: bool,
}

/// What a [`KnownUser`] holds.
pub struct KnownUserView {
    pub user: UserView,
    pub online: bool,
}

impl View for KnownUser {
    type V = KnownUserView;

    open spec fn view(&self) -> KnownUserView {
        KnownUserView { user: self.user@, online: self.online }
    }
}

impl Row for KnownUser {
    fn dup(&self) -> (r: Self) {
        KnownUser { user: self.user.dup(), online: self.online }
    }
}

/// What was fetched for a client.
pub struct Fetched {
    pub policy_changes: Vec<PolicyChange>,
    /// The memberships of the user.
    pub members: Vec<Member>,
    pub servers: Vec<Server>,
    pub direct_messages: Vec<Channel>,
    pub server_channels: Vec<Channel>,
    /// Calls in the channels that can have them.
    pub voice_states: Vec<VoiceState>,
    /// The memberships of those who are in calls.
    pub voice_members: Vec<Member>,
    pub users: Vec<User>,
    /// Ids of the users who are online.
    pub online: Vec<String>,
    /// Threads that the user has joined.
    pub threads: Vec<Channel>,
    pub emojis: Vec<String>,
    pub stickers: Vec<String>,
    pub user_settings: Vec<String>,
    pub channel_unreads: Vec<String>,
}

/// What a client is told once it is connected. Fields that it did not ask for are not
/// there.
#[derive(Debug, PartialEq, Eq)]
pub struct Ready {
    pub users: Option<Vec<KnownUser>>,
    pub servers: Option<Vec<Server>>,
    pub channels: Option<Vec<Channel>>,
    pub members: Option<Vec<Member>>,
    pub voice_states: Option<Vec<VoiceState>>,
    pub emojis: Option<Vec<String>>,
    pub stickers: Option<Vec<String>>,
    pub user_settings: Option<Vec<String>>,
    pub channel_unreads: Option<Vec<String>>,
    pub policy_changes: Option<Vec<PolicyChange>>,
}

/// Changes after a time.
pub open spec fn changed_after(time: i64) -> spec_fn(PolicyChangeView) -> bool {
    |p: PolicyChangeView| p.created_time > time
}

/// The changes of policies that a user has yet to acknowledge. Bots have none, nor do
/// those who did not ask for them.
pub open spec fn policies_for(user: UserView, asked: bool, all: Seq<PolicyChangeView>) -> Option<
    Seq<PolicyChangeView>,
> {
    if user.bot || !asked {
        None
    } else {
        Some(all.filter(changed_after(user.last_acknowledged_policy_change)))
    }
}

/// The changes of policies that a user has yet to acknowledge.
pub fn pending_policy_changes(user: &User, asked: bool, all: &Vec<PolicyChange>) -> (r: Option<
    Vec<PolicyChange>,
>)
    ensures
        table::opt_row_views(r) == policies_for(user@, asked, table::row_views(all@)),
{
    if user.bot || !asked {
        return None;
    }
    let time: i64 = user.last_acknowledged_policy_change;
    let rows = Table { rows: copy_rows(all) };
    let p = |c: &PolicyChange| -> (b: bool)
        ensures
            b == (c@.created_time > time),
        { c.created_time > time };
    Some(rows.select(p, Ghost(changed_after(time))))
}

/// The servers of memberships.
pub open spec fn servers_of(members: Seq<MemberView>) -> Seq<Seq<char>> {
    Seq::new(members.len(), |i: int| members[i].server)
}

/// The servers that are to be fetched for memberships.
pub fn membership_servers(members: &Vec<Member>) -> (r: Vec<String>)
    ensures
        text::texts(r@) == servers_of(table::row_views(members@)),
{
    let mut out: Vec<String> = Vec::new();
    let ghost all = servers_of(table::row_views(members@));
    let mut i: usize = 0;
    assert(text::texts(out@) =~= all.take(0));
    while i < members.len()
        invariant
            i <= members.len(),
            all == servers_of(table::row_views(members@)),
            text::texts(out@) == all.take(i as int),
        decreases members.len() - i,
    {
        let ghost before = text::texts(out@);
        out.push(members[i].server.clone());
        assert(text::texts(out@) =~= before.push(all[i as int]));
        assert(all.take(i + 1) =~= all.take(i as int).push(all[i as int]));
        i = i + 1;
    }
    assert(all.take(i as int) =~= all);
    out
}

/// The channels that servers list, one server after the other.
pub open spec fn channels_listed(servers: Seq<ServerView>) -> Seq<Seq<char>>
    decreases servers.len(),
{
    if servers.len() == 0 {
        Seq::empty()
    } else {
        channels_listed(servers.drop_last()) + servers.last().channels
    }
}

/// The channels that are to be fetched for servers.
pub fn listed_channels(servers: &Vec<Server>) -> (r: Vec<String>)
    ensures
        text::texts(r@) == channels_listed(table::row_views(servers@)),
{
    let mut out: Vec<String> = Vec::new();
    let ghost all = table::row_views(servers@);
    let mut i: usize = 0;
    assert(all.take(0).len() == 0);
    assert(text::texts(out@) =~= Seq::<Seq<char>>::empty());
    while i < servers.len()
        invariant
            i <= servers.len(),
            all == table::row_views(servers@),
            text::texts(out@) == channels_listed(all.take(i as int)),
        decreases servers.len() - i,
    {
        let ghost before = text::texts(out@);
        let mut more = copy_texts(&servers[i].channels);
        let ghost added = text::texts(more@);
        out.append(&mut more);
        assert(text::texts(out@) =~= before + added);
        assert(all.take(i + 1).drop_last() =~= all.take(i as int));
        assert(all.take(i + 1).last() == servers@[i as int]@);
        i = i + 1;
    }
    assert(all.take(i as int) =~= all);
    out
}

/// Whether there can be a call in a channel.
pub open spec fn can_have_call() -> spec_fn(ChannelView) -> bool {
    |c: ChannelView|
        match c {
            ChannelView::DirectMessage { .. } => true,
            ChannelView::Group { .. } => true,
            ChannelView::TextChannel { voice, .. } => voice is Some,
            _ => false,
        }
}

/// The channels whose calls are to be fetched.
pub fn callable_channels(list: &Vec<Channel>) -> (r: Vec<Channel>)
    ensures
        table::row_views(r@) == table::row_views(list@).filter(can_have_call()),
{
    let rows = Table { rows: copy_rows(list) };
    let p = |c: &Channel| -> (b: bool)
        ensures
            b == can_have_call()(c@),
        {
            match c {
                Channel::DirectMessage { .. } => true,
                Channel::Group { .. } => true,
                Channel::TextChannel { voice, .. } => voice.is_some(),
                _ => false,
            }
        };
    rows.select(p, Ghost(can_have_call()))
}

/// Whether a user is related to another.
pub open spec fn is_related(user: UserView, id: Seq<char>) -> bool {
    exists|i: int| 0 <= i < user.relations.len() && #[trigger] user.relations[i].id == id
}

/// Whether a user is in a call.
pub open spec fn in_call(states: Seq<VoiceStateView>, id: Seq<char>) -> bool {
    exists|i: int| 0 <= i < states.len() && (#[trigger] states[i]).participants.contains(id)
}

/// The users that a client knows of: those related to its user, those in its direct
/// messages and groups, and those in calls.
pub open spec fn users_known(
    user: UserView,
    list: Seq<ChannelView>,
    states: Seq<VoiceStateView>,
) -> Set<Seq<char>> {
    Set::new(
        |id: Seq<char>|
            is_related(user, id) || table::any_row(list, cache::talks_with(id)) || in_call(
                states,
                id,
            ),
    )
}

/// The users that a client knows of, each once.
pub fn known_users(user: &User, list: &Vec<Channel>, states: &Vec<VoiceState>) -> (r: Topics)
    ensures
        r@ == users_known(user@, table::row_views(list@), table::row_views(states@)),
{
    let mut out = Topics::new();
    let ghost relations = user@.relations;
    let ghost chats = table::row_views(list@);
    let ghost calls = table::row_views(states@);
    let mut i: usize = 0;
    while i < user.relations.len()
        invariant
            i <= user.relations.len(),
            relations == user@.relations,
            forall|id: Seq<char>| #[trigger]
                out@.contains(id) <==> exists|k: int|
                    0 <= k < i && #[trigger] relations[k].id == id,
        decreases user.relations.len() - i,
    {
        assert(relations[i as int].id == user.relations@[i as int].id@);
        out.insert(user.relations[i].id.clone());
        i = i + 1;
    }
    let mut j: usize = 0;
    while j < list.len()
        invariant
            j <= list.len(),
            chats == table::row_views(list@),
            relations == user@.relations,
            forall|id: Seq<char>| #[trigger]
                out@.contains(id) <==> is_related(user@, id) || exists|k: int|
                    0 <= k < j && cache::talks_with(id)(#[trigger] chats[k]),
        decreases list.len() - j,
    {
        let ghost before = out@;
        assert(chats[j as int] == list@[j as int]@);
        match &list[j] {
            Channel::DirectMessage { recipients, .. } => {
                out.insert_all(recipients);
            },
            Channel::Group { recipients, .. } => {
                out.insert_all(recipients);
            },
            _ => {},
        }
        assert forall|id: Seq<char>| #[trigger]
            out@.contains(id) <==> before.contains(id) || cache::talks_with(id)(
                chats[j as int],
            ) by {
            if let Some(recipients) = channels::recipients_of(chats[j as int]) {
                assert(cache::topics_of(recipients).contains(id) == recipients.contains(id));
            }
        }
        j = j + 1;
    }
    let mut m: usize = 0;
    while m < states.len()
        invariant
            m <= states.len(),
            calls == table::row_views(states@),
            chats == table::row_views(list@),
            forall|id: Seq<char>| #[trigger]
                out@.contains(id) <==> is_related(user@, id) || table::any_row(
                    chats,
                    cache::talks_with(id),
                ) || exists|k: int| 0 <= k < m && (#[trigger] calls[k]).participants.contains(id),
        decreases states.len() - m,
    {
        let ghost before = out@;
        assert(calls[m as int] == states@[m as int]@);
        out.insert_all(&states[m].participants);
        assert forall|id: Seq<char>| #[trigger]
            out@.contains(id) <==> before.contains(id) || calls[m as int].participants.contains(
                id,
            ) by {
            assert(cache::topics_of(calls[m as int].participants).contains(id)
                == calls[m as int].participants.contains(id));
        }
        m = m + 1;
    }
    assert(out@ =~= users_known(user@, chats, calls));
    out
}

/// Whether a user is in a call in a channel of a server.
pub open spec fn in_call_of_server(
    list: Seq<ChannelView>,
    states: Seq<VoiceStateView>,
    server: Seq<char>,
    id: Seq<char>,
) -> bool {
    exists|i: int|
        0 <= i < states.len() && (#[trigger] states[i]).participants.contains(id)
            && table::has_id::<Channel>(list, states[i].id) && channels::server_of(
            table::row_of::<Channel>(list, states[i].id),
        ) == Some(server)
}

/// The users in calls in channels of a server: their memberships are to be fetched.
pub fn voice_users_in(list: &Table<Channel>, states: &Vec<VoiceState>, server: &str) -> (r: Topics)
    ensures
        r@ == Set::new(
            |id: Seq<char>| in_call_of_server(list@, table::row_views(states@), server@, id),
        ),
{
    let mut out = Topics::new();
    let ghost calls = table::row_views(states@);
    let mut i: usize = 0;
    while i < states.len()
        invariant
            i <= states.len(),
            calls == table::row_views(states@),
            forall|id: Seq<char>| #[trigger]
                out@.contains(id) <==> exists|k: int|
                    0 <= k < i && (#[trigger] calls[k]).participants.contains(id)
                        && table::has_id::<Channel>(list@, calls[k].id) && channels::server_of(
                        table::row_of::<Channel>(list@, calls[k].id),
                    ) == Some(server@),
        decreases states.len() - i,
    {
        let ghost before = out@;
        assert(calls[i as int] == states@[i as int]@);
        let here: bool = match list.fetch(states[i].id.as_str()) {
            Some(channel) => match channel.server() {
                Some(own) => same(own, server),
                None => false,
            },
            None => false,
        };
        if here {
            out.insert_all(&states[i].participants);
        }
        assert forall|id: Seq<char>| #[trigger]
            out@.contains(id) <==> before.contains(id) || (here
                && calls[i as int].participants.contains(id)) by {
            assert(cache::topics_of(calls[i as int].participants).contains(id)
                == calls[i as int].participants.contains(id));
        }
        i = i + 1;
    }
    assert(out@ =~= Set::new(|id: Seq<char>| in_call_of_server(list@, calls, server@, id)));
    out
}

/// Servers under their ids; of two with the same id the last one stays.
pub open spec fn servers_by_id(list: Seq<ServerView>) -> Seq<EntryView<ServerView>>
    decreases list.len(),
{
    if list.len() == 0 {
        Seq::empty()
    } else {
        cache::with_entry::<Server>(
            servers_by_id(list.drop_last()),
            list.last().id,
            list.last(),
        )
    }
}

/// Members under their servers; of two with the same server the last one stays.
pub open spec fn members_by_server(list: Seq<MemberView>) -> Seq<EntryView<MemberView>>
    decreases list.len(),
{
    if list.len() == 0 {
        Seq::empty()
    } else {
        cache::with_entry::<Member>(
            members_by_server(list.drop_last()),
            list.last().server,
            list.last(),
        )
    }
}

/// Users under their ids; of two with the same id the last one stays.
pub open spec fn users_by_id(list: Seq<UserView>) -> Seq<EntryView<UserView>>
    decreases list.len(),
{
    if list.len() == 0 {
        Seq::empty()
    } else {
        cache::with_entry::<User>(users_by_id(list.drop_last()), list.last().id, list.last())
    }
}

fn index_servers(list: &Vec<Server>) -> (r: Table<Entry<Server>>)
    ensures
        table::keyed::<Entry<Server>>(r@),
        r@ == servers_by_id(table::row_views(list@)),
{
    let mut out: Table<Entry<Server>> = Table::new();
    let ghost all = table::row_views(list@);
    let mut i: usize = 0;
    assert(all.take(0).len() == 0);
    while i < list.len()
        invariant
            i <= list.len(),
            all == table::row_views(list@),
            table::keyed::<Entry<Server>>(out@),
            out@ == servers_by_id(all.take(i as int)),
        decreases list.len() - i,
    {
        assert(all.take(i + 1).drop_last() =~= all.take(i as int));
        assert(all.take(i + 1).last() == list@[i as int]@);
        out.put_at(list[i].id.as_str(), list[i].dup());
        i = i + 1;
    }
    assert(all.take(i as int) =~= all);
    out
}

fn index_members(list: &Vec<Member>) -> (r: Table<Entry<Member>>)
    ensures
        table::keyed::<Entry<Member>>(r@),
        r@ == members_by_server(table::row_views(list@)),
{
    let mut out: Table<Entry<Member>> = Table::new();
    let ghost all = table::row_views(list@);
    let mut i: usize = 0;
    assert(all.take(0).len() == 0);
    while i < list.len()
        invariant
            i <= list.len(),
            all == table::row_views(list@),
            table::keyed::<Entry<Member>>(out@),
            out@ == members_by_server(all.take(i as int)),
        decreases list.len() - i,
    {
        assert(all.take(i + 1).drop_last() =~= all.take(i as int));
        assert(all.take(i + 1).last() == list@[i as int]@);
        out.put_at(list[i].server.as_str(), list[i].dup());
        i = i + 1;
    }
    assert(all.take(i as int) =~= all);
    out
}

fn index_users(list: &Vec<User>) -> (r: Table<Entry<User>>)
    ensures
        table::keyed::<Entry<User>>(r@),
        r@ == users_by_id(table::row_views(list@)),
{
    let mut out: Table<Entry<User>> = Table::new();
    let ghost all = table::row_views(list@);
    let mut i: usize = 0;
    assert(all.take(0).len() == 0);
    while i < list.len()
        invariant
            i <= list.len(),
            all == table::row_views(list@),
            table::keyed::<Entry<User>>(out@),
            out@ == users_by_id(all.take(i as int)),
        decreases list.len() - i,
    {
        assert(all.take(i + 1).drop_last() =~= all.take(i as int));
        assert(all.take(i + 1).last() == list@[i as int]@);
        out.put_at(list[i].id.as_str(), list[i].dup());
        i = i + 1;
    }
    assert(all.take(i as int) =~= all);
    out
}

fn index_channels(list: &Vec<Channel>) -> (r: Table<Channel>)
    ensures
        table::keyed::<Channel>(r@),
        r@ == gateway::with_channels(Seq::empty(), table::row_views(list@)),
{
    let mut out: Table<Channel> = Table::new();
    let ghost all = table::row_views(list@);
    let mut i: usize = 0;
    assert(all.take(0).len() == 0);
    while i < list.len()
        invariant
            i <= list.len(),
            all == table::row_views(list@),
            table::keyed::<Channel>(out@),
            out@ == gateway::with_channels(Seq::empty(), all.take(i as int)),
        decreases list.len() - i,
    {
        assert(all.take(i + 1).drop_last() =~= all.take(i as int));
        assert(all.take(i + 1).last() == list@[i as int]@);
        let id = list[i].id().to_owned();
        out.upsert(id.as_str(), list[i].dup());
        i = i + 1;
    }
    assert(all.take(i as int) =~= all);
    out
}

/// The users as a client sees them: those fetched, with whether they are online, then
/// the client's own user, who is.
pub open spec fn users_told(
    users: Seq<UserView>,
    online: Seq<Seq<char>>,
    own: UserView,
) -> Seq<KnownUserView> {
    Seq::new(
        users.len(),
        |i: int| KnownUserView { user: users[i], online: online.contains(users[i].id) },
    ).push(KnownUserView { user: own, online: true })
}

fn tell_users(users: &Vec<User>, online: &Vec<String>, own: &User) -> (r: Vec<KnownUser>)
    ensures
        table::row_views(r@) == users_told(
            table::row_views(users@),
            text::texts(online@),
            own@,
        ),
{
    let mut out: Vec<KnownUser> = Vec::new();
    let ghost all = users_told(table::row_views(users@), text::texts(online@), own@);
    let mut i: usize = 0;
    assert(table::row_views(out@) =~= all.take(0));
    while i < users.len()
        invariant
            i <= users.len(),
            all == users_told(table::row_views(users@), text::texts(online@), own@),
            table::row_views(out@) == all.take(i as int),
        decreases users.len() - i,
    {
        let ghost before = table::row_views(out@);
        let is_online: bool = contains_text(online, users[i].id.as_str());
        out.push(KnownUser { user: users[i].dup(), online: is_online });
        assert(table::row_views(users@)[i as int] == users@[i as int]@);
        assert(table::row_views(out@) =~= before.push(all[i as int]));
        assert(all.take(i + 1) =~= all.take(i as int).push(all[i as int]));
        i = i + 1;
    }
    let ghost before = table::row_views(out@);
    out.push(KnownUser { user: own.dup(), online: true });
    assert(table::row_views(out@) =~= before.push(all[i as int]));
    assert(table::row_views(out@) =~= all);
    out
}

/// The topics that a client receives once it is connected: its own, those of the users,
/// of the servers (bots: those of their members too) and of the channels.
pub open spec fn ready_topics(
    private_topic: Seq<char>,
    own: UserView,
    users: Seq<UserView>,
    servers: Seq<ServerView>,
    list: Seq<ChannelView>,
) -> Set<Seq<char>> {
    Set::new(
        |t: Seq<char>|
            t == private_topic || t == own.id || (exists|i: int|
                0 <= i < users.len() && #[trigger] users[i].id == t) || (exists|i: int|
                0 <= i < servers.len() && (#[trigger] servers[i].id == t || own.bot && t
                    == events::member_topic(servers[i].id))) || channel_ops::ids_of(list).contains(
                t,
            ),
    )
}

/// The channels that a client can view: direct messages and channels of servers, then
/// the threads that its user has joined.
pub open spec fn ready_channels(
    rows: Seq<ChannelView>,
    data: Fetched,
    fetched: Seq<ChannelView>,
    before: Seq<Seq<char>>,
    after: Seq<Seq<char>>,
) -> Seq<ChannelView> {
    (table::row_views(data.direct_messages@) + table::row_views(data.server_channels@)).filter(
        cache::viewable_among(rows, fetched, before),
    ) + table::row_views(data.threads@).filter(cache::viewable_among(rows, fetched, after))
}

/// The memberships that a client is told of: the user's, and where calls are asked for
/// those of the users in calls.
pub open spec fn ready_members(data: Fetched, calls: bool) -> Seq<MemberView> {
    if calls {
        table::row_views(data.members@) + table::row_views(data.voice_members@)
    } else {
        table::row_views(data.members@)
    }
}

/// The state once a client is connected. Of memberships it holds the user's own, whose roles
/// decide what can be viewed.
pub open spec fn ready_state(s: StateView, data: Fetched, list: Seq<ChannelView>) -> StateView {
    let own = cache::at_key::<User>(s.cache.users, s.cache.user_id);
    let users = table::row_views(data.users@);
    let servers = table::row_views(data.servers@);
    StateView {
        cache: CacheView {
            is_bot: own.bot,
            users: cache::with_entry::<User>(users_by_id(users), s.cache.user_id, own),
            channels: gateway::with_channels(Seq::empty(), list),
            servers: servers_by_id(servers),
            members: members_by_server(table::row_views(data.members@)),
            ..s.cache
        },
        subscribed: ready_topics(s.private_topic, own, users, servers, list),
        ..s
    }
}

impl State {
    /// What a client can view of the channels that were fetched: direct messages and
    /// channels of servers.
    pub fn accessible_channels(
        &self,
        data: &Fetched,
        fetched: &Table<Channel>,
        before: &Viewable,
    ) -> (r: Vec<Channel>)
        ensures
            table::row_views(r@) == (table::row_views(data.direct_messages@)
                + table::row_views(data.server_channels@)).filter(
                cache::viewable_among(self.cache.channels@, fetched@, text::texts(before.ids@)),
            ),
    {
        let mut list = copy_rows(&data.direct_messages);
        let mut more = copy_rows(&data.server_channels);
        let ghost first = table::row_views(list@);
        let ghost second = table::row_views(more@);
        list.append(&mut more);
        assert(table::row_views(list@) =~= first + second);
        self.cache.filter_accessible_channels(list, fetched, before)
    }

    /// What a client is told once it is connected, of what was fetched for it. The cache
    /// and the topics are set accordingly.
    pub fn generate_ready_payload(
        &mut self,
        fields: &ReadyPayloadFields,
        data: Fetched,
        fetched: &Table<Channel>,
        before: &Viewable,
        after: &Viewable,
    ) -> (r: Ready)
        requires
            old(self).wf(),
        ensures
            final(self).wf(),
            ({
                let s = old(self)@;
                let own = cache::at_key::<User>(s.cache.users, s.cache.user_id);
                let list = ready_channels(
                    s.cache.channels,
                    data,
                    fetched@,
                    text::texts(before.ids@),
                    text::texts(after.ids@),
                );
                let users = table::row_views(data.users@);
                &&& final(self)@ == ready_state(s, data, list)
                &&& table::opt_row_views(r.users) == if fields.users {
                    Some(users_told(users, text::texts(data.online@), own))
                } else {
                    None
                }
                &&& table::opt_row_views(r.servers) == if fields.servers {
                    Some(table::row_views(data.servers@))
                } else {
                    None
                }
                &&& table::opt_row_views(r.channels) == if fields.channels {
                    Some(list)
                } else {
                    None
                }
                &&& table::opt_row_views(r.members) == if fields.members {
                    Some(ready_members(data, fields.voice_states))
                } else {
                    None
                }
                &&& table::opt_row_views(r.voice_states) == if fields.voice_states {
                    Some(table::row_views(data.voice_states@))
                } else {
                    None
                }
                &&& r.emojis == if fields.emojis {
                    Some(data.emojis)
                } else {
                    None
                }
                &&& r.stickers == if fields.emojis {
                    Some(data.stickers)
                } else {
                    None
                }
                &&& r.user_settings == if fields.user_settings@.len() > 0 {
                    Some(data.user_settings)
                } else {
                    None
                }
                &&& r.channel_unreads == if fields.channel_unreads {
                    Some(data.channel_unreads)
                } else {
                    None
                }
                &&& table::opt_row_views(r.policy_changes) == policies_for(
                    own,
                    fields.policy_changes,
                    table::row_views(data.policy_changes@),
                )
            }),
    {
        let user = self.clone_user();
        let ghost s = self@;
        let policy_changes = pending_policy_changes(
            &user,
            fields.policy_changes,
            &data.policy_changes,
        );
        let mut list = self.accessible_channels(&data, fetched, before);
        let mut threads = self.cache.filter_accessible_channels(
            copy_rows(&data.threads),
            fetched,
            after,
        );
        let ghost first = table::row_views(list@);
        let ghost second = table::row_views(threads@);
        list.append(&mut threads);
        assert(table::row_views(list@) =~= first + second);
        self.cache.members = index_members(&data.members);
        let mut members = copy_rows(&data.members);
        if fields.voice_states {
            let ghost own_members = table::row_views(members@);
            let mut more = copy_rows(&data.voice_members);
            let ghost others = table::row_views(more@);
            members.append(&mut more);
            assert(table::row_views(members@) =~= own_members + others);
        }
        let users = tell_users(&data.users, &data.online, &user);
        self.set_topics(&user, &data.users, &data.servers, &list);
        self.cache.is_bot = user.bot;
        self.cache.servers = index_servers(&data.servers);
        self.cache.channels = index_channels(&list);
        let mut known = index_users(&data.users);
        let own_id = self.cache.user_id.clone();
        proof {
            table::lemma_upserted::<Entry<User>>(
                known@,
                EntryView { key: own_id@, row: user@ },
            );
        }
        known.put_at(own_id.as_str(), user);
        self.cache.users = known;
        Ready {
            users: if fields.users {
                Some(users)
            } else {
                None
            },
            servers: if fields.servers {
                Some(data.servers)
            } else {
                None
            },
            channels: if fields.channels {
                Some(list)
            } else {
                None
            },
            members: if fields.members {
                Some(members)
            } else {
                None
            },
            voice_states: if fields.voice_states {
                Some(data.voice_states)
            } else {
                None
            },
            emojis: if fields.emojis {
                Some(data.emojis)
            } else {
                None
            },
            stickers: if fields.emojis {
                Some(data.stickers)
            } else {
                None
            },
            user_settings: if fields.user_settings.len() > 0 {
                Some(data.user_settings)
            } else {
                None
            },
            channel_unreads: if fields.channel_unreads {
                Some(data.channel_unreads)
            } else {
                None
            },
            policy_changes,
        }
    }

    /// The users that are to be fetched: those that the client knows of, without its own.
    pub fn users_to_fetch(&self, list: &Vec<Channel>, states: &Vec<VoiceState>) -> (r: Topics)
        requires
            self.wf(),
        ensures
            r@ == users_known(
                cache::at_key::<User>(self.cache.users@, self.cache.user_id@),
                table::row_views(list@),
                table::row_views(states@),
            ).remove(self.cache.user_id@),
    {
        let user = self.clone_user();
        let mut known = known_users(&user, list, states);
        known.remove(self.cache.user_id.as_str());
        known
    }

    fn set_topics(
        &mut self,
        own: &User,
        users: &Vec<User>,
        servers: &Vec<Server>,
        list: &Vec<Channel>,
    )
        requires
            old(self).wf(),
        ensures
            final(self).cache == old(self).cache,
            final(self).private_topic == old(self).private_topic,
            final(self).subscribed@ == ready_topics(
                old(self).private_topic@,
                own@,
                table::row_views(users@),
                table::row_views(servers@),
                table::row_views(list@),
            ),
    {
        let ghost user_views = table::row_views(users@);
        let ghost server_views = table::row_views(servers@);
        let ghost private = self.private_topic@;
        let mut topics = Topics::new();
        topics.insert(self.private_topic.clone());
        topics.insert(own.id.clone());
        let mut i: usize = 0;
        while i < users.len()
            invariant
                i <= users.len(),
                user_views == table::row_views(users@),
                forall|t: Seq<char>| #[trigger]
                    topics@.contains(t) <==> t == private || t == own.id@ || exists|k: int|
                        0 <= k < i && #[trigger] user_views[k].id == t,
            decreases users.len() - i,
        {
            let ghost before = topics@;
            assert(user_views[i as int] == users@[i as int]@);
            topics.insert(users[i].id.clone());
            assert forall|t: Seq<char>| #[trigger]
                topics@.contains(t) <==> t == private || t == own.id@ || exists|k: int|
                    0 <= k < i + 1 && #[trigger] user_views[k].id == t by {
                assert(before.contains(t) || !before.contains(t));
                assert(user_views[i as int].id == users@[i as int].id@);
            }
            i = i + 1;
        }
        let mut j: usize = 0;
        while j < servers.len()
            invariant
                j <= servers.len(),
                user_views == table::row_views(users@),
                server_views == table::row_views(servers@),
                forall|t: Seq<char>| #[trigger]
                    topics@.contains(t) <==> t == private || t == own.id@ || (exists|k: int|
                        0 <= k < user_views.len() && #[trigger] user_views[k].id == t) || (exists|
                        k: int,
                    |
                        0 <= k < j && (#[trigger] server_views[k].id == t || own.bot && t
                            == events::member_topic(server_views[k].id))),
            decreases servers.len() - j,
        {
            let ghost before = topics@;
            assert(server_views[j as int] == servers@[j as int]@);
            topics.insert(servers[j].id.clone());
            if own.bot {
                topics.insert(joined(servers[j].id.as_str(), "u"));
            }
            assert forall|t: Seq<char>| #[trigger]
                topics@.contains(t) <==> t == private || t == own.id@ || (exists|k: int|
                    0 <= k < user_views.len() && #[trigger] user_views[k].id == t) || (exists|
                    k: int,
                |
                    0 <= k < j + 1 && (#[trigger] server_views[k].id == t || own.bot && t
                        == events::member_topic(server_views[k].id))) by {
                assert(before.contains(t) || !before.contains(t));
                assert(server_views[j as int].id == servers@[j as int].id@);
            }
            j = j + 1;
        }
        let ids = channel_ids(list);
        let ghost before = topics@;
        topics.insert_all(&ids);
        proof {
            let all = ready_topics(
                private,
                own@,
                user_views,
                server_views,
                table::row_views(list@),
            );
            assert forall|t: Seq<char>| #[trigger] topics@.contains(t) <==> all.contains(t) by {
                assert(before.contains(t) || !before.contains(t));
            }
            assert(topics@ =~= all);
        }
        self.subscribed = topics;
    }
}

/// Once connected, a client knows and receives a channel only where it can view it.
pub proof fn law_ready_channels_are_viewable(
    rows: Seq<ChannelView>,
    data: Fetched,
    fetched: Seq<ChannelView>,
    before: Seq<Seq<char>>,
    after: Seq<Seq<char>>,
    c: ChannelView,
)
    requires
        ready_channels(rows, data, fetched, before, after).contains(c),
    ensures
        cache::can_view(rows, fetched, before, c) || cache::can_view(rows, fetched, after, c),
{
    let offered = table::row_views(data.direct_messages@) + table::row_views(
        data.server_channels@,
    );
    let threads = table::row_views(data.threads@);
    let a = offered.filter(cache::viewable_among(rows, fetched, before));
    let b = threads.filter(cache::viewable_among(rows, fetched, after));
    let all = ready_channels(rows, data, fetched, before, after);
    let i = choose|i: int| 0 <= i < all.len() && all[i] == c;
    if i < a.len() {
        assert(a[i] == c);
        table::lemma_filter_members(offered, cache::viewable_among(rows, fetched, before), c);
    } else {
        assert(b[i - a.len()] == c);
        table::lemma_filter_members(threads, cache::viewable_among(rows, fetched, after), c);
    }
}

} // verus!
