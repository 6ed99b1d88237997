//! What holds of every event that reaches a connection.
use crate::cache::{self, CacheView, Entry, EntryView};
use crate::channel_laws;
use crate::channel_ops;
use crate::channel_store;
use crate::channels::{self, Channel, ChannelView, FieldsChannel, PartialChannelView};
use crate::events::{self, EventV1View};
use crate::gateway::{self, PriorView, StateView};
use crate::people::{
    self, FieldsMember, FieldsRole, FieldsServer, Member, MemberView, Presence, RelationshipStatus, Role,
    RoleView, Server, User, UserView,
};
use crate::table;
use vstd::prelude::*;

verus! {

/// Whether a list of viewable channels shows a channel: those of servers where it is
/// listed, threads where their parent is, and what is in no server always.
pub open spec fn shown_by(viewable: Seq<Seq<char>>, c: ChannelView) -> bool {
    match c {
        ChannelView::TextChannel { id, .. } => viewable.contains(id),
        ChannelView::Forum { id, .. } => viewable.contains(id),
        ChannelView::Thread { parent_channel, .. } => viewable.contains(parent_channel),
        _ => true,
    }
}

/// Whether a channel is one of a server.
pub open spec fn belongs(c: ChannelView, server: Seq<char>) -> bool {
    match c {
        ChannelView::TextChannel { server: s, .. } => s == server,
        ChannelView::Forum { server: s, .. } => s == server,
        ChannelView::Thread { server: s, .. } => s == server,
        _ => false,
    }
}

/// Whether the keys of a cache are apart.
pub open spec fn keys_apart(cache: CacheView) -> bool {
    &&& table::keyed::<Entry<User>>(cache.users)
    &&& table::keyed::<Channel>(cache.channels)
    &&& table::keyed::<Entry<Server>>(cache.servers)
    &&& table::keyed::<Entry<Member>>(cache.members)
    &&& cache::has_key::<User>(cache.users, cache.user_id)
}

proof fn lemma_with_channels(rows: Seq<ChannelView>, list: Seq<ChannelView>, c: ChannelView)
    ensures
        gateway::with_channels(rows, list).contains(c) ==> rows.contains(c) || list.contains(c),
        rows.contains(c) && (forall|k: int|
            0 <= k < list.len() ==> channels::id_of(#[trigger] list[k]) != channels::id_of(c))
            ==> gateway::with_channels(rows, list).contains(c),
        list.contains(c) ==> table::has_id::<Channel>(
            gateway::with_channels(rows, list),
            channels::id_of(c),
        ),
        table::has_id::<Channel>(rows, channels::id_of(c)) ==> table::has_id::<Channel>(
            gateway::with_channels(rows, list),
            channels::id_of(c),
        ),
    decreases list.len(),
{
    if list.len() > 0 {
        let front = list.drop_last();
        let last = list.last();
        let rest = gateway::with_channels(rows, front);
        let all = gateway::with_channels(rows, list);
        let q = table::with_id::<Channel>(channels::id_of(c));
        let p = table::with_id::<Channel>(channels::id_of(last));
        lemma_with_channels(rows, front, c);
        assert(list[list.len() - 1] == last);
        if all.contains(c) {
            let i = choose|i: int| 0 <= i < all.len() && all[i] == c;
            if c != last {
                assert(i < rest.len() && rest[i] == c);
                assert(rest.contains(c));
                if front.contains(c) {
                    let k = choose|k: int| 0 <= k < front.len() && front[k] == c;
                    assert(list[k] == c);
                }
            }
        }
        if rows.contains(c) && (forall|k: int|
            0 <= k < list.len() ==> channels::id_of(#[trigger] list[k]) != channels::id_of(c)) {
            assert forall|k: int| 0 <= k < front.len() implies channels::id_of(#[trigger] front[k])
                != channels::id_of(c) by {
                assert(front[k] == list[k]);
            }
            let i = choose|i: int| 0 <= i < rest.len() && rest[i] == c;
            assert(all[i] == c);
        }
        if table::has_id::<Channel>(rest, channels::id_of(c)) {
            let i = choose|i: int| 0 <= i < rest.len() && q(#[trigger] rest[i]);
            if p(rest[i]) {
                assert(all[i] == last);
            } else {
                assert(all[i] == rest[i]);
            }
            assert(q(all[i]));
        }
        if list.contains(c) {
            let k = choose|k: int| 0 <= k < list.len() && list[k] == c;
            if k < front.len() {
                assert(front[k] == c);
            } else if table::has_id::<Channel>(rest, channels::id_of(last)) {
                let i = choose|i: int| 0 <= i < rest.len() && p(#[trigger] rest[i]);
                assert(q(all[i]));
            } else {
                assert(q(all[rest.len() as int]));
            }
        }
    }
}

/// Whether what a connection knows and receives of a channel fits what can be viewed of
/// its server, and the client was told.
pub open spec fn renewed(
    s: StateView,
    r: (StateView, Seq<EventV1View>),
    id: Seq<char>,
    fetched: Seq<ChannelView>,
    viewable: Seq<Seq<char>>,
    c: ChannelView,
) -> bool {
    let c_id = channels::id_of(c);
    let listed = cache::at_key::<Server>(r.0.cache.servers, id).channels;
    let parent_kind = c is TextChannel || c is Forum;
    &&& r.0.cache.channels.contains(c) && belongs(c, id) ==> shown_by(viewable, c)
    &&& s.cache.channels.contains(c) && belongs(c, id) && !shown_by(viewable, c) ==> {
        &&& !r.0.subscribed.contains(c_id)
        &&& !table::has_id::<Channel>(r.0.cache.channels, c_id)
        &&& r.1.contains(EventV1View::ChannelDelete { id: c_id })
    }
    &&& s.cache.channels.contains(c) && belongs(c, id) && parent_kind && shown_by(viewable, c) ==> {
        &&& r.0.subscribed.contains(c_id)
        &&& r.0.cache.channels.contains(c)
        &&& !r.1.contains(EventV1View::ChannelDelete { id: c_id })
    }
    &&& fetched.contains(c) && parent_kind && listed.contains(c_id) && shown_by(viewable, c)
        && !table::has_id::<Channel>(s.cache.channels, c_id) ==> {
        &&& r.0.subscribed.contains(c_id)
        &&& table::has_id::<Channel>(r.0.cache.channels, c_id)
        &&& r.1.contains(EventV1View::ChannelCreate(c))
    }
    &&& !belongs(c, id) && !listed.contains(c_id) && s.cache.channels.contains(c) ==> {
        &&& r.0.subscribed.contains(c_id) == s.subscribed.contains(c_id)
        &&& r.0.cache.channels.contains(c)
    }
    &&& r.1.contains(EventV1View::ChannelCreate(c)) ==> shown_by(viewable, c) && listed.contains(
        c_id,
    )
}

proof fn lemma_ids_of(list: Seq<ChannelView>, id: Seq<char>)
    ensures
        channel_ops::ids_of(list).contains(id) <==> exists|k: int|
            0 <= k < list.len() && channels::id_of(#[trigger] list[k]) == id,
{
    let ids = channel_ops::ids_of(list);
    if ids.contains(id) {
        let k = choose|k: int| 0 <= k < ids.len() && ids[k] == id;
        assert(channels::id_of(list[k]) == id);
    }
    if exists|k: int| 0 <= k < list.len() && channels::id_of(#[trigger] list[k]) == id {
        let k = choose|k: int| 0 <= k < list.len() && channels::id_of(#[trigger] list[k]) == id;
        assert(ids[k] == id);
    }
}

proof fn lemma_renewed(
    s: StateView,
    id: Seq<char>,
    fetched: Seq<ChannelView>,
    viewable: Seq<Seq<char>>,
    c: ChannelView,
)
    requires
        table::keyed::<Channel>(s.cache.channels),
        cache::has_key::<Server>(s.cache.servers, id),
    ensures
        renewed(s, gateway::recalculated(s, id, fetched, viewable), id, fetched, viewable, c),
        ({
            let after = gateway::recalculated(s, id, fetched, viewable).0;
            &&& after.cache == (CacheView { channels: after.cache.channels, ..s.cache })
            &&& after.private_topic == s.private_topic
        }),
{
    let rows = s.cache.channels;
    let r = gateway::recalculated(s, id, fetched, viewable);
    let shown = gateway::server_channels(rows, fetched, viewable, id, true);
    let hidden = gateway::server_channels(rows, fetched, viewable, id, false);
    let server = cache::at_key::<Server>(s.cache.servers, id);
    let new = gateway::newly_viewable(rows, fetched, viewable, server, id);
    let hidden_ids = channel_ops::ids_of(hidden);
    let left = rows.filter(channel_ops::channel_not_among(hidden_ids));
    let known = channel_ops::ids_of(rows.filter(gateway::in_server(id)));
    let own = rows.filter(gateway::in_server(id));
    let c_id = channels::id_of(c);
    let sees = |d: ChannelView| cache::can_view(rows, fetched, viewable, d) == true;
    let misses = |d: ChannelView| cache::can_view(rows, fetched, viewable, d) == false;
    let gone = gateway::channels_gone(hidden);
    let came = gateway::channels_came(new);
    lemma_with_channels(left, new, c);
    lemma_ids_of(hidden, c_id);
    lemma_ids_of(shown, c_id);
    lemma_ids_of(new, c_id);
    lemma_ids_of(own, c_id);
    table::lemma_filter_members(rows, channel_ops::channel_not_among(hidden_ids), c);
    table::lemma_filter_members(rows, gateway::in_server(id), c);
    table::lemma_filter_members(own, sees, c);
    table::lemma_filter_members(own, misses, c);
    table::lemma_filter_members(fetched, gateway::unknown_in(server, known), c);
    table::lemma_filter_members(
        fetched.filter(gateway::unknown_in(server, known)),
        cache::viewable_among(left, fetched, viewable),
        c,
    );
    assert forall|d: ChannelView| #[trigger] rows.contains(d) && channels::id_of(d) == c_id
        && rows.contains(c) implies d == c by {
        let i = choose|i: int| 0 <= i < rows.len() && rows[i] == d;
        let j = choose|j: int| 0 <= j < rows.len() && rows[j] == c;
        table::lemma_keyed_row::<Channel>(rows, c_id, i);
    }
    // whatever has the id and is hidden is in the cache
    assert forall|k: int| 0 <= k < hidden.len() implies rows.contains(#[trigger] hidden[k])
        && belongs(hidden[k], id) && !cache::can_view(rows, fetched, viewable, hidden[k]) by {
        assert(hidden.contains(hidden[k]));
        table::lemma_filter_members(own, misses, hidden[k]);
        table::lemma_filter_members(rows, gateway::in_server(id), hidden[k]);
    }
    assert forall|k: int| 0 <= k < new.len() implies server.channels.contains(
        channels::id_of(#[trigger] new[k]),
    ) && !known.contains(channels::id_of(new[k])) && cache::can_view(
        left,
        fetched,
        viewable,
        new[k],
    ) by {
        assert(new.contains(new[k]));
        table::lemma_filter_members(
            fetched.filter(gateway::unknown_in(server, known)),
            cache::viewable_among(left, fetched, viewable),
            new[k],
        );
        table::lemma_filter_members(fetched, gateway::unknown_in(server, known), new[k]);
    }
    assert forall|k: int| 0 <= k < shown.len() implies rows.contains(#[trigger] shown[k])
        && belongs(shown[k], id) by {
        assert(shown.contains(shown[k]));
        table::lemma_filter_members(own, sees, shown[k]);
        table::lemma_filter_members(rows, gateway::in_server(id), shown[k]);
    }
    if hidden.contains(c) {
        let k = choose|k: int| 0 <= k < hidden.len() && hidden[k] == c;
        assert(gone[k] == EventV1View::ChannelDelete { id: c_id });
        assert((gone + came)[k] == gone[k]);
        if table::has_id::<Channel>(r.0.cache.channels, c_id) {
            let q = table::with_id::<Channel>(c_id);
            let i = choose|i: int|
                0 <= i < r.0.cache.channels.len() && q(#[trigger] r.0.cache.channels[i]);
            let d = r.0.cache.channels[i];
            assert(r.0.cache.channels.contains(d));
            lemma_with_channels(left, new, d);
            table::lemma_filter_members(rows, channel_ops::channel_not_among(hidden_ids), d);
            if new.contains(d) {
                let j = choose|j: int| 0 <= j < new.len() && new[j] == d;
                assert(own.contains(c));
                let m = choose|m: int| 0 <= m < own.len() && own[m] == c;
                assert(channels::id_of(own[m]) == c_id);
            }
        }
    }
    if shown.contains(c) {
        let k = choose|k: int| 0 <= k < shown.len() && shown[k] == c;
        assert(channels::id_of(shown[k]) == c_id);
    }
    if own.contains(c) {
        let m = choose|m: int| 0 <= m < own.len() && own[m] == c;
        assert(channels::id_of(own[m]) == c_id);
    }
    if new.contains(c) {
        let k = choose|k: int| 0 <= k < new.len() && new[k] == c;
        assert(channels::id_of(new[k]) == c_id);
        assert(came[k] == EventV1View::ChannelCreate(c));
        assert((gone + came)[gone.len() + k] == came[k]);
    }
    if known.contains(c_id) && !table::has_id::<Channel>(rows, c_id) {
        let m = choose|m: int| 0 <= m < own.len() && channels::id_of(#[trigger] own[m]) == c_id;
        assert(own.contains(own[m]));
        table::lemma_filter_members(rows, gateway::in_server(id), own[m]);
        let i = choose|i: int| 0 <= i < rows.len() && rows[i] == own[m];
        assert(table::with_id::<Channel>(c_id)(rows[i]));
    }
    if r.1.contains(EventV1View::ChannelDelete { id: c_id }) {
        let k = choose|k: int|
            0 <= k < r.1.len() && r.1[k] == EventV1View::ChannelDelete { id: c_id };
        if k < gone.len() {
            assert(channels::id_of(hidden[k]) == c_id);
        } else {
            assert(r.1[k] == came[k - gone.len()]);
        }
    }
    if r.1.contains(EventV1View::ChannelCreate(c)) {
        let k = choose|k: int| 0 <= k < r.1.len() && r.1[k] == EventV1View::ChannelCreate(c);
        if k < gone.len() {
            assert(r.1[k] == gone[k]);
        } else {
            assert(r.1[k] == came[k - gone.len()]);
            assert(new[k - gone.len()] == c);
        }
    }
}

/// Whether an event changes what the user may view of a server: the permissions that all
/// its members have, the roles of the user, or the rank or the permissions of a role that
/// the user has, also by its deletion.
pub open spec fn changes_view(s: StateView, event: EventV1View, id: Seq<char>) -> bool {
    let has = |role: Seq<char>|
        exists|i: int|
            0 <= i < s.cache.members.len() && (#[trigger] s.cache.members[i]).key == id
                && s.cache.members[i].row.roles.contains(role);
    match event {
        EventV1View::ServerUpdate { id: x, data, .. } => x == id && data.default_permissions
            is Some,
        EventV1View::ServerMemberUpdate { server, user, data, clear } => server == id && user
            == s.cache.user_id && (data.roles is Some || clear.contains(FieldsMember::Roles)),
        EventV1View::ServerRoleUpdate { id: x, role_id, data, .. } => x == id && (data.rank is Some
            || data.permissions is Some) && has(role_id),
        EventV1View::ServerRoleDelete { id: x, role_id } => x == id && has(role_id),
        _ => false,
    }
}

proof fn lemma_has_role(s: StateView, id: Seq<char>, role: Seq<char>)
    requires
        table::keyed::<Entry<Member>>(s.cache.members),
    ensures
        gateway::has_role(s, id, role) <==> exists|i: int|
            0 <= i < s.cache.members.len() && (#[trigger] s.cache.members[i]).key == id
                && s.cache.members[i].row.roles.contains(role),
{
    let rows = s.cache.members;
    let q = table::with_id::<Entry<Member>>(id);
    if cache::has_key::<Member>(rows, id) {
        table::lemma_first_row_matches(rows, q);
        let f = table::first_row(rows, q);
        assert(rows[f].key == id);
        if exists|i: int|
            0 <= i < rows.len() && (#[trigger] rows[i]).key == id && rows[i].row.roles.contains(
                role,
            ) {
            let i = choose|i: int|
                0 <= i < rows.len() && (#[trigger] rows[i]).key == id
                    && rows[i].row.roles.contains(role);
            table::lemma_keyed_row::<Entry<Member>>(rows, id, i);
        }
    } else if exists|i: int|
        0 <= i < rows.len() && (#[trigger] rows[i]).key == id && rows[i].row.roles.contains(role) {
        let i = choose|i: int|
            0 <= i < rows.len() && (#[trigger] rows[i]).key == id && rows[i].row.roles.contains(
                role,
            );
        assert(q(rows[i]));
    }
}

/// After an event that changes what the user may view of a server, every channel of the
/// server that is left in the cache can be viewed; those that went out of view are no
/// longer received and the client was told that they are gone; those that stayed or came
/// into view are received. The event itself comes last.
pub proof fn law_view_follows_permissions(
    s: StateView,
    event: EventV1View,
    id: Seq<char>,
    fetched: Seq<ChannelView>,
    before: Seq<Seq<char>>,
    after: Seq<Seq<char>>,
    c: ChannelView,
)
    requires
        keys_apart(s.cache),
        cache::has_key::<Server>(s.cache.servers, id),
        changes_view(s, event, id),
    ensures
        ({
            let r = gateway::handled(s, event, fetched, before, after);
            &&& r.1.len() > 0
            &&& r.1.last() == event
            &&& renewed(s, (r.0, r.1.drop_last()), id, fetched, after, c)
        }),
{
    let (mid, told, pending) = gateway::begun(s, event, fetched, before);
    match event {
        EventV1View::ServerRoleUpdate { role_id, .. } => {
            lemma_has_role(s, id, role_id);
        },
        EventV1View::ServerRoleDelete { role_id, .. } => {
            lemma_has_role(s, id, role_id);
        },
        _ => {},
    }
    lemma_changed_has_key(s, event, id);
    lemma_renewed(mid, id, fetched, after, c);
    let more = gateway::recalculated(mid, id, fetched, after).1;
    assert(more.push(event).drop_last() =~= more);
}

proof fn lemma_changed_has_key(s: StateView, event: EventV1View, id: Seq<char>)
    requires
        cache::has_key::<Server>(s.cache.servers, id),
        event is ServerUpdate || event is ServerRoleUpdate || event is ServerRoleDelete
            || event is ServerMemberUpdate,
    ensures
        cache::has_key::<Server>(
            gateway::begun(s, event, Seq::empty(), Seq::empty()).0.cache.servers,
            id,
        ),
{
    let rows = s.cache.servers;
    let after = gateway::begun(s, event, Seq::empty(), Seq::empty()).0.cache.servers;
    let q = table::with_id::<Entry<Server>>(id);
    let i = choose|i: int| 0 <= i < rows.len() && q(#[trigger] rows[i]);
    assert(after.len() == rows.len());
    assert(after[i].key == rows[i].key);
    assert(q(after[i]));
}

/// Other changes of servers, members and roles are told as they are and change nothing of
/// what is known and received of channels.
pub proof fn law_other_changes_move_no_channel(
    s: StateView,
    event: EventV1View,
    fetched: Seq<ChannelView>,
    before: Seq<Seq<char>>,
    after: Seq<Seq<char>>,
)
    requires
        keys_apart(s.cache),
        event is ServerUpdate || event is ServerMemberUpdate || event is ServerRoleUpdate
            || event is ServerRoleDelete,
        forall|id: Seq<char>| !#[trigger] changes_view(s, event, id),
    ensures
        ({
            let r = gateway::handled(s, event, fetched, before, after);
            &&& r.1 == seq![event]
            &&& r.0.cache.channels == s.cache.channels
            &&& r.0.subscribed == s.subscribed
        }),
{
    match event {
        EventV1View::ServerUpdate { id, .. } => {
            assert(!changes_view(s, event, id));
        },
        EventV1View::ServerMemberUpdate { server, .. } => {
            assert(!changes_view(s, event, server));
        },
        EventV1View::ServerRoleUpdate { id, role_id, .. } => {
            assert(!changes_view(s, event, id));
            lemma_has_role(s, id, role_id);
        },
        EventV1View::ServerRoleDelete { id, role_id } => {
            assert(!changes_view(s, event, id));
            lemma_has_role(s, id, role_id);
        },
        _ => {},
    }
}

/// A changed server is known with its new values: those that the event gives, nothing in
/// fields that it unsets, and else the values from before. Other servers stay as they are.
pub proof fn law_server_update_is_known(
    s: StateView,
    event: EventV1View,
    fetched: Seq<ChannelView>,
    before: Seq<Seq<char>>,
    after: Seq<Seq<char>>,
    i: int,
)
    requires
        event is ServerUpdate,
        0 <= i < s.cache.servers.len(),
    ensures
        ({
            let known = gateway::handled(s, event, fetched, before, after).0.cache.servers;
            let data = event->ServerUpdate_data;
            let old_row = s.cache.servers[i].row;
            let row = known[i].row;
            &&& known.len() == s.cache.servers.len()
            &&& known[i].key == s.cache.servers[i].key
            &&& if known[i].key == event->ServerUpdate_id {
                &&& row.id == old_row.id && row.roles == old_row.roles
                &&& data.owner matches Some(v) ==> row.owner == v
                &&& data.owner is None ==> row.owner == old_row.owner
                &&& data.name matches Some(v) ==> row.name == v
                &&& data.name is None ==> row.name == old_row.name
                &&& data.channels matches Some(v) ==> row.channels == v
                &&& data.channels is None ==> row.channels == old_row.channels
                &&& data.default_permissions matches Some(v) ==> row.default_permissions == v
                &&& data.default_permissions is None ==> row.default_permissions
                    == old_row.default_permissions
                &&& data.description is Some ==> row.description == data.description
                &&& data.description is None && event->ServerUpdate_clear.contains(
                    FieldsServer::Description,
                ) ==> row.description is None
                &&& data.description is None && event->ServerUpdate_clear.len() == 0
                    ==> row.description == old_row.description
            } else {
                row == old_row
            }
        }),
{
}

/// A changed role is known with its new values. Other roles and other servers stay as
/// they are.
pub proof fn law_role_update_is_known(
    s: StateView,
    event: EventV1View,
    fetched: Seq<ChannelView>,
    before: Seq<Seq<char>>,
    after: Seq<Seq<char>>,
    i: int,
    j: int,
)
    requires
        event is ServerRoleUpdate,
        0 <= i < s.cache.servers.len(),
        0 <= j < s.cache.servers[i].row.roles.len(),
    ensures
        ({
            let known = gateway::handled(s, event, fetched, before, after).0.cache.servers;
            let data = event->ServerRoleUpdate_data;
            let clear = event->ServerRoleUpdate_clear;
            let old_role = s.cache.servers[i].row.roles[j];
            let role = known[i].row.roles[j];
            &&& known.len() == s.cache.servers.len()
            &&& known[i].key == s.cache.servers[i].key
            &&& known[i].row.channels == s.cache.servers[i].row.channels
            &&& known[i].row.roles.len() == s.cache.servers[i].row.roles.len()
            &&& role.id == old_role.id
            &&& if known[i].key == event->ServerRoleUpdate_id && role.id
                == event->ServerRoleUpdate_role_id {
                &&& data.name matches Some(v) ==> role.name == v
                &&& data.name is None ==> role.name == old_role.name
                &&& data.rank matches Some(v) ==> role.rank == v
                &&& data.rank is None ==> role.rank == old_role.rank
                &&& data.permissions matches Some(v) ==> role.permissions == v
                &&& data.permissions is None ==> role.permissions == old_role.permissions
                &&& data.colour is Some ==> role.colour == data.colour
                &&& data.colour is None && clear.contains(FieldsRole::Colour) ==> role.colour
                    is None
                &&& data.colour is None && clear.len() == 0 ==> role.colour == old_role.colour
            } else {
                role == old_role
            }
        }),
{
}

/// A deleted role is known no longer; the other roles of its server, and those of other
/// servers, are.
pub proof fn law_deleted_role_is_forgotten(
    s: StateView,
    event: EventV1View,
    fetched: Seq<ChannelView>,
    before: Seq<Seq<char>>,
    after: Seq<Seq<char>>,
    i: int,
    role: RoleView,
)
    requires
        event is ServerRoleDelete,
        0 <= i < s.cache.servers.len(),
    ensures
        ({
            let known = gateway::handled(s, event, fetched, before, after).0.cache.servers;
            &&& known.len() == s.cache.servers.len()
            &&& known[i].key == s.cache.servers[i].key
            &&& known[i].row.roles.contains(role) <==> s.cache.servers[i].row.roles.contains(role)
                && !(known[i].key == event->ServerRoleDelete_id && role.id
                == event->ServerRoleDelete_role_id)
        }),
{
    table::lemma_filter_members(
        s.cache.servers[i].row.roles,
        table::without_id::<Role>(event->ServerRoleDelete_role_id),
        role,
    );
}

/// The user's own membership is known with its new values; what others are in the server
/// is not kept.
pub proof fn law_own_membership_is_known(
    s: StateView,
    event: EventV1View,
    fetched: Seq<ChannelView>,
    before: Seq<Seq<char>>,
    after: Seq<Seq<char>>,
    i: int,
)
    requires
        event is ServerMemberUpdate,
        0 <= i < s.cache.members.len(),
    ensures
        ({
            let known = gateway::handled(s, event, fetched, before, after).0.cache.members;
            let data = event->ServerMemberUpdate_data;
            let clear = event->ServerMemberUpdate_clear;
            let old_row = s.cache.members[i].row;
            let row = known[i].row;
            &&& known.len() == s.cache.members.len()
            &&& known[i].key == s.cache.members[i].key
            &&& if event->ServerMemberUpdate_user == s.cache.user_id && known[i].key
                == event->ServerMemberUpdate_server {
                &&& row.user == old_row.user && row.server == old_row.server
                &&& data.roles matches Some(v) ==> row.roles == v
                &&& data.roles is None && clear.contains(FieldsMember::Roles) ==> row.roles.len()
                    == 0
                &&& data.roles is None && !clear.contains(FieldsMember::Roles) ==> row.roles
                    == old_row.roles
                &&& data.nickname is Some ==> row.nickname == data.nickname
                &&& data.nickname is None && clear.contains(FieldsMember::Nickname)
                    ==> row.nickname is None
                &&& data.nickname is None && !clear.contains(FieldsMember::Nickname)
                    ==> row.nickname == old_row.nickname
            } else {
                row == old_row
            }
        }),
{
    lemma_member_without(s.cache.members[i].row, event->ServerMemberUpdate_clear);
}

proof fn lemma_member_without(member: MemberView, fields: Seq<FieldsMember>)
    ensures
        ({
            let after = people::member_without(member, fields);
            &&& after.server == member.server && after.user == member.user
            &&& after.roles == if fields.contains(FieldsMember::Roles) {
                Seq::empty()
            } else {
                member.roles
            }
            &&& after.nickname == if fields.contains(FieldsMember::Nickname) {
                None
            } else {
                member.nickname
            }
        }),
    decreases fields.len(),
{
    if fields.len() > 0 {
        let rest = fields.drop_last();
        let last = fields.last();
        lemma_member_without(member, rest);
        assert(fields[fields.len() - 1] == last);
        assert forall|f: FieldsMember| fields.contains(f) == (rest.contains(f) || f == last) by {
            if fields.contains(f) {
                let k = choose|k: int| 0 <= k < fields.len() && fields[k] == f;
                if k < rest.len() {
                    assert(rest[k] == f);
                }
            }
            if rest.contains(f) {
                let k = choose|k: int| 0 <= k < rest.len() && rest[k] == f;
                assert(fields[k] == f);
            }
        }
    }
}

/// A channel that came to be is known and received, and the client is told of it; of
/// threads that holds where the parent can be viewed.
pub proof fn law_created_channel_is_received(
    s: StateView,
    c: ChannelView,
    fetched: Seq<ChannelView>,
    before: Seq<Seq<char>>,
    after: Seq<Seq<char>>,
)
    requires
        keys_apart(s.cache),
        c is Thread ==> cache::can_view(s.cache.channels, fetched, before, c),
    ensures
        ({
            let event = EventV1View::ChannelCreate(c);
            let r = gateway::handled(s, event, fetched, before, after);
            &&& r.1 == seq![event]
            &&& r.0.subscribed == s.subscribed.insert(channels::id_of(c))
            &&& r.0.cache.channels.contains(c)
            &&& table::has_id::<Channel>(r.0.cache.channels, channels::id_of(c))
            &&& table::row_of::<Channel>(r.0.cache.channels, channels::id_of(c)) == c
        }),
{
    table::lemma_upserted::<Channel>(s.cache.channels, c);
    let rows = gateway::handled(s, EventV1View::ChannelCreate(c), fetched, before, after).0.cache.channels;
    let q = table::with_id::<Channel>(channels::id_of(c));
    table::lemma_first_row_matches(rows, q);
    assert(rows[table::first_row(rows, q)] == c);
}

/// A deleted channel is known and received no longer, and the client is told. Nothing else
/// changes.
pub proof fn law_deleted_channel_is_forgotten(
    s: StateView,
    id: Seq<char>,
    fetched: Seq<ChannelView>,
    before: Seq<Seq<char>>,
    after: Seq<Seq<char>>,
    c: ChannelView,
)
    ensures
        ({
            let event = EventV1View::ChannelDelete { id };
            let r = gateway::handled(s, event, fetched, before, after);
            &&& r.1 == seq![event]
            &&& r.0.subscribed == s.subscribed.remove(id)
            &&& r.0.cache.channels.contains(c) <==> s.cache.channels.contains(c)
                && channels::id_of(c) != id
            &&& r.0.cache == (CacheView { channels: r.0.cache.channels, ..s.cache })
        }),
{
    table::lemma_filter_members(s.cache.channels, table::without_id::<Channel>(id), c);
}

/// A changed channel that came into view is received and told of as a new one; one that
/// went out of view is received no longer and told of as gone. Both are told last.
pub proof fn law_channel_comes_into_and_out_of_view(
    s: StateView,
    id: Seq<char>,
    data: PartialChannelView,
    clear: Seq<FieldsChannel>,
    fetched: Seq<ChannelView>,
    before: Seq<Seq<char>>,
    after: Seq<Seq<char>>,
    c: ChannelView,
)
    requires
        keys_apart(s.cache),
        s.cache.channels.contains(c),
        channels::id_of(c) == id,
        c is TextChannel || c is Forum,
    ensures
        ({
            let event = EventV1View::ChannelUpdate { id, data, clear };
            let r = gateway::handled(s, event, fetched, before, after);
            let changed = table::row_of::<Channel>(r.0.cache.channels, id);
            &&& table::has_id::<Channel>(r.0.cache.channels, id)
            &&& changed == channel_store::updated(data, clear)(c)
            &&& before.contains(id) && after.contains(id) ==> r.1.len() > 0 && r.1.last() == event
            &&& !before.contains(id) && after.contains(id) ==> {
                &&& r.1.len() > 0
                &&& r.1.last() == EventV1View::ChannelCreate(changed)
                &&& r.0.subscribed.contains(id)
            }
            &&& before.contains(id) && !after.contains(id) ==> {
                &&& r.1.len() > 0
                &&& r.1.last() == EventV1View::ChannelDelete { id }
                &&& !r.0.subscribed.contains(id)
            }
            &&& !before.contains(id) && !after.contains(id) ==> r.1.len() == 0 && r.0.subscribed
                == s.subscribed
        }),
{
    let rows = s.cache.channels;
    let f = channel_store::updated(data, clear);
    let i = choose|i: int| 0 <= i < rows.len() && rows[i] == c;
    table::lemma_keyed_row::<Channel>(rows, id, i);
    assert forall|v: ChannelView| #[trigger] channels::id_of(f(v)) == channels::id_of(v) by {
        channel_store::lemma_update_keeps_id(v, data, clear);
    }
    table::lemma_row_of_mapped::<Channel>(rows, id, f);
    channel_laws::lemma_update_keeps_kind(c, data, clear);
}

/// The threads of a changed channel come and go with it: one that came into view is
/// received and told of as a new one, one that went out of view is received no longer and
/// told of as gone.
pub proof fn law_threads_come_and_go_with_their_parent(
    s: StateView,
    id: Seq<char>,
    data: PartialChannelView,
    clear: Seq<FieldsChannel>,
    fetched: Seq<ChannelView>,
    before: Seq<Seq<char>>,
    after: Seq<Seq<char>>,
    c: ChannelView,
    thread: ChannelView,
)
    requires
        keys_apart(s.cache),
        s.cache.channels.contains(c),
        channels::id_of(c) == id,
        c is TextChannel || c is Forum,
        s.cache.channels.contains(thread),
        thread is Thread,
        thread->Thread_parent_channel == id,
        channels::id_of(thread) != id,
    ensures
        ({
            let event = EventV1View::ChannelUpdate { id, data, clear };
            let r = gateway::handled(s, event, fetched, before, after);
            &&& !before.contains(id) && after.contains(id) ==> {
                &&& r.0.subscribed.contains(channels::id_of(thread))
                &&& r.1.contains(EventV1View::ChannelCreate(thread))
            }
            &&& before.contains(id) && !after.contains(id) ==> {
                &&& !r.0.subscribed.contains(channels::id_of(thread))
                &&& r.1.contains(EventV1View::ChannelDelete { id: channels::id_of(thread) })
            }
            &&& before.contains(id) == after.contains(id) ==> r.0.subscribed.contains(
                channels::id_of(thread),
            ) == s.subscribed.contains(channels::id_of(thread))
        }),
{
    let rows = s.cache.channels;
    let t = channels::id_of(thread);
    let f = channel_store::updated(data, clear);
    let i = choose|i: int| 0 <= i < rows.len() && rows[i] == c;
    let j = choose|j: int| 0 <= j < rows.len() && rows[j] == thread;
    table::lemma_keyed_row::<Channel>(rows, id, i);
    table::lemma_keyed_row::<Channel>(rows, t, j);
    assert forall|v: ChannelView| #[trigger] channels::id_of(f(v)) == channels::id_of(v) by {
        channel_store::lemma_update_keeps_id(v, data, clear);
    }
    table::lemma_row_of_mapped::<Channel>(rows, id, f);
    channel_laws::lemma_update_keeps_kind(c, data, clear);
    let now = table::mapped(rows, table::with_id::<Channel>(id), f);
    assert(now[j] == thread);
    table::lemma_keyed_row::<Channel>(now, t, j);
    let own = rows.filter(channel_store::thread_of(id));
    table::lemma_filter_members(rows, channel_store::thread_of(id), thread);
    let k = choose|k: int| 0 <= k < own.len() && own[k] == thread;
    let threads = gateway::thread_states(rows, fetched, before, id);
    assert(threads[k].id == t);
    table::lemma_keyed_filter::<Channel>(rows, channel_store::thread_of(id));
    assert forall|a: int, b: int| 0 <= a < b < threads.len() implies #[trigger] threads[a].id
        != #[trigger] threads[b].id by {
        assert(channels::id_of(own[a]) != channels::id_of(own[b])) by {
            if channels::id_of(own[a]) == channels::id_of(own[b]) {
                table::lemma_keyed_row::<Channel>(own, channels::id_of(own[a]), b);
            }
        }
    }
    assert(threads[k].seen == before.contains(id));
    assert(gateway::in_view(now, fetched, after, t) == after.contains(id));
    lemma_thread_told(s.subscribed, now, fetched, after, threads, k);
    let more = gateway::thread_events(now, fetched, after, threads);
    let r = gateway::handled(
        s,
        EventV1View::ChannelUpdate { id, data, clear },
        fetched,
        before,
        after,
    );
    assert forall|e: EventV1View| more.contains(e) && before.contains(id) != after.contains(id)
        implies r.1.contains(e) by {
        let m = choose|m: int| 0 <= m < more.len() && more[m] == e;
        assert(r.1[m] == e);
    }
}

proof fn lemma_thread_told(
    topics: Set<Seq<char>>,
    rows: Seq<ChannelView>,
    fetched: Seq<ChannelView>,
    viewable: Seq<Seq<char>>,
    threads: Seq<PriorView>,
    k: int,
)
    requires
        0 <= k < threads.len(),
        forall|a: int, b: int|
            0 <= a < b < threads.len() ==> #[trigger] threads[a].id != #[trigger] threads[b].id,
    ensures
        ({
            let id = threads[k].id;
            let sees = gateway::in_view(rows, fetched, viewable, id);
            let now = gateway::thread_topics(topics, rows, fetched, viewable, threads);
            let told = gateway::thread_events(rows, fetched, viewable, threads);
            &&& !threads[k].seen && sees ==> now.contains(id) && told.contains(
                EventV1View::ChannelCreate(table::row_of::<Channel>(rows, id)),
            )
            &&& threads[k].seen && !sees ==> !now.contains(id) && told.contains(
                EventV1View::ChannelDelete { id },
            )
            &&& threads[k].seen == sees ==> now.contains(id) == topics.contains(id)
        }),
    decreases threads.len(),
{
    let front = threads.drop_last();
    let last = threads.last();
    let id = threads[k].id;
    let told = gateway::thread_events(rows, fetched, viewable, threads);
    let before = gateway::thread_events(rows, fetched, viewable, front);
    if k < front.len() {
        assert(front[k] == threads[k]);
        assert forall|a: int, b: int| 0 <= a < b < front.len() implies #[trigger] front[a].id
            != #[trigger] front[b].id by {
            assert(front[a] == threads[a] && front[b] == threads[b]);
        }
        lemma_thread_told(topics, rows, fetched, viewable, front, k);
        assert(threads[k].id != threads[threads.len() - 1].id);
        assert forall|e: EventV1View| before.contains(e) implies told.contains(e) by {
            let m = choose|m: int| 0 <= m < before.len() && before[m] == e;
            assert(told[m] == e);
        }
    } else {
        assert(threads[k] == last);
        lemma_topics_elsewhere(topics, rows, fetched, viewable, front, id);
        if gateway::in_view(rows, fetched, viewable, id) != last.seen {
            assert(told.len() == before.len() + 1);
            assert(told[before.len() as int] == told.last());
        }
    }
}

proof fn lemma_topics_elsewhere(
    topics: Set<Seq<char>>,
    rows: Seq<ChannelView>,
    fetched: Seq<ChannelView>,
    viewable: Seq<Seq<char>>,
    threads: Seq<PriorView>,
    id: Seq<char>,
)
    requires
        forall|a: int| 0 <= a < threads.len() ==> #[trigger] threads[a].id != id,
    ensures
        gateway::thread_topics(topics, rows, fetched, viewable, threads).contains(id)
            == topics.contains(id),
    decreases threads.len(),
{
    if threads.len() > 0 {
        let front = threads.drop_last();
        assert forall|a: int| 0 <= a < front.len() implies #[trigger] front[a].id != id by {
            assert(front[a] == threads[a]);
        }
        assert(threads[threads.len() - 1].id != id);
        lemma_topics_elsewhere(topics, rows, fetched, viewable, front, id);
    }
}

/// Where a user joins a group, their events are received from then on. Where the own user
/// leaves it, the group is received no longer; where another leaves, their events are,
/// unless they may still be received. The client is told either way.
pub proof fn law_groups_move_topics(
    s: StateView,
    id: Seq<char>,
    user: Seq<char>,
    fetched: Seq<ChannelView>,
    before: Seq<Seq<char>>,
    after: Seq<Seq<char>>,
)
    ensures
        ({
            let event = EventV1View::ChannelGroupJoin { id, user };
            let r = gateway::handled(s, event, fetched, before, after);
            r.1 == seq![event] && r.0.subscribed == s.subscribed.insert(user) && r.0.cache
                == s.cache
        }),
        ({
            let event = EventV1View::ChannelGroupLeave { id, user };
            let r = gateway::handled(s, event, fetched, before, after);
            &&& r.1 == seq![event]
            &&& r.0.cache == s.cache
            &&& user == s.cache.user_id ==> r.0.subscribed == s.subscribed.remove(id)
            &&& user != s.cache.user_id && cache::can_subscribe(s.cache, user)
                ==> r.0.subscribed == s.subscribed
            &&& user != s.cache.user_id && !cache::can_subscribe(s.cache, user)
                ==> r.0.subscribed == s.subscribed.remove(user)
        }),
{
}

/// A user may receive what happens to another where they are friends, where either asked
/// to be, or where the two share a group or direct messages; and always what happens to
/// themself. Blocking alone does not let them.
pub proof fn law_who_may_be_received(cache: CacheView, other: Seq<char>, i: int)
    requires
        keys_apart(cache),
        0 <= i < cache.users.len(),
        cache.users[i].key == cache.user_id,
    ensures
        ({
            let own = cache.users[i].row;
            let status = people::relationship(own, other);
            let shared = exists|k: int|
                0 <= k < cache.channels.len() && match #[trigger] cache.channels[k] {
                    ChannelView::Group { recipients, .. } => recipients.contains(other),
                    ChannelView::DirectMessage { recipients, .. } => recipients.contains(other),
                    _ => false,
                };
            cache::can_subscribe(cache, other) <==> own.id == other || status
                == RelationshipStatus::Friend || status == RelationshipStatus::Incoming || status
                == RelationshipStatus::Outgoing || status == RelationshipStatus::User || shared
        }),
{
    table::lemma_keyed_row::<Entry<User>>(cache.users, cache.user_id, i);
    let q = cache::talks_with(other);
    if table::any_row(cache.channels, q) {
        let k = choose|k: int| 0 <= k < cache.channels.len() && q(#[trigger] cache.channels[k]);
        assert(channels::recipients_of(cache.channels[k]) is Some);
    }
    if exists|k: int|
        0 <= k < cache.channels.len() && match #[trigger] cache.channels[k] {
            ChannelView::Group { recipients, .. } => recipients.contains(other),
            ChannelView::DirectMessage { recipients, .. } => recipients.contains(other),
            _ => false,
        } {
        let k = choose|k: int|
            0 <= k < cache.channels.len() && match #[trigger] cache.channels[k] {
                ChannelView::Group { recipients, .. } => recipients.contains(other),
                ChannelView::DirectMessage { recipients, .. } => recipients.contains(other),
                _ => false,
            };
        assert(q(cache.channels[k]));
    }
}

/// Where a server is deleted, or the own user leaves it, nothing of it is known or
/// received afterwards, and the client is told. Where another user leaves, nothing changes.
pub proof fn law_left_server_is_forgotten(
    s: StateView,
    event: EventV1View,
    id: Seq<char>,
    fetched: Seq<ChannelView>,
    before: Seq<Seq<char>>,
    after: Seq<Seq<char>>,
    i: int,
    channel: Seq<char>,
)
    requires
        keys_apart(s.cache),
        event is ServerDelete && event->ServerDelete_id == id || event is ServerMemberLeave
            && event->ServerMemberLeave_id == id,
        0 <= i < s.cache.servers.len(),
        s.cache.servers[i].key == id,
        s.cache.servers[i].row.channels.contains(channel),
    ensures
        ({
            let r = gateway::handled(s, event, fetched, before, after);
            &&& r.1 == seq![event]
            &&& if event is ServerDelete || event->ServerMemberLeave_user == s.cache.user_id {
                &&& !r.0.subscribed.contains(id)
                &&& !r.0.subscribed.contains(channel)
                &&& !table::has_id::<Channel>(r.0.cache.channels, channel)
                &&& !cache::has_key::<Server>(r.0.cache.servers, id)
                &&& !cache::has_key::<Member>(r.0.cache.members, id)
            } else {
                r.0 == s
            }
        }),
{
    table::lemma_keyed_row::<Entry<Server>>(s.cache.servers, id, i);
    gateway::law_nothing_is_left_of_a_server(s, id, channel);
}

/// What a left server had no part in stays known and received.
pub proof fn law_leaving_keeps_the_rest(
    s: StateView,
    id: Seq<char>,
    fetched: Seq<ChannelView>,
    before: Seq<Seq<char>>,
    after: Seq<Seq<char>>,
    i: int,
    c: ChannelView,
    topic: Seq<char>,
)
    requires
        keys_apart(s.cache),
        0 <= i < s.cache.servers.len(),
        s.cache.servers[i].key == id,
    ensures
        ({
            let gone = s.cache.servers[i].row.channels;
            let r = gateway::handled(
                s,
                EventV1View::ServerDelete { id },
                fetched,
                before,
                after,
            );
            &&& r.0.cache.channels.contains(c) <==> s.cache.channels.contains(c)
                && !gone.contains(channels::id_of(c))
            &&& topic != id && !gone.contains(topic) ==> r.0.subscribed.contains(topic)
                == s.subscribed.contains(topic)
            &&& r.0.cache.users == s.cache.users
        }),
{
    table::lemma_keyed_row::<Entry<Server>>(s.cache.servers, id, i);
    table::lemma_filter_members(
        s.cache.channels,
        channel_ops::channel_not_among(s.cache.servers[i].row.channels),
        c,
    );
}

/// The user is a member, without roles, of a server that they came into. The server is
/// received, by bots also what happens to its members; its channels are in the cache only
/// where they can be viewed.
pub proof fn law_joined_server_is_received(
    s: StateView,
    event: EventV1View,
    fetched: Seq<ChannelView>,
    before: Seq<Seq<char>>,
    after: Seq<Seq<char>>,
    c: ChannelView,
)
    requires
        keys_apart(s.cache),
        event is ServerCreate,
        table::keyed::<Channel>(event->ServerCreate_channels),
        forall|k: int|
            0 <= k < event->ServerCreate_channels.len() ==> channels::id_of(
                #[trigger] event->ServerCreate_channels[k],
            ) != event->ServerCreate_id && channels::id_of(event->ServerCreate_channels[k])
                != events::member_topic(event->ServerCreate_id),
        forall|k: int|
            0 <= k < s.cache.channels.len() ==> channels::id_of(#[trigger] s.cache.channels[k])
                != event->ServerCreate_id && channels::id_of(s.cache.channels[k])
                != events::member_topic(event->ServerCreate_id),
    ensures
        ({
            let id = event->ServerCreate_id;
            let r = gateway::handled(s, event, fetched, before, after);
            &&& r.1.len() > 0 && r.1.last() == event
            &&& r.0.subscribed.contains(id)
            &&& s.cache.is_bot ==> r.0.subscribed.contains(events::member_topic(id))
            &&& cache::has_key::<Server>(r.0.cache.servers, id)
            &&& cache::at_key::<Server>(r.0.cache.servers, id) == event->ServerCreate_server
            &&& cache::has_key::<Member>(r.0.cache.members, id)
            &&& cache::at_key::<Member>(r.0.cache.members, id).user == s.cache.user_id
            &&& cache::at_key::<Member>(r.0.cache.members, id).roles.len() == 0
            &&& r.0.cache.channels.contains(c) && belongs(c, id) ==> shown_by(after, c)
            &&& event->ServerCreate_channels.contains(c) && belongs(c, id) && (c is TextChannel
                || c is Forum) && shown_by(after, c) ==> r.0.cache.channels.contains(c)
                && r.0.subscribed.contains(channels::id_of(c))
        }),
{
    let id = event->ServerCreate_id;
    let list = event->ServerCreate_channels;
    let mid = gateway::server_created(s, id, event->ServerCreate_server, list);
    table::lemma_upserted::<Entry<Server>>(
        s.cache.servers,
        EntryView { key: id, row: event->ServerCreate_server },
    );
    table::lemma_upserted::<Entry<Member>>(
        s.cache.members,
        EntryView { key: id, row: cache::at_key::<Member>(mid.cache.members, id) },
    );
    lemma_keyed_with_channels(s.cache.channels, list);
    let member = MemberView {
        server: event->ServerCreate_server.id,
        user: s.cache.user_id,
        nickname: None,
        roles: Seq::empty(),
        other: Seq::empty(),
    };
    table::lemma_upserted::<Entry<Member>>(s.cache.members, EntryView { key: id, row: member });
    lemma_renewed(mid, id, fetched, after, c);
    let rows = mid.cache.channels;
    let hidden = gateway::server_channels(rows, fetched, after, id, false);
    assert forall|t: Seq<char>| (t == id || t == events::member_topic(id)) implies
        !#[trigger] channel_ops::ids_of(hidden).contains(t) by {
        lemma_ids_of(hidden, t);
        assert forall|k: int| 0 <= k < hidden.len() implies channels::id_of(#[trigger] hidden[k])
            != t by {
            let d = hidden[k];
            let misses = |d: ChannelView| cache::can_view(rows, fetched, after, d) == false;
            assert(hidden.contains(d));
            table::lemma_filter_members(rows.filter(gateway::in_server(id)), misses, d);
            table::lemma_filter_members(rows, gateway::in_server(id), d);
            lemma_with_channels(s.cache.channels, list, d);
            if s.cache.channels.contains(d) {
                let m = choose|m: int|
                    0 <= m < s.cache.channels.len() && s.cache.channels[m] == d;
                assert(channels::id_of(s.cache.channels[m]) != t);
            } else {
                let m = choose|m: int| 0 <= m < list.len() && list[m] == d;
                assert(channels::id_of(list[m]) != t);
            }
        }
    }
    if list.contains(c) {
        lemma_listed_channel_is_there(s.cache.channels, list, c);
    }
}

proof fn lemma_listed_channel_is_there(
    rows: Seq<ChannelView>,
    list: Seq<ChannelView>,
    c: ChannelView,
)
    requires
        table::keyed::<Channel>(rows),
        table::keyed::<Channel>(list),
        list.contains(c),
    ensures
        gateway::with_channels(rows, list).contains(c),
    decreases list.len(),
{
    let front = list.drop_last();
    let last = list.last();
    let rest = gateway::with_channels(rows, front);
    let all = gateway::with_channels(rows, list);
    let k = choose|k: int| 0 <= k < list.len() && list[k] == c;
    if k < front.len() {
        assert(front[k] == c);
        assert(table::keyed::<Channel>(front)) by {
            assert forall|a: int, b: int| 0 <= a < b < front.len() implies channels::id_of(
                #[trigger] front[a],
            ) != channels::id_of(#[trigger] front[b]) by {
                table::lemma_keyed_row::<Channel>(list, channels::id_of(list[b]), b);
                assert(list[a] == front[a]);
            }
        }
        lemma_listed_channel_is_there(rows, front, c);
        let i = choose|i: int| 0 <= i < rest.len() && rest[i] == c;
        table::lemma_keyed_row::<Channel>(list, channels::id_of(c), k);
        assert(channels::id_of(list[list.len() - 1]) != channels::id_of(c));
        assert(all[i] == c);
    } else {
        lemma_keyed_with_channels(rows, front);
        table::lemma_upserted::<Channel>(rest, last);
        let q = table::with_id::<Channel>(channels::id_of(c));
        table::lemma_first_row_matches(all, q);
        assert(all[table::first_row(all, q)] == c);
    }
}

proof fn lemma_keyed_with_channels(rows: Seq<ChannelView>, list: Seq<ChannelView>)
    requires
        table::keyed::<Channel>(rows),
    ensures
        table::keyed::<Channel>(gateway::with_channels(rows, list)),
    decreases list.len(),
{
    if list.len() > 0 {
        lemma_keyed_with_channels(rows, list.drop_last());
        table::lemma_upserted::<Channel>(
            gateway::with_channels(rows, list.drop_last()),
            list.last(),
        );
    }
}

/// An update of a user that was not seen before reaches the client, without the id that
/// tells copies apart; it is remembered, and nothing else changes. One without such an id
/// always does.
pub proof fn law_user_update_is_forwarded(
    s: StateView,
    event: EventV1View,
    fetched: Seq<ChannelView>,
    before: Seq<Seq<char>>,
    after: Seq<Seq<char>>,
)
    requires
        event is UserUpdate,
        s.cache.capacity > 0,
        event->UserUpdate_event_id matches Some(id) ==> !s.cache.seen.contains(id),
    ensures
        ({
            let r = gateway::handled(s, event, fetched, before, after);
            &&& r.1.len() == 1
            &&& r.1[0] is UserUpdate
            &&& r.1[0]->UserUpdate_id == event->UserUpdate_id
            &&& r.1[0]->UserUpdate_data == event->UserUpdate_data
            &&& r.1[0]->UserUpdate_clear == event->UserUpdate_clear
            &&& r.1[0]->UserUpdate_event_id is None
            &&& event->UserUpdate_event_id matches Some(id) ==> r.0.cache.seen.contains(id)
            &&& r.0 == (StateView { cache: CacheView { seen: r.0.cache.seen, ..s.cache }, ..s })
        }),
{
    if let Some(id) = event->UserUpdate_event_id {
        let seen = cache::seen_with(s.cache.seen, s.cache.capacity, id);
        assert(seen[seen.len() - 1] == id);
    }
}

/// The last events, as many as are remembered, are remembered: an older one is forgotten
/// only where there is no room, and then the oldest.
pub proof fn law_last_events_are_remembered(
    seen: Seq<Seq<char>>,
    capacity: usize,
    id: Seq<char>,
    i: int,
)
    requires
        0 < capacity,
        seen.len() <= capacity,
        0 <= i < seen.len(),
        seen.len() < capacity || i > 0,
    ensures
        cache::seen_with(seen, capacity, id).contains(seen[i]),
        cache::seen_with(seen, capacity, id).contains(id),
        cache::seen_with(seen, capacity, id).len() <= capacity,
{
    let now = cache::seen_with(seen, capacity, id);
    assert(now[now.len() - 1] == id);
    if seen.len() < capacity {
        assert(now[i] == seen[i]);
    } else {
        assert(now[i - 1] == seen[i]);
    }
}

/// After a change of the relationship to a user, that user is known as told, their events
/// are received exactly where they may be, and the client is told.
pub proof fn law_relationship_decides_what_is_received(
    s: StateView,
    id: Seq<char>,
    user: UserView,
    fetched: Seq<ChannelView>,
    before: Seq<Seq<char>>,
    after: Seq<Seq<char>>,
)
    requires
        keys_apart(s.cache),
    ensures
        ({
            let event = EventV1View::UserRelationship { id, user };
            let r = gateway::handled(s, event, fetched, before, after);
            &&& r.1 == seq![event]
            &&& cache::has_key::<User>(r.0.cache.users, id)
            &&& cache::at_key::<User>(r.0.cache.users, id) == user
            &&& r.0.subscribed.contains(id) <==> cache::can_subscribe(r.0.cache, id)
            &&& forall|t: Seq<char>|
                t != id ==> #[trigger] r.0.subscribed.contains(t) == s.subscribed.contains(t)
        }),
{
    table::lemma_upserted::<Entry<User>>(s.cache.users, EntryView { key: id, row: user });
}

/// A message reaches the client as it is, but for how the receiver relates to its author,
/// which is told from what is known of the receiver.
pub proof fn law_message_tells_the_relationship(
    s: StateView,
    event: EventV1View,
    fetched: Seq<ChannelView>,
    before: Seq<Seq<char>>,
    after: Seq<Seq<char>>,
    i: int,
)
    requires
        event is Message,
        keys_apart(s.cache),
        0 <= i < s.cache.users.len(),
        s.cache.users[i].key == s.cache.user_id,
    ensures
        ({
            let r = gateway::handled(s, event, fetched, before, after);
            &&& r.0 == s
            &&& r.1.len() == 1
            &&& r.1[0] is Message
            &&& r.1[0]->Message_author == event->Message_author
            &&& r.1[0]->Message_payload == event->Message_payload
            &&& r.1[0]->Message_relationship is Some <==> event->Message_relationship is Some
            &&& event->Message_relationship is Some ==> r.1[0]->Message_relationship == Some(
                people::relationship(s.cache.users[i].row, event->Message_author),
            )
        }),
{
    table::lemma_keyed_row::<Entry<User>>(s.cache.users, s.cache.user_id, i);
}

/// Every other event reaches the client as it is and changes nothing.
pub proof fn law_other_events_pass(
    s: StateView,
    event: EventV1View,
    fetched: Seq<ChannelView>,
    before: Seq<Seq<char>>,
    after: Seq<Seq<char>>,
)
    requires
        event is ChannelAck || event is ChannelFollowCreate || event is ChannelFollowDelete
            || event is ChannelFollowersUpdate || event is ServerMemberJoin
            || event is E2EEDeviceCreate || event is E2EEDeviceDelete || event is Other,
    ensures
        gateway::handled(s, event, fetched, before, after) == (s, seq![event]),
{
}

/// A change of presence is told to every server of the user and on the user's own topic,
/// as whether they are online.
pub proof fn law_presence_is_told_everywhere(
    cache: CacheView,
    online: bool,
    event_id: Seq<char>,
    i: int,
)
    requires
        0 <= i < cache.servers.len(),
    ensures
        ({
            let told = gateway::presence_told(cache, online, event_id);
            &&& told.len() == cache.servers.len() + 1
            &&& exists|k: int|
                0 <= k < told.len() && (#[trigger] told[k]).topic == cache.servers[i].key
            &&& exists|k: int| 0 <= k < told.len() && (#[trigger] told[k]).topic == cache.user_id
            &&& forall|k: int|
                0 <= k < told.len() ==> {
                    &&& (#[trigger] told[k]).event is UserUpdate
                    &&& told[k].event->UserUpdate_id == cache.user_id
                    &&& told[k].event->UserUpdate_data.online == Some(online)
                    &&& told[k].event->UserUpdate_event_id == Some(event_id)
                }
        }),
{
    let told = gateway::presence_told(cache, online, event_id);
    assert(told[i].topic == cache.servers[i].key);
    assert(told[told.len() - 1].topic == cache.user_id);
}

/// Changes of presence are told of everyone but invisible users.
pub proof fn law_whose_presence_is_told(cache: CacheView, i: int)
    requires
        table::keyed::<Entry<User>>(cache.users),
        0 <= i < cache.users.len(),
        cache.users[i].key == cache.user_id,
    ensures
        gateway::presence_shows(cache) <==> cache.users[i].row.presence != Some(
            Presence::Invisible,
        ),
{
    table::lemma_keyed_row::<Entry<User>>(cache.users, cache.user_id, i);
}

/// A changed group, direct message channel or channel of saved messages is known with its
/// new values, and the client is told of the change.
pub proof fn law_update_of_what_is_always_seen(
    s: StateView,
    id: Seq<char>,
    data: PartialChannelView,
    clear: Seq<FieldsChannel>,
    fetched: Seq<ChannelView>,
    before: Seq<Seq<char>>,
    after: Seq<Seq<char>>,
    c: ChannelView,
)
    requires
        keys_apart(s.cache),
        s.cache.channels.contains(c),
        channels::id_of(c) == id,
        c is Group || c is DirectMessage || c is SavedMessages,
    ensures
        ({
            let event = EventV1View::ChannelUpdate { id, data, clear };
            let r = gateway::handled(s, event, fetched, before, after);
            &&& table::has_id::<Channel>(r.0.cache.channels, id)
            &&& table::row_of::<Channel>(r.0.cache.channels, id) == channel_store::updated(
                data,
                clear,
            )(c)
            &&& r.1.len() > 0
            &&& r.1.last() == event
        }),
{
    let rows = s.cache.channels;
    let f = channel_store::updated(data, clear);
    let i = choose|i: int| 0 <= i < rows.len() && rows[i] == c;
    table::lemma_keyed_row::<Channel>(rows, id, i);
    assert forall|v: ChannelView| #[trigger] channels::id_of(f(v)) == channels::id_of(v) by {
        channel_store::lemma_update_keeps_id(v, data, clear);
    }
    table::lemma_row_of_mapped::<Channel>(rows, id, f);
    channel_laws::lemma_update_keeps_kind(c, data, clear);
}

/// A changed channel that the cache does not have is taken as it was fetched, and the client
/// is told of it as a new one where it can be viewed, and else not at all.
pub proof fn law_unknown_channel_is_taken_as_fetched(
    s: StateView,
    id: Seq<char>,
    data: PartialChannelView,
    clear: Seq<FieldsChannel>,
    fetched: Seq<ChannelView>,
    before: Seq<Seq<char>>,
    after: Seq<Seq<char>>,
    j: int,
)
    requires
        keys_apart(s.cache),
        forall|k: int|
            0 <= k < s.cache.channels.len() ==> channels::id_of(#[trigger] s.cache.channels[k])
                != id,
        table::keyed::<Channel>(fetched),
        0 <= j < fetched.len(),
        channels::id_of(fetched[j]) == id,
        fetched[j] is TextChannel || fetched[j] is Forum,
    ensures
        ({
            let event = EventV1View::ChannelUpdate { id, data, clear };
            let r = gateway::handled(s, event, fetched, before, after);
            &&& r.0.cache.channels == s.cache.channels.push(fetched[j])
            &&& after.contains(id) ==> r.1.len() > 0 && r.1.last() == EventV1View::ChannelCreate(
                fetched[j],
            ) && r.0.subscribed.contains(id)
            &&& !after.contains(id) ==> r.1.len() == 0 && r.0.subscribed == s.subscribed
        }),
{
    let rows = s.cache.channels;
    table::lemma_keyed_row::<Channel>(fetched, id, j);
    if table::has_id::<Channel>(rows, id) {
        table::lemma_first_row_matches(rows, table::with_id::<Channel>(id));
    }
    table::lemma_row_after_push::<Channel>(rows, fetched[j]);
}

/// A change of a channel that is neither known nor was fetched changes nothing, and the
/// client is not told.
pub proof fn law_update_of_the_unknown_is_dropped(
    s: StateView,
    id: Seq<char>,
    data: PartialChannelView,
    clear: Seq<FieldsChannel>,
    fetched: Seq<ChannelView>,
    before: Seq<Seq<char>>,
    after: Seq<Seq<char>>,
)
    requires
        forall|k: int|
            0 <= k < s.cache.channels.len() ==> channels::id_of(#[trigger] s.cache.channels[k])
                != id,
        forall|k: int|
            0 <= k < fetched.len() ==> channels::id_of(#[trigger] fetched[k]) != id,
    ensures
        gateway::handled(
            s,
            EventV1View::ChannelUpdate { id, data, clear },
            fetched,
            before,
            after,
        ) == (s, Seq::<EventV1View>::empty()),
{
    let q = table::with_id::<Channel>(id);
    if table::has_id::<Channel>(s.cache.channels, id) {
        table::lemma_first_row_matches(s.cache.channels, q);
    }
    if table::has_id::<Channel>(fetched, id) {
        table::lemma_first_row_matches(fetched, q);
    }
}

} // verus!
