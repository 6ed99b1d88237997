//! What holds of every channel, group, thread and unread.
use crate::channel_ops::{
    self, DataCreateGroup, DataCreateServerChannel, DeletedChannel, OriginMessage,
    ServerChannelType, ServerExtended, SystemMessageView, ThreadCreated,
};
use crate::channel_store::{self, ChannelUnreadView, ThreadMemberView};
use crate::channels::{
    self, Channel, ChannelView, FieldsChannel, ForumSortOrder, OverrideField, PartialChannelView,
    RolePermission, RolePermissionView,
};
use crate::db::ReferenceDb;
use crate::error::Error;
use crate::events::{self, EventV1View, Published};
use crate::file_laws;
use crate::files::{File, FileUsedForType, FileView};
use crate::follows::{self, ChannelFollowView};
use crate::people::{ServerView, User};
use crate::table;
use crate::text;
use vstd::prelude::*;

verus! {

/// Whether a field has the value that was given for it, or else the one from before.
pub open spec fn set_to<T>(given: Option<T>, before: T, after: T) -> bool {
    match given {
        Some(v) => after == v,
        None => after == before,
    }
}

/// Whether an optional field has the value that was given for it, or else none where it was
/// unset, or else the one from before.
pub open spec fn set_or_unset<T>(
    given: Option<T>,
    unset: bool,
    before: Option<T>,
    after: Option<T>,
) -> bool {
    match given {
        Some(v) => after == Some(v),
        None => if unset {
            after is None
        } else {
            after == before
        },
    }
}

proof fn lemma_contains_last(fields: Seq<FieldsChannel>, f: FieldsChannel)
    requires
        fields.len() > 0,
    ensures
        fields.contains(f) == (fields.drop_last().contains(f) || f == fields.last()),
{
    let rest = fields.drop_last();
    assert(fields[fields.len() - 1] == fields.last());
    if fields.contains(f) {
        let k = choose|k: int| 0 <= k < fields.len() && fields[k] == f;
        if k < rest.len() {
            assert(rest[k] == f);
        }
    }
    if rest.contains(f) {
        let k = choose|k: int| 0 <= k < rest.len() && rest[k] == f;
        assert(fields[k] == f);
    }
}

/// What is left of a channel once fields were unset.
pub open spec fn unset_of(c: ChannelView, d: ChannelView, fields: Seq<FieldsChannel>) -> bool {
    let unset = |f: FieldsChannel| fields.contains(f);
    match c {
        ChannelView::Group { .. } => {
            &&& d is Group
            &&& d->Group_id == c->Group_id && d->Group_name == c->Group_name && d->Group_owner
                == c->Group_owner && d->Group_recipients == c->Group_recipients
                && d->Group_last_message_id == c->Group_last_message_id && d->Group_permissions
                == c->Group_permissions && d->Group_nsfw == c->Group_nsfw && d->Group_spoiler
                == c->Group_spoiler
            &&& set_or_unset(
                None,
                unset(FieldsChannel::Description),
                c->Group_description,
                d->Group_description,
            )
            &&& set_or_unset(None, unset(FieldsChannel::Icon), c->Group_icon, d->Group_icon)
            &&& set_or_unset(None, unset(FieldsChannel::Voice), c->Group_voice, d->Group_voice)
        },
        ChannelView::TextChannel { .. } => {
            &&& d is TextChannel
            &&& d->TextChannel_id == c->TextChannel_id && d->TextChannel_server
                == c->TextChannel_server && d->TextChannel_name == c->TextChannel_name
                && d->TextChannel_last_message_id == c->TextChannel_last_message_id
                && d->TextChannel_role_permissions == c->TextChannel_role_permissions
                && d->TextChannel_nsfw == c->TextChannel_nsfw && d->TextChannel_spoiler
                == c->TextChannel_spoiler && d->TextChannel_slowmode == c->TextChannel_slowmode
                && d->TextChannel_announcement == c->TextChannel_announcement
            &&& set_or_unset(
                None,
                unset(FieldsChannel::Description),
                c->TextChannel_description,
                d->TextChannel_description,
            )
            &&& set_or_unset(
                None,
                unset(FieldsChannel::Icon),
                c->TextChannel_icon,
                d->TextChannel_icon,
            )
            &&& set_or_unset(
                None,
                unset(FieldsChannel::DefaultPermissions),
                c->TextChannel_default_permissions,
                d->TextChannel_default_permissions,
            )
            &&& set_or_unset(
                None,
                unset(FieldsChannel::Voice),
                c->TextChannel_voice,
                d->TextChannel_voice,
            )
        },
        ChannelView::Forum { .. } => {
            &&& d is Forum
            &&& d->Forum_id == c->Forum_id && d->Forum_server == c->Forum_server && d->Forum_name
                == c->Forum_name && d->Forum_last_message_id == c->Forum_last_message_id
                && d->Forum_role_permissions == c->Forum_role_permissions && d->Forum_nsfw
                == c->Forum_nsfw && d->Forum_spoiler == c->Forum_spoiler && d->Forum_require_tag
                == c->Forum_require_tag && d->Forum_default_sort == c->Forum_default_sort
            &&& set_or_unset(
                None,
                unset(FieldsChannel::Description),
                c->Forum_description,
                d->Forum_description,
            )
            &&& set_or_unset(None, unset(FieldsChannel::Icon), c->Forum_icon, d->Forum_icon)
            &&& set_or_unset(
                None,
                unset(FieldsChannel::DefaultPermissions),
                c->Forum_default_permissions,
                d->Forum_default_permissions,
            )
            &&& if unset(FieldsChannel::Tags) {
                d->Forum_tags.len() == 0
            } else {
                d->Forum_tags == c->Forum_tags
            }
        },
        _ => d == c,
    }
}

/// Unsetting fields leaves nothing in them, where the kind of channel has them, and changes
/// no other field.
pub proof fn law_unset_fields_are_empty(c: ChannelView, fields: Seq<FieldsChannel>)
    ensures
        unset_of(c, channels::without_fields(c, fields), fields),
    decreases fields.len(),
{
    if fields.len() > 0 {
        law_unset_fields_are_empty(c, fields.drop_last());
        lemma_contains_last(fields, FieldsChannel::Description);
        lemma_contains_last(fields, FieldsChannel::Icon);
        lemma_contains_last(fields, FieldsChannel::DefaultPermissions);
        lemma_contains_last(fields, FieldsChannel::Voice);
        lemma_contains_last(fields, FieldsChannel::Tags);
    }
}

/// An update keeps the kind of a channel.
pub proof fn lemma_update_keeps_kind(
    c: ChannelView,
    p: PartialChannelView,
    remove: Seq<FieldsChannel>,
)
    ensures
        ({
            let d = channel_store::updated(p, remove)(c);
            &&& d is TextChannel == c is TextChannel
            &&& d is Forum == c is Forum
            &&& d is Thread == c is Thread
            &&& d is Group == c is Group
            &&& d is DirectMessage == c is DirectMessage
            &&& d is SavedMessages == c is SavedMessages
            &&& c is Thread ==> d->Thread_parent_channel == c->Thread_parent_channel
        }),
{
    law_unset_fields_are_empty(c, remove);
}

/// An updated thread has what the update gives, and else what it had. What a thread hangs
/// on, who started it, whether it is locked and when it is archived do not change this way.
pub proof fn law_updated_thread_has_what_is_given(
    c: ChannelView,
    p: PartialChannelView,
    remove: Seq<FieldsChannel>,
)
    requires
        c is Thread,
    ensures
        ({
            let d = channel_store::updated(p, remove)(c);
            &&& d is Thread
            &&& set_to(p.name, c->Thread_name, d->Thread_name)
            &&& set_to(p.archived, c->Thread_archived, d->Thread_archived)
            &&& set_to(p.applied_tags, c->Thread_applied_tags, d->Thread_applied_tags)
            &&& set_or_unset(
                p.archived_timestamp,
                false,
                c->Thread_archived_timestamp,
                d->Thread_archived_timestamp,
            )
            &&& set_or_unset(
                p.last_message_id,
                false,
                c->Thread_last_message_id,
                d->Thread_last_message_id,
            )
            &&& d->Thread_id == c->Thread_id && d->Thread_server == c->Thread_server
                && d->Thread_parent_channel == c->Thread_parent_channel && d->Thread_creator
                == c->Thread_creator && d->Thread_origin_message_id == c->Thread_origin_message_id
                && d->Thread_auto_archive_minutes == c->Thread_auto_archive_minutes
                && d->Thread_locked == c->Thread_locked
        }),
{
    law_unset_fields_are_empty(c, remove);
}

/// An updated text channel has what the update gives, nothing in fields that it unsets, and
/// else what it had.
pub proof fn law_updated_text_channel_has_what_is_given(
    c: ChannelView,
    p: PartialChannelView,
    remove: Seq<FieldsChannel>,
)
    requires
        c is TextChannel,
    ensures
        ({
            let d = channel_store::updated(p, remove)(c);
            &&& d is TextChannel
            &&& d->TextChannel_id == c->TextChannel_id && d->TextChannel_server
                == c->TextChannel_server && d->TextChannel_last_message_id
                == c->TextChannel_last_message_id
            &&& set_to(p.name, c->TextChannel_name, d->TextChannel_name)
            &&& set_to(p.nsfw, c->TextChannel_nsfw, d->TextChannel_nsfw)
            &&& set_to(p.spoiler, c->TextChannel_spoiler, d->TextChannel_spoiler)
            &&& set_to(
                p.role_permissions,
                c->TextChannel_role_permissions,
                d->TextChannel_role_permissions,
            )
            &&& set_or_unset(
                p.description,
                remove.contains(FieldsChannel::Description),
                c->TextChannel_description,
                d->TextChannel_description,
            )
            &&& set_or_unset(
                p.icon,
                remove.contains(FieldsChannel::Icon),
                c->TextChannel_icon,
                d->TextChannel_icon,
            )
            &&& set_or_unset(
                p.default_permissions,
                remove.contains(FieldsChannel::DefaultPermissions),
                c->TextChannel_default_permissions,
                d->TextChannel_default_permissions,
            )
            &&& set_or_unset(
                p.voice,
                remove.contains(FieldsChannel::Voice),
                c->TextChannel_voice,
                d->TextChannel_voice,
            )
            &&& set_or_unset(p.slowmode, false, c->TextChannel_slowmode, d->TextChannel_slowmode)
            &&& set_or_unset(
                p.announcement,
                false,
                c->TextChannel_announcement,
                d->TextChannel_announcement,
            )
        }),
{
    law_unset_fields_are_empty(c, remove);
}

/// An updated forum has what the update gives, nothing in fields that it unsets, and else
/// what it had.
pub proof fn law_updated_forum_has_what_is_given(
    c: ChannelView,
    p: PartialChannelView,
    remove: Seq<FieldsChannel>,
)
    requires
        c is Forum,
    ensures
        ({
            let d = channel_store::updated(p, remove)(c);
            &&& d is Forum
            &&& d->Forum_id == c->Forum_id && d->Forum_server == c->Forum_server
            &&& set_to(p.name, c->Forum_name, d->Forum_name)
            &&& set_to(p.nsfw, c->Forum_nsfw, d->Forum_nsfw)
            &&& set_to(p.spoiler, c->Forum_spoiler, d->Forum_spoiler)
            &&& set_to(p.require_tag, c->Forum_require_tag, d->Forum_require_tag)
            &&& set_to(p.default_sort, c->Forum_default_sort, d->Forum_default_sort)
            &&& set_to(
                p.role_permissions,
                c->Forum_role_permissions,
                d->Forum_role_permissions,
            )
            &&& p.tags matches Some(v) ==> d->Forum_tags == v
            &&& p.tags is None && remove.contains(FieldsChannel::Tags) ==> d->Forum_tags.len() == 0
            &&& p.tags is None && !remove.contains(FieldsChannel::Tags) ==> d->Forum_tags
                == c->Forum_tags
            &&& set_or_unset(
                p.description,
                remove.contains(FieldsChannel::Description),
                c->Forum_description,
                d->Forum_description,
            )
            &&& set_or_unset(
                p.icon,
                remove.contains(FieldsChannel::Icon),
                c->Forum_icon,
                d->Forum_icon,
            )
            &&& set_or_unset(
                p.default_permissions,
                remove.contains(FieldsChannel::DefaultPermissions),
                c->Forum_default_permissions,
                d->Forum_default_permissions,
            )
            &&& set_or_unset(
                p.last_message_id,
                false,
                c->Forum_last_message_id,
                d->Forum_last_message_id,
            )
        }),
{
    law_unset_fields_are_empty(c, remove);
}

/// An updated group has what the update gives, nothing in fields that it unsets, and else
/// what it had; who takes part in it does not change this way.
pub proof fn law_updated_group_has_what_is_given(
    c: ChannelView,
    p: PartialChannelView,
    remove: Seq<FieldsChannel>,
)
    requires
        c is Group,
    ensures
        ({
            let d = channel_store::updated(p, remove)(c);
            &&& d is Group
            &&& d->Group_id == c->Group_id && d->Group_recipients == c->Group_recipients
                && d->Group_last_message_id == c->Group_last_message_id
            &&& set_to(p.name, c->Group_name, d->Group_name)
            &&& set_to(p.owner, c->Group_owner, d->Group_owner)
            &&& set_to(p.nsfw, c->Group_nsfw, d->Group_nsfw)
            &&& set_to(p.spoiler, c->Group_spoiler, d->Group_spoiler)
            &&& set_or_unset(p.permissions, false, c->Group_permissions, d->Group_permissions)
            &&& set_or_unset(
                p.description,
                remove.contains(FieldsChannel::Description),
                c->Group_description,
                d->Group_description,
            )
            &&& set_or_unset(
                p.icon,
                remove.contains(FieldsChannel::Icon),
                c->Group_icon,
                d->Group_icon,
            )
            &&& set_or_unset(
                p.voice,
                remove.contains(FieldsChannel::Voice),
                c->Group_voice,
                d->Group_voice,
            )
        }),
{
    law_unset_fields_are_empty(c, remove);
}

/// Of direct messages only whether they are open can be updated, of saved messages nothing.
pub proof fn law_updated_direct_message_keeps_its_users(
    c: ChannelView,
    p: PartialChannelView,
    remove: Seq<FieldsChannel>,
)
    requires
        c is DirectMessage || c is SavedMessages,
    ensures
        ({
            let d = channel_store::updated(p, remove)(c);
            &&& c is SavedMessages ==> d == c
            &&& c is DirectMessage ==> {
                &&& d is DirectMessage
                &&& d->DirectMessage_id == c->DirectMessage_id && d->DirectMessage_recipients
                    == c->DirectMessage_recipients && d->DirectMessage_last_message_id
                    == c->DirectMessage_last_message_id
                &&& set_to(p.active, c->DirectMessage_active, d->DirectMessage_active)
            }
        }),
{
    law_unset_fields_are_empty(c, remove);
}

/// A thread that is archived counts among the active threads of its parent no longer; one
/// that is opened again does.
pub proof fn law_archived_thread_is_not_active(
    c: ChannelView,
    p: PartialChannelView,
    remove: Seq<FieldsChannel>,
)
    requires
        c is Thread,
    ensures
        ({
            let active = channel_ops::active_thread_of(c->Thread_parent_channel);
            let d = channel_store::updated(p, remove)(c);
            &&& p.archived == Some(true) ==> !active(d)
            &&& p.archived == Some(false) ==> active(d)
            &&& p.archived is None ==> active(d) == !c->Thread_archived
        }),
{
    law_unset_fields_are_empty(c, remove);
}

/// A channel more is an active thread more of a parent exactly where it is a thread of it
/// that is not archived.
pub proof fn law_active_threads_are_counted(
    rows: Seq<ChannelView>,
    c: ChannelView,
    parent: Seq<char>,
)
    ensures
        channel_ops::active_threads(Seq::empty(), parent) == 0,
        channel_ops::active_threads(rows.push(c), parent) == channel_ops::active_threads(
            rows,
            parent,
        ) + if c is Thread && c->Thread_parent_channel == parent && !c->Thread_archived {
            1nat
        } else {
            0nat
        },
{
    reveal(Seq::filter);
    assert(rows.push(c).drop_last() =~= rows);
}

/// A thread can be started in a text channel that has room for it, of a message of that
/// channel that has none yet, with one of four durations or none told. Else it is refused.
pub proof fn law_when_a_thread_can_be_started(
    rows: Seq<ChannelView>,
    parent: ChannelView,
    origin: Option<OriginMessage>,
    minutes: Option<u32>,
    max_threads: usize,
)
    ensures
        ({
            let problem = channel_ops::thread_problem(rows, parent, origin, minutes, max_threads);
            let active = channel_ops::active_threads(rows, channels::id_of(parent));
            let good_duration = minutes is None || minutes == Some(60u32) || minutes == Some(
                1440u32,
            ) || minutes == Some(4320u32) || minutes == Some(10080u32);
            &&& problem is None <==> {
                &&& parent is TextChannel
                &&& active < max_threads
                &&& good_duration
                &&& origin matches Some(m) ==> m.channel@ == parent->TextChannel_id
                    && m.thread_id is None
            }
            &&& !(parent is TextChannel) ==> problem == Some(Error::InvalidOperation)
            &&& parent is TextChannel && active >= max_threads ==> problem == Some(
                Error::TooManyChannels { max: max_threads },
            )
            &&& problem == Some(Error::InvalidProperty) ==> !good_duration
            &&& problem == Some(Error::ThreadAlreadyExists) ==> origin is Some
                && origin->Some_0.thread_id is Some
            &&& problem is Some && parent is TextChannel && active < max_threads && good_duration
                && origin->Some_0.channel@ == parent->TextChannel_id ==> problem == Some(
                Error::ThreadAlreadyExists,
            )
        }),
{
}

/// A post can be made in a forum that has room for it, with one of four durations or none
/// told. Else it is refused.
pub proof fn law_when_a_post_can_be_made(
    rows: Seq<ChannelView>,
    forum: ChannelView,
    minutes: Option<u32>,
    max_threads: usize,
)
    ensures
        ({
            let problem = channel_ops::post_problem(rows, forum, minutes, max_threads);
            let active = channel_ops::active_threads(rows, channels::id_of(forum));
            let good_duration = minutes is None || minutes == Some(60u32) || minutes == Some(
                1440u32,
            ) || minutes == Some(4320u32) || minutes == Some(10080u32);
            &&& problem is None <==> forum is Forum && active < max_threads && good_duration
            &&& !(forum is Forum) ==> problem == Some(Error::InvalidOperation)
            &&& forum is Forum && active >= max_threads ==> problem == Some(
                Error::TooManyChannels { max: max_threads },
            )
        }),
{
}

/// A new thread is open, not locked, without messages, and hangs on its parent in the
/// parent's server. Without a duration told it is archived after a day of silence.
pub proof fn law_new_thread_hangs_on_its_parent(
    id: Seq<char>,
    parent: ChannelView,
    name: Seq<char>,
    creator: Seq<char>,
    origin: Option<Seq<char>>,
    minutes: Option<u32>,
    tags: Seq<Seq<char>>,
)
    requires
        parent is TextChannel || parent is Forum,
    ensures
        ({
            let t = channel_ops::thread_made(id, parent, name, creator, origin, minutes, tags);
            &&& t is Thread
            &&& t->Thread_id == id
            &&& t->Thread_server == if parent is Forum {
                parent->Forum_server
            } else {
                parent->TextChannel_server
            }
            &&& t->Thread_parent_channel == if parent is Forum {
                parent->Forum_id
            } else {
                parent->TextChannel_id
            }
            &&& t->Thread_name == name && t->Thread_creator == creator
                && t->Thread_origin_message_id == origin && t->Thread_applied_tags == tags
            &&& !t->Thread_archived && !t->Thread_locked
            &&& t->Thread_last_message_id is None && t->Thread_archived_timestamp is None
            &&& minutes matches Some(m) ==> t->Thread_auto_archive_minutes == m
            &&& minutes is None ==> t->Thread_auto_archive_minutes == 1440
        }),
{
}

/// A new channel of a server has the name, the description and the flags that were asked
/// for, and no messages, permissions or icon. One for calls is a text channel that has calls
/// turned on, where nothing else is told; others have calls as told. A forum has no tags.
pub proof fn law_new_server_channel_is_as_asked(
    data: DataCreateServerChannel,
    id: Seq<char>,
    server: Seq<char>,
)
    ensures
        ({
            let c = data.made(id, server);
            let forum = data.channel_type == ServerChannelType::Forum;
            let nsfw = data.nsfw == Some(true);
            let spoiler = data.spoiler == Some(true);
            &&& forum <==> c is Forum
            &&& !forum <==> c is TextChannel
            &&& forum ==> {
                &&& c->Forum_id == id && c->Forum_server == server && c->Forum_name == data.name@
                &&& c->Forum_description == text::opt_text(data.description)
                &&& c->Forum_nsfw == nsfw && c->Forum_spoiler == spoiler
                &&& c->Forum_tags.len() == 0 && !c->Forum_require_tag
                &&& c->Forum_icon is None && c->Forum_last_message_id is None
                    && c->Forum_default_permissions is None && c->Forum_role_permissions.len() == 0
            }
            &&& !forum ==> {
                &&& c->TextChannel_id == id && c->TextChannel_server == server
                    && c->TextChannel_name == data.name@
                &&& c->TextChannel_description == text::opt_text(data.description)
                &&& c->TextChannel_nsfw == nsfw && c->TextChannel_spoiler == spoiler
                &&& c->TextChannel_icon is None && c->TextChannel_last_message_id is None
                    && c->TextChannel_default_permissions is None && c->TextChannel_slowmode
                    is None && c->TextChannel_role_permissions.len() == 0
                &&& data.voice is Some ==> c->TextChannel_voice == data.voice
                &&& data.voice is None ==> {
                    if data.channel_type == ServerChannelType::Voice {
                        c->TextChannel_voice is Some && !c->TextChannel_voice->Some_0.disabled
                            && c->TextChannel_voice->Some_0.max_users is None
                    } else {
                        c->TextChannel_voice is None
                    }
                }
                &&& c->TextChannel_announcement == Some(true) <==> data.announcement == Some(true)
                    && data.channel_type == ServerChannelType::Text
            }
        }),
{
}

/// A new group is owned by its maker; the listed users and the owner take part in it, each
/// once, and nobody else.
pub proof fn law_new_group_has_its_members_once(
    id: Seq<char>,
    data: DataCreateGroup,
    owner: Seq<char>,
    icon: Option<FileView>,
    user: Seq<char>,
)
    ensures
        ({
            let g = channel_ops::group_made(id, data, owner, icon);
            &&& g is Group
            &&& g->Group_id == id && g->Group_name == data.name@ && g->Group_owner == owner
                && g->Group_icon == icon
            &&& g->Group_description == text::opt_text(data.description)
            &&& g->Group_nsfw == (data.nsfw == Some(true))
            &&& g->Group_spoiler == (data.spoiler == Some(true))
            &&& g->Group_recipients.no_duplicates()
            &&& g->Group_recipients.contains(user) <==> user == owner || text::texts(
                data.users@,
            ).contains(user)
            &&& g->Group_last_message_id is None && g->Group_permissions is None && g->Group_voice
                is None
        }),
{
    let users = text::texts(data.users@);
    let all = users.push(owner);
    text::lemma_distinct(all);
    assert(channel_ops::group_members(users, owner).contains(user) == all.contains(user));
    assert(all[users.len() as int] == owner);
    if users.contains(user) {
        let k = choose|k: int| 0 <= k < users.len() && users[k] == user;
        assert(all[k] == user);
    }
    if all.contains(user) && user != owner {
        let k = choose|k: int| 0 <= k < all.len() && all[k] == user;
        assert(users[k] == user);
    }
}

/// A group is refused exactly where it would have more members than allowed, or where its
/// icon is no file that can be claimed for it.
pub proof fn law_when_a_group_can_be_made(
    list: Seq<FileView>,
    data: DataCreateGroup,
    owner: Seq<char>,
    group_size: usize,
)
    requires
        table::keyed::<File>(list),
    ensures
        ({
            let problem = channel_ops::group_problem(list, data, owner, group_size);
            let members = channel_ops::group_made(Seq::empty(), data, owner, None)->Group_recipients;
            &&& problem == Some(Error::GroupTooLarge { max: group_size }) <==> members.len()
                > group_size
            &&& members.len() <= group_size && data.icon is None ==> problem is None
            &&& members.len() <= group_size && data.icon is Some ==> (problem is None <==> exists|
                i: int,
            |
                0 <= i < list.len() && (#[trigger] list[i]).id == data.icon->Some_0@ && list[i].tag
                    == "icons"@ && list[i].used_for is None)
        }),
{
    file_laws::lemma_claimable(list, data.icon->Some_0@, "icons"@);
}

/// Direct messages of two users are between the two, open and without messages; of one
/// user they are saved messages.
pub proof fn law_direct_messages_are_between_two(id: Seq<char>, a: Seq<char>, b: Seq<char>)
    ensures
        ({
            let c = channel_ops::direct_made(id, a, b);
            &&& channels::id_of(c) == id
            &&& a == b ==> c is SavedMessages && c->user == a
            &&& a != b ==> {
                &&& c is DirectMessage
                &&& c->DirectMessage_active
                &&& c->DirectMessage_last_message_id is None
                &&& c->DirectMessage_recipients.len() == 2
                &&& c->DirectMessage_recipients[0] == a
                &&& c->DirectMessage_recipients[1] == b
            }
            &&& channel_ops::direct_told(c, a, b).len() == if a == b {
                0nat
            } else {
                2nat
            }
            &&& a != b ==> channel_ops::direct_told(c, a, b)[0].topic == events::private_topic(a)
                && channel_ops::direct_told(c, a, b)[1].topic == events::private_topic(b)
        }),
{
}

/// New direct messages are what is found for the two users, in whichever order.
pub proof fn law_direct_messages_are_found(id: Seq<char>, a: Seq<char>, b: Seq<char>, c: ChannelView)
    ensures
        channel_store::direct_between(a, b)(channel_ops::direct_made(id, a, b)),
        channel_store::direct_between(a, b)(c) == channel_store::direct_between(b, a)(c),
        channel_store::direct_between(a, b)(c) ==> channel_store::with_user(a)(c)
            && channel_store::with_user(b)(c),
        channel_store::direct_between(a, b)(c) && a != b ==> c is DirectMessage,
        channel_store::direct_between(a, a)(c) <==> channel_store::saved_of(a)(c),
        c is DirectMessage && a != b && c->DirectMessage_recipients.contains(a)
            && c->DirectMessage_recipients.contains(b) ==> channel_store::direct_between(a, b)(c),
        c is SavedMessages && c->user == a ==> channel_store::saved_of(a)(c),
        channel_store::group_with(a)(c) <==> c is Group && c->Group_recipients.contains(a),
        channel_store::with_user(a)(c) <==> match c {
            ChannelView::SavedMessages { user, .. } => user == a,
            ChannelView::DirectMessage { recipients, .. } => recipients.contains(a),
            ChannelView::Group { recipients, .. } => recipients.contains(a),
            _ => false,
        },
{
    let made = channel_ops::direct_made(id, a, b);
    if a != b {
        assert(made->DirectMessage_recipients[0] == a);
        assert(made->DirectMessage_recipients[1] == b);
    }
}

/// A user can be added to a group that they are not in and that has room.
pub proof fn law_when_a_user_can_be_added(
    rows: Seq<ChannelView>,
    c: ChannelView,
    user: Seq<char>,
    group_size: usize,
    i: int,
)
    requires
        table::keyed::<Channel>(rows),
        0 <= i < rows.len(),
        channels::id_of(rows[i]) == channels::id_of(c),
    ensures
        ({
            let problem = channel_ops::add_problem(rows, c, user, group_size);
            &&& problem is None <==> c is Group && !c->Group_recipients.contains(user)
                && c->Group_recipients.len() < group_size && rows[i] is Group
            &&& !(c is Group) ==> problem == Some(Error::InvalidOperation)
            &&& c is Group && c->Group_recipients.contains(user) ==> problem == Some(
                Error::AlreadyInGroup,
            )
            &&& c is Group && !c->Group_recipients.contains(user) && c->Group_recipients.len()
                >= group_size ==> problem == Some(Error::GroupTooLarge { max: group_size })
        }),
{
    table::lemma_keyed_row::<Channel>(rows, channels::id_of(c), i);
}

/// Adding a user to a group makes them take part in it; removing them undoes that. Nothing
/// else of the group changes, and other channels stay as they are.
pub proof fn law_members_come_and_go(c: ChannelView, user: Seq<char>, other: Seq<char>)
    ensures
        ({
            let more = channel_store::with_recipient(user)(c);
            let less = channel_store::without_recipient(user)(c);
            if c is Group {
                &&& more is Group && less is Group
                &&& more->Group_recipients.contains(user)
                &&& !less->Group_recipients.contains(user)
                &&& more->Group_recipients.len() == c->Group_recipients.len() + 1
                &&& other != user ==> more->Group_recipients.contains(other)
                    == c->Group_recipients.contains(other) && less->Group_recipients.contains(other)
                    == c->Group_recipients.contains(other)
                &&& more->Group_id == c->Group_id && less->Group_id == c->Group_id
                &&& more->Group_owner == c->Group_owner && less->Group_owner == c->Group_owner
                &&& more->Group_name == c->Group_name && less->Group_name == c->Group_name
                &&& more->Group_description == c->Group_description && less->Group_description
                    == c->Group_description
                &&& more->Group_icon == c->Group_icon && less->Group_icon == c->Group_icon
                &&& more->Group_last_message_id == c->Group_last_message_id
                    && less->Group_last_message_id == c->Group_last_message_id
                &&& more->Group_permissions == c->Group_permissions && less->Group_permissions
                    == c->Group_permissions
                &&& more->Group_nsfw == c->Group_nsfw && less->Group_nsfw == c->Group_nsfw
                &&& more->Group_spoiler == c->Group_spoiler && less->Group_spoiler
                    == c->Group_spoiler
                &&& more->Group_voice == c->Group_voice && less->Group_voice == c->Group_voice
            } else {
                more == c && less == c
            }
        }),
{
    if c is Group {
        let before = c->Group_recipients;
        let more = before.push(user);
        table::lemma_filter_members(before, channel_store::not_user(user), user);
        table::lemma_filter_members(before, channel_store::not_user(user), other);
        assert(more[before.len() as int] == user);
        if before.contains(other) {
            let k = choose|k: int| 0 <= k < before.len() && before[k] == other;
            assert(more[k] == other);
        }
        if more.contains(other) && other != user {
            let k = choose|k: int| 0 <= k < more.len() && more[k] == other;
            assert(before[k] == other);
        }
    }
}

/// A user who left a stored group takes part in it no longer, and does not own it; where
/// they owned it, another member does, the first in the list. Those who stay, stay.
pub proof fn law_who_left_is_neither_member_nor_owner(
    rows: Seq<ChannelView>,
    user: Seq<char>,
    other: Seq<char>,
    i: int,
)
    requires
        0 <= i < rows.len(),
        rows[i] is Group,
        rows[i]->Group_owner == user ==> exists|k: int|
            0 <= k < rows[i]->Group_recipients.len() && #[trigger] rows[i]->Group_recipients[k]
                != user,
    ensures
        ({
            let g = rows[i];
            let after = channel_ops::channels_after_leaving(rows, g, user)[i];
            &&& channel_ops::channels_after_leaving(rows, g, user).len() == rows.len()
            &&& after is Group
            &&& !after->Group_recipients.contains(user)
            &&& other != user ==> after->Group_recipients.contains(other)
                == g->Group_recipients.contains(other)
            &&& after->Group_owner != user
            &&& g->Group_owner != user ==> after->Group_owner == g->Group_owner
            &&& g->Group_owner == user ==> first_other(
                g->Group_recipients,
                user,
                after->Group_owner,
            )
            &&& after->Group_id == g->Group_id && after->Group_name == g->Group_name
        }),
{
    let g = rows[i];
    law_members_come_and_go(g, user, other);
    if g->Group_owner == user {
        lemma_next_owner(g->Group_recipients, user);
        let next = channel_ops::next_owner(g->Group_recipients, user)->Some_0;
        law_updated_group_has_what_is_given(g, channel_ops::owner_change(next), Seq::empty());
        let owned = channel_store::updated(channel_ops::owner_change(next), Seq::empty())(g);
        law_members_come_and_go(owned, user, other);
    }
}

/// Whether a user is the first of a list who is not another.
pub open spec fn first_other(list: Seq<Seq<char>>, user: Seq<char>, next: Seq<char>) -> bool {
    next != user && exists|m: int|
        0 <= m < list.len() && #[trigger] list[m] == next && forall|n: int|
            0 <= n < m ==> list[n] == user
}

proof fn lemma_next_owner(list: Seq<Seq<char>>, user: Seq<char>)
    requires
        exists|k: int| 0 <= k < list.len() && #[trigger] list[k] != user,
    ensures
        channel_ops::next_owner(list, user) is Some,
        first_other(list, user, channel_ops::next_owner(list, user)->Some_0),
{
    let q = channel_store::not_user(user);
    let k = choose|k: int| 0 <= k < list.len() && #[trigger] list[k] != user;
    let others = list.filter(q);
    table::lemma_filter_members(list, q, list[k]);
    assert(list.contains(list[k]));
    assert(others.len() > 0);
    lemma_first_kept(list, q);
    let m = choose|m: int|
        0 <= m < list.len() && list[m] == others[0] && forall|n: int|
            0 <= n < m ==> !q(#[trigger] list[n]);
    assert(others.contains(others[0]));
    table::lemma_filter_members(list, q, others[0]);
    assert forall|n: int| 0 <= n < m implies list[n] == user by {
        assert(!q(list[n]));
    }
    assert(list[m] == others[0]);
}

proof fn lemma_first_kept(list: Seq<Seq<char>>, q: spec_fn(Seq<char>) -> bool)
    requires
        list.filter(q).len() > 0,
    ensures
        exists|m: int|
            0 <= m < list.len() && list[m] == list.filter(q)[0] && forall|n: int|
                0 <= n < m ==> !q(#[trigger] list[n]),
    decreases list.len(),
{
    reveal(Seq::filter);
    let rest = list.drop_last();
    if list.len() > 0 {
        if rest.filter(q).len() > 0 {
            lemma_first_kept(rest, q);
            let m = choose|m: int|
                0 <= m < rest.len() && rest[m] == rest.filter(q)[0] && forall|n: int|
                    0 <= n < m ==> !q(#[trigger] rest[n]);
            assert(list[m] == list.filter(q)[0]);
            assert forall|n: int| 0 <= n < m implies !q(#[trigger] list[n]) by {
                assert(!q(rest[n]));
            }
        } else {
            let m = list.len() - 1;
            assert(list[m] == list.filter(q)[0]);
            assert forall|n: int| 0 <= n < m implies !q(#[trigger] list[n]) by {
                if q(rest[n]) {
                    table::lemma_filter_members(rest, q, rest[n]);
                    assert(rest.contains(rest[n]));
                }
            }
        }
    }
}

/// The permissions that a role is given in a channel are those it has; other roles keep
/// theirs, and nothing else of the channel changes.
pub proof fn law_role_has_the_permissions_it_is_given(
    c: ChannelView,
    role: Seq<char>,
    permissions: OverrideField,
    other: Seq<char>,
)
    requires
        c is TextChannel || c is Forum,
        table::keyed::<RolePermission>(channel_store::roles_in(c)),
    ensures
        ({
            let d = channel_store::with_role_permission(c, role, permissions);
            let before = channel_store::roles_in(c);
            let after = channel_store::roles_in(d);
            &&& d is TextChannel == c is TextChannel && d is Forum == c is Forum
            &&& channels::id_of(d) == channels::id_of(c)
            &&& channels::server_of(d) == channels::server_of(c)
            &&& table::has_id::<RolePermission>(after, role)
            &&& table::row_of::<RolePermission>(after, role).permissions == permissions
            &&& other != role ==> table::has_id::<RolePermission>(after, other)
                == table::has_id::<RolePermission>(before, other)
            &&& other != role && table::has_id::<RolePermission>(before, other) ==> table::row_of::<
                RolePermission,
            >(after, other) == table::row_of::<RolePermission>(before, other)
            &&& c is TextChannel ==> d->TextChannel_default_permissions
                == c->TextChannel_default_permissions && d->TextChannel_name == c->TextChannel_name
            &&& c is Forum ==> d->Forum_default_permissions == c->Forum_default_permissions
                && d->Forum_name == c->Forum_name && d->Forum_tags == c->Forum_tags
        }),
{
    let v = RolePermissionView { role, permissions };
    table::lemma_upserted::<RolePermission>(channel_store::roles_in(c), v);
    if other != role {
        table::lemma_upserted_elsewhere::<RolePermission>(channel_store::roles_in(c), v, other);
    }
}

/// A channel of any kind that keeps its last message has the one that it was given; direct
/// messages are opened where that is asked for, and never closed. Who takes part stays.
pub proof fn law_last_message_is_noted(c: ChannelView, message: Seq<char>, reopen: bool)
    ensures
        ({
            let d = channel_store::with_last_message(c, message, reopen);
            &&& c is SavedMessages ==> d == c
            &&& c is DirectMessage ==> d is DirectMessage && d->DirectMessage_last_message_id
                == Some(message) && d->DirectMessage_active == (c->DirectMessage_active || reopen)
                && d->DirectMessage_recipients == c->DirectMessage_recipients
            &&& c is Group ==> d is Group && d->Group_last_message_id == Some(message)
                && d->Group_recipients == c->Group_recipients && d->Group_owner == c->Group_owner
            &&& c is TextChannel ==> d is TextChannel && d->TextChannel_last_message_id == Some(
                message,
            ) && d->TextChannel_role_permissions == c->TextChannel_role_permissions
                && d->TextChannel_default_permissions == c->TextChannel_default_permissions
            &&& c is Thread ==> d is Thread && d->Thread_last_message_id == Some(message)
                && d->Thread_archived == c->Thread_archived && d->Thread_parent_channel
                == c->Thread_parent_channel
            &&& c is Forum ==> d is Forum && d->Forum_last_message_id == Some(message)
                && d->Forum_role_permissions == c->Forum_role_permissions
            &&& channels::id_of(d) == channels::id_of(c)
            &&& channels::server_of(d) == channels::server_of(c)
            &&& channel_store::is_newer(c, message) <==> !(c is SavedMessages) && (
            channel_store::last_message_of(c) is None || text::text_before(
                channel_store::last_message_of(c)->Some_0,
                message,
            ))
        }),
{
}

/// Deleting a channel deletes it and its threads, and no other channel; with them go their
/// unreads and the memberships in the threads.
pub proof fn law_deleted_channel_takes_its_threads(
    before: ReferenceDb,
    after: ReferenceDb,
    c: ChannelView,
    r: DeletedChannel,
    x: ChannelView,
    u: ChannelUnreadView,
    m: ThreadMemberView,
)
    requires
        before.wf(),
        before.channels@.contains(c),
        channel_ops::deleted(before, after, c, r),
        before.channels@.contains(x),
    ensures
        ({
            let gone = channels::id_of(x) == channels::id_of(c) || (c is TextChannel || c is Forum)
                && x is Thread && x->Thread_parent_channel == channels::id_of(c);
            &&& after.channels@.contains(x) <==> !gone
            &&& text::texts(r.ids@).contains(channels::id_of(x)) <==> gone
            &&& u.channel == channels::id_of(x) ==> (after.channel_unreads@.contains(u)
                <==> before.channel_unreads@.contains(u) && !gone)
            &&& m.thread == channels::id_of(x) && x is Thread ==> (after.thread_members@.contains(m)
                <==> before.thread_members@.contains(m) && !gone)
        }),
{
    let rows = before.channels@;
    let c_id = channels::id_of(c);
    let x_id = channels::id_of(x);
    let q = channel_store::thread_of(c_id);
    let children = rows.filter(q);
    let threads = channel_ops::threads_under(rows, c);
    let all = threads.push(c_id);
    let parent = c is TextChannel || c is Forum;
    let gone = x_id == c_id || parent && x is Thread && x->Thread_parent_channel == c_id;
    let xi = choose|xi: int| 0 <= xi < rows.len() && rows[xi] == x;
    table::lemma_filter_members(rows, q, x);
    assert(all[threads.len() as int] == c_id);
    assert(threads.contains(x_id) <==> parent && x is Thread && x->Thread_parent_channel == c_id)
        by {
        if parent && x is Thread && x->Thread_parent_channel == c_id {
            let k = choose|k: int| 0 <= k < children.len() && children[k] == x;
            assert(threads[k] == x_id);
        }
        if threads.contains(x_id) {
            let k = choose|k: int| 0 <= k < threads.len() && threads[k] == x_id;
            assert(children.contains(children[k]));
            table::lemma_filter_members(rows, q, children[k]);
            let j = choose|j: int| 0 <= j < rows.len() && rows[j] == children[k];
            table::lemma_keyed_row::<Channel>(rows, x_id, j);
        }
    }
    assert(all.contains(x_id) <==> gone) by {
        if threads.contains(x_id) {
            let k = choose|k: int| 0 <= k < threads.len() && threads[k] == x_id;
            assert(all[k] == x_id);
        }
        if all.contains(x_id) && x_id != c_id {
            let k = choose|k: int| 0 <= k < all.len() && all[k] == x_id;
            assert(threads[k] == x_id);
        }
    }
    table::lemma_filter_members(rows, channel_ops::channel_not_among(all), x);
    table::lemma_filter_members(
        before.channel_unreads@,
        channel_ops::unread_not_in_any(all),
        u,
    );
    table::lemma_filter_members(
        before.thread_members@,
        channel_ops::membership_not_in_any(all),
        m,
    );
    table::lemma_filter_members(
        before.thread_members@,
        channel_ops::membership_not_in_any(threads),
        m,
    );
    if x is Thread && x_id == c_id {
        let ci = choose|ci: int| 0 <= ci < rows.len() && rows[ci] == c;
        table::lemma_keyed_row::<Channel>(rows, c_id, ci);
        assert(x == c);
    }
}

/// Deleting a channel ends every follow from it and into it, and no other.
pub proof fn law_deleted_channel_is_followed_no_longer(
    before: ReferenceDb,
    after: ReferenceDb,
    c: ChannelView,
    r: DeletedChannel,
    f: ChannelFollowView,
)
    requires
        before.wf(),
        channel_ops::deleted(before, after, c, r),
    ensures
        after.channel_follows@.contains(f) <==> before.channel_follows@.contains(f)
            && f.source_channel != channels::id_of(c) && f.target_channel != channels::id_of(c),
{
    let id = channels::id_of(c);
    let rows = before.channel_follows@;
    let sources = rows.filter(follows::from_source(id));
    let left = rows.filter(follows::not_among(sources));
    let targets = left.filter(follows::into_target(id));
    follow_members(rows, follows::from_source(id), f);
    table::lemma_keyed_filter::<follows::ChannelFollow>(rows, follows::not_among(sources));
    follow_members(left, follows::into_target(id), f);
}

proof fn follow_members(
    rows: Seq<ChannelFollowView>,
    q: spec_fn(ChannelFollowView) -> bool,
    f: ChannelFollowView,
)
    requires
        table::keyed::<follows::ChannelFollow>(rows),
    ensures
        rows.filter(follows::not_among(rows.filter(q))).contains(f) <==> rows.contains(f) && !q(f),
{
    let gone = rows.filter(q);
    table::lemma_filter_members(rows, follows::not_among(gone), f);
    table::lemma_filter_members(rows, q, f);
    if rows.contains(f) {
        let i = choose|i: int| 0 <= i < rows.len() && rows[i] == f;
        if q(f) {
            let k = choose|k: int| 0 <= k < gone.len() && gone[k] == f;
            assert(!follows::not_among(gone)(f));
        } else if !follows::not_among(gone)(f) {
            let k = choose|k: int| 0 <= k < gone.len() && (#[trigger] gone[k]).id == f.id;
            assert(gone.contains(gone[k]));
            table::lemma_filter_members(rows, q, gone[k]);
            let j = choose|j: int| 0 <= j < rows.len() && rows[j] == gone[k];
            table::lemma_keyed_row::<follows::ChannelFollow>(rows, f.id, i);
        }
    }
}

/// The deletion of a channel is told on the channel's own topic; that of each of its
/// threads to their server and on the thread's topic.
pub proof fn law_deletion_is_told(threads: Seq<Seq<char>>, c: ChannelView, k: int)
    requires
        0 <= k < threads.len(),
        c is TextChannel || c is Forum,
    ensures
        ({
            let told = channel_ops::deletion_told(threads, c);
            let server = if c is Forum {
                c->Forum_server
            } else {
                c->TextChannel_server
            };
            let id = channels::id_of(c);
            &&& told.len() == 2 * threads.len() + 1
            &&& told.last().topic == id && told.last().event == (EventV1View::ChannelDelete { id })
            &&& told[2 * k].topic == server && told[2 * k].event == (EventV1View::ChannelDelete {
                id: threads[k],
            })
            &&& told[2 * k + 1].topic == threads[k] && told[2 * k + 1].event
                == (EventV1View::ChannelDelete { id: threads[k] })
        }),
{
    lemma_threads_told(threads, channels::server_of(c)->Some_0, k);
}

proof fn lemma_threads_told(threads: Seq<Seq<char>>, server: Seq<char>, k: int)
    requires
        0 <= k < threads.len(),
    ensures
        ({
            let told = channel_ops::threads_told(threads, server);
            let event = EventV1View::ChannelDelete { id: threads[k] };
            &&& told.len() == 2 * threads.len()
            &&& told[2 * k].topic == server && told[2 * k].event == event
            &&& told[2 * k + 1].topic == threads[k] && told[2 * k + 1].event == event
        }),
    decreases threads.len(),
{
    let rest = threads.drop_last();
    let told = channel_ops::threads_told(threads, server);
    let before = channel_ops::threads_told(rest, server);
    if rest.len() > 0 {
        lemma_threads_told(
            rest,
            server,
            if k < rest.len() {
                k
            } else {
                0
            },
        );
    }
    assert(before.len() == 2 * rest.len());
    if k < rest.len() {
        assert(told[2 * k] == before[2 * k]);
        assert(told[2 * k + 1] == before[2 * k + 1]);
    }
}

/// Who starts a thread is in it, once; nobody else comes or goes.
pub proof fn law_joining_is_once(
    rows: Seq<ThreadMemberView>,
    thread: Seq<char>,
    user: Seq<char>,
    m: ThreadMemberView,
)
    ensures
        ({
            let after = channel_store::with_membership(rows, thread, user);
            &&& after.contains(m) <==> rows.contains(m) || m == (ThreadMemberView { thread, user })
            &&& channel_store::with_membership(after, thread, user) == after
        }),
{
    let q = channel_store::membership_of(thread, user);
    let own = ThreadMemberView { thread, user };
    let after = channel_store::with_membership(rows, thread, user);
    if table::any_row(rows, q) {
        let i = choose|i: int| 0 <= i < rows.len() && q(#[trigger] rows[i]);
        assert(rows[i] == own);
    } else {
        assert(after[rows.len() as int] == own);
        assert(q(after[rows.len() as int]));
        if rows.contains(m) {
            let i = choose|i: int| 0 <= i < rows.len() && rows[i] == m;
            assert(after[i] == m);
        }
        if after.contains(m) && m != own {
            let i = choose|i: int| 0 <= i < after.len() && after[i] == m;
            assert(rows[i] == m);
        }
    }
}

/// Acknowledging a message notes it as the last one read and keeps exactly the mentions
/// that come after it.
pub proof fn law_acknowledging_notes_the_message(
    u: ChannelUnreadView,
    message: Seq<char>,
    mention: Seq<char>,
)
    ensures
        ({
            let a = channel_store::acknowledged(u, message);
            &&& a.last_id == Some(message)
            &&& a.channel == u.channel && a.user == u.user
            &&& a.mentions is Some <==> u.mentions is Some
            &&& u.mentions is Some ==> (a.mentions->Some_0.contains(mention)
                <==> u.mentions->Some_0.contains(mention) && text::text_before(message, mention))
        }),
{
    if let Some(list) = u.mentions {
        table::lemma_filter_members(list, channel_store::sent_after(message), mention);
    }
}

/// Messages that mention a user are among what they have not read in the channel, behind
/// those that were; what they have read stays, and so do other unreads.
pub proof fn law_mentions_are_noted(
    rows: Seq<ChannelUnreadView>,
    channel: Seq<char>,
    user: Seq<char>,
    messages: Seq<Seq<char>>,
    other: ChannelUnreadView,
)
    requires
        channel_store::unreads_apart(rows),
    ensures
        ({
            let after = channel_store::unreads_mentioning(rows, channel, user, messages);
            let own = channel_store::unread_or_new(after, channel, user);
            let before = channel_store::unread_or_new(rows, channel, user);
            &&& table::any_row(after, channel_store::unread_of(channel, user))
            &&& own.channel == channel && own.user == user
            &&& own.last_id == before.last_id
            &&& own.mentions == Some(
                if before.mentions is Some {
                    before.mentions->Some_0 + messages
                } else {
                    messages
                },
            )
            &&& !(other.channel == channel && other.user == user) ==> (after.contains(other)
                <==> rows.contains(other))
        }),
{
    let q = channel_store::unread_of(channel, user);
    let before = channel_store::unread_or_new(rows, channel, user);
    if table::any_row(rows, q) {
        table::lemma_first_row_matches(rows, q);
    }
    let v = channel_store::with_mentions(before, messages);
    assert(v.channel == channel && v.user == user);
    let after = channel_store::with_unread(rows, v);
    if table::any_row(rows, q) {
        let f = table::first_row(rows, q);
        assert(after[f] == v);
        assert(q(after[f]));
        table::lemma_first_row_matches(after, q);
        let g = table::first_row(after, q);
        if q(rows[g]) {
            assert(after[g] == v);
        } else {
            assert(after[g] == rows[g]);
        }
    } else {
        assert(after[rows.len() as int] == v);
        assert(q(after[rows.len() as int]));
        table::lemma_first_row_matches(after, q);
        let g = table::first_row(after, q);
        if g < rows.len() {
            assert(after[g] == rows[g]);
            assert(q(rows[g]));
        }
    }
    if !q(other) {
        if rows.contains(other) {
            let i = choose|i: int| 0 <= i < rows.len() && rows[i] == other;
            assert(after[i] == other);
        }
        if after.contains(other) {
            let i = choose|i: int| 0 <= i < after.len() && after[i] == other;
            assert(i < rows.len() && rows[i] == other);
        }
    }
}

/// Channels are told apart by their ids; text channels, threads and forums are in a server,
/// and the others are not.
pub proof fn law_where_channels_are(c: ChannelView)
    ensures
        channels::id_of(c) == match c {
            ChannelView::SavedMessages { id, .. } => id,
            ChannelView::DirectMessage { id, .. } => id,
            ChannelView::Group { id, .. } => id,
            ChannelView::TextChannel { id, .. } => id,
            ChannelView::Thread { id, .. } => id,
            ChannelView::Forum { id, .. } => id,
        },
        channels::server_of(c) is Some <==> c is TextChannel || c is Thread || c is Forum,
        c is TextChannel ==> channels::server_of(c) == Some(c->TextChannel_server),
        c is Thread ==> channels::server_of(c) == Some(c->Thread_server),
        c is Forum ==> channels::server_of(c) == Some(c->Forum_server),
        channel_store::has_roles(c) <==> c is TextChannel || c is Forum,
        c is DirectMessage ==> channel_store::last_message_of(c)
            == c->DirectMessage_last_message_id,
        c is Group ==> channel_store::last_message_of(c) == c->Group_last_message_id,
        c is TextChannel ==> channel_store::last_message_of(c) == c->TextChannel_last_message_id,
        c is Thread ==> channel_store::last_message_of(c) == c->Thread_last_message_id,
        c is Forum ==> channel_store::last_message_of(c) == c->Forum_last_message_id,
{
}

/// Direct messages always have calls; groups and text channels where voice is configured
/// and not turned off; other channels have none.
pub proof fn law_which_channels_have_calls(c: ChannelView)
    ensures
        ({
            let voice = channels::voice_of(c);
            &&& c is DirectMessage ==> voice is Some && voice->Some_0.max_users is None
                && !voice->Some_0.disabled
            &&& c is Group ==> (voice is Some <==> c->Group_voice is Some
                && !c->Group_voice->Some_0.disabled) && (voice is Some ==> voice
                == c->Group_voice)
            &&& c is TextChannel ==> (voice is Some <==> c->TextChannel_voice is Some
                && !c->TextChannel_voice->Some_0.disabled) && (voice is Some ==> voice
                == c->TextChannel_voice)
            &&& c is SavedMessages || c is Thread || c is Forum ==> voice is None
        }),
{
}

/// Noting the last message again changes nothing, and a later one takes its place; nothing
/// else of a channel changes with it.
pub proof fn law_noting_a_message_changes_nothing_else(
    c: ChannelView,
    message: Seq<char>,
    later: Seq<char>,
)
    ensures
        channel_store::last_message_of(c) matches Some(last) ==> channel_store::with_last_message(
            c,
            last,
            false,
        ) == c,
        !(c is SavedMessages) ==> channel_store::last_message_of(
            channel_store::with_last_message(c, message, false),
        ) == Some(message),
        channel_store::with_last_message(
            channel_store::with_last_message(c, message, false),
            later,
            false,
        ) == channel_store::with_last_message(c, later, false),
        !(c is DirectMessage) ==> channel_store::with_last_message(c, message, true)
            == channel_store::with_last_message(c, message, false),
{
}

/// Who is added to a group and removed again leaves it as it was.
pub proof fn law_adding_and_removing_leaves_a_group(c: ChannelView, user: Seq<char>)
    requires
        c is Group,
        !c->Group_recipients.contains(user),
    ensures
        channel_store::without_recipient(user)(channel_store::with_recipient(user)(c)) == c,
        channel_store::without_recipient(user)(c) == c,
{
    let q = channel_store::not_user(user);
    let list = c->Group_recipients;
    let n = list.len() as int;
    let more = list.push(user);
    table::lemma_filter_take(more, q, n);
    assert(more.take(n + 1) =~= more);
    assert(more.take(n) =~= list);
    assert forall|i: int| 0 <= i < list.len() implies q(#[trigger] list[i]) by {
        assert(list.contains(list[i]));
    }
    table::lemma_filter_keeps_all(list, q);
}

/// Giving a role the permissions that it has changes nothing.
pub proof fn law_same_permissions_change_nothing(c: ChannelView, role: Seq<char>)
    requires
        c is TextChannel || c is Forum,
        table::keyed::<RolePermission>(channel_store::roles_in(c)),
        table::has_id::<RolePermission>(channel_store::roles_in(c), role),
    ensures
        channel_store::with_role_permission(
            c,
            role,
            table::row_of::<RolePermission>(channel_store::roles_in(c), role).permissions,
        ) == c,
{
    let rows = channel_store::roles_in(c);
    let q = table::with_id::<RolePermission>(role);
    table::lemma_first_row_matches(rows, q);
    let at = table::first_row(rows, q);
    table::lemma_keyed_row::<RolePermission>(rows, role, at);
    let v = RolePermissionView { role, permissions: rows[at].permissions };
    assert(v == rows[at]);
    assert(table::upserted::<RolePermission>(rows, v) =~= rows);
}

/// Which unreads and memberships are read or left.
pub proof fn law_which_unreads_are_found(
    rows: Seq<ChannelUnreadView>,
    members: Seq<ThreadMemberView>,
    key: Seq<char>,
    u: ChannelUnreadView,
    m: ThreadMemberView,
)
    ensures
        rows.filter(channel_store::unread_by(key)).contains(u) <==> rows.contains(u) && u.user
            == key,
        rows.filter(channel_store::mentioned(key)).contains(u) <==> rows.contains(u) && u.user
            == key && u.mentions is Some,
        rows.filter(channel_store::unread_not_in(key)).contains(u) <==> rows.contains(u)
            && u.channel != key,
        members.filter(channel_store::membership_not_in(key)).contains(m) <==> members.contains(m)
            && m.thread != key,
{
    table::lemma_filter_members(rows, channel_store::unread_by(key), u);
    table::lemma_filter_members(rows, channel_store::mentioned(key), u);
    table::lemma_filter_members(rows, channel_store::unread_not_in(key), u);
    table::lemma_filter_members(members, channel_store::membership_not_in(key), m);
}

/// Which channels are found: the threads of a parent, those that can be archived for
/// inactivity, and those of a list.
pub proof fn law_which_channels_are_found(
    rows: Seq<ChannelView>,
    parent: Seq<char>,
    ids: Seq<Seq<char>>,
    c: ChannelView,
)
    ensures
        rows.filter(channel_store::thread_of(parent)).contains(c) <==> rows.contains(c) && c is Thread
            && c->Thread_parent_channel == parent,
        rows.filter(channel_store::may_archive()).contains(c) <==> rows.contains(c) && c is Thread
            && !c->Thread_archived && c->Thread_auto_archive_minutes > 0,
        rows.filter(channel_store::channel_among(ids)).contains(c) <==> rows.contains(c)
            && exists|i: int| 0 <= i < ids.len() && #[trigger] ids[i] == channels::id_of(c),
{
    table::lemma_filter_members(rows, channel_store::thread_of(parent), c);
    table::lemma_filter_members(rows, channel_store::may_archive(), c);
    table::lemma_filter_members(rows, channel_store::channel_among(ids), c);
}

/// The members of a channel can be changed where it is a stored group.
pub proof fn law_only_groups_have_members(rows: Seq<ChannelView>, id: Seq<char>, i: int)
    requires
        table::keyed::<Channel>(rows),
    ensures
        0 <= i < rows.len() && channels::id_of(rows[i]) == id ==> channel_store::group_outcome(
            rows,
            id,
        ) == if rows[i] is Group {
            Ok::<(), Error>(())
        } else {
            Err::<(), Error>(Error::InvalidOperation)
        },
        (forall|k: int| 0 <= k < rows.len() ==> channels::id_of(#[trigger] rows[k]) != id)
            ==> channel_store::group_outcome(rows, id) == Err::<(), Error>(Error::NotFound),
{
    if 0 <= i < rows.len() && channels::id_of(rows[i]) == id {
        table::lemma_keyed_row::<Channel>(rows, id, i);
    }
    if table::has_id::<Channel>(rows, id) {
        table::lemma_first_row_matches(rows, table::with_id::<Channel>(id));
    }
}

/// A user who is removed from the groups of a list is in none of them, and in all others as
/// before.
pub proof fn law_user_leaves_the_groups_of_a_list(
    rows: Seq<ChannelView>,
    ids: Seq<Seq<char>>,
    user: Seq<char>,
    i: int,
)
    requires
        0 <= i < rows.len(),
    ensures
        ({
            let after = channel_store::without_recipient_in(rows, ids, user);
            &&& after.len() == rows.len()
            &&& after[i] == if ids.contains(channels::id_of(rows[i])) {
                channel_store::without_recipient(user)(rows[i])
            } else {
                rows[i]
            }
            &&& ids.contains(channels::id_of(rows[i])) && rows[i] is Group ==> after[i] is Group
                && !after[i]->Group_recipients.contains(user)
        }),
    decreases ids.len(),
{
    let f = channel_store::without_recipient(user);
    if rows[i] is Group {
        let q = channel_store::not_user(user);
        let list = rows[i]->Group_recipients;
        table::lemma_filter_members(list, q, user);
        let less = list.filter(q);
        assert forall|k: int| 0 <= k < less.len() implies q(#[trigger] less[k]) by {
            assert(less.contains(less[k]));
            table::lemma_filter_members(list, q, less[k]);
        }
        table::lemma_filter_keeps_all(less, q);
    }
    assert(f(f(rows[i])) == f(rows[i]));
    if ids.len() > 0 {
        let rest = ids.drop_last();
        law_user_leaves_the_groups_of_a_list(rows, rest, user, i);
        let id = channels::id_of(rows[i]);
        assert(ids[ids.len() - 1] == ids.last());
        if rest.contains(id) {
            let k = choose|k: int| 0 <= k < rest.len() && rest[k] == id;
            assert(ids[k] == id);
        }
        if ids.contains(id) && !rest.contains(id) {
            let k = choose|k: int| 0 <= k < ids.len() && ids[k] == id;
            if k < rest.len() {
                assert(rest[k] == id);
            }
        }
    }
}

/// Messages that mention several users are noted for each of them once, behind what was
/// noted before, and for nobody else.
pub proof fn law_mentions_of_several_are_noted(
    rows: Seq<ChannelUnreadView>,
    channel: Seq<char>,
    users: Seq<Seq<char>>,
    messages: Seq<Seq<char>>,
    user: Seq<char>,
)
    requires
        channel_store::unreads_apart(rows),
        users.no_duplicates(),
    ensures
        ({
            let after = channel_store::unreads_mentioning_all(rows, channel, users, messages);
            let own = channel_store::unread_or_new(after, channel, user);
            let before = channel_store::unread_or_new(rows, channel, user);
            &&& channel_store::unreads_apart(after)
            &&& users.contains(user) ==> own.last_id == before.last_id && own.mentions == Some(
                if before.mentions is Some {
                    before.mentions->Some_0 + messages
                } else {
                    messages
                },
            )
            &&& !users.contains(user) ==> own == before
        }),
    decreases users.len(),
{
    if users.len() > 0 {
        let rest = users.drop_last();
        let last = users.last();
        assert(users[users.len() - 1] == last);
        assert forall|i: int, j: int| 0 <= i < j < rest.len() implies rest[i] != rest[j] by {
            assert(users[i] != users[j]);
        }
        law_mentions_of_several_are_noted(rows, channel, rest, messages, user);
        law_mentions_of_several_are_noted(rows, channel, rest, messages, last);
        let before = channel_store::unreads_mentioning_all(rows, channel, rest, messages);
        lemma_mentioning(before, channel, last, messages, user);
        if rest.contains(last) {
            let k = choose|k: int| 0 <= k < rest.len() && rest[k] == last;
            assert(users[k] == last);
        }
        if users.contains(user) && user != last {
            let k = choose|k: int| 0 <= k < users.len() && users[k] == user;
            assert(rest[k] == user);
        }
        if rest.contains(user) {
            let k = choose|k: int| 0 <= k < rest.len() && rest[k] == user;
            assert(users[k] == user);
        }
    }
}

proof fn lemma_mentioning(
    rows: Seq<ChannelUnreadView>,
    channel: Seq<char>,
    user: Seq<char>,
    messages: Seq<Seq<char>>,
    other: Seq<char>,
)
    requires
        channel_store::unreads_apart(rows),
    ensures
        ({
            let after = channel_store::unreads_mentioning(rows, channel, user, messages);
            let before = channel_store::unread_or_new(rows, channel, user);
            &&& channel_store::unreads_apart(after)
            &&& channel_store::unread_or_new(after, channel, user) == (ChannelUnreadView {
                mentions: Some(
                    if before.mentions is Some {
                        before.mentions->Some_0 + messages
                    } else {
                        messages
                    },
                ),
                ..before
            })
            &&& other != user ==> channel_store::unread_or_new(after, channel, other)
                == channel_store::unread_or_new(rows, channel, other)
        }),
{
    let q = channel_store::unread_of(channel, user);
    let p = channel_store::unread_of(channel, other);
    let key = channel_store::unread_key();
    let old_row = channel_store::unread_or_new(rows, channel, user);
    if table::any_row(rows, q) {
        table::lemma_first_row_matches(rows, q);
    }
    assert(old_row.channel == channel && old_row.user == user);
    let v = channel_store::with_mentions(old_row, messages);
    let after = channel_store::unreads_mentioning(rows, channel, user, messages);
    assert forall|i: int, j: int| 0 <= i < j < after.len() implies key(#[trigger] after[i]) != key(
        #[trigger] after[j],
    ) by {
        if j < rows.len() {
            assert(key(rows[i]) != key(rows[j]));
        } else {
            assert(!q(rows[i]));
        }
    }
    let at = if table::any_row(rows, q) {
        table::first_row(rows, q)
    } else {
        rows.len() as int
    };
    assert(after[at] == v);
    assert(q(after[at]));
    assert forall|j: int| 0 <= j < at implies !q(#[trigger] after[j]) by {
        assert(!q(rows[j]));
        assert(after[j] == rows[j]);
    }
    table::lemma_first_row(after, q, at);
    if other != user {
        assert forall|j: int| 0 <= j < rows.len() implies p(#[trigger] after[j]) == p(rows[j])
            && (p(rows[j]) ==> after[j] == rows[j]) by {}
        if table::any_row(rows, p) {
            table::lemma_first_row_matches(rows, p);
            let k = table::first_row(rows, p);
            assert(p(after[k]));
            assert forall|j: int| 0 <= j < k implies !p(#[trigger] after[j]) by {
                assert(!p(rows[j]));
            }
            table::lemma_first_row(after, p, k);
        } else if table::any_row(after, p) {
            let k = choose|k: int| 0 <= k < after.len() && p(#[trigger] after[k]);
            assert(k < rows.len());
            assert(p(rows[k]));
        }
    }
}

/// A new thread is told of in its server, its creation is announced in its parent in the
/// name of its creator, and the message that it was started from is stamped.
pub proof fn law_new_thread_is_told_of(
    t: ThreadCreated,
    made: ChannelView,
    creator: &User,
    origin: Option<OriginMessage>,
)
    requires
        made is Thread,
        channel_ops::thread_outcome(t, made, creator, origin),
    ensures
        t.channel@ == made,
        t.published@.topic == made->Thread_server,
        t.published@.event == EventV1View::ChannelCreate(made),
        t.stamped_message is Some <==> origin is Some,
        origin matches Some(m) ==> t.stamped_message->Some_0@ == m.id@,
        t.notice@.channel == made->Thread_parent_channel,
        t.notice@.message == (SystemMessageView::ThreadCreated {
            id: made->Thread_id,
            by: creator.id@,
            name: made->Thread_name,
        }),
        t.notice@.username == creator.username@,
{
}

/// A new post is told of in its server.
pub proof fn law_new_post_is_told_of(p: (Channel, Published), made: ChannelView)
    requires
        made is Thread,
        channel_ops::post_outcome(p, made),
    ensures
        p.0@ == made,
        p.1@.topic == made->Thread_server,
        p.1@.event == EventV1View::ChannelCreate(made),
{
}

/// Users are told of a new channel on their private topics, each once and in order.
pub proof fn law_users_are_told_of_a_channel(users: Seq<Seq<char>>, c: ChannelView, i: int)
    requires
        0 <= i < users.len(),
    ensures
        channel_ops::told(users, c).len() == users.len(),
        channel_ops::told(users, c)[i].topic == users[i] + "!"@,
        channel_ops::told(users, c)[i].event == EventV1View::ChannelCreate(c),
{
}

/// A group is told who left, or who was removed by whom, unless that is to be silent; and
/// who owns it now, where its owner left.
pub proof fn law_leaving_is_announced(
    group: ChannelView,
    user: &User,
    by: Option<Seq<char>>,
    silent: bool,
)
    requires
        group is Group,
    ensures
        ({
            let left = channel_ops::leaving_notice(group, user, by, silent);
            let owner = channel_ops::ownership_notice(group, user.id@);
            &&& left is None <==> silent
            &&& left matches Some(n) ==> n.channel == group->Group_id && n.username
                == user.username@ && n.message == match by {
                Some(by) => SystemMessageView::UserRemove { id: user.id@, by },
                None => SystemMessageView::UserLeft { id: user.id@ },
            }
            &&& owner is Some <==> user.id@ == group->Group_owner
            &&& owner matches Some(n) ==> n.channel == group->Group_id && n.username
                == group->Group_name && (channel_ops::next_owner(
                group->Group_recipients,
                user.id@,
            ) matches Some(next) ==> n.message == (SystemMessageView::ChannelOwnershipChanged {
                from: user.id@,
                to: next,
            }))
        }),
{
}

/// Threads and posts are refused for what is wrong, in order: the kind of channel, too many
/// active threads, and a duration that is not offered.
pub proof fn law_why_threads_are_refused(
    rows: Seq<ChannelView>,
    parent: ChannelView,
    origin: Option<OriginMessage>,
    minutes: Option<u32>,
    max_threads: usize,
)
    requires
        channel_ops::active_threads(rows, channels::id_of(parent)) < max_threads,
        minutes matches Some(m) ==> m != 60 && m != 1440 && m != 4320 && m != 10080,
        minutes is Some,
    ensures
        parent is TextChannel ==> channel_ops::thread_problem(
            rows,
            parent,
            origin,
            minutes,
            max_threads,
        ) == Some(Error::InvalidProperty),
        parent is Forum ==> channel_ops::post_problem(rows, parent, minutes, max_threads) == Some(
            Error::InvalidProperty,
        ),
{
}

/// A thread takes its permissions from its parent, where that is stored and can have
/// threads; any other channel has its own.
pub proof fn law_whose_permissions_apply(rows: Seq<ChannelView>, c: ChannelView, i: int)
    requires
        table::keyed::<Channel>(rows),
        0 <= i < rows.len(),
    ensures
        !(c is Thread) ==> channel_ops::target_of(rows, c) == Some(c),
        c is Thread && channels::id_of(rows[i]) == c->Thread_parent_channel && (
        rows[i] is TextChannel || rows[i] is Forum) ==> channel_ops::target_of(rows, c) == Some(
            rows[i],
        ),
        c is Thread && channels::id_of(rows[i]) == c->Thread_parent_channel && !(
        rows[i] is TextChannel || rows[i] is Forum) ==> channel_ops::target_of(rows, c) is None,
{
    if c is Thread && channels::id_of(rows[i]) == c->Thread_parent_channel {
        table::lemma_keyed_row::<Channel>(rows, c->Thread_parent_channel, i);
    }
}

/// The icon of a new group is the file that was named, claimed for the group by its owner;
/// all other files stay as they are.
pub proof fn law_icon_is_claimed_for_the_group(
    list: Seq<FileView>,
    icon: Option<String>,
    group: Seq<char>,
    owner: Seq<char>,
    i: int,
)
    requires
        table::keyed::<File>(list),
        0 <= i < list.len(),
    ensures
        ({
            let claimed = channel_ops::icon_claimed(list, icon, group, owner);
            let after = channel_ops::files_after_icon(list, icon, group, owner);
            &&& icon is None ==> claimed is None && after == list
            &&& icon is Some ==> claimed is Some && after.len() == list.len()
            &&& icon is Some && list[i].id == icon->Some_0@ ==> {
                &&& claimed->Some_0.id == list[i].id
                &&& claimed->Some_0.used_for == Some((FileUsedForType::ChannelIcon, group))
                &&& claimed->Some_0.uploader_id == Some(owner)
                &&& after[i] == claimed->Some_0
            }
            &&& icon is Some && list[i].id != icon->Some_0@ ==> after[i] == list[i]
        }),
{
    if icon is Some && list[i].id == icon->Some_0@ {
        table::lemma_keyed_row::<File>(list, icon->Some_0@, i);
    }
}

/// A server learns of a channel that was made for it: its list of channels, and nothing else
/// of it, is changed, and the channel is told of on its topic.
pub proof fn law_server_learns_of_its_channel(
    e: ServerExtended,
    server: ServerView,
    made: ChannelView,
)
    requires
        e.tells(server, made),
    ensures
        e.change@.channels == Some(server.channels),
        e.change@.owner is None && e.change@.name is None && e.change@.description is None
            && e.change@.default_permissions is None,
        e.created@.topic == server.id,
        e.created@.event == EventV1View::ChannelCreate(made),
{
}

/// A new forum shows posts by their latest activity, and demands no tags.
pub proof fn law_new_forum_is_sorted_by_activity(
    data: DataCreateServerChannel,
    id: Seq<char>,
    server: Seq<char>,
)
    requires
        data.channel_type == ServerChannelType::Forum,
    ensures
        data.made(id, server)->Forum_default_sort == ForumSortOrder::LatestActivity,
        !data.made(id, server)->Forum_require_tag,
{
}

} // verus!
