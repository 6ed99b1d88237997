//! The stored channels, who joined which thread, and what users have not read.
use crate::channels::{self, Channel, ChannelView, FieldsChannel, OverrideField, PartialChannel, PartialChannelView, RolePermission, RolePermissionView};
use crate::db::ReferenceDb;
use crate::error::Error;
use crate::files;
use crate::ids::{self, new_id};
use crate::table::{self, KeyedRow, Row, Table};
use crate::text::{
    self, contains_text, copy_opt, copy_opt_texts, copy_texts, distinct_texts, is_before, same,
};
use vstd::prelude::*;

verus! {

/// A user who joined a thread.
#[derive(Clone, Debug, PartialEq, Eq)]
pub struct ThreadMember {
    pub thread: String,
    pub user: String,
}

/// What a [`ThreadMember`] holds.
pub struct ThreadMemberView {
    pub thread: Seq<char>,
    pub user: Seq<char>,
}

impl View for ThreadMember {
    type V = ThreadMemberView;

    open spec fn view(&self) -> ThreadMemberView {
        ThreadMemberView {
            thread: self.thread@,
            user: self.user@,
        }
    }
}

impl Row for ThreadMember {
    fn dup(&self) -> (r: Self) {
        ThreadMember {
            thread: self.thread.clone(),
            user: self.user.clone(),
        }
    }
}

/// What a user has not read in a channel.
#[derive(Clone, Debug, PartialEq, Eq)]
pub struct ChannelUnread {
    pub channel: String,
    pub user: String,
    /// The last message that the user acknowledged.
    pub last_id: Option<String>,
    /// Messages that mention the user.
    pub mentions: Option<Vec<String>>,
}

/// What a [`ChannelUnread`] holds.
pub struct ChannelUnreadView {
    pub channel: Seq<char>,
    pub user: Seq<char>,
    pub last_id: Option<Seq<char>>,
    pub mentions: Option<Seq<Seq<char>>>,
}

impl View for ChannelUnread {
    type V = ChannelUnreadView;

    open spec fn view(&self) -> ChannelUnreadView {
        ChannelUnreadView {
            channel: self.channel@,
            user: self.user@,
            last_id: text::opt_text(self.last_id),
            mentions: text::opt_texts(self.mentions),
        }
    }
}

impl Row for ChannelUnread {
    fn dup(&self) -> (r: Self) {
        ChannelUnread {
            channel: self.channel.clone(),
            user: self.user.clone(),
            last_id: copy_opt(&self.last_id),
            mentions: copy_opt_texts(&self.mentions),
        }
    }
}

/// The key of a membership.
pub open spec fn membership_key() -> spec_fn(ThreadMemberView) -> (Seq<char>, Seq<char>) {
    |m: ThreadMemberView| (m.thread, m.user)
}

/// Whether a user joined a thread at most once.
pub open spec fn memberships_apart(rows: Seq<ThreadMemberView>) -> bool {
    table::unique_by(rows, membership_key())
}

/// Memberships of a user in a thread.
pub open spec fn membership_of(thread: Seq<char>, user: Seq<char>) -> spec_fn(ThreadMemberView) -> bool {
    |m: ThreadMemberView| m.thread == thread && m.user == user
}

/// Memberships in other threads.
pub open spec fn membership_not_in(thread: Seq<char>) -> spec_fn(ThreadMemberView) -> bool {
    |m: ThreadMemberView| m.thread != thread
}

/// Memberships once a user joined a thread.
pub open spec fn with_membership(rows: Seq<ThreadMemberView>, thread: Seq<char>, user: Seq<char>) -> Seq<
    ThreadMemberView,
> {
    if table::any_row(rows, membership_of(thread, user)) {
        rows
    } else {
        rows.push(ThreadMemberView { thread, user })
    }
}

/// The key of an unread.
pub open spec fn unread_key() -> spec_fn(ChannelUnreadView) -> (Seq<char>, Seq<char>) {
    |u: ChannelUnreadView| (u.channel, u.user)
}

/// Whether there is at most one unread for a channel and a user.
pub open spec fn unreads_apart(rows: Seq<ChannelUnreadView>) -> bool {
    table::unique_by(rows, unread_key())
}

/// Unreads of a user in a channel.
pub open spec fn unread_of(channel: Seq<char>, user: Seq<char>) -> spec_fn(ChannelUnreadView) -> bool {
    |u: ChannelUnreadView| u.channel == channel && u.user == user
}

/// Unreads of a user.
pub open spec fn unread_by(user: Seq<char>) -> spec_fn(ChannelUnreadView) -> bool {
    |u: ChannelUnreadView| u.user == user
}

/// Unreads of a user with mentions.
pub open spec fn mentioned(user: Seq<char>) -> spec_fn(ChannelUnreadView) -> bool {
    |u: ChannelUnreadView| u.user == user && u.mentions is Some
}

/// Unreads in other channels.
pub open spec fn unread_not_in(channel: Seq<char>) -> spec_fn(ChannelUnreadView) -> bool {
    |u: ChannelUnreadView| u.channel != channel
}

/// The unread of a user in a channel, where there is one; else an empty one.
pub open spec fn unread_or_new(rows: Seq<ChannelUnreadView>, channel: Seq<char>, user: Seq<char>) -> ChannelUnreadView {
    if table::any_row(rows, unread_of(channel, user)) {
        rows[table::first_row(rows, unread_of(channel, user))]
    } else {
        ChannelUnreadView { channel, user, last_id: None, mentions: None }
    }
}

/// Unreads with one put in under its key: it takes the place of the one that had the
/// key, or comes last.
pub open spec fn with_unread(rows: Seq<ChannelUnreadView>, v: ChannelUnreadView) -> Seq<
    ChannelUnreadView,
> {
    if table::any_row(rows, unread_of(v.channel, v.user)) {
        table::mapped(rows, unread_of(v.channel, v.user), |u: ChannelUnreadView| v)
    } else {
        rows.push(v)
    }
}

/// Messages after a given one: ids sort by time.
pub open spec fn sent_after(message: Seq<char>) -> spec_fn(Seq<char>) -> bool {
    |m: Seq<char>| text::text_before(message, m)
}

/// An unread once a message was acknowledged: mentions up to it are gone.
pub open spec fn acknowledged(u: ChannelUnreadView, message: Seq<char>) -> ChannelUnreadView {
    ChannelUnreadView {
        last_id: Some(message),
        mentions: match u.mentions {
            Some(list) => Some(list.filter(sent_after(message))),
            None => None,
        },
        ..u
    }
}

/// An unread with more mentions.
pub open spec fn with_mentions(u: ChannelUnreadView, messages: Seq<Seq<char>>) -> ChannelUnreadView {
    ChannelUnreadView {
        mentions: match u.mentions {
            Some(list) => Some(list + messages),
            None => Some(messages),
        },
        ..u
    }
}

/// Unreads once messages mention a user.
pub open spec fn unreads_mentioning(
    rows: Seq<ChannelUnreadView>,
    channel: Seq<char>,
    user: Seq<char>,
    messages: Seq<Seq<char>>,
) -> Seq<ChannelUnreadView> {
    with_unread(rows, with_mentions(unread_or_new(rows, channel, user), messages))
}

/// Unreads once messages mention several users, one after the other.
pub open spec fn unreads_mentioning_all(
    rows: Seq<ChannelUnreadView>,
    channel: Seq<char>,
    users: Seq<Seq<char>>,
    messages: Seq<Seq<char>>,
) -> Seq<ChannelUnreadView>
    decreases users.len(),
{
    if users.len() == 0 {
        rows
    } else {
        unreads_mentioning(
            unreads_mentioning_all(rows, channel, users.drop_last(), messages),
            channel,
            users.last(),
            messages,
        )
    }
}

/// Unreads other than a user's in the channels of a list.
pub open spec fn unread_not_among(channels: Seq<Seq<char>>, user: Seq<char>) -> spec_fn(ChannelUnreadView) -> bool {
    |u: ChannelUnreadView| !(u.user == user && channels.contains(u.channel))
}

/// A user's unreads, acknowledged up to a given message, in the channels of a list.
pub open spec fn all_read(channels: Seq<Seq<char>>, user: Seq<char>, stamp: Seq<char>) -> Seq<
    ChannelUnreadView,
> {
    Seq::new(
        channels.len(),
        |i: int|
            ChannelUnreadView { channel: channels[i], user, last_id: Some(stamp), mentions: None },
    )
}

/// Unreads in channels that are not both in a list and gone.
pub open spec fn unread_not_gone(channels: Seq<ChannelView>, ids: Seq<Seq<char>>) -> spec_fn(ChannelUnreadView) -> bool {
    |u: ChannelUnreadView|
        !(ids.contains(u.channel) && !table::has_id::<Channel>(channels, u.channel))
}

/// Unreads once a user has read the channels of a list up to a stamp: in each channel of
/// the list that is still there the user has one unread, with the stamp, and in those
/// that are gone nobody has one.
pub open spec fn unreads_acknowledged(
    rows: Seq<ChannelUnreadView>,
    channels: Seq<ChannelView>,
    list: Seq<Seq<char>>,
    user: Seq<char>,
    stamp: Seq<char>,
) -> Seq<ChannelUnreadView> {
    let ids = text::distinct(list);
    (rows.filter(unread_not_among(ids, user)) + all_read(ids, user, stamp)).filter(
        unread_not_gone(channels, ids),
    )
}

/// Threads of a parent channel.
pub open spec fn thread_of(parent: Seq<char>) -> spec_fn(ChannelView) -> bool {
    |c: ChannelView| c is Thread && c->Thread_parent_channel == parent
}

/// Threads that can be archived for inactivity: not archived, and with a duration.
pub open spec fn may_archive() -> spec_fn(ChannelView) -> bool {
    |c: ChannelView| c is Thread && !c->Thread_archived && c->Thread_auto_archive_minutes != 0
}

/// Channels whose id is in a list.
pub open spec fn channel_among(ids: Seq<Seq<char>>) -> spec_fn(ChannelView) -> bool {
    |c: ChannelView| ids.contains(channels::id_of(c))
}

/// Channels that a user takes part in.
pub open spec fn with_user(user: Seq<char>) -> spec_fn(ChannelView) -> bool {
    |c: ChannelView| channels::has_user(c, user)
}

/// Groups that a user takes part in.
pub open spec fn group_with(user: Seq<char>) -> spec_fn(ChannelView) -> bool {
    |c: ChannelView| c is Group && channels::has_user(c, user)
}

/// A user's saved messages.
pub open spec fn saved_of(user: Seq<char>) -> spec_fn(ChannelView) -> bool {
    |c: ChannelView| c is SavedMessages && c->user == user
}

/// The direct messages of two users, or the saved messages of one.
pub open spec fn direct_between(a: Seq<char>, b: Seq<char>) -> spec_fn(ChannelView) -> bool {
    |c: ChannelView|
        if a == b {
            c is SavedMessages && c->user == a
        } else {
            c is DirectMessage && channels::has_user(c, a) && channels::has_user(c, b)
        }
}

/// The last message of a channel, where its kind keeps one.
pub open spec fn last_message_of(c: ChannelView) -> Option<Seq<char>> {
    match c {
        ChannelView::DirectMessage { last_message_id, .. } => last_message_id,
        ChannelView::Group { last_message_id, .. } => last_message_id,
        ChannelView::TextChannel { last_message_id, .. } => last_message_id,
        ChannelView::Thread { last_message_id, .. } => last_message_id,
        ChannelView::Forum { last_message_id, .. } => last_message_id,
        ChannelView::SavedMessages { .. } => None,
    }
}

/// Whether a message is newer than the last one of a channel that keeps one.
pub open spec fn is_newer(c: ChannelView, message: Seq<char>) -> bool {
    !(c is SavedMessages) && (last_message_of(c) matches Some(last) ==> text::text_before(
        last,
        message,
    ))
}

/// A channel with a new last message; a direct message channel is opened where that is
/// asked for.
pub open spec fn with_last_message(c: ChannelView, message: Seq<char>, reopen: bool) -> ChannelView {
    match c {
        ChannelView::SavedMessages { .. } => c,
        ChannelView::DirectMessage { id, active, recipients, last_message_id } => ChannelView::DirectMessage {
            id,
            active: active || reopen,
            recipients,
            last_message_id: Some(message),
        },
        ChannelView::Group { id, name, owner, description, recipients, icon, last_message_id, permissions, nsfw, spoiler, voice } => ChannelView::Group {
            id,
            name,
            owner,
            description,
            recipients,
            icon,
            last_message_id: Some(message),
            permissions,
            nsfw,
            spoiler,
            voice,
        },
        ChannelView::TextChannel { id, server, name, description, icon, last_message_id, default_permissions, role_permissions, nsfw, spoiler, voice, slowmode, announcement } => ChannelView::TextChannel {
            id,
            server,
            name,
            description,
            icon,
            last_message_id: Some(message),
            default_permissions,
            role_permissions,
            nsfw,
            spoiler,
            voice,
            slowmode,
            announcement,
        },
        ChannelView::Thread { id, server, parent_channel, name, creator, origin_message_id, last_message_id, archived, archived_timestamp, auto_archive_minutes, locked, applied_tags } => ChannelView::Thread {
            id,
            server,
            parent_channel,
            name,
            creator,
            origin_message_id,
            last_message_id: Some(message),
            archived,
            archived_timestamp,
            auto_archive_minutes,
            locked,
            applied_tags,
        },
        ChannelView::Forum { id, server, name, description, icon, last_message_id, default_permissions, role_permissions, nsfw, spoiler, tags, require_tag, default_sort } => ChannelView::Forum {
            id,
            server,
            name,
            description,
            icon,
            last_message_id: Some(message),
            default_permissions,
            role_permissions,
            nsfw,
            spoiler,
            tags,
            require_tag,
            default_sort,
        },
    }
}

/// A group with one more member; other channels stay as they are.
pub open spec fn with_recipient(user: Seq<char>) -> spec_fn(ChannelView) -> ChannelView {
    |c: ChannelView|
        match c {
            ChannelView::Group { id, name, owner, description, recipients, icon, last_message_id, permissions, nsfw, spoiler, voice } => ChannelView::Group {
                id,
                name,
                owner,
                description,
                recipients: recipients.push(user),
                icon,
                last_message_id,
                permissions,
                nsfw,
                spoiler,
                voice,
            },
            _ => c,
        }
}

/// Other users.
pub open spec fn not_user(user: Seq<char>) -> spec_fn(Seq<char>) -> bool {
    |u: Seq<char>| u != user
}

/// A group without a member; other channels stay as they are.
pub open spec fn without_recipient(user: Seq<char>) -> spec_fn(ChannelView) -> ChannelView {
    |c: ChannelView|
        match c {
            ChannelView::Group { id, name, owner, description, recipients, icon, last_message_id, permissions, nsfw, spoiler, voice } => ChannelView::Group {
                id,
                name,
                owner,
                description,
                recipients: recipients.filter(not_user(user)),
                icon,
                last_message_id,
                permissions,
                nsfw,
                spoiler,
                voice,
            },
            _ => c,
        }
}

/// A server channel with the permissions of a role set; other channels stay as they
/// are.
pub open spec fn with_role_permission(c: ChannelView, role: Seq<char>, permissions: OverrideField) -> ChannelView {
    let v = RolePermissionView { role, permissions };
    match c {
        ChannelView::TextChannel { id, server, name, description, icon, last_message_id, default_permissions, role_permissions, nsfw, spoiler, voice, slowmode, announcement } => ChannelView::TextChannel {
            id,
            server,
            name,
            description,
            icon,
            last_message_id,
            default_permissions,
            role_permissions: table::upserted::<RolePermission>(role_permissions, v),
            nsfw,
            spoiler,
            voice,
            slowmode,
            announcement,
        },
        ChannelView::Forum { id, server, name, description, icon, last_message_id, default_permissions, role_permissions, nsfw, spoiler, tags, require_tag, default_sort } => ChannelView::Forum {
            id,
            server,
            name,
            description,
            icon,
            last_message_id,
            default_permissions,
            role_permissions: table::upserted::<RolePermission>(role_permissions, v),
            nsfw,
            spoiler,
            tags,
            require_tag,
            default_sort,
        },
        _ => c,
    }
}

/// The roles with permissions in a channel.
pub open spec fn roles_in(c: ChannelView) -> Seq<RolePermissionView> {
    match c {
        ChannelView::TextChannel { role_permissions, .. } => role_permissions,
        ChannelView::Forum { role_permissions, .. } => role_permissions,
        _ => Seq::empty(),
    }
}

/// The texts of a list that satisfy a predicate.
fn keep_texts(
    list: &Vec<String>,
    p: impl Fn(&String) -> bool,
    Ghost(q): Ghost<spec_fn(Seq<char>) -> bool>,
) -> (r: Vec<String>)
    requires
        forall|x: &String| #[trigger] call_requires(p, (x,)),
        forall|x: &String, b: bool| #[trigger] call_ensures(p, (x,), b) ==> b == q(x@),
    ensures
        text::texts(r@) == text::texts(list@).filter(q),
{
    let mut out: Vec<String> = Vec::new();
    let ghost all = text::texts(list@);
    let mut i: usize = 0;
    proof {
        reveal(Seq::filter);
        assert(text::texts(out@) =~= all.take(0).filter(q));
    }
    while i < list.len()
        invariant
            i <= list.len(),
            all == text::texts(list@),
            forall|x: &String| #[trigger] call_requires(p, (x,)),
            forall|x: &String, b: bool| #[trigger] call_ensures(p, (x,), b) ==> b == q(x@),
            text::texts(out@) == all.take(i as int).filter(q),
        decreases list.len() - i,
    {
        proof {
            table::lemma_filter_take(all, q, i as int);
        }
        if p(&list[i]) {
            let ghost before = out@;
            out.push(list[i].clone());
            assert(text::texts(out@) =~= text::texts(before).push(all[i as int]));
        }
        i = i + 1;
    }
    assert(all.take(i as int) =~= all);
    out
}

impl Channel {
    /// Gives a channel a new last message.
    pub(crate) fn set_last_message(&mut self, message: &str, reopen: bool)
        ensures
            final(self)@ == with_last_message(old(self)@, message@, reopen),
    {
        match self {
            Channel::SavedMessages { .. } => {},
            Channel::DirectMessage { active, last_message_id, .. } => {
                if reopen {
                    *active = true;
                }
                *last_message_id = Some(message.to_owned());
            },
            Channel::Group { last_message_id, .. } => {
                *last_message_id = Some(message.to_owned());
            },
            Channel::TextChannel { last_message_id, .. } => {
                *last_message_id = Some(message.to_owned());
            },
            Channel::Thread { last_message_id, .. } => {
                *last_message_id = Some(message.to_owned());
            },
            Channel::Forum { last_message_id, .. } => {
                *last_message_id = Some(message.to_owned());
            },
        }
    }

    /// Whether a message is newer than the last one.
    pub(crate) fn is_newer(&self, message: &str) -> (r: bool)
        ensures
            r == is_newer(self@, message@),
    {
        let last = match self {
            Channel::SavedMessages { .. } => {
                return false;
            },
            Channel::DirectMessage { last_message_id, .. } => last_message_id,
            Channel::Group { last_message_id, .. } => last_message_id,
            Channel::TextChannel { last_message_id, .. } => last_message_id,
            Channel::Thread { last_message_id, .. } => last_message_id,
            Channel::Forum { last_message_id, .. } => last_message_id,
        };
        match last {
            Some(last) => is_before(last.as_str(), message),
            None => true,
        }
    }

    /// Sets the permissions of a role.
    pub(crate) fn put_role_permission(&mut self, role: &str, permissions: OverrideField)
        ensures
            final(self)@ == with_role_permission(old(self)@, role@, permissions),
    {
        match self {
            Channel::TextChannel { role_permissions, .. } => {
                role_permissions.put(role, permissions);
            },
            Channel::Forum { role_permissions, .. } => {
                role_permissions.put(role, permissions);
            },
            _ => {},
        }
    }
}

impl ReferenceDb {
    /// Adds a channel; its id must be new.
    pub fn insert_channel(&mut self, channel: &Channel) -> (r: Result<(), Error>)
        requires
            old(self).wf(),
        ensures
            final(self).wf(),
            *final(self) == (ReferenceDb { channels: final(self).channels, ..*old(self) }),
            if table::has_id::<Channel>(old(self).channels@, channels::id_of(channel@)) {
                r == Err::<(), Error>(
                    Error::DatabaseError { operation: "insert", collection: "channels" },
                ) && final(self).channels@ == old(self).channels@
            } else {
                r == Ok::<(), Error>(()) && final(self).channels@ == old(self).channels@.push(
                    channel@,
                )
            },
    {
        if self.channels.contains_id(channel.id()) {
            Err(Error::DatabaseError { operation: "insert", collection: "channels" })
        } else {
            proof {
                table::lemma_keyed_push::<Channel>(self.channels@, channel@);
            }
            self.channels.push(channel.dup());
            Ok(())
        }
    }

    /// The channel with an id.
    pub fn fetch_channel(&self, channel_id: &str) -> (r: Result<Channel, Error>)
        ensures
            if table::has_id::<Channel>(self.channels@, channel_id@) {
                r is Ok && r->Ok_0@ == table::row_of::<Channel>(self.channels@, channel_id@)
            } else {
                r == Err::<Channel, Error>(Error::NotFound)
            },
    {
        match self.channels.fetch(channel_id) {
            Some(c) => Ok(c),
            None => Err(Error::NotFound),
        }
    }

    /// Channels whose id is in a list.
    pub fn fetch_channels(&self, ids: &Vec<String>) -> (r: Vec<Channel>)
        ensures
            table::row_views(r@) == self.channels@.filter(channel_among(text::texts(ids@))),
    {
        let ghost q = channel_among(text::texts(ids@));
        let p = |c: &Channel| -> (b: bool)
            ensures
                b == q(c@),
            { contains_text(ids, c.id()) };
        self.channels.select(p, Ghost(q))
    }

    /// Threads of a parent channel.
    pub fn fetch_threads_by_parent(&self, parent_id: &str) -> (r: Vec<Channel>)
        ensures
            table::row_views(r@) == self.channels@.filter(thread_of(parent_id@)),
    {
        let p = |c: &Channel| -> (b: bool)
            ensures
                b == thread_of(parent_id@)(c@),
            {
                match c {
                    Channel::Thread { parent_channel, .. } => same(parent_channel.as_str(), parent_id),
                    _ => false,
                }
            };
        self.channels.select(p, Ghost(thread_of(parent_id@)))
    }

    /// Threads that can be archived for inactivity.
    pub fn fetch_active_threads(&self) -> (r: Vec<Channel>)
        ensures
            table::row_views(r@) == self.channels@.filter(may_archive()),
    {
        let p = |c: &Channel| -> (b: bool)
            ensures
                b == may_archive()(c@),
            {
                match c {
                    Channel::Thread { archived, auto_archive_minutes, .. } => !*archived
                        && *auto_archive_minutes != 0,
                    _ => false,
                }
            };
        self.channels.select(p, Ghost(may_archive()))
    }

    /// Direct messages, groups and saved messages of a user.
    pub fn find_direct_messages(&self, user_id: &str) -> (r: Vec<Channel>)
        ensures
            table::row_views(r@) == self.channels@.filter(with_user(user_id@)),
    {
        let p = |c: &Channel| -> (b: bool)
            ensures
                b == with_user(user_id@)(c@),
            { c.contains_user(user_id) };
        self.channels.select(p, Ghost(with_user(user_id@)))
    }

    /// Groups of a user.
    pub fn find_group_message_channels(&self, user_id: &str) -> (r: Vec<Channel>)
        ensures
            table::row_views(r@) == self.channels@.filter(group_with(user_id@)),
    {
        let p = |c: &Channel| -> (b: bool)
            ensures
                b == group_with(user_id@)(c@),
            {
                match c {
                    Channel::Group { .. } => c.contains_user(user_id),
                    _ => false,
                }
            };
        self.channels.select(p, Ghost(group_with(user_id@)))
    }

    fn first_channel(
        &self,
        p: impl Fn(&Channel) -> bool,
        Ghost(q): Ghost<spec_fn(ChannelView) -> bool>,
    ) -> (r: Result<Channel, Error>)
        requires
            forall|x: &Channel| #[trigger] call_requires(p, (x,)),
            forall|x: &Channel, b: bool| #[trigger] call_ensures(p, (x,), b) ==> b == q(x@),
        ensures
            if table::any_row(self.channels@, q) {
                r is Ok && r->Ok_0@ == self.channels@[table::first_row(self.channels@, q)]
            } else {
                r == Err::<Channel, Error>(Error::NotFound)
            },
    {
        match self.channels.find(p, Ghost(q)) {
            Some(i) => Ok(self.channels.get(i)),
            None => Err(Error::NotFound),
        }
    }

    /// The saved messages of a user.
    pub fn find_saved_messages_channel(&self, user_id: &str) -> (r: Result<Channel, Error>)
        ensures
            if table::any_row(self.channels@, saved_of(user_id@)) {
                r is Ok && r->Ok_0@ == self.channels@[table::first_row(
                    self.channels@,
                    saved_of(user_id@),
                )]
            } else {
                r == Err::<Channel, Error>(Error::NotFound)
            },
    {
        let p = |c: &Channel| -> (b: bool)
            ensures
                b == saved_of(user_id@)(c@),
            {
                match c {
                    Channel::SavedMessages { user, .. } => same(user.as_str(), user_id),
                    _ => false,
                }
            };
        self.first_channel(p, Ghost(saved_of(user_id@)))
    }

    /// The direct messages of two users, or the saved messages of one.
    pub fn find_direct_message_channel(&self, user_a: &str, user_b: &str) -> (r: Result<
        Channel,
        Error,
    >)
        ensures
            if table::any_row(self.channels@, direct_between(user_a@, user_b@)) {
                r is Ok && r->Ok_0@ == self.channels@[table::first_row(
                    self.channels@,
                    direct_between(user_a@, user_b@),
                )]
            } else {
                r == Err::<Channel, Error>(Error::NotFound)
            },
    {
        let own: bool = same(user_a, user_b);
        let p = |c: &Channel| -> (b: bool)
            ensures
                b == direct_between(user_a@, user_b@)(c@),
            {
                match c {
                    Channel::SavedMessages { user, .. } => own && same(user.as_str(), user_a),
                    Channel::DirectMessage { .. } => !own && c.contains_user(user_a)
                        && c.contains_user(user_b),
                    _ => false,
                }
            };
        self.first_channel(p, Ghost(direct_between(user_a@, user_b@)))
    }

    fn change_channel(
        &mut self,
        i: usize,
        channel: Channel,
        Ghost(f): Ghost<spec_fn(ChannelView) -> ChannelView>,
    )
        requires
            old(self).wf(),
            i < old(self).channels@.len(),
            channel@ == f(old(self).channels@[i as int]),
            channels::id_of(channel@) == channels::id_of(old(self).channels@[i as int]),
        ensures
            final(self).wf(),
            *final(self) == (ReferenceDb { channels: final(self).channels, ..*old(self) }),
            final(self).channels@ == table::mapped(
                old(self).channels@,
                table::with_id::<Channel>(channels::id_of(old(self).channels@[i as int])),
                f,
            ),
    {
        self.channels.replace(i, channel, Ghost(f));
    }

    /// Adds a user to a group.
    pub fn add_user_to_group(&mut self, channel_id: &str, user_id: &str) -> (r: Result<(), Error>)
        requires
            old(self).wf(),
        ensures
            final(self).wf(),
            *final(self) == (ReferenceDb { channels: final(self).channels, ..*old(self) }),
            r == group_outcome(old(self).channels@, channel_id@),
            final(self).channels@ == table::mapped(
                old(self).channels@,
                table::with_id::<Channel>(channel_id@),
                with_recipient(user_id@),
            ),
    {
        let ghost f = with_recipient(user_id@);
        match self.channels.position(channel_id) {
            Some(i) => {
                let mut channel = self.channels.get(i);
                let group: bool = match &mut channel {
                    Channel::Group { recipients, .. } => {
                        let ghost before = recipients@;
                        recipients.push(user_id.to_owned());
                        assert(text::texts(recipients@) =~= text::texts(before).push(user_id@));
                        true
                    },
                    _ => false,
                };
                self.change_channel(i, channel, Ghost(f));
                if group {
                    Ok(())
                } else {
                    Err(Error::InvalidOperation)
                }
            },
            None => {
                proof {
                    table::lemma_mapped_none(
                        self.channels@,
                        table::with_id::<Channel>(channel_id@),
                        f,
                    );
                }
                Err(Error::NotFound)
            },
        }
    }

    /// Removes a user from a group.
    pub fn remove_user_from_group(&mut self, channel_id: &str, user_id: &str) -> (r: Result<
        (),
        Error,
    >)
        requires
            old(self).wf(),
        ensures
            final(self).wf(),
            *final(self) == (ReferenceDb { channels: final(self).channels, ..*old(self) }),
            r == group_outcome(old(self).channels@, channel_id@),
            final(self).channels@ == table::mapped(
                old(self).channels@,
                table::with_id::<Channel>(channel_id@),
                without_recipient(user_id@),
            ),
    {
        let ghost f = without_recipient(user_id@);
        match self.channels.position(channel_id) {
            Some(i) => {
                let mut channel = self.channels.get(i);
                let group: bool = match &mut channel {
                    Channel::Group { recipients, .. } => {
                        let p = |u: &String| -> (b: bool)
                            ensures
                                b == not_user(user_id@)(u@),
                            { !same(u.as_str(), user_id) };
                        *recipients = keep_texts(recipients, p, Ghost(not_user(user_id@)));
                        true
                    },
                    _ => false,
                };
                self.change_channel(i, channel, Ghost(f));
                if group {
                    Ok(())
                } else {
                    Err(Error::InvalidOperation)
                }
            },
            None => {
                proof {
                    table::lemma_mapped_none(
                        self.channels@,
                        table::with_id::<Channel>(channel_id@),
                        f,
                    );
                }
                Err(Error::NotFound)
            },
        }
    }

    /// Removes a user from those of several channels that are groups.
    pub fn remove_user_from_groups(&mut self, channel_ids: &Vec<String>, user_id: &str)
        requires
            old(self).wf(),
        ensures
            final(self).wf(),
            *final(self) == (ReferenceDb { channels: final(self).channels, ..*old(self) }),
            final(self).channels@ == without_recipient_in(
                old(self).channels@,
                text::texts(channel_ids@),
                user_id@,
            ),
    {
        let ghost first = self.channels@;
        let ghost all = text::texts(channel_ids@);
        let mut i: usize = 0;
        assert(all.take(0) =~= Seq::<Seq<char>>::empty());
        while i < channel_ids.len()
            invariant
                i <= channel_ids.len(),
                all == text::texts(channel_ids@),
                self.wf(),
                *self == (ReferenceDb { channels: self.channels, ..*old(self) }),
                self.channels@ == without_recipient_in(first, all.take(i as int), user_id@),
            decreases channel_ids.len() - i,
        {
            assert(all.take(i + 1).drop_last() =~= all.take(i as int));
            let removed = self.remove_user_from_group(channel_ids[i].as_str(), user_id);
            i = i + 1;
        }
        assert(all.take(i as int) =~= all);
    }

    /// Sets the permissions of a role in a server channel.
    pub fn set_channel_role_permission(
        &mut self,
        channel_id: &str,
        role_id: &str,
        permissions: OverrideField,
    ) -> (r: Result<(), Error>)
        requires
            old(self).wf(),
        ensures
            final(self).wf(),
            *final(self) == (ReferenceDb { channels: final(self).channels, ..*old(self) }),
            r == (if table::has_id::<Channel>(old(self).channels@, channel_id@) && has_roles(
                table::row_of::<Channel>(old(self).channels@, channel_id@),
            ) {
                Ok::<(), Error>(())
            } else {
                Err::<(), Error>(Error::NotFound)
            }),
            final(self).channels@ == table::mapped(
                old(self).channels@,
                table::with_id::<Channel>(channel_id@),
                |c: ChannelView| with_role_permission(c, role_id@, permissions),
            ),
    {
        let ghost f = |c: ChannelView| with_role_permission(c, role_id@, permissions);
        match self.channels.position(channel_id) {
            Some(i) => {
                let mut channel = self.channels.get(i);
                let fits: bool = match &channel {
                    Channel::TextChannel { .. } => true,
                    Channel::Forum { .. } => true,
                    _ => false,
                };
                channel.put_role_permission(role_id, permissions);
                self.change_channel(i, channel, Ghost(f));
                if fits {
                    Ok(())
                } else {
                    Err(Error::NotFound)
                }
            },
            None => {
                proof {
                    table::lemma_mapped_none(
                        self.channels@,
                        table::with_id::<Channel>(channel_id@),
                        f,
                    );
                }
                Err(Error::NotFound)
            },
        }
    }

    /// Unsets fields of a channel and applies new values.
    pub fn update_channel(
        &mut self,
        id: &str,
        partial: &PartialChannel,
        remove: &Vec<FieldsChannel>,
    ) -> (r: Result<(), Error>)
        requires
            old(self).wf(),
        ensures
            final(self).wf(),
            *final(self) == (ReferenceDb { channels: final(self).channels, ..*old(self) }),
            r == files::found_or_not(table::has_id::<Channel>(old(self).channels@, id@)),
            final(self).channels@ == table::mapped(
                old(self).channels@,
                table::with_id::<Channel>(id@),
                updated(partial@, remove@),
            ),
    {
        let ghost f = updated(partial@, remove@);
        match self.channels.position(id) {
            Some(i) => {
                let mut channel = self.channels.get(i);
                proof {
                    lemma_update_keeps_id(channel@, partial@, remove@);
                }
                channel.remove_each(remove);
                channel.apply_options(partial.dup());
                self.change_channel(i, channel, Ghost(f));
                Ok(())
            },
            None => {
                proof {
                    table::lemma_mapped_none(self.channels@, table::with_id::<Channel>(id@), f);
                }
                Err(Error::NotFound)
            },
        }
    }

    /// Notes a message as the last one of a channel, unless the channel has the same or
    /// a newer one; tells whether it was noted. Where asked for, a direct message
    /// channel is opened along with it.
    pub fn set_last_message_id_if_newer(
        &mut self,
        channel_id: &str,
        message_id: &str,
        reopen_dm: bool,
    ) -> (r: bool)
        requires
            old(self).wf(),
        ensures
            final(self).wf(),
            *final(self) == (ReferenceDb { channels: final(self).channels, ..*old(self) }),
            r == (table::has_id::<Channel>(old(self).channels@, channel_id@) && is_newer(
                table::row_of::<Channel>(old(self).channels@, channel_id@),
                message_id@,
            )),
            final(self).channels@ == if r {
                table::mapped(
                    old(self).channels@,
                    table::with_id::<Channel>(channel_id@),
                    |c: ChannelView| with_last_message(c, message_id@, reopen_dm),
                )
            } else {
                old(self).channels@
            },
    {
        match self.channels.position(channel_id) {
            Some(i) => {
                let mut channel = self.channels.get(i);
                if channel.is_newer(message_id) {
                    channel.set_last_message(message_id, reopen_dm);
                    self.change_channel(
                        i,
                        channel,
                        Ghost(|c: ChannelView| with_last_message(c, message_id@, reopen_dm)),
                    );
                    true
                } else {
                    false
                }
            },
            None => false,
        }
    }

    /// Removes a channel and what users have not read in it.
    pub fn delete_channel(&mut self, channel: &Channel)
        requires
            old(self).wf(),
        ensures
            final(self).wf(),
            *final(self) == (ReferenceDb {
                channels: final(self).channels,
                channel_unreads: final(self).channel_unreads,
                ..*old(self)
            }),
            final(self).channels@ == old(self).channels@.filter(
                table::without_id::<Channel>(channels::id_of(channel@)),
            ),
            final(self).channel_unreads@ == old(self).channel_unreads@.filter(
                unread_not_in(channels::id_of(channel@)),
            ),
    {
        self.purge_unreads(channel.id());
        let found: bool = self.channels.delete(channel.id());
    }

    /// Lets a user join a thread, where they have not.
    pub fn join_thread_if_absent(&mut self, thread: &str, user: &str)
        requires
            old(self).wf(),
        ensures
            final(self).wf(),
            *final(self) == (ReferenceDb {
                thread_members: final(self).thread_members,
                ..*old(self)
            }),
            final(self).thread_members@ == with_membership(
                old(self).thread_members@,
                thread@,
                user@,
            ),
    {
        let p = |m: &ThreadMember| -> (b: bool)
            ensures
                b == membership_of(thread@, user@)(m@),
            { same(m.thread.as_str(), thread) && same(m.user.as_str(), user) };
        if self.thread_members.find(p, Ghost(membership_of(thread@, user@))).is_none() {
            let row = ThreadMember { thread: thread.to_owned(), user: user.to_owned() };
            proof {
                let rows = self.thread_members@;
                assert forall|i: int| 0 <= i < rows.len() implies membership_key()(
                    #[trigger] rows[i],
                ) != membership_key()(row@) by {
                    if membership_key()(rows[i]) == membership_key()(row@) {
                        assert(membership_of(thread@, user@)(rows[i]));
                    }
                }
                table::lemma_unique_push(rows, membership_key(), row@);
            }
            self.thread_members.push(row);
        }
    }

    /// Removes all memberships in a thread.
    pub fn delete_all_thread_memberships(&mut self, thread: &str)
        requires
            old(self).wf(),
        ensures
            final(self).wf(),
            *final(self) == (ReferenceDb {
                thread_members: final(self).thread_members,
                ..*old(self)
            }),
            final(self).thread_members@ == old(self).thread_members@.filter(
                membership_not_in(thread@),
            ),
    {
        let p = |m: &ThreadMember| -> (b: bool)
            ensures
                b == membership_not_in(thread@)(m@),
            { !same(m.thread.as_str(), thread) };
        proof {
            table::lemma_unique_filter(
                self.thread_members@,
                membership_key(),
                membership_not_in(thread@),
            );
        }
        self.thread_members.retain(p, Ghost(membership_not_in(thread@)));
    }

    /// Removes all unreads in a channel.
    fn purge_unreads(&mut self, channel_id: &str)
        requires
            old(self).wf(),
        ensures
            final(self).wf(),
            *final(self) == (ReferenceDb {
                channel_unreads: final(self).channel_unreads,
                ..*old(self)
            }),
            final(self).channel_unreads@ == old(self).channel_unreads@.filter(
                unread_not_in(channel_id@),
            ),
    {
        let p = |u: &ChannelUnread| -> (b: bool)
            ensures
                b == unread_not_in(channel_id@)(u@),
            { !same(u.channel.as_str(), channel_id) };
        proof {
            table::lemma_unique_filter(
                self.channel_unreads@,
                unread_key(),
                unread_not_in(channel_id@),
            );
        }
        self.channel_unreads.retain(p, Ghost(unread_not_in(channel_id@)));
    }

    /// Removes all unreads in a channel where the channel is gone; tells whether it is.
    pub fn discard_unreads_if_channel_gone(&mut self, channel_id: &str) -> (r: bool)
        requires
            old(self).wf(),
        ensures
            final(self).wf(),
            *final(self) == (ReferenceDb {
                channel_unreads: final(self).channel_unreads,
                ..*old(self)
            }),
            r == !table::has_id::<Channel>(old(self).channels@, channel_id@),
            final(self).channel_unreads@ == if r {
                old(self).channel_unreads@.filter(unread_not_in(channel_id@))
            } else {
                old(self).channel_unreads@
            },
    {
        if self.channels.contains_id(channel_id) {
            false
        } else {
            self.purge_unreads(channel_id);
            true
        }
    }

    fn unread_position(&self, channel_id: &str, user_id: &str) -> (r: Option<usize>)
        ensures
            r is Some <==> table::any_row(self.channel_unreads@, unread_of(channel_id@, user_id@)),
            r matches Some(i) ==> i == table::first_row(
                self.channel_unreads@,
                unread_of(channel_id@, user_id@),
            ) && i < self.channel_unreads@.len() && unread_of(channel_id@, user_id@)(
                self.channel_unreads@[i as int],
            ),
    {
        let p = |u: &ChannelUnread| -> (b: bool)
            ensures
                b == unread_of(channel_id@, user_id@)(u@),
            { same(u.channel.as_str(), channel_id) && same(u.user.as_str(), user_id) };
        self.channel_unreads.find(p, Ghost(unread_of(channel_id@, user_id@)))
    }

    fn unread_for(&self, channel_id: &str, user_id: &str) -> (r: ChannelUnread)
        ensures
            r@ == unread_or_new(self.channel_unreads@, channel_id@, user_id@),
            r.channel@ == channel_id@,
            r.user@ == user_id@,
    {
        match self.unread_position(channel_id, user_id) {
            Some(i) => self.channel_unreads.get(i),
            None => ChannelUnread {
                channel: channel_id.to_owned(),
                user: user_id.to_owned(),
                last_id: None,
                mentions: None,
            },
        }
    }

    fn put_unread(&mut self, unread: ChannelUnread)
        requires
            old(self).wf(),
        ensures
            final(self).wf(),
            *final(self) == (ReferenceDb {
                channel_unreads: final(self).channel_unreads,
                ..*old(self)
            }),
            final(self).channel_unreads@ == with_unread(old(self).channel_unreads@, unread@),
    {
        let ghost rows = self.channel_unreads@;
        let ghost v = unread@;
        let ghost q = unread_of(v.channel, v.user);
        match self.unread_position(unread.channel.as_str(), unread.user.as_str()) {
            Some(i) => {
                self.channel_unreads.put(i, unread);
                proof {
                    assert forall|j: int| 0 <= j < rows.len() && j != i implies !q(
                        #[trigger] rows[j],
                    ) by {
                        if j < i {
                            assert(unread_key()(rows[j]) != unread_key()(rows[i as int]));
                        } else {
                            assert(unread_key()(rows[i as int]) != unread_key()(rows[j]));
                        }
                    }
                    table::lemma_mapped_one(rows, q, |u: ChannelUnreadView| v, i as int, v);
                    table::lemma_unique_update(rows, unread_key(), i as int, v);
                }
            },
            None => {
                proof {
                    assert forall|j: int| 0 <= j < rows.len() implies unread_key()(
                        #[trigger] rows[j],
                    ) != unread_key()(v) by {
                        if unread_key()(rows[j]) == unread_key()(v) {
                            assert(q(rows[j]));
                        }
                    }
                    table::lemma_unique_push(rows, unread_key(), v);
                }
                self.channel_unreads.push(unread);
            },
        }
    }

    /// Notes a message as read, and what was sent before it. A channel that is gone has
    /// no unreads: nothing is noted for it.
    pub fn acknowledge_message(&mut self, channel_id: &str, user_id: &str, message_id: &str) -> (r:
        Option<ChannelUnread>)
        requires
            old(self).wf(),
        ensures
            final(self).wf(),
            *final(self) == (ReferenceDb {
                channel_unreads: final(self).channel_unreads,
                ..*old(self)
            }),
            ({
                let u = acknowledged(
                    unread_or_new(old(self).channel_unreads@, channel_id@, user_id@),
                    message_id@,
                );
                let noted = with_unread(old(self).channel_unreads@, u);
                if table::has_id::<Channel>(old(self).channels@, channel_id@) {
                    &&& r is Some
                    &&& r->Some_0@ == u
                    &&& final(self).channel_unreads@ == noted
                } else {
                    &&& r is None
                    &&& final(self).channel_unreads@ == noted.filter(unread_not_in(channel_id@))
                }
            }),
    {
        let mut unread = self.unread_for(channel_id, user_id);
        let ghost base = unread@;
        unread.last_id = Some(message_id.to_owned());
        if let Some(list) = &unread.mentions {
            let p = |m: &String| -> (b: bool)
                ensures
                    b == sent_after(message_id@)(m@),
                { is_before(message_id, m.as_str()) };
            let kept = keep_texts(list, p, Ghost(sent_after(message_id@)));
            unread.mentions = Some(kept);
        }
        assert(unread@ == acknowledged(base, message_id@));
        let copy = unread.dup();
        self.put_unread(unread);
        if self.discard_unreads_if_channel_gone(channel_id) {
            None
        } else {
            Some(copy)
        }
    }

    /// Marks channels as read up to a stamp, each once. No unread is left in a channel of
    /// the list that is gone.
    pub fn acknowledge_channels_at(
        &mut self,
        user_id: &str,
        channel_ids: &Vec<String>,
        stamp: &str,
    ) -> (r: Result<(), Error>)
        requires
            old(self).wf(),
        ensures
            final(self).wf(),
            *final(self) == (ReferenceDb {
                channel_unreads: final(self).channel_unreads,
                ..*old(self)
            }),
            r == Ok::<(), Error>(()),
            final(self).channel_unreads@ == unreads_acknowledged(
                old(self).channel_unreads@,
                old(self).channels@,
                text::texts(channel_ids@),
                user_id@,
                stamp@,
            ),
    {
        let unique = distinct_texts(channel_ids);
        let ghost ids = text::texts(unique@);
        let ghost q = unread_not_among(ids, user_id@);
        let ghost before = self.channel_unreads@;
        let p = |u: &ChannelUnread| -> (b: bool)
            ensures
                b == q(u@),
            { !(same(u.user.as_str(), user_id) && contains_text(&unique, u.channel.as_str())) };
        proof {
            text::lemma_distinct(text::texts(channel_ids@));
            table::lemma_unique_filter(before, unread_key(), q);
        }
        self.channel_unreads.retain(p, Ghost(q));
        let ghost rest = self.channel_unreads@;
        let mut i: usize = 0;
        proof {
            assert(rest + all_read(ids.take(0), user_id@, stamp@) =~= rest);
        }
        while i < unique.len()
            invariant
                i <= unique.len(),
                ids == text::texts(unique@),
                ids.no_duplicates(),
                rest == before.filter(unread_not_among(ids, user_id@)),
                before == old(self).channel_unreads@,
                self.wf(),
                *self == (ReferenceDb { channel_unreads: self.channel_unreads, ..*old(self) }),
                self.channel_unreads@ == rest + all_read(ids.take(i as int), user_id@, stamp@),
            decreases unique.len() - i,
        {
            let ghost done = ids.take(i as int);
            let ghost id = ids[i as int];
            proof {
                lemma_taken(before, ids, done, id, user_id@, stamp@);
                if done.contains(id) {
                    let k = choose|k: int| 0 <= k < done.len() && done[k] == id;
                    assert(ids[k] == ids[i as int]);
                }
            }
            let row = ChannelUnread {
                channel: unique[i].clone(),
                user: user_id.to_owned(),
                last_id: Some(stamp.to_owned()),
                mentions: None,
            };
            self.put_unread(row);
            assert(self.channel_unreads@ =~= rest + all_read(ids.take(i + 1), user_id@, stamp@));
            i = i + 1;
        }
        assert(ids.take(i as int) =~= ids);
        let ghost live = self.channels@;
        let ghost q = unread_not_gone(live, ids);
        let channels = &self.channels;
        let p = |u: &ChannelUnread| -> (b: bool)
            ensures
                b == q(u@),
            {
                !(contains_text(&unique, u.channel.as_str()) && !channels.contains_id(
                    u.channel.as_str(),
                ))
            };
        proof {
            table::lemma_unique_filter(self.channel_unreads@, unread_key(), q);
        }
        let kept = self.channel_unreads.select(p, Ghost(q));
        self.channel_unreads = Table { rows: kept };
        Ok(())
    }

    /// Marks channels as read up to now, each once. No unread is left in a channel of the
    /// list that is gone.
    pub fn acknowledge_channels(&mut self, user_id: &str, channel_ids: &Vec<String>) -> (r: Result<
        (),
        Error,
    >)
        requires
            old(self).wf(),
        ensures
            final(self).wf(),
            *final(self) == (ReferenceDb {
                channel_unreads: final(self).channel_unreads,
                ..*old(self)
            }),
            r == Ok::<(), Error>(()),
            channel_ids@.len() == 0 ==> final(self).channel_unreads@
                == old(self).channel_unreads@,
            channel_ids@.len() > 0 ==> exists|stamp: Seq<char>|
                ids::is_id(stamp) && final(self).channel_unreads@
                    == #[trigger] unreads_acknowledged(
                    old(self).channel_unreads@,
                    old(self).channels@,
                    text::texts(channel_ids@),
                    user_id@,
                    stamp,
                ),
    {
        if channel_ids.len() == 0 {
            return Ok(());
        }
        let stamp = new_id();
        self.acknowledge_channels_at(user_id, channel_ids, stamp.as_str())
    }

    /// Notes that messages mention a user, where the channel is still there.
    pub fn add_mention_to_unread(
        &mut self,
        channel_id: &str,
        user_id: &str,
        message_ids: &Vec<String>,
    )
        requires
            old(self).wf(),
        ensures
            final(self).wf(),
            *final(self) == (ReferenceDb {
                channel_unreads: final(self).channel_unreads,
                ..*old(self)
            }),
            ({
                let noted = unreads_mentioning(
                    old(self).channel_unreads@,
                    channel_id@,
                    user_id@,
                    text::texts(message_ids@),
                );
                final(self).channel_unreads@ == if table::has_id::<Channel>(
                    old(self).channels@,
                    channel_id@,
                ) {
                    noted
                } else {
                    noted.filter(unread_not_in(channel_id@))
                }
            }),
    {
        self.note_mentions(channel_id, user_id, message_ids);
        let gone: bool = self.discard_unreads_if_channel_gone(channel_id);
    }

    fn note_mentions(&mut self, channel_id: &str, user_id: &str, message_ids: &Vec<String>)
        requires
            old(self).wf(),
        ensures
            final(self).wf(),
            *final(self) == (ReferenceDb {
                channel_unreads: final(self).channel_unreads,
                ..*old(self)
            }),
            final(self).channel_unreads@ == unreads_mentioning(
                old(self).channel_unreads@,
                channel_id@,
                user_id@,
                text::texts(message_ids@),
            ),
    {
        let mut unread = self.unread_for(channel_id, user_id);
        let ghost base = unread@;
        let mut more = copy_texts(message_ids);
        let ghost added = more@;
        match unread.mentions {
            Some(mut list) => {
                let ghost a = list@;
                list.append(&mut more);
                assert(text::texts(list@) =~= text::texts(a) + text::texts(added));
                unread.mentions = Some(list);
            },
            None => {
                unread.mentions = Some(more);
            },
        }
        assert(unread@ == with_mentions(base, text::texts(message_ids@)));
        self.put_unread(unread);
    }

    /// Notes that messages mention several users, each user once, where the channel is still
    /// there.
    pub fn add_mention_to_many_unreads(
        &mut self,
        channel_id: &str,
        user_ids: &Vec<String>,
        message_ids: &Vec<String>,
    )
        requires
            old(self).wf(),
        ensures
            final(self).wf(),
            *final(self) == (ReferenceDb {
                channel_unreads: final(self).channel_unreads,
                ..*old(self)
            }),
            ({
                let noted = unreads_mentioning_all(
                    old(self).channel_unreads@,
                    channel_id@,
                    text::distinct(text::texts(user_ids@)),
                    text::texts(message_ids@),
                );
                final(self).channel_unreads@ == if table::has_id::<Channel>(
                    old(self).channels@,
                    channel_id@,
                ) {
                    noted
                } else {
                    noted.filter(unread_not_in(channel_id@))
                }
            }),
    {
        let ghost first = self.channel_unreads@;
        let unique = distinct_texts(user_ids);
        let ghost users = text::texts(unique@);
        let ghost messages = text::texts(message_ids@);
        let mut i: usize = 0;
        assert(users.take(0) =~= Seq::<Seq<char>>::empty());
        while i < unique.len()
            invariant
                i <= unique.len(),
                users == text::texts(unique@),
                messages == text::texts(message_ids@),
                self.wf(),
                *self == (ReferenceDb { channel_unreads: self.channel_unreads, ..*old(self) }),
                self.channel_unreads@ == unreads_mentioning_all(
                    first,
                    channel_id@,
                    users.take(i as int),
                    messages,
                ),
            decreases unique.len() - i,
        {
            assert(users.take(i + 1).drop_last() =~= users.take(i as int));
            self.note_mentions(channel_id, unique[i].as_str(), message_ids);
            i = i + 1;
        }
        assert(users.take(i as int) =~= users);
        let gone: bool = self.discard_unreads_if_channel_gone(channel_id);
    }

    /// A user's unreads with mentions.
    pub fn fetch_unread_mentions(&self, user_id: &str) -> (r: Vec<ChannelUnread>)
        ensures
            table::row_views(r@) == self.channel_unreads@.filter(mentioned(user_id@)),
    {
        let p = |u: &ChannelUnread| -> (b: bool)
            ensures
                b == mentioned(user_id@)(u@),
            { same(u.user.as_str(), user_id) && u.mentions.is_some() };
        self.channel_unreads.select(p, Ghost(mentioned(user_id@)))
    }

    /// A user's unreads.
    pub fn fetch_unreads(&self, user_id: &str) -> (r: Vec<ChannelUnread>)
        ensures
            table::row_views(r@) == self.channel_unreads@.filter(unread_by(user_id@)),
    {
        let p = |u: &ChannelUnread| -> (b: bool)
            ensures
                b == unread_by(user_id@)(u@),
            { same(u.user.as_str(), user_id) };
        self.channel_unreads.select(p, Ghost(unread_by(user_id@)))
    }

    /// What a user has not read in a channel.
    pub fn fetch_unread(&self, user_id: &str, channel_id: &str) -> (r: Option<ChannelUnread>)
        ensures
            match r {
                Some(u) => table::any_row(self.channel_unreads@, unread_of(channel_id@, user_id@))
                    && u@ == self.channel_unreads@[table::first_row(
                    self.channel_unreads@,
                    unread_of(channel_id@, user_id@),
                )],
                None => !table::any_row(self.channel_unreads@, unread_of(channel_id@, user_id@)),
            },
    {
        match self.unread_position(channel_id, user_id) {
            Some(i) => Some(self.channel_unreads.get(i)),
            None => None,
        }
    }
}

/// The outcome of a change to the members of a group.
pub open spec fn group_outcome(rows: Seq<ChannelView>, id: Seq<char>) -> Result<(), Error> {
    if !table::has_id::<Channel>(rows, id) {
        Err(Error::NotFound)
    } else if table::row_of::<Channel>(rows, id) is Group {
        Ok(())
    } else {
        Err(Error::InvalidOperation)
    }
}

/// Whether roles can have permissions in a channel.
pub open spec fn has_roles(c: ChannelView) -> bool {
    c is TextChannel || c is Forum
}

/// A channel, fields unset and new values applied.
pub open spec fn updated(partial: PartialChannelView, remove: Seq<FieldsChannel>) -> spec_fn(
    ChannelView,
) -> ChannelView {
    |c: ChannelView| channels::with_options(channels::without_fields(c, remove), partial)
}

/// Channels once a user was removed from those of a list that are groups.
pub open spec fn without_recipient_in(rows: Seq<ChannelView>, ids: Seq<Seq<char>>, user: Seq<char>) -> Seq<
    ChannelView,
>
    decreases ids.len(),
{
    if ids.len() == 0 {
        rows
    } else {
        table::mapped(
            without_recipient_in(rows, ids.drop_last(), user),
            table::with_id::<Channel>(ids.last()),
            without_recipient(user),
        )
    }
}

/// An update keeps the id, the server and the kind of a channel.
pub proof fn lemma_update_keeps_id(
    c: ChannelView,
    partial: PartialChannelView,
    remove: Seq<FieldsChannel>,
)
    ensures
        channels::id_of(updated(partial, remove)(c)) == channels::id_of(c),
        channels::server_of(updated(partial, remove)(c)) == channels::server_of(c),
{
    lemma_removal_keeps_id(c, remove);
}

proof fn lemma_removal_keeps_id(c: ChannelView, remove: Seq<FieldsChannel>)
    ensures
        channels::id_of(channels::without_fields(c, remove)) == channels::id_of(c),
        channels::server_of(channels::without_fields(c, remove)) == channels::server_of(c),
    decreases remove.len(),
{
    if remove.len() > 0 {
        lemma_removal_keeps_id(c, remove.drop_last());
    }
}

/// After the unreads of a user in a list of channels were dropped and some put back,
/// an unread for a channel of the list is there exactly when it was put back.
proof fn lemma_taken(
    before: Seq<ChannelUnreadView>,
    ids: Seq<Seq<char>>,
    done: Seq<Seq<char>>,
    id: Seq<char>,
    user: Seq<char>,
    stamp: Seq<char>,
)
    requires
        ids.contains(id),
    ensures
        table::any_row(
            before.filter(unread_not_among(ids, user)) + all_read(done, user, stamp),
            unread_of(id, user),
        ) == done.contains(id),
{
    let rest = before.filter(unread_not_among(ids, user));
    let fresh = all_read(done, user, stamp);
    let all = rest + fresh;
    let q = unread_of(id, user);
    if table::any_row(all, q) {
        let i = choose|i: int| 0 <= i < all.len() && q(#[trigger] all[i]);
        if i < rest.len() {
            assert(rest[i] == all[i]);
            table::lemma_filter_members(before, unread_not_among(ids, user), rest[i]);
            assert(rest.contains(rest[i]));
        } else {
            assert(all[i] == fresh[i - rest.len()]);
            assert(done[i - rest.len()] == id);
        }
    }
    if done.contains(id) {
        let k = choose|k: int| 0 <= k < done.len() && done[k] == id;
        assert(all[rest.len() + k] == fresh[k]);
        assert(q(all[rest.len() + k]));
    }
}

/// A stored last message only moves forward: after noting a message the channel's last
/// message is never older than before.
pub proof fn law_last_message_only_moves_forward(
    c: ChannelView,
    message: Seq<char>,
    reopen: bool,
)
    requires
        !(c is SavedMessages),
    ensures
        ({
            let after = if is_newer(c, message) {
                with_last_message(c, message, reopen)
            } else {
                c
            };
            &&& last_message_of(c) matches Some(before) ==> {
                &&& last_message_of(after) is Some
                &&& !text::text_before(last_message_of(after)->Some_0, before)
            }
            &&& last_message_of(after) is Some && !text::text_before(
                last_message_of(after)->Some_0,
                message,
            )
        }),
{
    text::lemma_text_order(message, message, message);
    if let Some(before) = last_message_of(c) {
        text::lemma_text_order(before, message, before);
        text::lemma_text_order(message, before, message);
        text::lemma_text_order(before, before, before);
    }
}

/// A message that is not newer never opens a direct message channel.
pub proof fn law_stale_message_reopens_nothing(c: ChannelView, message: Seq<char>, other: Seq<char>)
    requires
        last_message_of(c) == Some(other),
        message == other || text::text_before(message, other),
    ensures
        !is_newer(c, message),
{
    text::lemma_text_order(message, other, message);
    text::lemma_text_order(other, message, other);
    text::lemma_text_order(other, other, other);
}

/// A write that comes after a channel was deleted leaves no unread for it.
pub proof fn law_no_unread_for_a_deleted_channel(
    rows: Seq<ChannelUnreadView>,
    channel: Seq<char>,
    u: ChannelUnreadView,
)
    ensures
        rows.filter(unread_not_in(channel)).contains(u) ==> u.channel != channel,
{
    table::lemma_filter_members(rows, unread_not_in(channel), u);
}

/// After a message was acknowledged, no mention up to it is left.
pub proof fn law_acknowledged_mentions_are_gone(
    u: ChannelUnreadView,
    message: Seq<char>,
    mention: Seq<char>,
)
    requires
        mention == message || text::text_before(mention, message),
    ensures
        acknowledged(u, message).mentions matches Some(list) ==> !list.contains(mention),
{
    if let Some(list) = u.mentions {
        table::lemma_filter_members(list, sent_after(message), mention);
        text::lemma_text_order(mention, message, mention);
        text::lemma_text_order(message, message, message);
    }
}

/// After a user has read the channels of a list, they have an unread in each of them that
/// is still there, without mentions and up to the stamp, and nobody has one in those that
/// are gone. Unreads elsewhere, and those of others in channels still there, are kept.
pub proof fn law_channels_of_a_list_are_read(
    rows: Seq<ChannelUnreadView>,
    channels: Seq<ChannelView>,
    list: Seq<Seq<char>>,
    user: Seq<char>,
    stamp: Seq<char>,
    u: ChannelUnreadView,
)
    ensures
        unreads_acknowledged(rows, channels, list, user, stamp).contains(u) <==> {
            &&& list.contains(u.channel) ==> table::has_id::<Channel>(channels, u.channel)
            &&& if u.user == user && list.contains(u.channel) {
                u.last_id == Some(stamp) && u.mentions is None
            } else {
                rows.contains(u)
            }
        },
{
    let ids = text::distinct(list);
    let rest = rows.filter(unread_not_among(ids, user));
    let read = all_read(ids, user, stamp);
    text::lemma_distinct(list);
    assert(ids.contains(u.channel) <==> list.contains(u.channel));
    table::lemma_filter_members(rows, unread_not_among(ids, user), u);
    table::lemma_filter_members(rest + read, unread_not_gone(channels, ids), u);
    if read.contains(u) {
        let k = choose|k: int| 0 <= k < read.len() && read[k] == u;
        assert(ids[k] == u.channel);
    }
    if ids.contains(u.channel) && u.user == user && u.last_id == Some(stamp) && u.mentions is None {
        let k = choose|k: int| 0 <= k < ids.len() && ids[k] == u.channel;
        assert(read[k] == u);
    }
    if (rest + read).contains(u) {
        let k = choose|k: int| 0 <= k < (rest + read).len() && (rest + read)[k] == u;
        if k < rest.len() {
            assert(rest[k] == u);
        } else {
            assert(read[k - rest.len()] == u);
        }
    }
    if rest.contains(u) {
        let k = choose|k: int| 0 <= k < rest.len() && rest[k] == u;
        assert((rest + read)[k] == u);
    }
    if read.contains(u) {
        let k = choose|k: int| 0 <= k < read.len() && read[k] == u;
        assert((rest + read)[rest.len() + k] == u);
    }
}

} // verus!
