//! Channels: direct messages, groups, text channels, threads and forums.
use crate::error::Error;
use crate::files::{File, FileView};
use crate::patch::{
    self, renew, renew_opt, renew_opt_row, renew_opt_text, renew_row, renew_rows, renew_text,
    renew_texts,
};
use crate::table::{self, copy_opt_row, copy_opt_rows, copy_rows, KeyedRow, Row, Table};
use crate::text::{self, contains_text, copy_opt, copy_opt_texts, copy_texts, same};
use vstd::prelude::*;

verus! {

/// Permissions that are allowed and denied on top of others.
#[derive(Clone, Copy, Debug, PartialEq, Eq)]
pub struct OverrideField {
    /// Allowed bits.
    pub a: i64,
    /// Denied bits.
    pub d: i64,
}

/// Order of a forum's posts.
#[derive(Clone, Copy, Debug, PartialEq, Eq)]
pub enum ForumSortOrder {
    /// Most recently active post first.
    LatestActivity,
    /// Most recently created post first.
    CreationDate,
}

impl Default for ForumSortOrder {
    /// Most recently active post first.
    fn default() -> (r: Self)
        ensures
            r == ForumSortOrder::LatestActivity,
    {
        ForumSortOrder::LatestActivity
    }
}

/// How calls work in a channel.
#[derive(Clone, Copy, Debug, PartialEq, Eq)]
pub struct VoiceInformation {
    /// At most so many users at once.
    pub max_users: Option<usize>,
    /// Whether calling is turned off.
    pub disabled: bool,
}

impl Default for VoiceInformation {
    /// Calls without a limit.
    fn default() -> (r: Self)
        ensures
            r == (VoiceInformation { max_users: None, disabled: false }),
    {
        VoiceInformation { max_users: None, disabled: false }
    }
}

/// Permissions of a role in a channel.
#[derive(Debug, PartialEq, Eq)]
pub struct RolePermission {
    pub role: String,
    pub permissions: OverrideField,
}

/// What a [`RolePermission`] holds.
pub struct RolePermissionView {
    pub role: Seq<char>,
    pub permissions: OverrideField,
}

impl View for RolePermission {
    type V = RolePermissionView;

    open spec fn view(&self) -> RolePermissionView {
        RolePermissionView {
            role: self.role@,
            permissions: self.permissions,
        }
    }
}

impl Row for RolePermission {
    fn dup(&self) -> (r: Self) {
        RolePermission {
            role: self.role.clone(),
            permissions: self.permissions,
        }
    }
}

impl KeyedRow for RolePermission {
    open spec fn id_of(v: RolePermissionView) -> Seq<char> {
        v.role
    }

    fn id_is(&self, id: &str) -> (r: bool) {
        same(self.role.as_str(), id)
    }
}

/// The permissions of roles in a channel. Each role has them once.
#[derive(Debug, PartialEq, Eq)]
pub struct RolePermissions {
    rows: Vec<RolePermission>,
}

impl View for RolePermissions {
    type V = Seq<RolePermissionView>;

    closed spec fn view(&self) -> Seq<RolePermissionView> {
        table::row_views(self.rows@)
    }
}

impl RolePermissions {
    #[verifier::type_invariant]
    spec fn roles_apart(self) -> bool {
        table::keyed::<RolePermission>(table::row_views(self.rows@))
    }

    /// No role with permissions of its own.
    pub fn new() -> (r: Self)
        ensures
            r@ == Seq::<RolePermissionView>::empty(),
    {
        let rows: Vec<RolePermission> = Vec::new();
        assert(table::row_views(rows@) =~= Seq::<RolePermissionView>::empty());
        RolePermissions { rows }
    }

    /// The roles and their permissions.
    pub fn rows(&self) -> (r: &Vec<RolePermission>)
        ensures
            table::row_views(r@) == self@,
            table::keyed::<RolePermission>(self@),
    {
        proof {
            use_type_invariant(self);
        }
        &self.rows
    }

    /// Sets the permissions of a role.
    pub fn put(&mut self, role: &str, permissions: OverrideField)
        ensures
            final(self)@ == table::upserted::<RolePermission>(
                old(self)@,
                RolePermissionView { role: role@, permissions },
            ),
    {
        proof {
            use_type_invariant(&*self);
            table::lemma_upserted::<RolePermission>(
                self@,
                RolePermissionView { role: role@, permissions },
            );
        }
        let mut roles: Table<RolePermission> = Table { rows: copy_rows(&self.rows) };
        roles.upsert(role, RolePermission { role: role.to_owned(), permissions });
        self.rows = roles.rows;
    }
}

impl Row for RolePermissions {
    fn dup(&self) -> (r: Self) {
        proof {
            use_type_invariant(self);
        }
        RolePermissions { rows: copy_rows(&self.rows) }
    }
}

/// A tag that posts of a forum can have.
#[derive(Debug, PartialEq, Eq)]
pub struct ForumTag {
    pub id: String,
    pub name: String,
    pub emoji: Option<String>,
    /// Whether only members who manage the channel may apply it.
    pub moderated: bool,
}

/// What a [`ForumTag`] holds.
pub struct ForumTagView {
    pub id: Seq<char>,
    pub name: Seq<char>,
    pub emoji: Option<Seq<char>>,
    pub moderated: bool,
}

impl View for ForumTag {
    type V = ForumTagView;

    open spec fn view(&self) -> ForumTagView {
        ForumTagView {
            id: self.id@,
            name: self.name@,
            emoji: text::opt_text(self.emoji),
            moderated: self.moderated,
        }
    }
}

impl Row for ForumTag {
    fn dup(&self) -> (r: Self) {
        ForumTag {
            id: self.id.clone(),
            name: self.name.clone(),
            emoji: copy_opt(&self.emoji),
            moderated: self.moderated,
        }
    }
}

/// A channel.
#[derive(Debug, PartialEq, Eq)]
pub enum Channel {
    /// Notes that a user keeps for themself.
    SavedMessages {
        id: String,
        user: String,
    },
    /// Messages between two users.
    DirectMessage {
        id: String,
        /// Whether it is open on both sides.
        active: bool,
        recipients: Vec<String>,
        last_message_id: Option<String>,
    },
    /// Messages between several users.
    Group {
        id: String,
        name: String,
        owner: String,
        description: Option<String>,
        recipients: Vec<String>,
        icon: Option<File>,
        last_message_id: Option<String>,
        /// Permissions of the members other than the owner.
        permissions: Option<i64>,
        nsfw: bool,
        spoiler: bool,
        voice: Option<VoiceInformation>,
    },
    /// A text channel of a server.
    TextChannel {
        id: String,
        server: String,
        name: String,
        description: Option<String>,
        icon: Option<File>,
        last_message_id: Option<String>,
        default_permissions: Option<OverrideField>,
        role_permissions: RolePermissions,
        nsfw: bool,
        spoiler: bool,
        voice: Option<VoiceInformation>,
        /// Seconds between the messages of a user.
        slowmode: Option<u64>,
        /// Whether other channels can follow it.
        announcement: Option<bool>,
    },
    /// A thread of a text channel, or a post of a forum.
    Thread {
        id: String,
        server: String,
        parent_channel: String,
        name: String,
        creator: String,
        /// The message of the parent channel that it was started from.
        origin_message_id: Option<String>,
        last_message_id: Option<String>,
        archived: bool,
        archived_timestamp: Option<String>,
        /// Minutes of inactivity after which it is archived.
        auto_archive_minutes: u32,
        locked: bool,
        applied_tags: Vec<String>,
    },
    /// A forum of a server; each of its posts is a thread.
    Forum {
        id: String,
        server: String,
        name: String,
        description: Option<String>,
        icon: Option<File>,
        last_message_id: Option<String>,
        default_permissions: Option<OverrideField>,
        role_permissions: RolePermissions,
        nsfw: bool,
        spoiler: bool,
        tags: Vec<ForumTag>,
        /// Whether each post must have a tag.
        require_tag: bool,
        default_sort: ForumSortOrder,
    },
}

/// What a [`Channel`] holds.
pub enum ChannelView {
    SavedMessages {
        id: Seq<char>,
        user: Seq<char>,
    },
    DirectMessage {
        id: Seq<char>,
        active: bool,
        recipients: Seq<Seq<char>>,
        last_message_id: Option<Seq<char>>,
    },
    Group {
        id: Seq<char>,
        name: Seq<char>,
        owner: Seq<char>,
        description: Option<Seq<char>>,
        recipients: Seq<Seq<char>>,
        icon: Option<FileView>,
        last_message_id: Option<Seq<char>>,
        permissions: Option<i64>,
        nsfw: bool,
        spoiler: bool,
        voice: Option<VoiceInformation>,
    },
    TextChannel {
        id: Seq<char>,
        server: Seq<char>,
        name: Seq<char>,
        description: Option<Seq<char>>,
        icon: Option<FileView>,
        last_message_id: Option<Seq<char>>,
        default_permissions: Option<OverrideField>,
        role_permissions: Seq<RolePermissionView>,
        nsfw: bool,
        spoiler: bool,
        voice: Option<VoiceInformation>,
        slowmode: Option<u64>,
        announcement: Option<bool>,
    },
    Thread {
        id: Seq<char>,
        server: Seq<char>,
        parent_channel: Seq<char>,
        name: Seq<char>,
        creator: Seq<char>,
        origin_message_id: Option<Seq<char>>,
        last_message_id: Option<Seq<char>>,
        archived: bool,
        archived_timestamp: Option<Seq<char>>,
        auto_archive_minutes: u32,
        locked: bool,
        applied_tags: Seq<Seq<char>>,
    },
    Forum {
        id: Seq<char>,
        server: Seq<char>,
        name: Seq<char>,
        description: Option<Seq<char>>,
        icon: Option<FileView>,
        last_message_id: Option<Seq<char>>,
        default_permissions: Option<OverrideField>,
        role_permissions: Seq<RolePermissionView>,
        nsfw: bool,
        spoiler: bool,
        tags: Seq<ForumTagView>,
        require_tag: bool,
        default_sort: ForumSortOrder,
    },
}

impl View for Channel {
    type V = ChannelView;

    open spec fn view(&self) -> ChannelView {
        match *self {
            Channel::SavedMessages { id, user } => ChannelView::SavedMessages {
                id: id@,
                user: user@,
            },
            Channel::DirectMessage { id, active, recipients, last_message_id } => ChannelView::DirectMessage {
                id: id@,
                active: active,
                recipients: text::texts(recipients@),
                last_message_id: text::opt_text(last_message_id),
            },
            Channel::Group { id, name, owner, description, recipients, icon, last_message_id, permissions, nsfw, spoiler, voice } => ChannelView::Group {
                id: id@,
                name: name@,
                owner: owner@,
                description: text::opt_text(description),
                recipients: text::texts(recipients@),
                icon: table::opt_view(icon),
                last_message_id: text::opt_text(last_message_id),
                permissions: permissions,
                nsfw: nsfw,
                spoiler: spoiler,
                voice: voice,
            },
            Channel::TextChannel { id, server, name, description, icon, last_message_id, default_permissions, role_permissions, nsfw, spoiler, voice, slowmode, announcement } => ChannelView::TextChannel {
                id: id@,
                server: server@,
                name: name@,
                description: text::opt_text(description),
                icon: table::opt_view(icon),
                last_message_id: text::opt_text(last_message_id),
                default_permissions: default_permissions,
                role_permissions: role_permissions@,
                nsfw: nsfw,
                spoiler: spoiler,
                voice: voice,
                slowmode: slowmode,
                announcement: announcement,
            },
            Channel::Thread { id, server, parent_channel, name, creator, origin_message_id, last_message_id, archived, archived_timestamp, auto_archive_minutes, locked, applied_tags } => ChannelView::Thread {
                id: id@,
                server: server@,
                parent_channel: parent_channel@,
                name: name@,
                creator: creator@,
                origin_message_id: text::opt_text(origin_message_id),
                last_message_id: text::opt_text(last_message_id),
                archived: archived,
                archived_timestamp: text::opt_text(archived_timestamp),
                auto_archive_minutes: auto_archive_minutes,
                locked: locked,
                applied_tags: text::texts(applied_tags@),
            },
            Channel::Forum { id, server, name, description, icon, last_message_id, default_permissions, role_permissions, nsfw, spoiler, tags, require_tag, default_sort } => ChannelView::Forum {
                id: id@,
                server: server@,
                name: name@,
                description: text::opt_text(description),
                icon: table::opt_view(icon),
                last_message_id: text::opt_text(last_message_id),
                default_permissions: default_permissions,
                role_permissions: role_permissions@,
                nsfw: nsfw,
                spoiler: spoiler,
                tags: table::row_views(tags@),
                require_tag: require_tag,
                default_sort: default_sort,
            },
        }
    }
}

impl Row for Channel {
    fn dup(&self) -> (r: Self) {
        match self {
            Channel::SavedMessages { id, user } => Channel::SavedMessages {
                id: id.clone(),
                user: user.clone(),
            },
            Channel::DirectMessage { id, active, recipients, last_message_id } => Channel::DirectMessage {
                id: id.clone(),
                active: *active,
                recipients: copy_texts(recipients),
                last_message_id: copy_opt(last_message_id),
            },
            Channel::Group { id, name, owner, description, recipients, icon, last_message_id, permissions, nsfw, spoiler, voice } => Channel::Group {
                id: id.clone(),
                name: name.clone(),
                owner: owner.clone(),
                description: copy_opt(description),
                recipients: copy_texts(recipients),
                icon: copy_opt_row(icon),
                last_message_id: copy_opt(last_message_id),
                permissions: *permissions,
                nsfw: *nsfw,
                spoiler: *spoiler,
                voice: *voice,
            },
            Channel::TextChannel { id, server, name, description, icon, last_message_id, default_permissions, role_permissions, nsfw, spoiler, voice, slowmode, announcement } => Channel::TextChannel {
                id: id.clone(),
                server: server.clone(),
                name: name.clone(),
                description: copy_opt(description),
                icon: copy_opt_row(icon),
                last_message_id: copy_opt(last_message_id),
                default_permissions: *default_permissions,
                role_permissions: role_permissions.dup(),
                nsfw: *nsfw,
                spoiler: *spoiler,
                voice: *voice,
                slowmode: *slowmode,
                announcement: *announcement,
            },
            Channel::Thread { id, server, parent_channel, name, creator, origin_message_id, last_message_id, archived, archived_timestamp, auto_archive_minutes, locked, applied_tags } => Channel::Thread {
                id: id.clone(),
                server: server.clone(),
                parent_channel: parent_channel.clone(),
                name: name.clone(),
                creator: creator.clone(),
                origin_message_id: copy_opt(origin_message_id),
                last_message_id: copy_opt(last_message_id),
                archived: *archived,
                archived_timestamp: copy_opt(archived_timestamp),
                auto_archive_minutes: *auto_archive_minutes,
                locked: *locked,
                applied_tags: copy_texts(applied_tags),
            },
            Channel::Forum { id, server, name, description, icon, last_message_id, default_permissions, role_permissions, nsfw, spoiler, tags, require_tag, default_sort } => Channel::Forum {
                id: id.clone(),
                server: server.clone(),
                name: name.clone(),
                description: copy_opt(description),
                icon: copy_opt_row(icon),
                last_message_id: copy_opt(last_message_id),
                default_permissions: *default_permissions,
                role_permissions: role_permissions.dup(),
                nsfw: *nsfw,
                spoiler: *spoiler,
                tags: copy_rows(tags),
                require_tag: *require_tag,
                default_sort: *default_sort,
            },
        }
    }
}

/// New values for some fields of a channel.
#[derive(Debug, PartialEq, Eq)]
pub struct PartialChannel {
    pub name: Option<String>,
    pub owner: Option<String>,
    pub description: Option<String>,
    pub icon: Option<File>,
    pub nsfw: Option<bool>,
    pub spoiler: Option<bool>,
    pub active: Option<bool>,
    pub permissions: Option<i64>,
    pub role_permissions: Option<RolePermissions>,
    pub default_permissions: Option<OverrideField>,
    pub last_message_id: Option<String>,
    pub voice: Option<VoiceInformation>,
    pub slowmode: Option<u64>,
    pub archived: Option<bool>,
    pub archived_timestamp: Option<String>,
    pub tags: Option<Vec<ForumTag>>,
    pub require_tag: Option<bool>,
    pub default_sort: Option<ForumSortOrder>,
    pub applied_tags: Option<Vec<String>>,
    pub announcement: Option<bool>,
}

/// What a [`PartialChannel`] holds.
pub struct PartialChannelView {
    pub name: Option<Seq<char>>,
    pub owner: Option<Seq<char>>,
    pub description: Option<Seq<char>>,
    pub icon: Option<FileView>,
    pub nsfw: Option<bool>,
    pub spoiler: Option<bool>,
    pub active: Option<bool>,
    pub permissions: Option<i64>,
    pub role_permissions: Option<Seq<RolePermissionView>>,
    pub default_permissions: Option<OverrideField>,
    pub last_message_id: Option<Seq<char>>,
    pub voice: Option<VoiceInformation>,
    pub slowmode: Option<u64>,
    pub archived: Option<bool>,
    pub archived_timestamp: Option<Seq<char>>,
    pub tags: Option<Seq<ForumTagView>>,
    pub require_tag: Option<bool>,
    pub default_sort: Option<ForumSortOrder>,
    pub applied_tags: Option<Seq<Seq<char>>>,
    pub announcement: Option<bool>,
}

impl View for PartialChannel {
    type V = PartialChannelView;

    open spec fn view(&self) -> PartialChannelView {
        PartialChannelView {
            name: text::opt_text(self.name),
            owner: text::opt_text(self.owner),
            description: text::opt_text(self.description),
            icon: table::opt_view(self.icon),
            nsfw: self.nsfw,
            spoiler: self.spoiler,
            active: self.active,
            permissions: self.permissions,
            role_permissions: table::opt_view(self.role_permissions),
            default_permissions: self.default_permissions,
            last_message_id: text::opt_text(self.last_message_id),
            voice: self.voice,
            slowmode: self.slowmode,
            archived: self.archived,
            archived_timestamp: text::opt_text(self.archived_timestamp),
            tags: table::opt_row_views(self.tags),
            require_tag: self.require_tag,
            default_sort: self.default_sort,
            applied_tags: text::opt_texts(self.applied_tags),
            announcement: self.announcement,
        }
    }
}

impl Row for PartialChannel {
    fn dup(&self) -> (r: Self) {
        PartialChannel {
            name: copy_opt(&self.name),
            owner: copy_opt(&self.owner),
            description: copy_opt(&self.description),
            icon: copy_opt_row(&self.icon),
            nsfw: self.nsfw,
            spoiler: self.spoiler,
            active: self.active,
            permissions: self.permissions,
            role_permissions: copy_opt_row(&self.role_permissions),
            default_permissions: self.default_permissions,
            last_message_id: copy_opt(&self.last_message_id),
            voice: self.voice,
            slowmode: self.slowmode,
            archived: self.archived,
            archived_timestamp: copy_opt(&self.archived_timestamp),
            tags: copy_opt_rows(&self.tags),
            require_tag: self.require_tag,
            default_sort: self.default_sort,
            applied_tags: copy_opt_texts(&self.applied_tags),
            announcement: self.announcement,
        }
    }
}

impl Default for PartialChannel {
    /// No new value for any field.
    fn default() -> (r: Self)
        ensures
            r@ == no_changes(),
    {
        PartialChannel {
            name: None,
            owner: None,
            description: None,
            icon: None,
            nsfw: None,
            spoiler: None,
            active: None,
            permissions: None,
            role_permissions: None,
            default_permissions: None,
            last_message_id: None,
            voice: None,
            slowmode: None,
            archived: None,
            archived_timestamp: None,
            tags: None,
            require_tag: None,
            default_sort: None,
            applied_tags: None,
            announcement: None,
        }
    }
}

/// No new value for any field.
pub open spec fn no_changes() -> PartialChannelView {
    PartialChannelView {
        name: None,
        owner: None,
        description: None,
        icon: None,
        nsfw: None,
        spoiler: None,
        active: None,
        permissions: None,
        role_permissions: None,
        default_permissions: None,
        last_message_id: None,
        voice: None,
        slowmode: None,
        archived: None,
        archived_timestamp: None,
        tags: None,
        require_tag: None,
        default_sort: None,
        applied_tags: None,
        announcement: None,
    }
}

/// A channel with new values. A value for a field that the kind of channel does not
/// have, or that cannot be changed this way, has no effect.
pub open spec fn with_options(channel: ChannelView, p: PartialChannelView) -> ChannelView {
    match channel {
        ChannelView::SavedMessages { id, user } => channel,
        ChannelView::DirectMessage { id, active, recipients, last_message_id } => ChannelView::DirectMessage {
            id,
            active: patch::pick(p.active, active),
            recipients,
            last_message_id,
        },
        ChannelView::Group { id, name, owner, description, recipients, icon, last_message_id, permissions, nsfw, spoiler, voice } => ChannelView::Group {
            id,
            name: patch::pick(p.name, name),
            owner: patch::pick(p.owner, owner),
            description: patch::pick_opt(p.description, description),
            recipients,
            icon: patch::pick_opt(p.icon, icon),
            last_message_id,
            permissions: patch::pick_opt(p.permissions, permissions),
            nsfw: patch::pick(p.nsfw, nsfw),
            spoiler: patch::pick(p.spoiler, spoiler),
            voice: patch::pick_opt(p.voice, voice),
        },
        ChannelView::TextChannel { id, server, name, description, icon, last_message_id, default_permissions, role_permissions, nsfw, spoiler, voice, slowmode, announcement } => ChannelView::TextChannel {
            id,
            server,
            name: patch::pick(p.name, name),
            description: patch::pick_opt(p.description, description),
            icon: patch::pick_opt(p.icon, icon),
            last_message_id,
            default_permissions: patch::pick_opt(p.default_permissions, default_permissions),
            role_permissions: patch::pick(p.role_permissions, role_permissions),
            nsfw: patch::pick(p.nsfw, nsfw),
            spoiler: patch::pick(p.spoiler, spoiler),
            voice: patch::pick_opt(p.voice, voice),
            slowmode: patch::pick_opt(p.slowmode, slowmode),
            announcement: patch::pick_opt(p.announcement, announcement),
        },
        ChannelView::Thread { id, server, parent_channel, name, creator, origin_message_id, last_message_id, archived, archived_timestamp, auto_archive_minutes, locked, applied_tags } => ChannelView::Thread {
            id,
            server,
            parent_channel,
            name: patch::pick(p.name, name),
            creator,
            origin_message_id,
            last_message_id: patch::pick_opt(p.last_message_id, last_message_id),
            archived: patch::pick(p.archived, archived),
            archived_timestamp: patch::pick_opt(p.archived_timestamp, archived_timestamp),
            auto_archive_minutes,
            locked,
            applied_tags: patch::pick(p.applied_tags, applied_tags),
        },
        ChannelView::Forum { id, server, name, description, icon, last_message_id, default_permissions, role_permissions, nsfw, spoiler, tags, require_tag, default_sort } => ChannelView::Forum {
            id,
            server,
            name: patch::pick(p.name, name),
            description: patch::pick_opt(p.description, description),
            icon: patch::pick_opt(p.icon, icon),
            last_message_id: patch::pick_opt(p.last_message_id, last_message_id),
            default_permissions: patch::pick_opt(p.default_permissions, default_permissions),
            role_permissions: patch::pick(p.role_permissions, role_permissions),
            nsfw: patch::pick(p.nsfw, nsfw),
            spoiler: patch::pick(p.spoiler, spoiler),
            tags: patch::pick(p.tags, tags),
            require_tag: patch::pick(p.require_tag, require_tag),
            default_sort: patch::pick(p.default_sort, default_sort),
        },
    }
}

/// Fields of a channel that can be unset.
#[derive(Clone, Copy, Debug, PartialEq, Eq)]
pub enum FieldsChannel {
    Description,
    Icon,
    DefaultPermissions,
    Voice,
    Tags,
}

impl FieldsChannel {
    /// The name that the field is stored under.
    #[verifier::allow_in_spec]
    pub fn as_path(&self) -> (r: Option<&'static str>)
        returns
            (match *self {
                FieldsChannel::Description => Some("description"),
                FieldsChannel::Icon => Some("icon"),
                FieldsChannel::DefaultPermissions => Some("default_permissions"),
                FieldsChannel::Voice => Some("voice"),
                FieldsChannel::Tags => Some("tags"),
            }),
    {
        match *self {
            FieldsChannel::Description => Some("description"),
            FieldsChannel::Icon => Some("icon"),
            FieldsChannel::DefaultPermissions => Some("default_permissions"),
            FieldsChannel::Voice => Some("voice"),
            FieldsChannel::Tags => Some("tags"),
        }
    }
}

/// A channel with a field unset; nothing changes where the kind of channel does not
/// have the field.
pub open spec fn without_field(channel: ChannelView, field: FieldsChannel) -> ChannelView {
    match channel {
        ChannelView::Group { id, name, owner, description, recipients, icon, last_message_id, permissions, nsfw, spoiler, voice } => ChannelView::Group {
            id,
            name,
            owner,
            description: if field == FieldsChannel::Description {
                None
            } else {
                description
            },
            recipients,
            icon: if field == FieldsChannel::Icon {
                None
            } else {
                icon
            },
            last_message_id,
            permissions,
            nsfw,
            spoiler,
            voice: if field == FieldsChannel::Voice {
                None
            } else {
                voice
            },
        },
        ChannelView::TextChannel { id, server, name, description, icon, last_message_id, default_permissions, role_permissions, nsfw, spoiler, voice, slowmode, announcement } => ChannelView::TextChannel {
            id,
            server,
            name,
            description: if field == FieldsChannel::Description {
                None
            } else {
                description
            },
            icon: if field == FieldsChannel::Icon {
                None
            } else {
                icon
            },
            last_message_id,
            default_permissions: if field == FieldsChannel::DefaultPermissions {
                None
            } else {
                default_permissions
            },
            role_permissions,
            nsfw,
            spoiler,
            voice: if field == FieldsChannel::Voice {
                None
            } else {
                voice
            },
            slowmode,
            announcement,
        },
        ChannelView::Forum { id, server, name, description, icon, last_message_id, default_permissions, role_permissions, nsfw, spoiler, tags, require_tag, default_sort } => ChannelView::Forum {
            id,
            server,
            name,
            description: if field == FieldsChannel::Description {
                None
            } else {
                description
            },
            icon: if field == FieldsChannel::Icon {
                None
            } else {
                icon
            },
            last_message_id,
            default_permissions: if field == FieldsChannel::DefaultPermissions {
                None
            } else {
                default_permissions
            },
            role_permissions,
            nsfw,
            spoiler,
            tags: if field == FieldsChannel::Tags {
                Seq::empty()
            } else {
                tags
            },
            require_tag,
            default_sort,
        },
        _ => channel,
    }
}

/// A channel with several fields unset, one after the other.
pub open spec fn without_fields(channel: ChannelView, fields: Seq<FieldsChannel>) -> ChannelView
    decreases fields.len(),
{
    if fields.len() == 0 {
        channel
    } else {
        without_field(without_fields(channel, fields.drop_last()), fields.last())
    }
}

/// The id of a channel.
pub open spec fn id_of(channel: ChannelView) -> Seq<char> {
    match channel {
        ChannelView::SavedMessages { id, .. } => id,
        ChannelView::DirectMessage { id, .. } => id,
        ChannelView::Group { id, .. } => id,
        ChannelView::TextChannel { id, .. } => id,
        ChannelView::Thread { id, .. } => id,
        ChannelView::Forum { id, .. } => id,
    }
}

/// The server of a channel, where it has one.
pub open spec fn server_of(channel: ChannelView) -> Option<Seq<char>> {
    match channel {
        ChannelView::TextChannel { server, .. } => Some(server),
        ChannelView::Thread { server, .. } => Some(server),
        ChannelView::Forum { server, .. } => Some(server),
        _ => None,
    }
}

/// The users that take part in a channel, where it has such a list.
pub open spec fn recipients_of(channel: ChannelView) -> Option<Seq<Seq<char>>> {
    match channel {
        ChannelView::Group { recipients, .. } => Some(recipients),
        ChannelView::DirectMessage { recipients, .. } => Some(recipients),
        _ => None,
    }
}

/// Whether a user takes part in a channel.
pub open spec fn has_user(channel: ChannelView, user_id: Seq<char>) -> bool {
    match channel {
        ChannelView::SavedMessages { user, .. } => user == user_id,
        _ => recipients_of(channel) is Some && recipients_of(channel)->Some_0.contains(user_id),
    }
}

/// How calls work in a channel; nothing where there are none. Direct messages always
/// have calls; groups and text channels where they are configured and not turned off.
pub open spec fn voice_of(channel: ChannelView) -> Option<VoiceInformation> {
    match channel {
        ChannelView::DirectMessage { .. } => Some(
            VoiceInformation { max_users: None, disabled: false },
        ),
        ChannelView::Group { voice, .. } => enabled(voice),
        ChannelView::TextChannel { voice, .. } => enabled(voice),
        _ => None,
    }
}

/// A configuration that is there and not turned off.
pub open spec fn enabled(voice: Option<VoiceInformation>) -> Option<VoiceInformation> {
    if voice is Some && !voice->Some_0.disabled {
        voice
    } else {
        None
    }
}

impl Channel {
    /// Minutes of inactivity after which threads are archived by default.
    pub fn default_auto_archive_minutes() -> (r: u32)
        ensures
            r == 1440,
    {
        1440
    }

    /// Whether it is a direct message channel.
    pub fn is_direct_dm(&self) -> (r: bool)
        ensures
            r == (self@ is DirectMessage),
    {
        match self {
            Channel::DirectMessage { .. } => true,
            _ => false,
        }
    }

    /// Whether a user takes part in it.
    pub fn contains_user(&self, user_id: &str) -> (r: bool)
        ensures
            r == has_user(self@, user_id@),
    {
        match self {
            Channel::Group { recipients, .. } => contains_text(recipients, user_id),
            Channel::DirectMessage { recipients, .. } => contains_text(recipients, user_id),
            Channel::SavedMessages { user, .. } => same(user.as_str(), user_id),
            _ => false,
        }
    }

    /// The users that take part in it.
    pub fn users(&self) -> (r: Result<Vec<String>, Error>)
        ensures
            match recipients_of(self@) {
                Some(list) => r is Ok && text::texts(r->Ok_0@) == list,
                None => r == Err::<Vec<String>, Error>(Error::NotFound),
            },
    {
        match self {
            Channel::Group { recipients, .. } => Ok(copy_texts(recipients)),
            Channel::DirectMessage { recipients, .. } => Ok(copy_texts(recipients)),
            _ => Err(Error::NotFound),
        }
    }

    /// Its id.
    pub fn id(&self) -> (r: &str)
        ensures
            r@ == id_of(self@),
    {
        match self {
            Channel::SavedMessages { id, .. } => id.as_str(),
            Channel::DirectMessage { id, .. } => id.as_str(),
            Channel::Group { id, .. } => id.as_str(),
            Channel::TextChannel { id, .. } => id.as_str(),
            Channel::Thread { id, .. } => id.as_str(),
            Channel::Forum { id, .. } => id.as_str(),
        }
    }

    /// Its server, where it has one.
    pub fn server(&self) -> (r: Option<&str>)
        ensures
            match r {
                Some(s) => server_of(self@) == Some(s@),
                None => server_of(self@) is None,
            },
    {
        match self {
            Channel::TextChannel { server, .. } => Some(server.as_str()),
            Channel::Thread { server, .. } => Some(server.as_str()),
            Channel::Forum { server, .. } => Some(server.as_str()),
            _ => None,
        }
    }

    /// How calls work in it; nothing where there are none.
    pub fn voice(&self) -> (r: Option<VoiceInformation>)
        ensures
            r == voice_of(self@),
    {
        match self {
            Channel::DirectMessage { .. } => Some(VoiceInformation::default()),
            Channel::Group { voice: Some(voice), .. } => if !voice.disabled {
                Some(*voice)
            } else {
                None
            },
            Channel::TextChannel { voice: Some(voice), .. } => if !voice.disabled {
                Some(*voice)
            } else {
                None
            },
            _ => None,
        }
    }

    /// Unsets a field.
    pub fn remove_field(&mut self, field: &FieldsChannel)
        ensures
            final(self)@ == without_field(old(self)@, *field),
    {
        match field {
            FieldsChannel::Description => match self {
                Channel::Group { description, .. } => {
                    *description = None;
                },
                Channel::TextChannel { description, .. } => {
                    *description = None;
                },
                Channel::Forum { description, .. } => {
                    *description = None;
                },
                _ => {},
            },
            FieldsChannel::Icon => match self {
                Channel::Group { icon, .. } => {
                    *icon = None;
                },
                Channel::TextChannel { icon, .. } => {
                    *icon = None;
                },
                Channel::Forum { icon, .. } => {
                    *icon = None;
                },
                _ => {},
            },
            FieldsChannel::DefaultPermissions => match self {
                Channel::TextChannel { default_permissions, .. } => {
                    *default_permissions = None;
                },
                Channel::Forum { default_permissions, .. } => {
                    *default_permissions = None;
                },
                _ => {},
            },
            FieldsChannel::Voice => match self {
                Channel::Group { voice, .. } => {
                    *voice = None;
                },
                Channel::TextChannel { voice, .. } => {
                    *voice = None;
                },
                _ => {},
            },
            FieldsChannel::Tags => match self {
                Channel::Forum { tags, .. } => {
                    *tags = Vec::new();
                    assert(table::row_views(tags@) =~= Seq::<ForumTagView>::empty());
                },
                _ => {},
            },
        }
    }

    pub(crate) fn remove_each(&mut self, fields: &Vec<FieldsChannel>)
        ensures
            final(self)@ == without_fields(old(self)@, fields@),
    {
        let mut i: usize = 0;
        assert(fields@.take(0) =~= Seq::<FieldsChannel>::empty());
        while i < fields.len()
            invariant
                i <= fields.len(),
                self@ == without_fields(old(self)@, fields@.take(i as int)),
            decreases fields.len() - i,
        {
            assert(fields@.take(i + 1).drop_last() =~= fields@.take(i as int));
            self.remove_field(&fields[i]);
            i = i + 1;
        }
        assert(fields@.take(i as int) =~= fields@);
    }

    /// Unsets several fields.
    pub fn remove_fields(&mut self, partial: Vec<FieldsChannel>)
        ensures
            final(self)@ == without_fields(old(self)@, partial@),
    {
        self.remove_each(&partial);
    }

    /// Applies new values.
    pub fn apply_options(&mut self, partial: PartialChannel)
        ensures
            final(self)@ == with_options(old(self)@, partial@),
    {
        match self {
            Channel::SavedMessages { .. } => {},
            Channel::DirectMessage { active, .. } => {
                renew(active, partial.active);
            },
            Channel::Group { name, owner, description, icon, nsfw, spoiler, permissions, voice, .. } => {
                renew_text(name, partial.name);
                renew_text(owner, partial.owner);
                renew_opt_text(description, partial.description);
                renew_opt_row(icon, partial.icon);
                renew(nsfw, partial.nsfw);
                renew(spoiler, partial.spoiler);
                renew_opt(permissions, partial.permissions);
                renew_opt(voice, partial.voice);
            },
            Channel::TextChannel { name, description, icon, nsfw, spoiler, role_permissions, default_permissions, voice, slowmode, announcement, .. } => {
                renew_text(name, partial.name);
                renew_opt_text(description, partial.description);
                renew_opt_row(icon, partial.icon);
                renew(nsfw, partial.nsfw);
                renew(spoiler, partial.spoiler);
                renew_row(role_permissions, partial.role_permissions);
                renew_opt(default_permissions, partial.default_permissions);
                renew_opt(voice, partial.voice);
                renew_opt(slowmode, partial.slowmode);
                renew_opt(announcement, partial.announcement);
            },
            Channel::Thread { name, archived, archived_timestamp, last_message_id, applied_tags, .. } => {
                renew_text(name, partial.name);
                renew(archived, partial.archived);
                renew_opt_text(archived_timestamp, partial.archived_timestamp);
                renew_opt_text(last_message_id, partial.last_message_id);
                renew_texts(applied_tags, partial.applied_tags);
            },
            Channel::Forum { name, description, icon, nsfw, spoiler, role_permissions, default_permissions, last_message_id, tags, require_tag, default_sort, .. } => {
                renew_text(name, partial.name);
                renew_opt_text(description, partial.description);
                renew_opt_row(icon, partial.icon);
                renew(nsfw, partial.nsfw);
                renew(spoiler, partial.spoiler);
                renew_row(role_permissions, partial.role_permissions);
                renew_opt(default_permissions, partial.default_permissions);
                renew_opt_text(last_message_id, partial.last_message_id);
                renew_rows(tags, partial.tags);
                renew(require_tag, partial.require_tag);
                renew(default_sort, partial.default_sort);
            },
        }
    }
}

impl KeyedRow for Channel {
    open spec fn id_of(v: ChannelView) -> Seq<char> {
        id_of(v)
    }

    fn id_is(&self, id: &str) -> (r: bool) {
        same(self.id(), id)
    }
}

} // verus!
