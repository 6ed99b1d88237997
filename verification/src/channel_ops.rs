//! Making channels, and who belongs to them.
use crate::channel_store::{self, ThreadMemberView};
use crate::channels::{self, Channel, ChannelView, FieldsChannel, ForumSortOrder, OverrideField, PartialChannel, PartialChannelView, RolePermissionView, RolePermissions, VoiceInformation};
use crate::db::ReferenceDb;
use crate::error::Error;
use crate::events::{self, AckPayload, EventV1, EventV1View, Published, PublishedView};
use crate::files::{self, File, FileUsedFor, FileUsedForType, FileView};
use crate::follows::{self, ChannelFollow, Severed};
use crate::ids::{self, new_id};
use crate::people::{self, PartialServer, PartialServerView, Server, ServerView, User};
use crate::table::{self, Row};
use crate::text::{self, contains_text, copy_opt, copy_texts, distinct_texts, same};
use vstd::prelude::*;

verus! {

/// Kinds of channels that a server can have.
#[derive(Clone, Copy, Debug, PartialEq, Eq)]
pub enum ServerChannelType {
    Text,
    Voice,
    Forum,
}

/// What a server channel is made of.
pub struct DataCreateServerChannel {
    pub channel_type: ServerChannelType,
    pub name: String,
    pub description: Option<String>,
    pub nsfw: Option<bool>,
    pub spoiler: Option<bool>,
    pub voice: Option<VoiceInformation>,
    pub announcement: Option<bool>,
}

/// What a thread is made of.
pub struct DataCreateThread {
    pub name: String,
    pub auto_archive_minutes: Option<u32>,
}

/// What a group is made of. A user may be listed more than once.
pub struct DataCreateGroup {
    pub name: String,
    pub description: Option<String>,
    pub icon: Option<String>,
    pub users: Vec<String>,
    pub nsfw: Option<bool>,
    pub spoiler: Option<bool>,
}

/// The message that a thread is started from.
pub struct OriginMessage {
    pub id: String,
    pub channel: String,
    /// The thread that was started from it.
    pub thread_id: Option<String>,
}

/// A message that the system sends into a channel.
#[derive(Debug, PartialEq, Eq)]
pub enum SystemMessage {
    ThreadCreated {
        id: String,
        by: String,
        name: String,
    },
    UserAdded {
        id: String,
        by: String,
    },
    UserRemove {
        id: String,
        by: String,
    },
    UserLeft {
        id: String,
    },
    ChannelOwnershipChanged {
        from: String,
        to: String,
    },
}

/// What a [`SystemMessage`] holds.
pub enum SystemMessageView {
    ThreadCreated {
        id: Seq<char>,
        by: Seq<char>,
        name: Seq<char>,
    },
    UserAdded {
        id: Seq<char>,
        by: Seq<char>,
    },
    UserRemove {
        id: Seq<char>,
        by: Seq<char>,
    },
    UserLeft {
        id: Seq<char>,
    },
    ChannelOwnershipChanged {
        from: Seq<char>,
        to: Seq<char>,
    },
}

impl View for SystemMessage {
    type V = SystemMessageView;

    open spec fn view(&self) -> SystemMessageView {
        match *self {
            SystemMessage::ThreadCreated { id, by, name } => SystemMessageView::ThreadCreated {
                id: id@,
                by: by@,
                name: name@,
            },
            SystemMessage::UserAdded { id, by } => SystemMessageView::UserAdded {
                id: id@,
                by: by@,
            },
            SystemMessage::UserRemove { id, by } => SystemMessageView::UserRemove {
                id: id@,
                by: by@,
            },
            SystemMessage::UserLeft { id } => SystemMessageView::UserLeft {
                id: id@,
            },
            SystemMessage::ChannelOwnershipChanged { from, to } => SystemMessageView::ChannelOwnershipChanged {
                from: from@,
                to: to@,
            },
        }
    }
}

impl Row for SystemMessage {
    fn dup(&self) -> (r: Self) {
        match self {
            SystemMessage::ThreadCreated { id, by, name } => SystemMessage::ThreadCreated {
                id: id.clone(),
                by: by.clone(),
                name: name.clone(),
            },
            SystemMessage::UserAdded { id, by } => SystemMessage::UserAdded {
                id: id.clone(),
                by: by.clone(),
            },
            SystemMessage::UserRemove { id, by } => SystemMessage::UserRemove {
                id: id.clone(),
                by: by.clone(),
            },
            SystemMessage::UserLeft { id } => SystemMessage::UserLeft {
                id: id.clone(),
            },
            SystemMessage::ChannelOwnershipChanged { from, to } => SystemMessage::ChannelOwnershipChanged {
                from: from.clone(),
                to: to.clone(),
            },
        }
    }
}

/// A message that the system sends into a channel under a name and a picture.
#[derive(Debug, PartialEq, Eq)]
pub struct Notice {
    pub channel: String,
    pub message: SystemMessage,
    pub username: String,
    pub avatar: Option<String>,
}

/// What a [`Notice`] holds.
pub struct NoticeView {
    pub channel: Seq<char>,
    pub message: SystemMessageView,
    pub username: Seq<char>,
    pub avatar: Option<Seq<char>>,
}

impl View for Notice {
    type V = NoticeView;

    open spec fn view(&self) -> NoticeView {
        NoticeView {
            channel: self.channel@,
            message: self.message@,
            username: self.username@,
            avatar: text::opt_text(self.avatar),
        }
    }
}

impl Row for Notice {
    fn dup(&self) -> (r: Self) {
        Notice {
            channel: self.channel.clone(),
            message: self.message.dup(),
            username: self.username.clone(),
            avatar: copy_opt(&self.avatar),
        }
    }
}

/// An optional flag, off where it is not given.
pub open spec fn flag(f: Option<bool>) -> bool {
    f == Some(true)
}

fn is_set(f: Option<bool>) -> (r: bool)
    ensures
        r == flag(f),
{
    match f {
        Some(b) => b,
        None => false,
    }
}

impl DataCreateServerChannel {
    /// The channel that is made of it.
    pub open spec fn made(self, id: Seq<char>, server: Seq<char>) -> ChannelView {
        match self.channel_type {
            ServerChannelType::Text => ChannelView::TextChannel {
                id,
                server,
                name: self.name@,
                description: text::opt_text(self.description),
                icon: None,
                last_message_id: None,
                default_permissions: None,
                role_permissions: Seq::empty(),
                nsfw: flag(self.nsfw),
                spoiler: flag(self.spoiler),
                voice: self.voice,
                slowmode: None,
                announcement: if flag(self.announcement) {
                    Some(true)
                } else {
                    None
                },
            },
            ServerChannelType::Voice => ChannelView::TextChannel {
                id,
                server,
                name: self.name@,
                description: text::opt_text(self.description),
                icon: None,
                last_message_id: None,
                default_permissions: None,
                role_permissions: Seq::empty(),
                nsfw: flag(self.nsfw),
                spoiler: flag(self.spoiler),
                voice: if self.voice is Some {
                    self.voice
                } else {
                    Some(VoiceInformation { max_users: None, disabled: false })
                },
                slowmode: None,
                announcement: None,
            },
            ServerChannelType::Forum => ChannelView::Forum {
                id,
                server,
                name: self.name@,
                description: text::opt_text(self.description),
                icon: None,
                last_message_id: None,
                default_permissions: None,
                role_permissions: Seq::empty(),
                nsfw: flag(self.nsfw),
                spoiler: flag(self.spoiler),
                tags: Seq::empty(),
                require_tag: false,
                default_sort: ForumSortOrder::LatestActivity,
            },
        }
    }

    /// The channel that is made of it.
    fn make(self, id: String, server: String) -> (r: Channel)
        ensures
            r@ == self.made(id@, server@),
    {
        let r = match self.channel_type {
            ServerChannelType::Text => Channel::TextChannel {
                id,
                server,
                name: self.name,
                description: self.description,
                icon: None,
                last_message_id: None,
                default_permissions: None,
                role_permissions: RolePermissions::new(),
                nsfw: is_set(self.nsfw),
                spoiler: is_set(self.spoiler),
                voice: self.voice,
                slowmode: None,
                announcement: if is_set(self.announcement) {
                    Some(true)
                } else {
                    None
                },
            },
            ServerChannelType::Voice => Channel::TextChannel {
                id,
                server,
                name: self.name,
                description: self.description,
                icon: None,
                last_message_id: None,
                default_permissions: None,
                role_permissions: RolePermissions::new(),
                nsfw: is_set(self.nsfw),
                spoiler: is_set(self.spoiler),
                voice: match self.voice {
                    Some(v) => Some(v),
                    None => Some(VoiceInformation::default()),
                },
                slowmode: None,
                announcement: None,
            },
            ServerChannelType::Forum => Channel::Forum {
                id,
                server,
                name: self.name,
                description: self.description,
                icon: None,
                last_message_id: None,
                default_permissions: None,
                role_permissions: RolePermissions::new(),
                nsfw: is_set(self.nsfw),
                spoiler: is_set(self.spoiler),
                tags: Vec::new(),
                require_tag: false,
                default_sort: ForumSortOrder::default(),
            },
        };
        proof {
            match r@ {
                ChannelView::TextChannel { role_permissions, .. } => {
                    assert(role_permissions =~= Seq::<RolePermissionView>::empty());
                },
                ChannelView::Forum { role_permissions, tags, .. } => {
                    assert(role_permissions =~= Seq::<RolePermissionView>::empty());
                    assert(tags =~= Seq::empty());
                },
                _ => {},
            }
        }
        r
    }
}

/// Number of the threads of a parent that are not archived.
pub open spec fn active_threads(rows: Seq<ChannelView>, parent: Seq<char>) -> nat {
    rows.filter(active_thread_of(parent)).len()
}

/// Threads of a parent that are not archived.
pub open spec fn active_thread_of(parent: Seq<char>) -> spec_fn(ChannelView) -> bool {
    |c: ChannelView| c is Thread && c->Thread_parent_channel == parent && !c->Thread_archived
}

/// Durations after which threads may be archived, in minutes.
pub open spec fn allowed_duration(minutes: u32) -> bool {
    minutes == 60 || minutes == 1440 || minutes == 4320 || minutes == 10080
}

/// The duration that is asked for, or the default.
pub open spec fn duration_asked(minutes: Option<u32>) -> u32 {
    match minutes {
        Some(m) => m,
        None => 1440,
    }
}

/// Why a thread cannot be started; the reasons are looked at in this order.
pub open spec fn thread_problem(
    rows: Seq<ChannelView>,
    parent: ChannelView,
    origin: Option<OriginMessage>,
    minutes: Option<u32>,
    max_threads: usize,
) -> Option<Error> {
    if !(parent is TextChannel) {
        Some(Error::InvalidOperation)
    } else if active_threads(rows, channels::id_of(parent)) >= max_threads {
        Some(Error::TooManyChannels { max: max_threads })
    } else if !allowed_duration(duration_asked(minutes)) {
        Some(Error::InvalidProperty)
    } else if origin is Some && origin->Some_0.channel@ != channels::id_of(parent) {
        Some(Error::InvalidOperation)
    } else if origin is Some && origin->Some_0.thread_id is Some {
        Some(Error::ThreadAlreadyExists)
    } else {
        None
    }
}

/// Why a post cannot be made; the reasons are looked at in this order.
pub open spec fn post_problem(
    rows: Seq<ChannelView>,
    forum: ChannelView,
    minutes: Option<u32>,
    max_threads: usize,
) -> Option<Error> {
    if !(forum is Forum) {
        Some(Error::InvalidOperation)
    } else if active_threads(rows, channels::id_of(forum)) >= max_threads {
        Some(Error::TooManyChannels { max: max_threads })
    } else if !allowed_duration(duration_asked(minutes)) {
        Some(Error::InvalidProperty)
    } else {
        None
    }
}

/// A new thread of a parent.
pub open spec fn thread_made(
    id: Seq<char>,
    parent: ChannelView,
    name: Seq<char>,
    creator: Seq<char>,
    origin: Option<Seq<char>>,
    minutes: Option<u32>,
    tags: Seq<Seq<char>>,
) -> ChannelView {
    ChannelView::Thread {
        id,
        server: channels::server_of(parent)->Some_0,
        parent_channel: channels::id_of(parent),
        name,
        creator,
        origin_message_id: origin,
        last_message_id: None,
        archived: false,
        archived_timestamp: None,
        auto_archive_minutes: duration_asked(minutes),
        locked: false,
        applied_tags: tags,
    }
}

/// What comes of a new thread: the thread, what is published, the message to be marked
/// with the thread, and what the system says in the parent channel.
#[derive(Debug, PartialEq, Eq)]
pub struct ThreadCreated {
    pub channel: Channel,
    pub published: Published,
    pub stamped_message: Option<String>,
    pub notice: Notice,
}

/// What comes of a new channel that a server's list of channels holds.
#[derive(Debug, PartialEq, Eq)]
pub struct ServerExtended {
    /// The server's new list of channels, for the server's own update.
    pub change: PartialServer,
    /// What is published of the channel.
    pub created: Published,
}

impl ServerExtended {
    /// Whether this is what comes of a channel that was made for a server, which has it now.
    pub open spec fn tells(self, server: ServerView, made: ChannelView) -> bool {
        &&& self.change@ == (PartialServerView {
            channels: Some(server.channels),
            ..people::no_server_changes()
        })
        &&& self.created@ == (PublishedView {
            topic: server.id,
            event: EventV1View::ChannelCreate(made),
        })
    }
}

/// The id of the message that a thread is started from.
pub open spec fn origin_id(origin: Option<OriginMessage>) -> Option<Seq<char>> {
    match origin {
        Some(m) => Some(m.id@),
        None => None,
    }
}

impl Channel {
    /// Makes a channel of a server under an id. A server that has more than so many
    /// channels gets no other. Where that is asked for, the server's list of channels is
    /// extended, which the server's own update is to store, and the channel is published.
    pub fn create_server_channel_as(
        db: &mut ReferenceDb,
        server: &mut Server,
        data: DataCreateServerChannel,
        update_server: bool,
        max_channels: usize,
        id: String,
    ) -> (r: Result<(Channel, Option<ServerExtended>), Error>)
        requires
            old(db).wf(),
        ensures
            final(db).wf(),
            *final(db) == (ReferenceDb { channels: final(db).channels, ..*old(db) }),
            r is Err ==> final(db).channels@ == old(db).channels@ && final(server)@
                == old(server)@,
            if old(server).channels@.len() > max_channels {
                r == Err::<(Channel, Option<ServerExtended>), Error>(
                    Error::TooManyChannels { max: max_channels },
                )
            } else if table::has_id::<Channel>(old(db).channels@, id@) {
                r == Err::<(Channel, Option<ServerExtended>), Error>(
                    Error::DatabaseError { operation: "insert", collection: "channels" },
                )
            } else {
                let made = data.made(id@, old(server).id@);
                &&& r is Ok
                &&& r->Ok_0.0@ == made
                &&& final(db).channels@ == old(db).channels@.push(made)
                &&& if update_server {
                    &&& final(server)@ == (ServerView {
                        channels: old(server)@.channels.push(id@),
                        ..old(server)@
                    })
                    &&& r->Ok_0.1 is Some
                    &&& r->Ok_0.1->Some_0.tells(final(server)@, made)
                } else {
                    final(server)@ == old(server)@ && r->Ok_0.1 is None
                }
            },
    {
        if server.channels.len() > max_channels {
            return Err(Error::TooManyChannels { max: max_channels });
        }
        let channel = data.make(id.clone(), server.id.clone());
        match db.insert_channel(&channel) {
            Err(e) => {
                return Err(e);
            },
            Ok(_) => {},
        }
        if update_server {
            let ghost before = server.channels@;
            server.channels.push(id);
            assert(text::texts(server.channels@) =~= text::texts(before).push(id@));
            let mut change = PartialServer::default();
            change.channels = Some(copy_texts(&server.channels));
            let created = EventV1::ChannelCreate(channel.dup()).p(server.id.clone());
            Ok((channel, Some(ServerExtended { change, created })))
        } else {
            Ok((channel, None))
        }
    }

    /// Makes a channel of a server under a fresh id.
    pub fn create_server_channel(
        db: &mut ReferenceDb,
        server: &mut Server,
        data: DataCreateServerChannel,
        update_server: bool,
        max_channels: usize,
    ) -> (r: Result<(Channel, Option<ServerExtended>), Error>)
        requires
            old(db).wf(),
        ensures
            final(db).wf(),
            *final(db) == (ReferenceDb { channels: final(db).channels, ..*old(db) }),
            r is Err ==> final(db).channels@ == old(db).channels@ && final(server)@
                == old(server)@,
            old(server).channels@.len() > max_channels <==> r == Err::<
                (Channel, Option<ServerExtended>),
                Error,
            >(Error::TooManyChannels { max: max_channels }),
            r matches Err(e) ==> old(server).channels@.len() > max_channels || (e
                == (Error::DatabaseError { operation: "insert", collection: "channels" })
                && ids::may_clash::<Channel>(old(db).channels@)),
            r matches Ok(made) ==> {
                let id = channels::id_of(made.0@);
                &&& ids::is_id(id)
                &&& made.0@ == data.made(id, old(server).id@)
                &&& final(db).channels@ == old(db).channels@.push(made.0@)
                &&& !table::has_id::<Channel>(old(db).channels@, id)
                &&& if update_server {
                    &&& final(server)@ == (ServerView {
                        channels: old(server)@.channels.push(id),
                        ..old(server)@
                    })
                    &&& made.1 is Some
                    &&& made.1->Some_0.tells(final(server)@, made.0@)
                } else {
                    final(server)@ == old(server)@ && made.1 is None
                }
            },
    {
        Channel::create_server_channel_as(db, server, data, update_server, max_channels, new_id())
    }

    fn count_active_threads(db: &ReferenceDb, parent: &str) -> (n: usize)
        ensures
            n == active_threads(db.channels@, parent@),
    {
        let p = |c: &Channel| -> (b: bool)
            ensures
                b == active_thread_of(parent@)(c@),
            {
                match c {
                    Channel::Thread { parent_channel, archived, .. } => same(
                        parent_channel.as_str(),
                        parent,
                    ) && !*archived,
                    _ => false,
                }
            };
        db.channels.count(p, Ghost(active_thread_of(parent@)))
    }

    fn is_allowed_duration(minutes: u32) -> (r: bool)
        ensures
            r == allowed_duration(minutes),
    {
        minutes == 60 || minutes == 1440 || minutes == 4320 || minutes == 10080
    }

    /// Starts a thread of a text channel under an id. The creator joins it.
    pub fn create_thread_as(
        db: &mut ReferenceDb,
        parent: &Channel,
        creator: &User,
        origin_message: Option<&OriginMessage>,
        data: &DataCreateThread,
        max_threads: usize,
        id: String,
    ) -> (r: Result<ThreadCreated, Error>)
        requires
            old(db).wf(),
        ensures
            final(db).wf(),
            *final(db) == (ReferenceDb {
                channels: final(db).channels,
                thread_members: final(db).thread_members,
                ..*old(db)
            }),
            r is Err ==> final(db).channels@ == old(db).channels@ && final(db).thread_members@
                == old(db).thread_members@,
            ({
                let origin = match origin_message {
                    Some(m) => Some(*m),
                    None => None,
                };
                let made = thread_made(
                    id@,
                    parent@,
                    data.name@,
                    creator.id@,
                    origin_id(origin),
                    data.auto_archive_minutes,
                    Seq::empty(),
                );
                match thread_problem(
                    old(db).channels@,
                    parent@,
                    origin,
                    data.auto_archive_minutes,
                    max_threads,
                ) {
                    Some(e) => r == Err::<ThreadCreated, Error>(e),
                    None => if table::has_id::<Channel>(old(db).channels@, id@) {
                        r == Err::<ThreadCreated, Error>(
                            Error::DatabaseError { operation: "insert", collection: "channels" },
                        )
                    } else {
                        &&& r is Ok
                        &&& thread_outcome(r->Ok_0, made, creator, origin)
                        &&& final(db).channels@ == old(db).channels@.push(made)
                        &&& final(db).thread_members@ == channel_store::with_membership(
                            old(db).thread_members@,
                            id@,
                            creator.id@,
                        )
                    },
                }
            }),
    {
        let server_id = match parent {
            Channel::TextChannel { server, .. } => server.clone(),
            _ => {
                return Err(Error::InvalidOperation);
            },
        };
        let parent_id = parent.id();
        if Channel::count_active_threads(db, parent_id) >= max_threads {
            return Err(Error::TooManyChannels { max: max_threads });
        }
        let minutes: u32 = match data.auto_archive_minutes {
            Some(m) => m,
            None => Channel::default_auto_archive_minutes(),
        };
        if !Channel::is_allowed_duration(minutes) {
            return Err(Error::InvalidProperty);
        }
        let mut origin_message_id: Option<String> = None;
        if let Some(message) = origin_message {
            if !same(message.channel.as_str(), parent_id) {
                return Err(Error::InvalidOperation);
            }
            if message.thread_id.is_some() {
                return Err(Error::ThreadAlreadyExists);
            }
            origin_message_id = Some(message.id.clone());
        }
        let channel = Channel::Thread {
            id: id.clone(),
            server: server_id.clone(),
            parent_channel: parent_id.to_owned(),
            name: data.name.clone(),
            creator: creator.id.clone(),
            origin_message_id: copy_opt(&origin_message_id),
            last_message_id: None,
            archived: false,
            archived_timestamp: None,
            auto_archive_minutes: minutes,
            locked: false,
            applied_tags: Vec::new(),
        };
        assert(channel@->Thread_applied_tags =~= Seq::<Seq<char>>::empty());
        match db.insert_channel(&channel) {
            Err(e) => {
                return Err(e);
            },
            Ok(_) => {},
        }
        db.join_thread_if_absent(id.as_str(), creator.id.as_str());
        let published = EventV1::ChannelCreate(channel.dup()).p(server_id);
        let notice = Notice {
            channel: parent_id.to_owned(),
            message: SystemMessage::ThreadCreated {
                id,
                by: creator.id.clone(),
                name: data.name.clone(),
            },
            username: creator.username.clone(),
            avatar: copy_opt(&creator.avatar),
        };
        Ok(ThreadCreated { channel, published, stamped_message: origin_message_id, notice })
    }

    /// Starts a thread of a text channel under a fresh id.
    pub fn create_thread(
        db: &mut ReferenceDb,
        parent: &Channel,
        creator: &User,
        origin_message: Option<&OriginMessage>,
        data: &DataCreateThread,
        max_threads: usize,
    ) -> (r: Result<ThreadCreated, Error>)
        requires
            old(db).wf(),
        ensures
            final(db).wf(),
            *final(db) == (ReferenceDb {
                channels: final(db).channels,
                thread_members: final(db).thread_members,
                ..*old(db)
            }),
            r is Err ==> final(db).channels@ == old(db).channels@ && final(db).thread_members@
                == old(db).thread_members@,
            ({
                let origin = match origin_message {
                    Some(m) => Some(*m),
                    None => None,
                };
                match thread_problem(
                    old(db).channels@,
                    parent@,
                    origin,
                    data.auto_archive_minutes,
                    max_threads,
                ) {
                    Some(e) => r == Err::<ThreadCreated, Error>(e),
                    None => match r {
                        Err(e) => e == (Error::DatabaseError {
                            operation: "insert",
                            collection: "channels",
                        }) && ids::may_clash::<Channel>(old(db).channels@),
                        Ok(t) => {
                            let id = channels::id_of(t.channel@);
                            let made = thread_made(
                                id,
                                parent@,
                                data.name@,
                                creator.id@,
                                origin_id(origin),
                                data.auto_archive_minutes,
                                Seq::empty(),
                            );
                            &&& thread_outcome(t, made, creator, origin)
                            &&& ids::is_id(id)
                            &&& !table::has_id::<Channel>(old(db).channels@, id)
                            &&& final(db).channels@ == old(db).channels@.push(made)
                            &&& final(db).thread_members@ == channel_store::with_membership(
                                old(db).thread_members@,
                                id,
                                creator.id@,
                            )
                        },
                    },
                }
            }),
    {
        Channel::create_thread_as(
            db,
            parent,
            creator,
            origin_message,
            data,
            max_threads,
            new_id(),
        )
    }

    /// Makes a post of a forum under an id. The creator joins it.
    pub fn create_forum_post_as(
        db: &mut ReferenceDb,
        forum: &Channel,
        creator: &User,
        name: String,
        applied_tags: Vec<String>,
        auto_archive_minutes: Option<u32>,
        max_threads: usize,
        id: String,
    ) -> (r: Result<(Channel, Published), Error>)
        requires
            old(db).wf(),
        ensures
            final(db).wf(),
            *final(db) == (ReferenceDb {
                channels: final(db).channels,
                thread_members: final(db).thread_members,
                ..*old(db)
            }),
            r is Err ==> final(db).channels@ == old(db).channels@ && final(db).thread_members@
                == old(db).thread_members@,
            ({
                let made = thread_made(
                    id@,
                    forum@,
                    name@,
                    creator.id@,
                    None,
                    auto_archive_minutes,
                    text::texts(applied_tags@),
                );
                match post_problem(
                    old(db).channels@,
                    forum@,
                    auto_archive_minutes,
                    max_threads,
                ) {
                    Some(e) => r == Err::<(Channel, Published), Error>(e),
                    None => if table::has_id::<Channel>(old(db).channels@, id@) {
                        r == Err::<(Channel, Published), Error>(
                            Error::DatabaseError { operation: "insert", collection: "channels" },
                        )
                    } else {
                        &&& r is Ok
                        &&& post_outcome(r->Ok_0, made)
                        &&& final(db).channels@ == old(db).channels@.push(made)
                        &&& final(db).thread_members@ == channel_store::with_membership(
                            old(db).thread_members@,
                            id@,
                            creator.id@,
                        )
                    },
                }
            }),
    {
        let server_id = match forum {
            Channel::Forum { server, .. } => server.clone(),
            _ => {
                return Err(Error::InvalidOperation);
            },
        };
        if Channel::count_active_threads(db, forum.id()) >= max_threads {
            return Err(Error::TooManyChannels { max: max_threads });
        }
        let minutes: u32 = match auto_archive_minutes {
            Some(m) => m,
            None => Channel::default_auto_archive_minutes(),
        };
        if !Channel::is_allowed_duration(minutes) {
            return Err(Error::InvalidProperty);
        }
        let channel = Channel::Thread {
            id: id.clone(),
            server: server_id.clone(),
            parent_channel: forum.id().to_owned(),
            name,
            creator: creator.id.clone(),
            origin_message_id: None,
            last_message_id: None,
            archived: false,
            archived_timestamp: None,
            auto_archive_minutes: minutes,
            locked: false,
            applied_tags,
        };
        match db.insert_channel(&channel) {
            Err(e) => {
                return Err(e);
            },
            Ok(_) => {},
        }
        db.join_thread_if_absent(id.as_str(), creator.id.as_str());
        let published = EventV1::ChannelCreate(channel.dup()).p(server_id);
        Ok((channel, published))
    }

    /// Makes a post of a forum under a fresh id.
    pub fn create_forum_post(
        db: &mut ReferenceDb,
        forum: &Channel,
        creator: &User,
        name: String,
        applied_tags: Vec<String>,
        auto_archive_minutes: Option<u32>,
        max_threads: usize,
    ) -> (r: Result<(Channel, Published), Error>)
        requires
            old(db).wf(),
        ensures
            final(db).wf(),
            *final(db) == (ReferenceDb {
                channels: final(db).channels,
                thread_members: final(db).thread_members,
                ..*old(db)
            }),
            r is Err ==> final(db).channels@ == old(db).channels@ && final(db).thread_members@
                == old(db).thread_members@,
            match post_problem(old(db).channels@, forum@, auto_archive_minutes, max_threads) {
                Some(e) => r == Err::<(Channel, Published), Error>(e),
                None => match r {
                    Err(e) => e == (Error::DatabaseError {
                        operation: "insert",
                        collection: "channels",
                    }) && ids::may_clash::<Channel>(old(db).channels@),
                    Ok(p) => {
                        let id = channels::id_of(p.0@);
                        let made = thread_made(
                            id,
                            forum@,
                            name@,
                            creator.id@,
                            None,
                            auto_archive_minutes,
                            text::texts(applied_tags@),
                        );
                        &&& post_outcome(p, made)
                        &&& ids::is_id(id)
                        &&& !table::has_id::<Channel>(old(db).channels@, id)
                        &&& final(db).channels@ == old(db).channels@.push(made)
                        &&& final(db).thread_members@ == channel_store::with_membership(
                            old(db).thread_members@,
                            id,
                            creator.id@,
                        )
                    },
                },
            },
    {
        Channel::create_forum_post_as(
            db,
            forum,
            creator,
            name,
            applied_tags,
            auto_archive_minutes,
            max_threads,
            new_id(),
        )
    }

    /// The channel whose permissions apply: of a thread its parent, which must be there
    /// and be able to have threads; of any other channel itself.
    pub fn permission_target(&self, db: &ReferenceDb) -> (r: Result<Channel, Error>)
        ensures
            match target_of(db.channels@, self@) {
                Some(c) => r is Ok && r->Ok_0@ == c,
                None => r == Err::<Channel, Error>(Error::NotFound),
            },
    {
        match self {
            Channel::Thread { parent_channel, .. } => {
                match db.fetch_channel(parent_channel.as_str()) {
                    Err(e) => Err(e),
                    Ok(parent) => {
                        let fits: bool = match &parent {
                            Channel::TextChannel { .. } => true,
                            Channel::Forum { .. } => true,
                            _ => false,
                        };
                        if fits {
                            Ok(parent)
                        } else {
                            Err(Error::NotFound)
                        }
                    },
                }
            },
            _ => Ok(self.dup()),
        }
    }
}

/// What comes of a new thread.
pub open spec fn thread_outcome(
    t: ThreadCreated,
    made: ChannelView,
    creator: &User,
    origin: Option<OriginMessage>,
) -> bool {
    &&& t.channel@ == made
    &&& t.published@ == (PublishedView {
        topic: channels::server_of(made)->Some_0,
        event: EventV1View::ChannelCreate(made),
    })
    &&& text::opt_text(t.stamped_message) == origin_id(origin)
    &&& t.notice@ == (NoticeView {
        channel: made->Thread_parent_channel,
        message: SystemMessageView::ThreadCreated {
            id: channels::id_of(made),
            by: creator.id@,
            name: made->Thread_name,
        },
        username: creator.username@,
        avatar: text::opt_text(creator.avatar),
    })
}

/// What comes of a new post.
pub open spec fn post_outcome(p: (Channel, Published), made: ChannelView) -> bool {
    &&& p.0@ == made
    &&& p.1@ == (PublishedView {
        topic: channels::server_of(made)->Some_0,
        event: EventV1View::ChannelCreate(made),
    })
}

/// The channel whose permissions apply to a channel; nothing where a thread's parent
/// is missing or cannot have threads.
pub open spec fn target_of(rows: Seq<ChannelView>, c: ChannelView) -> Option<ChannelView> {
    if c is Thread {
        let parent = c->Thread_parent_channel;
        if table::has_id::<Channel>(rows, parent) && channel_store::has_roles(
            table::row_of::<Channel>(rows, parent),
        ) {
            Some(table::row_of::<Channel>(rows, parent))
        } else {
            None
        }
    } else {
        Some(c)
    }
}

/// The members of a new group: the listed users and the owner, each once.
pub open spec fn group_members(users: Seq<Seq<char>>, owner: Seq<char>) -> Seq<Seq<char>> {
    text::distinct(users.push(owner))
}

/// A new group.
pub open spec fn group_made(
    id: Seq<char>,
    data: DataCreateGroup,
    owner: Seq<char>,
    icon: Option<FileView>,
) -> ChannelView {
    ChannelView::Group {
        id,
        name: data.name@,
        owner,
        description: text::opt_text(data.description),
        recipients: group_members(text::texts(data.users@), owner),
        icon,
        last_message_id: None,
        permissions: None,
        nsfw: flag(data.nsfw),
        spoiler: flag(data.spoiler),
        voice: None,
    }
}

/// What is published to tell each user of a list of a channel.
pub open spec fn told(users: Seq<Seq<char>>, channel: ChannelView) -> Seq<PublishedView> {
    Seq::new(
        users.len(),
        |i: int|
            PublishedView {
                topic: events::private_topic(users[i]),
                event: EventV1View::ChannelCreate(channel),
            },
    )
}

fn tell(users: &Vec<String>, channel: &Channel) -> (r: Vec<Published>)
    ensures
        table::row_views(r@) == told(text::texts(users@), channel@),
{
    let mut out: Vec<Published> = Vec::new();
    let ghost all = told(text::texts(users@), channel@);
    let mut i: usize = 0;
    assert(table::row_views(out@) =~= all.take(0));
    while i < users.len()
        invariant
            i <= users.len(),
            all == told(text::texts(users@), channel@),
            table::row_views(out@) == all.take(i as int),
        decreases users.len() - i,
    {
        let ghost before = out@;
        out.push(EventV1::ChannelCreate(channel.dup()).private(users[i].clone()));
        assert(table::row_views(out@) =~= table::row_views(before).push(all[i as int]));
        assert(all.take(i + 1) =~= all.take(i as int).push(all[i as int]));
        i = i + 1;
    }
    assert(all.take(i as int) =~= all);
    out
}

/// What comes of the icon of a new group: the file, claimed for the group.
pub open spec fn icon_claimed(
    files: Seq<FileView>,
    icon: Option<String>,
    group: Seq<char>,
    owner: Seq<char>,
) -> Option<FileView> {
    match icon {
        Some(icon) => Some(
            files::claimed(FileUsedForType::ChannelIcon, group, owner)(
                table::row_of::<File>(files, icon@),
            ),
        ),
        None => None,
    }
}

/// The files once the icon of a new group was claimed.
pub open spec fn files_after_icon(
    files: Seq<FileView>,
    icon: Option<String>,
    group: Seq<char>,
    owner: Seq<char>,
) -> Seq<FileView> {
    match icon {
        Some(icon) => table::mapped(
            files,
            table::with_id::<File>(icon@),
            files::claimed(FileUsedForType::ChannelIcon, group, owner),
        ),
        None => files,
    }
}

/// Why a group cannot be made; the reasons are looked at in this order.
pub open spec fn group_problem(
    files: Seq<FileView>,
    data: DataCreateGroup,
    owner: Seq<char>,
    group_size: usize,
) -> Option<Error> {
    if group_members(text::texts(data.users@), owner).len() > group_size {
        Some(Error::GroupTooLarge { max: group_size })
    } else if data.icon is Some && !files::claimable(files, data.icon->Some_0@, "icons"@) {
        Some(Error::NotFound)
    } else {
        None
    }
}

/// New channels of direct messages: saved messages for one user, else a channel that is
/// open on both sides.
pub open spec fn direct_made(id: Seq<char>, a: Seq<char>, b: Seq<char>) -> ChannelView {
    if a == b {
        ChannelView::SavedMessages { id, user: a }
    } else {
        ChannelView::DirectMessage {
            id,
            active: true,
            recipients: seq![a, b],
            last_message_id: None,
        }
    }
}

/// What is published of a new channel of direct messages: nothing of saved messages.
pub open spec fn direct_told(made: ChannelView, a: Seq<char>, b: Seq<char>) -> Seq<PublishedView> {
    if a == b {
        Seq::empty()
    } else {
        told(seq![a, b], made)
    }
}

/// What comes of a user being added to a group: what is published to the group, what
/// the system says in it, and what is published to the user.
#[derive(Debug, PartialEq, Eq)]
pub struct UserAdded {
    pub joined: Published,
    pub notice: Notice,
    pub created: Published,
}

/// Why a channel has no room for a user.
pub open spec fn room_problem(channel: ChannelView, user: Seq<char>, group_size: usize) -> Option<
    Error,
> {
    if !(channel is Group) {
        Some(Error::InvalidOperation)
    } else if channel->Group_recipients.contains(user) {
        Some(Error::AlreadyInGroup)
    } else if channel->Group_recipients.len() >= group_size {
        Some(Error::GroupTooLarge { max: group_size })
    } else {
        None
    }
}

/// Why a user cannot be added to a channel: it has no room, or the store has no such group.
pub open spec fn add_problem(
    rows: Seq<ChannelView>,
    channel: ChannelView,
    user: Seq<char>,
    group_size: usize,
) -> Option<Error> {
    match room_problem(channel, user, group_size) {
        Some(e) => Some(e),
        None => match channel_store::group_outcome(rows, channels::id_of(channel)) {
            Err(e) => Some(e),
            Ok(_) => None,
        },
    }
}

/// What comes of a channel being deleted.
#[derive(Debug, PartialEq, Eq)]
pub struct DeletedChannel {
    /// The channels that are gone: the threads of the channel, then the channel. Their
    /// polls, sheets and scheduled messages go with them.
    pub ids: Vec<String>,
    /// The follows that were severed.
    pub severed: Vec<Severed>,
    /// What is published of the channels.
    pub published: Vec<Published>,
}

/// The ids of channels.
pub open spec fn ids_of(list: Seq<ChannelView>) -> Seq<Seq<char>> {
    Seq::new(list.len(), |i: int| channels::id_of(list[i]))
}

/// The threads that are deleted with a channel.
pub open spec fn threads_under(rows: Seq<ChannelView>, c: ChannelView) -> Seq<Seq<char>> {
    if channel_store::has_roles(c) {
        ids_of(rows.filter(channel_store::thread_of(channels::id_of(c))))
    } else {
        Seq::empty()
    }
}

/// Channels with none of the ids in a list.
pub open spec fn channel_not_among(ids: Seq<Seq<char>>) -> spec_fn(ChannelView) -> bool {
    |c: ChannelView| !ids.contains(channels::id_of(c))
}

/// Unreads in none of the channels of a list.
pub open spec fn unread_not_in_any(ids: Seq<Seq<char>>) -> spec_fn(channel_store::ChannelUnreadView) -> bool {
    |u: channel_store::ChannelUnreadView| !ids.contains(u.channel)
}

/// Memberships in none of the threads of a list.
pub open spec fn membership_not_in_any(ids: Seq<Seq<char>>) -> spec_fn(ThreadMemberView) -> bool {
    |m: ThreadMemberView| !ids.contains(m.thread)
}

/// What is published of deleted threads: to their server and to themselves.
pub open spec fn threads_told(threads: Seq<Seq<char>>, server: Seq<char>) -> Seq<PublishedView>
    decreases threads.len(),
{
    if threads.len() == 0 {
        Seq::empty()
    } else {
        let event = EventV1View::ChannelDelete { id: threads.last() };
        threads_told(threads.drop_last(), server) + seq![
            PublishedView { topic: server, event },
            PublishedView { topic: threads.last(), event },
        ]
    }
}

/// What is published of a deleted channel and its threads.
pub open spec fn deletion_told(threads: Seq<Seq<char>>, c: ChannelView) -> Seq<PublishedView> {
    let id = channels::id_of(c);
    threads_told(threads, channels::server_of(c)->Some_0).push(
        PublishedView { topic: id, event: EventV1View::ChannelDelete { id } },
    )
}

/// What comes of a user leaving a group.
#[derive(Debug, PartialEq, Eq)]
pub enum GroupLeft {
    /// The owner was the last one: the group was deleted.
    Deleted(DeletedChannel),
    /// The user is gone; where it was the owner, the group has another one.
    Left {
        ownership: Option<Notice>,
        left: Published,
        notice: Option<Notice>,
    },
}

/// Who owns a group once its owner left: the first other member.
pub open spec fn next_owner(recipients: Seq<Seq<char>>, owner: Seq<char>) -> Option<Seq<char>> {
    let others = recipients.filter(channel_store::not_user(owner));
    if others.len() > 0 {
        Some(others[0])
    } else {
        None
    }
}

/// A new owner, and nothing else.
pub open spec fn owner_change(owner: Seq<char>) -> PartialChannelView {
    PartialChannelView { owner: Some(owner), ..channels::no_changes() }
}

/// The channels once a user left a group: where it was the owner, the next owner has
/// taken over.
pub open spec fn channels_after_leaving(rows: Seq<ChannelView>, group: ChannelView, user: Seq<char>) -> Seq<
    ChannelView,
> {
    let q = table::with_id::<Channel>(channels::id_of(group));
    let owned = if user == group->Group_owner {
        table::mapped(
            rows,
            q,
            channel_store::updated(
                owner_change(next_owner(group->Group_recipients, user)->Some_0),
                Seq::empty(),
            ),
        )
    } else {
        rows
    };
    table::mapped(owned, q, channel_store::without_recipient(user))
}

/// What the system says of a new owner.
pub open spec fn ownership_notice(group: ChannelView, user: Seq<char>) -> Option<NoticeView> {
    if user == group->Group_owner {
        Some(
            NoticeView {
                channel: channels::id_of(group),
                message: SystemMessageView::ChannelOwnershipChanged {
                    from: user,
                    to: next_owner(group->Group_recipients, user)->Some_0,
                },
                username: group->Group_name,
                avatar: None,
            },
        )
    } else {
        None
    }
}

/// What the system says of a user who left, or was removed by another.
pub open spec fn leaving_notice(
    group: ChannelView,
    user: &User,
    by: Option<Seq<char>>,
    silent: bool,
) -> Option<NoticeView> {
    if silent {
        None
    } else {
        Some(
            NoticeView {
                channel: channels::id_of(group),
                message: match by {
                    Some(by) => SystemMessageView::UserRemove { id: user.id@, by },
                    None => SystemMessageView::UserLeft { id: user.id@ },
                },
                username: user.username@,
                avatar: text::opt_text(user.avatar),
            },
        )
    }
}

/// The text that an optional reference points at.
pub open spec fn opt_str(s: Option<&str>) -> Option<Seq<char>> {
    match s {
        Some(s) => Some(s@),
        None => None,
    }
}

impl Channel {
    /// Makes a group under an id. Its members are the listed users and the owner.
    pub fn create_group_as(
        db: &mut ReferenceDb,
        data: DataCreateGroup,
        owner_id: String,
        group_size: usize,
        id: String,
    ) -> (r: Result<(Channel, Vec<Published>), Error>)
        requires
            old(db).wf(),
            data.users@.len() < usize::MAX,
        ensures
            final(db).wf(),
            *final(db) == (ReferenceDb {
                channels: final(db).channels,
                files: final(db).files,
                ..*old(db)
            }),
            ({
                let icon = icon_claimed(old(db).files@, data.icon, id@, owner_id@);
                let made = group_made(id@, data, owner_id@, icon);
                match group_problem(old(db).files@, data, owner_id@, group_size) {
                    Some(e) => r == Err::<(Channel, Vec<Published>), Error>(e)
                        && final(db).channels@ == old(db).channels@ && final(db).files@
                        == old(db).files@,
                    None => {
                        &&& final(db).files@ == files_after_icon(
                            old(db).files@,
                            data.icon,
                            id@,
                            owner_id@,
                        )
                        &&& if table::has_id::<Channel>(old(db).channels@, id@) {
                            r == Err::<(Channel, Vec<Published>), Error>(
                                Error::DatabaseError {
                                    operation: "insert",
                                    collection: "channels",
                                },
                            ) && final(db).channels@ == old(db).channels@
                        } else {
                            &&& r is Ok
                            &&& r->Ok_0.0@ == made
                            &&& table::row_views(r->Ok_0.1@) == told(
                                made->Group_recipients,
                                made,
                            )
                            &&& final(db).channels@ == old(db).channels@.push(made)
                        }
                    },
                }
            }),
    {
        let mut users = copy_texts(&data.users);
        let ghost listed = users@;
        users.push(owner_id.clone());
        assert(text::texts(users@) =~= text::texts(data.users@).push(owner_id@));
        let recipients = distinct_texts(&users);
        assert(text::texts(recipients@).len() == recipients@.len());
        if recipients.len() > group_size {
            return Err(Error::GroupTooLarge { max: group_size });
        }
        let icon = match &data.icon {
            Some(icon_id) => {
                let used = FileUsedFor {
                    object_type: FileUsedForType::ChannelIcon,
                    id: id.clone(),
                };
                match db.find_and_use_attachment(
                    icon_id.as_str(),
                    "icons",
                    used,
                    owner_id.clone(),
                ) {
                    Ok(file) => Some(file),
                    Err(e) => {
                        return Err(e);
                    },
                }
            },
            None => None,
        };
        let members = copy_texts(&recipients);
        let channel = Channel::Group {
            id,
            name: data.name,
            owner: owner_id,
            description: data.description,
            recipients,
            icon,
            last_message_id: None,
            permissions: None,
            nsfw: is_set(data.nsfw),
            spoiler: is_set(data.spoiler),
            voice: None,
        };
        match db.insert_channel(&channel) {
            Err(e) => {
                return Err(e);
            },
            Ok(_) => {},
        }
        let published = tell(&members, &channel);
        Ok((channel, published))
    }

    /// Makes a group under a fresh id.
    pub fn create_group(
        db: &mut ReferenceDb,
        data: DataCreateGroup,
        owner_id: String,
        group_size: usize,
    ) -> (r: Result<(Channel, Vec<Published>), Error>)
        requires
            old(db).wf(),
            data.users@.len() < usize::MAX,
        ensures
            final(db).wf(),
            *final(db) == (ReferenceDb {
                channels: final(db).channels,
                files: final(db).files,
                ..*old(db)
            }),
            match group_problem(old(db).files@, data, owner_id@, group_size) {
                Some(e) => r == Err::<(Channel, Vec<Published>), Error>(e) && final(db).channels@
                    == old(db).channels@ && final(db).files@ == old(db).files@,
                None => match r {
                    Err(e) => {
                        &&& e == (Error::DatabaseError {
                            operation: "insert",
                            collection: "channels",
                        })
                        &&& final(db).channels@ == old(db).channels@
                        &&& exists|id: Seq<char>|
                            ids::is_id(id) && #[trigger] table::has_id::<Channel>(
                                old(db).channels@,
                                id,
                            ) && final(db).files@ == files_after_icon(
                                old(db).files@,
                                data.icon,
                                id,
                                owner_id@,
                            )
                    },
                    Ok(p) => {
                        let id = channels::id_of(p.0@);
                        let made = group_made(
                            id,
                            data,
                            owner_id@,
                            icon_claimed(old(db).files@, data.icon, id, owner_id@),
                        );
                        &&& p.0@ == made
                        &&& table::row_views(p.1@) == told(made->Group_recipients, made)
                        &&& ids::is_id(id)
                        &&& !table::has_id::<Channel>(old(db).channels@, id)
                        &&& final(db).channels@ == old(db).channels@.push(made)
                        &&& final(db).files@ == files_after_icon(
                            old(db).files@,
                            data.icon,
                            id,
                            owner_id@,
                        )
                    },
                },
            },
    {
        Channel::create_group_as(db, data, owner_id, group_size, new_id())
    }

    /// The direct messages of two users; where there are none, they are made under an
    /// id. For one user these are the saved messages.
    pub fn create_dm_as(db: &mut ReferenceDb, user_a: &User, user_b: &User, id: String) -> (r: Result<
        (Channel, Vec<Published>),
        Error,
    >)
        requires
            old(db).wf(),
        ensures
            final(db).wf(),
            *final(db) == (ReferenceDb { channels: final(db).channels, ..*old(db) }),
            ({
                let q = channel_store::direct_between(user_a.id@, user_b.id@);
                let made = direct_made(id@, user_a.id@, user_b.id@);
                if table::any_row(old(db).channels@, q) {
                    &&& r is Ok
                    &&& r->Ok_0.0@ == old(db).channels@[table::first_row(old(db).channels@, q)]
                    &&& r->Ok_0.1@.len() == 0
                    &&& final(db).channels@ == old(db).channels@
                } else if table::has_id::<Channel>(old(db).channels@, id@) {
                    r == Err::<(Channel, Vec<Published>), Error>(
                        Error::DatabaseError { operation: "insert", collection: "channels" },
                    ) && final(db).channels@ == old(db).channels@
                } else {
                    &&& r is Ok
                    &&& r->Ok_0.0@ == made
                    &&& table::row_views(r->Ok_0.1@) == direct_told(
                        made,
                        user_a.id@,
                        user_b.id@,
                    )
                    &&& final(db).channels@ == old(db).channels@.push(made)
                }
            }),
    {
        match db.find_direct_message_channel(user_a.id.as_str(), user_b.id.as_str()) {
            Ok(channel) => {
                return Ok((channel, Vec::new()));
            },
            Err(_) => {},
        }
        let own: bool = same(user_a.id.as_str(), user_b.id.as_str());
        let mut both: Vec<String> = Vec::new();
        both.push(user_a.id.clone());
        both.push(user_b.id.clone());
        assert(text::texts(both@) =~= seq![user_a.id@, user_b.id@]);
        let channel = if own {
            Channel::SavedMessages { id, user: user_a.id.clone() }
        } else {
            Channel::DirectMessage {
                id,
                active: true,
                recipients: copy_texts(&both),
                last_message_id: None,
            }
        };
        match db.insert_channel(&channel) {
            Err(e) => {
                return Err(e);
            },
            Ok(_) => {},
        }
        if own {
            let none: Vec<Published> = Vec::new();
            assert(table::row_views(none@) =~= Seq::<PublishedView>::empty());
            Ok((channel, none))
        } else {
            let published = tell(&both, &channel);
            Ok((channel, published))
        }
    }

    /// The direct messages of two users; where there are none, they are made under a
    /// fresh id.
    pub fn create_dm(db: &mut ReferenceDb, user_a: &User, user_b: &User) -> (r: Result<
        (Channel, Vec<Published>),
        Error,
    >)
        requires
            old(db).wf(),
        ensures
            final(db).wf(),
            *final(db) == (ReferenceDb { channels: final(db).channels, ..*old(db) }),
            ({
                let q = channel_store::direct_between(user_a.id@, user_b.id@);
                if table::any_row(old(db).channels@, q) {
                    &&& r is Ok
                    &&& r->Ok_0.0@ == old(db).channels@[table::first_row(old(db).channels@, q)]
                    &&& r->Ok_0.1@.len() == 0
                    &&& final(db).channels@ == old(db).channels@
                } else {
                    match r {
                        Err(e) => e == (Error::DatabaseError {
                            operation: "insert",
                            collection: "channels",
                        }) && final(db).channels@ == old(db).channels@ && ids::may_clash::<
                            Channel,
                        >(old(db).channels@),
                        Ok(p) => {
                            let id = channels::id_of(p.0@);
                            let made = direct_made(id, user_a.id@, user_b.id@);
                            &&& ids::is_id(id)
                            &&& !table::has_id::<Channel>(old(db).channels@, id)
                            &&& p.0@ == made
                            &&& table::row_views(p.1@) == direct_told(
                                made,
                                user_a.id@,
                                user_b.id@,
                            )
                            &&& final(db).channels@ == old(db).channels@.push(made)
                        },
                    }
                }
            }),
    {
        Channel::create_dm_as(db, user_a, user_b, new_id())
    }

    /// Adds a user to a group, which must have room. Where only the store refuses, the
    /// group in hand has the user all the same.
    pub fn add_user_to_group(
        &mut self,
        db: &mut ReferenceDb,
        user: &User,
        by_id: &str,
        group_size: usize,
    ) -> (r: Result<UserAdded, Error>)
        requires
            old(db).wf(),
        ensures
            final(db).wf(),
            *final(db) == (ReferenceDb { channels: final(db).channels, ..*old(db) }),
            match add_problem(old(db).channels@, old(self)@, user.id@, group_size) {
                Some(e) => {
                    &&& r == Err::<UserAdded, Error>(e)
                    &&& final(db).channels@ == old(db).channels@
                    &&& final(self)@ == if room_problem(old(self)@, user.id@, group_size) is Some {
                        old(self)@
                    } else {
                        channel_store::with_recipient(user.id@)(old(self)@)
                    }
                },
                None => {
                    let id = channels::id_of(old(self)@);
                    &&& final(self)@ == channel_store::with_recipient(user.id@)(old(self)@)
                    &&& final(db).channels@ == table::mapped(
                        old(db).channels@,
                        table::with_id::<Channel>(id),
                        channel_store::with_recipient(user.id@),
                    )
                    &&& r is Ok
                    &&& r->Ok_0.joined@ == (PublishedView {
                        topic: id,
                        event: EventV1View::ChannelGroupJoin { id, user: user.id@ },
                    })
                    &&& r->Ok_0.notice@ == (NoticeView {
                        channel: id,
                        message: SystemMessageView::UserAdded { id: user.id@, by: by_id@ },
                        username: user.username@,
                        avatar: text::opt_text(user.avatar),
                    })
                    &&& r->Ok_0.created@ == (PublishedView {
                        topic: events::private_topic(user.id@),
                        event: EventV1View::ChannelCreate(final(self)@),
                    })
                },
            },
    {
        let ghost first = db.channels@;
        match self {
            Channel::Group { recipients, .. } => {
                if contains_text(recipients, user.id.as_str()) {
                    return Err(Error::AlreadyInGroup);
                }
                if recipients.len() >= group_size {
                    return Err(Error::GroupTooLarge { max: group_size });
                }
                let ghost before = recipients@;
                recipients.push(user.id.clone());
                assert(text::texts(recipients@) =~= text::texts(before).push(user.id@));
            },
            _ => {
                return Err(Error::InvalidOperation);
            },
        }
        let id = self.id().to_owned();
        match db.add_user_to_group(id.as_str(), user.id.as_str()) {
            Err(e) => {
                proof {
                    lemma_not_a_group(
                        first,
                        id@,
                        channel_store::with_recipient(user.id@),
                    );
                }
                return Err(e);
            },
            Ok(_) => {},
        }
        let joined = EventV1::ChannelGroupJoin { id: id.clone(), user: user.id.clone() }.p(
            id.clone(),
        );
        let notice = Notice {
            channel: id,
            message: SystemMessage::UserAdded { id: user.id.clone(), by: by_id.to_owned() },
            username: user.username.clone(),
            avatar: copy_opt(&user.avatar),
        };
        let created = EventV1::ChannelCreate(self.dup()).private(user.id.clone());
        Ok(UserAdded { joined, notice, created })
    }

    /// Sets the permissions of a role in a server channel.
    pub fn set_role_permission(
        &mut self,
        db: &mut ReferenceDb,
        role_id: &str,
        permissions: OverrideField,
    ) -> (r: Result<Published, Error>)
        requires
            old(db).wf(),
        ensures
            final(db).wf(),
            *final(db) == (ReferenceDb { channels: final(db).channels, ..*old(db) }),
            ({
                let id = channels::id_of(old(self)@);
                let rows = old(db).channels@;
                if !channel_store::has_roles(old(self)@) {
                    &&& r == Err::<Published, Error>(Error::InvalidOperation)
                    &&& final(self)@ == old(self)@
                    &&& final(db).channels@ == rows
                } else if !(table::has_id::<Channel>(rows, id) && channel_store::has_roles(
                    table::row_of::<Channel>(rows, id),
                )) {
                    &&& r == Err::<Published, Error>(Error::NotFound)
                    &&& final(self)@ == old(self)@
                    &&& final(db).channels@ == rows
                } else {
                    &&& final(self)@ == channel_store::with_role_permission(
                        old(self)@,
                        role_id@,
                        permissions,
                    )
                    &&& final(db).channels@ == table::mapped(
                        rows,
                        table::with_id::<Channel>(id),
                        |c: ChannelView|
                            channel_store::with_role_permission(c, role_id@, permissions),
                    )
                    &&& r is Ok
                    &&& r->Ok_0@ == (PublishedView {
                        topic: channels::server_of(old(self)@)->Some_0,
                        event: EventV1View::ChannelUpdate {
                            id,
                            data: PartialChannelView {
                                role_permissions: Some(channel_store::roles_in(final(self)@)),
                                ..channels::no_changes()
                            },
                            clear: Seq::empty(),
                        },
                    })
                }
            }),
    {
        let server = match self {
            Channel::TextChannel { server, .. } => server.clone(),
            Channel::Forum { server, .. } => server.clone(),
            _ => {
                return Err(Error::InvalidOperation);
            },
        };
        let id = self.id().to_owned();
        let ghost rows = db.channels@;
        match db.set_channel_role_permission(id.as_str(), role_id, permissions) {
            Err(e) => {
                proof {
                    lemma_no_roles(rows, id@, role_id@, permissions);
                }
                return Err(e);
            },
            Ok(_) => {},
        }
        self.put_role_permission(role_id, permissions);
        let mut data = PartialChannel::default();
        data.role_permissions = match self {
            Channel::TextChannel { role_permissions, .. } => Some(role_permissions.dup()),
            Channel::Forum { role_permissions, .. } => Some(role_permissions.dup()),
            _ => None,
        };
        let clear: Vec<FieldsChannel> = Vec::new();
        assert(clear@ =~= Seq::<FieldsChannel>::empty());
        Ok(EventV1::ChannelUpdate { id, data, clear }.p(server))
    }

    /// Unsets fields, applies new values and stores them.
    pub fn update(
        &mut self,
        db: &mut ReferenceDb,
        partial: PartialChannel,
        remove: Vec<FieldsChannel>,
    ) -> (r: Result<Published, Error>)
        requires
            old(db).wf(),
        ensures
            final(db).wf(),
            *final(db) == (ReferenceDb { channels: final(db).channels, ..*old(db) }),
            final(self)@ == channel_store::updated(partial@, remove@)(old(self)@),
            ({
                let id = channels::id_of(old(self)@);
                &&& final(db).channels@ == table::mapped(
                    old(db).channels@,
                    table::with_id::<Channel>(id),
                    channel_store::updated(partial@, remove@),
                )
                &&& if table::has_id::<Channel>(old(db).channels@, id) {
                    &&& r is Ok
                    &&& r->Ok_0@ == (PublishedView {
                        topic: match channels::server_of(old(self)@) {
                            Some(server) => server,
                            None => id,
                        },
                        event: EventV1View::ChannelUpdate { id, data: partial@, clear: remove@ },
                    })
                } else {
                    r == Err::<Published, Error>(Error::NotFound)
                }
            }),
    {
        proof {
            channel_store::lemma_update_keeps_id(self@, partial@, remove@);
        }
        self.remove_each(&remove);
        self.apply_options(partial.dup());
        let id = self.id().to_owned();
        match db.update_channel(id.as_str(), &partial, &remove) {
            Err(e) => {
                return Err(e);
            },
            Ok(_) => {},
        }
        let topic = match self.server() {
            Some(server) => server.to_owned(),
            None => id.clone(),
        };
        Ok(EventV1::ChannelUpdate { id, data: partial, clear: remove }.p(topic))
    }

    /// Acknowledges a message: what is published to the user, and what is handed on to
    /// be stored.
    pub fn ack(&self, user: &str, message: &str) -> (r: (Published, AckPayload))
        ensures
            r.0@ == (PublishedView {
                topic: events::private_topic(user@),
                event: EventV1View::ChannelAck {
                    id: channels::id_of(self@),
                    user: user@,
                    message_id: message@,
                },
            }),
            r.1.user_id@ == user@,
            r.1.channel_id@ == channels::id_of(self@),
            r.1.message_id@ == message@,
    {
        let published = EventV1::ChannelAck {
            id: self.id().to_owned(),
            user: user.to_owned(),
            message_id: message.to_owned(),
        }.private(user.to_owned());
        let payload = AckPayload {
            user_id: user.to_owned(),
            channel_id: self.id().to_owned(),
            message_id: message.to_owned(),
        };
        (published, payload)
    }

    /// Removes a user from a group. Where it was the owner, the first other member
    /// owns the group; where there is no other, the group is deleted.
    pub fn remove_user_from_group(
        &self,
        db: &mut ReferenceDb,
        user: &User,
        by_id: Option<&str>,
        silent: bool,
    ) -> (r: Result<GroupLeft, Error>)
        requires
            old(db).wf(),
        ensures
            final(db).wf(),
            *final(db) == (ReferenceDb {
                channels: final(db).channels,
                channel_unreads: final(db).channel_unreads,
                thread_members: final(db).thread_members,
                channel_follows: final(db).channel_follows,
                ..*old(db)
            }),
            if !(self@ is Group) {
                &&& r == Err::<GroupLeft, Error>(Error::InvalidOperation)
                &&& *final(db) == *old(db)
            } else if user.id@ == self@->Group_owner && next_owner(
                self@->Group_recipients,
                user.id@,
            ) is None {
                &&& r is Ok
                &&& r->Ok_0 is Deleted
                &&& deleted(*old(db), *final(db), self@, r->Ok_0->Deleted_0)
            } else {
                &&& final(db).channels@ == channels_after_leaving(
                    old(db).channels@,
                    self@,
                    user.id@,
                )
                &&& final(db).channel_unreads@ == old(db).channel_unreads@
                &&& final(db).thread_members@ == old(db).thread_members@
                &&& final(db).channel_follows@ == old(db).channel_follows@
                &&& match channel_store::group_outcome(
                    old(db).channels@,
                    channels::id_of(self@),
                ) {
                    Err(e) => r == Err::<GroupLeft, Error>(e),
                    Ok(_) => {
                        &&& r is Ok
                        &&& r->Ok_0 is Left
                        &&& table::opt_view(r->Ok_0->ownership) == ownership_notice(
                            self@,
                            user.id@,
                        )
                        &&& r->Ok_0->left@ == (PublishedView {
                            topic: channels::id_of(self@),
                            event: EventV1View::ChannelGroupLeave {
                                id: channels::id_of(self@),
                                user: user.id@,
                            },
                        })
                        &&& table::opt_view(r->Ok_0->notice) == leaving_notice(
                            self@,
                            user,
                            opt_str(by_id),
                            silent,
                        )
                    },
                }
            },
    {
        let ghost first = db.channels@;
        let (id, name, owner, recipients) = match self {
            Channel::Group { id, name, owner, recipients, .. } => (id, name, owner, recipients),
            _ => {
                return Err(Error::InvalidOperation);
            },
        };
        let ghost q = table::with_id::<Channel>(id@);
        let mut ownership: Option<Notice> = None;
        if same(user.id.as_str(), owner.as_str()) {
            match first_other(recipients, user.id.as_str()) {
                Some(new_owner) => {
                    let mut partial = PartialChannel::default();
                    partial.owner = Some(new_owner.clone());
                    let fields: Vec<FieldsChannel> = Vec::new();
                    assert(fields@ =~= Seq::<FieldsChannel>::empty());
                    let ghost f = channel_store::updated(owner_change(new_owner@), Seq::empty());
                    proof {
                        assert forall|c: ChannelView| #[trigger] channels::id_of(f(c)) == channels::id_of(
                            c,
                        ) by {
                            channel_store::lemma_update_keeps_id(
                                c,
                                owner_change(new_owner@),
                                Seq::empty(),
                            );
                        }
                        table::lemma_row_of_mapped::<Channel>(first, id@, f);
                    }
                    match db.update_channel(id.as_str(), &partial, &fields) {
                        Err(e) => {
                            proof {
                                table::lemma_mapped_none(first, q, f);
                                table::lemma_mapped_none(
                                    first,
                                    q,
                                    channel_store::without_recipient(user.id@),
                                );
                            }
                            return Err(e);
                        },
                        Ok(_) => {},
                    }
                    ownership = Some(
                        Notice {
                            channel: id.clone(),
                            message: SystemMessage::ChannelOwnershipChanged {
                                from: owner.clone(),
                                to: new_owner,
                            },
                            username: name.clone(),
                            avatar: None,
                        },
                    );
                },
                None => {
                    return Ok(GroupLeft::Deleted(self.delete(db)));
                },
            }
        }
        match db.remove_user_from_group(id.as_str(), user.id.as_str()) {
            Err(e) => {
                return Err(e);
            },
            Ok(_) => {},
        }
        let left = EventV1::ChannelGroupLeave { id: id.clone(), user: user.id.clone() }.p(
            id.clone(),
        );
        let notice = if silent {
            None
        } else {
            let message = match by_id {
                Some(by) => SystemMessage::UserRemove { id: user.id.clone(), by: by.to_owned() },
                None => SystemMessage::UserLeft { id: user.id.clone() },
            };
            Some(
                Notice {
                    channel: id.clone(),
                    message,
                    username: user.username.clone(),
                    avatar: copy_opt(&user.avatar),
                },
            )
        };
        Ok(GroupLeft::Left { ownership, left, notice })
    }

    /// Deletes a channel and what hangs on it: its threads first, so that none is left
    /// without a parent, then memberships, follows on both sides, unreads and the
    /// channel.
    pub fn delete(&self, db: &mut ReferenceDb) -> (r: DeletedChannel)
        requires
            old(db).wf(),
        ensures
            final(db).wf(),
            *final(db) == (ReferenceDb {
                channels: final(db).channels,
                channel_unreads: final(db).channel_unreads,
                thread_members: final(db).thread_members,
                channel_follows: final(db).channel_follows,
                ..*old(db)
            }),
            deleted(*old(db), *final(db), self@, r),
    {
        let ghost rows = db.channels@;
        let ghost unreads = db.channel_unreads@;
        let ghost members = db.thread_members@;
        let ghost threads = threads_under(rows, self@);
        let mut ids: Vec<String> = Vec::new();
        let mut published: Vec<Published> = Vec::new();
        let server: Option<String> = match self {
            Channel::TextChannel { server, .. } => Some(server.clone()),
            Channel::Forum { server, .. } => Some(server.clone()),
            _ => None,
        };
        let children: Vec<Channel> = if server.is_some() {
            db.fetch_threads_by_parent(self.id())
        } else {
            Vec::new()
        };
        let ghost child_views = table::row_views(children@);
        let ghost told_server = channels::server_of(self@)->Some_0;
        let mut i: usize = 0;
        proof {
            if server is None {
                assert(child_views =~= Seq::<ChannelView>::empty());
            }
            assert(ids_of(child_views) =~= threads);
            lemma_nothing_dropped(rows, unreads, members, threads.take(0));
            assert(text::texts(ids@) =~= threads.take(0));
            assert(table::row_views(published@) =~= threads_told(threads.take(0), told_server));
        }
        while i < children.len()
            invariant
                i <= children.len(),
                child_views == table::row_views(children@),
                ids_of(child_views) == threads,
                i < children.len() ==> server is Some,
                children.len() > 0 ==> server is Some,
                server is Some ==> server->Some_0@ == told_server,
                db.wf(),
                *db == (ReferenceDb {
                    channels: db.channels,
                    channel_unreads: db.channel_unreads,
                    thread_members: db.thread_members,
                    ..*old(db)
                }),
                db.channels@ == rows.filter(channel_not_among(threads.take(i as int))),
                db.channel_unreads@ == unreads.filter(unread_not_in_any(threads.take(i as int))),
                db.thread_members@ == members.filter(
                    membership_not_in_any(threads.take(i as int)),
                ),
                text::texts(ids@) == threads.take(i as int),
                table::row_views(published@) == threads_told(threads.take(i as int), told_server),
            decreases children.len() - i,
        {
            let thread_id = children[i].id().to_owned();
            db.delete_all_thread_memberships(thread_id.as_str());
            let ghost before = published@;
            if let Some(server) = &server {
                published.push(
                    EventV1::ChannelDelete { id: thread_id.clone() }.p(server.clone()),
                );
            }
            published.push(
                EventV1::ChannelDelete { id: thread_id.clone() }.p(thread_id.clone()),
            );
            db.delete_channel(&children[i]);
            let ghost ids_before = ids@;
            ids.push(thread_id);
            proof {
                assert(child_views[i as int] == children@[i as int]@);
                assert(ids_of(child_views)[i as int] == thread_id@);
                assert(threads[i as int] == thread_id@);
                lemma_one_more_dropped(rows, unreads, members, threads, i as int);
                assert(text::texts(ids@) =~= threads.take(i + 1));
                assert(threads.take(i + 1).drop_last() =~= threads.take(i as int));
                assert(threads.take(i + 1).last() == thread_id@);
                assert(table::row_views(published@) =~= threads_told(
                    threads.take(i + 1),
                    told_server,
                ));
            }
            i = i + 1;
        }
        assert(threads.take(i as int) =~= threads);
        let own = self.id().to_owned();
        let is_thread: bool = match self {
            Channel::Thread { .. } => true,
            _ => false,
        };
        if is_thread {
            db.delete_all_thread_memberships(own.as_str());
        }
        let severed = ChannelFollow::cleanup_for_deleted_channel(db, own.as_str());
        let ghost before = published@;
        published.push(EventV1::ChannelDelete { id: own.clone() }.p(own.clone()));
        db.delete_channel(self);
        let ghost ids_before = ids@;
        ids.push(own);
        proof {
            let all = threads.push(own@);
            assert(all.take(threads.len() as int) =~= threads);
            assert(all.take(threads.len() as int + 1) =~= all);
            lemma_one_more_dropped(rows, unreads, members, all, threads.len() as int);
            assert(text::texts(ids@) =~= all);
            assert(table::row_views(published@) =~= deletion_told(threads, self@));
            if !is_thread {
                assert(db.thread_members@ == members.filter(membership_not_in_any(threads)));
            }
        }
        DeletedChannel { ids, severed, published }
    }
}

/// What is left of a database once a channel was deleted, and what is reported.
pub open spec fn deleted(before: ReferenceDb, after: ReferenceDb, c: ChannelView, r: DeletedChannel) -> bool {
    let threads = threads_under(before.channels@, c);
    let all = threads.push(channels::id_of(c));
    let rows = before.channel_follows@;
    let sources = rows.filter(follows::from_source(channels::id_of(c)));
    let left = rows.filter(follows::not_among(sources));
    let targets = left.filter(follows::into_target(channels::id_of(c)));
    &&& text::texts(r.ids@) == all
    &&& after.channels@ == before.channels@.filter(channel_not_among(all))
    &&& after.channel_unreads@ == before.channel_unreads@.filter(unread_not_in_any(all))
    &&& after.thread_members@ == before.thread_members@.filter(
        membership_not_in_any(
            if c is Thread {
                all
            } else {
                threads
            },
        ),
    )
    &&& after.channel_follows@ == left.filter(follows::not_among(targets))
    &&& follows::severed_views(r.severed@) == follows::severing(sources, true) + follows::severing(
        targets,
        false,
    )
    &&& table::row_views(r.published@) == deletion_told(threads, c)
}

/// The first member that is not the given user.
fn first_other(list: &Vec<String>, user: &str) -> (r: Option<String>)
    ensures
        text::opt_text(r) == next_owner(text::texts(list@), user@),
{
    let ghost all = text::texts(list@);
    let ghost q = channel_store::not_user(user@);
    let mut i: usize = 0;
    proof {
        reveal(Seq::filter);
        assert(all.take(0).filter(q).len() == 0);
    }
    while i < list.len()
        invariant
            i <= list.len(),
            all == text::texts(list@),
            q == channel_store::not_user(user@),
            all.take(i as int).filter(q).len() == 0,
        decreases list.len() - i,
    {
        proof {
            table::lemma_filter_take(all, q, i as int);
        }
        if !same(list[i].as_str(), user) {
            proof {
                let head = all.take(i + 1);
                let tail = all.skip(i + 1);
                assert(head + tail =~= all);
                Seq::filter_distributes_over_add(head, tail, q);
                assert(all.filter(q)[0] == head.filter(q)[0]);
            }
            return Some(list[i].clone());
        }
        i = i + 1;
    }
    assert(all.take(i as int) =~= all);
    None
}

/// A change to the members of a group leaves a channel that is none as it is.
proof fn lemma_not_a_group(
    rows: Seq<ChannelView>,
    id: Seq<char>,
    f: spec_fn(ChannelView) -> ChannelView,
)
    requires
        table::keyed::<Channel>(rows),
        channel_store::group_outcome(rows, id) is Err,
        forall|c: ChannelView| !(c is Group) ==> #[trigger] f(c) == c,
    ensures
        table::mapped(rows, table::with_id::<Channel>(id), f) == rows,
{
    let q = table::with_id::<Channel>(id);
    let after = table::mapped(rows, q, f);
    assert forall|i: int| 0 <= i < rows.len() implies #[trigger] after[i] == rows[i] by {
        if q(rows[i]) {
            table::lemma_keyed_row::<Channel>(rows, id, i);
        }
    }
    assert(after =~= rows);
}

/// A change to the roles of a channel leaves one that has none as it is.
proof fn lemma_no_roles(
    rows: Seq<ChannelView>,
    id: Seq<char>,
    role: Seq<char>,
    permissions: OverrideField,
)
    requires
        table::keyed::<Channel>(rows),
        !(table::has_id::<Channel>(rows, id) && channel_store::has_roles(
            table::row_of::<Channel>(rows, id),
        )),
    ensures
        table::mapped(
            rows,
            table::with_id::<Channel>(id),
            |c: ChannelView| channel_store::with_role_permission(c, role, permissions),
        ) == rows,
{
    let q = table::with_id::<Channel>(id);
    let f = |c: ChannelView| channel_store::with_role_permission(c, role, permissions);
    let after = table::mapped(rows, q, f);
    assert forall|i: int| 0 <= i < rows.len() implies #[trigger] after[i] == rows[i] by {
        if q(rows[i]) {
            table::lemma_keyed_row::<Channel>(rows, id, i);
        }
    }
    assert(after =~= rows);
}

/// Where no id is listed, nothing is dropped.
proof fn lemma_nothing_dropped(
    rows: Seq<ChannelView>,
    unreads: Seq<channel_store::ChannelUnreadView>,
    members: Seq<ThreadMemberView>,
    none: Seq<Seq<char>>,
)
    requires
        none.len() == 0,
    ensures
        rows.filter(channel_not_among(none)) == rows,
        unreads.filter(unread_not_in_any(none)) == unreads,
        members.filter(membership_not_in_any(none)) == members,
{
    table::lemma_filter_keeps_all(rows, channel_not_among(none));
    table::lemma_filter_keeps_all(unreads, unread_not_in_any(none));
    table::lemma_filter_keeps_all(members, membership_not_in_any(none));
}

/// Dropping what belongs to one more id of a list.
proof fn lemma_one_more_dropped(
    rows: Seq<ChannelView>,
    unreads: Seq<channel_store::ChannelUnreadView>,
    members: Seq<ThreadMemberView>,
    ids: Seq<Seq<char>>,
    i: int,
)
    requires
        0 <= i < ids.len(),
    ensures
        rows.filter(channel_not_among(ids.take(i))).filter(table::without_id::<Channel>(ids[i]))
            == rows.filter(channel_not_among(ids.take(i + 1))),
        unreads.filter(unread_not_in_any(ids.take(i))).filter(
            channel_store::unread_not_in(ids[i]),
        ) == unreads.filter(unread_not_in_any(ids.take(i + 1))),
        members.filter(membership_not_in_any(ids.take(i))).filter(
            channel_store::membership_not_in(ids[i]),
        ) == members.filter(membership_not_in_any(ids.take(i + 1))),
{
    let a = ids.take(i);
    let b = ids.take(i + 1);
    assert forall|x: Seq<char>| #[trigger] b.contains(x) == (a.contains(x) || x == ids[i]) by {
        if b.contains(x) {
            let k = choose|k: int| 0 <= k < b.len() && b[k] == x;
            if k < i {
                assert(a[k] == x);
            }
        }
        if a.contains(x) {
            let k = choose|k: int| 0 <= k < a.len() && a[k] == x;
            assert(b[k] == x);
        }
        assert(b[i] == ids[i]);
    }
    follows::lemma_filter_twice(
        rows,
        channel_not_among(a),
        table::without_id::<Channel>(ids[i]),
        channel_not_among(b),
    );
    follows::lemma_filter_twice(
        unreads,
        unread_not_in_any(a),
        channel_store::unread_not_in(ids[i]),
        unread_not_in_any(b),
    );
    follows::lemma_filter_twice(
        members,
        membership_not_in_any(a),
        channel_store::membership_not_in(ids[i]),
        membership_not_in_any(b),
    );
}

/// Deleting a text channel or a forum leaves no thread without its parent.
pub proof fn law_no_orphaned_thread(rows: Seq<ChannelView>, c: ChannelView, thread: ChannelView)
    requires
        channel_store::has_roles(c),
    ensures
        rows.filter(
            channel_not_among(threads_under(rows, c).push(channels::id_of(c))),
        ).contains(thread) ==> !channel_store::thread_of(channels::id_of(c))(thread),
{
    let q = channel_store::thread_of(channels::id_of(c));
    let children = rows.filter(q);
    let gone = threads_under(rows, c).push(channels::id_of(c));
    table::lemma_filter_members(rows, channel_not_among(gone), thread);
    table::lemma_filter_members(rows, q, thread);
    if rows.contains(thread) && q(thread) {
        let i = choose|i: int| 0 <= i < children.len() && children[i] == thread;
        assert(gone[i] == channels::id_of(thread));
    }
}

/// A thread has no permissions of its own: the channel whose permissions apply is never
/// a thread.
pub proof fn law_threads_delegate_permissions(rows: Seq<ChannelView>, c: ChannelView)
    ensures
        target_of(rows, c) matches Some(t) ==> !(t is Thread),
        !(c is Thread) ==> target_of(rows, c) == Some(c),
{
}

/// A group never keeps an owner who left: the next owner is another of its members.
pub proof fn law_next_owner_is_another_member(recipients: Seq<Seq<char>>, owner: Seq<char>)
    ensures
        next_owner(recipients, owner) matches Some(next) ==> next != owner && recipients.contains(
            next,
        ),
        next_owner(recipients, owner) is None ==> forall|i: int|
            0 <= i < recipients.len() ==> #[trigger] recipients[i] == owner,
{
    let q = channel_store::not_user(owner);
    let others = recipients.filter(q);
    if others.len() > 0 {
        table::lemma_filter_members(recipients, q, others[0]);
        assert(others.contains(others[0]));
    } else {
        assert forall|i: int| 0 <= i < recipients.len() implies #[trigger] recipients[i]
            == owner by {
            table::lemma_filter_members(recipients, q, recipients[i]);
            assert(recipients.contains(recipients[i]));
        }
    }
}

/// An update or a removal of fields never changes the id or the server of a channel.
pub proof fn law_update_keeps_identity(
    c: ChannelView,
    partial: PartialChannelView,
    remove: Seq<FieldsChannel>,
)
    ensures
        channels::id_of(channel_store::updated(partial, remove)(c)) == channels::id_of(c),
        channels::server_of(channel_store::updated(partial, remove)(c)) == channels::server_of(c),
{
    channel_store::lemma_update_keeps_id(c, partial, remove);
}

} // verus!
