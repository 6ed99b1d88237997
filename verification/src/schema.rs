//! The collections and indexes of the database: what a fresh one has, and the steps
//! that bring an older one up to date.
use vstd::prelude::*;

verus! {

/// One more than the last migration.
pub const LATEST_REVISION: i32 = 69;

/// Number of steps that fresh databases are made by.
pub const FRESH_STEPS: usize = 122;

/// Number of steps of all migrations.
pub const MIGRATION_STEPS: usize = 143;

/// Which documents are meant.
#[derive(Clone, Copy, Debug, PartialEq, Eq)]
pub enum Only {
    /// All of them.
    All,
    /// Those that have a field.
    Has { field: &'static str },
    /// Those where a field holds a document.
    Object { field: &'static str },
    /// Those where a field holds a text.
    Is { field: &'static str, value: &'static str },
    /// Those where a field holds `true`.
    True { field: &'static str },
    /// Those where a field holds one of two texts.
    Either { field: &'static str, first: &'static str, second: &'static str },
}

/// A change of documents.
#[derive(Clone, Copy, Debug, PartialEq, Eq)]
pub enum Change {
    SetText { field: &'static str, value: &'static str },
    /// A number of 64 bits.
    SetNumber { field: &'static str, value: i64 },
    /// A number of 32 bits.
    SetShort { field: &'static str, value: i32 },
    /// A list of two numbers of 32 bits.
    SetPair { field: &'static str, first: i32, second: i32 },
    /// An empty document.
    SetEmpty { field: &'static str },
    /// A document that holds an empty list under a key.
    SetEmptyList { field: &'static str, key: &'static str },
    /// The current time, as text.
    SetNowText { field: &'static str },
    /// The current time.
    SetNow { field: &'static str },
    Unset { field: &'static str },
    Rename { from: &'static str, to: &'static str },
    /// Sets bits of a number and leaves the others.
    SetBits { field: &'static str, bits: i64 },
}

/// Changes that have to read documents first.
#[derive(Clone, Copy, Debug, PartialEq, Eq)]
pub enum Rewrite {
    /// Messages hold a list of attachments in place of one.
    AttachmentLists,
    /// Sessions move from accounts to a collection of their own.
    Sessions,
    /// Channels hold the id of their last message in place of the message.
    LastMessages,
    /// Permissions of servers and roles are wiped but for sending messages.
    ServerPermissions,
    /// Permissions of channels are wiped but for sending messages.
    ChannelPermissions,
    /// Collections and indexes of accounts.
    Authifier,
    /// The index for the deletion of accounts.
    AccountDeletion,
    /// Users get discriminators.
    Discriminators,
    /// Invites are stored with their type.
    Invites,
    /// Webhooks get a creator; those without a channel are deleted.
    Webhooks,
    /// Sessions get the time when they were last seen.
    LastSeen,
    /// Ranks of roles become positions.
    RoleRanks,
    /// Roles hold their own id.
    RoleIds,
}

/// An index over one to three fields, in ascending order.
#[derive(Clone, Copy, Debug, PartialEq, Eq)]
pub struct Index {
    pub name: &'static str,
    pub first: &'static str,
    pub second: Option<&'static str>,
    pub third: Option<&'static str>,
    /// A text index over the first field.
    pub text: bool,
    pub unique: bool,
    /// Leaves documents without the field out.
    pub sparse: bool,
    /// Does not tell letters of different case apart.
    pub folded: bool,
    /// Which documents are in it.
    pub only: Only,
}

/// A step on the way to the current database.
#[derive(Clone, Copy, Debug, PartialEq, Eq)]
pub enum Step {
    CreateCollection {
        name: &'static str,
        /// Whether it is no failure that it exists.
        may_exist: bool,
    },
    /// A collection that drops its oldest documents beyond a size.
    CreateCapped { name: &'static str, size: u64 },
    CreateIndex { collection: &'static str, index: Index },
    DropIndex {
        collection: &'static str,
        name: &'static str,
        /// Whether it is no failure that it does not exist.
        may_miss: bool,
    },
    DropAllIndexes { collection: &'static str },
    /// Changes documents, all changes at once.
    Update {
        collection: &'static str,
        only: Only,
        first: Change,
        second: Option<Change>,
    },
    /// Renames a collection, each name with that of its database before it; one that has
    /// the new name is dropped.
    RenameCollection { from: &'static str, to: &'static str },
    /// Gives the operator time to stop.
    Wait { seconds: u64 },
    /// Notes the revision of the database.
    Record { revision: i32 },
    Rewrite(Rewrite),
}

/// Permissions that migrations grant.
#[derive(Clone, Copy, Debug, PartialEq, Eq)]
pub struct PermissionBits {
    /// Of webhooks.
    pub webhook: i64,
    /// To send video, to speak and to listen.
    pub voice: i64,
    /// To watch together.
    pub watch_together: i64,
}

/// An index without conditions.
#[verifier::allow_in_spec]
pub fn plain_index(
    collection: &'static str,
    name: &'static str,
    first: &'static str,
    second: Option<&'static str>,
    third: Option<&'static str>,
) -> (r: Step)
    returns
        (Step::CreateIndex {
            collection,
            index: Index {
                name,
                first,
                second,
                third,
                text: false,
                unique: false,
                sparse: false,
                folded: false,
                only: Only::All,
            },
        }),
{
    Step::CreateIndex {
        collection,
        index: Index {
            name,
            first,
            second,
            third,
            text: false,
            unique: false,
            sparse: false,
            folded: false,
            only: Only::All,
        },
    }
}

/// An index that keeps documents apart.
#[verifier::allow_in_spec]
pub fn unique_index(
    collection: &'static str,
    name: &'static str,
    first: &'static str,
    second: Option<&'static str>,
    third: Option<&'static str>,
) -> (r: Step)
    returns
        (Step::CreateIndex {
            collection,
            index: Index {
                name,
                first,
                second,
                third,
                text: false,
                unique: true,
                sparse: false,
                folded: false,
                only: Only::All,
            },
        }),
{
    Step::CreateIndex {
        collection,
        index: Index {
            name,
            first,
            second,
            third,
            text: false,
            unique: true,
            sparse: false,
            folded: false,
            only: Only::All,
        },
    }
}

/// The steps that a fresh database is made by.
pub open spec fn fresh_step(i: usize) -> Step {
    match i {
        0usize => Step::CreateCollection { name: "accounts", may_exist: false },
        1usize => Step::CreateCollection { name: "users", may_exist: false },
        2usize => Step::CreateCollection { name: "channels", may_exist: false },
        3usize => Step::CreateCollection { name: "messages", may_exist: false },
        4usize => Step::CreateCollection { name: "servers", may_exist: false },
        5usize => Step::CreateCollection { name: "server_members", may_exist: false },
        6usize => Step::CreateCollection { name: "server_bans", may_exist: false },
        7usize => Step::CreateCollection { name: "channel_invites", may_exist: false },
        8usize => Step::CreateCollection { name: "channel_unreads", may_exist: false },
        9usize => Step::CreateCollection { name: "channel_webhooks", may_exist: false },
        10usize => Step::CreateCollection { name: "calendar_events", may_exist: false },
        11usize => Step::CreateCollection { name: "event_rsvps", may_exist: false },
        12usize => Step::CreateCollection { name: "event_reminders_sent", may_exist: false },
        13usize => Step::CreateCollection { name: "migrations", may_exist: false },
        14usize => Step::CreateCollection { name: "attachments", may_exist: false },
        15usize => Step::CreateCollection { name: "attachment_hashes", may_exist: false },
        16usize => Step::CreateCollection { name: "user_settings", may_exist: false },
        17usize => Step::CreateCollection { name: "policy_changes", may_exist: false },
        18usize => Step::CreateCollection { name: "safety_reports", may_exist: false },
        19usize => Step::CreateCollection { name: "safety_snapshots", may_exist: false },
        20usize => Step::CreateCollection { name: "safety_strikes", may_exist: false },
        21usize => Step::CreateCollection { name: "bots", may_exist: false },
        22usize => Step::CreateCollection { name: "ratelimit_events", may_exist: false },
        23usize => Step::CreateCapped { name: "pubsub", size: 1000000 },
        24usize => Step::CreateCollection { name: "sessions", may_exist: false },
        25usize => Step::CreateCollection { name: "account_invites", may_exist: false },
        26usize => Step::CreateCollection { name: "mfa_tickets", may_exist: false },
        27usize => Step::CreateCollection { name: "e2ee_identity", may_exist: false },
        28usize => Step::CreateCollection { name: "e2ee_prekeys", may_exist: false },
        29usize => Step::CreateCollection { name: "e2ee_queue", may_exist: false },
        30usize => Step::CreateCollection { name: "mls_key_packages", may_exist: false },
        31usize => Step::CreateCollection { name: "mls_groups", may_exist: false },
        32usize => Step::CreateCollection { name: "mls_commits", may_exist: false },
        33usize => Step::CreateCollection { name: "mls_join_intents", may_exist: false },
        34usize => Step::CreateCollection { name: "thread_members", may_exist: false },
        35usize => Step::CreateCollection { name: "application_commands", may_exist: false },
        36usize => Step::CreateCollection { name: "interactions", may_exist: false },
        37usize => Step::CreateCollection { name: "polls", may_exist: false },
        38usize => Step::CreateCollection { name: "poll_votes", may_exist: false },
        39usize => Step::CreateCollection { name: "scheduled_messages", may_exist: false },
        40usize => Step::CreateCollection { name: "channel_follows", may_exist: false },
        41usize => Step::CreateCollection { name: "sounds", may_exist: false },
        42usize => Step::CreateCollection { name: "user_stream_connections", may_exist: false },
        43usize => Step::CreateCollection { name: "server_boosts", may_exist: false },
        44usize => Step::CreateCollection { name: "discord_import_jobs", may_exist: false },
        45usize => Step::CreateCollection { name: "softres_sheets", may_exist: false },
        46usize => Step::CreateCollection { name: "softres_reserves", may_exist: false },
        47usize => Step::CreateCollection { name: "remote_control_audit", may_exist: false },
        48usize => Step::CreateIndex { collection: "users", index: Index { name: "username", first: "username", second: None, third: None, text: false, unique: false, sparse: false, folded: true, only: Only::All } },
        49usize => Step::CreateIndex { collection: "users", index: Index { name: "username_discriminator", first: "username", second: Some("discriminator"), third: None, text: false, unique: true, sparse: false, folded: true, only: Only::All } },
        50usize => Step::CreateIndex { collection: "messages", index: Index { name: "content", first: "content", second: None, third: None, text: true, unique: false, sparse: false, folded: false, only: Only::All } },
        51usize => plain_index("messages", "channel_id_compound", "channel", Some("_id"), None),
        52usize => plain_index("messages", "author", "author", None, None),
        53usize => plain_index("messages", "channel_pinned_compound", "channel", Some("pinned"), None),
        54usize => plain_index("channel_unreads", "compound_id", "_id.channel", Some("_id.user"), None),
        55usize => plain_index("channel_unreads", "user_id", "_id.user", None, None),
        56usize => plain_index("thread_members", "thread", "_id.thread", None, None),
        57usize => plain_index("thread_members", "user", "_id.user", None, None),
        58usize => unique_index("application_commands", "bot_scope_name", "bot_id", Some("server"), Some("name")),
        59usize => plain_index("application_commands", "server", "server", None, None),
        60usize => plain_index("interactions", "bot_id", "bot_id", None, None),
        61usize => unique_index("polls", "message", "message", None, None),
        62usize => plain_index("polls", "closed_expires", "closed", Some("expires_at"), None),
        63usize => plain_index("polls", "channel", "channel", None, None),
        64usize => plain_index("poll_votes", "poll_answers", "poll", Some("answer_ids"), None),
        65usize => plain_index("poll_votes", "channel", "channel", None, None),
        66usize => plain_index("scheduled_messages", "status_scheduled_at", "status", Some("scheduled_at"), None),
        67usize => plain_index("scheduled_messages", "author_channel", "author", Some("channel"), None),
        68usize => plain_index("scheduled_messages", "channel", "channel", None, None),
        69usize => unique_index("channel_follows", "source_target", "source_channel", Some("target_channel"), None),
        70usize => plain_index("channel_follows", "target_channel", "target_channel", None, None),
        71usize => plain_index("channel_follows", "webhook_id", "webhook_id", None, None),
        72usize => plain_index("sounds", "server_id", "server_id", None, None),
        73usize => plain_index("servers", "discoverable", "discoverable", None, None),
        74usize => plain_index("servers", "discovery_requested", "discovery_requested", None, None),
        75usize => plain_index("channels", "thread_parent_archived", "channel_type", Some("parent_channel"), Some("archived")),
        76usize => plain_index("server_members", "compound_id", "_id.server", Some("_id.user"), None),
        77usize => plain_index("server_members", "user_id", "_id.user", None, None),
        78usize => plain_index("attachments", "hash", "hash", None, None),
        79usize => plain_index("attachments", "used_for_id", "used_for.id", None, None),
        80usize => plain_index("attachment_hashes", "processed_hash", "processed_hash", None, None),
        81usize => Step::Record { revision: LATEST_REVISION },
        82usize => plain_index("ratelimit_events", "compound_key", "_id", Some("target_id"), Some("event_type")),
        83usize => Step::CreateIndex { collection: "accounts", index: Index { name: "email", first: "email", second: None, third: None, text: false, unique: true, sparse: false, folded: true, only: Only::All } },
        84usize => Step::CreateIndex { collection: "accounts", index: Index { name: "email_normalised", first: "email_normalised", second: None, third: None, text: false, unique: true, sparse: false, folded: true, only: Only::All } },
        85usize => plain_index("accounts", "email_verification", "verification.token", None, None),
        86usize => plain_index("accounts", "password_reset", "password_reset.token", None, None),
        87usize => plain_index("accounts", "account_deletion", "deletion.token", None, None),
        88usize => unique_index("sessions", "token", "token", None, None),
        89usize => plain_index("sessions", "user_id", "user_id", None, None),
        90usize => unique_index("mfa_tickets", "token", "token", None, None),
        91usize => unique_index("e2ee_identity", "user_device", "user_id", Some("device_id"), None),
        92usize => plain_index("e2ee_prekeys", "user_device", "user_id", Some("device_id"), None),
        93usize => plain_index("e2ee_queue", "recipient_compound", "recipient_user_id", Some("recipient_device_id"), Some("_id")),
        94usize => plain_index("calendar_events", "server_series_end", "server", Some("series_end"), None),
        95usize => plain_index("calendar_events", "server_start", "server", Some("start"), None),
        96usize => plain_index("calendar_events", "series_end_global", "series_end", None, None),
        97usize => plain_index("event_rsvps", "event_id", "_id.event", None, None),
        98usize => plain_index("event_rsvps", "user_id", "_id.user", None, None),
        99usize => plain_index("event_reminders_sent", "occurrence", "_id.occurrence", None, None),
        100usize => plain_index("mls_key_packages", "user_device_last_resort", "user_id", Some("device_id"), Some("last_resort")),
        101usize => plain_index("mls_key_packages", "expires_at", "expires_at", None, None),
        102usize => Step::CreateIndex { collection: "mls_groups", index: Index { name: "open_channel_group", first: "channel_id", second: None, third: None, text: false, unique: true, sparse: false, folded: false, only: Only::True { field: "open" } } },
        103usize => plain_index("mls_commits", "group_epoch", "group_id", Some("epoch"), None),
        104usize => plain_index("mls_join_intents", "group_id", "group_id", None, None),
        105usize => plain_index("user_stream_connections", "user_id", "user_id", None, None),
        106usize => plain_index("user_stream_connections", "platform", "platform", None, None),
        107usize => plain_index("server_boosts", "user_id", "user_id", None, None),
        108usize => Step::CreateIndex { collection: "server_boosts", index: Index { name: "server_id", first: "server_id", second: None, third: None, text: false, unique: false, sparse: true, folded: false, only: Only::All } },
        109usize => Step::CreateIndex { collection: "server_boosts", index: Index { name: "expires_at", first: "expires_at", second: None, third: None, text: false, unique: false, sparse: true, folded: false, only: Only::All } },
        110usize => Step::CreateIndex { collection: "discord_import_jobs", index: Index { name: "active_user_id", first: "user_id", second: None, third: None, text: false, unique: true, sparse: false, folded: false, only: Only::Either { field: "status", first: "Queued", second: "Running" } } },
        111usize => plain_index("discord_import_jobs", "user_id", "user_id", None, None),
        112usize => plain_index("discord_import_jobs", "status", "status", None, None),
        113usize => unique_index("softres_sheets", "message", "message", None, None),
        114usize => Step::CreateIndex { collection: "softres_sheets", index: Index { name: "event", first: "event", second: None, third: None, text: false, unique: true, sparse: true, folded: false, only: Only::All } },
        115usize => plain_index("softres_sheets", "channel", "channel", None, None),
        116usize => Step::CreateIndex { collection: "softres_sheets", index: Index { name: "server", first: "server", second: None, third: None, text: false, unique: false, sparse: true, folded: false, only: Only::All } },
        117usize => plain_index("softres_reserves", "sheet", "sheet", None, None),
        118usize => plain_index("softres_reserves", "sheet_items", "sheet", Some("items"), None),
        119usize => plain_index("softres_reserves", "channel", "channel", None, None),
        120usize => plain_index("remote_control_audit", "channel_created", "channel_id", Some("created_at"), None),
        _ => plain_index("remote_control_audit", "controller", "controller_id", Some("created_at"), None),
    }
}

/// The migration that a step belongs to; steps are in the order of their migrations.
pub open spec fn revision_of(i: usize) -> i32 {
    if i < 2 {
        1
    } else if i < 3 {
        2
    } else if i < 6 {
        3
    } else if i < 9 {
        4
    } else if i < 10 {
        5
    } else if i < 11 {
        6
    } else if i < 12 {
        7
    } else if i < 16 {
        8
    } else if i < 17 {
        9
    } else if i < 19 {
        10
    } else if i < 24 {
        11
    } else if i < 25 {
        12
    } else if i < 28 {
        13
    } else if i < 29 {
        14
    } else if i < 30 {
        15
    } else if i < 33 {
        16
    } else if i < 34 {
        17
    } else if i < 36 {
        18
    } else if i < 38 {
        19
    } else if i < 39 {
        20
    } else if i < 40 {
        21
    } else if i < 41 {
        22
    } else if i < 43 {
        23
    } else if i < 46 {
        24
    } else if i < 49 {
        25
    } else if i < 50 {
        26
    } else if i < 51 {
        27
    } else if i < 54 {
        28
    } else if i < 55 {
        30
    } else if i < 56 {
        31
    } else if i < 57 {
        32
    } else if i < 59 {
        40
    } else if i < 60 {
        43
    } else if i < 61 {
        46
    } else if i < 62 {
        48
    } else if i < 63 {
        49
    } else if i < 64 {
        50
    } else if i < 70 {
        51
    } else if i < 71 {
        52
    } else if i < 73 {
        53
    } else if i < 82 {
        54
    } else if i < 91 {
        55
    } else if i < 95 {
        56
    } else if i < 100 {
        57
    } else if i < 107 {
        58
    } else if i < 111 {
        59
    } else if i < 115 {
        60
    } else if i < 117 {
        61
    } else if i < 119 {
        62
    } else if i < 122 {
        63
    } else if i < 126 {
        64
    } else if i < 130 {
        65
    } else if i < 139 {
        66
    } else if i < 142 {
        67
    } else {
        68
    }
}

/// The steps of all migrations, one migration after the other.
pub open spec fn migration_step(i: usize, bits: PermissionBits) -> Step {
    match i {
        0usize => Step::Update { collection: "messages", only: Only::Has { field: "attachment" }, first: Change::SetText { field: "attachment.tag", value: "attachments" }, second: Some(Change::SetShort { field: "attachment.size", value: 0 }) },
        1usize => Step::Update { collection: "attachments", only: Only::All, first: Change::SetText { field: "tag", value: "attachments" }, second: Some(Change::SetShort { field: "size", value: 0 }) },
        2usize => Step::CreateCollection { name: "servers", may_exist: false },
        3usize => Step::Rewrite(Rewrite::AttachmentLists),
        4usize => Step::CreateCollection { name: "channel_unreads", may_exist: false },
        5usize => Step::CreateCollection { name: "user_settings", may_exist: false },
        6usize => Step::CreateCollection { name: "server_members", may_exist: false },
        7usize => Step::CreateCollection { name: "server_bans", may_exist: false },
        8usize => Step::CreateCollection { name: "channel_invites", may_exist: false },
        9usize => Step::Update { collection: "servers", only: Only::All, first: Change::SetPair { field: "default_permissions", first: 0, second: 0 }, second: None },
        10usize => Step::CreateIndex { collection: "messages", index: Index { name: "content", first: "content", second: None, third: None, text: true, unique: false, sparse: false, folded: false, only: Only::All } },
        11usize => Step::CreateCollection { name: "bots", may_exist: false },
        12usize => Step::DropIndex { collection: "accounts", name: "email", may_miss: false },
        13usize => Step::DropIndex { collection: "accounts", name: "email_normalised", may_miss: false },
        14usize => Step::Rewrite(Rewrite::Sessions),
        15usize => Step::Update { collection: "accounts", only: Only::All, first: Change::Unset { field: "sessions" }, second: Some(Change::SetEmptyList { field: "mfa", key: "recovery_codes" }) },
        16usize => Step::Rewrite(Rewrite::LastMessages),
        17usize => Step::Update { collection: "servers", only: Only::All, first: Change::Unset { field: "nonce" }, second: None },
        18usize => Step::Update { collection: "channels", only: Only::All, first: Change::Unset { field: "nonce" }, second: None },
        19usize => plain_index("messages", "channel", "channel", None, None),
        20usize => plain_index("channel_unreads", "compound_id", "_id.channel", Some("_id.user"), None),
        21usize => plain_index("channel_unreads", "user_id", "_id.user", None, None),
        22usize => plain_index("server_members", "compound_id", "_id.server", Some("_id.user"), None),
        23usize => plain_index("server_members", "user_id", "_id.user", None, None),
        24usize => plain_index("messages", "channel_id_compound", "channel", Some("_id"), None),
        25usize => Step::Wait { seconds: 10 },
        26usize => Step::Rewrite(Rewrite::ServerPermissions),
        27usize => Step::Rewrite(Rewrite::ChannelPermissions),
        28usize => Step::Update { collection: "messages", only: Only::Object { field: "content" }, first: Change::Rename { from: "content", to: "system" }, second: None },
        29usize => Step::Rewrite(Rewrite::Authifier),
        30usize => Step::Rewrite(Rewrite::AccountDeletion),
        31usize => Step::CreateCollection { name: "emojis", may_exist: false },
        32usize => plain_index("emojis", "parent_id", "parent.id", None, None),
        33usize => Step::Update { collection: "server_members", only: Only::All, first: Change::SetNowText { field: "joined_at" }, second: None },
        34usize => Step::DropIndex { collection: "messages", name: "channel", may_miss: true },
        35usize => plain_index("messages", "author", "author", None, None),
        36usize => Step::CreateCollection { name: "safety_reports", may_exist: false },
        37usize => Step::CreateCollection { name: "safety_snapshots", may_exist: false },
        38usize => plain_index("safety_snapshots", "report_id", "report_id", None, None),
        39usize => Step::CreateCollection { name: "safety_strikes", may_exist: false },
        40usize => Step::Update { collection: "safety_strikes", only: Only::All, first: Change::SetText { field: "moderator_id", value: "01EX2NCWQ0CHS3QJF0FEQS1GR4" }, second: None },
        41usize => Step::DropIndex { collection: "users", name: "username", may_miss: false },
        42usize => Step::Rewrite(Rewrite::Discriminators),
        43usize => Step::CreateCollection { name: "channel_webhooks", may_exist: true },
        44usize => Step::CreateIndex { collection: "users", index: Index { name: "username", first: "username", second: None, third: None, text: false, unique: false, sparse: false, folded: true, only: Only::All } },
        45usize => Step::CreateIndex { collection: "users", index: Index { name: "username_discriminator", first: "username", second: Some("discriminator"), third: None, text: false, unique: true, sparse: false, folded: true, only: Only::All } },
        46usize => Step::Update { collection: "webhooks", only: Only::All, first: Change::SetNumber { field: "permissions", value: bits.webhook }, second: None },
        47usize => Step::CreateCollection { name: "ratelimit_events", may_exist: true },
        48usize => plain_index("ratelimit_events", "compound_key", "_id", Some("target_id"), Some("event_type")),
        49usize => Step::Rewrite(Rewrite::Invites),
        50usize => plain_index("messages", "channel_pinned_compound", "channel", Some("pinned"), None),
        51usize => Step::CreateCollection { name: "attachment_hashes", may_exist: true },
        52usize => plain_index("attachments", "hash", "hash", None, None),
        53usize => plain_index("attachment_hashes", "processed_hash", "processed_hash", None, None),
        54usize => plain_index("attachments", "used_for_id", "used_for.id", None, None),
        55usize => Step::Rewrite(Rewrite::Webhooks),
        56usize => Step::Rewrite(Rewrite::LastSeen),
        57usize => Step::CreateCollection { name: "policy_changes", may_exist: false },
        58usize => Step::Update { collection: "users", only: Only::All, first: Change::SetNow { field: "last_acknowledged_policy_change" }, second: None },
        59usize => Step::Rewrite(Rewrite::RoleRanks),
        60usize => Step::Update { collection: "channels", only: Only::Is { field: "channel_type", value: "VoiceChannel" }, first: Change::SetText { field: "channel_type", value: "TextChannel" }, second: Some(Change::SetEmpty { field: "voice" }) },
        61usize => Step::Update { collection: "servers", only: Only::All, first: Change::SetBits { field: "default_permissions", bits: bits.voice }, second: None },
        62usize => Step::Rewrite(Rewrite::RoleIds),
        63usize => Step::RenameCollection { from: "revolt.invites", to: "revolt.account_invites" },
        64usize => Step::CreateCollection { name: "e2ee_identity", may_exist: true },
        65usize => Step::CreateCollection { name: "e2ee_prekeys", may_exist: true },
        66usize => Step::CreateCollection { name: "e2ee_queue", may_exist: true },
        67usize => unique_index("e2ee_identity", "user_device", "user_id", Some("device_id"), None),
        68usize => plain_index("e2ee_prekeys", "user_device", "user_id", Some("device_id"), None),
        69usize => plain_index("e2ee_queue", "recipient_compound", "recipient_user_id", Some("recipient_device_id"), Some("_id")),
        70usize => Step::CreateCollection { name: "e2ee_blobs", may_exist: true },
        71usize => Step::CreateCollection { name: "e2ee_backups", may_exist: true },
        72usize => unique_index("e2ee_backups", "user_device", "user_id", Some("device_id"), None),
        73usize => Step::CreateCollection { name: "calendar_events", may_exist: true },
        74usize => Step::CreateCollection { name: "event_rsvps", may_exist: true },
        75usize => Step::CreateCollection { name: "event_reminders_sent", may_exist: true },
        76usize => plain_index("calendar_events", "server_series_end", "server", Some("series_end"), None),
        77usize => plain_index("calendar_events", "server_start", "server", Some("start"), None),
        78usize => plain_index("calendar_events", "series_end_global", "series_end", None, None),
        79usize => plain_index("event_rsvps", "event_id", "_id.event", None, None),
        80usize => plain_index("event_rsvps", "user_id", "_id.user", None, None),
        81usize => plain_index("event_reminders_sent", "occurrence", "_id.occurrence", None, None),
        82usize => Step::CreateCollection { name: "mls_key_packages", may_exist: true },
        83usize => Step::CreateCollection { name: "mls_groups", may_exist: true },
        84usize => Step::CreateCollection { name: "mls_commits", may_exist: true },
        85usize => Step::CreateCollection { name: "mls_join_intents", may_exist: true },
        86usize => plain_index("mls_key_packages", "user_device_last_resort", "user_id", Some("device_id"), Some("last_resort")),
        87usize => plain_index("mls_key_packages", "expires_at", "expires_at", None, None),
        88usize => Step::CreateIndex { collection: "mls_groups", index: Index { name: "open_channel_group", first: "channel_id", second: None, third: None, text: false, unique: true, sparse: false, folded: false, only: Only::True { field: "open" } } },
        89usize => plain_index("mls_commits", "group_epoch", "group_id", Some("epoch"), None),
        90usize => plain_index("mls_join_intents", "group_id", "group_id", None, None),
        91usize => Step::CreateCollection { name: "thread_members", may_exist: true },
        92usize => plain_index("thread_members", "thread", "_id.thread", None, None),
        93usize => plain_index("thread_members", "user", "_id.user", None, None),
        94usize => plain_index("channels", "thread_parent_archived", "channel_type", Some("parent_channel"), Some("archived")),
        95usize => Step::CreateCollection { name: "application_commands", may_exist: true },
        96usize => Step::CreateCollection { name: "interactions", may_exist: true },
        97usize => unique_index("application_commands", "bot_scope_name", "bot_id", Some("server"), Some("name")),
        98usize => plain_index("application_commands", "server", "server", None, None),
        99usize => plain_index("interactions", "bot_id", "bot_id", None, None),
        100usize => Step::CreateCollection { name: "polls", may_exist: true },
        101usize => Step::CreateCollection { name: "poll_votes", may_exist: true },
        102usize => unique_index("polls", "message", "message", None, None),
        103usize => plain_index("polls", "closed_expires", "closed", Some("expires_at"), None),
        104usize => plain_index("polls", "channel", "channel", None, None),
        105usize => plain_index("poll_votes", "poll_answers", "poll", Some("answer_ids"), None),
        106usize => plain_index("poll_votes", "channel", "channel", None, None),
        107usize => Step::CreateCollection { name: "scheduled_messages", may_exist: true },
        108usize => plain_index("scheduled_messages", "status_scheduled_at", "status", Some("scheduled_at"), None),
        109usize => plain_index("scheduled_messages", "author_channel", "author", Some("channel"), None),
        110usize => plain_index("scheduled_messages", "channel", "channel", None, None),
        111usize => Step::CreateCollection { name: "channel_follows", may_exist: true },
        112usize => unique_index("channel_follows", "source_target", "source_channel", Some("target_channel"), None),
        113usize => plain_index("channel_follows", "target_channel", "target_channel", None, None),
        114usize => plain_index("channel_follows", "webhook_id", "webhook_id", None, None),
        115usize => Step::CreateCollection { name: "sounds", may_exist: true },
        116usize => plain_index("sounds", "server_id", "server_id", None, None),
        117usize => plain_index("servers", "discoverable", "discoverable", None, None),
        118usize => plain_index("servers", "discovery_requested", "discovery_requested", None, None),
        119usize => Step::CreateCollection { name: "user_stream_connections", may_exist: true },
        120usize => plain_index("user_stream_connections", "user_id", "user_id", None, None),
        121usize => plain_index("user_stream_connections", "platform", "platform", None, None),
        122usize => Step::CreateCollection { name: "server_boosts", may_exist: true },
        123usize => plain_index("server_boosts", "user_id", "user_id", None, None),
        124usize => Step::CreateIndex { collection: "server_boosts", index: Index { name: "server_id", first: "server_id", second: None, third: None, text: false, unique: false, sparse: true, folded: false, only: Only::All } },
        125usize => Step::CreateIndex { collection: "server_boosts", index: Index { name: "expires_at", first: "expires_at", second: None, third: None, text: false, unique: false, sparse: true, folded: false, only: Only::All } },
        126usize => Step::CreateCollection { name: "discord_import_jobs", may_exist: true },
        127usize => Step::CreateIndex { collection: "discord_import_jobs", index: Index { name: "active_user_id", first: "user_id", second: None, third: None, text: false, unique: true, sparse: false, folded: false, only: Only::Either { field: "status", first: "Queued", second: "Running" } } },
        128usize => plain_index("discord_import_jobs", "user_id", "user_id", None, None),
        129usize => plain_index("discord_import_jobs", "status", "status", None, None),
        130usize => Step::CreateCollection { name: "softres_sheets", may_exist: true },
        131usize => Step::CreateCollection { name: "softres_reserves", may_exist: true },
        132usize => unique_index("softres_sheets", "message", "message", None, None),
        133usize => Step::CreateIndex { collection: "softres_sheets", index: Index { name: "event", first: "event", second: None, third: None, text: false, unique: true, sparse: true, folded: false, only: Only::All } },
        134usize => plain_index("softres_sheets", "channel", "channel", None, None),
        135usize => Step::CreateIndex { collection: "softres_sheets", index: Index { name: "server", first: "server", second: None, third: None, text: false, unique: false, sparse: true, folded: false, only: Only::All } },
        136usize => plain_index("softres_reserves", "sheet", "sheet", None, None),
        137usize => plain_index("softres_reserves", "sheet_items", "sheet", Some("items"), None),
        138usize => plain_index("softres_reserves", "channel", "channel", None, None),
        139usize => Step::CreateCollection { name: "remote_control_audit", may_exist: true },
        140usize => plain_index("remote_control_audit", "channel_created", "channel_id", Some("created_at"), None),
        141usize => plain_index("remote_control_audit", "controller", "controller_id", Some("created_at"), None),
        _ => Step::Update { collection: "servers", only: Only::All, first: Change::SetBits { field: "default_permissions", bits: bits.watch_together }, second: None },
    }
}

/// A step that a fresh database is made by.
pub fn fresh_step_at(i: usize) -> (r: Step)
    requires
        i < FRESH_STEPS,
    ensures
        r == fresh_step(i),
{
    match i {
        0usize => Step::CreateCollection { name: "accounts", may_exist: false },
        1usize => Step::CreateCollection { name: "users", may_exist: false },
        2usize => Step::CreateCollection { name: "channels", may_exist: false },
        3usize => Step::CreateCollection { name: "messages", may_exist: false },
        4usize => Step::CreateCollection { name: "servers", may_exist: false },
        5usize => Step::CreateCollection { name: "server_members", may_exist: false },
        6usize => Step::CreateCollection { name: "server_bans", may_exist: false },
        7usize => Step::CreateCollection { name: "channel_invites", may_exist: false },
        8usize => Step::CreateCollection { name: "channel_unreads", may_exist: false },
        9usize => Step::CreateCollection { name: "channel_webhooks", may_exist: false },
        10usize => Step::CreateCollection { name: "calendar_events", may_exist: false },
        11usize => Step::CreateCollection { name: "event_rsvps", may_exist: false },
        12usize => Step::CreateCollection { name: "event_reminders_sent", may_exist: false },
        13usize => Step::CreateCollection { name: "migrations", may_exist: false },
        14usize => Step::CreateCollection { name: "attachments", may_exist: false },
        15usize => Step::CreateCollection { name: "attachment_hashes", may_exist: false },
        16usize => Step::CreateCollection { name: "user_settings", may_exist: false },
        17usize => Step::CreateCollection { name: "policy_changes", may_exist: false },
        18usize => Step::CreateCollection { name: "safety_reports", may_exist: false },
        19usize => Step::CreateCollection { name: "safety_snapshots", may_exist: false },
        20usize => Step::CreateCollection { name: "safety_strikes", may_exist: false },
        21usize => Step::CreateCollection { name: "bots", may_exist: false },
        22usize => Step::CreateCollection { name: "ratelimit_events", may_exist: false },
        23usize => Step::CreateCapped { name: "pubsub", size: 1000000 },
        24usize => Step::CreateCollection { name: "sessions", may_exist: false },
        25usize => Step::CreateCollection { name: "account_invites", may_exist: false },
        26usize => Step::CreateCollection { name: "mfa_tickets", may_exist: false },
        27usize => Step::CreateCollection { name: "e2ee_identity", may_exist: false },
        28usize => Step::CreateCollection { name: "e2ee_prekeys", may_exist: false },
        29usize => Step::CreateCollection { name: "e2ee_queue", may_exist: false },
        30usize => Step::CreateCollection { name: "mls_key_packages", may_exist: false },
        31usize => Step::CreateCollection { name: "mls_groups", may_exist: false },
        32usize => Step::CreateCollection { name: "mls_commits", may_exist: false },
        33usize => Step::CreateCollection { name: "mls_join_intents", may_exist: false },
        34usize => Step::CreateCollection { name: "thread_members", may_exist: false },
        35usize => Step::CreateCollection { name: "application_commands", may_exist: false },
        36usize => Step::CreateCollection { name: "interactions", may_exist: false },
        37usize => Step::CreateCollection { name: "polls", may_exist: false },
        38usize => Step::CreateCollection { name: "poll_votes", may_exist: false },
        39usize => Step::CreateCollection { name: "scheduled_messages", may_exist: false },
        40usize => Step::CreateCollection { name: "channel_follows", may_exist: false },
        41usize => Step::CreateCollection { name: "sounds", may_exist: false },
        42usize => Step::CreateCollection { name: "user_stream_connections", may_exist: false },
        43usize => Step::CreateCollection { name: "server_boosts", may_exist: false },
        44usize => Step::CreateCollection { name: "discord_import_jobs", may_exist: false },
        45usize => Step::CreateCollection { name: "softres_sheets", may_exist: false },
        46usize => Step::CreateCollection { name: "softres_reserves", may_exist: false },
        47usize => Step::CreateCollection { name: "remote_control_audit", may_exist: false },
        48usize => Step::CreateIndex { collection: "users", index: Index { name: "username", first: "username", second: None, third: None, text: false, unique: false, sparse: false, folded: true, only: Only::All } },
        49usize => Step::CreateIndex { collection: "users", index: Index { name: "username_discriminator", first: "username", second: Some("discriminator"), third: None, text: false, unique: true, sparse: false, folded: true, only: Only::All } },
        50usize => Step::CreateIndex { collection: "messages", index: Index { name: "content", first: "content", second: None, third: None, text: true, unique: false, sparse: false, folded: false, only: Only::All } },
        51usize => plain_index("messages", "channel_id_compound", "channel", Some("_id"), None),
        52usize => plain_index("messages", "author", "author", None, None),
        53usize => plain_index("messages", "channel_pinned_compound", "channel", Some("pinned"), None),
        54usize => plain_index("channel_unreads", "compound_id", "_id.channel", Some("_id.user"), None),
        55usize => plain_index("channel_unreads", "user_id", "_id.user", None, None),
        56usize => plain_index("thread_members", "thread", "_id.thread", None, None),
        57usize => plain_index("thread_members", "user", "_id.user", None, None),
        58usize => unique_index("application_commands", "bot_scope_name", "bot_id", Some("server"), Some("name")),
        59usize => plain_index("application_commands", "server", "server", None, None),
        60usize => plain_index("interactions", "bot_id", "bot_id", None, None),
        61usize => unique_index("polls", "message", "message", None, None),
        62usize => plain_index("polls", "closed_expires", "closed", Some("expires_at"), None),
        63usize => plain_index("polls", "channel", "channel", None, None),
        64usize => plain_index("poll_votes", "poll_answers", "poll", Some("answer_ids"), None),
        65usize => plain_index("poll_votes", "channel", "channel", None, None),
        66usize => plain_index("scheduled_messages", "status_scheduled_at", "status", Some("scheduled_at"), None),
        67usize => plain_index("scheduled_messages", "author_channel", "author", Some("channel"), None),
        68usize => plain_index("scheduled_messages", "channel", "channel", None, None),
        69usize => unique_index("channel_follows", "source_target", "source_channel", Some("target_channel"), None),
        70usize => plain_index("channel_follows", "target_channel", "target_channel", None, None),
        71usize => plain_index("channel_follows", "webhook_id", "webhook_id", None, None),
        72usize => plain_index("sounds", "server_id", "server_id", None, None),
        73usize => plain_index("servers", "discoverable", "discoverable", None, None),
        74usize => plain_index("servers", "discovery_requested", "discovery_requested", None, None),
        75usize => plain_index("channels", "thread_parent_archived", "channel_type", Some("parent_channel"), Some("archived")),
        76usize => plain_index("server_members", "compound_id", "_id.server", Some("_id.user"), None),
        77usize => plain_index("server_members", "user_id", "_id.user", None, None),
        78usize => plain_index("attachments", "hash", "hash", None, None),
        79usize => plain_index("attachments", "used_for_id", "used_for.id", None, None),
        80usize => plain_index("attachment_hashes", "processed_hash", "processed_hash", None, None),
        81usize => Step::Record { revision: LATEST_REVISION },
        82usize => plain_index("ratelimit_events", "compound_key", "_id", Some("target_id"), Some("event_type")),
        83usize => Step::CreateIndex { collection: "accounts", index: Index { name: "email", first: "email", second: None, third: None, text: false, unique: true, sparse: false, folded: true, only: Only::All } },
        84usize => Step::CreateIndex { collection: "accounts", index: Index { name: "email_normalised", first: "email_normalised", second: None, third: None, text: false, unique: true, sparse: false, folded: true, only: Only::All } },
        85usize => plain_index("accounts", "email_verification", "verification.token", None, None),
        86usize => plain_index("accounts", "password_reset", "password_reset.token", None, None),
        87usize => plain_index("accounts", "account_deletion", "deletion.token", None, None),
        88usize => unique_index("sessions", "token", "token", None, None),
        89usize => plain_index("sessions", "user_id", "user_id", None, None),
        90usize => unique_index("mfa_tickets", "token", "token", None, None),
        91usize => unique_index("e2ee_identity", "user_device", "user_id", Some("device_id"), None),
        92usize => plain_index("e2ee_prekeys", "user_device", "user_id", Some("device_id"), None),
        93usize => plain_index("e2ee_queue", "recipient_compound", "recipient_user_id", Some("recipient_device_id"), Some("_id")),
        94usize => plain_index("calendar_events", "server_series_end", "server", Some("series_end"), None),
        95usize => plain_index("calendar_events", "server_start", "server", Some("start"), None),
        96usize => plain_index("calendar_events", "series_end_global", "series_end", None, None),
        97usize => plain_index("event_rsvps", "event_id", "_id.event", None, None),
        98usize => plain_index("event_rsvps", "user_id", "_id.user", None, None),
        99usize => plain_index("event_reminders_sent", "occurrence", "_id.occurrence", None, None),
        100usize => plain_index("mls_key_packages", "user_device_last_resort", "user_id", Some("device_id"), Some("last_resort")),
        101usize => plain_index("mls_key_packages", "expires_at", "expires_at", None, None),
        102usize => Step::CreateIndex { collection: "mls_groups", index: Index { name: "open_channel_group", first: "channel_id", second: None, third: None, text: false, unique: true, sparse: false, folded: false, only: Only::True { field: "open" } } },
        103usize => plain_index("mls_commits", "group_epoch", "group_id", Some("epoch"), None),
        104usize => plain_index("mls_join_intents", "group_id", "group_id", None, None),
        105usize => plain_index("user_stream_connections", "user_id", "user_id", None, None),
        106usize => plain_index("user_stream_connections", "platform", "platform", None, None),
        107usize => plain_index("server_boosts", "user_id", "user_id", None, None),
        108usize => Step::CreateIndex { collection: "server_boosts", index: Index { name: "server_id", first: "server_id", second: None, third: None, text: false, unique: false, sparse: true, folded: false, only: Only::All } },
        109usize => Step::CreateIndex { collection: "server_boosts", index: Index { name: "expires_at", first: "expires_at", second: None, third: None, text: false, unique: false, sparse: true, folded: false, only: Only::All } },
        110usize => Step::CreateIndex { collection: "discord_import_jobs", index: Index { name: "active_user_id", first: "user_id", second: None, third: None, text: false, unique: true, sparse: false, folded: false, only: Only::Either { field: "status", first: "Queued", second: "Running" } } },
        111usize => plain_index("discord_import_jobs", "user_id", "user_id", None, None),
        112usize => plain_index("discord_import_jobs", "status", "status", None, None),
        113usize => unique_index("softres_sheets", "message", "message", None, None),
        114usize => Step::CreateIndex { collection: "softres_sheets", index: Index { name: "event", first: "event", second: None, third: None, text: false, unique: true, sparse: true, folded: false, only: Only::All } },
        115usize => plain_index("softres_sheets", "channel", "channel", None, None),
        116usize => Step::CreateIndex { collection: "softres_sheets", index: Index { name: "server", first: "server", second: None, third: None, text: false, unique: false, sparse: true, folded: false, only: Only::All } },
        117usize => plain_index("softres_reserves", "sheet", "sheet", None, None),
        118usize => plain_index("softres_reserves", "sheet_items", "sheet", Some("items"), None),
        119usize => plain_index("softres_reserves", "channel", "channel", None, None),
        120usize => plain_index("remote_control_audit", "channel_created", "channel_id", Some("created_at"), None),
        _ => plain_index("remote_control_audit", "controller", "controller_id", Some("created_at"), None),
    }
}

/// The migration that a step belongs to.
pub fn revision_at(i: usize) -> (r: i32)
    requires
        i < MIGRATION_STEPS,
    ensures
        r == revision_of(i),
{
    if i < 2 {
        1
    } else if i < 3 {
        2
    } else if i < 6 {
        3
    } else if i < 9 {
        4
    } else if i < 10 {
        5
    } else if i < 11 {
        6
    } else if i < 12 {
        7
    } else if i < 16 {
        8
    } else if i < 17 {
        9
    } else if i < 19 {
        10
    } else if i < 24 {
        11
    } else if i < 25 {
        12
    } else if i < 28 {
        13
    } else if i < 29 {
        14
    } else if i < 30 {
        15
    } else if i < 33 {
        16
    } else if i < 34 {
        17
    } else if i < 36 {
        18
    } else if i < 38 {
        19
    } else if i < 39 {
        20
    } else if i < 40 {
        21
    } else if i < 41 {
        22
    } else if i < 43 {
        23
    } else if i < 46 {
        24
    } else if i < 49 {
        25
    } else if i < 50 {
        26
    } else if i < 51 {
        27
    } else if i < 54 {
        28
    } else if i < 55 {
        30
    } else if i < 56 {
        31
    } else if i < 57 {
        32
    } else if i < 59 {
        40
    } else if i < 60 {
        43
    } else if i < 61 {
        46
    } else if i < 62 {
        48
    } else if i < 63 {
        49
    } else if i < 64 {
        50
    } else if i < 70 {
        51
    } else if i < 71 {
        52
    } else if i < 73 {
        53
    } else if i < 82 {
        54
    } else if i < 91 {
        55
    } else if i < 95 {
        56
    } else if i < 100 {
        57
    } else if i < 107 {
        58
    } else if i < 111 {
        59
    } else if i < 115 {
        60
    } else if i < 117 {
        61
    } else if i < 119 {
        62
    } else if i < 122 {
        63
    } else if i < 126 {
        64
    } else if i < 130 {
        65
    } else if i < 139 {
        66
    } else if i < 142 {
        67
    } else {
        68
    }
}

/// A step of a migration.
pub fn migration_step_at(i: usize, bits: PermissionBits) -> (r: Step)
    requires
        i < MIGRATION_STEPS,
    ensures
        r == migration_step(i, bits),
{
    match i {
        0usize => Step::Update { collection: "messages", only: Only::Has { field: "attachment" }, first: Change::SetText { field: "attachment.tag", value: "attachments" }, second: Some(Change::SetShort { field: "attachment.size", value: 0 }) },
        1usize => Step::Update { collection: "attachments", only: Only::All, first: Change::SetText { field: "tag", value: "attachments" }, second: Some(Change::SetShort { field: "size", value: 0 }) },
        2usize => Step::CreateCollection { name: "servers", may_exist: false },
        3usize => Step::Rewrite(Rewrite::AttachmentLists),
        4usize => Step::CreateCollection { name: "channel_unreads", may_exist: false },
        5usize => Step::CreateCollection { name: "user_settings", may_exist: false },
        6usize => Step::CreateCollection { name: "server_members", may_exist: false },
        7usize => Step::CreateCollection { name: "server_bans", may_exist: false },
        8usize => Step::CreateCollection { name: "channel_invites", may_exist: false },
        9usize => Step::Update { collection: "servers", only: Only::All, first: Change::SetPair { field: "default_permissions", first: 0, second: 0 }, second: None },
        10usize => Step::CreateIndex { collection: "messages", index: Index { name: "content", first: "content", second: None, third: None, text: true, unique: false, sparse: false, folded: false, only: Only::All } },
        11usize => Step::CreateCollection { name: "bots", may_exist: false },
        12usize => Step::DropIndex { collection: "accounts", name: "email", may_miss: false },
        13usize => Step::DropIndex { collection: "accounts", name: "email_normalised", may_miss: false },
        14usize => Step::Rewrite(Rewrite::Sessions),
        15usize => Step::Update { collection: "accounts", only: Only::All, first: Change::Unset { field: "sessions" }, second: Some(Change::SetEmptyList { field: "mfa", key: "recovery_codes" }) },
        16usize => Step::Rewrite(Rewrite::LastMessages),
        17usize => Step::Update { collection: "servers", only: Only::All, first: Change::Unset { field: "nonce" }, second: None },
        18usize => Step::Update { collection: "channels", only: Only::All, first: Change::Unset { field: "nonce" }, second: None },
        19usize => plain_index("messages", "channel", "channel", None, None),
        20usize => plain_index("channel_unreads", "compound_id", "_id.channel", Some("_id.user"), None),
        21usize => plain_index("channel_unreads", "user_id", "_id.user", None, None),
        22usize => plain_index("server_members", "compound_id", "_id.server", Some("_id.user"), None),
        23usize => plain_index("server_members", "user_id", "_id.user", None, None),
        24usize => plain_index("messages", "channel_id_compound", "channel", Some("_id"), None),
        25usize => Step::Wait { seconds: 10 },
        26usize => Step::Rewrite(Rewrite::ServerPermissions),
        27usize => Step::Rewrite(Rewrite::ChannelPermissions),
        28usize => Step::Update { collection: "messages", only: Only::Object { field: "content" }, first: Change::Rename { from: "content", to: "system" }, second: None },
        29usize => Step::Rewrite(Rewrite::Authifier),
        30usize => Step::Rewrite(Rewrite::AccountDeletion),
        31usize => Step::CreateCollection { name: "emojis", may_exist: false },
        32usize => plain_index("emojis", "parent_id", "parent.id", None, None),
        33usize => Step::Update { collection: "server_members", only: Only::All, first: Change::SetNowText { field: "joined_at" }, second: None },
        34usize => Step::DropIndex { collection: "messages", name: "channel", may_miss: true },
        35usize => plain_index("messages", "author", "author", None, None),
        36usize => Step::CreateCollection { name: "safety_reports", may_exist: false },
        37usize => Step::CreateCollection { name: "safety_snapshots", may_exist: false },
        38usize => plain_index("safety_snapshots", "report_id", "report_id", None, None),
        39usize => Step::CreateCollection { name: "safety_strikes", may_exist: false },
        40usize => Step::Update { collection: "safety_strikes", only: Only::All, first: Change::SetText { field: "moderator_id", value: "01EX2NCWQ0CHS3QJF0FEQS1GR4" }, second: None },
        41usize => Step::DropIndex { collection: "users", name: "username", may_miss: false },
        42usize => Step::Rewrite(Rewrite::Discriminators),
        43usize => Step::CreateCollection { name: "channel_webhooks", may_exist: true },
        44usize => Step::CreateIndex { collection: "users", index: Index { name: "username", first: "username", second: None, third: None, text: false, unique: false, sparse: false, folded: true, only: Only::All } },
        45usize => Step::CreateIndex { collection: "users", index: Index { name: "username_discriminator", first: "username", second: Some("discriminator"), third: None, text: false, unique: true, sparse: false, folded: true, only: Only::All } },
        46usize => Step::Update { collection: "webhooks", only: Only::All, first: Change::SetNumber { field: "permissions", value: bits.webhook }, second: None },
        47usize => Step::CreateCollection { name: "ratelimit_events", may_exist: true },
        48usize => plain_index("ratelimit_events", "compound_key", "_id", Some("target_id"), Some("event_type")),
        49usize => Step::Rewrite(Rewrite::Invites),
        50usize => plain_index("messages", "channel_pinned_compound", "channel", Some("pinned"), None),
        51usize => Step::CreateCollection { name: "attachment_hashes", may_exist: true },
        52usize => plain_index("attachments", "hash", "hash", None, None),
        53usize => plain_index("attachment_hashes", "processed_hash", "processed_hash", None, None),
        54usize => plain_index("attachments", "used_for_id", "used_for.id", None, None),
        55usize => Step::Rewrite(Rewrite::Webhooks),
        56usize => Step::Rewrite(Rewrite::LastSeen),
        57usize => Step::CreateCollection { name: "policy_changes", may_exist: false },
        58usize => Step::Update { collection: "users", only: Only::All, first: Change::SetNow { field: "last_acknowledged_policy_change" }, second: None },
        59usize => Step::Rewrite(Rewrite::RoleRanks),
        60usize => Step::Update { collection: "channels", only: Only::Is { field: "channel_type", value: "VoiceChannel" }, first: Change::SetText { field: "channel_type", value: "TextChannel" }, second: Some(Change::SetEmpty { field: "voice" }) },
        61usize => Step::Update { collection: "servers", only: Only::All, first: Change::SetBits { field: "default_permissions", bits: bits.voice }, second: None },
        62usize => Step::Rewrite(Rewrite::RoleIds),
        63usize => Step::RenameCollection { from: "revolt.invites", to: "revolt.account_invites" },
        64usize => Step::CreateCollection { name: "e2ee_identity", may_exist: true },
        65usize => Step::CreateCollection { name: "e2ee_prekeys", may_exist: true },
        66usize => Step::CreateCollection { name: "e2ee_queue", may_exist: true },
        67usize => unique_index("e2ee_identity", "user_device", "user_id", Some("device_id"), None),
        68usize => plain_index("e2ee_prekeys", "user_device", "user_id", Some("device_id"), None),
        69usize => plain_index("e2ee_queue", "recipient_compound", "recipient_user_id", Some("recipient_device_id"), Some("_id")),
        70usize => Step::CreateCollection { name: "e2ee_blobs", may_exist: true },
        71usize => Step::CreateCollection { name: "e2ee_backups", may_exist: true },
        72usize => unique_index("e2ee_backups", "user_device", "user_id", Some("device_id"), None),
        73usize => Step::CreateCollection { name: "calendar_events", may_exist: true },
        74usize => Step::CreateCollection { name: "event_rsvps", may_exist: true },
        75usize => Step::CreateCollection { name: "event_reminders_sent", may_exist: true },
        76usize => plain_index("calendar_events", "server_series_end", "server", Some("series_end"), None),
        77usize => plain_index("calendar_events", "server_start", "server", Some("start"), None),
        78usize => plain_index("calendar_events", "series_end_global", "series_end", None, None),
        79usize => plain_index("event_rsvps", "event_id", "_id.event", None, None),
        80usize => plain_index("event_rsvps", "user_id", "_id.user", None, None),
        81usize => plain_index("event_reminders_sent", "occurrence", "_id.occurrence", None, None),
        82usize => Step::CreateCollection { name: "mls_key_packages", may_exist: true },
        83usize => Step::CreateCollection { name: "mls_groups", may_exist: true },
        84usize => Step::CreateCollection { name: "mls_commits", may_exist: true },
        85usize => Step::CreateCollection { name: "mls_join_intents", may_exist: true },
        86usize => plain_index("mls_key_packages", "user_device_last_resort", "user_id", Some("device_id"), Some("last_resort")),
        87usize => plain_index("mls_key_packages", "expires_at", "expires_at", None, None),
        88usize => Step::CreateIndex { collection: "mls_groups", index: Index { name: "open_channel_group", first: "channel_id", second: None, third: None, text: false, unique: true, sparse: false, folded: false, only: Only::True { field: "open" } } },
        89usize => plain_index("mls_commits", "group_epoch", "group_id", Some("epoch"), None),
        90usize => plain_index("mls_join_intents", "group_id", "group_id", None, None),
        91usize => Step::CreateCollection { name: "thread_members", may_exist: true },
        92usize => plain_index("thread_members", "thread", "_id.thread", None, None),
        93usize => plain_index("thread_members", "user", "_id.user", None, None),
        94usize => plain_index("channels", "thread_parent_archived", "channel_type", Some("parent_channel"), Some("archived")),
        95usize => Step::CreateCollection { name: "application_commands", may_exist: true },
        96usize => Step::CreateCollection { name: "interactions", may_exist: true },
        97usize => unique_index("application_commands", "bot_scope_name", "bot_id", Some("server"), Some("name")),
        98usize => plain_index("application_commands", "server", "server", None, None),
        99usize => plain_index("interactions", "bot_id", "bot_id", None, None),
        100usize => Step::CreateCollection { name: "polls", may_exist: true },
        101usize => Step::CreateCollection { name: "poll_votes", may_exist: true },
        102usize => unique_index("polls", "message", "message", None, None),
        103usize => plain_index("polls", "closed_expires", "closed", Some("expires_at"), None),
        104usize => plain_index("polls", "channel", "channel", None, None),
        105usize => plain_index("poll_votes", "poll_answers", "poll", Some("answer_ids"), None),
        106usize => plain_index("poll_votes", "channel", "channel", None, None),
        107usize => Step::CreateCollection { name: "scheduled_messages", may_exist: true },
        108usize => plain_index("scheduled_messages", "status_scheduled_at", "status", Some("scheduled_at"), None),
        109usize => plain_index("scheduled_messages", "author_channel", "author", Some("channel"), None),
        110usize => plain_index("scheduled_messages", "channel", "channel", None, None),
        111usize => Step::CreateCollection { name: "channel_follows", may_exist: true },
        112usize => unique_index("channel_follows", "source_target", "source_channel", Some("target_channel"), None),
        113usize => plain_index("channel_follows", "target_channel", "target_channel", None, None),
        114usize => plain_index("channel_follows", "webhook_id", "webhook_id", None, None),
        115usize => Step::CreateCollection { name: "sounds", may_exist: true },
        116usize => plain_index("sounds", "server_id", "server_id", None, None),
        117usize => plain_index("servers", "discoverable", "discoverable", None, None),
        118usize => plain_index("servers", "discovery_requested", "discovery_requested", None, None),
        119usize => Step::CreateCollection { name: "user_stream_connections", may_exist: true },
        120usize => plain_index("user_stream_connections", "user_id", "user_id", None, None),
        121usize => plain_index("user_stream_connections", "platform", "platform", None, None),
        122usize => Step::CreateCollection { name: "server_boosts", may_exist: true },
        123usize => plain_index("server_boosts", "user_id", "user_id", None, None),
        124usize => Step::CreateIndex { collection: "server_boosts", index: Index { name: "server_id", first: "server_id", second: None, third: None, text: false, unique: false, sparse: true, folded: false, only: Only::All } },
        125usize => Step::CreateIndex { collection: "server_boosts", index: Index { name: "expires_at", first: "expires_at", second: None, third: None, text: false, unique: false, sparse: true, folded: false, only: Only::All } },
        126usize => Step::CreateCollection { name: "discord_import_jobs", may_exist: true },
        127usize => Step::CreateIndex { collection: "discord_import_jobs", index: Index { name: "active_user_id", first: "user_id", second: None, third: None, text: false, unique: true, sparse: false, folded: false, only: Only::Either { field: "status", first: "Queued", second: "Running" } } },
        128usize => plain_index("discord_import_jobs", "user_id", "user_id", None, None),
        129usize => plain_index("discord_import_jobs", "status", "status", None, None),
        130usize => Step::CreateCollection { name: "softres_sheets", may_exist: true },
        131usize => Step::CreateCollection { name: "softres_reserves", may_exist: true },
        132usize => unique_index("softres_sheets", "message", "message", None, None),
        133usize => Step::CreateIndex { collection: "softres_sheets", index: Index { name: "event", first: "event", second: None, third: None, text: false, unique: true, sparse: true, folded: false, only: Only::All } },
        134usize => plain_index("softres_sheets", "channel", "channel", None, None),
        135usize => Step::CreateIndex { collection: "softres_sheets", index: Index { name: "server", first: "server", second: None, third: None, text: false, unique: false, sparse: true, folded: false, only: Only::All } },
        136usize => plain_index("softres_reserves", "sheet", "sheet", None, None),
        137usize => plain_index("softres_reserves", "sheet_items", "sheet", Some("items"), None),
        138usize => plain_index("softres_reserves", "channel", "channel", None, None),
        139usize => Step::CreateCollection { name: "remote_control_audit", may_exist: true },
        140usize => plain_index("remote_control_audit", "channel_created", "channel_id", Some("created_at"), None),
        141usize => plain_index("remote_control_audit", "controller", "controller_id", Some("created_at"), None),
        _ => Step::Update { collection: "servers", only: Only::All, first: Change::SetBits { field: "default_permissions", bits: bits.watch_together }, second: None },
    }
}

/// The migrations are in order.
pub proof fn lemma_migrations_in_order(i: usize, j: usize)
    requires
        i <= j < MIGRATION_STEPS,
    ensures
        1 <= revision_of(i) <= revision_of(j) < LATEST_REVISION,
{
}

/// Whether a step of a fresh database makes what a step of a migration makes.
pub open spec fn mirrors(fresh: Step, migrated: Step) -> bool {
    match migrated {
        Step::CreateCollection { name, .. } => fresh == (Step::CreateCollection {
            name,
            may_exist: false,
        }),
        _ => fresh == migrated,
    }
}

/// The step of a fresh database that makes what a step of a migration makes, for the
/// migrations from the calendar on.
pub open spec fn mirror_of(i: usize) -> usize {
    match i {
        73usize => 10,
        74usize => 11,
        75usize => 12,
        76usize => 94,
        77usize => 95,
        78usize => 96,
        79usize => 97,
        80usize => 98,
        81usize => 99,
        82usize => 30,
        83usize => 31,
        84usize => 32,
        85usize => 33,
        86usize => 100,
        87usize => 101,
        88usize => 102,
        89usize => 103,
        90usize => 104,
        91usize => 34,
        92usize => 56,
        93usize => 57,
        94usize => 75,
        95usize => 35,
        96usize => 36,
        97usize => 58,
        98usize => 59,
        99usize => 60,
        100usize => 37,
        101usize => 38,
        102usize => 61,
        103usize => 62,
        104usize => 63,
        105usize => 64,
        106usize => 65,
        107usize => 39,
        108usize => 66,
        109usize => 67,
        110usize => 68,
        111usize => 40,
        112usize => 69,
        113usize => 70,
        114usize => 71,
        115usize => 41,
        116usize => 72,
        117usize => 73,
        118usize => 74,
        119usize => 42,
        120usize => 105,
        121usize => 106,
        122usize => 43,
        123usize => 107,
        124usize => 108,
        125usize => 109,
        126usize => 44,
        127usize => 110,
        128usize => 111,
        129usize => 112,
        130usize => 45,
        131usize => 46,
        132usize => 113,
        133usize => 114,
        134usize => 115,
        135usize => 116,
        136usize => 117,
        137usize => 118,
        138usize => 119,
        139usize => 47,
        140usize => 120,
        _ => 121,
    }
}

/// From the calendar on, whatever collection or index a migration before the last makes,
/// a fresh database has it too, exactly alike.
pub proof fn law_fresh_database_mirrors_migrations(i: usize, bits: PermissionBits)
    requires
        i < MIGRATION_STEPS,
        54 <= revision_of(i) <= 67,
    ensures
        exists|j: usize| #![trigger fresh_step(j)] j < FRESH_STEPS && mirrors(fresh_step(j), migration_step(i, bits)),
{
    let j = mirror_of(i);
    assert(j < FRESH_STEPS && mirrors(fresh_step(j), migration_step(i, bits)));
}

/// From the end-to-end encryption on, the migrations that make collections and indexes
/// can be run again: they make collections that may exist, and indexes, and nothing
/// else.
pub proof fn law_late_migrations_can_be_repeated(i: usize, bits: PermissionBits)
    requires
        i < MIGRATION_STEPS,
        51 <= revision_of(i) <= 67,
    ensures
        match migration_step(i, bits) {
            Step::CreateCollection { may_exist, .. } => may_exist,
            Step::CreateIndex { .. } => true,
            _ => false,
        },
{
}

} // verus!
