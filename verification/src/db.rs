//! The in-memory database.
use crate::calendar::{CalendarEvent, EventRsvp, ReminderSent};
use crate::channel_store::{ChannelUnread, ThreadMember};
use crate::channels::Channel;
use crate::commands::ApplicationCommand;
use crate::discord_imports::DiscordImportJob;
use crate::donations::{Account, Donation, DonationClaimCode};
use crate::e2ee::{E2EEBackup, E2EEBlob, E2EEEnvelope, E2EEIdentity, E2EEOneTimeKey};
use crate::files::File;
use crate::follows::ChannelFollow;
use crate::table::{self, Table};
use vstd::prelude::*;

verus! {

/// The code of a write that a unique key refused.
pub const DUPLICATE_KEY: i32 = 11000;

/// Whether a write was refused for a key that is in use, by the code of its error.
pub fn is_duplicate_key(write_error: Option<i32>) -> (r: bool)
    ensures
        r == (write_error == Some(DUPLICATE_KEY)),
{
    match write_error {
        Some(code) => code == DUPLICATE_KEY,
        None => false,
    }
}

/// All tables of the in-memory database.
pub struct ReferenceDb {
    pub calendar_events: Table<CalendarEvent>,
    pub event_rsvps: Table<EventRsvp>,
    pub event_reminders: Table<ReminderSent>,
    pub files: Table<File>,
    pub channel_follows: Table<ChannelFollow>,
    pub channels: Table<Channel>,
    pub channel_unreads: Table<ChannelUnread>,
    pub thread_members: Table<ThreadMember>,
    pub accounts: Table<Account>,
    pub donations: Table<Donation>,
    pub donation_claim_codes: Table<DonationClaimCode>,
    pub e2ee_identities: Table<E2EEIdentity>,
    pub e2ee_one_time_keys: Table<E2EEOneTimeKey>,
    pub e2ee_queue: Table<E2EEEnvelope>,
    pub e2ee_blobs: Table<E2EEBlob>,
    pub e2ee_backups: Table<E2EEBackup>,
    pub discord_import_jobs: Table<DiscordImportJob>,
    pub application_commands: Table<ApplicationCommand>,
}

impl ReferenceDb {
    /// No table holds two rows under one key.
    pub open spec fn wf(&self) -> bool {
        &&& table::keyed::<CalendarEvent>(self.calendar_events@)
        &&& crate::calendar_store::rsvps_apart(self.event_rsvps@)
        &&& crate::calendar_store::reminders_apart(self.event_reminders@)
        &&& table::keyed::<File>(self.files@)
        &&& table::keyed::<ChannelFollow>(self.channel_follows@)
        &&& crate::follows::pairs_apart(self.channel_follows@)
        &&& table::keyed::<Channel>(self.channels@)
        &&& crate::channel_store::unreads_apart(self.channel_unreads@)
        &&& crate::channel_store::memberships_apart(self.thread_members@)
        &&& table::keyed::<Account>(self.accounts@)
        &&& table::keyed::<Donation>(self.donations@)
        &&& table::keyed::<DonationClaimCode>(self.donation_claim_codes@)
        &&& table::keyed::<E2EEIdentity>(self.e2ee_identities@)
        &&& table::keyed::<E2EEOneTimeKey>(self.e2ee_one_time_keys@)
        &&& table::keyed::<E2EEEnvelope>(self.e2ee_queue@)
        &&& table::keyed::<E2EEBlob>(self.e2ee_blobs@)
        &&& table::keyed::<E2EEBackup>(self.e2ee_backups@)
        &&& table::keyed::<DiscordImportJob>(self.discord_import_jobs@)
        &&& table::keyed::<ApplicationCommand>(self.application_commands@)
    }

    /// An empty database.
    pub fn new() -> (db: Self)
        ensures
            db.wf(),
            db.calendar_events@.len() == 0,
            db.event_rsvps@.len() == 0,
            db.event_reminders@.len() == 0,
            db.files@.len() == 0,
            db.channel_follows@.len() == 0,
            db.thread_members@.len() == 0,
            db.channel_unreads@.len() == 0,
            db.channels@.len() == 0,
            db.accounts@.len() == 0,
            db.donations@.len() == 0,
            db.donation_claim_codes@.len() == 0,
            db.e2ee_identities@.len() == 0,
            db.e2ee_one_time_keys@.len() == 0,
            db.e2ee_queue@.len() == 0,
            db.e2ee_blobs@.len() == 0,
            db.e2ee_backups@.len() == 0,
            db.discord_import_jobs@.len() == 0,
            db.application_commands@.len() == 0,
    {
        ReferenceDb {
            calendar_events: Table::new(),
            event_rsvps: Table::new(),
            event_reminders: Table::new(),
            files: Table::new(),
            channel_follows: Table::new(),
            thread_members: Table::new(),
            channel_unreads: Table::new(),
            channels: Table::new(),
            accounts: Table::new(),
            donations: Table::new(),
            donation_claim_codes: Table::new(),
            e2ee_identities: Table::new(),
            e2ee_one_time_keys: Table::new(),
            e2ee_queue: Table::new(),
            e2ee_blobs: Table::new(),
            e2ee_backups: Table::new(),
            discord_import_jobs: Table::new(),
            application_commands: Table::new(),
        }
    }
}

} // verus!
