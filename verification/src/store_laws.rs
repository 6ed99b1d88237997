//! What is stored is what is read, and what is deleted is gone, for every store.
use crate::calendar::{CalendarEvent, CalendarEventView};
use crate::channels::{self, Channel, ChannelView};
use crate::commands::{self, ApplicationCommand, ApplicationCommandView};
use crate::discord_imports::{self, DiscordImportJob, DiscordImportJobView};
use crate::donations::{Donation, DonationClaimCode, DonationClaimCodeView, DonationView};
use crate::e2ee::{
    E2EEBackup, E2EEBackupView, E2EEBlob, E2EEBlobView, E2EEIdentity, E2EEIdentityView,
};
use crate::files::{File, FileView};
use crate::follows::{ChannelFollow, ChannelFollowView};
use crate::table::{self, KeyedRow};
use vstd::prelude::*;

verus! {

/// Whether an identifier names the same row after a change as before it, or none both
/// times.
pub open spec fn untouched<R: KeyedRow>(before: Seq<R::V>, after: Seq<R::V>, id: Seq<char>) -> bool {
    &&& table::has_id::<R>(after, id) == table::has_id::<R>(before, id)
    &&& table::has_id::<R>(before, id) ==> table::row_of::<R>(after, id) == table::row_of::<R>(
        before,
        id,
    )
}

/// Whether a row is read under its identifier after a change, and all others as before.
pub open spec fn reads_back<R: KeyedRow>(before: Seq<R::V>, after: Seq<R::V>, v: R::V) -> bool {
    &&& table::has_id::<R>(after, R::id_of(v))
    &&& table::row_of::<R>(after, R::id_of(v)) == v
    &&& forall|id: Seq<char>| id != R::id_of(v) ==> #[trigger] untouched::<R>(before, after, id)
}

/// Whether nothing is read under an identifier after a change, and all others as before.
pub open spec fn forgets<R: KeyedRow>(before: Seq<R::V>, after: Seq<R::V>, gone: Seq<char>) -> bool {
    &&& !table::has_id::<R>(after, gone)
    &&& forall|id: Seq<char>| id != gone ==> #[trigger] untouched::<R>(before, after, id)
}

proof fn lemma_put_reads_back<R: KeyedRow>(rows: Seq<R::V>, v: R::V)
    requires
        table::keyed::<R>(rows),
    ensures
        reads_back::<R>(rows, table::upserted::<R>(rows, v), v),
{
    table::lemma_upserted::<R>(rows, v);
    assert forall|id: Seq<char>| id != R::id_of(v) implies #[trigger] untouched::<R>(
        rows,
        table::upserted::<R>(rows, v),
        id,
    ) by {
        table::lemma_upserted_elsewhere::<R>(rows, v, id);
    }
}

proof fn lemma_pushed_reads_back<R: KeyedRow>(rows: Seq<R::V>, v: R::V)
    requires
        table::keyed::<R>(rows),
        !table::has_id::<R>(rows, R::id_of(v)),
    ensures
        reads_back::<R>(rows, rows.push(v), v),
{
    lemma_put_reads_back::<R>(rows, v);
    assert(table::upserted::<R>(rows, v) == rows.push(v));
}

proof fn lemma_dropped_is_forgotten<R: KeyedRow>(rows: Seq<R::V>, gone: Seq<char>)
    requires
        table::keyed::<R>(rows),
    ensures
        forgets::<R>(rows, rows.filter(table::without_id::<R>(gone)), gone),
{
    let q = table::without_id::<R>(gone);
    let after = rows.filter(q);
    table::lemma_id_gone::<R>(rows, gone);
    table::lemma_keyed_filter::<R>(rows, q);
    assert forall|id: Seq<char>| id != gone implies #[trigger] untouched::<R>(rows, after, id) by {
        let named = table::with_id::<R>(id);
        if table::has_id::<R>(rows, id) {
            table::lemma_first_row_matches(rows, named);
            let v = table::row_of::<R>(rows, id);
            assert(rows.contains(v));
            table::lemma_filter_members(rows, q, v);
            let at = choose|i: int| 0 <= i < after.len() && after[i] == v;
            table::lemma_keyed_row::<R>(after, id, at);
        }
        if table::has_id::<R>(after, id) {
            let at = choose|i: int| 0 <= i < after.len() && named(#[trigger] after[i]);
            assert(after.contains(after[at]));
            table::lemma_filter_members(rows, q, after[at]);
            let i = choose|i: int| 0 <= i < rows.len() && rows[i] == after[at];
            assert(named(rows[i]));
        }
    }
}

/// A stored event is read back, and a deleted one is not; others are as they were.
pub proof fn law_events_are_read_back(
    rows: Seq<CalendarEventView>,
    event: CalendarEventView,
    gone: Seq<char>,
)
    requires
        table::keyed::<CalendarEvent>(rows),
    ensures
        !table::has_id::<CalendarEvent>(rows, event.id) ==> reads_back::<CalendarEvent>(
            rows,
            rows.push(event),
            event,
        ),
        forgets::<CalendarEvent>(rows, rows.filter(table::without_id::<CalendarEvent>(gone)), gone),
{
    if !table::has_id::<CalendarEvent>(rows, event.id) {
        lemma_pushed_reads_back::<CalendarEvent>(rows, event);
    }
    lemma_dropped_is_forgotten::<CalendarEvent>(rows, gone);
}

/// A stored channel is read back, and a deleted one is not; others are as they were.
pub proof fn law_channels_are_read_back(
    rows: Seq<ChannelView>,
    channel: ChannelView,
    gone: Seq<char>,
)
    requires
        table::keyed::<Channel>(rows),
    ensures
        !table::has_id::<Channel>(rows, channels::id_of(channel)) ==> reads_back::<Channel>(
            rows,
            rows.push(channel),
            channel,
        ),
        forgets::<Channel>(rows, rows.filter(table::without_id::<Channel>(gone)), gone),
{
    if !table::has_id::<Channel>(rows, channels::id_of(channel)) {
        lemma_pushed_reads_back::<Channel>(rows, channel);
    }
    lemma_dropped_is_forgotten::<Channel>(rows, gone);
}

/// A stored file is read back, and a deleted one is not; others are as they were.
pub proof fn law_files_are_read_back(rows: Seq<FileView>, file: FileView, gone: Seq<char>)
    requires
        table::keyed::<File>(rows),
    ensures
        !table::has_id::<File>(rows, file.id) ==> reads_back::<File>(rows, rows.push(file), file),
        forgets::<File>(rows, rows.filter(table::without_id::<File>(gone)), gone),
{
    if !table::has_id::<File>(rows, file.id) {
        lemma_pushed_reads_back::<File>(rows, file);
    }
    lemma_dropped_is_forgotten::<File>(rows, gone);
}

/// A stored follow is read back, and a deleted one is not; others are as they were.
pub proof fn law_follows_are_read_back(
    rows: Seq<ChannelFollowView>,
    follow: ChannelFollowView,
    gone: Seq<char>,
)
    requires
        table::keyed::<ChannelFollow>(rows),
    ensures
        reads_back::<ChannelFollow>(rows, table::upserted::<ChannelFollow>(rows, follow), follow),
        forgets::<ChannelFollow>(rows, rows.filter(table::without_id::<ChannelFollow>(gone)), gone),
{
    lemma_put_reads_back::<ChannelFollow>(rows, follow);
    lemma_dropped_is_forgotten::<ChannelFollow>(rows, gone);
}

/// A stored command is read back where its name is free, and a deleted one is not; others
/// are as they were.
pub proof fn law_commands_are_read_back(
    rows: Seq<ApplicationCommandView>,
    command: ApplicationCommandView,
    gone: Seq<char>,
)
    requires
        table::keyed::<ApplicationCommand>(rows),
    ensures
        !table::any_row(rows, commands::named(command.bot_id, command.server, command.name))
            ==> reads_back::<ApplicationCommand>(
            rows,
            commands::with_command(rows, command),
            command,
        ),
        forgets::<ApplicationCommand>(
            rows,
            rows.filter(table::without_id::<ApplicationCommand>(gone)),
            gone,
        ),
{
    lemma_put_reads_back::<ApplicationCommand>(rows, command);
    lemma_dropped_is_forgotten::<ApplicationCommand>(rows, gone);
}

/// A job that may start is read back, and so is one that is saved; others are as they
/// were.
pub proof fn law_jobs_are_read_back(rows: Seq<DiscordImportJobView>, job: DiscordImportJobView)
    requires
        table::keyed::<DiscordImportJob>(rows),
    ensures
        reads_back::<DiscordImportJob>(rows, table::upserted::<DiscordImportJob>(rows, job), job),
        table::has_id::<DiscordImportJob>(rows, job.id) ==> reads_back::<DiscordImportJob>(
            rows,
            discord_imports::saved(rows, job),
            job,
        ),
{
    lemma_put_reads_back::<DiscordImportJob>(rows, job);
}

/// A stored payment is read back; others are as they were.
pub proof fn law_donations_are_read_back(rows: Seq<DonationView>, donation: DonationView)
    requires
        table::keyed::<Donation>(rows),
        !table::has_id::<Donation>(rows, donation.id),
    ensures
        reads_back::<Donation>(rows, rows.push(donation), donation),
{
    lemma_pushed_reads_back::<Donation>(rows, donation);
}

/// A stored claim code is read back, and a deleted one is not; others are as they were.
pub proof fn law_claim_codes_are_read_back(
    rows: Seq<DonationClaimCodeView>,
    code: DonationClaimCodeView,
    gone: Seq<char>,
)
    requires
        table::keyed::<DonationClaimCode>(rows),
    ensures
        !table::has_id::<DonationClaimCode>(rows, code.code) ==> reads_back::<DonationClaimCode>(
            rows,
            rows.push(code),
            code,
        ),
        forgets::<DonationClaimCode>(
            rows,
            rows.filter(table::without_id::<DonationClaimCode>(gone)),
            gone,
        ),
{
    if !table::has_id::<DonationClaimCode>(rows, code.code) {
        lemma_pushed_reads_back::<DonationClaimCode>(rows, code);
    }
    lemma_dropped_is_forgotten::<DonationClaimCode>(rows, gone);
}

/// A stored device is read back; others are as they were.
pub proof fn law_devices_are_read_back(rows: Seq<E2EEIdentityView>, device: E2EEIdentityView)
    requires
        table::keyed::<E2EEIdentity>(rows),
        !table::has_id::<E2EEIdentity>(rows, device.id),
    ensures
        reads_back::<E2EEIdentity>(rows, rows.push(device), device),
{
    lemma_pushed_reads_back::<E2EEIdentity>(rows, device);
}

/// A stored blob is read back, and a deleted one is not; others are as they were.
pub proof fn law_blobs_are_read_back(rows: Seq<E2EEBlobView>, blob: E2EEBlobView, gone: Seq<char>)
    requires
        table::keyed::<E2EEBlob>(rows),
    ensures
        !table::has_id::<E2EEBlob>(rows, blob.id) ==> reads_back::<E2EEBlob>(
            rows,
            rows.push(blob),
            blob,
        ),
        forgets::<E2EEBlob>(rows, rows.filter(table::without_id::<E2EEBlob>(gone)), gone),
{
    if !table::has_id::<E2EEBlob>(rows, blob.id) {
        lemma_pushed_reads_back::<E2EEBlob>(rows, blob);
    }
    lemma_dropped_is_forgotten::<E2EEBlob>(rows, gone);
}

/// A backup that was put in is read back in place of an earlier one, and a deleted one is
/// not; others are as they were.
pub proof fn law_backups_are_read_back(
    rows: Seq<E2EEBackupView>,
    backup: E2EEBackupView,
    gone: Seq<char>,
)
    requires
        table::keyed::<E2EEBackup>(rows),
    ensures
        reads_back::<E2EEBackup>(rows, table::upserted::<E2EEBackup>(rows, backup), backup),
        forgets::<E2EEBackup>(rows, rows.filter(table::without_id::<E2EEBackup>(gone)), gone),
{
    lemma_put_reads_back::<E2EEBackup>(rows, backup);
    lemma_dropped_is_forgotten::<E2EEBackup>(rows, gone);
}

} // verus!
