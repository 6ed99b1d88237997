use revolt_core::channels::Channel;
use revolt_core::commands::ApplicationCommand;
use revolt_core::db::ReferenceDb;
use revolt_core::discord_imports::{DiscordImportJob, ImportStatus};
use revolt_core::donations::{Donation, DonationClaimCode, DonationState};
use revolt_core::e2ee::{E2EEBackup, E2EEBlob};
use revolt_core::error::Error;
use revolt_core::files::{File, Metadata};
use revolt_core::follows::ChannelFollow;

fn saved_messages(id: &str) -> Channel {
    Channel::SavedMessages { id: id.to_string(), user: "u".to_string() }
}

fn file(id: &str) -> File {
    File {
        id: id.to_string(),
        tag: "icons".to_string(),
        filename: "a.png".to_string(),
        hash: None,
        uploaded_at: Some(3),
        uploader_id: None,
        used_for: None,
        deleted: None,
        reported: None,
        metadata: Metadata::File,
        content_type: "image/png".to_string(),
        size: 4,
        message_id: None,
        user_id: None,
        server_id: None,
        object_id: None,
    }
}

fn follow(id: &str, target: &str) -> ChannelFollow {
    ChannelFollow {
        id: id.to_string(),
        source_channel: "c".to_string(),
        source_server: "s".to_string(),
        target_channel: target.to_string(),
        target_server: "t".to_string(),
        webhook_id: "w".to_string(),
        created_by: "u".to_string(),
        created_at: 1,
    }
}

fn command(id: &str, name: &str) -> ApplicationCommand {
    ApplicationCommand {
        id: id.to_string(),
        bot_id: "b".to_string(),
        server: None,
        name: name.to_string(),
        description: "d".to_string(),
        options: vec![],
    }
}

fn donation(id: &str) -> Donation {
    Donation {
        id: id.to_string(),
        message_id: format!("m{id}"),
        kind: "Donation".to_string(),
        amount_cents: 500,
        currency: "USD".to_string(),
        usd_cents_override: None,
        is_subscription: false,
        tier_name: None,
        timestamp: 1,
        stored_at: Some(2),
        user: None,
        claimed_at: None,
        payer_hmac: None,
        claimant: None,
        state: DonationState::Unclaimed,
    }
}

fn claim_code(code: &str) -> DonationClaimCode {
    DonationClaimCode { code: code.to_string(), user: "u".to_string(), created_at: 1 }
}

fn blob(id: &str) -> E2EEBlob {
    E2EEBlob {
        id: id.to_string(),
        uploader_user_id: "u".to_string(),
        uploader_device_id: "d".to_string(),
        size: 7,
        bucket_id: "k".to_string(),
        iv: "i".to_string(),
        recipients: vec![],
    }
}

fn backup(device: &str, generation: i64) -> E2EEBackup {
    E2EEBackup {
        id: E2EEBackup::composite_id("u", device),
        user_id: "u".to_string(),
        device_id: device.to_string(),
        header: "{}".to_string(),
        ciphertext: "x".to_string(),
        generation,
        created_at: 1,
        updated_at: 2,
    }
}

#[test]
fn channels_and_files_are_read_back() {
    let mut db = ReferenceDb::new();
    db.insert_channel(&saved_messages("a")).unwrap();
    db.insert_channel(&saved_messages("b")).unwrap();
    assert_eq!(db.fetch_channel("a"), Ok(saved_messages("a")));
    db.delete_channel(&saved_messages("a"));
    assert_eq!(db.fetch_channel("a"), Err(Error::NotFound));
    assert_eq!(db.fetch_channel("b"), Ok(saved_messages("b")));

    db.insert_attachment(&file("a")).unwrap();
    db.insert_attachment(&file("b")).unwrap();
    assert_eq!(db.fetch_attachment("icons", "a"), Ok(file("a")));
    db.delete_attachment("a").unwrap();
    assert_eq!(db.fetch_attachment("icons", "a"), Err(Error::NotFound));
    assert_eq!(db.fetch_attachment("icons", "b"), Ok(file("b")));
}

#[test]
fn follows_and_commands_are_read_back() {
    let mut db = ReferenceDb::new();
    db.insert_channel_follow(&follow("a", "x")).unwrap();
    db.insert_channel_follow(&follow("b", "y")).unwrap();
    assert_eq!(db.fetch_follow("a"), Ok(follow("a", "x")));
    db.delete_channel_follow("a");
    assert_eq!(db.fetch_follow("a"), Err(Error::NotFound));
    assert_eq!(db.fetch_follow("b"), Ok(follow("b", "y")));

    db.insert_command(&command("a", "one")).unwrap();
    db.insert_command(&command("b", "two")).unwrap();
    assert_eq!(db.fetch_command("a"), Ok(command("a", "one")));
    db.delete_command("a").unwrap();
    assert_eq!(db.fetch_command("a"), Err(Error::NotFound));
    assert_eq!(db.fetch_command("b"), Ok(command("b", "two")));
}

#[test]
fn jobs_are_read_back_as_saved() {
    let mut db = ReferenceDb::new();
    let mut job = DiscordImportJob::new_as("u".to_string(), "t".to_string(), "a".to_string(), 5);
    let other = DiscordImportJob::new_as("v".to_string(), "t".to_string(), "b".to_string(), 6);
    db.insert_discord_import_job(&job).unwrap();
    db.insert_discord_import_job(&other).unwrap();
    assert_eq!(db.fetch_discord_import_job("a"), Ok(job.clone()));
    job.status = ImportStatus::Completed;
    db.save_discord_import_job(&job);
    assert_eq!(db.fetch_discord_import_job("a"), Ok(job));
    assert_eq!(db.fetch_discord_import_job("b"), Ok(other));
}

#[test]
fn payments_and_codes_are_read_back() {
    let mut db = ReferenceDb::new();
    assert!(db.insert_donation_if_absent(&donation("a")));
    assert!(db.insert_donation_if_absent(&donation("b")));
    assert_eq!(db.fetch_donation("a"), Some(donation("a")));
    assert_eq!(db.fetch_donation("b"), Some(donation("b")));
    assert_eq!(db.fetch_donation("c"), None);

    db.insert_claim_code(&claim_code("KOFI-000001")).unwrap();
    db.insert_claim_code(&claim_code("KOFI-000002")).unwrap();
    assert_eq!(db.fetch_claim_code("KOFI-000001"), Some(claim_code("KOFI-000001")));
    db.delete_claim_code("KOFI-000001").unwrap();
    assert_eq!(db.fetch_claim_code("KOFI-000001"), None);
    assert_eq!(db.fetch_claim_code("KOFI-000002"), Some(claim_code("KOFI-000002")));
}

#[test]
fn blobs_and_backups_are_read_back() {
    let mut db = ReferenceDb::new();
    db.insert_e2ee_blob(&blob("a")).unwrap();
    db.insert_e2ee_blob(&blob("b")).unwrap();
    assert_eq!(db.fetch_e2ee_blob("a"), Ok(blob("a")));
    assert!(db.delete_e2ee_blob("a"));
    assert_eq!(db.fetch_e2ee_blob("a"), Err(Error::NotFound));
    assert_eq!(db.fetch_e2ee_blob("b"), Ok(blob("b")));

    db.upsert_e2ee_backup(&backup("d", 1));
    db.upsert_e2ee_backup(&backup("e", 1));
    db.upsert_e2ee_backup(&backup("d", 2));
    assert_eq!(db.fetch_e2ee_backup("u", "d"), Some(backup("d", 2)));
    assert_eq!(db.fetch_e2ee_backup("u", "e"), Some(backup("e", 1)));
    assert!(db.delete_e2ee_backup("u", "d"));
    assert_eq!(db.fetch_e2ee_backup("u", "d"), None);
}
