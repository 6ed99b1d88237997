use revolt_core::db::ReferenceDb;
use revolt_core::discord_imports::{
    DiscordImportJob, DiscordImportSummary, ImportJobKind, ImportStage, ImportStatus,
};
use revolt_core::error::Error;

const MINUTE: i64 = 60_000;

fn job(user_id: &str, template_code: &str) -> DiscordImportJob {
    DiscordImportJob::new(user_id.to_string(), template_code.to_string())
}

fn now() -> i64 {
    job("", "").updated_at
}

/// Takes a job out past the operations: there is none that deletes.
fn delete_row(db: &mut ReferenceDb, id: &str) {
    db.discord_import_jobs.rows.retain(|row| row.id != id);
}

fn reaped_ids(db: &ReferenceDb, cutoff: i64) -> Vec<String> {
    sorted(db.fetch_stale_discord_import_jobs(cutoff).into_iter().map(|row| row.id).collect())
}

fn sorted(mut ids: Vec<String>) -> Vec<String> {
    ids.sort();
    ids
}

#[test]
fn sticker_jobs_are_born_illegible_to_old_binaries() {
    let mut parent = DiscordImportJob::new(
        "01USER000000000000000000000".to_string(),
        "abc123".to_string(),
    );
    parent.status = ImportStatus::Completed;
    parent.server_id = Some("01SERVER0000000000000000000".to_string());
    parent.source_guild_id = Some("1530784817975660565".to_string());

    let job = DiscordImportJob::new_stickers(&parent);
    assert_eq!(job.stage, ImportStage::Stickers);
    assert_eq!(job.template_code, "");
    assert_eq!(job.kind, ImportJobKind::Stickers);
    assert_eq!(job.stage.as_variant_str(), "Stickers");
    assert_eq!(job.user_id, parent.user_id);
    assert_eq!(job.parent_job_id, Some(parent.id.clone()));
    assert_eq!(job.server_id, parent.server_id);
    assert_eq!(job.source_guild_id, parent.source_guild_id);
    assert_eq!(job.status, ImportStatus::Queued);
}

#[test]
fn names_of_variants() {
    assert_eq!(ImportStatus::Queued.as_variant_str(), "Queued");
    assert_eq!(ImportStatus::Running.as_variant_str(), "Running");
    assert_eq!(ImportStatus::Completed.as_variant_str(), "Completed");
    assert_eq!(ImportStatus::Failed.as_variant_str(), "Failed");
    assert_eq!(ImportStage::Fetching.as_variant_str(), "Fetching");
    assert_eq!(ImportStage::Done.as_variant_str(), "Done");
    assert_eq!(ImportJobKind::Template.as_variant_str(), "Template");
    assert_eq!(ImportJobKind::Stickers.as_variant_str(), "Stickers");
    assert_eq!(ImportJobKind::default(), ImportJobKind::Template);
}

#[test]
fn insert_and_fetch_round_trip() {
    let mut db = ReferenceDb::new();
    let user = "01USER000000000000000000000";
    let mut row = job(user, "tmpl-abc");
    row.total = 12;
    row.summary = Some(DiscordImportSummary {
        channels_created: 3,
        categories_created: 1,
        channels_skipped: 2,
        roles_created: 4,
        roles_skipped: 1,
        stickers_created: None,
        stickers_skipped: None,
        notes: vec!["skipped 2 stage channels".to_string()],
    });
    db.insert_discord_import_job(&row).unwrap();

    let fetched = db.fetch_discord_import_job(&row.id).unwrap();
    assert_eq!(fetched.id, row.id);
    assert_eq!(fetched.user_id, user);
    assert_eq!(fetched.template_code, "tmpl-abc");
    assert_eq!(fetched.status, ImportStatus::Queued);
    assert_eq!(fetched.stage, ImportStage::Fetching);
    assert_eq!(fetched.done, 0);
    assert_eq!(fetched.total, 12);
    assert_eq!(fetched.server_id, None);
    assert_eq!(fetched.invite_code, None);
    assert_eq!(fetched.error, None);
    assert_eq!(fetched.summary, row.summary);
    assert_eq!(fetched.updated_at, row.updated_at);

    assert!(db.fetch_discord_import_job("01JOB0000000000000000000000").is_err());
}

#[test]
fn save_does_not_resurrect_deleted_rows() {
    let mut db = ReferenceDb::new();
    let user = "01USER000000000000000000001";
    let mut row = job(user, "tmpl-gone");

    // Never stored: saving does not bring it in
    row.stage = ImportStage::Channels;
    db.save_discord_import_job(&row);
    assert!(db.fetch_discord_import_job(&row.id).is_err());

    // Stored, then gone
    db.insert_discord_import_job(&row).unwrap();
    delete_row(&mut db, &row.id);

    row.done = 7;
    db.save_discord_import_job(&row);
    assert!(db.fetch_discord_import_job(&row.id).is_err());
}

#[test]
fn active_job_guard() {
    let mut db = ReferenceDb::new();
    let user = "01USER000000000000000000002";
    assert!(db.fetch_active_discord_import_job_for_user(user).is_none());

    // A job that waits is not over
    let queued = job(user, "tmpl-queued");
    db.insert_discord_import_job(&queued).unwrap();
    assert_eq!(db.fetch_active_discord_import_job_for_user(user).unwrap().id, queued.id);

    // Nor is one that runs
    let mut running = queued.clone();
    running.status = ImportStatus::Running;
    db.save_discord_import_job(&running);
    assert_eq!(
        db.fetch_active_discord_import_job_for_user(user).unwrap().status,
        ImportStatus::Running
    );

    let mut completed = running.clone();
    completed.status = ImportStatus::Completed;
    completed.stage = ImportStage::Done;
    db.save_discord_import_job(&completed);
    assert!(db.fetch_active_discord_import_job_for_user(user).is_none());

    let mut failed = completed.clone();
    failed.status = ImportStatus::Failed;
    failed.error = Some("template not found".to_string());
    db.save_discord_import_job(&failed);
    assert!(db.fetch_active_discord_import_job_for_user(user).is_none());

    // A job of another user does not count
    let other = job("01USER000000000000000000003", "tmpl-other");
    db.insert_discord_import_job(&other).unwrap();
    assert!(db.fetch_active_discord_import_job_for_user(user).is_none());
}

#[test]
fn claim_is_atomic_and_exclusive() {
    let mut db = ReferenceDb::new();
    let first = job("01USER00000000000000000000A", "tmpl-a");
    let second = job("01USER00000000000000000000B", "tmpl-b");
    db.insert_discord_import_job(&first).unwrap();
    db.insert_discord_import_job(&second).unwrap();

    let a = db.claim_next_queued_discord_import_job().expect("first claim");
    let b = db.claim_next_queued_discord_import_job().expect("second claim");

    assert_ne!(a.id, b.id);
    assert_eq!(a.status, ImportStatus::Running);
    assert_eq!(b.status, ImportStatus::Running);

    assert_eq!(db.fetch_discord_import_job(&a.id).unwrap().status, ImportStatus::Running);
    assert_eq!(db.fetch_discord_import_job(&b.id).unwrap().status, ImportStatus::Running);

    assert!(db.claim_next_queued_discord_import_job().is_none());

    let lone = job("01USER00000000000000000000C", "tmpl-c");
    db.insert_discord_import_job(&lone).unwrap();
    assert_eq!(db.claim_next_queued_discord_import_job().unwrap().id, lone.id);
    assert!(db.claim_next_queued_discord_import_job().is_none());
}

#[test]
fn the_job_that_was_made_first_is_taken_first() {
    let mut db = ReferenceDb::new();
    for (id, user) in [("03", "c"), ("01", "a"), ("02", "b")] {
        let made = DiscordImportJob::new_as(user.to_string(), "t".to_string(), id.to_string(), 10);
        db.insert_discord_import_job(&made).unwrap();
    }
    let taken = db.claim_next_queued_discord_import_job_at(99).unwrap();
    assert_eq!(taken.id, "01");
    assert_eq!(taken.updated_at, 99);
    assert_eq!(db.fetch_discord_import_job("01").unwrap(), taken);
    assert_eq!(db.fetch_discord_import_job("02").unwrap().updated_at, 10);
    assert_eq!(db.claim_next_queued_discord_import_job_at(100).unwrap().id, "02");
    assert_eq!(db.claim_next_queued_discord_import_job_at(101).unwrap().id, "03");
    assert!(db.claim_next_queued_discord_import_job_at(102).is_none());
}

#[test]
fn stale_heartbeat_scan() {
    let mut db = ReferenceDb::new();
    let now = now();
    let cutoff = now - 5 * MINUTE;

    // Runs without a sign of life
    let mut stale = job("01USER00000000000000000001A", "tmpl-stale");
    stale.status = ImportStatus::Running;
    stale.stage = ImportStage::Channels;
    stale.updated_at = now - 30 * MINUTE;
    db.insert_discord_import_job(&stale).unwrap();

    // Runs, and lives
    let mut fresh = job("01USER00000000000000000001B", "tmpl-fresh");
    fresh.status = ImportStatus::Running;
    fresh.updated_at = now;
    db.insert_discord_import_job(&fresh).unwrap();

    // Waits, and nobody took it
    let mut old_queued = job("01USER00000000000000000001C", "tmpl-queued");
    old_queued.updated_at = now - 120 * MINUTE;
    db.insert_discord_import_job(&old_queued).unwrap();

    // Over for long
    let mut old_done = job("01USER00000000000000000001D", "tmpl-done");
    old_done.status = ImportStatus::Completed;
    old_done.stage = ImportStage::Done;
    old_done.updated_at = now - 120 * MINUTE;
    db.insert_discord_import_job(&old_done).unwrap();

    assert_eq!(
        reaped_ids(&db, cutoff),
        sorted(vec![stale.id.clone(), old_queued.id.clone()]),
        "both the dead Running job and the never-claimed Queued job must be reaped"
    );

    let mut recovered = stale.clone();
    recovered.touch();
    db.save_discord_import_job(&recovered);
    assert_eq!(
        reaped_ids(&db, cutoff),
        vec![old_queued.id.clone()],
        "a freshly heartbeated import must never be false-failed"
    );

    let mut claimed = old_queued.clone();
    claimed.status = ImportStatus::Running;
    claimed.touch();
    db.save_discord_import_job(&claimed);
    assert!(reaped_ids(&db, cutoff).is_empty());
}

#[test]
fn a_sign_of_life_at_the_cutoff_is_enough() {
    let mut db = ReferenceDb::new();
    let mut row = job("u", "t");
    row.touch_at(1000);
    db.insert_discord_import_job(&row).unwrap();
    assert!(reaped_ids(&db, 1000).is_empty());
    assert_eq!(reaped_ids(&db, 1001), vec![row.id.clone()]);
}

#[test]
fn save_if_active_refuses_to_clobber_terminal_states() {
    let mut db = ReferenceDb::new();
    let mut row = job("01USER00000000000000000002A", "tmpl-cas");
    row.status = ImportStatus::Running;
    db.insert_discord_import_job(&row).unwrap();

    let mut progress = row.clone();
    progress.stage = ImportStage::Channels;
    progress.done = 4;
    progress.total = 9;
    assert!(db.save_discord_import_job_if_active(&progress));
    let stored = db.fetch_discord_import_job(&row.id).unwrap();
    assert_eq!(stored.stage, ImportStage::Channels);
    assert_eq!(stored.done, 4);

    let mut completed = progress.clone();
    completed.status = ImportStatus::Completed;
    completed.stage = ImportStage::Done;
    completed.invite_code = Some("aBcDeF".to_string());
    assert!(db.save_discord_import_job_if_active(&completed));

    let mut sweeper = row.clone();
    sweeper.status = ImportStatus::Failed;
    sweeper.error = Some("import worker vanished".to_string());
    assert!(
        !db.save_discord_import_job_if_active(&sweeper),
        "writing over a Completed job must report that it did not write"
    );

    let stored = db.fetch_discord_import_job(&row.id).unwrap();
    assert_eq!(stored.status, ImportStatus::Completed);
    assert_eq!(stored.stage, ImportStage::Done);
    assert_eq!(stored.invite_code, Some("aBcDeF".to_string()));
    assert_eq!(stored.error, None);

    let mut failed = job("01USER00000000000000000002B", "tmpl-cas2");
    failed.status = ImportStatus::Failed;
    failed.error = Some("template not found".to_string());
    db.insert_discord_import_job(&failed).unwrap();

    let mut late_complete = failed.clone();
    late_complete.status = ImportStatus::Completed;
    late_complete.error = None;
    assert!(!db.save_discord_import_job_if_active(&late_complete));
    assert_eq!(db.fetch_discord_import_job(&failed.id).unwrap().status, ImportStatus::Failed);

    delete_row(&mut db, &row.id);
    assert!(!db.save_discord_import_job_if_active(&completed));
    assert!(db.fetch_discord_import_job(&row.id).is_err());
}

#[test]
fn insert_enforces_one_active_job_per_user() {
    let mut db = ReferenceDb::new();
    let user = "01USER00000000000000000003A";
    let first = job(user, "tmpl-first");
    db.insert_discord_import_job(&first).unwrap();

    let second = job(user, "tmpl-second");
    let error = db
        .insert_discord_import_job(&second)
        .expect_err("a second active job for one user must be rejected");
    assert!(
        matches!(error, Error::ImportAlreadyInProgress),
        "expected ImportAlreadyInProgress, got {:?}",
        error
    );
    assert!(db.fetch_discord_import_job(&second.id).is_err());

    let other = job("01USER00000000000000000003B", "tmpl-other");
    db.insert_discord_import_job(&other).unwrap();

    let mut running = first.clone();
    running.status = ImportStatus::Running;
    db.save_discord_import_job(&running);
    let third = job(user, "tmpl-third");
    assert!(db.insert_discord_import_job(&third).is_err());

    let mut done = db.fetch_discord_import_job(&first.id).unwrap();
    done.status = ImportStatus::Completed;
    done.stage = ImportStage::Done;
    assert!(db.save_discord_import_job_if_active(&done));

    let fourth = job(user, "tmpl-fourth");
    db.insert_discord_import_job(&fourth).unwrap();
    assert_eq!(db.fetch_active_discord_import_job_for_user(user).unwrap().id, fourth.id);
}
