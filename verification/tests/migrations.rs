use revolt_core::cache::Topics;
use revolt_core::channels::OverrideField;
use revolt_core::migrations::{
    account_deletion_step, authifier_steps, channel_permissions, create_database, discriminate,
    discriminate_as, free_discriminators, is_compliant, last_seen, migrated_username, role_field,
    role_positions, run_migrations, server_permissions, webhook_fate, wiped_role, LastMessage, OldSession,
    Session, UserInformation, WebhookChannel, WebhookFate, SEND_MESSAGE, WIPED_DEFAULT,
};
use revolt_core::schema::{
    Change, Only, PermissionBits, Step, FRESH_STEPS, LATEST_REVISION, MIGRATION_STEPS,
};
use std::collections::HashSet;

const BITS: PermissionBits = PermissionBits { webhook: 1, voice: 2, watch_together: 4 };

fn texts(list: &[&str]) -> Vec<String> {
    list.iter().map(|s| s.to_string()).collect()
}

#[test]
fn a_fresh_database_is_complete() {
    let steps = create_database();
    assert_eq!(steps.len(), FRESH_STEPS);
    assert!(steps.contains(&Step::Record { revision: LATEST_REVISION }));
    let collections: HashSet<&str> = steps
        .iter()
        .filter_map(|step| match step {
            Step::CreateCollection { name, .. } => Some(*name),
            Step::CreateCapped { name, .. } => Some(*name),
            _ => None,
        })
        .collect();
    for name in ["accounts", "users", "channels", "messages", "servers", "channel_unreads"] {
        assert!(collections.contains(name), "{name}");
    }
    // What an index or a change is for has been made
    for step in &steps {
        if let Step::CreateIndex { collection, .. } = step {
            assert!(collections.contains(collection), "{collection}");
        }
    }
}

#[test]
fn migrations_end_at_the_latest_revision() {
    let (steps, revision) = run_migrations(0, BITS);
    assert_eq!(steps.len(), MIGRATION_STEPS);
    assert_eq!(revision, LATEST_REVISION);
    let (steps, revision) = run_migrations(LATEST_REVISION, BITS);
    assert!(steps.is_empty());
    assert_eq!(revision, LATEST_REVISION);
    let (steps, revision) = run_migrations(LATEST_REVISION + 5, BITS);
    assert!(steps.is_empty());
    assert_eq!(revision, LATEST_REVISION + 5);
}

#[test]
fn later_databases_have_less_to_do() {
    let (mut all, _) = run_migrations(0, BITS);
    for revision in 1..=LATEST_REVISION {
        let (some, _) = run_migrations(revision, BITS);
        assert!(some.len() <= all.len());
        assert_eq!(all[all.len() - some.len()..].to_vec(), some);
        all = some;
    }
    assert!(all.is_empty());
}

#[test]
fn the_first_migration_is_the_first() {
    let (from_start, _) = run_migrations(0, BITS);
    assert!(matches!(
        from_start[0],
        Step::Update { .. } | Step::CreateCollection { .. } | Step::Rewrite(_) | Step::Wait { .. }
    ));
    let bits: Vec<i64> = from_start
        .iter()
        .filter_map(|step| match step {
            Step::Update { first: Change::SetBits { bits, .. }, .. } => Some(*bits),
            _ => None,
        })
        .collect();
    for b in bits {
        assert!(b == BITS.webhook || b == BITS.voice || b == BITS.watch_together);
    }
}

#[test]
fn sessions_move_out_of_their_accounts() {
    let old = OldSession {
        id: "i".to_string(),
        token: "t".to_string(),
        friendly_name: "phone".to_string(),
        subscription: Some("sub".to_string()),
    };
    assert_eq!(
        old.moved("account"),
        Session {
            id: "i".to_string(),
            token: "t".to_string(),
            user_id: "account".to_string(),
            name: "phone".to_string(),
            subscription: Some("sub".to_string()),
        }
    );
    assert_eq!(LastMessage::Object { id: "m".to_string() }.id(), "m");
    assert_eq!(LastMessage::Id("n".to_string()).id(), "n");
}

#[test]
fn old_permissions_to_send_are_kept() {
    assert_eq!(server_permissions(Some(2)), WIPED_DEFAULT);
    assert_eq!(server_permissions(Some(-1)), WIPED_DEFAULT);
    assert_eq!(server_permissions(Some(1)), WIPED_DEFAULT - SEND_MESSAGE);
    assert_eq!(server_permissions(None), 3_996_129_280);
    assert_eq!(wiped_role(), OverrideField { a: 0, d: 0 });
    assert_eq!(channel_permissions(None), None);
    assert_eq!(channel_permissions(Some(3)), None);
    assert_eq!(channel_permissions(Some(4)), Some(OverrideField { a: 0, d: SEND_MESSAGE }));
}

#[test]
fn storage_of_accounts_is_made_once() {
    assert!(authifier_steps(&texts(&["_id_", "token"]), &vec![]).is_empty());
    let steps = authifier_steps(&texts(&["_id_"]), &texts(&["accounts", "invites"]));
    let made: Vec<&str> = steps
        .iter()
        .filter_map(|step| match step {
            Step::CreateCollection { name, .. } => Some(*name),
            _ => None,
        })
        .collect();
    assert_eq!(made, vec!["sessions", "mfa_tickets"]);
    assert_eq!(steps.len(), 12);
    assert_eq!(account_deletion_step(&texts(&["account_deletion"])), None);
    match account_deletion_step(&vec![]) {
        Some(Step::CreateIndex { collection, index }) => {
            assert_eq!(collection, "accounts");
            assert_eq!(index.first, "deletion.token");
            assert_eq!(index.only, Only::All);
        }
        other => panic!("expected an index, got {other:?}"),
    }
}

#[test]
fn webhooks_get_a_creator_or_go() {
    assert_eq!(webhook_fate(None), WebhookFate::Delete);
    assert_eq!(
        webhook_fate(Some(WebhookChannel::Group { owner: "o".to_string() })),
        WebhookFate::CreatedBy("o".to_string())
    );
    assert_eq!(
        webhook_fate(Some(WebhookChannel::TextChannel { server: "s".to_string() })),
        WebhookFate::CreatedByOwnerOf("s".to_string())
    );
    assert_eq!(
        webhook_fate(Some(WebhookChannel::VoiceChannel { server: "s".to_string() })),
        WebhookFate::CreatedByOwnerOf("s".to_string())
    );
}

#[test]
fn sessions_were_last_seen_when_they_were_made() {
    let id = ulid::Ulid::from_parts(1_788_264_000_000, 7).to_string();
    let seen = last_seen(&id).unwrap();
    assert!(seen.starts_with("2026-09-01T12:00:00"), "{seen}");
    assert_eq!(last_seen("not an id"), None);
    assert_eq!(last_seen("01ARZ3NDEKTSV4RRFFQ69G5FA"), None);
    // The first digit has more bits than an id
    assert!(last_seen("8ZZZZZZZZZZZZZZZZZZZZZZZZZ").unwrap().starts_with("3084-12-12T"));
    let far = ulid::Ulid::from_parts((1 << 48) - 1, 7).to_string();
    assert_eq!(last_seen(&far), None);
}

#[test]
fn roles_get_positions_of_their_own() {
    assert_eq!(role_positions(&vec![5, 1, 5, -3]), vec![2, 1, 3, 0]);
    assert!(role_positions(&vec![]).is_empty());
    assert_eq!(role_field("01R", "rank"), "roles.01R.rank");
}

#[test]
fn usernames_are_made_compliant() {
    assert!(is_compliant("name_1.2-3"));
    assert!(is_compliant("\u{e9}l\u{e8}ve"));
    assert!(!is_compliant("two words"));
    assert!(!is_compliant(""));
    assert_eq!(migrated_username("name"), "name");
    assert_eq!(migrated_username("two words!"), "twowords");
    assert_eq!(migrated_username("!a!"), "a_");
    assert_eq!(migrated_username("\u{1f600}"), "__");
    // A flag is one cluster of two characters
    assert_eq!(migrated_username("a \u{1f1eb}\u{1f1f7} b"), "ab");
}

#[test]
fn no_two_users_share_a_name_and_a_discriminator() {
    let info = |id: &str, name: &str| UserInformation {
        id: id.to_string(),
        username: name.to_string(),
    };
    let mut claimed = Topics { list: vec![] };
    let first = discriminate_as(&mut claimed, &info("1", "a b"), "0001").unwrap();
    assert_eq!(first.username, "ab");
    assert_eq!(first.display_name.as_deref(), Some("a b"));
    assert_eq!(first.discriminator, "0001");
    assert_eq!(discriminate_as(&mut claimed, &info("2", "ab"), "0001"), None);
    let second = discriminate_as(&mut claimed, &info("2", "ab"), "0002").unwrap();
    assert_eq!(second.display_name, None);
    let space = texts(&["0001", "0002", "0003"]);
    assert_eq!(free_discriminators(&claimed, "ab", &space), texts(&["0003"]));

    let users = vec![info("1", "ab"), info("2", "a b"), info("3", "ab"), info("4", "c")];
    let all = discriminate(&users, &space).unwrap();
    let tags: HashSet<String> =
        all.iter().map(|d| format!("{}#{}", d.username, d.discriminator)).collect();
    assert_eq!(tags.len(), 4);
    assert!(all.iter().all(|d| space.contains(&d.discriminator)));
    let many = vec![info("1", "x"), info("2", "x"), info("3", "x"), info("4", "x")];
    assert!(discriminate(&many, &space).is_none());

    // What counts is how many users have one username, not how many there are
    let crowd: Vec<UserInformation> =
        (0..60).map(|i| info(&i.to_string(), &format!("name{}", i / 3))).collect();
    let all = discriminate(&crowd, &space).unwrap();
    let tags: HashSet<String> =
        all.iter().map(|d| format!("{}#{}", d.username, d.discriminator)).collect();
    assert_eq!(tags.len(), 60);
}

#[test]
fn the_first_revisions_tag_attachments() {
    let (steps, _) = run_migrations(0, BITS);
    assert_eq!(
        steps[0],
        Step::Update {
            collection: "messages",
            only: Only::Has { field: "attachment" },
            first: Change::SetText { field: "attachment.tag", value: "attachments" },
            second: Some(Change::SetShort { field: "attachment.size", value: 0 }),
        }
    );
    assert_eq!(
        steps[1],
        Step::Update {
            collection: "attachments",
            only: Only::All,
            first: Change::SetText { field: "tag", value: "attachments" },
            second: Some(Change::SetShort { field: "size", value: 0 }),
        }
    );
    assert!(steps.contains(&Step::RenameCollection {
        from: "revolt.invites",
        to: "revolt.account_invites",
    }));
}
