use revolt_core::db::ReferenceDb;
use revolt_core::error::Error;
use revolt_core::events::EventV1;
use revolt_core::follows::ChannelFollow;
use revolt_core::table::Row;

fn follow(id: &str, source: &str, target: &str, webhook: &str) -> ChannelFollow {
    ChannelFollow {
        id: id.to_string(),
        source_channel: source.to_string(),
        source_server: "01SERVERSRC000000000000000".to_string(),
        target_channel: target.to_string(),
        target_server: "01SERVERTGT000000000000000".to_string(),
        webhook_id: webhook.to_string(),
        created_by: "01USER000000000000000000000".to_string(),
        created_at: 1_000,
    }
}

#[test]
fn crud_and_lookups() {
    let mut db = ReferenceDb::new();
    let a = follow(
        "01FOLLOWA000000000000000001",
        "01SOURCE0000000000000000001",
        "01TARGETA000000000000000001",
        "01WEBHOOKA00000000000000001",
    );
    let b = follow(
        "01FOLLOWB000000000000000001",
        "01SOURCE0000000000000000001",
        "01TARGETB000000000000000001",
        "01WEBHOOKB00000000000000001",
    );
    db.insert_channel_follow(&a).unwrap();
    db.insert_channel_follow(&b).unwrap();

    assert_eq!(db.fetch_follow(&a.id).unwrap().id, a.id);

    assert_eq!(db.count_follows_by_source("01SOURCE0000000000000000001"), 2);
    let by_source = db.fetch_follows_by_source("01SOURCE0000000000000000001");
    assert_eq!(by_source.len(), 2);

    assert!(db
        .fetch_follow_by_source_and_target(
            "01SOURCE0000000000000000001",
            "01TARGETA000000000000000001"
        )
        .is_some());
    assert!(db
        .fetch_follow_by_source_and_target(
            "01SOURCE0000000000000000001",
            "01NOPE00000000000000000001"
        )
        .is_none());

    let by_target = db.fetch_follows_by_target("01TARGETB000000000000000001");
    assert_eq!(by_target.len(), 1);
    assert_eq!(by_target[0].id, b.id);

    assert_eq!(db.fetch_follow_by_webhook("01WEBHOOKA00000000000000001").unwrap().id, a.id);
    assert!(db.fetch_follow_by_webhook("01NOWEBHOOK000000000000001").is_none());

    // Deleting twice is deleting once
    db.delete_channel_follow(&a.id);
    db.delete_channel_follow(&a.id);
    assert!(db.fetch_follow(&a.id).is_err());
    assert_eq!(db.count_follows_by_source("01SOURCE0000000000000000001"), 1);

    // A pair of channels follows once
    let mut dup = b.dup();
    dup.id = "01FOLLOWDUP00000000000000001".to_string();
    assert!(db.insert_channel_follow(&dup).is_err());
}

#[test]
fn server_cascade_matches_either_side() {
    let mut db = ReferenceDb::new();
    let f = ChannelFollow {
        id: "01FOLLOWSRV00000000000000001".to_string(),
        source_channel: "01SRCCHAN0000000000000000001".to_string(),
        source_server: "01SRCSERVER00000000000000001".to_string(),
        target_channel: "01TGTCHAN0000000000000000001".to_string(),
        target_server: "01TGTSERVER00000000000000001".to_string(),
        webhook_id: "01WEBHOOKSRV0000000000000001".to_string(),
        created_by: "01USER000000000000000000000".to_string(),
        created_at: 1_000,
    };
    db.insert_channel_follow(&f).unwrap();

    assert_eq!(db.fetch_follows_for_server("01SRCSERVER00000000000000001").len(), 1);
    assert_eq!(db.fetch_follows_for_server("01TGTSERVER00000000000000001").len(), 1);
    assert!(db.fetch_follows_for_server("01OTHERSERVER0000000000001").is_empty());
}

#[test]
fn what_a_deleted_channel_followed_is_severed() {
    let mut db = ReferenceDb::new();
    let a = follow("a", "news", "town", "wa");
    let b = follow("b", "town", "village", "wb");
    let c = follow("c", "news", "village", "wc");
    for f in [&a, &b, &c] {
        db.insert_channel_follow(f).unwrap();
    }
    let severed = ChannelFollow::cleanup_for_deleted_channel(&mut db, "town");
    let mut ids: Vec<String> = severed.iter().map(|s| s.follow.id.clone()).collect();
    ids.sort();
    assert_eq!(ids, vec!["a", "b"]);
    assert_eq!(db.fetch_follow("a"), Err(Error::NotFound));
    assert_eq!(db.fetch_follow("b"), Err(Error::NotFound));
    assert_eq!(db.fetch_follow("c"), Ok(c));
    assert!(ChannelFollow::cleanup_for_deleted_channel(&mut db, "town").is_empty());
    let severed = ChannelFollow::cleanup_for_deleted_server(&mut db, "01SERVERSRC000000000000000");
    assert_eq!(severed.len(), 1);
    assert!(db.fetch_follow("c").is_err());
}

#[test]
fn follows_are_told_where_they_matter() {
    let a = follow("a", "news", "town", "wa");
    let created = a.emit_create();
    assert!(created
        .iter()
        .any(|p| p.event == EventV1::ChannelFollowCreate { follow: a.dup() }));
    let deleted = a.emit_delete();
    assert!(deleted.iter().any(|p| {
        p.event
            == EventV1::ChannelFollowDelete {
                id: "a".to_string(),
                source_channel: "news".to_string(),
                target_channel: "town".to_string(),
            }
    }));
    assert_eq!(created.len(), deleted.len());
    let topics = |list: &Vec<revolt_core::events::Published>| -> Vec<String> {
        list.iter().map(|p| p.topic.clone()).collect()
    };
    assert_eq!(topics(&created), topics(&deleted));
    assert_eq!(a.dup().into_model(), a);
}
