use revolt_core::db::ReferenceDb;
use revolt_core::error::Error;
use revolt_core::files::{File, FileHash, FileUsedFor, FileUsedForType, Metadata};

fn hash() -> FileHash {
    FileHash {
        id: "h".to_string(),
        processed_hash: "p".to_string(),
        created_at: 1,
        bucket_id: "bucket".to_string(),
        path: "path".to_string(),
        iv: String::new(),
        format_version: None,
        metadata: Metadata::Image {
            width: 3,
            height: 4,
            thumbhash: Some(vec![1, 2]),
            animated: Some(false),
        },
        content_type: "image/png".to_string(),
        size: 12,
    }
}

fn file(id: &str) -> File {
    hash().into_file_at(
        id.to_string(),
        "attachments".to_string(),
        "a.png".to_string(),
        "u".to_string(),
        99,
    )
}

fn used_for(id: &str) -> FileUsedFor {
    FileUsedFor { object_type: FileUsedForType::Message, id: id.to_string() }
}

#[test]
fn files_come_from_hashes() {
    let made = file("f");
    assert_eq!(made.id, "f");
    assert_eq!(made.tag, "attachments");
    assert_eq!(made.filename, "a.png");
    assert_eq!(made.hash.as_deref(), Some("h"));
    assert_eq!(made.uploaded_at, Some(99));
    assert_eq!(made.uploader_id.as_deref(), Some("u"));
    assert_eq!(made.used_for, None);
    assert_eq!(made.metadata, hash().metadata);
    assert_eq!(made.content_type, "image/png");
    assert_eq!(made.size, 12);
    let now = hash().into_file(
        "f".to_string(),
        "attachments".to_string(),
        "a.png".to_string(),
        "u".to_string(),
    );
    assert!(now.uploaded_at.unwrap() > 1_700_000_000_000);
}

#[test]
fn attachments_are_used_once() {
    let mut db = ReferenceDb::new();
    db.insert_attachment(&file("f")).unwrap();
    assert!(db.insert_attachment(&file("f")).is_err());
    assert_eq!(db.fetch_attachment("attachments", "f"), Ok(file("f")));
    assert_eq!(db.fetch_attachment("avatars", "f"), Err(Error::NotFound));
    assert_eq!(db.fetch_dangling_files().len(), 1);
    assert_eq!(db.count_file_hash_references("h"), 1);

    let used = db
        .find_and_use_attachment("f", "attachments", used_for("m"), "u".to_string())
        .unwrap();
    assert_eq!(used.id, "f");
    let stored = db.fetch_attachment("attachments", "f").unwrap();
    assert_eq!(stored.used_for, Some(used_for("m")));
    assert!(db.fetch_dangling_files().is_empty());
    assert_eq!(
        db.find_and_use_attachment("none", "attachments", used_for("m"), "u".to_string()),
        Err(Error::NotFound)
    );
    assert_eq!(db.fetch_large_message_attachments(11).len(), 1);
    assert_eq!(db.fetch_large_message_attachments(12).len(), 0);
    assert_eq!(db.fetch_large_message_attachments(usize::MAX).len(), 0);

    db.retarget_attachment("f", "n").unwrap();
    assert_eq!(
        db.fetch_attachment("attachments", "f").unwrap().used_for,
        Some(used_for("n"))
    );
}

#[test]
fn attachments_are_marked_and_go() {
    let mut db = ReferenceDb::new();
    for id in ["a", "b", "c"] {
        db.insert_attachment(&file(id)).unwrap();
    }
    db.mark_attachment_as_reported("a").unwrap();
    assert_eq!(db.fetch_attachment("attachments", "a").unwrap().reported, Some(true));
    assert_eq!(db.mark_attachment_as_reported("none"), Err(Error::NotFound));
    db.mark_attachment_as_deleted("a").unwrap();
    assert_eq!(db.mark_attachment_as_deleted("none"), Err(Error::NotFound));
    db.mark_attachments_as_deleted(&vec!["b".to_string(), "c".to_string()]).unwrap();
    for id in ["a", "b", "c"] {
        assert_eq!(db.fetch_attachment("attachments", id).unwrap().deleted, Some(true));
    }
    // What was reported is kept
    let swept: Vec<String> =
        db.fetch_deleted_attachments().into_iter().map(|f| f.id).collect();
    assert_eq!(swept, vec!["b", "c"]);
    db.delete_attachment("a").unwrap();
    assert_eq!(db.fetch_attachment("attachments", "a"), Err(Error::NotFound));
    assert_eq!(db.delete_attachment("a"), Err(Error::NotFound));
}
