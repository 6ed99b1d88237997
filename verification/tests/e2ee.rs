use base64::engine::general_purpose::STANDARD_NO_PAD;
use base64::Engine;
use ed25519_dalek::{Signer, SigningKey};
use rand::RngCore;
use revolt_core::channels::Channel;
use revolt_core::db::ReferenceDb;
use revolt_core::e2ee::{
    is_valid_device_id, E2EEBackup, E2EEBlob, E2EEBlobRecipient, E2EEContentType, E2EEEnvelope,
    E2EEIdentity, E2EEOneTimeKey, E2EESignedKey, E2EE_PROTOCOL_VERSION,
    E2EE_SIGN_CONTEXT_FALLBACK, E2EE_SIGN_CONTEXT_ONE_TIME,
};
use revolt_core::error::Error;
use revolt_core::events::EventV1;
use std::collections::HashSet;
use std::time::{Duration, SystemTime};
use ulid::Ulid;

fn random_bytes() -> [u8; 32] {
    let mut bytes = [0u8; 32];
    rand::thread_rng().fill_bytes(&mut bytes);
    bytes
}

fn random_device_id() -> String {
    random_bytes()[..16].iter().map(|b| format!("{b:02x}")).collect()
}

struct TestDevice {
    signing_key: SigningKey,
    identity: E2EEIdentity,
}

fn make_device(user_id: &str) -> TestDevice {
    let signing_key = SigningKey::from_bytes(&random_bytes());
    let device_id = random_device_id();

    let ed25519_key = STANDARD_NO_PAD.encode(signing_key.verifying_key().as_bytes());
    let curve25519_key = STANDARD_NO_PAD.encode(random_bytes());

    let payload = E2EEIdentity::signed_payload(
        E2EE_PROTOCOL_VERSION,
        &device_id,
        &ed25519_key,
        &curve25519_key,
    );
    let signature = STANDARD_NO_PAD.encode(signing_key.sign(payload.as_bytes()).to_bytes());

    let fallback_key =
        make_signed_key(&signing_key, E2EE_SIGN_CONTEXT_FALLBACK, &device_id, "fallback0");

    TestDevice {
        identity: E2EEIdentity {
            id: E2EEIdentity::composite_id(user_id, &device_id),
            user_id: user_id.to_string(),
            device_id,
            protocol_version: E2EE_PROTOCOL_VERSION,
            ed25519_key,
            curve25519_key,
            signature,
            fallback_key,
            previous_fallback_key: None,
            created_at: 1,
            last_seen_at: 1,
            last_session_id: "session0".to_string(),
        },
        signing_key,
    }
}

fn make_signed_key(
    signing_key: &SigningKey,
    context: &str,
    device_id: &str,
    key_id: &str,
) -> E2EESignedKey {
    let key = STANDARD_NO_PAD.encode(random_bytes());
    let payload = format!(
        "{context}\nprotocol_version:{E2EE_PROTOCOL_VERSION}\ndevice_id:{device_id}\nkey_id:{key_id}\nkey:{key}"
    );

    E2EESignedKey {
        key_id: key_id.to_string(),
        key,
        signature: STANDARD_NO_PAD.encode(signing_key.sign(payload.as_bytes()).to_bytes()),
    }
}

fn make_one_time_key(device: &TestDevice, key_id: &str) -> E2EEOneTimeKey {
    let signed = make_signed_key(
        &device.signing_key,
        E2EE_SIGN_CONTEXT_ONE_TIME,
        &device.identity.device_id,
        key_id,
    );

    E2EEOneTimeKey {
        id: E2EEOneTimeKey::composite_id(
            &device.identity.user_id,
            &device.identity.device_id,
            key_id,
        ),
        user_id: device.identity.user_id.clone(),
        device_id: device.identity.device_id.clone(),
        key_id: signed.key_id,
        key: signed.key,
        signature: signed.signature,
    }
}

fn make_envelope(recipient_user: &str, recipient_device: &str) -> E2EEEnvelope {
    E2EEEnvelope {
        id: Ulid::new().to_string(),
        recipient_user_id: recipient_user.to_string(),
        recipient_device_id: recipient_device.to_string(),
        sender_user_id: "sender".to_string(),
        sender_device_id: random_device_id(),
        protocol_version: E2EE_PROTOCOL_VERSION,
        sequence: 0,
        ciphertext: STANDARD_NO_PAD.encode(b"ciphertext"),
        timestamp: 1,
        content_type: E2EEContentType::default(),
        group_id: None,
        epoch: None,
    }
}

fn refused(error: &'static str) -> Result<(), Error> {
    Err(Error::FailedValidation { error })
}

#[test]
fn signature_verification_fails_closed() {
    let device = make_device("user");

    device.identity.verify().expect("valid identity");

    // Another Curve25519 key: the signature does not cover it
    let mut tampered = device.identity.clone();
    tampered.curve25519_key = STANDARD_NO_PAD.encode(random_bytes());
    assert!(tampered.verify().is_err());

    // The version is signed too
    let mut tampered = device.identity.clone();
    tampered.protocol_version = 0;
    assert!(tampered.verify().is_err());

    // No signature
    let mut tampered = device.identity.clone();
    tampered.signature = String::new();
    assert!(tampered.verify().is_err());

    // Another fallback key
    let mut tampered = device.identity.clone();
    tampered.fallback_key.key = STANDARD_NO_PAD.encode(random_bytes());
    assert!(tampered.verify().is_err());

    // A fallback key is no one-time key
    let fallback = device.identity.fallback_key.clone();
    let cross_context = E2EEOneTimeKey {
        id: "user:device:fallback0".to_string(),
        user_id: "user".to_string(),
        device_id: device.identity.device_id.clone(),
        key_id: fallback.key_id,
        key: fallback.key,
        signature: fallback.signature,
    };
    assert!(cross_context.verify(&device.identity).is_err());

    let otk = make_one_time_key(&device, "otk0");
    otk.verify(&device.identity).expect("valid one-time key");

    let mut tampered = otk.clone();
    tampered.key = STANDARD_NO_PAD.encode(random_bytes());
    assert!(tampered.verify(&device.identity).is_err());
}

#[test]
fn each_refusal_has_its_reason() {
    let device = make_device("user");
    let mut bad = device.identity.clone();
    bad.ed25519_key = "not base 64!".to_string();
    assert_eq!(bad.verify(), refused("invalid Ed25519 identity key"));
    assert!(bad.verifying_key().is_none());
    assert!(!bad.verify_payload("text", &device.identity.signature));
    assert_eq!(
        make_one_time_key(&device, "k").verify(&bad),
        refused("invalid Ed25519 identity key")
    );

    let mut bad = device.identity.clone();
    bad.ed25519_key = STANDARD_NO_PAD.encode([7u8; 31]);
    assert_eq!(bad.verify(), refused("invalid Ed25519 identity key"));

    // 32 bytes that are no point of the curve
    let mut bytes = [0u8; 32];
    bytes[0] = 2;
    let mut bad = device.identity.clone();
    bad.ed25519_key = STANDARD_NO_PAD.encode(bytes);
    assert_eq!(bad.verify(), refused("invalid Ed25519 identity key"));

    let mut bad = device.identity.clone();
    bad.curve25519_key = "AAAA".to_string();
    assert_eq!(bad.verify(), refused("invalid Curve25519 identity key"));

    let mut bad = device.identity.clone();
    bad.device_id = random_device_id();
    assert_eq!(bad.verify(), refused("invalid identity signature"));

    let mut bad = device.identity.clone();
    bad.fallback_key.key = "AAAA".to_string();
    assert_eq!(bad.verify(), refused("invalid Curve25519 key"));

    let mut bad = device.identity.clone();
    bad.fallback_key.key_id = "other".to_string();
    assert_eq!(bad.verify(), refused("invalid key signature"));

    let mut with_previous = device.identity.clone();
    let previous = make_signed_key(
        &device.signing_key,
        E2EE_SIGN_CONTEXT_FALLBACK,
        &device.identity.device_id,
        "before",
    );
    with_previous.previous_fallback_key = Some(previous.clone());
    assert_eq!(with_previous.verify(), Ok(()));
    with_previous.previous_fallback_key =
        Some(E2EESignedKey { signature: String::new(), ..previous });
    assert_eq!(with_previous.verify(), refused("invalid key signature"));

    let mut key = make_one_time_key(&device, "k");
    key.key = "AAAA".to_string();
    assert_eq!(key.verify(&device.identity), refused("invalid Curve25519 key"));
    let mut key = make_one_time_key(&device, "k");
    key.key_id = "l".to_string();
    assert_eq!(key.verify(&device.identity), refused("invalid one-time key signature"));
}

#[test]
fn device_claim_verification() {
    let device = make_device("user");
    let nonce = STANDARD_NO_PAD.encode(random_bytes());

    let payload = E2EEIdentity::claim_payload(&device.identity.device_id, "session1", &nonce);
    let signature = STANDARD_NO_PAD.encode(device.signing_key.sign(payload.as_bytes()).to_bytes());

    assert!(device.identity.verify_claim(&nonce, "session1", &signature));

    // For another session
    assert!(!device.identity.verify_claim(&nonce, "session2", &signature));

    // With another nonce
    let other_nonce = STANDARD_NO_PAD.encode(random_bytes());
    assert!(!device.identity.verify_claim(&other_nonce, "session1", &signature));

    // By another key
    let mallory = SigningKey::from_bytes(&random_bytes());
    let forged = STANDARD_NO_PAD.encode(mallory.sign(payload.as_bytes()).to_bytes());
    assert!(!device.identity.verify_claim(&nonce, "session1", &forged));
}

#[test]
fn payloads_are_what_devices_sign() {
    assert_eq!(
        E2EEIdentity::signed_payload(-12, "dev", "ed", "curve"),
        "acutest:e2ee:identity\nprotocol_version:-12\ndevice_id:dev\ned25519:ed\ncurve25519:curve"
    );
    assert_eq!(
        E2EEIdentity::signed_payload(i32::MIN, "", "", ""),
        "acutest:e2ee:identity\nprotocol_version:-2147483648\ndevice_id:\ned25519:\ncurve25519:"
    );
    assert_eq!(
        E2EEIdentity::signed_payload(1070, "", "", ""),
        "acutest:e2ee:identity\nprotocol_version:1070\ndevice_id:\ned25519:\ncurve25519:"
    );
    assert_eq!(
        E2EEIdentity::claim_payload("dev", "sess", "n"),
        "acutest:e2ee:device-claim\ndevice_id:dev\nsession_id:sess\nnonce:n"
    );
    assert_eq!(E2EEIdentity::composite_id("u", "d"), "u:d");
    assert_eq!(E2EEBackup::composite_id("u", "d"), "u:d");
    assert_eq!(E2EEOneTimeKey::composite_id("u", "d", "k"), "u:d:k");
    assert_eq!(E2EEBlob::s3_path("id"), "e2ee_id");
}

#[test]
fn device_ids_are_hexadecimal() {
    assert!(is_valid_device_id("0123456789abcdef0123456789abcdef"));
    assert!(!is_valid_device_id("0123456789ABCDEF0123456789abcdef"));
    assert!(!is_valid_device_id("0123456789abcdef0123456789abcde"));
    assert!(!is_valid_device_id("0123456789abcdef0123456789abcdef0"));
    assert!(!is_valid_device_id("0123456789abcdef0123456789abcdeg"));
    assert!(!is_valid_device_id("0123456789abcdef0123456789abcd\u{e9}"));
}

fn header(v: &str, kdf: &str, user: &str, device: &str, generation: &str) -> String {
    format!(
        "{{\"v\":{v},\"kdf\":{kdf},\"user_id\":{user},\"device_id\":{device},\"generation\":{generation}}}"
    )
}

const KDF: &str = "{\"alg\":\"argon2id\",\"m_kib\":65536,\"t\":3,\"p\":1}";

#[test]
fn headers_of_backups_are_validated() {
    let check = |text: &str| E2EEBackup::validate_header(text, "u", "d", 4);
    let user = "\"u\"";
    let device = "\"d\"";
    assert_eq!(check(&header("1", KDF, user, device, "4")), Ok(()));
    assert_eq!(check(&"x".repeat(1025)), refused("backup header too large"));
    assert_eq!(check(&"x".repeat(1024)), refused("backup header is not valid JSON"));
    // Bytes count, not characters
    assert_eq!(check(&"\u{e9}".repeat(513)), refused("backup header too large"));
    assert_eq!(
        check(&header("2", KDF, user, device, "4")),
        refused("backup header: unsupported version")
    );
    assert_eq!(
        check(&header("\"1\"", KDF, user, device, "4")),
        refused("backup header: unsupported version")
    );
    assert_eq!(check("{\"v\":1}"), refused("backup header: missing kdf"));
    assert_eq!(check("[1]"), refused("backup header: unsupported version"));
    assert_eq!(check("7"), refused("backup header: unsupported version"));
    assert_eq!(
        check("{\"v\":1,\"kdf\":null}"),
        refused("backup header: unsupported kdf alg")
    );
    assert_eq!(
        check(&header("1", "{\"alg\":\"scrypt\"}", user, device, "4")),
        refused("backup header: unsupported kdf alg")
    );
    let out_of_range = refused("backup header: kdf params out of range");
    for (m, t, p) in [(8191, 1, 1), (524289, 1, 1), (8192, 0, 1), (8192, 11, 1), (8192, 1, 0), (8192, 1, 5)] {
        let kdf = format!("{{\"alg\":\"argon2id\",\"m_kib\":{m},\"t\":{t},\"p\":{p}}}");
        assert_eq!(check(&header("1", &kdf, user, device, "4")), out_of_range);
    }
    for (m, t, p) in [(8192, 1, 1), (524288, 10, 4)] {
        let kdf = format!("{{\"alg\":\"argon2id\",\"m_kib\":{m},\"t\":{t},\"p\":{p}}}");
        assert_eq!(check(&header("1", &kdf, user, device, "4")), Ok(()));
    }
    assert_eq!(
        check(&header("1", "{\"alg\":\"argon2id\",\"m_kib\":8192,\"t\":1}", user, device, "4")),
        out_of_range
    );
    assert_eq!(
        check(&header("1", KDF, "\"v\"", device, "4")),
        refused("backup header: user_id mismatch")
    );
    assert_eq!(
        check(&header("1", KDF, user, "\"e\"", "4")),
        refused("backup header: device_id mismatch")
    );
    assert_eq!(
        check(&header("1", KDF, user, device, "null")),
        refused("backup header: missing generation")
    );
    assert_eq!(
        check(&header("1", KDF, user, device, "5")),
        refused("backup header: generation mismatch")
    );
}

#[test]
fn identity_unique_and_crud() {
    let mut db = ReferenceDb::new();
    let device = make_device("user_a");

    db.insert_e2ee_identity(&device.identity).unwrap();

    // There is one row for each device
    assert!(matches!(
        db.insert_e2ee_identity(&device.identity).unwrap_err(),
        Error::InvalidOperation | Error::DatabaseError { .. }
    ));
    let again = E2EEIdentity { id: "other".to_string(), ..device.identity.clone() };
    assert_eq!(
        db.insert_e2ee_identity(&again),
        Err(Error::DatabaseError { operation: "insert_one", collection: "e2ee_identity" })
    );

    let fetched = db.fetch_e2ee_identity("user_a", &device.identity.device_id).unwrap();
    assert_eq!(fetched.id, device.identity.id);
    assert_eq!(fetched.ed25519_key, device.identity.ed25519_key);
    assert_eq!(fetched.curve25519_key, device.identity.curve25519_key);
    assert_eq!(fetched.signature, device.identity.signature);
    assert_eq!(fetched.fallback_key, device.identity.fallback_key);
    assert_eq!(fetched.protocol_version, device.identity.protocol_version);

    let other = make_device("user_b");
    db.insert_e2ee_identity(&other.identity).unwrap();
    let list = db.fetch_e2ee_identities("user_a");
    assert_eq!(list.len(), 1);

    db.update_e2ee_identity_session("user_a", &device.identity.device_id, "session_new", 77)
        .unwrap();

    let fetched = db.fetch_e2ee_identity("user_a", &device.identity.device_id).unwrap();
    assert_eq!(fetched.last_session_id, "session_new");
    assert_eq!(fetched.last_seen_at, 77);
    assert_eq!(
        db.update_e2ee_identity_session("user_a", "no device", "s", 1),
        Err(Error::NotFound)
    );
}

#[test]
fn a_device_can_be_replaced() {
    let mut db = ReferenceDb::new();
    let device = make_device("user_a");
    assert_eq!(db.replace_e2ee_identity(&device.identity), Err(Error::NotFound));
    db.insert_e2ee_identity(&device.identity).unwrap();
    let mut rotated = device.identity.clone();
    rotated.previous_fallback_key = Some(rotated.fallback_key.clone());
    assert_eq!(db.replace_e2ee_identity(&rotated), Ok(()));
    assert_eq!(
        db.fetch_e2ee_identity("user_a", &device.identity.device_id),
        Ok(rotated)
    );
    assert_eq!(db.fetch_e2ee_identity("user_b", "x"), Err(Error::NotFound));
}

#[test]
fn atomic_one_time_key_consume() {
    let mut db = ReferenceDb::new();
    let device = make_device("user_consume");
    db.insert_e2ee_identity(&device.identity).unwrap();

    let keys: Vec<_> =
        (0..20).map(|i| make_one_time_key(&device, &format!("otk{i}"))).collect();
    db.insert_e2ee_one_time_keys(&keys);

    assert_eq!(db.count_e2ee_one_time_keys("user_consume", &device.identity.device_id), 20);

    // 40 takers for 20 keys
    let mut consumed = vec![];
    for _ in 0..40 {
        if let Some(key) = db.consume_e2ee_one_time_key("user_consume", &device.identity.device_id)
        {
            consumed.push(key.key_id);
        }
    }

    consumed.sort();
    let unique: HashSet<_> = consumed.iter().collect();
    assert_eq!(consumed.len(), 20, "exactly the stored keys are consumed");
    assert_eq!(unique.len(), 20, "no key was consumed twice");

    assert!(db
        .consume_e2ee_one_time_key("user_consume", &device.identity.device_id)
        .is_none());
}

#[test]
fn one_time_keys_are_counted_and_deleted_by_device() {
    let mut db = ReferenceDb::new();
    let device = make_device("u");
    let other = make_device("u");
    let mine: Vec<_> = ["b", "a", "c"].iter().map(|k| make_one_time_key(&device, k)).collect();
    db.insert_e2ee_one_time_keys(&mine);
    db.insert_e2ee_one_time_keys(&vec![make_one_time_key(&other, "a")]);
    // The same id takes the place of what was there
    let renewed = make_one_time_key(&device, "a");
    db.insert_e2ee_one_time_keys(&vec![renewed.clone()]);
    let id = device.identity.device_id.as_str();
    assert_eq!(db.count_e2ee_one_time_keys("u", id), 3);
    let among = ["a", "z", "c"].iter().map(|s| s.to_string()).collect();
    assert_eq!(db.count_e2ee_one_time_keys_among("u", id, &among), 2);
    assert_eq!(db.count_e2ee_one_time_keys_among("v", id, &among), 0);
    assert_eq!(db.consume_e2ee_one_time_key("u", id), Some(renewed));
    assert_eq!(db.consume_e2ee_one_time_key("u", id).unwrap().key_id, "b");
    assert_eq!(db.delete_e2ee_one_time_keys("u", id), 1);
    assert_eq!(db.delete_e2ee_one_time_keys("u", id), 0);
    assert_eq!(db.count_e2ee_one_time_keys("u", &other.identity.device_id), 1);
}

#[test]
fn envelope_queue_ordering_ack_scoping_and_ttl() {
    let mut db = ReferenceDb::new();
    let recipient = ("user_r", "deviceaaaaaaaaaaaaaaaaaaaaaaaaaa");

    let envelopes: Vec<_> = (0..5).map(|_| make_envelope(recipient.0, recipient.1)).collect();
    db.insert_e2ee_envelopes(&envelopes);

    let stranger = make_envelope("user_s", "devicebbbbbbbbbbbbbbbbbbbbbbbbbb");
    db.insert_e2ee_envelopes(&vec![stranger.clone()]);

    assert_eq!(db.count_e2ee_envelopes(recipient.0, recipient.1), 5);
    assert_eq!(db.sum_e2ee_envelope_bytes(recipient.0, recipient.1), 5 * 14);

    let fetched = db.fetch_e2ee_envelopes(recipient.0, recipient.1, 100);
    assert_eq!(fetched.len(), 5);
    let mut sorted = fetched.clone();
    sorted.sort_by(|a, b| a.id.cmp(&b.id));
    assert_eq!(fetched, sorted);
    assert_eq!(db.fetch_e2ee_envelopes(recipient.0, recipient.1, 2), sorted[..2].to_vec());
    assert!(db.fetch_e2ee_envelopes(recipient.0, recipient.1, 0).is_empty());
    assert!(db.fetch_e2ee_envelopes(recipient.0, recipient.1, -3).is_empty());

    // What is for another device stays
    assert!(!db.delete_e2ee_envelope(&stranger.id, recipient.0, recipient.1));
    assert_eq!(db.count_e2ee_envelopes("user_s", stranger.recipient_device_id.as_str()), 1);

    assert!(db.delete_e2ee_envelope(&fetched[0].id, recipient.0, recipient.1));
    assert!(!db.delete_e2ee_envelope(&fetched[0].id, recipient.0, recipient.1));
    assert_eq!(db.count_e2ee_envelopes(recipient.0, recipient.1), 4);

    let future_threshold =
        Ulid::from_datetime(SystemTime::now() + Duration::from_secs(60)).to_string();
    let swept = db.delete_e2ee_envelopes_before(&future_threshold);
    assert_eq!(swept, 5); // 4 remaining + the stranger's

    assert_eq!(db.count_e2ee_envelopes(recipient.0, recipient.1), 0);
}

#[test]
fn an_envelope_at_the_threshold_stays() {
    let mut db = ReferenceDb::new();
    let envelope = |id: &str| E2EEEnvelope { id: id.to_string(), ..make_envelope("u", "d") };
    db.insert_e2ee_envelopes(&vec![envelope("01"), envelope("02"), envelope("03")]);
    assert_eq!(db.delete_e2ee_envelopes_before("02"), 1);
    let left = db.fetch_e2ee_envelopes("u", "d", 10);
    assert_eq!(left.iter().map(|e| e.id.as_str()).collect::<Vec<_>>(), vec!["02", "03"]);
}

#[test]
fn device_deletion_cascades() {
    let mut db = ReferenceDb::new();
    let device = make_device("user_del");
    db.insert_e2ee_identity(&device.identity).unwrap();

    let keys: Vec<_> =
        (0..3).map(|i| make_one_time_key(&device, &format!("otk{i}"))).collect();
    db.insert_e2ee_one_time_keys(&keys);

    let envelope = make_envelope("user_del", &device.identity.device_id);
    db.insert_e2ee_envelopes(&vec![envelope]);

    assert!(db.delete_e2ee_device("user_del", &device.identity.device_id));

    assert!(db.fetch_e2ee_identity("user_del", &device.identity.device_id).is_err());
    assert_eq!(db.count_e2ee_one_time_keys("user_del", &device.identity.device_id), 0);
    assert_eq!(db.count_e2ee_envelopes("user_del", &device.identity.device_id), 0);

    assert!(!db.delete_e2ee_device("user_del", &device.identity.device_id));

    let device_a = make_device("user_del2");
    let device_b = make_device("user_del2");
    db.insert_e2ee_identity(&device_a.identity).unwrap();
    db.insert_e2ee_identity(&device_b.identity).unwrap();

    let mut removed = db.delete_all_e2ee_devices("user_del2");
    removed.sort();
    let mut expected =
        vec![device_a.identity.device_id.clone(), device_b.identity.device_id.clone()];
    expected.sort();
    assert_eq!(removed, expected);
    assert!(db.fetch_e2ee_identities("user_del2").is_empty());
}

fn direct_message(id: &str, a: &str, b: &str) -> Channel {
    Channel::DirectMessage {
        id: id.to_string(),
        active: true,
        recipients: vec![a.to_string(), b.to_string()],
        last_message_id: None,
    }
}

#[test]
fn revoking_a_device_is_told() {
    let mut db = ReferenceDb::new();
    db.insert_channel(&direct_message("dm1", "u", "v")).unwrap();
    db.insert_channel(&direct_message("dm2", "v", "w")).unwrap();
    let device = make_device("u");
    db.insert_e2ee_identity(&device.identity).unwrap();
    let id = device.identity.device_id.clone();

    let (existed, told) = E2EEIdentity::revoke_device(&mut db, "u", &id);
    assert!(existed);
    assert_eq!(told.key_packages_of, vec![id.clone()]);
    let topics: Vec<&str> = told.published.iter().map(|p| p.topic.as_str()).collect();
    assert_eq!(topics, vec!["u!", "dm1"]);
    for p in &told.published {
        assert_eq!(
            p.event,
            EventV1::E2EEDeviceDelete { user_id: "u".to_string(), device_id: id.clone() }
        );
    }

    let (existed, told) = E2EEIdentity::revoke_device(&mut db, "u", &id);
    assert!(!existed);
    assert_eq!(told.key_packages_of, vec![id]);
    assert!(told.published.is_empty());
}

#[test]
fn devices_die_with_their_session() {
    let mut db = ReferenceDb::new();
    let bound = |user: &str, session: &str| {
        let mut device = make_device(user);
        device.identity.last_session_id = session.to_string();
        device.identity
    };
    let a = bound("u", "s1");
    let b = bound("u", "s1");
    let c = bound("u", "s2");
    let d = bound("v", "s1");
    for identity in [&a, &b, &c, &d] {
        db.insert_e2ee_identity(identity).unwrap();
    }
    assert_eq!(a.assert_bound_session("s1"), Ok(()));
    assert_eq!(a.assert_bound_session("s2"), Err(Error::NotAuthenticated));
    assert_eq!(E2EEIdentity::require_device_bound_session(&db, "u", "s2"), Ok(()));
    assert_eq!(
        E2EEIdentity::require_device_bound_session(&db, "v", "s2"),
        Err(Error::NotAuthenticated)
    );

    // The one that the session is now stays
    let told = E2EEIdentity::revoke_same_session_predecessors(&mut db, "u", "s1", &b.device_id);
    assert_eq!(told.key_packages_of, vec![a.device_id.clone()]);
    assert_eq!(told.published.len(), 1);
    assert!(db.fetch_e2ee_identity("u", &a.device_id).is_err());
    assert!(db.fetch_e2ee_identity("u", &b.device_id).is_ok());

    let told = E2EEIdentity::revoke_devices_for_session(&mut db, "u", "s1");
    assert_eq!(told.key_packages_of, vec![b.device_id.clone()]);
    assert_eq!(told.published.len(), 1);
    assert!(db.fetch_e2ee_identity("u", &b.device_id).is_err());
    assert!(db.fetch_e2ee_identity("u", &c.device_id).is_ok());
    assert!(db.fetch_e2ee_identity("v", &d.device_id).is_ok());
    let told = E2EEIdentity::revoke_devices_for_session(&mut db, "u", "s1");
    assert!(told.key_packages_of.is_empty() && told.published.is_empty());
}

fn blob(id: &str, size: isize) -> E2EEBlob {
    let recipient = |user: &str, device: &str| E2EEBlobRecipient {
        user_id: user.to_string(),
        device_id: device.to_string(),
        fetched: false,
    };
    E2EEBlob {
        id: id.to_string(),
        uploader_user_id: "u".to_string(),
        uploader_device_id: "d".to_string(),
        size,
        bucket_id: "bucket".to_string(),
        iv: String::new(),
        recipients: vec![recipient("v", "e"), recipient("w", "f")],
    }
}

#[test]
fn blobs_are_fetched_by_their_recipients() {
    let mut db = ReferenceDb::new();
    assert_eq!(db.insert_e2ee_blob(&blob("b", 10)), Ok(()));
    assert_eq!(db.insert_e2ee_blob(&blob("b", 11)), Err(Error::InvalidOperation));
    assert_eq!(db.fetch_e2ee_blob("b"), Ok(blob("b", 10)));
    assert_eq!(db.fetch_e2ee_blob("c"), Err(Error::NotFound));
    assert!(blob("b", 10).authorizes_fetch("v", "e"));
    assert!(!blob("b", 10).authorizes_fetch("v", "f"));

    assert_eq!(db.mark_e2ee_blob_fetched("c", "v", "e"), Err(Error::NotFound));
    assert_eq!(db.mark_e2ee_blob_fetched("b", "v", "f"), Err(Error::NotFound));
    let once = db.mark_e2ee_blob_fetched("b", "v", "e").unwrap();
    assert!(once.recipients[0].fetched);
    assert!(!once.recipients[1].fetched);
    assert!(!once.fully_fetched());
    let twice = db.mark_e2ee_blob_fetched("b", "w", "f").unwrap();
    assert!(twice.fully_fetched());
    assert_eq!(db.fetch_e2ee_blob("b"), Ok(twice));

    assert!(db.delete_e2ee_blob("b"));
    assert!(!db.delete_e2ee_blob("b"));
}

#[test]
fn old_and_large_blobs_expire() {
    let mut db = ReferenceDb::new();
    for (id, size) in [("03", 20), ("01", 20), ("02", 10), ("00", 11)] {
        db.insert_e2ee_blob(&blob(id, size)).unwrap();
    }
    let ids = |db: &ReferenceDb, threshold: &str, size: isize| -> Vec<String> {
        db.fetch_expired_e2ee_blobs(threshold, size).into_iter().map(|b| b.id).collect()
    };
    assert_eq!(ids(&db, "03", 10), vec!["00", "01"]);
    assert_eq!(ids(&db, "04", 11), vec!["01", "03"]);
    assert_eq!(ids(&db, "04", -1), vec!["00", "01", "02", "03"]);
}

#[test]
fn backups_are_kept_by_device() {
    let mut db = ReferenceDb::new();
    let backup = |user: &str, device: &str, generation: i64| E2EEBackup {
        id: E2EEBackup::composite_id(user, device),
        user_id: user.to_string(),
        device_id: device.to_string(),
        header: String::new(),
        ciphertext: String::new(),
        generation,
        created_at: 1,
        updated_at: 2,
    };
    db.upsert_e2ee_backup(&backup("u", "e", 1));
    db.upsert_e2ee_backup(&backup("u", "d", 1));
    db.upsert_e2ee_backup(&backup("v", "d", 1));
    db.upsert_e2ee_backup(&backup("u", "e", 2));
    assert_eq!(db.fetch_e2ee_backup("u", "e"), Some(backup("u", "e", 2)));
    assert_eq!(db.fetch_e2ee_backup("u", "f"), None);
    assert_eq!(db.fetch_e2ee_backups("u"), vec![backup("u", "d", 1), backup("u", "e", 2)]);
    assert!(db.delete_e2ee_backup("u", "d"));
    assert!(!db.delete_e2ee_backup("u", "d"));
    assert_eq!(db.delete_all_e2ee_backups("u"), 1);
    assert_eq!(db.delete_all_e2ee_backups("u"), 0);
    assert_eq!(db.fetch_e2ee_backups("v").len(), 1);
}
