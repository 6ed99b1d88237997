use hmac::{Hmac, Mac};
use revolt_core::clock::DAY_MS;
use revolt_core::db::ReferenceDb;
use revolt_core::donation_store::ClaimOutcome;
use revolt_core::donations::{
    claim_code_of, counted_usd_cents, find_claim_code, generate_claim_code, keyed_payer_hmac,
    parse_amount_cents, parse_timestamp_ms, payer_hmac, Account, Donation, DonationClaimCode,
    DonationState, KofiPayload, Supporter, CLAIM_CODE_TTL_DAYS,
};
use revolt_core::error::Error;
use revolt_core::table::Row;
use sha2::Sha256;
use std::time::{SystemTime, UNIX_EPOCH};

const KEY: &str = "test-key";

const GRACE_DAYS: u32 = 35;

const CLAIM_CODE_ALPHABET: &[u8] = b"0123456789ABCDEFGHJKMNPQRSTVWXYZ";

fn now_ms() -> i64 {
    SystemTime::now().duration_since(UNIX_EPOCH).unwrap().as_millis() as i64
}

fn insert_user(db: &mut ReferenceDb, id: &str) {
    db.insert_account(&Account { id: id.to_string(), deleted: false, supporter: None }).unwrap();
}

fn supporter(db: &ReferenceDb, id: &str) -> Option<Supporter> {
    db.fetch_live_user(id).unwrap().supporter
}

fn payload(
    message_id: &str,
    transaction_id: &str,
    amount: &str,
    currency: &str,
    email: Option<&str>,
    message: Option<&str>,
) -> KofiPayload {
    KofiPayload {
        verification_token: "token".to_string(),
        message_id: message_id.to_string(),
        timestamp: "2026-09-01T12:00:00Z".to_string(),
        kind: "Donation".to_string(),
        is_public: true,
        from_name: None,
        message: message.map(str::to_string),
        amount: amount.to_string(),
        currency: currency.to_string(),
        email: email.map(str::to_string),
        kofi_transaction_id: transaction_id.to_string(),
        is_subscription_payment: false,
        is_first_subscription_payment: false,
        tier_name: None,
    }
}

fn ingest(db: &mut ReferenceDb, payload: &KofiPayload) -> Donation {
    Donation::ingest(db, payload, KEY, GRACE_DAYS)
}

fn claim(
    db: &mut ReferenceDb,
    user: &str,
    email: &str,
    transaction: &str,
) -> Result<ClaimOutcome, Error> {
    Donation::claim_by_transaction(db, user, email, transaction, KEY, GRACE_DAYS)
}

fn issue_code(db: &mut ReferenceDb, code: &str, user: &str, created_at: i64) {
    db.insert_claim_code(&DonationClaimCode {
        code: code.to_string(),
        user: user.to_string(),
        created_at,
    })
    .unwrap();
}

#[test]
fn amounts_parse_to_cents() {
    assert_eq!(parse_amount_cents("10.00"), Some(1000));
    assert_eq!(parse_amount_cents("5"), Some(500));
    assert_eq!(parse_amount_cents("3.5"), Some(350));
    assert_eq!(parse_amount_cents(" 25.99 "), Some(2599));
    assert_eq!(parse_amount_cents("abc"), None);
    assert_eq!(parse_amount_cents(""), None);
    assert_eq!(parse_amount_cents("5."), None);
    assert_eq!(parse_amount_cents(".5"), None);
    assert_eq!(parse_amount_cents("1.234"), None);
    assert_eq!(parse_amount_cents("-5.00"), None);
    assert_eq!(parse_amount_cents("1,000.00"), None);
    assert_eq!(parse_amount_cents("99999999999999999999"), None);
}

#[test]
fn amounts_end_where_numbers_do() {
    assert_eq!(parse_amount_cents("92233720368547758.07"), Some(i64::MAX));
    assert_eq!(parse_amount_cents("92233720368547758.08"), None);
    assert_eq!(parse_amount_cents("0"), Some(0));
    assert_eq!(parse_amount_cents("000000000000000000000000012.30"), Some(1230));
    assert_eq!(parse_amount_cents("1.2.3"), None);
    assert_eq!(parse_amount_cents("+5"), None);
    assert_eq!(parse_amount_cents("\u{661}"), None);
}

#[test]
fn claim_codes_are_found_in_messages() {
    assert_eq!(find_claim_code("KOFI-7QM2XR"), Some("KOFI-7QM2XR".to_string()));
    assert_eq!(
        find_claim_code("thanks! my code is kofi-7qm2xr :)"),
        Some("KOFI-7QM2XR".to_string())
    );
    assert_eq!(find_claim_code("(Kofi-ab12cd)"), Some("KOFI-AB12CD".to_string()));
    // I, L, O and U are not used
    assert_eq!(find_claim_code("KOFI-7QM2XU"), None);
    assert_eq!(find_claim_code("KOFI-OOOOOO"), None);
    // Too short, too long, or within a word
    assert_eq!(find_claim_code("KOFI-7QM2X"), None);
    assert_eq!(find_claim_code("KOFI-7QM2XRZ"), None);
    assert_eq!(find_claim_code("XKOFI-7QM2XR"), None);
    assert_eq!(find_claim_code("no code here"), None);
}

#[test]
fn the_first_code_in_a_message_counts() {
    assert_eq!(
        find_claim_code("KOFI-7QM2XU KOFI-000000 KOFI-111111"),
        Some("KOFI-000000".to_string())
    );
    assert_eq!(find_claim_code("KOFI-7QM2X_"), None);
    // Letters of any script make words
    assert_eq!(find_claim_code("\u{e9}KOFI-7QM2XR"), None);
    assert_eq!(find_claim_code("KOFI-7QM2XR\u{e9}"), None);
    assert_eq!(find_claim_code("\u{2014}KOFI-7QM2XR\u{2014}"), Some("KOFI-7QM2XR".to_string()));
}

#[test]
fn payer_hmac_is_normalized_and_keyed() {
    let hmac = payer_hmac(KEY, "payer@example.com");
    assert_eq!(hmac.len(), 64);
    assert!(hmac.bytes().all(|b| b.is_ascii_hexdigit() && !b.is_ascii_uppercase()));
    assert_eq!(hmac, payer_hmac(KEY, "payer@example.com"));
    assert_eq!(hmac, payer_hmac(KEY, "  Payer@Example.COM \n"));
    assert_ne!(hmac, payer_hmac("other-key", "payer@example.com"));
    assert_ne!(hmac, payer_hmac(KEY, "someone@example.com"));
    assert_eq!(keyed_payer_hmac("", "payer@example.com"), None);
    assert_eq!(keyed_payer_hmac(KEY, "  "), None);
}

#[test]
fn payer_hmac_is_the_one_of_the_address() {
    let mut mac = <Hmac<Sha256> as Mac>::new_from_slice(KEY.as_bytes()).unwrap();
    mac.update(b"payer@example.com");
    let expected: String =
        mac.finalize().into_bytes().iter().map(|b| format!("{b:02x}")).collect();
    assert_eq!(payer_hmac(KEY, "Payer@example.com"), expected);
    assert_eq!(keyed_payer_hmac(KEY, " Payer@example.com"), Some(expected));
}

#[test]
fn generated_claim_codes_round_trip() {
    for _ in 0..64 {
        let code = generate_claim_code();
        assert_eq!(code.len(), 11);
        assert!(code.starts_with("KOFI-"));
        assert!(code[5..].bytes().all(|b| CLAIM_CODE_ALPHABET.contains(&b)));
        assert_eq!(find_claim_code(&code), Some(code.clone()));
    }
    assert_eq!(claim_code_of(&vec![0, 9, 10, 31, 18, 19]), "KOFI-09AZJK");
}

#[test]
fn timestamps_parse_to_epoch_ms() {
    assert_eq!(parse_timestamp_ms("2026-09-01T12:00:00Z"), Some(1_788_264_000_000));
    assert_eq!(parse_timestamp_ms("yesterday"), None);
}

#[test]
fn duplicate_message_id_stores_one_row() {
    let mut db = ReferenceDb::new();

    let first = ingest(&mut db, &payload("msg_1", "tx_1", "10.00", "USD", None, None));

    let again = ingest(&mut db, &payload("msg_1", "tx_other", "10.00", "USD", None, None));

    assert_eq!(first, again);
    assert_eq!(first.state, DonationState::Unclaimed);
    assert!(db.fetch_donation("tx_other").is_none());
}

#[test]
fn stored_at_is_set_once_on_insert() {
    let mut db = ReferenceDb::new();

    let before = now_ms();
    let first = ingest(&mut db, &payload("msg_1", "tx_1", "10.00", "USD", None, None));
    let after = now_ms();

    let stored_at = first.stored_at.expect("an inserted row has stored_at");
    assert!((before..=after).contains(&stored_at));
    assert_eq!(first.timestamp, parse_timestamp_ms("2026-09-01T12:00:00Z").unwrap());
    assert_eq!(db.fetch_donation("tx_1").unwrap().stored_at, Some(stored_at));

    // The clock goes on
    while now_ms() < stored_at + 5 {}

    let replay = ingest(&mut db, &payload("msg_1", "tx_1", "10.00", "USD", None, None));
    assert_eq!(replay.stored_at, Some(stored_at));

    let duplicate = ingest(&mut db, &payload("msg_2", "tx_1", "10.00", "USD", None, None));
    assert_eq!(duplicate.message_id, "msg_1");
    assert_eq!(duplicate.stored_at, Some(stored_at));
    assert_eq!(db.fetch_donation("tx_1").unwrap().stored_at, Some(stored_at));
}

#[test]
fn non_usd_and_bad_amounts_need_review() {
    let mut db = ReferenceDb::new();
    insert_user(&mut db, "user_a");
    issue_code(&mut db, "KOFI-7QM2XR", "user_a", now_ms());

    let euro =
        ingest(&mut db, &payload("msg_1", "tx_1", "10.00", "EUR", None, Some("KOFI-7QM2XR")));
    assert_eq!(euro.state, DonationState::NeedsReview);
    assert_eq!(euro.user, None);
    assert_eq!(euro.claimant.as_deref(), Some("user_a"));
    // The code is left for a payment that can be counted
    assert!(db.fetch_claim_code("KOFI-7QM2XR").is_some());

    let garbled = ingest(&mut db, &payload("msg_2", "tx_2", "ten", "USD", None, None));
    assert_eq!(garbled.state, DonationState::NeedsReview);
    assert_eq!(garbled.amount_cents, 0);
}

#[test]
fn claim_code_is_consumed_once() {
    let mut db = ReferenceDb::new();
    insert_user(&mut db, "user_a");
    issue_code(&mut db, "KOFI-7QM2XR", "user_a", now_ms());

    let first = ingest(
        &mut db,
        &payload(
            "msg_1",
            "tx_1",
            "10.00",
            "USD",
            Some("a@example.com"),
            Some("for the devs kofi-7qm2xr"),
        ),
    );
    assert_eq!(first.state, DonationState::Claimed);
    assert_eq!(first.user.as_deref(), Some("user_a"));
    assert!(db.fetch_claim_code("KOFI-7QM2XR").is_none());

    let record = supporter(&db, "user_a").unwrap();
    assert_eq!(record.lifetime_usd_cents, 1000);
    assert_eq!(record.monthly_until, None);
    assert!(record.show_badges);
    assert_eq!(record.payer_hmacs, vec![payer_hmac(KEY, "a@example.com")]);

    // From another payer the code gives nothing
    let second = ingest(
        &mut db,
        &payload("msg_2", "tx_2", "10.00", "USD", Some("b@example.com"), Some("KOFI-7QM2XR")),
    );
    assert_eq!(second.state, DonationState::Unclaimed);
    assert_eq!(second.user, None);
}

#[test]
fn expired_claim_code_is_ignored() {
    let mut db = ReferenceDb::new();
    insert_user(&mut db, "user_a");
    issue_code(
        &mut db,
        "KOFI-7QM2XR",
        "user_a",
        now_ms() - (CLAIM_CODE_TTL_DAYS + 1) * DAY_MS,
    );

    let donation =
        ingest(&mut db, &payload("msg_1", "tx_1", "10.00", "USD", None, Some("KOFI-7QM2XR")));
    assert_eq!(donation.state, DonationState::Unclaimed);
}

#[test]
fn renewal_attaches_by_payer_hmac() {
    let mut db = ReferenceDb::new();
    insert_user(&mut db, "user_a");
    issue_code(&mut db, "KOFI-7QM2XR", "user_a", now_ms());

    let mut first =
        payload("msg_1", "tx_1", "5.00", "USD", Some("a@example.com"), Some("KOFI-7QM2XR"));
    first.is_subscription_payment = true;
    first.is_first_subscription_payment = true;
    ingest(&mut db, &first);

    // Next month without a code, and in other letters
    let mut renewal = payload("msg_2", "tx_2", "5.00", "USD", Some(" A@Example.com"), None);
    renewal.is_subscription_payment = true;
    renewal.timestamp = "2026-10-01T12:00:00Z".to_string();
    let donation = ingest(&mut db, &renewal);
    assert_eq!(donation.state, DonationState::Claimed);
    assert_eq!(donation.user.as_deref(), Some("user_a"));

    let record = supporter(&db, "user_a").unwrap();
    assert_eq!(record.lifetime_usd_cents, 1000);
    assert_eq!(
        record.monthly_until,
        Some(parse_timestamp_ms("2026-10-01T12:00:00Z").unwrap() + GRACE_DAYS as i64 * DAY_MS)
    );
    assert_eq!(record.payer_hmacs.len(), 1);
}

#[test]
fn transaction_claim_checks_the_account_email() {
    let mut db = ReferenceDb::new();
    insert_user(&mut db, "user_a");
    insert_user(&mut db, "user_b");

    for (message_id, transaction_id) in [("msg_1", "tx_1"), ("msg_2", "tx_2")] {
        ingest(
            &mut db,
            &payload(message_id, transaction_id, "10.00", "USD", Some("a@example.com"), None),
        );
    }

    // Another address: it has to be looked at
    assert_eq!(
        claim(&mut db, "user_b", "b@example.com", "tx_1").unwrap(),
        ClaimOutcome::NeedsReview
    );
    let row = db.fetch_donation("tx_1").unwrap();
    assert_eq!(row.state, DonationState::NeedsReview);
    assert_eq!(row.claimant.as_deref(), Some("user_b"));
    assert_eq!(row.user, None);
    assert!(supporter(&db, "user_b").is_none());

    let error = claim(&mut db, "user_b", "b@example.com", "tx_1").unwrap_err();
    assert!(matches!(error, Error::InvalidClaim));
    let row = db.fetch_donation("tx_1").unwrap();
    assert_eq!(row.state, DonationState::NeedsReview);
    assert_eq!(row.claimant.as_deref(), Some("user_b"));

    // The payer's own address
    assert_eq!(
        claim(&mut db, "user_a", "A@example.com", "tx_2").unwrap(),
        ClaimOutcome::Claimed
    );
    let record = supporter(&db, "user_a").unwrap();
    assert_eq!(record.lifetime_usd_cents, 1000);
    assert_eq!(record.payer_hmacs, vec![payer_hmac(KEY, "a@example.com")]);

    let error = claim(&mut db, "user_a", "a@example.com", "tx_2").unwrap_err();
    assert!(matches!(error, Error::InvalidClaim));

    let error = claim(&mut db, "user_a", "a@example.com", "tx_404").unwrap_err();
    assert!(matches!(error, Error::NotFound));
}

#[test]
fn needs_review_row_is_claimed_by_the_matching_email() {
    let mut db = ReferenceDb::new();
    insert_user(&mut db, "user_a");
    insert_user(&mut db, "user_b");

    ingest(&mut db, &payload("msg_1", "tx_1", "10.00", "USD", Some("a@example.com"), None));

    assert_eq!(
        claim(&mut db, "user_b", "b@example.com", "tx_1").unwrap(),
        ClaimOutcome::NeedsReview
    );

    assert_eq!(
        claim(&mut db, "user_a", " A@Example.com", "tx_1").unwrap(),
        ClaimOutcome::Claimed
    );
    let row = db.fetch_donation("tx_1").unwrap();
    assert_eq!(row.state, DonationState::Claimed);
    assert_eq!(row.user.as_deref(), Some("user_a"));
    assert_eq!(row.claimant, None);
    assert!(row.claimed_at.is_some());

    let record = supporter(&db, "user_a").unwrap();
    assert_eq!(record.lifetime_usd_cents, 1000);
    assert_eq!(record.payer_hmacs, vec![payer_hmac(KEY, "a@example.com")]);
    assert!(supporter(&db, "user_b").is_none());
}

#[test]
fn matching_email_does_not_claim_an_uncountable_row() {
    let mut db = ReferenceDb::new();
    insert_user(&mut db, "user_a");
    insert_user(&mut db, "user_b");

    let euro =
        ingest(&mut db, &payload("msg_1", "tx_1", "15.00", "EUR", Some("a@example.com"), None));
    assert_eq!(euro.state, DonationState::NeedsReview);
    assert_eq!(euro.claimant, None);

    assert_eq!(
        claim(&mut db, "user_a", "A@example.com", "tx_1").unwrap(),
        ClaimOutcome::NeedsReview
    );
    let row = db.fetch_donation("tx_1").unwrap();
    assert_eq!(row.state, DonationState::NeedsReview);
    assert_eq!(row.claimant.as_deref(), Some("user_a"));
    assert_eq!(row.user, None);
    assert_eq!(row.claimed_at, None);
    assert!(supporter(&db, "user_a").is_none());

    // A claimant that is noted stays
    issue_code(&mut db, "KOFI-7QM2XR", "user_b", now_ms());
    ingest(
        &mut db,
        &payload("msg_2", "tx_2", "5.00", "EUR", Some("a@example.com"), Some("KOFI-7QM2XR")),
    );
    assert_eq!(
        claim(&mut db, "user_a", "a@example.com", "tx_2").unwrap(),
        ClaimOutcome::NeedsReview
    );
    let row = db.fetch_donation("tx_2").unwrap();
    assert_eq!(row.state, DonationState::NeedsReview);
    assert_eq!(row.claimant.as_deref(), Some("user_b"));
    assert_eq!(row.user, None);

    // With a value it counts
    Donation::assign(&mut db, "tx_1", "user_a", Some(1500), GRACE_DAYS).unwrap();
    let row = db.fetch_donation("tx_1").unwrap();
    assert_eq!(row.state, DonationState::Claimed);
    assert_eq!(row.user.as_deref(), Some("user_a"));
    let record = supporter(&db, "user_a").unwrap();
    assert_eq!(record.lifetime_usd_cents, 1500);
    assert_eq!(record.payer_hmacs, vec![payer_hmac(KEY, "a@example.com")]);
}

#[test]
fn payer_hmac_belongs_to_one_user() {
    let mut db = ReferenceDb::new();
    insert_user(&mut db, "alice");
    insert_user(&mut db, "bob");
    let bob_hmac = payer_hmac(KEY, "bob@example.com");

    let early =
        ingest(&mut db, &payload("msg_0", "tx_0", "5.00", "USD", Some("bob@example.com"), None));
    assert_eq!(early.state, DonationState::Unclaimed);

    // Paid by bob, with the code of alice
    issue_code(&mut db, "KOFI-7QM2XR", "alice", now_ms());
    let gift = ingest(
        &mut db,
        &payload("msg_1", "tx_1", "10.00", "USD", Some("bob@example.com"), Some("KOFI-7QM2XR")),
    );
    assert_eq!(gift.user.as_deref(), Some("alice"));
    let alice = supporter(&db, "alice").unwrap();
    assert_eq!(alice.payer_hmacs, vec![bob_hmac.clone()]);

    // Proven by the address of bob
    assert_eq!(
        claim(&mut db, "bob", "bob@example.com", "tx_0").unwrap(),
        ClaimOutcome::Claimed
    );
    let alice = supporter(&db, "alice").unwrap();
    assert!(alice.payer_hmacs.is_empty());
    assert_eq!(alice.lifetime_usd_cents, 1000);
    let record = supporter(&db, "bob").unwrap();
    assert_eq!(record.payer_hmacs, vec![bob_hmac.clone()]);
    assert_eq!(record.lifetime_usd_cents, 500);

    // A late copy does not take it back
    let replay = ingest(
        &mut db,
        &payload("msg_1", "tx_1", "10.00", "USD", Some("bob@example.com"), Some("KOFI-7QM2XR")),
    );
    assert_eq!(replay, gift);
    let alice = supporter(&db, "alice").unwrap();
    assert!(alice.payer_hmacs.is_empty());

    let renewal =
        ingest(&mut db, &payload("msg_2", "tx_2", "5.00", "USD", Some("Bob@example.com"), None));
    assert_eq!(renewal.state, DonationState::Claimed);
    assert_eq!(renewal.user.as_deref(), Some("bob"));

    let record = supporter(&db, "bob").unwrap();
    assert_eq!(record.lifetime_usd_cents, 1000);
    assert_eq!(record.payer_hmacs, vec![bob_hmac]);
    let alice = supporter(&db, "alice").unwrap();
    assert_eq!(alice.lifetime_usd_cents, 1000);
    assert!(alice.payer_hmacs.is_empty());
}

#[test]
fn claim_code_survives_a_failed_or_duplicate_insert() {
    let mut db = ReferenceDb::new();
    insert_user(&mut db, "user_a");
    issue_code(&mut db, "KOFI-7QM2XR", "user_a", now_ms());

    // The same transaction under another message
    ingest(&mut db, &payload("msg_2", "tx_2", "10.00", "USD", None, None));
    let existing =
        ingest(&mut db, &payload("msg_3", "tx_2", "10.00", "USD", None, Some("KOFI-7QM2XR")));
    assert_eq!(existing.message_id, "msg_2");
    assert_eq!(existing.state, DonationState::Unclaimed);
    assert!(db.fetch_claim_code("KOFI-7QM2XR").is_some());
    assert!(supporter(&db, "user_a").is_none());

    // The code still works
    let claimed =
        ingest(&mut db, &payload("msg_4", "tx_4", "10.00", "USD", None, Some("KOFI-7QM2XR")));
    assert_eq!(claimed.user.as_deref(), Some("user_a"));
    assert!(db.fetch_claim_code("KOFI-7QM2XR").is_none());
}

#[test]
fn assigned_usd_value_counts_towards_lifetime() {
    let mut db = ReferenceDb::new();
    insert_user(&mut db, "user_a");

    let euro = ingest(&mut db, &payload("msg_1", "tx_1", "10.00", "EUR", None, None));
    assert_eq!(euro.state, DonationState::NeedsReview);

    // Without a value it counts for nothing
    Donation::assign(&mut db, "tx_1", "user_a", None, GRACE_DAYS).unwrap();
    assert!(supporter(&db, "user_a").is_none());

    Donation::assign(&mut db, "tx_1", "user_a", Some(1100), GRACE_DAYS).unwrap();
    let row = db.fetch_donation("tx_1").unwrap();
    assert_eq!(row.state, DonationState::Claimed);
    assert_eq!(row.usd_cents_override, Some(1100));
    let record = supporter(&db, "user_a").unwrap();
    assert_eq!(record.lifetime_usd_cents, 1100);

    Donation::assign(&mut db, "tx_1", "user_a", None, GRACE_DAYS).unwrap();
    let row = db.fetch_donation("tx_1").unwrap();
    assert_eq!(row.usd_cents_override, Some(1100));

    ingest(&mut db, &payload("msg_2", "tx_2", "10.00", "USD", None, None));
    Donation::assign(&mut db, "tx_2", "user_a", Some(900), GRACE_DAYS).unwrap();
    let record = supporter(&db, "user_a").unwrap();
    assert_eq!(record.lifetime_usd_cents, 2000);

    let error = Donation::assign(&mut db, "tx_2", "user_a", Some(0), GRACE_DAYS).unwrap_err();
    assert!(matches!(error, Error::InvalidOperation));
    let row = db.fetch_donation("tx_2").unwrap();
    assert_eq!(row.usd_cents_override, Some(900));
}

#[test]
fn assign_and_revoke_recompute_totals() {
    let mut db = ReferenceDb::new();
    insert_user(&mut db, "user_a");

    ingest(&mut db, &payload("msg_1", "tx_1", "30.00", "USD", None, None));

    Donation::assign(&mut db, "tx_1", "user_a", None, GRACE_DAYS).unwrap();
    let record = supporter(&db, "user_a").unwrap();
    assert_eq!(record.lifetime_usd_cents, 3000);

    Donation::revoke(&mut db, "tx_1", GRACE_DAYS).unwrap();
    let row = db.fetch_donation("tx_1").unwrap();
    assert_eq!(row.state, DonationState::Revoked);
    let record = supporter(&db, "user_a").unwrap();
    assert_eq!(record.lifetime_usd_cents, 0);

    let error = Donation::assign(&mut db, "tx_1", "user_404", None, GRACE_DAYS).unwrap_err();
    assert!(matches!(error, Error::NotFound));
}

#[test]
fn revoke_drops_the_payer_hmac_only_from_unowned_rows() {
    let mut db = ReferenceDb::new();
    insert_user(&mut db, "user_a");
    issue_code(&mut db, "KOFI-7QM2XR", "user_a", now_ms());

    let unclaimed =
        ingest(&mut db, &payload("msg_1", "tx_1", "10.00", "USD", Some("b@example.com"), None));
    assert_eq!(unclaimed.state, DonationState::Unclaimed);
    assert!(unclaimed.payer_hmac.is_some());

    let review =
        ingest(&mut db, &payload("msg_2", "tx_2", "10.00", "EUR", Some("c@example.com"), None));
    assert_eq!(review.state, DonationState::NeedsReview);
    assert!(review.payer_hmac.is_some());

    let claimed = ingest(
        &mut db,
        &payload("msg_3", "tx_3", "10.00", "USD", Some("a@example.com"), Some("KOFI-7QM2XR")),
    );
    assert_eq!(claimed.state, DonationState::Claimed);

    for transaction_id in ["tx_1", "tx_2"] {
        Donation::revoke(&mut db, transaction_id, GRACE_DAYS).unwrap();
        let row = db.fetch_donation(transaction_id).unwrap();
        assert_eq!(row.state, DonationState::Revoked);
        assert_eq!(row.user, None);
        assert_eq!(row.payer_hmac, None);
    }

    Donation::revoke(&mut db, "tx_3", GRACE_DAYS).unwrap();
    let row = db.fetch_donation("tx_3").unwrap();
    assert_eq!(row.state, DonationState::Revoked);
    assert_eq!(row.user.as_deref(), Some("user_a"));
    assert_eq!(row.payer_hmac, Some(payer_hmac(KEY, "a@example.com")));
    let record = supporter(&db, "user_a").unwrap();
    assert_eq!(record.lifetime_usd_cents, 0);
    assert_eq!(record.payer_hmacs, vec![payer_hmac(KEY, "a@example.com")]);
}

const CUTOFF: i64 = 1_788_264_000_000;

fn unclaimed(id: &str, timestamp: i64, stored_at: Option<i64>) -> Donation {
    Donation {
        id: id.to_string(),
        message_id: format!("msg_{id}"),
        kind: "Donation".to_string(),
        amount_cents: 1000,
        currency: "USD".to_string(),
        usd_cents_override: None,
        is_subscription: false,
        tier_name: None,
        timestamp,
        stored_at,
        user: None,
        claimed_at: None,
        payer_hmac: Some(format!("hmac_{id}")),
        claimant: None,
        state: DonationState::Unclaimed,
    }
}

#[test]
fn stale_payer_hmacs_age_from_when_the_row_was_stored() {
    let mut db = ReferenceDb::new();
    for row in [
        unclaimed("backfilled", CUTOFF - 400 * DAY_MS, Some(CUTOFF + DAY_MS)),
        unclaimed("stored_early", CUTOFF + DAY_MS, Some(CUTOFF - DAY_MS)),
        unclaimed("legacy_old", CUTOFF - DAY_MS, None),
        unclaimed("legacy_recent", CUTOFF + DAY_MS, None),
    ] {
        assert!(db.insert_donation_if_absent(&row));
    }

    assert_eq!(db.wipe_stale_payer_hmacs(CUTOFF), 2);

    let payer = |id: &str| db.fetch_donation(id).unwrap().payer_hmac;
    assert!(payer("backfilled").is_some());
    assert!(payer("stored_early").is_none());
    assert!(payer("legacy_old").is_none());
    assert!(payer("legacy_recent").is_some());
}

#[test]
fn what_a_donation_counts_for() {
    let mut row = unclaimed("a", 0, None);
    assert_eq!(counted_usd_cents(&row), 1000);
    row.currency = "EUR".to_string();
    assert_eq!(counted_usd_cents(&row), 0);
    row.usd_cents_override = Some(700);
    assert_eq!(counted_usd_cents(&row), 700);
}

#[test]
fn a_forgotten_user_is_named_nowhere() {
    let mut db = ReferenceDb::new();
    let mut mine = unclaimed("mine", 0, None);
    mine.user = Some("u".to_string());
    mine.state = DonationState::Claimed;
    let mut asked = unclaimed("asked", 0, None);
    asked.claimant = Some("u".to_string());
    let other = unclaimed("other", 0, None);
    for row in [&mine, &asked, &other] {
        assert!(db.insert_donation_if_absent(row));
    }
    assert!(!db.insert_donation_if_absent(&mine));
    assert_eq!(db.fetch_donations_by_user("u").len(), 1);
    assert_eq!(db.fetch_donation_by_message_id("msg_asked").unwrap().id, "asked");
    db.unlink_donations_by_user("u");
    let row = db.fetch_donation("mine").unwrap();
    assert_eq!(row.user, None);
    assert_eq!(row.payer_hmac, None);
    let row = db.fetch_donation("asked").unwrap();
    assert_eq!(row.claimant, None);
    assert!(row.payer_hmac.is_some());
    assert_eq!(db.fetch_donation("other").unwrap(), other);

    let mut changed = other.dup();
    changed.amount_cents = 5;
    assert_eq!(db.update_donation(&changed), Ok(()));
    assert_eq!(db.fetch_donation("other").unwrap().amount_cents, 5);
    changed.id = "none".to_string();
    assert_eq!(db.update_donation(&changed), Err(Error::NotFound));
}

#[test]
fn claim_codes_are_stored_and_go() {
    let mut db = ReferenceDb::new();
    issue_code(&mut db, "KOFI-000000", "u", 10);
    issue_code(&mut db, "KOFI-111111", "v", 20);
    assert_eq!(db.fetch_claim_code_by_user("u").unwrap().code, "KOFI-000000");
    assert!(db.fetch_claim_code_by_user("w").is_none());
    assert_eq!(db.delete_expired_claim_codes(20), 1);
    assert!(db.fetch_claim_code("KOFI-000000").is_none());
    db.delete_claim_codes_by_user("u");
    assert!(db.fetch_claim_code("KOFI-111111").is_some());
    assert_eq!(db.delete_claim_code("KOFI-111111"), Ok(()));
    assert_eq!(db.delete_claim_code("KOFI-111111"), Err(Error::NotFound));
}

#[test]
fn deleted_accounts_claim_nothing() {
    let mut db = ReferenceDb::new();
    db.insert_account(&Account { id: "gone".to_string(), deleted: true, supporter: None })
        .unwrap();
    issue_code(&mut db, "KOFI-7QM2XR", "gone", now_ms());
    let row = ingest(
        &mut db,
        &payload("msg_1", "tx_1", "10.00", "USD", Some("a@example.com"), Some("KOFI-7QM2XR")),
    );
    assert_eq!(row.state, DonationState::Unclaimed);
    assert!(db.fetch_live_user("gone").is_none());
    assert!(db.fetch_user_by_payer_hmac(&payer_hmac(KEY, "a@example.com")).is_none());
}
