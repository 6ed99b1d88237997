//! The stored donations, claim codes and supporters, and how payments are matched to
//! accounts.
use crate::clock::{self, now_ms};
use crate::crypto::same_bytes;
use crate::db::ReferenceDb;
use crate::donations::{
    self, counted_usd_cents, find_claim_code, keyed_payer_hmac, parse_amount_cents,
    parse_timestamp_ms, Account, AccountView, Donation, DonationClaimCode, DonationClaimCodeView,
    DonationState, DonationView, KofiPayload, Supporter, SupporterView,
};
use crate::error::Error;
use crate::table::{self, Row, Table};
use crate::text::{self, contains_text, copy_opt, is_text, same, to_upper_case, trim};
use vstd::prelude::*;
use vstd::string::*;

verus! {

/// What is stored of donations.
#[verifier::ext_equal]
pub struct Books {
    pub donations: Seq<DonationView>,
    pub codes: Seq<DonationClaimCodeView>,
    pub accounts: Seq<AccountView>,
}

/// What a database holds of donations.
pub open spec fn books(db: ReferenceDb) -> Books {
    Books {
        donations: db.donations@,
        codes: db.donation_claim_codes@,
        accounts: db.accounts@,
    }
}

/// Whether nothing else of a database changed.
pub open spec fn elsewhere_same(before: ReferenceDb, after: ReferenceDb) -> bool {
    after == (ReferenceDb {
        donations: after.donations,
        donation_claim_codes: after.donation_claim_codes,
        accounts: after.accounts,
        ..before
    })
}

/// Donations that a message told of.
pub open spec fn told_by(message_id: Seq<char>) -> spec_fn(DonationView) -> bool {
    |d: DonationView| d.message_id == message_id
}

/// Donations that count for a user.
pub open spec fn owned_by(user: Seq<char>) -> spec_fn(DonationView) -> bool {
    |d: DonationView| d.user == Some(user)
}

/// Donations that are counted.
pub open spec fn is_claimed() -> spec_fn(DonationView) -> bool {
    |d: DonationView| d.state is Claimed
}

/// Claim codes of a user.
pub open spec fn code_of(user: Seq<char>) -> spec_fn(DonationClaimCodeView) -> bool {
    |c: DonationClaimCodeView| c.user == user
}

/// Claim codes of other users.
pub open spec fn code_not_of(user: Seq<char>) -> spec_fn(DonationClaimCodeView) -> bool {
    |c: DonationClaimCodeView| c.user != user
}

/// Claim codes from an instant on.
pub open spec fn made_since(before_ms: i64) -> spec_fn(DonationClaimCodeView) -> bool {
    |c: DonationClaimCodeView| c.created_at >= before_ms
}

/// Accounts that have what stands for an address.
pub open spec fn holds(hmac: Seq<char>) -> spec_fn(AccountView) -> bool {
    |a: AccountView| a.supporter is Some && a.supporter->Some_0.payer_hmacs.contains(hmac)
}

/// Accounts that lose what stands for an address when a user gets it.
pub open spec fn loses(user: Seq<char>, hmac: Seq<char>) -> spec_fn(AccountView) -> bool {
    |a: AccountView| a.id != user && holds(hmac)(a)
}

/// A donation whose user and payer are forgotten, where the user is the given one, and
/// likewise its claimant.
pub open spec fn unlinked(user: Seq<char>) -> spec_fn(DonationView) -> DonationView {
    |d: DonationView|
        DonationView {
            user: if d.user == Some(user) {
                None
            } else {
                d.user
            },
            payer_hmac: if d.user == Some(user) {
                None
            } else {
                d.payer_hmac
            },
            claimant: if d.claimant == Some(user) {
                None
            } else {
                d.claimant
            },
            ..d
        }
}

/// Donations that nobody has claimed, with a payer, stored before an instant. Where it
/// is not known when one was stored, the payment counts.
pub open spec fn is_stale(before_ms: i64) -> spec_fn(DonationView) -> bool {
    |d: DonationView|
        (d.state is Unclaimed || d.state is NeedsReview) && d.payer_hmac is Some
            && match d.stored_at {
            Some(at) => at < before_ms,
            None => d.timestamp < before_ms,
        }
}

/// A donation without what stands for the address of its payer.
pub open spec fn without_payer() -> spec_fn(DonationView) -> DonationView {
    |d: DonationView| DonationView { payer_hmac: None, ..d }
}

/// Whether an account exists and was not deleted.
pub open spec fn live(accounts: Seq<AccountView>, user: Seq<char>) -> bool {
    table::has_id::<Account>(accounts, user) && !table::row_of::<Account>(accounts, user).deleted
}

/// The account that has what stands for an address, unless it was deleted.
pub open spec fn live_holder(accounts: Seq<AccountView>, hmac: Option<Seq<char>>) -> Option<
    Seq<char>,
> {
    match hmac {
        Some(hmac) => if table::any_row(accounts, holds(hmac)) {
            let a = accounts[table::first_row(accounts, holds(hmac))];
            if a.deleted {
                None
            } else {
                Some(a.id)
            }
        } else {
            None
        },
        None => None,
    }
}

/// A sum that stays within what can be held.
pub open spec fn capped_sum(a: i64, b: i64) -> i64 {
    if a + b > i64::MAX {
        i64::MAX
    } else if a + b < i64::MIN {
        i64::MIN
    } else {
        (a + b) as i64
    }
}

/// What donations count for together.
pub open spec fn lifetime(rows: Seq<DonationView>) -> i64
    decreases rows.len(),
{
    if rows.len() == 0 {
        0
    } else {
        capped_sum(lifetime(rows.drop_last()), donations::counted(rows.last()))
    }
}

/// When the last membership among donations was paid.
pub open spec fn last_membership(rows: Seq<DonationView>) -> Option<i64>
    decreases rows.len(),
{
    if rows.len() == 0 {
        None
    } else {
        let before = last_membership(rows.drop_last());
        let d = rows.last();
        if !d.is_subscription || (before is Some && before->Some_0 >= d.timestamp) {
            before
        } else {
            Some(d.timestamp)
        }
    }
}

/// The donations that are counted for a user.
pub open spec fn counted_for(rows: Seq<DonationView>, user: Seq<char>) -> Seq<DonationView> {
    rows.filter(owned_by(user)).filter(is_claimed())
}

/// Until when the last membership of a user lasts: some days longer than it was paid
/// for.
pub open spec fn monthly_until(rows: Seq<DonationView>, user: Seq<char>, grace_days: u32) -> Option<
    i64,
> {
    match last_membership(counted_for(rows, user)) {
        Some(at) => Some(capped_sum(at, (grace_days * clock::DAY_MS) as i64)),
        None => None,
    }
}

/// A user who just became a supporter.
pub open spec fn new_supporter() -> SupporterView {
    SupporterView {
        lifetime_usd_cents: 0,
        monthly_until: None,
        payer_hmacs: Seq::empty(),
        show_badges: true,
    }
}

/// What is known of a user as a supporter.
pub open spec fn supporter_of(a: AccountView) -> SupporterView {
    match a.supporter {
        Some(s) => s,
        None => new_supporter(),
    }
}

/// An account with totals.
pub open spec fn with_totals(cents: i64, until: Option<i64>) -> spec_fn(AccountView) -> AccountView {
    |a: AccountView|
        AccountView {
            supporter: Some(
                SupporterView {
                    lifetime_usd_cents: cents,
                    monthly_until: until,
                    ..supporter_of(a)
                },
            ),
            ..a
        }
}

/// Whether the totals of an account are others than those given.
pub open spec fn totals_differ(a: AccountView, cents: i64, until: Option<i64>) -> bool {
    supporter_of(a).lifetime_usd_cents != cents || supporter_of(a).monthly_until != until
}

/// The accounts once the totals of a user were computed anew. Nothing happens to
/// missing and deleted users, nor where nothing changes.
pub open spec fn recomputed(b: Books, user: Seq<char>, grace_days: u32) -> Books {
    let cents = lifetime(counted_for(b.donations, user));
    let until = monthly_until(b.donations, user, grace_days);
    if live(b.accounts, user) && totals_differ(
        table::row_of::<Account>(b.accounts, user),
        cents,
        until,
    ) {
        Books {
            accounts: table::mapped(
                b.accounts,
                table::with_id::<Account>(user),
                with_totals(cents, until),
            ),
            ..b
        }
    } else {
        b
    }
}

/// The accounts once the totals of several users were computed anew, one after the other.
pub open spec fn all_recomputed(b: Books, users: Seq<Seq<char>>, grace_days: u32) -> Books
    decreases users.len(),
{
    if users.len() == 0 {
        b
    } else {
        recomputed(all_recomputed(b, users.drop_last(), grace_days), users.last(), grace_days)
    }
}

/// What stands for other addresses.
pub open spec fn other_than(hmac: Seq<char>) -> spec_fn(Seq<char>) -> bool {
    |h: Seq<char>| h != hmac
}

/// An account once a user got what stands for an address: the user has it, and nobody
/// else.
pub open spec fn hmac_moved(user: Seq<char>, hmac: Seq<char>) -> spec_fn(AccountView) -> AccountView {
    |a: AccountView|
        if a.id == user {
            AccountView {
                supporter: Some(
                    SupporterView {
                        payer_hmacs: if supporter_of(a).payer_hmacs.contains(hmac) {
                            supporter_of(a).payer_hmacs
                        } else {
                            supporter_of(a).payer_hmacs.push(hmac)
                        },
                        ..supporter_of(a)
                    },
                ),
                ..a
            }
        } else {
            match a.supporter {
                Some(s) => AccountView {
                    supporter: Some(
                        SupporterView {
                            payer_hmacs: s.payer_hmacs.filter(other_than(hmac)),
                            ..s
                        },
                    ),
                    ..a
                },
                None => a,
            }
        }
}

/// The ids of accounts.
pub open spec fn account_ids(rows: Seq<AccountView>) -> Seq<Seq<char>> {
    Seq::new(rows.len(), |i: int| rows[i].id)
}

/// Whether a claimed donation has an effect: its user was not deleted.
pub open spec fn takes_effect(b: Books, d: DonationView) -> bool {
    d.state is Claimed && d.user is Some && live(b.accounts, d.user->Some_0)
}

/// Whether what stands for the address of the payer goes to the user of a donation. It
/// is not taken from another user where `take` is not set.
pub open spec fn moves_hmac(b: Books, d: DonationView, take: bool) -> bool {
    d.payer_hmac is Some && (take || !table::any_row(b.accounts, holds(d.payer_hmac->Some_0))
        || b.accounts[table::first_row(b.accounts, holds(d.payer_hmac->Some_0))].id
        == d.user->Some_0)
}

/// The users that lose what stands for the address of the payer of a donation.
pub open spec fn losers(b: Books, d: DonationView, take: bool) -> Seq<Seq<char>> {
    if takes_effect(b, d) && moves_hmac(b, d, take) {
        account_ids(b.accounts.filter(loses(d.user->Some_0, d.payer_hmac->Some_0)))
    } else {
        Seq::empty()
    }
}

/// The books once a claimed donation took effect: what stands for the address of the
/// payer goes to the user, so that later payments follow, and the totals of those who
/// lost it and of the user are computed anew.
pub open spec fn claim_applied(b: Books, d: DonationView, take: bool, grace_days: u32) -> Books {
    if takes_effect(b, d) {
        let user = d.user->Some_0;
        let moved = if moves_hmac(b, d, take) {
            Books {
                accounts: table::each(b.accounts, hmac_moved(user, d.payer_hmac->Some_0)),
                ..b
            }
        } else {
            b
        };
        recomputed(all_recomputed(moved, losers(b, d, take), grace_days), user, grace_days)
    } else {
        b
    }
}

/// The claim code that a message holds, where it exists and can still be used.
pub open spec fn live_code(
    codes: Seq<DonationClaimCodeView>,
    message: Option<Seq<char>>,
    now: i64,
) -> Option<DonationClaimCodeView> {
    match message {
        Some(message) => match donations::code_from(message, 0) {
            Some(code) => if table::has_id::<DonationClaimCode>(codes, code) {
                let row = table::row_of::<DonationClaimCode>(codes, code);
                if now - row.created_at < donations::CLAIM_CODE_TTL_DAYS * clock::DAY_MS {
                    Some(row)
                } else {
                    None
                }
            } else {
                None
            },
            None => None,
        },
        None => None,
    }
}

/// Who owns a claim code, unless the account was deleted.
pub open spec fn code_owner(accounts: Seq<AccountView>, code: Option<DonationClaimCodeView>) -> Option<
    Seq<char>,
> {
    match code {
        Some(code) => if live(accounts, code.user) {
            Some(code.user)
        } else {
            None
        },
        None => None,
    }
}

/// What stands for the address of whoever paid.
pub open spec fn payer_of(payload: KofiPayload, key: Seq<char>) -> Option<Seq<char>> {
    match payload.email {
        Some(email) => donations::keyed_hmac_of(key, email@),
        None => None,
    }
}

/// The currency of a payment.
pub open spec fn currency_of(payload: KofiPayload) -> Seq<char> {
    text::upper_case(text::trimmed(payload.currency@))
}

/// The amount of a payment, where it can be read and held.
pub open spec fn amount_of(payload: KofiPayload) -> Option<i64> {
    let s = text::trimmed(payload.amount@);
    if donations::is_amount(s) && donations::cents_of(s) <= i64::MAX {
        Some(donations::cents_of(s) as i64)
    } else {
        None
    }
}

/// Whether a payment has to be looked at: it is not in dollars, or its amount cannot be
/// read.
pub open spec fn needs_review(payload: KofiPayload) -> bool {
    currency_of(payload) != "USD"@ || amount_of(payload) is None
}

/// Who paid, as far as can be told: the owner of the claim code, or else the account
/// that has what stands for the address.
pub open spec fn suspect(b: Books, payload: KofiPayload, key: Seq<char>, now: i64) -> Option<
    Seq<char>,
> {
    let owner = code_owner(
        b.accounts,
        live_code(b.codes, text::opt_text(payload.message), now),
    );
    if owner is Some {
        owner
    } else {
        live_holder(b.accounts, payer_of(payload, key))
    }
}

/// Whether a payment uses up its claim code.
pub open spec fn uses_code(b: Books, payload: KofiPayload, now: i64) -> bool {
    !needs_review(payload) && code_owner(
        b.accounts,
        live_code(b.codes, text::opt_text(payload.message), now),
    ) is Some
}

/// The donation that a payment is stored as.
pub open spec fn donation_of(
    b: Books,
    payload: KofiPayload,
    key: Seq<char>,
    now: i64,
    stored_at: i64,
) -> DonationView {
    let review = needs_review(payload);
    let who = suspect(b, payload, key, now);
    DonationView {
        id: payload.kofi_transaction_id@,
        message_id: payload.message_id@,
        kind: payload.kind@,
        amount_cents: match amount_of(payload) {
            Some(cents) => cents,
            None => 0,
        },
        currency: currency_of(payload),
        usd_cents_override: None,
        is_subscription: payload.is_subscription_payment,
        tier_name: text::opt_text(payload.tier_name),
        timestamp: match donations::rfc3339_ms(text::trimmed(payload.timestamp@)) {
            Some(at) => at,
            None => now,
        },
        stored_at: Some(stored_at),
        user: if review {
            None
        } else {
            who
        },
        claimed_at: if !review && who is Some {
            Some(now)
        } else {
            None
        },
        payer_hmac: payer_of(payload, key),
        claimant: if review {
            who
        } else {
            None
        },
        state: if review {
            DonationState::NeedsReview
        } else if who is Some {
            DonationState::Claimed
        } else {
            DonationState::Unclaimed
        },
    }
}

/// What comes of a payment: the books, and the stored donation. A message that was told
/// before stores nothing, nor does a transaction that is stored; its claim code is
/// given back.
pub open spec fn ingested(
    b: Books,
    payload: KofiPayload,
    key: Seq<char>,
    now: i64,
    stored_at: i64,
    grace_days: u32,
) -> (Books, DonationView) {
    let q = told_by(payload.message_id@);
    let id = payload.kofi_transaction_id@;
    if table::any_row(b.donations, q) {
        let existing = b.donations[table::first_row(b.donations, q)];
        (claim_applied(b, existing, false, grace_days), existing)
    } else {
        let d = donation_of(b, payload, key, now, stored_at);
        let code = live_code(b.codes, text::opt_text(payload.message), now);
        let left = if uses_code(b, payload, now) {
            b.codes.filter(table::without_id::<DonationClaimCode>(code->Some_0.code))
        } else {
            b.codes
        };
        if table::has_id::<Donation>(b.donations, id) {
            (
                Books {
                    codes: if uses_code(b, payload, now) {
                        left.push(code->Some_0)
                    } else {
                        b.codes
                    },
                    ..b
                },
                table::row_of::<Donation>(b.donations, id),
            )
        } else {
            (
                claim_applied(
                    Books { donations: b.donations.push(d), codes: left, ..b },
                    d,
                    true,
                    grace_days,
                ),
                d,
            )
        }
    }
}

/// What comes of a claim.
#[derive(Clone, Copy, Debug, PartialEq, Eq)]
pub enum ClaimOutcome {
    /// The donation counts for the user.
    Claimed,
    /// The donation is to be assigned by hand.
    NeedsReview,
}

/// Whether an address belongs to whoever paid.
pub open spec fn proves_payer(d: DonationView, key: Seq<char>, email: Seq<char>) -> bool {
    d.payer_hmac is Some && d.payer_hmac == donations::keyed_hmac_of(key, email)
}

/// Whether a donation would count for something.
pub open spec fn is_countable(d: DonationView) -> bool {
    d.usd_cents_override is Some || (d.currency == "USD"@ && d.amount_cents > 0)
}

/// A donation that counts for a user.
pub open spec fn claimed_by(d: DonationView, user: Seq<char>, now: i64) -> DonationView {
    DonationView {
        state: DonationState::Claimed,
        user: Some(user),
        claimed_at: Some(now),
        claimant: None,
        ..d
    }
}

/// The books with a donation in place of the one with its id.
pub open spec fn with_donation(b: Books, d: DonationView) -> Books {
    Books {
        donations: table::mapped(
            b.donations,
            table::with_id::<Donation>(d.id),
            |old_row: DonationView| d,
        ),
        ..b
    }
}

/// What comes of the claim of a transaction by a user with an address: the books, and
/// the outcome.
pub open spec fn claimed_transaction(
    b: Books,
    user: Seq<char>,
    email: Seq<char>,
    transaction: Seq<char>,
    key: Seq<char>,
    now: i64,
    grace_days: u32,
) -> (Books, Result<ClaimOutcome, Error>) {
    let id = text::trimmed(transaction);
    let d = table::row_of::<Donation>(b.donations, id);
    if !table::has_id::<Donation>(b.donations, id) {
        (b, Err(Error::NotFound))
    } else if !(d.state is Unclaimed || d.state is NeedsReview) {
        (b, Err(Error::InvalidClaim))
    } else if proves_payer(d, key, email) && d.state is NeedsReview && !is_countable(d) {
        (
            if d.claimant is None {
                with_donation(b, DonationView { claimant: Some(user), ..d })
            } else {
                b
            },
            Ok(ClaimOutcome::NeedsReview),
        )
    } else if proves_payer(d, key, email) {
        let after = claimed_by(d, user, now);
        (
            claim_applied(with_donation(b, after), after, true, grace_days),
            Ok(ClaimOutcome::Claimed),
        )
    } else if d.state is NeedsReview {
        (b, Err(Error::InvalidClaim))
    } else {
        (
            with_donation(
                b,
                DonationView { state: DonationState::NeedsReview, claimant: Some(user), ..d },
            ),
            Ok(ClaimOutcome::NeedsReview),
        )
    }
}

/// What comes of a donation being assigned to a user: the books, and why not.
pub open spec fn assigned(
    b: Books,
    id: Seq<char>,
    user: Seq<char>,
    usd_cents: Option<i64>,
    now: i64,
    grace_days: u32,
) -> (Books, Result<(), Error>) {
    let d = table::row_of::<Donation>(b.donations, id);
    if usd_cents is Some && usd_cents->Some_0 < 1 {
        (b, Err(Error::InvalidOperation))
    } else if !table::has_id::<Donation>(b.donations, id) || !live(b.accounts, user) {
        (b, Err(Error::NotFound))
    } else {
        let after = DonationView {
            usd_cents_override: if usd_cents is Some {
                usd_cents
            } else {
                d.usd_cents_override
            },
            ..claimed_by(d, user, now)
        };
        let stored = with_donation(b, after);
        let applied = claim_applied(stored, after, true, grace_days);
        (
            if d.user is Some && d.user != Some(user) && !losers(stored, after, true).contains(
                d.user->Some_0,
            ) {
                recomputed(applied, d.user->Some_0, grace_days)
            } else {
                applied
            },
            Ok(()),
        )
    }
}

/// A refunded donation. Without a user nothing stands for the address of the payer any
/// more.
pub open spec fn refunded(d: DonationView) -> DonationView {
    DonationView {
        state: DonationState::Revoked,
        payer_hmac: if d.user is None {
            None
        } else {
            d.payer_hmac
        },
        ..d
    }
}

/// What comes of a refund: the books, and why not.
pub open spec fn revoked(b: Books, id: Seq<char>, grace_days: u32) -> (Books, Result<(), Error>) {
    let d = table::row_of::<Donation>(b.donations, id);
    if !table::has_id::<Donation>(b.donations, id) {
        (b, Err(Error::NotFound))
    } else {
        let stored = with_donation(b, refunded(d));
        (
            match d.user {
                Some(user) => recomputed(stored, user, grace_days),
                None => stored,
            },
            Ok(()),
        )
    }
}

impl ReferenceDb {
    /// Stores a donation, unless one with its id or its message is stored; tells whether
    /// it was.
    pub fn insert_donation_if_absent(&mut self, d: &Donation) -> (r: bool)
        requires
            old(self).wf(),
        ensures
            final(self).wf(),
            *final(self) == (ReferenceDb { donations: final(self).donations, ..*old(self) }),
            r == !(table::has_id::<Donation>(old(self).donations@, d.id@) || table::any_row(
                old(self).donations@,
                told_by(d.message_id@),
            )),
            final(self).donations@ == if r {
                old(self).donations@.push(d@)
            } else {
                old(self).donations@
            },
    {
        if self.donations.contains_id(d.id.as_str()) || self.fetch_donation_by_message_id(
            d.message_id.as_str(),
        ).is_some() {
            return false;
        }
        proof {
            table::lemma_keyed_push::<Donation>(self.donations@, d@);
        }
        self.donations.push(d.dup());
        true
    }

    /// A donation by its transaction.
    pub fn fetch_donation(&self, id: &str) -> (r: Option<Donation>)
        ensures
            match r {
                Some(d) => table::has_id::<Donation>(self.donations@, id@) && d@
                    == table::row_of::<Donation>(self.donations@, id@) && d.id@ == id@,
                None => !table::has_id::<Donation>(self.donations@, id@),
            },
    {
        self.donations.fetch(id)
    }

    /// A donation by the message that told of it.
    pub fn fetch_donation_by_message_id(&self, message_id: &str) -> (r: Option<Donation>)
        ensures
            match r {
                Some(d) => table::any_row(self.donations@, told_by(message_id@)) && d@
                    == self.donations@[table::first_row(
                    self.donations@,
                    told_by(message_id@),
                )],
                None => !table::any_row(self.donations@, told_by(message_id@)),
            },
    {
        let p = |d: &Donation| -> (b: bool)
            ensures
                b == told_by(message_id@)(d@),
            { same(d.message_id.as_str(), message_id) };
        match self.donations.find(p, Ghost(told_by(message_id@))) {
            Some(i) => Some(self.donations.get(i)),
            None => None,
        }
    }

    /// Replaces a donation.
    pub fn update_donation(&mut self, d: &Donation) -> (r: Result<(), Error>)
        requires
            old(self).wf(),
        ensures
            final(self).wf(),
            *final(self) == (ReferenceDb { donations: final(self).donations, ..*old(self) }),
            r == (if table::has_id::<Donation>(old(self).donations@, d.id@) {
                Ok::<(), Error>(())
            } else {
                Err::<(), Error>(Error::NotFound)
            }),
            books(*final(self)) == with_donation(books(*old(self)), d@),
    {
        let ghost f = |old_row: DonationView| d@;
        match self.donations.position(d.id.as_str()) {
            Some(i) => {
                self.donations.replace(i, d.dup(), Ghost(f));
                Ok(())
            },
            None => {
                proof {
                    table::lemma_mapped_none(
                        self.donations@,
                        table::with_id::<Donation>(d.id@),
                        f,
                    );
                }
                Err(Error::NotFound)
            },
        }
    }

    /// The donations that count for a user.
    pub fn fetch_donations_by_user(&self, user_id: &str) -> (r: Vec<Donation>)
        ensures
            table::row_views(r@) == self.donations@.filter(owned_by(user_id@)),
    {
        let p = |d: &Donation| -> (b: bool)
            ensures
                b == owned_by(user_id@)(d@),
            { is_text(&d.user, user_id) };
        self.donations.select(p, Ghost(owned_by(user_id@)))
    }

    /// Forgets a user whose account was deleted: the donations that count for the user
    /// lose the user and the payer, those that the user claimed lose the claimant.
    pub fn unlink_donations_by_user(&mut self, user_id: &str)
        requires
            old(self).wf(),
        ensures
            final(self).wf(),
            *final(self) == (ReferenceDb { donations: final(self).donations, ..*old(self) }),
            final(self).donations@ == table::each(old(self).donations@, unlinked(user_id@)),
    {
        proof {
            table::lemma_keyed_each::<Donation>(self.donations@, unlinked(user_id@));
        }
        let p = |d: &Donation| -> (r: Donation)
            ensures
                r@ == unlinked(user_id@)(d@),
            {
                let mut row = d.dup();
                if is_text(&d.user, user_id) {
                    row.user = None;
                    row.payer_hmac = None;
                }
                if is_text(&d.claimant, user_id) {
                    row.claimant = None;
                }
                row
            };
        self.donations.rewrite(p, Ghost(unlinked(user_id@)));
    }

    /// Forgets the payers of donations that nobody has claimed and that were stored
    /// before an instant; tells of how many.
    pub fn wipe_stale_payer_hmacs(&mut self, before_ms: i64) -> (r: u64)
        requires
            old(self).wf(),
        ensures
            final(self).wf(),
            *final(self) == (ReferenceDb { donations: final(self).donations, ..*old(self) }),
            final(self).donations@ == table::mapped(
                old(self).donations@,
                is_stale(before_ms),
                without_payer(),
            ),
            r == old(self).donations@.filter(is_stale(before_ms)).len(),
    {
        let ghost q = is_stale(before_ms);
        let ghost f = |d: DonationView|
            if is_stale(before_ms)(d) {
                without_payer()(d)
            } else {
                d
            };
        let p = |d: &Donation| -> (b: bool)
            ensures
                b == is_stale(before_ms)(d@),
            { stale(d, before_ms) };
        let count: usize = self.donations.count(p, Ghost(q));
        proof {
            table::lemma_keyed_mapped::<Donation>(self.donations@, q, without_payer());
            assert(table::each(self.donations@, f) =~= table::mapped(
                self.donations@,
                q,
                without_payer(),
            ));
        }
        let change = |d: &Donation| -> (r: Donation)
            ensures
                r@ == f(d@),
            {
                let mut row = d.dup();
                if stale(d, before_ms) {
                    row.payer_hmac = None;
                }
                row
            };
        self.donations.rewrite(change, Ghost(f));
        count as u64
    }

    /// Stores a claim code.
    pub fn insert_claim_code(&mut self, c: &DonationClaimCode) -> (r: Result<(), Error>)
        requires
            old(self).wf(),
        ensures
            final(self).wf(),
            *final(self) == (ReferenceDb {
                donation_claim_codes: final(self).donation_claim_codes,
                ..*old(self)
            }),
            if table::has_id::<DonationClaimCode>(old(self).donation_claim_codes@, c.code@) {
                r == Err::<(), Error>(
                    Error::DatabaseError {
                        operation: "insert",
                        collection: "donation_claim_code",
                    },
                ) && final(self).donation_claim_codes@ == old(self).donation_claim_codes@
            } else {
                r == Ok::<(), Error>(()) && final(self).donation_claim_codes@ == old(
                    self,
                ).donation_claim_codes@.push(c@)
            },
    {
        if self.donation_claim_codes.contains_id(c.code.as_str()) {
            return Err(
                Error::DatabaseError { operation: "insert", collection: "donation_claim_code" },
            );
        }
        proof {
            table::lemma_keyed_push::<DonationClaimCode>(self.donation_claim_codes@, c@);
        }
        self.donation_claim_codes.push(c.dup());
        Ok(())
    }

    /// A claim code.
    pub fn fetch_claim_code(&self, code: &str) -> (r: Option<DonationClaimCode>)
        ensures
            match r {
                Some(c) => table::has_id::<DonationClaimCode>(
                    self.donation_claim_codes@,
                    code@,
                ) && c@ == table::row_of::<DonationClaimCode>(
                    self.donation_claim_codes@,
                    code@,
                ) && c.code@ == code@,
                None => !table::has_id::<DonationClaimCode>(
                    self.donation_claim_codes@,
                    code@,
                ),
            },
    {
        self.donation_claim_codes.fetch(code)
    }

    /// The claim code of a user.
    pub fn fetch_claim_code_by_user(&self, user_id: &str) -> (r: Option<DonationClaimCode>)
        ensures
            match r {
                Some(c) => table::any_row(self.donation_claim_codes@, code_of(user_id@)) && c@
                    == self.donation_claim_codes@[table::first_row(
                    self.donation_claim_codes@,
                    code_of(user_id@),
                )],
                None => !table::any_row(self.donation_claim_codes@, code_of(user_id@)),
            },
    {
        let p = |c: &DonationClaimCode| -> (b: bool)
            ensures
                b == code_of(user_id@)(c@),
            { same(c.user.as_str(), user_id) };
        match self.donation_claim_codes.find(p, Ghost(code_of(user_id@))) {
            Some(i) => Some(self.donation_claim_codes.get(i)),
            None => None,
        }
    }

    /// Deletes a claim code.
    pub fn delete_claim_code(&mut self, code: &str) -> (r: Result<(), Error>)
        requires
            old(self).wf(),
        ensures
            final(self).wf(),
            *final(self) == (ReferenceDb {
                donation_claim_codes: final(self).donation_claim_codes,
                ..*old(self)
            }),
            r == (if table::has_id::<DonationClaimCode>(old(self).donation_claim_codes@, code@) {
                Ok::<(), Error>(())
            } else {
                Err::<(), Error>(Error::NotFound)
            }),
            final(self).donation_claim_codes@ == old(self).donation_claim_codes@.filter(
                table::without_id::<DonationClaimCode>(code@),
            ),
    {
        if self.donation_claim_codes.delete(code) {
            Ok(())
        } else {
            Err(Error::NotFound)
        }
    }

    /// Deletes the claim codes of a user.
    pub fn delete_claim_codes_by_user(&mut self, user_id: &str)
        requires
            old(self).wf(),
        ensures
            final(self).wf(),
            *final(self) == (ReferenceDb {
                donation_claim_codes: final(self).donation_claim_codes,
                ..*old(self)
            }),
            final(self).donation_claim_codes@ == old(self).donation_claim_codes@.filter(
                code_not_of(user_id@),
            ),
    {
        proof {
            table::lemma_keyed_filter::<DonationClaimCode>(
                self.donation_claim_codes@,
                code_not_of(user_id@),
            );
        }
        let p = |c: &DonationClaimCode| -> (b: bool)
            ensures
                b == code_not_of(user_id@)(c@),
            { !same(c.user.as_str(), user_id) };
        self.donation_claim_codes.retain(p, Ghost(code_not_of(user_id@)));
    }

    /// Deletes the claim codes that were made before an instant; tells how many.
    pub fn delete_expired_claim_codes(&mut self, before_ms: i64) -> (r: u64)
        requires
            old(self).wf(),
        ensures
            final(self).wf(),
            *final(self) == (ReferenceDb {
                donation_claim_codes: final(self).donation_claim_codes,
                ..*old(self)
            }),
            final(self).donation_claim_codes@ == old(self).donation_claim_codes@.filter(
                made_since(before_ms),
            ),
            r == old(self).donation_claim_codes@.len() - final(self).donation_claim_codes@.len(),
    {
        proof {
            table::lemma_keyed_filter::<DonationClaimCode>(
                self.donation_claim_codes@,
                made_since(before_ms),
            );
            self.donation_claim_codes@.filter_lemma(made_since(before_ms));
        }
        let before: usize = self.donation_claim_codes.len();
        let p = |c: &DonationClaimCode| -> (b: bool)
            ensures
                b == made_since(before_ms)(c@),
            { c.created_at >= before_ms };
        self.donation_claim_codes.retain(p, Ghost(made_since(before_ms)));
        (before - self.donation_claim_codes.len()) as u64
    }

    /// Stores an account.
    pub fn insert_account(&mut self, a: &Account) -> (r: Result<(), Error>)
        requires
            old(self).wf(),
        ensures
            final(self).wf(),
            *final(self) == (ReferenceDb { accounts: final(self).accounts, ..*old(self) }),
            if table::has_id::<Account>(old(self).accounts@, a.id@) {
                r == Err::<(), Error>(
                    Error::DatabaseError { operation: "insert", collection: "user" },
                ) && final(self).accounts@ == old(self).accounts@
            } else {
                r == Ok::<(), Error>(()) && final(self).accounts@ == old(self).accounts@.push(a@)
            },
    {
        if self.accounts.contains_id(a.id.as_str()) {
            return Err(Error::DatabaseError { operation: "insert", collection: "user" });
        }
        proof {
            table::lemma_keyed_push::<Account>(self.accounts@, a@);
        }
        self.accounts.push(a.dup());
        Ok(())
    }

    /// An account, unless it was deleted.
    pub fn fetch_live_user(&self, user_id: &str) -> (r: Option<Account>)
        ensures
            match r {
                Some(a) => live(self.accounts@, user_id@) && a@ == table::row_of::<Account>(
                    self.accounts@,
                    user_id@,
                ) && a.id@ == user_id@,
                None => !live(self.accounts@, user_id@),
            },
    {
        match self.accounts.fetch(user_id) {
            Some(a) => if a.deleted {
                None
            } else {
                Some(a)
            },
            None => None,
        }
    }

    /// The account that has what stands for an address.
    pub fn fetch_user_by_payer_hmac(&self, hmac: &str) -> (r: Option<Account>)
        ensures
            match r {
                Some(a) => table::any_row(self.accounts@, holds(hmac@)) && a@
                    == self.accounts@[table::first_row(self.accounts@, holds(hmac@))],
                None => !table::any_row(self.accounts@, holds(hmac@)),
            },
    {
        let p = |a: &Account| -> (b: bool)
            ensures
                b == holds(hmac@)(a@),
            { has_hmac(a, hmac) };
        match self.accounts.find(p, Ghost(holds(hmac@))) {
            Some(i) => Some(self.accounts.get(i)),
            None => None,
        }
    }

    fn live_holder_of(&self, hmac: &Option<String>) -> (r: Option<String>)
        ensures
            text::opt_text(r) == live_holder(self.accounts@, text::opt_text(*hmac)),
    {
        match hmac {
            Some(hmac) => match self.fetch_user_by_payer_hmac(hmac.as_str()) {
                Some(a) => if a.deleted {
                    None
                } else {
                    Some(a.id)
                },
                None => None,
            },
            None => None,
        }
    }

    /// Gives a user what stands for an address, and takes it from all others; tells who
    /// lost it.
    pub fn claim_payer_hmac(&mut self, user_id: &str, hmac: &str) -> (r: Vec<String>)
        requires
            old(self).wf(),
        ensures
            final(self).wf(),
            *final(self) == (ReferenceDb { accounts: final(self).accounts, ..*old(self) }),
            final(self).accounts@ == table::each(
                old(self).accounts@,
                hmac_moved(user_id@, hmac@),
            ),
            text::texts(r@) == account_ids(old(self).accounts@.filter(loses(user_id@, hmac@))),
    {
        let ghost q = loses(user_id@, hmac@);
        let p = |a: &Account| -> (b: bool)
            ensures
                b == loses(user_id@, hmac@)(a@),
            { !same(a.id.as_str(), user_id) && has_hmac(a, hmac) };
        let rows = self.accounts.select(p, Ghost(q));
        let mut out: Vec<String> = Vec::new();
        let ghost all = account_ids(self.accounts@.filter(q));
        let mut i: usize = 0;
        assert(text::texts(out@) =~= all.take(0));
        while i < rows.len()
            invariant
                i <= rows.len(),
                all == account_ids(table::row_views(rows@)),
                text::texts(out@) == all.take(i as int),
            decreases rows.len() - i,
        {
            let ghost before = text::texts(out@);
            out.push(rows[i].id.clone());
            assert(table::row_views(rows@)[i as int] == rows@[i as int]@);
            assert(text::texts(out@) =~= before.push(all[i as int]));
            assert(all.take(i + 1) =~= all.take(i as int).push(all[i as int]));
            i = i + 1;
        }
        assert(all.take(i as int) =~= all);
        proof {
            table::lemma_keyed_each::<Account>(self.accounts@, hmac_moved(user_id@, hmac@));
        }
        let change = |a: &Account| -> (r: Account)
            ensures
                r@ == hmac_moved(user_id@, hmac@)(a@),
            { move_hmac(a, user_id, hmac) };
        self.accounts.rewrite(change, Ghost(hmac_moved(user_id@, hmac@)));
        out
    }

    /// Sets the totals of a user.
    pub fn set_supporter_totals(&mut self, user_id: &str, cents: i64, until: Option<i64>)
        requires
            old(self).wf(),
        ensures
            final(self).wf(),
            *final(self) == (ReferenceDb { accounts: final(self).accounts, ..*old(self) }),
            final(self).accounts@ == table::mapped(
                old(self).accounts@,
                table::with_id::<Account>(user_id@),
                with_totals(cents, until),
            ),
    {
        let ghost f = with_totals(cents, until);
        match self.accounts.position(user_id) {
            Some(i) => {
                let mut account = self.accounts.get(i);
                let mut supporter = supporter_or_new(&account);
                supporter.lifetime_usd_cents = cents;
                supporter.monthly_until = until;
                account.supporter = Some(supporter);
                self.accounts.replace(i, account, Ghost(f));
            },
            None => {
                proof {
                    table::lemma_mapped_none(
                        self.accounts@,
                        table::with_id::<Account>(user_id@),
                        f,
                    );
                }
            },
        }
    }
}

fn stale(d: &Donation, before_ms: i64) -> (r: bool)
    ensures
        r == is_stale(before_ms)(d@),
{
    let open: bool = match d.state {
        DonationState::Unclaimed => true,
        DonationState::NeedsReview => true,
        _ => false,
    };
    let old_enough: bool = match d.stored_at {
        Some(at) => at < before_ms,
        None => d.timestamp < before_ms,
    };
    open && old_enough && d.payer_hmac.is_some()
}

fn has_hmac(a: &Account, hmac: &str) -> (r: bool)
    ensures
        r == holds(hmac@)(a@),
{
    match &a.supporter {
        Some(s) => contains_text(&s.payer_hmacs, hmac),
        None => false,
    }
}

fn supporter_or_new(a: &Account) -> (r: Supporter)
    ensures
        r@ == supporter_of(a@),
{
    match &a.supporter {
        Some(s) => s.dup(),
        None => {
            let r = Supporter {
                lifetime_usd_cents: 0,
                monthly_until: None,
                payer_hmacs: Vec::new(),
                show_badges: true,
            };
            assert(text::texts(r.payer_hmacs@) =~= Seq::<Seq<char>>::empty());
            r
        },
    }
}

fn without_text(list: &Vec<String>, s: &str) -> (r: Vec<String>)
    ensures
        text::texts(r@) == text::texts(list@).filter(|h: Seq<char>| h != s@),
{
    let ghost all = text::texts(list@);
    let ghost q = |h: Seq<char>| h != s@;
    let mut out: Vec<String> = Vec::new();
    let mut i: usize = 0;
    proof {
        reveal(Seq::filter);
        assert(text::texts(out@) =~= all.take(0).filter(q));
    }
    while i < list.len()
        invariant
            i <= list.len(),
            all == text::texts(list@),
            q == (|h: Seq<char>| h != s@),
            text::texts(out@) == all.take(i as int).filter(q),
        decreases list.len() - i,
    {
        proof {
            table::lemma_filter_take(all, q, i as int);
        }
        if !same(list[i].as_str(), s) {
            let ghost before = text::texts(out@);
            out.push(list[i].clone());
            assert(text::texts(out@) =~= before.push(all[i as int]));
        }
        i = i + 1;
    }
    assert(all.take(i as int) =~= all);
    out
}

fn move_hmac(a: &Account, user_id: &str, hmac: &str) -> (r: Account)
    ensures
        r@ == hmac_moved(user_id@, hmac@)(a@),
{
    let mut account = a.dup();
    if same(a.id.as_str(), user_id) {
        let mut supporter = supporter_or_new(a);
        if !contains_text(&supporter.payer_hmacs, hmac) {
            let ghost before = text::texts(supporter.payer_hmacs@);
            supporter.payer_hmacs.push(hmac.to_owned());
            assert(text::texts(supporter.payer_hmacs@) =~= before.push(hmac@));
        }
        account.supporter = Some(supporter);
    } else {
        account.supporter = match &a.supporter {
            Some(s) => {
                let mut supporter = s.dup();
                supporter.payer_hmacs = without_text(&s.payer_hmacs, hmac);
                Some(supporter)
            },
            None => None,
        };
    }
    account
}

/// Whether what stands for an address may be taken from another user.
#[derive(Clone, Copy, Debug, PartialEq, Eq)]
pub enum HmacClaim {
    /// The user gets it, whoever had it.
    Take,
    /// The user gets it where no other user has it.
    IfUnheld,
}

fn capped(a: i64, b: i64) -> (r: i64)
    ensures
        r == capped_sum(a, b),
{
    let sum: i128 = a as i128 + b as i128;
    if sum > i64::MAX as i128 {
        i64::MAX
    } else if sum < i64::MIN as i128 {
        i64::MIN
    } else {
        sum as i64
    }
}

impl Donation {
    /// Computes the totals of a user anew; tells whether they changed.
    pub fn recompute_supporter(db: &mut ReferenceDb, user_id: &str, grace_days: u32) -> (r: bool)
        requires
            old(db).wf(),
        ensures
            final(db).wf(),
            elsewhere_same(*old(db), *final(db)),
            books(*final(db)) == recomputed(books(*old(db)), user_id@, grace_days),
            r == (live(old(db).accounts@, user_id@) && totals_differ(
                table::row_of::<Account>(old(db).accounts@, user_id@),
                lifetime(counted_for(old(db).donations@, user_id@)),
                monthly_until(old(db).donations@, user_id@, grace_days),
            )),
    {
        let user = match db.fetch_live_user(user_id) {
            Some(user) => user,
            None => {
                return false;
            },
        };
        let owned = Table { rows: db.fetch_donations_by_user(user_id) };
        let p = |d: &Donation| -> (b: bool)
            ensures
                b == is_claimed()(d@),
            {
                match d.state {
                    DonationState::Claimed => true,
                    _ => false,
                }
            };
        let rows = owned.select(p, Ghost(is_claimed()));
        let ghost all = counted_for(db.donations@, user_id@);
        let mut cents: i64 = 0;
        let mut last: Option<i64> = None;
        let mut i: usize = 0;
        assert(all.take(0).len() == 0);
        while i < rows.len()
            invariant
                i <= rows.len(),
                all == table::row_views(rows@),
                cents == lifetime(all.take(i as int)),
                last == last_membership(all.take(i as int)),
            decreases rows.len() - i,
        {
            assert(all.take(i + 1).drop_last() =~= all.take(i as int));
            assert(all.take(i + 1).last() == rows@[i as int]@);
            cents = capped(cents, counted_usd_cents(&rows[i]));
            if rows[i].is_subscription {
                last = match last {
                    Some(at) => if at >= rows[i].timestamp {
                        Some(at)
                    } else {
                        Some(rows[i].timestamp)
                    },
                    None => Some(rows[i].timestamp),
                };
            }
            i = i + 1;
        }
        assert(all.take(i as int) =~= all);
        let until: Option<i64> = match last {
            Some(at) => Some(capped(at, grace_days as i64 * clock::DAY_MS)),
            None => None,
        };
        let known = supporter_or_new(&user);
        let same_until: bool = match (known.monthly_until, until) {
            (Some(a), Some(b)) => a == b,
            (None, None) => true,
            _ => false,
        };
        if known.lifetime_usd_cents == cents && same_until {
            return false;
        }
        db.set_supporter_totals(user_id, cents, until);
        true
    }

    /// What a claimed donation brings about; who lost what stands for the address of the
    /// payer.
    pub fn apply_claim(&self, db: &mut ReferenceDb, hmac_claim: HmacClaim, grace_days: u32) -> (r: Vec<
        String,
    >)
        requires
            old(db).wf(),
        ensures
            final(db).wf(),
            elsewhere_same(*old(db), *final(db)),
            books(*final(db)) == claim_applied(
                books(*old(db)),
                self@,
                hmac_claim is Take,
                grace_days,
            ),
            text::texts(r@) == losers(books(*old(db)), self@, hmac_claim is Take),
    {
        let none: Vec<String> = Vec::new();
        assert(text::texts(none@) =~= Seq::<Seq<char>>::empty());
        match self.state {
            DonationState::Claimed => {},
            _ => {
                return none;
            },
        }
        let user_id = match &self.user {
            Some(user_id) => user_id,
            None => {
                return none;
            },
        };
        if db.fetch_live_user(user_id.as_str()).is_none() {
            return none;
        }
        let ghost first = books(*db);
        let take: bool = match hmac_claim {
            HmacClaim::Take => true,
            HmacClaim::IfUnheld => false,
        };
        let lost: Vec<String> = match &self.payer_hmac {
            Some(hmac) => {
                let held_elsewhere: bool = match db.fetch_user_by_payer_hmac(hmac.as_str()) {
                    Some(holder) => !take && !same(holder.id.as_str(), user_id.as_str()),
                    None => false,
                };
                if held_elsewhere {
                    none
                } else {
                    db.claim_payer_hmac(user_id.as_str(), hmac.as_str())
                }
            },
            None => none,
        };
        let ghost moved = books(*db);
        let ghost all = text::texts(lost@);
        let mut i: usize = 0;
        assert(all.take(0).len() == 0);
        while i < lost.len()
            invariant
                i <= lost.len(),
                all == text::texts(lost@),
                db.wf(),
                elsewhere_same(*old(db), *db),
                books(*db) == all_recomputed(moved, all.take(i as int), grace_days),
            decreases lost.len() - i,
        {
            assert(all.take(i + 1).drop_last() =~= all.take(i as int));
            assert(all.take(i + 1).last() == lost@[i as int]@);
            Donation::recompute_supporter(db, lost[i].as_str(), grace_days);
            i = i + 1;
        }
        assert(all.take(i as int) =~= all);
        Donation::recompute_supporter(db, user_id.as_str(), grace_days);
        lost
    }

    /// Stores what a message told of a payment, at an instant: matched to an account
    /// where it can be.
    pub fn ingest_at(
        db: &mut ReferenceDb,
        payload: &KofiPayload,
        hmac_key: &str,
        now: i64,
        stored_at: i64,
        grace_days: u32,
    ) -> (r: Donation)
        requires
            old(db).wf(),
        ensures
            final(db).wf(),
            elsewhere_same(*old(db), *final(db)),
            (books(*final(db)), r@) == ingested(
                books(*old(db)),
                *payload,
                hmac_key@,
                now,
                stored_at,
                grace_days,
            ),
    {
        let ghost b = books(*db);
        match db.fetch_donation_by_message_id(payload.message_id.as_str()) {
            Some(existing) => {
                existing.apply_claim(db, HmacClaim::IfUnheld, grace_days);
                return existing;
            },
            None => {},
        }
        let payer: Option<String> = match &payload.email {
            Some(email) => keyed_payer_hmac(hmac_key, email.as_str()),
            None => None,
        };
        let amount_cents: Option<i64> = parse_amount_cents(payload.amount.as_str());
        assert(amount_cents == amount_of(*payload));
        let trimmed = trim(payload.currency.as_str());
        let currency = to_upper_case(trimmed.as_str());
        let review: bool = !same(currency.as_str(), "USD") || amount_cents.is_none();
        let code: Option<DonationClaimCode> = match &payload.message {
            Some(message) => match find_claim_code(message.as_str()) {
                Some(code) => db.live_claim_code(code.as_str(), now),
                None => None,
            },
            None => None,
        };
        let ghost live = live_code(b.codes, text::opt_text(payload.message), now);
        assert(table::opt_view(code) == live);
        let owner_of_code: Option<String> = match &code {
            Some(code) => match db.fetch_live_user(code.user.as_str()) {
                Some(user) => Some(user.id),
                None => None,
            },
            None => None,
        };
        let by_code: bool = owner_of_code.is_some();
        let who: Option<String> = match owner_of_code {
            Some(user) => Some(user),
            None => db.live_holder_of(&payer),
        };
        assert(text::opt_text(who) == suspect(b, *payload, hmac_key@, now));
        let state = if review {
            DonationState::NeedsReview
        } else if who.is_some() {
            DonationState::Claimed
        } else {
            DonationState::Unclaimed
        };
        let claimed_at: Option<i64> = if !review && who.is_some() {
            Some(now)
        } else {
            None
        };
        let (user, claimant): (Option<String>, Option<String>) = if review {
            (None, who)
        } else {
            (who, None)
        };
        let donation = Donation {
            id: payload.kofi_transaction_id.clone(),
            message_id: payload.message_id.clone(),
            kind: payload.kind.clone(),
            amount_cents: match amount_cents {
                Some(cents) => cents,
                None => 0,
            },
            currency,
            usd_cents_override: None,
            is_subscription: payload.is_subscription_payment,
            tier_name: copy_opt(&payload.tier_name),
            timestamp: match parse_timestamp_ms(payload.timestamp.as_str()) {
                Some(at) => at,
                None => now,
            },
            stored_at: Some(stored_at),
            user,
            claimed_at,
            payer_hmac: payer,
            claimant,
            state,
        };
        assert(donation@ == donation_of(b, *payload, hmac_key@, now, stored_at));
        let consumed: Option<DonationClaimCode> = match code {
            Some(code) => {
                if !review && by_code {
                    let _ = db.delete_claim_code(code.code.as_str());
                    Some(code)
                } else {
                    None
                }
            },
            None => None,
        };
        assert(consumed is Some == uses_code(b, *payload, now));
        if !db.insert_donation_if_absent(&donation) {
            if let Some(code) = &consumed {
                proof {
                    table::lemma_id_gone::<DonationClaimCode>(b.codes, code.code@);
                }
                let _ = db.insert_claim_code(code);
            }
            let stored = db.fetch_donation(donation.id.as_str());
            return stored.unwrap();
        }
        donation.apply_claim(db, HmacClaim::Take, grace_days);
        donation
    }

    /// Stores what a message told of a payment: matched to an account where it can be.
    pub fn ingest(
        db: &mut ReferenceDb,
        payload: &KofiPayload,
        hmac_key: &str,
        grace_days: u32,
    ) -> (r: Donation)
        requires
            old(db).wf(),
        ensures
            final(db).wf(),
            elsewhere_same(*old(db), *final(db)),
            exists|now: i64, stored_at: i64|
                (books(*final(db)), r@) == #[trigger] ingested(
                    books(*old(db)),
                    *payload,
                    hmac_key@,
                    now,
                    stored_at,
                    grace_days,
                ),
    {
        let now: i64 = now_ms();
        let stored_at: i64 = now_ms();
        let r = Donation::ingest_at(db, payload, hmac_key, now, stored_at, grace_days);
        r
    }

    /// A user claims a transaction, at an instant, by the address of the account.
    pub fn claim_by_transaction_at(
        db: &mut ReferenceDb,
        user_id: &str,
        account_email: &str,
        transaction_id: &str,
        hmac_key: &str,
        now: i64,
        grace_days: u32,
    ) -> (r: Result<ClaimOutcome, Error>)
        requires
            old(db).wf(),
        ensures
            final(db).wf(),
            elsewhere_same(*old(db), *final(db)),
            (books(*final(db)), r) == claimed_transaction(
                books(*old(db)),
                user_id@,
                account_email@,
                transaction_id@,
                hmac_key@,
                now,
                grace_days,
            ),
    {
        let id = trim(transaction_id);
        let mut donation = match db.fetch_donation(id.as_str()) {
            Some(donation) => donation,
            None => {
                return Err(Error::NotFound);
            },
        };
        let in_review: bool = match donation.state {
            DonationState::Unclaimed => false,
            DonationState::NeedsReview => true,
            _ => {
                return Err(Error::InvalidClaim);
            },
        };
        let expected = keyed_payer_hmac(hmac_key, account_email);
        let email_matches: bool = match (&donation.payer_hmac, &expected) {
            (Some(stored), Some(expected)) => {
                proof {
                    text::lemma_bytes_determine_text(stored@, expected@);
                }
                same_bytes(stored.as_str().as_bytes(), expected.as_str().as_bytes())
            },
            _ => false,
        };
        let countable: bool = donation.usd_cents_override.is_some() || (same(
            donation.currency.as_str(),
            "USD",
        ) && donation.amount_cents > 0);
        if email_matches && in_review && !countable {
            if donation.claimant.is_none() {
                donation.claimant = Some(user_id.to_owned());
                let _ = db.update_donation(&donation);
            }
            Ok(ClaimOutcome::NeedsReview)
        } else if email_matches {
            donation.state = DonationState::Claimed;
            donation.user = Some(user_id.to_owned());
            donation.claimed_at = Some(now);
            donation.claimant = None;
            let _ = db.update_donation(&donation);
            donation.apply_claim(db, HmacClaim::Take, grace_days);
            Ok(ClaimOutcome::Claimed)
        } else if in_review {
            Err(Error::InvalidClaim)
        } else {
            donation.state = DonationState::NeedsReview;
            donation.claimant = Some(user_id.to_owned());
            let _ = db.update_donation(&donation);
            Ok(ClaimOutcome::NeedsReview)
        }
    }

    /// A user claims a transaction by the address of the account.
    pub fn claim_by_transaction(
        db: &mut ReferenceDb,
        user_id: &str,
        account_email: &str,
        transaction_id: &str,
        hmac_key: &str,
        grace_days: u32,
    ) -> (r: Result<ClaimOutcome, Error>)
        requires
            old(db).wf(),
        ensures
            final(db).wf(),
            elsewhere_same(*old(db), *final(db)),
            exists|now: i64|
                (books(*final(db)), r) == #[trigger] claimed_transaction(
                    books(*old(db)),
                    user_id@,
                    account_email@,
                    transaction_id@,
                    hmac_key@,
                    now,
                    grace_days,
                ),
    {
        let now: i64 = now_ms();
        Donation::claim_by_transaction_at(
            db,
            user_id,
            account_email,
            transaction_id,
            hmac_key,
            now,
            grace_days,
        )
    }

    /// Assigns a donation to a user by hand, at an instant, whatever its state.
    pub fn assign_at(
        db: &mut ReferenceDb,
        transaction_id: &str,
        user_id: &str,
        usd_cents: Option<i64>,
        now: i64,
        grace_days: u32,
    ) -> (r: Result<(), Error>)
        requires
            old(db).wf(),
        ensures
            final(db).wf(),
            elsewhere_same(*old(db), *final(db)),
            (books(*final(db)), r) == assigned(
                books(*old(db)),
                transaction_id@,
                user_id@,
                usd_cents,
                now,
                grace_days,
            ),
    {
        if let Some(cents) = usd_cents {
            if cents < 1 {
                return Err(Error::InvalidOperation);
            }
        }
        let mut donation = match db.fetch_donation(transaction_id) {
            Some(donation) => donation,
            None => {
                return Err(Error::NotFound);
            },
        };
        if db.fetch_live_user(user_id).is_none() {
            return Err(Error::NotFound);
        }
        let previous = copy_opt(&donation.user);
        donation.user = Some(user_id.to_owned());
        donation.state = DonationState::Claimed;
        donation.claimed_at = Some(now);
        donation.claimant = None;
        if usd_cents.is_some() {
            donation.usd_cents_override = usd_cents;
        }
        let _ = db.update_donation(&donation);
        let lost = donation.apply_claim(db, HmacClaim::Take, grace_days);
        if let Some(previous) = previous {
            if !same(previous.as_str(), user_id) && !contains_text(&lost, previous.as_str()) {
                Donation::recompute_supporter(db, previous.as_str(), grace_days);
            }
        }
        Ok(())
    }

    /// Assigns a donation to a user by hand, whatever its state.
    pub fn assign(
        db: &mut ReferenceDb,
        transaction_id: &str,
        user_id: &str,
        usd_cents: Option<i64>,
        grace_days: u32,
    ) -> (r: Result<(), Error>)
        requires
            old(db).wf(),
        ensures
            final(db).wf(),
            elsewhere_same(*old(db), *final(db)),
            exists|now: i64|
                (books(*final(db)), r) == #[trigger] assigned(
                    books(*old(db)),
                    transaction_id@,
                    user_id@,
                    usd_cents,
                    now,
                    grace_days,
                ),
    {
        let now: i64 = now_ms();
        Donation::assign_at(db, transaction_id, user_id, usd_cents, now, grace_days)
    }

    /// Notes that a donation was refunded.
    pub fn revoke(db: &mut ReferenceDb, transaction_id: &str, grace_days: u32) -> (r: Result<
        (),
        Error,
    >)
        requires
            old(db).wf(),
        ensures
            final(db).wf(),
            elsewhere_same(*old(db), *final(db)),
            (books(*final(db)), r) == revoked(books(*old(db)), transaction_id@, grace_days),
    {
        let mut donation = match db.fetch_donation(transaction_id) {
            Some(donation) => donation,
            None => {
                return Err(Error::NotFound);
            },
        };
        donation.state = DonationState::Revoked;
        if donation.user.is_none() {
            donation.payer_hmac = None;
        }
        let _ = db.update_donation(&donation);
        if let Some(user) = &donation.user {
            Donation::recompute_supporter(db, user.as_str(), grace_days);
        }
        Ok(())
    }
}

impl ReferenceDb {
    fn live_claim_code(&self, code: &str, now: i64) -> (r: Option<DonationClaimCode>)
        ensures
            table::opt_view(r) == if table::has_id::<DonationClaimCode>(
                self.donation_claim_codes@,
                code@,
            ) && now - table::row_of::<DonationClaimCode>(
                self.donation_claim_codes@,
                code@,
            ).created_at < donations::CLAIM_CODE_TTL_DAYS * clock::DAY_MS {
                Some(table::row_of::<DonationClaimCode>(self.donation_claim_codes@, code@))
            } else {
                None
            },
            r matches Some(c) ==> c.code@ == code@,
    {
        match self.fetch_claim_code(code) {
            Some(c) => {
                let age: i128 = now as i128 - c.created_at as i128;
                if age < (donations::CLAIM_CODE_TTL_DAYS * clock::DAY_MS) as i128 {
                    Some(c)
                } else {
                    None
                }
            },
            None => None,
        }
    }
}

/// What stands for an address belongs to one account at most: once a user got it, no
/// other account has it.
pub proof fn law_payer_belongs_to_one_account(
    accounts: Seq<AccountView>,
    user: Seq<char>,
    hmac: Seq<char>,
    a: AccountView,
)
    requires
        table::each(accounts, hmac_moved(user, hmac)).contains(a),
        holds(hmac)(a),
    ensures
        a.id == user,
{
    let after = table::each(accounts, hmac_moved(user, hmac));
    let i = choose|i: int| 0 <= i < after.len() && after[i] == a;
    let before = accounts[i];
    if before.id != user {
        let kept = before.supporter->Some_0.payer_hmacs;
        table::lemma_filter_members(kept, other_than(hmac), hmac);
    }
}

pub(crate) proof fn lemma_recomputing_keeps_donations(b: Books, users: Seq<Seq<char>>, grace_days: u32)
    ensures
        all_recomputed(b, users, grace_days).donations == b.donations,
        all_recomputed(b, users, grace_days).codes == b.codes,
    decreases users.len(),
{
    if users.len() > 0 {
        lemma_recomputing_keeps_donations(b, users.drop_last(), grace_days);
    }
}

pub(crate) proof fn lemma_claim_keeps_donations(b: Books, d: DonationView, take: bool, grace_days: u32)
    ensures
        claim_applied(b, d, take, grace_days).donations == b.donations,
        claim_applied(b, d, take, grace_days).codes == b.codes,
{
    if takes_effect(b, d) {
        let moved = if moves_hmac(b, d, take) {
            Books {
                accounts: table::each(
                    b.accounts,
                    hmac_moved(d.user->Some_0, d.payer_hmac->Some_0),
                ),
                ..b
            }
        } else {
            b
        };
        lemma_recomputing_keeps_donations(moved, losers(b, d, take), grace_days);
    }
}

/// A message that was told before stores nothing and uses no code; what comes back is
/// what was stored.
pub proof fn law_repeated_message_stores_nothing(
    b: Books,
    payload: KofiPayload,
    key: Seq<char>,
    now: i64,
    stored_at: i64,
    grace_days: u32,
)
    requires
        table::any_row(b.donations, told_by(payload.message_id@)),
    ensures
        ({
            let r = ingested(b, payload, key, now, stored_at, grace_days);
            r.0.donations == b.donations && r.0.codes == b.codes && b.donations.contains(r.1)
        }),
{
    let q = told_by(payload.message_id@);
    table::lemma_first_row_matches(b.donations, q);
    let existing = b.donations[table::first_row(b.donations, q)];
    lemma_claim_keeps_donations(b, existing, false, grace_days);
}

pub(crate) proof fn lemma_recomputing_keeps_holders(
    b: Books,
    users: Seq<Seq<char>>,
    grace_days: u32,
    i: int,
    hmac: Seq<char>,
)
    requires
        0 <= i < b.accounts.len(),
    ensures
        all_recomputed(b, users, grace_days).accounts.len() == b.accounts.len(),
        all_recomputed(b, users, grace_days).accounts[i].id == b.accounts[i].id,
        holds(hmac)(all_recomputed(b, users, grace_days).accounts[i]) == holds(hmac)(
            b.accounts[i],
        ),
    decreases users.len(),
{
    if users.len() > 0 {
        lemma_recomputing_keeps_holders(b, users.drop_last(), grace_days, i, hmac);
    }
}

/// Whether at most one account has what stands for an address.
pub open spec fn held_once(accounts: Seq<AccountView>, hmac: Seq<char>) -> bool {
    forall|i: int, j: int|
        0 <= i < accounts.len() && 0 <= j < accounts.len() && holds(hmac)(#[trigger] accounts[i])
            && holds(hmac)(#[trigger] accounts[j]) ==> i == j
}

/// Where at most one account has what stands for an address, that stays so when a claim
/// takes effect.
pub proof fn law_addresses_stay_held_once(
    b: Books,
    d: DonationView,
    take: bool,
    grace_days: u32,
    hmac: Seq<char>,
)
    requires
        table::keyed::<Account>(b.accounts),
        held_once(b.accounts, hmac),
    ensures
        held_once(claim_applied(b, d, take, grace_days).accounts, hmac),
{
    if takes_effect(b, d) {
        let user = d.user->Some_0;
        let moves = moves_hmac(b, d, take);
        let moved = if moves {
            Books {
                accounts: table::each(b.accounts, hmac_moved(user, d.payer_hmac->Some_0)),
                ..b
            }
        } else {
            b
        };
        if moves {
            lemma_moving_holds_once(b.accounts, user, d.payer_hmac->Some_0, hmac);
        }
        let users = losers(b, d, take).push(user);
        assert(users.drop_last() =~= losers(b, d, take));
        let after = all_recomputed(moved, users, grace_days).accounts;
        if b.accounts.len() > 0 {
            lemma_recomputing_keeps_holders(moved, users, grace_days, 0, hmac);
        } else {
            lemma_recomputing_keeps_length(moved, users, grace_days);
        }
        assert forall|i: int, j: int|
            0 <= i < after.len() && 0 <= j < after.len() && holds(hmac)(#[trigger] after[i])
                && holds(hmac)(#[trigger] after[j]) implies i == j by {
            lemma_recomputing_keeps_holders(moved, users, grace_days, i, hmac);
            lemma_recomputing_keeps_holders(moved, users, grace_days, j, hmac);
            assert(holds(hmac)(moved.accounts[i]) && holds(hmac)(moved.accounts[j]));
        }
    }
}

proof fn lemma_recomputing_keeps_length(b: Books, users: Seq<Seq<char>>, grace_days: u32)
    ensures
        all_recomputed(b, users, grace_days).accounts.len() == b.accounts.len(),
    decreases users.len(),
{
    if users.len() > 0 {
        lemma_recomputing_keeps_length(b, users.drop_last(), grace_days);
    }
}

proof fn lemma_moving_holds_once(
    accounts: Seq<AccountView>,
    user: Seq<char>,
    payer: Seq<char>,
    hmac: Seq<char>,
)
    requires
        table::keyed::<Account>(accounts),
        held_once(accounts, hmac),
    ensures
        held_once(table::each(accounts, hmac_moved(user, payer)), hmac),
{
    let after = table::each(accounts, hmac_moved(user, payer));
    assert forall|i: int, j: int|
        0 <= i < after.len() && 0 <= j < after.len() && holds(hmac)(#[trigger] after[i])
            && holds(hmac)(#[trigger] after[j]) implies i == j by {
        assert(after.contains(after[i]) && after.contains(after[j]));
        if hmac == payer {
            law_payer_belongs_to_one_account(accounts, user, hmac, after[i]);
            law_payer_belongs_to_one_account(accounts, user, hmac, after[j]);
            table::lemma_keyed_row::<Account>(accounts, user, i);
        } else {
            lemma_other_addresses_stay(accounts[i], user, payer, hmac);
            lemma_other_addresses_stay(accounts[j], user, payer, hmac);
        }
    }
}

proof fn lemma_other_addresses_stay(
    a: AccountView,
    user: Seq<char>,
    payer: Seq<char>,
    hmac: Seq<char>,
)
    requires
        hmac != payer,
        holds(hmac)(hmac_moved(user, payer)(a)),
    ensures
        holds(hmac)(a),
{
    if a.id == user {
        let list = supporter_of(a).payer_hmacs;
        let after = hmac_moved(user, payer)(a).supporter->Some_0.payer_hmacs;
        let at = choose|at: int| 0 <= at < after.len() && after[at] == hmac;
        assert(at < list.len()) by {
            if !list.contains(payer) && at == list.len() {
                assert(after == list.push(payer));
            }
        }
        assert(list[at] == hmac);
        assert(list.contains(hmac));
        assert(a.supporter is Some);
    } else {
        assert(a.supporter is Some) by {
            if a.supporter is None {
                assert(hmac_moved(user, payer)(a) == a);
            }
        }
        let kept = a.supporter->Some_0.payer_hmacs.filter(other_than(payer));
        assert(hmac_moved(user, payer)(a).supporter->Some_0.payer_hmacs == kept);
        table::lemma_filter_members(
            a.supporter->Some_0.payer_hmacs,
            other_than(payer),
            hmac,
        );
        assert(kept.contains(hmac));
    }
}

/// A message that was told before takes what stands for an address from nobody: whoever
/// has it keeps it. (What stands for the address of its payer belongs to one account at
/// most, as it is moved and not copied.)
pub proof fn law_repeated_message_takes_from_nobody(
    b: Books,
    payload: KofiPayload,
    key: Seq<char>,
    now: i64,
    stored_at: i64,
    grace_days: u32,
    i: int,
    hmac: Seq<char>,
)
    requires
        table::any_row(b.donations, told_by(payload.message_id@)),
        ({
            let d = b.donations[table::first_row(b.donations, told_by(payload.message_id@))];
            d.payer_hmac is Some ==> held_once(b.accounts, d.payer_hmac->Some_0)
        }),
        0 <= i < b.accounts.len(),
        holds(hmac)(b.accounts[i]),
    ensures
        ({
            let after = ingested(b, payload, key, now, stored_at, grace_days).0.accounts;
            &&& after.len() == b.accounts.len()
            &&& after[i].id == b.accounts[i].id
            &&& holds(hmac)(after[i])
        }),
{
    let d = b.donations[table::first_row(b.donations, told_by(payload.message_id@))];
    if takes_effect(b, d) {
        let user = d.user->Some_0;
        let moves = moves_hmac(b, d, false);
        let moved = if moves {
            Books {
                accounts: table::each(b.accounts, hmac_moved(user, d.payer_hmac->Some_0)),
                ..b
            }
        } else {
            b
        };
        if moves {
            let payer = d.payer_hmac->Some_0;
            let a = b.accounts[i];
            if a.id == user {
                let list = supporter_of(a).payer_hmacs;
                if !list.contains(payer) {
                    let at = choose|at: int| 0 <= at < list.len() && list[at] == hmac;
                    assert(list.push(payer)[at] == hmac);
                }
            } else {
                if hmac == payer {
                    assert(table::any_row(b.accounts, holds(payer)));
                    table::lemma_first_row_matches(b.accounts, holds(payer));
                    assert(false);
                }
                table::lemma_filter_members(
                    a.supporter->Some_0.payer_hmacs,
                    other_than(payer),
                    hmac,
                );
            }
            assert(holds(hmac)(moved.accounts[i]));
        }
        let users = losers(b, d, false).push(user);
        assert(users.drop_last() =~= losers(b, d, false));
        lemma_recomputing_keeps_holders(moved, users, grace_days, i, hmac);
    }
}

/// A claim code that a stored payment used up is gone: it cannot be used again.
pub proof fn law_claim_code_is_used_once(
    b: Books,
    payload: KofiPayload,
    key: Seq<char>,
    now: i64,
    stored_at: i64,
    grace_days: u32,
)
    requires
        !table::any_row(b.donations, told_by(payload.message_id@)),
        !table::has_id::<Donation>(b.donations, payload.kofi_transaction_id@),
        uses_code(b, payload, now),
    ensures
        ({
            let code = live_code(b.codes, text::opt_text(payload.message), now)->Some_0;
            !table::has_id::<DonationClaimCode>(
                ingested(b, payload, key, now, stored_at, grace_days).0.codes,
                code.code,
            )
        }),
{
    let code = live_code(b.codes, text::opt_text(payload.message), now)->Some_0;
    let d = donation_of(b, payload, key, now, stored_at);
    let left = b.codes.filter(table::without_id::<DonationClaimCode>(code.code));
    table::lemma_id_gone::<DonationClaimCode>(b.codes, code.code);
    lemma_claim_keeps_donations(
        Books { donations: b.donations.push(d), codes: left, ..b },
        d,
        true,
        grace_days,
    );
}

/// A payment that is not stored, since its transaction is, leaves its claim code to be
/// used.
pub proof fn law_unstored_payment_keeps_its_code(
    b: Books,
    payload: KofiPayload,
    key: Seq<char>,
    now: i64,
    stored_at: i64,
    grace_days: u32,
)
    requires
        !table::any_row(b.donations, told_by(payload.message_id@)),
        table::has_id::<Donation>(b.donations, payload.kofi_transaction_id@),
        uses_code(b, payload, now),
    ensures
        ({
            let code = live_code(b.codes, text::opt_text(payload.message), now)->Some_0;
            let r = ingested(b, payload, key, now, stored_at, grace_days);
            r.0.codes.contains(code) && r.0.donations == b.donations && r.0.accounts == b.accounts
        }),
{
    let code = live_code(b.codes, text::opt_text(payload.message), now)->Some_0;
    let left = b.codes.filter(table::without_id::<DonationClaimCode>(code.code));
    assert(left.push(code)[left.len() as int] == code);
}

/// A payment that has to be looked at counts for nobody and leaves its claim code
/// unused.
pub proof fn law_payment_in_review_counts_for_nobody(
    b: Books,
    payload: KofiPayload,
    key: Seq<char>,
    now: i64,
    stored_at: i64,
    grace_days: u32,
)
    requires
        !table::any_row(b.donations, told_by(payload.message_id@)),
        !table::has_id::<Donation>(b.donations, payload.kofi_transaction_id@),
        needs_review(payload),
    ensures
        ({
            let r = ingested(b, payload, key, now, stored_at, grace_days);
            r.1.user is None && r.1.state is NeedsReview && r.0.codes == b.codes && r.0.accounts
                == b.accounts
        }),
{
}

/// A refunded donation is not counted for any user.
pub proof fn law_refunds_are_not_counted(b: Books, id: Seq<char>, grace_days: u32, user: Seq<char>)
    requires
        table::keyed::<Donation>(b.donations),
        table::has_id::<Donation>(b.donations, id),
    ensures
        !table::has_id::<Donation>(
            counted_for(revoked(b, id, grace_days).0.donations, user),
            id,
        ),
{
    let d = table::row_of::<Donation>(b.donations, id);
    let after = revoked(b, id, grace_days).0.donations;
    let owned = after.filter(owned_by(user));
    let counts = owned.filter(is_claimed());
    table::lemma_first_row_matches(b.donations, table::with_id::<Donation>(id));
    assert(after == with_donation(b, refunded(d)).donations);
    if table::has_id::<Donation>(counts, id) {
        let q = table::with_id::<Donation>(id);
        table::lemma_first_row_matches(counts, q);
        let row = counts[table::first_row(counts, q)];
        assert(counts.contains(row));
        table::lemma_filter_members(owned, is_claimed(), row);
        table::lemma_filter_members(after, owned_by(user), row);
        let i = choose|i: int| 0 <= i < after.len() && after[i] == row;
        assert(after[i] == if q(b.donations[i]) {
            refunded(d)
        } else {
            b.donations[i]
        });
    }
}

/// Once computed anew, the totals of a user are what the claimed donations of the user
/// add up to.
pub proof fn law_totals_are_what_donations_add_up_to(b: Books, user: Seq<char>, grace_days: u32)
    requires
        table::keyed::<Account>(b.accounts),
        live(b.accounts, user),
    ensures
        ({
            let a = table::row_of::<Account>(recomputed(b, user, grace_days).accounts, user);
            supporter_of(a).lifetime_usd_cents == lifetime(counted_for(b.donations, user))
                && supporter_of(a).monthly_until == monthly_until(b.donations, user, grace_days)
        }),
{
    let cents = lifetime(counted_for(b.donations, user));
    let until = monthly_until(b.donations, user, grace_days);
    table::lemma_row_of_mapped::<Account>(b.accounts, user, with_totals(cents, until));
}

/// Once a user was forgotten, no donation names the user.
pub proof fn law_forgotten_user_is_not_named(
    rows: Seq<DonationView>,
    user: Seq<char>,
    d: DonationView,
)
    requires
        table::each(rows, unlinked(user)).contains(d),
    ensures
        d.user != Some(user),
        d.claimant != Some(user),
{
    let after = table::each(rows, unlinked(user));
    let i = choose|i: int| 0 <= i < after.len() && after[i] == d;
    assert(after[i] == unlinked(user)(rows[i]));
}

/// Once payers were forgotten, no donation older than the instant that nobody has
/// claimed holds what stands for an address.
pub proof fn law_no_stale_payer_is_left(rows: Seq<DonationView>, before_ms: i64, d: DonationView)
    requires
        table::mapped(rows, is_stale(before_ms), without_payer()).contains(d),
    ensures
        !is_stale(before_ms)(d),
{
    let after = table::mapped(rows, is_stale(before_ms), without_payer());
    let i = choose|i: int| 0 <= i < after.len() && after[i] == d;
    assert(after[i] == if is_stale(before_ms)(rows[i]) {
        without_payer()(rows[i])
    } else {
        rows[i]
    });
}

} // verus!
