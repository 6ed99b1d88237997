//! What can be relied on of payments: whom they count for, what is stored of them, and
//! what becomes of claims, assignments and refunds.
use crate::clock;
use crate::donation_store::{self, Books, ClaimOutcome};
use crate::donations::{
    self, Account, AccountView, Donation, DonationClaimCode, DonationClaimCodeView, DonationState,
    DonationView, KofiPayload,
};
use crate::error::Error;
use crate::ids;
use crate::table;
use crate::text;
use vstd::prelude::*;
use vstd::string::*;

verus! {

/// Whether there is an account with an id that was not deleted.
pub open spec fn lives(accounts: Seq<AccountView>, user: Seq<char>) -> bool {
    exists|i: int|
        0 <= i < accounts.len() && #[trigger] accounts[i].id == user && !accounts[i].deleted
}

/// Whether the message of a payment holds a claim code of a user, made within the last
/// thirty days, and the user was not deleted.
pub open spec fn code_points_to(b: Books, payload: KofiPayload, now: i64, user: Seq<char>) -> bool {
    payload.message is Some && lives(b.accounts, user) && exists|i: int|
        0 <= i < b.codes.len() && donations::code_from(payload.message->Some_0@, 0) == Some(
            (#[trigger] b.codes[i]).code,
        ) && b.codes[i].user == user && now - b.codes[i].created_at < 30 * 86_400_000
}

/// Whether what stands for the address of the payer is held by a user who was not deleted.
pub open spec fn address_points_to(
    b: Books,
    payload: KofiPayload,
    key: Seq<char>,
    user: Seq<char>,
) -> bool {
    payload.email is Some && key.len() > 0 && !text::blank(payload.email->Some_0@) && exists|i: int|
        0 <= i < b.accounts.len() && (#[trigger] b.accounts[i]).id == user && !b.accounts[i].deleted
            && b.accounts[i].supporter is Some
            && b.accounts[i].supporter->Some_0.payer_hmacs.contains(
            donations::hmac_of(key, payload.email->Some_0@),
        )
}

/// Whether a payment is new: neither its message nor its transaction was stored.
pub open spec fn is_new(b: Books, payload: KofiPayload) -> bool {
    forall|i: int|
        0 <= i < b.donations.len() ==> (#[trigger] b.donations[i]).message_id
            != payload.message_id@ && b.donations[i].id != payload.kofi_transaction_id@
}

/// Whether a payment is in dollars, with an amount that can be read and held.
pub open spec fn is_plain(payload: KofiPayload) -> bool {
    let amount = text::trimmed(payload.amount@);
    &&& text::upper_case(text::trimmed(payload.currency@)) == "USD"@
    &&& donations::is_amount(amount)
    &&& donations::cents_of(amount) <= i64::MAX
}

/// Whether codes and accounts can be told apart, and what stands for the address of the
/// payer belongs to one account at most.
pub open spec fn is_sound(b: Books, payload: KofiPayload, key: Seq<char>) -> bool {
    &&& table::keyed::<DonationClaimCode>(b.codes)
    &&& table::keyed::<Account>(b.accounts)
    &&& payload.email matches Some(email) ==> donation_store::held_once(
        b.accounts,
        donations::hmac_of(key, email@),
    )
}

proof fn lemma_new(b: Books, payload: KofiPayload)
    requires
        is_new(b, payload),
    ensures
        !table::any_row(b.donations, donation_store::told_by(payload.message_id@)),
        !table::has_id::<Donation>(b.donations, payload.kofi_transaction_id@),
{
    if table::has_id::<Donation>(b.donations, payload.kofi_transaction_id@) {
        table::lemma_first_row_matches(
            b.donations,
            table::with_id::<Donation>(payload.kofi_transaction_id@),
        );
    }
    if table::any_row(b.donations, donation_store::told_by(payload.message_id@)) {
        table::lemma_first_row_matches(
            b.donations,
            donation_store::told_by(payload.message_id@),
        );
    }
}

proof fn lemma_lives(accounts: Seq<AccountView>, user: Seq<char>)
    requires
        table::keyed::<Account>(accounts),
    ensures
        lives(accounts, user) == donation_store::live(accounts, user),
{
    if lives(accounts, user) {
        let i = choose|i: int|
            0 <= i < accounts.len() && #[trigger] accounts[i].id == user && !accounts[i].deleted;
        table::lemma_keyed_row::<Account>(accounts, user, i);
    }
    if donation_store::live(accounts, user) {
        table::lemma_first_row_matches(accounts, table::with_id::<Account>(user));
        assert(accounts[table::first_row(accounts, table::with_id::<Account>(user))].id == user);
    }
}

proof fn lemma_code_owner(b: Books, payload: KofiPayload, key: Seq<char>, now: i64, user: Seq<char>)
    requires
        is_sound(b, payload, key),
    ensures
        code_points_to(b, payload, now, user) <==> donation_store::code_owner(
            b.accounts,
            donation_store::live_code(b.codes, text::opt_text(payload.message), now),
        ) == Some(user),
{
    lemma_lives(b.accounts, user);
    if payload.message is Some {
        let code = donations::code_from(payload.message->Some_0@, 0);
        if code_points_to(b, payload, now, user) {
            let i = choose|i: int|
                0 <= i < b.codes.len() && code == Some((#[trigger] b.codes[i]).code)
                    && b.codes[i].user == user && now - b.codes[i].created_at < 30 * 86_400_000;
            table::lemma_keyed_row::<DonationClaimCode>(b.codes, b.codes[i].code, i);
        }
        if code is Some && table::has_id::<DonationClaimCode>(b.codes, code->Some_0) {
            let q = table::with_id::<DonationClaimCode>(code->Some_0);
            table::lemma_first_row_matches(b.codes, q);
            assert(b.codes[table::first_row(b.codes, q)].code == code->Some_0);
        }
    }
}

proof fn lemma_holder(b: Books, payload: KofiPayload, key: Seq<char>, user: Seq<char>)
    requires
        is_sound(b, payload, key),
    ensures
        address_points_to(b, payload, key, user) <==> donation_store::live_holder(
            b.accounts,
            donation_store::payer_of(payload, key),
        ) == Some(user),
{
    let payer = donation_store::payer_of(payload, key);
    if payer is Some {
        let q = donation_store::holds(payer->Some_0);
        if address_points_to(b, payload, key, user) {
            let i = choose|i: int|
                0 <= i < b.accounts.len() && (#[trigger] b.accounts[i]).id == user
                    && !b.accounts[i].deleted && b.accounts[i].supporter is Some
                    && b.accounts[i].supporter->Some_0.payer_hmacs.contains(
                    donations::hmac_of(key, payload.email->Some_0@),
                );
            assert(q(b.accounts[i]));
            table::lemma_first_row_matches(b.accounts, q);
            assert(q(b.accounts[table::first_row(b.accounts, q)]));
        }
        if table::any_row(b.accounts, q) {
            table::lemma_first_row_matches(b.accounts, q);
            let a = b.accounts[table::first_row(b.accounts, q)];
            assert(q(a));
        }
    }
}

proof fn lemma_decimal_not_negative(s: Seq<char>)
    requires
        donations::all_digits(s),
    ensures
        donations::decimal(s) >= 0,
    decreases s.len(),
{
    if s.len() > 0 {
        assert(donations::is_digit(s[s.len() - 1]));
        let rest = s.drop_last();
        assert forall|i: int| 0 <= i < rest.len() implies donations::is_digit(
            #[trigger] rest[i],
        ) by {
            assert(rest[i] == s[i]);
        }
        lemma_decimal_not_negative(rest);
    }
}

/// A new payment is stored, under its transaction, as what it tells: what was paid, in
/// which currency, for what and when (or now, where that cannot be read), with what stands
/// for the address of the payer.
pub proof fn law_payment_is_stored_as_told(
    b: Books,
    payload: KofiPayload,
    key: Seq<char>,
    now: i64,
    stored_at: i64,
    grace_days: u32,
)
    requires
        is_new(b, payload),
    ensures
        ({
            let r = donation_store::ingested(b, payload, key, now, stored_at, grace_days);
            let d = r.1;
            let amount = text::trimmed(payload.amount@);
            &&& r.0.donations == b.donations.push(d)
            &&& d.id == payload.kofi_transaction_id@
            &&& d.message_id == payload.message_id@
            &&& d.kind == payload.kind@
            &&& d.currency == text::upper_case(text::trimmed(payload.currency@))
            &&& donations::is_amount(amount) && donations::cents_of(amount) <= i64::MAX
                ==> d.amount_cents == donations::cents_of(amount)
            &&& !donations::is_amount(amount) ==> d.amount_cents == 0
            &&& d.usd_cents_override is None
            &&& d.is_subscription == payload.is_subscription_payment
            &&& d.tier_name is Some <==> payload.tier_name is Some
            &&& payload.tier_name matches Some(name) ==> d.tier_name == Some(name@)
            &&& donations::rfc3339_ms(text::trimmed(payload.timestamp@)) matches Some(at)
                ==> d.timestamp == at
            &&& donations::rfc3339_ms(text::trimmed(payload.timestamp@)) is None ==> d.timestamp
                == now
            &&& d.stored_at == Some(stored_at)
            &&& d.payer_hmac is Some <==> payload.email is Some && key.len() > 0
                && !text::blank(payload.email->Some_0@)
            &&& d.payer_hmac is Some ==> d.payer_hmac == Some(
                donations::hmac_of(key, payload.email->Some_0@),
            )
        }),
{
    lemma_new(b, payload);
    let amount = text::trimmed(payload.amount@);
    if donations::is_amount(amount) {
        lemma_decimal_not_negative(donations::whole_of(amount));
        lemma_decimal_not_negative(donations::fraction_of(amount));
    }
    let d = donation_store::donation_of(b, payload, key, now, stored_at);
    let code = donation_store::live_code(b.codes, text::opt_text(payload.message), now);
    let left = if donation_store::uses_code(b, payload, now) {
        b.codes.filter(table::without_id::<DonationClaimCode>(code->Some_0.code))
    } else {
        b.codes
    };
    donation_store::lemma_claim_keeps_donations(
        Books { donations: b.donations.push(d), codes: left, ..b },
        d,
        true,
        grace_days,
    );
}

/// A new payment in dollars counts for the owner of the live claim code in its message,
/// whoever holds what stands for the payer's address; without such a code for the holder
/// of the address; and else for nobody yet.
pub proof fn law_whom_a_payment_counts_for(
    b: Books,
    payload: KofiPayload,
    key: Seq<char>,
    now: i64,
    stored_at: i64,
    grace_days: u32,
    user: Seq<char>,
)
    requires
        is_new(b, payload),
        is_sound(b, payload, key),
        is_plain(payload),
    ensures
        ({
            let d = donation_store::ingested(b, payload, key, now, stored_at, grace_days).1;
            let coded = exists|u: Seq<char>| #[trigger] code_points_to(b, payload, now, u);
            let known = exists|u: Seq<char>| #[trigger] address_points_to(b, payload, key, u);
            &&& code_points_to(b, payload, now, user) ==> d.user == Some(user)
            &&& !coded && address_points_to(b, payload, key, user) ==> d.user == Some(user)
            &&& !coded && !known ==> d.user is None
            &&& d.state == if coded || known {
                DonationState::Claimed
            } else {
                DonationState::Unclaimed
            }
            &&& d.claimed_at == if coded || known {
                Some(now)
            } else {
                None
            }
            &&& d.claimant is None
        }),
{
    lemma_new(b, payload);
    lemma_pointed(b, payload, key, now, user);
}

/// A new payment that is not in dollars, or whose amount cannot be read, waits to be looked
/// at: it counts for nobody, and only notes who it seems to come from.
pub proof fn law_when_a_payment_waits(
    b: Books,
    payload: KofiPayload,
    key: Seq<char>,
    now: i64,
    stored_at: i64,
    grace_days: u32,
    user: Seq<char>,
)
    requires
        is_new(b, payload),
        is_sound(b, payload, key),
        !is_plain(payload),
    ensures
        ({
            let r = donation_store::ingested(b, payload, key, now, stored_at, grace_days);
            let d = r.1;
            let coded = exists|u: Seq<char>| #[trigger] code_points_to(b, payload, now, u);
            let known = exists|u: Seq<char>| #[trigger] address_points_to(b, payload, key, u);
            &&& d.state == DonationState::NeedsReview
            &&& d.user is None
            &&& d.claimed_at is None
            &&& code_points_to(b, payload, now, user) ==> d.claimant == Some(user)
            &&& !coded && address_points_to(b, payload, key, user) ==> d.claimant == Some(user)
            &&& !coded && !known ==> d.claimant is None
            &&& r.0.codes == b.codes
            &&& r.0.accounts == b.accounts
        }),
{
    lemma_new(b, payload);
    lemma_pointed(b, payload, key, now, user);
}

proof fn lemma_pointed(b: Books, payload: KofiPayload, key: Seq<char>, now: i64, user: Seq<char>)
    requires
        is_sound(b, payload, key),
    ensures
        ({
            let who = donation_store::suspect(b, payload, key, now);
            let coded = exists|u: Seq<char>| #[trigger] code_points_to(b, payload, now, u);
            let known = exists|u: Seq<char>| #[trigger] address_points_to(b, payload, key, u);
            &&& code_points_to(b, payload, now, user) ==> who == Some(user)
            &&& !coded && address_points_to(b, payload, key, user) ==> who == Some(user)
            &&& who is Some <==> coded || known
        }),
{
    let owner = donation_store::code_owner(
        b.accounts,
        donation_store::live_code(b.codes, text::opt_text(payload.message), now),
    );
    let holder = donation_store::live_holder(b.accounts, donation_store::payer_of(payload, key));
    assert forall|u: Seq<char>| #[trigger] code_points_to(b, payload, now, u) <==> owner == Some(
        u,
    ) by {
        lemma_code_owner(b, payload, key, now, u);
    }
    assert forall|u: Seq<char>| #[trigger] address_points_to(b, payload, key, u) <==> holder
        == Some(u) by {
        lemma_holder(b, payload, key, u);
    }
    if owner is Some {
        assert(code_points_to(b, payload, now, owner->Some_0));
    }
    if holder is Some {
        assert(address_points_to(b, payload, key, holder->Some_0));
    }
}

/// A code is used up exactly by a new payment in dollars that counts for its owner: it is
/// gone then, and all other codes stay; any other new payment leaves every code.
pub proof fn law_when_a_code_is_used(
    b: Books,
    payload: KofiPayload,
    key: Seq<char>,
    now: i64,
    stored_at: i64,
    grace_days: u32,
    i: int,
)
    requires
        is_new(b, payload),
        is_sound(b, payload, key),
        0 <= i < b.codes.len(),
    ensures
        ({
            let left = donation_store::ingested(
                b,
                payload,
                key,
                now,
                stored_at,
                grace_days,
            ).0.codes;
            let used = is_plain(payload) && payload.message is Some && donations::code_from(
                payload.message->Some_0@,
                0,
            ) == Some(b.codes[i].code) && code_points_to(b, payload, now, b.codes[i].user);
            left.contains(b.codes[i]) <==> !used
        }),
{
    lemma_new(b, payload);
    let c = b.codes[i];
    lemma_code_owner(b, payload, key, now, c.user);
    let d = donation_store::donation_of(b, payload, key, now, stored_at);
    let live = donation_store::live_code(b.codes, text::opt_text(payload.message), now);
    let uses = donation_store::uses_code(b, payload, now);
    let q = table::without_id::<DonationClaimCode>(live->Some_0.code);
    let left = if uses {
        b.codes.filter(q)
    } else {
        b.codes
    };
    donation_store::lemma_claim_keeps_donations(
        Books { donations: b.donations.push(d), codes: left, ..b },
        d,
        true,
        grace_days,
    );
    table::lemma_keyed_row::<DonationClaimCode>(b.codes, c.code, i);
    assert(b.codes.contains(c));
    if uses {
        table::lemma_filter_members(b.codes, q, c);
        let code = donations::code_from(payload.message->Some_0@, 0)->Some_0;
        table::lemma_first_row_matches(b.codes, table::with_id::<DonationClaimCode>(code));
        assert(live->Some_0.code == code);
    }
}

/// A payment whose transaction is stored, told by another message, stores nothing and
/// changes no account; what was stored comes back.
pub proof fn law_stored_transaction_comes_back(
    b: Books,
    payload: KofiPayload,
    key: Seq<char>,
    now: i64,
    stored_at: i64,
    grace_days: u32,
    i: int,
)
    requires
        table::keyed::<Donation>(b.donations),
        forall|j: int|
            0 <= j < b.donations.len() ==> (#[trigger] b.donations[j]).message_id
                != payload.message_id@,
        0 <= i < b.donations.len(),
        b.donations[i].id == payload.kofi_transaction_id@,
    ensures
        ({
            let r = donation_store::ingested(b, payload, key, now, stored_at, grace_days);
            r.1 == b.donations[i] && r.0.donations == b.donations && r.0.accounts == b.accounts
        }),
{
    if table::any_row(b.donations, donation_store::told_by(payload.message_id@)) {
        table::lemma_first_row_matches(
            b.donations,
            donation_store::told_by(payload.message_id@),
        );
    }
    table::lemma_keyed_row::<Donation>(b.donations, payload.kofi_transaction_id@, i);
}

/// Amounts are digits, or digits, a point and one or two more: what stands before the point
/// are whole units, what stands behind tenths and hundredths.
pub proof fn law_amounts_are_read(whole: Seq<char>, a: char, c: char)
    requires
        whole.len() > 0,
        donations::all_digits(whole),
        donations::is_digit(a),
        donations::is_digit(c),
    ensures
        donations::is_amount(whole),
        donations::cents_of(whole) == 100 * donations::decimal(whole),
        donations::is_amount(whole + seq!['.', a]),
        donations::cents_of(whole + seq!['.', a]) == 100 * donations::decimal(whole) + 10 * (a as int
            - '0' as int),
        donations::is_amount(whole + seq!['.', a, c]),
        donations::cents_of(whole + seq!['.', a, c]) == 100 * donations::decimal(whole) + 10 * (
        a as int - '0' as int) + (c as int - '0' as int),
        donations::decimal(whole) == 10 * donations::decimal(whole.drop_last()) + (whole.last()
            as int - '0' as int),
        !donations::is_amount(whole + seq!['.']),
        !donations::is_amount(whole + seq!['-']),
{
    lemma_split(whole, Seq::empty());
    lemma_split(whole, seq![a]);
    lemma_split(whole, seq![a, c]);
    assert(seq!['.'] + seq![a] =~= seq!['.', a]);
    assert(seq!['.'] + seq![a, c] =~= seq!['.', a, c]);
    assert(seq!['.'] + Seq::<char>::empty() =~= seq!['.']);
    assert(!table::any_row(whole, donations::is_point())) by {
        if table::any_row(whole, donations::is_point()) {
            table::lemma_first_row_matches(whole, donations::is_point());
            assert(donations::is_digit(whole[table::first_row(whole, donations::is_point())]));
        }
    }
    reveal_with_fuel(donations::decimal, 3);
    assert(seq![a].drop_last() =~= Seq::<char>::empty());
    assert(seq![a, c].drop_last() =~= seq![a]);
    let t = whole + seq!['-'];
    if donations::is_amount(t) {
        if table::any_row(t, donations::is_point()) {
            let k = table::first_row(t, donations::is_point());
            table::lemma_first_row_matches(t, donations::is_point());
            assert(t[k] == '.');
            assert(donations::is_digit(whole[k]));
        } else {
            assert(donations::is_digit(t[whole.len() as int]));
        }
    }
}

proof fn lemma_split(whole: Seq<char>, fraction: Seq<char>)
    requires
        donations::all_digits(whole),
    ensures
        ({
            let s = whole + (seq!['.'] + fraction);
            table::any_row(s, donations::is_point()) && donations::whole_of(s) == whole
                && donations::fraction_of(s) == fraction
        }),
{
    let s = whole + (seq!['.'] + fraction);
    let n = whole.len() as int;
    assert(s[n] == '.');
    assert(donations::is_point()(s[n]));
    assert forall|j: int| 0 <= j < n implies !donations::is_point()(#[trigger] s[j]) by {
        assert(s[j] == whole[j]);
        assert(donations::is_digit(whole[j]));
    }
    table::lemma_first_row(s, donations::is_point(), n);
    assert(s.take(n) =~= whole);
    assert(s.skip(n + 1) =~= fraction);
}

/// What a donation counts for is what was assigned, or else what was paid in dollars; other
/// currencies count for nothing.
pub proof fn law_what_a_donation_counts_for(d: DonationView)
    ensures
        d.usd_cents_override matches Some(cents) ==> donations::counted(d) == cents,
        d.usd_cents_override is None && d.currency == "USD"@ ==> donations::counted(d)
            == d.amount_cents,
        d.usd_cents_override is None && d.currency != "USD"@ ==> donations::counted(d) == 0,
{
}

/// The donations that are counted for a user are the claimed ones of the user.
pub proof fn law_which_donations_are_counted(
    rows: Seq<DonationView>,
    user: Seq<char>,
    d: DonationView,
)
    ensures
        donation_store::counted_for(rows, user).contains(d) <==> rows.contains(d) && d.user
            == Some(user) && d.state == DonationState::Claimed,
{
    table::lemma_filter_members(rows, donation_store::owned_by(user), d);
    table::lemma_filter_members(
        rows.filter(donation_store::owned_by(user)),
        donation_store::is_claimed(),
        d,
    );
}

/// What a user has given grows by what a claimed donation of the user counts for, and by
/// nothing else.
pub proof fn law_given_amounts_add_up(rows: Seq<DonationView>, user: Seq<char>, d: DonationView)
    ensures
        ({
            let before = donation_store::lifetime(donation_store::counted_for(rows, user));
            let after = donation_store::lifetime(donation_store::counted_for(rows.push(d), user));
            let more = donations::counted(d);
            if d.user == Some(user) && d.state == DonationState::Claimed {
                i64::MIN <= before + more <= i64::MAX ==> after == before + more
            } else {
                after == before
            }
        }),
        donation_store::lifetime(Seq::empty()) == 0,
{
    lemma_counted_push(rows, user, d);
    let kept = donation_store::counted_for(rows, user);
    assert(kept.push(d).drop_last() =~= kept);
}

proof fn lemma_counted_push(rows: Seq<DonationView>, user: Seq<char>, d: DonationView)
    ensures
        donation_store::counted_for(rows.push(d), user) == if d.user == Some(user)
            && d.state == DonationState::Claimed {
            donation_store::counted_for(rows, user).push(d)
        } else {
            donation_store::counted_for(rows, user)
        },
{
    let owned = donation_store::owned_by(user);
    let n = rows.len() as int;
    let more = rows.push(d);
    table::lemma_filter_take(more, owned, n);
    assert(more.take(n + 1) =~= more);
    assert(more.take(n) =~= rows);
    let kept = rows.filter(owned);
    if owned(d) {
        let m = kept.len() as int;
        let next = kept.push(d);
        table::lemma_filter_take(next, donation_store::is_claimed(), m);
        assert(next.take(m + 1) =~= next);
        assert(next.take(m) =~= kept);
    }
}

/// A membership lasts so many days longer than its last payment, of all counted ones that
/// are memberships; without any there is none.
pub proof fn law_membership_lasts_from_its_last_payment(
    rows: Seq<DonationView>,
    user: Seq<char>,
    grace_days: u32,
    i: int,
)
    requires
        0 <= i < donation_store::counted_for(rows, user).len(),
    ensures
        ({
            let kept = donation_store::counted_for(rows, user);
            let until = donation_store::monthly_until(rows, user, grace_days);
            &&& until is Some <==> exists|k: int|
                0 <= k < kept.len() && (#[trigger] kept[k]).is_subscription
            &&& kept[i].is_subscription && kept[i].timestamp + grace_days * 86_400_000 <= i64::MAX
                ==> until->Some_0 >= kept[i].timestamp + grace_days * 86_400_000
            &&& until is Some ==> exists|k: int|
                0 <= k < kept.len() && (#[trigger] kept[k]).is_subscription && (
                kept[k].timestamp + grace_days * 86_400_000 <= i64::MAX ==> until->Some_0
                    == kept[k].timestamp + grace_days * 86_400_000)
        }),
{
    let kept = donation_store::counted_for(rows, user);
    lemma_last_membership(kept, i);
    assert(grace_days * clock::DAY_MS == grace_days * 86_400_000);
}

proof fn lemma_last_membership(rows: Seq<DonationView>, i: int)
    ensures
        ({
            let last = donation_store::last_membership(rows);
            &&& last is Some <==> exists|k: int|
                0 <= k < rows.len() && (#[trigger] rows[k]).is_subscription
            &&& 0 <= i < rows.len() && rows[i].is_subscription ==> last->Some_0
                >= rows[i].timestamp
            &&& last is Some ==> exists|k: int|
                0 <= k < rows.len() && (#[trigger] rows[k]).is_subscription && rows[k].timestamp
                    == last->Some_0
        }),
    decreases rows.len(),
{
    if rows.len() > 0 {
        let rest = rows.drop_last();
        lemma_last_membership(rest, i);
        let before = donation_store::last_membership(rest);
        assert(rows[rows.len() - 1] == rows.last());
        if before is Some {
            let k = choose|k: int|
                0 <= k < rest.len() && (#[trigger] rest[k]).is_subscription && rest[k].timestamp
                    == before->Some_0;
            assert(rows[k] == rest[k]);
        }
        assert forall|k: int| 0 <= k < rest.len() implies rest[k] == #[trigger] rows[k] by {}
    }
}

/// Computing the totals of a user anew leaves the other accounts, and all but the totals of
/// the user's own; deleted users keep what they have.
pub proof fn law_only_the_totals_change(b: Books, user: Seq<char>, grace_days: u32, i: int)
    requires
        table::keyed::<Account>(b.accounts),
        0 <= i < b.accounts.len(),
    ensures
        ({
            let after = donation_store::recomputed(b, user, grace_days);
            let a = b.accounts[i];
            let r = after.accounts[i];
            &&& after.donations == b.donations && after.codes == b.codes
            &&& after.accounts.len() == b.accounts.len()
            &&& a.id != user || a.deleted ==> r == a
            &&& r == (AccountView { supporter: r.supporter, ..a })
            &&& a.supporter matches Some(s) ==> r.supporter is Some
                && r.supporter->Some_0.payer_hmacs == s.payer_hmacs
                && r.supporter->Some_0.show_badges == s.show_badges
            &&& a.supporter is None && r.supporter is Some
                ==> r.supporter->Some_0.payer_hmacs.len() == 0 && r.supporter->Some_0.show_badges
        }),
{
    if b.accounts[i].id == user {
        table::lemma_keyed_row::<Account>(b.accounts, user, i);
    }
}

/// Once a claim took effect, what stands for the address of the payer is held by the user
/// alone, whoever had it, where it may be taken; accounts keep all other such things.
pub proof fn law_address_goes_to_the_user(
    b: Books,
    d: DonationView,
    grace_days: u32,
    i: int,
    other: Seq<char>,
)
    requires
        table::keyed::<Account>(b.accounts),
        0 <= i < b.accounts.len(),
        d.state == DonationState::Claimed,
        d.user is Some,
        lives(b.accounts, d.user->Some_0),
        d.payer_hmac is Some,
    ensures
        ({
            let after = donation_store::claim_applied(b, d, true, grace_days).accounts;
            &&& after.len() == b.accounts.len() && after[i].id == b.accounts[i].id
            &&& donation_store::holds(d.payer_hmac->Some_0)(after[i]) <==> after[i].id
                == d.user->Some_0
            &&& other != d.payer_hmac->Some_0 ==> donation_store::holds(other)(after[i])
                == donation_store::holds(other)(b.accounts[i])
        }),
{
    let user = d.user->Some_0;
    let hmac = d.payer_hmac->Some_0;
    lemma_lives(b.accounts, user);
    let f = donation_store::hmac_moved(user, hmac);
    let moved = Books { accounts: table::each(b.accounts, f), ..b };
    let users = donation_store::losers(b, d, true).push(user);
    assert(users.drop_last() =~= donation_store::losers(b, d, true));
    donation_store::lemma_recomputing_keeps_holders(moved, users, grace_days, i, hmac);
    donation_store::lemma_recomputing_keeps_holders(moved, users, grace_days, i, other);
    let a = b.accounts[i];
    let m = moved.accounts[i];
    assert(m == f(a));
    if a.id == user {
        let list = donation_store::supporter_of(a).payer_hmacs;
        if !list.contains(hmac) {
            let longer = list.push(hmac);
            assert(longer[list.len() as int] == hmac);
            if list.contains(other) {
                let k = choose|k: int| 0 <= k < list.len() && list[k] == other;
                assert(longer[k] == other);
            }
            if longer.contains(other) && other != hmac {
                let k = choose|k: int| 0 <= k < longer.len() && longer[k] == other;
                assert(list[k] == other);
            }
        }
    } else if a.supporter is Some {
        let list = a.supporter->Some_0.payer_hmacs;
        table::lemma_filter_members(list, donation_store::other_than(hmac), hmac);
        table::lemma_filter_members(list, donation_store::other_than(hmac), other);
    }
}

/// Whoever names a transaction is told that there is none, that it is no longer to be
/// claimed, that it counts for them since they proved to be the payer, or that it is looked
/// at.
pub proof fn law_what_comes_of_a_claim(
    b: Books,
    user: Seq<char>,
    email: Seq<char>,
    transaction: Seq<char>,
    key: Seq<char>,
    now: i64,
    grace_days: u32,
    i: int,
)
    requires
        table::keyed::<Donation>(b.donations),
        0 <= i < b.donations.len(),
        b.donations[i].id == text::trimmed(transaction),
    ensures
        ({
            let r = donation_store::claimed_transaction(
                b,
                user,
                email,
                transaction,
                key,
                now,
                grace_days,
            );
            let d = b.donations[i];
            let after = r.0.donations[i];
            let proved = d.payer_hmac is Some && key.len() > 0 && !text::blank(email)
                && d.payer_hmac == Some(donations::hmac_of(key, email));
            let open = d.state == DonationState::Unclaimed || d.state
                == DonationState::NeedsReview;
            let worth = d.usd_cents_override is Some || d.currency == "USD"@ && d.amount_cents > 0;
            &&& !open ==> r.1 == Err::<ClaimOutcome, Error>(Error::InvalidClaim) && r.0 == b
            &&& open && !proved && d.state == DonationState::NeedsReview ==> r.1
                == Err::<ClaimOutcome, Error>(Error::InvalidClaim) && r.0 == b
            &&& open && !proved && d.state == DonationState::Unclaimed ==> {
                &&& r.1 == Ok::<ClaimOutcome, Error>(ClaimOutcome::NeedsReview)
                &&& after.state == DonationState::NeedsReview
                &&& after.claimant == Some(user)
                &&& after.user == d.user
                &&& r.0.accounts == b.accounts
            }
            &&& open && proved && (d.state == DonationState::Unclaimed || worth) ==> {
                &&& r.1 == Ok::<ClaimOutcome, Error>(ClaimOutcome::Claimed)
                &&& after.state == DonationState::Claimed
                &&& after.user == Some(user)
                &&& after.claimed_at == Some(now)
                &&& after.claimant is None
            }
            &&& open && proved && d.state == DonationState::NeedsReview && !worth ==> {
                &&& r.1 == Ok::<ClaimOutcome, Error>(ClaimOutcome::NeedsReview)
                &&& after.state == DonationState::NeedsReview
                &&& d.claimant is None ==> after.claimant == Some(user)
                &&& d.claimant is Some ==> after.claimant == d.claimant
                &&& after.user == d.user
                &&& r.0.accounts == b.accounts
            }
            &&& r.0.codes == b.codes
            &&& r.0.donations.len() == b.donations.len()
            &&& after.id == d.id && after.amount_cents == d.amount_cents && after.currency
                == d.currency && after.usd_cents_override == d.usd_cents_override
                && after.payer_hmac == d.payer_hmac && after.message_id == d.message_id
                && after.timestamp == d.timestamp && after.is_subscription == d.is_subscription
            &&& forall|j: int|
                0 <= j < b.donations.len() && j != i ==> #[trigger] r.0.donations[j]
                    == b.donations[j]
        }),
{
    let id = text::trimmed(transaction);
    table::lemma_keyed_row::<Donation>(b.donations, id, i);
    let d = b.donations[i];
    let after = donation_store::claimed_by(d, user, now);
    donation_store::lemma_claim_keeps_donations(
        donation_store::with_donation(b, after),
        after,
        true,
        grace_days,
    );
}

/// A transaction that is not stored cannot be claimed, assigned or refunded.
pub proof fn law_unknown_transactions_are_not_found(
    b: Books,
    user: Seq<char>,
    email: Seq<char>,
    id: Seq<char>,
    key: Seq<char>,
    now: i64,
    grace_days: u32,
)
    requires
        forall|i: int| 0 <= i < b.donations.len() ==> (#[trigger] b.donations[i]).id != id,
        text::trimmed(id) == id,
    ensures
        donation_store::claimed_transaction(b, user, email, id, key, now, grace_days) == (
            b,
            Err::<ClaimOutcome, Error>(Error::NotFound),
        ),
        donation_store::assigned(b, id, user, None, now, grace_days) == (
            b,
            Err::<(), Error>(Error::NotFound),
        ),
        donation_store::revoked(b, id, grace_days) == (b, Err::<(), Error>(Error::NotFound)),
{
    if table::has_id::<Donation>(b.donations, id) {
        table::lemma_first_row_matches(b.donations, table::with_id::<Donation>(id));
    }
}

/// An assigned donation counts for the user, for what was assigned where something was; at
/// least one cent has to be assigned, to a user who was not deleted.
pub proof fn law_what_comes_of_an_assignment(
    b: Books,
    id: Seq<char>,
    user: Seq<char>,
    usd_cents: Option<i64>,
    now: i64,
    grace_days: u32,
    i: int,
)
    requires
        table::keyed::<Donation>(b.donations),
        table::keyed::<Account>(b.accounts),
        0 <= i < b.donations.len(),
        b.donations[i].id == id,
    ensures
        ({
            let r = donation_store::assigned(b, id, user, usd_cents, now, grace_days);
            let d = b.donations[i];
            let after = r.0.donations[i];
            let allowed = usd_cents matches Some(cents) ==> cents >= 1;
            &&& !allowed ==> r == (b, Err::<(), Error>(Error::InvalidOperation))
            &&& allowed && !lives(b.accounts, user) ==> r == (b, Err::<(), Error>(Error::NotFound))
            &&& allowed && lives(b.accounts, user) ==> {
                &&& r.1 is Ok
                &&& after.state == DonationState::Claimed
                &&& after.user == Some(user)
                &&& after.claimed_at == Some(now)
                &&& after.claimant is None
                &&& usd_cents is Some ==> after.usd_cents_override == usd_cents
                &&& usd_cents is None ==> after.usd_cents_override == d.usd_cents_override
                &&& after.id == d.id && after.amount_cents == d.amount_cents && after.currency
                    == d.currency && after.payer_hmac == d.payer_hmac
            }
            &&& r.0.codes == b.codes
            &&& forall|j: int|
                0 <= j < b.donations.len() && j != i ==> #[trigger] r.0.donations[j]
                    == b.donations[j]
        }),
{
    table::lemma_keyed_row::<Donation>(b.donations, id, i);
    lemma_lives(b.accounts, user);
    let d = b.donations[i];
    let after = DonationView {
        usd_cents_override: if usd_cents is Some {
            usd_cents
        } else {
            d.usd_cents_override
        },
        ..donation_store::claimed_by(d, user, now)
    };
    donation_store::lemma_claim_keeps_donations(
        donation_store::with_donation(b, after),
        after,
        true,
        grace_days,
    );
}

/// A refunded donation keeps its user, and counts no more; without a user it no longer
/// holds what stands for the address of the payer. The totals of the user follow.
pub proof fn law_what_comes_of_a_refund(b: Books, id: Seq<char>, grace_days: u32, i: int)
    requires
        table::keyed::<Donation>(b.donations),
        table::keyed::<Account>(b.accounts),
        0 <= i < b.donations.len(),
        b.donations[i].id == id,
    ensures
        ({
            let r = donation_store::revoked(b, id, grace_days);
            let d = b.donations[i];
            let after = r.0.donations[i];
            &&& r.1 is Ok
            &&& after.state == DonationState::Revoked
            &&& after.user == d.user
            &&& after.payer_hmac == if d.user is None {
                None
            } else {
                d.payer_hmac
            }
            &&& after.amount_cents == d.amount_cents && after.id == d.id
            &&& forall|j: int|
                0 <= j < b.donations.len() && j != i ==> #[trigger] r.0.donations[j]
                    == b.donations[j]
            &&& d.user matches Some(user) ==> lives(b.accounts, user)
                ==> donation_store::supporter_of(
                table::row_of::<Account>(r.0.accounts, user),
            ).lifetime_usd_cents == donation_store::lifetime(
                donation_store::counted_for(r.0.donations, user),
            )
        }),
{
    table::lemma_keyed_row::<Donation>(b.donations, id, i);
    let d = b.donations[i];
    if d.user is Some {
        let user = d.user->Some_0;
        lemma_lives(b.accounts, user);
        if lives(b.accounts, user) {
            donation_store::law_totals_are_what_donations_add_up_to(
                donation_store::with_donation(b, donation_store::refunded(d)),
                user,
                grace_days,
            );
        }
    }
}

/// Once a claim took effect, the totals of its user are what the user's claimed donations
/// add up to.
pub proof fn law_totals_follow_a_claim(
    b: Books,
    d: DonationView,
    take: bool,
    grace_days: u32,
)
    requires
        table::keyed::<Account>(b.accounts),
        d.state == DonationState::Claimed,
        d.user is Some,
        lives(b.accounts, d.user->Some_0),
    ensures
        ({
            let user = d.user->Some_0;
            let after = donation_store::claim_applied(b, d, take, grace_days);
            let s = donation_store::supporter_of(table::row_of::<Account>(after.accounts, user));
            &&& s.lifetime_usd_cents == donation_store::lifetime(
                donation_store::counted_for(b.donations, user),
            )
            &&& s.monthly_until == donation_store::monthly_until(b.donations, user, grace_days)
        }),
{
    let user = d.user->Some_0;
    lemma_lives(b.accounts, user);
    let moves = donation_store::moves_hmac(b, d, take);
    let f = donation_store::hmac_moved(user, d.payer_hmac->Some_0);
    let moved = if moves {
        Books { accounts: table::each(b.accounts, f), ..b }
    } else {
        b
    };
    let q = table::with_id::<Account>(user);
    table::lemma_first_row_matches(b.accounts, q);
    let at = table::first_row(b.accounts, q);
    if moves {
        table::lemma_keyed_each::<Account>(b.accounts, f);
    }
    assert(moved.accounts[at].id == user && moved.accounts[at].deleted == b.accounts[at].deleted);
    let users = donation_store::losers(b, d, take);
    lemma_recomputing_keeps_lives(moved, users, grace_days, at);
    let before = donation_store::all_recomputed(moved, users, grace_days);
    donation_store::lemma_recomputing_keeps_donations(moved, users, grace_days);
    table::lemma_keyed_row::<Account>(before.accounts, user, at);
    donation_store::law_totals_are_what_donations_add_up_to(before, user, grace_days);
}

proof fn lemma_recomputing_keeps_lives(
    b: Books,
    users: Seq<Seq<char>>,
    grace_days: u32,
    i: int,
)
    requires
        table::keyed::<Account>(b.accounts),
        0 <= i < b.accounts.len(),
    ensures
        ({
            let after = donation_store::all_recomputed(b, users, grace_days).accounts;
            &&& table::keyed::<Account>(after)
            &&& after.len() == b.accounts.len()
            &&& after[i].id == b.accounts[i].id
            &&& after[i].deleted == b.accounts[i].deleted
        }),
    decreases users.len(),
{
    if users.len() > 0 {
        lemma_recomputing_keeps_lives(b, users.drop_last(), grace_days, i);
        let before = donation_store::all_recomputed(b, users.drop_last(), grace_days);
        let user = users.last();
        let f = donation_store::with_totals(
            donation_store::lifetime(donation_store::counted_for(before.donations, user)),
            donation_store::monthly_until(before.donations, user, grace_days),
        );
        table::lemma_keyed_mapped::<Account>(before.accounts, table::with_id::<Account>(user), f);
    }
}

/// Forgetting a user takes the user, the claimant and what stands for the payer's address
/// out of the user's donations, and leaves what was paid and all donations of others.
pub proof fn law_what_forgetting_a_user_leaves(
    rows: Seq<DonationView>,
    user: Seq<char>,
    i: int,
)
    requires
        0 <= i < rows.len(),
    ensures
        ({
            let d = rows[i];
            let r = table::each(rows, donation_store::unlinked(user))[i];
            &&& d.user == Some(user) ==> r.user is None && r.payer_hmac is None
            &&& d.user != Some(user) ==> r.user == d.user && r.payer_hmac == d.payer_hmac
            &&& d.claimant == Some(user) ==> r.claimant is None
            &&& d.claimant != Some(user) ==> r.claimant == d.claimant
            &&& r == (DonationView {
                user: r.user,
                payer_hmac: r.payer_hmac,
                claimant: r.claimant,
                ..d
            })
        }),
{
}

/// What stands for a payer's address is forgotten of exactly the donations that nobody has
/// claimed and that were stored before an instant.
pub proof fn law_which_payers_are_forgotten(rows: Seq<DonationView>, before_ms: i64, i: int)
    requires
        0 <= i < rows.len(),
    ensures
        ({
            let d = rows[i];
            let r = table::mapped(
                rows,
                donation_store::is_stale(before_ms),
                donation_store::without_payer(),
            )[i];
            let since = if d.stored_at is Some {
                d.stored_at->Some_0
            } else {
                d.timestamp
            };
            let waits = d.state == DonationState::Unclaimed || d.state
                == DonationState::NeedsReview;
            &&& waits && since < before_ms ==> r.payer_hmac is None
            &&& !waits || since >= before_ms ==> r == d
            &&& r == (DonationView { payer_hmac: r.payer_hmac, ..d })
        }),
{
}

/// Which claim codes are left when those of a user, or those made before an instant, are
/// deleted.
pub proof fn law_which_codes_are_left(
    codes: Seq<DonationClaimCodeView>,
    user: Seq<char>,
    before_ms: i64,
    c: DonationClaimCodeView,
)
    ensures
        codes.filter(donation_store::code_not_of(user)).contains(c) <==> codes.contains(c)
            && c.user != user,
        codes.filter(donation_store::made_since(before_ms)).contains(c) <==> codes.contains(c)
            && c.created_at >= before_ms,
        donation_store::code_of(user)(c) <==> c.user == user,
{
    table::lemma_filter_members(codes, donation_store::code_not_of(user), c);
    table::lemma_filter_members(codes, donation_store::made_since(before_ms), c);
}

/// The digits that claim codes are made of stand for different numbers below 32, and are
/// capitals.
pub proof fn law_digits_of_codes_are_apart(n: int)
    requires
        0 <= n < 32,
    ensures
        ids::digit_value(donations::alphabet(n)) == Some(n),
        text::upper(donations::alphabet(n)) == donations::alphabet(n),
{
}

/// A claim code stands in a text at a place where it begins with its mark, in either case,
/// goes on with six digits, and is a word of its own.
pub proof fn law_where_codes_stand(s: Seq<char>, i: int)
    requires
        0 <= i,
        i + 11 <= s.len(),
    ensures
        donations::code_at(s, i) <==> {
            &&& text::ascii_upper(s.subrange(i, i + 5)) == "KOFI-"@
            &&& forall|k: int| 5 <= k < 11 ==> ids::digit_value(#[trigger] s[i + k]) is Some
            &&& i > 0 ==> !donations::is_word(s[i - 1])
            &&& i + 11 < s.len() ==> !donations::is_word(s[i + 11])
        },
{
    reveal_strlit("KOFI-");
    let head = text::ascii_upper(s.subrange(i, i + 5));
    if head == "KOFI-"@ {
        assert(head[0] == 'K' && head[1] == 'O' && head[2] == 'F' && head[3] == 'I' && head[4]
            == '-');
        assert(text::upper(s[i]) == 'K');
        assert(donations::is_word(s[i]));
    }
    if donations::code_at(s, i) {
        assert(head =~= "KOFI-"@);
        assert(donations::is_word(s[i]));
        assert forall|k: int| 5 <= k < 11 implies ids::digit_value(#[trigger] s[i + k]) is Some by {
            assert(i + 5 <= i + k < i + 11);
        }
        assert(ids::digit_value(s[i + 10]) is Some);
        assert(donations::is_word(s[i + 10]));
    }
    if head == "KOFI-"@ && forall|k: int|
        5 <= k < 11 ==> ids::digit_value(#[trigger] s[i + k]) is Some {
        assert forall|k: int| i + 5 <= k < i + 11 implies ids::digit_value(
            #[trigger] s[k],
        ) is Some by {
            assert(ids::digit_value(s[i + (k - i)]) is Some);
        }
        assert(donations::is_word(s[i + 10]));
    }
}

/// Whether the totals of a user are what the user's claimed donations add up to.
pub open spec fn totals_follow(b: Books, user: Seq<char>, grace_days: u32) -> bool {
    let s = donation_store::supporter_of(table::row_of::<Account>(b.accounts, user));
    &&& s.lifetime_usd_cents == donation_store::lifetime(
        donation_store::counted_for(b.donations, user),
    )
    &&& s.monthly_until == donation_store::monthly_until(b.donations, user, grace_days)
}

proof fn lemma_recomputed_elsewhere(b: Books, user: Seq<char>, grace_days: u32, other: Seq<char>)
    requires
        table::keyed::<Account>(b.accounts),
        lives(b.accounts, other),
        user == other || totals_follow(b, other, grace_days),
    ensures
        ({
            let after = donation_store::recomputed(b, user, grace_days);
            &&& table::keyed::<Account>(after.accounts)
            &&& lives(after.accounts, other)
            &&& totals_follow(after, other, grace_days)
        }),
{
    let after = donation_store::recomputed(b, user, grace_days);
    lemma_lives(b.accounts, other);
    let q = table::with_id::<Account>(other);
    table::lemma_first_row_matches(b.accounts, q);
    let at = table::first_row(b.accounts, q);
    lemma_recomputing_keeps_lives(b, seq![user], grace_days, at);
    assert(seq![user].drop_last() =~= Seq::<Seq<char>>::empty());
    assert(donation_store::all_recomputed(b, seq![user], grace_days) == after) by {
        reveal_with_fuel(donation_store::all_recomputed, 2);
    }
    assert(after.accounts[at].id == other && !after.accounts[at].deleted);
    table::lemma_keyed_row::<Account>(after.accounts, other, at);
    if user == other {
        donation_store::law_totals_are_what_donations_add_up_to(b, user, grace_days);
    } else {
        law_only_the_totals_change(b, user, grace_days, at);
    }
}

proof fn lemma_all_totals(
    b: Books,
    users: Seq<Seq<char>>,
    grace_days: u32,
    user: Seq<char>,
)
    requires
        table::keyed::<Account>(b.accounts),
        lives(b.accounts, user),
        users.contains(user) || totals_follow(b, user, grace_days),
    ensures
        ({
            let after = donation_store::all_recomputed(b, users, grace_days);
            &&& table::keyed::<Account>(after.accounts)
            &&& lives(after.accounts, user)
            &&& totals_follow(after, user, grace_days)
        }),
    decreases users.len(),
{
    if users.len() > 0 {
        let rest = users.drop_last();
        let before = donation_store::all_recomputed(b, rest, grace_days);
        if rest.contains(user) || totals_follow(b, user, grace_days) {
            lemma_all_totals(b, rest, grace_days, user);
        } else {
            let k = choose|k: int| 0 <= k < users.len() && users[k] == user;
            if k < rest.len() {
                assert(rest[k] == user);
            }
            assert(users.last() == user);
            let i = choose|i: int|
                0 <= i < b.accounts.len() && #[trigger] b.accounts[i].id == user
                    && !b.accounts[i].deleted;
            lemma_recomputing_keeps_lives(b, rest, grace_days, i);
            assert(before.accounts[i].id == user);
        }
        lemma_recomputed_elsewhere(before, users.last(), grace_days, user);
    }
}

/// Once a claim took effect, the totals of everyone who lost what stands for the address of
/// the payer follow too.
pub proof fn law_totals_of_losers_follow(
    b: Books,
    d: DonationView,
    grace_days: u32,
    i: int,
)
    requires
        table::keyed::<Account>(b.accounts),
        d.state == DonationState::Claimed,
        d.user is Some,
        lives(b.accounts, d.user->Some_0),
        d.payer_hmac is Some,
        0 <= i < b.accounts.len(),
        !b.accounts[i].deleted,
        b.accounts[i].id != d.user->Some_0,
        b.accounts[i].supporter is Some,
        b.accounts[i].supporter->Some_0.payer_hmacs.contains(d.payer_hmac->Some_0),
    ensures
        totals_follow(
            donation_store::claim_applied(b, d, true, grace_days),
            b.accounts[i].id,
            grace_days,
        ),
{
    let user = d.user->Some_0;
    let hmac = d.payer_hmac->Some_0;
    let loser = b.accounts[i].id;
    lemma_lives(b.accounts, user);
    let q = donation_store::loses(user, hmac);
    let kept = b.accounts.filter(q);
    table::lemma_filter_members(b.accounts, q, b.accounts[i]);
    assert(b.accounts.contains(b.accounts[i]));
    let k = choose|k: int| 0 <= k < kept.len() && kept[k] == b.accounts[i];
    let users = donation_store::losers(b, d, true);
    assert(users[k] == loser);
    let f = donation_store::hmac_moved(user, hmac);
    let moved = Books { accounts: table::each(b.accounts, f), ..b };
    table::lemma_keyed_each::<Account>(b.accounts, f);
    assert(moved.accounts[i].id == loser);
    lemma_all_totals(moved, users, grace_days, loser);
    let before = donation_store::all_recomputed(moved, users, grace_days);
    lemma_recomputed_elsewhere(before, user, grace_days, loser);
}

/// Once a donation was assigned to a user, the totals of the user whom it counted for before
/// follow.
pub proof fn law_former_owner_is_no_longer_credited(
    b: Books,
    id: Seq<char>,
    user: Seq<char>,
    usd_cents: Option<i64>,
    now: i64,
    grace_days: u32,
    i: int,
    former: Seq<char>,
)
    requires
        table::keyed::<Donation>(b.donations),
        table::keyed::<Account>(b.accounts),
        0 <= i < b.donations.len(),
        b.donations[i].id == id,
        b.donations[i].user == Some(former),
        former != user,
        lives(b.accounts, user),
        lives(b.accounts, former),
        usd_cents matches Some(cents) ==> cents >= 1,
    ensures
        totals_follow(
            donation_store::assigned(b, id, user, usd_cents, now, grace_days).0,
            former,
            grace_days,
        ),
{
    table::lemma_keyed_row::<Donation>(b.donations, id, i);
    lemma_lives(b.accounts, user);
    let d = b.donations[i];
    let after = DonationView {
        usd_cents_override: if usd_cents is Some {
            usd_cents
        } else {
            d.usd_cents_override
        },
        ..donation_store::claimed_by(d, user, now)
    };
    let stored = donation_store::with_donation(b, after);
    let losers = donation_store::losers(stored, after, true);
    let applied = donation_store::claim_applied(stored, after, true, grace_days);
    lemma_lives(stored.accounts, user);
    let at = choose|at: int|
        0 <= at < b.accounts.len() && #[trigger] b.accounts[at].id == former
            && !b.accounts[at].deleted;
    let moves = donation_store::moves_hmac(stored, after, true);
    let f = donation_store::hmac_moved(user, after.payer_hmac->Some_0);
    let moved = if moves {
        Books { accounts: table::each(stored.accounts, f), ..stored }
    } else {
        stored
    };
    if moves {
        table::lemma_keyed_each::<Account>(stored.accounts, f);
    }
    assert(moved.accounts[at].id == former && !moved.accounts[at].deleted);
    let before = donation_store::all_recomputed(moved, losers, grace_days);
    if losers.contains(former) {
        lemma_all_totals(moved, losers, grace_days, former);
        lemma_recomputed_elsewhere(before, user, grace_days, former);
    } else {
        lemma_recomputing_keeps_lives(moved, losers, grace_days, at);
        assert(before.accounts[at].id == former);
        lemma_recomputing_keeps_lives(before, seq![user], grace_days, at);
        assert(seq![user].drop_last() =~= Seq::<Seq<char>>::empty());
        assert(donation_store::all_recomputed(before, seq![user], grace_days) == applied) by {
            reveal_with_fuel(donation_store::all_recomputed, 2);
        }
        assert(applied.accounts[at].id == former);
        lemma_recomputed_elsewhere(applied, former, grace_days, former);
    }
}

/// A message that was told before takes effect again where its donation is claimed: the
/// totals of its user follow, and what stands for the address of the payer is the user's
/// where nobody has it.
pub proof fn law_repeated_message_takes_effect(
    b: Books,
    payload: KofiPayload,
    key: Seq<char>,
    now: i64,
    stored_at: i64,
    grace_days: u32,
    i: int,
    k: int,
)
    requires
        table::keyed::<Account>(b.accounts),
        0 <= i < b.donations.len(),
        b.donations[i].message_id == payload.message_id@,
        forall|j: int|
            0 <= j < i ==> (#[trigger] b.donations[j]).message_id != payload.message_id@,
        b.donations[i].state == DonationState::Claimed,
        b.donations[i].user is Some,
        lives(b.accounts, b.donations[i].user->Some_0),
        0 <= k < b.accounts.len(),
        b.accounts[k].id == b.donations[i].user->Some_0,
    ensures
        ({
            let after = donation_store::ingested(
                b,
                payload,
                key,
                now,
                stored_at,
                grace_days,
            ).0;
            let d = b.donations[i];
            &&& totals_follow(after, d.user->Some_0, grace_days)
            &&& d.payer_hmac matches Some(hmac) ==> (forall|a: int|
                0 <= a < b.accounts.len() ==> !donation_store::holds(hmac)(
                    #[trigger] b.accounts[a],
                )) ==> donation_store::holds(hmac)(after.accounts[k])
        }),
{
    let d = b.donations[i];
    let user = d.user->Some_0;
    let q = donation_store::told_by(payload.message_id@);
    assert(q(b.donations[i]));
    table::lemma_first_row(b.donations, q, i);
    law_totals_follow_a_claim(b, d, false, grace_days);
    donation_store::lemma_claim_keeps_donations(b, d, false, grace_days);
    if d.payer_hmac is Some {
        let hmac = d.payer_hmac->Some_0;
        let p = donation_store::holds(hmac);
        if forall|a: int| 0 <= a < b.accounts.len() ==> !p(#[trigger] b.accounts[a]) {
            lemma_lives(b.accounts, user);
            let f = donation_store::hmac_moved(user, hmac);
            let moved = Books { accounts: table::each(b.accounts, f), ..b };
            let users = donation_store::losers(b, d, false).push(user);
            assert(users.drop_last() =~= donation_store::losers(b, d, false));
            let list = donation_store::supporter_of(b.accounts[k]).payer_hmacs;
            assert(list.push(hmac)[list.len() as int] == hmac);
            assert(p(moved.accounts[k]));
            donation_store::lemma_recomputing_keeps_holders(moved, users, grace_days, k, hmac);
        }
    }
}

/// A new payment that counts for a user makes what stands for the payer's address the
/// user's alone, whoever had it, and the totals of the user follow.
pub proof fn law_stored_payment_moves_the_address(
    b: Books,
    payload: KofiPayload,
    key: Seq<char>,
    now: i64,
    stored_at: i64,
    grace_days: u32,
    i: int,
)
    requires
        is_new(b, payload),
        is_sound(b, payload, key),
        is_plain(payload),
        0 <= i < b.accounts.len(),
    ensures
        ({
            let r = donation_store::ingested(b, payload, key, now, stored_at, grace_days);
            r.1.user matches Some(user) ==> {
                &&& totals_follow(r.0, user, grace_days)
                &&& r.0.accounts.len() == b.accounts.len()
                &&& r.1.payer_hmac matches Some(hmac) ==> (donation_store::holds(hmac)(
                    r.0.accounts[i],
                ) <==> b.accounts[i].id == user)
            }
        }),
{
    lemma_new(b, payload);
    let d = donation_store::donation_of(b, payload, key, now, stored_at);
    let live = donation_store::live_code(b.codes, text::opt_text(payload.message), now);
    let left = if donation_store::uses_code(b, payload, now) {
        b.codes.filter(table::without_id::<DonationClaimCode>(live->Some_0.code))
    } else {
        b.codes
    };
    let stored = Books { donations: b.donations.push(d), codes: left, ..b };
    if d.user is Some {
        let user = d.user->Some_0;
        lemma_code_owner(b, payload, key, now, user);
        lemma_holder(b, payload, key, user);
        assert(lives(b.accounts, user));
        law_totals_follow_a_claim(stored, d, true, grace_days);
        donation_store::lemma_claim_keeps_donations(stored, d, true, grace_days);
        lemma_same_length(stored, d, true, grace_days);
        if d.payer_hmac is Some {
            law_address_goes_to_the_user(stored, d, grace_days, i, Seq::empty());
        }
    }
}

proof fn lemma_same_length(b: Books, d: DonationView, take: bool, grace_days: u32)
    ensures
        donation_store::claim_applied(b, d, take, grace_days).accounts.len() == b.accounts.len(),
{
    if donation_store::takes_effect(b, d) {
        let f = donation_store::hmac_moved(d.user->Some_0, d.payer_hmac->Some_0);
        let moved = if donation_store::moves_hmac(b, d, take) {
            Books { accounts: table::each(b.accounts, f), ..b }
        } else {
            b
        };
        lemma_recomputing_keeps_length(moved, donation_store::losers(b, d, take), grace_days);
    }
}

proof fn lemma_recomputing_keeps_length(b: Books, users: Seq<Seq<char>>, grace_days: u32)
    ensures
        donation_store::all_recomputed(b, users, grace_days).accounts.len() == b.accounts.len(),
    decreases users.len(),
{
    if users.len() > 0 {
        lemma_recomputing_keeps_length(b, users.drop_last(), grace_days);
    }
}

/// A user who proved to be the payer of a transaction has what stands for the address from
/// then on, and nobody else, and the totals of the user follow.
pub proof fn law_claimed_transaction_moves_the_address(
    b: Books,
    user: Seq<char>,
    email: Seq<char>,
    transaction: Seq<char>,
    key: Seq<char>,
    now: i64,
    grace_days: u32,
    i: int,
)
    requires
        table::keyed::<Donation>(b.donations),
        table::keyed::<Account>(b.accounts),
        lives(b.accounts, user),
        0 <= i < b.accounts.len(),
        donation_store::claimed_transaction(
            b,
            user,
            email,
            transaction,
            key,
            now,
            grace_days,
        ).1 == Ok::<ClaimOutcome, Error>(ClaimOutcome::Claimed),
    ensures
        ({
            let after = donation_store::claimed_transaction(
                b,
                user,
                email,
                transaction,
                key,
                now,
                grace_days,
            ).0;
            &&& totals_follow(after, user, grace_days)
            &&& donation_store::holds(donations::hmac_of(key, email))(after.accounts[i])
                <==> b.accounts[i].id == user
        }),
{
    let id = text::trimmed(transaction);
    let d = table::row_of::<Donation>(b.donations, id);
    let after = donation_store::claimed_by(d, user, now);
    let stored = donation_store::with_donation(b, after);
    law_totals_follow_a_claim(stored, after, true, grace_days);
    donation_store::lemma_claim_keeps_donations(stored, after, true, grace_days);
    law_address_goes_to_the_user(stored, after, grace_days, i, Seq::empty());
}

/// An assigned donation makes what stands for the payer's address the user's alone, and the
/// totals of the user follow.
pub proof fn law_assignment_moves_the_address(
    b: Books,
    id: Seq<char>,
    user: Seq<char>,
    usd_cents: Option<i64>,
    now: i64,
    grace_days: u32,
    i: int,
    k: int,
)
    requires
        table::keyed::<Donation>(b.donations),
        table::keyed::<Account>(b.accounts),
        lives(b.accounts, user),
        0 <= i < b.donations.len(),
        b.donations[i].id == id,
        0 <= k < b.accounts.len(),
        usd_cents matches Some(cents) ==> cents >= 1,
    ensures
        ({
            let after = donation_store::assigned(b, id, user, usd_cents, now, grace_days).0;
            &&& totals_follow(after, user, grace_days)
            &&& b.donations[i].payer_hmac matches Some(hmac) ==> (donation_store::holds(hmac)(
                after.accounts[k],
            ) <==> b.accounts[k].id == user)
        }),
{
    table::lemma_keyed_row::<Donation>(b.donations, id, i);
    lemma_lives(b.accounts, user);
    let d = b.donations[i];
    let after = DonationView {
        usd_cents_override: if usd_cents is Some {
            usd_cents
        } else {
            d.usd_cents_override
        },
        ..donation_store::claimed_by(d, user, now)
    };
    let stored = donation_store::with_donation(b, after);
    let applied = donation_store::claim_applied(stored, after, true, grace_days);
    law_totals_follow_a_claim(stored, after, true, grace_days);
    donation_store::lemma_claim_keeps_donations(stored, after, true, grace_days);
    lemma_same_length(stored, after, true, grace_days);
    if after.payer_hmac is Some {
        law_address_goes_to_the_user(stored, after, grace_days, k, Seq::empty());
    }
    if d.user is Some {
        let former = d.user->Some_0;
        let one = seq![former];
        assert(one.drop_last() =~= Seq::<Seq<char>>::empty());
        assert(donation_store::all_recomputed(applied, one, grace_days)
            == donation_store::recomputed(applied, former, grace_days)) by {
            reveal_with_fuel(donation_store::all_recomputed, 2);
        }
        if after.payer_hmac is Some {
            donation_store::lemma_recomputing_keeps_holders(
                applied,
                one,
                grace_days,
                k,
                after.payer_hmac->Some_0,
            );
        }
        let at = choose|at: int|
            0 <= at < b.accounts.len() && #[trigger] b.accounts[at].id == user
                && !b.accounts[at].deleted;
        lemma_applied_keeps_lives(stored, after, grace_days, at);
        assert(applied.accounts[at].id == user);
        lemma_recomputed_elsewhere(applied, former, grace_days, user);
    }
}

proof fn lemma_applied_keeps_lives(b: Books, d: DonationView, grace_days: u32, at: int)
    requires
        table::keyed::<Account>(b.accounts),
        0 <= at < b.accounts.len(),
    ensures
        ({
            let after = donation_store::claim_applied(b, d, true, grace_days).accounts;
            &&& table::keyed::<Account>(after)
            &&& after.len() == b.accounts.len()
            &&& after[at].id == b.accounts[at].id
            &&& after[at].deleted == b.accounts[at].deleted
        }),
{
    if donation_store::takes_effect(b, d) {
        let user = d.user->Some_0;
        let moves = donation_store::moves_hmac(b, d, true);
        let f = donation_store::hmac_moved(user, d.payer_hmac->Some_0);
        let moved = if moves {
            Books { accounts: table::each(b.accounts, f), ..b }
        } else {
            b
        };
        if moves {
            table::lemma_keyed_each::<Account>(b.accounts, f);
        }
        let users = donation_store::losers(b, d, true).push(user);
        assert(users.drop_last() =~= donation_store::losers(b, d, true));
        lemma_recomputing_keeps_lives(moved, users, grace_days, at);
    }
}

} // verus!
