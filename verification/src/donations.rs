//! Donations: amounts, claim codes and who pays.
use crate::crypto::{self, hmac_sha256};
use crate::ids;
use crate::patterns::{self, is_match};
use crate::table::{self, copy_opt_row, KeyedRow, Row};
use crate::text::{
    self, chars_of, copy_opt, copy_texts, is_blank, same, to_hex, to_lower_case, trim,
};
use chrono::DateTime;
use rand::Rng;
use vstd::prelude::*;
use vstd::string::*;
use vstd::utf8::*;

verus! {

/// Where a donation stands.
#[derive(Clone, Copy, Debug, PartialEq, Eq)]
pub enum DonationState {
    /// Stored, but not matched to an account.
    Unclaimed,
    /// Counted for its user.
    Claimed,
    /// To be assigned by hand.
    NeedsReview,
    /// Refunded; never counted.
    Revoked,
}

/// A payment. Times are in milliseconds of the epoch.
#[derive(Debug, PartialEq, Eq)]
pub struct Donation {
    /// Id of the transaction.
    pub id: String,
    /// Id of the message that told of it; repeated messages have the same.
    pub message_id: String,
    pub kind: String,
    /// In the smallest unit of the currency.
    pub amount_cents: i64,
    /// In upper case.
    pub currency: String,
    /// What it counts for, where this was assigned.
    pub usd_cents_override: Option<i64>,
    pub is_subscription: bool,
    pub tier_name: Option<String>,
    /// When it was paid.
    pub timestamp: i64,
    /// When it was stored.
    pub stored_at: Option<i64>,
    /// The account that it counts for.
    pub user: Option<String>,
    pub claimed_at: Option<i64>,
    /// Stands for the address of the payer.
    pub payer_hmac: Option<String>,
    /// Who most likely paid, for review.
    pub claimant: Option<String>,
    pub state: DonationState,
}

/// What a [`Donation`] holds.
pub struct DonationView {
    pub id: Seq<char>,
    pub message_id: Seq<char>,
    pub kind: Seq<char>,
    pub amount_cents: i64,
    pub currency: Seq<char>,
    pub usd_cents_override: Option<i64>,
    pub is_subscription: bool,
    pub tier_name: Option<Seq<char>>,
    pub timestamp: i64,
    pub stored_at: Option<i64>,
    pub user: Option<Seq<char>>,
    pub claimed_at: Option<i64>,
    pub payer_hmac: Option<Seq<char>>,
    pub claimant: Option<Seq<char>>,
    pub state: DonationState,
}

impl View for Donation {
    type V = DonationView;

    open spec fn view(&self) -> DonationView {
        DonationView {
            id: self.id@,
            message_id: self.message_id@,
            kind: self.kind@,
            amount_cents: self.amount_cents,
            currency: self.currency@,
            usd_cents_override: self.usd_cents_override,
            is_subscription: self.is_subscription,
            tier_name: text::opt_text(self.tier_name),
            timestamp: self.timestamp,
            stored_at: self.stored_at,
            user: text::opt_text(self.user),
            claimed_at: self.claimed_at,
            payer_hmac: text::opt_text(self.payer_hmac),
            claimant: text::opt_text(self.claimant),
            state: self.state,
        }
    }
}

impl Row for Donation {
    fn dup(&self) -> (r: Self) {
        Donation {
            id: self.id.clone(),
            message_id: self.message_id.clone(),
            kind: self.kind.clone(),
            amount_cents: self.amount_cents,
            currency: self.currency.clone(),
            usd_cents_override: self.usd_cents_override,
            is_subscription: self.is_subscription,
            tier_name: copy_opt(&self.tier_name),
            timestamp: self.timestamp,
            stored_at: self.stored_at,
            user: copy_opt(&self.user),
            claimed_at: self.claimed_at,
            payer_hmac: copy_opt(&self.payer_hmac),
            claimant: copy_opt(&self.claimant),
            state: self.state,
        }
    }
}

impl KeyedRow for Donation {
    open spec fn id_of(v: DonationView) -> Seq<char> {
        v.id
    }

    fn id_is(&self, id: &str) -> (r: bool) {
        same(self.id.as_str(), id)
    }
}

/// A code that a user puts into the message of a payment. It is used once.
#[derive(Debug, PartialEq, Eq)]
pub struct DonationClaimCode {
    pub code: String,
    pub user: String,
    pub created_at: i64,
}

/// What a [`DonationClaimCode`] holds.
pub struct DonationClaimCodeView {
    pub code: Seq<char>,
    pub user: Seq<char>,
    pub created_at: i64,
}

impl View for DonationClaimCode {
    type V = DonationClaimCodeView;

    open spec fn view(&self) -> DonationClaimCodeView {
        DonationClaimCodeView {
            code: self.code@,
            user: self.user@,
            created_at: self.created_at,
        }
    }
}

impl Row for DonationClaimCode {
    fn dup(&self) -> (r: Self) {
        DonationClaimCode {
            code: self.code.clone(),
            user: self.user.clone(),
            created_at: self.created_at,
        }
    }
}

impl KeyedRow for DonationClaimCode {
    open spec fn id_of(v: DonationClaimCodeView) -> Seq<char> {
        v.code
    }

    fn id_is(&self, id: &str) -> (r: bool) {
        same(self.code.as_str(), id)
    }
}

/// What is known of a user who donated.
#[derive(Debug, PartialEq, Eq)]
pub struct Supporter {
    pub lifetime_usd_cents: i64,
    pub monthly_until: Option<i64>,
    pub payer_hmacs: Vec<String>,
    pub show_badges: bool,
}

/// What a [`Supporter`] holds.
pub struct SupporterView {
    pub lifetime_usd_cents: i64,
    pub monthly_until: Option<i64>,
    pub payer_hmacs: Seq<Seq<char>>,
    pub show_badges: bool,
}

impl View for Supporter {
    type V = SupporterView;

    open spec fn view(&self) -> SupporterView {
        SupporterView {
            lifetime_usd_cents: self.lifetime_usd_cents,
            monthly_until: self.monthly_until,
            payer_hmacs: text::texts(self.payer_hmacs@),
            show_badges: self.show_badges,
        }
    }
}

impl Row for Supporter {
    fn dup(&self) -> (r: Self) {
        Supporter {
            lifetime_usd_cents: self.lifetime_usd_cents,
            monthly_until: self.monthly_until,
            payer_hmacs: copy_texts(&self.payer_hmacs),
            show_badges: self.show_badges,
        }
    }
}

/// A user, as far as donations are concerned.
#[derive(Debug, PartialEq, Eq)]
pub struct Account {
    pub id: String,
    pub deleted: bool,
    pub supporter: Option<Supporter>,
}

/// What a [`Account`] holds.
pub struct AccountView {
    pub id: Seq<char>,
    pub deleted: bool,
    pub supporter: Option<SupporterView>,
}

impl View for Account {
    type V = AccountView;

    open spec fn view(&self) -> AccountView {
        AccountView {
            id: self.id@,
            deleted: self.deleted,
            supporter: table::opt_view(self.supporter),
        }
    }
}

impl Row for Account {
    fn dup(&self) -> (r: Self) {
        Account {
            id: self.id.clone(),
            deleted: self.deleted,
            supporter: copy_opt_row(&self.supporter),
        }
    }
}

impl KeyedRow for Account {
    open spec fn id_of(v: AccountView) -> Seq<char> {
        v.id
    }

    fn id_is(&self, id: &str) -> (r: bool) {
        same(self.id.as_str(), id)
    }
}

/// What tells of a payment.
#[derive(Clone, Debug)]
pub struct KofiPayload {
    pub verification_token: String,
    pub message_id: String,
    pub timestamp: String,
    pub kind: String,
    pub is_public: bool,
    pub from_name: Option<String>,
    pub message: Option<String>,
    pub amount: String,
    pub currency: String,
    pub email: Option<String>,
    pub kofi_transaction_id: String,
    pub is_subscription_payment: bool,
    pub is_first_subscription_payment: bool,
    pub tier_name: Option<String>,
}

/// Days for which a claim code can be used.
pub const CLAIM_CODE_TTL_DAYS: i64 = 30;

/// Days for which what stands for the address of a payer is kept with a payment that
/// nobody has claimed.
pub const PAYER_HMAC_RETENTION_DAYS: i64 = 180;

/// A decimal digit.
pub open spec fn is_digit(c: char) -> bool {
    '0' <= c && c <= '9'
}

/// Decimal digits and nothing else.
pub open spec fn all_digits(s: Seq<char>) -> bool {
    forall|i: int| 0 <= i < s.len() ==> is_digit(#[trigger] s[i])
}

/// The number that decimal digits stand for.
pub open spec fn decimal(s: Seq<char>) -> int
    decreases s.len(),
{
    if s.len() == 0 {
        0
    } else {
        10 * decimal(s.drop_last()) + (s.last() as int - '0' as int)
    }
}

/// The character between the whole and the fraction of an amount.
pub open spec fn is_point() -> spec_fn(char) -> bool {
    |c: char| c == '.'
}

/// The part of an amount before the first point.
pub open spec fn whole_of(s: Seq<char>) -> Seq<char> {
    if table::any_row(s, is_point()) {
        s.take(table::first_row(s, is_point()))
    } else {
        s
    }
}

/// The part of an amount behind the first point.
pub open spec fn fraction_of(s: Seq<char>) -> Seq<char> {
    if table::any_row(s, is_point()) {
        s.skip(table::first_row(s, is_point()) + 1)
    } else {
        Seq::empty()
    }
}

/// Whether a text is an amount: digits and, where there is a point, one or two more
/// behind it.
pub open spec fn is_amount(s: Seq<char>) -> bool {
    &&& whole_of(s).len() > 0
    &&& all_digits(whole_of(s))
    &&& fraction_of(s).len() <= 2
    &&& all_digits(fraction_of(s))
    &&& table::any_row(s, is_point()) ==> fraction_of(s).len() > 0
}

/// An amount in hundredths.
pub open spec fn cents_of(s: Seq<char>) -> int {
    100 * decimal(whole_of(s)) + if fraction_of(s).len() == 1 {
        10 * decimal(fraction_of(s))
    } else {
        decimal(fraction_of(s))
    }
}

proof fn lemma_decimal_grows(s: Seq<char>, n: int)
    requires
        all_digits(s),
        0 <= n <= s.len(),
    ensures
        0 <= decimal(s.take(n)) <= decimal(s),
    decreases s.len(),
{
    if n == s.len() {
        assert(s.take(n) =~= s);
        if n > 0 {
            lemma_decimal_grows(s.drop_last(), n - 1);
            assert(is_digit(s[n - 1]));
        }
    } else {
        assert(all_digits(s.drop_last())) by {
            assert forall|i: int| 0 <= i < s.drop_last().len() implies is_digit(
                #[trigger] s.drop_last()[i],
            ) by {
                assert(is_digit(s[i]));
            }
        }
        lemma_decimal_grows(s.drop_last(), n);
        assert(s.drop_last().take(n) =~= s.take(n));
        assert(is_digit(s[s.len() - 1]));
    }
}

/// Whether there are only digits in a part of a text.
fn only_digits(chars: &Vec<char>, from: usize, to: usize) -> (r: bool)
    requires
        from <= to <= chars@.len(),
    ensures
        r == all_digits(chars@.subrange(from as int, to as int)),
{
    let ghost part = chars@.subrange(from as int, to as int);
    let mut i: usize = from;
    while i < to
        invariant
            from <= i <= to <= chars@.len(),
            part == chars@.subrange(from as int, to as int),
            forall|k: int| 0 <= k < i - from ==> is_digit(#[trigger] part[k]),
        decreases to - i,
    {
        assert(part[i - from] == chars@[i as int]);
        if !('0' <= chars[i] && chars[i] <= '9') {
            return false;
        }
        i = i + 1;
    }
    true
}

/// The number that digits in a part of a text stand for; nothing where it does not fit.
fn number_in(chars: &Vec<char>, from: usize, to: usize) -> (r: Option<i64>)
    requires
        from <= to <= chars@.len(),
        all_digits(chars@.subrange(from as int, to as int)),
    ensures
        match r {
            Some(n) => n == decimal(chars@.subrange(from as int, to as int)),
            None => decimal(chars@.subrange(from as int, to as int)) > i64::MAX,
        },
{
    let ghost part = chars@.subrange(from as int, to as int);
    let mut n: i64 = 0;
    let mut i: usize = from;
    assert(part.take(0).len() == 0);
    while i < to
        invariant
            from <= i <= to <= chars@.len(),
            part == chars@.subrange(from as int, to as int),
            all_digits(part),
            n == decimal(part.take(i - from)),
            n >= 0,
        decreases to - i,
    {
        let ghost k = i - from;
        assert(part[k] == chars@[i as int]);
        assert(is_digit(part[k]));
        assert(part.take(k + 1).drop_last() =~= part.take(k));
        let d: i64 = (chars[i] as u32 - '0' as u32) as i64;
        if n > (i64::MAX - d) / 10 {
            proof {
                lemma_decimal_grows(part, k + 1);
            }
            return None;
        }
        n = 10 * n + d;
        i = i + 1;
    }
    assert(part.take(i - from) =~= part);
    Some(n)
}

/// An amount in hundredths. Nothing of a text that is no amount, or where it does not
/// fit.
pub fn parse_amount_cents(amount: &str) -> (r: Option<i64>)
    ensures
        match r {
            Some(cents) => is_amount(text::trimmed(amount@)) && cents == cents_of(
                text::trimmed(amount@),
            ),
            None => !is_amount(text::trimmed(amount@)) || cents_of(text::trimmed(amount@))
                > i64::MAX,
        },
{
    let amount = trim(amount);
    let chars = chars_of(amount.as_str());
    let ghost s = amount@;
    let ghost q = is_point();
    let n: usize = chars.len();
    let mut point: usize = 0;
    while point < n && chars[point] != '.'
        invariant
            n == chars@.len(),
            chars@ == s,
            point <= n,
            q == is_point(),
            forall|j: int| 0 <= j < point ==> !q(#[trigger] s[j]),
        decreases n - point,
    {
        point = point + 1;
    }
    let start: usize = if point < n {
        point + 1
    } else {
        n
    };
    proof {
        if point < n {
            assert(q(s[point as int]));
            table::lemma_first_row(s, q, point as int);
        } else {
            assert(!table::any_row(s, q));
        }
        assert(whole_of(s) =~= s.subrange(0, point as int));
        assert(fraction_of(s) =~= s.subrange(start as int, n as int));
    }
    if point == 0 || !only_digits(&chars, 0, point) || n - start > 2 || !only_digits(
        &chars,
        start,
        n,
    ) || (point < n && start == n) {
        return None;
    }
    let ghost fraction = s.subrange(start as int, n as int);
    proof {
        lemma_small_decimal(fraction);
    }
    let part: i64 = match number_in(&chars, start, n) {
        Some(part) => part,
        None => {
            return None;
        },
    };
    let cents: i64 = if n - start == 1 {
        part * 10
    } else {
        part
    };
    match number_in(&chars, 0, point) {
        Some(whole) => {
            proof {
                lemma_decimal_grows(whole_of(s), 0);
            }
            if whole > (i64::MAX - cents) / 100 {
                None
            } else {
                Some(whole * 100 + cents)
            }
        },
        None => None,
    }
}

proof fn lemma_small_decimal(s: Seq<char>)
    requires
        all_digits(s),
        s.len() <= 2,
    ensures
        0 <= decimal(s) < 100,
        s.len() <= 1 ==> decimal(s) < 10,
{
    reveal_with_fuel(decimal, 3);
    if s.len() >= 1 {
        assert(is_digit(s[0]));
        if s.len() == 2 {
            assert(is_digit(s[1]));
            assert(s.drop_last().last() == s[0]);
        }
    }
}

/// A pattern of one character that words are made of.
pub const WORD_PATTERN: &'static str = r"^\w$";

/// A character that words are made of.
pub open spec fn is_word(c: char) -> bool {
    if (c as u32) < 128 {
        ('0' <= c && c <= '9') || ('A' <= c && c <= 'Z') || ('a' <= c && c <= 'z') || c == '_'
    } else {
        patterns::pattern_matches(WORD_PATTERN@, seq![c]) == Some(true)
    }
}

/// Whether a word starts or ends at a place of a text.
pub open spec fn at_word_edge(s: Seq<char>, i: int) -> bool {
    (0 < i <= s.len() && is_word(s[i - 1])) != (0 <= i < s.len() && is_word(s[i]))
}

/// Whether a claim code stands at a place of a text, as words of its own: `KOFI-` and
/// six base-32 digits, all in either case.
pub open spec fn code_at(s: Seq<char>, i: int) -> bool {
    &&& 0 <= i
    &&& i + 11 <= s.len()
    &&& text::upper(s[i]) == 'K'
    &&& text::upper(s[i + 1]) == 'O'
    &&& text::upper(s[i + 2]) == 'F'
    &&& text::upper(s[i + 3]) == 'I'
    &&& s[i + 4] == '-'
    &&& forall|k: int| i + 5 <= k < i + 11 ==> ids::digit_value(#[trigger] s[k]) is Some
    &&& at_word_edge(s, i)
    &&& at_word_edge(s, i + 11)
}

/// The first claim code of a text from a place on, in upper case.
pub open spec fn code_from(s: Seq<char>, i: int) -> Option<Seq<char>>
    decreases s.len() - i,
{
    if i + 11 > s.len() {
        None
    } else if code_at(s, i) {
        Some("KOFI-"@ + text::ascii_upper(s.subrange(i + 5, i + 11)))
    } else {
        code_from(s, i + 1)
    }
}

fn is_word_char(c: char) -> (r: bool)
    ensures
        r == is_word(c),
{
    if (c as u32) < 128 {
        ('0' <= c && c <= '9') || ('A' <= c && c <= 'Z') || ('a' <= c && c <= 'z') || c == '_'
    } else {
        let mut one: String = String::new();
        one.push(c);
        assert(one@ =~= seq![c]);
        match is_match(WORD_PATTERN, one.as_str()) {
            Some(matches) => matches,
            None => false,
        }
    }
}

fn is_word_edge(chars: &Vec<char>, i: usize) -> (r: bool)
    requires
        i <= chars@.len(),
    ensures
        r == at_word_edge(chars@, i as int),
{
    let before: bool = i > 0 && is_word_char(chars[i - 1]);
    let after: bool = i < chars.len() && is_word_char(chars[i]);
    before != after
}

/// A base-32 digit in upper case; nothing of another character.
fn code_digit(c: char) -> (r: Option<char>)
    ensures
        match r {
            Some(u) => ids::digit_value(c) is Some && u == text::upper(c),
            None => ids::digit_value(c) is None,
        },
{
    if '0' <= c && c <= '9' {
        return Some(c);
    }
    let u: char = upper_char(c);
    if 'A' <= u && u <= 'Z' && u != 'I' && u != 'L' && u != 'O' && u != 'U' {
        Some(u)
    } else {
        None
    }
}

fn upper_char(c: char) -> (r: char)
    ensures
        r == text::upper(c),
{
    match c {
        'a' => 'A',
        'b' => 'B',
        'c' => 'C',
        'd' => 'D',
        'e' => 'E',
        'f' => 'F',
        'g' => 'G',
        'h' => 'H',
        'i' => 'I',
        'j' => 'J',
        'k' => 'K',
        'l' => 'L',
        'm' => 'M',
        'n' => 'N',
        'o' => 'O',
        'p' => 'P',
        'q' => 'Q',
        'r' => 'R',
        's' => 'S',
        't' => 'T',
        'u' => 'U',
        'v' => 'V',
        'w' => 'W',
        'x' => 'X',
        'y' => 'Y',
        'z' => 'Z',
        _ => c,
    }
}

fn code_here(chars: &Vec<char>, i: usize) -> (r: Option<String>)
    requires
        i + 11 <= chars@.len(),
    ensures
        match r {
            Some(code) => code_at(chars@, i as int) && code@ == "KOFI-"@ + text::ascii_upper(
                chars@.subrange(i + 5, i + 11),
            ),
            None => !code_at(chars@, i as int),
        },
{
    let n: usize = chars.len();
    if upper_char(chars[i]) != 'K' || upper_char(chars[i + 1]) != 'O' || upper_char(chars[i + 2])
        != 'F' || upper_char(chars[i + 3]) != 'I' || chars[i + 4] != '-' || !is_word_edge(chars, i)
        || !is_word_edge(chars, i + 11) {
        return None;
    }
    let mut out: String = "KOFI-".to_owned();
    let ghost digits = text::ascii_upper(chars@.subrange(i + 5, i + 11));
    let mut k: usize = 0;
    assert(out@ =~= "KOFI-"@ + digits.take(0));
    while k < 6
        invariant
            k <= 6,
            i + 11 <= n == chars@.len(),
            digits == text::ascii_upper(chars@.subrange(i + 5, i + 11)),
            out@ == "KOFI-"@ + digits.take(k as int),
            forall|j: int| i + 5 <= j < i + 5 + k ==> ids::digit_value(#[trigger] chars@[j]) is Some,
        decreases 6 - k,
    {
        match code_digit(chars[i + 5 + k]) {
            Some(u) => {
                out.push(u);
                assert(digits[k as int] == u);
                assert(out@ =~= "KOFI-"@ + digits.take(k + 1));
            },
            None => {
                assert(ids::digit_value(chars@[i + 5 + k]) is None);
                return None;
            },
        }
        k = k + 1;
    }
    assert(digits.take(6) =~= digits);
    Some(out)
}

/// The first claim code in a message, in upper case.
pub fn find_claim_code(message: &str) -> (r: Option<String>)
    ensures
        text::opt_text(r) == code_from(message@, 0),
{
    let chars = chars_of(message);
    let mut i: usize = 0;
    while i < chars.len() && chars.len() - i >= 11
        invariant
            chars@ == message@,
            i <= chars@.len(),
            code_from(message@, 0) == code_from(message@, i as int),
        decreases chars.len() - i,
    {
        match code_here(&chars, i) {
            Some(code) => {
                return Some(code);
            },
            None => {},
        }
        i = i + 1;
    }
    None
}

/// The digits of claim codes: decimal digits, then letters without `I`, `L`, `O` and `U`.
pub open spec fn alphabet(n: int) -> char {
    if 0 <= n <= 9 {
        ('0' as int + n) as char
    } else if n <= 17 {
        ('A' as int + n - 10) as char
    } else if n <= 19 {
        ('J' as int + n - 18) as char
    } else if n <= 21 {
        ('M' as int + n - 20) as char
    } else if n <= 26 {
        ('P' as int + n - 22) as char
    } else {
        ('V' as int + n - 27) as char
    }
}

fn alphabet_char(n: usize) -> (r: char)
    requires
        n < 32,
    ensures
        r == alphabet(n as int),
{
    match n {
        0 => '0',
        1 => '1',
        2 => '2',
        3 => '3',
        4 => '4',
        5 => '5',
        6 => '6',
        7 => '7',
        8 => '8',
        9 => '9',
        10 => 'A',
        11 => 'B',
        12 => 'C',
        13 => 'D',
        14 => 'E',
        15 => 'F',
        16 => 'G',
        17 => 'H',
        18 => 'J',
        19 => 'K',
        20 => 'M',
        21 => 'N',
        22 => 'P',
        23 => 'Q',
        24 => 'R',
        25 => 'S',
        26 => 'T',
        27 => 'V',
        28 => 'W',
        29 => 'X',
        30 => 'Y',
        _ => 'Z',
    }
}

/// `rand::Rng::gen_range` from zero on, with the generator of the thread: any number
/// below the bound.
#[verifier::external_body]
fn random_below(bound: usize) -> (r: usize)
    requires
        bound > 0,
    ensures
        r < bound,
{
    rand::thread_rng().gen_range(0..bound)
}

/// Whether a text is a claim code as they are given out.
pub open spec fn is_claim_code(s: Seq<char>) -> bool {
    &&& s.len() == 11
    &&& s.take(5) == "KOFI-"@
    &&& forall|k: int|
        5 <= k < 11 ==> ids::digit_value(#[trigger] s[k]) is Some && text::upper(s[k]) == s[k]
}

/// The claim code of six numbers below 32.
pub fn claim_code_of(numbers: &Vec<usize>) -> (r: String)
    requires
        numbers@.len() == 6,
        forall|i: int| 0 <= i < 6 ==> #[trigger] numbers@[i] < 32,
    ensures
        r@ == "KOFI-"@ + Seq::new(6, |i: int| alphabet(numbers@[i] as int)),
        is_claim_code(r@),
{
    let mut out: String = "KOFI-".to_owned();
    let ghost digits = Seq::new(6, |i: int| alphabet(numbers@[i] as int));
    let mut k: usize = 0;
    assert(out@ =~= "KOFI-"@ + digits.take(0));
    while k < 6
        invariant
            k <= 6,
            numbers@.len() == 6,
            forall|i: int| 0 <= i < 6 ==> #[trigger] numbers@[i] < 32,
            digits == Seq::new(6, |i: int| alphabet(numbers@[i] as int)),
            out@ == "KOFI-"@ + digits.take(k as int),
        decreases 6 - k,
    {
        out.push(alphabet_char(numbers[k]));
        assert(out@ =~= "KOFI-"@ + digits.take(k + 1));
        k = k + 1;
    }
    proof {
        reveal_strlit("KOFI-");
        assert(digits.take(6) =~= digits);
        assert(out@.take(5) =~= "KOFI-"@);
        assert forall|k: int| 5 <= k < 11 implies ids::digit_value(#[trigger] out@[k]) is Some
            && text::upper(out@[k]) == out@[k] by {
            assert(out@[k] == digits[k - 5]);
            assert(numbers@[k - 5] < 32);
        }
    }
    out
}

/// A random claim code.
pub fn generate_claim_code() -> (r: String)
    ensures
        is_claim_code(r@),
{
    let mut numbers: Vec<usize> = Vec::new();
    while numbers.len() < 6
        invariant
            numbers@.len() <= 6,
            forall|i: int| 0 <= i < numbers@.len() ==> #[trigger] numbers@[i] < 32,
        decreases 6 - numbers.len(),
    {
        numbers.push(random_below(32));
    }
    claim_code_of(&numbers)
}

/// A claim code that was given out is found at the start of a message, in whatever case
/// it was typed, where a word ends behind it; another code behind it does not matter.
pub proof fn law_given_codes_are_found(code: Seq<char>, typed: Seq<char>, rest: Seq<char>)
    requires
        is_claim_code(code),
        text::ascii_upper(typed) == code,
        rest.len() > 0 ==> !is_word(rest[0]),
    ensures
        code_from(typed + rest, 0) == Some(code),
{
    reveal_strlit("KOFI-");
    let s = typed + rest;
    let head = code.take(5);
    assert(code[0] == head[0] && code[1] == head[1] && code[2] == head[2] && code[3] == head[3]
        && code[4] == head[4]);
    assert(typed.len() == 11);
    assert forall|k: int| 0 <= k < 11 implies text::upper(#[trigger] s[k]) == code[k] by {
        assert(s[k] == typed[k]);
        assert(text::ascii_upper(typed)[k] == text::upper(typed[k]));
    }
    assert(text::upper(s[0]) == 'K' && text::upper(s[1]) == 'O' && text::upper(s[2]) == 'F'
        && text::upper(s[3]) == 'I' && text::upper(s[4]) == '-');
    assert forall|k: int| 5 <= k < 11 implies ids::digit_value(#[trigger] s[k]) is Some by {
        assert(text::upper(s[k]) == code[k]);
        assert(ids::digit_value(code[k]) is Some);
    }
    assert(ids::digit_value(s[10]) is Some);
    assert(is_word(s[10]));
    assert(is_word(s[0]));
    if rest.len() > 0 {
        assert(s[11] == rest[0]);
    }
    assert(at_word_edge(s, 0));
    assert(at_word_edge(s, 11));
    assert(code_at(s, 0));
    assert("KOFI-"@ + text::ascii_upper(s.subrange(5, 11)) =~= code) by {
        assert forall|k: int| 5 <= k < 11 implies text::ascii_upper(s.subrange(5, 11))[k - 5]
            == #[trigger] code[k] by {
            assert(s.subrange(5, 11)[k - 5] == s[k]);
            assert(text::upper(s[k]) == code[k]);
        }
    }
}

/// What is found is a claim code as they are given out.
pub proof fn law_found_codes_are_codes(message: Seq<char>, i: int)
    requires
        0 <= i,
        code_from(message, i) is Some,
    ensures
        is_claim_code(code_from(message, i)->Some_0),
    decreases message.len() - i,
{
    reveal_strlit("KOFI-");
    if code_at(message, i) {
        let code = code_from(message, i)->Some_0;
        assert(code.take(5) =~= "KOFI-"@);
        assert forall|k: int| 5 <= k < 11 implies ids::digit_value(#[trigger] code[k]) is Some
            && text::upper(code[k]) == code[k] by {
            let c = message[i + k];
            assert(message.subrange(i + 5, i + 11)[k - 5] == c);
            assert(code[k] == text::upper(c));
            assert(ids::digit_value(c) is Some);
        }
    } else {
        law_found_codes_are_codes(message, i + 1);
    }
}

/// Of several claim codes in a message the first is found.
pub proof fn law_first_code_wins(message: Seq<char>, from: int, i: int)
    requires
        0 <= from <= i,
        code_at(message, i),
        forall|j: int| from <= j < i ==> !#[trigger] code_at(message, j),
    ensures
        code_from(message, from) == Some(
            "KOFI-"@ + text::ascii_upper(message.subrange(i + 5, i + 11)),
        ),
    decreases i - from,
{
    if from < i {
        assert(!code_at(message, from));
        law_first_code_wins(message, from + 1, i);
    }
}

/// What stands for the address of a payer: the HMAC of the address without white space
/// around it and in lower case, in hexadecimal digits.
pub open spec fn hmac_of(key: Seq<char>, email: Seq<char>) -> Seq<char> {
    text::hex(
        crypto::hmac_sha256_of(
            encode_utf8(key),
            encode_utf8(text::lower_case(text::trimmed(email))),
        ),
    )
}

/// What stands for the address of a payer, so that the address cannot be found out from
/// it without the key.
pub fn payer_hmac(key: &str, email: &str) -> (r: String)
    ensures
        r@ == hmac_of(key@, email@),
        r@.len() == 64,
{
    let trimmed = trim(email);
    let normal = to_lower_case(trimmed.as_str());
    let bytes = hmac_sha256(key.as_bytes(), normal.as_str().as_bytes());
    proof {
        text::lemma_hex_length(bytes@);
    }
    to_hex(&bytes)
}

/// What stands for the address of a payer, where there is a key and an address.
pub open spec fn keyed_hmac_of(key: Seq<char>, email: Seq<char>) -> Option<Seq<char>> {
    if key.len() == 0 || text::blank(email) {
        None
    } else {
        Some(hmac_of(key, email))
    }
}

/// What stands for the address of a payer. Nothing without a key, as it could be found
/// out then, and nothing without an address.
pub fn keyed_payer_hmac(key: &str, email: &str) -> (r: Option<String>)
    ensures
        text::opt_text(r) == keyed_hmac_of(key@, email@),
{
    if text::length(key) == 0 || is_blank(email) {
        None
    } else {
        Some(payer_hmac(key, email))
    }
}

proof fn lemma_trimmed_front_starts(s: Seq<char>)
    ensures
        text::trimmed_front(s).len() > 0 ==> !text::white_space(text::trimmed_front(s)[0]),
    decreases s.len(),
{
    if s.len() > 0 && text::white_space(s[0]) {
        lemma_trimmed_front_starts(s.drop_first());
    }
}

proof fn lemma_trimmed_back_ends(s: Seq<char>)
    ensures
        text::trimmed_back(s).len() <= s.len(),
        text::trimmed_back(s) == s.take(text::trimmed_back(s).len() as int),
        text::trimmed_back(s).len() > 0 ==> !text::white_space(text::trimmed_back(s).last()),
    decreases s.len(),
{
    let n = text::trimmed_back(s).len() as int;
    if s.len() > 0 && text::white_space(s.last()) {
        lemma_trimmed_back_ends(s.drop_last());
        assert(s.drop_last().take(n) =~= s.take(n));
    } else {
        assert(s.take(n) =~= s);
    }
}

/// White space around an address makes no difference to what stands for it.
pub proof fn law_payer_hmac_ignores_space_around(key: Seq<char>, email: Seq<char>)
    ensures
        hmac_of(key, text::trimmed(email)) == hmac_of(key, email),
{
    let front = text::trimmed_front(email);
    let all = text::trimmed(email);
    lemma_trimmed_front_starts(email);
    lemma_trimmed_back_ends(front);
    if all.len() > 0 {
        assert(all[0] == front[0]);
    }
    assert(text::trimmed_front(all) == all);
    assert(text::trimmed_back(all) == all);
}

/// The instant that a text tells, in milliseconds of the epoch.
pub uninterp spec fn rfc3339_ms(text: Seq<char>) -> Option<i64>;

/// `chrono::DateTime::parse_from_rfc3339` and, where it takes the text,
/// `timestamp_millis` of what it gives. What it gives is given a name.
#[verifier::external_body]
fn parse_rfc3339(text: &str) -> (r: Option<i64>)
    ensures
        r == rfc3339_ms(text@),
{
    match DateTime::parse_from_rfc3339(text) {
        Ok(at) => Some(at.timestamp_millis()),
        Err(_) => None,
    }
}

/// The instant that a text tells, in milliseconds of the epoch.
pub fn parse_timestamp_ms(timestamp: &str) -> (r: Option<i64>)
    ensures
        r == rfc3339_ms(text::trimmed(timestamp@)),
{
    let trimmed = trim(timestamp);
    parse_rfc3339(trimmed.as_str())
}

/// What a claimed donation counts for, in hundredths of dollars: what was assigned, or
/// else what was paid in dollars.
pub open spec fn counted(d: DonationView) -> i64 {
    match d.usd_cents_override {
        Some(cents) => cents,
        None => if d.currency == "USD"@ {
            d.amount_cents
        } else {
            0
        },
    }
}

/// What a claimed donation counts for, in hundredths of dollars.
pub fn counted_usd_cents(donation: &Donation) -> (r: i64)
    ensures
        r == counted(donation@),
{
    match donation.usd_cents_override {
        Some(cents) => cents,
        None => if same(donation.currency.as_str(), "USD") {
            donation.amount_cents
        } else {
            0
        },
    }
}

} // verus!
