//! Bringing a database up to date: which steps are due, and what they make of the
//! documents that have to be read first.
use crate::cache::Topics;
use crate::channels::OverrideField;
use crate::ids::{self, time_of_id};
use crate::patterns::{self, is_match};
use crate::schema::{
    self, fresh_step_at, migration_step_at, plain_index, revision_at, unique_index, Index, Only,
    PermissionBits, Step, FRESH_STEPS, LATEST_REVISION, MIGRATION_STEPS,
};
use crate::table;
use crate::text::{self, contains_text, joined};
use crate::timestamps::{self, format_instant};
use rand::seq::SliceRandom;
use unicode_segmentation::UnicodeSegmentation;
use vstd::prelude::*;
use vstd::string::*;
use vstd::utf8::*;

verus! {

/// The steps among the first ones of all migrations that a database of a revision has
/// yet to take.
pub open spec fn pending_among(revision: i32, bits: PermissionBits, n: int) -> Seq<Step>
    decreases n,
{
    if n <= 0 {
        Seq::empty()
    } else {
        let rest = pending_among(revision, bits, n - 1);
        let i = (n - 1) as usize;
        if revision <= schema::revision_of(i) {
            rest.push(schema::migration_step(i, bits))
        } else {
            rest
        }
    }
}

/// The steps that a database of a revision has yet to take.
pub open spec fn pending(revision: i32, bits: PermissionBits) -> Seq<Step> {
    pending_among(revision, bits, schema::MIGRATION_STEPS as int)
}

/// The revision of a database once the steps were taken.
pub open spec fn revision_after(revision: i32) -> i32 {
    if revision < schema::LATEST_REVISION {
        schema::LATEST_REVISION
    } else {
        revision
    }
}

/// The steps that a fresh database is made by.
pub fn create_database() -> (r: Vec<Step>)
    ensures
        r@ == Seq::new(schema::FRESH_STEPS as nat, |i: int| schema::fresh_step(i as usize)),
{
    let mut out: Vec<Step> = Vec::new();
    let ghost all = Seq::new(
        schema::FRESH_STEPS as nat,
        |i: int| schema::fresh_step(i as usize),
    );
    let mut i: usize = 0;
    while i < FRESH_STEPS
        invariant
            i <= schema::FRESH_STEPS,
            all == Seq::new(
                schema::FRESH_STEPS as nat,
                |i: int| schema::fresh_step(i as usize),
            ),
            out@ == all.take(i as int),
        decreases schema::FRESH_STEPS - i,
    {
        out.push(fresh_step_at(i));
        assert(all.take(i + 1) =~= all.take(i as int).push(all[i as int]));
        i = i + 1;
    }
    assert(all.take(i as int) =~= all);
    out
}

/// The steps that a database of a revision has yet to take, and its revision once they
/// were taken.
pub fn run_migrations(revision: i32, bits: PermissionBits) -> (r: (Vec<Step>, i32))
    ensures
        r.0@ == pending(revision, bits),
        r.1 == revision_after(revision),
{
    let mut out: Vec<Step> = Vec::new();
    let mut i: usize = 0;
    while i < MIGRATION_STEPS
        invariant
            i <= schema::MIGRATION_STEPS,
            out@ == pending_among(revision, bits, i as int),
        decreases schema::MIGRATION_STEPS - i,
    {
        if revision <= revision_at(i) {
            out.push(migration_step_at(i, bits));
        }
        i = i + 1;
    }
    let after: i32 = if revision < LATEST_REVISION {
        LATEST_REVISION
    } else {
        revision
    };
    (out, after)
}

/// Nothing is due among the first steps where a later one is not due.
proof fn lemma_none_before(revision: i32, bits: PermissionBits, n: int)
    requires
        0 <= n <= schema::MIGRATION_STEPS,
        n > 0 ==> schema::revision_of((n - 1) as usize) < revision,
    ensures
        pending_among(revision, bits, n) == Seq::<Step>::empty(),
    decreases n,
{
    if n > 1 {
        schema::lemma_migrations_in_order((n - 2) as usize, (n - 1) as usize);
    }
    if n > 0 {
        lemma_none_before(revision, bits, n - 1);
    }
}

proof fn lemma_pending_is_a_suffix(earlier: i32, later: i32, bits: PermissionBits, n: int) -> (before:
    Seq<Step>)
    requires
        earlier <= later,
        0 <= n <= schema::MIGRATION_STEPS,
    ensures
        pending_among(earlier, bits, n) == before + pending_among(later, bits, n),
    decreases n,
{
    let all = pending_among(earlier, bits, n);
    if n == 0 {
        assert(all =~= Seq::<Step>::empty() + pending_among(later, bits, n));
        Seq::empty()
    } else if later <= schema::revision_of((n - 1) as usize) {
        let before = lemma_pending_is_a_suffix(earlier, later, bits, n - 1);
        assert(all =~= before + pending_among(later, bits, n));
        before
    } else {
        lemma_none_before(later, bits, n);
        assert(all =~= all + pending_among(later, bits, n));
        all
    }
}

/// What a later database has yet to do is the end of what an earlier one has yet to do:
/// migrations are taken in one order, and none is skipped.
pub proof fn law_pending_shrinks_from_the_front(earlier: i32, later: i32, bits: PermissionBits)
    requires
        earlier <= later,
    ensures
        exists|before: Seq<Step>|
            #![trigger before + pending(later, bits)]
            pending(earlier, bits) == before + pending(later, bits),
{
    let before = lemma_pending_is_a_suffix(
        earlier,
        later,
        bits,
        schema::MIGRATION_STEPS as int,
    );
    assert(pending(earlier, bits) == before + pending(later, bits));
}

/// Once migrated, a database is at the latest revision or beyond, never goes back, and
/// has nothing more to do.
pub proof fn law_migrated_database_is_up_to_date(revision: i32, bits: PermissionBits)
    ensures
        revision_after(revision) >= schema::LATEST_REVISION,
        revision_after(revision) >= revision,
        pending(revision_after(revision), bits).len() == 0,
{
    let last = (schema::MIGRATION_STEPS - 1) as usize;
    schema::lemma_migrations_in_order(last, last);
    lemma_none_before(revision_after(revision), bits, schema::MIGRATION_STEPS as int);
}

/// A fresh database notes the latest revision, so it has nothing to migrate.
pub proof fn law_fresh_database_is_up_to_date(bits: PermissionBits)
    ensures
        exists|i: usize|
            #![trigger schema::fresh_step(i)]
            i < schema::FRESH_STEPS && schema::fresh_step(i) == (Step::Record {
                revision: schema::LATEST_REVISION,
            }),
        pending(schema::LATEST_REVISION, bits).len() == 0,
{
    law_migrated_database_is_up_to_date(schema::LATEST_REVISION, bits);
    assert(schema::fresh_step(81usize) == (Step::Record { revision: schema::LATEST_REVISION }));
}

/// A session as accounts used to hold it.
#[derive(Debug, PartialEq, Eq)]
pub struct OldSession {
    pub id: String,
    pub token: String,
    pub friendly_name: String,
    /// In its encoded form.
    pub subscription: Option<String>,
}

/// A session in a collection of its own.
#[derive(Debug, PartialEq, Eq)]
pub struct Session {
    pub id: String,
    pub token: String,
    pub user_id: String,
    pub name: String,
    pub subscription: Option<String>,
}

impl OldSession {
    /// The session of an account in the form that it is stored in now.
    pub fn moved(self, account_id: &str) -> (r: Session)
        ensures
            r.id == self.id,
            r.token == self.token,
            r.user_id@ == account_id@,
            r.name == self.friendly_name,
            r.subscription == self.subscription,
    {
        Session {
            id: self.id,
            token: self.token,
            user_id: account_id.to_owned(),
            name: self.friendly_name,
            subscription: self.subscription,
        }
    }
}

/// The last message of a channel as it used to be stored.
#[derive(Debug, PartialEq, Eq)]
pub enum LastMessage {
    Object { id: String },
    Id(String),
}

impl LastMessage {
    /// The id of the message.
    pub fn id(self) -> (r: String)
        ensures
            r == match self {
                LastMessage::Object { id } => id,
                LastMessage::Id(id) => id,
            },
    {
        match self {
            LastMessage::Object { id } => id,
            LastMessage::Id(id) => id,
        }
    }
}

/// The permission to send messages.
pub const SEND_MESSAGE: i64 = 4_194_304;

/// What servers grant by default once their permissions were wiped.
pub const WIPED_DEFAULT: i64 = 4_000_323_584;

/// Whether the old permissions of a channel allowed to send messages.
pub open spec fn used_to_send(permissions: i32) -> bool {
    (permissions as u32) & 2u32 == 2u32
}

/// What a server grants by default: sending messages only where it was granted. The
/// number is the old permissions in channels, where they could be read.
pub fn server_permissions(old_in_channels: Option<i32>) -> (r: i64)
    ensures
        r == if old_in_channels is Some && used_to_send(old_in_channels->Some_0) {
            WIPED_DEFAULT as int
        } else {
            WIPED_DEFAULT - SEND_MESSAGE
        },
{
    let has_send: bool = match old_in_channels {
        Some(permissions) => (#[verifier::truncate] (permissions as u32)) & 2u32 == 2u32,
        None => false,
    };
    let removed: u64 = if has_send {
        0
    } else {
        4_194_304
    };
    assert(4_000_323_584u64 ^ 0u64 == 4_000_323_584u64) by (bit_vector);
    assert(4_000_323_584u64 ^ 4_194_304u64 == 3_996_129_280u64) by (bit_vector);
    let granted: u64 = 4_000_323_584u64 ^ removed;
    granted as i64
}

/// The permissions that roles of servers have once they were wiped: none allowed, none
/// denied.
pub fn wiped_role() -> (r: OverrideField)
    ensures
        r.a == 0,
        r.d == 0,
{
    OverrideField { a: 0, d: 0 }
}

/// What a channel overrides by default: nothing where sending was allowed or nothing
/// could be read, so that the server decides; else sending is denied.
pub fn channel_permissions(old: Option<i32>) -> (r: Option<OverrideField>)
    ensures
        r == if old is None || used_to_send(old->Some_0) {
            None
        } else {
            Some(OverrideField { a: 0, d: SEND_MESSAGE })
        },
{
    let has_send: bool = match old {
        Some(permissions) => (#[verifier::truncate] (permissions as u32)) & 2u32 == 2u32,
        None => true,
    };
    if has_send {
        None
    } else {
        Some(OverrideField { a: 0, d: SEND_MESSAGE })
    }
}

/// The collections that hold accounts.
pub open spec fn account_collections() -> Seq<&'static str> {
    seq!["accounts", "sessions", "invites", "mfa_tickets"]
}

/// What makes the collections that are missing.
pub open spec fn making_missing(existing: Seq<Seq<char>>, names: Seq<&'static str>) -> Seq<Step>
    decreases names.len(),
{
    if names.len() == 0 {
        Seq::empty()
    } else {
        let rest = making_missing(existing, names.drop_last());
        if existing.contains(names.last()@) {
            rest
        } else {
            rest.push(Step::CreateCollection { name: names.last(), may_exist: false })
        }
    }
}

/// The indexes of accounts, each collection first freed of those that it has.
pub open spec fn account_indexes() -> Seq<Step> {
    seq![
        Step::DropAllIndexes { collection: "accounts" },
        folded_unique("accounts", "email"),
        folded_unique("accounts", "email_normalised"),
        schema::plain_index("accounts", "email_verification", "verification.token", None, None),
        schema::plain_index("accounts", "password_reset", "password_reset.token", None, None),
        Step::DropAllIndexes { collection: "sessions" },
        schema::unique_index("sessions", "token", "token", None, None),
        schema::plain_index("sessions", "user_id", "user_id", None, None),
        Step::DropAllIndexes { collection: "mfa_tickets" },
        schema::unique_index("mfa_tickets", "token", "token", None, None),
    ]
}

/// An index over one field of the same name that keeps documents apart and does not tell
/// letters of different case apart.
#[verifier::allow_in_spec]
pub fn folded_unique(collection: &'static str, name: &'static str) -> (r: Step)
    returns
        (Step::CreateIndex {
            collection,
            index: Index {
                name,
                first: name,
                second: None,
                third: None,
                text: false,
                unique: true,
                sparse: false,
                folded: true,
                only: Only::All,
            },
        }),
{
    Step::CreateIndex {
        collection,
        index: Index {
            name,
            first: name,
            second: None,
            third: None,
            text: false,
            unique: true,
            sparse: false,
            folded: true,
            only: Only::All,
        },
    }
}

fn make_missing(out: &mut Vec<Step>, existing: &Vec<String>, name: &'static str)
    ensures
        final(out)@ == if text::texts(existing@).contains(name@) {
            old(out)@
        } else {
            old(out)@.push(Step::CreateCollection { name, may_exist: false })
        },
{
    if !contains_text(existing, name) {
        out.push(Step::CreateCollection { name, may_exist: false });
    }
}

/// The steps that bring the storage of accounts up to date: none where the tickets have
/// their index already.
pub fn authifier_steps(ticket_indexes: &Vec<String>, collections: &Vec<String>) -> (r: Vec<Step>)
    ensures
        r@ == if text::texts(ticket_indexes@).contains("token"@) {
            Seq::empty()
        } else {
            making_missing(text::texts(collections@), account_collections()) + account_indexes()
        },
{
    let mut out: Vec<Step> = Vec::new();
    if contains_text(ticket_indexes, "token") {
        return out;
    }
    let ghost existing = text::texts(collections@);
    make_missing(&mut out, collections, "accounts");
    make_missing(&mut out, collections, "sessions");
    make_missing(&mut out, collections, "invites");
    make_missing(&mut out, collections, "mfa_tickets");
    proof {
        let all = account_collections();
        reveal_with_fuel(making_missing, 5);
        assert(all.drop_last() =~= seq!["accounts", "sessions", "invites"]);
        assert(all.drop_last().drop_last() =~= seq!["accounts", "sessions"]);
        assert(all.drop_last().drop_last().drop_last() =~= seq!["accounts"]);
        assert(out@ =~= making_missing(existing, all));
    }
    let ghost made = out@;
    out.push(Step::DropAllIndexes { collection: "accounts" });
    out.push(folded_unique("accounts", "email"));
    out.push(folded_unique("accounts", "email_normalised"));
    out.push(plain_index("accounts", "email_verification", "verification.token", None, None));
    out.push(plain_index("accounts", "password_reset", "password_reset.token", None, None));
    out.push(Step::DropAllIndexes { collection: "sessions" });
    out.push(unique_index("sessions", "token", "token", None, None));
    out.push(plain_index("sessions", "user_id", "user_id", None, None));
    out.push(Step::DropAllIndexes { collection: "mfa_tickets" });
    out.push(unique_index("mfa_tickets", "token", "token", None, None));
    assert(out@ =~= made + account_indexes());
    out
}

/// The index for the deletion of accounts, where accounts do not have it.
pub fn account_deletion_step(indexes: &Vec<String>) -> (r: Option<Step>)
    ensures
        r == if text::texts(indexes@).contains("account_deletion"@) {
            None
        } else {
            Some(
                schema::plain_index("accounts", "account_deletion", "deletion.token", None, None),
            )
        },
{
    if contains_text(indexes, "account_deletion") {
        None
    } else {
        Some(plain_index("accounts", "account_deletion", "deletion.token", None, None))
    }
}

/// The channel of a webhook.
#[derive(Debug, PartialEq, Eq)]
pub enum WebhookChannel {
    Group { owner: String },
    TextChannel { server: String },
    VoiceChannel { server: String },
}

/// What becomes of a webhook.
#[derive(Debug, PartialEq, Eq)]
pub enum WebhookFate {
    /// It goes, as its channel has.
    Delete,
    /// It was made by a user.
    CreatedBy(String),
    /// It was made by the owner of a server.
    CreatedByOwnerOf(String),
}

/// What becomes of a webhook, by its channel.
pub fn webhook_fate(channel: Option<WebhookChannel>) -> (r: WebhookFate)
    ensures
        r == match channel {
            None => WebhookFate::Delete,
            Some(WebhookChannel::Group { owner }) => WebhookFate::CreatedBy(owner),
            Some(WebhookChannel::TextChannel { server }) => WebhookFate::CreatedByOwnerOf(server),
            Some(WebhookChannel::VoiceChannel { server }) => WebhookFate::CreatedByOwnerOf(
                server,
            ),
        },
{
    match channel {
        None => WebhookFate::Delete,
        Some(WebhookChannel::Group { owner }) => WebhookFate::CreatedBy(owner),
        Some(WebhookChannel::TextChannel { server }) => WebhookFate::CreatedByOwnerOf(server),
        Some(WebhookChannel::VoiceChannel { server }) => WebhookFate::CreatedByOwnerOf(server),
    }
}

/// When a session was last seen, as far as known: when its id was made. Nothing where
/// the text is no id, or tells a time after the year 9999.
pub fn last_seen(session_id: &str) -> (r: Option<String>)
    ensures
        match r {
            Some(seen) => ids::is_id(session_id@) && ids::made_at(session_id@)
                <= timestamps::LAST_MS && seen@ == timestamps::instant_text(
                ids::made_at(session_id@) as u64,
            ),
            None => !ids::is_id(session_id@) || ids::made_at(session_id@) > timestamps::LAST_MS,
        },
{
    match time_of_id(session_id) {
        Some(ms) => {
            if ms <= timestamps::LAST_MS {
                Some(format_instant(ms))
            } else {
                None
            }
        },
        None => None,
    }
}

/// How many of the first ranks come before one: those below it, and of those equal to
/// it the ones that stand before it.
pub open spec fn ranks_before(ranks: Seq<i64>, at: int, n: int) -> int
    decreases n,
{
    if n <= 0 {
        0
    } else {
        ranks_before(ranks, at, n - 1) + if ranks[n - 1] < ranks[at] || (ranks[n - 1]
            == ranks[at] && n - 1 < at) {
            1int
        } else {
            0
        }
    }
}

proof fn lemma_ranks_before_monotone(ranks: Seq<i64>, a: int, b: int, n: int)
    requires
        0 <= a < ranks.len(),
        0 <= b < ranks.len(),
        ranks[a] < ranks[b] || (ranks[a] == ranks[b] && a < b),
        0 <= n <= ranks.len(),
    ensures
        0 <= ranks_before(ranks, a, n) <= ranks_before(ranks, b, n) <= n,
        n > a ==> ranks_before(ranks, a, n) < ranks_before(ranks, b, n),
        n > b ==> ranks_before(ranks, b, n) < n,
    decreases n,
{
    if n > 0 {
        lemma_ranks_before_monotone(ranks, a, b, n - 1);
    }
}

proof fn lemma_ranks_before_bound(ranks: Seq<i64>, a: int, n: int)
    requires
        0 <= a < ranks.len(),
        0 <= n <= ranks.len(),
    ensures
        0 <= ranks_before(ranks, a, n) <= n,
        n > a ==> ranks_before(ranks, a, n) < n,
    decreases n,
{
    if n > 0 {
        lemma_ranks_before_bound(ranks, a, n - 1);
    }
}

/// The positions of roles by their ranks, from zero on: no two roles share one, and a
/// role of lower rank has a lower one.
pub fn role_positions(ranks: &Vec<i64>) -> (r: Vec<i64>)
    requires
        ranks@.len() <= i64::MAX,
    ensures
        r@.len() == ranks@.len(),
        forall|i: int| 0 <= i < r@.len() ==> 0 <= #[trigger] r@[i] < r@.len(),
        forall|i: int, j: int|
            0 <= i < r@.len() && 0 <= j < r@.len() && i != j ==> #[trigger] r@[i]
                != #[trigger] r@[j],
        forall|i: int, j: int|
            0 <= i < r@.len() && 0 <= j < r@.len() && ranks@[i] < ranks@[j]
                ==> #[trigger] r@[i] < #[trigger] r@[j],
{
    let mut out: Vec<i64> = Vec::new();
    let mut i: usize = 0;
    while i < ranks.len()
        invariant
            i <= ranks.len(),
            ranks@.len() <= i64::MAX,
            out@.len() == i,
            forall|k: int|
                0 <= k < i ==> #[trigger] out@[k] == ranks_before(
                    ranks@,
                    k,
                    ranks@.len() as int,
                ),
        decreases ranks.len() - i,
    {
        let mut position: i64 = 0;
        let mut j: usize = 0;
        while j < ranks.len()
            invariant
                i < ranks.len(),
                j <= ranks.len(),
                ranks@.len() <= i64::MAX,
                position == ranks_before(ranks@, i as int, j as int),
                0 <= position <= j,
            decreases ranks.len() - j,
        {
            if ranks[j] < ranks[i] || (ranks[j] == ranks[i] && j < i) {
                position = position + 1;
            }
            j = j + 1;
        }
        out.push(position);
        i = i + 1;
    }
    proof {
        let n = ranks@.len() as int;
        assert forall|i: int| 0 <= i < out@.len() implies 0 <= #[trigger] out@[i] < out@.len() by {
            lemma_ranks_before_bound(ranks@, i, n);
        }
        assert forall|i: int, j: int|
            0 <= i < out@.len() && 0 <= j < out@.len() && i != j implies #[trigger] out@[i]
            != #[trigger] out@[j] by {
            if ranks@[i] < ranks@[j] || (ranks@[i] == ranks@[j] && i < j) {
                lemma_ranks_before_monotone(ranks@, i, j, n);
            } else {
                lemma_ranks_before_monotone(ranks@, j, i, n);
            }
        }
        assert forall|i: int, j: int|
            0 <= i < out@.len() && 0 <= j < out@.len() && ranks@[i] < ranks@[j] implies
            #[trigger] out@[i] < #[trigger] out@[j] by {
            lemma_ranks_before_monotone(ranks@, i, j, n);
        }
    }
    out
}

/// The path of a field of a role in its server.
pub fn role_field(role_id: &str, field: &str) -> (r: String)
    ensures
        r@ == "roles."@ + role_id@ + "."@ + field@,
{
    let start = joined("roles.", role_id);
    let dotted = joined(start.as_str(), ".");
    joined(dotted.as_str(), field)
}

/// What usernames may be made of.
pub const USERNAME_PATTERN: &'static str = r"^(\p{L}|[\d_.-])+$";

/// The extended grapheme clusters of a text.
pub uninterp spec fn graphemes_of(text: Seq<char>) -> Seq<Seq<char>>;

/// `unicode_segmentation::UnicodeSegmentation::graphemes`, of extended grapheme clusters,
/// as texts. The clusters are given a name.
#[verifier::external_body]
fn graphemes(text: &str) -> (r: Vec<String>)
    ensures
        text::texts(r@) == graphemes_of(text@),
{
    text.graphemes(true).map(String::from).collect()
}

/// `rand::seq::SliceRandom::choose`, with the generator of the thread: an element of the
/// list, whichever; nothing of an empty list.
#[verifier::external_body]
fn choose_text(list: &Vec<String>) -> (r: Option<&String>)
    ensures
        match r {
            Some(s) => list@.contains(*s),
            None => list@.len() == 0,
        },
{
    list.choose(&mut rand::thread_rng())
}

/// Whether a text is made of what usernames may be made of.
pub open spec fn compliant(name: Seq<char>) -> bool {
    patterns::pattern_matches(USERNAME_PATTERN@, name) == Some(true)
}

/// Texts, one after the other.
pub open spec fn concatenated(parts: Seq<Seq<char>>) -> Seq<char>
    decreases parts.len(),
{
    if parts.len() == 0 {
        Seq::empty()
    } else {
        concatenated(parts.drop_last()) + parts.last()
    }
}

/// The clusters of a text that usernames may be made of, one after the other.
pub open spec fn sanitised(clusters: Seq<Seq<char>>) -> Seq<char> {
    concatenated(clusters.filter(|c: Seq<char>| compliant(c)))
}

/// A text with underscores behind it, up to two bytes.
pub open spec fn padded(s: Seq<char>) -> Seq<char> {
    if encode_utf8(s).len() == 0 {
        s.push('_').push('_')
    } else if encode_utf8(s).len() == 1 {
        s.push('_')
    } else {
        s
    }
}

/// The username that a user has from now on.
pub open spec fn new_username(name: Seq<char>) -> Seq<char> {
    if compliant(name) {
        name
    } else {
        padded(sanitised(graphemes_of(name)))
    }
}

/// Whether a username may stay as it is.
pub fn is_compliant(name: &str) -> (r: bool)
    ensures
        r == compliant(name@),
{
    match is_match(USERNAME_PATTERN, name) {
        Some(matches) => matches,
        None => false,
    }
}

/// What is left of clusters of a text for a username.
pub fn sanitise(clusters: &Vec<String>) -> (r: String)
    ensures
        r@ == padded(sanitised(text::texts(clusters@))),
{
    let ghost all = text::texts(clusters@);
    let ghost q = |c: Seq<char>| compliant(c);
    let mut out: String = "".to_owned();
    let mut i: usize = 0;
    proof {
        reveal_strlit("");
        reveal(Seq::filter);
        assert(all.take(0).filter(q).len() == 0);
        assert(out@ =~= concatenated(all.take(0).filter(q)));
    }
    while i < clusters.len()
        invariant
            i <= clusters.len(),
            all == text::texts(clusters@),
            q == (|c: Seq<char>| compliant(c)),
            out@ == concatenated(all.take(i as int).filter(q)),
        decreases clusters.len() - i,
    {
        proof {
            crate::table::lemma_filter_take(all, q, i as int);
        }
        if is_compliant(clusters[i].as_str()) {
            let ghost kept = all.take(i as int).filter(q);
            out.append(clusters[i].as_str());
            assert(kept.push(all[i as int]).drop_last() =~= kept);
        }
        i = i + 1;
    }
    assert(all.take(i as int) =~= all);
    let ghost kept = out@;
    let bytes: usize = out.as_str().as_bytes().len();
    if bytes == 0 {
        out.append("__");
        proof {
            reveal_strlit("__");
            assert(out@ =~= kept.push('_').push('_'));
        }
    } else if bytes == 1 {
        out.append("_");
        proof {
            reveal_strlit("_");
            assert(out@ =~= kept.push('_'));
        }
    }
    out
}

/// The username that a user has from now on.
pub fn migrated_username(name: &str) -> (r: String)
    ensures
        r@ == new_username(name@),
{
    if is_compliant(name) {
        name.to_owned()
    } else {
        sanitise(&graphemes(name))
    }
}

/// A user without a discriminator.
#[derive(Debug, PartialEq, Eq)]
pub struct UserInformation {
    pub id: String,
    pub username: String,
}

/// What a user has from now on. Where the username had to be changed, the old one is
/// displayed.
#[derive(Debug, PartialEq, Eq)]
pub struct Discriminated {
    pub id: String,
    pub username: String,
    pub discriminator: String,
    pub display_name: Option<String>,
}

/// A username and a discriminator, which no two users share.
pub open spec fn tag_of(username: Seq<char>, discriminator: Seq<char>) -> Seq<char> {
    username + "#"@ + discriminator
}

/// Whether this is what becomes of a user under a discriminator.
pub open spec fn is_discriminated(user: UserInformation, d: Discriminated) -> bool {
    &&& d.id@ == user.id@
    &&& d.username@ == new_username(user.username@)
    &&& text::opt_text(d.display_name) == if compliant(user.username@) {
        None
    } else {
        Some(user.username@)
    }
}

/// The discriminators that a username can still get.
pub open spec fn is_free(claimed: Set<Seq<char>>, username: Seq<char>, discriminator: Seq<char>) -> bool {
    !claimed.contains(tag_of(username, discriminator))
}

fn tag(username: &str, discriminator: &str) -> (r: String)
    ensures
        r@ == tag_of(username@, discriminator@),
{
    let start = joined(username, "#");
    joined(start.as_str(), discriminator)
}

/// Gives a user a discriminator. Nothing where the username has it already.
pub fn discriminate_as(claimed: &mut Topics, user: &UserInformation, discriminator: &str) -> (r:
    Option<Discriminated>)
    ensures
        match r {
            Some(d) => {
                &&& is_free(old(claimed)@, new_username(user.username@), discriminator@)
                &&& is_discriminated(*user, d)
                &&& d.discriminator@ == discriminator@
                &&& final(claimed)@ == old(claimed)@.insert(
                    tag_of(new_username(user.username@), discriminator@),
                )
            },
            None => !is_free(old(claimed)@, new_username(user.username@), discriminator@)
                && final(claimed)@ == old(claimed)@,
        },
{
    let username = migrated_username(user.username.as_str());
    let own = tag(username.as_str(), discriminator);
    if claimed.contains(own.as_str()) {
        return None;
    }
    claimed.insert(own);
    let display_name = if is_compliant(user.username.as_str()) {
        None
    } else {
        Some(user.username.clone())
    };
    Some(
        Discriminated {
            id: user.id.clone(),
            username,
            discriminator: discriminator.to_owned(),
            display_name,
        },
    )
}

/// The discriminators of a list that a username can still get.
pub fn free_discriminators(claimed: &Topics, username: &str, space: &Vec<String>) -> (r: Vec<String>)
    ensures
        text::texts(r@) == text::texts(space@).filter(
            |d: Seq<char>| is_free(claimed@, username@, d),
        ),
{
    let ghost all = text::texts(space@);
    let ghost q = |d: Seq<char>| is_free(claimed@, username@, d);
    let mut out: Vec<String> = Vec::new();
    let mut i: usize = 0;
    proof {
        reveal(Seq::filter);
        assert(text::texts(out@) =~= all.take(0).filter(q));
    }
    while i < space.len()
        invariant
            i <= space.len(),
            all == text::texts(space@),
            q == (|d: Seq<char>| is_free(claimed@, username@, d)),
            text::texts(out@) == all.take(i as int).filter(q),
        decreases space.len() - i,
    {
        proof {
            crate::table::lemma_filter_take(all, q, i as int);
        }
        let own = tag(username, space[i].as_str());
        if !claimed.contains(own.as_str()) {
            let ghost before = text::texts(out@);
            out.push(space[i].clone());
            assert(text::texts(out@) =~= before.push(all[i as int]));
        }
        i = i + 1;
    }
    assert(all.take(i as int) =~= all);
    out
}

/// The tags that users were given.
pub open spec fn tags_of(list: Seq<Discriminated>) -> Seq<Seq<char>> {
    Seq::new(list.len(), |i: int| tag_of(list[i].username@, list[i].discriminator@))
}

/// How many users have a username from now on.
pub open spec fn users_named(users: Seq<UserInformation>, username: Seq<char>) -> nat
    decreases users.len(),
{
    if users.len() == 0 {
        0
    } else {
        users_named(users.drop_last(), username) + if new_username(users.last().username@)
            == username {
            1nat
        } else {
            0nat
        }
    }
}

/// Whether discriminators tell users of one username apart and never run into a username:
/// they are all different, and none holds the mark that comes before a discriminator.
pub open spec fn tells_apart(space: Seq<Seq<char>>) -> bool {
    space.no_duplicates() && forall|d: Seq<char>| #[trigger] space.contains(d) ==> !d.contains('#')
}

/// Gives each user a random discriminator that its username does not have yet. Nothing
/// where a username runs out of discriminators, that is, where more users have it than
/// there are discriminators.
pub fn discriminate(users: &Vec<UserInformation>, space: &Vec<String>) -> (r: Option<
    Vec<Discriminated>,
>)
    ensures
        r matches Some(list) ==> {
            &&& list@.len() == users@.len()
            &&& forall|i: int|
                0 <= i < list@.len() ==> is_discriminated(users@[i], #[trigger] list@[i])
                    && text::texts(space@).contains(list@[i].discriminator@)
            &&& tags_of(list@).no_duplicates()
        },
        r is Some ==> forall|u: Seq<char>| #[trigger] users_named(users@, u) <= space@.len(),
        tells_apart(text::texts(space@)) && (forall|u: Seq<char>| #[trigger]
            users_named(users@, u) <= space@.len()) ==> r is Some,
{
    let ghost all = text::texts(space@);
    let mut claimed = Topics::new();
    let mut out: Vec<Discriminated> = Vec::new();
    let mut i: usize = 0;
    assert(claimed@ =~= tags_of(out@).to_set());
    while i < users.len()
        invariant
            i <= users.len(),
            all == text::texts(space@),
            out@.len() == i,
            claimed@ == tags_of(out@).to_set(),
            tags_of(out@).no_duplicates(),
            forall|k: int|
                0 <= k < i ==> is_discriminated(users@[k], #[trigger] out@[k]) && all.contains(
                    out@[k].discriminator@,
                ),
        decreases users.len() - i,
    {
        let username = migrated_username(users[i].username.as_str());
        let free = free_discriminators(&claimed, username.as_str(), space);
        let ghost q = |d: Seq<char>| is_free(claimed@, username@, d);
        let chosen = match choose_text(&free) {
            Some(s) => s.clone(),
            None => {
                proof {
                    if tells_apart(all) && users_named(users@, username@) <= space@.len() {
                        lemma_own_tags(users@, out@, username@);
                        lemma_named_so_far(users@, i as int, username@);
                        lemma_room_for_another(out@, all, username@);
                        let d = choose|d: Seq<char>|
                            all.contains(d) && is_free(claimed@, username@, d);
                        crate::table::lemma_filter_members(all, q, d);
                        assert(text::texts(free@).len() == 0);
                    }
                }
                return None;
            },
        };
        proof {
            let k = choose|k: int| 0 <= k < free@.len() && free@[k]@ == chosen@;
            assert(text::texts(free@)[k] == chosen@);
            assert(text::texts(free@).contains(chosen@));
            crate::table::lemma_filter_members(all, q, chosen@);
        }
        match discriminate_as(&mut claimed, &users[i], chosen.as_str()) {
            Some(d) => {
                let ghost before = tags_of(out@);
                out.push(d);
                proof {
                    let t = tag_of(d.username@, d.discriminator@);
                    assert(tags_of(out@) =~= before.push(t));
                    assert(!before.contains(t));
                    assert(tags_of(out@).to_set() =~= before.to_set().insert(t)) by {
                        assert forall|x: Seq<char>| #[trigger]
                            tags_of(out@).contains(x) == (before.contains(x) || x == t) by {
                            if before.contains(x) {
                                let k = choose|k: int|
                                    0 <= k < before.len() && before[k] == x;
                                assert(tags_of(out@)[k] == x);
                            }
                            assert(tags_of(out@)[before.len() as int] == t);
                        }
                    }
                }
            },
            None => {
                return None;
            },
        }
        i = i + 1;
    }
    proof {
        assert forall|u: Seq<char>| #[trigger] users_named(users@, u) <= space@.len() by {
            lemma_own_tags(users@, out@, u);
            assert(users@.take(out@.len() as int) =~= users@);
            lemma_tags_are_few(out@, all, u);
        }
    }
    Some(out)
}

/// The tags under a username that users were given.
spec fn own_tags(list: Seq<Discriminated>, username: Seq<char>) -> Seq<Seq<char>>
    decreases list.len(),
{
    if list.len() == 0 {
        Seq::empty()
    } else {
        let rest = own_tags(list.drop_last(), username);
        if list.last().username@ == username {
            rest.push(tag_of(username, list.last().discriminator@))
        } else {
            rest
        }
    }
}

proof fn lemma_own_tags(users: Seq<UserInformation>, list: Seq<Discriminated>, username: Seq<char>)
    requires
        list.len() <= users.len(),
        forall|k: int| 0 <= k < list.len() ==> is_discriminated(users[k], #[trigger] list[k]),
        tags_of(list).no_duplicates(),
    ensures
        own_tags(list, username).len() == users_named(users.take(list.len() as int), username),
        own_tags(list, username).no_duplicates(),
        forall|t: Seq<char>| #[trigger]
            own_tags(list, username).contains(t) ==> exists|k: int|
                0 <= k < list.len() && (#[trigger] list[k]).username@ == username && t == tag_of(
                    username,
                    list[k].discriminator@,
                ),
        forall|k: int|
            0 <= k < list.len() && (#[trigger] list[k]).username@ == username ==> own_tags(
                list,
                username,
            ).contains(tag_of(username, list[k].discriminator@)),
    decreases list.len(),
{
    if list.len() > 0 {
        let rest = list.drop_last();
        let n = rest.len() as int;
        assert forall|a: int, b: int|
            0 <= a < tags_of(rest).len() && 0 <= b < tags_of(rest).len() && a != b implies tags_of(
            rest,
        )[a] != tags_of(rest)[b] by {
            assert(tags_of(list)[a] == tags_of(rest)[a] && tags_of(list)[b] == tags_of(rest)[b]);
        }
        lemma_own_tags(users, rest, username);
        assert(users.take(list.len() as int).drop_last() =~= users.take(n));
        assert(is_discriminated(users[n], list[n]));
        let before = own_tags(rest, username);
        let after = own_tags(list, username);
        let t = tag_of(username, list[n].discriminator@);
        if list[n].username@ == username {
            if before.contains(t) {
                let k = choose|k: int|
                    0 <= k < rest.len() && (#[trigger] rest[k]).username@ == username && t
                        == tag_of(username, rest[k].discriminator@);
                assert(tags_of(list)[k] == tags_of(list)[n]);
            }
            assert(after == before.push(t));
            assert(after[before.len() as int] == t);
            assert forall|x: Seq<char>| before.contains(x) implies #[trigger] after.contains(x) by {
                let k = choose|k: int| 0 <= k < before.len() && before[k] == x;
                assert(after[k] == x);
            }
        }
        assert forall|x: Seq<char>| #[trigger] after.contains(x) implies exists|k: int|
            0 <= k < list.len() && (#[trigger] list[k]).username@ == username && x == tag_of(
                username,
                list[k].discriminator@,
            ) by {
            if before.contains(x) {
                let k = choose|k: int|
                    0 <= k < rest.len() && (#[trigger] rest[k]).username@ == username && x
                        == tag_of(username, rest[k].discriminator@);
                assert(list[k] == rest[k]);
            } else {
                assert(list[n].username@ == username && x == t);
            }
        }
        assert forall|k: int|
            0 <= k < list.len() && (#[trigger] list[k]).username@ == username implies after.contains(
            tag_of(username, list[k].discriminator@),
        ) by {
            if k < n {
                assert(rest[k] == list[k]);
                assert(before.contains(tag_of(username, rest[k].discriminator@)));
            }
        }
    }
}

/// A user whose turn it is is not among those before.
proof fn lemma_named_so_far(users: Seq<UserInformation>, i: int, username: Seq<char>)
    requires
        0 <= i < users.len(),
        new_username(users[i].username@) == username,
    ensures
        users_named(users.take(i), username) < users_named(users, username),
    decreases users.len(),
{
    let rest = users.drop_last();
    if i < rest.len() {
        lemma_named_so_far(rest, i, username);
        assert(rest.take(i) =~= users.take(i));
    } else {
        assert(users.take(i) =~= rest);
    }
}

/// A tag tells username and discriminator, where no discriminator holds the mark between
/// them.
proof fn lemma_tag_splits(a: Seq<char>, d: Seq<char>, b: Seq<char>, e: Seq<char>)
    requires
        tag_of(a, d) == tag_of(b, e),
        !d.contains('#'),
        !e.contains('#'),
    ensures
        a == b,
        d == e,
{
    reveal_strlit("#");
    let t = tag_of(a, d);
    assert(t[a.len() as int] == '#');
    assert(tag_of(b, e)[b.len() as int] == '#');
    assert(t.len() == a.len() + 1 + d.len() && t.len() == b.len() + 1 + e.len());
    if a.len() < b.len() {
        assert(t[b.len() as int] == d[b.len() - a.len() - 1]);
    } else if b.len() < a.len() {
        assert(tag_of(b, e)[a.len() as int] == e[a.len() - b.len() - 1]);
    }
    assert(t.take(a.len() as int) =~= a && t.take(a.len() as int) =~= b);
    assert(t.skip(a.len() as int + 1) =~= d && t.skip(a.len() as int + 1) =~= e);
}

/// Where fewer users have a username than there are discriminators, another can get it.
proof fn lemma_room_for_another(
    list: Seq<Discriminated>,
    all: Seq<Seq<char>>,
    username: Seq<char>,
)
    requires
        tells_apart(all),
        forall|k: int| 0 <= k < list.len() ==> all.contains((#[trigger] list[k]).discriminator@),
        own_tags(list, username).no_duplicates(),
        own_tags(list, username).len() < all.len(),
        forall|k: int|
            0 <= k < list.len() && (#[trigger] list[k]).username@ == username ==> own_tags(
                list,
                username,
            ).contains(tag_of(username, list[k].discriminator@)),
    ensures
        exists|d: Seq<char>|
            all.contains(d) && #[trigger] is_free(tags_of(list).to_set(), username, d),
{
    let own = own_tags(list, username);
    lemma_enough_discriminators(own, all, username);
    let d = choose|d: Seq<char>| all.contains(d) && is_free(own.to_set(), username, d);
    if tags_of(list).contains(tag_of(username, d)) {
        let k = choose|k: int|
            0 <= k < tags_of(list).len() && tags_of(list)[k] == tag_of(username, d);
        assert(all.contains(list[k].discriminator@));
        lemma_tag_splits(list[k].username@, list[k].discriminator@, username, d);
        assert(own.contains(tag_of(username, d)));
    }
    assert(is_free(tags_of(list).to_set(), username, d));
}

/// A username has no more tags than there are discriminators.
proof fn lemma_tags_are_few(list: Seq<Discriminated>, all: Seq<Seq<char>>, username: Seq<char>)
    requires
        forall|k: int| 0 <= k < list.len() ==> all.contains((#[trigger] list[k]).discriminator@),
        own_tags(list, username).no_duplicates(),
        forall|t: Seq<char>| #[trigger]
            own_tags(list, username).contains(t) ==> exists|k: int|
                0 <= k < list.len() && (#[trigger] list[k]).username@ == username && t == tag_of(
                    username,
                    list[k].discriminator@,
                ),
    ensures
        own_tags(list, username).len() <= all.len(),
{
    let own = own_tags(list, username);
    let tags = Seq::new(all.len(), |i: int| tag_of(username, all[i]));
    assert forall|t: Seq<char>| own.to_set().contains(t) implies tags.to_set().contains(t) by {
        assert(own.contains(t));
        let k = choose|k: int|
            0 <= k < list.len() && (#[trigger] list[k]).username@ == username && t == tag_of(
                username,
                list[k].discriminator@,
            );
        assert(all.contains(list[k].discriminator@));
        let j = choose|j: int| 0 <= j < all.len() && all[j] == list[k].discriminator@;
        assert(tags[j] == t);
    }
    own.unique_seq_to_set();
    tags.lemma_cardinality_of_set();
    vstd::set_lib::lemma_len_subset(own.to_set(), tags.to_set());
}

/// Where fewer tags were given than there are discriminators, each username can still
/// get one.
proof fn lemma_enough_discriminators(given: Seq<Seq<char>>, all: Seq<Seq<char>>, username: Seq<char>)
    requires
        all.no_duplicates(),
        given.no_duplicates(),
        all.len() > given.len(),
    ensures
        exists|d: Seq<char>| all.contains(d) && is_free(given.to_set(), username, d),
{
    let tags = Seq::new(all.len(), |i: int| tag_of(username, all[i]));
    assert forall|i: int, j: int| 0 <= i < tags.len() && 0 <= j < tags.len() && i != j implies
        tags[i] != tags[j] by {
        if tags[i] == tags[j] {
            let k = (username + "#"@).len() as int;
            assert(tags[i].skip(k) =~= all[i]);
            assert(tags[j].skip(k) =~= all[j]);
        }
    }
    tags.unique_seq_to_set();
    given.unique_seq_to_set();
    if forall|d: Seq<char>| all.contains(d) ==> !is_free(given.to_set(), username, d) {
        assert forall|t: Seq<char>| tags.to_set().contains(t) implies given.to_set().contains(
            t,
        ) by {
            let i = choose|i: int| 0 <= i < tags.len() && tags[i] == t;
            assert(all.contains(all[i]));
            assert(!is_free(given.to_set(), username, all[i]));
        }
        vstd::set_lib::lemma_len_subset(tags.to_set(), given.to_set());
    }
}

/// A database has yet to take exactly the steps of revisions that are not below its own, and
/// is then at the latest revision, or where it was if that is later.
pub proof fn law_which_steps_are_pending(revision: i32, bits: PermissionBits, i: usize)
    requires
        i < schema::MIGRATION_STEPS,
    ensures
        revision <= schema::revision_of(i) ==> pending(revision, bits).contains(
            schema::migration_step(i, bits),
        ),
        revision_after(revision) >= schema::LATEST_REVISION,
        revision_after(revision) >= revision,
        revision_after(revision) == revision || revision_after(revision)
            == schema::LATEST_REVISION,
{
    if revision <= schema::revision_of(i) {
        lemma_step_pending(revision, bits, schema::MIGRATION_STEPS as int, i);
    }
}

proof fn lemma_step_pending(revision: i32, bits: PermissionBits, n: int, i: usize)
    requires
        i < n <= schema::MIGRATION_STEPS,
        revision <= schema::revision_of(i),
    ensures
        pending_among(revision, bits, n).contains(schema::migration_step(i, bits)),
    decreases n,
{
    let all = pending_among(revision, bits, n);
    let rest = pending_among(revision, bits, n - 1);
    if i == n - 1 {
        assert(all[rest.len() as int] == schema::migration_step(i, bits));
    } else {
        lemma_step_pending(revision, bits, n - 1, i);
        let k = choose|k: int| 0 <= k < rest.len() && rest[k] == schema::migration_step(i, bits);
        assert(all[k] == schema::migration_step(i, bits));
    }
}

/// No step of a revision below a database's own is pending.
pub proof fn law_taken_steps_are_not_pending(revision: i32, bits: PermissionBits, step: Step)
    requires
        pending(revision, bits).contains(step),
    ensures
        exists|i: usize|
            i < schema::MIGRATION_STEPS && revision <= #[trigger] schema::revision_of(i)
                && schema::migration_step(i, bits) == step,
{
    lemma_pending_step(revision, bits, schema::MIGRATION_STEPS as int, step);
}

proof fn lemma_pending_step(revision: i32, bits: PermissionBits, n: int, step: Step)
    requires
        0 <= n <= schema::MIGRATION_STEPS,
        pending_among(revision, bits, n).contains(step),
    ensures
        exists|i: usize|
            i < n && revision <= #[trigger] schema::revision_of(i) && schema::migration_step(
                i,
                bits,
            ) == step,
    decreases n,
{
    let all = pending_among(revision, bits, n);
    if n > 0 {
        let rest = pending_among(revision, bits, n - 1);
        let k = choose|k: int| 0 <= k < all.len() && all[k] == step;
        if k < rest.len() {
            assert(rest[k] == step);
            lemma_pending_step(revision, bits, n - 1, step);
        } else {
            let i = (n - 1) as usize;
            assert(revision <= schema::revision_of(i));
        }
    }
}

/// The old permission to send messages was the second bit.
pub proof fn law_old_permission_to_send(permissions: i32)
    ensures
        used_to_send(permissions) <==> (permissions as u32 / 2) % 2 == 1,
{
    assert((permissions as u32) & 2u32 == 2u32 <==> (permissions as u32 / 2) % 2 == 1)
        by (bit_vector);
}

/// Of the collections that hold accounts, exactly those that are missing are made.
pub proof fn law_missing_collections_are_made(
    existing: Seq<Seq<char>>,
    names: Seq<&'static str>,
    i: int,
)
    requires
        0 <= i < names.len(),
    ensures
        !existing.contains(names[i]@) ==> making_missing(existing, names).contains(
            (Step::CreateCollection { name: names[i], may_exist: false }),
        ),
        existing.contains(names[i]@) ==> !making_missing(existing, names).contains(
            (Step::CreateCollection { name: names[i], may_exist: false }),
        ),
    decreases names.len(),
{
    let rest = names.drop_last();
    let before = making_missing(existing, rest);
    let after = making_missing(existing, names);
    let step = Step::CreateCollection { name: names[i], may_exist: false };
    if i < rest.len() {
        law_missing_collections_are_made(existing, rest, i);
        if before.contains(step) {
            let k = choose|k: int| 0 <= k < before.len() && before[k] == step;
            assert(after[k] == step);
        }
        if after.contains(step) && !before.contains(step) {
            let k = choose|k: int| 0 <= k < after.len() && after[k] == step;
            if k < before.len() {
                assert(before[k] == step);
            }
        }
    } else {
        if !existing.contains(names[i]@) {
            assert(after[before.len() as int] == step);
        } else {
            lemma_existing_not_made(existing, rest, names[i]);
        }
    }
}

proof fn lemma_existing_not_made(
    existing: Seq<Seq<char>>,
    names: Seq<&'static str>,
    name: &'static str,
)
    requires
        existing.contains(name@),
    ensures
        !making_missing(existing, names).contains(
            (Step::CreateCollection { name, may_exist: false }),
        ),
    decreases names.len(),
{
    if names.len() > 0 {
        let rest = names.drop_last();
        lemma_existing_not_made(existing, rest, name);
        let before = making_missing(existing, rest);
        let after = making_missing(existing, names);
        let step = Step::CreateCollection { name, may_exist: false };
        if after.contains(step) {
            let k = choose|k: int| 0 <= k < after.len() && after[k] == step;
            if k < before.len() {
                assert(before[k] == step);
            }
        }
    }
}

/// A username that complies stays; of any other exactly the clusters that comply are kept,
/// in order, and what is left is filled up with underscores to two bytes.
pub proof fn law_what_is_kept_of_usernames(
    name: Seq<char>,
    clusters: Seq<Seq<char>>,
    c: Seq<char>,
)
    ensures
        compliant(name) ==> new_username(name) == name,
        !compliant(name) ==> new_username(name) == padded(sanitised(graphemes_of(name))),
        compliant(c) ==> sanitised(clusters.push(c)) == sanitised(clusters) + c,
        !compliant(c) ==> sanitised(clusters.push(c)) == sanitised(clusters),
        sanitised(Seq::empty()).len() == 0,
        encode_utf8(name).len() >= 2 ==> padded(name) == name,
        encode_utf8(name).len() == 1 ==> padded(name) == name.push('_'),
        encode_utf8(name).len() == 0 ==> padded(name) == name.push('_').push('_'),
{
    let q = |c: Seq<char>| compliant(c);
    let more = clusters.push(c);
    let n = clusters.len() as int;
    table::lemma_filter_take(more, q, n);
    assert(more.take(n + 1) =~= more);
    assert(more.take(n) =~= clusters);
    let kept = clusters.filter(q);
    if compliant(c) {
        assert(kept.push(c).drop_last() =~= kept);
    }
    table::lemma_filter_none(Seq::<Seq<char>>::empty(), q);
}

/// A tag is a username, a mark and a discriminator; it is free where nobody has it.
pub proof fn law_what_tags_are(claimed: Set<Seq<char>>, name: Seq<char>, d: Seq<char>)
    ensures
        tag_of(name, d).len() == name.len() + 1 + d.len(),
        tag_of(name, d).take(name.len() as int) == name,
        tag_of(name, d)[name.len() as int] == '#',
        tag_of(name, d).skip(name.len() as int + 1) == d,
        is_free(claimed, name, d) <==> !claimed.contains(tag_of(name, d)),
{
    reveal_strlit("#");
    assert(tag_of(name, d).take(name.len() as int) =~= name);
    assert(tag_of(name, d).skip(name.len() as int + 1) =~= d);
}

} // verus!
