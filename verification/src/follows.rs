//! Announcement channels and the channels that follow them.
use crate::db::ReferenceDb;
use crate::error::Error;
use crate::events::{EventV1, EventV1View, Published, PublishedView};
use crate::table::{self, KeyedRow, Row};
use crate::text::same;
use vstd::prelude::*;

verus! {

/// A follow: what is published in the source channel is delivered into the target channel, by a webhook of its own.
#[derive(Clone, Debug, PartialEq, Eq)]
pub struct ChannelFollow {
    pub id: String,
    pub source_channel: String,
    pub source_server: String,
    pub target_channel: String,
    pub target_server: String,
    pub webhook_id: String,
    pub created_by: String,
    pub created_at: i64,
}

/// What a [`ChannelFollow`] holds.
pub struct ChannelFollowView {
    pub id: Seq<char>,
    pub source_channel: Seq<char>,
    pub source_server: Seq<char>,
    pub target_channel: Seq<char>,
    pub target_server: Seq<char>,
    pub webhook_id: Seq<char>,
    pub created_by: Seq<char>,
    pub created_at: i64,
}

impl View for ChannelFollow {
    type V = ChannelFollowView;

    open spec fn view(&self) -> ChannelFollowView {
        ChannelFollowView {
            id: self.id@,
            source_channel: self.source_channel@,
            source_server: self.source_server@,
            target_channel: self.target_channel@,
            target_server: self.target_server@,
            webhook_id: self.webhook_id@,
            created_by: self.created_by@,
            created_at: self.created_at,
        }
    }
}

impl Row for ChannelFollow {
    fn dup(&self) -> (r: Self) {
        ChannelFollow {
            id: self.id.clone(),
            source_channel: self.source_channel.clone(),
            source_server: self.source_server.clone(),
            target_channel: self.target_channel.clone(),
            target_server: self.target_server.clone(),
            webhook_id: self.webhook_id.clone(),
            created_by: self.created_by.clone(),
            created_at: self.created_at,
        }
    }
}

impl KeyedRow for ChannelFollow {
    open spec fn id_of(v: ChannelFollowView) -> Seq<char> {
        v.id
    }

    fn id_is(&self, id: &str) -> (r: bool) {
        same(self.id.as_str(), id)
    }
}

/// Whether no two follows link the same pair of channels.
pub open spec fn pairs_apart(rows: Seq<ChannelFollowView>) -> bool {
    table::unique_by(rows, pair_key())
}

/// Source and target of a follow.
pub open spec fn pair_key() -> spec_fn(ChannelFollowView) -> (Seq<char>, Seq<char>) {
    |f: ChannelFollowView| (f.source_channel, f.target_channel)
}

/// Follows that link a pair of channels.
pub open spec fn links(source: Seq<char>, target: Seq<char>) -> spec_fn(ChannelFollowView) -> bool {
    |f: ChannelFollowView| f.source_channel == source && f.target_channel == target
}

/// Follows of a source channel.
pub open spec fn from_source(source: Seq<char>) -> spec_fn(ChannelFollowView) -> bool {
    |f: ChannelFollowView| f.source_channel == source
}

/// Follows into a target channel.
pub open spec fn into_target(target: Seq<char>) -> spec_fn(ChannelFollowView) -> bool {
    |f: ChannelFollowView| f.target_channel == target
}

/// Follows that touch a server, on either side.
pub open spec fn touching(server: Seq<char>) -> spec_fn(ChannelFollowView) -> bool {
    |f: ChannelFollowView| f.source_server == server || f.target_server == server
}

/// Follows with a webhook.
pub open spec fn by_webhook(webhook: Seq<char>) -> spec_fn(ChannelFollowView) -> bool {
    |f: ChannelFollowView| f.webhook_id == webhook
}

/// What is published when a follow was made: the follow to the server of the target,
/// and to the server of the source only that its followers changed.
pub open spec fn created_events(f: ChannelFollowView) -> Seq<PublishedView> {
    seq![
        PublishedView {
            topic: f.target_server,
            event: EventV1View::ChannelFollowCreate { follow: f },
        },
        PublishedView {
            topic: f.source_server,
            event: EventV1View::ChannelFollowersUpdate { channel: f.source_channel },
        },
    ]
}

/// What is published when a follow was severed.
pub open spec fn deleted_events(f: ChannelFollowView) -> Seq<PublishedView> {
    seq![
        PublishedView {
            topic: f.target_server,
            event: EventV1View::ChannelFollowDelete {
                id: f.id,
                source_channel: f.source_channel,
                target_channel: f.target_channel,
            },
        },
        PublishedView {
            topic: f.source_server,
            event: EventV1View::ChannelFollowersUpdate { channel: f.source_channel },
        },
    ]
}

/// What a clean-up does to the follows that it severs, one after the other: the
/// follow is dropped before its webhook is deleted, then the events are published.
#[derive(Debug, PartialEq, Eq)]
pub struct Severed {
    /// The follow that was dropped.
    pub follow: ChannelFollow,
    /// Whether the target channel is still there, so that its webhook settings are
    /// told that the webhook is gone.
    pub notify_webhook: bool,
    /// What is published.
    pub published: Vec<Published>,
}

/// What a [`Severed`] holds.
pub struct SeveredView {
    pub follow: ChannelFollowView,
    pub notify_webhook: bool,
    pub published: Seq<PublishedView>,
}

impl View for Severed {
    type V = SeveredView;

    open spec fn view(&self) -> SeveredView {
        SeveredView {
            follow: self.follow@,
            notify_webhook: self.notify_webhook,
            published: table::row_views(self.published@),
        }
    }
}

/// What is held by a list of severed follows.
pub open spec fn severed_views(list: Seq<Severed>) -> Seq<SeveredView> {
    Seq::new(list.len(), |i: int| list[i]@)
}

/// The severing of each follow of a list.
pub open spec fn severing(follows: Seq<ChannelFollowView>, notify: bool) -> Seq<SeveredView> {
    Seq::new(
        follows.len(),
        |i: int|
            SeveredView {
                follow: follows[i],
                notify_webhook: notify,
                published: deleted_events(follows[i]),
            },
    )
}

impl ChannelFollow {
    /// The follow as it is shown to clients: all of its fields.
    pub fn into_model(self) -> (r: ChannelFollow)
        ensures
            r == self,
    {
        self
    }

    /// What is published when this follow was made.
    pub fn emit_create(&self) -> (r: Vec<Published>)
        ensures
            table::row_views(r@) == created_events(self@),
    {
        let mut out: Vec<Published> = Vec::new();
        out.push(
            EventV1::ChannelFollowCreate { follow: self.dup().into_model() }.p(
                self.target_server.clone(),
            ),
        );
        out.push(
            EventV1::ChannelFollowersUpdate { channel: self.source_channel.clone() }.p(
                self.source_server.clone(),
            ),
        );
        assert(table::row_views(out@) =~= created_events(self@));
        out
    }

    /// What is published when this follow was severed.
    pub fn emit_delete(&self) -> (r: Vec<Published>)
        ensures
            table::row_views(r@) == deleted_events(self@),
    {
        let mut out: Vec<Published> = Vec::new();
        out.push(
            EventV1::ChannelFollowDelete {
                id: self.id.clone(),
                source_channel: self.source_channel.clone(),
                target_channel: self.target_channel.clone(),
            }.p(self.target_server.clone()),
        );
        out.push(
            EventV1::ChannelFollowersUpdate { channel: self.source_channel.clone() }.p(
                self.source_server.clone(),
            ),
        );
        assert(table::row_views(out@) =~= deleted_events(self@));
        out
    }

    /// Severs each follow of a list.
    fn sever_all(db: &mut ReferenceDb, follows: &Vec<ChannelFollow>, notify: bool) -> (r: Vec<Severed>)
        requires
            old(db).wf(),
        ensures
            final(db).wf(),
            *final(db) == (ReferenceDb { channel_follows: final(db).channel_follows, ..*old(db) }),
            final(db).channel_follows@ == old(db).channel_follows@.filter(
                not_among(table::row_views(follows@)),
            ),
            severed_views(r@) == severing(table::row_views(follows@), notify),
    {
        let ghost first = db.channel_follows@;
        let ghost all = table::row_views(follows@);
        let ghost want = severing(all, notify);
        let mut out: Vec<Severed> = Vec::new();
        let mut i: usize = 0;
        proof {
            assert forall|k: int| 0 <= k < first.len() implies not_among(all.take(0))(
                #[trigger] first[k],
            ) by {}
            table::lemma_filter_keeps_all(first, not_among(all.take(0)));
            assert(severed_views(out@) =~= want.take(0));
        }
        while i < follows.len()
            invariant
                i <= follows.len(),
                all == table::row_views(follows@),
                want == severing(all, notify),
                db.wf(),
                *db == (ReferenceDb { channel_follows: db.channel_follows, ..*old(db) }),
                db.channel_follows@ == first.filter(not_among(all.take(i as int))),
                severed_views(out@) == want.take(i as int),
            decreases follows.len() - i,
        {
            let follow = follows[i].dup();
            db.delete_channel_follow(follow.id.as_str());
            proof {
                assert forall|f: ChannelFollowView| #[trigger]
                    not_among(all.take(i + 1))(f) == (not_among(all.take(i as int))(f)
                        && table::without_id::<ChannelFollow>(all[i as int].id)(f)) by {
                    lemma_not_among_grows(all, i as int, f);
                }
                lemma_filter_twice(
                    first,
                    not_among(all.take(i as int)),
                    table::without_id::<ChannelFollow>(all[i as int].id),
                    not_among(all.take(i + 1)),
                );
            }
            let published = follow.emit_delete();
            let ghost before = out@;
            out.push(Severed { follow, notify_webhook: notify, published });
            proof {
                assert(severed_views(out@) =~= severed_views(before).push(want[i as int]));
                assert(want.take(i + 1) =~= want.take(i as int).push(want[i as int]));
            }
            i = i + 1;
        }
        assert(all.take(i as int) =~= all);
        assert(want.take(i as int) =~= want);
        out
    }

    /// Severs the follows of a deleted channel: those that it was the source of, then
    /// those that it was the target of. Only in the first case is there a channel left
    /// whose webhook settings are told.
    pub fn cleanup_for_deleted_channel(db: &mut ReferenceDb, channel_id: &str) -> (r: Vec<Severed>)
        requires
            old(db).wf(),
        ensures
            final(db).wf(),
            *final(db) == (ReferenceDb { channel_follows: final(db).channel_follows, ..*old(db) }),
            ({
                let rows = old(db).channel_follows@;
                let sources = rows.filter(from_source(channel_id@));
                let left = rows.filter(not_among(sources));
                let targets = left.filter(into_target(channel_id@));
                &&& final(db).channel_follows@ == left.filter(not_among(targets))
                &&& severed_views(r@) == severing(sources, true) + severing(targets, false)
            }),
    {
        let sources = db.fetch_follows_by_source(channel_id);
        let mut out = ChannelFollow::sever_all(db, &sources, true);
        let targets = db.fetch_follows_by_target(channel_id);
        let mut more = ChannelFollow::sever_all(db, &targets, false);
        let ghost a = out@;
        let ghost b = more@;
        out.append(&mut more);
        assert(severed_views(out@) =~= severed_views(a) + severed_views(b));
        out
    }

    /// Severs the follows that touch a deleted server on either side.
    pub fn cleanup_for_deleted_server(db: &mut ReferenceDb, server_id: &str) -> (r: Vec<Severed>)
        requires
            old(db).wf(),
        ensures
            final(db).wf(),
            *final(db) == (ReferenceDb { channel_follows: final(db).channel_follows, ..*old(db) }),
            ({
                let rows = old(db).channel_follows@;
                let severed = rows.filter(touching(server_id@));
                &&& final(db).channel_follows@ == rows.filter(not_among(severed))
                &&& severed_views(r@) == severing(severed, true)
            }),
    {
        let follows = db.fetch_follows_for_server(server_id);
        ChannelFollow::sever_all(db, &follows, true)
    }
}

/// Follows with none of the ids in a list.
pub open spec fn not_among(list: Seq<ChannelFollowView>) -> spec_fn(ChannelFollowView) -> bool {
    |f: ChannelFollowView| forall|i: int| 0 <= i < list.len() ==> (#[trigger] list[i]).id != f.id
}

proof fn lemma_not_among_grows(all: Seq<ChannelFollowView>, i: int, f: ChannelFollowView)
    requires
        0 <= i < all.len(),
    ensures
        not_among(all.take(i + 1))(f) == (not_among(all.take(i))(f) && f.id != all[i].id),
{
    let a = all.take(i);
    let b = all.take(i + 1);
    if not_among(b)(f) {
        assert(b[i].id != f.id);
        assert forall|k: int| 0 <= k < a.len() implies (#[trigger] a[k]).id != f.id by {
            assert(b[k].id != f.id);
        }
    }
    if not_among(a)(f) && f.id != all[i].id {
        assert forall|k: int| 0 <= k < b.len() implies (#[trigger] b[k]).id != f.id by {
            if k < i {
                assert(a[k].id != f.id);
            }
        }
    }
}

/// Filtering twice keeps what satisfies both predicates.
pub proof fn lemma_filter_twice<V>(
    rows: Seq<V>,
    p: spec_fn(V) -> bool,
    q: spec_fn(V) -> bool,
    both: spec_fn(V) -> bool,
)
    ensures
        (forall|v: V| #[trigger] both(v) == (p(v) && q(v))) ==> rows.filter(p).filter(q)
            == rows.filter(both),
    decreases rows.len(),
{
    reveal(Seq::filter);
    if rows.len() > 0 && (forall|v: V| #[trigger] both(v) == (p(v) && q(v))) {
        let rest = rows.drop_last();
        lemma_filter_twice(rest, p, q, both);
        let v = rows.last();
        assert(both(v) == (p(v) && q(v)));
        if p(v) {
            assert(rest.filter(p).push(v).drop_last() =~= rest.filter(p));
        }
    }
}

impl ReferenceDb {
    /// Adds a follow. A pair of channels is linked at most once.
    pub fn insert_channel_follow(&mut self, follow: &ChannelFollow) -> (r: Result<(), Error>)
        requires
            old(self).wf(),
        ensures
            final(self).wf(),
            *final(self) == (ReferenceDb {
                channel_follows: final(self).channel_follows,
                ..*old(self)
            }),
            if table::any_row(
                old(self).channel_follows@,
                links(follow.source_channel@, follow.target_channel@),
            ) {
                r == Err::<(), Error>(Error::NoEffect) && final(self).channel_follows@
                    == old(self).channel_follows@
            } else {
                &&& final(self).channel_follows@ == table::upserted::<ChannelFollow>(
                    old(self).channel_follows@,
                    follow@,
                )
                &&& r == (if table::has_id::<ChannelFollow>(
                    old(self).channel_follows@,
                    follow.id@,
                ) {
                    Err::<(), Error>(
                        Error::DatabaseError {
                            operation: "insert",
                            collection: "channel_follows",
                        },
                    )
                } else {
                    Ok::<(), Error>(())
                })
            },
    {
        let ghost q = links(follow.source_channel@, follow.target_channel@);
        let p = |f: &ChannelFollow| -> (b: bool)
            ensures
                b == q(f@),
            {
                same(f.source_channel.as_str(), follow.source_channel.as_str()) && same(
                    f.target_channel.as_str(),
                    follow.target_channel.as_str(),
                )
            };
        if self.channel_follows.find(p, Ghost(q)).is_some() {
            return Err(Error::NoEffect);
        }
        let taken: bool = self.channel_follows.contains_id(follow.id.as_str());
        proof {
            lemma_pairs_after_upsert(self.channel_follows@, follow@);
        }
        self.channel_follows.upsert(follow.id.as_str(), follow.dup());
        if taken {
            Err(Error::DatabaseError { operation: "insert", collection: "channel_follows" })
        } else {
            Ok(())
        }
    }

    /// The follow with an id.
    pub fn fetch_follow(&self, id: &str) -> (r: Result<ChannelFollow, Error>)
        ensures
            if table::has_id::<ChannelFollow>(self.channel_follows@, id@) {
                r is Ok && r->Ok_0@ == table::row_of::<ChannelFollow>(self.channel_follows@, id@)
            } else {
                r == Err::<ChannelFollow, Error>(Error::NotFound)
            },
    {
        match self.channel_follows.fetch(id) {
            Some(f) => Ok(f),
            None => Err(Error::NotFound),
        }
    }

    /// The follow that links a pair of channels.
    pub fn fetch_follow_by_source_and_target(
        &self,
        source_channel: &str,
        target_channel: &str,
    ) -> (r: Option<ChannelFollow>)
        ensures
            ({
                let q = links(source_channel@, target_channel@);
                match r {
                    Some(f) => table::any_row(self.channel_follows@, q) && f@
                        == self.channel_follows@[table::first_row(self.channel_follows@, q)],
                    None => !table::any_row(self.channel_follows@, q),
                }
            }),
    {
        let ghost q = links(source_channel@, target_channel@);
        let p = |f: &ChannelFollow| -> (b: bool)
            ensures
                b == q(f@),
            {
                same(f.source_channel.as_str(), source_channel) && same(
                    f.target_channel.as_str(),
                    target_channel,
                )
            };
        match self.channel_follows.find(p, Ghost(q)) {
            Some(i) => Some(self.channel_follows.get(i)),
            None => None,
        }
    }

    /// Follows of a source channel.
    pub fn fetch_follows_by_source(&self, source_channel: &str) -> (r: Vec<ChannelFollow>)
        ensures
            table::row_views(r@) == self.channel_follows@.filter(from_source(source_channel@)),
    {
        let p = |f: &ChannelFollow| -> (b: bool)
            ensures
                b == from_source(source_channel@)(f@),
            { same(f.source_channel.as_str(), source_channel) };
        self.channel_follows.select(p, Ghost(from_source(source_channel@)))
    }

    /// Follows into a target channel.
    pub fn fetch_follows_by_target(&self, target_channel: &str) -> (r: Vec<ChannelFollow>)
        ensures
            table::row_views(r@) == self.channel_follows@.filter(into_target(target_channel@)),
    {
        let p = |f: &ChannelFollow| -> (b: bool)
            ensures
                b == into_target(target_channel@)(f@),
            { same(f.target_channel.as_str(), target_channel) };
        self.channel_follows.select(p, Ghost(into_target(target_channel@)))
    }

    /// Follows that touch a server, on either side.
    pub fn fetch_follows_for_server(&self, server_id: &str) -> (r: Vec<ChannelFollow>)
        ensures
            table::row_views(r@) == self.channel_follows@.filter(touching(server_id@)),
    {
        let p = |f: &ChannelFollow| -> (b: bool)
            ensures
                b == touching(server_id@)(f@),
            { same(f.source_server.as_str(), server_id) || same(f.target_server.as_str(), server_id) };
        self.channel_follows.select(p, Ghost(touching(server_id@)))
    }

    /// The follow that has a webhook.
    pub fn fetch_follow_by_webhook(&self, webhook_id: &str) -> (r: Option<ChannelFollow>)
        ensures
            match r {
                Some(f) => table::any_row(self.channel_follows@, by_webhook(webhook_id@)) && f@
                    == self.channel_follows@[table::first_row(
                    self.channel_follows@,
                    by_webhook(webhook_id@),
                )],
                None => !table::any_row(self.channel_follows@, by_webhook(webhook_id@)),
            },
    {
        let p = |f: &ChannelFollow| -> (b: bool)
            ensures
                b == by_webhook(webhook_id@)(f@),
            { same(f.webhook_id.as_str(), webhook_id) };
        match self.channel_follows.find(p, Ghost(by_webhook(webhook_id@))) {
            Some(i) => Some(self.channel_follows.get(i)),
            None => None,
        }
    }

    /// Number of the followers of a source channel.
    pub fn count_follows_by_source(&self, source_channel: &str) -> (n: usize)
        ensures
            n == self.channel_follows@.filter(from_source(source_channel@)).len(),
    {
        let p = |f: &ChannelFollow| -> (b: bool)
            ensures
                b == from_source(source_channel@)(f@),
            { same(f.source_channel.as_str(), source_channel) };
        self.channel_follows.count(p, Ghost(from_source(source_channel@)))
    }

    /// Removes the follow with an id; where there is none, nothing happens.
    pub fn delete_channel_follow(&mut self, id: &str)
        requires
            old(self).wf(),
        ensures
            final(self).wf(),
            *final(self) == (ReferenceDb {
                channel_follows: final(self).channel_follows,
                ..*old(self)
            }),
            final(self).channel_follows@ == old(self).channel_follows@.filter(
                table::without_id::<ChannelFollow>(id@),
            ),
    {
        proof {
            table::lemma_unique_filter(
                self.channel_follows@,
                pair_key(),
                table::without_id::<ChannelFollow>(id@),
            );
        }
        let found: bool = self.channel_follows.delete(id);
    }
}

/// Putting a follow of a new pair in keeps the pairs apart.
proof fn lemma_pairs_after_upsert(rows: Seq<ChannelFollowView>, v: ChannelFollowView)
    requires
        table::keyed::<ChannelFollow>(rows),
        pairs_apart(rows),
        !table::any_row(rows, links(v.source_channel, v.target_channel)),
    ensures
        pairs_apart(table::upserted::<ChannelFollow>(rows, v)),
{
    let after = table::upserted::<ChannelFollow>(rows, v);
    let q = links(v.source_channel, v.target_channel);
    assert forall|i: int| 0 <= i < rows.len() implies pair_key()(#[trigger] rows[i]) != pair_key()(
        v,
    ) by {
        if pair_key()(rows[i]) == pair_key()(v) {
            assert(q(rows[i]));
        }
    }
    if table::has_id::<ChannelFollow>(rows, v.id) {
        let by_id = table::with_id::<ChannelFollow>(v.id);
        assert forall|i: int, j: int| 0 <= i < j < after.len() implies pair_key()(
            #[trigger] after[i],
        ) != pair_key()(#[trigger] after[j]) by {
            assert(pair_key()(rows[i]) != pair_key()(rows[j]));
            assert(pair_key()(rows[i]) != pair_key()(v));
            assert(pair_key()(rows[j]) != pair_key()(v));
            lemma_two_with_one_id(rows, i, j);
        }
    } else {
        table::lemma_unique_push(rows, pair_key(), v);
    }
}

proof fn lemma_two_with_one_id(rows: Seq<ChannelFollowView>, i: int, j: int)
    requires
        table::keyed::<ChannelFollow>(rows),
        0 <= i < j < rows.len(),
    ensures
        rows[i].id != rows[j].id,
{
    table::lemma_keyed_row::<ChannelFollow>(rows, rows[i].id, i);
}

/// The server of a source never learns who follows: what is published to it names the
/// source channel alone.
pub proof fn law_source_server_learns_no_target(f: ChannelFollowView)
    ensures
        created_events(f)[1].topic == f.source_server,
        created_events(f)[1].event == (EventV1View::ChannelFollowersUpdate {
            channel: f.source_channel,
        }),
        deleted_events(f)[1].topic == f.source_server,
        deleted_events(f)[1].event == (EventV1View::ChannelFollowersUpdate {
            channel: f.source_channel,
        }),
{
}

/// A clean-up is total: once the follows of a list were severed, none of them is left.
pub proof fn law_severed_follows_are_gone(
    rows: Seq<ChannelFollowView>,
    q: spec_fn(ChannelFollowView) -> bool,
    f: ChannelFollowView,
)
    ensures
        rows.filter(not_among(rows.filter(q))).contains(f) ==> !q(f),
{
    let severed = rows.filter(q);
    let left = rows.filter(not_among(severed));
    table::lemma_filter_members(rows, not_among(severed), f);
    table::lemma_filter_members(rows, q, f);
    if left.contains(f) && q(f) {
        let i = choose|i: int| 0 <= i < severed.len() && severed[i] == f;
        assert(severed[i].id != f.id);
    }
}

/// Deleting a follow twice is the same as deleting it once.
pub proof fn law_delete_follow_is_idempotent(rows: Seq<ChannelFollowView>, id: Seq<char>)
    ensures
        rows.filter(table::without_id::<ChannelFollow>(id)).filter(
            table::without_id::<ChannelFollow>(id),
        ) == rows.filter(table::without_id::<ChannelFollow>(id)),
{
    let q = table::without_id::<ChannelFollow>(id);
    lemma_filter_twice(rows, q, q, q);
}

/// Follows are found by their source, their target and either of their servers, and by
/// nothing else.
pub proof fn law_which_follows_are_found(
    rows: Seq<ChannelFollowView>,
    key: Seq<char>,
    f: ChannelFollowView,
)
    ensures
        rows.filter(from_source(key)).contains(f) <==> rows.contains(f) && f.source_channel == key,
        rows.filter(into_target(key)).contains(f) <==> rows.contains(f) && f.target_channel == key,
        rows.filter(touching(key)).contains(f) <==> rows.contains(f) && (f.source_server == key
            || f.target_server == key),
{
    table::lemma_filter_members(rows, from_source(key), f);
    table::lemma_filter_members(rows, into_target(key), f);
    table::lemma_filter_members(rows, touching(key), f);
}

/// A follow is found by its webhook, and by the pair of channels that it links.
pub proof fn law_follow_is_found_by_webhook_and_pair(rows: Seq<ChannelFollowView>, i: int)
    requires
        0 <= i < rows.len(),
    ensures
        ({
            let by_hook = rows[table::first_row(rows, by_webhook(rows[i].webhook_id))];
            let by_pair = rows[table::first_row(
                rows,
                links(rows[i].source_channel, rows[i].target_channel),
            )];
            &&& table::any_row(rows, by_webhook(rows[i].webhook_id))
            &&& by_hook.webhook_id == rows[i].webhook_id
            &&& table::any_row(rows, links(rows[i].source_channel, rows[i].target_channel))
            &&& by_pair.source_channel == rows[i].source_channel
            &&& by_pair.target_channel == rows[i].target_channel
        }),
{
    let a = by_webhook(rows[i].webhook_id);
    let b = links(rows[i].source_channel, rows[i].target_channel);
    assert(a(rows[i]) && b(rows[i]));
    table::lemma_first_row_matches(rows, a);
    table::lemma_first_row_matches(rows, b);
}

/// A new follow is told to the server of its target, a severed one by its id and channels;
/// the server of the source is told of both only that followers changed. Nobody else is
/// told.
pub proof fn law_target_server_learns_of_follows(f: ChannelFollowView)
    ensures
        created_events(f).len() == 2,
        created_events(f)[0].topic == f.target_server,
        created_events(f)[0].event == (EventV1View::ChannelFollowCreate { follow: f }),
        deleted_events(f).len() == 2,
        deleted_events(f)[0].topic == f.target_server,
        deleted_events(f)[0].event == (EventV1View::ChannelFollowDelete {
            id: f.id,
            source_channel: f.source_channel,
            target_channel: f.target_channel,
        }),
{
}

/// When a channel is deleted, exactly the follows that it is the source or the target of
/// are severed, and all others stay.
pub proof fn law_deleted_channel_severs_its_follows(
    rows: Seq<ChannelFollowView>,
    channel: Seq<char>,
    f: ChannelFollowView,
)
    requires
        table::keyed::<ChannelFollow>(rows),
    ensures
        ({
            let sources = rows.filter(from_source(channel));
            let left = rows.filter(not_among(sources));
            let targets = left.filter(into_target(channel));
            left.filter(not_among(targets)).contains(f) <==> rows.contains(f) && f.source_channel
                != channel && f.target_channel != channel
        }),
{
    let sources = rows.filter(from_source(channel));
    let left = rows.filter(not_among(sources));
    table::lemma_keyed_filter::<ChannelFollow>(rows, not_among(sources));
    lemma_left(rows, from_source(channel), f);
    lemma_left(left, into_target(channel), f);
}

/// When a server is deleted, exactly the follows that touch it are severed, and all others
/// stay.
pub proof fn law_deleted_server_severs_its_follows(
    rows: Seq<ChannelFollowView>,
    server: Seq<char>,
    f: ChannelFollowView,
)
    requires
        table::keyed::<ChannelFollow>(rows),
    ensures
        rows.filter(not_among(rows.filter(touching(server)))).contains(f) <==> rows.contains(f)
            && f.source_server != server && f.target_server != server,
{
    lemma_left(rows, touching(server), f);
}

proof fn lemma_left(
    rows: Seq<ChannelFollowView>,
    q: spec_fn(ChannelFollowView) -> bool,
    f: ChannelFollowView,
)
    requires
        table::keyed::<ChannelFollow>(rows),
    ensures
        rows.filter(not_among(rows.filter(q))).contains(f) <==> rows.contains(f) && !q(f),
{
    let severed = rows.filter(q);
    law_severed_follows_are_gone(rows, q, f);
    table::lemma_filter_members(rows, not_among(severed), f);
    if rows.contains(f) && !q(f) {
        assert forall|i: int| 0 <= i < severed.len() implies (#[trigger] severed[i]).id
            != f.id by {
            assert(severed.contains(severed[i]));
            table::lemma_filter_members(rows, q, severed[i]);
            let a = choose|a: int| 0 <= a < rows.len() && rows[a] == f;
            let b = choose|b: int| 0 <= b < rows.len() && rows[b] == severed[i];
            if rows[a].id == rows[b].id {
                table::lemma_keyed_row::<ChannelFollow>(rows, f.id, a);
                assert(a == b);
            }
        }
    }
}

/// Every severed follow is told of once, in order, and its webhook is removed where asked.
pub proof fn law_each_severed_follow_is_told(
    follows: Seq<ChannelFollowView>,
    notify: bool,
    i: int,
)
    requires
        0 <= i < follows.len(),
    ensures
        severing(follows, notify).len() == follows.len(),
        severing(follows, notify)[i].follow == follows[i],
        severing(follows, notify)[i].notify_webhook == notify,
        severing(follows, notify)[i].published[0].topic == follows[i].target_server,
        severing(follows, notify)[i].published[1].topic == follows[i].source_server,
{
}

} // verus!
