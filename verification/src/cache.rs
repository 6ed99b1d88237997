//! What a connection knows: its user, the users, channels, servers and members in view,
//! and the topics that it receives.
use crate::channel_store;
use crate::channels::{self, Channel, ChannelView};
use crate::people::{
    self, Member, MemberView, RelationshipStatus, Server, ServerView, User, UserView,
};
use crate::table::{self, KeyedRow, Row, Table};
use crate::text::{self, contains_text, same};
use vstd::prelude::*;

verus! {

/// A row under a key.
pub struct Entry<R: Row> {
    pub key: String,
    pub row: R,
}

/// What an [`Entry`] holds.
pub struct EntryView<V> {
    pub key: Seq<char>,
    pub row: V,
}

impl<R: Row> View for Entry<R> {
    type V = EntryView<R::V>;

    open spec fn view(&self) -> EntryView<R::V> {
        EntryView { key: self.key@, row: self.row@ }
    }
}

impl<R: Row> Row for Entry<R> {
    fn dup(&self) -> (r: Self) {
        Entry { key: self.key.clone(), row: self.row.dup() }
    }
}

impl<R: Row> KeyedRow for Entry<R> {
    open spec fn id_of(v: EntryView<R::V>) -> Seq<char> {
        v.key
    }

    fn id_is(&self, id: &str) -> (r: bool) {
        same(self.key.as_str(), id)
    }
}

/// Whether a table has a key.
pub open spec fn has_key<R: Row>(rows: Seq<EntryView<R::V>>, key: Seq<char>) -> bool {
    table::has_id::<Entry<R>>(rows, key)
}

/// The row under a key.
pub open spec fn at_key<R: Row>(rows: Seq<EntryView<R::V>>, key: Seq<char>) -> R::V {
    table::row_of::<Entry<R>>(rows, key).row
}

/// Rows with a row put in under a key.
pub open spec fn with_entry<R: Row>(rows: Seq<EntryView<R::V>>, key: Seq<char>, row: R::V) -> Seq<
    EntryView<R::V>,
> {
    table::upserted::<Entry<R>>(rows, EntryView { key, row })
}

/// Rows with the one under a key changed.
pub open spec fn changed_at<R: Row>(
    rows: Seq<EntryView<R::V>>,
    key: Seq<char>,
    f: spec_fn(R::V) -> R::V,
) -> Seq<EntryView<R::V>> {
    table::mapped(
        rows,
        table::with_id::<Entry<R>>(key),
        |e: EntryView<R::V>| EntryView { row: f(e.row), ..e },
    )
}

/// Rows without the one under a key.
pub open spec fn without_key<R: Row>(rows: Seq<EntryView<R::V>>, key: Seq<char>) -> Seq<
    EntryView<R::V>,
> {
    rows.filter(table::without_id::<Entry<R>>(key))
}

impl<R: Row> Table<Entry<R>> {
    /// The row under a key.
    pub(crate) fn look(&self, key: &str) -> (r: Option<&R>)
        ensures
            match r {
                Some(row) => has_key::<R>(self@, key@) && row@ == at_key::<R>(self@, key@),
                None => !has_key::<R>(self@, key@),
            },
    {
        match self.position(key) {
            Some(i) => {
                assert(self@[i as int] == self.rows@[i as int]@);
                Some(&self.rows[i].row)
            },
            None => None,
        }
    }

    /// Puts a row in under a key.
    pub(crate) fn put_at(&mut self, key: &str, row: R)
        requires
            table::keyed::<Entry<R>>(old(self)@),
        ensures
            table::keyed::<Entry<R>>(final(self)@),
            final(self)@ == with_entry::<R>(old(self)@, key@, row@),
    {
        let entry = Entry { key: key.to_owned(), row };
        self.upsert(key, entry);
    }

    /// Replaces the row at a position by what a change makes of it.
    pub(crate) fn change_at(&mut self, i: usize, row: R, Ghost(f): Ghost<spec_fn(R::V) -> R::V>)
        requires
            table::keyed::<Entry<R>>(old(self)@),
            i < old(self)@.len(),
            row@ == f(old(self)@[i as int].row),
        ensures
            table::keyed::<Entry<R>>(final(self)@),
            final(self)@ == changed_at::<R>(old(self)@, old(self)@[i as int].key, f),
    {
        let key = self.rows[i].key.clone();
        assert(self@[i as int] == self.rows@[i as int]@);
        let entry = Entry { key, row };
        self.replace(i, entry, Ghost(|e: EntryView<R::V>| EntryView { row: f(e.row), ..e }));
    }
}

/// Where a key is missing, a change at it changes nothing.
pub proof fn lemma_nothing_at<R: Row>(
    rows: Seq<EntryView<R::V>>,
    key: Seq<char>,
    f: spec_fn(R::V) -> R::V,
)
    requires
        !has_key::<R>(rows, key),
    ensures
        changed_at::<R>(rows, key, f) == rows,
{
    table::lemma_mapped_none(
        rows,
        table::with_id::<Entry<R>>(key),
        |e: EntryView<R::V>| EntryView { row: f(e.row), ..e },
    );
}

/// A set of topics.
pub struct Topics {
    pub list: Vec<String>,
}

impl View for Topics {
    type V = Set<Seq<char>>;

    open spec fn view(&self) -> Set<Seq<char>> {
        text::texts(self.list@).to_set()
    }
}

/// The topics of a list.
pub open spec fn topics_of(list: Seq<Seq<char>>) -> Set<Seq<char>> {
    list.to_set()
}

impl Topics {
    /// No topics.
    pub fn new() -> (r: Self)
        ensures
            r@ == Set::<Seq<char>>::empty(),
    {
        let r = Topics { list: Vec::new() };
        assert(r@ =~= Set::<Seq<char>>::empty());
        r
    }

    /// Whether a topic is in the set.
    pub fn contains(&self, topic: &str) -> (r: bool)
        ensures
            r == self@.contains(topic@),
    {
        contains_text(&self.list, topic)
    }

    /// Adds a topic.
    pub(crate) fn insert(&mut self, topic: String)
        ensures
            final(self)@ == old(self)@.insert(topic@),
    {
        let ghost before = text::texts(self.list@);
        if !contains_text(&self.list, topic.as_str()) {
            self.list.push(topic);
            proof {
                let after = text::texts(self.list@);
                assert(after =~= before.push(topic@));
                assert forall|t: Seq<char>| #[trigger]
                    after.contains(t) == (before.contains(t) || t == topic@) by {
                    if before.contains(t) {
                        let i = choose|i: int| 0 <= i < before.len() && before[i] == t;
                        assert(after[i] == t);
                    }
                    assert(after[before.len() as int] == topic@);
                }
            }
        }
        assert(self@ =~= old(self)@.insert(topic@));
    }

    /// Takes a topic out.
    pub(crate) fn remove(&mut self, topic: &str)
        ensures
            final(self)@ == old(self)@.remove(topic@),
    {
        let ghost all = text::texts(self.list@);
        let mut kept: Vec<String> = Vec::new();
        let mut i: usize = 0;
        while i < self.list.len()
            invariant
                i <= self.list.len(),
                all == text::texts(self.list@),
                forall|t: Seq<char>|
                    #![trigger text::texts(kept@).contains(t)]
                    text::texts(kept@).contains(t) == (all.take(i as int).contains(t) && t
                        != topic@),
            decreases self.list.len() - i,
        {
            let ghost before = text::texts(kept@);
            if !same(self.list[i].as_str(), topic) {
                kept.push(self.list[i].clone());
                assert(text::texts(kept@) =~= before.push(all[i as int]));
            }
            proof {
                let head = all.take(i as int);
                let more = all.take(i + 1);
                let after = text::texts(kept@);
                assert(more =~= head.push(all[i as int]));
                assert forall|t: Seq<char>| #[trigger]
                    after.contains(t) == (more.contains(t) && t != topic@) by {
                    assert(before.contains(t) == (head.contains(t) && t != topic@));
                    if head.contains(t) {
                        let k = choose|k: int| 0 <= k < head.len() && head[k] == t;
                        assert(more[k] == t);
                    }
                    assert(more[i as int] == all[i as int]);
                    if before.contains(t) {
                        let k = choose|k: int| 0 <= k < before.len() && before[k] == t;
                        assert(after[k] == t);
                    }
                    if all[i as int] != topic@ {
                        assert(after[before.len() as int] == all[i as int]);
                    }
                    if after.contains(t) && t != all[i as int] {
                        let k = choose|k: int| 0 <= k < after.len() && after[k] == t;
                        assert(before[k] == t);
                    }
                    if more.contains(t) && t != all[i as int] {
                        let k = choose|k: int| 0 <= k < more.len() && more[k] == t;
                        assert(head[k] == t);
                    }
                }
            }
            i = i + 1;
        }
        assert(all.take(i as int) =~= all);
        self.list = kept;
        assert(self@ =~= old(self)@.remove(topic@));
    }

    /// Takes the topics of a list out.
    pub(crate) fn remove_all(&mut self, topics: &Vec<String>)
        ensures
            final(self)@ == old(self)@.difference(topics_of(text::texts(topics@))),
    {
        let ghost all = text::texts(topics@);
        let mut i: usize = 0;
        assert(self@ =~= old(self)@.difference(topics_of(all.take(0))));
        while i < topics.len()
            invariant
                i <= topics.len(),
                all == text::texts(topics@),
                self@ == old(self)@.difference(topics_of(all.take(i as int))),
            decreases topics.len() - i,
        {
            let ghost before = self@;
            self.remove(topics[i].as_str());
            proof {
                lemma_topics_step(all, i as int);
                assert(self@ =~= old(self)@.difference(topics_of(all.take(i + 1))));
            }
            i = i + 1;
        }
        assert(all.take(i as int) =~= all);
    }

    /// Adds the topics of a list.
    pub(crate) fn insert_all(&mut self, topics: &Vec<String>)
        ensures
            final(self)@ == old(self)@.union(topics_of(text::texts(topics@))),
    {
        let ghost all = text::texts(topics@);
        let mut i: usize = 0;
        assert(self@ =~= old(self)@.union(topics_of(all.take(0))));
        while i < topics.len()
            invariant
                i <= topics.len(),
                all == text::texts(topics@),
                self@ == old(self)@.union(topics_of(all.take(i as int))),
            decreases topics.len() - i,
        {
            self.insert(topics[i].clone());
            proof {
                lemma_topics_step(all, i as int);
                assert(self@ =~= old(self)@.union(topics_of(all.take(i + 1))));
            }
            i = i + 1;
        }
        assert(all.take(i as int) =~= all);
    }
}

/// One more of a list is one more topic.
proof fn lemma_topics_step(all: Seq<Seq<char>>, i: int)
    requires
        0 <= i < all.len(),
    ensures
        topics_of(all.take(i + 1)) == topics_of(all.take(i)).insert(all[i]),
{
    let head = all.take(i);
    let more = all.take(i + 1);
    assert forall|t: Seq<char>| #[trigger]
        topics_of(more).contains(t) == topics_of(head).insert(all[i]).contains(t) by {
        if head.contains(t) {
            let k = choose|k: int| 0 <= k < head.len() && head[k] == t;
            assert(more[k] == t);
        }
        assert(more[i] == all[i]);
        if more.contains(t) && t != all[i] {
            let k = choose|k: int| 0 <= k < more.len() && more[k] == t;
            assert(head[k] == t);
        }
    }
    assert(topics_of(more) =~= topics_of(head).insert(all[i]));
}

/// The last events that were seen, the oldest first. At most as many as there is room
/// for are kept.
pub struct SeenEvents {
    pub capacity: usize,
    pub ids: Vec<String>,
}

/// The seen events with one more; the oldest goes where there is no room.
pub open spec fn seen_with(seen: Seq<Seq<char>>, capacity: usize, id: Seq<char>) -> Seq<Seq<char>> {
    if seen.len() < capacity {
        seen.push(id)
    } else {
        seen.drop_first().push(id)
    }
}

impl SeenEvents {
    /// Nothing was seen yet.
    pub fn new(capacity: usize) -> (r: Self)
        requires
            capacity > 0,
        ensures
            r.wf(),
            r.capacity == capacity,
            r.ids@.len() == 0,
    {
        SeenEvents { capacity, ids: Vec::new() }
    }

    /// There is room for something, and no more is kept.
    pub open spec fn wf(&self) -> bool {
        0 < self.capacity && self.ids@.len() <= self.capacity
    }

    /// Whether an event was seen.
    pub fn contains(&self, id: &str) -> (r: bool)
        ensures
            r == text::texts(self.ids@).contains(id@),
    {
        contains_text(&self.ids, id)
    }

    pub(crate) fn put(&mut self, id: String)
        requires
            old(self).wf(),
        ensures
            final(self).wf(),
            final(self).capacity == old(self).capacity,
            text::texts(final(self).ids@) == seen_with(
                text::texts(old(self).ids@),
                old(self).capacity,
                id@,
            ),
    {
        let ghost before = text::texts(self.ids@);
        if self.ids.len() >= self.capacity {
            self.ids.remove(0);
            assert(text::texts(self.ids@) =~= before.drop_first());
        }
        let ghost kept = text::texts(self.ids@);
        self.ids.push(id);
        assert(text::texts(self.ids@) =~= kept.push(id@));
    }
}

/// The channels of servers that permissions let a user view.
pub struct Viewable {
    pub ids: Vec<String>,
}

/// What a connection knows.
pub struct Cache {
    pub user_id: String,
    pub is_bot: bool,
    pub users: Table<Entry<User>>,
    pub channels: Table<Channel>,
    pub servers: Table<Entry<Server>>,
    pub members: Table<Entry<Member>>,
    pub seen_events: SeenEvents,
}

/// What a [`Cache`] holds.
#[verifier::ext_equal]
pub struct CacheView {
    pub user_id: Seq<char>,
    pub is_bot: bool,
    pub users: Seq<EntryView<UserView>>,
    pub channels: Seq<ChannelView>,
    pub servers: Seq<EntryView<ServerView>>,
    pub members: Seq<EntryView<MemberView>>,
    pub capacity: usize,
    pub seen: Seq<Seq<char>>,
}

impl View for Cache {
    type V = CacheView;

    open spec fn view(&self) -> CacheView {
        CacheView {
            user_id: self.user_id@,
            is_bot: self.is_bot,
            users: self.users@,
            channels: self.channels@,
            servers: self.servers@,
            members: self.members@,
            capacity: self.seen_events.capacity,
            seen: text::texts(self.seen_events.ids@),
        }
    }
}

/// A channel by its id: as the cache has it, or else as it was fetched.
pub open spec fn resolved(rows: Seq<ChannelView>, fetched: Seq<ChannelView>, id: Seq<char>) -> Option<
    ChannelView,
> {
    if table::has_id::<Channel>(rows, id) {
        Some(table::row_of::<Channel>(rows, id))
    } else if table::has_id::<Channel>(fetched, id) {
        Some(table::row_of::<Channel>(fetched, id))
    } else {
        None
    }
}

/// Whether a channel can be viewed. A thread can be where its parent can be; where
/// the parent is unknown or is no channel that has threads, it cannot.
pub open spec fn can_view(
    rows: Seq<ChannelView>,
    fetched: Seq<ChannelView>,
    viewable: Seq<Seq<char>>,
    c: ChannelView,
) -> bool {
    match c {
        ChannelView::TextChannel { id, .. } => viewable.contains(id),
        ChannelView::Forum { id, .. } => viewable.contains(id),
        ChannelView::Thread { parent_channel, .. } => {
            let parent = resolved(rows, fetched, parent_channel);
            parent is Some && channel_store::has_roles(parent->Some_0) && viewable.contains(
                parent_channel,
            )
        },
        _ => true,
    }
}

/// The predicate of being viewable.
pub open spec fn viewable_among(
    rows: Seq<ChannelView>,
    fetched: Seq<ChannelView>,
    viewable: Seq<Seq<char>>,
) -> spec_fn(ChannelView) -> bool {
    |c: ChannelView| can_view(rows, fetched, viewable, c)
}

/// Direct messages and groups that a user takes part in.
pub open spec fn talks_with(user: Seq<char>) -> spec_fn(ChannelView) -> bool {
    |c: ChannelView|
        channels::recipients_of(c) is Some && channels::recipients_of(c)->Some_0.contains(user)
}

/// Whether the events of another user may be received: of friends, of those with a
/// pending request either way, of the user themself, and of those in a shared channel
/// of direct messages or group.
pub open spec fn can_subscribe(cache: CacheView, user: Seq<char>) -> bool {
    has_key::<User>(cache.users, cache.user_id) && match people::relationship(
        at_key::<User>(cache.users, cache.user_id),
        user,
    ) {
        RelationshipStatus::Friend => true,
        RelationshipStatus::Incoming => true,
        RelationshipStatus::Outgoing => true,
        RelationshipStatus::User => true,
        _ => table::any_row(cache.channels, talks_with(user)),
    }
}

impl Cache {
    /// Keys apart, and the own user known.
    pub open spec fn wf(&self) -> bool {
        &&& table::keyed::<Entry<User>>(self.users@)
        &&& table::keyed::<Channel>(self.channels@)
        &&& table::keyed::<Entry<Server>>(self.servers@)
        &&& table::keyed::<Entry<Member>>(self.members@)
        &&& self.seen_events.wf()
        &&& has_key::<User>(self.users@, self.user_id@)
    }

    /// Whether the user can view a channel. Channels that are not in the cache are
    /// looked up among those that were fetched.
    pub fn can_view_channel(
        &self,
        channel: &Channel,
        fetched: &Table<Channel>,
        viewable: &Viewable,
    ) -> (r: bool)
        ensures
            r == can_view(self.channels@, fetched@, text::texts(viewable.ids@), channel@),
    {
        match channel {
            Channel::TextChannel { id, .. } => contains_text(&viewable.ids, id.as_str()),
            Channel::Forum { id, .. } => contains_text(&viewable.ids, id.as_str()),
            Channel::Thread { parent_channel, .. } => {
                let parent = match self.channels.position(parent_channel.as_str()) {
                    Some(i) => self.channels.get(i),
                    None => match fetched.fetch(parent_channel.as_str()) {
                        Some(parent) => parent,
                        None => {
                            return false;
                        },
                    },
                };
                match parent {
                    Channel::TextChannel { .. } => {},
                    Channel::Forum { .. } => {},
                    _ => {
                        return false;
                    },
                }
                contains_text(&viewable.ids, parent_channel.as_str())
            },
            _ => true,
        }
    }

    /// The channels of a list that the user can view.
    pub fn filter_accessible_channels(
        &self,
        list: Vec<Channel>,
        fetched: &Table<Channel>,
        viewable: &Viewable,
    ) -> (r: Vec<Channel>)
        ensures
            table::row_views(r@) == table::row_views(list@).filter(
                viewable_among(self.channels@, fetched@, text::texts(viewable.ids@)),
            ),
    {
        let all = Table { rows: list };
        let p = |c: &Channel| -> (b: bool)
            ensures
                b == can_view(self.channels@, fetched@, text::texts(viewable.ids@), c@),
            { self.can_view_channel(c, fetched, viewable) };
        all.select(
            p,
            Ghost(viewable_among(self.channels@, fetched@, text::texts(viewable.ids@))),
        )
    }

    /// Whether the events of another user may be received.
    pub fn can_subscribe_to_user(&self, user_id: &str) -> (r: bool)
        ensures
            r == can_subscribe(self@, user_id@),
    {
        match self.users.look(self.user_id.as_str()) {
            Some(user) => match user.relationship_with(user_id) {
                RelationshipStatus::Friend => true,
                RelationshipStatus::Incoming => true,
                RelationshipStatus::Outgoing => true,
                RelationshipStatus::User => true,
                _ => {
                    let p = |c: &Channel| -> (b: bool)
                        ensures
                            b == talks_with(user_id@)(c@),
                        {
                            match c {
                                Channel::Group { recipients, .. } => contains_text(
                                    recipients,
                                    user_id,
                                ),
                                Channel::DirectMessage { recipients, .. } => contains_text(
                                    recipients,
                                    user_id,
                                ),
                                _ => false,
                            }
                        };
                    self.channels.find(p, Ghost(talks_with(user_id@))).is_some()
                },
            },
            None => false,
        }
    }
}

/// A thread can be viewed exactly where its parent is known, can have threads, and can
/// be viewed itself: a thread never shows what a hidden parent hides.
pub proof fn law_thread_is_viewed_like_its_parent(
    rows: Seq<ChannelView>,
    fetched: Seq<ChannelView>,
    viewable: Seq<Seq<char>>,
    thread: ChannelView,
)
    requires
        thread is Thread,
    ensures
        can_view(rows, fetched, viewable, thread) <==> match resolved(
            rows,
            fetched,
            thread->Thread_parent_channel,
        ) {
            Some(parent) => channel_store::has_roles(parent) && can_view(
                rows,
                fetched,
                viewable,
                parent,
            ),
            None => false,
        },
{
    let id = thread->Thread_parent_channel;
    if table::has_id::<Channel>(rows, id) {
        table::lemma_first_row_matches(rows, table::with_id::<Channel>(id));
    } else if table::has_id::<Channel>(fetched, id) {
        table::lemma_first_row_matches(fetched, table::with_id::<Channel>(id));
    }
}

/// Channels of servers can be viewed where they are listed as viewable; direct messages,
/// groups and saved messages always.
pub proof fn law_what_can_be_viewed(
    rows: Seq<ChannelView>,
    fetched: Seq<ChannelView>,
    viewable: Seq<Seq<char>>,
    c: ChannelView,
)
    ensures
        c is TextChannel || c is Forum ==> (can_view(rows, fetched, viewable, c) <==> exists|i: int|
            0 <= i < viewable.len() && #[trigger] viewable[i] == channels::id_of(c)),
        c is DirectMessage || c is Group || c is SavedMessages ==> can_view(
            rows,
            fetched,
            viewable,
            c,
        ),
        c is Thread && can_view(rows, fetched, viewable, c) ==> viewable.contains(
            c->Thread_parent_channel,
        ),
{
}

/// A thread can be viewed where its parent is in the cache, or else was fetched, can have
/// threads and is viewable; the cache goes before what was fetched.
pub proof fn law_parent_is_looked_up(
    rows: Seq<ChannelView>,
    fetched: Seq<ChannelView>,
    viewable: Seq<Seq<char>>,
    c: ChannelView,
    i: int,
    j: int,
)
    requires
        c is Thread,
        table::keyed::<Channel>(rows),
        table::keyed::<Channel>(fetched),
        viewable.contains(c->Thread_parent_channel),
    ensures
        ({
            let id = c->Thread_parent_channel;
            let known = 0 <= i < rows.len() && channels::id_of(rows[i]) == id;
            let brought = 0 <= j < fetched.len() && channels::id_of(fetched[j]) == id;
            let unknown = forall|k: int|
                0 <= k < rows.len() ==> channels::id_of(#[trigger] rows[k]) != id;
            let unbrought = forall|k: int|
                0 <= k < fetched.len() ==> channels::id_of(#[trigger] fetched[k]) != id;
            &&& known ==> (can_view(rows, fetched, viewable, c) <==> rows[i] is TextChannel
                || rows[i] is Forum)
            &&& unknown && brought ==> (can_view(rows, fetched, viewable, c)
                <==> fetched[j] is TextChannel || fetched[j] is Forum)
            &&& unknown && unbrought ==> !can_view(rows, fetched, viewable, c)
        }),
{
    let id = c->Thread_parent_channel;
    let q = table::with_id::<Channel>(id);
    if 0 <= i < rows.len() && channels::id_of(rows[i]) == id {
        table::lemma_keyed_row::<Channel>(rows, id, i);
    }
    if 0 <= j < fetched.len() && channels::id_of(fetched[j]) == id {
        table::lemma_keyed_row::<Channel>(fetched, id, j);
    }
    if table::has_id::<Channel>(rows, id) {
        table::lemma_first_row_matches(rows, q);
    }
    if table::has_id::<Channel>(fetched, id) {
        table::lemma_first_row_matches(fetched, q);
    }
}

/// Of the events that were seen the last ones are kept, as many as there is room for, in
/// order.
pub proof fn law_last_seen_events_are_kept(
    seen: Seq<Seq<char>>,
    capacity: usize,
    id: Seq<char>,
    i: int,
)
    requires
        0 < capacity,
        seen.len() <= capacity,
    ensures
        seen_with(seen, capacity, id).last() == id,
        seen_with(seen, capacity, id).len() <= capacity,
        seen.len() < capacity && 0 <= i < seen.len() ==> seen_with(seen, capacity, id)[i] == seen[i],
        seen.len() == capacity && 0 < i < seen.len() ==> seen_with(seen, capacity, id)[i - 1]
            == seen[i],
        seen.len() < capacity ==> seen_with(seen, capacity, id).len() == seen.len() + 1,
{
}

/// A cache has what was put in it under its key, without what was under it before, and what
/// is taken out is gone; everything else stays.
pub proof fn law_entries_come_and_go(
    rows: Seq<EntryView<ServerView>>,
    key: Seq<char>,
    row: ServerView,
    other: Seq<char>,
)
    requires
        table::keyed::<Entry<Server>>(rows),
        other != key,
    ensures
        ({
            let more = with_entry::<Server>(rows, key, row);
            let less = without_key::<Server>(rows, key);
            &&& has_key::<Server>(more, key) && at_key::<Server>(more, key) == row
            &&& !has_key::<Server>(less, key)
            &&& has_key::<Server>(more, other) == has_key::<Server>(rows, other)
            &&& has_key::<Server>(rows, other) ==> at_key::<Server>(more, other) == at_key::<
                Server,
            >(rows, other)
        }),
{
    let e = EntryView { key, row };
    table::lemma_upserted::<Entry<Server>>(rows, e);
    table::lemma_upserted_elsewhere::<Entry<Server>>(rows, e, other);
    table::lemma_id_gone::<Entry<Server>>(rows, key);
}

} // verus!
