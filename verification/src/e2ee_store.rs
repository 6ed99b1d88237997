//! What is stored of devices that encrypt end to end, and how devices are revoked.
use crate::channel_store;
use crate::channels::{self, ChannelView};
use crate::db::ReferenceDb;
use crate::e2ee::{
    self, E2EEBackup, E2EEBackupView, E2EEBlob, E2EEBlobRecipient, E2EEBlobRecipientView,
    E2EEBlobView, E2EEEnvelope, E2EEEnvelopeView, E2EEIdentity, E2EEIdentityView, E2EEOneTimeKey,
    E2EEOneTimeKeyView,
};
use crate::error::Error;
use crate::events::{self, EventV1, EventV1View, Published, PublishedView};
use crate::order::{self, sort_rows};
use crate::table::{self, copy_rows, KeyedRow, Row, Table};
use crate::text::{self, is_before, same};
use vstd::prelude::*;
use vstd::string::*;
use vstd::utf8::*;

verus! {

/// What is stored of devices.
#[verifier::ext_equal]
pub struct Devices {
    pub identities: Seq<E2EEIdentityView>,
    pub keys: Seq<E2EEOneTimeKeyView>,
    pub queue: Seq<E2EEEnvelopeView>,
}

/// What a database holds of devices.
pub open spec fn devices(db: ReferenceDb) -> Devices {
    Devices {
        identities: db.e2ee_identities@,
        keys: db.e2ee_one_time_keys@,
        queue: db.e2ee_queue@,
    }
}

/// Whether nothing else of a database changed.
pub open spec fn elsewhere_same(before: ReferenceDb, after: ReferenceDb) -> bool {
    after == (ReferenceDb {
        e2ee_identities: after.e2ee_identities,
        e2ee_one_time_keys: after.e2ee_one_time_keys,
        e2ee_queue: after.e2ee_queue,
        ..before
    })
}

/// Devices of a user.
pub open spec fn device_of(user: Seq<char>) -> spec_fn(E2EEIdentityView) -> bool {
    |v: E2EEIdentityView| v.user_id == user
}

/// One device of a user.
pub open spec fn is_device(user: Seq<char>, device: Seq<char>) -> spec_fn(
    E2EEIdentityView,
) -> bool {
    |v: E2EEIdentityView| v.user_id == user && v.device_id == device
}

/// A device that a session last proved to be.
pub open spec fn bound_to(session: Seq<char>) -> spec_fn(E2EEIdentityView) -> bool {
    |v: E2EEIdentityView| v.last_session_id == session
}

/// A device that a session last proved to be, other than one.
pub open spec fn bound_beside(session: Seq<char>, keep: Seq<char>) -> spec_fn(
    E2EEIdentityView,
) -> bool {
    |v: E2EEIdentityView| v.device_id != keep && v.last_session_id == session
}

/// Keys of a device.
pub open spec fn key_of(user: Seq<char>, device: Seq<char>) -> spec_fn(E2EEOneTimeKeyView) -> bool {
    |v: E2EEOneTimeKeyView| v.user_id == user && v.device_id == device
}

/// Keys of other devices.
pub open spec fn key_not_of(user: Seq<char>, device: Seq<char>) -> spec_fn(
    E2EEOneTimeKeyView,
) -> bool {
    |v: E2EEOneTimeKeyView| !(v.user_id == user && v.device_id == device)
}

/// Envelopes for a device.
pub open spec fn envelope_for(user: Seq<char>, device: Seq<char>) -> spec_fn(
    E2EEEnvelopeView,
) -> bool {
    |v: E2EEEnvelopeView| v.recipient_user_id == user && v.recipient_device_id == device
}

/// Envelopes for other devices.
pub open spec fn envelope_not_for(user: Seq<char>, device: Seq<char>) -> spec_fn(
    E2EEEnvelopeView,
) -> bool {
    |v: E2EEEnvelopeView| !(v.recipient_user_id == user && v.recipient_device_id == device)
}

/// Envelopes with an id from a threshold on.
pub open spec fn queued_since(threshold: Seq<char>) -> spec_fn(E2EEEnvelopeView) -> bool {
    |v: E2EEEnvelopeView| !text::text_before(v.id, threshold)
}

/// Blobs with an id before a threshold, larger than a size.
pub open spec fn is_expired(threshold: Seq<char>, min_size: isize) -> spec_fn(E2EEBlobView) -> bool {
    |v: E2EEBlobView| text::text_before(v.id, threshold) && v.size > min_size
}

/// Backups of a user.
pub open spec fn backup_of(user: Seq<char>) -> spec_fn(E2EEBackupView) -> bool {
    |v: E2EEBackupView| v.user_id == user
}

/// Backups of other users.
pub open spec fn backup_not_of(user: Seq<char>) -> spec_fn(E2EEBackupView) -> bool {
    |v: E2EEBackupView| v.user_id != user
}

/// A device that a session proved to be at an instant.
pub open spec fn proven(session: Seq<char>, at: i64) -> spec_fn(
    E2EEIdentityView,
) -> E2EEIdentityView {
    |v: E2EEIdentityView|
        E2EEIdentityView { last_session_id: session, last_seen_at: at, ..v }
}

/// A blob that a device has fetched.
pub open spec fn fetched_by(user: Seq<char>, device: Seq<char>) -> spec_fn(
    E2EEBlobView,
) -> E2EEBlobView {
    |v: E2EEBlobView|
        {
            let at = table::first_row(v.recipients, e2ee::is_recipient(user, device));
            E2EEBlobView {
                recipients: v.recipients.update(
                    at,
                    E2EEBlobRecipientView { fetched: true, ..v.recipients[at] },
                ),
                ..v
            }
        }
}

/// Rows with several put in, one after the other.
pub open spec fn all_upserted<R: KeyedRow>(rows: Seq<R::V>, more: Seq<R::V>) -> Seq<R::V>
    decreases more.len(),
{
    if more.len() == 0 {
        rows
    } else {
        table::upserted::<R>(all_upserted::<R>(rows, more.drop_last()), more.last())
    }
}

/// How many of some keys are stored for a device.
pub open spec fn stored_among(
    keys: Seq<E2EEOneTimeKeyView>,
    user: Seq<char>,
    device: Seq<char>,
    ids: Seq<Seq<char>>,
) -> nat
    decreases ids.len(),
{
    if ids.len() == 0 {
        0
    } else {
        let rest = stored_among(keys, user, device, ids.drop_last());
        if table::has_id::<E2EEOneTimeKey>(keys, e2ee::key_row_id(user, device, ids.last())) {
            rest + 1
        } else {
            rest
        }
    }
}

/// The bytes of what envelopes hold.
pub open spec fn envelope_bytes(rows: Seq<E2EEEnvelopeView>) -> nat
    decreases rows.len(),
{
    if rows.len() == 0 {
        0
    } else {
        envelope_bytes(rows.drop_last()) + encode_utf8(rows.last().ciphertext).len()
    }
}

/// What is stored without a device: its identity, its keys and what is queued for it.
pub open spec fn without_device(d: Devices, user: Seq<char>, device: Seq<char>) -> Devices {
    Devices {
        identities: d.identities.filter(
            table::without_id::<E2EEIdentity>(e2ee::device_row_id(user, device)),
        ),
        keys: d.keys.filter(key_not_of(user, device)),
        queue: d.queue.filter(envelope_not_for(user, device)),
    }
}

/// What is stored without several devices of a user.
pub open spec fn without_devices(d: Devices, user: Seq<char>, ids: Seq<Seq<char>>) -> Devices
    decreases ids.len(),
{
    if ids.len() == 0 {
        d
    } else {
        without_device(without_devices(d, user, ids.drop_last()), user, ids.last())
    }
}

/// The ids of devices.
pub open spec fn device_ids(rows: Seq<E2EEIdentityView>) -> Seq<Seq<char>> {
    Seq::new(rows.len(), |i: int| rows[i].device_id)
}

/// The devices of a user, by their ids.
pub open spec fn listed(rows: Seq<E2EEIdentityView>, user: Seq<char>) -> Seq<E2EEIdentityView> {
    order::sorted::<E2EEIdentity>(rows.filter(device_of(user)))
}

/// The events that tell of a change of the devices of a user: to the user's own
/// connections, and to each direct message channel.
pub open spec fn change_told(rows: Seq<ChannelView>, user: Seq<char>, event: EventV1View) -> Seq<
    PublishedView,
> {
    let mine = rows.filter(channel_store::with_user(user));
    seq![PublishedView { topic: events::private_topic(user), event }] + Seq::new(
        mine.len(),
        |i: int| PublishedView { topic: channels::id_of(mine[i]), event },
    )
}

/// The events that tell that a device was revoked; none where it did not exist.
pub open spec fn revocation_told(
    d: Devices,
    rows: Seq<ChannelView>,
    user: Seq<char>,
    device: Seq<char>,
) -> Seq<PublishedView> {
    if table::has_id::<E2EEIdentity>(d.identities, e2ee::device_row_id(user, device)) {
        change_told(
            rows,
            user,
            EventV1View::E2EEDeviceDelete { user_id: user, device_id: device },
        )
    } else {
        Seq::empty()
    }
}

/// The events that tell that devices were revoked, one after the other.
pub open spec fn revocations_told(
    d: Devices,
    rows: Seq<ChannelView>,
    user: Seq<char>,
    ids: Seq<Seq<char>>,
) -> Seq<PublishedView>
    decreases ids.len(),
{
    if ids.len() == 0 {
        Seq::empty()
    } else {
        revocations_told(d, rows, user, ids.drop_last()) + revocation_told(
            without_devices(d, user, ids.drop_last()),
            rows,
            user,
            ids.last(),
        )
    }
}

proof fn lemma_push_upserted<R: KeyedRow>(rows: Seq<R::V>, more: Seq<R::V>, i: int)
    requires
        0 <= i < more.len(),
    ensures
        all_upserted::<R>(rows, more.take(i + 1)) == table::upserted::<R>(
            all_upserted::<R>(rows, more.take(i)),
            more[i],
        ),
{
    assert(more.take(i + 1).drop_last() =~= more.take(i));
    assert(more.take(i + 1).last() == more[i]);
}

impl ReferenceDb {
    /// A device of a user.
    pub fn fetch_e2ee_identity(&self, user_id: &str, device_id: &str) -> (r: Result<
        E2EEIdentity,
        Error,
    >)
        ensures
            if table::has_id::<E2EEIdentity>(
                self.e2ee_identities@,
                e2ee::device_row_id(user_id@, device_id@),
            ) {
                r is Ok && r->Ok_0@ == table::row_of::<E2EEIdentity>(
                    self.e2ee_identities@,
                    e2ee::device_row_id(user_id@, device_id@),
                )
            } else {
                r == Err::<E2EEIdentity, Error>(Error::NotFound)
            },
    {
        let id = E2EEIdentity::composite_id(user_id, device_id);
        match self.e2ee_identities.fetch(id.as_str()) {
            Some(identity) => Ok(identity),
            None => Err(Error::NotFound),
        }
    }

    /// The devices of a user, by their ids.
    pub fn fetch_e2ee_identities(&self, user_id: &str) -> (r: Vec<E2EEIdentity>)
        ensures
            table::row_views(r@) == listed(self.e2ee_identities@, user_id@),
    {
        let p = |v: &E2EEIdentity| -> (b: bool)
            ensures
                b == device_of(user_id@)(v@),
            { same(v.user_id.as_str(), user_id) };
        sort_rows(self.e2ee_identities.select(p, Ghost(device_of(user_id@))))
    }

    /// Stores a new device. There is one row for each device of a user.
    pub fn insert_e2ee_identity(&mut self, identity: &E2EEIdentity) -> (r: Result<(), Error>)
        requires
            old(self).wf(),
        ensures
            final(self).wf(),
            *final(self) == (ReferenceDb {
                e2ee_identities: final(self).e2ee_identities,
                ..*old(self)
            }),
            if table::has_id::<E2EEIdentity>(old(self).e2ee_identities@, identity@.id)
                || table::any_row(
                old(self).e2ee_identities@,
                is_device(identity@.user_id, identity@.device_id),
            ) {
                &&& r == Err::<(), Error>(
                    Error::DatabaseError { operation: "insert_one", collection: "e2ee_identity" },
                )
                &&& final(self).e2ee_identities@ == old(self).e2ee_identities@
            } else {
                &&& r == Ok::<(), Error>(())
                &&& final(self).e2ee_identities@ == old(self).e2ee_identities@.push(identity@)
            },
    {
        let ghost q = is_device(identity@.user_id, identity@.device_id);
        let p = |v: &E2EEIdentity| -> (b: bool)
            ensures
                b == q(v@),
            {
                same(v.user_id.as_str(), identity.user_id.as_str()) && same(
                    v.device_id.as_str(),
                    identity.device_id.as_str(),
                )
            };
        let taken: bool = self.e2ee_identities.find(p, Ghost(q)).is_some();
        if taken || self.e2ee_identities.contains_id(identity.id.as_str()) {
            return Err(
                Error::DatabaseError { operation: "insert_one", collection: "e2ee_identity" },
            );
        }
        proof {
            table::lemma_keyed_push::<E2EEIdentity>(self.e2ee_identities@, identity@);
        }
        self.e2ee_identities.push(identity.dup());
        Ok(())
    }

    /// Replaces a device.
    pub fn replace_e2ee_identity(&mut self, identity: &E2EEIdentity) -> (r: Result<(), Error>)
        requires
            old(self).wf(),
        ensures
            final(self).wf(),
            *final(self) == (ReferenceDb {
                e2ee_identities: final(self).e2ee_identities,
                ..*old(self)
            }),
            if table::has_id::<E2EEIdentity>(old(self).e2ee_identities@, identity@.id) {
                &&& r == Ok::<(), Error>(())
                &&& final(self).e2ee_identities@ == table::upserted::<E2EEIdentity>(
                    old(self).e2ee_identities@,
                    identity@,
                )
            } else {
                &&& r == Err::<(), Error>(Error::NotFound)
                &&& final(self).e2ee_identities@ == old(self).e2ee_identities@
            },
    {
        if !self.e2ee_identities.contains_id(identity.id.as_str()) {
            return Err(Error::NotFound);
        }
        self.e2ee_identities.upsert(identity.id.as_str(), identity.dup());
        Ok(())
    }

    /// Notes that a session proved to be a device.
    pub fn update_e2ee_identity_session(
        &mut self,
        user_id: &str,
        device_id: &str,
        session_id: &str,
        at: i64,
    ) -> (r: Result<(), Error>)
        requires
            old(self).wf(),
        ensures
            final(self).wf(),
            *final(self) == (ReferenceDb {
                e2ee_identities: final(self).e2ee_identities,
                ..*old(self)
            }),
            if table::has_id::<E2EEIdentity>(
                old(self).e2ee_identities@,
                e2ee::device_row_id(user_id@, device_id@),
            ) {
                &&& r == Ok::<(), Error>(())
                &&& final(self).e2ee_identities@ == table::mapped(
                    old(self).e2ee_identities@,
                    table::with_id::<E2EEIdentity>(e2ee::device_row_id(user_id@, device_id@)),
                    proven(session_id@, at),
                )
            } else {
                &&& r == Err::<(), Error>(Error::NotFound)
                &&& final(self).e2ee_identities@ == old(self).e2ee_identities@
            },
    {
        let id = E2EEIdentity::composite_id(user_id, device_id);
        match self.e2ee_identities.position(id.as_str()) {
            Some(i) => {
                let mut row = self.e2ee_identities.get(i);
                row.last_session_id = session_id.to_owned();
                row.last_seen_at = at;
                self.e2ee_identities.replace(i, row, Ghost(proven(session_id@, at)));
                Ok(())
            },
            None => Err(Error::NotFound),
        }
    }

    /// Deletes a device with its keys and what is queued for it; tells whether it existed.
    pub fn delete_e2ee_device(&mut self, user_id: &str, device_id: &str) -> (r: bool)
        requires
            old(self).wf(),
        ensures
            final(self).wf(),
            elsewhere_same(*old(self), *final(self)),
            r == table::has_id::<E2EEIdentity>(
                old(self).e2ee_identities@,
                e2ee::device_row_id(user_id@, device_id@),
            ),
            devices(*final(self)) == without_device(devices(*old(self)), user_id@, device_id@),
    {
        let id = E2EEIdentity::composite_id(user_id, device_id);
        let existed: bool = self.e2ee_identities.delete(id.as_str());
        self.delete_e2ee_one_time_keys(user_id, device_id);
        let ghost q = envelope_not_for(user_id@, device_id@);
        proof {
            table::lemma_keyed_filter::<E2EEEnvelope>(self.e2ee_queue@, q);
        }
        let p = |v: &E2EEEnvelope| -> (b: bool)
            ensures
                b == q(v@),
            {
                !(same(v.recipient_user_id.as_str(), user_id) && same(
                    v.recipient_device_id.as_str(),
                    device_id,
                ))
            };
        self.e2ee_queue.retain(p, Ghost(q));
        existed
    }

    /// Deletes all devices of a user; tells which.
    pub fn delete_all_e2ee_devices(&mut self, user_id: &str) -> (r: Vec<String>)
        requires
            old(self).wf(),
        ensures
            final(self).wf(),
            elsewhere_same(*old(self), *final(self)),
            text::texts(r@) == device_ids(old(self).e2ee_identities@.filter(device_of(user_id@))),
            devices(*final(self)) == without_devices(
                devices(*old(self)),
                user_id@,
                text::texts(r@),
            ),
    {
        let p = |v: &E2EEIdentity| -> (b: bool)
            ensures
                b == device_of(user_id@)(v@),
            { same(v.user_id.as_str(), user_id) };
        let found = self.e2ee_identities.select(p, Ghost(device_of(user_id@)));
        let ghost start = devices(*self);
        let ghost rows = table::row_views(found@);
        let mut out: Vec<String> = Vec::new();
        let mut i: usize = 0;
        assert(text::texts(out@) =~= device_ids(rows.take(0)));
        while i < found.len()
            invariant
                i <= found.len(),
                self.wf(),
                elsewhere_same(*old(self), *self),
                rows == table::row_views(found@),
                text::texts(out@) == device_ids(rows.take(i as int)),
                devices(*self) == without_devices(start, user_id@, text::texts(out@)),
            decreases found.len() - i,
        {
            let ghost before = text::texts(out@);
            let id = found[i].device_id.clone();
            self.delete_e2ee_device(user_id, id.as_str());
            out.push(id);
            assert(text::texts(out@) =~= before.push(id@));
            assert(text::texts(out@).drop_last() =~= before);
            assert(rows[i as int] == found@[i as int]@);
            assert(device_ids(rows.take(i + 1)) =~= device_ids(rows.take(i as int)).push(id@));
            i = i + 1;
        }
        assert(rows.take(i as int) =~= rows);
        out
    }

    /// Stores keys; a key takes the place of one with the same id.
    pub fn insert_e2ee_one_time_keys(&mut self, keys: &Vec<E2EEOneTimeKey>)
        requires
            old(self).wf(),
        ensures
            final(self).wf(),
            *final(self) == (ReferenceDb {
                e2ee_one_time_keys: final(self).e2ee_one_time_keys,
                ..*old(self)
            }),
            final(self).e2ee_one_time_keys@ == all_upserted::<E2EEOneTimeKey>(
                old(self).e2ee_one_time_keys@,
                table::row_views(keys@),
            ),
    {
        let ghost start = self.e2ee_one_time_keys@;
        let ghost rows = table::row_views(keys@);
        let mut i: usize = 0;
        assert(rows.take(0) =~= Seq::empty());
        while i < keys.len()
            invariant
                i <= keys.len(),
                self.wf(),
                *self == (ReferenceDb { e2ee_one_time_keys: self.e2ee_one_time_keys, ..*old(self) }),
                rows == table::row_views(keys@),
                self.e2ee_one_time_keys@ == all_upserted::<E2EEOneTimeKey>(
                    start,
                    rows.take(i as int),
                ),
            decreases keys.len() - i,
        {
            proof {
                lemma_push_upserted::<E2EEOneTimeKey>(start, rows, i as int);
            }
            self.e2ee_one_time_keys.upsert(keys[i].id.as_str(), keys[i].dup());
            i = i + 1;
        }
        assert(rows.take(i as int) =~= rows);
    }

    /// Deletes all keys of a device; tells how many.
    pub fn delete_e2ee_one_time_keys(&mut self, user_id: &str, device_id: &str) -> (r: usize)
        requires
            old(self).wf(),
        ensures
            final(self).wf(),
            *final(self) == (ReferenceDb {
                e2ee_one_time_keys: final(self).e2ee_one_time_keys,
                ..*old(self)
            }),
            final(self).e2ee_one_time_keys@ == old(self).e2ee_one_time_keys@.filter(
                key_not_of(user_id@, device_id@),
            ),
            r == old(self).e2ee_one_time_keys@.len() - final(self).e2ee_one_time_keys@.len(),
    {
        let ghost q = key_not_of(user_id@, device_id@);
        proof {
            table::lemma_keyed_filter::<E2EEOneTimeKey>(self.e2ee_one_time_keys@, q);
            self.e2ee_one_time_keys@.lemma_filter_len(q);
        }
        let before: usize = self.e2ee_one_time_keys.len();
        let p = |v: &E2EEOneTimeKey| -> (b: bool)
            ensures
                b == q(v@),
            { !(same(v.user_id.as_str(), user_id) && same(v.device_id.as_str(), device_id)) };
        self.e2ee_one_time_keys.retain(p, Ghost(q));
        before - self.e2ee_one_time_keys.len()
    }

    /// How many keys are left for a device.
    pub fn count_e2ee_one_time_keys(&self, user_id: &str, device_id: &str) -> (r: u64)
        ensures
            r == self.e2ee_one_time_keys@.filter(key_of(user_id@, device_id@)).len(),
    {
        let ghost q = key_of(user_id@, device_id@);
        let p = |v: &E2EEOneTimeKey| -> (b: bool)
            ensures
                b == q(v@),
            { same(v.user_id.as_str(), user_id) && same(v.device_id.as_str(), device_id) };
        self.e2ee_one_time_keys.count(p, Ghost(q)) as u64
    }

    /// How many of some keys are stored for a device.
    pub fn count_e2ee_one_time_keys_among(
        &self,
        user_id: &str,
        device_id: &str,
        key_ids: &Vec<String>,
    ) -> (r: u64)
        ensures
            r == stored_among(
                self.e2ee_one_time_keys@,
                user_id@,
                device_id@,
                text::texts(key_ids@),
            ),
    {
        let ghost ids = text::texts(key_ids@);
        let mut n: u64 = 0;
        let mut i: usize = 0;
        while i < key_ids.len()
            invariant
                i <= key_ids.len(),
                n <= i,
                ids == text::texts(key_ids@),
                n == stored_among(
                    self.e2ee_one_time_keys@,
                    user_id@,
                    device_id@,
                    ids.take(i as int),
                ),
            decreases key_ids.len() - i,
        {
            let id = E2EEOneTimeKey::composite_id(user_id, device_id, key_ids[i].as_str());
            proof {
                assert(ids.take(i + 1).drop_last() =~= ids.take(i as int));
                assert(ids.take(i + 1).last() == key_ids@[i as int]@);
            }
            if self.e2ee_one_time_keys.contains_id(id.as_str()) {
                n = n + 1;
            }
            i = i + 1;
        }
        assert(ids.take(i as int) =~= ids);
        n
    }

    /// Takes a key of a device out: the one with the first id. Nothing where none is
    /// left.
    pub fn consume_e2ee_one_time_key(&mut self, user_id: &str, device_id: &str) -> (r: Option<
        E2EEOneTimeKey,
    >)
        requires
            old(self).wf(),
        ensures
            final(self).wf(),
            *final(self) == (ReferenceDb {
                e2ee_one_time_keys: final(self).e2ee_one_time_keys,
                ..*old(self)
            }),
            table::opt_view(r) == next_key(old(self).e2ee_one_time_keys@, user_id@, device_id@),
            final(self).e2ee_one_time_keys@ == after_consumption(
                old(self).e2ee_one_time_keys@,
                user_id@,
                device_id@,
            ),
    {
        let ghost q = key_of(user_id@, device_id@);
        let p = |v: &E2EEOneTimeKey| -> (b: bool)
            ensures
                b == q(v@),
            { same(v.user_id.as_str(), user_id) && same(v.device_id.as_str(), device_id) };
        let found = self.e2ee_one_time_keys.select(p, Ghost(q));
        proof {
            order::lemma_sorted::<E2EEOneTimeKey>(table::row_views(found@));
        }
        let mut mine = sort_rows(found);
        assert(table::row_views(mine@).len() == mine@.len());
        if mine.len() == 0 {
            return None;
        }
        assert(table::row_views(mine@)[0] == mine@[0]@);
        let first = mine.remove(0);
        self.e2ee_one_time_keys.delete(first.id.as_str());
        Some(first)
    }

    /// Queues envelopes; one takes the place of another with the same id.
    pub fn insert_e2ee_envelopes(&mut self, envelopes: &Vec<E2EEEnvelope>)
        requires
            old(self).wf(),
        ensures
            final(self).wf(),
            *final(self) == (ReferenceDb { e2ee_queue: final(self).e2ee_queue, ..*old(self) }),
            final(self).e2ee_queue@ == all_upserted::<E2EEEnvelope>(
                old(self).e2ee_queue@,
                table::row_views(envelopes@),
            ),
    {
        let ghost start = self.e2ee_queue@;
        let ghost rows = table::row_views(envelopes@);
        let mut i: usize = 0;
        assert(rows.take(0) =~= Seq::empty());
        while i < envelopes.len()
            invariant
                i <= envelopes.len(),
                self.wf(),
                *self == (ReferenceDb { e2ee_queue: self.e2ee_queue, ..*old(self) }),
                rows == table::row_views(envelopes@),
                self.e2ee_queue@ == all_upserted::<E2EEEnvelope>(start, rows.take(i as int)),
            decreases envelopes.len() - i,
        {
            proof {
                lemma_push_upserted::<E2EEEnvelope>(start, rows, i as int);
            }
            self.e2ee_queue.upsert(envelopes[i].id.as_str(), envelopes[i].dup());
            i = i + 1;
        }
        assert(rows.take(i as int) =~= rows);
    }

    fn queued_for(&self, user_id: &str, device_id: &str) -> (r: Vec<E2EEEnvelope>)
        ensures
            table::row_views(r@) == self.e2ee_queue@.filter(envelope_for(user_id@, device_id@)),
    {
        let ghost q = envelope_for(user_id@, device_id@);
        let p = |v: &E2EEEnvelope| -> (b: bool)
            ensures
                b == q(v@),
            {
                same(v.recipient_user_id.as_str(), user_id) && same(
                    v.recipient_device_id.as_str(),
                    device_id,
                )
            };
        self.e2ee_queue.select(p, Ghost(q))
    }

    /// How many envelopes are queued for a device.
    pub fn count_e2ee_envelopes(&self, recipient_user_id: &str, recipient_device_id: &str) -> (r:
        u64)
        ensures
            r == self.e2ee_queue@.filter(envelope_for(recipient_user_id@, recipient_device_id@)).len(),
    {
        let found = self.queued_for(recipient_user_id, recipient_device_id);
        assert(table::row_views(found@).len() == found@.len());
        found.len() as u64
    }

    /// How many bytes are queued for a device, as far as can be told.
    pub fn sum_e2ee_envelope_bytes(&self, recipient_user_id: &str, recipient_device_id: &str) -> (r:
        u64)
        ensures
            r == ({
                let bytes = envelope_bytes(
                    self.e2ee_queue@.filter(envelope_for(recipient_user_id@, recipient_device_id@)),
                );
                if bytes > u64::MAX {
                    u64::MAX as nat
                } else {
                    bytes
                }
            }),
    {
        let found = self.queued_for(recipient_user_id, recipient_device_id);
        let ghost rows = table::row_views(found@);
        let mut total: u64 = 0;
        let mut i: usize = 0;
        while i < found.len()
            invariant
                i <= found.len(),
                rows == table::row_views(found@),
                total == if envelope_bytes(rows.take(i as int)) > u64::MAX {
                    u64::MAX as nat
                } else {
                    envelope_bytes(rows.take(i as int))
                },
            decreases found.len() - i,
        {
            proof {
                assert(rows.take(i + 1).drop_last() =~= rows.take(i as int));
                assert(rows.take(i + 1).last() == found@[i as int]@);
            }
            let n: u64 = found[i].ciphertext.as_str().as_bytes().len() as u64;
            total = if n > u64::MAX - total {
                u64::MAX
            } else {
                total + n
            };
            i = i + 1;
        }
        assert(rows.take(i as int) =~= rows);
        total
    }

    /// The first envelopes that are queued for a device, in the order of their ids.
    pub fn fetch_e2ee_envelopes(
        &self,
        recipient_user_id: &str,
        recipient_device_id: &str,
        limit: i64,
    ) -> (r: Vec<E2EEEnvelope>)
        ensures
            table::row_views(r@) == first_envelopes(
                self.e2ee_queue@,
                recipient_user_id@,
                recipient_device_id@,
                limit as int,
            ),
    {
        let found = self.queued_for(recipient_user_id, recipient_device_id);
        let all = sort_rows(found);
        let ghost rows = table::row_views(all@);
        let mut out: Vec<E2EEEnvelope> = Vec::new();
        let mut i: usize = 0;
        assert(table::row_views(out@) =~= rows.take(0));
        while i < all.len() && (i as i128) < (limit as i128)
            invariant
                i <= all.len(),
                i == 0 || i <= limit,
                rows == table::row_views(all@),
                table::row_views(out@) == rows.take(i as int),
            decreases all.len() - i,
        {
            let ghost before = out@;
            out.push(all[i].dup());
            assert(table::row_views(out@) =~= table::row_views(before).push(rows[i as int]));
            assert(rows.take(i + 1) =~= rows.take(i as int).push(rows[i as int]));
            i = i + 1;
        }
        out
    }

    /// Deletes an envelope that was delivered. Only the device that it is for can do so;
    /// tells whether it did.
    pub fn delete_e2ee_envelope(
        &mut self,
        id: &str,
        recipient_user_id: &str,
        recipient_device_id: &str,
    ) -> (r: bool)
        requires
            old(self).wf(),
        ensures
            final(self).wf(),
            *final(self) == (ReferenceDb { e2ee_queue: final(self).e2ee_queue, ..*old(self) }),
            r == is_queued_for(old(self).e2ee_queue@, id@, recipient_user_id@, recipient_device_id@),
            final(self).e2ee_queue@ == if r {
                old(self).e2ee_queue@.filter(table::without_id::<E2EEEnvelope>(id@))
            } else {
                old(self).e2ee_queue@
            },
    {
        match self.e2ee_queue.fetch(id) {
            Some(envelope) => {
                if same(envelope.recipient_user_id.as_str(), recipient_user_id) && same(
                    envelope.recipient_device_id.as_str(),
                    recipient_device_id,
                ) {
                    self.e2ee_queue.delete(id);
                    true
                } else {
                    false
                }
            },
            None => false,
        }
    }

    /// Deletes the envelopes with an id before a threshold; tells how many.
    pub fn delete_e2ee_envelopes_before(&mut self, threshold_id: &str) -> (r: usize)
        requires
            old(self).wf(),
        ensures
            final(self).wf(),
            *final(self) == (ReferenceDb { e2ee_queue: final(self).e2ee_queue, ..*old(self) }),
            final(self).e2ee_queue@ == old(self).e2ee_queue@.filter(queued_since(threshold_id@)),
            r == old(self).e2ee_queue@.len() - final(self).e2ee_queue@.len(),
    {
        let ghost q = queued_since(threshold_id@);
        proof {
            table::lemma_keyed_filter::<E2EEEnvelope>(self.e2ee_queue@, q);
            self.e2ee_queue@.lemma_filter_len(q);
        }
        let before: usize = self.e2ee_queue.len();
        let p = |v: &E2EEEnvelope| -> (b: bool)
            ensures
                b == q(v@),
            { !is_before(v.id.as_str(), threshold_id) };
        self.e2ee_queue.retain(p, Ghost(q));
        before - self.e2ee_queue.len()
    }

    /// Stores a new blob.
    pub fn insert_e2ee_blob(&mut self, blob: &E2EEBlob) -> (r: Result<(), Error>)
        requires
            old(self).wf(),
        ensures
            final(self).wf(),
            *final(self) == (ReferenceDb { e2ee_blobs: final(self).e2ee_blobs, ..*old(self) }),
            if table::has_id::<E2EEBlob>(old(self).e2ee_blobs@, blob@.id) {
                &&& r == Err::<(), Error>(Error::InvalidOperation)
                &&& final(self).e2ee_blobs@ == old(self).e2ee_blobs@
            } else {
                &&& r == Ok::<(), Error>(())
                &&& final(self).e2ee_blobs@ == old(self).e2ee_blobs@.push(blob@)
            },
    {
        if self.e2ee_blobs.contains_id(blob.id.as_str()) {
            return Err(Error::InvalidOperation);
        }
        proof {
            table::lemma_keyed_push::<E2EEBlob>(self.e2ee_blobs@, blob@);
        }
        self.e2ee_blobs.push(blob.dup());
        Ok(())
    }

    /// A blob.
    pub fn fetch_e2ee_blob(&self, id: &str) -> (r: Result<E2EEBlob, Error>)
        ensures
            if table::has_id::<E2EEBlob>(self.e2ee_blobs@, id@) {
                r is Ok && r->Ok_0@ == table::row_of::<E2EEBlob>(self.e2ee_blobs@, id@)
            } else {
                r == Err::<E2EEBlob, Error>(Error::NotFound)
            },
    {
        match self.e2ee_blobs.fetch(id) {
            Some(blob) => Ok(blob),
            None => Err(Error::NotFound),
        }
    }

    /// Notes that a device fetched a blob, and gives the blob. There must be the blob,
    /// and it must be for the device.
    pub fn mark_e2ee_blob_fetched(&mut self, id: &str, user_id: &str, device_id: &str) -> (r:
        Result<E2EEBlob, Error>)
        requires
            old(self).wf(),
        ensures
            final(self).wf(),
            *final(self) == (ReferenceDb { e2ee_blobs: final(self).e2ee_blobs, ..*old(self) }),
            if may_fetch(old(self).e2ee_blobs@, id@, user_id@, device_id@) {
                &&& r is Ok
                &&& r->Ok_0@ == fetched_by(user_id@, device_id@)(
                    table::row_of::<E2EEBlob>(old(self).e2ee_blobs@, id@),
                )
                &&& final(self).e2ee_blobs@ == table::mapped(
                    old(self).e2ee_blobs@,
                    table::with_id::<E2EEBlob>(id@),
                    fetched_by(user_id@, device_id@),
                )
            } else {
                &&& r == Err::<E2EEBlob, Error>(Error::NotFound)
                &&& final(self).e2ee_blobs@ == old(self).e2ee_blobs@
            },
    {
        let at: usize = match self.e2ee_blobs.position(id) {
            Some(i) => i,
            None => {
                return Err(Error::NotFound);
            },
        };
        let blob = self.e2ee_blobs.get(at);
        let ghost q = e2ee::is_recipient(user_id@, device_id@);
        let p = |v: &E2EEBlobRecipient| -> (b: bool)
            ensures
                b == q(v@),
            { same(v.user_id.as_str(), user_id) && same(v.device_id.as_str(), device_id) };
        let mut recipients = Table { rows: copy_rows(&blob.recipients) };
        match recipients.find(p, Ghost(q)) {
            Some(i) => {
                let mut recipient = recipients.get(i);
                recipient.fetched = true;
                recipients.put(i, recipient);
                let ghost before = blob@;
                let marked = E2EEBlob { recipients: recipients.rows, ..blob };
                assert(marked@ == fetched_by(user_id@, device_id@)(before));
                self.e2ee_blobs.replace(
                    at,
                    marked.dup(),
                    Ghost(fetched_by(user_id@, device_id@)),
                );
                Ok(marked)
            },
            None => Err(Error::NotFound),
        }
    }

    /// Deletes a blob; tells whether it existed.
    pub fn delete_e2ee_blob(&mut self, id: &str) -> (r: bool)
        requires
            old(self).wf(),
        ensures
            final(self).wf(),
            *final(self) == (ReferenceDb { e2ee_blobs: final(self).e2ee_blobs, ..*old(self) }),
            r == table::has_id::<E2EEBlob>(old(self).e2ee_blobs@, id@),
            final(self).e2ee_blobs@ == old(self).e2ee_blobs@.filter(
                table::without_id::<E2EEBlob>(id@),
            ),
    {
        self.e2ee_blobs.delete(id)
    }

    /// Blobs with an id before a threshold, larger than a size, in the order of their
    /// ids.
    pub fn fetch_expired_e2ee_blobs(&self, threshold_id: &str, min_size: isize) -> (r: Vec<E2EEBlob>)
        ensures
            table::row_views(r@) == order::sorted::<E2EEBlob>(
                self.e2ee_blobs@.filter(is_expired(threshold_id@, min_size)),
            ),
    {
        let ghost q = is_expired(threshold_id@, min_size);
        let p = |v: &E2EEBlob| -> (b: bool)
            ensures
                b == q(v@),
            { is_before(v.id.as_str(), threshold_id) && v.size > min_size };
        sort_rows(self.e2ee_blobs.select(p, Ghost(q)))
    }

    /// The backup of a device.
    pub fn fetch_e2ee_backup(&self, user_id: &str, device_id: &str) -> (r: Option<E2EEBackup>)
        ensures
            table::opt_view(r) == if table::has_id::<E2EEBackup>(
                self.e2ee_backups@,
                e2ee::device_row_id(user_id@, device_id@),
            ) {
                Some(
                    table::row_of::<E2EEBackup>(
                        self.e2ee_backups@,
                        e2ee::device_row_id(user_id@, device_id@),
                    ),
                )
            } else {
                None
            },
    {
        let id = E2EEBackup::composite_id(user_id, device_id);
        self.e2ee_backups.fetch(id.as_str())
    }

    /// The backups of a user, by the ids of the devices.
    pub fn fetch_e2ee_backups(&self, user_id: &str) -> (r: Vec<E2EEBackup>)
        ensures
            table::row_views(r@) == order::sorted::<E2EEBackup>(
                self.e2ee_backups@.filter(backup_of(user_id@)),
            ),
    {
        let ghost q = backup_of(user_id@);
        let p = |v: &E2EEBackup| -> (b: bool)
            ensures
                b == q(v@),
            { same(v.user_id.as_str(), user_id) };
        sort_rows(self.e2ee_backups.select(p, Ghost(q)))
    }

    /// Stores a backup in place of the one before.
    pub fn upsert_e2ee_backup(&mut self, backup: &E2EEBackup)
        requires
            old(self).wf(),
        ensures
            final(self).wf(),
            *final(self) == (ReferenceDb { e2ee_backups: final(self).e2ee_backups, ..*old(self) }),
            final(self).e2ee_backups@ == table::upserted::<E2EEBackup>(
                old(self).e2ee_backups@,
                backup@,
            ),
    {
        self.e2ee_backups.upsert(backup.id.as_str(), backup.dup());
    }

    /// Deletes the backup of a device; tells whether it existed.
    pub fn delete_e2ee_backup(&mut self, user_id: &str, device_id: &str) -> (r: bool)
        requires
            old(self).wf(),
        ensures
            final(self).wf(),
            *final(self) == (ReferenceDb { e2ee_backups: final(self).e2ee_backups, ..*old(self) }),
            r == table::has_id::<E2EEBackup>(
                old(self).e2ee_backups@,
                e2ee::device_row_id(user_id@, device_id@),
            ),
            final(self).e2ee_backups@ == old(self).e2ee_backups@.filter(
                table::without_id::<E2EEBackup>(e2ee::device_row_id(user_id@, device_id@)),
            ),
    {
        let id = E2EEBackup::composite_id(user_id, device_id);
        self.e2ee_backups.delete(id.as_str())
    }

    /// Deletes all backups of a user; tells how many.
    pub fn delete_all_e2ee_backups(&mut self, user_id: &str) -> (r: usize)
        requires
            old(self).wf(),
        ensures
            final(self).wf(),
            *final(self) == (ReferenceDb { e2ee_backups: final(self).e2ee_backups, ..*old(self) }),
            final(self).e2ee_backups@ == old(self).e2ee_backups@.filter(backup_not_of(user_id@)),
            r == old(self).e2ee_backups@.len() - final(self).e2ee_backups@.len(),
    {
        let ghost q = backup_not_of(user_id@);
        proof {
            table::lemma_keyed_filter::<E2EEBackup>(self.e2ee_backups@, q);
            self.e2ee_backups@.lemma_filter_len(q);
        }
        let before: usize = self.e2ee_backups.len();
        let p = |v: &E2EEBackup| -> (b: bool)
            ensures
                b == q(v@),
            { !same(v.user_id.as_str(), user_id) };
        self.e2ee_backups.retain(p, Ghost(q));
        before - self.e2ee_backups.len()
    }
}

/// The key of a device that is given out next: the one with the first id.
pub open spec fn next_key(keys: Seq<E2EEOneTimeKeyView>, user: Seq<char>, device: Seq<char>) -> Option<
    E2EEOneTimeKeyView,
> {
    let mine = order::sorted::<E2EEOneTimeKey>(keys.filter(key_of(user, device)));
    if mine.len() == 0 {
        None
    } else {
        Some(mine[0])
    }
}

/// The keys that are left when the next one of a device was given out.
pub open spec fn after_consumption(
    keys: Seq<E2EEOneTimeKeyView>,
    user: Seq<char>,
    device: Seq<char>,
) -> Seq<E2EEOneTimeKeyView> {
    match next_key(keys, user, device) {
        Some(key) => keys.filter(table::without_id::<E2EEOneTimeKey>(key.id)),
        None => keys,
    }
}

/// The first envelopes for a device, in the order of their ids.
pub open spec fn first_envelopes(
    queue: Seq<E2EEEnvelopeView>,
    user: Seq<char>,
    device: Seq<char>,
    limit: int,
) -> Seq<E2EEEnvelopeView> {
    let all = order::sorted::<E2EEEnvelope>(queue.filter(envelope_for(user, device)));
    if limit <= 0 {
        all.take(0)
    } else if limit < all.len() {
        all.take(limit)
    } else {
        all
    }
}

/// Whether an envelope is queued for a device.
pub open spec fn is_queued_for(
    queue: Seq<E2EEEnvelopeView>,
    id: Seq<char>,
    user: Seq<char>,
    device: Seq<char>,
) -> bool {
    table::has_id::<E2EEEnvelope>(queue, id) && envelope_for(user, device)(
        table::row_of::<E2EEEnvelope>(queue, id),
    )
}

/// Whether there is a blob and it is for a device.
pub open spec fn may_fetch(
    blobs: Seq<E2EEBlobView>,
    id: Seq<char>,
    user: Seq<char>,
    device: Seq<char>,
) -> bool {
    table::has_id::<E2EEBlob>(blobs, id) && table::any_row(
        table::row_of::<E2EEBlob>(blobs, id).recipients,
        e2ee::is_recipient(user, device),
    )
}

/// What is left to do once devices of a user were revoked.
#[derive(Debug, PartialEq, Eq)]
pub struct Revoked {
    /// The ids of the devices whose MLS key packages are to be deleted.
    pub key_packages_of: Vec<String>,
    /// The events that tell others.
    pub published: Vec<Published>,
}

impl E2EEIdentity {
    /// Whether a session is bound to any device of a user.
    pub fn require_device_bound_session(db: &ReferenceDb, user_id: &str, session_id: &str) -> (r:
        Result<(), Error>)
        ensures
            r == (if table::any_row(
                listed(db.e2ee_identities@, user_id@),
                bound_to(session_id@),
            ) {
                Ok::<(), Error>(())
            } else {
                Err::<(), Error>(Error::NotAuthenticated)
            }),
    {
        let all = Table { rows: db.fetch_e2ee_identities(user_id) };
        let p = |v: &E2EEIdentity| -> (b: bool)
            ensures
                b == bound_to(session_id@)(v@),
            { same(v.last_session_id.as_str(), session_id) };
        if all.find(p, Ghost(bound_to(session_id@))).is_some() {
            Ok(())
        } else {
            Err(Error::NotAuthenticated)
        }
    }

    /// The events that tell of a change of the devices of a user: to the user's own
    /// connections, and to each direct message channel.
    pub fn broadcast_device_change(db: &ReferenceDb, user_id: &str, event: EventV1) -> (r: Vec<
        Published,
    >)
        ensures
            table::row_views(r@) == change_told(db.channels@, user_id@, event@),
    {
        let ghost all = change_told(db.channels@, user_id@, event@);
        let found = db.find_direct_messages(user_id);
        let ghost mine = table::row_views(found@);
        let mut out: Vec<Published> = Vec::new();
        out.push(event.dup().private(user_id.to_owned()));
        let mut i: usize = 0;
        assert(table::row_views(out@) =~= all.take(1));
        while i < found.len()
            invariant
                i <= found.len(),
                mine == table::row_views(found@),
                mine == db.channels@.filter(channel_store::with_user(user_id@)),
                all == change_told(db.channels@, user_id@, event@),
                table::row_views(out@) == all.take(i + 1),
            decreases found.len() - i,
        {
            let ghost before = out@;
            out.push(event.dup().p(found[i].id().to_owned()));
            assert(mine[i as int] == found@[i as int]@);
            assert(table::row_views(out@) =~= table::row_views(before).push(all[i + 1]));
            assert(all.take(i + 2) =~= all.take(i + 1).push(all[i + 1]));
            i = i + 1;
        }
        assert(all.take(i + 1) =~= all);
        out
    }

    /// Revokes a device: deletes it, with its keys and what is queued for it. Tells
    /// whether it existed. Its MLS key packages go with it whether it existed or not, so
    /// that nobody claims one of a dead device; others are told where it existed.
    pub fn revoke_device(db: &mut ReferenceDb, user_id: &str, device_id: &str) -> (r: (
        bool,
        Revoked,
    ))
        requires
            old(db).wf(),
        ensures
            final(db).wf(),
            elsewhere_same(*old(db), *final(db)),
            r.0 == table::has_id::<E2EEIdentity>(
                old(db).e2ee_identities@,
                e2ee::device_row_id(user_id@, device_id@),
            ),
            devices(*final(db)) == without_device(devices(*old(db)), user_id@, device_id@),
            text::texts(r.1.key_packages_of@) == seq![device_id@],
            table::row_views(r.1.published@) == revocation_told(
                devices(*old(db)),
                old(db).channels@,
                user_id@,
                device_id@,
            ),
    {
        let existed: bool = db.delete_e2ee_device(user_id, device_id);
        let mut key_packages_of: Vec<String> = Vec::new();
        key_packages_of.push(device_id.to_owned());
        assert(text::texts(key_packages_of@) =~= seq![device_id@]);
        let published = if existed {
            let event = EventV1::E2EEDeviceDelete {
                user_id: user_id.to_owned(),
                device_id: device_id.to_owned(),
            };
            E2EEIdentity::broadcast_device_change(db, user_id, event)
        } else {
            let none: Vec<Published> = Vec::new();
            assert(table::row_views(none@) =~= Seq::<PublishedView>::empty());
            none
        };
        (existed, Revoked { key_packages_of, published })
    }

    fn revoke_all(db: &mut ReferenceDb, user_id: &str, targets: &Vec<E2EEIdentity>) -> (r: Revoked)
        requires
            old(db).wf(),
        ensures
            final(db).wf(),
            elsewhere_same(*old(db), *final(db)),
            devices(*final(db)) == without_devices(
                devices(*old(db)),
                user_id@,
                device_ids(table::row_views(targets@)),
            ),
            text::texts(r.key_packages_of@) == device_ids(table::row_views(targets@)),
            table::row_views(r.published@) == revocations_told(
                devices(*old(db)),
                old(db).channels@,
                user_id@,
                device_ids(table::row_views(targets@)),
            ),
    {
        let ghost start = devices(*db);
        let ghost rows = old(db).channels@;
        let ghost ids = device_ids(table::row_views(targets@));
        let mut wiped: Vec<String> = Vec::new();
        let mut out: Vec<Published> = Vec::new();
        let mut i: usize = 0;
        assert(table::row_views(out@) =~= Seq::<PublishedView>::empty());
        assert(ids.take(0) =~= Seq::empty());
        assert(text::texts(wiped@) =~= ids.take(0));
        while i < targets.len()
            invariant
                i <= targets.len(),
                db.wf(),
                elsewhere_same(*old(db), *db),
                rows == old(db).channels@,
                ids == device_ids(table::row_views(targets@)),
                devices(*db) == without_devices(start, user_id@, ids.take(i as int)),
                text::texts(wiped@) == ids.take(i as int),
                table::row_views(out@) == revocations_told(
                    start,
                    rows,
                    user_id@,
                    ids.take(i as int),
                ),
            decreases targets.len() - i,
        {
            proof {
                assert(ids.take(i + 1).drop_last() =~= ids.take(i as int));
                assert(ids.take(i + 1).last() == targets@[i as int]@.device_id);
            }
            let ghost before = out@;
            let ghost wiped_before = wiped@;
            let mut left = E2EEIdentity::revoke_device(
                db,
                user_id,
                targets[i].device_id.as_str(),
            ).1;
            let ghost more = left.published@;
            let ghost one = left.key_packages_of@;
            out.append(&mut left.published);
            wiped.append(&mut left.key_packages_of);
            assert(text::texts(wiped@) =~= text::texts(wiped_before) + text::texts(one));
            assert(text::texts(wiped@) =~= ids.take(i + 1));
            assert(table::row_views(out@) =~= table::row_views(before) + table::row_views(more));
            i = i + 1;
        }
        assert(ids.take(i as int) =~= ids);
        Revoked { key_packages_of: wiped, published: out }
    }

    /// Revokes the devices of a user that are bound to a session: a device dies with its
    /// session.
    pub fn revoke_devices_for_session(db: &mut ReferenceDb, user_id: &str, session_id: &str) -> (r:
        Revoked)
        requires
            old(db).wf(),
        ensures
            final(db).wf(),
            elsewhere_same(*old(db), *final(db)),
            devices(*final(db)) == without_devices(
                devices(*old(db)),
                user_id@,
                session_devices(old(db).e2ee_identities@, user_id@, session_id@),
            ),
            text::texts(r.key_packages_of@) == session_devices(
                old(db).e2ee_identities@,
                user_id@,
                session_id@,
            ),
            table::row_views(r.published@) == revocations_told(
                devices(*old(db)),
                old(db).channels@,
                user_id@,
                session_devices(old(db).e2ee_identities@, user_id@, session_id@),
            ),
    {
        let all = Table { rows: db.fetch_e2ee_identities(user_id) };
        let p = |v: &E2EEIdentity| -> (b: bool)
            ensures
                b == bound_to(session_id@)(v@),
            { same(v.last_session_id.as_str(), session_id) };
        let targets = all.select(p, Ghost(bound_to(session_id@)));
        E2EEIdentity::revoke_all(db, user_id, &targets)
    }

    /// Revokes the devices of a user that are bound to a session, but for the one that
    /// the session is now: the others cannot exist any longer.
    pub fn revoke_same_session_predecessors(
        db: &mut ReferenceDb,
        user_id: &str,
        session_id: &str,
        keep_device_id: &str,
    ) -> (r: Revoked)
        requires
            old(db).wf(),
        ensures
            final(db).wf(),
            elsewhere_same(*old(db), *final(db)),
            devices(*final(db)) == without_devices(
                devices(*old(db)),
                user_id@,
                predecessors(old(db).e2ee_identities@, user_id@, session_id@, keep_device_id@),
            ),
            text::texts(r.key_packages_of@) == predecessors(
                old(db).e2ee_identities@,
                user_id@,
                session_id@,
                keep_device_id@,
            ),
            table::row_views(r.published@) == revocations_told(
                devices(*old(db)),
                old(db).channels@,
                user_id@,
                predecessors(old(db).e2ee_identities@, user_id@, session_id@, keep_device_id@),
            ),
    {
        let all = Table { rows: db.fetch_e2ee_identities(user_id) };
        let ghost q = bound_beside(session_id@, keep_device_id@);
        let p = |v: &E2EEIdentity| -> (b: bool)
            ensures
                b == q(v@),
            {
                !same(v.device_id.as_str(), keep_device_id) && same(
                    v.last_session_id.as_str(),
                    session_id,
                )
            };
        let targets = all.select(p, Ghost(q));
        E2EEIdentity::revoke_all(db, user_id, &targets)
    }
}

/// The ids of the devices of a user that are bound to a session.
pub open spec fn session_devices(
    rows: Seq<E2EEIdentityView>,
    user: Seq<char>,
    session: Seq<char>,
) -> Seq<Seq<char>> {
    device_ids(listed(rows, user).filter(bound_to(session)))
}

/// The ids of the devices of a user that are bound to a session, but for one.
pub open spec fn predecessors(
    rows: Seq<E2EEIdentityView>,
    user: Seq<char>,
    session: Seq<char>,
    keep: Seq<char>,
) -> Seq<Seq<char>> {
    device_ids(listed(rows, user).filter(bound_beside(session, keep)))
}

/// Whether each device has the id that its user and its own id give.
pub open spec fn ids_composed(rows: Seq<E2EEIdentityView>) -> bool {
    forall|i: int|
        0 <= i < rows.len() ==> (#[trigger] rows[i]).id == e2ee::device_row_id(
            rows[i].user_id,
            rows[i].device_id,
        )
}

/// There is one row for each device of a user.
pub proof fn law_one_row_per_device(rows: Seq<E2EEIdentityView>, i: int, j: int)
    requires
        table::keyed::<E2EEIdentity>(rows),
        ids_composed(rows),
        0 <= i < j < rows.len(),
    ensures
        !(rows[i].user_id == rows[j].user_id && rows[i].device_id == rows[j].device_id),
{
    let key = |v: E2EEIdentityView| E2EEIdentity::id_of(v);
    assert(key(rows[i]) != key(rows[j]));
}

pub(crate) proof fn lemma_sorted_contains<R: crate::order::SortedRow>(rows: Seq<R::V>, v: R::V)
    ensures
        order::sorted::<R>(rows).contains(v) == rows.contains(v),
{
    broadcast use vstd::seq_lib::group_to_multiset_ensures;

    order::lemma_sorted::<R>(rows);
    assert(rows.to_multiset().count(v) > 0 <==> rows.contains(v));
    assert(order::sorted::<R>(rows).to_multiset().count(v) > 0 <==> order::sorted::<R>(
        rows,
    ).contains(v));
}

/// A one-time key is given out once: it was one of the device, it is gone afterwards, and
/// every other key stays. None is given out only where none is left.
pub proof fn law_one_time_key_is_given_once(
    keys: Seq<E2EEOneTimeKeyView>,
    user: Seq<char>,
    device: Seq<char>,
    other: E2EEOneTimeKeyView,
)
    ensures
        match next_key(keys, user, device) {
            Some(key) => {
                &&& keys.contains(key)
                &&& key_of(user, device)(key)
                &&& !table::has_id::<E2EEOneTimeKey>(
                    after_consumption(keys, user, device),
                    key.id,
                )
                &&& other.id != key.id ==> after_consumption(keys, user, device).contains(other)
                    == keys.contains(other)
            },
            None => {
                &&& !table::any_row(keys, key_of(user, device))
                &&& after_consumption(keys, user, device) == keys
            },
        },
{
    let q = key_of(user, device);
    let mine = keys.filter(q);
    order::lemma_sorted::<E2EEOneTimeKey>(mine);
    let inorder = order::sorted::<E2EEOneTimeKey>(mine);
    match next_key(keys, user, device) {
        Some(key) => {
            assert(inorder.contains(inorder[0]));
            lemma_sorted_contains::<E2EEOneTimeKey>(mine, key);
            table::lemma_filter_members(keys, q, key);
            table::lemma_id_gone::<E2EEOneTimeKey>(keys, key.id);
            table::lemma_filter_members(
                keys,
                table::without_id::<E2EEOneTimeKey>(key.id),
                other,
            );
        },
        None => {
            if table::any_row(keys, q) {
                let i = choose|i: int| 0 <= i < keys.len() && q(#[trigger] keys[i]);
                table::lemma_filter_members(keys, q, keys[i]);
                assert(keys.contains(keys[i]));
                assert(mine.contains(keys[i]));
            }
        },
    }
}

/// Only the device that an envelope is for can take it out of the queue, and it takes
/// out no other.
pub proof fn law_only_the_recipient_takes_out(
    queue: Seq<E2EEEnvelopeView>,
    id: Seq<char>,
    user: Seq<char>,
    device: Seq<char>,
    other: E2EEEnvelopeView,
)
    requires
        table::keyed::<E2EEEnvelope>(queue),
        queue.contains(other),
        !envelope_for(user, device)(other),
    ensures
        is_queued_for(queue, id, user, device) ==> queue.filter(
            table::without_id::<E2EEEnvelope>(id),
        ).contains(other),
        !is_queued_for(queue, other.id, user, device),
{
    let at = choose|i: int| 0 <= i < queue.len() && queue[i] == other;
    table::lemma_keyed_row::<E2EEEnvelope>(queue, other.id, at);
    table::lemma_filter_members(queue, table::without_id::<E2EEEnvelope>(id), other);
}

/// Envelopes come in the order of their ids.
pub proof fn law_envelopes_come_in_order(
    queue: Seq<E2EEEnvelopeView>,
    user: Seq<char>,
    device: Seq<char>,
    limit: int,
)
    ensures
        order::in_order::<E2EEEnvelope>(first_envelopes(queue, user, device, limit)),
        limit >= 0 ==> first_envelopes(queue, user, device, limit).len() <= limit,
{
    let mine = queue.filter(envelope_for(user, device));
    let all = order::sorted::<E2EEEnvelope>(mine);
    order::lemma_sorted::<E2EEEnvelope>(mine);
    let some = first_envelopes(queue, user, device, limit);
    assert forall|i: int, j: int| 0 <= i < j < some.len() implies !text::text_before(
        <E2EEEnvelope as crate::order::SortedRow>::sort_key(#[trigger] some[j]),
        <E2EEEnvelope as crate::order::SortedRow>::sort_key(#[trigger] some[i]),
    ) by {
        assert(some[i] == all[i] && some[j] == all[j]);
    }
}

/// A device that was deleted leaves nothing behind: no identity, no key, and nothing that
/// is queued for it.
pub proof fn law_deleted_device_leaves_nothing(d: Devices, user: Seq<char>, device: Seq<char>)
    ensures
        ({
            let left = without_device(d, user, device);
            &&& !table::has_id::<E2EEIdentity>(left.identities, e2ee::device_row_id(user, device))
            &&& !table::any_row(left.keys, key_of(user, device))
            &&& !table::any_row(left.queue, envelope_for(user, device))
        }),
{
    let left = without_device(d, user, device);
    table::lemma_id_gone::<E2EEIdentity>(d.identities, e2ee::device_row_id(user, device));
    if table::any_row(left.keys, key_of(user, device)) {
        let i = choose|i: int|
            0 <= i < left.keys.len() && key_of(user, device)(#[trigger] left.keys[i]);
        assert(left.keys.contains(left.keys[i]));
        table::lemma_filter_members(d.keys, key_not_of(user, device), left.keys[i]);
    }
    if table::any_row(left.queue, envelope_for(user, device)) {
        let i = choose|i: int|
            0 <= i < left.queue.len() && envelope_for(user, device)(#[trigger] left.queue[i]);
        assert(left.queue.contains(left.queue[i]));
        table::lemma_filter_members(d.queue, envelope_not_for(user, device), left.queue[i]);
    }
}

/// Deleting a device touches no other: every other identity, key and envelope stays.
pub proof fn law_other_devices_stay(
    d: Devices,
    user: Seq<char>,
    device: Seq<char>,
    identity: E2EEIdentityView,
    key: E2EEOneTimeKeyView,
    envelope: E2EEEnvelopeView,
)
    ensures
        ({
            let left = without_device(d, user, device);
            &&& identity.id != e2ee::device_row_id(user, device) ==> left.identities.contains(
                identity,
            ) == d.identities.contains(identity)
            &&& !key_of(user, device)(key) ==> left.keys.contains(key) == d.keys.contains(key)
            &&& !envelope_for(user, device)(envelope) ==> left.queue.contains(envelope)
                == d.queue.contains(envelope)
        }),
{
    table::lemma_filter_members(
        d.identities,
        table::without_id::<E2EEIdentity>(e2ee::device_row_id(user, device)),
        identity,
    );
    table::lemma_filter_members(d.keys, key_not_of(user, device), key);
    table::lemma_filter_members(d.queue, envelope_not_for(user, device), envelope);
}

proof fn lemma_without_devices(
    d: Devices,
    user: Seq<char>,
    ids: Seq<Seq<char>>,
    v: E2EEIdentityView,
)
    requires
        v.id == e2ee::device_row_id(v.user_id, v.device_id),
        v.user_id == user,
    ensures
        without_devices(d, user, ids).identities.contains(v) == (d.identities.contains(v)
            && !ids.contains(v.device_id)),
    decreases ids.len(),
{
    if ids.len() > 0 {
        let rest = ids.drop_last();
        let last = ids.last();
        lemma_without_devices(d, user, rest, v);
        let before = without_devices(d, user, rest).identities;
        table::lemma_filter_members(
            before,
            table::without_id::<E2EEIdentity>(e2ee::device_row_id(user, last)),
            v,
        );
        if v.id == e2ee::device_row_id(user, last) {
            let start = user + ":"@;
            assert((start + v.device_id).skip(start.len() as int) =~= v.device_id);
            assert((start + last).skip(start.len() as int) =~= last);
        }
        assert(rest.push(last) =~= ids);
        if ids.contains(v.device_id) && v.device_id != last {
            let i = choose|i: int| 0 <= i < ids.len() && ids[i] == v.device_id;
            assert(rest[i] == v.device_id);
        }
        if rest.contains(v.device_id) {
            let i = choose|i: int| 0 <= i < rest.len() && rest[i] == v.device_id;
            assert(ids[i] == v.device_id);
        }
        if v.device_id == last {
            assert(ids[ids.len() - 1] == v.device_id);
        }
    }
}

proof fn lemma_among_ids(
    rows: Seq<E2EEIdentityView>,
    user: Seq<char>,
    q: spec_fn(E2EEIdentityView) -> bool,
    v: E2EEIdentityView,
)
    requires
        rows.contains(v),
        v.user_id == user,
        q(v),
    ensures
        device_ids(listed(rows, user).filter(q)).contains(v.device_id),
{
    table::lemma_filter_members(rows, device_of(user), v);
    lemma_sorted_contains::<E2EEIdentity>(rows.filter(device_of(user)), v);
    table::lemma_filter_members(listed(rows, user), q, v);
    let picked = listed(rows, user).filter(q);
    let i = choose|i: int| 0 <= i < picked.len() && picked[i] == v;
    assert(device_ids(picked)[i] == v.device_id);
}

/// A device dies with its session: when the devices of a session were revoked, no device
/// of the user that was bound to it is left, and the others of the user are.
pub proof fn law_device_dies_with_its_session(
    d: Devices,
    user: Seq<char>,
    session: Seq<char>,
    v: E2EEIdentityView,
)
    requires
        table::keyed::<E2EEIdentity>(d.identities),
        ids_composed(d.identities),
        d.identities.contains(v),
        v.user_id == user,
    ensures
        without_devices(d, user, session_devices(d.identities, user, session)).identities.contains(
            v,
        ) == (v.last_session_id != session),
{
    let rows = d.identities;
    let at = choose|i: int| 0 <= i < rows.len() && rows[i] == v;
    let ids = session_devices(rows, user, session);
    lemma_without_devices(d, user, ids, v);
    let picked = listed(rows, user).filter(bound_to(session));
    if v.last_session_id == session {
        lemma_among_ids(rows, user, bound_to(session), v);
    } else if ids.contains(v.device_id) {
        let i = choose|i: int| 0 <= i < ids.len() && ids[i] == v.device_id;
        lemma_same_device(rows, user, bound_to(session), picked[i], v);
    }
}

proof fn lemma_same_device(
    rows: Seq<E2EEIdentityView>,
    user: Seq<char>,
    q: spec_fn(E2EEIdentityView) -> bool,
    w: E2EEIdentityView,
    v: E2EEIdentityView,
)
    requires
        table::keyed::<E2EEIdentity>(rows),
        ids_composed(rows),
        rows.contains(v),
        v.user_id == user,
        listed(rows, user).filter(q).contains(w),
        w.device_id == v.device_id,
    ensures
        w == v,
        q(v),
{
    table::lemma_filter_members(listed(rows, user), q, w);
    lemma_sorted_contains::<E2EEIdentity>(rows.filter(device_of(user)), w);
    table::lemma_filter_members(rows, device_of(user), w);
    let a = choose|i: int| 0 <= i < rows.len() && rows[i] == v;
    let b = choose|i: int| 0 <= i < rows.len() && rows[i] == w;
    if a < b {
        law_one_row_per_device(rows, a, b);
    } else if b < a {
        law_one_row_per_device(rows, b, a);
    }
}

/// When the predecessors of a device were revoked, the device itself is left, and no other
/// device of the user that was bound to the session is.
pub proof fn law_predecessors_are_gone(
    d: Devices,
    user: Seq<char>,
    session: Seq<char>,
    keep: Seq<char>,
    v: E2EEIdentityView,
)
    requires
        table::keyed::<E2EEIdentity>(d.identities),
        ids_composed(d.identities),
        d.identities.contains(v),
        v.user_id == user,
    ensures
        without_devices(
            d,
            user,
            predecessors(d.identities, user, session, keep),
        ).identities.contains(v) == (v.device_id == keep || v.last_session_id != session),
{
    let rows = d.identities;
    let q = bound_beside(session, keep);
    let at = choose|i: int| 0 <= i < rows.len() && rows[i] == v;
    let ids = predecessors(rows, user, session, keep);
    lemma_without_devices(d, user, ids, v);
    let picked = listed(rows, user).filter(q);
    if q(v) {
        lemma_among_ids(rows, user, q, v);
    } else if ids.contains(v.device_id) {
        let i = choose|i: int| 0 <= i < ids.len() && ids[i] == v.device_id;
        lemma_same_device(rows, user, q, picked[i], v);
    }
}

/// Revoking a device that does not exist tells nobody and, where nothing is stored for it,
/// changes nothing.
pub proof fn law_revoking_twice_is_revoking_once(
    d: Devices,
    rows: Seq<ChannelView>,
    user: Seq<char>,
    device: Seq<char>,
)
    ensures
        ({
            let left = without_device(d, user, device);
            &&& without_device(left, user, device) == left
            &&& revocation_told(left, rows, user, device).len() == 0
        }),
{
    let left = without_device(d, user, device);
    law_deleted_device_leaves_nothing(d, user, device);
    let id = e2ee::device_row_id(user, device);
    assert forall|i: int| 0 <= i < left.identities.len() implies table::without_id::<E2EEIdentity>(
        id,
    )(#[trigger] left.identities[i]) by {
        assert(!table::with_id::<E2EEIdentity>(id)(left.identities[i]));
    }
    table::lemma_filter_keeps_all(left.identities, table::without_id::<E2EEIdentity>(id));
    assert forall|i: int| 0 <= i < left.keys.len() implies key_not_of(user, device)(
        #[trigger] left.keys[i],
    ) by {
        assert(!key_of(user, device)(left.keys[i]));
    }
    table::lemma_filter_keeps_all(left.keys, key_not_of(user, device));
    assert forall|i: int| 0 <= i < left.queue.len() implies envelope_not_for(user, device)(
        #[trigger] left.queue[i],
    ) by {
        assert(!envelope_for(user, device)(left.queue[i]));
    }
    table::lemma_filter_keeps_all(left.queue, envelope_not_for(user, device));
}

} // verus!
