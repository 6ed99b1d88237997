//! What holds of devices, their keys and what is kept for them.
use crate::channel_store;
use crate::channels::{self, ChannelView};
use crate::crypto;
use crate::e2ee::{
    self, BackupHeaderView, E2EEBackup, E2EEBackupView, E2EEBlob, E2EEBlobView, E2EEEnvelope,
    E2EEEnvelopeView, E2EEIdentity, E2EEIdentityView, E2EEOneTimeKey, E2EEOneTimeKeyView,
    E2EESignedKeyView,
};
use crate::e2ee_store::{self, Devices};
use crate::events::{EventV1View, PublishedView};
use crate::json;
use crate::order;
use crate::table;
use crate::text;
use vstd::prelude::*;
use vstd::utf8::*;

verus! {

/// The header of a backup is accepted exactly where it is of version 1, made for the user,
/// the device and the generation, with a key derived by Argon2id from 8 to 512 MiB, in 1 to
/// 10 passes, on 1 to 4 lanes.
pub proof fn law_when_a_header_is_accepted(
    header: BackupHeaderView,
    user: Seq<char>,
    device: Seq<char>,
    generation: i64,
)
    ensures
        e2ee::header_problem(header, user, device, generation) is None <==> {
            &&& header.v == Some(1u64)
            &&& header.kdf is Some
            &&& header.kdf->Some_0.alg == Some("argon2id"@)
            &&& header.kdf->Some_0.m_kib is Some && 8192 <= header.kdf->Some_0.m_kib->Some_0
                <= 524_288
            &&& header.kdf->Some_0.t is Some && 1 <= header.kdf->Some_0.t->Some_0 <= 10
            &&& header.kdf->Some_0.p is Some && 1 <= header.kdf->Some_0.p->Some_0 <= 4
            &&& header.user_id == Some(user)
            &&& header.device_id == Some(device)
            &&& header.generation == Some(generation)
        },
        header.v != Some(1u64) ==> e2ee::header_problem(header, user, device, generation) == Some(
            "backup header: unsupported version",
        ),
        header.v == Some(1u64) && header.kdf is None ==> e2ee::header_problem(
            header,
            user,
            device,
            generation,
        ) == Some("backup header: missing kdf"),
{
}

/// A header that is accepted but for its owner, its device or its generation is refused for
/// that.
pub proof fn law_why_a_header_is_refused(
    header: BackupHeaderView,
    user: Seq<char>,
    device: Seq<char>,
    generation: i64,
)
    requires
        header.user_id is Some,
        header.device_id is Some,
        header.generation is Some,
        e2ee::header_problem(
            header,
            header.user_id->Some_0,
            header.device_id->Some_0,
            header.generation->Some_0,
        ) is None,
    ensures
        ({
            let problem = e2ee::header_problem(header, user, device, generation);
            &&& header.user_id != Some(user) ==> problem == Some("backup header: user_id mismatch")
            &&& header.user_id == Some(user) && header.device_id != Some(device) ==> problem
                == Some("backup header: device_id mismatch")
            &&& header.user_id == Some(user) && header.device_id == Some(device)
                && header.generation != Some(generation) ==> problem == Some(
                "backup header: generation mismatch",
            )
        }),
{
}

/// The fields of a header are what the text says at their places, where it is of the right
/// kind; a text that is no JSON is no header.
pub proof fn law_headers_are_read(text: Seq<char>)
    ensures
        ({
            let h = e2ee::header_of(text);
            &&& h is None <==> json::value_at(text, ""@) is None
            &&& h is Some ==> {
                &&& h->Some_0.v == json::unsigned_at(text, "/v"@)
                &&& h->Some_0.user_id == json::text_at(text, "/user_id"@)
                &&& h->Some_0.device_id == json::text_at(text, "/device_id"@)
                &&& h->Some_0.generation == json::signed_at(text, "/generation"@)
                &&& h->Some_0.kdf is Some <==> json::value_at(text, "/kdf"@) is Some
                &&& h->Some_0.kdf matches Some(kdf) ==> kdf.alg == json::text_at(
                    text,
                    "/kdf/alg"@,
                ) && kdf.m_kib == json::unsigned_at(text, "/kdf/m_kib"@) && kdf.t
                    == json::unsigned_at(text, "/kdf/t"@) && kdf.p == json::unsigned_at(
                    text,
                    "/kdf/p"@,
                )
            }
        }),
{
}

/// Ids of devices are 32 hexadecimal digits in lower case.
pub proof fn law_what_ids_of_devices_are(s: Seq<char>)
    ensures
        e2ee::is_device_id(s) <==> s.len() == 32 && forall|i: int|
            0 <= i < s.len() ==> '0' <= #[trigger] s[i] && s[i] <= '9' || 'a' <= s[i] && s[i]
                <= 'f',
{
    if e2ee::is_device_id(s) {
        assert forall|i: int| 0 <= i < s.len() implies '0' <= #[trigger] s[i] && s[i] <= '9' || 'a'
            <= s[i] && s[i] <= 'f' by {
            assert(e2ee::is_hex_digit(s[i]));
        }
    }
}

/// Whether a text is base 64 for 64 bytes that sign a text under a key.
pub open spec fn is_signed(key: Seq<u8>, payload: Seq<char>, signature: Seq<char>) -> bool {
    crypto::base64_bytes(signature) is Some && crypto::base64_bytes(signature)->Some_0.len() == 64
        && crypto::ed25519_verifies(
        key,
        encode_utf8(payload),
        crypto::base64_bytes(signature)->Some_0,
    )
}

/// Whether a text is base 64 for 32 bytes.
pub open spec fn is_key(value: Seq<char>) -> bool {
    crypto::base64_bytes(value) is Some && crypto::base64_bytes(value)->Some_0.len() == 32
}

/// Whether a signed key is one of a device: 32 bytes, signed with its id under a context.
pub open spec fn is_key_of(
    k: E2EESignedKeyView,
    id: E2EEIdentityView,
    context: Seq<char>,
) -> bool {
    is_key(k.key) && is_signed(
        crypto::base64_bytes(id.ed25519_key)->Some_0,
        context + "\nprotocol_version:"@ + text::int_text(id.protocol_version as int)
            + "\ndevice_id:"@ + id.device_id + "\nkey_id:"@ + k.key_id + "\nkey:"@ + k.key,
        k.signature,
    )
}

/// An identity is accepted exactly where its keys are keys, it signed itself, and it signed
/// its fallback key and, where there is one, the fallback key before that.
pub proof fn law_when_an_identity_is_accepted(id: E2EEIdentityView)
    ensures
        ({
            let key = crypto::base64_bytes(id.ed25519_key)->Some_0;
            let own = is_key(id.ed25519_key) && crypto::ed25519_key(key);
            let other = is_key(id.curve25519_key);
            let signed = is_signed(
                key,
                "acutest:e2ee:identity"@ + "\nprotocol_version:"@ + text::int_text(
                    id.protocol_version as int,
                ) + "\ndevice_id:"@ + id.device_id + "\ned25519:"@ + id.ed25519_key
                    + "\ncurve25519:"@ + id.curve25519_key,
                id.signature,
            );
            let problem = e2ee::identity_problem(id);
            &&& problem is None <==> own && other && signed && is_key_of(
                id.fallback_key,
                id,
                "acutest:e2ee:fallback"@,
            ) && (id.previous_fallback_key matches Some(k) ==> is_key_of(
                k,
                id,
                "acutest:e2ee:fallback"@,
            ))
            &&& !own ==> problem == Some("invalid Ed25519 identity key")
            &&& own && !other ==> problem == Some("invalid Curve25519 identity key")
            &&& own && other && !signed ==> problem == Some("invalid identity signature")
            &&& own && other && signed && !is_key(id.fallback_key.key) ==> problem == Some(
                "invalid Curve25519 key",
            )
            &&& own && other && signed && is_key(id.fallback_key.key) && !is_key_of(
                id.fallback_key,
                id,
                "acutest:e2ee:fallback"@,
            ) ==> problem == Some("invalid key signature")
        }),
{
}

/// A one-time key is accepted exactly where it is 32 bytes and its device signed it, under
/// a context of its own.
pub proof fn law_when_a_one_time_key_is_accepted(k: E2EEOneTimeKeyView, id: E2EEIdentityView)
    ensures
        ({
            let key = crypto::base64_bytes(id.ed25519_key)->Some_0;
            let own = is_key(id.ed25519_key) && crypto::ed25519_key(key);
            let signed = is_signed(
                key,
                "acutest:e2ee:one-time"@ + "\nprotocol_version:"@ + text::int_text(
                    id.protocol_version as int,
                ) + "\ndevice_id:"@ + k.device_id + "\nkey_id:"@ + k.key_id + "\nkey:"@ + k.key,
                k.signature,
            );
            let problem = e2ee::one_time_key_problem(k, id);
            &&& problem is None <==> own && is_key(k.key) && signed
            &&& !own ==> problem == Some("invalid Ed25519 identity key")
            &&& own && !is_key(k.key) ==> problem == Some("invalid Curve25519 key")
            &&& own && is_key(k.key) && !signed ==> problem == Some(
                "invalid one-time key signature",
            )
        }),
{
}

/// What a device signs to prove itself names the device, the session and the nonce; only a
/// signature of 64 bytes counts.
pub proof fn law_what_proves_a_device(
    key: Seq<u8>,
    device: Seq<char>,
    session: Seq<char>,
    nonce: Seq<char>,
    payload: Seq<char>,
    signature: Seq<char>,
)
    ensures
        e2ee::claim_text(device, session, nonce) == "acutest:e2ee:device-claim\ndevice_id:"@
            + device + "\nsession_id:"@ + session + "\nnonce:"@ + nonce,
        e2ee::signs(key, payload, signature) <==> is_signed(key, payload, signature),
{
}

/// Which devices, keys, envelopes and backups belong to whom.
pub proof fn law_what_belongs_to_a_device(
    user: Seq<char>,
    device: Seq<char>,
    session: Seq<char>,
    id: E2EEIdentityView,
    k: E2EEOneTimeKeyView,
    e: E2EEEnvelopeView,
    b: E2EEBackupView,
)
    ensures
        e2ee_store::device_of(user)(id) <==> id.user_id == user,
        e2ee_store::is_device(user, device)(id) <==> id.user_id == user && id.device_id == device,
        e2ee_store::bound_to(session)(id) <==> id.last_session_id == session,
        e2ee_store::bound_beside(session, device)(id) <==> id.last_session_id == session
            && id.device_id != device,
        e2ee_store::key_of(user, device)(k) <==> k.user_id == user && k.device_id == device,
        e2ee_store::key_not_of(user, device)(k) <==> k.user_id != user || k.device_id != device,
        e2ee_store::envelope_for(user, device)(e) <==> e.recipient_user_id == user
            && e.recipient_device_id == device,
        e2ee_store::envelope_not_for(user, device)(e) <==> e.recipient_user_id != user
            || e.recipient_device_id != device,
        e2ee_store::backup_of(user)(b) <==> b.user_id == user,
        e2ee_store::backup_not_of(user)(b) <==> b.user_id != user,
        e2ee::device_row_id(user, device) == user + ":"@ + device,
        e2ee::key_row_id(user, device, session) == user + ":"@ + device + ":"@ + session,
{
}

/// The devices of a user are listed, all and no others, in the order of their ids.
pub proof fn law_devices_are_listed(
    rows: Seq<E2EEIdentityView>,
    user: Seq<char>,
    v: E2EEIdentityView,
    i: int,
    j: int,
)
    ensures
        ({
            let list = e2ee_store::listed(rows, user);
            &&& list.contains(v) <==> rows.contains(v) && v.user_id == user
            &&& 0 <= i < j < list.len() ==> !text::text_before(
                list[j].device_id,
                list[i].device_id,
            )
        }),
{
    let mine = rows.filter(e2ee_store::device_of(user));
    e2ee_store::lemma_sorted_contains::<E2EEIdentity>(mine, v);
    table::lemma_filter_members(rows, e2ee_store::device_of(user), v);
    order::lemma_sorted::<E2EEIdentity>(mine);
}

/// A device that a session proved to be is bound to the session and was seen then; all else
/// of it, and all other devices, stay.
pub proof fn law_proven_device_is_bound(
    rows: Seq<E2EEIdentityView>,
    id: Seq<char>,
    session: Seq<char>,
    at: i64,
    i: int,
)
    requires
        0 <= i < rows.len(),
    ensures
        ({
            let r = table::mapped(
                rows,
                table::with_id::<E2EEIdentity>(id),
                e2ee_store::proven(session, at),
            )[i];
            if rows[i].id == id {
                &&& r.last_session_id == session && r.last_seen_at == at
                &&& r == (E2EEIdentityView {
                    last_session_id: r.last_session_id,
                    last_seen_at: r.last_seen_at,
                    ..rows[i]
                })
            } else {
                r == rows[i]
            }
        }),
{
}

/// The key that is given out next is the one with the first id among those of the device.
pub proof fn law_first_key_is_given(
    keys: Seq<E2EEOneTimeKeyView>,
    user: Seq<char>,
    device: Seq<char>,
    i: int,
)
    requires
        0 <= i < keys.len(),
        keys[i].user_id == user,
        keys[i].device_id == device,
    ensures
        ({
            let next = e2ee_store::next_key(keys, user, device);
            &&& next is Some
            &&& next->Some_0.user_id == user && next->Some_0.device_id == device
            &&& !text::text_before(keys[i].id, next->Some_0.id)
        }),
{
    let q = e2ee_store::key_of(user, device);
    let mine = keys.filter(q);
    let all = order::sorted::<E2EEOneTimeKey>(mine);
    order::lemma_sorted::<E2EEOneTimeKey>(mine);
    assert(keys.contains(keys[i]));
    table::lemma_filter_members(keys, q, keys[i]);
    e2ee_store::lemma_sorted_contains::<E2EEOneTimeKey>(mine, keys[i]);
    let k = choose|k: int| 0 <= k < all.len() && all[k] == keys[i];
    text::lemma_bytes_before_irreflexive(encode_utf8(keys[i].id));
    assert(!text::text_before(all[k].id, all[0].id));
    assert(all.contains(all[0]));
    e2ee_store::lemma_sorted_contains::<E2EEOneTimeKey>(mine, all[0]);
    table::lemma_filter_members(keys, q, all[0]);
}

/// What a device reads of its queue are the first envelopes for it: all where the limit
/// allows, else as many as it allows, and none for others.
pub proof fn law_which_envelopes_are_read(
    queue: Seq<E2EEEnvelopeView>,
    user: Seq<char>,
    device: Seq<char>,
    limit: int,
    e: E2EEEnvelopeView,
)
    ensures
        ({
            let list = e2ee_store::first_envelopes(queue, user, device, limit);
            let mine = queue.filter(e2ee_store::envelope_for(user, device));
            &&& list.contains(e) ==> queue.contains(e) && e.recipient_user_id == user
                && e.recipient_device_id == device
            &&& limit >= mine.len() ==> (queue.contains(e) && e.recipient_user_id == user
                && e.recipient_device_id == device ==> list.contains(e))
            &&& 0 <= limit <= mine.len() ==> list.len() == limit
            &&& limit < 0 ==> list.len() == 0
            &&& queue.contains(e) && e.recipient_user_id == user && e.recipient_device_id
                == device && !list.contains(e) ==> forall|i: int|
                0 <= i < list.len() ==> !text::text_before(e.id, (#[trigger] list[i]).id)
        }),
{
    let q = e2ee_store::envelope_for(user, device);
    let mine = queue.filter(q);
    let all = order::sorted::<E2EEEnvelope>(mine);
    order::lemma_sorted::<E2EEEnvelope>(mine);
    let list = e2ee_store::first_envelopes(queue, user, device, limit);
    table::lemma_filter_members(queue, q, e);
    e2ee_store::lemma_sorted_contains::<E2EEEnvelope>(mine, e);
    if list.contains(e) {
        let i = choose|i: int| 0 <= i < list.len() && list[i] == e;
        assert(all[i] == e);
    }
    if all.contains(e) && !list.contains(e) {
        let k = choose|k: int| 0 <= k < all.len() && all[k] == e;
        if k < list.len() {
            assert(list[k] == e);
        }
        assert forall|i: int| 0 <= i < list.len() implies !text::text_before(
            e.id,
            (#[trigger] list[i]).id,
        ) by {
            assert(list[i] == all[i]);
        }
    }
    if limit >= mine.len() {
        assert(list =~= all);
    }
}

/// Only an envelope of the queue that is for the device can be taken out by it.
pub proof fn law_which_envelopes_can_be_taken_out(
    queue: Seq<E2EEEnvelopeView>,
    user: Seq<char>,
    device: Seq<char>,
    i: int,
)
    requires
        table::keyed::<E2EEEnvelope>(queue),
        0 <= i < queue.len(),
    ensures
        e2ee_store::is_queued_for(queue, queue[i].id, user, device) <==> queue[i].recipient_user_id
            == user && queue[i].recipient_device_id == device,
{
    table::lemma_keyed_row::<E2EEEnvelope>(queue, queue[i].id, i);
}

/// What is too old is dropped: envelopes with an id before a threshold, and none from it on;
/// blobs that are found as expired have an id before it and are larger than a size.
pub proof fn law_what_is_too_old(
    queue: Seq<E2EEEnvelopeView>,
    blobs: Seq<E2EEBlobView>,
    threshold: Seq<char>,
    min_size: isize,
    e: E2EEEnvelopeView,
    b: E2EEBlobView,
)
    ensures
        queue.filter(e2ee_store::queued_since(threshold)).contains(e) <==> queue.contains(e)
            && !text::text_before(e.id, threshold),
        blobs.filter(e2ee_store::is_expired(threshold, min_size)).contains(b) <==> blobs.contains(b)
            && text::text_before(b.id, threshold) && b.size > min_size,
{
    table::lemma_filter_members(queue, e2ee_store::queued_since(threshold), e);
    table::lemma_filter_members(blobs, e2ee_store::is_expired(threshold, min_size), b);
}

/// A blob can be fetched by exactly the devices that it is for; once fetched by one, it is
/// noted for that one, and for no other.
pub proof fn law_who_may_fetch_a_blob(
    blobs: Seq<E2EEBlobView>,
    i: int,
    user: Seq<char>,
    device: Seq<char>,
    j: int,
)
    requires
        table::keyed::<E2EEBlob>(blobs),
        0 <= i < blobs.len(),
        0 <= j < blobs[i].recipients.len(),
    ensures
        ({
            let b = blobs[i];
            let allowed = exists|k: int|
                0 <= k < b.recipients.len() && (#[trigger] b.recipients[k]).user_id == user
                    && b.recipients[k].device_id == device;
            let r = e2ee_store::fetched_by(user, device)(b);
            let q = e2ee::is_recipient(user, device);
            &&& e2ee_store::may_fetch(blobs, b.id, user, device) <==> allowed
            &&& allowed ==> {
                &&& r.recipients.len() == b.recipients.len()
                &&& r.recipients[j].user_id == b.recipients[j].user_id
                &&& r.recipients[j].device_id == b.recipients[j].device_id
                &&& b.recipients[j].fetched ==> r.recipients[j].fetched
                &&& (b.recipients[j].user_id != user || b.recipients[j].device_id != device)
                    ==> r.recipients[j] == b.recipients[j]
                &&& b.recipients[j].user_id == user && b.recipients[j].device_id == device && (
                forall|k: int| 0 <= k < j ==> !q(#[trigger] b.recipients[k]))
                    ==> r.recipients[j].fetched
                &&& r.id == b.id && r.size == b.size && r.iv == b.iv && r.bucket_id == b.bucket_id
            }
        }),
{
    let b = blobs[i];
    table::lemma_keyed_row::<E2EEBlob>(blobs, b.id, i);
    let q = e2ee::is_recipient(user, device);
    if exists|k: int|
        0 <= k < b.recipients.len() && (#[trigger] b.recipients[k]).user_id == user
            && b.recipients[k].device_id == device {
        let k = choose|k: int|
            0 <= k < b.recipients.len() && (#[trigger] b.recipients[k]).user_id == user
                && b.recipients[k].device_id == device;
        assert(q(b.recipients[k]));
        table::lemma_first_row_matches(b.recipients, q);
    }
    if table::any_row(b.recipients, q) {
        table::lemma_first_row_matches(b.recipients, q);
    }
}

/// Keys and envelopes that are put in are there, each as it was put in last.
pub proof fn law_what_is_put_in_is_there(
    keys: Seq<E2EEOneTimeKeyView>,
    more: Seq<E2EEOneTimeKeyView>,
    i: int,
    id: Seq<char>,
)
    requires
        table::keyed::<E2EEOneTimeKey>(keys),
    ensures
        ({
            let after = e2ee_store::all_upserted::<E2EEOneTimeKey>(keys, more);
            &&& table::keyed::<E2EEOneTimeKey>(after)
            &&& 0 <= i < more.len() && (forall|j: int|
                i < j < more.len() ==> (#[trigger] more[j]).id != more[i].id) ==> table::has_id::<
                E2EEOneTimeKey,
            >(after, more[i].id) && table::row_of::<E2EEOneTimeKey>(after, more[i].id) == more[i]
            &&& (forall|j: int| 0 <= j < more.len() ==> (#[trigger] more[j]).id != id)
                ==> table::has_id::<E2EEOneTimeKey>(after, id) == table::has_id::<E2EEOneTimeKey>(
                keys,
                id,
            )
        }),
    decreases more.len(),
{
    if more.len() > 0 {
        let rest = more.drop_last();
        let last = more.last();
        assert(more[more.len() - 1] == last);
        law_what_is_put_in_is_there(keys, rest, i, id);
        let before = e2ee_store::all_upserted::<E2EEOneTimeKey>(keys, rest);
        table::lemma_upserted::<E2EEOneTimeKey>(before, last);
        if id != last.id {
            table::lemma_upserted_elsewhere::<E2EEOneTimeKey>(before, last, id);
        }
        assert forall|j: int| 0 <= j < rest.len() implies rest[j] == #[trigger] more[j] by {}
        if 0 <= i < rest.len() && more[i].id != last.id {
            table::lemma_upserted_elsewhere::<E2EEOneTimeKey>(before, last, more[i].id);
            if forall|j: int| i < j < more.len() ==> (#[trigger] more[j]).id != more[i].id {
                assert forall|j: int| i < j < rest.len() implies (#[trigger] rest[j]).id
                    != rest[i].id by {
                    assert(more[j].id != more[i].id);
                }
            }
        }
    }
}

/// The bytes of a queue are those of all its envelopes.
pub proof fn law_queued_bytes_add_up(rows: Seq<E2EEEnvelopeView>, e: E2EEEnvelopeView)
    ensures
        e2ee_store::envelope_bytes(rows.push(e)) == e2ee_store::envelope_bytes(rows) + encode_utf8(
            e.ciphertext,
        ).len(),
        e2ee_store::envelope_bytes(Seq::empty()) == 0,
{
    assert(rows.push(e).drop_last() =~= rows);
}

/// Of some keys those are counted that are stored for the device.
pub proof fn law_stored_keys_are_counted(
    keys: Seq<E2EEOneTimeKeyView>,
    user: Seq<char>,
    device: Seq<char>,
    ids: Seq<Seq<char>>,
    id: Seq<char>,
)
    ensures
        e2ee_store::stored_among(keys, user, device, ids.push(id)) == e2ee_store::stored_among(
            keys,
            user,
            device,
            ids,
        ) + if table::has_id::<E2EEOneTimeKey>(keys, user + ":"@ + device + ":"@ + id) {
            1int
        } else {
            0int
        },
        e2ee_store::stored_among(keys, user, device, Seq::empty()) == 0,
{
    assert(ids.push(id).drop_last() =~= ids);
}

/// A change of a user's devices is told to the user's own connections first, and then in
/// every channel that the user takes part in.
pub proof fn law_device_changes_are_told(
    rows: Seq<ChannelView>,
    user: Seq<char>,
    event: EventV1View,
    c: ChannelView,
    i: int,
)
    ensures
        ({
            let told = e2ee_store::change_told(rows, user, event);
            &&& told.len() >= 1
            &&& told[0].topic == user + "!"@
            &&& 0 <= i < told.len() ==> told[i].event == event
            &&& rows.contains(c) && channels::has_user(c, user) ==> told.contains(
                PublishedView { topic: channels::id_of(c), event },
            )
            &&& 0 < i < told.len() ==> exists|k: int|
                0 <= k < rows.len() && channels::has_user(#[trigger] rows[k], user)
                    && channels::id_of(rows[k]) == told[i].topic
        }),
{
    let q = channel_store::with_user(user);
    let mine = rows.filter(q);
    let told = e2ee_store::change_told(rows, user, event);
    table::lemma_filter_members(rows, q, c);
    if mine.contains(c) {
        let k = choose|k: int| 0 <= k < mine.len() && mine[k] == c;
        assert(told[k + 1] == (PublishedView { topic: channels::id_of(c), event }));
    }
    if 0 < i < told.len() {
        assert(mine.contains(mine[i - 1]));
        table::lemma_filter_members(rows, q, mine[i - 1]);
        let k = choose|k: int| 0 <= k < rows.len() && rows[k] == mine[i - 1];
        assert(channels::has_user(rows[k], user));
    }
}

/// That a device was revoked is told where it existed, and not where it did not.
pub proof fn law_revocations_are_told(
    d: Devices,
    rows: Seq<ChannelView>,
    user: Seq<char>,
    device: Seq<char>,
)
    ensures
        ({
            let told = e2ee_store::revocation_told(d, rows, user, device);
            let known = exists|i: int|
                0 <= i < d.identities.len() && (#[trigger] d.identities[i]).id == user + ":"@
                    + device;
            &&& !known ==> told.len() == 0
            &&& known ==> told.len() >= 1 && told[0].topic == user + "!"@ && told[0].event == (
            EventV1View::E2EEDeviceDelete { user_id: user, device_id: device })
        }),
{
    let q = table::with_id::<E2EEIdentity>(e2ee::device_row_id(user, device));
    if table::any_row(d.identities, q) {
        table::lemma_first_row_matches(d.identities, q);
    }
    if exists|i: int|
        0 <= i < d.identities.len() && (#[trigger] d.identities[i]).id == user + ":"@ + device {
        let i = choose|i: int|
            0 <= i < d.identities.len() && (#[trigger] d.identities[i]).id == user + ":"@ + device;
        assert(q(d.identities[i]));
    }
}

/// With a session go exactly the devices of its user that it last proved to be; with its
/// predecessors all of those but one.
pub proof fn law_which_devices_go_with_a_session(
    rows: Seq<E2EEIdentityView>,
    user: Seq<char>,
    session: Seq<char>,
    keep: Seq<char>,
    i: int,
)
    requires
        0 <= i < rows.len(),
        rows[i].user_id == user,
    ensures
        rows[i].last_session_id == session ==> e2ee_store::session_devices(
            rows,
            user,
            session,
        ).contains(rows[i].device_id),
        rows[i].last_session_id == session && rows[i].device_id != keep
            ==> e2ee_store::predecessors(rows, user, session, keep).contains(rows[i].device_id),
        !e2ee_store::predecessors(rows, user, session, keep).contains(keep),
{
    let v = rows[i];
    let list = e2ee_store::listed(rows, user);
    law_devices_are_listed(rows, user, v, 0, 0);
    assert(rows.contains(v));
    let a = list.filter(e2ee_store::bound_to(session));
    let b = list.filter(e2ee_store::bound_beside(session, keep));
    table::lemma_filter_members(list, e2ee_store::bound_to(session), v);
    table::lemma_filter_members(list, e2ee_store::bound_beside(session, keep), v);
    if a.contains(v) {
        let k = choose|k: int| 0 <= k < a.len() && a[k] == v;
        assert(e2ee_store::device_ids(a)[k] == v.device_id);
    }
    if b.contains(v) {
        let k = choose|k: int| 0 <= k < b.len() && b[k] == v;
        assert(e2ee_store::device_ids(b)[k] == v.device_id);
    }
    let gone = e2ee_store::predecessors(rows, user, session, keep);
    if gone.contains(keep) {
        let k = choose|k: int| 0 <= k < gone.len() && gone[k] == keep;
        assert(b.contains(b[k]));
        table::lemma_filter_members(list, e2ee_store::bound_beside(session, keep), b[k]);
    }
}

/// A device goes with a session only where the session is the last that it proved to.
pub proof fn law_only_bound_devices_go(
    rows: Seq<E2EEIdentityView>,
    user: Seq<char>,
    session: Seq<char>,
    device: Seq<char>,
)
    requires
        e2ee_store::session_devices(rows, user, session).contains(device),
    ensures
        exists|i: int|
            0 <= i < rows.len() && (#[trigger] rows[i]).user_id == user && rows[i].device_id
                == device && rows[i].last_session_id == session,
{
    let list = e2ee_store::listed(rows, user);
    let a = list.filter(e2ee_store::bound_to(session));
    let ids = e2ee_store::session_devices(rows, user, session);
    let k = choose|k: int| 0 <= k < ids.len() && ids[k] == device;
    assert(a.contains(a[k]));
    table::lemma_filter_members(list, e2ee_store::bound_to(session), a[k]);
    law_devices_are_listed(rows, user, a[k], 0, 0);
    let i = choose|i: int| 0 <= i < rows.len() && rows[i] == a[k];
    assert(rows[i].user_id == user);
}

/// A stored backup takes the place of the one before it of the same device.
pub proof fn law_new_backup_replaces_the_old(rows: Seq<E2EEBackupView>, b: E2EEBackupView)
    requires
        table::keyed::<E2EEBackup>(rows),
    ensures
        ({
            let after = table::upserted::<E2EEBackup>(rows, b);
            table::row_of::<E2EEBackup>(after, b.id) == b && table::keyed::<E2EEBackup>(after)
        }),
{
    table::lemma_upserted::<E2EEBackup>(rows, b);
}

/// Of several devices each is told of that existed, and once where it is named twice.
pub proof fn law_each_revocation_is_told_once(
    d: Devices,
    rows: Seq<ChannelView>,
    user: Seq<char>,
    ids: Seq<Seq<char>>,
    device: Seq<char>,
)
    ensures
        ({
            let before = e2ee_store::revocations_told(d, rows, user, ids);
            let after = e2ee_store::revocations_told(d, rows, user, ids.push(device));
            &&& ids.contains(device) ==> after == before
            &&& !ids.contains(device) && (forall|k: int|
                0 <= k < ids.len() ==> e2ee::device_row_id(user, #[trigger] ids[k])
                    != e2ee::device_row_id(user, device)) ==> after == before
                + e2ee_store::revocation_told(d, rows, user, device)
        }),
{
    let more = ids.push(device);
    assert(more.drop_last() =~= ids);
    lemma_devices_gone(d, user, ids, device);
    let before = e2ee_store::revocations_told(d, rows, user, ids);
    if ids.contains(device) {
        assert(before + Seq::<PublishedView>::empty() =~= before);
    }
}

proof fn lemma_devices_gone(d: Devices, user: Seq<char>, ids: Seq<Seq<char>>, device: Seq<char>)
    ensures
        ({
            let left = e2ee_store::without_devices(d, user, ids).identities;
            let id = e2ee::device_row_id(user, device);
            &&& ids.contains(device) ==> !table::has_id::<E2EEIdentity>(left, id)
            &&& (forall|k: int|
                0 <= k < ids.len() ==> e2ee::device_row_id(user, #[trigger] ids[k]) != id)
                ==> table::has_id::<E2EEIdentity>(left, id) == table::has_id::<E2EEIdentity>(
                d.identities,
                id,
            )
        }),
    decreases ids.len(),
{
    let id = e2ee::device_row_id(user, device);
    if ids.len() > 0 {
        let rest = ids.drop_last();
        let last = ids.last();
        assert(ids[ids.len() - 1] == last);
        lemma_devices_gone(d, user, rest, device);
        let before = e2ee_store::without_devices(d, user, rest).identities;
        let gone = e2ee::device_row_id(user, last);
        let left = before.filter(table::without_id::<E2EEIdentity>(gone));
        table::lemma_id_gone::<E2EEIdentity>(before, gone);
        let q = table::with_id::<E2EEIdentity>(id);
        if table::has_id::<E2EEIdentity>(left, id) {
            table::lemma_first_row_matches(left, q);
            let v = left[table::first_row(left, q)];
            assert(left.contains(v));
            table::lemma_filter_members(before, table::without_id::<E2EEIdentity>(gone), v);
            let k = choose|k: int| 0 <= k < before.len() && before[k] == v;
            assert(q(before[k]));
        }
        if gone != id && table::has_id::<E2EEIdentity>(before, id) {
            table::lemma_first_row_matches(before, q);
            let v = before[table::first_row(before, q)];
            assert(before.contains(v));
            table::lemma_filter_members(before, table::without_id::<E2EEIdentity>(gone), v);
            let k = choose|k: int| 0 <= k < left.len() && left[k] == v;
            assert(q(left[k]));
        }
        if ids.contains(device) && device != last {
            let k = choose|k: int| 0 <= k < ids.len() && ids[k] == device;
            assert(rest[k] == device);
        }
        assert forall|k: int| 0 <= k < rest.len() implies rest[k] == #[trigger] ids[k] by {}
        if forall|k: int|
            0 <= k < ids.len() ==> e2ee::device_row_id(user, #[trigger] ids[k]) != id {
            assert forall|k: int| 0 <= k < rest.len() implies e2ee::device_row_id(
                user,
                #[trigger] rest[k],
            ) != id by {
                assert(ids[k] == rest[k]);
            }
            assert(e2ee::device_row_id(user, ids[ids.len() - 1]) != id);
        }
    }
}

} // verus!
