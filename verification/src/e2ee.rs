//! Devices that encrypt end to end: their identities and keys, what they sign, and what
//! is stored for them on the way.
use crate::crypto::{self, decode_base64, is_ed25519_key, verify_ed25519};
use crate::error::Error;
use crate::json;
use crate::order::SortedRow;
use crate::table::{self, copy_opt_row, copy_rows, KeyedRow, Row};
use crate::text::{self, chars_of, copy_opt, int_string, is_before, joined, same};
use vstd::prelude::*;
use vstd::string::*;
use vstd::utf8::*;

verus! {

/// The protocol that devices speak; nothing below it is taken.
pub const E2EE_PROTOCOL_VERSION: i32 = 1;

/// Length of the id of a device: 128 bits in hexadecimal digits.
pub const E2EE_DEVICE_ID_LENGTH: usize = 32;

/// What a device signs its identity under.
pub const E2EE_SIGN_CONTEXT_IDENTITY: &'static str = "acutest:e2ee:identity";

/// What a device signs its fallback keys under.
pub const E2EE_SIGN_CONTEXT_FALLBACK: &'static str = "acutest:e2ee:fallback";

/// What a device signs its one-time keys under.
pub const E2EE_SIGN_CONTEXT_ONE_TIME: &'static str = "acutest:e2ee:one-time";

/// Bytes above which a blob is large.
pub const E2EE_LARGE_BLOB_SIZE: isize = 10_485_760;

/// Devices that a blob can be for.
pub const E2EE_MAX_BLOB_RECIPIENTS: usize = 128;

/// Bytes of a backup.
pub const E2EE_MAX_BACKUP_SIZE: usize = 8_388_608;

/// Bytes of the header of a backup.
pub const E2EE_MAX_BACKUP_HEADER_SIZE: usize = 1024;

/// Least memory for the derivation of a key, in KiB.
pub const E2EE_BACKUP_KDF_M_MIN_KIB: u64 = 8192;

/// Most memory for the derivation of a key, in KiB.
pub const E2EE_BACKUP_KDF_M_MAX_KIB: u64 = 524_288;

/// Fewest rounds for the derivation of a key.
pub const E2EE_BACKUP_KDF_T_MIN: u64 = 1;

/// Most rounds for the derivation of a key.
pub const E2EE_BACKUP_KDF_T_MAX: u64 = 10;

/// Fewest lanes for the derivation of a key.
pub const E2EE_BACKUP_KDF_P_MIN: u64 = 1;

/// Most lanes for the derivation of a key.
pub const E2EE_BACKUP_KDF_P_MAX: u64 = 4;

/// A public key that a device signed.
#[derive(Clone, Debug, PartialEq, Eq)]
pub struct E2EESignedKey {
    pub key_id: String,
    /// In base 64, without padding.
    pub key: String,
    pub signature: String,
}

/// What a [`E2EESignedKey`] holds.
pub struct E2EESignedKeyView {
    pub key_id: Seq<char>,
    pub key: Seq<char>,
    pub signature: Seq<char>,
}

impl View for E2EESignedKey {
    type V = E2EESignedKeyView;

    open spec fn view(&self) -> E2EESignedKeyView {
        E2EESignedKeyView {
            key_id: self.key_id@,
            key: self.key@,
            signature: self.signature@,
        }
    }
}

impl Row for E2EESignedKey {
    fn dup(&self) -> (r: Self) {
        E2EESignedKey {
            key_id: self.key_id.clone(),
            key: self.key.clone(),
            signature: self.signature.clone(),
        }
    }
}

/// A device of a user. Times are in milliseconds of the epoch.
#[derive(Clone, Debug, PartialEq, Eq)]
pub struct E2EEIdentity {
    /// `user:device`.
    pub id: String,
    pub user_id: String,
    pub device_id: String,
    pub protocol_version: i32,
    /// The key that the device signs with.
    pub ed25519_key: String,
    pub curve25519_key: String,
    /// Of the identity, by the device itself.
    pub signature: String,
    /// Given out where no one-time key is left.
    pub fallback_key: E2EESignedKey,
    pub previous_fallback_key: Option<E2EESignedKey>,
    pub created_at: i64,
    pub last_seen_at: i64,
    /// The session that last proved to be the device.
    pub last_session_id: String,
}

/// What a [`E2EEIdentity`] holds.
pub struct E2EEIdentityView {
    pub id: Seq<char>,
    pub user_id: Seq<char>,
    pub device_id: Seq<char>,
    pub protocol_version: i32,
    pub ed25519_key: Seq<char>,
    pub curve25519_key: Seq<char>,
    pub signature: Seq<char>,
    pub fallback_key: E2EESignedKeyView,
    pub previous_fallback_key: Option<E2EESignedKeyView>,
    pub created_at: i64,
    pub last_seen_at: i64,
    pub last_session_id: Seq<char>,
}

impl View for E2EEIdentity {
    type V = E2EEIdentityView;

    open spec fn view(&self) -> E2EEIdentityView {
        E2EEIdentityView {
            id: self.id@,
            user_id: self.user_id@,
            device_id: self.device_id@,
            protocol_version: self.protocol_version,
            ed25519_key: self.ed25519_key@,
            curve25519_key: self.curve25519_key@,
            signature: self.signature@,
            fallback_key: self.fallback_key@,
            previous_fallback_key: table::opt_view(self.previous_fallback_key),
            created_at: self.created_at,
            last_seen_at: self.last_seen_at,
            last_session_id: self.last_session_id@,
        }
    }
}

impl Row for E2EEIdentity {
    fn dup(&self) -> (r: Self) {
        E2EEIdentity {
            id: self.id.clone(),
            user_id: self.user_id.clone(),
            device_id: self.device_id.clone(),
            protocol_version: self.protocol_version,
            ed25519_key: self.ed25519_key.clone(),
            curve25519_key: self.curve25519_key.clone(),
            signature: self.signature.clone(),
            fallback_key: self.fallback_key.dup(),
            previous_fallback_key: copy_opt_row(&self.previous_fallback_key),
            created_at: self.created_at,
            last_seen_at: self.last_seen_at,
            last_session_id: self.last_session_id.clone(),
        }
    }
}

impl KeyedRow for E2EEIdentity {
    open spec fn id_of(v: E2EEIdentityView) -> Seq<char> {
        v.id
    }

    fn id_is(&self, id: &str) -> (r: bool) {
        same(self.id.as_str(), id)
    }
}

/// A public key that is given out once.
#[derive(Clone, Debug, PartialEq, Eq)]
pub struct E2EEOneTimeKey {
    /// `user:device:key`.
    pub id: String,
    pub user_id: String,
    pub device_id: String,
    pub key_id: String,
    pub key: String,
    pub signature: String,
}

/// What a [`E2EEOneTimeKey`] holds.
pub struct E2EEOneTimeKeyView {
    pub id: Seq<char>,
    pub user_id: Seq<char>,
    pub device_id: Seq<char>,
    pub key_id: Seq<char>,
    pub key: Seq<char>,
    pub signature: Seq<char>,
}

impl View for E2EEOneTimeKey {
    type V = E2EEOneTimeKeyView;

    open spec fn view(&self) -> E2EEOneTimeKeyView {
        E2EEOneTimeKeyView {
            id: self.id@,
            user_id: self.user_id@,
            device_id: self.device_id@,
            key_id: self.key_id@,
            key: self.key@,
            signature: self.signature@,
        }
    }
}

impl Row for E2EEOneTimeKey {
    fn dup(&self) -> (r: Self) {
        E2EEOneTimeKey {
            id: self.id.clone(),
            user_id: self.user_id.clone(),
            device_id: self.device_id.clone(),
            key_id: self.key_id.clone(),
            key: self.key.clone(),
            signature: self.signature.clone(),
        }
    }
}

impl KeyedRow for E2EEOneTimeKey {
    open spec fn id_of(v: E2EEOneTimeKeyView) -> Seq<char> {
        v.id
    }

    fn id_is(&self, id: &str) -> (r: bool) {
        same(self.id.as_str(), id)
    }
}

/// What an envelope holds.
#[derive(Clone, Copy, Debug, PartialEq, Eq)]
pub enum E2EEContentType {
    /// A message.
    Olm,
    /// A change of a group.
    MlsCommit,
    /// A welcome to a group.
    MlsWelcome,
    /// An announcement in a group.
    MlsCtl,
}

impl Default for E2EEContentType {
    /// A message.
    fn default() -> (r: Self)
        ensures
            r is Olm,
    {
        E2EEContentType::Olm
    }
}

/// Something encrypted on its way to a device.
#[derive(Clone, Debug, PartialEq, Eq)]
pub struct E2EEEnvelope {
    /// Envelopes are delivered in the order of their ids.
    pub id: String,
    pub recipient_user_id: String,
    pub recipient_device_id: String,
    pub sender_user_id: String,
    pub sender_device_id: String,
    pub protocol_version: i32,
    pub sequence: u64,
    pub ciphertext: String,
    pub timestamp: i64,
    pub content_type: E2EEContentType,
    pub group_id: Option<String>,
    pub epoch: Option<i64>,
}

/// What a [`E2EEEnvelope`] holds.
pub struct E2EEEnvelopeView {
    pub id: Seq<char>,
    pub recipient_user_id: Seq<char>,
    pub recipient_device_id: Seq<char>,
    pub sender_user_id: Seq<char>,
    pub sender_device_id: Seq<char>,
    pub protocol_version: i32,
    pub sequence: u64,
    pub ciphertext: Seq<char>,
    pub timestamp: i64,
    pub content_type: E2EEContentType,
    pub group_id: Option<Seq<char>>,
    pub epoch: Option<i64>,
}

impl View for E2EEEnvelope {
    type V = E2EEEnvelopeView;

    open spec fn view(&self) -> E2EEEnvelopeView {
        E2EEEnvelopeView {
            id: self.id@,
            recipient_user_id: self.recipient_user_id@,
            recipient_device_id: self.recipient_device_id@,
            sender_user_id: self.sender_user_id@,
            sender_device_id: self.sender_device_id@,
            protocol_version: self.protocol_version,
            sequence: self.sequence,
            ciphertext: self.ciphertext@,
            timestamp: self.timestamp,
            content_type: self.content_type,
            group_id: text::opt_text(self.group_id),
            epoch: self.epoch,
        }
    }
}

impl Row for E2EEEnvelope {
    fn dup(&self) -> (r: Self) {
        E2EEEnvelope {
            id: self.id.clone(),
            recipient_user_id: self.recipient_user_id.clone(),
            recipient_device_id: self.recipient_device_id.clone(),
            sender_user_id: self.sender_user_id.clone(),
            sender_device_id: self.sender_device_id.clone(),
            protocol_version: self.protocol_version,
            sequence: self.sequence,
            ciphertext: self.ciphertext.clone(),
            timestamp: self.timestamp,
            content_type: self.content_type,
            group_id: copy_opt(&self.group_id),
            epoch: self.epoch,
        }
    }
}

impl KeyedRow for E2EEEnvelope {
    open spec fn id_of(v: E2EEEnvelopeView) -> Seq<char> {
        v.id
    }

    fn id_is(&self, id: &str) -> (r: bool) {
        same(self.id.as_str(), id)
    }
}

/// A device that a blob is for.
#[derive(Clone, Debug, PartialEq, Eq)]
pub struct E2EEBlobRecipient {
    pub user_id: String,
    pub device_id: String,
    pub fetched: bool,
}

/// What a [`E2EEBlobRecipient`] holds.
pub struct E2EEBlobRecipientView {
    pub user_id: Seq<char>,
    pub device_id: Seq<char>,
    pub fetched: bool,
}

impl View for E2EEBlobRecipient {
    type V = E2EEBlobRecipientView;

    open spec fn view(&self) -> E2EEBlobRecipientView {
        E2EEBlobRecipientView {
            user_id: self.user_id@,
            device_id: self.device_id@,
            fetched: self.fetched,
        }
    }
}

impl Row for E2EEBlobRecipient {
    fn dup(&self) -> (r: Self) {
        E2EEBlobRecipient {
            user_id: self.user_id.clone(),
            device_id: self.device_id.clone(),
            fetched: self.fetched,
        }
    }
}

/// An encrypted file on its way to devices.
#[derive(Clone, Debug, PartialEq, Eq)]
pub struct E2EEBlob {
    pub id: String,
    pub uploader_user_id: String,
    pub uploader_device_id: String,
    pub size: isize,
    pub bucket_id: String,
    pub iv: String,
    pub recipients: Vec<E2EEBlobRecipient>,
}

/// What a [`E2EEBlob`] holds.
pub struct E2EEBlobView {
    pub id: Seq<char>,
    pub uploader_user_id: Seq<char>,
    pub uploader_device_id: Seq<char>,
    pub size: isize,
    pub bucket_id: Seq<char>,
    pub iv: Seq<char>,
    pub recipients: Seq<E2EEBlobRecipientView>,
}

impl View for E2EEBlob {
    type V = E2EEBlobView;

    open spec fn view(&self) -> E2EEBlobView {
        E2EEBlobView {
            id: self.id@,
            uploader_user_id: self.uploader_user_id@,
            uploader_device_id: self.uploader_device_id@,
            size: self.size,
            bucket_id: self.bucket_id@,
            iv: self.iv@,
            recipients: table::row_views(self.recipients@),
        }
    }
}

impl Row for E2EEBlob {
    fn dup(&self) -> (r: Self) {
        E2EEBlob {
            id: self.id.clone(),
            uploader_user_id: self.uploader_user_id.clone(),
            uploader_device_id: self.uploader_device_id.clone(),
            size: self.size,
            bucket_id: self.bucket_id.clone(),
            iv: self.iv.clone(),
            recipients: copy_rows(&self.recipients),
        }
    }
}

impl KeyedRow for E2EEBlob {
    open spec fn id_of(v: E2EEBlobView) -> Seq<char> {
        v.id
    }

    fn id_is(&self, id: &str) -> (r: bool) {
        same(self.id.as_str(), id)
    }
}

/// An encrypted backup of the keys of a device.
#[derive(Clone, Debug, PartialEq, Eq)]
pub struct E2EEBackup {
    /// `user:device`.
    pub id: String,
    pub user_id: String,
    pub device_id: String,
    pub header: String,
    pub ciphertext: String,
    /// Grows with each backup of the device.
    pub generation: i64,
    pub created_at: i64,
    pub updated_at: i64,
}

/// What a [`E2EEBackup`] holds.
pub struct E2EEBackupView {
    pub id: Seq<char>,
    pub user_id: Seq<char>,
    pub device_id: Seq<char>,
    pub header: Seq<char>,
    pub ciphertext: Seq<char>,
    pub generation: i64,
    pub created_at: i64,
    pub updated_at: i64,
}

impl View for E2EEBackup {
    type V = E2EEBackupView;

    open spec fn view(&self) -> E2EEBackupView {
        E2EEBackupView {
            id: self.id@,
            user_id: self.user_id@,
            device_id: self.device_id@,
            header: self.header@,
            ciphertext: self.ciphertext@,
            generation: self.generation,
            created_at: self.created_at,
            updated_at: self.updated_at,
        }
    }
}

impl Row for E2EEBackup {
    fn dup(&self) -> (r: Self) {
        E2EEBackup {
            id: self.id.clone(),
            user_id: self.user_id.clone(),
            device_id: self.device_id.clone(),
            header: self.header.clone(),
            ciphertext: self.ciphertext.clone(),
            generation: self.generation,
            created_at: self.created_at,
            updated_at: self.updated_at,
        }
    }
}

impl KeyedRow for E2EEBackup {
    open spec fn id_of(v: E2EEBackupView) -> Seq<char> {
        v.id
    }

    fn id_is(&self, id: &str) -> (r: bool) {
        same(self.id.as_str(), id)
    }
}

impl SortedRow for E2EEIdentity {
    open spec fn sort_key(v: E2EEIdentityView) -> Seq<char> {
        v.device_id
    }

    fn sorts_before(&self, other: &Self) -> (r: bool) {
        is_before(self.device_id.as_str(), other.device_id.as_str())
    }
}

impl SortedRow for E2EEBackup {
    open spec fn sort_key(v: E2EEBackupView) -> Seq<char> {
        v.device_id
    }

    fn sorts_before(&self, other: &Self) -> (r: bool) {
        is_before(self.device_id.as_str(), other.device_id.as_str())
    }
}

impl SortedRow for E2EEEnvelope {
    open spec fn sort_key(v: E2EEEnvelopeView) -> Seq<char> {
        v.id
    }

    fn sorts_before(&self, other: &Self) -> (r: bool) {
        is_before(self.id.as_str(), other.id.as_str())
    }
}

impl SortedRow for E2EEBlob {
    open spec fn sort_key(v: E2EEBlobView) -> Seq<char> {
        v.id
    }

    fn sorts_before(&self, other: &Self) -> (r: bool) {
        is_before(self.id.as_str(), other.id.as_str())
    }
}

impl SortedRow for E2EEOneTimeKey {
    open spec fn sort_key(v: E2EEOneTimeKeyView) -> Seq<char> {
        v.id
    }

    fn sorts_before(&self, other: &Self) -> (r: bool) {
        is_before(self.id.as_str(), other.id.as_str())
    }
}

/// Whether a recipient is a device of a user.
pub open spec fn is_recipient(user: Seq<char>, device: Seq<char>) -> spec_fn(E2EEBlobRecipientView) -> bool {
    |r: E2EEBlobRecipientView| r.user_id == user && r.device_id == device
}

impl E2EEBlob {
    /// Where a blob is stored.
    pub fn s3_path(id: &str) -> (r: String)
        ensures
            r@ == "e2ee_"@ + id@,
    {
        joined("e2ee_", id)
    }

    /// Whether every device that the blob is for has fetched it.
    pub fn fully_fetched(&self) -> (r: bool)
        ensures
            r == forall|i: int|
                0 <= i < self@.recipients.len() ==> (#[trigger] self@.recipients[i]).fetched,
    {
        let mut i: usize = 0;
        while i < self.recipients.len()
            invariant
                i <= self.recipients.len(),
                forall|j: int| 0 <= j < i ==> (#[trigger] self@.recipients[j]).fetched,
            decreases self.recipients.len() - i,
        {
            assert(self@.recipients[i as int] == self.recipients@[i as int]@);
            if !self.recipients[i].fetched {
                return false;
            }
            i = i + 1;
        }
        true
    }

    /// Whether the blob is for a device of a user.
    pub fn authorizes_fetch(&self, user_id: &str, device_id: &str) -> (r: bool)
        ensures
            r == table::any_row(self@.recipients, is_recipient(user_id@, device_id@)),
    {
        let ghost q = is_recipient(user_id@, device_id@);
        let mut i: usize = 0;
        while i < self.recipients.len()
            invariant
                i <= self.recipients.len(),
                q == is_recipient(user_id@, device_id@),
                forall|j: int| 0 <= j < i ==> !q(#[trigger] self@.recipients[j]),
            decreases self.recipients.len() - i,
        {
            assert(self@.recipients[i as int] == self.recipients@[i as int]@);
            if same(self.recipients[i].user_id.as_str(), user_id) && same(
                self.recipients[i].device_id.as_str(),
                device_id,
            ) {
                assert(q(self@.recipients[i as int]));
                return true;
            }
            i = i + 1;
        }
        false
    }
}

/// The id of a row of a device.
pub open spec fn device_row_id(user: Seq<char>, device: Seq<char>) -> Seq<char> {
    user + ":"@ + device
}

fn device_row(user_id: &str, device_id: &str) -> (r: String)
    ensures
        r@ == device_row_id(user_id@, device_id@),
{
    let start = joined(user_id, ":");
    joined(start.as_str(), device_id)
}

/// How the key of a backup is derived.
pub struct BackupKdf {
    pub alg: Option<String>,
    pub m_kib: Option<u64>,
    pub t: Option<u64>,
    pub p: Option<u64>,
}

/// What the header of a backup tells, as far as it is looked at. What is missing, or is
/// of another type, is not there.
pub struct BackupHeader {
    pub v: Option<u64>,
    pub kdf: Option<BackupKdf>,
    pub user_id: Option<String>,
    pub device_id: Option<String>,
    pub generation: Option<i64>,
}

/// What a [`BackupKdf`] holds.
pub struct BackupKdfView {
    pub alg: Option<Seq<char>>,
    pub m_kib: Option<u64>,
    pub t: Option<u64>,
    pub p: Option<u64>,
}

/// What a [`BackupHeader`] holds.
pub struct BackupHeaderView {
    pub v: Option<u64>,
    pub kdf: Option<BackupKdfView>,
    pub user_id: Option<Seq<char>>,
    pub device_id: Option<Seq<char>>,
    pub generation: Option<i64>,
}

impl View for BackupKdf {
    type V = BackupKdfView;

    open spec fn view(&self) -> BackupKdfView {
        BackupKdfView { alg: text::opt_text(self.alg), m_kib: self.m_kib, t: self.t, p: self.p }
    }
}

impl View for BackupHeader {
    type V = BackupHeaderView;

    open spec fn view(&self) -> BackupHeaderView {
        BackupHeaderView {
            v: self.v,
            kdf: match self.kdf {
                Some(kdf) => Some(kdf@),
                None => None,
            },
            user_id: text::opt_text(self.user_id),
            device_id: text::opt_text(self.device_id),
            generation: self.generation,
        }
    }
}

/// What a text tells as the header of a backup; nothing where it is no JSON.
pub open spec fn header_of(text: Seq<char>) -> Option<BackupHeaderView> {
    if json::value_at(text, ""@) is None {
        None
    } else {
        Some(
            BackupHeaderView {
                v: json::unsigned_at(text, "/v"@),
                kdf: if json::value_at(text, "/kdf"@) is None {
                    None
                } else {
                    Some(
                        BackupKdfView {
                            alg: json::text_at(text, "/kdf/alg"@),
                            m_kib: json::unsigned_at(text, "/kdf/m_kib"@),
                            t: json::unsigned_at(text, "/kdf/t"@),
                            p: json::unsigned_at(text, "/kdf/p"@),
                        },
                    )
                },
                user_id: json::text_at(text, "/user_id"@),
                device_id: json::text_at(text, "/device_id"@),
                generation: json::signed_at(text, "/generation"@),
            },
        )
    }
}

/// What an optional header holds.
pub open spec fn opt_header(header: Option<BackupHeader>) -> Option<BackupHeaderView> {
    match header {
        Some(header) => Some(header@),
        None => None,
    }
}

/// Reads the header of a backup.
fn read_header(text: &str) -> (r: Option<BackupHeader>)
    ensures
        opt_header(r) == header_of(text@),
{
    if json::find(text, "").is_none() {
        return None;
    }
    let kdf = if json::find(text, "/kdf").is_none() {
        None
    } else {
        Some(
            BackupKdf {
                alg: json::find_text(text, "/kdf/alg"),
                m_kib: json::find_unsigned(text, "/kdf/m_kib"),
                t: json::find_unsigned(text, "/kdf/t"),
                p: json::find_unsigned(text, "/kdf/p"),
            },
        )
    };
    Some(
        BackupHeader {
            v: json::find_unsigned(text, "/v"),
            kdf,
            user_id: json::find_text(text, "/user_id"),
            device_id: json::find_text(text, "/device_id"),
            generation: json::find_signed(text, "/generation"),
        },
    )
}

/// Whether a number is there and within bounds.
pub open spec fn within(n: Option<u64>, least: u64, most: u64) -> bool {
    n is Some && least <= n->Some_0 <= most
}

/// Why a header is refused; the reasons are looked at in this order.
pub open spec fn header_problem(
    header: BackupHeaderView,
    user: Seq<char>,
    device: Seq<char>,
    generation: i64,
) -> Option<&'static str> {
    if header.v != Some(1u64) {
        Some("backup header: unsupported version")
    } else if header.kdf is None {
        Some("backup header: missing kdf")
    } else if header.kdf->Some_0.alg != Some("argon2id"@) {
        Some("backup header: unsupported kdf alg")
    } else if !(within(
        header.kdf->Some_0.m_kib,
        E2EE_BACKUP_KDF_M_MIN_KIB,
        E2EE_BACKUP_KDF_M_MAX_KIB,
    ) && within(header.kdf->Some_0.t, E2EE_BACKUP_KDF_T_MIN, E2EE_BACKUP_KDF_T_MAX) && within(
        header.kdf->Some_0.p,
        E2EE_BACKUP_KDF_P_MIN,
        E2EE_BACKUP_KDF_P_MAX,
    )) {
        Some("backup header: kdf params out of range")
    } else if header.user_id != Some(user) {
        Some("backup header: user_id mismatch")
    } else if header.device_id != Some(device) {
        Some("backup header: device_id mismatch")
    } else if header.generation is None {
        Some("backup header: missing generation")
    } else if header.generation != Some(generation) {
        Some("backup header: generation mismatch")
    } else {
        None
    }
}

fn is_within(n: Option<u64>, least: u64, most: u64) -> (r: bool)
    ensures
        r == within(n, least, most),
{
    match n {
        Some(n) => least <= n && n <= most,
        None => false,
    }
}

fn is_given(s: &Option<String>, expected: &str) -> (r: bool)
    ensures
        r == (text::opt_text(*s) == Some(expected@)),
{
    match s {
        Some(s) => same(s.as_str(), expected),
        None => false,
    }
}

impl BackupHeader {
    /// Why the header is refused for a backup of a device; nothing where it is taken.
    pub fn problem(&self, user_id: &str, device_id: &str, generation: i64) -> (r: Option<
        &'static str,
    >)
        ensures
            r == header_problem(self@, user_id@, device_id@, generation),
    {
        let version: u64 = match self.v {
            Some(v) => v,
            None => 0,
        };
        if version != 1 {
            return Some("backup header: unsupported version");
        }
        let kdf = match &self.kdf {
            Some(kdf) => kdf,
            None => {
                return Some("backup header: missing kdf");
            },
        };
        if !is_given(&kdf.alg, "argon2id") {
            return Some("backup header: unsupported kdf alg");
        }
        if !(is_within(kdf.m_kib, E2EE_BACKUP_KDF_M_MIN_KIB, E2EE_BACKUP_KDF_M_MAX_KIB)
            && is_within(kdf.t, E2EE_BACKUP_KDF_T_MIN, E2EE_BACKUP_KDF_T_MAX) && is_within(
            kdf.p,
            E2EE_BACKUP_KDF_P_MIN,
            E2EE_BACKUP_KDF_P_MAX,
        )) {
            return Some("backup header: kdf params out of range");
        }
        if !is_given(&self.user_id, user_id) {
            return Some("backup header: user_id mismatch");
        }
        if !is_given(&self.device_id, device_id) {
            return Some("backup header: device_id mismatch");
        }
        match self.generation {
            Some(told) => if told != generation {
                Some("backup header: generation mismatch")
            } else {
                None
            },
            None => Some("backup header: missing generation"),
        }
    }
}

impl E2EEBackup {
    /// The id of the backup of a device.
    pub fn composite_id(user_id: &str, device_id: &str) -> (r: String)
        ensures
            r@ == device_row_id(user_id@, device_id@),
    {
        device_row(user_id, device_id)
    }

    /// Whether a header can be taken for a backup of a device: it is not too large, can
    /// be read, asks for a derivation within bounds, and tells the same as the request.
    pub fn validate_header(
        header: &str,
        expected_user_id: &str,
        expected_device_id: &str,
        body_generation: i64,
    ) -> (r: Result<(), Error>)
        ensures
            r == (if encode_utf8(header@).len() > E2EE_MAX_BACKUP_HEADER_SIZE {
                Err::<(), Error>(Error::FailedValidation { error: "backup header too large" })
            } else {
                match header_of(header@) {
                    None => Err::<(), Error>(
                        Error::FailedValidation { error: "backup header is not valid JSON" },
                    ),
                    Some(parsed) => match header_problem(
                        parsed,
                        expected_user_id@,
                        expected_device_id@,
                        body_generation,
                    ) {
                        Some(error) => Err::<(), Error>(Error::FailedValidation { error }),
                        None => Ok::<(), Error>(()),
                    },
                }
            }),
    {
        if header.as_bytes().len() > E2EE_MAX_BACKUP_HEADER_SIZE {
            return Err(Error::FailedValidation { error: "backup header too large" });
        }
        match read_header(header) {
            Some(parsed) => match parsed.problem(
                expected_user_id,
                expected_device_id,
                body_generation,
            ) {
                Some(error) => Err(Error::FailedValidation { error }),
                None => Ok(()),
            },
            None => Err(Error::FailedValidation { error: "backup header is not valid JSON" }),
        }
    }
}

/// The bytes that a text of base 64 stands for, where there are so many.
pub open spec fn exact_bytes(value: Seq<char>, length: int) -> Option<Seq<u8>> {
    match crypto::base64_bytes(value) {
        Some(bytes) => if bytes.len() == length {
            Some(bytes)
        } else {
            None
        },
        None => None,
    }
}

fn decode_exact(value: &str, length: usize) -> (r: Option<Vec<u8>>)
    ensures
        match r {
            Some(bytes) => exact_bytes(value@, length as int) == Some(bytes@),
            None => exact_bytes(value@, length as int) is None,
        },
{
    match decode_base64(value) {
        Some(bytes) => if bytes.len() == length {
            Some(bytes)
        } else {
            None
        },
        None => None,
    }
}

/// A hexadecimal digit in lower case.
pub open spec fn is_hex_digit(c: char) -> bool {
    ('0' <= c && c <= '9') || ('a' <= c && c <= 'f')
}

/// Whether a text is the id of a device: 32 hexadecimal digits.
pub open spec fn is_device_id(s: Seq<char>) -> bool {
    s.len() == E2EE_DEVICE_ID_LENGTH && forall|i: int|
        0 <= i < s.len() ==> is_hex_digit(#[trigger] s[i])
}

/// Whether a text is the id of a device: 32 hexadecimal digits.
pub fn is_valid_device_id(device_id: &str) -> (r: bool)
    ensures
        r == is_device_id(device_id@),
{
    let chars = chars_of(device_id);
    if chars.len() != E2EE_DEVICE_ID_LENGTH {
        return false;
    }
    let mut i: usize = 0;
    while i < chars.len()
        invariant
            chars@ == device_id@,
            i <= chars.len(),
            forall|j: int| 0 <= j < i ==> is_hex_digit(#[trigger] device_id@[j]),
        decreases chars.len() - i,
    {
        let c: char = chars[i];
        if !(('0' <= c && c <= '9') || ('a' <= c && c <= 'f')) {
            assert(!is_hex_digit(device_id@[i as int]));
            return false;
        }
        i = i + 1;
    }
    true
}

/// What a device signs of a key.
pub open spec fn key_payload(
    context: Seq<char>,
    protocol_version: int,
    device: Seq<char>,
    key_id: Seq<char>,
    key: Seq<char>,
) -> Seq<char> {
    context + "\nprotocol_version:"@ + text::int_text(protocol_version) + "\ndevice_id:"@ + device
        + "\nkey_id:"@ + key_id + "\nkey:"@ + key
}

/// What a device signs of its identity.
pub open spec fn identity_payload(
    protocol_version: int,
    device: Seq<char>,
    ed25519_key: Seq<char>,
    curve25519_key: Seq<char>,
) -> Seq<char> {
    E2EE_SIGN_CONTEXT_IDENTITY@ + "\nprotocol_version:"@ + text::int_text(protocol_version)
        + "\ndevice_id:"@ + device + "\ned25519:"@ + ed25519_key + "\ncurve25519:"@
        + curve25519_key
}

/// What a device signs to prove itself to a session.
pub open spec fn claim_text(device: Seq<char>, session: Seq<char>, nonce: Seq<char>) -> Seq<char> {
    "acutest:e2ee:device-claim\ndevice_id:"@ + device + "\nsession_id:"@ + session + "\nnonce:"@
        + nonce
}

fn signed_key_payload(
    context: &str,
    protocol_version: i32,
    device_id: &str,
    key_id: &str,
    key: &str,
) -> (r: String)
    ensures
        r@ == key_payload(context@, protocol_version as int, device_id@, key_id@, key@),
{
    let mut out: String = context.to_owned();
    out.append("\nprotocol_version:");
    out.append(int_string(protocol_version).as_str());
    out.append("\ndevice_id:");
    out.append(device_id);
    out.append("\nkey_id:");
    out.append(key_id);
    out.append("\nkey:");
    out.append(key);
    out
}

/// Whether a text is a signature of a text under a key: it stands for 64 bytes, and they
/// verify.
pub open spec fn signs(key: Seq<u8>, payload: Seq<char>, signature: Seq<char>) -> bool {
    match exact_bytes(signature, 64) {
        Some(bytes) => crypto::ed25519_verifies(key, encode_utf8(payload), bytes),
        None => false,
    }
}

/// A key that signatures are verified with.
#[derive(Debug, PartialEq, Eq)]
pub struct Ed25519Key {
    pub bytes: Vec<u8>,
}

impl Ed25519Key {
    /// 32 bytes that are a key.
    pub open spec fn wf(&self) -> bool {
        self.bytes@.len() == 32 && crypto::ed25519_key(self.bytes@)
    }
}

fn verify_signature(key: &Ed25519Key, payload: &str, signature: &str) -> (r: bool)
    requires
        key.wf(),
    ensures
        r == signs(key.bytes@, payload@, signature@),
{
    match decode_exact(signature, 64) {
        Some(bytes) => verify_ed25519(
            key.bytes.as_slice(),
            payload.as_bytes(),
            bytes.as_slice(),
        ),
        None => false,
    }
}

/// The key that a text stands for.
pub open spec fn key_of(ed25519_key: Seq<char>) -> Option<Seq<u8>> {
    match exact_bytes(ed25519_key, 32) {
        Some(bytes) => if crypto::ed25519_key(bytes) {
            Some(bytes)
        } else {
            None
        },
        None => None,
    }
}

/// Why a signed key is refused.
pub open spec fn signed_key_problem(
    k: E2EESignedKeyView,
    key: Seq<u8>,
    context: Seq<char>,
    protocol_version: int,
    device: Seq<char>,
) -> Option<&'static str> {
    if exact_bytes(k.key, 32) is None {
        Some("invalid Curve25519 key")
    } else if !signs(
        key,
        key_payload(context, protocol_version, device, k.key_id, k.key),
        k.signature,
    ) {
        Some("invalid key signature")
    } else {
        None
    }
}

/// Why an identity is refused; the reasons are looked at in this order.
pub open spec fn identity_problem(id: E2EEIdentityView) -> Option<&'static str> {
    let version = id.protocol_version as int;
    match key_of(id.ed25519_key) {
        None => Some("invalid Ed25519 identity key"),
        Some(key) => if exact_bytes(id.curve25519_key, 32) is None {
            Some("invalid Curve25519 identity key")
        } else if !signs(
            key,
            identity_payload(version, id.device_id, id.ed25519_key, id.curve25519_key),
            id.signature,
        ) {
            Some("invalid identity signature")
        } else {
            let fallback = signed_key_problem(
                id.fallback_key,
                key,
                E2EE_SIGN_CONTEXT_FALLBACK@,
                version,
                id.device_id,
            );
            if fallback is Some {
                fallback
            } else {
                match id.previous_fallback_key {
                    Some(previous) => signed_key_problem(
                        previous,
                        key,
                        E2EE_SIGN_CONTEXT_FALLBACK@,
                        version,
                        id.device_id,
                    ),
                    None => None,
                }
            }
        },
    }
}

/// A refusal, where there is a reason.
pub open spec fn refusal(problem: Option<&'static str>) -> Result<(), Error> {
    match problem {
        Some(error) => Err(Error::FailedValidation { error }),
        None => Ok(()),
    }
}

impl E2EESignedKey {
    /// Whether a device signed the key, under a context.
    pub fn verify(
        &self,
        verifying_key: &Ed25519Key,
        context: &str,
        protocol_version: i32,
        device_id: &str,
    ) -> (r: Result<(), Error>)
        requires
            verifying_key.wf(),
        ensures
            r == refusal(
                signed_key_problem(
                    self@,
                    verifying_key.bytes@,
                    context@,
                    protocol_version as int,
                    device_id@,
                ),
            ),
    {
        if decode_exact(self.key.as_str(), 32).is_none() {
            return Err(Error::FailedValidation { error: "invalid Curve25519 key" });
        }
        let payload = signed_key_payload(
            context,
            protocol_version,
            device_id,
            self.key_id.as_str(),
            self.key.as_str(),
        );
        if !verify_signature(verifying_key, payload.as_str(), self.signature.as_str()) {
            return Err(Error::FailedValidation { error: "invalid key signature" });
        }
        Ok(())
    }
}

impl E2EEIdentity {
    /// The id of a device of a user.
    pub fn composite_id(user_id: &str, device_id: &str) -> (r: String)
        ensures
            r@ == device_row_id(user_id@, device_id@),
    {
        device_row(user_id, device_id)
    }

    /// What a device signs of its identity.
    pub fn signed_payload(
        protocol_version: i32,
        device_id: &str,
        ed25519_key: &str,
        curve25519_key: &str,
    ) -> (r: String)
        ensures
            r@ == identity_payload(
                protocol_version as int,
                device_id@,
                ed25519_key@,
                curve25519_key@,
            ),
    {
        let mut out: String = E2EE_SIGN_CONTEXT_IDENTITY.to_owned();
        out.append("\nprotocol_version:");
        out.append(int_string(protocol_version).as_str());
        out.append("\ndevice_id:");
        out.append(device_id);
        out.append("\ned25519:");
        out.append(ed25519_key);
        out.append("\ncurve25519:");
        out.append(curve25519_key);
        out
    }

    /// The key that the device signs with, where it is one.
    pub fn verifying_key(&self) -> (r: Option<Ed25519Key>)
        ensures
            match r {
                Some(key) => key.wf() && key_of(self.ed25519_key@) == Some(key.bytes@),
                None => key_of(self.ed25519_key@) is None,
            },
    {
        match decode_exact(self.ed25519_key.as_str(), 32) {
            Some(bytes) => if is_ed25519_key(bytes.as_slice()) {
                Some(Ed25519Key { bytes })
            } else {
                None
            },
            None => None,
        }
    }

    /// Whether the device signed its identity and its fallback keys. Whatever is wrong,
    /// it is refused.
    pub fn verify(&self) -> (r: Result<(), Error>)
        ensures
            r == refusal(identity_problem(self@)),
    {
        let verifying_key = match self.verifying_key() {
            Some(key) => key,
            None => {
                return Err(Error::FailedValidation { error: "invalid Ed25519 identity key" });
            },
        };
        if decode_exact(self.curve25519_key.as_str(), 32).is_none() {
            return Err(Error::FailedValidation { error: "invalid Curve25519 identity key" });
        }
        let payload = E2EEIdentity::signed_payload(
            self.protocol_version,
            self.device_id.as_str(),
            self.ed25519_key.as_str(),
            self.curve25519_key.as_str(),
        );
        if !verify_signature(&verifying_key, payload.as_str(), self.signature.as_str()) {
            return Err(Error::FailedValidation { error: "invalid identity signature" });
        }
        match self.fallback_key.verify(
            &verifying_key,
            E2EE_SIGN_CONTEXT_FALLBACK,
            self.protocol_version,
            self.device_id.as_str(),
        ) {
            Err(e) => {
                return Err(e);
            },
            Ok(_) => {},
        }
        match &self.previous_fallback_key {
            Some(previous) => previous.verify(
                &verifying_key,
                E2EE_SIGN_CONTEXT_FALLBACK,
                self.protocol_version,
                self.device_id.as_str(),
            ),
            None => Ok(()),
        }
    }

    /// Whether the device signed a text.
    pub fn verify_payload(&self, payload: &str, signature: &str) -> (r: bool)
        ensures
            r == match key_of(self.ed25519_key@) {
                Some(key) => signs(key, payload@, signature@),
                None => false,
            },
    {
        match self.verifying_key() {
            Some(key) => verify_signature(&key, payload, signature),
            None => false,
        }
    }

    /// Whether the device proved itself to a session, under a nonce.
    pub fn verify_claim(&self, nonce: &str, session_id: &str, signature: &str) -> (r: bool)
        ensures
            r == match key_of(self.ed25519_key@) {
                Some(key) => signs(
                    key,
                    claim_text(self.device_id@, session_id@, nonce@),
                    signature@,
                ),
                None => false,
            },
    {
        let payload = E2EEIdentity::claim_payload(self.device_id.as_str(), session_id, nonce);
        self.verify_payload(payload.as_str(), signature)
    }

    /// What a device signs to prove itself to a session.
    pub fn claim_payload(device_id: &str, session_id: &str, nonce: &str) -> (r: String)
        ensures
            r@ == claim_text(device_id@, session_id@, nonce@),
    {
        let mut out: String = "acutest:e2ee:device-claim\ndevice_id:".to_owned();
        out.append(device_id);
        out.append("\nsession_id:");
        out.append(session_id);
        out.append("\nnonce:");
        out.append(nonce);
        out
    }

    /// Whether a session is the one that last proved to be the device.
    pub fn assert_bound_session(&self, session_id: &str) -> (r: Result<(), Error>)
        ensures
            r == (if self.last_session_id@ == session_id@ {
                Ok::<(), Error>(())
            } else {
                Err::<(), Error>(Error::NotAuthenticated)
            }),
    {
        if same(self.last_session_id.as_str(), session_id) {
            Ok(())
        } else {
            Err(Error::NotAuthenticated)
        }
    }
}

/// Why a one-time key is refused; the reasons are looked at in this order.
pub open spec fn one_time_key_problem(k: E2EEOneTimeKeyView, id: E2EEIdentityView) -> Option<
    &'static str,
> {
    match key_of(id.ed25519_key) {
        None => Some("invalid Ed25519 identity key"),
        Some(key) => if exact_bytes(k.key, 32) is None {
            Some("invalid Curve25519 key")
        } else if !signs(
            key,
            key_payload(
                E2EE_SIGN_CONTEXT_ONE_TIME@,
                id.protocol_version as int,
                k.device_id,
                k.key_id,
                k.key,
            ),
            k.signature,
        ) {
            Some("invalid one-time key signature")
        } else {
            None
        },
    }
}

/// The id of a one-time key.
pub open spec fn key_row_id(user: Seq<char>, device: Seq<char>, key: Seq<char>) -> Seq<char> {
    device_row_id(user, device) + ":"@ + key
}

impl E2EEOneTimeKey {
    /// The id of a one-time key.
    pub fn composite_id(user_id: &str, device_id: &str, key_id: &str) -> (r: String)
        ensures
            r@ == key_row_id(user_id@, device_id@, key_id@),
    {
        let device = device_row(user_id, device_id);
        device_row(device.as_str(), key_id)
    }

    /// Whether the device of an identity signed the key.
    pub fn verify(&self, identity: &E2EEIdentity) -> (r: Result<(), Error>)
        ensures
            r == refusal(one_time_key_problem(self@, identity@)),
    {
        let verifying_key = match identity.verifying_key() {
            Some(key) => key,
            None => {
                return Err(Error::FailedValidation { error: "invalid Ed25519 identity key" });
            },
        };
        if decode_exact(self.key.as_str(), 32).is_none() {
            return Err(Error::FailedValidation { error: "invalid Curve25519 key" });
        }
        let payload = signed_key_payload(
            E2EE_SIGN_CONTEXT_ONE_TIME,
            identity.protocol_version,
            self.device_id.as_str(),
            self.key_id.as_str(),
            self.key.as_str(),
        );
        if !verify_signature(&verifying_key, payload.as_str(), self.signature.as_str()) {
            return Err(Error::FailedValidation { error: "invalid one-time key signature" });
        }
        Ok(())
    }
}

/// What is signed as one thing is never what is signed as another: a fallback key cannot
/// be passed off as a one-time key, nor either as an identity or a proof, whatever they
/// hold.
pub proof fn law_payloads_are_apart(
    v1: int,
    d1: Seq<char>,
    a1: Seq<char>,
    b1: Seq<char>,
    v2: int,
    d2: Seq<char>,
    a2: Seq<char>,
    b2: Seq<char>,
)
    ensures
        key_payload(E2EE_SIGN_CONTEXT_FALLBACK@, v1, d1, a1, b1) != key_payload(
            E2EE_SIGN_CONTEXT_ONE_TIME@,
            v2,
            d2,
            a2,
            b2,
        ),
        key_payload(E2EE_SIGN_CONTEXT_FALLBACK@, v1, d1, a1, b1) != identity_payload(
            v2,
            d2,
            a2,
            b2,
        ),
        key_payload(E2EE_SIGN_CONTEXT_ONE_TIME@, v1, d1, a1, b1) != identity_payload(
            v2,
            d2,
            a2,
            b2,
        ),
        key_payload(E2EE_SIGN_CONTEXT_FALLBACK@, v1, d1, a1, b1) != claim_text(d2, a2, b2),
        key_payload(E2EE_SIGN_CONTEXT_ONE_TIME@, v1, d1, a1, b1) != claim_text(d2, a2, b2),
        identity_payload(v1, d1, a1, b1) != claim_text(d2, a2, b2),
{
    reveal_strlit("acutest:e2ee:identity");
    reveal_strlit("acutest:e2ee:fallback");
    reveal_strlit("acutest:e2ee:one-time");
    reveal_strlit("acutest:e2ee:device-claim\ndevice_id:");
    assert(key_payload(E2EE_SIGN_CONTEXT_FALLBACK@, v1, d1, a1, b1)[13] == 'f');
    assert(key_payload(E2EE_SIGN_CONTEXT_ONE_TIME@, v1, d1, a1, b1)[13] == 'o');
    assert(key_payload(E2EE_SIGN_CONTEXT_ONE_TIME@, v2, d2, a2, b2)[13] == 'o');
    assert(identity_payload(v1, d1, a1, b1)[13] == 'i');
    assert(identity_payload(v2, d2, a2, b2)[13] == 'i');
    assert(claim_text(d2, a2, b2)[13] == 'd');
}

/// Whether a text is one line.
pub open spec fn one_line(s: Seq<char>) -> bool {
    !s.contains('\n')
}

/// Two texts that go on with a new line after their first line are the same only where
/// both parts are.
proof fn lemma_first_line(a: Seq<char>, x: Seq<char>, b: Seq<char>, y: Seq<char>)
    requires
        one_line(a),
        one_line(b),
        x.len() > 0,
        y.len() > 0,
        x[0] == '\n',
        y[0] == '\n',
        a + x == b + y,
    ensures
        a == b,
        x == y,
{
    let s = a + x;
    let t = b + y;
    if a.len() < b.len() {
        assert(s[a.len() as int] == '\n');
        assert(t[a.len() as int] == b[a.len() as int]);
        assert(b.contains('\n'));
    } else if b.len() < a.len() {
        assert(t[b.len() as int] == '\n');
        assert(s[b.len() as int] == a[b.len() as int]);
        assert(a.contains('\n'));
    }
    assert(s.take(a.len() as int) =~= a);
    assert(t.take(b.len() as int) =~= b);
    assert(s.skip(a.len() as int) =~= x);
    assert(t.skip(b.len() as int) =~= y);
}

proof fn lemma_same_start(start: Seq<char>, x: Seq<char>, y: Seq<char>)
    requires
        start + x == start + y,
    ensures
        x == y,
{
    assert((start + x).skip(start.len() as int) =~= x);
    assert((start + y).skip(start.len() as int) =~= y);
}

/// A proof holds for one device, one session and one nonce: it cannot be used on another
/// connection.
pub proof fn law_proof_is_bound_to_its_session(
    d1: Seq<char>,
    s1: Seq<char>,
    n1: Seq<char>,
    d2: Seq<char>,
    s2: Seq<char>,
    n2: Seq<char>,
)
    requires
        one_line(d1),
        one_line(d2),
        one_line(s1),
        one_line(s2),
        claim_text(d1, s1, n1) == claim_text(d2, s2, n2),
    ensures
        d1 == d2,
        s1 == s2,
        n1 == n2,
{
    reveal_strlit("\nsession_id:");
    reveal_strlit("\nnonce:");
    let head = "acutest:e2ee:device-claim\ndevice_id:"@;
    let session = "\nsession_id:"@;
    let nonce = "\nnonce:"@;
    let r1 = s1 + (nonce + n1);
    let r2 = s2 + (nonce + n2);
    assert(claim_text(d1, s1, n1) =~= head + (d1 + (session + r1)));
    assert(claim_text(d2, s2, n2) =~= head + (d2 + (session + r2)));
    lemma_same_start(head, d1 + (session + r1), d2 + (session + r2));
    lemma_first_line(d1, session + r1, d2, session + r2);
    lemma_same_start(session, r1, r2);
    lemma_first_line(s1, nonce + n1, s2, nonce + n2);
    lemma_same_start(nonce, n1, n2);
}

/// What a device signs of a key tells the version, the device and the key apart: a
/// signature for one cannot be passed off for another.
pub proof fn law_key_payload_is_bound(
    context: Seq<char>,
    v1: i32,
    d1: Seq<char>,
    i1: Seq<char>,
    k1: Seq<char>,
    v2: i32,
    d2: Seq<char>,
    i2: Seq<char>,
    k2: Seq<char>,
)
    requires
        one_line(d1),
        one_line(d2),
        one_line(i1),
        one_line(i2),
        key_payload(context, v1 as int, d1, i1, k1) == key_payload(context, v2 as int, d2, i2, k2),
    ensures
        v1 == v2,
        d1 == d2,
        i1 == i2,
        k1 == k2,
{
    reveal_strlit("\ndevice_id:");
    reveal_strlit("\nkey_id:");
    reveal_strlit("\nkey:");
    let head = context + "\nprotocol_version:"@;
    let device = "\ndevice_id:"@;
    let key_id = "\nkey_id:"@;
    let key = "\nkey:"@;
    let t1 = text::int_text(v1 as int);
    let t2 = text::int_text(v2 as int);
    let c1 = i1 + (key + k1);
    let c2 = i2 + (key + k2);
    let b1 = d1 + (key_id + c1);
    let b2 = d2 + (key_id + c2);
    assert(key_payload(context, v1 as int, d1, i1, k1) =~= head + (t1 + (device + b1)));
    assert(key_payload(context, v2 as int, d2, i2, k2) =~= head + (t2 + (device + b2)));
    lemma_same_start(head, t1 + (device + b1), t2 + (device + b2));
    text::lemma_int_text(v1 as int);
    text::lemma_int_text(v2 as int);
    lemma_first_line(t1, device + b1, t2, device + b2);
    lemma_same_start(device, b1, b2);
    lemma_first_line(d1, key_id + c1, d2, key_id + c2);
    lemma_same_start(key_id, c1, c2);
    lemma_first_line(i1, key + k1, i2, key + k2);
    lemma_same_start(key, k1, k2);
}

/// What a device signs of its identity tells the version, the device and both keys apart:
/// the version cannot be lowered, nor the keys be given to another device.
pub proof fn law_identity_payload_is_bound(
    v1: i32,
    d1: Seq<char>,
    e1: Seq<char>,
    c1: Seq<char>,
    v2: i32,
    d2: Seq<char>,
    e2: Seq<char>,
    c2: Seq<char>,
)
    requires
        one_line(d1),
        one_line(d2),
        one_line(e1),
        one_line(e2),
        identity_payload(v1 as int, d1, e1, c1) == identity_payload(v2 as int, d2, e2, c2),
    ensures
        v1 == v2,
        d1 == d2,
        e1 == e2,
        c1 == c2,
{
    reveal_strlit("\ndevice_id:");
    reveal_strlit("\ned25519:");
    reveal_strlit("\ncurve25519:");
    let head = E2EE_SIGN_CONTEXT_IDENTITY@ + "\nprotocol_version:"@;
    let device = "\ndevice_id:"@;
    let ed25519 = "\ned25519:"@;
    let curve25519 = "\ncurve25519:"@;
    let t1 = text::int_text(v1 as int);
    let t2 = text::int_text(v2 as int);
    let k1 = e1 + (curve25519 + c1);
    let k2 = e2 + (curve25519 + c2);
    let b1 = d1 + (ed25519 + k1);
    let b2 = d2 + (ed25519 + k2);
    assert(identity_payload(v1 as int, d1, e1, c1) =~= head + (t1 + (device + b1)));
    assert(identity_payload(v2 as int, d2, e2, c2) =~= head + (t2 + (device + b2)));
    lemma_same_start(head, t1 + (device + b1), t2 + (device + b2));
    text::lemma_int_text(v1 as int);
    text::lemma_int_text(v2 as int);
    lemma_first_line(t1, device + b1, t2, device + b2);
    lemma_same_start(device, b1, b2);
    lemma_first_line(d1, ed25519 + k1, d2, ed25519 + k2);
    lemma_same_start(ed25519, k1, k2);
    lemma_first_line(e1, curve25519 + c1, e2, curve25519 + c2);
    lemma_same_start(curve25519, c1, c2);
}

/// A valid id of a device is one line.
pub proof fn law_device_ids_are_one_line(device: Seq<char>)
    requires
        is_device_id(device),
    ensures
        one_line(device),
{
    if device.contains('\n') {
        let i = choose|i: int| 0 <= i < device.len() && device[i] == '\n';
        assert(is_hex_digit(device[i]));
    }
}

} // verus!
