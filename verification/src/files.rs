//! Uploaded files, their hashes and what they are used for.
use crate::clock::now_ms;
use crate::db::ReferenceDb;
use crate::error::Error;
use crate::table::{self, KeyedRow, Row};
use crate::text::{self, copy_opt, is_text, same};
use vstd::prelude::*;

verus! {

/// What is known of a file's contents.
#[derive(Debug, PartialEq, Eq)]
pub enum Metadata {
    /// An uncategorised file.
    File,
    /// Text.
    Text,
    /// An image.
    Image { width: isize, height: isize, thumbhash: Option<Vec<u8>>, animated: Option<bool> },
    /// A video.
    Video { width: isize, height: isize },
    /// Audio.
    Audio,
}

/// What a [`Metadata`] holds.
pub enum MetadataView {
    File,
    Text,
    Image { width: isize, height: isize, thumbhash: Option<Seq<u8>>, animated: Option<bool> },
    Video { width: isize, height: isize },
    Audio,
}

impl View for Metadata {
    type V = MetadataView;

    open spec fn view(&self) -> MetadataView {
        match *self {
            Metadata::File => MetadataView::File,
            Metadata::Text => MetadataView::Text,
            Metadata::Image { width, height, thumbhash, animated } => MetadataView::Image {
                width,
                height,
                thumbhash: match thumbhash {
                    Some(bytes) => Some(bytes@),
                    None => None,
                },
                animated,
            },
            Metadata::Video { width, height } => MetadataView::Video { width, height },
            Metadata::Audio => MetadataView::Audio,
        }
    }
}

impl Default for Metadata {
    /// An uncategorised file.
    fn default() -> (r: Self)
        ensures
            r == Metadata::File,
    {
        Metadata::File
    }
}

/// A copy of a list of bytes.
pub(crate) fn copy_bytes(list: &Vec<u8>) -> (r: Vec<u8>)
    ensures
        r@ == list@,
{
    let mut out: Vec<u8> = Vec::new();
    let mut i: usize = 0;
    while i < list.len()
        invariant
            i <= list.len(),
            out@ == list@.take(i as int),
        decreases list.len() - i,
    {
        out.push(list[i]);
        assert(list@.take(i + 1) =~= list@.take(i as int).push(list@[i as int]));
        i = i + 1;
    }
    assert(list@.take(i as int) =~= list@);
    out
}

impl Metadata {
    /// A copy.
    pub fn copy(&self) -> (r: Self)
        ensures
            r@ == self@,
    {
        match self {
            Metadata::File => Metadata::File,
            Metadata::Text => Metadata::Text,
            Metadata::Image { width, height, thumbhash, animated } => Metadata::Image {
                width: *width,
                height: *height,
                thumbhash: match thumbhash {
                    Some(bytes) => Some(copy_bytes(bytes)),
                    None => None,
                },
                animated: *animated,
            },
            Metadata::Video { width, height } => Metadata::Video { width: *width, height: *height },
            Metadata::Audio => Metadata::Audio,
        }
    }
}

/// What kind of object a file is used for.
#[derive(Clone, Copy, Debug, PartialEq, Eq)]
pub enum FileUsedForType {
    Message,
    ServerBanner,
    Emoji,
    UserAvatar,
    WebhookAvatar,
    UserProfileBackground,
    LegacyGroupIcon,
    ChannelIcon,
    ServerIcon,
}

/// The object that a file is used for.
#[derive(Clone, Debug, PartialEq, Eq)]
pub struct FileUsedFor {
    pub object_type: FileUsedForType,
    pub id: String,
}

/// An uploaded file.
#[derive(Debug, PartialEq, Eq)]
pub struct File {
    pub id: String,
    /// The bucket it was uploaded to.
    pub tag: String,
    pub filename: String,
    pub hash: Option<String>,
    pub uploaded_at: Option<i64>,
    pub uploader_id: Option<String>,
    pub used_for: Option<FileUsedFor>,
    pub deleted: Option<bool>,
    pub reported: Option<bool>,
    pub metadata: Metadata,
    pub content_type: String,
    pub size: isize,
    pub message_id: Option<String>,
    pub user_id: Option<String>,
    pub server_id: Option<String>,
    pub object_id: Option<String>,
}

/// What a [`File`] holds.
pub struct FileView {
    pub id: Seq<char>,
    pub tag: Seq<char>,
    pub filename: Seq<char>,
    pub hash: Option<Seq<char>>,
    pub uploaded_at: Option<i64>,
    pub uploader_id: Option<Seq<char>>,
    pub used_for: Option<(FileUsedForType, Seq<char>)>,
    pub deleted: Option<bool>,
    pub reported: Option<bool>,
    pub metadata: MetadataView,
    pub content_type: Seq<char>,
    pub size: isize,
    pub message_id: Option<Seq<char>>,
    pub user_id: Option<Seq<char>>,
    pub server_id: Option<Seq<char>>,
    pub object_id: Option<Seq<char>>,
}

/// What an optional use holds.
pub open spec fn use_view(u: Option<FileUsedFor>) -> Option<(FileUsedForType, Seq<char>)> {
    match u {
        Some(u) => Some((u.object_type, u.id@)),
        None => None,
    }
}

impl View for File {
    type V = FileView;

    open spec fn view(&self) -> FileView {
        FileView {
            id: self.id@,
            tag: self.tag@,
            filename: self.filename@,
            hash: text::opt_text(self.hash),
            uploaded_at: self.uploaded_at,
            uploader_id: text::opt_text(self.uploader_id),
            used_for: use_view(self.used_for),
            deleted: self.deleted,
            reported: self.reported,
            metadata: self.metadata@,
            content_type: self.content_type@,
            size: self.size,
            message_id: text::opt_text(self.message_id),
            user_id: text::opt_text(self.user_id),
            server_id: text::opt_text(self.server_id),
            object_id: text::opt_text(self.object_id),
        }
    }
}

impl Row for File {
    fn dup(&self) -> (r: Self) {
        File {
            id: self.id.clone(),
            tag: self.tag.clone(),
            filename: self.filename.clone(),
            hash: copy_opt(&self.hash),
            uploaded_at: self.uploaded_at,
            uploader_id: copy_opt(&self.uploader_id),
            used_for: match &self.used_for {
                Some(u) => Some(FileUsedFor { object_type: u.object_type, id: u.id.clone() }),
                None => None,
            },
            deleted: self.deleted,
            reported: self.reported,
            metadata: self.metadata.copy(),
            content_type: self.content_type.clone(),
            size: self.size,
            message_id: copy_opt(&self.message_id),
            user_id: copy_opt(&self.user_id),
            server_id: copy_opt(&self.server_id),
            object_id: copy_opt(&self.object_id),
        }
    }
}

impl KeyedRow for File {
    open spec fn id_of(v: FileView) -> Seq<char> {
        v.id
    }

    fn id_is(&self, id: &str) -> (r: bool) {
        same(self.id.as_str(), id)
    }
}

/// A stored file's contents, shared by the uploads with that hash.
#[derive(Debug, PartialEq, Eq)]
pub struct FileHash {
    /// Hash of the upload.
    pub id: String,
    /// Hash of the file as it was stored.
    pub processed_hash: String,
    pub created_at: i64,
    pub bucket_id: String,
    pub path: String,
    /// Nonce with which the file was encrypted.
    pub iv: String,
    /// Storage format; none is the format of whole files.
    pub format_version: Option<u32>,
    pub metadata: Metadata,
    pub content_type: String,
    pub size: isize,
}

impl FileHash {
    /// The file that an upload with this hash at a given time makes.
    pub open spec fn file_made(
        &self,
        id: Seq<char>,
        tag: Seq<char>,
        filename: Seq<char>,
        uploader_id: Seq<char>,
        now: i64,
    ) -> FileView {
        FileView {
            id,
            tag,
            filename,
            hash: Some(self.id@),
            uploaded_at: Some(now),
            uploader_id: Some(uploader_id),
            used_for: None,
            deleted: None,
            reported: None,
            metadata: self.metadata@,
            content_type: self.content_type@,
            size: self.size,
            message_id: None,
            user_id: None,
            server_id: None,
            object_id: None,
        }
    }

    /// The file that an upload with this hash at a given time makes.
    pub fn into_file_at(
        &self,
        id: String,
        tag: String,
        filename: String,
        uploader_id: String,
        now: i64,
    ) -> (r: File)
        ensures
            r@ == self.file_made(id@, tag@, filename@, uploader_id@, now),
    {
        File {
            id,
            tag,
            filename,
            hash: Some(self.id.clone()),
            uploaded_at: Some(now),
            uploader_id: Some(uploader_id),
            used_for: None,
            deleted: None,
            reported: None,
            metadata: self.metadata.copy(),
            content_type: self.content_type.clone(),
            size: self.size,
            message_id: None,
            user_id: None,
            server_id: None,
            object_id: None,
        }
    }

    /// The file that an upload with this hash makes now.
    pub fn into_file(&self, id: String, tag: String, filename: String, uploader_id: String) -> (r:
        File)
        ensures
            exists|now: i64|
                r@ == #[trigger] self.file_made(id@, tag@, filename@, uploader_id@, now),
    {
        self.into_file_at(id, tag, filename, uploader_id, now_ms())
    }
}

/// Whether a flag is set.
pub open spec fn set_true(flag: Option<bool>) -> bool {
    flag == Some(true)
}

fn flagged(flag: &Option<bool>) -> (r: bool)
    ensures
        r == set_true(*flag),
{
    match flag {
        Some(b) => *b,
        None => false,
    }
}

/// Files to be swept: marked as deleted, and not reported.
pub open spec fn to_sweep() -> spec_fn(FileView) -> bool {
    |f: FileView| set_true(f.deleted) && !set_true(f.reported)
}

/// Files that nothing uses, and that are not marked as deleted.
pub open spec fn dangling() -> spec_fn(FileView) -> bool {
    |f: FileView| f.used_for is None && !set_true(f.deleted)
}

/// Message attachments of more than so many bytes, not marked as deleted.
pub open spec fn large_attachment(min_size: usize) -> spec_fn(FileView) -> bool {
    |f: FileView|
        f.used_for is Some && f.used_for->Some_0.0 == FileUsedForType::Message && f.size > min_size
            && !set_true(f.deleted)
}

/// Files with a hash.
pub open spec fn of_hash(hash: Seq<char>) -> spec_fn(FileView) -> bool {
    |f: FileView| f.hash == Some(hash)
}

/// A file, claimed for an object by an uploader.
pub open spec fn claimed(
    object_type: FileUsedForType,
    object: Seq<char>,
    uploader_id: Seq<char>,
) -> spec_fn(FileView) -> FileView {
    |f: FileView|
        FileView {
            uploader_id: Some(uploader_id),
            used_for: Some((object_type, object)),
            ..f
        }
}

/// A file, its use pointed at another object; an unused file stays as it is.
pub open spec fn retargeted(parent: Seq<char>) -> spec_fn(FileView) -> FileView {
    |f: FileView|
        FileView {
            used_for: match f.used_for {
                Some(u) => Some((u.0, parent)),
                None => None,
            },
            ..f
        }
}

/// A file, marked as reported.
pub open spec fn marked_reported() -> spec_fn(FileView) -> FileView {
    |f: FileView| FileView { reported: Some(true), ..f }
}

/// A file, marked as deleted.
pub open spec fn marked_deleted() -> spec_fn(FileView) -> FileView {
    |f: FileView| FileView { deleted: Some(true), ..f }
}

/// Files whose id is in a list.
pub open spec fn id_among(ids: Seq<Seq<char>>) -> spec_fn(FileView) -> bool {
    |f: FileView| ids.contains(f.id)
}

/// Whether a file can be claimed under a tag: it has the tag, and nothing uses it.
pub open spec fn claimable(files: Seq<FileView>, id: Seq<char>, tag: Seq<char>) -> bool {
    &&& table::has_id::<File>(files, id)
    &&& table::row_of::<File>(files, id).tag == tag
    &&& table::row_of::<File>(files, id).used_for is None
}

/// The outcome of an operation on a row that must exist.
pub open spec fn found_or_not(found: bool) -> Result<(), Error> {
    if found {
        Ok(())
    } else {
        Err(Error::NotFound)
    }
}

impl ReferenceDb {
    /// Adds a file; a file with its id must not exist yet.
    pub fn insert_attachment(&mut self, attachment: &File) -> (r: Result<(), Error>)
        requires
            old(self).wf(),
        ensures
            final(self).wf(),
            *final(self) == (ReferenceDb { files: final(self).files, ..*old(self) }),
            if table::has_id::<File>(old(self).files@, attachment.id@) {
                r == Err::<(), Error>(
                    Error::DatabaseError { operation: "insert", collection: "attachment" },
                ) && final(self).files@ == old(self).files@
            } else {
                r == Ok::<(), Error>(()) && final(self).files@ == old(self).files@.push(
                    attachment@,
                )
            },
    {
        if self.files.contains_id(attachment.id.as_str()) {
            Err(Error::DatabaseError { operation: "insert", collection: "attachment" })
        } else {
            proof {
                table::lemma_keyed_push::<File>(self.files@, attachment@);
            }
            self.files.push(attachment.dup());
            Ok(())
        }
    }

    /// The file with an id, where it has the tag.
    pub fn fetch_attachment(&self, tag: &str, file_id: &str) -> (r: Result<File, Error>)
        ensures
            if table::has_id::<File>(self.files@, file_id@) && table::row_of::<File>(
                self.files@,
                file_id@,
            ).tag == tag@ {
                r is Ok && r->Ok_0@ == table::row_of::<File>(self.files@, file_id@)
            } else {
                r == Err::<File, Error>(Error::NotFound)
            },
    {
        match self.files.fetch(file_id) {
            Some(file) => {
                if same(file.tag.as_str(), tag) {
                    Ok(file)
                } else {
                    Err(Error::NotFound)
                }
            },
            None => Err(Error::NotFound),
        }
    }

    /// Files to be swept.
    pub fn fetch_deleted_attachments(&self) -> (r: Vec<File>)
        ensures
            table::row_views(r@) == self.files@.filter(to_sweep()),
    {
        let p = |f: &File| -> (b: bool)
            ensures
                b == to_sweep()(f@),
            { flagged(&f.deleted) && !flagged(&f.reported) };
        self.files.select(p, Ghost(to_sweep()))
    }

    /// Files that nothing uses.
    pub fn fetch_dangling_files(&self) -> (r: Vec<File>)
        ensures
            table::row_views(r@) == self.files@.filter(dangling()),
    {
        let p = |f: &File| -> (b: bool)
            ensures
                b == dangling()(f@),
            { f.used_for.is_none() && !flagged(&f.deleted) };
        self.files.select(p, Ghost(dangling()))
    }

    /// Message attachments of more than `min_size` bytes.
    pub fn fetch_large_message_attachments(&self, min_size: usize) -> (r: Vec<File>)
        ensures
            table::row_views(r@) == self.files@.filter(large_attachment(min_size)),
    {
        let p = |f: &File| -> (b: bool)
            ensures
                b == large_attachment(min_size)(f@),
            {
                let in_message: bool = match &f.used_for {
                    Some(u) => match u.object_type {
                        FileUsedForType::Message => true,
                        _ => false,
                    },
                    None => false,
                };
                in_message && f.size >= 0 && f.size as usize > min_size && !flagged(&f.deleted)
            };
        self.files.select(p, Ghost(large_attachment(min_size)))
    }

    /// Number of files with a hash.
    pub fn count_file_hash_references(&self, hash: &str) -> (n: usize)
        ensures
            n == self.files@.filter(of_hash(hash@)).len(),
    {
        let p = |f: &File| -> (b: bool)
            ensures
                b == of_hash(hash@)(f@),
            { is_text(&f.hash, hash) };
        self.files.count(p, Ghost(of_hash(hash@)))
    }

    /// Claims a file for an object. A file can be claimed once, under its tag.
    pub fn find_and_use_attachment(
        &mut self,
        id: &str,
        tag: &str,
        used_for: FileUsedFor,
        uploader_id: String,
    ) -> (r: Result<File, Error>)
        requires
            old(self).wf(),
        ensures
            final(self).wf(),
            *final(self) == (ReferenceDb { files: final(self).files, ..*old(self) }),
            if claimable(old(self).files@, id@, tag@) {
                let f = claimed(used_for.object_type, used_for.id@, uploader_id@);
                &&& r is Ok
                &&& r->Ok_0@ == f(table::row_of::<File>(old(self).files@, id@))
                &&& final(self).files@ == table::mapped(
                    old(self).files@,
                    table::with_id::<File>(id@),
                    f,
                )
            } else {
                r == Err::<File, Error>(Error::NotFound) && final(self).files@ == old(self).files@
            },
    {
        match self.files.position(id) {
            Some(i) => {
                let mut file = self.files.get(i);
                if same(file.tag.as_str(), tag) && file.used_for.is_none() {
                    let ghost f = claimed(used_for.object_type, used_for.id@, uploader_id@);
                    file.uploader_id = Some(uploader_id);
                    file.used_for = Some(used_for);
                    let copy = file.dup();
                    self.files.replace(i, file, Ghost(f));
                    Ok(copy)
                } else {
                    Err(Error::NotFound)
                }
            },
            None => Err(Error::NotFound),
        }
    }

    /// Points the use of a file at another object.
    pub fn retarget_attachment(&mut self, id: &str, new_parent_id: &str) -> (r: Result<(), Error>)
        requires
            old(self).wf(),
        ensures
            final(self).wf(),
            *final(self) == (ReferenceDb { files: final(self).files, ..*old(self) }),
            r == found_or_not(table::has_id::<File>(old(self).files@, id@)),
            final(self).files@ == table::mapped(
                old(self).files@,
                table::with_id::<File>(id@),
                retargeted(new_parent_id@),
            ),
    {
        match self.files.position(id) {
            Some(i) => {
                let mut file = self.files.get(i);
                if let Some(used) = file.used_for {
                    file.used_for = Some(
                        FileUsedFor { object_type: used.object_type, id: new_parent_id.to_owned() },
                    );
                }
                self.files.replace(i, file, Ghost(retargeted(new_parent_id@)));
                Ok(())
            },
            None => {
                proof {
                    table::lemma_mapped_none(
                        self.files@,
                        table::with_id::<File>(id@),
                        retargeted(new_parent_id@),
                    );
                }
                Err(Error::NotFound)
            },
        }
    }

    /// Marks a file as reported.
    pub fn mark_attachment_as_reported(&mut self, id: &str) -> (r: Result<(), Error>)
        requires
            old(self).wf(),
        ensures
            final(self).wf(),
            *final(self) == (ReferenceDb { files: final(self).files, ..*old(self) }),
            r == found_or_not(table::has_id::<File>(old(self).files@, id@)),
            final(self).files@ == table::mapped(
                old(self).files@,
                table::with_id::<File>(id@),
                marked_reported(),
            ),
    {
        match self.files.position(id) {
            Some(i) => {
                let mut file = self.files.get(i);
                file.reported = Some(true);
                self.files.replace(i, file, Ghost(marked_reported()));
                Ok(())
            },
            None => {
                proof {
                    table::lemma_mapped_none(
                        self.files@,
                        table::with_id::<File>(id@),
                        marked_reported(),
                    );
                }
                Err(Error::NotFound)
            },
        }
    }

    /// Marks a file as deleted.
    pub fn mark_attachment_as_deleted(&mut self, id: &str) -> (r: Result<(), Error>)
        requires
            old(self).wf(),
        ensures
            final(self).wf(),
            *final(self) == (ReferenceDb { files: final(self).files, ..*old(self) }),
            r == found_or_not(table::has_id::<File>(old(self).files@, id@)),
            final(self).files@ == table::mapped(
                old(self).files@,
                table::with_id::<File>(id@),
                marked_deleted(),
            ),
    {
        match self.files.position(id) {
            Some(i) => {
                let mut file = self.files.get(i);
                file.deleted = Some(true);
                self.files.replace(i, file, Ghost(marked_deleted()));
                Ok(())
            },
            None => {
                proof {
                    table::lemma_mapped_none(
                        self.files@,
                        table::with_id::<File>(id@),
                        marked_deleted(),
                    );
                }
                Err(Error::NotFound)
            },
        }
    }

    /// Marks those files of a list that exist as deleted.
    pub(crate) fn mark_existing_as_deleted(&mut self, ids: &Vec<String>)
        requires
            old(self).wf(),
        ensures
            final(self).wf(),
            *final(self) == (ReferenceDb { files: final(self).files, ..*old(self) }),
            final(self).files@ == table::mapped(
                old(self).files@,
                id_among(text::texts(ids@)),
                marked_deleted(),
            ),
    {
        let ghost first = self.files@;
        let ghost all = text::texts(ids@);
        let mut i: usize = 0;
        assert(self.files@ =~= table::mapped(first, id_among(all.take(0)), marked_deleted()));
        while i < ids.len()
            invariant
                i <= ids.len(),
                all == text::texts(ids@),
                self.wf(),
                *self == (ReferenceDb { files: self.files, ..*old(self) }),
                self.files@ == table::mapped(first, id_among(all.take(i as int)), marked_deleted()),
            decreases ids.len() - i,
        {
            let ghost before = self.files@;
            let marked = self.mark_attachment_as_deleted(ids[i].as_str());
            proof {
                let id = all[i as int];
                let grown = all.take(i + 1);
                let now = table::mapped(first, id_among(all.take(i + 1)), marked_deleted());
                assert forall|k: int| 0 <= k < now.len() implies #[trigger] self.files@[k] == now[k] by {
                    let f = first[k];
                    assert(grown =~= all.take(i as int).push(id));
                    if all.take(i as int).contains(f.id) {
                        let w = choose|w: int| 0 <= w < i && all.take(i as int)[w] == f.id;
                        assert(grown[w] == f.id);
                    }
                    if f.id == id {
                        assert(grown[i as int] == f.id);
                    }
                    if grown.contains(f.id) && f.id != id {
                        let w = choose|w: int| 0 <= w < grown.len() && grown[w] == f.id;
                        assert(all.take(i as int)[w] == f.id);
                    }
                }
                assert(self.files@ =~= now);
            }
            i = i + 1;
        }
        assert(all.take(i as int) =~= all);
    }

    /// Marks several files as deleted; all of them must exist.
    pub fn mark_attachments_as_deleted(&mut self, ids: &Vec<String>) -> (r: Result<(), Error>)
        requires
            old(self).wf(),
        ensures
            final(self).wf(),
            *final(self) == (ReferenceDb { files: final(self).files, ..*old(self) }),
            if all_exist(old(self).files@, text::texts(ids@)) {
                r == Ok::<(), Error>(()) && final(self).files@ == table::mapped(
                    old(self).files@,
                    id_among(text::texts(ids@)),
                    marked_deleted(),
                )
            } else {
                r == Err::<(), Error>(Error::NotFound) && final(self).files@ == old(self).files@
            },
    {
        let mut i: usize = 0;
        while i < ids.len()
            invariant
                i <= ids.len(),
                *self == *old(self),
                self.wf(),
                forall|j: int|
                    0 <= j < i ==> table::has_id::<File>(
                        self.files@,
                        #[trigger] text::texts(ids@)[j],
                    ),
            decreases ids.len() - i,
        {
            if !self.files.contains_id(ids[i].as_str()) {
                assert(!table::has_id::<File>(self.files@, text::texts(ids@)[i as int]));
                return Err(Error::NotFound);
            }
            i = i + 1;
        }
        self.mark_existing_as_deleted(ids);
        Ok(())
    }

    /// Removes a file's entry.
    pub fn delete_attachment(&mut self, id: &str) -> (r: Result<(), Error>)
        requires
            old(self).wf(),
        ensures
            final(self).wf(),
            *final(self) == (ReferenceDb { files: final(self).files, ..*old(self) }),
            r == found_or_not(table::has_id::<File>(old(self).files@, id@)),
            final(self).files@ == old(self).files@.filter(table::without_id::<File>(id@)),
    {
        if self.files.delete(id) {
            Ok(())
        } else {
            Err(Error::NotFound)
        }
    }
}

/// Whether every id of a list is that of a file.
pub open spec fn all_exist(files: Seq<FileView>, ids: Seq<Seq<char>>) -> bool {
    forall|j: int| 0 <= j < ids.len() ==> table::has_id::<File>(files, #[trigger] ids[j])
}

/// A claimed file cannot be claimed again, under any tag: claiming is once.
pub proof fn law_claimed_once(
    files: Seq<FileView>,
    id: Seq<char>,
    tag: Seq<char>,
    object_type: FileUsedForType,
    object: Seq<char>,
    uploader: Seq<char>,
    other_tag: Seq<char>,
)
    requires
        table::keyed::<File>(files),
        claimable(files, id, tag),
    ensures
        !claimable(
            table::mapped(files, table::with_id::<File>(id), claimed(object_type, object, uploader)),
            id,
            other_tag,
        ),
{
    let f = claimed(object_type, object, uploader);
    let q = table::with_id::<File>(id);
    let after = table::mapped(files, q, f);
    table::lemma_first_row_matches(files, q);
    table::lemma_keyed_mapped::<File>(files, q, f);
    table::lemma_keyed_row::<File>(after, id, table::first_row(files, q));
}

/// A reported file is never swept.
pub proof fn law_reported_files_stay(files: Seq<FileView>, f: FileView)
    ensures
        files.filter(to_sweep()).contains(f) ==> !set_true(f.reported),
{
    table::lemma_filter_members(files, to_sweep(), f);
}

} // verus!
