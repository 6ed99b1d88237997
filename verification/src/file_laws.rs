//! What holds of every uploaded file.
use crate::files::{self, File, FileHash, FileUsedForType, FileView};
use crate::table;
use vstd::prelude::*;

verus! {

/// What a file being claimable means for the rows.
pub proof fn lemma_claimable(list: Seq<FileView>, id: Seq<char>, tag: Seq<char>)
    requires
        table::keyed::<File>(list),
    ensures
        files::claimable(list, id, tag) <==> exists|i: int|
            0 <= i < list.len() && (#[trigger] list[i]).id == id && list[i].tag == tag
                && list[i].used_for is None,
{
    let q = table::with_id::<File>(id);
    if files::claimable(list, id, tag) {
        table::lemma_first_row_matches(list, q);
        assert(list[table::first_row(list, q)].id == id);
    }
    if exists|i: int|
        0 <= i < list.len() && (#[trigger] list[i]).id == id && list[i].tag == tag
            && list[i].used_for is None {
        let i = choose|i: int|
            0 <= i < list.len() && (#[trigger] list[i]).id == id && list[i].tag == tag
                && list[i].used_for is None;
        table::lemma_keyed_row::<File>(list, id, i);
    }
}

/// A file can be claimed exactly where it was uploaded under the tag and nothing uses it.
pub proof fn law_unused_files_can_be_claimed(
    list: Seq<FileView>,
    id: Seq<char>,
    tag: Seq<char>,
    i: int,
)
    requires
        table::keyed::<File>(list),
        0 <= i < list.len(),
        list[i].id == id,
    ensures
        files::claimable(list, id, tag) <==> list[i].tag == tag && list[i].used_for is None,
{
    table::lemma_keyed_row::<File>(list, id, i);
}

/// A claimed file belongs to the object and the uploader it was claimed for, is no longer
/// dangling, and is else as it was.
pub proof fn law_claimed_file_is_used(
    f: FileView,
    object_type: FileUsedForType,
    object: Seq<char>,
    uploader: Seq<char>,
)
    ensures
        ({
            let c = files::claimed(object_type, object, uploader)(f);
            &&& c.used_for == Some((object_type, object))
            &&& c.uploader_id == Some(uploader)
            &&& !files::dangling()(c)
            &&& c.id == f.id && c.tag == f.tag && c.filename == f.filename && c.hash == f.hash
                && c.uploaded_at == f.uploaded_at && c.deleted == f.deleted && c.reported
                == f.reported && c.metadata == f.metadata && c.content_type == f.content_type
                && c.size == f.size
        }),
{
}

/// Pointing a used file at another object changes the object and nothing else; a file that
/// nothing uses stays unused.
pub proof fn law_retargeting_changes_the_object(f: FileView, parent: Seq<char>)
    ensures
        ({
            let c = files::retargeted(parent)(f);
            &&& f.used_for matches Some(u) ==> c.used_for == Some((u.0, parent))
            &&& f.used_for is None ==> c.used_for is None
            &&& c.id == f.id && c.tag == f.tag && c.hash == f.hash && c.uploader_id
                == f.uploader_id && c.deleted == f.deleted && c.reported == f.reported && c.size
                == f.size
        }),
{
}

/// A file marked as deleted is swept unless it was reported, and is neither dangling nor
/// a large attachment any longer. A reported one is never swept. The marks change nothing
/// else.
pub proof fn law_marks_decide_what_is_swept(f: FileView, min_size: usize)
    ensures
        ({
            let gone = files::marked_deleted()(f);
            let told = files::marked_reported()(f);
            &&& files::to_sweep()(gone) <==> f.reported != Some(true)
            &&& !files::to_sweep()(told)
            &&& !files::dangling()(gone)
            &&& !files::large_attachment(min_size)(gone)
            &&& files::to_sweep()(f) <==> f.deleted == Some(true) && f.reported != Some(true)
            &&& files::dangling()(f) <==> f.used_for is None && f.deleted != Some(true)
            &&& files::large_attachment(min_size)(f) <==> f.used_for is Some
                && f.used_for->Some_0.0 == FileUsedForType::Message && f.size > min_size
                && f.deleted != Some(true)
            &&& gone.used_for == f.used_for && gone.id == f.id && gone.reported == f.reported
                && gone.hash == f.hash
            &&& told.used_for == f.used_for && told.id == f.id && told.deleted == f.deleted
                && told.hash == f.hash
        }),
{
}

/// A file that comes of an upload has the hash, the type, the size and the contents of what
/// was uploaded, under the name and by the user of the upload; nothing uses it yet.
pub proof fn law_uploaded_file_is_unused(
    hash: FileHash,
    id: Seq<char>,
    tag: Seq<char>,
    filename: Seq<char>,
    uploader: Seq<char>,
    now: i64,
)
    ensures
        ({
            let f = hash.file_made(id, tag, filename, uploader, now);
            &&& f.id == id && f.tag == tag && f.filename == filename
            &&& f.hash == Some(hash.id@)
            &&& f.uploaded_at == Some(now) && f.uploader_id == Some(uploader)
            &&& f.content_type == hash.content_type@ && f.size == hash.size && f.metadata
                == hash.metadata@
            &&& f.used_for is None && f.deleted is None && f.reported is None
            &&& files::dangling()(f)
            &&& files::of_hash(hash.id@)(f)
        }),
{
}

/// Marking the files of a list marks exactly those; for all of them to be there every one
/// has to be.
pub proof fn law_files_of_a_list_are_marked(list: Seq<FileView>, ids: Seq<Seq<char>>, i: int)
    requires
        0 <= i < list.len(),
    ensures
        ids.contains(list[i].id) ==> table::mapped(
            list,
            files::id_among(ids),
            files::marked_deleted(),
        )[i].deleted == Some(true),
        !ids.contains(list[i].id) ==> table::mapped(
            list,
            files::id_among(ids),
            files::marked_deleted(),
        )[i] == list[i],
        files::all_exist(list, ids) <==> forall|j: int|
            0 <= j < ids.len() ==> exists|k: int|
                0 <= k < list.len() && (#[trigger] list[k]).id == #[trigger] ids[j],
{
    if files::all_exist(list, ids) {
        assert forall|j: int| 0 <= j < ids.len() implies exists|k: int|
            0 <= k < list.len() && (#[trigger] list[k]).id == #[trigger] ids[j] by {
            assert(table::has_id::<File>(list, ids[j]));
            let q = table::with_id::<File>(ids[j]);
            table::lemma_first_row_matches(list, q);
            assert(list[table::first_row(list, q)].id == ids[j]);
        }
    }
    if forall|j: int|
        0 <= j < ids.len() ==> exists|k: int|
            0 <= k < list.len() && (#[trigger] list[k]).id == #[trigger] ids[j] {
        assert forall|j: int| 0 <= j < ids.len() implies table::has_id::<File>(
            list,
            #[trigger] ids[j],
        ) by {
            let k = choose|k: int| 0 <= k < list.len() && (#[trigger] list[k]).id == ids[j];
            assert(table::with_id::<File>(ids[j])(list[k]));
        }
    }
}

/// Files are found by their hash.
pub proof fn law_files_are_found_by_hash(list: Seq<FileView>, hash: Seq<char>, f: FileView)
    ensures
        list.filter(files::of_hash(hash)).contains(f) <==> list.contains(f) && f.hash == Some(
            hash,
        ),
{
    table::lemma_filter_members(list, files::of_hash(hash), f);
}

} // verus!
