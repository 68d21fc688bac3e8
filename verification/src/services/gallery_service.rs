//! Photo albums (galleries) of an Images library, and where each photo
//! stands: in an album, ungrouped, or in the recycle bin.
//!
//! The database keeps, for each photo, its album, the album it was removed
//! from, and whether it is in the recycle bin. The operations on a photo are
//! stated here as steps from one such place to the next.

use vstd::prelude::*;
use crate::error::AppError;
use crate::number::{int_str, push_i64};
use crate::text::{
    append_chars, append_str, chars_eq_str, chars_of, contains_seq, str_contains,
    string_from_chars, trim_chars, trimmed,
};

verus! {

/// The name a gallery gets: the trimmed name, which must not be blank.
pub fn gallery_name_checked(name: &str) -> (r: Result<String, AppError>)
    ensures
        r is Ok <==> trimmed(name@).len() > 0,
        r matches Ok(n) ==> n@ == trimmed(name@),
        r matches Err(e) ==> (e matches AppError::BadRequest(m) && m@
            == "Gallery name cannot be empty"@),
{
    let cs = chars_of(name);
    let t = trim_chars(cs.as_slice());
    if t.len() == 0 {
        return Err(AppError::BadRequest(String::from_str("Gallery name cannot be empty")));
    }
    Ok(string_from_chars(t.as_slice()))
}

/// The new name of an edited gallery: none when the name is left
/// unchanged, else the trimmed name, which must not be blank.
pub fn gallery_rename_checked(name: Option<&str>) -> (r: Result<Option<String>, AppError>)
    ensures
        name is None ==> (r matches Ok(n) && n is None),
        name matches Some(s) ==> {
            &&& (r is Ok <==> trimmed(s@).len() > 0)
            &&& (r matches Ok(n) ==> (n matches Some(t) && t@ == trimmed(s@)))
            &&& (r matches Err(e) ==> (e matches AppError::BadRequest(m) && m@
                == "Gallery name cannot be empty"@))
        },
{
    match name {
        None => Ok(None),
        Some(s) => match gallery_name_checked(s) {
            Ok(t) => Ok(Some(t)),
            Err(e) => Err(e),
        },
    }
}

/// Whether a gallery can be made in the library whose stored type is
/// `library_type` (`None`: there is no such library): only in an Images
/// library.
pub fn check_images_library(library_id: i64, library_type: Option<&str>) -> (r: Result<(), AppError>)
    ensures
        library_type is None ==> (r matches Err(AppError::LibraryNotFound(id)) && id == library_id),
        library_type matches Some(t) ==> {
            &&& (r is Ok <==> t@ == "images"@)
            &&& (r matches Err(e) ==> (e matches AppError::BadRequest(m) && m@
                == "Library is not an Images library"@))
        },
{
    match library_type {
        None => Err(AppError::LibraryNotFound(library_id)),
        Some(t) => {
            let cs = chars_of(t);
            if chars_eq_str(cs.as_slice(), "images") {
                Ok(())
            } else {
                Err(AppError::BadRequest(String::from_str("Library is not an Images library")))
            }
        },
    }
}

/// The message for a gallery name already in use.
pub open spec fn name_taken_message(name: Seq<char>) -> Seq<char> {
    "A gallery named '"@ + name + "' already exists"@
}

/// Whether a new gallery may take `name`, given the id of a gallery of the
/// library that already has it (`None`: none has).
pub fn check_name_free(name: &str, existing: Option<i64>) -> (r: Result<(), AppError>)
    ensures
        r is Ok <==> existing is None,
        r matches Err(e) ==> (e matches AppError::BadRequest(m) && m@ == name_taken_message(name@)),
{
    match existing {
        None => Ok(()),
        Some(_) => {
            let mut out: Vec<char> = Vec::new();
            append_str(&mut out, "A gallery named '");
            append_str(&mut out, name);
            append_str(&mut out, "' already exists");
            assert(out@ =~= name_taken_message(name@));
            Err(AppError::BadRequest(string_from_chars(out.as_slice())))
        },
    }
}

/// The error an edit that fails with the database's message `message`
/// reports as a refused request: a UNIQUE(library_id, name) collision.
pub fn rename_conflict(message: &str) -> (r: Option<AppError>)
    ensures
        r is Some <==> contains_seq(message@, "UNIQUE"@),
        r matches Some(e) ==> (e matches AppError::BadRequest(m) && m@
            == "A gallery with that name already exists"@),
{
    if str_contains(message, "UNIQUE") {
        Some(AppError::BadRequest(String::from_str("A gallery with that name already exists")))
    } else {
        None
    }
}

/// Where a photo stands.
#[derive(Debug, Clone, Copy, PartialEq, Eq, Structural)]
pub struct PhotoPlace {
    /// The album it is in.
    pub gallery_id: Option<i64>,
    /// The album it was removed from, while it is in the recycle bin.
    pub prev_gallery_id: Option<i64>,
    /// Whether it is in the recycle bin.
    pub trashed: bool,
}

/// The place of a photo removed from album `gallery_id`, if it is in it:
/// in the recycle bin, remembering the album.
pub open spec fn removed(place: PhotoPlace, gallery_id: i64) -> Option<PhotoPlace> {
    if place.gallery_id == Some(gallery_id) {
        Some(PhotoPlace { gallery_id: None, prev_gallery_id: Some(gallery_id), trashed: true })
    } else {
        None
    }
}

/// The place of a restored photo, if it is in the recycle bin: back in the
/// album it was removed from (ungrouped if that is gone).
pub open spec fn restored(place: PhotoPlace) -> Option<PhotoPlace> {
    if place.trashed {
        Some(PhotoPlace { gallery_id: place.prev_gallery_id, prev_gallery_id: None, trashed: false })
    } else {
        None
    }
}

/// The place of a photo assigned to album `gallery_id`: in it, and out of
/// the recycle bin.
pub open spec fn assigned(gallery_id: i64) -> PhotoPlace {
    PhotoPlace { gallery_id: Some(gallery_id), prev_gallery_id: None, trashed: false }
}

/// The place of a photo edited with album `gallery_id` (`None`: the album
/// is left as it is).
pub open spec fn edited(place: PhotoPlace, gallery_id: Option<i64>) -> PhotoPlace {
    match gallery_id {
        Some(g) => assigned(g),
        None => place,
    }
}

/// The place of a photo once album `gallery_id` is deleted: every
/// reference to the album is cleared.
pub open spec fn after_album_deleted(place: PhotoPlace, gallery_id: i64) -> PhotoPlace {
    PhotoPlace {
        gallery_id: if place.gallery_id == Some(gallery_id) {
            None
        } else {
            place.gallery_id
        },
        prev_gallery_id: if place.prev_gallery_id == Some(gallery_id) {
            None
        } else {
            place.prev_gallery_id
        },
        trashed: place.trashed,
    }
}

/// The message for a photo that is not in an album.
pub open spec fn not_in_gallery_message(item_id: i64, gallery_id: i64) -> Seq<char> {
    "Image "@ + int_str(item_id as int) + " not found in gallery "@ + int_str(gallery_id as int)
}

/// The message for a photo that is not in the recycle bin.
pub open spec fn not_in_trash_message(item_id: i64) -> Seq<char> {
    "Image "@ + int_str(item_id as int) + " not found in the recycle bin"@
}

/// The message for a missing photo.
pub open spec fn photo_missing_message(item_id: i64) -> Seq<char> {
    "Image "@ + int_str(item_id as int) + " not found"@
}

/// `"Image <id>"` followed by `tail`.
fn image_message(item_id: i64, tail: &[char]) -> (r: String)
    ensures
        r@ == "Image "@ + int_str(item_id as int) + tail@,
{
    let mut out: Vec<char> = Vec::new();
    append_str(&mut out, "Image ");
    push_i64(&mut out, item_id);
    append_chars(&mut out, tail);
    string_from_chars(out.as_slice())
}

/// Removes photo `item_id` (at `place`; `None`: no such photo) from album
/// `gallery_id` into the recycle bin.
pub fn remove_image(place: Option<PhotoPlace>, gallery_id: i64, item_id: i64) -> (r: Result<
    PhotoPlace,
    AppError,
>)
    ensures
        match place {
            Some(p) => match removed(p, gallery_id) {
                Some(q) => r == Ok::<PhotoPlace, AppError>(q),
                None => r matches Err(AppError::NotFound(m)) && m@ == not_in_gallery_message(
                    item_id,
                    gallery_id,
                ),
            },
            None => r matches Err(AppError::NotFound(m)) && m@ == not_in_gallery_message(
                item_id,
                gallery_id,
            ),
        },
{
    match place {
        Some(p) => {
            match p.gallery_id {
                Some(g) => {
                    if g == gallery_id {
                        return Ok(
                            PhotoPlace {
                                gallery_id: None,
                                prev_gallery_id: Some(gallery_id),
                                trashed: true,
                            },
                        );
                    }
                },
                None => {},
            }
        },
        None => {},
    }
    let mut tail: Vec<char> = Vec::new();
    append_str(&mut tail, " not found in gallery ");
    push_i64(&mut tail, gallery_id);
    let m = image_message(item_id, tail.as_slice());
    assert(m@ =~= not_in_gallery_message(item_id, gallery_id));
    Err(AppError::NotFound(m))
}

/// Restores photo `item_id` (at `place`; `None`: no such photo) out of the
/// recycle bin.
pub fn restore_image(place: Option<PhotoPlace>, item_id: i64) -> (r: Result<PhotoPlace, AppError>)
    ensures
        match place {
            Some(p) => match restored(p) {
                Some(q) => r == Ok::<PhotoPlace, AppError>(q),
                None => r matches Err(AppError::NotFound(m)) && m@ == not_in_trash_message(item_id),
            },
            None => r matches Err(AppError::NotFound(m)) && m@ == not_in_trash_message(item_id),
        },
{
    match place {
        Some(p) => {
            if p.trashed {
                return Ok(
                    PhotoPlace { gallery_id: p.prev_gallery_id, prev_gallery_id: None, trashed: false },
                );
            }
        },
        None => {},
    }
    let tail = chars_of(" not found in the recycle bin");
    let m = image_message(item_id, tail.as_slice());
    Err(AppError::NotFound(m))
}

/// Whether photo `item_id` (at `place`; `None`: no such photo) may be
/// deleted for good: only from the recycle bin.
pub fn check_purge(place: Option<PhotoPlace>, item_id: i64) -> (r: Result<(), AppError>)
    ensures
        r is Ok <==> (place matches Some(p) && p.trashed),
        r matches Err(e) ==> (e matches AppError::NotFound(m) && m@ == not_in_trash_message(item_id)),
{
    match place {
        Some(p) => {
            if p.trashed {
                return Ok(());
            }
        },
        None => {},
    }
    let tail = chars_of(" not found in the recycle bin");
    Err(AppError::NotFound(image_message(item_id, tail.as_slice())))
}

/// Edits photo `item_id` (at `place`; `None`: no such photo): giving an
/// album moves it there and out of the recycle bin.
pub fn update_image(place: Option<PhotoPlace>, item_id: i64, gallery_id: Option<i64>) -> (r: Result<
    PhotoPlace,
    AppError,
>)
    ensures
        match place {
            Some(p) => r == Ok::<PhotoPlace, AppError>(edited(p, gallery_id)),
            None => r matches Err(AppError::NotFound(m)) && m@ == photo_missing_message(item_id),
        },
{
    match place {
        Some(p) => match gallery_id {
            Some(g) => Ok(PhotoPlace { gallery_id: Some(g), prev_gallery_id: None, trashed: false }),
            None => Ok(p),
        },
        None => {
            let tail = chars_of(" not found");
            Err(AppError::NotFound(image_message(item_id, tail.as_slice())))
        },
    }
}

/// The photos of a library to delete when its recycle bin is emptied: those
/// in the bin, in the given order.
pub open spec fn trashed_ids(photos: Seq<(i64, PhotoPlace)>) -> Seq<i64>
    decreases photos.len(),
{
    if photos.len() == 0 {
        Seq::empty()
    } else {
        let rest = trashed_ids(photos.drop_last());
        if photos.last().1.trashed {
            rest.push(photos.last().0)
        } else {
            rest
        }
    }
}

/// The ids of the photos in the recycle bin; their number is what emptying
/// the bin reports.
pub fn trash_to_purge(photos: &Vec<(i64, PhotoPlace)>) -> (r: Vec<i64>)
    ensures
        r@ == trashed_ids(photos@),
{
    let mut out: Vec<i64> = Vec::new();
    let mut i: usize = 0;
    while i < photos.len()
        invariant
            0 <= i <= photos@.len(),
            out@ == trashed_ids(photos@.take(i as int)),
        decreases photos@.len() - i,
    {
        assert(photos@.take(i + 1).drop_last() =~= photos@.take(i as int));
        if photos[i].1.trashed {
            out.push(photos[i].0);
        }
        i = i + 1;
    }
    assert(photos@.take(photos@.len() as int) =~= photos@);
    out
}

/// A photo removed from an album and then restored is back in that album,
/// out of the recycle bin.
pub proof fn remove_then_restore_returns_to_album(place: PhotoPlace, gallery_id: i64)
    requires
        place.gallery_id == Some(gallery_id),
    ensures
        removed(place, gallery_id) matches Some(q) && restored(q) == Some(assigned(gallery_id)),
{
}

/// A photo whose album was deleted while it was in the recycle bin is
/// restored ungrouped.
pub proof fn restore_after_album_deleted_is_ungrouped(place: PhotoPlace, gallery_id: i64)
    requires
        place.gallery_id == Some(gallery_id),
    ensures
        removed(place, gallery_id) matches Some(q) && restored(
            after_album_deleted(q, gallery_id),
        ) == Some(PhotoPlace { gallery_id: None, prev_gallery_id: None, trashed: false }),
{
}

/// Emptying the recycle bin deletes exactly the photos in it: every id it
/// deletes is that of a photo in the bin, and every photo in the bin is
/// deleted; a photo in an album, or ungrouped, never is.
pub proof fn only_trashed_photos_are_purged(photos: Seq<(i64, PhotoPlace)>)
    ensures
        forall|x: i64|
            #[trigger] trashed_ids(photos).contains(x) ==> exists|k: int|
                0 <= k < photos.len() && (#[trigger] photos[k]).1.trashed && photos[k].0 == x,
        forall|k: int|
            0 <= k < photos.len() && (#[trigger] photos[k]).1.trashed ==> trashed_ids(
                photos,
            ).contains(photos[k].0),
    decreases photos.len(),
{
    if photos.len() > 0 {
        let init = photos.drop_last();
        only_trashed_photos_are_purged(init);
        let rest = trashed_ids(init);
        assert forall|x: i64| #[trigger] trashed_ids(photos).contains(x) implies exists|k: int|
            0 <= k < photos.len() && (#[trigger] photos[k]).1.trashed && photos[k].0 == x by {
            if rest.contains(x) {
                let k = choose|k: int|
                    0 <= k < init.len() && (#[trigger] init[k]).1.trashed && init[k].0 == x;
                assert(photos[k] == init[k]);
            } else {
                let j = choose|j: int| 0 <= j < trashed_ids(photos).len() && trashed_ids(photos)[j] == x;
                if photos.last().1.trashed {
                    if j < rest.len() {
                        assert(rest[j] == x);
                        assert(rest.contains(x));
                    }
                }
                assert(photos[photos.len() - 1] == photos.last());
            }
        }
        assert forall|k: int|
            0 <= k < photos.len() && (#[trigger] photos[k]).1.trashed implies trashed_ids(
            photos,
        ).contains(photos[k].0) by {
            if k < init.len() {
                assert(photos[k] == init[k]);
                assert(rest.contains(init[k].0));
                let j = choose|j: int| 0 <= j < rest.len() && rest[j] == init[k].0;
                assert(trashed_ids(photos)[j] == rest[j]);
            } else {
                assert(trashed_ids(photos).last() == photos[k].0);
            }
        }
    }
}

/// The ids of `s` without repeats, each where it first occurs.
pub open spec fn first_occurrences(s: Seq<i64>) -> Seq<i64>
    decreases s.len(),
{
    if s.len() == 0 {
        Seq::empty()
    } else {
        let r = first_occurrences(s.drop_last());
        if r.contains(s.last()) {
            r
        } else {
            r.push(s.last())
        }
    }
}

/// The photos a batch move touches: each requested id once, in request
/// order, so that a repeated id is moved and counted once.
pub fn distinct_ids(ids: &[i64]) -> (r: Vec<i64>)
    ensures
        r@ == first_occurrences(ids@),
{
    let mut out: Vec<i64> = Vec::new();
    let mut i: usize = 0;
    while i < ids.len()
        invariant
            0 <= i <= ids@.len(),
            out@ == first_occurrences(ids@.take(i as int)),
        decreases ids@.len() - i,
    {
        assert(ids@.take(i + 1).drop_last() =~= ids@.take(i as int));
        assert(ids@.take(i + 1).last() == ids@[i as int]);
        let x = ids[i];
        let mut found = false;
        let mut j: usize = 0;
        while j < out.len()
            invariant
                0 <= j <= out@.len(),
                found <==> exists|k: int| 0 <= k < j && out@[k] == x,
            decreases out@.len() - j,
        {
            if out[j] == x {
                found = true;
            }
            j = j + 1;
        }
        assert(found <==> out@.contains(x));
        if !found {
            out.push(x);
        }
        i = i + 1;
    }
    assert(ids@.take(ids@.len() as int) =~= ids@);
    out
}

} // verus!
