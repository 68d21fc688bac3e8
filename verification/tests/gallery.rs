use vortex::error::AppError;
use vortex::services::gallery_service::{
    check_images_library, check_name_free, check_purge, distinct_ids, gallery_name_checked,
    gallery_rename_checked, remove_image, rename_conflict, restore_image, trash_to_purge,
    update_image, PhotoPlace,
};
use vortex::text::str_contains;
use vortex::services::playlists_service::{check_playlist_owner, playlist_name};

fn in_album(g: i64) -> PhotoPlace {
    PhotoPlace { gallery_id: Some(g), prev_gallery_id: None, trashed: false }
}

#[test]
fn gallery_names() {
    assert_eq!(gallery_name_checked("  Trip ").unwrap(), "Trip");
    match gallery_name_checked("   ") {
        Err(AppError::BadRequest(m)) => assert_eq!(m, "Gallery name cannot be empty"),
        other => panic!("unexpected {:?}", other),
    }
    assert_eq!(gallery_rename_checked(None).unwrap(), None);
    assert_eq!(gallery_rename_checked(Some(" New ")).unwrap().as_deref(), Some("New"));
    assert!(gallery_rename_checked(Some("")).is_err());
    match check_name_free("Trip", Some(4)) {
        Err(AppError::BadRequest(m)) => assert_eq!(m, "A gallery named 'Trip' already exists"),
        other => panic!("unexpected {:?}", other),
    }
    assert!(check_name_free("Trip", None).is_ok());
}

#[test]
fn galleries_only_in_images_libraries() {
    assert!(check_images_library(1, Some("images")).is_ok());
    match check_images_library(7, None) {
        Err(AppError::LibraryNotFound(id)) => assert_eq!(id, 7),
        other => panic!("unexpected {:?}", other),
    }
    match check_images_library(1, Some("movies")) {
        Err(AppError::BadRequest(m)) => assert_eq!(m, "Library is not an Images library"),
        other => panic!("unexpected {:?}", other),
    }
}

#[test]
fn unique_name_collisions_are_refused() {
    assert!(str_contains("UNIQUE constraint failed: galleries.name", "UNIQUE"));
    assert!(!str_contains("unique", "UNIQUE"));
    assert!(str_contains("abc", ""));
    match rename_conflict("UNIQUE constraint failed") {
        Some(AppError::BadRequest(m)) => assert_eq!(m, "A gallery with that name already exists"),
        other => panic!("unexpected {:?}", other),
    }
    assert!(rename_conflict("disk I/O error").is_none());
}

#[test]
fn remove_trashes_and_restore_returns_to_album() {
    assert!(check_images_library(1, Some("images")).is_ok());
    assert_eq!(gallery_name_checked("Trip").unwrap(), "Trip");
    let removed = remove_image(Some(in_album(5)), 5, 11).unwrap();
    assert_eq!(removed, PhotoPlace { gallery_id: None, prev_gallery_id: Some(5), trashed: true });
    let restored = restore_image(Some(removed), 11).unwrap();
    assert_eq!(restored, in_album(5));
    match remove_image(Some(in_album(6)), 5, 11) {
        Err(AppError::NotFound(m)) => assert_eq!(m, "Image 11 not found in gallery 5"),
        other => panic!("unexpected {:?}", other),
    }
    match restore_image(Some(in_album(5)), 11) {
        Err(AppError::NotFound(m)) => assert_eq!(m, "Image 11 not found in the recycle bin"),
        other => panic!("unexpected {:?}", other),
    }
}

#[test]
fn restore_after_album_deleted_lands_ungrouped() {
    let removed = remove_image(Some(in_album(5)), 5, 11).unwrap();
    // Deleting the album clears the stashed album (ON DELETE SET NULL).
    let after_delete = PhotoPlace { prev_gallery_id: None, ..removed };
    let restored = restore_image(Some(after_delete), 11).unwrap();
    assert_eq!(restored, PhotoPlace { gallery_id: None, prev_gallery_id: None, trashed: false });
}

#[test]
fn purge_only_removes_trashed_photos() {
    match check_purge(Some(in_album(5)), 3) {
        Err(AppError::NotFound(m)) => assert_eq!(m, "Image 3 not found in the recycle bin"),
        other => panic!("unexpected {:?}", other),
    }
    let removed = remove_image(Some(in_album(5)), 5, 4).unwrap();
    assert!(check_purge(Some(removed), 4).is_ok());
    assert!(check_purge(None, 4).is_err());
}

#[test]
fn empty_trash_purges_all_trashed() {
    let a = remove_image(Some(in_album(1)), 1, 10).unwrap();
    let b = remove_image(Some(in_album(1)), 1, 11).unwrap();
    let photos = vec![(10, a), (11, b), (12, in_album(1))];
    let gone = trash_to_purge(&photos);
    assert_eq!(gone, vec![10, 11]);
    assert_eq!(gone.len(), 2);
}

#[test]
fn moving_into_an_album_lifts_out_of_the_bin() {
    let removed = remove_image(Some(in_album(1)), 1, 10).unwrap();
    assert_eq!(update_image(Some(removed), 10, Some(2)).unwrap(), in_album(2));
    assert_eq!(update_image(Some(removed), 10, None).unwrap(), removed);
    match update_image(None, 10, Some(2)) {
        Err(AppError::NotFound(m)) => assert_eq!(m, "Image 10 not found"),
        other => panic!("unexpected {:?}", other),
    }
}

#[test]
fn playlist_rules() {
    assert!(check_playlist_owner(Some(3), 3).is_ok());
    match check_playlist_owner(Some(4), 3) {
        Err(AppError::Forbidden(m)) => assert_eq!(m, "Not your playlist"),
        other => panic!("unexpected {:?}", other),
    }
    match check_playlist_owner(None, 3) {
        Err(AppError::NotFound(m)) => assert_eq!(m, "Playlist not found"),
        other => panic!("unexpected {:?}", other),
    }
    assert_eq!(playlist_name("  Road trip ").unwrap(), "Road trip");
    match playlist_name(" \t ") {
        Err(AppError::BadRequest(m)) => assert_eq!(m, "Playlist name is required"),
        other => panic!("unexpected {:?}", other),
    }
}

#[test]
fn batch_moves_count_each_photo_once() {
    assert_eq!(distinct_ids(&[4, 2, 4, 7, 2]), vec![4, 2, 7]);
    assert_eq!(distinct_ids(&[]), Vec::<i64>::new());
    assert_eq!(distinct_ids(&[1, 1, 1]), vec![1]);
}
