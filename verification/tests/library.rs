use vortex::error::AppError;
use vortex::models::db::libraries::{LibraryRow, LibraryType};
use vortex::services::library_service::{
    attach_media, browse_entry, browse_targets, contains_dot_dot, hydrate, pick_existing,
    primary_path, sort_entries, BrowseTargets, FileSystemEntry,
};

fn entry(name: &str, is_dir: bool) -> FileSystemEntry {
    FileSystemEntry { name: name.to_string(), path: name.to_string(), is_directory: is_dir, media_id: None, poster_url: None }
}

#[test]
fn library_rows_and_paths() {
    let row = LibraryRow { id: 3, name: "Films".to_string(), library_type: LibraryType::Movies, default_reading_mode: None };
    let lib = hydrate(row, vec!["/a".to_string(), "/b".to_string()]);
    assert_eq!(lib.id, 3);
    assert_eq!(lib.name, "Films");
    assert_eq!(lib.paths, vec!["/a".to_string(), "/b".to_string()]);
    assert_eq!(primary_path(&lib.paths), "/a");
    assert_eq!(primary_path(&vec![]), "");
}

#[test]
fn browse_requests() {
    let roots = vec!["/m1".to_string(), "/m2".to_string()];
    assert!(contains_dot_dot("a/../b"));
    assert!(!contains_dot_dot("a/./b"));
    match browse_targets(&roots, Some("../etc".to_string())) {
        Err(AppError::BadRequest(m)) => assert_eq!(m, "Invalid path"),
        _ => panic!("expected a refusal"),
    }
    match browse_targets(&vec![], Some("../etc".to_string())) {
        Ok(BrowseTargets::All(v)) => assert!(v.is_empty()),
        _ => panic!("expected nothing to read"),
    }
    match browse_targets(&roots, None) {
        Ok(BrowseTargets::All(v)) => assert_eq!(
            v,
            vec![("/m1".to_string(), "/m1".to_string()), ("/m2".to_string(), "/m2".to_string())]
        ),
        _ => panic!("expected all roots"),
    }
    match browse_targets(&roots, Some("Films/2020".to_string())) {
        Ok(BrowseTargets::FirstExisting(v)) => assert_eq!(
            v,
            vec![
                ("/m1/Films/2020".to_string(), "/m1".to_string()),
                ("/m2/Films/2020".to_string(), "/m2".to_string())
            ]
        ),
        _ => panic!("expected candidates"),
    }
    match browse_targets(&roots, Some("/etc".to_string())) {
        Ok(BrowseTargets::FirstExisting(v)) => assert!(v.is_empty()),
        _ => panic!("expected no candidates"),
    }
    let cands = vec![("/m1/x".to_string(), "/m1".to_string()), ("/m2/x".to_string(), "/m2".to_string())];
    assert_eq!(pick_existing(&cands, &vec![false, true]).unwrap(), ("/m2/x".to_string(), "/m2".to_string()));
    match pick_existing(&cands, &vec![false, false]) {
        Err(AppError::BadRequest(m)) => assert_eq!(m, "Path outside library root"),
        _ => panic!("expected a refusal"),
    }
}

#[test]
fn listing_entries() {
    assert!(browse_entry(".hidden", "/m1/.hidden", true, "/m1").is_none());
    let (e, abs) = browse_entry("film.MKV", "/m1/Films/film.MKV", false, "/m1").unwrap();
    assert_eq!(e.name, "film.MKV");
    assert_eq!(e.path, "Films/film.MKV");
    assert!(!e.is_directory);
    assert_eq!(abs.as_deref(), Some("/m1/Films/film.MKV"));
    let (d, abs) = browse_entry("Films", "/m1/Films", true, "/m1").unwrap();
    assert_eq!(d.path, "Films");
    assert!(abs.is_none());
    let (t, abs) = browse_entry("notes.txt", "/m1/notes.txt", false, "/m1").unwrap();
    assert_eq!(t.path, "notes.txt");
    assert!(abs.is_none());
    let (w, _) = browse_entry("a.mp4", "/m1/sub\\a.mp4", false, "/m1").unwrap();
    assert_eq!(w.path, "sub/a.mp4");
}

#[test]
fn media_is_attached_by_path() {
    let entries = vec![entry("a.mkv", false), entry("dir", true), entry("b.mkv", false)];
    let abs = vec![Some("/m/a.mkv".to_string()), None, Some("/m/b.mkv".to_string())];
    let results = vec![
        (1, "/m/a.mkv".to_string(), Some("p1".to_string())),
        (2, "/m/a.mkv".to_string(), None),
        (9, "/m/other.mkv".to_string(), None),
    ];
    let out = attach_media(entries, &abs, &results);
    assert_eq!(out[0].media_id, Some(2));
    assert_eq!(out[0].poster_url, None);
    assert_eq!(out[1].media_id, None);
    assert_eq!(out[2].media_id, None);
    assert_eq!(out[2].name, "b.mkv");
}

#[test]
fn listing_order_directories_first() {
    let sorted = sort_entries(vec![
        entry("b.mkv", false),
        entry("Zeta", true),
        entry("a.mkv", false),
        entry("Alpha", true),
        entry("B.mkv", false),
    ]);
    let names: Vec<&str> = sorted.iter().map(|e| e.name.as_str()).collect();
    assert_eq!(names, vec!["Alpha", "Zeta", "B.mkv", "a.mkv", "b.mkv"]);
}
