use std::cmp::Ordering;
use vortex::error::AppError;
use vortex::services::book_service::{check_reading_mode, is_valid_reading_mode, resolve_reading_mode, DEFAULT_READING_MODE};
use vortex::services::books::{cbz_image_names, cbz_page_entry, detect, format_from_extension, image_mime, natural_cmp, BookFormat};

#[test]
fn natural_order_compares_digit_runs_by_value() {
    assert_eq!(natural_cmp("2", "10"), Ordering::Less);
    assert_eq!(natural_cmp("page10.jpg", "page2.jpg"), Ordering::Greater);
    assert_eq!(natural_cmp("page002.jpg", "page2.jpg"), Ordering::Equal);
    assert_eq!(natural_cmp("Page1", "page1"), Ordering::Equal);
    assert_eq!(natural_cmp("a", "ab"), Ordering::Less);
    assert_eq!(natural_cmp("", ""), Ordering::Equal);
    assert_eq!(natural_cmp("b", "A"), Ordering::Greater);
    assert_eq!(natural_cmp("x9y", "x10a"), Ordering::Less);
}

#[test]
fn natural_order_is_antisymmetric_on_examples() {
    let names = ["1.png", "01.png", "10.png", "2.PNG", "a.png", "B.png"];
    for a in names.iter() {
        for b in names.iter() {
            assert_eq!(natural_cmp(a, b), natural_cmp(b, a).reverse());
        }
        assert_eq!(natural_cmp(a, a), Ordering::Equal);
    }
}

#[test]
fn book_formats() {
    assert_eq!(detect("/books/Comic.CBZ"), Some(BookFormat::Cbz));
    assert_eq!(detect("novel.epub"), Some(BookFormat::Epub));
    assert_eq!(detect("paper.pdf"), Some(BookFormat::Pdf));
    assert_eq!(detect("notes.txt"), None);
    assert_eq!(detect("noext"), None);
    assert_eq!(format_from_extension("pdf"), Some(BookFormat::Pdf));
    assert_eq!(BookFormat::Cbz.as_str(), "cbz");
    assert_eq!(BookFormat::Pdf.as_str(), "pdf");
    assert_eq!(BookFormat::Epub.as_str(), "epub");
}

#[test]
fn page_image_types() {
    assert_eq!(image_mime("p1.JPG"), Some("image/jpeg"));
    assert_eq!(image_mime("p1.jpeg"), Some("image/jpeg"));
    assert_eq!(image_mime("p1.png"), Some("image/png"));
    assert_eq!(image_mime("p1.gif"), Some("image/gif"));
    assert_eq!(image_mime("p1.webp"), Some("image/webp"));
    assert_eq!(image_mime("p1.bmp"), Some("image/bmp"));
    assert_eq!(image_mime("ComicInfo.xml"), None);
}

#[test]
fn cbz_pages_are_sorted_naturally() {
    let entries = vec![
        ("ch1/10.jpg".to_string(), false),
        ("ch1/".to_string(), true),
        ("ch1/2.jpg".to_string(), false),
        ("ComicInfo.xml".to_string(), false),
        ("ch1/1.png".to_string(), false),
    ];
    let names = cbz_image_names(entries);
    assert_eq!(names, vec!["ch1/1.png".to_string(), "ch1/2.jpg".to_string(), "ch1/10.jpg".to_string()]);
    let (name, mime) = cbz_page_entry(&names, 2).unwrap();
    assert_eq!(name, "ch1/10.jpg");
    assert_eq!(mime, "image/jpeg");
    match cbz_page_entry(&names, 5) {
        Err(AppError::NotFound(m)) => assert_eq!(m, "Page 5 not found"),
        other => panic!("unexpected {:?}", other),
    }
}

#[test]
fn reading_modes() {
    assert!(is_valid_reading_mode("vertical"));
    assert!(is_valid_reading_mode("horizontal_rtl"));
    assert!(is_valid_reading_mode("webtoon"));
    assert!(!is_valid_reading_mode("Vertical"));
    assert_eq!(DEFAULT_READING_MODE, "vertical");
    assert_eq!(resolve_reading_mode(Some("webtoon"), Some("horizontal_ltr")), "webtoon");
    assert_eq!(resolve_reading_mode(Some("bogus"), Some("horizontal_ltr")), "horizontal_ltr");
    assert_eq!(resolve_reading_mode(None, Some("bogus")), "vertical");
    assert_eq!(resolve_reading_mode(None, None), "vertical");
    assert!(check_reading_mode("vertical").is_ok());
    match check_reading_mode("sideways") {
        Err(AppError::BadRequest(m)) => assert_eq!(m, "Invalid reading mode: sideways"),
        other => panic!("unexpected {:?}", other),
    }
}

#[test]
fn detect_round_trips_format_names() {
    for f in [BookFormat::Cbz, BookFormat::Pdf, BookFormat::Epub] {
        for stem in ["book", "vol.1", "a b"] {
            assert_eq!(detect(&format!("{}.{}", stem, f.as_str())), Some(f));
            assert_eq!(detect(&format!("{}.{}", stem, f.as_str().to_uppercase())), Some(f));
        }
    }
    assert_eq!(detect(".cbz"), None);
    assert_eq!(detect("book"), None);
}
