use eleviewr::catalog::{Direction, ImageCatalog};
use eleviewr::errors::ViewerError;

fn listing(paths: &[&str]) -> Vec<String> {
    paths.iter().map(|p| p.to_string()).collect()
}

fn entries_of(c: &ImageCatalog) -> Vec<String> {
    let mut out = Vec::new();
    let mut i = 0;
    while i < c.len() {
        out.push(c.entry_at(i).clone());
        i += 1;
    }
    out
}

#[test]
fn scan_sorts_and_counts() {
    let files = listing(&["/pics/c.gif", "/pics/a.png", "/pics/b.jpg", "/pics/notes.txt"]);
    let c = ImageCatalog::scan(&files, None).unwrap();
    assert_eq!(c.len(), 3);
    assert_eq!(entries_of(&c), vec!["/pics/a.png", "/pics/b.jpg", "/pics/c.gif"]);
    assert!(c.cursor_position() < c.len());
    assert_eq!(c.cursor_position(), 0);
}

#[test]
fn scan_orders_prefixes_first() {
    let files = listing(&["/d/a1.png", "/d/a.png", "/d/a0.png"]);
    let c = ImageCatalog::scan(&files, None).unwrap();
    assert_eq!(entries_of(&c), vec!["/d/a.png", "/d/a0.png", "/d/a1.png"]);
}

#[test]
fn scan_is_case_insensitive_on_extensions() {
    let files = listing(&["/d/UPPER.PNG", "/d/mixed.JpEg", "/d/plain.webp", "/d/x.TIFF", "/d/y.BMP", "/d/z.GIF"]);
    let c = ImageCatalog::scan(&files, None).unwrap();
    assert_eq!(c.len(), 6);
}

#[test]
fn scan_skips_non_images_and_hidden_dotfiles() {
    let files = listing(&["/d/.png", "/d/readme", "/d/archive.tar", "/d/photo.jpg", "/d/trailingdot."]);
    let c = ImageCatalog::scan(&files, None).unwrap();
    assert_eq!(entries_of(&c), vec!["/d/photo.jpg"]);
}

#[test]
fn scan_with_no_matches_fails_empty() {
    let files = listing(&["/d/readme.md", "/d/code.rs"]);
    match ImageCatalog::scan(&files, None) {
        Err(ViewerError::EmptyCatalog) => {}
        other => panic!("expected EmptyCatalog, got {:?}", other.map(|c| c.len())),
    }
}

#[test]
fn scan_of_empty_listing_fails_empty() {
    let files: Vec<String> = Vec::new();
    assert!(matches!(ImageCatalog::scan(&files, None), Err(ViewerError::EmptyCatalog)));
}

#[test]
fn scan_selects_target_file() {
    let files = listing(&["/pics/c.gif", "/pics/a.png", "/pics/b.jpg"]);
    let target = "b.jpg".to_string();
    let c = ImageCatalog::scan(&files, Some(&target)).unwrap();
    assert_eq!(c.cursor_position(), 1);
    assert_eq!(c.current().unwrap(), "/pics/b.jpg");
}

#[test]
fn scan_with_missing_target_selects_front() {
    let files = listing(&["/pics/c.gif", "/pics/a.png"]);
    let target = "zz.png".to_string();
    let c = ImageCatalog::scan(&files, Some(&target)).unwrap();
    assert_eq!(c.cursor_position(), 0);
    assert_eq!(c.current().unwrap(), "/pics/a.png");
}

#[test]
fn advance_next_wraps_after_full_cycle() {
    let files = listing(&["/d/a.png", "/d/b.png", "/d/c.png", "/d/d.png"]);
    let mut c = ImageCatalog::scan(&files, None).unwrap();
    let start = c.cursor_position();
    for _ in 0..c.len() {
        c.advance(Direction::Next).unwrap();
    }
    assert_eq!(c.cursor_position(), start);
}

#[test]
fn advance_previous_inverts_next() {
    let files = listing(&["/d/a.png", "/d/b.png", "/d/c.png"]);
    let mut c = ImageCatalog::scan(&files, None).unwrap();
    for start in 0..3 {
        while c.cursor_position() != start {
            c.advance(Direction::Next).unwrap();
        }
        c.advance(Direction::Next).unwrap();
        c.advance(Direction::Previous).unwrap();
        assert_eq!(c.cursor_position(), start);
    }
}

#[test]
fn advance_wraps_both_ends() {
    let files = listing(&["/d/a.png", "/d/b.png", "/d/c.png"]);
    let mut c = ImageCatalog::scan(&files, None).unwrap();
    c.advance(Direction::Previous).unwrap();
    assert_eq!(c.cursor_position(), 2);
    c.advance(Direction::Next).unwrap();
    assert_eq!(c.cursor_position(), 0);
}

#[test]
fn advance_on_empty_fails() {
    let files = listing(&["/d/only.png"]);
    let mut c = ImageCatalog::scan(&files, None).unwrap();
    assert_eq!(c.delete_current(true).unwrap(), true);
    assert!(matches!(c.advance(Direction::Next), Err(ViewerError::EmptyCatalog)));
}

#[test]
fn delete_shrinks_and_keeps_cursor_in_middle() {
    let files = listing(&["/d/a.png", "/d/b.png", "/d/c.png", "/d/d.png"]);
    let mut c = ImageCatalog::scan(&files, None).unwrap();
    c.advance(Direction::Next).unwrap();
    assert_eq!(c.cursor_position(), 1);
    let now_empty = c.delete_current(true).unwrap();
    assert!(!now_empty);
    assert_eq!(c.len(), 3);
    assert_eq!(c.cursor_position(), 1);
    assert_eq!(c.current().unwrap(), "/d/c.png");
}

#[test]
fn delete_at_last_index_clamps_cursor() {
    let files = listing(&["/d/a.png", "/d/b.png", "/d/c.png"]);
    let mut c = ImageCatalog::scan(&files, None).unwrap();
    c.advance(Direction::Next).unwrap();
    c.advance(Direction::Next).unwrap();
    assert_eq!(c.cursor_position(), 2);
    let now_empty = c.delete_current(true).unwrap();
    assert!(!now_empty);
    assert_eq!(c.len(), 2);
    assert_eq!(c.cursor_position(), 1);
    assert_eq!(c.current().unwrap(), "/d/b.png");
}

#[test]
fn delete_last_entry_empties_catalog() {
    let files = listing(&["/d/only.png"]);
    let mut c = ImageCatalog::scan(&files, None).unwrap();
    let now_empty = c.delete_current(true).unwrap();
    assert!(now_empty);
    assert_eq!(c.len(), 0);
    assert!(matches!(c.current(), Err(ViewerError::EmptyCatalog)));
    assert!(matches!(c.delete_current(true), Err(ViewerError::EmptyCatalog)));
}

#[test]
fn delete_of_vanished_file_reports_missing_and_changes_nothing() {
    let files = listing(&["/d/a.png", "/d/b.png"]);
    let mut c = ImageCatalog::scan(&files, None).unwrap();
    assert!(matches!(c.delete_current(false), Err(ViewerError::MissingFile)));
    assert_eq!(c.len(), 2);
    assert_eq!(c.cursor_position(), 0);
}

#[test]
fn three_image_walkthrough() {
    let files = listing(&["/dir/a.png", "/dir/b.jpg", "/dir/c.gif"]);
    let mut c = ImageCatalog::scan(&files, None).unwrap();
    assert_eq!(c.cursor_position(), 0);
    assert_eq!(c.current().unwrap(), "/dir/a.png");
    c.advance(Direction::Next).unwrap();
    assert_eq!(c.cursor_position(), 1);
    assert_eq!(c.current().unwrap(), "/dir/b.jpg");
    let now_empty = c.delete_current(true).unwrap();
    assert!(!now_empty);
    assert_eq!(entries_of(&c), vec!["/dir/a.png", "/dir/c.gif"]);
    assert_eq!(c.cursor_position(), 1);
    assert_eq!(c.current().unwrap(), "/dir/c.gif");
}

#[test]
fn error_descriptions_name_each_kind() {
    assert_eq!(ViewerError::EmptyCatalog.describe(), "no image files found");
    assert_eq!(ViewerError::MissingFile.describe(), "image file does not exist");
    assert_eq!(ViewerError::DecodeFailure.describe(), "image could not be decoded");
    assert_eq!(ViewerError::ExternalToolFailure.describe(), "wallpaper tool failed");
    assert_eq!(ViewerError::PathNotFound.describe(), "file or directory not found");
}
