use rex_fm::navigator::{DirEntry, Navigator};

fn entry(name: &str, is_dir: bool) -> DirEntry {
    DirEntry { name: name.to_string(), is_dir }
}

fn sample() -> Navigator {
    Navigator::new(
        "/home/u".to_string(),
        vec![entry("b.txt", false), entry("Zeta", true), entry("alpha", true), entry("C.md", false)],
    )
}

#[test]
fn listing_puts_parent_then_directories_then_files_by_lowercase_name() {
    let nav = sample();
    assert_eq!(
        nav.entries,
        vec![
            "/home".to_string(),
            "/home/u/alpha".to_string(),
            "/home/u/Zeta".to_string(),
            "/home/u/b.txt".to_string(),
            "/home/u/C.md".to_string(),
        ]
    );
    assert_eq!(nav.entry_is_dir, vec![true, true, true, false, false]);
    assert_eq!(nav.cursor, 0);
    assert_eq!(nav.path, "/home/u");
}

#[test]
fn root_has_no_parent_entry() {
    let nav = Navigator::new("/".to_string(), vec![entry("etc", true)]);
    assert_eq!(nav.entries, vec!["/etc".to_string()]);
    assert_eq!(nav.entry_is_dir, vec![true]);
}

#[test]
fn empty_directory_shows_only_parent() {
    let nav = Navigator::new("/tmp".to_string(), vec![]);
    assert_eq!(nav.entries, vec!["/".to_string()]);
}

#[test]
fn move_down_stops_at_last_and_up_at_first() {
    let mut nav = sample();
    for _ in 0..10 {
        nav.move_down();
    }
    assert_eq!(nav.cursor, 4);
    nav.move_up();
    assert_eq!(nav.cursor, 3);
    for _ in 0..10 {
        nav.move_up();
    }
    assert_eq!(nav.cursor, 0);
}

#[test]
fn down_then_up_returns_to_the_same_entry() {
    let mut nav = sample();
    nav.move_down();
    nav.move_down();
    let c = nav.cursor;
    nav.move_down();
    nav.move_up();
    assert_eq!(nav.cursor, c);
}

#[test]
fn enter_directory_changes_path_and_resets_cursor() {
    let mut nav = sample();
    nav.move_down();
    assert!(nav.enter());
    assert_eq!(nav.path, "/home/u/alpha");
    assert_eq!(nav.cursor, 0);
}

#[test]
fn enter_on_file_does_nothing() {
    let mut nav = sample();
    nav.move_down();
    nav.move_down();
    nav.move_down();
    assert!(!nav.enter());
    assert_eq!(nav.path, "/home/u");
    assert_eq!(nav.cursor, 3);
}

#[test]
fn back_goes_to_parent_until_root() {
    let mut nav = sample();
    nav.move_down();
    assert!(nav.back());
    assert_eq!(nav.path, "/home");
    assert_eq!(nav.cursor, 0);
    assert!(nav.back());
    assert_eq!(nav.path, "/");
    assert!(!nav.back());
    assert_eq!(nav.path, "/");
}

#[test]
fn refresh_keeps_cursor_inside_else_resets() {
    let mut nav = sample();
    nav.move_down();
    nav.move_down();
    nav.refresh(vec![entry("x", false), entry("y", false)]);
    assert_eq!(nav.cursor, 2);
    nav.move_down();
    nav.move_down();
    assert_eq!(nav.cursor, 2);
    nav.refresh(vec![]);
    assert_eq!(nav.cursor, 0);
}

#[test]
fn names_that_lowercase_alike_keep_listing_order() {
    let nav = Navigator::new(
        "/d".to_string(),
        vec![entry("b.TXT", false), entry("a", false), entry("B.txt", false)],
    );
    assert_eq!(
        nav.entries,
        vec!["/".to_string(), "/d/a".to_string(), "/d/b.TXT".to_string(), "/d/B.txt".to_string()]
    );
    let nav = Navigator::new(
        "/d".to_string(),
        vec![entry("B.txt", false), entry("a", false), entry("b.TXT", false)],
    );
    assert_eq!(
        nav.entries,
        vec!["/".to_string(), "/d/a".to_string(), "/d/B.txt".to_string(), "/d/b.TXT".to_string()]
    );
}
