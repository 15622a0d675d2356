use rex_fm::path::{components, extension, file_name, file_stem, is_hidden, join, parent, set_file_name};
use rex_fm::trash::{get_unique_path, paste_destination, trash_destination, trash_dir_under, unique_dest, unique_dest_pub};

fn strings(v: &[&str]) -> Vec<String> {
    v.iter().map(|s| s.to_string()).collect()
}

#[test]
fn parent_of_paths() {
    assert_eq!(parent("/home/u/a.txt"), Some("/home/u".to_string()));
    assert_eq!(parent("/home"), Some("/".to_string()));
    assert_eq!(parent("/"), None);
    assert_eq!(parent("a"), Some("".to_string()));
    assert_eq!(parent("/home/u/"), Some("/home".to_string()));
}

#[test]
fn file_name_stem_and_extension() {
    assert_eq!(file_name("/home/u/a.tar.gz"), Some("a.tar.gz".to_string()));
    assert_eq!(file_stem("/home/u/a.tar.gz"), Some("a.tar".to_string()));
    assert_eq!(extension("/home/u/a.tar.gz"), Some("gz".to_string()));
    assert_eq!(extension("/home/u/.bashrc"), None);
    assert_eq!(file_stem("/home/u/.bashrc"), Some(".bashrc".to_string()));
    assert_eq!(file_name("/"), None);
    assert_eq!(file_name("/home/.."), None);
}

#[test]
fn join_and_set_file_name() {
    assert_eq!(join("/home/u", "b"), "/home/u/b");
    assert_eq!(join("/", "b"), "/b");
    assert_eq!(join("/home/u", "/etc"), "/etc");
    assert_eq!(set_file_name("/home/u/a.txt", "b.md"), "/home/u/b.md");
}

#[test]
fn hidden_paths() {
    assert!(is_hidden("/home/u/.config/x"));
    assert!(!is_hidden("/home/u/x.txt"));
    assert!(!is_hidden("/home/u/../x"));
    assert!(is_hidden(".git"));
}

#[test]
fn components_of_a_path() {
    let c = components("/a/./b//c");
    let kinds: Vec<u8> = c.iter().map(|x| x.0).collect();
    let names: Vec<String> = c.iter().map(|x| x.1.iter().collect()).collect();
    assert_eq!(kinds, vec![1, 4, 4, 4]);
    assert_eq!(names, strings(&["", "a", "b", "c"]));
}

#[test]
fn unique_dest_keeps_a_free_name() {
    let existing = strings(&["/t/a.txt"]);
    assert_eq!(unique_dest("/t/b.txt", &existing), "/t/b.txt");
    assert_eq!(unique_dest_pub("/t/b.txt", &existing), "/t/b.txt");
}

#[test]
fn unique_dest_numbers_a_taken_name() {
    let existing = strings(&["/t/a.txt", "/t/a_1.txt", "/t/a_2.txt"]);
    assert_eq!(unique_dest("/t/a.txt", &existing), "/t/a_3.txt");
    let existing = strings(&["/t/notes"]);
    assert_eq!(unique_dest_pub("/t/notes", &existing), "/t/notes_1");
}

#[test]
fn trash_destination_in_trash_dir() {
    let trash = trash_dir_under("/home/u");
    assert_eq!(trash, "/home/u/.rex_trash");
    let existing = strings(&["/home/u/.rex_trash/a.txt"]);
    assert_eq!(trash_destination("/home/u/docs/a.txt", &trash, &existing), Ok("/home/u/.rex_trash/a_1.txt".to_string()));
    assert_eq!(trash_destination("/home/u/docs/b.txt", &trash, &existing), Ok("/home/u/.rex_trash/b.txt".to_string()));
}

#[test]
fn trash_destination_without_file_name_is_an_error() {
    let existing: Vec<String> = Vec::new();
    assert_eq!(trash_destination("/", "/home/u/.rex_trash", &existing), Err("Path has no filename".to_string()));
}

#[test]
fn get_unique_path_renames_cumulatively() {
    let existing = strings(&["/d/a.txt", "/d/a_1.txt"]);
    assert_eq!(get_unique_path("/d/a.txt".to_string(), &existing), "/d/a_1_2.txt");
    let existing = strings(&["/d/a.txt"]);
    assert_eq!(get_unique_path("/d/a.txt".to_string(), &existing), "/d/a_1.txt");
    assert_eq!(get_unique_path("/d/b".to_string(), &existing), "/d/b");
}

#[test]
fn paste_destination_uses_the_source_name() {
    let existing = strings(&["/dst/x.rs"]);
    assert_eq!(paste_destination("/dst", "/src/x.rs", &existing), "/dst/x_1.rs");
    assert_eq!(paste_destination("/dst", "/src/y.rs", &existing), "/dst/y.rs");
}

#[test]
fn predicted_trash_destination_matches_the_chosen_one() {
    let existing = strings(&["/t/a.txt", "/t/a_1.txt"]);
    assert_eq!(unique_dest_pub("/t/a.txt", &existing), unique_dest("/t/a.txt", &existing));
    assert_eq!(unique_dest_pub("/t/a.txt", &existing), "/t/a_2.txt");
}

#[test]
fn current_directory_components_are_skipped() {
    assert_eq!(file_name("foo.txt/."), Some("foo.txt".to_string()));
    assert_eq!(parent("a/./b"), Some("a".to_string()));
    assert_eq!(parent("a/."), Some("".to_string()));
    assert_eq!(parent("/."), None);
    assert_eq!(parent("/./b"), Some("/".to_string()));
    assert_eq!(parent("./b"), Some(".".to_string()));
    assert_eq!(file_name("./"), None);
    assert_eq!(file_name("a/././"), Some("a".to_string()));
    assert_eq!(extension("/x/b.rs/."), Some("rs".to_string()));
    assert_eq!(set_file_name("/x/a.txt/.", "b"), "/x/b");
}
