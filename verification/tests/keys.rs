use rex_fm::app::{App, Operation, Pane, SearchFilter};
use rex_fm::config::AppConfig;
use rex_fm::keys::{edit_buffer, open_with_options_for, option_app_name, Effect, Key, KeyContext, SearchRoot};
use rex_fm::navigator::DirEntry;

fn entry(name: &str, is_dir: bool) -> DirEntry {
    DirEntry { name: name.to_string(), is_dir }
}

fn app() -> App {
    App::new(
        "/home/u".to_string(),
        vec![entry("src", true), entry("a.rs", false), entry("b.png", false)],
        AppConfig::new(),
    )
}

fn ctx() -> KeyContext {
    KeyContext { cursor_is_dir: false, search_target_is_dir: false }
}

fn press(a: &mut App, k: Key) -> Effect {
    a.handle_key(k, &ctx())
}

fn strings(v: &[&str]) -> Vec<String> {
    v.iter().map(|s| s.to_string()).collect()
}

#[test]
fn q_quits() {
    let mut a = app();
    let e = press(&mut a, Key::Char('q'));
    assert!(matches!(e, Effect::Nothing));
    assert!(a.should_quit);
}

#[test]
fn a_key_clears_the_status_line() {
    let mut a = app();
    a.set_status_timeout("hello".to_string(), 5);
    press(&mut a, Key::Char('z'));
    assert_eq!(a.status_msg, None);
}

#[test]
fn j_and_k_move_the_cursor() {
    let mut a = app();
    press(&mut a, Key::Char('j'));
    press(&mut a, Key::Char('j'));
    assert_eq!(a.left.cursor, 2);
    press(&mut a, Key::Char('k'));
    assert_eq!(a.left.cursor, 1);
}

#[test]
fn tab_switches_panes_and_j_then_moves_the_preview() {
    let mut a = app();
    press(&mut a, Key::Tab);
    assert!(a.active_pane == Pane::Right);
    a.preview_content = strings(&["1", "2", "3", "4", "5", "6"]);
    a.visible_height = 2;
    press(&mut a, Key::Char('j'));
    press(&mut a, Key::Char('j'));
    press(&mut a, Key::Char('j'));
    assert_eq!(a.preview_cursor, 3);
    assert_eq!(a.preview_scroll, 2);
    assert_eq!(a.left.cursor, 0);
    press(&mut a, Key::Tab);
    assert!(a.active_pane == Pane::Left);
}

#[test]
fn delete_confirmed_trashes_the_cursor_entry() {
    let mut a = app();
    press(&mut a, Key::Char('j'));
    press(&mut a, Key::Char('d'));
    assert!(a.confirm_delete);
    let e = press(&mut a, Key::Char('y'));
    match e {
        Effect::Trash { targets } => assert_eq!(targets, strings(&["/home/u/src"])),
        _ => panic!("expected a trash effect"),
    }
    assert!(!a.confirm_delete);
}

#[test]
fn delete_declined_does_nothing() {
    let mut a = app();
    press(&mut a, Key::Char('j'));
    press(&mut a, Key::Char('d'));
    let e = press(&mut a, Key::Char('x'));
    assert!(matches!(e, Effect::Nothing));
    assert!(a.confirm_delete);
    let e = press(&mut a, Key::Esc);
    assert!(matches!(e, Effect::Nothing));
    assert!(!a.confirm_delete);
}

#[test]
fn delete_on_parent_entry_has_no_target() {
    let mut a = app();
    press(&mut a, Key::Char('d'));
    match press(&mut a, Key::Char('y')) {
        Effect::Trash { targets } => assert!(targets.is_empty()),
        _ => panic!("expected a trash effect"),
    }
}

#[test]
fn space_selects_and_delete_takes_the_selection() {
    let mut a = app();
    press(&mut a, Key::Char('j'));
    press(&mut a, Key::Char(' '));
    assert_eq!(a.left.cursor, 2);
    press(&mut a, Key::Char(' '));
    let mut sel = a.selected.clone();
    sel.sort();
    assert_eq!(sel, strings(&["/home/u/a.rs", "/home/u/src"]));
    press(&mut a, Key::Char('d'));
    match press(&mut a, Key::Char('y')) {
        Effect::Trash { mut targets } => {
            targets.sort();
            assert_eq!(targets, strings(&["/home/u/a.rs", "/home/u/src"]));
        },
        _ => panic!("expected a trash effect"),
    }
    assert!(a.selected.is_empty());
}

#[test]
fn toggling_twice_restores_the_selection() {
    let mut a = app();
    press(&mut a, Key::Char('j'));
    press(&mut a, Key::Char(' '));
    press(&mut a, Key::Char('k'));
    press(&mut a, Key::Char(' '));
    assert!(a.selected.is_empty());
}

#[test]
fn select_all_skips_the_parent() {
    let mut a = app();
    press(&mut a, Key::Char('A'));
    let mut sel = a.selected.clone();
    sel.sort();
    assert_eq!(sel, strings(&["/home/u/a.rs", "/home/u/b.png", "/home/u/src"]));
    press(&mut a, Key::Esc);
    assert!(a.selected.is_empty());
}

#[test]
fn local_search_starts_in_the_current_directory() {
    let mut a = app();
    press(&mut a, Key::Char('/'));
    assert!(a.search_mode);
    match press(&mut a, Key::Char('a')) {
        Effect::StartSearch { query, root, global, filter } => {
            assert_eq!(query, "a");
            assert!(matches!(root, SearchRoot::Dir(d) if d == "/home/u"));
            assert!(!global);
            assert!(filter == SearchFilter::All);
        },
        _ => panic!("expected a search"),
    }
    let e = press(&mut a, Key::Esc);
    assert!(matches!(e, Effect::CancelSearch));
    assert!(!a.search_mode);
    assert_eq!(a.search_query, "");
}

#[test]
fn global_search_roots_follow_the_filter() {
    let mut a = app();
    press(&mut a, Key::Char('g'));
    match press(&mut a, Key::Char('x')) {
        Effect::StartSearch { root, global, .. } => {
            assert!(matches!(root, SearchRoot::Home));
            assert!(global);
        },
        _ => panic!("expected a search"),
    }
    match press(&mut a, Key::F(3)) {
        Effect::StartSearch { root, filter, .. } => {
            assert!(matches!(root, SearchRoot::Slash));
            assert!(filter == SearchFilter::System);
        },
        _ => panic!("expected a search"),
    }
    let e = press(&mut a, Key::F(9));
    assert!(matches!(e, Effect::Nothing));
}

#[test]
fn search_backspace_to_empty_stops_searching() {
    let mut a = app();
    press(&mut a, Key::Char('/'));
    press(&mut a, Key::Char('a'));
    let e = press(&mut a, Key::Backspace);
    assert!(matches!(e, Effect::Nothing));
    assert_eq!(a.search_query, "");
}

#[test]
fn search_enter_jumps_to_the_result_directory() {
    let mut a = app();
    press(&mut a, Key::Char('/'));
    a.search_results = strings(&["/etc/hosts"]);
    match press(&mut a, Key::Enter) {
        Effect::Reload { focus, cancel_search } => {
            assert_eq!(focus, Some("/etc/hosts".to_string()));
            assert!(cancel_search);
        },
        _ => panic!("expected a reload"),
    }
    assert_eq!(a.left.path, "/etc");
    assert!(!a.search_mode);
}

#[test]
fn rename_builds_the_new_path() {
    let mut a = app();
    press(&mut a, Key::Char('j'));
    press(&mut a, Key::Char('j'));
    press(&mut a, Key::Char('r'));
    assert!(a.rename_mode);
    assert_eq!(a.input_buffer, "a.rs");
    assert_eq!(a.rename_cursor, 4);
    press(&mut a, Key::Home);
    press(&mut a, Key::Char('x'));
    match press(&mut a, Key::Enter) {
        Effect::Rename { from, to, new_name } => {
            assert_eq!(from, "/home/u/a.rs");
            assert_eq!(to, "/home/u/xa.rs");
            assert_eq!(new_name, "xa.rs");
        },
        _ => panic!("expected a rename"),
    }
    assert!(!a.rename_mode);
    assert_eq!(a.input_buffer, "");
}

#[test]
fn create_asks_for_a_file_in_the_current_directory() {
    let mut a = app();
    press(&mut a, Key::Char('N'));
    assert!(a.input_mode && a.create_dir);
    press(&mut a, Key::Char('d'));
    press(&mut a, Key::Char('x'));
    press(&mut a, Key::Backspace);
    match press(&mut a, Key::Enter) {
        Effect::Create { path, name, folder } => {
            assert_eq!(path, "/home/u/d");
            assert_eq!(name, "d");
            assert!(folder);
        },
        _ => panic!("expected a create"),
    }
    assert!(!a.input_mode);
}

#[test]
fn create_with_empty_name_does_nothing() {
    let mut a = app();
    press(&mut a, Key::Char('n'));
    let e = press(&mut a, Key::Enter);
    assert!(matches!(e, Effect::Nothing));
    assert!(!a.input_mode);
}

#[test]
fn yank_then_paste_copies_the_cursor_entry() {
    let mut a = app();
    press(&mut a, Key::Char('j'));
    press(&mut a, Key::Char('j'));
    press(&mut a, Key::Char('y'));
    assert_eq!(a.clipboard, Some("/home/u/a.rs".to_string()));
    assert_eq!(a.status_msg, Some("Yanked: a.rs".to_string()));
    match press(&mut a, Key::Char('p')) {
        Effect::Paste { sources, dir, cut, from_selection } => {
            assert_eq!(sources, strings(&["/home/u/a.rs"]));
            assert_eq!(dir, "/home/u");
            assert!(!cut && !from_selection);
        },
        _ => panic!("expected a paste"),
    }
}

#[test]
fn cut_of_a_selection_reports_the_count() {
    let mut a = app();
    press(&mut a, Key::Char('A'));
    press(&mut a, Key::Char('x'));
    assert!(a.cut_mode);
    assert_eq!(a.clipboard, None);
    assert_eq!(a.status_msg, Some("Cut 3 item(s) — press p to move".to_string()));
    match press(&mut a, Key::Char('p')) {
        Effect::Paste { sources, cut, from_selection, .. } => {
            assert_eq!(sources.len(), 3);
            assert!(cut && from_selection);
        },
        _ => panic!("expected a paste"),
    }
}

#[test]
fn undo_with_empty_history_does_nothing() {
    let mut a = app();
    let e = press(&mut a, Key::Char('u'));
    assert!(matches!(e, Effect::Nothing));
}

#[test]
fn undo_takes_back_the_last_trash() {
    let mut a = app();
    assert!(a.record_trashed(vec![("/home/u/a.rs".to_string(), "/home/u/.rex_trash/a.rs".to_string())]));
    match press(&mut a, Key::Char('u')) {
        Effect::Undo { op: Operation::DeleteBatch { items } } => assert_eq!(items.len(), 1),
        _ => panic!("expected an undo of the trash"),
    }
    assert!(a.history.is_empty());
    assert_eq!(a.status_msg, Some("✔ Restored: a.rs".to_string()));
}

#[test]
fn open_with_saves_the_choice() {
    let mut a = app();
    press(&mut a, Key::Char('j'));
    press(&mut a, Key::Char('j'));
    press(&mut a, Key::Char('O'));
    assert!(a.open_with_mode);
    assert_eq!(a.open_with_options, strings(&["nvim", "vim", "nano", "code", "gedit", "xdg-open"]));
    press(&mut a, Key::Char('j'));
    match press(&mut a, Key::Enter) {
        Effect::OpenWith { program, path } => {
            assert_eq!(program, "vim");
            assert_eq!(path, "/home/u/a.rs");
        },
        _ => panic!("expected open-with"),
    }
    assert_eq!(a.config.get("rs"), Some("vim".to_string()));
    assert_eq!(a.status_msg, Some("Opened with vim (saved as default)".to_string()));
    match press(&mut a, Key::Char('o')) {
        Effect::OpenFile { program, path } => {
            assert_eq!(program, "vim");
            assert_eq!(path, "/home/u/a.rs");
        },
        _ => panic!("expected open"),
    }
    assert_eq!(a.status_msg, Some("Opened a.rs with vim".to_string()));
}

#[test]
fn open_without_configuration_uses_xdg_open() {
    let mut a = app();
    press(&mut a, Key::Char('j'));
    press(&mut a, Key::Char('j'));
    press(&mut a, Key::Char('j'));
    match press(&mut a, Key::Char('o')) {
        Effect::OpenFile { program, .. } => assert_eq!(program, "xdg-open"),
        _ => panic!("expected open"),
    }
}

#[test]
fn open_on_a_directory_enters_it() {
    let mut a = app();
    press(&mut a, Key::Char('j'));
    let e = a.handle_key(Key::Char('o'), &KeyContext { cursor_is_dir: true, search_target_is_dir: false });
    assert!(matches!(e, Effect::Reload { focus: None, cancel_search: false }));
    assert_eq!(a.left.path, "/home/u/src");
}

#[test]
fn help_popup_takes_the_keys() {
    let mut a = app();
    press(&mut a, Key::Char('?'));
    assert!(a.show_help);
    press(&mut a, Key::Char('j'));
    assert_eq!(a.left.cursor, 0);
    press(&mut a, Key::Esc);
    assert!(!a.show_help);
}

#[test]
fn u_shows_changelog_without_update_and_popup_with_one() {
    let mut a = app();
    press(&mut a, Key::Char('U'));
    assert!(a.show_changelog);
    press(&mut a, Key::Char('q'));
    assert!(!a.show_changelog);
    a.receive_update("9.9.9".to_string());
    assert!(a.show_update_popup);
    let e = press(&mut a, Key::Char('y'));
    assert!(matches!(e, Effect::InstallUpdate));
    assert!(!a.show_update_popup);
}

#[test]
fn changelog_scrolls_within_its_lines() {
    let mut a = app();
    a.changelog_lines = strings(&["a", "b", "c"]);
    press(&mut a, Key::Char('U'));
    for _ in 0..5 {
        press(&mut a, Key::Char('j'));
    }
    assert_eq!(a.changelog_scroll, 2);
    press(&mut a, Key::Char('k'));
    assert_eq!(a.changelog_scroll, 1);
}

#[test]
fn enter_and_h_navigate_the_pane() {
    let mut a = app();
    press(&mut a, Key::Char('j'));
    let e = press(&mut a, Key::Enter);
    assert!(matches!(e, Effect::Reload { focus: None, cancel_search: false }));
    assert_eq!(a.left.path, "/home/u/src");
    let e = press(&mut a, Key::Char('h'));
    assert!(matches!(e, Effect::Reload { .. }));
    assert_eq!(a.left.path, "/home/u");
}

#[test]
fn edit_buffer_moves_and_edits_at_the_caret() {
    let b = "abc".to_string();
    assert_eq!(edit_buffer(&b, 1, Key::Char('X')), ("aXbc".to_string(), 2));
    assert_eq!(edit_buffer(&b, 1, Key::Backspace), ("bc".to_string(), 0));
    assert_eq!(edit_buffer(&b, 1, Key::Delete), ("ac".to_string(), 1));
    assert_eq!(edit_buffer(&b, 3, Key::Delete), ("abc".to_string(), 3));
    assert_eq!(edit_buffer(&b, 0, Key::Left), ("abc".to_string(), 0));
    assert_eq!(edit_buffer(&b, 3, Key::Right), ("abc".to_string(), 3));
    assert_eq!(edit_buffer(&b, 2, Key::Home), ("abc".to_string(), 0));
    assert_eq!(edit_buffer(&b, 0, Key::End), ("abc".to_string(), 3));
}

#[test]
fn typing_then_backspace_restores_the_name() {
    let b = "naïve".to_string();
    let (b1, c1) = edit_buffer(&b, 2, Key::Char('z'));
    assert_eq!(edit_buffer(&b1, c1, Key::Backspace), (b.clone(), 2));
}

#[test]
fn open_with_choices_by_kind() {
    assert_eq!(
        open_with_options_for("PNG", Some("feh".to_string())),
        strings(&["★ feh (configured)", "eog", "feh", "gimp", "inkscape", "xdg-open", "nvim"])
    );
    assert_eq!(open_with_options_for("", None), strings(&["xdg-open", "nvim"]));
    assert_eq!(open_with_options_for("mp3", None), strings(&["vlc", "mpv", "rhythmbox", "xdg-open", "nvim"]));
    assert_eq!(open_with_options_for("pdf", None), strings(&["libreoffice", "evince", "okular", "xdg-open", "nvim"]));
}

#[test]
fn option_names_lose_star_and_suffix() {
    assert_eq!(option_app_name("★ feh (configured)"), "feh");
    assert_eq!(option_app_name("vlc"), "vlc");
    assert_eq!(option_app_name("  code  "), "code");
}
