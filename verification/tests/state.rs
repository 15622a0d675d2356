use rex_fm::app::{clamp_values, preview_for, preview_view, App, Operation, PreviewSource};
use rex_fm::config::{config_candidates, pick_config_path, AppConfig};
use rex_fm::icons::{get_icon, get_icon_cached};
use rex_fm::navigator::DirEntry;
use rex_fm::outcomes::CreateOutcome;
use rex_fm::updates::{check_update, newer_version, update_notice};

fn entry(name: &str, is_dir: bool) -> DirEntry {
    DirEntry { name: name.to_string(), is_dir }
}

fn strings(v: &[&str]) -> Vec<String> {
    v.iter().map(|s| s.to_string()).collect()
}

fn app() -> App {
    App::new("/home/u".to_string(), vec![entry("a.txt", false), entry("b", true)], AppConfig::new())
}

#[test]
fn clamp_scroll_scrolls_to_show_the_cursor() {
    let mut a = app();
    a.preview_cursor = 10;
    a.clamp_scroll(20, 5);
    assert_eq!((a.preview_cursor, a.preview_scroll), (10, 6));
    a.preview_cursor = 25;
    a.clamp_scroll(20, 5);
    assert_eq!((a.preview_cursor, a.preview_scroll), (19, 15));
    a.preview_cursor = 1;
    a.preview_scroll = 2;
    a.clamp_scroll(3, 5);
    assert_eq!((a.preview_cursor, a.preview_scroll), (1, 0));
    a.clamp_scroll(0, 5);
    assert_eq!((a.preview_cursor, a.preview_scroll), (0, 0));
}

#[test]
fn clamp_values_is_idempotent() {
    let (c, s) = clamp_values(40, 3, 50, 7);
    assert_eq!((c, s), (40, 34));
    assert_eq!(clamp_values(c, s, 50, 7), (c, s));
}

#[test]
fn preview_window_and_placeholder() {
    let content = strings(&["a", "b", "c", "d"]);
    let (c, s, lines) = preview_view(&content, 3, 0, 2);
    assert_eq!((c, s), (3, 2));
    assert_eq!(lines, strings(&["c", "d"]));
    let (c, s, lines) = preview_view(&Vec::new(), 4, 1, 3);
    assert_eq!((c, s), (4, 1));
    assert_eq!(lines, strings(&["No preview"]));
}

#[test]
fn preview_contents_by_source() {
    let e = "/home/u/b".to_string();
    assert_eq!(preview_for(PreviewSource::Text("x\ny\r\n".to_string()), &e), strings(&["x", "y"]));
    assert_eq!(preview_for(PreviewSource::Unreadable, &e), strings(&["Binary or unreadable file"]));
    assert!(preview_for(PreviewSource::NoEntry, &e).is_empty());
    assert!(preview_for(PreviewSource::DirUnreadable, &e).is_empty());
    assert_eq!(
        preview_for(PreviewSource::Dir(vec![entry("m.rs", false), entry("sub", true)]), &e),
        strings(&["🦀 m.rs", "📁 sub"])
    );
}

#[test]
fn refresh_preview_marks_the_cursor_read() {
    let mut a = app();
    assert!(a.preview_stale());
    a.left.cursor = 1;
    a.refresh_preview(PreviewSource::Text("one\ntwo".to_string()));
    assert!(!a.preview_stale());
    assert_eq!(a.preview_content, strings(&["one", "two"]));
    assert_eq!((a.preview_cursor, a.preview_scroll), (0, 0));
    let shown = a.layout_preview(1);
    assert_eq!(shown, strings(&["one"]));
    assert_eq!(a.visible_height, 1);
}

#[test]
fn timed_status_expires_after_three_seconds() {
    let mut a = app();
    a.set_status_timeout("hi".to_string(), 1000);
    assert_eq!(a.status_expires_at, Some(4000));
    a.update_status_expiry(3999);
    assert_eq!(a.status_msg, Some("hi".to_string()));
    a.update_status_expiry(4000);
    assert_eq!(a.status_msg, None);
    assert_eq!(a.status_expires_at, None);
    a.set_status_timeout("late".to_string(), u64::MAX - 5);
    assert_eq!(a.status_expires_at, Some(u64::MAX));
}

#[test]
fn missing_fd_warning_is_shown_once() {
    let mut a = app();
    let w = rex_fm::search::fd_missing_warning();
    assert_eq!(w, "⚠ fd not installed — using slow fallback (install fd)");
    a.receive_status(w.clone(), 0);
    assert_eq!(a.status_msg, Some(w.clone()));
    assert!(a.warned_no_fd);
    a.status_msg = None;
    a.receive_status(w, 0);
    assert_eq!(a.status_msg, None);
    a.receive_status("other".to_string(), 0);
    assert_eq!(a.status_msg, Some("other".to_string()));
}

#[test]
fn reload_keeps_or_focuses_the_cursor() {
    let mut a = app();
    a.left.cursor = 2;
    a.reload_listing(vec![entry("a.txt", false)], None);
    assert_eq!(a.left.cursor, 0);
    a.reload_listing(vec![entry("x", false), entry("y", false)], Some("/home/u/y".to_string()));
    assert_eq!(a.left.cursor, 2);
    a.reload_listing(vec![entry("x", false)], Some("/elsewhere".to_string()));
    assert_eq!(a.left.cursor, 0);
}

#[test]
fn trashing_records_an_undoable_batch() {
    let mut a = app();
    assert!(!a.record_trashed(Vec::new()));
    assert!(a.history.is_empty());
    let batch = vec![
        ("/home/u/a.txt".to_string(), "/home/.rex_trash/a.txt".to_string()),
        ("/home/u/b".to_string(), "/home/.rex_trash/b".to_string()),
    ];
    assert!(a.record_trashed(batch));
    assert_eq!(a.status_msg, Some("Trashed 2 item(s)".to_string()));
    assert!(matches!(&a.history[0], Operation::DeleteBatch { items } if items.len() == 2));
}

#[test]
fn create_outcomes_are_reported() {
    let mut a = app();
    assert!(!a.finish_create(CreateOutcome::AlreadyExists, "x", false, 0));
    assert_eq!(a.status_msg, Some("❌ Already exists: x".to_string()));
    assert!(a.finish_create(CreateOutcome::Created, "d", true, 10));
    assert_eq!(a.status_msg, Some("✅ Created Folder: d".to_string()));
    assert_eq!(a.status_expires_at, Some(3010));
    assert!(a.finish_create(CreateOutcome::Created, "f", false, 10));
    assert_eq!(a.status_msg, Some("✅ Created File: f".to_string()));
    assert!(!a.finish_create(CreateOutcome::Failed("denied".to_string()), "f", false, 10));
    assert_eq!(a.status_msg, Some("❌ Create failed: denied".to_string()));
}

#[test]
fn rename_and_update_outcomes_are_reported() {
    let mut a = app();
    assert!(a.finish_rename("new.txt", Ok(())));
    assert_eq!(a.status_msg, Some("Renamed → new.txt".to_string()));
    assert!(!a.finish_rename("new.txt", Err("busy".to_string())));
    assert_eq!(a.status_msg, Some("Rename failed: busy".to_string()));
    a.receive_update("2.0.0".to_string());
    a.finish_update(false);
    assert_eq!(a.status_msg, Some("✘ Update failed — run: cargo install rex-fm --force".to_string()));
    assert_eq!(a.update_available, Some("2.0.0".to_string()));
    a.finish_update(true);
    assert_eq!(a.status_msg, Some("✔ Updated! Restart rex to use the new version.".to_string()));
    assert_eq!(a.update_available, None);
}

#[test]
fn pasting_records_moves_and_copies() {
    let mut a = app();
    a.clipboard = Some("/x/f".to_string());
    a.cut_mode = true;
    a.record_paste("/x/f".to_string(), "/home/u/f".to_string(), true, false);
    assert!(matches!(&a.history[0], Operation::Move { from, to } if from == "/x/f" && to == "/home/u/f"));
    assert_eq!(a.clipboard, None);
    assert!(!a.cut_mode);
    a.record_paste("/x/g".to_string(), "/home/u/g".to_string(), false, true);
    assert!(matches!(&a.history[1], Operation::Copy { to, .. } if to == "/home/u/g"));
    a.selected = strings(&["/x/g", "/x/h"]);
    a.cut_mode = true;
    a.finish_paste(true);
    assert_eq!(a.status_msg, Some("Processed 2 item(s)".to_string()));
    assert!(a.selected.is_empty());
    assert!(!a.cut_mode);
}

#[test]
fn configuration_reads_what_was_written() {
    let mut c = AppConfig::new();
    assert_eq!(c.get("rs"), None);
    c.insert("rs".to_string(), "nvim".to_string());
    c.insert("md".to_string(), "code".to_string());
    c.insert("rs".to_string(), "helix".to_string());
    assert_eq!(c.get("rs"), Some("helix".to_string()));
    assert_eq!(c.get("md"), Some("code".to_string()));
    assert_eq!(c.open_with.len(), 2);
}

#[test]
fn configuration_file_search_order() {
    let c = config_candidates(Some("/opt/rex/bin/rex".to_string()), Some("/w".to_string()), Some("/home/u".to_string()));
    assert_eq!(c, strings(&["/opt/rex/bin/config.json", "/w/config.json", "/home/u/.config/rex/config.json"]));
    assert_eq!(pick_config_path(&c, &vec![false, true, true], Some("/w".to_string())), "/w/config.json");
    assert_eq!(pick_config_path(&c, &vec![false, false, false], Some("/w".to_string())), "/w/config.json");
    assert_eq!(pick_config_path(&c, &vec![false, false, true], None), "/home/u/.config/rex/config.json");
    assert_eq!(pick_config_path(&Vec::new(), &Vec::new(), None), "config.json");
    let c = config_candidates(None, None, Some("/root".to_string()));
    assert_eq!(c, strings(&["/root/.config/rex/config.json"]));
}

#[test]
fn update_notice_only_for_another_version() {
    let body = r#"{"crate":{"name":"rex-fm","newest_version":"0.5.0"}}"#;
    assert_eq!(check_update(body, "0.4.0"), Some("0.5.0".to_string()));
    assert_eq!(check_update(body, "0.5.0"), None);
    assert_eq!(check_update("not json", "0.4.0"), None);
    assert_eq!(check_update(r#"{"crate":{}}"#, "0.4.0"), None);
    assert_eq!(update_notice(Some("1.0".to_string()), "0.9"), Some("1.0".to_string()));
    assert_eq!(update_notice(None, "0.9"), None);
}

#[test]
fn update_notice_only_for_a_newer_version() {
    let body = r#"{"crate":{"newest_version":"0.1.0"}}"#;
    assert_eq!(check_update(body, "0.4.0"), None);
    assert_eq!(update_notice(Some("0.10.0".to_string()), "0.9.9"), Some("0.10.0".to_string()));
    assert_eq!(update_notice(Some("0.9.9".to_string()), "0.10.0"), None);
    assert_eq!(update_notice(Some("1.2".to_string()), "1.2.0"), None);
    assert_eq!(update_notice(Some("1.2.1".to_string()), "1.2"), Some("1.2.1".to_string()));
    assert_eq!(update_notice(Some("2.0.0".to_string()), "10.0.0"), None);
    assert_eq!(update_notice(Some("0.05.0".to_string()), "0.4.0"), Some("0.05.0".to_string()));
    assert_eq!(newer_version("0.5.0-beta", "0.4.9"), true);
    assert_eq!(newer_version("0.4.0", "0.4.0"), false);
}

#[test]
fn icons_by_extension() {
    assert_eq!(get_icon_cached("/a/MAIN.RS", false), "🦀");
    assert_eq!(get_icon_cached("/a/x.yml", false), "⚙️");
    assert_eq!(get_icon_cached("/a/x", true), "📁");
    assert_eq!(get_icon_cached("/a/noext", false), "📄");
    assert_eq!(get_icon("/a/x.cpp", false), "🟣");
    assert_eq!(get_icon("/a/x.TS", false), "🔷");
    assert_eq!(get_icon("/a/x.zip", false), "📦");
    assert_eq!(get_icon("/a/dir", true), "📁");
    assert_eq!(get_icon("/a/x.unknown", false), "📄");
}

#[test]
fn empty_preview_ignores_any_scroll() {
    let (c, s, lines) = preview_view(&Vec::new(), 4, usize::MAX, 3);
    assert_eq!((c, s), (4, usize::MAX));
    assert_eq!(lines, vec!["No preview".to_string()]);
}

#[test]
fn preview_without_room_ignores_any_scroll() {
    let content = vec!["a".to_string(), "b".to_string()];
    let (c, s, lines) = preview_view(&content, 1, usize::MAX, 0);
    assert_eq!((c, s), (0, 0));
    assert!(lines.is_empty());
}
