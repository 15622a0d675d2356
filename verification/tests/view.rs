use rex_fm::app::{App, Pane};
use rex_fm::config::AppConfig;
use rex_fm::navigator::DirEntry;
use rex_fm::view::{
    badge_rect, badge_width, centered_rect, delete_label, entry_labels, format_modified, format_permissions, info_dir,
    info_kind, info_name, left_title, list_highlight, open_with_items, open_with_popup_height, preview_highlight,
    preview_rows, rename_split, result_label, right_title, search_hint, search_placeholder, search_title, small_size,
    status_text, text_popup_height, update_badge, EntryKind, Rect,
};

fn entry(name: &str, is_dir: bool) -> DirEntry {
    DirEntry { name: name.to_string(), is_dir }
}

#[test]
fn centered_rect_is_centered_and_inside() {
    let r = Rect { x: 0, y: 0, width: 100, height: 40 };
    assert_eq!(centered_rect(50, 7, r), Rect { x: 25, y: 16, width: 50, height: 7 });
    let small = Rect { x: 2, y: 3, width: 10, height: 4 };
    let c = centered_rect(50, 9, small);
    assert_eq!(c, Rect { x: 4, y: 3, width: 5, height: 4 });
    assert!(c.x >= small.x && c.x + c.width <= small.x + small.width);
    assert!(c.y >= small.y && c.y + c.height <= small.y + small.height);
}

#[test]
fn popup_heights_fit_the_screen() {
    assert_eq!(open_with_popup_height(3, 40), 7);
    assert_eq!(open_with_popup_height(50, 20), 16);
    assert_eq!(text_popup_height(33, 50), 35);
    assert_eq!(text_popup_height(33, 20), 18);
    assert_eq!(preview_rows(10), 8);
    assert_eq!(preview_rows(1), 0);
}

#[test]
fn titles_star_the_focused_pane() {
    assert_eq!(left_title(Pane::Left), "Left Pane *");
    assert_eq!(left_title(Pane::Right), "Left Pane");
    assert_eq!(right_title(Pane::Right), "Preview *");
    assert_eq!(right_title(Pane::Left), "Preview");
    assert_eq!(list_highlight(Pane::Left, 4), Some(4));
    assert_eq!(list_highlight(Pane::Right, 4), None);
    assert_eq!(preview_highlight(Pane::Right, 7, 5), Some(2));
    assert_eq!(preview_highlight(Pane::Right, 3, 5), Some(0));
    assert_eq!(preview_highlight(Pane::Left, 7, 5), None);
}

#[test]
fn status_bar_and_badge() {
    assert_eq!(status_text(&Some("hi".to_string())), "hi");
    assert_eq!(
        status_text(&None),
        "rex | q:quit  Tab:pane  hjkl:nav  r:rename  i:info  d:delete  y:copy  p:paste  u:undo  /:search"
    );
    let b = update_badge("1.2.3");
    assert_eq!(b, " ★ Update available: 1.2.3  Press U to install ");
    assert_eq!(badge_width(&b) as usize, b.len());
    let bar = Rect { x: 0, y: 39, width: 120, height: 1 };
    assert_eq!(badge_rect(bar, 10), Some(Rect { x: 110, y: 39, width: 10, height: 1 }));
    assert_eq!(badge_rect(bar, 120), None);
}

#[test]
fn list_labels_mark_parent_selection_and_clipboard() {
    let mut a = App::new(
        "/home/u".to_string(),
        vec![entry("src", true), entry("a.rs", false), entry("b.txt", false)],
        AppConfig::new(),
    );
    a.selected = vec!["/home/u/a.rs".to_string()];
    a.clipboard = Some("/home/u/b.txt".to_string());
    let labels = entry_labels(&a);
    let texts: Vec<String> = labels.iter().map(|l| l.0.clone()).collect();
    assert_eq!(texts, vec!["⬆️ home", "📁 src", "[x] 🦀 a.rs", "[y] 📄 b.txt"]);
    assert_eq!(labels[0].1, EntryKind::Parent);
    assert_eq!(labels[1].1, EntryKind::Dir);
    assert_eq!(labels[2].1, EntryKind::Plain);
    a.cut_mode = true;
    assert_eq!(entry_labels(&a)[3].0, "[x] 📄 b.txt");
}

#[test]
fn parent_root_shows_its_path() {
    let a = App::new("/home".to_string(), vec![], AppConfig::new());
    assert_eq!(entry_labels(&a)[0].0, "⬆️ /");
}

#[test]
fn search_labels_are_relative_to_the_pane() {
    assert_eq!(result_label("/home/u/docs/a.txt", "/home/u", false), "~ docs/a.txt");
    assert_eq!(result_label("/etc/x", "/home/u", true), "/ /etc/x");
    assert_eq!(result_label("/etc/x/", "/home/u", false), "/ /etc/x/");
    assert_eq!(search_placeholder(&String::new()), "Type to search…");
    assert_eq!(search_placeholder(&"x".to_string()), "No results");
    assert_eq!(search_title(true, "ab"), " 🌐 Global Search: ab█ ");
    assert_eq!(search_title(false, ""), " 📁 Local Search: █ ");
    assert_eq!(search_hint(false, "ab"), " / (local): ab | j/k:nav  Enter:goto  Esc/q:cancel ");
    assert_eq!(search_hint(true, "q"), " g (global /): q | j/k:nav  Enter:goto  Esc/q:cancel ");
}

#[test]
fn delete_label_names_the_target() {
    let mut a = App::new("/home/u".to_string(), vec![entry("a.rs", false)], AppConfig::new());
    assert_eq!(delete_label(&a), "home");
    a.left.cursor = 1;
    assert_eq!(delete_label(&a), "a.rs");
    a.selected = vec!["/x".to_string(), "/y".to_string()];
    assert_eq!(delete_label(&a), "2 selected item(s)");
    let b = App::new("/".to_string(), vec![], AppConfig::new());
    assert_eq!(delete_label(&b), "this item");
}

#[test]
fn rename_split_cuts_at_the_caret() {
    let s = "héllo".to_string();
    assert_eq!(rename_split(&s, 2), ("hé".to_string(), "llo".to_string()));
    assert_eq!(rename_split(&s, 0), (String::new(), s.clone()));
    assert_eq!(rename_split(&s, 9), (s.clone(), String::new()));
}

#[test]
fn open_with_rows_are_indented() {
    let v = vec!["vim".to_string(), "nano".to_string()];
    assert_eq!(open_with_items(&v), vec!["  vim".to_string(), "  nano".to_string()]);
}

#[test]
fn file_information_fields() {
    assert_eq!(info_name("/home/u/a.rs"), "a.rs");
    assert_eq!(info_name("/"), "/");
    assert_eq!(info_dir("/home/u/a.rs"), "/home/u");
    assert_eq!(info_dir("/"), "");
    assert_eq!(info_kind(true), "Directory");
    assert_eq!(info_kind(false), "File");
    assert_eq!(small_size(512, false), Some("512 B".to_string()));
    assert_eq!(small_size(0, false), Some("0 B".to_string()));
    assert_eq!(small_size(5000, true), Some("—".to_string()));
    assert_eq!(small_size(1024, false), None);
}

#[test]
fn permissions_string() {
    assert_eq!(format_permissions(0o755, true), "drwxr-xr-x");
    assert_eq!(format_permissions(0o644, false), "-rw-r--r--");
    assert_eq!(format_permissions(0, false), "----------");
}

#[test]
fn rough_modification_date() {
    assert_eq!(format_modified(0), "1970-01-01 00:00:00");
    assert_eq!(format_modified(86400 * 400 + 3661), "1971-02-06 01:01:01");
    assert_eq!(format_modified(86400 * 364 + 59), "1970-13-05 00:00:59");
}
