//! What the screen shows: the areas of the popups, the titles, the labels of
//! the listed entries and search results, the status bar, and the contents of
//! the popups, as text. Drawing them is left to the terminal library.
use vstd::prelude::*;
use crate::app::{cursor_entry, App, Pane};
use crate::icons::{get_icon_cached, list_icon_for, lower_ext};
use crate::keys::{is_parent_entry, is_parent_exec};
use crate::messages::{join3, with_count};
use crate::navigator::strs;
use crate::path::{file_name, file_name_of, parent, parent_of};
use crate::text::{chars_of, concat, decimal, decimal_padded, string_of, to_owned_string, zero_padded};

verus! {

/// A rectangle of terminal cells.
#[derive(Clone, Copy, Debug, PartialEq, Eq, Structural)]
pub struct Rect {
    pub x: u16,
    pub y: u16,
    pub width: u16,
    pub height: u16,
}

/// The rectangle fits in the coordinate range.
pub open spec fn rect_ok(r: Rect) -> bool {
    &&& r.x + r.width <= u16::MAX
    &&& r.y + r.height <= u16::MAX
}

/// `inner` lies inside `outer`.
pub open spec fn inside(inner: Rect, outer: Rect) -> bool {
    &&& outer.x <= inner.x
    &&& inner.x + inner.width <= outer.x + outer.width
    &&& outer.y <= inner.y
    &&& inner.y + inner.height <= outer.y + outer.height
}

/// `a - b`, or 0 when `b` is larger.
pub open spec fn sat_sub(a: int, b: int) -> int {
    if a >= b {
        a - b
    } else {
        0
    }
}

/// `a` or `b`, whichever is smaller.
pub open spec fn min(a: int, b: int) -> int {
    if a <= b {
        a
    } else {
        b
    }
}

/// A popup of `percent_x` percent of the width of `r` and `height` rows,
/// centered in `r` and cut to its size.
pub open spec fn centered_spec(percent_x: int, height: int, r: Rect) -> Rect {
    let popup_width = r.width * percent_x / 100;
    Rect {
        x: (r.x + sat_sub(r.width as int, popup_width) / 2) as u16,
        y: (r.y + sat_sub(r.height as int, height) / 2) as u16,
        width: min(popup_width, r.width as int) as u16,
        height: min(height, r.height as int) as u16,
    }
}

/// A popup of `percent_x` percent of the width of `r` and `height` rows,
/// centered in `r` (see `centered_spec`).
pub fn centered_rect(percent_x: u16, height: u16, r: Rect) -> (c: Rect)
    requires
        r.width * percent_x <= u16::MAX,
        rect_ok(r),
    ensures
        c == centered_spec(percent_x as int, height as int, r),
{
    let popup_width = r.width * percent_x / 100;
    let x = r.x + (if r.width >= popup_width {
        r.width - popup_width
    } else {
        0
    }) / 2;
    let y = r.y + (if r.height >= height {
        r.height - height
    } else {
        0
    }) / 2;
    Rect {
        x,
        y,
        width: if popup_width <= r.width {
            popup_width
        } else {
            r.width
        },
        height: if height <= r.height {
            height
        } else {
            r.height
        },
    }
}

/// A centered popup lies inside the area it is centered in.
pub proof fn law_centered_inside(percent_x: u16, height: u16, r: Rect)
    requires
        r.width * percent_x <= u16::MAX,
        rect_ok(r),
    ensures
        inside(centered_spec(percent_x as int, height as int, r), r),
{
    let pw = r.width * percent_x / 100;
    assert(pw >= 0);
}

/// The rows of a popup listing `n` items, on a screen `screen_height` rows high.
pub fn open_with_popup_height(n: usize, screen_height: u16) -> (h: u16)
    requires
        n + 4 <= u16::MAX,
        screen_height >= 4,
    ensures
        h == min(n + 4, screen_height - 4),
{
    let want = n as u16 + 4;
    let room = screen_height - 4;
    if want <= room {
        want
    } else {
        room
    }
}

/// The rows of a text popup of `lines` lines with its border, on a screen
/// `screen_height` rows high.
pub fn text_popup_height(lines: usize, screen_height: u16) -> (h: u16)
    requires
        lines + 2 <= u16::MAX,
        screen_height >= 2,
    ensures
        h == min(lines + 2, screen_height - 2),
{
    let want = lines as u16 + 2;
    let room = screen_height - 2;
    if want <= room {
        want
    } else {
        room
    }
}

/// The rows of the preview list inside its border.
pub fn preview_rows(pane_height: u16) -> (r: usize)
    ensures
        r == sat_sub(pane_height as int, 2),
{
    if pane_height >= 2 {
        (pane_height - 2) as usize
    } else {
        0
    }
}

/// The title of the file list: starred when it has the focus.
pub fn left_title(active: Pane) -> (r: &'static str)
    ensures
        r@ == if active == Pane::Left {
            "Left Pane *"@
        } else {
            "Left Pane"@
        },
{
    if active == Pane::Left {
        "Left Pane *"
    } else {
        "Left Pane"
    }
}

/// The title of the preview: starred when it has the focus.
pub fn right_title(active: Pane) -> (r: &'static str)
    ensures
        r@ == if active == Pane::Right {
            "Preview *"@
        } else {
            "Preview"@
        },
{
    if active == Pane::Right {
        "Preview *"
    } else {
        "Preview"
    }
}

/// The highlighted row of the preview: the cursor's row in the window, while
/// the preview has the focus.
pub fn preview_highlight(active: Pane, cursor: usize, scroll: usize) -> (r: Option<usize>)
    ensures
        active == Pane::Right ==> r == Some(sat_sub(cursor as int, scroll as int) as usize),
        active != Pane::Right ==> r.is_none(),
{
    if active == Pane::Right {
        Some(
            if cursor >= scroll {
                cursor - scroll
            } else {
                0
            },
        )
    } else {
        None
    }
}

/// The highlighted row of the file list outside search: the cursor, while the
/// list has the focus.
pub fn list_highlight(active: Pane, cursor: usize) -> (r: Option<usize>)
    ensures
        r == if active == Pane::Left {
            Some(cursor)
        } else {
            None::<usize>
        },
{
    if active == Pane::Left {
        Some(cursor)
    } else {
        None
    }
}

/// The key hints shown when there is no status message.
pub open spec fn default_hint() -> Seq<char> {
    "rex | q:quit  Tab:pane  hjkl:nav  r:rename  i:info  d:delete  y:copy  p:paste  u:undo  /:search"@
}

/// The status bar text: the status message, else the key hints.
pub fn status_text(status: &Option<String>) -> (r: String)
    ensures
        r@ == match status {
            Some(m) => m@,
            None => default_hint(),
        },
{
    match status {
        Some(m) => m.clone(),
        None => to_owned_string(
            "rex | q:quit  Tab:pane  hjkl:nav  r:rename  i:info  d:delete  y:copy  p:paste  u:undo  /:search",
        ),
    }
}

/// The update badge for version `ver`.
pub open spec fn badge_text(ver: Seq<char>) -> Seq<char> {
    " ★ Update available: "@ + ver + "  Press U to install "@
}

/// The update badge for version `ver` (see `badge_text`).
pub fn update_badge(ver: &str) -> (r: String)
    ensures
        r@ == badge_text(ver@),
{
    join3(" ★ Update available: ", ver, "  Press U to install ")
}

/// The width the badge `badge` claims: its length in UTF-8 bytes, cut to 16 bits.
pub fn badge_width(badge: &str) -> (w: u16)
    ensures
        w == (vstd::utf8::encode_utf8(badge@).len() as usize) % 0x10000,
{
    let n = badge.len();
    (n % 0x10000) as u16
}

/// Where the badge of width `w` goes on the status bar `bar`: flush right,
/// when it is narrower than the bar.
pub fn badge_rect(bar: Rect, w: u16) -> (r: Option<Rect>)
    requires
        rect_ok(bar),
    ensures
        w < bar.width ==> r == Some(Rect { x: (bar.x + bar.width - w) as u16, y: bar.y, width: w, height: 1 }),
        w >= bar.width ==> r.is_none(),
{
    if w < bar.width {
        Some(Rect { x: bar.x + bar.width - w, y: bar.y, width: w, height: 1 })
    } else {
        None
    }
}

/// How an entry of the file list is drawn.
#[derive(Clone, Copy, Debug, PartialEq, Eq, Structural)]
pub enum EntryKind {
    /// The parent directory, pinned first.
    Parent,
    /// A directory.
    Dir,
    /// Anything else.
    Plain,
}

/// The name shown for `e`: its file name, else the whole path.
pub open spec fn shown_name(e: Seq<char>) -> Seq<char> {
    match file_name_of(e) {
        Some(n) => n,
        None => e,
    }
}

/// The mark before an entry: `[x] ` when selected or cut, `[y] ` when copied.
pub open spec fn entry_mark(selected: bool, on_clipboard: bool, cut: bool) -> Seq<char> {
    if selected || (on_clipboard && cut) {
        "[x] "@
    } else if on_clipboard {
        "[y] "@
    } else {
        ""@
    }
}

/// Whether `e` is the clipboard's path.
pub open spec fn on_clipboard(clipboard: Option<String>, e: Seq<char>) -> bool {
    match clipboard {
        Some(c) => c@ == e,
        None => false,
    }
}

/// The label of entry `i` of the file list: the parent entry with an up arrow
/// and its name; any other with its mark, its icon and its file name.
pub open spec fn entry_label_spec(a: App, i: int) -> Seq<char> {
    let e = a.left.entries@[i]@;
    if is_parent_entry(a.left, e) {
        "⬆️"@ + " "@ + shown_name(e)
    } else {
        entry_mark(strs(a.selected@).contains(e), on_clipboard(a.clipboard, e), a.cut_mode) + (if a.left.entry_is_dir@[i] {
            "📁"@
        } else {
            list_icon_for(lower_ext(e))
        }) + " "@ + file_name_of(e).unwrap()
    }
}

/// How entry `i` of the file list is drawn.
pub open spec fn entry_kind_spec(a: App, i: int) -> EntryKind {
    if is_parent_entry(a.left, a.left.entries@[i]@) {
        EntryKind::Parent
    } else if a.left.entry_is_dir@[i] {
        EntryKind::Dir
    } else {
        EntryKind::Plain
    }
}

/// Every entry of the file list but the parent entry has a file name.
pub open spec fn entries_named(a: App) -> bool {
    forall|i: int|
        0 <= i < a.left.entries@.len() && !is_parent_entry(a.left, #[trigger] a.left.entries@[i]@)
            ==> file_name_of(a.left.entries@[i]@).is_some()
}

fn contains_string(v: &Vec<String>, s: &String) -> (r: bool)
    ensures
        r == strs(v@).contains(s@),
{
    for i in 0..v.len()
        invariant
            forall|j: int| 0 <= j < i ==> strs(v@)[j] != s@,
    {
        if crate::text::str_eq(v[i].as_str(), s.as_str()) {
            assert(strs(v@)[i as int] == s@);
            return true;
        }
    }
    false
}

fn on_clipboard_exec(clipboard: &Option<String>, e: &String) -> (r: bool)
    ensures
        r == on_clipboard(*clipboard, e@),
{
    match clipboard {
        Some(c) => crate::text::str_eq(c.as_str(), e.as_str()),
        None => false,
    }
}

fn entry_label(a: &App, i: usize) -> (r: (String, EntryKind))
    requires
        a.left.wf(),
        i < a.left.entries@.len(),
        entries_named(*a),
    ensures
        r.0@ == entry_label_spec(*a, i as int),
        r.1 == entry_kind_spec(*a, i as int),
{
    let e = &a.left.entries[i];
    let is_dir = a.left.entry_is_dir[i];
    if is_parent_exec(&a.left, e) {
        let name = match file_name(e.as_str()) {
            Some(n) => n,
            None => e.clone(),
        };
        (join3("⬆️", " ", name.as_str()), EntryKind::Parent)
    } else {
        let sel = contains_string(&a.selected, e);
        let clip = on_clipboard_exec(&a.clipboard, e);
        let mark = if sel || (clip && a.cut_mode) {
            "[x] "
        } else if clip {
            "[y] "
        } else {
            ""
        };
        let icon = get_icon_cached(e.as_str(), is_dir);
        let name = file_name(e.as_str()).unwrap();
        let head = join3(mark, icon, " ");
        let label = concat(head.as_str(), name.as_str());
        (label, if is_dir {
            EntryKind::Dir
        } else {
            EntryKind::Plain
        })
    }
}

/// The labels of the file list, with how each is drawn (see `entry_label_spec`).
pub fn entry_labels(a: &App) -> (r: Vec<(String, EntryKind)>)
    requires
        a.left.wf(),
        entries_named(*a),
    ensures
        r@.len() == a.left.entries@.len(),
        forall|i: int|
            0 <= i < r@.len() ==> (#[trigger] r@[i]).0@ == entry_label_spec(*a, i) && r@[i].1
                == entry_kind_spec(*a, i),
{
    let mut r: Vec<(String, EntryKind)> = Vec::new();
    for i in 0..a.left.entries.len()
        invariant
            a.left.wf(),
            entries_named(*a),
            r@.len() == i,
            forall|j: int|
                0 <= j < i ==> (#[trigger] r@[j]).0@ == entry_label_spec(*a, j) && r@[j].1
                    == entry_kind_spec(*a, j),
    {
        let l = entry_label(a, i);
        r.push(l);
    }
    r
}

/// What `Path::strip_prefix` gives for `p` and `base`: the rest of `p` after
/// the components of `base`, or nothing when `base` does not start `p`.
pub uninterp spec fn path_strip_prefix(p: Seq<char>, base: Seq<char>) -> Option<Seq<char>>;

/// Trusted: `Path::strip_prefix` of `p` by `base`; the result is named
/// `path_strip_prefix`.
#[verifier::external_body]
fn strip_base(p: &str, base: &str) -> (r: Option<String>)
    ensures
        match r {
            Some(s) => path_strip_prefix(p@, base@) == Some(s@),
            None => path_strip_prefix(p@, base@).is_none(),
        },
{
    std::path::Path::new(p).strip_prefix(base).ok().map(|q| q.to_string_lossy().into_owned())
}

/// The label of a search result `p` when the pane shows `base`: `/` for a
/// directory (by a trailing `/` or by `is_dir`) else `~`, then the path
/// relative to `base` when it lies under it, else the whole path.
pub open spec fn result_label_spec(p: Seq<char>, base: Seq<char>, is_dir: bool) -> Seq<char> {
    (if (p.len() > 0 && p.last() == '/') || is_dir {
        "/"@
    } else {
        "~"@
    }) + " "@ + match path_strip_prefix(p, base) {
        Some(r) => r,
        None => p,
    }
}

/// The label of a search result (see `result_label_spec`).
pub fn result_label(p: &str, base: &str, is_dir: bool) -> (r: String)
    ensures
        r@ == result_label_spec(p@, base@, is_dir),
{
    let cs = chars_of(p);
    let slash_end = cs.len() > 0 && cs[cs.len() - 1] == '/';
    let icon = if slash_end || is_dir {
        "/"
    } else {
        "~"
    };
    let shown = match strip_base(p, base) {
        Some(s) => s,
        None => to_owned_string(p),
    };
    join3(icon, " ", shown.as_str())
}

/// The line shown when there are no search results.
pub fn search_placeholder(query: &String) -> (r: &'static str)
    ensures
        r@ == if query@.len() == 0 {
            "Type to search…"@
        } else {
            "No results"@
        },
{
    if query.as_str().is_empty() {
        "Type to search…"
    } else {
        "No results"
    }
}

/// The title of the search results.
pub open spec fn search_title_spec(global: bool, query: Seq<char>) -> Seq<char> {
    " "@ + (if global {
        "🌐 Global"@
    } else {
        "📁 Local"@
    }) + " Search: "@ + query + "█ "@
}

/// The title of the search results (see `search_title_spec`).
pub fn search_title(global: bool, query: &str) -> (r: String)
    ensures
        r@ == search_title_spec(global, query@),
{
    let scope = if global {
        "🌐 Global"
    } else {
        "📁 Local"
    };
    let head = join3(" ", scope, " Search: ");
    join3(head.as_str(), query, "█ ")
}

/// The status bar while searching.
pub open spec fn search_hint_spec(global: bool, query: Seq<char>) -> Seq<char> {
    " "@ + (if global {
        "g (global /):"@
    } else {
        "/ (local):"@
    }) + " "@ + query + " | j/k:nav  Enter:goto  Esc/q:cancel "@
}

/// The status bar while searching (see `search_hint_spec`).
pub fn search_hint(global: bool, query: &str) -> (r: String)
    ensures
        r@ == search_hint_spec(global, query@),
{
    let scope = if global {
        "g (global /):"
    } else {
        "/ (local):"
    };
    let head = join3(" ", scope, " ");
    join3(head.as_str(), query, " | j/k:nav  Enter:goto  Esc/q:cancel ")
}

/// What the delete confirmation names: the number of selected items, else the
/// file name of the entry under the cursor, else "this item".
pub open spec fn delete_label_spec(a: App) -> Seq<char> {
    if a.selected@.len() > 0 {
        decimal(a.selected@.len()) + " selected item(s)"@
    } else if a.left.cursor < a.left.entries@.len() && file_name_of(cursor_entry(a.left)).is_some() {
        file_name_of(cursor_entry(a.left)).unwrap()
    } else {
        "this item"@
    }
}

/// What the delete confirmation names (see `delete_label_spec`).
pub fn delete_label(a: &App) -> (r: String)
    ensures
        r@ == delete_label_spec(*a),
{
    if a.selected.len() > 0 {
        proof {
            reveal_strlit("");
        }
        with_count("", a.selected.len() as u64, " selected item(s)")
    } else if a.left.cursor < a.left.entries.len() {
        match file_name(a.left.entries[a.left.cursor].as_str()) {
            Some(n) => n,
            None => to_owned_string("this item"),
        }
    } else {
        to_owned_string("this item")
    }
}

/// The name being edited, cut at the caret: what comes before it and after it.
pub fn rename_split(buffer: &String, caret: usize) -> (r: (String, String))
    ensures
        caret <= buffer@.len() ==> r.0@ == buffer@.take(caret as int) && r.1@ == buffer@.skip(caret as int),
        caret > buffer@.len() ==> r.0@ == buffer@ && r.1@.len() == 0,
{
    let cs = chars_of(buffer.as_str());
    let mut before: Vec<char> = Vec::new();
    let mut after: Vec<char> = Vec::new();
    for i in 0..cs.len()
        invariant
            cs@ == buffer@,
            i <= caret ==> before@ == cs@.take(i as int) && after@.len() == 0,
            i > caret ==> before@ == cs@.take(caret as int) && after@ == cs@.subrange(caret as int, i as int),
    {
        if i < caret {
            before.push(cs[i]);
            assert(before@ =~= cs@.take(i + 1));
        } else {
            after.push(cs[i]);
            assert(after@ =~= cs@.subrange(caret as int, i + 1));
        }
    }
    assert(cs@.take(cs@.len() as int) =~= cs@);
    assert(cs@.subrange(caret as int, cs@.len() as int) =~= cs@.skip(caret as int));
    (string_of(&before), string_of(&after))
}

/// The rows of the open-with popup: each option indented by two spaces.
pub fn open_with_items(options: &Vec<String>) -> (r: Vec<String>)
    ensures
        r@.len() == options@.len(),
        forall|i: int| 0 <= i < r@.len() ==> (#[trigger] r@[i])@ == "  "@ + options@[i]@,
{
    let mut r: Vec<String> = Vec::new();
    for i in 0..options.len()
        invariant
            r@.len() == i,
            forall|j: int| 0 <= j < i ==> (#[trigger] r@[j])@ == "  "@ + options@[j]@,
    {
        r.push(concat("  ", options[i].as_str()));
    }
    r
}

/// The name shown in the file information: the file name, else the path.
pub fn info_name(p: &str) -> (r: String)
    ensures
        r@ == shown_name(p@),
{
    match file_name(p) {
        Some(n) => n,
        None => to_owned_string(p),
    }
}

/// The directory shown in the file information: the parent, else nothing.
pub fn info_dir(p: &str) -> (r: String)
    ensures
        r@ == match parent_of(p@) {
            Some(d) => d,
            None => Seq::empty(),
        },
{
    match parent(p) {
        Some(d) => d,
        None => String::new(),
    }
}

/// The kind shown in the file information.
pub fn info_kind(is_dir: bool) -> (r: &'static str)
    ensures
        r@ == if is_dir {
            "Directory"@
        } else {
            "File"@
        },
{
    if is_dir {
        "Directory"
    } else {
        "File"
    }
}

/// The size shown for a directory or a file under 1 KiB; larger sizes are
/// shown in KB or MB with decimals, which is left to the caller (`None`).
pub open spec fn small_size_spec(bytes: u64, is_dir: bool) -> Option<Seq<char>> {
    if is_dir {
        Some("—"@)
    } else if bytes < 1024 {
        Some(decimal(bytes as nat) + " B"@)
    } else {
        None
    }
}

/// The size shown in the file information when it needs no fraction (see `small_size_spec`).
pub fn small_size(bytes: u64, is_dir: bool) -> (r: Option<String>)
    ensures
        match r {
            Some(t) => small_size_spec(bytes, is_dir) == Some(t@),
            None => small_size_spec(bytes, is_dir).is_none(),
        },
{
    if is_dir {
        Some(to_owned_string("—"))
    } else if bytes < 1024 {
        proof {
            reveal_strlit("");
        }
        Some(with_count("", bytes, " B"))
    } else {
        None
    }
}

/// `yes` when bit `mask` is set in `mode`, else `-`.
pub open spec fn perm_char(mode: u32, mask: u32, yes: char) -> char {
    if mode & mask != 0 {
        yes
    } else {
        '-'
    }
}

/// The permission string: `d` or `-`, then read, write and execute for the
/// owner, the group and the others.
pub open spec fn permissions_spec(mode: u32, is_dir: bool) -> Seq<char> {
    seq![
        if is_dir {
            'd'
        } else {
            '-'
        },
        perm_char(mode, 0o400, 'r'),
        perm_char(mode, 0o200, 'w'),
        perm_char(mode, 0o100, 'x'),
        perm_char(mode, 0o040, 'r'),
        perm_char(mode, 0o020, 'w'),
        perm_char(mode, 0o010, 'x'),
        perm_char(mode, 0o004, 'r'),
        perm_char(mode, 0o002, 'w'),
        perm_char(mode, 0o001, 'x'),
    ]
}

fn perm_char_exec(mode: u32, mask: u32, yes: char) -> (c: char)
    ensures
        c == perm_char(mode, mask, yes),
{
    if mode & mask != 0 {
        yes
    } else {
        '-'
    }
}

/// The permission string (see `permissions_spec`).
pub fn format_permissions(mode: u32, is_dir: bool) -> (r: String)
    ensures
        r@ == permissions_spec(mode, is_dir),
{
    let mut cs: Vec<char> = Vec::new();
    cs.push(
        if is_dir {
            'd'
        } else {
            '-'
        },
    );
    cs.push(perm_char_exec(mode, 0o400, 'r'));
    cs.push(perm_char_exec(mode, 0o200, 'w'));
    cs.push(perm_char_exec(mode, 0o100, 'x'));
    cs.push(perm_char_exec(mode, 0o040, 'r'));
    cs.push(perm_char_exec(mode, 0o020, 'w'));
    cs.push(perm_char_exec(mode, 0o010, 'x'));
    cs.push(perm_char_exec(mode, 0o004, 'r'));
    cs.push(perm_char_exec(mode, 0o002, 'w'));
    cs.push(perm_char_exec(mode, 0o001, 'x'));
    assert(cs@ =~= permissions_spec(mode, is_dir));
    string_of(&cs)
}

/// The rough date of `secs` seconds after the epoch: years of 365 days and
/// months of 30 days, as `YYYY-MM-DD HH:MM:SS`.
pub open spec fn modified_spec(secs: nat) -> Seq<char> {
    let days = secs / 86400;
    let remaining = days % 365;
    zero_padded(decimal(1970 + days / 365), 4) + "-"@ + zero_padded(decimal(remaining / 30 + 1), 2)
        + "-"@ + zero_padded(decimal(remaining % 30 + 1), 2) + " "@ + zero_padded(
        decimal((secs / 3600) % 24),
        2,
    ) + ":"@ + zero_padded(decimal((secs / 60) % 60), 2) + ":"@ + zero_padded(decimal(secs % 60), 2)
}

/// The modification time shown in the file information (see `modified_spec`).
pub fn format_modified(secs: u64) -> (r: String)
    ensures
        r@ == modified_spec(secs as nat),
{
    let s = secs % 60;
    let m = (secs / 60) % 60;
    let h = (secs / 3600) % 24;
    let days = secs / 86400;
    let y = 1970 + days / 365;
    let remaining = days % 365;
    let mo = remaining / 30 + 1;
    let d2 = remaining % 30 + 1;
    let ys = decimal_padded(y, 4);
    let mos = decimal_padded(mo, 2);
    let ds = decimal_padded(d2, 2);
    let hs = decimal_padded(h, 2);
    let ms = decimal_padded(m, 2);
    let ss = decimal_padded(s, 2);
    let a = join3(ys.as_str(), "-", mos.as_str());
    let b = join3(a.as_str(), "-", ds.as_str());
    let c = join3(b.as_str(), " ", hs.as_str());
    let d = join3(c.as_str(), ":", ms.as_str());
    join3(d.as_str(), ":", ss.as_str())
}

} // verus!
