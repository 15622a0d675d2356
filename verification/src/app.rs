//! The application state: panes, preview scrolling, selection, clipboard,
//! history, search, popups, and the rules that change them.
use vstd::prelude::*;
use crate::config::AppConfig;
use crate::icons::{get_icon, lower_ext, preview_icon_for};
use crate::navigator::{layout, strs, DirEntry, Navigator};
use crate::order::views;
use crate::path::{join, join_path};
use crate::text::{concat, contains_seq, lines, lines_of, str_contains, to_owned_string};

verus! {

/// Which pane has the focus.
#[derive(Clone, Copy, Debug, PartialEq, Eq, Structural)]
pub enum Pane {
    Left,
    Right,
}

/// What a search keeps.
#[derive(Clone, Copy, Debug, PartialEq, Eq, Structural)]
pub enum SearchFilter {
    /// Everything that is not hidden.
    All,
    /// Regular files that are not hidden.
    Files,
    /// Directories that are not hidden.
    Folders,
    /// Hidden entries only, searched from the root.
    System,
}

/// An operation that can be undone.
pub enum Operation {
    /// Items moved to the trash: (original path, path in the trash).
    DeleteBatch { items: Vec<(String, String)> },
    /// A copy made at `to`.
    Copy { _from: String, to: String },
    /// A move from `from` to `to`.
    Move { from: String, to: String },
}

/// What the preview of the entry under the cursor is made from.
pub enum PreviewSource {
    /// There is no entry under the cursor.
    NoEntry,
    /// The entry is a directory with this listing, in the order it was read.
    Dir(Vec<DirEntry>),
    /// The entry is a directory that could not be read.
    DirUnreadable,
    /// The entry is a file with this text.
    Text(String),
    /// The entry is a file that is not readable text.
    Unreadable,
}

/// How long a timed status message stays, in milliseconds.
pub const STATUS_TIMEOUT_MS: u64 = 3000;

/// When a timed status message shown at `now` expires (the clock's end when
/// that is sooner).
pub open spec fn status_deadline(now: u64) -> u64 {
    if now <= u64::MAX - STATUS_TIMEOUT_MS {
        (now + STATUS_TIMEOUT_MS) as u64
    } else {
        u64::MAX
    }
}

/// `b` is `a` after the status message `msg` arrived at `now`: a message
/// about the missing `fd` is shown (for a while) only when none was shown yet,
/// any other always.
pub open spec fn status_received(a: App, b: App, msg: Seq<char>, now: u64) -> bool {
    if contains_seq(msg, "fd not installed"@) && a.warned_no_fd {
        same_status(a, b)
    } else {
        &&& b.status_msg.is_some() && b.status_msg.unwrap()@ == msg
        &&& b.status_expires_at == Some(status_deadline(now))
        &&& b.warned_no_fd == (a.warned_no_fd || contains_seq(msg, "fd not installed"@))
    }
}

/// The state of the file manager.
pub struct App {
    pub left: Navigator,
    pub preview_content: Vec<String>,
    /// The cursor the preview was last read for.
    pub preview_cached_cursor: Option<usize>,
    pub active_pane: Pane,
    pub should_quit: bool,
    pub preview_mode: bool,
    pub preview_scroll: usize,
    pub preview_cursor: usize,
    pub visible_height: usize,
    pub clipboard: Option<String>,
    pub cut_mode: bool,
    pub confirm_delete: bool,
    pub history: Vec<Operation>,
    pub status_msg: Option<String>,
    /// When the current timed status message expires.
    pub status_expires_at: Option<u64>,
    /// Selected paths, each once.
    pub selected: Vec<String>,
    pub config: AppConfig,
    pub search_mode: bool,
    pub search_query: String,
    pub search_results: Vec<String>,
    pub search_cursor: usize,
    pub search_filter: SearchFilter,
    pub global_search: bool,
    pub open_with_mode: bool,
    pub open_with_options: Vec<String>,
    pub open_with_cursor: usize,
    pub show_help: bool,
    pub rename_mode: bool,
    pub input_buffer: String,
    /// Caret position inside `input_buffer`, in characters.
    pub rename_cursor: usize,
    pub show_info: bool,
    pub update_available: Option<String>,
    pub show_update_popup: bool,
    pub show_changelog: bool,
    pub changelog_lines: Vec<String>,
    pub changelog_scroll: usize,
    /// Typing the name of a new file or folder.
    pub input_mode: bool,
    pub input_text: String,
    /// Whether the item being created is a folder.
    pub create_dir: bool,
    /// Whether the missing-`fd` warning was already shown.
    pub warned_no_fd: bool,
}

/// `a` and `b` agree on the directory pane.
pub open spec fn same_nav(a: App, b: App) -> bool {
    &&& a.left == b.left
}

/// `a` and `b` agree on the preview.
pub open spec fn same_preview(a: App, b: App) -> bool {
    &&& a.preview_content == b.preview_content
    &&& a.preview_cached_cursor == b.preview_cached_cursor
    &&& a.preview_scroll == b.preview_scroll
    &&& a.preview_cursor == b.preview_cursor
    &&& a.visible_height == b.visible_height
    &&& a.preview_mode == b.preview_mode
}

/// `a` and `b` agree on focus, quitting, and the help, info and delete-confirmation popups.
pub open spec fn same_view(a: App, b: App) -> bool {
    &&& a.active_pane == b.active_pane
    &&& a.should_quit == b.should_quit
    &&& a.show_help == b.show_help
    &&& a.show_info == b.show_info
    &&& a.confirm_delete == b.confirm_delete
}

/// `a` and `b` agree on the selection and clipboard.
pub open spec fn same_clip(a: App, b: App) -> bool {
    &&& a.clipboard == b.clipboard
    &&& a.cut_mode == b.cut_mode
    &&& a.selected == b.selected
}

/// `a` and `b` agree on the undo history.
pub open spec fn same_history(a: App, b: App) -> bool {
    &&& a.history == b.history
}

/// `a` and `b` agree on the status line.
pub open spec fn same_status(a: App, b: App) -> bool {
    &&& a.status_msg == b.status_msg
    &&& a.status_expires_at == b.status_expires_at
    &&& a.warned_no_fd == b.warned_no_fd
}

/// `a` and `b` agree on the configuration.
pub open spec fn same_config(a: App, b: App) -> bool {
    &&& a.config == b.config
}

/// `a` and `b` agree on the search.
pub open spec fn same_search(a: App, b: App) -> bool {
    &&& a.search_mode == b.search_mode
    &&& a.search_query == b.search_query
    &&& a.search_results == b.search_results
    &&& a.search_cursor == b.search_cursor
    &&& a.search_filter == b.search_filter
    &&& a.global_search == b.global_search
}

/// `a` and `b` agree on the open-with popup.
pub open spec fn same_open_with(a: App, b: App) -> bool {
    &&& a.open_with_mode == b.open_with_mode
    &&& a.open_with_options == b.open_with_options
    &&& a.open_with_cursor == b.open_with_cursor
}

/// `a` and `b` agree on the rename popup.
pub open spec fn same_rename(a: App, b: App) -> bool {
    &&& a.rename_mode == b.rename_mode
    &&& a.input_buffer == b.input_buffer
    &&& a.rename_cursor == b.rename_cursor
}

/// `a` and `b` agree on the new-item prompt.
pub open spec fn same_create(a: App, b: App) -> bool {
    &&& a.input_mode == b.input_mode
    &&& a.input_text == b.input_text
    &&& a.create_dir == b.create_dir
}

/// `a` and `b` agree on the update and changelog popups.
pub open spec fn same_update(a: App, b: App) -> bool {
    &&& a.update_available == b.update_available
    &&& a.show_update_popup == b.show_update_popup
    &&& a.show_changelog == b.show_changelog
    &&& a.changelog_lines == b.changelog_lines
    &&& a.changelog_scroll == b.changelog_scroll
}

/// The scroll rule, step by step: keep the cursor inside the content, scroll
/// down or up to show it, and leave no empty rows below the last line.
/// Returns the new (cursor, scroll).
pub open spec fn clamp_spec(cursor: nat, scroll: nat, total: nat, height: nat) -> (nat, nat) {
    if total == 0 || height == 0 {
        (0, 0)
    } else {
        let c = if cursor > total - 1 {
            (total - 1) as nat
        } else {
            cursor
        };
        let s1 = if c >= scroll + height {
            (c - height + 1) as nat
        } else {
            scroll
        };
        let s2 = if c < s1 {
            c
        } else {
            s1
        };
        let max_scroll = if total > height {
            (total - height) as nat
        } else {
            0
        };
        let s3 = if s2 > max_scroll {
            max_scroll
        } else {
            s2
        };
        (c, s3)
    }
}

/// After the scroll rule the cursor is on a line of the content, that line is
/// in view, and no empty rows are left below the last line.
pub proof fn law_clamp_invariants(cursor: nat, scroll: nat, total: nat, height: nat)
    requires
        total > 0,
        height > 0,
    ensures
        ({
            let (c, s) = clamp_spec(cursor, scroll, total, height);
            &&& c < total
            &&& s <= c < s + height
            &&& s + height <= total || s == 0
        }),
{
}

/// The scroll rule changes nothing when applied a second time.
pub proof fn law_clamp_idempotent(cursor: nat, scroll: nat, total: nat, height: nat)
    ensures
        ({
            let (c, s) = clamp_spec(cursor, scroll, total, height);
            clamp_spec(c, s, total, height) == (c, s)
        }),
{
}

/// The icon and name shown for an item of a directory preview.
pub open spec fn dir_preview_line(dir: Seq<char>, e: (Seq<char>, bool)) -> Seq<char> {
    let icon = if e.1 {
        "📁"@
    } else {
        preview_icon_for(lower_ext(join_path(dir, e.0)))
    };
    icon + " "@ + e.0
}

/// The preview lines a source gives for the entry at `entry`.
pub open spec fn preview_lines(source: PreviewSource, entry: Seq<char>) -> Seq<Seq<char>> {
    match source {
        PreviewSource::NoEntry => Seq::empty(),
        PreviewSource::Dir(listing) => views(listing@).map_values(
            |e: (Seq<char>, bool)| dir_preview_line(entry, e),
        ),
        PreviewSource::DirUnreadable => Seq::empty(),
        PreviewSource::Text(t) => lines_of(t@),
        PreviewSource::Unreadable => seq!["Binary or unreadable file"@],
    }
}

/// The preview lines in view: the content from the scroll position on, at most
/// `height` of them.
pub open spec fn window(content: Seq<Seq<char>>, scroll: nat, height: nat) -> Seq<Seq<char>> {
    if scroll >= content.len() {
        Seq::empty()
    } else if scroll + height >= content.len() {
        content.subrange(scroll as int, content.len() as int)
    } else {
        content.subrange(scroll as int, (scroll + height) as int)
    }
}

/// The scroll rule on plain numbers: the new (cursor, scroll).
pub fn clamp_values(cursor: usize, scroll: usize, total_lines: usize, visible_height: usize) -> (r: (usize, usize))
    requires
        total_lines == 0 || visible_height == 0 || scroll + visible_height <= usize::MAX,
    ensures
        (r.0 as nat, r.1 as nat) == clamp_spec(cursor as nat, scroll as nat, total_lines as nat, visible_height as nat),
{
    if total_lines == 0 || visible_height == 0 {
        return (0, 0);
    }
    let mut cursor = cursor;
    let mut scroll = scroll;
    let max_cursor = total_lines - 1;
    if cursor > max_cursor {
        cursor = max_cursor;
    }
    if cursor >= scroll + visible_height {
        scroll = cursor - visible_height + 1;
    }
    if cursor < scroll {
        scroll = cursor;
    }
    let max_scroll = if total_lines > visible_height {
        total_lines - visible_height
    } else {
        0
    };
    if scroll > max_scroll {
        scroll = max_scroll;
    }
    (cursor, scroll)
}

/// The path of the entry under the cursor, or the empty path when there is none.
pub open spec fn cursor_entry(nav: Navigator) -> Seq<char> {
    if nav.cursor < nav.entries@.len() {
        nav.entries@[nav.cursor as int]@
    } else {
        Seq::empty()
    }
}

/// The path of the entry under the cursor, or the empty path when there is none.
pub fn cursor_entry_string(nav: &Navigator) -> (r: String)
    ensures
        r@ == cursor_entry(*nav),
{
    if nav.cursor < nav.entries.len() {
        nav.entries[nav.cursor].clone()
    } else {
        String::new()
    }
}

/// The preview lines `source` gives for the entry at `entry`.
pub fn preview_for(source: PreviewSource, entry: &String) -> (r: Vec<String>)
    ensures
        strs(r@) == preview_lines(source, entry@),
{
    match source {
        PreviewSource::NoEntry => Vec::new(),
        PreviewSource::DirUnreadable => Vec::new(),
        PreviewSource::Unreadable => {
            let mut v = Vec::new();
            v.push(to_owned_string("Binary or unreadable file"));
            assert(strs(v@) =~= seq!["Binary or unreadable file"@]);
            v
        },
        PreviewSource::Text(t) => lines(t.as_str()),
        PreviewSource::Dir(listing) => {
            let mut v: Vec<String> = Vec::new();
            let ghost ev = entry@;
            let ghost f = |e: (Seq<char>, bool)| dir_preview_line(ev, e);
            for i in 0..listing.len()
                invariant
                    entry@ == ev,
                    f == (|e: (Seq<char>, bool)| dir_preview_line(ev, e)),
                    strs(v@) == views(listing@).take(i as int).map_values(f),
            {
                let e = &listing[i];
                let p = join(entry.as_str(), e.name.as_str());
                let icon = get_icon(p.as_str(), e.is_dir);
                let a = concat(icon, " ");
                let line = concat(a.as_str(), e.name.as_str());
                let ghost old_v = strs(v@);
                v.push(line);
                proof {
                    assert(views(listing@)[i as int] == e@);
                    assert(views(listing@).take(i + 1) =~= views(listing@).take(i as int).push(e@));
                    assert(line@ == f(e@));
                    assert(strs(v@) =~= old_v.push(line@));
                }
            }
            assert(views(listing@).take(listing@.len() as int) =~= views(listing@));
            v
        },
    }
}

/// The preview cursor, scroll and lines in view for `content` shown in
/// `height` rows: the placeholder and no change when there is no content,
/// else the scroll rule and the window it leaves in view.
pub fn preview_view(content: &Vec<String>, cursor: usize, scroll: usize, height: usize) -> (r: (
    usize,
    usize,
    Vec<String>,
))
    requires
        preview_fits(content@.len(), scroll, height),
    ensures
        content@.len() == 0 ==> strs(r.2@) == seq!["No preview"@] && r.0 == cursor && r.1 == scroll,
        content@.len() > 0 ==> (r.0 as nat, r.1 as nat) == clamp_spec(
            cursor as nat,
            scroll as nat,
            content@.len(),
            height as nat,
        ) && strs(r.2@) == window(strs(content@), r.1 as nat, height as nat),
{
    if content.len() == 0 {
        return (cursor, scroll, no_preview_lines());
    }
    let (c, sc) = clamp_values(cursor, scroll, content.len(), height);
    (c, sc, window_of(content, sc, height))
}

/// A preview of `len` lines scrolled to `scroll` can show `height` more lines
/// without overflow; with no lines, or no room, there is nothing to scroll.
pub open spec fn preview_fits(len: nat, scroll: usize, height: usize) -> bool {
    len > 0 && height > 0 ==> scroll + height <= usize::MAX
}

/// The placeholder shown when there is nothing to preview.
fn no_preview_lines() -> (r: Vec<String>)
    ensures
        strs(r@) == seq!["No preview"@],
{
    let mut r: Vec<String> = Vec::new();
    r.push(to_owned_string("No preview"));
    assert(strs(r@) =~= seq!["No preview"@]);
    r
}

/// The lines of `content` from `start` on, at most `height` of them.
pub fn window_of(content: &Vec<String>, start: usize, height: usize) -> (r: Vec<String>)
    requires
        start + height <= usize::MAX,
    ensures
        strs(r@) == window(strs(content@), start as nat, height as nat),
{
    let total = content.len();
    let mut r: Vec<String> = Vec::new();
    if start >= total {
        return r;
    }
    let end = if start + height >= total {
        total
    } else {
        start + height
    };
    let mut i = start;
    while i < end
        invariant
            start <= i <= end <= total == content@.len(),
            strs(r@) == strs(content@).subrange(start as int, i as int),
        decreases end - i,
    {
        r.push(content[i].clone());
        assert(strs(content@).subrange(start as int, i + 1) =~= strs(content@).subrange(
            start as int,
            i as int,
        ).push(content@[i as int]@));
        i = i + 1;
    }
    r
}

impl App {
    /// The state's own consistency: the pane is consistent, the caret is inside
    /// the name being edited, the open-with cursor is on an option while that
    /// popup is open, the selection holds each path once, and the configuration
    /// lists each extension once.
    pub open spec fn wf(&self) -> bool {
        &&& self.left.wf()
        &&& self.rename_cursor <= self.input_buffer@.len()
        &&& self.open_with_mode ==> self.open_with_cursor < self.open_with_options@.len()
        &&& strs(self.selected@).no_duplicates()
        &&& self.config.wf()
    }

    /// A state with the pane at `cwd` showing `listing`, the given
    /// configuration, and everything else empty, closed or zero.
    pub fn new(cwd: String, listing: Vec<DirEntry>, config: AppConfig) -> (app: App)
        requires
            config.wf(),
        ensures
            app.wf(),
            app.left.path@ == cwd@,
            app.left.cursor == 0,
            layout(cwd@, views(listing@), app.left.entry_views(), app.left.entry_is_dir@),
            app.config == config,
            app.active_pane == Pane::Left,
            !app.should_quit && !app.preview_mode && !app.search_mode && !app.rename_mode
                && !app.input_mode && !app.open_with_mode && !app.confirm_delete && !app.show_help
                && !app.show_info && !app.show_changelog && !app.show_update_popup
                && !app.cut_mode && !app.global_search && !app.create_dir && !app.warned_no_fd,
            app.preview_content@.len() == 0,
            app.preview_cached_cursor.is_none(),
            app.preview_scroll == 0 && app.preview_cursor == 0 && app.visible_height == 0,
            app.clipboard.is_none(),
            app.history@.len() == 0,
            app.status_msg.is_none(),
            app.status_expires_at.is_none(),
            app.selected@.len() == 0,
            app.search_query@.len() == 0,
            app.search_results@.len() == 0,
            app.search_cursor == 0,
            app.search_filter == SearchFilter::All,
            app.open_with_options@.len() == 0,
            app.open_with_cursor == 0,
            app.input_buffer@.len() == 0,
            app.rename_cursor == 0,
            app.update_available.is_none(),
            app.changelog_lines@.len() == 0,
            app.changelog_scroll == 0,
            app.input_text@.len() == 0,
    {
        let left = Navigator::new(cwd, listing);
        let app = App {
            left,
            preview_content: Vec::new(),
            preview_cached_cursor: None,
            active_pane: Pane::Left,
            should_quit: false,
            preview_mode: false,
            preview_scroll: 0,
            preview_cursor: 0,
            visible_height: 0,
            clipboard: None,
            cut_mode: false,
            confirm_delete: false,
            history: Vec::new(),
            status_msg: None,
            status_expires_at: None,
            selected: Vec::new(),
            config,
            search_mode: false,
            search_query: String::new(),
            search_results: Vec::new(),
            search_cursor: 0,
            search_filter: SearchFilter::All,
            global_search: false,
            open_with_mode: false,
            open_with_options: Vec::new(),
            open_with_cursor: 0,
            show_help: false,
            rename_mode: false,
            input_buffer: String::new(),
            rename_cursor: 0,
            show_info: false,
            update_available: None,
            show_update_popup: false,
            show_changelog: false,
            changelog_lines: Vec::new(),
            changelog_scroll: 0,
            input_mode: false,
            input_text: String::new(),
            create_dir: false,
            warned_no_fd: false,
        };
        assert(strs(app.selected@) =~= Seq::<Seq<char>>::empty());
        app
    }

    /// Applies the scroll rule (`clamp_spec`) to the preview cursor and scroll
    /// for `total_lines` lines of content and `visible_height` rows. Call after
    /// any change of the preview cursor, scroll or height.
    pub fn clamp_scroll(&mut self, total_lines: usize, visible_height: usize)
        requires
            total_lines == 0 || visible_height == 0 || old(self).preview_scroll + visible_height
                <= usize::MAX,
        ensures
            (final(self).preview_cursor as nat, final(self).preview_scroll as nat) == clamp_spec(
                old(self).preview_cursor as nat,
                old(self).preview_scroll as nat,
                total_lines as nat,
                visible_height as nat,
            ),
            final(self).preview_content == old(self).preview_content,
            final(self).preview_cached_cursor == old(self).preview_cached_cursor,
            final(self).visible_height == old(self).visible_height,
            final(self).preview_mode == old(self).preview_mode,
            same_nav(*old(self), *final(self)),
            same_view(*old(self), *final(self)),
            same_clip(*old(self), *final(self)),
            same_history(*old(self), *final(self)),
            same_status(*old(self), *final(self)),
            same_config(*old(self), *final(self)),
            same_search(*old(self), *final(self)),
            same_open_with(*old(self), *final(self)),
            same_rename(*old(self), *final(self)),
            same_create(*old(self), *final(self)),
            same_update(*old(self), *final(self)),
    {
        let (c, sc) = clamp_values(self.preview_cursor, self.preview_scroll, total_lines, visible_height);
        self.preview_cursor = c;
        self.preview_scroll = sc;
    }

    /// Whether the preview was read for another cursor position than the current one.
    pub fn preview_stale(&self) -> (r: bool)
        ensures
            r == (self.preview_cached_cursor != Some(self.left.cursor)),
    {
        match self.preview_cached_cursor {
            Some(c) => c != self.left.cursor,
            None => true,
        }
    }

    /// Fills the preview from `source`, read for the entry under the cursor,
    /// and puts the preview cursor and scroll back to the top.
    pub fn refresh_preview(&mut self, source: PreviewSource)
        requires
            old(self).left.wf(),
        ensures
            final(self).preview_cached_cursor == Some(old(self).left.cursor),
            final(self).preview_scroll == 0,
            final(self).preview_cursor == 0,
            strs(final(self).preview_content@) == preview_lines(source, cursor_entry(old(self).left)),
            final(self).visible_height == old(self).visible_height,
            final(self).preview_mode == old(self).preview_mode,
            same_nav(*old(self), *final(self)),
            same_view(*old(self), *final(self)),
            same_clip(*old(self), *final(self)),
            same_history(*old(self), *final(self)),
            same_status(*old(self), *final(self)),
            same_config(*old(self), *final(self)),
            same_search(*old(self), *final(self)),
            same_open_with(*old(self), *final(self)),
            same_rename(*old(self), *final(self)),
            same_create(*old(self), *final(self)),
            same_update(*old(self), *final(self)),
    {
        let entry = cursor_entry_string(&self.left);
        let content = preview_for(source, &entry);
        self.preview_cached_cursor = Some(self.left.cursor);
        self.preview_scroll = 0;
        self.preview_cursor = 0;
        self.preview_content = content;
    }

    /// Sets the height of the preview, applies the scroll rule when there is
    /// content, and returns the lines in view (a placeholder when there is no content).
    pub fn layout_preview(&mut self, visible_height: usize) -> (r: Vec<String>)
        requires
            preview_fits(old(self).preview_content@.len(), old(self).preview_scroll, visible_height),
        ensures
            final(self).visible_height == visible_height,
            old(self).preview_content@.len() == 0 ==> strs(r@) == seq!["No preview"@]
                && final(self).preview_cursor == old(self).preview_cursor
                && final(self).preview_scroll == old(self).preview_scroll,
            old(self).preview_content@.len() > 0 ==> (final(self).preview_cursor as nat,
            final(self).preview_scroll as nat) == clamp_spec(
                old(self).preview_cursor as nat,
                old(self).preview_scroll as nat,
                old(self).preview_content@.len(),
                visible_height as nat,
            ) && strs(r@) == window(
                strs(old(self).preview_content@),
                final(self).preview_scroll as nat,
                visible_height as nat,
            ),
            final(self).preview_content == old(self).preview_content,
            final(self).preview_cached_cursor == old(self).preview_cached_cursor,
            final(self).preview_mode == old(self).preview_mode,
            same_nav(*old(self), *final(self)),
            same_view(*old(self), *final(self)),
            same_clip(*old(self), *final(self)),
            same_history(*old(self), *final(self)),
            same_status(*old(self), *final(self)),
            same_config(*old(self), *final(self)),
            same_search(*old(self), *final(self)),
            same_open_with(*old(self), *final(self)),
            same_rename(*old(self), *final(self)),
            same_create(*old(self), *final(self)),
            same_update(*old(self), *final(self)),
    {
        let (c, sc, lines) = preview_view(
            &self.preview_content,
            self.preview_cursor,
            self.preview_scroll,
            visible_height,
        );
        self.visible_height = visible_height;
        self.preview_cursor = c;
        self.preview_scroll = sc;
        lines
    }

    /// Shows `msg` until `now + STATUS_TIMEOUT_MS`.
    pub fn set_status_timeout(&mut self, msg: String, now: u64)
        ensures
            final(self).status_msg == Some(msg),
            final(self).status_expires_at == Some(status_deadline(now)),
            final(self).warned_no_fd == old(self).warned_no_fd,
            same_nav(*old(self), *final(self)),
            same_preview(*old(self), *final(self)),
            same_view(*old(self), *final(self)),
            same_clip(*old(self), *final(self)),
            same_history(*old(self), *final(self)),
            same_config(*old(self), *final(self)),
            same_search(*old(self), *final(self)),
            same_open_with(*old(self), *final(self)),
            same_rename(*old(self), *final(self)),
            same_create(*old(self), *final(self)),
            same_update(*old(self), *final(self)),
    {
        self.status_msg = Some(msg);
        self.status_expires_at = Some(
            if now <= u64::MAX - STATUS_TIMEOUT_MS {
                now + STATUS_TIMEOUT_MS
            } else {
                u64::MAX
            },
        );
    }

    /// Clears a timed status message once its time is up.

    pub fn update_status_expiry(&mut self, now: u64)
        ensures
            (match old(self).status_expires_at {
                Some(t) => now >= t,
                None => false,
            }) ==> final(self).status_msg.is_none() && final(self).status_expires_at.is_none(),
            !(match old(self).status_expires_at {
                Some(t) => now >= t,
                None => false,
            }) ==> same_status(*old(self), *final(self)),
            final(self).warned_no_fd == old(self).warned_no_fd,
            same_nav(*old(self), *final(self)),
            same_preview(*old(self), *final(self)),
            same_view(*old(self), *final(self)),
            same_clip(*old(self), *final(self)),
            same_history(*old(self), *final(self)),
            same_config(*old(self), *final(self)),
            same_search(*old(self), *final(self)),
            same_open_with(*old(self), *final(self)),
            same_rename(*old(self), *final(self)),
            same_create(*old(self), *final(self)),
            same_update(*old(self), *final(self)),
    {
        match self.status_expires_at {
            Some(t) => {
                if now >= t {
                    self.status_msg = None;
                    self.status_expires_at = None;
                }
            },
            None => {},
        }
    }

    /// A newer version was announced: remember it and open the update popup.
    pub fn receive_update(&mut self, version: String)
        ensures
            final(self).update_available == Some(version),
            final(self).show_update_popup,
            final(self).show_changelog == old(self).show_changelog,
            final(self).changelog_lines == old(self).changelog_lines,
            final(self).changelog_scroll == old(self).changelog_scroll,
            same_nav(*old(self), *final(self)),
            same_preview(*old(self), *final(self)),
            same_view(*old(self), *final(self)),
            same_clip(*old(self), *final(self)),
            same_history(*old(self), *final(self)),
            same_status(*old(self), *final(self)),
            same_config(*old(self), *final(self)),
            same_search(*old(self), *final(self)),
            same_open_with(*old(self), *final(self)),
            same_rename(*old(self), *final(self)),
            same_create(*old(self), *final(self)),
    {
        self.update_available = Some(version);
        self.show_update_popup = true;
    }

    /// A status message from a background task: the missing-`fd` warning is
    /// shown only the first time; any other message always.
    pub fn receive_status(&mut self, msg: String, now: u64)
        ensures
            status_received(*old(self), *final(self), msg@, now),
            same_nav(*old(self), *final(self)),
            same_preview(*old(self), *final(self)),
            same_view(*old(self), *final(self)),
            same_clip(*old(self), *final(self)),
            same_history(*old(self), *final(self)),
            same_config(*old(self), *final(self)),
            same_search(*old(self), *final(self)),
            same_open_with(*old(self), *final(self)),
            same_rename(*old(self), *final(self)),
            same_create(*old(self), *final(self)),
            same_update(*old(self), *final(self)),
    {
        if str_contains(msg.as_str(), "fd not installed") {
            if !self.warned_no_fd {
                self.set_status_timeout(msg, now);
                self.warned_no_fd = true;
            }
        } else {
            self.set_status_timeout(msg, now);
        }
    }
}

} // verus!
