//! Key handling: what each key does in each mode, as a change of state and
//! an effect that the caller carries out (reading a directory, moving files,
//! running a search or a program).
use vstd::prelude::*;
use crate::app::{
    cursor_entry, same_clip, same_config, same_create, same_history, same_nav, same_open_with,
    same_preview, same_rename, same_search, same_status, same_update, same_view, App, Operation,
    SearchFilter,
};
use crate::navigator::{strs, Navigator};

use crate::messages::{
    join3, msg_cut, msg_cut_many, msg_opened, msg_opened_saved, msg_restored, msg_restored_many,
    msg_yanked, msg_yanked_many, with_count,
};
use crate::navigator::{cursor_down, cursor_ok, cursor_up};
use crate::app::{clamp_spec, clamp_values, preview_fits, Pane};
use crate::path::{file_name, file_name_of};
use crate::text::{lowercase_of, str_eq, to_lowercase};
use crate::path::{extension, extension_of, join, join_path, parent, parent_of, set_file_name, with_file_name};
use crate::text::{
    before_first, before_first_exec, chars_of, push_char, strip_all_prefix, strip_all_prefix_exec,
    string_of, trim, trimmed,
};

verus! {

/// A key press.
#[derive(Clone, Copy, Debug, PartialEq, Eq, Structural)]
pub enum Key {
    Char(char),
    Enter,
    Esc,
    Backspace,
    Delete,
    Left,
    Right,
    Up,
    Down,
    Home,
    End,
    Tab,
    F(u8),
    Other,
}

/// What the caller knows from disk when a key arrives.
pub struct KeyContext {
    /// Whether the entry under the cursor is a directory (following links).
    pub cursor_is_dir: bool,
    /// Whether the search result under the search cursor is a directory.
    pub search_target_is_dir: bool,
}

/// Where a search starts.
pub enum SearchRoot {
    /// The filesystem root.
    Slash,
    /// The user's home directory (the root when there is none).
    Home,
    /// This directory.
    Dir(String),
}

/// Work for the caller after a key.
pub enum Effect {
    /// Nothing to do.
    Nothing,
    /// Read the listing of the pane's directory and hand it to
    /// `App::reload_listing` with `focus`; cancel the running search first
    /// when `cancel_search`.
    Reload { focus: Option<String>, cancel_search: bool },
    /// Move each target to the trash, then report with `App::record_trashed`.
    Trash { targets: Vec<String> },
    /// Cancel the running search and start this one.
    StartSearch { query: String, root: SearchRoot, global: bool, filter: SearchFilter },
    /// Cancel the running search.
    CancelSearch,
    /// Create a file (or a folder when `folder`) at `path` unless it exists, then
    /// report with `App::finish_create`.
    Create { path: String, name: String, folder: bool },
    /// Rename `from` to `to`, then report with `App::finish_rename`.
    Rename { from: String, to: String, new_name: String },
    /// Install the new version, then report with `App::finish_update`.
    InstallUpdate,
    /// Run `program` on `path`.
    OpenFile { program: String, path: String },
    /// Save the configuration, then run `program` on `path`.
    OpenWith { program: String, path: String },
    /// Copy (or move when `cut`) each source into `dir`, reporting each with
    /// `App::record_paste` and the end with `App::finish_paste`.
    Paste { sources: Vec<String>, dir: String, cut: bool, from_selection: bool },
    /// Undo `op` on disk, then reload the listing.
    Undo { op: Operation },
}

/// The group of fields of the directory pane (see `same_except`).
pub open spec fn g_nav() -> int {
    1
}

/// The group of fields of the preview.
pub open spec fn g_preview() -> int {
    2
}

/// The group of fields of focus, quitting and the small popups.
pub open spec fn g_view() -> int {
    3
}

/// The group of fields of the clipboard and the selection.
pub open spec fn g_clip() -> int {
    4
}

/// The group of fields of the undo history.
pub open spec fn g_history() -> int {
    5
}

/// The group of fields of the status line.
pub open spec fn g_status() -> int {
    6
}

/// The group of fields of the configuration.
pub open spec fn g_config() -> int {
    7
}

/// The group of fields of the search.
pub open spec fn g_search() -> int {
    8
}

/// The group of fields of the open-with popup.
pub open spec fn g_open_with() -> int {
    9
}

/// The group of fields of the rename popup.
pub open spec fn g_rename() -> int {
    10
}

/// The group of fields of the new-item prompt.
pub open spec fn g_create() -> int {
    11
}

/// The group of fields of the update and changelog popups.
pub open spec fn g_update() -> int {
    12
}

/// `a` and `b` agree on every group of fields but `x`, `y` and `z`.
pub open spec fn same_except(a: App, b: App, x: int, y: int, z: int) -> bool {
    &&& (x != g_nav() && y != g_nav() && z != g_nav()) ==> same_nav(a, b)
    &&& (x != g_preview() && y != g_preview() && z != g_preview()) ==> same_preview(a, b)
    &&& (x != g_view() && y != g_view() && z != g_view()) ==> same_view(a, b)
    &&& (x != g_clip() && y != g_clip() && z != g_clip()) ==> same_clip(a, b)
    &&& (x != g_history() && y != g_history() && z != g_history()) ==> same_history(a, b)
    &&& (x != g_status() && y != g_status() && z != g_status()) ==> same_status(a, b)
    &&& (x != g_config() && y != g_config() && z != g_config()) ==> same_config(a, b)
    &&& (x != g_search() && y != g_search() && z != g_search()) ==> same_search(a, b)
    &&& (x != g_open_with() && y != g_open_with() && z != g_open_with()) ==> same_open_with(a, b)
    &&& (x != g_rename() && y != g_rename() && z != g_rename()) ==> same_rename(a, b)
    &&& (x != g_create() && y != g_create() && z != g_create()) ==> same_create(a, b)
    &&& (x != g_update() && y != g_update() && z != g_update()) ==> same_update(a, b)
}

/// `a` and `b` agree everywhere.
pub open spec fn unchanged(a: App, b: App) -> bool {
    same_except(a, b, 0, 0, 0)
}

/// Whether `p` is the parent of the pane's directory (the pinned first entry).
pub open spec fn is_parent_entry(nav: Navigator, p: Seq<char>) -> bool {
    parent_of(nav.path@) == Some(p)
}

/// There is an entry under the cursor and it is not the parent entry.
pub open spec fn cursor_on_child(nav: Navigator) -> bool {
    nav.cursor < nav.entries@.len() && !is_parent_entry(nav, cursor_entry(nav))
}

/// Whether `p` is the parent of the pane's directory.
pub fn is_parent_exec(nav: &Navigator, p: &String) -> (r: bool)
    ensures
        r == is_parent_entry(*nav, p@),
{
    match parent(nav.path.as_str()) {
        Some(q) => crate::text::str_eq(q.as_str(), p.as_str()),
        None => false,
    }
}

/// Whether the cursor is on an entry other than the parent entry.
pub fn cursor_on_child_exec(nav: &Navigator) -> (r: bool)
    ensures
        r == cursor_on_child(*nav),
{
    if nav.cursor < nav.entries.len() {
        !is_parent_exec(nav, &nav.entries[nav.cursor])
    } else {
        false
    }
}

/// A copy of a list of strings.
pub fn copy_strings(v: &Vec<String>) -> (r: Vec<String>)
    ensures
        strs(r@) == strs(v@),
{
    let mut r: Vec<String> = Vec::new();
    for i in 0..v.len()
        invariant
            strs(r@) == strs(v@).take(i as int),
    {
        r.push(v[i].clone());
        assert(strs(v@).take(i + 1) =~= strs(v@).take(i as int).push(v@[i as int]@));
        assert(strs(r@) =~= strs(v@).take(i as int).push(v@[i as int]@));
    }
    assert(strs(v@).take(v@.len() as int) =~= strs(v@));
    r
}

/// What the delete confirmation removes: the selection if any, else the entry
/// under the cursor unless it is the parent entry.
pub open spec fn delete_targets(a: App) -> Seq<Seq<char>> {
    if a.selected@.len() > 0 {
        strs(a.selected@)
    } else if cursor_on_child(a.left) {
        seq![cursor_entry(a.left)]
    } else {
        Seq::empty()
    }
}

fn delete_targets_exec(nav: &Navigator, selected: &Vec<String>) -> (r: Vec<String>)
    ensures
        strs(r@) == if selected@.len() > 0 {
            strs(selected@)
        } else if cursor_on_child(*nav) {
            seq![cursor_entry(*nav)]
        } else {
            Seq::empty()
        },
{
    if selected.len() > 0 {
        copy_strings(selected)
    } else if cursor_on_child_exec(nav) {
        let mut r = Vec::new();
        r.push(nav.entries[nav.cursor].clone());
        assert(strs(r@) =~= seq![cursor_entry(*nav)]);
        r
    } else {
        let r: Vec<String> = Vec::new();
        assert(strs(r@) =~= Seq::<Seq<char>>::empty());
        r
    }
}

/// Delete confirmed: the targets go to the effect, the selection is emptied
/// when it was used, and the confirmation closes.
pub open spec fn confirm_yes_step(a: App, b: App, eff: Effect) -> bool {
    &&& eff matches Effect::Trash { targets } && strs(targets@) == delete_targets(a)
    &&& !b.confirm_delete
    &&& b.active_pane == a.active_pane && b.should_quit == a.should_quit && b.show_help
        == a.show_help && b.show_info == a.show_info
    &&& b.clipboard == a.clipboard && b.cut_mode == a.cut_mode
    &&& if a.selected@.len() > 0 {
        b.selected@.len() == 0
    } else {
        b.selected == a.selected
    }
    &&& same_except(a, b, g_view(), g_clip(), 0)
}

/// Delete declined: the confirmation closes.
pub open spec fn confirm_no_step(a: App, b: App, eff: Effect) -> bool {
    &&& eff is Nothing
    &&& !b.confirm_delete
    &&& b.active_pane == a.active_pane && b.should_quit == a.should_quit && b.show_help
        == a.show_help && b.show_info == a.show_info
    &&& same_except(a, b, g_view(), 0, 0)
}

/// Keys while the delete confirmation is open.
pub open spec fn confirm_step(a: App, b: App, key: Key, eff: Effect) -> bool {
    if key == Key::Char('y') {
        confirm_yes_step(a, b, eff)
    } else if key == Key::Char('n') || key == Key::Esc {
        confirm_no_step(a, b, eff)
    } else {
        eff is Nothing && unchanged(a, b)
    }
}

/// Where a search of the pane's directory starts.
pub open spec fn search_root_is(root: SearchRoot, global: bool, filter: SearchFilter, dir: Seq<char>) -> bool {
    if global {
        if filter == SearchFilter::System {
            root is Slash
        } else {
            root is Home
        }
    } else {
        root matches SearchRoot::Dir(d) && d@ == dir
    }
}

/// The effect starts the search `b` now describes.
pub open spec fn starts_search(b: App, eff: Effect) -> bool {
    eff matches Effect::StartSearch { query, root, global, filter } && query@ == b.search_query@
        && global == b.global_search && filter == b.search_filter && search_root_is(
        root,
        b.global_search,
        b.search_filter,
        b.left.path@,
    )
}

/// Leaving the search: cancelled, closed, emptied, filter back to all.
pub open spec fn search_exit_step(a: App, b: App, eff: Effect) -> bool {
    &&& eff is CancelSearch
    &&& !b.search_mode
    &&& b.search_query@.len() == 0
    &&& b.search_results@.len() == 0
    &&& b.search_filter == SearchFilter::All
    &&& b.search_cursor == a.search_cursor
    &&& b.global_search == a.global_search
    &&& same_except(a, b, g_search(), 0, 0)
}

/// Jumping to the result under the search cursor (when there is one): the pane
/// goes to the result's directory (the result itself when it is a directory,
/// else its parent), the search closes and is emptied, and the listing is
/// reloaded with the cursor on the result.
pub open spec fn search_enter_step(a: App, b: App, target_is_dir: bool, eff: Effect) -> bool {
    if a.search_cursor < a.search_results@.len() {
        let p = a.search_results@[a.search_cursor as int]@;
        let dir = if target_is_dir {
            p
        } else {
            match parent_of(p) {
                Some(q) => q,
                None => p,
            }
        };
        &&& eff matches Effect::Reload { focus, cancel_search } && focus.is_some() && focus.unwrap()@
            == p && cancel_search
        &&& b.left.path@ == dir
        &&& b.left.entries == a.left.entries
        &&& b.left.entry_is_dir == a.left.entry_is_dir
        &&& b.left.cursor == a.left.cursor
        &&& !b.search_mode
        &&& b.search_query@.len() == 0
        &&& b.search_results@.len() == 0
        &&& b.search_cursor == a.search_cursor
        &&& b.search_filter == a.search_filter
        &&& b.global_search == a.global_search
        &&& same_except(a, b, g_search(), g_nav(), 0)
    } else {
        eff is Nothing && unchanged(a, b)
    }
}

/// A list cursor after moving down (unless on the last item) or up (unless on the first).
pub open spec fn list_cursor_after(c: nat, len: nat, down: bool) -> nat {
    if down {
        if c + 1 < len {
            c + 1
        } else {
            c
        }
    } else {
        if c > 0 {
            (c - 1) as nat
        } else {
            c
        }
    }
}

/// A list cursor after moving down or up.
pub fn list_cursor_after_exec(c: usize, len: usize, down: bool) -> (r: usize)
    ensures
        r == list_cursor_after(c as nat, len as nat, down),
{
    if down {
        if c < len && c + 1 < len {
            c + 1
        } else {
            c
        }
    } else {
        if c > 0 {
            c - 1
        } else {
            c
        }
    }
}

/// Moving the search cursor down (when not on the last result) or up.
pub open spec fn search_move_step(a: App, b: App, down: bool, eff: Effect) -> bool {
    &&& eff is Nothing
    &&& b.search_cursor == list_cursor_after(a.search_cursor as nat, a.search_results@.len(), down)
    &&& b.search_mode == a.search_mode && b.search_query == a.search_query && b.search_results
        == a.search_results && b.search_filter == a.search_filter && b.global_search
        == a.global_search
    &&& same_except(a, b, g_search(), 0, 0)
}

/// Erasing the last character of the query: the results are cleared and, when
/// the query is not empty, the search restarts.
pub open spec fn search_backspace_step(a: App, b: App, eff: Effect) -> bool {
    &&& b.search_query@ == if a.search_query@.len() > 0 {
        a.search_query@.drop_last()
    } else {
        a.search_query@
    }
    &&& b.search_results@.len() == 0
    &&& b.search_mode == a.search_mode && b.search_cursor == a.search_cursor && b.search_filter
        == a.search_filter && b.global_search == a.global_search
    &&& if b.search_query@.len() > 0 {
        starts_search(b, eff)
    } else {
        eff is Nothing
    }
    &&& same_except(a, b, g_search(), 0, 0)
}

/// Choosing a filter: the search restarts when the query is not empty.
pub open spec fn search_filter_step(a: App, b: App, filter: SearchFilter, eff: Effect) -> bool {
    &&& b.search_filter == filter
    &&& b.search_mode == a.search_mode && b.search_query == a.search_query && b.search_results
        == a.search_results && b.search_cursor == a.search_cursor && b.global_search
        == a.global_search
    &&& if a.search_query@.len() > 0 {
        starts_search(b, eff)
    } else {
        eff is Nothing
    }
    &&& same_except(a, b, g_search(), 0, 0)
}

/// Typing a character: it goes at the end of the query and the search restarts.
pub open spec fn search_type_step(a: App, b: App, c: char, eff: Effect) -> bool {
    &&& b.search_query@ == a.search_query@.push(c)
    &&& b.search_mode == a.search_mode && b.search_results == a.search_results
        && b.search_cursor == a.search_cursor && b.search_filter == a.search_filter
        && b.global_search == a.global_search
    &&& starts_search(b, eff)
    &&& same_except(a, b, g_search(), 0, 0)
}

/// The filter a function key chooses: F1 folders, F2 files, F3 hidden
/// entries from the root, F4 everything.
pub open spec fn filter_key(n: u8) -> Option<SearchFilter> {
    if n == 1 {
        Some(SearchFilter::Folders)
    } else if n == 2 {
        Some(SearchFilter::Files)
    } else if n == 3 {
        Some(SearchFilter::System)
    } else if n == 4 {
        Some(SearchFilter::All)
    } else {
        None
    }
}

/// Keys while searching.
pub open spec fn search_step(a: App, b: App, key: Key, ctx: KeyContext, eff: Effect) -> bool {
    match key {
        Key::Esc => search_exit_step(a, b, eff),
        Key::Char(c) => if c == 'q' {
            search_exit_step(a, b, eff)
        } else {
            search_type_step(a, b, c, eff)
        },
        Key::Enter => search_enter_step(a, b, ctx.search_target_is_dir, eff),
        Key::Down => search_move_step(a, b, true, eff),
        Key::Up => search_move_step(a, b, false, eff),
        Key::Backspace => search_backspace_step(a, b, eff),
        Key::F(n) => match filter_key(n) {
            Some(f) => search_filter_step(a, b, f, eff),
            None => eff is Nothing && unchanged(a, b),
        },
        _ => eff is Nothing && unchanged(a, b),
    }
}

/// `s` without its last character, if it has one.
pub fn drop_last_char(s: &String) -> (r: String)
    ensures
        r@ == if s@.len() > 0 {
            s@.drop_last()
        } else {
            s@
        },
{
    let mut cs = chars_of(s.as_str());
    if cs.len() > 0 {
        cs.pop();
    }
    string_of(&cs)
}

fn search_effect(query: &String, global: bool, filter: SearchFilter, dir: &String) -> (eff: Effect)
    ensures
        eff matches Effect::StartSearch { query: q, root, global: g, filter: f } && q@ == query@ && g
            == global && f == filter && search_root_is(root, global, filter, dir@),
{
    let root = if global {
        if filter == SearchFilter::System {
            SearchRoot::Slash
        } else {
            SearchRoot::Home
        }
    } else {
        SearchRoot::Dir(dir.clone())
    };
    Effect::StartSearch { query: query.clone(), root, global, filter }
}

fn filter_key_exec(n: u8) -> (r: Option<SearchFilter>)
    ensures
        r == filter_key(n),
{
    if n == 1 {
        Some(SearchFilter::Folders)
    } else if n == 2 {
        Some(SearchFilter::Files)
    } else if n == 3 {
        Some(SearchFilter::System)
    } else if n == 4 {
        Some(SearchFilter::All)
    } else {
        None
    }
}

/// The directory a search result leads to.
fn jump_dir(p: &String, is_dir: bool) -> (r: String)
    ensures
        r@ == if is_dir {
            p@
        } else {
            match parent_of(p@) {
                Some(q) => q,
                None => p@,
            }
        },
{
    if is_dir {
        p.clone()
    } else {
        match parent(p.as_str()) {
            Some(q) => q,
            None => p.clone(),
        }
    }
}

/// An empty list when `v` has items, else `v` itself.
fn emptied_if_used(v: Vec<String>) -> (r: Vec<String>)
    ensures
        v@.len() > 0 ==> r@.len() == 0,
        v@.len() == 0 ==> r == v,
{
    if v.len() > 0 {
        Vec::new()
    } else {
        v
    }
}

impl App {
    fn confirm_yes(&mut self) -> (eff: Effect)
        ensures
            confirm_yes_step(*old(self), *final(self), eff),
    {
        let targets = delete_targets_exec(&self.left, &self.selected);
        let mut sel: Vec<String> = Vec::new();
        std::mem::swap(&mut sel, &mut self.selected);
        self.selected = emptied_if_used(sel);
        self.confirm_delete = false;
        Effect::Trash { targets }
    }

    fn confirm_no(&mut self) -> (eff: Effect)
        ensures
            confirm_no_step(*old(self), *final(self), eff),
    {
        self.confirm_delete = false;
        Effect::Nothing
    }

    /// A key while the delete confirmation is open.
    pub fn confirm_key(&mut self, key: Key) -> (eff: Effect)
        ensures
            confirm_step(*old(self), *final(self), key, eff),
    {
        if key == Key::Char('y') {
            self.confirm_yes()
        } else if key == Key::Char('n') || key == Key::Esc {
            self.confirm_no()
        } else {
            Effect::Nothing
        }
    }

    fn search_exit(&mut self) -> (eff: Effect)
        ensures
            search_exit_step(*old(self), *final(self), eff),
    {
        self.search_mode = false;
        self.search_query = String::new();
        self.search_results = Vec::new();
        self.search_filter = SearchFilter::All;
        Effect::CancelSearch
    }

    fn search_enter(&mut self, target_is_dir: bool) -> (eff: Effect)
        ensures
            search_enter_step(*old(self), *final(self), target_is_dir, eff),
    {
        if self.search_cursor < self.search_results.len() {
            let p = self.search_results[self.search_cursor].clone();
            let dir = jump_dir(&p, target_is_dir);
            self.left.path = dir;
            self.search_mode = false;
            self.search_query = String::new();
            self.search_results = Vec::new();
            Effect::Reload { focus: Some(p), cancel_search: true }
        } else {
            Effect::Nothing
        }
    }

    fn search_move(&mut self, down: bool) -> (eff: Effect)
        ensures
            search_move_step(*old(self), *final(self), down, eff),
    {
        self.search_cursor = list_cursor_after_exec(self.search_cursor, self.search_results.len(), down);
        Effect::Nothing
    }

    fn search_backspace(&mut self) -> (eff: Effect)
        ensures
            search_backspace_step(*old(self), *final(self), eff),
    {
        let q = drop_last_char(&self.search_query);
        let restart = chars_of(q.as_str()).len() > 0;
        let eff = if restart {
            search_effect(&q, self.global_search, self.search_filter, &self.left.path)
        } else {
            Effect::Nothing
        };
        self.search_query = q;
        self.search_results = Vec::new();
        eff
    }

    fn search_set_filter(&mut self, filter: SearchFilter) -> (eff: Effect)
        ensures
            search_filter_step(*old(self), *final(self), filter, eff),
    {
        let restart = chars_of(self.search_query.as_str()).len() > 0;
        let eff = if restart {
            search_effect(&self.search_query, self.global_search, filter, &self.left.path)
        } else {
            Effect::Nothing
        };
        self.search_filter = filter;
        eff
    }

    fn search_type(&mut self, c: char) -> (eff: Effect)
        ensures
            search_type_step(*old(self), *final(self), c, eff),
    {
        let mut q = self.search_query.clone();
        push_char(&mut q, c);
        let eff = search_effect(&q, self.global_search, self.search_filter, &self.left.path);
        self.search_query = q;
        eff
    }

    /// A key while searching.
    pub fn search_key(&mut self, key: Key, ctx: &KeyContext) -> (eff: Effect)
        ensures
            search_step(*old(self), *final(self), key, *ctx, eff),
    {
        match key {
            Key::Esc => self.search_exit(),
            Key::Char(c) => {
                if c == 'q' {
                    self.search_exit()
                } else {
                    self.search_type(c)
                }
            },
            Key::Enter => self.search_enter(ctx.search_target_is_dir),
            Key::Down => self.search_move(true),
            Key::Up => self.search_move(false),
            Key::Backspace => self.search_backspace(),
            Key::F(n) => match filter_key_exec(n) {
                Some(f) => self.search_set_filter(f),
                None => Effect::Nothing,
            },
            _ => Effect::Nothing,
        }
    }
}

/// The name being edited and its caret after an editing key: arrows, Home
/// and End move the caret, Backspace erases before it, Delete at it, and a
/// character is inserted at it.
pub open spec fn edit_spec(buf: Seq<char>, caret: nat, key: Key) -> (Seq<char>, nat) {
    match key {
        Key::Left => (buf, if caret > 0 {
            (caret - 1) as nat
        } else {
            caret
        }),
        Key::Right => (buf, if caret < buf.len() {
            caret + 1
        } else {
            caret
        }),
        Key::Home => (buf, 0),
        Key::End => (buf, buf.len()),
        Key::Backspace => if caret > 0 {
            (buf.remove(caret - 1), (caret - 1) as nat)
        } else {
            (buf, caret)
        },
        Key::Delete => if caret < buf.len() {
            (buf.remove(caret as int), caret)
        } else {
            (buf, caret)
        },
        Key::Char(c) => (buf.insert(caret as int, c), caret + 1),
        _ => (buf, caret),
    }
}

/// Editing keeps the caret inside the name.
pub proof fn law_edit_keeps_caret(buf: Seq<char>, caret: nat, key: Key)
    requires
        caret <= buf.len(),
    ensures
        edit_spec(buf, caret, key).1 <= edit_spec(buf, caret, key).0.len(),
{
}

/// Typing a character and then erasing it with Backspace gives back the name
/// and caret one started from.
pub proof fn law_type_then_backspace(buf: Seq<char>, caret: nat, c: char)
    requires
        caret <= buf.len(),
    ensures
        ({
            let (b1, c1) = edit_spec(buf, caret, Key::Char(c));
            edit_spec(b1, c1, Key::Backspace)
        }) == (buf, caret),
{
    let b1 = buf.insert(caret as int, c);
    assert(b1.remove(caret as int) =~= buf);
}

/// Applies an editing key to a name and caret.
pub fn edit_buffer(buf: &String, caret: usize, key: Key) -> (r: (String, usize))
    requires
        caret <= buf@.len(),
    ensures
        (r.0@, r.1 as nat) == edit_spec(buf@, caret as nat, key),
{
    let mut cs = chars_of(buf.as_str());
    let n = cs.len();
    match key {
        Key::Left => (string_of(&cs), if caret > 0 { caret - 1 } else { caret }),
        Key::Right => (string_of(&cs), if caret < n { caret + 1 } else { caret }),
        Key::Home => (string_of(&cs), 0),
        Key::End => (string_of(&cs), n),
        Key::Backspace => {
            if caret > 0 {
                cs.remove(caret - 1);
                (string_of(&cs), caret - 1)
            } else {
                (string_of(&cs), caret)
            }
        },
        Key::Delete => {
            if caret < n {
                cs.remove(caret);
                (string_of(&cs), caret)
            } else {
                (string_of(&cs), caret)
            }
        },
        Key::Char(c) => {
            cs.insert(caret, c);
            let m = cs.len();
            assert(caret < m);
            (string_of(&cs), caret + 1)
        },
        _ => (string_of(&cs), caret),
    }
}

/// Leaving the rename popup: closed, name emptied, caret at 0.
pub open spec fn rename_exit_step(a: App, b: App) -> bool {
    &&& !b.rename_mode
    &&& b.input_buffer@.len() == 0
    &&& b.rename_cursor == 0
}

/// Keys while renaming: Esc cancels; Enter asks to rename the entry under the
/// cursor to the name (when it is not the parent entry and the name is not
/// empty) and closes; other keys edit the name (`edit_spec`).
pub open spec fn rename_step(a: App, b: App, key: Key, eff: Effect) -> bool {
    if key == Key::Esc {
        eff is Nothing && rename_exit_step(a, b) && same_except(a, b, g_rename(), 0, 0)
    } else if key == Key::Enter {
        &&& rename_exit_step(a, b)
        &&& same_except(a, b, g_rename(), 0, 0)
        &&& if cursor_on_child(a.left) && a.input_buffer@.len() > 0 {
            eff matches Effect::Rename { from, to, new_name } && from@ == cursor_entry(a.left) && to@
                == with_file_name(cursor_entry(a.left), a.input_buffer@) && new_name@
                == a.input_buffer@
        } else {
            eff is Nothing
        }
    } else {
        &&& eff is Nothing
        &&& b.rename_mode == a.rename_mode
        &&& (b.input_buffer@, b.rename_cursor as nat) == edit_spec(
            a.input_buffer@,
            a.rename_cursor as nat,
            key,
        )
        &&& same_except(a, b, g_rename(), 0, 0)
    }
}

/// Keys while naming a new file or folder: Esc cancels; Backspace erases the
/// last character; a character is appended; Enter asks to create the item in
/// the pane's directory when the name is not empty, and closes.
pub open spec fn create_step(a: App, b: App, key: Key, eff: Effect) -> bool {
    &&& same_except(a, b, g_create(), 0, 0)
    &&& b.create_dir == a.create_dir
    &&& match key {
        Key::Esc => eff is Nothing && !b.input_mode && b.input_text@.len() == 0,
        Key::Backspace => eff is Nothing && b.input_mode == a.input_mode && b.input_text@ == if a.input_text@.len() > 0 {
            a.input_text@.drop_last()
        } else {
            a.input_text@
        },
        Key::Char(c) => eff is Nothing && b.input_mode == a.input_mode && b.input_text@ == a.input_text@.push(c),
        Key::Enter => {
            &&& !b.input_mode
            &&& b.input_text@.len() == 0
            &&& if a.input_text@.len() > 0 {
                eff matches Effect::Create { path, name, folder } && path@ == join_path(
                    a.left.path@,
                    a.input_text@,
                ) && name@ == a.input_text@ && folder == a.create_dir
            } else {
                eff is Nothing
            }
        },
        _ => eff is Nothing && b.input_mode == a.input_mode && b.input_text == a.input_text,
    }
}

/// Keys while the update popup is open: y installs, n or Esc dismisses.
pub open spec fn update_step(a: App, b: App, key: Key, eff: Effect) -> bool {
    if key == Key::Char('y') || key == Key::Char('Y') {
        &&& eff is InstallUpdate
        &&& !b.show_update_popup
        &&& b.update_available == a.update_available && b.show_changelog == a.show_changelog
            && b.changelog_lines == a.changelog_lines && b.changelog_scroll == a.changelog_scroll
        &&& same_except(a, b, g_update(), 0, 0)
    } else if key == Key::Char('n') || key == Key::Char('N') || key == Key::Esc {
        &&& eff is Nothing
        &&& !b.show_update_popup
        &&& b.update_available == a.update_available && b.show_changelog == a.show_changelog
            && b.changelog_lines == a.changelog_lines && b.changelog_scroll == a.changelog_scroll
        &&& same_except(a, b, g_update(), 0, 0)
    } else {
        eff is Nothing && unchanged(a, b)
    }
}

/// Keys while the help popup is open: Esc, ? or q close it.
pub open spec fn help_step(a: App, b: App, key: Key, eff: Effect) -> bool {
    &&& eff is Nothing
    &&& if key == Key::Esc || key == Key::Char('?') || key == Key::Char('q') {
        &&& !b.show_help
        &&& b.active_pane == a.active_pane && b.should_quit == a.should_quit && b.show_info
            == a.show_info && b.confirm_delete == a.confirm_delete
        &&& same_except(a, b, g_view(), 0, 0)
    } else {
        unchanged(a, b)
    }
}

/// Keys while the changelog is open: Esc or q close it, j and k scroll.
pub open spec fn changelog_step(a: App, b: App, key: Key, eff: Effect) -> bool {
    &&& eff is Nothing
    &&& same_except(a, b, g_update(), 0, 0)
    &&& b.update_available == a.update_available && b.show_update_popup == a.show_update_popup
        && b.changelog_lines == a.changelog_lines
    &&& if key == Key::Esc || key == Key::Char('q') {
        !b.show_changelog && b.changelog_scroll == a.changelog_scroll
    } else if key == Key::Char('j') {
        b.show_changelog == a.show_changelog && b.changelog_scroll == list_cursor_after(
            a.changelog_scroll as nat,
            a.changelog_lines@.len(),
            true,
        )
    } else if key == Key::Char('k') {
        b.show_changelog == a.show_changelog && b.changelog_scroll == list_cursor_after(
            a.changelog_scroll as nat,
            a.changelog_lines@.len(),
            false,
        )
    } else {
        b.show_changelog == a.show_changelog && b.changelog_scroll == a.changelog_scroll
    }
}

/// The program named by an open-with option: the option without its leading
/// stars, cut before " (configured)", trimmed.
pub open spec fn option_program(raw: Seq<char>) -> Seq<char> {
    trimmed(before_first(strip_all_prefix(raw, "★ "@), " (configured)"@))
}

/// The program an open-with option names.
pub fn option_app_name(raw: &str) -> (r: String)
    ensures
        r@ == option_program(raw@),
{
    let cs = chars_of(raw);
    let star = chars_of("★ ");
    let a = strip_all_prefix_exec(&cs, &star);
    let suffix = chars_of(" (configured)");
    proof {
        reveal_strlit(" (configured)");
    }
    let b = before_first_exec(&a, &suffix);
    let t = trim(&b);
    string_of(&t)
}

/// The extension of `p`, or the empty string.
pub open spec fn ext_or_empty(p: Seq<char>) -> Seq<char> {
    match extension_of(p) {
        Some(e) => e,
        None => Seq::empty(),
    }
}

/// The extension of `p`, or the empty string.
pub fn ext_or_empty_exec(p: &str) -> (r: String)
    ensures
        r@ == ext_or_empty(p@),
{
    match extension(p) {
        Some(e) => e,
        None => String::new(),
    }
}

/// Keys while the open-with popup is open: Esc or q close it, j and k choose;
/// Enter (when there is an entry under the cursor) saves the chosen program
/// for the entry's extension, asks to open the entry with it, and closes.
pub open spec fn open_with_step(a: App, b: App, key: Key, eff: Effect) -> bool {
    if key == Key::Esc || key == Key::Char('q') {
        &&& eff is Nothing
        &&& !b.open_with_mode && b.open_with_options == a.open_with_options && b.open_with_cursor
            == a.open_with_cursor
        &&& same_except(a, b, g_open_with(), 0, 0)
    } else if key == Key::Char('j') || key == Key::Char('k') {
        &&& eff is Nothing
        &&& b.open_with_mode == a.open_with_mode && b.open_with_options == a.open_with_options
        &&& b.open_with_cursor == list_cursor_after(
            a.open_with_cursor as nat,
            a.open_with_options@.len(),
            key == Key::Char('j'),
        )
        &&& same_except(a, b, g_open_with(), 0, 0)
    } else if key == Key::Enter && a.left.cursor < a.left.entries@.len() {
        let program = option_program(a.open_with_options@[a.open_with_cursor as int]@);
        &&& eff matches Effect::OpenWith { program: p, path } && p@ == program && path@ == cursor_entry(
            a.left,
        )
        &&& b.config.wf()
        &&& b.config.view_map() == a.config.view_map().insert(ext_or_empty(cursor_entry(a.left)), program)
        &&& b.status_msg.is_some() && b.status_msg.unwrap()@ == msg_opened_saved(program)
        &&& b.status_expires_at == a.status_expires_at && b.warned_no_fd == a.warned_no_fd
        &&& !b.open_with_mode && b.open_with_options == a.open_with_options && b.open_with_cursor
            == a.open_with_cursor
        &&& same_except(a, b, g_open_with(), g_config(), g_status())
    } else {
        eff is Nothing && unchanged(a, b)
    }
}

fn opened_saved_message(program: &String) -> (r: String)
    ensures
        r@ == msg_opened_saved(program@),
{
    join3("Opened with ", program.as_str(), " (saved as default)")
}

impl App {
    fn rename_exit(&mut self)
        ensures
            rename_exit_step(*old(self), *final(self)),
            same_except(*old(self), *final(self), g_rename(), 0, 0),
    {
        self.rename_mode = false;
        self.input_buffer = String::new();
        self.rename_cursor = 0;
    }

    fn rename_edit(&mut self, key: Key)
        requires
            old(self).rename_cursor <= old(self).input_buffer@.len(),
        ensures
            final(self).rename_mode == old(self).rename_mode,
            (final(self).input_buffer@, final(self).rename_cursor as nat) == edit_spec(
                old(self).input_buffer@,
                old(self).rename_cursor as nat,
                key,
            ),
            same_except(*old(self), *final(self), g_rename(), 0, 0),
    {
        let (b, c) = edit_buffer(&self.input_buffer, self.rename_cursor, key);
        self.input_buffer = b;
        self.rename_cursor = c;
    }

    /// A key while renaming.
    pub fn rename_key(&mut self, key: Key) -> (eff: Effect)
        requires
            old(self).rename_cursor <= old(self).input_buffer@.len(),
        ensures
            rename_step(*old(self), *final(self), key, eff),
    {
        if key == Key::Esc {
            self.rename_exit();
            Effect::Nothing
        } else if key == Key::Enter {
            let eff = self.rename_request();
            self.rename_exit();
            eff
        } else {
            self.rename_edit(key);
            Effect::Nothing
        }
    }

    fn rename_request(&self) -> (eff: Effect)
        ensures
            if cursor_on_child(self.left) && self.input_buffer@.len() > 0 {
                eff matches Effect::Rename { from, to, new_name } && from@ == cursor_entry(self.left)
                    && to@ == with_file_name(cursor_entry(self.left), self.input_buffer@)
                    && new_name@ == self.input_buffer@
            } else {
                eff is Nothing
            },
    {
        if cursor_on_child_exec(&self.left) && chars_of(self.input_buffer.as_str()).len() > 0 {
            let from = self.left.entries[self.left.cursor].clone();
            let to = set_file_name(from.as_str(), self.input_buffer.as_str());
            Effect::Rename { from, to, new_name: self.input_buffer.clone() }
        } else {
            Effect::Nothing
        }
    }

    fn create_exit(&mut self)
        ensures
            !final(self).input_mode,
            final(self).input_text@.len() == 0,
            final(self).create_dir == old(self).create_dir,
            same_except(*old(self), *final(self), g_create(), 0, 0),
    {
        self.input_mode = false;
        self.input_text = String::new();
    }

    fn create_set_text(&mut self, t: String)
        ensures
            final(self).input_text == t,
            final(self).input_mode == old(self).input_mode,
            final(self).create_dir == old(self).create_dir,
            same_except(*old(self), *final(self), g_create(), 0, 0),
    {
        self.input_text = t;
    }

    /// A key while naming a new file or folder.
    pub fn create_key(&mut self, key: Key) -> (eff: Effect)
        ensures
            create_step(*old(self), *final(self), key, eff),
    {
        match key {
            Key::Esc => {
                self.create_exit();
                Effect::Nothing
            },
            Key::Backspace => {
                let t = drop_last_char(&self.input_text);
                self.create_set_text(t);
                Effect::Nothing
            },
            Key::Char(c) => {
                let mut t = self.input_text.clone();
                push_char(&mut t, c);
                self.create_set_text(t);
                Effect::Nothing
            },
            Key::Enter => {
                let eff = self.create_request();
                self.create_exit();
                eff
            },
            _ => Effect::Nothing,
        }
    }

    fn create_request(&self) -> (eff: Effect)
        ensures
            if self.input_text@.len() > 0 {
                eff matches Effect::Create { path, name, folder } && path@ == join_path(
                    self.left.path@,
                    self.input_text@,
                ) && name@ == self.input_text@ && folder == self.create_dir
            } else {
                eff is Nothing
            },
    {
        if chars_of(self.input_text.as_str()).len() > 0 {
            let path = join(self.left.path.as_str(), self.input_text.as_str());
            Effect::Create { path, name: self.input_text.clone(), folder: self.create_dir }
        } else {
            Effect::Nothing
        }
    }

    fn close_update_popup(&mut self)
        ensures
            !final(self).show_update_popup,
            final(self).update_available == old(self).update_available,
            final(self).show_changelog == old(self).show_changelog,
            final(self).changelog_lines == old(self).changelog_lines,
            final(self).changelog_scroll == old(self).changelog_scroll,
            same_except(*old(self), *final(self), g_update(), 0, 0),
    {
        self.show_update_popup = false;
    }

    /// A key while the update popup is open.
    pub fn update_key(&mut self, key: Key) -> (eff: Effect)
        ensures
            update_step(*old(self), *final(self), key, eff),
    {
        if key == Key::Char('y') || key == Key::Char('Y') {
            self.close_update_popup();
            Effect::InstallUpdate
        } else if key == Key::Char('n') || key == Key::Char('N') || key == Key::Esc {
            self.close_update_popup();
            Effect::Nothing
        } else {
            Effect::Nothing
        }
    }

    fn close_help(&mut self)
        ensures
            !final(self).show_help,
            final(self).active_pane == old(self).active_pane,
            final(self).should_quit == old(self).should_quit,
            final(self).show_info == old(self).show_info,
            final(self).confirm_delete == old(self).confirm_delete,
            same_except(*old(self), *final(self), g_view(), 0, 0),
    {
        self.show_help = false;
    }

    /// A key while the help popup is open.
    pub fn help_key(&mut self, key: Key) -> (eff: Effect)
        ensures
            help_step(*old(self), *final(self), key, eff),
    {
        if key == Key::Esc || key == Key::Char('?') || key == Key::Char('q') {
            self.close_help();
        }
        Effect::Nothing
    }

    fn set_changelog(&mut self, show: bool, scroll: usize)
        ensures
            final(self).show_changelog == show,
            final(self).changelog_scroll == scroll,
            final(self).update_available == old(self).update_available,
            final(self).show_update_popup == old(self).show_update_popup,
            final(self).changelog_lines == old(self).changelog_lines,
            same_except(*old(self), *final(self), g_update(), 0, 0),
    {
        self.show_changelog = show;
        self.changelog_scroll = scroll;
    }

    /// A key while the changelog is open.
    pub fn changelog_key(&mut self, key: Key) -> (eff: Effect)
        ensures
            changelog_step(*old(self), *final(self), key, eff),
    {
        let show = self.show_changelog;
        let scroll = self.changelog_scroll;
        let n = self.changelog_lines.len();
        if key == Key::Esc || key == Key::Char('q') {
            self.set_changelog(false, scroll);
        } else if key == Key::Char('j') {
            self.set_changelog(show, list_cursor_after_exec(scroll, n, true));
        } else if key == Key::Char('k') {
            self.set_changelog(show, list_cursor_after_exec(scroll, n, false));
        } else {
            self.set_changelog(show, scroll);
        }
        Effect::Nothing
    }

    fn set_open_with(&mut self, mode: bool, cursor: usize)
        ensures
            final(self).open_with_mode == mode,
            final(self).open_with_cursor == cursor,
            final(self).open_with_options == old(self).open_with_options,
            same_except(*old(self), *final(self), g_open_with(), 0, 0),
    {
        self.open_with_mode = mode;
        self.open_with_cursor = cursor;
    }

    /// A key while the open-with popup is open.
    pub fn open_with_key(&mut self, key: Key) -> (eff: Effect)
        requires
            old(self).open_with_cursor < old(self).open_with_options@.len(),
            old(self).config.wf(),
        ensures
            open_with_step(*old(self), *final(self), key, eff),
    {
        let mode = self.open_with_mode;
        let cursor = self.open_with_cursor;
        if key == Key::Esc || key == Key::Char('q') {
            self.set_open_with(false, cursor);
            Effect::Nothing
        } else if key == Key::Char('j') || key == Key::Char('k') {
            let c = list_cursor_after_exec(cursor, self.open_with_options.len(), key == Key::Char('j'));
            self.set_open_with(mode, c);
            Effect::Nothing
        } else if key == Key::Enter && self.left.cursor < self.left.entries.len() {
            self.open_with_confirm()
        } else {
            Effect::Nothing
        }
    }

    fn open_with_confirm(&mut self) -> (eff: Effect)
        requires
            old(self).open_with_cursor < old(self).open_with_options@.len(),
            old(self).left.cursor < old(self).left.entries@.len(),
            old(self).config.wf(),
        ensures
            ({
                let program = option_program(old(self).open_with_options@[old(self).open_with_cursor as int]@);
                &&& eff matches Effect::OpenWith { program: p, path } && p@ == program && path@
                    == cursor_entry(old(self).left)
                &&& final(self).config.wf()
                &&& final(self).config.view_map() == old(self).config.view_map().insert(
                    ext_or_empty(cursor_entry(old(self).left)),
                    program,
                )
                &&& final(self).status_msg.is_some() && final(self).status_msg.unwrap()@ == msg_opened_saved(program)
            }),
            final(self).status_expires_at == old(self).status_expires_at,
            final(self).warned_no_fd == old(self).warned_no_fd,
            !final(self).open_with_mode,
            final(self).open_with_options == old(self).open_with_options,
            final(self).open_with_cursor == old(self).open_with_cursor,
            same_except(*old(self), *final(self), g_open_with(), g_config(), g_status()),
    {
        let path = self.left.entries[self.left.cursor].clone();
        let program = option_app_name(self.open_with_options[self.open_with_cursor].as_str());
        let ext = ext_or_empty_exec(path.as_str());
        let msg = opened_saved_message(&program);
        self.config.insert(ext, program.clone());
        self.status_msg = Some(msg);
        self.open_with_mode = false;
        Effect::OpenWith { program, path }
    }
}

/// The selection as a set of paths.
pub open spec fn selection(a: App) -> Set<Seq<char>> {
    strs(a.selected@).to_set()
}

/// Extensions whose files open in a text editor.
pub open spec fn is_text_ext(e: Seq<char>) -> bool {
    e == "rs"@ || e == "py"@ || e == "js"@ || e == "ts"@ || e == "c"@ || e == "cpp"@ || e == "h"@
        || e == "toml"@ || e == "json"@ || e == "md"@ || e == "yaml"@ || e == "yml"@ || e == "sh"@
        || e == "txt"@ || e == "html"@ || e == "css"@ || e == "lock"@
}

/// Extensions of images.
pub open spec fn is_image_ext(e: Seq<char>) -> bool {
    e == "png"@ || e == "jpg"@ || e == "jpeg"@ || e == "gif"@ || e == "bmp"@ || e == "webp"@ || e
        == "svg"@
}

/// Extensions of audio and video.
pub open spec fn is_media_ext(e: Seq<char>) -> bool {
    e == "mp4"@ || e == "mkv"@ || e == "avi"@ || e == "mov"@ || e == "webm"@ || e == "mp3"@ || e
        == "wav"@ || e == "flac"@ || e == "ogg"@ || e == "aac"@
}

/// Extensions of office documents.
pub open spec fn is_document_ext(e: Seq<char>) -> bool {
    e == "pdf"@ || e == "doc"@ || e == "docx"@ || e == "odt"@ || e == "xls"@ || e == "xlsx"@ || e
        == "ppt"@ || e == "pptx"@
}

/// The programs offered for a lowercased extension, by kind of file.
pub open spec fn category_apps(lc: Seq<char>) -> Seq<Seq<char>> {
    if is_text_ext(lc) {
        seq!["nvim"@, "vim"@, "nano"@, "code"@, "gedit"@]
    } else if is_image_ext(lc) {
        seq!["eog"@, "feh"@, "gimp"@, "inkscape"@]
    } else if is_media_ext(lc) {
        seq!["vlc"@, "mpv"@, "rhythmbox"@]
    } else if is_document_ext(lc) {
        seq!["libreoffice"@, "evince"@, "okular"@]
    } else {
        seq![]
    }
}

/// `opts` with `a` appended unless already there.
pub open spec fn with_fallback(opts: Seq<Seq<char>>, a: Seq<char>) -> Seq<Seq<char>> {
    if opts.contains(a) {
        opts
    } else {
        opts.push(a)
    }
}

/// The open-with choices for an extension: the configured program first
/// (starred), then the programs for its kind of file, then `xdg-open` and
/// `nvim` unless already offered.
pub open spec fn open_with_choices(ext: Seq<char>, configured: Option<Seq<char>>) -> Seq<Seq<char>> {
    let base = match configured {
        Some(c) => seq!["★ "@ + c + " (configured)"@],
        None => Seq::empty(),
    };
    with_fallback(with_fallback(base + category_apps(lowercase_of(ext)), "xdg-open"@), "nvim"@)
}

fn push_str(v: &mut Vec<String>, s: &str)
    ensures
        strs(final(v)@) == strs(old(v)@).push(s@),
{
    let x = crate::text::to_owned_string(s);
    v.push(x);
    assert(strs(v@) =~= strs(old(v)@).push(s@));
}

fn contains_str(v: &Vec<String>, s: &str) -> (r: bool)
    ensures
        r == strs(v@).contains(s@),
{
    for i in 0..v.len()
        invariant
            forall|j: int| 0 <= j < i ==> strs(v@)[j] != s@,
    {
        if str_eq(v[i].as_str(), s) {
            assert(strs(v@)[i as int] == s@);
            return true;
        }
    }
    false
}

fn add_fallback(v: &mut Vec<String>, a: &str)
    ensures
        strs(final(v)@) == with_fallback(strs(old(v)@), a@),
{
    if !contains_str(v, a) {
        push_str(v, a);
    }
}

fn is_text_ext_exec(e: &str) -> (r: bool)
    ensures
        r == is_text_ext(e@),
{
    str_eq(e, "rs") || str_eq(e, "py") || str_eq(e, "js") || str_eq(e, "ts") || str_eq(e, "c")
        || str_eq(e, "cpp") || str_eq(e, "h") || str_eq(e, "toml") || str_eq(e, "json") || str_eq(
        e,
        "md",
    ) || str_eq(e, "yaml") || str_eq(e, "yml") || str_eq(e, "sh") || str_eq(e, "txt") || str_eq(
        e,
        "html",
    ) || str_eq(e, "css") || str_eq(e, "lock")
}

fn is_image_ext_exec(e: &str) -> (r: bool)
    ensures
        r == is_image_ext(e@),
{
    str_eq(e, "png") || str_eq(e, "jpg") || str_eq(e, "jpeg") || str_eq(e, "gif") || str_eq(e, "bmp")
        || str_eq(e, "webp") || str_eq(e, "svg")
}

fn is_media_ext_exec(e: &str) -> (r: bool)
    ensures
        r == is_media_ext(e@),
{
    str_eq(e, "mp4") || str_eq(e, "mkv") || str_eq(e, "avi") || str_eq(e, "mov") || str_eq(e, "webm")
        || str_eq(e, "mp3") || str_eq(e, "wav") || str_eq(e, "flac") || str_eq(e, "ogg") || str_eq(
        e,
        "aac",
    )
}

fn is_document_ext_exec(e: &str) -> (r: bool)
    ensures
        r == is_document_ext(e@),
{
    str_eq(e, "pdf") || str_eq(e, "doc") || str_eq(e, "docx") || str_eq(e, "odt") || str_eq(e, "xls")
        || str_eq(e, "xlsx") || str_eq(e, "ppt") || str_eq(e, "pptx")
}

/// The open-with choices for `ext` (see `open_with_choices`).
pub fn open_with_options_for(ext: &str, configured: Option<String>) -> (r: Vec<String>)
    ensures
        strs(r@) == open_with_choices(
            ext@,
            match configured {
                Some(c) => Some(c@),
                None => None,
            },
        ),
        r@.len() > 0,
{
    let ghost conf = match &configured {
        Some(c) => Some(c@),
        None => None,
    };
    let ghost base = match conf {
        Some(c) => seq!["★ "@ + c + " (configured)"@],
        None => Seq::<Seq<char>>::empty(),
    };
    let mut opts: Vec<String> = Vec::new();
    match configured {
        Some(c) => {
            let line = join3("★ ", c.as_str(), " (configured)");
            opts.push(line);
            assert(strs(opts@) =~= base);
        },
        None => {
            assert(strs(opts@) =~= base);
        },
    }
    let lc = to_lowercase(ext);
    let l = lc.as_str();
    if is_text_ext_exec(l) {
        push_str(&mut opts, "nvim");
        push_str(&mut opts, "vim");
        push_str(&mut opts, "nano");
        push_str(&mut opts, "code");
        push_str(&mut opts, "gedit");
    } else if is_image_ext_exec(l) {
        push_str(&mut opts, "eog");
        push_str(&mut opts, "feh");
        push_str(&mut opts, "gimp");
        push_str(&mut opts, "inkscape");
    } else if is_media_ext_exec(l) {
        push_str(&mut opts, "vlc");
        push_str(&mut opts, "mpv");
        push_str(&mut opts, "rhythmbox");
    } else if is_document_ext_exec(l) {
        push_str(&mut opts, "libreoffice");
        push_str(&mut opts, "evince");
        push_str(&mut opts, "okular");
    }
    assert(strs(opts@) =~= base + category_apps(lowercase_of(ext@)));
    add_fallback(&mut opts, "xdg-open");
    add_fallback(&mut opts, "nvim");
    proof {
        let o = strs(opts@);
        if o.len() == 0 {
            assert(with_fallback(strs(opts@), "nvim"@).len() > 0);
        }
    }
    opts
}

/// The file name of `p`, or the empty string.
pub open spec fn name_or_empty(p: Seq<char>) -> Seq<char> {
    match file_name_of(p) {
        Some(n) => n,
        None => Seq::empty(),
    }
}

fn name_or_empty_exec(p: &str) -> (r: String)
    ensures
        r@ == name_or_empty(p@),
{
    match file_name(p) {
        Some(n) => n,
        None => String::new(),
    }
}

/// What an undone operation says: for trashed items, which were restored.
pub open spec fn undo_message(op: Operation) -> Option<Seq<char>> {
    match op {
        Operation::DeleteBatch { items } => if items@.len() == 1 {
            Some(
                msg_restored(
                    match file_name_of(items@[0].0@) {
                        Some(n) => n,
                        None => "file"@,
                    },
                ),
            )
        } else {
            Some(msg_restored_many(items@.len()))
        },
        _ => None,
    }
}

fn undo_message_exec(op: &Operation) -> (r: Option<String>)
    ensures
        match undo_message(*op) {
            Some(m) => r.is_some() && r.unwrap()@ == m,
            None => r.is_none(),
        },
{
    match op {
        Operation::DeleteBatch { items } => {
            if items.len() == 1 {
                let name = match file_name(items[0].0.as_str()) {
                    Some(n) => n,
                    None => crate::text::to_owned_string("file"),
                };
                Some(concat_msg("✔ Restored: ", &name))
            } else {
                Some(with_count("✔ Restored ", items.len() as u64, " item(s)"))
            }
        },
        _ => None,
    }
}

fn concat_msg(a: &str, b: &String) -> (r: String)
    ensures
        r@ == a@ + b@,
{
    crate::text::concat(a, b.as_str())
}

/// The paths of the pane's entries other than the parent entry.
pub open spec fn all_children(nav: Navigator) -> Set<Seq<char>> {
    Set::new(|p: Seq<char>| strs(nav.entries@).contains(p) && !is_parent_entry(nav, p))
}

/// Keys in the normal mode.
pub open spec fn normal_step(a: App, b: App, key: Key, ctx: KeyContext, eff: Effect) -> bool {
    match key {
        Key::Char(c) => normal_char_step(a, b, c, ctx, eff),
        Key::Tab => eff is Nothing && b.active_pane == (if a.active_pane == Pane::Left {
            Pane::Right
        } else {
            Pane::Left
        }) && b.should_quit == a.should_quit && b.show_help == a.show_help && b.show_info
            == a.show_info && b.confirm_delete == a.confirm_delete && same_except(a, b, g_view(), 0, 0),
        Key::Enter => enter_step(a, b, eff),
        Key::Esc => esc_step(a, b, eff),
        _ => eff is Nothing && unchanged(a, b),
    }
}

/// Entering the entry under the cursor (in the file pane, outside preview
/// mode): the pane enters it when it is a directory, and the listing reloads.
pub open spec fn enter_step(a: App, b: App, eff: Effect) -> bool {
    if !a.preview_mode && a.active_pane == Pane::Left {
        &&& eff matches Effect::Reload { focus, cancel_search } && focus.is_none() && !cancel_search
        &&& b.left.entries == a.left.entries && b.left.entry_is_dir == a.left.entry_is_dir
        &&& if a.left.cursor < a.left.entries@.len() && a.left.entry_is_dir@[a.left.cursor as int] {
            b.left.path@ == a.left.entries@[a.left.cursor as int]@ && b.left.cursor == 0
        } else {
            b.left.path == a.left.path && b.left.cursor == a.left.cursor
        }
        &&& same_except(a, b, g_nav(), 0, 0)
    } else {
        eff is Nothing && unchanged(a, b)
    }
}

/// Esc: close the info popup, or else drop the selection and the clipboard.
pub open spec fn esc_step(a: App, b: App, eff: Effect) -> bool {
    &&& eff is Nothing
    &&& if a.show_info {
        !b.show_info && b.active_pane == a.active_pane && b.should_quit == a.should_quit && b.show_help
            == a.show_help && b.confirm_delete == a.confirm_delete && same_except(a, b, g_view(), 0, 0)
    } else {
        b.selected@.len() == 0 && b.clipboard.is_none() && !b.cut_mode && same_except(a, b, g_clip(), 0, 0)
    }
}

/// Character keys in the normal mode.
pub open spec fn normal_char_step(a: App, b: App, c: char, ctx: KeyContext, eff: Effect) -> bool {
    if c == 'q' {
        eff is Nothing && b.should_quit && b.active_pane == a.active_pane && b.show_help == a.show_help
            && b.show_info == a.show_info && b.confirm_delete == a.confirm_delete && same_except(a, b, g_view(), 0, 0)
    } else if c == '?' {
        eff is Nothing && b.show_help && b.active_pane == a.active_pane && b.should_quit == a.should_quit
            && b.show_info == a.show_info && b.confirm_delete == a.confirm_delete && same_except(a, b, g_view(), 0, 0)
    } else if c == 'i' {
        eff is Nothing && b.show_info == !a.show_info && b.active_pane == a.active_pane && b.should_quit
            == a.should_quit && b.show_help == a.show_help && b.confirm_delete == a.confirm_delete
            && same_except(a, b, g_view(), 0, 0)
    } else if c == 'd' {
        eff is Nothing && b.confirm_delete && b.active_pane == a.active_pane && b.should_quit
            == a.should_quit && b.show_help == a.show_help && b.show_info == a.show_info
            && same_except(a, b, g_view(), 0, 0)
    } else if c == 'U' {
        eff is Nothing && same_except(a, b, g_update(), 0, 0) && b.update_available == a.update_available
            && b.changelog_lines == a.changelog_lines && if a.update_available.is_some() {
            b.show_update_popup && b.show_changelog == a.show_changelog && b.changelog_scroll == a.changelog_scroll
        } else {
            b.show_changelog && b.changelog_scroll == 0 && b.show_update_popup == a.show_update_popup
        }
    } else if c == '/' || c == 'g' {
        eff is Nothing && b.search_mode && b.global_search == (c == 'g') && b.search_query@.len() == 0
            && b.search_results@.len() == 0 && b.search_cursor == 0 && b.search_filter == a.search_filter
            && same_except(a, b, g_search(), 0, 0)
    } else if c == 'n' || c == 'N' {
        eff is Nothing && b.input_mode && b.input_text@.len() == 0 && b.create_dir == (c == 'N')
            && same_except(a, b, g_create(), 0, 0)
    } else if c == 'j' || c == 'k' {
        move_step(a, b, c == 'j', eff)
    } else if c == 'l' {
        enter_step(a, b, eff)
    } else if c == 'h' {
        back_step(a, b, eff)
    } else if c == ' ' {
        toggle_step(a, b, eff)
    } else if c == 'y' || c == 'x' {
        yank_step(a, b, c == 'x', eff)
    } else if c == 'p' {
        paste_step(a, b, eff)
    } else if c == 'r' {
        rename_start_step(a, b, eff)
    } else if c == 'u' {
        undo_step(a, b, eff)
    } else if c == 'A' {
        eff is Nothing && selection(b) == all_children(a.left) && strs(b.selected@).no_duplicates()
            && b.clipboard == a.clipboard && b.cut_mode == a.cut_mode && same_except(a, b, g_clip(), 0, 0)
    } else if c == 'o' {
        open_step(a, b, ctx, eff)
    } else if c == 'O' {
        open_with_start_step(a, b, ctx, eff)
    } else {
        eff is Nothing && unchanged(a, b)
    }
}

/// j / k: in the file pane the cursor moves; in the preview pane the preview
/// cursor moves and the scroll rule is applied.
pub open spec fn move_step(a: App, b: App, down: bool, eff: Effect) -> bool {
    &&& eff is Nothing
    &&& if a.active_pane == Pane::Left {
        &&& b.left.cursor == if down {
            cursor_down(a.left.cursor as nat, a.left.entries@.len())
        } else {
            cursor_up(a.left.cursor as nat)
        }
        &&& b.left.path == a.left.path && b.left.entries == a.left.entries && b.left.entry_is_dir
            == a.left.entry_is_dir
        &&& same_except(a, b, g_nav(), 0, 0)
    } else {
        let total = a.preview_content@.len();
        let moved = if down {
            if total > 0 && a.preview_cursor < total - 1 {
                a.preview_cursor + 1
            } else {
                a.preview_cursor as int
            }
        } else {
            if a.preview_cursor > 0 {
                a.preview_cursor - 1
            } else {
                0
            }
        };
        &&& (b.preview_cursor as nat, b.preview_scroll as nat) == clamp_spec(
            moved as nat,
            a.preview_scroll as nat,
            total,
            a.visible_height as nat,
        )
        &&& b.preview_content == a.preview_content && b.preview_cached_cursor == a.preview_cached_cursor
            && b.visible_height == a.visible_height && b.preview_mode == a.preview_mode
        &&& same_except(a, b, g_preview(), 0, 0)
    }
}

/// h: the pane goes to the parent directory (in the file pane, outside
/// preview mode) and the listing reloads.
pub open spec fn back_step(a: App, b: App, eff: Effect) -> bool {
    if !a.preview_mode && a.active_pane == Pane::Left {
        &&& eff matches Effect::Reload { focus, cancel_search } && focus.is_none() && !cancel_search
        &&& b.left.entries == a.left.entries && b.left.entry_is_dir == a.left.entry_is_dir
        &&& match parent_of(a.left.path@) {
            Some(p) => b.left.path@ == p && b.left.cursor == 0,
            None => b.left.path == a.left.path && b.left.cursor == a.left.cursor,
        }
        &&& same_except(a, b, g_nav(), 0, 0)
    } else {
        eff is Nothing && unchanged(a, b)
    }
}

/// Space: in the file pane, the entry under the cursor (not the parent entry)
/// joins or leaves the selection, and the cursor moves down.
pub open spec fn toggle_step(a: App, b: App, eff: Effect) -> bool {
    if a.active_pane == Pane::Left {
        &&& eff is Nothing
        &&& b.left.cursor == cursor_down(a.left.cursor as nat, a.left.entries@.len())
        &&& b.left.path == a.left.path && b.left.entries == a.left.entries && b.left.entry_is_dir
            == a.left.entry_is_dir
        &&& strs(b.selected@).no_duplicates()
        &&& selection(b) == if cursor_on_child(a.left) {
            toggle_in(selection(a), cursor_entry(a.left))
        } else {
            selection(a)
        }
        &&& b.clipboard == a.clipboard && b.cut_mode == a.cut_mode
        &&& same_except(a, b, g_nav(), g_clip(), 0)
    } else {
        eff is Nothing && unchanged(a, b)
    }
}

/// y / x: copy or cut the selection (the clipboard is emptied and the count
/// reported) or else the entry under the cursor (it becomes the clipboard).
pub open spec fn yank_step(a: App, b: App, cut: bool, eff: Effect) -> bool {
    &&& eff is Nothing
    &&& if a.selected@.len() > 0 {
        &&& b.clipboard.is_none() && b.cut_mode == cut && b.selected == a.selected
        &&& b.status_msg.is_some() && b.status_msg.unwrap()@ == if cut {
            msg_cut_many(a.selected@.len())
        } else {
            msg_yanked_many(a.selected@.len())
        }
        &&& b.status_expires_at == a.status_expires_at && b.warned_no_fd == a.warned_no_fd
        &&& same_except(a, b, g_clip(), g_status(), 0)
    } else if cursor_on_child(a.left) {
        let p = cursor_entry(a.left);
        &&& b.clipboard.is_some() && b.clipboard.unwrap()@ == p && b.cut_mode == cut && b.selected
            == a.selected
        &&& b.status_msg.is_some() && b.status_msg.unwrap()@ == if cut {
            msg_cut(file_name_of(p).unwrap())
        } else {
            msg_yanked(file_name_of(p).unwrap())
        }
        &&& b.status_expires_at == a.status_expires_at && b.warned_no_fd == a.warned_no_fd
        &&& same_except(a, b, g_clip(), g_status(), 0)
    } else {
        unchanged(a, b)
    }
}

/// p: paste the selection, else the clipboard, into the pane's directory.
pub open spec fn paste_step(a: App, b: App, eff: Effect) -> bool {
    &&& unchanged(a, b)
    &&& if a.selected@.len() > 0 {
        eff matches Effect::Paste { sources, dir, cut, from_selection } && strs(sources@) == strs(
            a.selected@,
        ) && dir@ == a.left.path@ && cut == a.cut_mode && from_selection
    } else if a.clipboard.is_some() {
        eff matches Effect::Paste { sources, dir, cut, from_selection } && strs(sources@) == seq![
            a.clipboard.unwrap()@,
        ] && dir@ == a.left.path@ && cut == a.cut_mode && !from_selection
    } else {
        eff is Nothing
    }
}

/// r: start renaming the entry under the cursor (not the parent entry), with
/// its file name filled in and the caret at the end; the info popup closes.
pub open spec fn rename_start_step(a: App, b: App, eff: Effect) -> bool {
    &&& eff is Nothing
    &&& if cursor_on_child(a.left) {
        &&& b.rename_mode
        &&& b.input_buffer@ == name_or_empty(cursor_entry(a.left))
        &&& b.rename_cursor == b.input_buffer@.len()
        &&& !b.show_info && b.active_pane == a.active_pane && b.should_quit == a.should_quit
            && b.show_help == a.show_help && b.confirm_delete == a.confirm_delete
        &&& same_except(a, b, g_rename(), g_view(), 0)
    } else {
        unchanged(a, b)
    }
}

/// u: undo the last operation, reporting restored items.
pub open spec fn undo_step(a: App, b: App, eff: Effect) -> bool {
    if a.history@.len() > 0 {
        let op = a.history@.last();
        &&& eff matches Effect::Undo { op: o } && o == op
        &&& b.history@ == a.history@.drop_last()
        &&& match undo_message(op) {
            Some(m) => b.status_msg.is_some() && b.status_msg.unwrap()@ == m,
            None => b.status_msg == a.status_msg,
        }
        &&& b.status_expires_at == a.status_expires_at && b.warned_no_fd == a.warned_no_fd
        &&& same_except(a, b, g_history(), g_status(), 0)
    } else {
        eff is Nothing && unchanged(a, b)
    }
}

/// o: a directory under the cursor is entered; a file is opened with the
/// program configured for its extension, else `xdg-open`.
pub open spec fn open_step(a: App, b: App, ctx: KeyContext, eff: Effect) -> bool {
    if a.left.cursor < a.left.entries@.len() {
        let p = cursor_entry(a.left);
        if ctx.cursor_is_dir {
            &&& eff matches Effect::Reload { focus, cancel_search } && focus.is_none() && !cancel_search
            &&& b.left.entries == a.left.entries && b.left.entry_is_dir == a.left.entry_is_dir
            &&& if a.left.entry_is_dir@[a.left.cursor as int] {
                b.left.path@ == p && b.left.cursor == 0
            } else {
                b.left.path == a.left.path && b.left.cursor == a.left.cursor
            }
            &&& same_except(a, b, g_nav(), 0, 0)
        } else {
            let program = if a.config.view_map().contains_key(ext_or_empty(p)) {
                a.config.view_map()[ext_or_empty(p)]
            } else {
                "xdg-open"@
            };
            &&& eff matches Effect::OpenFile { program: q, path } && q@ == program && path@ == p
            &&& b.status_msg.is_some() && b.status_msg.unwrap()@ == msg_opened(name_or_empty(p), program)
            &&& b.status_expires_at == a.status_expires_at && b.warned_no_fd == a.warned_no_fd
            &&& same_except(a, b, g_status(), 0, 0)
        }
    } else {
        eff is Nothing && unchanged(a, b)
    }
}

/// O: for a file under the cursor, open the open-with popup with its choices.
pub open spec fn open_with_start_step(a: App, b: App, ctx: KeyContext, eff: Effect) -> bool {
    &&& eff is Nothing
    &&& if a.left.cursor < a.left.entries@.len() && !ctx.cursor_is_dir {
        let e = ext_or_empty(cursor_entry(a.left));
        &&& strs(b.open_with_options@) == open_with_choices(
            e,
            if a.config.view_map().contains_key(e) {
                Some(a.config.view_map()[e])
            } else {
                None
            },
        )
        &&& b.open_with_cursor == 0
        &&& b.open_with_mode
        &&& same_except(a, b, g_open_with(), 0, 0)
    } else {
        unchanged(a, b)
    }
}

impl App {
    fn set_view(&mut self, pane: Pane, quit: bool, help: bool, info: bool, confirm: bool)
        ensures
            final(self).active_pane == pane,
            final(self).should_quit == quit,
            final(self).show_help == help,
            final(self).show_info == info,
            final(self).confirm_delete == confirm,
            same_except(*old(self), *final(self), g_view(), 0, 0),
    {
        self.active_pane = pane;
        self.should_quit = quit;
        self.show_help = help;
        self.show_info = info;
        self.confirm_delete = confirm;
    }

    fn start_search(&mut self, global: bool)
        ensures
            final(self).search_mode,
            final(self).global_search == global,
            final(self).search_query@.len() == 0,
            final(self).search_results@.len() == 0,
            final(self).search_cursor == 0,
            final(self).search_filter == old(self).search_filter,
            same_except(*old(self), *final(self), g_search(), 0, 0),
    {
        self.search_mode = true;
        self.global_search = global;
        self.search_query = String::new();
        self.search_results = Vec::new();
        self.search_cursor = 0;
    }

    fn start_create(&mut self, folder: bool)
        ensures
            final(self).input_mode,
            final(self).input_text@.len() == 0,
            final(self).create_dir == folder,
            same_except(*old(self), *final(self), g_create(), 0, 0),
    {
        self.input_mode = true;
        self.input_text = String::new();
        self.create_dir = folder;
    }

    fn show_update_or_changelog(&mut self)
        ensures
            same_except(*old(self), *final(self), g_update(), 0, 0),
            final(self).update_available == old(self).update_available,
            final(self).changelog_lines == old(self).changelog_lines,
            if old(self).update_available.is_some() {
                final(self).show_update_popup && final(self).show_changelog == old(self).show_changelog
                    && final(self).changelog_scroll == old(self).changelog_scroll
            } else {
                final(self).show_changelog && final(self).changelog_scroll == 0
                    && final(self).show_update_popup == old(self).show_update_popup
            },
    {
        let pending = self.update_available.is_some();
        let popup = pending || self.show_update_popup;
        let show = !pending || self.show_changelog;
        let scroll = if pending {
            self.changelog_scroll
        } else {
            0
        };
        self.set_update_flags(popup, show, scroll);
    }

    fn set_update_flags(&mut self, popup: bool, show: bool, scroll: usize)
        ensures
            final(self).show_update_popup == popup,
            final(self).show_changelog == show,
            final(self).changelog_scroll == scroll,
            final(self).update_available == old(self).update_available,
            final(self).changelog_lines == old(self).changelog_lines,
            same_except(*old(self), *final(self), g_update(), 0, 0),
    {
        self.show_update_popup = popup;
        self.show_changelog = show;
        self.changelog_scroll = scroll;
    }

    fn set_preview_position(&mut self, cursor: usize, scroll: usize)
        ensures
            final(self).preview_cursor == cursor,
            final(self).preview_scroll == scroll,
            final(self).preview_content == old(self).preview_content,
            final(self).preview_cached_cursor == old(self).preview_cached_cursor,
            final(self).visible_height == old(self).visible_height,
            final(self).preview_mode == old(self).preview_mode,
            same_except(*old(self), *final(self), g_preview(), 0, 0),
    {
        self.preview_cursor = cursor;
        self.preview_scroll = scroll;
    }

    fn nav_move(&mut self, down: bool)
        requires
            old(self).left.wf(),
        ensures
            final(self).left.cursor == if down {
                cursor_down(old(self).left.cursor as nat, old(self).left.entries@.len())
            } else {
                cursor_up(old(self).left.cursor as nat)
            },
            final(self).left.wf(),
            final(self).left.path == old(self).left.path,
            final(self).left.entries == old(self).left.entries,
            final(self).left.entry_is_dir == old(self).left.entry_is_dir,
            same_except(*old(self), *final(self), g_nav(), 0, 0),
    {
        let c = next_cursor(&self.left, down);
        self.left.cursor = c;
    }

    fn move_key(&mut self, down: bool) -> (eff: Effect)
        requires
            old(self).left.wf(),
            old(self).active_pane == Pane::Right ==> preview_fits(
                old(self).preview_content@.len(),
                old(self).preview_scroll,
                old(self).visible_height,
            ),
        ensures
            move_step(*old(self), *final(self), down, eff),
            final(self).left.wf(),
    {
        if self.active_pane == Pane::Left {
            self.nav_move(down);
        } else {
            let total = self.preview_content.len();
            let pc = self.preview_cursor;
            let moved = if down {
                if total > 0 && pc < total - 1 {
                    pc + 1
                } else {
                    pc
                }
            } else {
                if pc > 0 {
                    pc - 1
                } else {
                    0
                }
            };
            let (c, sc) = clamp_values(moved, self.preview_scroll, total, self.visible_height);
            self.set_preview_position(c, sc);
        }
        Effect::Nothing
    }

    fn nav_enter(&mut self)
        requires
            old(self).left.wf(),
        ensures
            final(self).left.wf(),
            final(self).left.entries == old(self).left.entries,
            final(self).left.entry_is_dir == old(self).left.entry_is_dir,
            if old(self).left.cursor < old(self).left.entries@.len()
                && old(self).left.entry_is_dir@[old(self).left.cursor as int] {
                final(self).left.path@ == old(self).left.entries@[old(self).left.cursor as int]@
                    && final(self).left.cursor == 0
            } else {
                final(self).left.path == old(self).left.path && final(self).left.cursor == old(
                    self,
                ).left.cursor
            },
            same_except(*old(self), *final(self), g_nav(), 0, 0),
    {
        self.left.enter();
    }

    fn nav_back(&mut self) -> (moved: bool)
        requires
            old(self).left.wf(),
        ensures
            final(self).left.wf(),
            final(self).left.entries == old(self).left.entries,
            final(self).left.entry_is_dir == old(self).left.entry_is_dir,
            moved == parent_of(old(self).left.path@).is_some(),
            moved ==> final(self).left.path@ == parent_of(old(self).left.path@).unwrap()
                && final(self).left.cursor == 0,
            !moved ==> final(self).left.path == old(self).left.path && final(self).left.cursor
                == old(self).left.cursor,
            same_except(*old(self), *final(self), g_nav(), 0, 0),
    {
        self.left.back()
    }

    fn enter_key(&mut self) -> (eff: Effect)
        requires
            old(self).left.wf(),
        ensures
            enter_step(*old(self), *final(self), eff),
            final(self).left.wf(),
    {
        if !self.preview_mode && self.active_pane == Pane::Left {
            self.nav_enter();
            Effect::Reload { focus: None, cancel_search: false }
        } else {
            Effect::Nothing
        }
    }

    fn back_key(&mut self) -> (eff: Effect)
        requires
            old(self).left.wf(),
        ensures
            back_step(*old(self), *final(self), eff),
            final(self).left.wf(),
    {
        if !self.preview_mode && self.active_pane == Pane::Left {
            self.nav_back();
            Effect::Reload { focus: None, cancel_search: false }
        } else {
            Effect::Nothing
        }
    }

    fn set_clip(&mut self, clipboard: Option<String>, cut: bool, selected: Vec<String>)
        ensures
            final(self).clipboard == clipboard,
            final(self).cut_mode == cut,
            final(self).selected == selected,
            same_except(*old(self), *final(self), g_clip(), 0, 0),
    {
        self.clipboard = clipboard;
        self.cut_mode = cut;
        self.selected = selected;
    }

    fn take_selected(&mut self) -> (r: Vec<String>)
        ensures
            r == old(self).selected,
            final(self).clipboard == old(self).clipboard,
            final(self).cut_mode == old(self).cut_mode,
            same_except(*old(self), *final(self), g_clip(), 0, 0),
    {
        let mut sel: Vec<String> = Vec::new();
        std::mem::swap(&mut sel, &mut self.selected);
        sel
    }

    fn set_selected(&mut self, sel: Vec<String>)
        ensures
            final(self).selected == sel,
            final(self).clipboard == old(self).clipboard,
            final(self).cut_mode == old(self).cut_mode,
            same_except(*old(self), *final(self), g_clip(), 0, 0),
    {
        self.selected = sel;
    }

    fn toggle_key(&mut self) -> (eff: Effect)
        requires
            old(self).left.wf(),
            strs(old(self).selected@).no_duplicates(),
        ensures
            toggle_step(*old(self), *final(self), eff),
            final(self).left.wf(),
    {
        if self.active_pane == Pane::Left {
            let sel = self.take_selected();
            let sel2 = toggled(sel, &self.left);
            self.set_selected(sel2);
            self.nav_move(true);
        }
        Effect::Nothing
    }

    fn set_status_plain(&mut self, msg: String)
        ensures
            final(self).status_msg == Some(msg),
            final(self).status_expires_at == old(self).status_expires_at,
            final(self).warned_no_fd == old(self).warned_no_fd,
            same_except(*old(self), *final(self), g_status(), 0, 0),
    {
        self.status_msg = Some(msg);
    }

    fn yank_key(&mut self, cut: bool) -> (eff: Effect)
        requires
            old(self).selected@.len() == 0 && cursor_on_child(old(self).left) ==> file_name_of(
                cursor_entry(old(self).left),
            ).is_some(),
        ensures
            yank_step(*old(self), *final(self), cut, eff),
    {
        if self.selected.len() > 0 {
            self.yank_selection(cut);
        } else if cursor_on_child_exec(&self.left) {
            self.yank_cursor(cut);
        }
        Effect::Nothing
    }

    fn yank_selection(&mut self, cut: bool)
        requires
            old(self).selected@.len() > 0,
        ensures
            yank_step(*old(self), *final(self), cut, Effect::Nothing),
    {
        let n = self.selected.len() as u64;
        let msg = if cut {
            with_count("Cut ", n, " item(s) — press p to move")
        } else {
            with_count("Yanked ", n, " item(s) — press p to paste")
        };
        let sel = self.take_selected();
        self.set_clip(None, cut, sel);
        self.set_status_plain(msg);
    }

    fn yank_cursor(&mut self, cut: bool)
        requires
            old(self).selected@.len() == 0,
            cursor_on_child(old(self).left),
            file_name_of(cursor_entry(old(self).left)).is_some(),
        ensures
            yank_step(*old(self), *final(self), cut, Effect::Nothing),
    {
        let p = self.left.entries[self.left.cursor].clone();
        let name = file_name(p.as_str()).unwrap();
        let msg = if cut {
            concat_msg("Cut: ", &name)
        } else {
            concat_msg("Yanked: ", &name)
        };
        let sel = self.take_selected();
        self.set_clip(Some(p), cut, sel);
        self.set_status_plain(msg);
    }

    fn paste_key(&self) -> (eff: Effect)
        ensures
            paste_step(*self, *self, eff),
    {
        if self.selected.len() > 0 {
            Effect::Paste {
                sources: copy_strings(&self.selected),
                dir: self.left.path.clone(),
                cut: self.cut_mode,
                from_selection: true,
            }
        } else {
            match &self.clipboard {
                Some(c) => {
                    let mut v: Vec<String> = Vec::new();
                    v.push(c.clone());
                    assert(strs(v@) =~= seq![c@]);
                    Effect::Paste { sources: v, dir: self.left.path.clone(), cut: self.cut_mode, from_selection: false }
                },
                None => Effect::Nothing,
            }
        }
    }

    fn start_rename(&mut self, name: String)
        ensures
            final(self).rename_mode,
            final(self).input_buffer == name,
            final(self).rename_cursor == name@.len(),
            same_except(*old(self), *final(self), g_rename(), 0, 0),
    {
        let n = chars_of(name.as_str()).len();
        self.input_buffer = name;
        self.rename_cursor = n;
        self.rename_mode = true;
    }

    fn rename_start_key(&mut self) -> (eff: Effect)
        ensures
            rename_start_step(*old(self), *final(self), eff),
    {
        if cursor_on_child_exec(&self.left) {
            let name = name_or_empty_exec(self.left.entries[self.left.cursor].as_str());
            self.start_rename(name);
            let (pane, quit, help, confirm) = (self.active_pane, self.should_quit, self.show_help, self.confirm_delete);
            self.set_view(pane, quit, help, false, confirm);
        }
        Effect::Nothing
    }

    fn pop_history(&mut self) -> (op: Operation)
        requires
            old(self).history@.len() > 0,
        ensures
            op == old(self).history@.last(),
            final(self).history@ == old(self).history@.drop_last(),
            same_except(*old(self), *final(self), g_history(), 0, 0),
    {
        self.history.pop().unwrap()
    }

    fn undo_key(&mut self) -> (eff: Effect)
        ensures
            undo_step(*old(self), *final(self), eff),
    {
        if self.history.len() == 0 {
            return Effect::Nothing;
        }
        let op = self.pop_history();
        match undo_message_exec(&op) {
            Some(m) => self.set_status_plain(m),
            None => {},
        }
        Effect::Undo { op }
    }

    fn select_all_key(&mut self) -> (eff: Effect)
        ensures
            eff is Nothing,
            selection(*final(self)) == all_children(old(self).left),
            strs(final(self).selected@).no_duplicates(),
            final(self).clipboard == old(self).clipboard,
            final(self).cut_mode == old(self).cut_mode,
            same_except(*old(self), *final(self), g_clip(), 0, 0),
    {
        let sel = children_of(&self.left);
        self.set_selected(sel);
        Effect::Nothing
    }

    fn esc_key(&mut self) -> (eff: Effect)
        ensures
            esc_step(*old(self), *final(self), eff),
    {
        if self.show_info {
            let (pane, quit, help, confirm) = (self.active_pane, self.should_quit, self.show_help, self.confirm_delete);
            self.set_view(pane, quit, help, false, confirm);
        } else {
            self.set_clip(None, false, Vec::new());
            assert(strs(self.selected@) =~= Seq::<Seq<char>>::empty());
        }
        Effect::Nothing
    }

    fn open_key(&mut self, is_dir: bool) -> (eff: Effect)
        requires
            old(self).left.wf(),
            old(self).config.wf(),
        ensures
            open_step(*old(self), *final(self), KeyContext { cursor_is_dir: is_dir, search_target_is_dir: false }, eff),
            final(self).left.wf(),
    {
        if self.left.cursor < self.left.entries.len() {
            if is_dir {
                self.nav_enter();
                Effect::Reload { focus: None, cancel_search: false }
            } else {
                let p = self.left.entries[self.left.cursor].clone();
                let ext = ext_or_empty_exec(p.as_str());
                let program = match self.config.get(ext.as_str()) {
                    Some(prog) => prog,
                    None => crate::text::to_owned_string("xdg-open"),
                };
                let name = name_or_empty_exec(p.as_str());
                let msg = join3("Opened ", name.as_str(), " with ");
                let msg = concat_msg(msg.as_str(), &program);
                proof {
                    assert(msg@ =~= msg_opened(name_or_empty(p@), program@));
                }
                self.set_status_plain(msg);
                Effect::OpenFile { program, path: p }
            }
        } else {
            Effect::Nothing
        }
    }

    fn set_open_with_all(&mut self, options: Vec<String>)
        ensures
            final(self).open_with_options == options,
            final(self).open_with_cursor == 0,
            final(self).open_with_mode,
            same_except(*old(self), *final(self), g_open_with(), 0, 0),
    {
        self.open_with_options = options;
        self.open_with_cursor = 0;
        self.open_with_mode = true;
    }

    fn open_with_start_key(&mut self, is_dir: bool) -> (eff: Effect)
        requires
            old(self).config.wf(),
        ensures
            open_with_start_step(*old(self), *final(self), KeyContext { cursor_is_dir: is_dir, search_target_is_dir: false }, eff),
            old(self).left.cursor < old(self).left.entries@.len() && !is_dir ==> final(self).open_with_options@.len() > 0,
    {
        if self.left.cursor < self.left.entries.len() && !is_dir {
            let p = self.left.entries[self.left.cursor].clone();
            let ext = ext_or_empty_exec(p.as_str());
            let configured = self.config.get(ext.as_str());
            let opts = open_with_options_for(ext.as_str(), configured);
            self.set_open_with_all(opts);
        }
        Effect::Nothing
    }
}

/// The position of `s` in `v`, if it occurs there.
fn find_str(v: &Vec<String>, s: &str) -> (r: Option<usize>)
    ensures
        match r {
            Some(i) => i < v@.len() && strs(v@)[i as int] == s@,
            None => !strs(v@).contains(s@),
        },
{
    for i in 0..v.len()
        invariant
            forall|j: int| 0 <= j < i ==> strs(v@)[j] != s@,
    {
        if str_eq(v[i].as_str(), s) {
            return Some(i);
        }
    }
    None
}

/// Removing the element at `i` of a sequence without repeats removes its value from the set.
proof fn lemma_remove_to_set(s: Seq<Seq<char>>, i: int)
    requires
        s.no_duplicates(),
        0 <= i < s.len(),
    ensures
        s.remove(i).no_duplicates(),
        s.remove(i).to_set() == s.to_set().remove(s[i]),
{
    let r = s.remove(i);
    assert forall|a: int, b: int| 0 <= a < b < r.len() implies r[a] != r[b] by {
        let a2 = if a < i { a } else { a + 1 };
        let b2 = if b < i { b } else { b + 1 };
        assert(r[a] == s[a2] && r[b] == s[b2]);
    }
    assert forall|x: Seq<char>| r.to_set().contains(x) <==> s.to_set().remove(s[i]).contains(x) by {
        if r.contains(x) {
            let k = choose|k: int| 0 <= k < r.len() && r[k] == x;
            let k2 = if k < i { k } else { k + 1 };
            assert(s[k2] == x);
            assert(k2 != i);
        }
        if s.contains(x) && x != s[i] {
            let k = choose|k: int| 0 <= k < s.len() && s[k] == x;
            assert(k != i);
            if k < i {
                assert(r[k] == x);
            } else {
                assert(r[k - 1] == x);
            }
        }
    }
    assert(r.to_set() =~= s.to_set().remove(s[i]));
}

/// Appending a value that is not there yet keeps a sequence free of repeats and adds it to the set.
proof fn lemma_push_to_set(s: Seq<Seq<char>>, x: Seq<char>)
    requires
        s.no_duplicates(),
        !s.contains(x),
    ensures
        s.push(x).no_duplicates(),
        s.push(x).to_set() == s.to_set().insert(x),
{
    let r = s.push(x);
    assert forall|a: int, b: int| 0 <= a < b < r.len() implies r[a] != r[b] by {
        if b == s.len() {
            assert(s[a] == r[a]);
        } else {
            assert(s[a] == r[a] && s[b] == r[b]);
        }
    }
    assert forall|y: Seq<char>| r.to_set().contains(y) <==> s.to_set().insert(x).contains(y) by {
        if r.contains(y) && y != x {
            let k = choose|k: int| 0 <= k < r.len() && r[k] == y;
            assert(k < s.len());
            assert(s[k] == y);
        }
        if y == x {
            assert(r[s.len() as int] == y);
        }
        if s.contains(y) {
            let k = choose|k: int| 0 <= k < s.len() && s[k] == y;
            assert(r[k] == y);
        }
    }
    assert(r.to_set() =~= s.to_set().insert(x));
}

/// The selection after toggling the entry under the cursor.
fn toggled(sel: Vec<String>, nav: &Navigator) -> (r: Vec<String>)
    requires
        strs(sel@).no_duplicates(),
    ensures
        strs(r@).no_duplicates(),
        strs(r@).to_set() == if cursor_on_child(*nav) {
            toggle_in(strs(sel@).to_set(), cursor_entry(*nav))
        } else {
            strs(sel@).to_set()
        },
{
    if !cursor_on_child_exec(nav) {
        return sel;
    }
    let p = nav.entries[nav.cursor].clone();
    let ghost before = strs(sel@);
    let mut sel = sel;
    match find_str(&sel, p.as_str()) {
        Some(i) => {
            sel.remove(i);
            proof {
                assert(strs(sel@) =~= before.remove(i as int));
                lemma_remove_to_set(before, i as int);
                assert(before.to_set().contains(p@)) by {
                    assert(before[i as int] == p@);
                }
            }
        },
        None => {
            sel.push(p);
            proof {
                assert(strs(sel@) =~= before.push(p@));
                lemma_push_to_set(before, p@);
            }
        },
    }
    sel
}

/// Where the cursor of `nav` goes one step down or up.
fn next_cursor(nav: &Navigator, down: bool) -> (c: usize)
    requires
        nav.wf(),
    ensures
        c == if down {
            cursor_down(nav.cursor as nat, nav.entries@.len())
        } else {
            cursor_up(nav.cursor as nat)
        },
        cursor_ok(c as nat, nav.entries@.len()),
{
    if down {
        if nav.cursor < nav.entries.len() && nav.cursor + 1 < nav.entries.len() {
            nav.cursor + 1
        } else {
            nav.cursor
        }
    } else if nav.cursor > 0 {
        nav.cursor - 1
    } else {
        0
    }
}

/// The paths among the first `i` entries of the pane other than the parent entry.
pub open spec fn children_upto(nav: Navigator, i: int) -> Set<Seq<char>> {
    Set::new(|p: Seq<char>| strs(nav.entries@).take(i).contains(p) && !is_parent_entry(nav, p))
}

proof fn lemma_children_upto_step(nav: Navigator, i: int)
    requires
        0 <= i < nav.entries@.len(),
    ensures
        children_upto(nav, i + 1) == if is_parent_entry(nav, nav.entries@[i]@) {
            children_upto(nav, i)
        } else {
            children_upto(nav, i).insert(nav.entries@[i]@)
        },
{
    let s = strs(nav.entries@);
    assert(s[i] == nav.entries@[i]@);
    assert(s.take(i + 1) =~= s.take(i).push(s[i]));
    assert forall|p: Seq<char>| s.take(i + 1).contains(p) <==> (s.take(i).contains(p) || p == s[i]) by {
        if s.take(i + 1).contains(p) && p != s[i] {
            let t1 = s.take(i + 1);
            let k = choose|k: int| 0 <= k < t1.len() && t1[k] == p;
            assert(k < i);
            assert(s.take(i)[k] == p);
        }
        if s.take(i).contains(p) {
            let t0 = s.take(i);
            let k = choose|k: int| 0 <= k < t0.len() && t0[k] == p;
            assert(s.take(i + 1)[k] == p);
        }
        if p == s[i] {
            assert(s.take(i + 1)[i] == p);
        }
    }
    if is_parent_entry(nav, nav.entries@[i]@) {
        assert(children_upto(nav, i + 1) =~= children_upto(nav, i));
    } else {
        assert forall|p: Seq<char>| #[trigger] children_upto(nav, i + 1).contains(p) <==> children_upto(
            nav,
            i,
        ).insert(nav.entries@[i]@).contains(p) by {
            assert(s.take(i + 1).contains(p) <==> (s.take(i).contains(p) || p == s[i]));
        }
        assert(children_upto(nav, i + 1) =~= children_upto(nav, i).insert(nav.entries@[i]@));
    }
}

/// Every entry of the pane except the parent entry, each once.
fn children_of(nav: &Navigator) -> (r: Vec<String>)
    ensures
        strs(r@).no_duplicates(),
        strs(r@).to_set() == all_children(*nav),
{
    let mut r: Vec<String> = Vec::new();
    proof {
        assert(strs(r@).to_set() =~= children_upto(*nav, 0));
    }
    for i in 0..nav.entries.len()
        invariant
            strs(r@).no_duplicates(),
            strs(r@).to_set() == children_upto(*nav, i as int),
    {
        let e = &nav.entries[i];
        proof {
            lemma_children_upto_step(*nav, i as int);
        }
        if !is_parent_exec(nav, e) && !contains_str(&r, e.as_str()) {
            let ghost before = strs(r@);
            r.push(e.clone());
            proof {
                assert(strs(r@) =~= before.push(e@));
                lemma_push_to_set(before, e@);
            }
        } else if !is_parent_exec(nav, e) {
            proof {
                assert(strs(r@).to_set().contains(e@));
                assert(strs(r@).to_set().insert(e@) =~= strs(r@).to_set());
            }
        }
    }
    proof {
        assert(strs(nav.entries@).take(nav.entries@.len() as int) =~= strs(nav.entries@));
        assert(children_upto(*nav, nav.entries@.len() as int) =~= all_children(*nav));
    }
    r
}

/// No popup or input mode is open, so the normal keys apply.
pub open spec fn in_normal_mode(a: App) -> bool {
    !(a.confirm_delete || a.search_mode || a.input_mode || a.rename_mode || a.show_update_popup
        || a.show_help || a.show_changelog || a.open_with_mode)
}

/// Copying or cutting with `c` can name what it takes: with no selection, an
/// entry under the cursor other than the parent entry has a file name.
pub open spec fn yank_ok(a: App, c: char) -> bool {
    (c == 'y' || c == 'x') && a.selected@.len() == 0 && cursor_on_child(a.left) ==> file_name_of(
        cursor_entry(a.left),
    ).is_some()
}

/// Moving in the preview with `c` can place the window: when the preview has
/// the focus and `c` moves, the preview scroll plus its height fits a `usize`.
pub open spec fn preview_move_ok(a: App, c: char) -> bool {
    a.active_pane == Pane::Right && (c == 'j' || c == 'k') ==> preview_fits(
        a.preview_content@.len(),
        a.preview_scroll,
        a.visible_height,
    )
}

/// What the normal keys need: the state is well formed, a copy or cut key can
/// name the entry it takes, and a move in the preview can place the window.
pub open spec fn normal_ready(a: App, key: Key) -> bool {
    &&& a.wf()
    &&& key matches Key::Char(c) ==> yank_ok(a, c) && preview_move_ok(a, c)
}

/// What a state needs before `key` arrives: it is well formed, and in the
/// normal mode the key's needs (see `normal_ready`) are met.
pub open spec fn key_ready(a: App, key: Key) -> bool {
    &&& a.wf()
    &&& in_normal_mode(a) ==> normal_ready(a, key)
}

/// `m` is `a` with the status line cleared, as every key press begins.
pub open spec fn status_cleared(a: App, m: App) -> bool {
    &&& m.status_msg.is_none()
    &&& m.status_expires_at == a.status_expires_at
    &&& m.warned_no_fd == a.warned_no_fd
    &&& same_except(a, m, g_status(), 0, 0)
}

/// One key in state `a`: the first open popup or mode takes it (delete
/// confirmation, search, new-item name, rename, update prompt, help,
/// changelog, open-with), else the normal keys apply.
pub open spec fn dispatch_step(a: App, b: App, key: Key, ctx: KeyContext, eff: Effect) -> bool {
    if a.confirm_delete {
        confirm_step(a, b, key, eff)
    } else if a.search_mode {
        search_step(a, b, key, ctx, eff)
    } else if a.input_mode {
        create_step(a, b, key, eff)
    } else if a.rename_mode {
        rename_step(a, b, key, eff)
    } else if a.show_update_popup {
        update_step(a, b, key, eff)
    } else if a.show_help {
        help_step(a, b, key, eff)
    } else if a.show_changelog {
        changelog_step(a, b, key, eff)
    } else if a.open_with_mode {
        open_with_step(a, b, key, eff)
    } else {
        normal_step(a, b, key, ctx, eff)
    }
}

impl App {
    fn clear_status(&mut self)
        ensures
            status_cleared(*old(self), *final(self)),
    {
        self.status_msg = None;
    }

    fn normal_view_key(&mut self, c: char) -> (eff: Effect)
        requires
            c == 'q' || c == '?' || c == 'i' || c == 'd',
        ensures
            normal_char_step(*old(self), *final(self), c, KeyContext { cursor_is_dir: false, search_target_is_dir: false }, eff),
    {
        let (pane, quit, help, info, confirm) = (self.active_pane, self.should_quit, self.show_help, self.show_info, self.confirm_delete);
        if c == 'q' {
            self.set_view(pane, true, help, info, confirm);
        } else if c == '?' {
            self.set_view(pane, quit, true, info, confirm);
        } else if c == 'i' {
            self.set_view(pane, quit, help, !info, confirm);
        } else {
            self.set_view(pane, quit, help, info, true);
        }
        Effect::Nothing
    }

    fn normal_mode_key(&mut self, c: char) -> (eff: Effect)
        requires
            c == 'U' || c == '/' || c == 'g' || c == 'n' || c == 'N',
        ensures
            normal_char_step(*old(self), *final(self), c, KeyContext { cursor_is_dir: false, search_target_is_dir: false }, eff),
    {
        if c == 'U' {
            self.show_update_or_changelog();
        } else if c == '/' || c == 'g' {
            self.start_search(c == 'g');
        } else {
            self.start_create(c == 'N');
        }
        Effect::Nothing
    }

    fn normal_edit_key(&mut self, c: char) -> (eff: Effect)
        requires
            normal_ready(*old(self), Key::Char(c)),
            c == 'j' || c == 'k' || c == 'l' || c == 'h' || c == ' ' || c == 'y' || c == 'x',
        ensures
            normal_char_step(*old(self), *final(self), c, KeyContext { cursor_is_dir: false, search_target_is_dir: false }, eff),
            final(self).left.wf(),
    {
        if c == 'j' || c == 'k' {
            self.move_key(c == 'j')
        } else if c == 'l' {
            self.enter_key()
        } else if c == 'h' {
            self.back_key()
        } else if c == ' ' {
            self.toggle_key()
        } else {
            self.yank_key(c == 'x')
        }
    }

    fn normal_file_key(&mut self, c: char, ctx: &KeyContext) -> (eff: Effect)
        requires
            normal_ready(*old(self), Key::Char(c)),
            c == 'p' || c == 'r' || c == 'u' || c == 'A' || c == 'o' || c == 'O',
        ensures
            normal_char_step(*old(self), *final(self), c, *ctx, eff),
            final(self).left == old(self).left || c == 'o',
            final(self).left.wf(),
            c == 'O' && old(self).left.cursor < old(self).left.entries@.len() && !ctx.cursor_is_dir
                ==> final(self).open_with_options@.len() > 0,
    {
        if c == 'p' {
            self.paste_key()
        } else if c == 'r' {
            self.rename_start_key()
        } else if c == 'u' {
            self.undo_key()
        } else if c == 'A' {
            self.select_all_key()
        } else if c == 'o' {
            self.open_key(ctx.cursor_is_dir)
        } else {
            self.open_with_start_key(ctx.cursor_is_dir)
        }
    }

    fn normal_char_key(&mut self, c: char, ctx: &KeyContext) -> (eff: Effect)
        requires
            normal_ready(*old(self), Key::Char(c)),
        ensures
            normal_char_step(*old(self), *final(self), c, *ctx, eff),
            final(self).wf(),
    {
        if c == 'q' || c == '?' || c == 'i' || c == 'd' {
            self.normal_view_key(c)
        } else if c == 'U' || c == '/' || c == 'g' || c == 'n' || c == 'N' {
            self.normal_mode_key(c)
        } else if c == 'j' || c == 'k' || c == 'l' || c == 'h' || c == ' ' || c == 'y' || c == 'x' {
            self.normal_edit_key(c)
        } else if c == 'p' || c == 'r' || c == 'u' || c == 'A' || c == 'o' || c == 'O' {
            self.normal_file_key(c, ctx)
        } else {
            Effect::Nothing
        }
    }

    /// A key in the normal mode (no popup or input mode open).
    pub fn normal_key(&mut self, key: Key, ctx: &KeyContext) -> (eff: Effect)
        requires
            normal_ready(*old(self), key),
        ensures
            normal_step(*old(self), *final(self), key, *ctx, eff),
            final(self).wf(),
    {
        match key {
            Key::Char(c) => self.normal_char_key(c, ctx),
            Key::Tab => {
                let pane = if self.active_pane == Pane::Left {
                    Pane::Right
                } else {
                    Pane::Left
                };
                let (quit, help, info, confirm) = (self.should_quit, self.show_help, self.show_info, self.confirm_delete);
                self.set_view(pane, quit, help, info, confirm);
                Effect::Nothing
            },
            Key::Enter => self.enter_key(),
            Key::Esc => self.esc_key(),
            _ => Effect::Nothing,
        }
    }

    fn mode_key(&mut self, key: Key, ctx: &KeyContext) -> (eff: Effect)
        requires
            key_ready(*old(self), key),
        ensures
            dispatch_step(*old(self), *final(self), key, *ctx, eff),
            final(self).wf(),
    {
        if self.confirm_delete {
            self.confirm_key(key)
        } else if self.search_mode {
            self.search_key(key, ctx)
        } else if self.input_mode {
            self.create_key(key)
        } else if self.rename_mode {
            self.rename_key(key)
        } else if self.show_update_popup {
            self.update_key(key)
        } else if self.show_help {
            self.help_key(key)
        } else if self.show_changelog {
            self.changelog_key(key)
        } else if self.open_with_mode {
            self.open_with_key(key)
        } else {
            self.normal_key(key, ctx)
        }
    }

    /// A key press: the status line is cleared, then the key is handled as
    /// `dispatch_step` describes; the effect is left for the caller.
    pub fn handle_key(&mut self, key: Key, ctx: &KeyContext) -> (eff: Effect)
        requires
            key_ready(*old(self), key),
        ensures
            exists|m: App| #[trigger] status_cleared(*old(self), m) && dispatch_step(m, *final(self), key, *ctx, eff),
            final(self).wf(),
    {
        self.clear_status();
        let ghost m = *self;
        let eff = self.mode_key(key, ctx);
        assert(status_cleared(*old(self), m));
        eff
    }
}

/// Undo takes back the last recorded operation: whatever was recorded last is
/// what the undo effect carries, and the history is left as it was before.
pub proof fn law_undo_takes_back_last(a: App, b: App, c: App, op: Operation, eff: Effect)
    requires
        b.history@ == a.history@.push(op),
        undo_step(b, c, eff),
    ensures
        eff == (Effect::Undo { op }),
        c.history@ == a.history@,
{
    assert(b.history@.drop_last() =~= a.history@);
}

/// The open-with choices always offer `xdg-open` and `nvim`, and a configured
/// program comes first.
pub proof fn law_open_with_fallbacks(ext: Seq<char>, configured: Option<Seq<char>>)
    ensures
        open_with_choices(ext, configured).contains("xdg-open"@),
        open_with_choices(ext, configured).contains("nvim"@),
        configured matches Some(c) ==> open_with_choices(ext, configured)[0] == "★ "@ + c + " (configured)"@,
{
    let base = match configured {
        Some(c) => seq!["★ "@ + c + " (configured)"@],
        None => Seq::<Seq<char>>::empty(),
    };
    let s0 = base + category_apps(lowercase_of(ext));
    let s1 = with_fallback(s0, "xdg-open"@);
    let s2 = with_fallback(s1, "nvim"@);
    if !s0.contains("xdg-open"@) {
        assert(s1[s0.len() as int] == "xdg-open"@);
    }
    assert(s1.contains("xdg-open"@));
    if !s1.contains("nvim"@) {
        assert(s2[s1.len() as int] == "nvim"@);
        let k = choose|k: int| 0 <= k < s1.len() && s1[k] == "xdg-open"@;
        assert(s2[k] == "xdg-open"@);
    }
    assert(s2.contains("nvim"@));
    if configured is Some {
        assert(s0[0] == base[0]);
        assert(s1[0] == s0[0]);
        assert(s2[0] == s1[0]);
    }
}

/// While the delete confirmation is open, any key but `y`, `n` and Esc does nothing.
pub proof fn law_confirm_ignores_other_keys(a: App, b: App, key: Key, ctx: KeyContext, eff: Effect)
    requires
        a.confirm_delete,
        key != Key::Char('y') && key != Key::Char('n') && key != Key::Esc,
        dispatch_step(a, b, key, ctx, eff),
    ensures
        eff is Nothing,
        unchanged(a, b),
{
}

/// A list cursor inside a non-empty list stays inside it when it moves.
pub proof fn law_list_cursor_in_range(c: nat, len: nat, down: bool)
    requires
        c < len,
    ensures
        list_cursor_after(c, len, down) < len,
{
}

/// The selection after toggling `p` in `s`.
pub open spec fn toggle_in(s: Set<Seq<char>>, p: Seq<char>) -> Set<Seq<char>> {
    if s.contains(p) {
        s.remove(p)
    } else {
        s.insert(p)
    }
}

/// Toggling the same entry twice gives back the selection.
pub proof fn law_toggle_twice(s: Set<Seq<char>>, p: Seq<char>)
    ensures
        toggle_in(toggle_in(s, p), p) == s,
{
    assert(toggle_in(toggle_in(s, p), p) =~= s);
}

proof fn lemma_strip_star(c: Seq<char>)
    requires
        c.len() > 0 ==> c[0] != '★',
    ensures
        strip_all_prefix("★ "@ + c + " (configured)"@, "★ "@) == c + " (configured)"@,
{
    reveal_strlit("★ ");
    reveal_strlit(" (configured)");
    let star = "★ "@;
    let sfx = " (configured)"@;
    let u = c + sfx;
    let s = star + c + sfx;
    assert(s.take(2) =~= star);
    assert(s.skip(2) =~= u);
    assert(u[0] != '★') by {
        if c.len() > 0 {
            assert(u[0] == c[0]);
        } else {
            assert(u[0] == sfx[0]);
        }
    }
    assert(!crate::text::has_prefix(u, star)) by {
        if crate::text::has_prefix(u, star) {
            assert(u.take(2)[0] == star[0]);
        }
    }
    assert(strip_all_prefix(u, star) == u);
}

proof fn lemma_cut_at_suffix(c: Seq<char>)
    requires
        forall|i: int| 0 <= i < c.len() ==> c[i] != '(',
    ensures
        before_first(c + " (configured)"@, " (configured)"@) == c,
{
    reveal_strlit(" (configured)");
    let sfx = " (configured)"@;
    let u = c + sfx;
    let n = c.len() as int;
    assert(crate::text::occurs_at(u, sfx, n)) by {
        assert(u.subrange(n, n + sfx.len() as int) =~= sfx);
    }
    assert forall|j: int| 0 <= j < n implies !#[trigger] crate::text::occurs_at(u, sfx, j) by {
        if crate::text::occurs_at(u, sfx, j) {
            assert(u.subrange(j, j + sfx.len() as int)[1] == sfx[1]);
            if j + 1 < n {
                assert(u[j + 1] == c[j + 1]);
            } else {
                assert(u[j + 1] == sfx[0]);
            }
        }
    }
    assert(crate::text::contains_seq(u, sfx));
    let k = choose|i: int|
        crate::text::occurs_at(u, sfx, i) && forall|j: int| 0 <= j < i ==> !crate::text::occurs_at(u, sfx, j);
    assert(k == n) by {
        if k > n {
            assert(!crate::text::occurs_at(u, sfx, n));
        }
    }
    assert(u.take(n) =~= c);
}

/// Choosing the starred entry of the open-with choices gives back the
/// configured program, for a program name without parentheses, without white
/// space around it, and not starting with the star.
pub proof fn law_configured_option_roundtrip(c: Seq<char>)
    requires
        forall|i: int| 0 <= i < c.len() ==> c[i] != '(',
        c.len() > 0 ==> c[0] != '★',
        trimmed(c) == c,
    ensures
        option_program("★ "@ + c + " (configured)"@) == c,
{
    lemma_strip_star(c);
    lemma_cut_at_suffix(c);
}

/// In the file pane outside preview mode, `l` enters the directory under the
/// cursor: the pane's path becomes that entry, the cursor goes to 0, and the
/// listing reloads without a focus and without stopping a search.
pub proof fn law_l_enters_directory(a: App, m: App, b: App, ctx: KeyContext, eff: Effect)
    requires
        status_cleared(a, m),
        dispatch_step(m, b, Key::Char('l'), ctx, eff),
        in_normal_mode(a),
        !a.preview_mode,
        a.active_pane == Pane::Left,
        a.left.cursor < a.left.entries@.len(),
        a.left.entry_is_dir@[a.left.cursor as int],
    ensures
        b.left.path@ == a.left.entries@[a.left.cursor as int]@,
        b.left.cursor == 0,
        b.left.entries == a.left.entries,
        eff matches Effect::Reload { focus, cancel_search } && focus.is_none() && !cancel_search,
{
}

/// `l` and Enter do the same in the normal mode: the same pane and the same
/// effect.
pub proof fn law_l_is_enter(
    a: App,
    b1: App,
    b2: App,
    ctx1: KeyContext,
    ctx2: KeyContext,
    eff1: Effect,
    eff2: Effect,
)
    requires
        in_normal_mode(a),
        dispatch_step(a, b1, Key::Char('l'), ctx1, eff1),
        dispatch_step(a, b2, Key::Enter, ctx2, eff2),
    ensures
        b1.left.path@ == b2.left.path@,
        b1.left.cursor == b2.left.cursor,
        b1.left.entries == b2.left.entries,
        eff1 is Reload <==> eff2 is Reload,
        eff1 is Nothing <==> eff2 is Nothing,
{
}

/// With no selection, `p` pastes the clipboard item into the pane's
/// directory, moving it when it was cut and copying it when it was yanked.
pub proof fn law_paste_clipboard_keeps_cut_mode(a: App, m: App, b: App, ctx: KeyContext, eff: Effect)
    requires
        status_cleared(a, m),
        dispatch_step(m, b, Key::Char('p'), ctx, eff),
        in_normal_mode(a),
        a.selected@.len() == 0,
        a.clipboard.is_some(),
    ensures
        eff matches Effect::Paste { sources, dir, cut, from_selection } && cut == a.cut_mode
            && !from_selection && dir@ == a.left.path@ && sources@.len() == 1 && sources@[0]@
            == a.clipboard.unwrap()@,
{
    assert(m.selected == a.selected && m.clipboard == a.clipboard && m.cut_mode == a.cut_mode);
    assert(m.left == a.left);
    assert(normal_char_step(m, b, 'p', ctx, eff));
    assert(paste_step(m, b, eff));
    match eff {
        Effect::Paste { sources, dir, cut, from_selection } => {
            assert(strs(sources@) == seq![a.clipboard.unwrap()@]);
            assert(strs(sources@).len() == sources@.len());
            assert(strs(sources@)[0] == sources@[0]@);
        },
        _ => {},
    }
}

/// Cutting the entry under the cursor (with no selection) and then pasting
/// moves that very entry into the pane's directory.
pub proof fn law_cut_then_paste_moves(
    a: App,
    m1: App,
    b1: App,
    m2: App,
    b2: App,
    ctx1: KeyContext,
    ctx2: KeyContext,
    eff1: Effect,
    eff2: Effect,
)
    requires
        in_normal_mode(a),
        a.selected@.len() == 0,
        cursor_on_child(a.left),
        status_cleared(a, m1),
        dispatch_step(m1, b1, Key::Char('x'), ctx1, eff1),
        status_cleared(b1, m2),
        dispatch_step(m2, b2, Key::Char('p'), ctx2, eff2),
    ensures
        eff2 matches Effect::Paste { sources, dir, cut, from_selection } && cut && !from_selection
            && dir@ == a.left.path@ && sources@.len() == 1 && sources@[0]@ == cursor_entry(a.left),
{
    assert(in_normal_mode(b1));
    law_paste_clipboard_keeps_cut_mode(b1, m2, b2, ctx2, eff2);
}

/// While the delete confirmation is open, only `y` trashes anything; `n` and
/// Esc close the confirmation with no effect.
pub proof fn law_only_yes_trashes(a: App, m: App, b: App, key: Key, ctx: KeyContext, eff: Effect)
    requires
        status_cleared(a, m),
        dispatch_step(m, b, key, ctx, eff),
        a.confirm_delete,
    ensures
        eff is Trash ==> key == Key::Char('y'),
        key == Key::Char('y') ==> eff is Trash,
        key == Key::Char('n') || key == Key::Esc ==> eff is Nothing && !b.confirm_delete,
{
}

/// In the update prompt, only `y` or `Y` installs; `n`, `N` and Esc close the
/// prompt with no effect.
pub proof fn law_only_yes_installs(a: App, m: App, b: App, key: Key, ctx: KeyContext, eff: Effect)
    requires
        status_cleared(a, m),
        dispatch_step(m, b, key, ctx, eff),
        !a.confirm_delete && !a.search_mode && !a.input_mode && !a.rename_mode,
        a.show_update_popup,
    ensures
        eff is InstallUpdate <==> (key == Key::Char('y') || key == Key::Char('Y')),
        key == Key::Char('n') || key == Key::Char('N') || key == Key::Esc ==> eff is Nothing
            && !b.show_update_popup,
{
}

/// In the file pane outside preview mode, `h` goes to the parent directory
/// with the cursor at 0, and the listing reloads.
pub proof fn law_h_goes_to_parent(a: App, m: App, b: App, ctx: KeyContext, eff: Effect, p: Seq<char>)
    requires
        status_cleared(a, m),
        dispatch_step(m, b, Key::Char('h'), ctx, eff),
        in_normal_mode(a),
        !a.preview_mode,
        a.active_pane == Pane::Left,
        parent_of(a.left.path@) == Some(p),
    ensures
        b.left.path@ == p,
        b.left.cursor == 0,
        eff matches Effect::Reload { focus, cancel_search } && focus.is_none() && !cancel_search,
{
}

/// With a selection, `p` pastes every selected item into the pane's
/// directory, moving them after a cut and copying them after a yank.
pub proof fn law_paste_selection(a: App, m: App, b: App, ctx: KeyContext, eff: Effect)
    requires
        status_cleared(a, m),
        dispatch_step(m, b, Key::Char('p'), ctx, eff),
        in_normal_mode(a),
        a.selected@.len() > 0,
    ensures
        eff matches Effect::Paste { sources, dir, cut, from_selection } && cut == a.cut_mode
            && from_selection && dir@ == a.left.path@ && strs(sources@) == strs(a.selected@),
{
    assert(m.selected == a.selected && m.cut_mode == a.cut_mode && m.left == a.left);
}

/// Yanking the entry under the cursor (with no selection) and then pasting
/// copies that very entry into the pane's directory; the original stays.
pub proof fn law_yank_then_paste_copies(
    a: App,
    m1: App,
    b1: App,
    m2: App,
    b2: App,
    ctx1: KeyContext,
    ctx2: KeyContext,
    eff1: Effect,
    eff2: Effect,
)
    requires
        in_normal_mode(a),
        a.selected@.len() == 0,
        cursor_on_child(a.left),
        status_cleared(a, m1),
        dispatch_step(m1, b1, Key::Char('y'), ctx1, eff1),
        status_cleared(b1, m2),
        dispatch_step(m2, b2, Key::Char('p'), ctx2, eff2),
    ensures
        eff2 matches Effect::Paste { sources, dir, cut, from_selection } && !cut && !from_selection
            && dir@ == a.left.path@ && sources@.len() == 1 && sources@[0]@ == cursor_entry(a.left),
{
    assert(in_normal_mode(b1));
    law_paste_clipboard_keeps_cut_mode(b1, m2, b2, ctx2, eff2);
}

} // verus!
