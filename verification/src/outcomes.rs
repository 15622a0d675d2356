//! What the state makes of work done on its behalf: a fresh listing of the
//! pane's directory, trashed items, a created or renamed entry, an installed
//! update, and pasted items.
use vstd::prelude::*;
use crate::app::{status_deadline, App, Operation};
use crate::keys::{g_clip, g_history, g_nav, g_status, g_update, same_except, unchanged};
use crate::messages::{
    join3, msg_already_exists, msg_create_failed, msg_created, msg_processed, msg_rename_failed,
    msg_renamed, msg_trashed, msg_update_failed, msg_updated, with_count,
};
use crate::navigator::{layout, strs, DirEntry};
use crate::order::views;
use crate::text::{concat, to_owned_string};

verus! {

/// How creating a new file or folder ended.
pub enum CreateOutcome {
    /// Something of that name was already there; nothing was created.
    AlreadyExists,
    /// The item was created.
    Created,
    /// Creating failed with this error.
    Failed(String),
}

/// `i` is the first position of `x` in `s`.
pub open spec fn first_at(s: Seq<Seq<char>>, x: Seq<char>, i: int) -> bool {
    &&& 0 <= i < s.len()
    &&& s[i] == x
    &&& forall|j: int| 0 <= j < i ==> s[j] != x
}

/// The message after trying to create `name`.
pub open spec fn create_message(outcome: CreateOutcome, name: Seq<char>, folder: bool) -> Seq<char> {
    match outcome {
        CreateOutcome::AlreadyExists => msg_already_exists(name),
        CreateOutcome::Created => msg_created(folder, name),
        CreateOutcome::Failed(e) => msg_create_failed(e@),
    }
}

impl App {
    fn set_nav_cursor(&mut self, c: usize)
        requires
            c < old(self).left.entries@.len(),
            old(self).left.wf(),
        ensures
            final(self).left.cursor == c,
            final(self).left.wf(),
            final(self).left.path == old(self).left.path,
            final(self).left.entries == old(self).left.entries,
            final(self).left.entry_is_dir == old(self).left.entry_is_dir,
            same_except(*old(self), *final(self), g_nav(), 0, 0),
    {
        self.left.cursor = c;
    }

    fn refresh_nav(&mut self, listing: Vec<DirEntry>)
        ensures
            final(self).left.wf(),
            final(self).left.path == old(self).left.path,
            layout(old(self).left.path@, views(listing@), final(self).left.entry_views(), final(self).left.entry_is_dir@),
            final(self).left.cursor == if old(self).left.cursor < final(self).left.entries@.len() {
                old(self).left.cursor
            } else {
                0
            },
            same_except(*old(self), *final(self), g_nav(), 0, 0),
    {
        self.left.refresh(listing);
    }

    /// The pane's directory was read again into `listing`: the entries are laid
    /// out anew, the cursor stays where it was while that is still an entry (else
    /// it goes to 0), and when `focus` is one of the entries the cursor goes to
    /// its first occurrence.
    pub fn reload_listing(&mut self, listing: Vec<DirEntry>, focus: Option<String>)
        ensures
            final(self).left.wf(),
            final(self).left.path == old(self).left.path,
            layout(old(self).left.path@, views(listing@), final(self).left.entry_views(), final(self).left.entry_is_dir@),
            match focus {
                Some(f) if strs(final(self).left.entries@).contains(f@) => first_at(
                    strs(final(self).left.entries@),
                    f@,
                    final(self).left.cursor as int,
                ),
                _ => final(self).left.cursor == if old(self).left.cursor < final(self).left.entries@.len() {
                    old(self).left.cursor
                } else {
                    0
                },
            },
            same_except(*old(self), *final(self), g_nav(), 0, 0),
    {
        self.refresh_nav(listing);
        match focus {
            Some(f) => {
                let found = first_index(&self.left.entries, f.as_str());
                match found {
                    Some(i) => {
                        self.set_nav_cursor(i);
                    },
                    None => {},
                }
            },
            None => {},
        }
    }

    fn push_history(&mut self, op: Operation)
        ensures
            final(self).history@ == old(self).history@.push(op),
            same_except(*old(self), *final(self), g_history(), 0, 0),
    {
        self.history.push(op);
    }

    fn set_status_now(&mut self, msg: String)
        ensures
            final(self).status_msg == Some(msg),
            final(self).status_expires_at == old(self).status_expires_at,
            final(self).warned_no_fd == old(self).warned_no_fd,
            same_except(*old(self), *final(self), g_status(), 0, 0),
    {
        self.status_msg = Some(msg);
    }

    fn set_status_until(&mut self, msg: String, now: u64)
        ensures
            final(self).status_msg == Some(msg),
            final(self).status_expires_at == Some(status_deadline(now)),
            final(self).warned_no_fd == old(self).warned_no_fd,
            same_except(*old(self), *final(self), g_status(), 0, 0),
    {
        self.set_status_timeout(msg, now);
    }

    /// Items were moved to the trash, each as (original path, path in the trash):
    /// when there are any, the batch becomes the last undoable operation, the
    /// count is reported, and the listing is to be read again (`true`).
    pub fn record_trashed(&mut self, batch: Vec<(String, String)>) -> (reload: bool)
        ensures
            reload == (batch@.len() > 0),
            batch@.len() > 0 ==> {
                &&& final(self).history@ == old(self).history@.push(Operation::DeleteBatch { items: batch })
                &&& final(self).status_msg.is_some()
                &&& final(self).status_msg.unwrap()@ == msg_trashed(batch@.len())
                &&& final(self).status_expires_at == old(self).status_expires_at
                &&& final(self).warned_no_fd == old(self).warned_no_fd
                &&& same_except(*old(self), *final(self), g_history(), g_status(), 0)
            },
            batch@.len() == 0 ==> unchanged(*old(self), *final(self)),
    {
        if batch.len() == 0 {
            return false;
        }
        let n = batch.len() as u64;
        self.push_history(Operation::DeleteBatch { items: batch });
        let msg = with_count("Trashed ", n, " item(s)");
        self.set_status_now(msg);
        true
    }

    /// Creating `name` ended with `outcome`: the outcome is reported for a
    /// while, and the listing is to be read again when the item was created.
    pub fn finish_create(&mut self, outcome: CreateOutcome, name: &str, folder: bool, now: u64) -> (reload: bool)
        ensures
            reload == (outcome is Created),
            final(self).status_msg.is_some(),
            final(self).status_msg.unwrap()@ == create_message(outcome, name@, folder),
            final(self).status_expires_at == Some(status_deadline(now)),
            final(self).warned_no_fd == old(self).warned_no_fd,
            same_except(*old(self), *final(self), g_status(), 0, 0),
    {
        let (msg, reload) = match outcome {
            CreateOutcome::AlreadyExists => (concat("❌ Already exists: ", name), false),
            CreateOutcome::Created => {
                let kind = if folder {
                    "Folder"
                } else {
                    "File"
                };
                let head = join3("✅ Created ", kind, ": ");
                (concat(head.as_str(), name), true)
            },
            CreateOutcome::Failed(e) => (concat("❌ Create failed: ", e.as_str()), false),
        };
        self.set_status_until(msg, now);
        reload
    }

    /// Renaming to `new_name` ended with `result`: the outcome is reported, and
    /// the listing is to be read again after a success.
    pub fn finish_rename(&mut self, new_name: &str, result: Result<(), String>) -> (reload: bool)
        ensures
            reload == result.is_ok(),
            final(self).status_msg.is_some(),
            final(self).status_msg.unwrap()@ == match result {
                Ok(_) => msg_renamed(new_name@),
                Err(e) => msg_rename_failed(e@),
            },
            final(self).status_expires_at == old(self).status_expires_at,
            final(self).warned_no_fd == old(self).warned_no_fd,
            same_except(*old(self), *final(self), g_status(), 0, 0),
    {
        let (msg, reload) = match result {
            Ok(_) => (concat("Renamed → ", new_name), true),
            Err(e) => (concat("Rename failed: ", e.as_str()), false),
        };
        self.set_status_now(msg);
        reload
    }

    fn clear_update(&mut self)
        ensures
            final(self).update_available.is_none(),
            final(self).show_update_popup == old(self).show_update_popup,
            final(self).show_changelog == old(self).show_changelog,
            final(self).changelog_lines == old(self).changelog_lines,
            final(self).changelog_scroll == old(self).changelog_scroll,
            same_except(*old(self), *final(self), g_update(), 0, 0),
    {
        self.update_available = None;
    }

    /// Installing the new version succeeded or failed: the outcome is reported,
    /// and after a success no update is pending any more.
    pub fn finish_update(&mut self, success: bool)
        ensures
            final(self).status_msg.is_some(),
            final(self).status_msg.unwrap()@ == if success {
                msg_updated()
            } else {
                msg_update_failed()
            },
            final(self).status_expires_at == old(self).status_expires_at,
            final(self).warned_no_fd == old(self).warned_no_fd,
            success ==> final(self).update_available.is_none() && final(self).show_update_popup
                == old(self).show_update_popup && final(self).show_changelog == old(self).show_changelog
                && final(self).changelog_lines == old(self).changelog_lines && final(self).changelog_scroll
                == old(self).changelog_scroll && same_except(*old(self), *final(self), g_status(), g_update(), 0),
            !success ==> same_except(*old(self), *final(self), g_status(), 0, 0),
    {
        if success {
            self.clear_update();
            self.set_status_now(to_owned_string("✔ Updated! Restart rex to use the new version."));
        } else {
            self.set_status_now(to_owned_string("✘ Update failed — run: cargo install rex-fm --force"));
        }
    }

    fn set_clipboard_state(&mut self, clipboard: Option<String>, cut: bool)
        ensures
            final(self).clipboard == clipboard,
            final(self).cut_mode == cut,
            final(self).selected == old(self).selected,
            same_except(*old(self), *final(self), g_clip(), 0, 0),
    {
        self.clipboard = clipboard;
        self.cut_mode = cut;
    }

    /// One pasted item arrived at `to` from `from` (moved when `cut`, else
    /// copied): the step becomes the last undoable operation, and a moved
    /// clipboard item is no longer on the clipboard.
    pub fn record_paste(&mut self, from: String, to: String, cut: bool, from_selection: bool)
        ensures
            final(self).history@ == old(self).history@.push(
                if cut {
                    Operation::Move { from, to }
                } else {
                    Operation::Copy { _from: from, to }
                },
            ),
            cut && !from_selection ==> final(self).clipboard.is_none() && !final(self).cut_mode
                && final(self).selected == old(self).selected && same_except(*old(self), *final(self), g_history(), g_clip(), 0),
            !(cut && !from_selection) ==> same_except(*old(self), *final(self), g_history(), 0, 0),
    {
        let op = if cut {
            Operation::Move { from, to }
        } else {
            Operation::Copy { _from: from, to }
        };
        self.push_history(op);
        if cut && !from_selection {
            self.set_clipboard_state(None, false);
        }
    }

    fn end_selection_paste(&mut self, msg: String)
        ensures
            old(self).cut_mode ==> final(self).selected@.len() == 0 && !final(self).cut_mode,
            !old(self).cut_mode ==> final(self).selected == old(self).selected && final(self).cut_mode
                == old(self).cut_mode,
            final(self).clipboard == old(self).clipboard,
            final(self).status_msg == Some(msg),
            final(self).status_expires_at == old(self).status_expires_at,
            final(self).warned_no_fd == old(self).warned_no_fd,
            same_except(*old(self), *final(self), g_clip(), g_status(), 0),
    {
        if self.cut_mode {
            self.selected = Vec::new();
            self.cut_mode = false;
        }
        self.status_msg = Some(msg);
    }

    /// A paste has ended. After pasting the selection, the number of selected
    /// items is reported, and a cut selection is emptied and leaves cut mode.
    pub fn finish_paste(&mut self, from_selection: bool)
        ensures
            from_selection ==> {
                &&& old(self).cut_mode ==> final(self).selected@.len() == 0 && !final(self).cut_mode
                &&& !old(self).cut_mode ==> final(self).selected == old(self).selected
                    && final(self).cut_mode == old(self).cut_mode
                &&& final(self).clipboard == old(self).clipboard
                &&& final(self).status_msg.is_some()
                &&& final(self).status_msg.unwrap()@ == msg_processed(old(self).selected@.len())
                &&& final(self).status_expires_at == old(self).status_expires_at
                &&& final(self).warned_no_fd == old(self).warned_no_fd
                &&& same_except(*old(self), *final(self), g_clip(), g_status(), 0)
            },
            !from_selection ==> unchanged(*old(self), *final(self)),
    {
        if from_selection {
            let n = self.selected.len() as u64;
            let msg = with_count("Processed ", n, " item(s)");
            self.end_selection_paste(msg);
        }
    }
}

/// The first position of `x` in `v`, if it occurs there.
pub fn first_index(v: &Vec<String>, x: &str) -> (r: Option<usize>)
    ensures
        match r {
            Some(i) => first_at(strs(v@), x@, i as int),
            None => !strs(v@).contains(x@),
        },
{
    for i in 0..v.len()
        invariant
            forall|j: int| 0 <= j < i ==> strs(v@)[j] != x@,
    {
        if crate::text::str_eq(v[i].as_str(), x) {
            return Some(i);
        }
    }
    None
}

} // verus!
