//! The status-line messages, as text.
use vstd::prelude::*;
use crate::text::{concat, decimal, decimal_string};

verus! {

/// `a`, `b` and `c` one after the other.
pub fn join3(a: &str, b: &str, c: &str) -> (r: String)
    ensures
        r@ == a@ + b@ + c@,
{
    let x = concat(a, b);
    concat(x.as_str(), c)
}

/// `pre`, the decimal `n`, then `post`.
pub fn with_count(pre: &str, n: u64, post: &str) -> (r: String)
    ensures
        r@ == pre@ + decimal(n as nat) + post@,
{
    let d = decimal_string(n);
    join3(pre, d.as_str(), post)
}

pub open spec fn msg_trashed(n: nat) -> Seq<char> {
    "Trashed "@ + decimal(n) + " item(s)"@
}

pub open spec fn msg_already_exists(name: Seq<char>) -> Seq<char> {
    "❌ Already exists: "@ + name
}

pub open spec fn msg_created(dir: bool, name: Seq<char>) -> Seq<char> {
    "✅ Created "@ + (if dir {
        "Folder"@
    } else {
        "File"@
    }) + ": "@ + name
}

pub open spec fn msg_create_failed(err: Seq<char>) -> Seq<char> {
    "❌ Create failed: "@ + err
}

pub open spec fn msg_renamed(name: Seq<char>) -> Seq<char> {
    "Renamed → "@ + name
}

pub open spec fn msg_rename_failed(err: Seq<char>) -> Seq<char> {
    "Rename failed: "@ + err
}

pub open spec fn msg_updated() -> Seq<char> {
    "✔ Updated! Restart rex to use the new version."@
}

pub open spec fn msg_update_failed() -> Seq<char> {
    "✘ Update failed — run: cargo install rex-fm --force"@
}

pub open spec fn msg_opened_saved(program: Seq<char>) -> Seq<char> {
    "Opened with "@ + program + " (saved as default)"@
}

pub open spec fn msg_opened(name: Seq<char>, program: Seq<char>) -> Seq<char> {
    "Opened "@ + name + " with "@ + program
}

pub open spec fn msg_yanked_many(n: nat) -> Seq<char> {
    "Yanked "@ + decimal(n) + " item(s) — press p to paste"@
}

pub open spec fn msg_yanked(name: Seq<char>) -> Seq<char> {
    "Yanked: "@ + name
}

pub open spec fn msg_cut_many(n: nat) -> Seq<char> {
    "Cut "@ + decimal(n) + " item(s) — press p to move"@
}

pub open spec fn msg_cut(name: Seq<char>) -> Seq<char> {
    "Cut: "@ + name
}

pub open spec fn msg_processed(n: nat) -> Seq<char> {
    "Processed "@ + decimal(n) + " item(s)"@
}

pub open spec fn msg_restored(name: Seq<char>) -> Seq<char> {
    "✔ Restored: "@ + name
}

pub open spec fn msg_restored_many(n: nat) -> Seq<char> {
    "✔ Restored "@ + decimal(n) + " item(s)"@
}

} // verus!
