//! The directory pane: the current directory, its ordered entries and the cursor.
use vstd::prelude::*;
use vstd::multiset::Multiset;

use crate::order::{
    chars_order, chars_order_exec, lemma_chars_order_is_order, sort_by_key, views,
    SortKey,
};
use crate::path::{join, join_path, lemma_parent_of_join, trimmed_dir, parent, parent_of, valid_name};
use crate::text::{chars_of, lowercase_of, to_lowercase};

verus! {

/// One item of a directory listing: its name and whether it is a directory.
pub struct DirEntry {
    pub name: String,
    pub is_dir: bool,
}

impl View for DirEntry {
    type V = (Seq<char>, bool);

    open spec fn view(&self) -> (Seq<char>, bool) {
        (self.name@, self.is_dir)
    }
}

/// The views of a sequence of strings.
pub open spec fn strs(s: Seq<String>) -> Seq<Seq<char>> {
    s.map_values(|x: String| x@)
}

/// Item `k` of a listing with what it is ordered by: its lowercased name and
/// its position in the listing.
pub open spec fn keyed_at(listing: Seq<(Seq<char>, bool)>, k: int) -> (Seq<char>, bool, Seq<char>, int) {
    (listing[k].0, listing[k].1, lowercase_of(listing[k].0), k)
}

/// The items of a listing with their keys, in listing order.
pub open spec fn keyed_listing(listing: Seq<(Seq<char>, bool)>) -> Seq<(Seq<char>, bool, Seq<char>, int)> {
    Seq::new(listing.len(), |k: int| keyed_at(listing, k))
}

/// Listing order: directories first, then by lowercased name, and items
/// whose lowercased names are equal in the order the listing gave them.
pub open spec fn listing_le(a: (Seq<char>, bool, Seq<char>, int), b: (Seq<char>, bool, Seq<char>, int)) -> bool {
    (a.1 && !b.1) || (a.1 == b.1 && (chars_order(a.2, b.2) < 0 || (chars_order(a.2, b.2) == 0
        && a.3 <= b.3)))
}

/// The pinned first entry of a directory: its parent, if it has one.
pub open spec fn head_entries(path: Seq<char>) -> Seq<Seq<char>> {
    match parent_of(path) {
        Some(p) => seq![p],
        None => Seq::empty(),
    }
}

/// The directory flags of the pinned entries.
pub open spec fn head_dirs(path: Seq<char>) -> Seq<bool> {
    match parent_of(path) {
        Some(p) => seq![true],
        None => Seq::empty(),
    }
}

/// `order` is the listing ordered for display.
pub open spec fn listing_order(
    listing: Seq<(Seq<char>, bool)>,
    order: Seq<(Seq<char>, bool, Seq<char>, int)>,
) -> bool {
    &&& order.to_multiset() == keyed_listing(listing).to_multiset()
    &&& forall|i: int, j: int| 0 <= i < j < order.len() ==> listing_le(#[trigger] order[i], #[trigger] order[j])
}

/// The entries and flags a directory shows for `order`: the parent first,
/// then each listed name joined to the directory.
pub open spec fn shown_as(
    path: Seq<char>,
    order: Seq<(Seq<char>, bool, Seq<char>, int)>,
    entries: Seq<Seq<char>>,
    dirs: Seq<bool>,
) -> bool {
    &&& entries == head_entries(path) + order.map_values(|o: (Seq<char>, bool, Seq<char>, int)| join_path(path, o.0))
    &&& dirs == head_dirs(path) + order.map_values(|o: (Seq<char>, bool, Seq<char>, int)| o.1)
}

/// The entries and flags of `path` showing `listing`: the parent first, then the
/// listing with directories first, names in lowercase order, and names that
/// lowercase alike in listing order.
pub open spec fn layout(
    path: Seq<char>,
    listing: Seq<(Seq<char>, bool)>,
    entries: Seq<Seq<char>>,
    dirs: Seq<bool>,
) -> bool {
    exists|order: Seq<(Seq<char>, bool, Seq<char>, int)>|
        #[trigger] listing_order(listing, order) && shown_as(path, order, entries, dirs)
}

struct Listed {
    name: String,
    is_dir: bool,
    key: Vec<char>,
    pos: usize,
}

impl View for Listed {
    type V = (Seq<char>, bool, Seq<char>, int);

    closed spec fn view(&self) -> (Seq<char>, bool, Seq<char>, int) {
        (self.name@, self.is_dir, self.key@, self.pos as int)
    }
}

impl SortKey for Listed {
    open spec fn key_le(a: (Seq<char>, bool, Seq<char>, int), b: (Seq<char>, bool, Seq<char>, int)) -> bool {
        listing_le(a, b)
    }

    fn le(&self, other: &Self) -> (r: bool) {
        if self.is_dir != other.is_dir {
            self.is_dir
        } else {
            let c = chars_order_exec(&self.key, &other.key);
            c < 0 || (c == 0 && self.pos <= other.pos)
        }
    }

    proof fn lemma_total(a: (Seq<char>, bool, Seq<char>, int), b: (Seq<char>, bool, Seq<char>, int)) {
        lemma_chars_order_is_order();
        let f = |x: Seq<char>, y: Seq<char>| chars_order(x, y);
        assert(f(a.2, b.2) == -f(b.2, a.2));
    }

    proof fn lemma_trans(
        a: (Seq<char>, bool, Seq<char>, int),
        b: (Seq<char>, bool, Seq<char>, int),
        c: (Seq<char>, bool, Seq<char>, int),
    ) {
        lemma_chars_order_is_order();
        let f = |x: Seq<char>, y: Seq<char>| chars_order(x, y);
        assert(f(a.2, b.2) == -f(b.2, a.2));
        assert(f(b.2, c.2) == -f(c.2, b.2));
        assert(f(a.2, c.2) == -f(c.2, a.2));
        assert(f(a.2, b.2) <= 0 && f(b.2, c.2) <= 0 ==> f(a.2, c.2) <= 0);
        assert(f(b.2, a.2) <= 0 && f(a.2, c.2) <= 0 ==> f(b.2, c.2) <= 0);
        assert(f(a.2, c.2) == 0 ==> a.2 == c.2);
    }
}

/// `c` is a valid cursor for `len` entries.
pub open spec fn cursor_ok(c: nat, len: nat) -> bool {
    c < len || c == 0
}

/// The cursor after moving down among `len` entries.
pub open spec fn cursor_down(c: nat, len: nat) -> nat {
    if c + 1 < len {
        c + 1
    } else {
        c
    }
}

/// The cursor after moving up.
pub open spec fn cursor_up(c: nat) -> nat {
    if c > 0 {
        (c - 1) as nat
    } else {
        c
    }
}

/// A directory view: the path, its entries (parent first), their directory
/// flags, and the cursor.
pub struct Navigator {
    pub path: String,
    pub entries: Vec<String>,
    pub entry_is_dir: Vec<bool>,
    pub cursor: usize,
}

impl Navigator {
    /// Entries and flags line up, and the cursor is on an entry (or 0 when there is none).
    pub open spec fn wf(&self) -> bool {
        &&& self.entries@.len() == self.entry_is_dir@.len()
        &&& cursor_ok(self.cursor as nat, self.entries@.len())
    }

    /// The entry paths.
    pub open spec fn entry_views(&self) -> Seq<Seq<char>> {
        strs(self.entries@)
    }

    /// A navigator at `path` showing `listing`, with the cursor on the first entry.
    pub fn new(path: String, listing: Vec<DirEntry>) -> (nav: Navigator)
        ensures
            nav.wf(),
            nav.path@ == path@,
            nav.cursor == 0,
            layout(path@, views(listing@), nav.entry_views(), nav.entry_is_dir@),
    {
        let mut nav = Navigator { path, entries: Vec::new(), entry_is_dir: Vec::new(), cursor: 0 };
        nav.refresh(listing);
        nav
    }

    /// Replaces the entries by `listing` of the current directory, ordered with
    /// the parent first, then directories, then names in lowercase order, names
    /// that lowercase alike keeping their listing order; the cursor goes back
    /// to 0 when it falls past the end.
    pub fn refresh(&mut self, listing: Vec<DirEntry>)
        ensures
            final(self).wf(),
            final(self).path == old(self).path,
            layout(old(self).path@, views(listing@), final(self).entry_views(), final(self).entry_is_dir@),
            final(self).cursor == if old(self).cursor < final(self).entries@.len() {
                old(self).cursor
            } else {
                0
            },
    {
        let ghost lv = views(listing@);
        let mut items: Vec<Listed> = Vec::new();
        let ghost kl = keyed_listing(lv);
        for i in 0..listing.len()
            invariant
                lv == views(listing@),
                kl == keyed_listing(lv),
                views(items@) == kl.take(i as int),
        {
            let e = &listing[i];
            let key = to_lowercase(e.name.as_str());
            let key_chars = chars_of(key.as_str());
            let item = Listed { name: e.name.clone(), is_dir: e.is_dir, key: key_chars, pos: i };
            let ghost old_items = views(items@);
            items.push(item);
            proof {
                assert(lv[i as int] == e@);
                assert(item@ == kl[i as int]);
                assert(kl.take(i + 1) =~= kl.take(i as int).push(item@));
                assert(views(items@) =~= old_items.push(item@));
            }
        }
        proof {
            assert(kl.take(kl.len() as int) =~= kl);
        }
        let sorted = sort_by_key(items);
        let ghost order = views(sorted@);
        // lay out the entries
        let mut entries: Vec<String> = Vec::new();
        let mut dirs: Vec<bool> = Vec::new();
        match parent(self.path.as_str()) {
            Some(p) => {
                entries.push(p);
                dirs.push(true);
            },
            None => {},
        }
        let ghost hl = entries@.len();
        proof {
            assert(strs(entries@) =~= head_entries(self.path@));
            assert(dirs@ =~= head_dirs(self.path@));
        }
        let ghost path_v = self.path@;
        for i in 0..sorted.len()
            invariant
                path_v == self.path@,
                order == views(sorted@),
                strs(entries@) == head_entries(path_v) + order.take(i as int).map_values(
                    |o: (Seq<char>, bool, Seq<char>, int)| join_path(path_v, o.0),
                ),
                dirs@ == head_dirs(path_v) + order.take(i as int).map_values(
                    |o: (Seq<char>, bool, Seq<char>, int)| o.1,
                ),
        {
            let it = &sorted[i];
            let full = join(self.path.as_str(), it.name.as_str());
            let ghost old_e = strs(entries@);
            let ghost old_d = dirs@;
            entries.push(full);
            dirs.push(it.is_dir);
            proof {
                assert(order[i as int] == it@);
                assert(order.take(i + 1) =~= order.take(i as int).push(it@));
                let jf = |o: (Seq<char>, bool, Seq<char>, int)| join_path(path_v, o.0);
                let df = |o: (Seq<char>, bool, Seq<char>, int)| o.1;
                assert(order.take(i + 1).map_values(jf) =~= order.take(i as int).map_values(
                    jf,
                ).push(jf(it@)));
                assert(order.take(i + 1).map_values(df) =~= order.take(i as int).map_values(
                    df,
                ).push(df(it@)));
                assert(strs(entries@) =~= old_e.push(full@));
                assert(dirs@ =~= old_d.push(it.is_dir));
            }
        }
        proof {
            assert(order.take(order.len() as int) =~= order);
            assert(listing_order(lv, order));
            assert(shown_as(path_v, order, strs(entries@), dirs@));
        }
        self.entries = entries;
        self.entry_is_dir = dirs;
        if self.cursor >= self.entries.len() {
            self.cursor = 0;
        }
    }

    /// Moves the cursor down one entry, unless it is on the last one.
    pub fn move_down(&mut self)
        requires
            old(self).wf(),
        ensures
            final(self).wf(),
            final(self).cursor == cursor_down(old(self).cursor as nat, old(self).entries@.len()),
            final(self).path == old(self).path,
            final(self).entries == old(self).entries,
            final(self).entry_is_dir == old(self).entry_is_dir,
    {
        if self.cursor < self.entries.len() && self.cursor + 1 < self.entries.len() {
            self.cursor = self.cursor + 1;
        }
    }

    /// Moves the cursor up one entry, unless it is on the first one.
    pub fn move_up(&mut self)
        requires
            old(self).wf(),
        ensures
            final(self).wf(),
            final(self).cursor == cursor_up(old(self).cursor as nat),
            final(self).path == old(self).path,
            final(self).entries == old(self).entries,
            final(self).entry_is_dir == old(self).entry_is_dir,
    {
        if self.cursor > 0 {
            self.cursor = self.cursor - 1;
        }
    }

    /// Enters the directory under the cursor: the path becomes that entry and the
    /// cursor 0. Returns whether it did; the entries then await a fresh listing.
    pub fn enter(&mut self) -> (entered: bool)
        requires
            old(self).wf(),
        ensures
            final(self).wf(),
            final(self).entries == old(self).entries,
            final(self).entry_is_dir == old(self).entry_is_dir,
            entered == (old(self).cursor < old(self).entries@.len()
                && old(self).entry_is_dir@[old(self).cursor as int]),
            entered ==> final(self).path@ == old(self).entries@[old(self).cursor as int]@
                && final(self).cursor == 0,
            !entered ==> final(self).path == old(self).path && final(self).cursor == old(self).cursor,
    {
        if self.cursor < self.entry_is_dir.len() && self.entry_is_dir[self.cursor] {
            self.path = self.entries[self.cursor].clone();
            self.cursor = 0;
            true
        } else {
            false
        }
    }

    /// Goes to the parent directory with the cursor at 0, if there is one.
    /// Returns whether it did; the entries then await a fresh listing.
    pub fn back(&mut self) -> (moved: bool)
        requires
            old(self).wf(),
        ensures
            final(self).wf(),
            final(self).entries == old(self).entries,
            final(self).entry_is_dir == old(self).entry_is_dir,
            moved == parent_of(old(self).path@).is_some(),
            moved ==> final(self).path@ == parent_of(old(self).path@).unwrap() && final(self).cursor
                == 0,
            !moved ==> final(self).path == old(self).path && final(self).cursor == old(self).cursor,
    {
        match parent(self.path.as_str()) {
            Some(p) => {
                self.path = p;
                self.cursor = 0;
                true
            },
            None => false,
        }
    }
}

/// Moving down and then up comes back to the same entry whenever the move down moved.
pub proof fn law_down_then_up(c: nat, len: nat)
    requires
        cursor_ok(c, len),
        cursor_down(c, len) != c,
    ensures
        cursor_up(cursor_down(c, len)) == c,
{
}

/// Every listed entry other than the pinned parent is a child of the directory:
/// its parent is the directory itself, so going back after entering it returns
/// to where one was.
pub proof fn law_entries_are_children(
    path: Seq<char>,
    listing: Seq<(Seq<char>, bool)>,
    entries: Seq<Seq<char>>,
    dirs: Seq<bool>,
    i: int,
)
    requires
        layout(path, listing, entries, dirs),
        forall|k: int| 0 <= k < listing.len() ==> valid_name(#[trigger] listing[k].0),
        trimmed_dir(path),
        head_entries(path).len() <= i < entries.len(),
    ensures
        parent_of(entries[i]) == Some(path),
{
    broadcast use vstd::seq_lib::group_to_multiset_ensures;

    let order = choose|order: Seq<(Seq<char>, bool, Seq<char>, int)>|
        #[trigger] listing_order(listing, order) && shown_as(path, order, entries, dirs);
    let h = head_entries(path).len() as int;
    let o = order[i - h];
    assert(entries[i] == join_path(path, o.0));
    let kl = keyed_listing(listing);
    assert(order.to_multiset().count(o) > 0);
    assert(kl.to_multiset().count(o) > 0);
    assert(kl.contains(o));
    let k = choose|k: int| 0 <= k < kl.len() && kl[k] == o;
    assert(kl[k] == keyed_at(listing, k));
    assert(valid_name(listing[k].0));
    lemma_parent_of_join(path, o.0);
}

/// A listing shows every listed item exactly once, after the parent entry:
/// one entry per item, with a directory flag for each entry.
pub proof fn law_listing_complete(
    path: Seq<char>,
    listing: Seq<(Seq<char>, bool)>,
    entries: Seq<Seq<char>>,
    dirs: Seq<bool>,
)
    requires
        layout(path, listing, entries, dirs),
    ensures
        entries.len() == head_entries(path).len() + listing.len(),
        dirs.len() == entries.len(),
{
    broadcast use vstd::seq_lib::group_to_multiset_ensures;

    let order = choose|order: Seq<(Seq<char>, bool, Seq<char>, int)>|
        #[trigger] listing_order(listing, order) && shown_as(path, order, entries, dirs);
    let kl = keyed_listing(listing);
    assert(order.to_multiset().len() == order.len());
    assert(kl.to_multiset().len() == kl.len());
}

/// Two ascending orders of one multiset are the same sequence when no two of
/// its distinct items are each at most the other.
proof fn lemma_listing_order_unique(
    o1: Seq<(Seq<char>, bool, Seq<char>, int)>,
    o2: Seq<(Seq<char>, bool, Seq<char>, int)>,
    m: Multiset<(Seq<char>, bool, Seq<char>, int)>,
)
    requires
        o1.to_multiset() == m,
        o2.to_multiset() == m,
        forall|i: int, j: int| 0 <= i < j < o1.len() ==> listing_le(#[trigger] o1[i], #[trigger] o1[j]),
        forall|i: int, j: int| 0 <= i < j < o2.len() ==> listing_le(#[trigger] o2[i], #[trigger] o2[j]),
        forall|a: (Seq<char>, bool, Seq<char>, int), b: (Seq<char>, bool, Seq<char>, int)|
            m.contains(a) && m.contains(b) && #[trigger] listing_le(a, b) && #[trigger] listing_le(b, a)
                ==> a == b,
    ensures
        o1 == o2,
    decreases o1.len(),
{
    broadcast use vstd::seq_lib::group_to_multiset_ensures;
    broadcast use vstd::multiset::group_multiset_axioms;

    assert(o1.len() == o2.len()) by {
        assert(o1.to_multiset().len() == o1.len());
        assert(o2.to_multiset().len() == o2.len());
    }
    if o1.len() == 0 {
        assert(o1 =~= o2);
    } else {
        let n = o1.len() as int;
        let x = o1.last();
        let y = o2.last();
        assert(o1.contains(x) && o2.contains(y)) by {
            assert(o1[n - 1] == x);
            assert(o2[n - 1] == y);
        }
        assert(m.contains(x) && m.contains(y));
        assert(o2.contains(x));
        assert(o1.contains(y));
        let j = choose|j: int| 0 <= j < n && o2[j] == x;
        let k = choose|k: int| 0 <= k < n && o1[k] == y;
        if j < n - 1 && k < n - 1 {
            assert(listing_le(o2[j], o2[n - 1]));
            assert(listing_le(o1[k], o1[n - 1]));
        }
        assert(x == y);
        let r1 = o1.drop_last();
        let r2 = o2.drop_last();
        assert(o1 =~= r1.push(x));
        assert(o2 =~= r2.push(x));
        assert(r1.to_multiset() =~= m.remove(x));
        assert(r2.to_multiset() =~= m.remove(x));
        assert forall|i: int, j2: int| 0 <= i < j2 < r1.len() implies listing_le(#[trigger] r1[i], #[trigger] r1[j2]) by {
            assert(r1[i] == o1[i] && r1[j2] == o1[j2]);
        }
        assert forall|i: int, j2: int| 0 <= i < j2 < r2.len() implies listing_le(#[trigger] r2[i], #[trigger] r2[j2]) by {
            assert(r2[i] == o2[i] && r2[j2] == o2[j2]);
        }
        lemma_listing_order_unique(r1, r2, m.remove(x));
    }
}

/// No two distinct items of a keyed listing are each at most the other.
proof fn lemma_keyed_listing_antisymmetric(listing: Seq<(Seq<char>, bool)>)
    ensures
        forall|a: (Seq<char>, bool, Seq<char>, int), b: (Seq<char>, bool, Seq<char>, int)|
            keyed_listing(listing).to_multiset().contains(a) && keyed_listing(listing).to_multiset().contains(b)
                && #[trigger] listing_le(a, b) && #[trigger] listing_le(b, a) ==> a == b,
{
    broadcast use vstd::seq_lib::group_to_multiset_ensures;

    let kl = keyed_listing(listing);
    lemma_chars_order_is_order();
    let f = |x: Seq<char>, y: Seq<char>| chars_order(x, y);
    assert forall|a: (Seq<char>, bool, Seq<char>, int), b: (Seq<char>, bool, Seq<char>, int)|
        kl.to_multiset().contains(a) && kl.to_multiset().contains(b) && #[trigger] listing_le(a, b)
            && #[trigger] listing_le(b, a) implies a == b by {
        assert(kl.contains(a) && kl.contains(b));
        let ka = choose|ka: int| 0 <= ka < kl.len() && kl[ka] == a;
        let kb = choose|kb: int| 0 <= kb < kl.len() && kl[kb] == b;
        assert(a == keyed_at(listing, ka) && b == keyed_at(listing, kb));
        assert(f(a.2, b.2) == -f(b.2, a.2));
        assert(a.3 == b.3);
    }
}

/// The entries and flags shown for a listing are determined by the path and
/// the listing: two layouts of the same listing are the same.
pub proof fn law_layout_determined(
    path: Seq<char>,
    listing: Seq<(Seq<char>, bool)>,
    entries1: Seq<Seq<char>>,
    dirs1: Seq<bool>,
    entries2: Seq<Seq<char>>,
    dirs2: Seq<bool>,
)
    requires
        layout(path, listing, entries1, dirs1),
        layout(path, listing, entries2, dirs2),
    ensures
        entries1 == entries2,
        dirs1 == dirs2,
{
    let o1 = choose|order: Seq<(Seq<char>, bool, Seq<char>, int)>|
        #[trigger] listing_order(listing, order) && shown_as(path, order, entries1, dirs1);
    let o2 = choose|order: Seq<(Seq<char>, bool, Seq<char>, int)>|
        #[trigger] listing_order(listing, order) && shown_as(path, order, entries2, dirs2);
    lemma_keyed_listing_antisymmetric(listing);
    lemma_listing_order_unique(o1, o2, keyed_listing(listing).to_multiset());
}

/// The first row of a directory that has a parent is that parent, flagged as
/// a directory: entering it goes where going back goes.
pub proof fn law_parent_row(
    path: Seq<char>,
    listing: Seq<(Seq<char>, bool)>,
    entries: Seq<Seq<char>>,
    dirs: Seq<bool>,
)
    requires
        layout(path, listing, entries, dirs),
        parent_of(path) is Some,
    ensures
        entries.len() > 0,
        entries[0] == parent_of(path).unwrap(),
        dirs[0],
{
    let o = choose|order: Seq<(Seq<char>, bool, Seq<char>, int)>|
        #[trigger] listing_order(listing, order) && shown_as(path, order, entries, dirs);
    assert(entries[0] == head_entries(path)[0]);
    assert(dirs[0] == head_dirs(path)[0]);
}

} // verus!
