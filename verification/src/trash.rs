//! Where deleted items go, and how a free destination name is chosen when
//! the wanted one is taken.
use vstd::prelude::*;
use vstd::set_lib::lemma_len_subset;
use crate::path::{
    extension, extension_of, file_name, file_name_of, file_stem, file_stem_of, join,
    join_path, last_dot, lemma_file_name_of_join, lemma_parent_of_join, trimmed_dir, parent,
    parent_of, set_file_name, trim_trailing, trimmed_len, valid_name, with_file_name,
};
use crate::text::{chars_of, concat, decimal, decimal_string, lemma_decimal_digits, lemma_decimal_injective, to_owned_string};

verus! {

/// Whether `p` is one of `existing`.
pub open spec fn taken(existing: Seq<String>, p: Seq<char>) -> bool {
    exists|i: int| 0 <= i < existing.len() && (#[trigger] existing[i])@ == p
}

/// Whether `p` is one of `existing`.
pub fn is_taken(existing: &Vec<String>, p: &str) -> (r: bool)
    ensures
        r == taken(existing@, p@),
{
    let pc = chars_of(p);
    for i in 0..existing.len()
        invariant
            pc@ == p@,
            forall|j: int| 0 <= j < i ==> (#[trigger] existing@[j])@ != p@,
    {
        let e = chars_of(existing[i].as_str());
        if crate::text::chars_eq(&e, &pc) {
            assert((existing@[i as int])@ == p@);
            return true;
        }
    }
    false
}

/// The directory deleted items are moved to, under the home directory `home`.
pub fn trash_dir_under(home: &str) -> (r: String)
    ensures
        r@ == join_path(home@, ".rex_trash"@),
{
    let name = ".rex_trash";
    join(home, name)
}

/// The `n`-th alternative name for `path`: its stem, `_n`, then its extension.
pub open spec fn numbered_name(path: Seq<char>, n: nat) -> Seq<char> {
    let stem = match file_stem_of(path) {
        Some(s) => s,
        None => Seq::empty(),
    };
    let ext = match extension_of(path) {
        Some(e) => seq!['.'] + e,
        None => Seq::empty(),
    };
    stem + seq!['_'] + decimal(n) + ext
}

/// The `n`-th alternative to `path` in the same directory.
pub open spec fn numbered_dest(path: Seq<char>, n: nat) -> Seq<char> {
    join_path(parent_of(path).unwrap(), numbered_name(path, n))
}

proof fn lemma_seq_add_cancel_right(a: Seq<char>, b: Seq<char>, c: Seq<char>)
    requires
        a + c == b + c,
    ensures
        a == b,
{
    assert((a + c).len() == a.len() + c.len());
    assert((b + c).len() == b.len() + c.len());
    assert(a.len() == b.len());
    assert forall|i: int| 0 <= i < a.len() implies a[i] == b[i] by {
        assert((a + c)[i] == a[i]);
        assert((b + c)[i] == b[i]);
    }
    assert(a =~= b);
}

proof fn lemma_seq_add_cancel_left(a: Seq<char>, b: Seq<char>, c: Seq<char>)
    requires
        c + a == c + b,
    ensures
        a == b,
{
    assert((c + a).len() == a.len() + c.len());
    assert((c + b).len() == b.len() + c.len());
    assert(a.len() == b.len());
    assert forall|i: int| 0 <= i < a.len() implies a[i] == b[i] by {
        assert((c + a)[i + c.len()] == a[i]);
        assert((c + b)[i + c.len()] == b[i]);
    }
    assert(a =~= b);
}

proof fn lemma_file_name_no_slash(p: Seq<char>)
    requires
        file_name_of(p).is_some(),
    ensures
        forall|i: int|
            0 <= i < file_name_of(p).unwrap().len() ==> #[trigger] file_name_of(p).unwrap()[i]
                != '/',
        file_name_of(p).unwrap().len() > 0,
{
    let t = crate::path::trim_trailing(p);
    let k = crate::path::last_slash(t);
    lemma_last_slash_props(t);
    lemma_trimmed_props(p);
    let n = t.skip(k + 1);
    assert forall|i: int| 0 <= i < n.len() implies n[i] != '/' by {
        lemma_last_slash_is_last(t, k + 1 + i);
    }
    if n.len() == 0 {
        assert(t.last() == '/');
    }
}

proof fn lemma_last_slash_props(s: Seq<char>)
    ensures
        -1 <= crate::path::last_slash(s) < s.len(),
        crate::path::last_slash(s) >= 0 ==> s[crate::path::last_slash(s)] == '/',
    decreases s.len(),
{
    if s.len() > 0 && s.last() != '/' {
        lemma_last_slash_props(s.drop_last());
    }
}

proof fn lemma_last_slash_is_last(s: Seq<char>, j: int)
    requires
        crate::path::last_slash(s) < j < s.len(),
    ensures
        s[j] != '/',
    decreases s.len(),
{
    lemma_last_slash_props(s);
    if s.last() == '/' {
        assert(crate::path::last_slash(s) == s.len() - 1);
    } else if j < s.len() - 1 {
        assert(crate::path::last_slash(s) == crate::path::last_slash(s.drop_last()));
        lemma_last_slash_is_last(s.drop_last(), j);
        assert(s.drop_last()[j] == s[j]);
    }
}

proof fn lemma_trimmed_props(p: Seq<char>)
    ensures
        crate::path::trimmed_len(p) <= p.len(),
        crate::path::trimmed_len(p) > 1 ==> p[crate::path::trimmed_len(p) - 1] != '/',
        p.len() > 0 ==> crate::path::trimmed_len(p) > 0,
    decreases p.len(),
{
    if crate::path::trims_last(p) {
        lemma_trimmed_props(p.drop_last());
    }
}

/// `r` is where an item meant for `path` goes: `path` itself when it is free,
/// else its first numbered alternative that is free.
pub open spec fn dest_choice(existing: Seq<String>, path: Seq<char>, r: Seq<char>) -> bool {
    &&& !taken(existing, path) ==> r == path
    &&& taken(existing, path) ==> exists|n: nat|
        n >= 1 && r == numbered_dest(path, n) && !taken(existing, numbered_dest(path, n)) && forall|m: nat|
            1 <= m < n ==> taken(existing, #[trigger] numbered_dest(path, m))
}

/// The destination is determined by the path and what exists: a caller can
/// predict where an item will go before it is moved.
pub proof fn law_unique_dest_predictable(existing: Seq<String>, path: Seq<char>, r1: Seq<char>, r2: Seq<char>)
    requires
        dest_choice(existing, path, r1),
        dest_choice(existing, path, r2),
    ensures
        r1 == r2,
{
    if taken(existing, path) {
        let n1 = choose|n: nat|
            n >= 1 && r1 == numbered_dest(path, n) && !taken(existing, numbered_dest(path, n)) && forall|m: nat|
                1 <= m < n ==> taken(existing, #[trigger] numbered_dest(path, m));
        let n2 = choose|n: nat|
            n >= 1 && r2 == numbered_dest(path, n) && !taken(existing, numbered_dest(path, n)) && forall|m: nat|
                1 <= m < n ==> taken(existing, #[trigger] numbered_dest(path, m));
        if n1 < n2 {
            assert(taken(existing, numbered_dest(path, n1)));
        } else if n2 < n1 {
            assert(taken(existing, numbered_dest(path, n2)));
        }
    }
}

/// Where an item meant for `path` goes, given what exists (see `dest_choice`).
pub open spec fn unique_dest_of(existing: Seq<String>, path: Seq<char>) -> Seq<char> {
    choose|r: Seq<char>| dest_choice(existing, path, r)
}

/// A destination chosen by the rule is the one `unique_dest_of` names.
proof fn lemma_dest_choice_named(existing: Seq<String>, path: Seq<char>, r: Seq<char>)
    requires
        dest_choice(existing, path, r),
    ensures
        r == unique_dest_of(existing, path),
{
    law_unique_dest_predictable(existing, path, r, unique_dest_of(existing, path));
}

/// Distinct numbers give distinct alternatives.
pub proof fn lemma_numbered_dest_injective(path: Seq<char>, a: nat, b: nat)
    requires
        parent_of(path).is_some(),
        numbered_dest(path, a) == numbered_dest(path, b),
    ensures
        a == b,
{
    let stem = match file_stem_of(path) {
        Some(s) => s,
        None => Seq::<char>::empty(),
    };
    let ext = match extension_of(path) {
        Some(e) => seq!['.'] + e,
        None => Seq::<char>::empty(),
    };
    let pre = stem + seq!['_'];
    let na = numbered_name(path, a);
    let nb = numbered_name(path, b);
    assert(na =~= pre + (decimal(a) + ext));
    assert(nb =~= pre + (decimal(b) + ext));
    let par = parent_of(path).unwrap();
    // both names start alike, so they are joined alike
    lemma_decimal_digits(a);
    lemma_decimal_digits(b);
    assert(na[0] == nb[0]) by {
        if stem.len() > 0 {
            assert(na[0] == stem[0]);
            assert(nb[0] == stem[0]);
        } else {
            assert(na[0] == '_');
            assert(nb[0] == '_');
        }
    }
    if na.len() > 0 && na[0] == '/' {
        assert(na == nb);
    } else if par.len() > 0 && par.last() != '/' {
        assert(par + seq!['/'] + na == par + seq!['/'] + nb);
        lemma_seq_add_cancel_left(na, nb, par + seq!['/']);
    } else {
        lemma_seq_add_cancel_left(na, nb, par);
    }
    lemma_seq_add_cancel_left(decimal(a) + ext, decimal(b) + ext, pre);
    lemma_seq_add_cancel_right(decimal(a), decimal(b), ext);
    lemma_decimal_injective(a, b);
}

/// The name `path` would get as its `n`-th alternative.
fn numbered_name_exec(path: &str, n: u64) -> (r: String)
    ensures
        r@ == numbered_name(path@, n as nat),
{
    let stem = match file_stem(path) {
        Some(s) => s,
        None => String::new(),
    };
    let ext = match extension(path) {
        Some(e) => concat(".", e.as_str()),
        None => String::new(),
    };
    proof {
        reveal_strlit(".");
    }
    let a = concat(stem.as_str(), "_");
    proof {
        reveal_strlit("_");
    }
    let d = decimal_string(n);
    let b = concat(a.as_str(), d.as_str());
    let r = concat(b.as_str(), ext.as_str());
    assert(r@ =~= numbered_name(path@, n as nat));
    r
}

/// `path` itself when it is free, else its first free numbered alternative
/// (`stem_1.ext`, `stem_2.ext`, ...) in the same directory.
pub fn unique_dest(path: &str, existing: &Vec<String>) -> (r: String)
    requires
        taken(existing@, path@) ==> parent_of(path@).is_some(),
        existing@.len() < u32::MAX,
    ensures
        dest_choice(existing@, path@, r@),
        r@ == unique_dest_of(existing@, path@),
        !taken(existing@, r@),
{
    if !is_taken(existing, path) {
        let r = to_owned_string(path);
        proof {
            lemma_dest_choice_named(existing@, path@, r@);
        }
        return r;
    }
    let par = parent(path).unwrap();
    let ghost ex = existing@.map_values(|s: String| s@).to_set();
    let ghost mut seen: Set<Seq<char>> = Set::empty();
    let mut n: u32 = 1;
    loop
        invariant
            1 <= n,
            taken(existing@, path@),
            n as nat <= existing@.len() + 1,
            existing@.len() < u32::MAX,
            parent_of(path@).is_some(),
            par@ == parent_of(path@).unwrap(),
            ex == existing@.map_values(|s: String| s@).to_set(),
            seen.finite(),
            seen.len() == n - 1,
            seen.subset_of(ex),
            forall|m: nat| 1 <= m < n ==> seen.contains(#[trigger] numbered_dest(path@, m)),
            forall|x: Seq<char>| seen.contains(x) ==> exists|m: nat|
                1 <= m < n && x == #[trigger] numbered_dest(path@, m),
            forall|m: nat| 1 <= m < n ==> taken(existing@, #[trigger] numbered_dest(path@, m)),
        decreases existing@.len() + 1 - n,
    {
        let name = numbered_name_exec(path, n as u64);
        let cand = join(par.as_str(), name.as_str());
        if !is_taken(existing, cand.as_str()) {
            proof {
                let nn = n as nat;
                assert(cand@ == numbered_dest(path@, nn));
                assert(nn >= 1 && cand@ == numbered_dest(path@, nn) && !taken(existing@, numbered_dest(path@, nn))
                    && forall|m: nat| 1 <= m < nn ==> taken(existing@, #[trigger] numbered_dest(path@, m)));
                lemma_dest_choice_named(existing@, path@, cand@);
            }
            return cand;
        }
        proof {
            let c = numbered_dest(path@, n as nat);
            assert(cand@ == c);
            assert(!seen.contains(c)) by {
                if seen.contains(c) {
                    let m = choose|m: nat| 1 <= m < n && c == #[trigger] numbered_dest(path@, m);
                    lemma_numbered_dest_injective(path@, m, n as nat);
                }
            }
            let i = choose|i: int| 0 <= i < existing@.len() && (#[trigger] existing@[i])@ == c;
            assert(existing@.map_values(|s: String| s@)[i] == c);
            assert(ex.contains(c));
            seen = seen.insert(c);
            existing@.map_values(|s: String| s@).lemma_cardinality_of_set();
            lemma_len_subset(seen, ex);
        }
        n = n + 1;
    }
}

/// The same as `unique_dest`, for callers that want to know the destination
/// before moving anything there.
pub fn unique_dest_pub(path: &str, existing: &Vec<String>) -> (r: String)
    requires
        taken(existing@, path@) ==> parent_of(path@).is_some(),
        existing@.len() < u32::MAX,
    ensures
        dest_choice(existing@, path@, r@),
        r@ == unique_dest_of(existing@, path@),
        !taken(existing@, r@),
{
    unique_dest(path, existing)
}

/// Where `src` goes in the trash directory `trash_dir`: its file name there,
/// made unique against `existing`; an error when `src` has no file name.
pub fn trash_destination(src: &str, trash_dir: &str, existing: &Vec<String>) -> (r: Result<String, String>)
    requires
        existing@.len() < u32::MAX,
    ensures
        file_name_of(src@).is_none() <==> r.is_err(),
        r.is_err() ==> r->Err_0@ == "Path has no filename"@,
        r.is_ok() ==> !taken(existing@, r->Ok_0@),
        r.is_ok() && !taken(existing@, join_path(trash_dir@, file_name_of(src@).unwrap()))
            ==> r->Ok_0@ == join_path(trash_dir@, file_name_of(src@).unwrap()),
        r.is_ok() && taken(existing@, join_path(trash_dir@, file_name_of(src@).unwrap()))
            ==> exists|n: nat|
            n >= 1 && r->Ok_0@ == numbered_dest(join_path(trash_dir@, file_name_of(src@).unwrap()), n)
                && forall|m: nat|
                1 <= m < n ==> taken(
                    existing@,
                    #[trigger] numbered_dest(join_path(trash_dir@, file_name_of(src@).unwrap()), m),
                ),
{
    match file_name(src) {
        None => Err(to_owned_string("Path has no filename")),
        Some(name) => {
            let dest = join(trash_dir, name.as_str());
            proof {
                lemma_file_name_no_slash(src@);
                crate::path::lemma_file_name_of_join(trash_dir@, name@);
            }
            Ok(unique_dest(dest.as_str(), existing))
        },
    }
}

/// The file name `dest` takes on its `count`-th renaming: its stem, `_count`,
/// then its extension, if any.
pub open spec fn renamed_name(dest: Seq<char>, count: nat) -> Seq<char> {
    let stem = file_stem_of(dest).unwrap();
    match extension_of(dest) {
        Some(e) => stem + seq!['_'] + decimal(count) + seq!['.'] + e,
        None => stem + seq!['_'] + decimal(count),
    }
}

/// `dest` after its `count`-th renaming.
pub open spec fn renamed_once(dest: Seq<char>, count: nat) -> Seq<char> {
    with_file_name(dest, renamed_name(dest, count))
}

/// `dest` after `k` renamings: each renames the result of the one before, so
/// the counters accumulate (`a.txt`, `a_1.txt`, `a_1_2.txt`, ...).
pub open spec fn renamed_times(dest: Seq<char>, k: nat) -> Seq<char>
    decreases k,
{
    if k == 0 {
        dest
    } else {
        renamed_once(renamed_times(dest, (k - 1) as nat), k)
    }
}

proof fn lemma_parent_no_trailing(p: Seq<char>)
    requires
        file_name_of(p).is_some(),
    ensures
        parent_of(p).is_some(),
        trimmed_dir(parent_of(p).unwrap()),
{
    let t = trim_trailing(p);
    let i = crate::path::last_slash(t);
    lemma_trimmed_props(p);
    lemma_last_slash_props(t);
    if i > 0 {
        let h = t.take(i);
        crate::path::lemma_trim_idempotent(h);
    } else if i == 0 {
        assert(!crate::path::trims_last(seq!['/']));
    }
}

proof fn lemma_last_dot_props(s: Seq<char>)
    ensures
        -1 <= last_dot(s) < s.len(),
        last_dot(s) >= 0 ==> s[last_dot(s)] == '.',
    decreases s.len(),
{
    if s.len() > 0 && s.last() != '.' {
        lemma_last_dot_props(s.drop_last());
    }
}

/// A renamed file name is a valid name, one separator and a number longer
/// than the file name it replaces.
proof fn lemma_renamed_name(dest: Seq<char>, count: nat)
    requires
        file_name_of(dest).is_some(),
    ensures
        valid_name(renamed_name(dest, count)),
        renamed_name(dest, count).len() == file_name_of(dest).unwrap().len() + 1 + decimal(
            count,
        ).len(),
{
    let n = file_name_of(dest).unwrap();
    lemma_file_name_no_slash(dest);
    lemma_last_dot_props(n);
    lemma_decimal_digits(count);
    let d = last_dot(n);
    let stem = file_stem_of(dest).unwrap();
    let nn = renamed_name(dest, count);
    if d > 0 {
        let e = n.skip(d + 1);
        assert(stem == n.take(d));
        assert(nn =~= n.take(d) + seq!['_'] + decimal(count) + seq!['.'] + e);
        assert forall|i: int| 0 <= i < nn.len() implies nn[i] != '/' by {
            if i < d {
                assert(nn[i] == n[i]);
            } else if i == d {
            } else if i < d + 1 + decimal(count).len() {
                assert(nn[i] == decimal(count)[i - d - 1]);
            } else if i == d + 1 + decimal(count).len() {
            } else {
                assert(nn[i] == e[i - d - 2 - decimal(count).len()]);
                assert(e[i - d - 2 - decimal(count).len()] == n[i - decimal(count).len() - 1]);
            }
        }
        assert(nn[d] == '_');
    } else {
        assert(stem == n);
        assert(nn =~= n + seq!['_'] + decimal(count));
        assert forall|i: int| 0 <= i < nn.len() implies nn[i] != '/' by {
            if i < n.len() {
                assert(nn[i] == n[i]);
            } else if i == n.len() {
            } else {
                assert(nn[i] == decimal(count)[i - n.len() - 1]);
            }
        }
        assert(nn[n.len() as int] == '_');
    }
    assert(nn.len() >= 2);
    if nn.len() == 2 {
        assert(nn[0] == '_' || nn[1] == '_');
        assert(nn != seq!['.', '.']) by {
            if nn == seq!['.', '.'] {
                assert(nn[0] == '.' && nn[1] == '.');
            }
        }
    }
}

proof fn lemma_join_len(base: Seq<char>, name: Seq<char>)
    requires
        valid_name(name),
    ensures
        join_path(base, name).len() == base.len() + name.len() + if base.len() > 0 && base.last()
            != '/' {
            1int
        } else {
            0int
        },
{
    assert(name[0] != '/');
}

/// `dest` when it is free, else the first of its successive renamings that is
/// free (see `renamed_times`).
pub fn get_unique_path(dest: String, existing: &Vec<String>) -> (r: String)
    requires
        taken(existing@, dest@) ==> file_name_of(dest@).is_some(),
        existing@.len() < 0x7fff_fff0,
    ensures
        exists|k: nat|
            r@ == renamed_times(dest@, k) && !taken(existing@, r@) && forall|j: nat|
                j < k ==> taken(existing@, #[trigger] renamed_times(dest@, j)),
{
    let ghost ex = existing@.map_values(|s: String| s@).to_set();
    let ghost mut seen: Set<Seq<char>> = Set::empty();
    let ghost mut base: Seq<char> = Seq::empty();
    let ghost mut nm: Seq<char> = Seq::empty();
    let mut d = dest;
    let ghost d0 = d@;
    let mut count: u64 = 1;
    proof {
        existing@.map_values(|s: String| s@).lemma_cardinality_of_set();
    }
    while is_taken(existing, d.as_str())
        invariant
            1 <= count,
            count as nat <= existing@.len() + 2,
            existing@.len() < 0x7fff_fff0,
            ex == existing@.map_values(|s: String| s@).to_set(),
            ex.len() <= existing@.len(),
            taken(existing@, d0) ==> file_name_of(d0).is_some(),
            d@ == renamed_times(d0, (count - 1) as nat),
            forall|j: nat| j < count - 1 ==> taken(existing@, #[trigger] renamed_times(d0, j)),
            count >= 2 ==> d@ == join_path(base, nm) && valid_name(nm) && trimmed_dir(base),
            seen.finite(),
            seen.subset_of(ex),
            seen.len() == if count >= 2 {
                (count - 2) as nat
            } else {
                0
            },
            count >= 2 ==> forall|x: Seq<char>| seen.contains(x) ==> x.len() < d@.len(),
        decreases existing@.len() + 2 - count,
    {
        let ghost dv = d@;
        proof {
            if count >= 2 {
                lemma_file_name_of_join(base, nm);
                lemma_parent_of_join(base, nm);
            }
            assert(file_name_of(dv).is_some());
            lemma_parent_no_trailing(dv);
            lemma_renamed_name(dv, count as nat);
        }
        let stem = file_stem(d.as_str()).unwrap();
        let a = concat(stem.as_str(), "_");
        proof {
            reveal_strlit("_");
        }
        let num = decimal_string(count);
        let b = concat(a.as_str(), num.as_str());
        let new_name = match extension(d.as_str()) {
            Some(e) => {
                let c = concat(b.as_str(), ".");
                proof {
                    reveal_strlit(".");
                }
                concat(c.as_str(), e.as_str())
            },
            None => b,
        };
        assert(new_name@ =~= renamed_name(dv, count as nat));
        let next = set_file_name(d.as_str(), new_name.as_str());
        proof {
            let par = parent_of(dv).unwrap();
            let nn = renamed_name(dv, count as nat);
            assert(next@ == join_path(par, nn));
            lemma_join_len(par, nn);
            if count >= 2 {
                lemma_join_len(base, nm);
                assert(par == base);
                assert(file_name_of(dv).unwrap() == nm);
                assert(next@.len() > dv.len());
                assert(!seen.contains(dv));
                let i = choose|i: int| 0 <= i < existing@.len() && (#[trigger] existing@[i])@ == dv;
                assert(existing@.map_values(|s: String| s@)[i] == dv);
                seen = seen.insert(dv);
            }
            base = par;
            nm = nn;
            assert(renamed_times(d0, count as nat) == renamed_once(renamed_times(d0, (count - 1) as nat), count as nat));
            lemma_len_subset(seen, ex);
        }
        d = next;
        count = count + 1;
    }
    proof {
        let k = (count - 1) as nat;
        assert(d@ == renamed_times(d0, k) && !taken(existing@, d@) && forall|j: nat|
            j < k ==> taken(existing@, #[trigger] renamed_times(d0, j)));
    }
    d
}

/// Where `src` lands when pasted into `dir`: its file name there, renamed
/// (see `get_unique_path`) for as long as the name is taken among `existing`.
pub fn paste_destination(dir: &str, src: &str, existing: &Vec<String>) -> (r: String)
    requires
        file_name_of(src@).is_some(),
        existing@.len() < 0x7fff_fff0,
    ensures
        exists|k: nat|
            r@ == renamed_times(join_path(dir@, file_name_of(src@).unwrap()), k) && !taken(existing@, r@)
                && forall|j: nat|
                j < k ==> taken(existing@, #[trigger] renamed_times(join_path(dir@, file_name_of(src@).unwrap()), j)),
{
    let name = file_name(src).unwrap();
    let dest = join(dir, name.as_str());
    proof {
        lemma_file_name_no_slash(src@);
        lemma_file_name_of_join(dir@, name@);
    }
    get_unique_path(dest, existing)
}

} // verus!
