//! Unix paths as strings: parent, final component, stem and extension,
//! joining, hidden-ness and component-wise comparison.
use vstd::prelude::*;
use crate::text::{chars_of, concat, push_char, string_of};

verus! {

/// Whether the last character of `s` is one that trimming removes: a
/// trailing `'/'`, or the `.` of a trailing `/.` component (a path of one
/// character keeps it).
pub open spec fn trims_last(s: Seq<char>) -> bool {
    s.len() > 1 && (s.last() == '/' || (s.last() == '.' && s[s.len() - 2] == '/'))
}

/// Length of `s` once trailing separators and trailing `.` components are
/// removed, as `Path` reads a path; the root `"/"` and a lone `"."` stay.
pub open spec fn trimmed_len(s: Seq<char>) -> nat
    decreases s.len(),
{
    if trims_last(s) {
        trimmed_len(s.drop_last())
    } else {
        s.len()
    }
}

/// `s` without trailing separators and `.` components (the root `"/"` stays).
pub open spec fn trim_trailing(s: Seq<char>) -> Seq<char> {
    s.take(trimmed_len(s) as int)
}

/// Trimming twice trims no more than once.
pub proof fn lemma_trim_idempotent(s: Seq<char>)
    ensures
        trimmed_len(s) <= s.len(),
        trimmed_len(trim_trailing(s)) == trimmed_len(s),
    decreases s.len(),
{
    if trims_last(s) {
        let d = s.drop_last();
        lemma_trim_idempotent(d);
        assert(s.take(trimmed_len(s) as int) =~= d.take(trimmed_len(d) as int));
    } else {
        assert(s.take(s.len() as int) =~= s);
    }
}

/// Index of the last `'/'` in `s`, or `-1`.
pub open spec fn last_slash(s: Seq<char>) -> int
    decreases s.len(),
{
    if s.len() == 0 {
        -1
    } else if s.last() == '/' {
        s.len() - 1
    } else {
        last_slash(s.drop_last())
    }
}

/// Index of the last `'.'` in `s`, or `-1`.
pub open spec fn last_dot(s: Seq<char>) -> int
    decreases s.len(),
{
    if s.len() == 0 {
        -1
    } else if s.last() == '.' {
        s.len() - 1
    } else {
        last_dot(s.drop_last())
    }
}

/// `t` is the root path `"/"`.
pub open spec fn is_root(t: Seq<char>) -> bool {
    t.len() == 1 && t[0] == '/'
}

/// The directory that holds `p`, as `Path::parent` gives it: `None` for the
/// empty path and the root, `""` for a relative path of one component.
pub open spec fn parent_of(p: Seq<char>) -> Option<Seq<char>> {
    let t = trim_trailing(p);
    if t.len() == 0 || is_root(t) {
        None
    } else {
        let i = last_slash(t);
        if i < 0 {
            Some(Seq::<char>::empty())
        } else if i == 0 {
            Some(seq!['/'])
        } else {
            Some(trim_trailing(t.take(i)))
        }
    }
}

/// The final component of `p`, as `Path::file_name` gives it: `None` for the
/// empty path, the root, and a final `..` or `.`.
pub open spec fn file_name_of(p: Seq<char>) -> Option<Seq<char>> {
    let t = trim_trailing(p);
    if t.len() == 0 || is_root(t) {
        None
    } else {
        let n = t.skip(last_slash(t) + 1);
        if n == seq!['.', '.'] || n == seq!['.'] {
            None
        } else {
            Some(n)
        }
    }
}

/// The extension of `p` (after the last `'.'` of its file name that is not its
/// first character), as `Path::extension` gives it.
pub open spec fn extension_of(p: Seq<char>) -> Option<Seq<char>> {
    match file_name_of(p) {
        None => None,
        Some(n) => {
            let d = last_dot(n);
            if d <= 0 {
                None
            } else {
                Some(n.skip(d + 1))
            }
        },
    }
}

/// The file name of `p` without its extension, as `Path::file_stem` gives it.
pub open spec fn file_stem_of(p: Seq<char>) -> Option<Seq<char>> {
    match file_name_of(p) {
        None => None,
        Some(n) => {
            let d = last_dot(n);
            if d <= 0 {
                Some(n)
            } else {
                Some(n.take(d))
            }
        },
    }
}

/// `name` appended to `base` as `PathBuf::push` does: an absolute `name`
/// replaces `base`, and a separator is added when `base` needs one.
pub open spec fn join_path(base: Seq<char>, name: Seq<char>) -> Seq<char> {
    if name.len() > 0 && name[0] == '/' {
        name
    } else if base.len() > 0 && base.last() != '/' {
        base + seq!['/'] + name
    } else {
        base + name
    }
}

/// `p` with its file name replaced by `name`, as `PathBuf::set_file_name` does.
pub open spec fn with_file_name(p: Seq<char>, name: Seq<char>) -> Seq<char> {
    if file_name_of(p).is_some() {
        join_path(parent_of(p).unwrap(), name)
    } else {
        join_path(p, name)
    }
}

/// A name that a directory can hold: not empty, no separator, not `.` or `..`.
pub open spec fn valid_name(n: Seq<char>) -> bool {
    &&& n.len() > 0
    &&& forall|i: int| 0 <= i < n.len() ==> n[i] != '/'
    &&& n != seq!['.']
    &&& n != seq!['.', '.']
}

/// A directory path in its shortest form: no trailing separator and no
/// trailing `.` component (the root stays as it is).
pub open spec fn trimmed_dir(p: Seq<char>) -> bool {
    trimmed_len(p) == p.len()
}

/// Length of `s` with trailing separators removed.
fn trimmed_len_exec(s: &Vec<char>) -> (r: usize)
    ensures
        r == trimmed_len(s@),
        r <= s@.len(),
{
    let mut n = s.len();
    proof {
        lemma_take_full(s@);
        lemma_trimmed_len_bound(s@);
    }
    while n > 1 && (s[n - 1] == '/' || (s[n - 1] == '.' && s[n - 2] == '/'))
        invariant
            n <= s@.len(),
            trimmed_len(s@) == trimmed_len(s@.take(n as int)),
            trimmed_len(s@.take(n as int)) <= n,
        decreases n,
    {
        assert(s@.take(n as int).drop_last() =~= s@.take(n - 1));
        assert(s@.take(n as int).last() == s@[n - 1]);
        assert(s@.take(n as int)[n - 2] == s@[n - 2]);
        proof {
            lemma_trimmed_len_bound(s@.take(n - 1));
        }
        n = n - 1;
    }
    n
}

proof fn lemma_trimmed_len_bound(s: Seq<char>)
    ensures
        trimmed_len(s) <= s.len(),
    decreases s.len(),
{
    if trims_last(s) {
        lemma_trimmed_len_bound(s.drop_last());
    }
}

proof fn lemma_take_full(s: Seq<char>)
    ensures
        s.take(s.len() as int) == s,
{
    assert(s.take(s.len() as int) =~= s);
}

/// Index of the last `'/'` among the first `n` characters of `s`, if any.
fn last_slash_exec(s: &Vec<char>, n: usize) -> (r: Option<usize>)
    requires
        n <= s@.len(),
    ensures
        r.is_none() ==> last_slash(s@.take(n as int)) == -1,
        r.is_some() ==> r.unwrap() < n && last_slash(s@.take(n as int)) == r.unwrap(),
{
    let mut k = n;
    while k > 0
        invariant
            k <= n <= s@.len(),
            last_slash(s@.take(n as int)) == last_slash(s@.take(k as int)),
        decreases k,
    {
        if s[k - 1] == '/' {
            assert(s@.take(k as int).last() == '/');
            return Some(k - 1);
        }
        assert(s@.take(k as int).drop_last() =~= s@.take(k - 1));
        k = k - 1;
    }
    None
}

/// Index of the last `'.'` in `s`, if any.
fn last_dot_exec(s: &Vec<char>) -> (r: Option<usize>)
    ensures
        r.is_none() ==> last_dot(s@) == -1,
        r.is_some() ==> r.unwrap() < s@.len() && last_dot(s@) == r.unwrap(),
{
    let mut k = s.len();
    proof {
        lemma_take_full(s@);
    }
    while k > 0
        invariant
            k <= s@.len(),
            last_dot(s@) == last_dot(s@.take(k as int)),
        decreases k,
    {
        if s[k - 1] == '.' {
            assert(s@.take(k as int).last() == '.');
            return Some(k - 1);
        }
        assert(s@.take(k as int).drop_last() =~= s@.take(k - 1));
        k = k - 1;
    }
    None
}

/// The first `n` characters of `s`.
fn prefix_of(s: &Vec<char>, n: usize) -> (r: Vec<char>)
    requires
        n <= s@.len(),
    ensures
        r@ == s@.take(n as int),
{
    let mut r: Vec<char> = Vec::new();
    for i in 0..n
        invariant
            n <= s@.len(),
            r@ == s@.take(i as int),
    {
        r.push(s[i]);
        assert(s@.take(i + 1) =~= s@.take(i as int).push(s@[i as int]));
    }
    r
}

/// The characters of `s` from `start` up to `end`.
fn slice_of(s: &Vec<char>, start: usize, end: usize) -> (r: Vec<char>)
    requires
        start <= end <= s@.len(),
    ensures
        r@ == s@.subrange(start as int, end as int),
{
    let mut r: Vec<char> = Vec::new();
    let mut i = start;
    while i < end
        invariant
            start <= i <= end <= s@.len(),
            r@ == s@.subrange(start as int, i as int),
        decreases end - i,
    {
        r.push(s[i]);
        assert(s@.subrange(start as int, i + 1) =~= s@.subrange(start as int, i as int).push(
            s@[i as int],
        ));
        i = i + 1;
    }
    r
}

fn is_dot_or_dotdot(n: &Vec<char>) -> (r: bool)
    ensures
        r == (n@ == seq!['.', '.'] || n@ == seq!['.']),
{
    if n.len() == 1 {
        let r = n[0] == '.';
        assert(r ==> n@ =~= seq!['.']);
        r
    } else if n.len() == 2 {
        let r = n[0] == '.' && n[1] == '.';
        assert(r ==> n@ =~= seq!['.', '.']);
        r
    } else {
        false
    }
}

/// The parent of `p` (see `parent_of`).
pub fn parent(p: &str) -> (r: Option<String>)
    ensures
        r.is_some() == parent_of(p@).is_some(),
        r.is_some() ==> r.unwrap()@ == parent_of(p@).unwrap(),
{
    let s = chars_of(p);
    let tl = trimmed_len_exec(&s);
    let t = prefix_of(&s, tl);
    if tl == 0 || (tl == 1 && t[0] == '/') {
        return None;
    }
    proof {
        lemma_take_full(t@);
    }
    match last_slash_exec(&t, tl) {
        None => Some(String::new()),
        Some(i) => {
            if i == 0 {
                let mut r = String::new();
                push_char(&mut r, '/');
                assert(r@ =~= seq!['/']);
                Some(r)
            } else {
                let head = prefix_of(&t, i);
                let hl = trimmed_len_exec(&head);
                let h = prefix_of(&head, hl);
                Some(string_of(&h))
            }
        },
    }
}

/// The final component of `p` (see `file_name_of`).
pub fn file_name(p: &str) -> (r: Option<String>)
    ensures
        r.is_some() == file_name_of(p@).is_some(),
        r.is_some() ==> r.unwrap()@ == file_name_of(p@).unwrap(),
{
    let s = chars_of(p);
    let tl = trimmed_len_exec(&s);
    let t = prefix_of(&s, tl);
    if tl == 0 || (tl == 1 && t[0] == '/') {
        return None;
    }
    proof {
        lemma_take_full(t@);
    }
    let start: usize = match last_slash_exec(&t, tl) {
        None => 0,
        Some(i) => i + 1,
    };
    let n = slice_of(&t, start, tl);
    assert(n@ =~= t@.skip(last_slash(t@) + 1));
    if is_dot_or_dotdot(&n) {
        None
    } else {
        Some(string_of(&n))
    }
}

/// The extension of `p` (see `extension_of`).
pub fn extension(p: &str) -> (r: Option<String>)
    ensures
        r.is_some() == extension_of(p@).is_some(),
        r.is_some() ==> r.unwrap()@ == extension_of(p@).unwrap(),
{
    match file_name(p) {
        None => None,
        Some(n) => {
            let cs = chars_of(n.as_str());
            let cl = cs.len();
            match last_dot_exec(&cs) {
                Some(d) if d > 0 => {
                    let e = slice_of(&cs, d + 1, cl);
                    assert(e@ =~= cs@.skip(d + 1));
                    Some(string_of(&e))
                },
                _ => None,
            }
        },
    }
}

/// The file stem of `p` (see `file_stem_of`).
pub fn file_stem(p: &str) -> (r: Option<String>)
    ensures
        r.is_some() == file_stem_of(p@).is_some(),
        r.is_some() ==> r.unwrap()@ == file_stem_of(p@).unwrap(),
{
    match file_name(p) {
        None => None,
        Some(n) => {
            let cs = chars_of(n.as_str());
            match last_dot_exec(&cs) {
                Some(d) if d > 0 => {
                    let st = prefix_of(&cs, d);
                    Some(string_of(&st))
                },
                _ => Some(n),
            }
        },
    }
}

/// `name` appended to `base` (see `join_path`).
pub fn join(base: &str, name: &str) -> (r: String)
    ensures
        r@ == join_path(base@, name@),
{
    let b = chars_of(base);
    let n = chars_of(name);
    if n.len() > 0 && n[0] == '/' {
        string_of(&n)
    } else if b.len() > 0 && b[b.len() - 1] != '/' {
        let mut r = string_of(&b);
        push_char(&mut r, '/');
        let r2 = concat(r.as_str(), name);
        r2
    } else {
        concat(base, name)
    }
}

/// `p` with its file name replaced by `name` (see `with_file_name`).
pub fn set_file_name(p: &str, name: &str) -> (r: String)
    ensures
        r@ == with_file_name(p@, name@),
{
    match file_name(p) {
        Some(_) => {
            let par = parent(p);
            assert(par.is_some()) by {
                assert(trim_trailing(p@) == trim_trailing(p@));
            }
            let base = par.unwrap();
            join(base.as_str(), name)
        },
        None => join(p, name),
    }
}

proof fn lemma_join_untrimmed(base: Seq<char>, name: Seq<char>)
    requires
        valid_name(name),
    ensures
        !trims_last(join_path(base, name)),
{
    let j = join_path(base, name);
    assert(j.last() == name.last());
    if name.len() >= 2 {
        assert(j[j.len() - 2] == name[name.len() - 2]);
    } else if name[0] == '.' {
        assert(name =~= seq!['.']);
    }
}

/// A valid name is the file name of itself joined to any directory.
pub proof fn lemma_file_name_of_join(base: Seq<char>, name: Seq<char>)
    requires
        valid_name(name),
    ensures
        file_name_of(join_path(base, name)) == Some(name),
{
    let j = join_path(base, name);
    assert(name[0] != '/');
    assert(j.last() == name.last());
    lemma_join_untrimmed(base, name);
    assert(trimmed_len(j) == j.len());
    lemma_take_full(j);
    let prefix = j.take(j.len() - name.len());
    assert(j =~= prefix + name);
    lemma_last_slash_suffix(prefix, name);
    if prefix.len() == 0 {
        assert(j =~= name);
        if name.len() == 1 {
            assert(name[0] != '/');
        }
    } else {
        assert(prefix.last() == '/');
    }
    assert(j.skip(last_slash(j) + 1) =~= name);
}

/// The last separator of `x + n`, where `n` holds none, is the last separator of `x`.
pub proof fn lemma_last_slash_suffix(x: Seq<char>, n: Seq<char>)
    requires
        forall|i: int| 0 <= i < n.len() ==> n[i] != '/',
    ensures
        last_slash(x + n) == last_slash(x),
    decreases n.len(),
{
    if n.len() > 0 {
        assert((x + n).drop_last() =~= x + n.drop_last());
        lemma_last_slash_suffix(x, n.drop_last());
    } else {
        assert(x + n =~= x);
    }
}

proof fn lemma_last_slash_bound(s: Seq<char>)
    ensures
        -1 <= last_slash(s) < s.len(),
        last_slash(s) >= 0 ==> s[last_slash(s)] == '/',
    decreases s.len(),
{
    if s.len() > 0 && s.last() != '/' {
        lemma_last_slash_bound(s.drop_last());
    }
}

/// The parent of a valid name joined to a directory is that directory, when the
/// directory has no trailing separator.
pub proof fn lemma_parent_of_join(base: Seq<char>, name: Seq<char>)
    requires
        valid_name(name),
        trimmed_dir(base),
    ensures
        parent_of(join_path(base, name)) == Some(base),
{
    let j = join_path(base, name);
    assert(name[0] != '/');
    assert(j.last() == name.last());
    lemma_join_untrimmed(base, name);
    assert(trimmed_len(j) == j.len());
    lemma_take_full(j);
    let prefix = j.take(j.len() - name.len());
    assert(j =~= prefix + name);
    lemma_last_slash_suffix(prefix, name);
    if base.len() == 0 {
        assert(j =~= name);
        assert(last_slash(prefix) == -1);
        if name.len() == 1 {
            assert(name[0] != '/');
        }
    } else if base.last() != '/' {
        assert(prefix =~= base.push('/'));
        assert(prefix.drop_last() =~= base);
        assert(last_slash(prefix) == base.len());
        assert(j.take(base.len() as int) =~= base);
        assert(trimmed_len(base) == base.len());
        lemma_take_full(base);
        if base.len() == 1 {
            assert(!is_root(j));
        }
    } else {
        if trims_last(base) {
            lemma_trimmed_len_bound(base.drop_last());
        }
        assert(is_root(base));
        assert(prefix =~= base);
        assert(last_slash(prefix) == 0);
        assert(base =~= seq!['/']);
    }
}

/// Whether the component of `p` starting at `i` is a hidden one: it starts
/// with `'.'` and is neither `.` nor `..`.
pub open spec fn hidden_at(p: Seq<char>, i: int) -> bool {
    &&& 0 <= i < p.len()
    &&& p[i] == '.'
    &&& (i == 0 || p[i - 1] == '/')
    &&& !(i + 1 == p.len() || p[i + 1] == '/')
    &&& !(p[i + 1] == '.' && (i + 2 == p.len() || p[i + 2] == '/'))
}

/// Some component of `p` (not `.` or `..`) starts with a dot.
pub open spec fn is_hidden_path(p: Seq<char>) -> bool {
    exists|i: int| hidden_at(p, i)
}

/// Whether some component of `p` starts with a dot.
pub fn is_hidden(p: &str) -> (r: bool)
    ensures
        r == is_hidden_path(p@),
{
    let s = chars_of(p);
    let n = s.len();
    for i in 0..n
        invariant
            n == s@.len(),
            s@ == p@,
            forall|j: int| 0 <= j < i ==> !hidden_at(s@, j),
    {
        if s[i] == '.' && (i == 0 || s[i - 1] == '/') {
            let single = i + 1 == n || s[i + 1] == '/';
            if !single {
                let double = s[i + 1] == '.' && (i + 2 == n || s[i + 2] == '/');
                if !double {
                    assert(hidden_at(s@, i as int));
                    return true;
                }
            }
        }
    }
    false
}

/// `s` with everything up to and including its first `'/'`, split at `'/'`.
pub open spec fn first_slash(s: Seq<char>) -> int
    decreases s.len(),
{
    if s.len() == 0 {
        -1
    } else if s[0] == '/' {
        0
    } else {
        let r = first_slash(s.drop_first());
        if r < 0 {
            -1
        } else {
            r + 1
        }
    }
}

pub proof fn lemma_first_slash_bound(s: Seq<char>)
    ensures
        first_slash(s) < s.len(),
    decreases s.len(),
{
    if s.len() > 0 && s[0] != '/' {
        lemma_first_slash_bound(s.drop_first());
    }
}

/// The pieces of `s` between separators (empty pieces included).
pub open spec fn split_slash(s: Seq<char>) -> Seq<Seq<char>>
    decreases s.len(),
{
    let i = first_slash(s);
    if i < 0 {
        seq![s]
    } else {
        proof {
            lemma_first_slash_bound(s);
        }
        seq![s.take(i)] + split_slash(s.skip(i + 1))
    }
}

/// Kind of a path component, in the order `Path` compares them.
pub open spec fn kind_root() -> u8 {
    1
}

pub open spec fn kind_cur() -> u8 {
    2
}

pub open spec fn kind_parent() -> u8 {
    3
}

pub open spec fn kind_normal() -> u8 {
    4
}

/// The components that the given pieces contribute: empty pieces and `.`
/// vanish, `..` is a parent component, anything else a normal one.
pub open spec fn piece_components(pcs: Seq<Seq<char>>) -> Seq<(u8, Seq<char>)>
    decreases pcs.len(),
{
    if pcs.len() == 0 {
        seq![]
    } else {
        let rest = piece_components(pcs.drop_first());
        let p = pcs[0];
        if p.len() == 0 || p == seq!['.'] {
            rest
        } else if p == seq!['.', '.'] {
            seq![(kind_parent(), Seq::<char>::empty())] + rest
        } else {
            seq![(kind_normal(), p)] + rest
        }
    }
}

/// The components of `p` as `Path::components` yields them on Unix: a root
/// for a leading separator, a current-directory component for a leading
/// `.` piece of a relative path, then the pieces as `piece_components` keeps them.
pub open spec fn components_of(p: Seq<char>) -> Seq<(u8, Seq<char>)> {
    let pcs = split_slash(p);
    let head = if p.len() > 0 && p[0] == '/' {
        seq![(kind_root(), Seq::<char>::empty())]
    } else if pcs[0] == seq!['.'] {
        seq![(kind_cur(), Seq::<char>::empty())]
    } else {
        Seq::<(u8, Seq<char>)>::empty()
    };
    head + piece_components(pcs)
}

proof fn lemma_first_slash_after(cur: Seq<char>, rest: Seq<char>)
    requires
        forall|j: int| 0 <= j < cur.len() ==> cur[j] != '/',
    ensures
        rest.len() > 0 && rest[0] == '/' ==> first_slash(cur + rest) == cur.len(),
        rest.len() == 0 ==> first_slash(cur + rest) < 0,
    decreases cur.len(),
{
    if cur.len() > 0 {
        lemma_first_slash_after(cur.drop_first(), rest);
        assert((cur + rest).drop_first() =~= cur.drop_first() + rest);
    }
}

/// The component that one piece contributes, if any.
fn piece_component(p: &Vec<char>) -> (r: Option<(u8, Vec<char>)>)
    ensures
        piece_components(seq![p@]) == match r {
            Some(c) => seq![(c.0, c.1@)],
            None => Seq::<(u8, Seq<char>)>::empty(),
        },
{
    let ghost single = seq![p@];
    assert(single.drop_first() =~= Seq::<Seq<char>>::empty());
    reveal_with_fuel(piece_components, 2);
    if p.len() == 0 {
        None
    } else if is_dot_or_dotdot(p) {
        if p.len() == 1 {
            None
        } else {
            Some((3, Vec::new()))
        }
    } else {
        Some((4, p.clone()))
    }
}

/// The view of a component list.
pub open spec fn comps_view(v: Seq<(u8, Vec<char>)>) -> Seq<(u8, Seq<char>)> {
    v.map_values(|c: (u8, Vec<char>)| (c.0, c.1@))
}

/// The components of `p` (see `components_of`).
pub fn components(p: &str) -> (r: Vec<(u8, Vec<char>)>)
    ensures
        comps_view(r@) == components_of(p@),
{
    let s = chars_of(p);
    let n = s.len();
    let mut out: Vec<(u8, Vec<char>)> = Vec::new();
    let ghost pcs = split_slash(s@);
    proof {
        lemma_split_nonempty(s@);
    }
    // the head component
    if n > 0 && s[0] == '/' {
        out.push((1, Vec::new()));
    } else {
        let mut k: usize = 0;
        while k < n && s[k] != '/'
            invariant
                k <= n == s@.len(),
                forall|j: int| 0 <= j < k ==> s@[j] != '/',
            decreases n - k,
        {
            k = k + 1;
        }
        proof {
            lemma_first_slash_after(s@.take(k as int), s@.skip(k as int));
            assert(s@.take(k as int) + s@.skip(k as int) =~= s@);
            if k < n {
                assert(pcs[0] =~= s@.take(k as int));
            } else {
                assert(s@.take(k as int) =~= s@);
            }
        }
        if k == 1 && s[0] == '.' {
            proof {
                assert(pcs[0] =~= seq!['.']);
            }
            out.push((2, Vec::new()));
        } else {
            proof {
                if pcs[0] == seq!['.'] {
                    assert(pcs[0].len() == 1);
                    assert(s@.take(k as int).len() == 1);
                }
            }
        }
    }
    let ghost head = comps_view(out@);
    assert(head + piece_components(pcs) == components_of(s@)) by {
        assert(comps_view(out@) =~= if s@.len() > 0 && s@[0] == '/' {
            seq![(kind_root(), Seq::<char>::empty())]
        } else if pcs[0] == seq!['.'] {
            seq![(kind_cur(), Seq::<char>::empty())]
        } else {
            Seq::<(u8, Seq<char>)>::empty()
        });
    }
    let mut cur: Vec<char> = Vec::new();
    let mut k: usize = 0;
    proof {
        assert(cur@ + s@.skip(0) =~= s@);
    }
    while k < n
        invariant
            k <= n == s@.len(),
            s@ == p@,
            forall|j: int| 0 <= j < cur@.len() ==> cur@[j] != '/',
            components_of(s@) == comps_view(out@) + piece_components(
                split_slash(cur@ + s@.skip(k as int)),
            ),
        decreases n - k,
    {
        let c = s[k];
        if c == '/' {
            let ghost rest = s@.skip(k as int);
            proof {
                lemma_first_slash_after(cur@, rest);
                let t = cur@ + rest;
                assert(t.take(cur@.len() as int) =~= cur@);
                assert(t.skip(cur@.len() as int + 1) =~= s@.skip(k as int + 1));
                assert(split_slash(t) =~= seq![cur@] + split_slash(
                    Seq::<char>::empty() + s@.skip(k + 1),
                ));
                assert(Seq::<char>::empty() + s@.skip(k + 1) =~= s@.skip(k + 1));
                assert((seq![cur@] + split_slash(s@.skip(k + 1))).drop_first() =~= split_slash(
                    s@.skip(k + 1),
                ));
                assert((seq![cur@] + split_slash(s@.skip(k + 1)))[0] == cur@);
            }
            let pc = piece_component(&cur);
            let ghost old_out = out@;
            match pc {
                Some(x) => {
                    out.push(x);
                    proof {
                        assert(comps_view(out@) =~= comps_view(old_out) + seq![(x.0, x.1@)]);
                    }
                },
                None => {},
            }
            proof {
                let tail = split_slash(s@.skip(k + 1));
                lemma_piece_components_cons(cur@, tail);
                assert(cur@ + s@.skip(k as int) == cur@ + rest);
            }
            cur = Vec::new();
            proof {
                assert(cur@ + s@.skip(k + 1) =~= s@.skip(k + 1));
            }
        } else {
            assert(cur@ + s@.skip(k as int) =~= cur@.push(c) + s@.skip(k + 1));
            cur.push(c);
        }
        k = k + 1;
    }
    proof {
        assert(cur@ + s@.skip(k as int) =~= cur@);
        lemma_first_slash_after(cur@, Seq::<char>::empty());
        assert(cur@ + Seq::<char>::empty() =~= cur@);
        assert(split_slash(cur@) =~= seq![cur@]);
    }
    let pc = piece_component(&cur);
    let ghost old_out = out@;
    match pc {
        Some(x) => {
            out.push(x);
            proof {
                assert(comps_view(out@) =~= comps_view(old_out) + seq![(x.0, x.1@)]);
            }
        },
        None => {
            assert(comps_view(out@) =~= comps_view(old_out) + Seq::<(u8, Seq<char>)>::empty());
        },
    }
    out
}

proof fn lemma_split_nonempty(s: Seq<char>)
    ensures
        split_slash(s).len() >= 1,
{
}

proof fn lemma_piece_components_cons(p: Seq<char>, tail: Seq<Seq<char>>)
    ensures
        piece_components(seq![p] + tail) == piece_components(seq![p]) + piece_components(tail),
{
    reveal_with_fuel(piece_components, 2);
    assert(seq![p].len() == 1);
    assert(seq![p][0] == p);
    assert((seq![p] + tail).drop_first() =~= tail);
    assert((seq![p] + tail)[0] == p);
    assert(seq![p].drop_first() =~= Seq::<Seq<char>>::empty());
    if p.len() == 0 || p == seq!['.'] {
        assert(piece_components(seq![p]) =~= Seq::<(u8, Seq<char>)>::empty());
        assert(piece_components(seq![p]) + piece_components(tail) =~= piece_components(tail));
    } else {
        assert(piece_components(seq![p]) + piece_components(tail) =~= seq![piece_components(seq![p])[0]] + piece_components(tail));
    }
}

} // verus!
