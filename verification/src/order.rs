//! Orderings: lexicographic comparison of character strings and of path
//! components, and a sort by a total preorder.
use vstd::prelude::*;
use vstd::multiset::Multiset;

verus! {

/// A three-way comparison: negative, zero or positive.
pub open spec fn is_order_fn<T>(f: spec_fn(T, T) -> int) -> bool {
    &&& forall|x: T, y: T| #[trigger] f(x, y) == -f(y, x)
    &&& forall|x: T, y: T| -1 <= #[trigger] f(x, y) <= 1
    &&& forall|x: T, y: T| #[trigger] f(x, y) == 0 ==> x == y
    &&& forall|x: T, y: T, z: T| #[trigger] f(x, y) <= 0 && #[trigger] f(y, z) <= 0 ==> f(x, z) <= 0
}

/// Lexicographic comparison of two sequences by an element comparison.
pub open spec fn lex_order<T>(a: Seq<T>, b: Seq<T>, f: spec_fn(T, T) -> int) -> int
    decreases a.len(),
{
    if a.len() == 0 {
        if b.len() == 0 {
            0
        } else {
            -1
        }
    } else if b.len() == 0 {
        1
    } else if f(a[0], b[0]) != 0 {
        f(a[0], b[0])
    } else {
        lex_order(a.drop_first(), b.drop_first(), f)
    }
}

proof fn lemma_lex_antisym<T>(a: Seq<T>, b: Seq<T>, f: spec_fn(T, T) -> int)
    requires
        is_order_fn(f),
    ensures
        lex_order(a, b, f) == -lex_order(b, a, f),
        -1 <= lex_order(a, b, f) <= 1,
        lex_order(a, b, f) == 0 ==> a == b,
    decreases a.len(),
{
    if a.len() > 0 && b.len() > 0 {
        assert(f(a[0], b[0]) == -f(b[0], a[0]));
        if f(a[0], b[0]) == 0 {
            lemma_lex_antisym(a.drop_first(), b.drop_first(), f);
            if lex_order(a, b, f) == 0 {
                assert(a[0] == b[0]);
                assert(a =~= seq![a[0]] + a.drop_first());
                assert(b =~= seq![b[0]] + b.drop_first());
            }
        }
    } else if a.len() == 0 && b.len() == 0 {
        assert(a =~= b);
    }
}

proof fn lemma_lex_trans<T>(a: Seq<T>, b: Seq<T>, c: Seq<T>, f: spec_fn(T, T) -> int)
    requires
        is_order_fn(f),
        lex_order(a, b, f) <= 0,
        lex_order(b, c, f) <= 0,
    ensures
        lex_order(a, c, f) <= 0,
    decreases a.len(),
{
    lemma_lex_antisym(a, b, f);
    lemma_lex_antisym(b, c, f);
    lemma_lex_antisym(a, c, f);
    if a.len() > 0 && b.len() > 0 && c.len() > 0 {
        let (x, y, z) = (a[0], b[0], c[0]);
        assert(f(x, y) <= 0 && f(y, z) <= 0 ==> f(x, z) <= 0);
        if f(x, y) == 0 && f(y, z) == 0 {
            assert(x == y && y == z);
            lemma_lex_trans(a.drop_first(), b.drop_first(), c.drop_first(), f);
        } else if f(x, y) == 0 {
            assert(x == y);
        } else if f(y, z) == 0 {
            assert(y == z);
        } else {
            if f(x, z) == 0 {
                assert(x == z);
                assert(f(y, x) == -f(x, y));
            }
        }
    }
}

/// `lex_order` by a comparison is itself a comparison.
pub proof fn lemma_lex_is_order<T>(f: spec_fn(T, T) -> int)
    requires
        is_order_fn(f),
    ensures
        is_order_fn(|a: Seq<T>, b: Seq<T>| lex_order(a, b, f)),
{
    let g = |a: Seq<T>, b: Seq<T>| lex_order(a, b, f);
    assert forall|x: Seq<T>, y: Seq<T>| #[trigger] g(x, y) == -g(y, x) && -1 <= g(x, y) <= 1 && (
    g(x, y) == 0 ==> x == y) by {
        lemma_lex_antisym(x, y, f);
    }
    assert forall|x: Seq<T>, y: Seq<T>, z: Seq<T>| #[trigger] g(x, y) <= 0 && #[trigger] g(y, z)
        <= 0 implies g(x, z) <= 0 by {
        lemma_lex_trans(x, y, z, f);
    }
}

/// Comparison of characters by code point, which is also how `str` orders bytes.
pub open spec fn char_order(x: char, y: char) -> int {
    if (x as int) < (y as int) {
        -1
    } else if (x as int) > (y as int) {
        1
    } else {
        0
    }
}

/// `char_order` as a function value.
pub open spec fn char_order_fn() -> spec_fn(char, char) -> int {
    |x: char, y: char| char_order(x, y)
}

/// Lexicographic comparison of strings, as `Ord for str` orders them.
pub open spec fn chars_order(a: Seq<char>, b: Seq<char>) -> int {
    lex_order(a, b, char_order_fn())
}

pub proof fn lemma_char_order_is_order()
    ensures
        is_order_fn(char_order_fn()),
{
    let f = char_order_fn();
    assert forall|x: char, y: char| #[trigger] f(x, y) == 0 implies x == y by {
        assert(char_order(x, y) == 0);
        assert(x as int == y as int);
    }
}

/// `chars_order` is a comparison.
pub proof fn lemma_chars_order_is_order()
    ensures
        is_order_fn(|a: Seq<char>, b: Seq<char>| chars_order(a, b)),
{
    lemma_char_order_is_order();
    lemma_lex_is_order(char_order_fn());
    let g = |a: Seq<char>, b: Seq<char>| lex_order(a, b, char_order_fn());
    let h = |a: Seq<char>, b: Seq<char>| chars_order(a, b);
    assert(g =~= h);
}

/// Comparison of strings by code point.
pub fn chars_order_exec(a: &Vec<char>, b: &Vec<char>) -> (r: i8)
    ensures
        r as int == chars_order(a@, b@),
{
    let ghost f = char_order_fn();
    let mut i: usize = 0;
    assert(a@.skip(0) =~= a@);
    assert(b@.skip(0) =~= b@);
    while i < a.len() && i < b.len()
        invariant
            i <= a@.len(),
            i <= b@.len(),
            f == char_order_fn(),
            chars_order(a@, b@) == lex_order(a@.skip(i as int), b@.skip(i as int), f),
        decreases a@.len() - i,
    {
        assert(a@.skip(i as int)[0] == a@[i as int]);
        assert(b@.skip(i as int)[0] == b@[i as int]);
        let x = a[i];
        let y = b[i];
        assert(f(a@[i as int], b@[i as int]) == char_order(a@[i as int], b@[i as int]));
        if x < y {
            return -1;
        }
        if x > y {
            return 1;
        }
        assert(a@.skip(i as int).drop_first() =~= a@.skip(i + 1));
        assert(b@.skip(i as int).drop_first() =~= b@.skip(i + 1));
        i = i + 1;
    }
    if a.len() == i && b.len() == i {
        0
    } else if a.len() == i {
        -1
    } else {
        1
    }
}

/// Comparison of path components: by kind, then by text.
pub open spec fn comp_order(x: (u8, Seq<char>), y: (u8, Seq<char>)) -> int {
    if x.0 < y.0 {
        -1
    } else if x.0 > y.0 {
        1
    } else {
        chars_order(x.1, y.1)
    }
}

/// `comp_order` as a function value.
pub open spec fn comp_order_fn() -> spec_fn((u8, Seq<char>), (u8, Seq<char>)) -> int {
    |x: (u8, Seq<char>), y: (u8, Seq<char>)| comp_order(x, y)
}

/// Component-wise comparison of paths, as `Ord for Path` orders them.
pub open spec fn comps_order(a: Seq<(u8, Seq<char>)>, b: Seq<(u8, Seq<char>)>) -> int {
    lex_order(a, b, comp_order_fn())
}

/// `comps_order` is a comparison.
pub proof fn lemma_comps_order_is_order()
    ensures
        is_order_fn(|a: Seq<(u8, Seq<char>)>, b: Seq<(u8, Seq<char>)>| comps_order(a, b)),
{
    lemma_chars_order_is_order();
    let f = comp_order_fn();
    assert forall|x: (u8, Seq<char>), y: (u8, Seq<char>)| #[trigger] f(x, y) == -f(y, x) && -1
        <= f(x, y) <= 1 && (f(x, y) == 0 ==> x == y) by {
        let h = |a: Seq<char>, b: Seq<char>| chars_order(a, b);
        assert(h(x.1, y.1) == -h(y.1, x.1));
        assert(-1 <= h(x.1, y.1) <= 1);
        if f(x, y) == 0 {
            assert(h(x.1, y.1) == 0);
        }
    }
    assert forall|x: (u8, Seq<char>), y: (u8, Seq<char>), z: (u8, Seq<char>)| #[trigger] f(x, y)
        <= 0 && #[trigger] f(y, z) <= 0 implies f(x, z) <= 0 by {
        let h = |a: Seq<char>, b: Seq<char>| chars_order(a, b);
        assert(h(x.1, y.1) <= 0 && h(y.1, z.1) <= 0 ==> h(x.1, z.1) <= 0);
    }
    lemma_lex_is_order(f);
    let g = |a: Seq<(u8, Seq<char>)>, b: Seq<(u8, Seq<char>)>| lex_order(a, b, f);
    let k = |a: Seq<(u8, Seq<char>)>, b: Seq<(u8, Seq<char>)>| comps_order(a, b);
    assert(g =~= k);
}

/// Component-wise comparison of two component lists.
pub fn comps_order_exec(a: &Vec<(u8, Vec<char>)>, b: &Vec<(u8, Vec<char>)>) -> (r: i8)
    ensures
        r as int == comps_order(
            a@.map_values(|c: (u8, Vec<char>)| (c.0, c.1@)),
            b@.map_values(|c: (u8, Vec<char>)| (c.0, c.1@)),
        ),
{
    let ghost av = a@.map_values(|c: (u8, Vec<char>)| (c.0, c.1@));
    let ghost bv = b@.map_values(|c: (u8, Vec<char>)| (c.0, c.1@));
    let ghost f = comp_order_fn();
    let mut i: usize = 0;
    assert(av.skip(0) =~= av);
    assert(bv.skip(0) =~= bv);
    while i < a.len() && i < b.len()
        invariant
            i <= a@.len(),
            i <= b@.len(),
            av == a@.map_values(|c: (u8, Vec<char>)| (c.0, c.1@)),
            bv == b@.map_values(|c: (u8, Vec<char>)| (c.0, c.1@)),
            f == comp_order_fn(),
            comps_order(av, bv) == lex_order(av.skip(i as int), bv.skip(i as int), f),
        decreases a@.len() - i,
    {
        let x = &a[i];
        let y = &b[i];
        assert(av.skip(i as int)[0] == (x.0, x.1@));
        assert(bv.skip(i as int)[0] == (y.0, y.1@));
        assert(f((x.0, x.1@), (y.0, y.1@)) == comp_order((x.0, x.1@), (y.0, y.1@)));
        if x.0 < y.0 {
            return -1;
        }
        if x.0 > y.0 {
            return 1;
        }
        let c = chars_order_exec(&x.1, &y.1);
        if c != 0 {
            return c;
        }
        assert(av.skip(i as int).drop_first() =~= av.skip(i + 1));
        assert(bv.skip(i as int).drop_first() =~= bv.skip(i + 1));
        i = i + 1;
    }
    if a.len() == i && b.len() == i {
        0
    } else if a.len() == i {
        -1
    } else {
        1
    }
}

/// A value that can be sorted by a total preorder over its view.
pub trait SortKey: View + Sized {
    /// The preorder: `a` may come before `b`.
    spec fn key_le(a: Self::V, b: Self::V) -> bool;

    fn le(&self, other: &Self) -> (r: bool)
        ensures
            r == Self::key_le(self@, other@),
    ;

    proof fn lemma_total(a: Self::V, b: Self::V)
        ensures
            Self::key_le(a, b) || Self::key_le(b, a),
    ;

    proof fn lemma_trans(a: Self::V, b: Self::V, c: Self::V)
        requires
            Self::key_le(a, b),
            Self::key_le(b, c),
        ensures
            Self::key_le(a, c),
    ;
}

/// The views of a sequence.
pub open spec fn views<T: View>(s: Seq<T>) -> Seq<T::V> {
    s.map_values(|x: T| x@)
}

/// The views are ordered by the preorder.
pub open spec fn sorted_views<T: SortKey>(s: Seq<T::V>) -> bool {
    forall|i: int, j: int| 0 <= i < j < s.len() ==> T::key_le(#[trigger] s[i], #[trigger] s[j])
}

proof fn lemma_ms_insert<A>(s: Seq<A>, i: int, x: A)
    requires
        0 <= i <= s.len(),
    ensures
        s.insert(i, x).to_multiset() == s.to_multiset().insert(x),
{
    broadcast use vstd::seq_lib::group_to_multiset_ensures;

    let t = s.insert(i, x);
    assert(t.remove(i) =~= s);
    assert(t[i] == x);
    assert(t.remove(i).to_multiset() == t.to_multiset().remove(x));
    assert(t.to_multiset().count(x) > 0);
    assert(t.to_multiset() =~= t.to_multiset().remove(x).insert(x));
}

/// Sorts by the preorder of `T`.
pub fn sort_by_key<T: SortKey>(v: Vec<T>) -> (r: Vec<T>)
    ensures
        sorted_views::<T>(views(r@)),
        views(r@).to_multiset() == views(v@).to_multiset(),
{
    broadcast use vstd::seq_lib::group_to_multiset_ensures;
    broadcast use vstd::multiset::group_multiset_axioms;

    let ghost orig = views(v@);
    let mut rest = v;
    let mut out: Vec<T> = Vec::new();
    assert(views(out@).to_multiset() =~= Multiset::<T::V>::empty());
    while rest.len() > 0
        invariant
            sorted_views::<T>(views(out@)),
            views(out@).to_multiset().add(views(rest@).to_multiset()) == orig.to_multiset(),
        decreases rest@.len(),
    {
        let ghost before = rest@;
        let x = rest.pop().unwrap();
        assert(views(before) =~= views(rest@).push(x@));
        // binary search for the first position whose element is not below `x`
        let mut lo: usize = 0;
        let mut hi: usize = out.len();
        while lo < hi
            invariant
                0 <= lo <= hi <= out@.len(),
                sorted_views::<T>(views(out@)),
                forall|k: int| 0 <= k < lo ==> !T::key_le(x@, #[trigger] views(out@)[k]),
                forall|k: int| hi <= k < out@.len() ==> T::key_le(x@, #[trigger] views(out@)[k]),
            decreases hi - lo,
        {
            let mid = lo + (hi - lo) / 2;
            if x.le(&out[mid]) {
                proof {
                    assert forall|k: int| mid <= k < out@.len() implies T::key_le(
                        x@,
                        #[trigger] views(out@)[k],
                    ) by {
                        if k > mid {
                            assert(T::key_le(views(out@)[mid as int], views(out@)[k]));
                            T::lemma_trans(x@, views(out@)[mid as int], views(out@)[k]);
                        }
                    }
                }
                hi = mid;
            } else {
                proof {
                    assert forall|k: int| 0 <= k <= mid implies !T::key_le(
                        x@,
                        #[trigger] views(out@)[k],
                    ) by {
                        if k < mid && T::key_le(x@, views(out@)[k]) {
                            assert(T::key_le(views(out@)[k], views(out@)[mid as int]));
                            T::lemma_trans(x@, views(out@)[k], views(out@)[mid as int]);
                        }
                    }
                }
                lo = mid + 1;
            }
        }
        let ghost old_out = views(out@);
        let ghost xv = x@;
        out.insert(lo, x);
        proof {
            assert(views(out@) =~= old_out.insert(lo as int, xv));
            lemma_ms_insert(old_out, lo as int, xv);
            let nv = views(out@);
            assert forall|i: int, j: int| 0 <= i < j < nv.len() implies T::key_le(
                #[trigger] nv[i],
                #[trigger] nv[j],
            ) by {
                if j < lo {
                    assert(nv[i] == old_out[i] && nv[j] == old_out[j]);
                } else if i > lo {
                    assert(nv[i] == old_out[i - 1] && nv[j] == old_out[j - 1]);
                } else if i == lo {
                    assert(nv[j] == old_out[j - 1]);
                } else if j == lo {
                    assert(nv[i] == old_out[i]);
                    assert(!T::key_le(xv, old_out[i]));
                    T::lemma_total(xv, old_out[i]);
                } else {
                    assert(nv[i] == old_out[i]);
                    assert(nv[j] == old_out[j - 1]);
                }
            }
            views(rest@).to_multiset_ensures();
            assert(views(rest@).push(xv).to_multiset() == views(rest@).to_multiset().insert(xv));
            assert(views(before).to_multiset() == views(rest@).to_multiset().insert(xv));
            assert(views(out@).to_multiset() == old_out.to_multiset().insert(xv));
            assert(views(out@).to_multiset().add(views(rest@).to_multiset()) =~= old_out.to_multiset().add(
            views(before).to_multiset()));
        }
    }
    assert(views(rest@) =~= Seq::<T::V>::empty());
    assert(views(out@).to_multiset().add(views(rest@).to_multiset()) =~= views(out@).to_multiset());
    out
}

} // verus!
