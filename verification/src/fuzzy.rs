//! Fuzzy ranking of search candidates by name, with the `nucleo` matcher, and
//! the plain substring score.
use vstd::prelude::*;

use nucleo::Nucleo;
use crate::path::{file_name, file_name_of};
use crate::text::{
    chars_eq, chars_of, contains_chars, contains_seq, has_prefix, lowercase_of, to_lowercase,
};

verus! {

/// The `nucleo` matcher, opaque to proofs.
#[verifier::external_type_specification]
#[verifier::external_body]
#[verifier::reject_recursive_types(T)]
pub struct ExNucleo<T: Sync + Send + 'static>(Nucleo<T>);

/// The items injected into a matcher, in injection order.
pub uninterp spec fn nucleo_items(m: Nucleo<String>) -> Seq<Seq<char>>;

/// The pattern text a matcher was last given (empty when new).
pub uninterp spec fn nucleo_pattern(m: Nucleo<String>) -> Seq<char>;

/// The items that match `pattern`, best first, as `nucleo` ranks them.
pub uninterp spec fn nucleo_ranking(items: Seq<Seq<char>>, pattern: Seq<char>) -> Seq<Seq<char>>;

/// Trusted: `Nucleo::new` with the default configuration, a notifier that does
/// nothing, one thread per hardware thread and one column makes a matcher with
/// no items and an empty pattern. (It also starts a thread pool; its failure to
/// start, on which `nucleo` panics, is not modelled.)
#[verifier::external_body]
fn new_matcher() -> (m: Nucleo<String>)
    ensures
        nucleo_items(m) == Seq::<Seq<char>>::empty(),
        nucleo_pattern(m) == Seq::<char>::empty(),
{
    Nucleo::new(nucleo::Config::DEFAULT, std::sync::Arc::new(|| {}), None, 1)
}

/// Trusted: `Injector::push` appends `item` after the items already injected
/// (its matching column is the item's text); the pattern is untouched.
#[verifier::external_body]
fn inject(m: &mut Nucleo<String>, item: String)
    ensures
        nucleo_items(*final(m)) == nucleo_items(*old(m)).push(item@),
        nucleo_pattern(*final(m)) == nucleo_pattern(*old(m)),
{
    m.injector().push(item, |data, cols| cols[0] = nucleo::Utf32String::from(data.as_str()));
}

/// Trusted: `MultiPattern::reparse` on column 0 with smart case matching and
/// smart normalization, announcing an appended pattern, sets the pattern and
/// leaves the items. `nucleo` asks that the old pattern be a prefix of the new
/// one for that announcement; `requires` says so, except for the empty pattern,
/// for which the worker drops its earlier matches and takes every item afresh.
#[verifier::external_body]
fn reparse_pattern(m: &mut Nucleo<String>, pattern: &str)
    requires
        pattern@.len() == 0 || has_prefix(pattern@, nucleo_pattern(*old(m))),
    ensures
        nucleo_items(*final(m)) == nucleo_items(*old(m)),
        nucleo_pattern(*final(m)) == pattern@,
{
    m.pattern.reparse(
        0,
        pattern,
        nucleo::pattern::CaseMatching::Smart,
        nucleo::pattern::Normalization::Smart,
        true,
    );
}

/// Trusted: ticking the matcher until its worker has stopped, then reading the
/// snapshot's matched items in order, gives `nucleo`'s ranking of the items by
/// the pattern; each item appears at most as often as it was injected (the
/// snapshot holds each item index once), and with the empty pattern every
/// item is matched (the worker then keeps all items). Items and pattern are
/// untouched.
#[verifier::external_body]
fn settled_matches(m: &mut Nucleo<String>) -> (r: Vec<String>)
    ensures
        nucleo_items(*final(m)) == nucleo_items(*old(m)),
        nucleo_pattern(*final(m)) == nucleo_pattern(*old(m)),
        r@.map_values(|s: String| s@) == nucleo_ranking(nucleo_items(*old(m)), nucleo_pattern(*old(m))),
        r@.map_values(|s: String| s@).to_multiset().subset_of(nucleo_items(*old(m)).to_multiset()),
        nucleo_pattern(*old(m)).len() == 0 ==> r@.map_values(|s: String| s@).to_multiset()
            == nucleo_items(*old(m)).to_multiset(),
{
    while m.tick(10).running {}
    let snapshot = m.snapshot();
    (0..snapshot.matched_item_count())
        .filter_map(|i| snapshot.get_matched_item(i))
        .map(|item| item.data.clone())
        .collect()
}

/// A fuzzy matcher over a list of strings.
pub struct FuzzyFinder {
    pub matcher: Nucleo<String>,
}

impl FuzzyFinder {
    /// An empty finder.
    pub fn new() -> (f: FuzzyFinder)
        ensures
            nucleo_items(f.matcher) == Seq::<Seq<char>>::empty(),
            nucleo_pattern(f.matcher) == Seq::<char>::empty(),
    {
        FuzzyFinder { matcher: new_matcher() }
    }

    /// Replaces the candidates by `items`, in order, with an empty pattern.
    pub fn populate(&mut self, items: Vec<String>)
        ensures
            nucleo_items(final(self).matcher) == items@.map_values(|s: String| s@),
            nucleo_pattern(final(self).matcher) == Seq::<char>::empty(),
    {
        self.matcher = new_matcher();
        for i in 0..items.len()
            invariant
                nucleo_items(self.matcher) == items@.take(i as int).map_values(|s: String| s@),
                nucleo_pattern(self.matcher) == Seq::<char>::empty(),
        {
            let x = items[i].clone();
            inject(&mut self.matcher, x);
            assert(items@.take(i + 1).map_values(|s: String| s@) =~= items@.take(i as int).map_values(
                |s: String| s@,
            ).push(x@));
        }
        assert(items@.take(items@.len() as int) =~= items@);
    }

    /// The candidates that match `pattern`, best first; the empty pattern
    /// matches every candidate, whatever was asked before. A non-empty
    /// `pattern` must extend the pattern last given (a fresh or newly
    /// populated finder has the empty one).
    pub fn query(&mut self, pattern: &str) -> (r: Vec<String>)
        requires
            pattern@.len() == 0 || has_prefix(pattern@, nucleo_pattern(old(self).matcher)),
        ensures
            r@.map_values(|s: String| s@) == nucleo_ranking(nucleo_items(old(self).matcher), pattern@),
            r@.map_values(|s: String| s@).to_multiset().subset_of(
                nucleo_items(old(self).matcher).to_multiset(),
            ),
            pattern@.len() == 0 ==> r@.map_values(|s: String| s@).to_multiset() == nucleo_items(
                old(self).matcher,
            ).to_multiset(),
            nucleo_items(final(self).matcher) == nucleo_items(old(self).matcher),
            nucleo_pattern(final(self).matcher) == pattern@,
    {
        reparse_pattern(&mut self.matcher, pattern);
        settled_matches(&mut self.matcher)
    }
}

/// The score a candidate gets for a query: 100 when the lowercased candidate
/// contains the lowercased query, none otherwise.
pub open spec fn fuzzy_score_spec(query: Seq<char>, candidate: Seq<char>) -> Option<i32> {
    if contains_seq(lowercase_of(candidate), lowercase_of(query)) {
        Some(100)
    } else {
        None
    }
}

/// Case-insensitive substring score of `candidate` for `query`.
pub fn fuzzy_score(query: &str, candidate: &str) -> (r: Option<i32>)
    ensures
        r == fuzzy_score_spec(query@, candidate@),
{
    let c = to_lowercase(candidate);
    let q = to_lowercase(query);
    let cc = chars_of(c.as_str());
    let qc = chars_of(q.as_str());
    if contains_chars(&cc, &qc) {
        Some(100)
    } else {
        None
    }
}

/// The name a search result is ranked by: its file name, or the whole path
/// when it has none.
pub open spec fn display_name(p: Seq<char>) -> Seq<char> {
    match file_name_of(p) {
        Some(n) => n,
        None => p,
    }
}

/// Number of occurrences of `x` in `s`.
pub open spec fn occurrences(s: Seq<Seq<char>>, x: Seq<char>) -> nat
    decreases s.len(),
{
    if s.len() == 0 {
        0
    } else {
        occurrences(s.drop_last(), x) + if s.last() == x {
            1nat
        } else {
            0nat
        }
    }
}

/// The `n`-th (from 0) of `paths` whose display name is `name`.
pub open spec fn nth_named(paths: Seq<Seq<char>>, name: Seq<char>, n: nat) -> Option<Seq<char>>
    decreases paths.len(),
{
    if paths.len() == 0 {
        None
    } else if display_name(paths[0]) == name {
        if n == 0 {
            Some(paths[0])
        } else {
            nth_named(paths.drop_first(), name, (n - 1) as nat)
        }
    } else {
        nth_named(paths.drop_first(), name, n)
    }
}

/// The paths behind ranked names: the k-th time a name comes up it stands for
/// the k-th path of that name; names with no path left are skipped.
pub open spec fn paths_for_ranking(ranked: Seq<Seq<char>>, paths: Seq<Seq<char>>) -> Seq<Seq<char>>
    decreases ranked.len(),
{
    if ranked.len() == 0 {
        seq![]
    } else {
        let prev = paths_for_ranking(ranked.drop_last(), paths);
        match nth_named(paths, ranked.last(), occurrences(ranked.drop_last(), ranked.last())) {
            Some(p) => prev.push(p),
            None => prev,
        }
    }
}

/// The display name of `p`.
fn display_name_exec(p: &str) -> (r: String)
    ensures
        r@ == display_name(p@),
{
    match file_name(p) {
        Some(n) => n,
        None => crate::text::to_owned_string(p),
    }
}

/// Number of occurrences of `x` among the first `k` of `s`.
fn occurrences_exec(s: &Vec<Vec<char>>, k: usize, x: &Vec<char>) -> (r: usize)
    requires
        k <= s@.len(),
    ensures
        r == occurrences(s@.take(k as int).map_values(|v: Vec<char>| v@), x@),
{
    let ghost f = |v: Vec<char>| v@;
    let mut c: usize = 0;
    for i in 0..k
        invariant
            k <= s@.len(),
            c <= i,
            f == (|v: Vec<char>| v@),
            c == occurrences(s@.take(i as int).map_values(f), x@),
    {
        proof {
            let t = s@.take(i + 1).map_values(f);
            assert(t.drop_last() =~= s@.take(i as int).map_values(f));
            assert(t.last() == s@[i as int]@);
        }
        if chars_eq(&s[i], x) {
            c = c + 1;
        }
    }
    c
}

/// The `n`-th of `paths` whose display name is `name`.
fn nth_named_exec(paths: &Vec<String>, names: &Vec<Vec<char>>, name: &Vec<char>, n: usize) -> (r: Option<usize>)
    requires
        names@.len() == paths@.len(),
        forall|i: int| 0 <= i < paths@.len() ==> (#[trigger] names@[i])@ == display_name(paths@[i]@),
    ensures
        match nth_named(paths@.map_values(|s: String| s@), name@, n as nat) {
            Some(p) => r.is_some() && r.unwrap() < paths@.len() && paths@[r.unwrap() as int]@ == p,
            None => r.is_none(),
        },
{
    let ghost f = |s: String| s@;
    let mut left = n;
    let mut i: usize = 0;
    assert(paths@.map_values(f).skip(0) =~= paths@.map_values(f));
    while i < paths.len()
        invariant
            names@.len() == paths@.len(),
            forall|j: int| 0 <= j < paths@.len() ==> (#[trigger] names@[j])@ == display_name(paths@[j]@),
            i <= paths@.len(),
            f == (|s: String| s@),
            nth_named(paths@.map_values(f), name@, n as nat) == nth_named(
                paths@.map_values(f).skip(i as int),
                name@,
                left as nat,
            ),
        decreases paths@.len() - i,
    {
        let ghost rest = paths@.map_values(f).skip(i as int);
        assert(rest[0] == paths@[i as int]@);
        assert(rest.drop_first() =~= paths@.map_values(f).skip(i + 1));
        if chars_eq(&names[i], name) {
            if left == 0 {
                return Some(i);
            }
            left = left - 1;
        }
        i = i + 1;
    }
    None
}

proof fn lemma_occurrences_count(s: Seq<Seq<char>>, x: Seq<char>)
    ensures
        occurrences(s, x) == s.to_multiset().count(x),
    decreases s.len(),
{
    broadcast use vstd::seq_lib::group_to_multiset_ensures;

    if s.len() > 0 {
        lemma_occurrences_count(s.drop_last(), x);
        assert(s =~= s.drop_last().push(s.last()));
    }
}

/// `nth_named` finds a path exactly when fewer than `n + 1` paths lack it,
/// and the path it finds has the name asked for.
proof fn lemma_nth_named(paths: Seq<Seq<char>>, name: Seq<char>, n: nat)
    ensures
        nth_named(paths, name, n) is Some <==> n < paths.map_values(|p: Seq<char>| display_name(p)).to_multiset().count(name),
        nth_named(paths, name, n) matches Some(p) ==> display_name(p) == name,
    decreases paths.len(),
{
    broadcast use vstd::seq_lib::group_to_multiset_ensures;

    let d = paths.map_values(|p: Seq<char>| display_name(p));
    if paths.len() > 0 {
        let rest = paths.drop_first();
        let dr = rest.map_values(|p: Seq<char>| display_name(p));
        assert(d =~= dr.insert(0, display_name(paths[0])));
        assert(d.to_multiset() == dr.to_multiset().insert(display_name(paths[0])));
        assert(d.to_multiset().count(name) == dr.to_multiset().count(name) + if display_name(
            paths[0],
        ) == name {
            1nat
        } else {
            0nat
        }) by {
            broadcast use vstd::multiset::group_multiset_axioms;
        }
        if display_name(paths[0]) == name {
            if n > 0 {
                lemma_nth_named(rest, name, (n - 1) as nat);
            }
        } else {
            lemma_nth_named(rest, name, n);
        }
    } else {
        assert(d.to_multiset() =~= vstd::multiset::Multiset::empty());
    }
}

/// When every ranked name comes from the paths, as often as the paths hold
/// it, each ranked name is matched to a path of that name.
proof fn lemma_paths_for_ranking_names(ranked: Seq<Seq<char>>, paths: Seq<Seq<char>>)
    requires
        ranked.to_multiset().subset_of(paths.map_values(|p: Seq<char>| display_name(p)).to_multiset()),
    ensures
        paths_for_ranking(ranked, paths).map_values(|p: Seq<char>| display_name(p)) == ranked,
    decreases ranked.len(),
{
    broadcast use vstd::seq_lib::group_to_multiset_ensures;

    let d = paths.map_values(|p: Seq<char>| display_name(p));
    if ranked.len() > 0 {
        let init = ranked.drop_last();
        let x = ranked.last();
        assert(ranked =~= init.push(x));
        assert(init.to_multiset().subset_of(d.to_multiset())) by {
            assert forall|y: Seq<char>| init.to_multiset().count(y) <= d.to_multiset().count(y) by {
                assert(init.to_multiset().count(y) <= ranked.to_multiset().count(y));
            }
        }
        lemma_paths_for_ranking_names(init, paths);
        lemma_occurrences_count(init, x);
        assert(ranked.to_multiset().count(x) == init.to_multiset().count(x) + 1);
        lemma_nth_named(paths, x, occurrences(init, x));
        let prev = paths_for_ranking(init, paths);
        let p = nth_named(paths, x, occurrences(init, x))->Some_0;
        assert(prev.push(p).map_values(|q: Seq<char>| display_name(q)) =~= prev.map_values(
            |q: Seq<char>| display_name(q),
        ).push(display_name(p)));
    } else {
        assert(paths_for_ranking(ranked, paths).map_values(|p: Seq<char>| display_name(p)) =~= ranked);
    }
}

/// Maps ranked names back to the paths they came from (see `paths_for_ranking`).
pub fn paths_for_names(ranked: &Vec<String>, paths: &Vec<String>) -> (r: Vec<String>)
    ensures
        r@.map_values(|s: String| s@) == paths_for_ranking(
            ranked@.map_values(|s: String| s@),
            paths@.map_values(|s: String| s@),
        ),
{
    let ghost f = |s: String| s@;
    let ghost g = |v: Vec<char>| v@;
    let mut names: Vec<Vec<char>> = Vec::new();
    for i in 0..paths.len()
        invariant
            names@.len() == i,
            forall|j: int| 0 <= j < i ==> (#[trigger] names@[j])@ == display_name(paths@[j]@),
    {
        let d = display_name_exec(paths[i].as_str());
        names.push(chars_of(d.as_str()));
    }
    let mut rk: Vec<Vec<char>> = Vec::new();
    for i in 0..ranked.len()
        invariant
            rk@.len() == i,
            forall|j: int| 0 <= j < i ==> (#[trigger] rk@[j])@ == ranked@[j]@,
    {
        rk.push(chars_of(ranked[i].as_str()));
    }
    let mut out: Vec<String> = Vec::new();
    for k in 0..ranked.len()
        invariant
            rk@.len() == ranked@.len(),
            forall|j: int| 0 <= j < ranked@.len() ==> (#[trigger] rk@[j])@ == ranked@[j]@,
            names@.len() == paths@.len(),
            forall|j: int| 0 <= j < paths@.len() ==> (#[trigger] names@[j])@ == display_name(paths@[j]@),
            f == (|s: String| s@),
            g == (|v: Vec<char>| v@),
            out@.map_values(f) == paths_for_ranking(ranked@.map_values(f).take(k as int), paths@.map_values(f)),
    {
        let c = occurrences_exec(&rk, k, &rk[k]);
        let found = nth_named_exec(paths, &names, &rk[k], c);
        proof {
            let rt = ranked@.map_values(f).take(k + 1);
            assert(rk@.take(k as int).map_values(g) =~= ranked@.map_values(f).take(k as int));
            assert(rt.drop_last() =~= ranked@.map_values(f).take(k as int));
            assert(rt.last() == ranked@[k as int]@);
        }
        let ghost old_out = out@.map_values(f);
        match found {
            Some(i) => {
                out.push(paths[i].clone());
                assert(out@.map_values(f) =~= old_out.push(paths@[i as int]@));
            },
            None => {},
        }
    }
    assert(ranked@.map_values(f).take(ranked@.len() as int) =~= ranked@.map_values(f));
    out
}

/// Ranks raw search results by how well their names match `query`, best
/// first: the names go through the fuzzy finder, then back to their paths.
pub fn rank_search_paths(query: &str, raw: &Vec<String>) -> (r: Vec<String>)
    ensures
        raw@.len() == 0 ==> r@.len() == 0,
        raw@.len() > 0 ==> r@.map_values(|s: String| s@) == paths_for_ranking(
            nucleo_ranking(raw@.map_values(|s: String| display_name(s@)), query@),
            raw@.map_values(|s: String| s@),
        ),
        raw@.len() > 0 ==> r@.map_values(|s: String| display_name(s@)) == nucleo_ranking(
            raw@.map_values(|s: String| display_name(s@)),
            query@,
        ),
{
    if raw.len() == 0 {
        return Vec::new();
    }
    let mut names: Vec<String> = Vec::new();
    for i in 0..raw.len()
        invariant
            names@.map_values(|s: String| s@) == raw@.take(i as int).map_values(
                |s: String| display_name(s@),
            ),
    {
        let d = display_name_exec(raw[i].as_str());
        let ghost old_names = names@;
        names.push(d);
        proof {
            assert(raw@.take(i + 1).map_values(|s: String| display_name(s@)) =~= raw@.take(
                i as int,
            ).map_values(|s: String| display_name(s@)).push(d@));
            assert(names@.map_values(|s: String| s@) =~= old_names.map_values(|s: String| s@).push(
                d@,
            ));
        }
    }
    assert(raw@.take(raw@.len() as int) =~= raw@);
    let mut finder = FuzzyFinder::new();
    finder.populate(names);
    proof {
        assert(has_prefix(query@, Seq::<char>::empty())) by {
            assert(query@.take(0) =~= Seq::<char>::empty());
        }
    }
    let ranked = finder.query(query);
    let r = paths_for_names(&ranked, raw);
    proof {
        let pv = raw@.map_values(|s: String| s@);
        assert(pv.map_values(|p: Seq<char>| display_name(p)) =~= raw@.map_values(
            |s: String| display_name(s@),
        ));
        lemma_paths_for_ranking_names(ranked@.map_values(|s: String| s@), pv);
        assert(r@.map_values(|s: String| display_name(s@)) =~= r@.map_values(|s: String| s@).map_values(
            |p: Seq<char>| display_name(p),
        ));
    }
    r
}

} // verus!
