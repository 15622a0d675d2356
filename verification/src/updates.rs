//! Whether a newer release is announced: the version that the crates.io answer
//! names, compared with the running one.
use vstd::prelude::*;
use crate::text::chars_of;

verus! {

/// The string at `crate.newest_version` in the JSON document `body`, as
/// `serde_json` reads it; `None` when `body` is not JSON or holds no string there.
pub uninterp spec fn json_newest_version(body: Seq<char>) -> Option<Seq<char>>;

/// Trusted: `serde_json::from_str` parses `body` as a JSON value; indexing it
/// by `crate`, then by `newest_version`, and `Value::as_str` give the string
/// there, if any. The result is named `json_newest_version`.
#[verifier::external_body]
fn newest_version_in(body: &str) -> (r: Option<String>)
    ensures
        match r {
            Some(v) => json_newest_version(body@) == Some(v@),
            None => json_newest_version(body@).is_none(),
        },
{
    match serde_json::from_str::<serde_json::Value>(body) {
        Ok(json) => json["crate"]["newest_version"].as_str().map(|s| s.to_string()),
        Err(_) => None,
    }
}

/// Whether `c` is a decimal digit.
pub open spec fn is_digit(c: char) -> bool {
    '0' <= c && c <= '9'
}

/// The value of the digit `c`.
pub open spec fn digit_val(c: char) -> nat {
    (c as int - '0' as int) as nat
}

/// Every character of `s` is a decimal digit.
pub open spec fn all_digits(s: Seq<char>) -> bool {
    forall|i: int| 0 <= i < s.len() ==> is_digit(#[trigger] s[i])
}

/// The number the decimal digits `s` write (0 for none).
pub open spec fn dval(s: Seq<char>) -> nat
    decreases s.len(),
{
    if s.len() == 0 {
        0
    } else {
        dval(s.drop_last()) * 10 + digit_val(s.last())
    }
}

/// Ten to the power `n`.
pub open spec fn pow10(n: nat) -> nat
    decreases n,
{
    if n == 0 {
        1
    } else {
        10 * pow10((n - 1) as nat)
    }
}

/// The pieces of `s` between dots (`s` split at every `.`).
pub open spec fn parts_of(s: Seq<char>) -> Seq<Seq<char>>
    decreases s.len(),
{
    if s.len() == 0 {
        seq![Seq::empty()]
    } else {
        let p = parts_of(s.drop_last());
        if s.last() == '.' {
            p.push(Seq::empty())
        } else {
            p.update(p.len() - 1, p.last().push(s.last()))
        }
    }
}

/// The digits `p` starts with.
pub open spec fn lead(p: Seq<char>) -> Seq<char>
    decreases p.len(),
{
    if p.len() == 0 {
        Seq::empty()
    } else {
        let q = lead(p.drop_last());
        if q.len() == p.len() - 1 && is_digit(p.last()) {
            p
        } else {
            q
        }
    }
}

/// The numbers of a version: the number each dot-separated piece starts
/// with (0 when it starts with no digit), so `1.10.0-beta` is 1, 10, 0.
pub open spec fn version_values(s: Seq<char>) -> Seq<nat> {
    parts_of(s).map_values(|p: Seq<char>| dval(lead(p)))
}

/// Component `i` of a version, 0 past its end.
pub open spec fn part_at(v: Seq<nat>, i: int) -> nat {
    if 0 <= i < v.len() {
        v[i]
    } else {
        0
    }
}

/// The larger of two lengths.
pub open spec fn max_len(a: nat, b: nat) -> nat {
    if a >= b {
        a
    } else {
        b
    }
}

/// Comparison of two versions from component `i` on: numeric, component by
/// component, missing components counting as 0. Negative, zero or positive.
pub open spec fn version_order_from(a: Seq<nat>, b: Seq<nat>, i: nat) -> int
    decreases max_len(a.len(), b.len()) - i,
{
    if i >= a.len() && i >= b.len() {
        0
    } else if part_at(a, i as int) < part_at(b, i as int) {
        -1
    } else if part_at(a, i as int) > part_at(b, i as int) {
        1
    } else {
        version_order_from(a, b, i + 1)
    }
}

/// `latest` is a newer version than `current`.
pub open spec fn is_newer(latest: Seq<char>, current: Seq<char>) -> bool {
    version_order_from(version_values(latest), version_values(current), 0) > 0
}

/// The version to announce: the latest one when it is newer than `current`.
pub open spec fn notice_for(latest: Option<Seq<char>>, current: Seq<char>) -> Option<Seq<char>> {
    match latest {
        Some(l) => if is_newer(l, current) {
            Some(l)
        } else {
            None
        },
        None => None,
    }
}

proof fn lemma_dval_concat(a: Seq<char>, b: Seq<char>)
    ensures
        dval(a + b) == dval(a) * pow10(b.len()) + dval(b),
    decreases b.len(),
{
    if b.len() == 0 {
        assert(a + b =~= a);
        let x = dval(a);
        assert(x * 1 + 0 == x) by (nonlinear_arith);
    } else {
        let b1 = b.drop_last();
        assert((a + b).drop_last() =~= a + b1);
        assert((a + b).last() == b.last());
        lemma_dval_concat(a, b1);
        assert(dval(a + b) == dval(a + b1) * 10 + digit_val(b.last()));
        assert(dval(b) == dval(b1) * 10 + digit_val(b.last()));
        assert(pow10(b.len()) == 10 * pow10(b1.len()));
        let x = dval(a);
        let p1 = pow10(b1.len());
        let y = dval(b1);
        let d = digit_val(b.last());
        assert((x * p1 + y) * 10 + d == x * (10 * p1) + (y * 10 + d)) by (nonlinear_arith);
        assert(dval(a + b) == (x * p1 + y) * 10 + d);
        assert(dval(a) * pow10(b.len()) + dval(b) == x * (10 * p1) + (y * 10 + d));
    }
}

proof fn lemma_dval_bound(s: Seq<char>)
    requires
        all_digits(s),
    ensures
        dval(s) < pow10(s.len()),
    decreases s.len(),
{
    if s.len() > 0 {
        let s1 = s.drop_last();
        assert(all_digits(s1)) by {
            assert forall|i: int| 0 <= i < s1.len() implies is_digit(#[trigger] s1[i]) by {
                assert(s1[i] == s[i]);
            }
        }
        lemma_dval_bound(s1);
        assert(is_digit(s[s.len() - 1]));
        let x = dval(s1);
        let p = pow10(s1.len());
        let d = digit_val(s.last());
        assert(x * 10 + d < 10 * p) by (nonlinear_arith)
            requires
                x < p,
                d <= 9,
        ;
    }
}

proof fn lemma_pow10_mono(m: nat, n: nat)
    requires
        m <= n,
    ensures
        pow10(m) <= pow10(n),
    decreases n - m,
{
    if m < n {
        lemma_pow10_mono(m, (n - 1) as nat);
    }
}

proof fn lemma_dval_zeros(z: Seq<char>)
    requires
        forall|i: int| 0 <= i < z.len() ==> #[trigger] z[i] == '0',
    ensures
        dval(z) == 0,
    decreases z.len(),
{
    if z.len() > 0 {
        let z1 = z.drop_last();
        assert forall|i: int| 0 <= i < z1.len() implies #[trigger] z1[i] == '0' by {
            assert(z1[i] == z[i]);
        }
        lemma_dval_zeros(z1);
        assert(z[z.len() - 1] == '0');
    }
}

proof fn lemma_dval_lower(s: Seq<char>)
    requires
        all_digits(s),
        s.len() > 0,
        s[0] != '0',
    ensures
        dval(s) >= pow10((s.len() - 1) as nat),
{
    let h = s.take(1);
    let r = s.skip(1);
    assert(s =~= h + r);
    lemma_dval_concat(h, r);
    assert(h.drop_last() =~= Seq::<char>::empty());
    assert(dval(h.drop_last()) == 0);
    assert(h.last() == s[0]);
    assert(is_digit(s[0]));
    assert(dval(h) == digit_val(s[0]));
    let p = pow10(r.len());
    let x = dval(h);
    assert(x * p + dval(r) >= p) by (nonlinear_arith)
        requires
            x >= 1,
    ;
}

proof fn lemma_dval_lex(p: Seq<char>, x: char, y: char, r1: Seq<char>, r2: Seq<char>)
    requires
        r1.len() == r2.len(),
        all_digits(r1),
        is_digit(x),
        is_digit(y),
        (x as int) < (y as int),
    ensures
        dval(p.push(x) + r1) < dval(p.push(y) + r2),
{
    lemma_dval_concat(p.push(x), r1);
    lemma_dval_concat(p.push(y), r2);
    lemma_dval_bound(r1);
    assert(p.push(x).drop_last() =~= p);
    assert(p.push(y).drop_last() =~= p);
    let a = dval(p.push(x));
    let b = dval(p.push(y));
    assert(a + 1 <= b);
    let q = pow10(r1.len());
    let u = dval(r1);
    let v = dval(r2);
    assert(a * q + u < b * q + v) by (nonlinear_arith)
        requires
            a + 1 <= b,
            u < q,
    ;
}

proof fn lemma_order_self(a: Seq<nat>, i: nat)
    ensures
        version_order_from(a, a, i) == 0,
    decreases max_len(a.len(), a.len()) - i,
{
    if i < a.len() {
        lemma_order_self(a, i + 1);
    }
}

proof fn lemma_order_antisym(a: Seq<nat>, b: Seq<nat>, i: nat)
    ensures
        version_order_from(a, b, i) == -version_order_from(b, a, i),
    decreases max_len(a.len(), b.len()) - i,
{
    if !(i >= a.len() && i >= b.len()) && part_at(a, i as int) == part_at(b, i as int) {
        lemma_order_antisym(a, b, i + 1);
    }
}

/// No version is newer than itself, and of two versions at most one is newer
/// than the other: the running version is never announced, and an older
/// release never is.
pub proof fn law_newer_is_strict(x: Seq<char>, y: Seq<char>)
    ensures
        !is_newer(x, x),
        is_newer(x, y) ==> !is_newer(y, x),
{
    lemma_order_self(version_values(x), 0);
    lemma_order_antisym(version_values(x), version_values(y), 0);
}

/// -1, 0 or 1 as `x` is below, equal to or above `y`.
pub open spec fn sign_of(x: int, y: int) -> int {
    if x < y {
        -1
    } else if x > y {
        1
    } else {
        0
    }
}

fn leading_zeros(a: &Vec<char>) -> (k: usize)
    ensures
        k <= a@.len(),
        forall|i: int| 0 <= i < k ==> #[trigger] a@[i] == '0',
        k < a@.len() ==> a@[k as int] != '0',
{
    let mut k: usize = 0;
    while k < a.len() && a[k] == '0'
        invariant
            k <= a@.len(),
            forall|i: int| 0 <= i < k ==> #[trigger] a@[i] == '0',
        decreases a@.len() - k,
    {
        k = k + 1;
    }
    k
}

proof fn lemma_strip_zeros(a: Seq<char>, k: int)
    requires
        0 <= k <= a.len(),
        forall|i: int| 0 <= i < k ==> #[trigger] a[i] == '0',
    ensures
        dval(a) == dval(a.skip(k)),
{
    assert(a =~= a.take(k) + a.skip(k));
    assert forall|i: int| 0 <= i < a.take(k).len() implies #[trigger] a.take(k)[i] == '0' by {
        assert(a.take(k)[i] == a[i]);
    }
    lemma_dval_zeros(a.take(k));
    lemma_dval_concat(a.take(k), a.skip(k));
}

proof fn lemma_skip_digits(a: Seq<char>, k: int)
    requires
        0 <= k <= a.len(),
        all_digits(a),
    ensures
        all_digits(a.skip(k)),
{
    assert forall|i: int| 0 <= i < a.skip(k).len() implies is_digit(#[trigger] a.skip(k)[i]) by {
        assert(a.skip(k)[i] == a[i + k]);
    }
}

/// How the numbers written by the digits `a` and `b` compare.
fn digits_order(a: &Vec<char>, b: &Vec<char>) -> (r: i8)
    requires
        all_digits(a@),
        all_digits(b@),
    ensures
        r as int == sign_of(dval(a@) as int, dval(b@) as int),
{
    let za = leading_zeros(a);
    let zb = leading_zeros(b);
    let ghost a2 = a@.skip(za as int);
    let ghost b2 = b@.skip(zb as int);
    proof {
        lemma_strip_zeros(a@, za as int);
        lemma_strip_zeros(b@, zb as int);
        lemma_skip_digits(a@, za as int);
        lemma_skip_digits(b@, zb as int);
    }
    let la = a.len() - za;
    let lb = b.len() - zb;
    if la < lb {
        proof {
            lemma_dval_bound(a2);
            assert(b2[0] == b@[zb as int]);
            lemma_dval_lower(b2);
            lemma_pow10_mono(la as nat, (lb - 1) as nat);
        }
        return -1;
    }
    if la > lb {
        proof {
            lemma_dval_bound(b2);
            assert(a2[0] == a@[za as int]);
            lemma_dval_lower(a2);
            lemma_pow10_mono(lb as nat, (la - 1) as nat);
        }
        return 1;
    }
    let mut k: usize = 0;
    while k < la
        invariant
            la == lb,
            la == a@.len() - za,
            lb == b@.len() - zb,
            za <= a@.len(),
            zb <= b@.len(),
            a2 == a@.skip(za as int),
            b2 == b@.skip(zb as int),
            all_digits(a2),
            all_digits(b2),
            dval(a@) == dval(a2),
            dval(b@) == dval(b2),
            k <= la,
            forall|i: int| 0 <= i < k ==> a2[i] == b2[i],
        decreases la - k,
    {
        assert(za + k < a.len() && zb + k < b.len());
        let x = a[za + k];
        let y = b[zb + k];
        assert(x == a2[k as int] && y == b2[k as int]);
        if x != y {
            proof {
                let p = a2.take(k as int);
                assert(p =~= b2.take(k as int));
                assert(a2 =~= p.push(x) + a2.skip(k + 1));
                assert(b2 =~= p.push(y) + b2.skip(k + 1));
                lemma_skip_digits(a2, k + 1);
                lemma_skip_digits(b2, k + 1);
                assert(is_digit(a2[k as int]) && is_digit(b2[k as int]));
                if (x as int) < (y as int) {
                    lemma_dval_lex(p, x, y, a2.skip(k + 1), b2.skip(k + 1));
                } else {
                    lemma_dval_lex(p, y, x, b2.skip(k + 1), a2.skip(k + 1));
                }
            }
            if (x as u32) < (y as u32) {
                return -1;
            } else {
                return 1;
            }
        }
        k = k + 1;
    }
    assert(a2 =~= b2);
    0
}

/// The pieces of `s` between dots.
fn split_parts(s: &str) -> (r: Vec<Vec<char>>)
    ensures
        r@.map_values(|v: Vec<char>| v@) == parts_of(s@),
{
    let cs = chars_of(s);
    let mut done: Vec<Vec<char>> = Vec::new();
    let mut cur: Vec<char> = Vec::new();
    assert(cs@.take(0) =~= Seq::<char>::empty());
    assert(done@.map_values(|v: Vec<char>| v@).push(cur@) =~= parts_of(cs@.take(0)));
    for i in 0..cs.len()
        invariant
            cs@ == s@,
            done@.map_values(|v: Vec<char>| v@).push(cur@) == parts_of(cs@.take(i as int)),
    {
        let c = cs[i];
        let ghost before = done@.map_values(|v: Vec<char>| v@);
        let ghost cur0 = cur@;
        assert(cs@.take(i + 1).drop_last() =~= cs@.take(i as int));
        assert(cs@.take(i + 1).last() == c);
        if c == '.' {
            let piece = cur;
            cur = Vec::new();
            done.push(piece);
            assert(done@.map_values(|v: Vec<char>| v@) =~= before.push(cur0));
            assert(done@.map_values(|v: Vec<char>| v@).push(cur@) =~= before.push(cur0).push(
                Seq::<char>::empty(),
            ));
        } else {
            cur.push(c);
            assert(before.push(cur0).update(before.len() as int, cur0.push(c)) =~= before.push(cur@));
        }
    }
    assert(cs@.take(cs@.len() as int) =~= cs@);
    let ghost before = done@.map_values(|v: Vec<char>| v@);
    let last = cur;
    done.push(last);
    assert(done@.map_values(|v: Vec<char>| v@) =~= before.push(last@));
    done
}

proof fn lemma_lead_prefix(p: Seq<char>)
    ensures
        lead(p).len() <= p.len(),
        lead(p) == p.take(lead(p).len() as int),
        all_digits(lead(p)),
    decreases p.len(),
{
    if p.len() > 0 {
        let q = p.drop_last();
        lemma_lead_prefix(q);
        if lead(q).len() == q.len() && is_digit(p.last()) {
            assert(p.take(p.len() as int) =~= p);
            assert(lead(q) =~= q);
            assert forall|i: int| 0 <= i < p.len() implies is_digit(#[trigger] p[i]) by {
                if i < q.len() {
                    assert(p[i] == lead(q)[i]);
                }
            }
        } else {
            assert(q.take(lead(q).len() as int) =~= p.take(lead(q).len() as int));
        }
    }
}

/// The digits `p` starts with.
fn lead_digits(p: &Vec<char>) -> (r: Vec<char>)
    ensures
        r@ == lead(p@),
        all_digits(r@),
{
    let mut r: Vec<char> = Vec::new();
    assert(p@.take(0) =~= Seq::<char>::empty());
    for i in 0..p.len()
        invariant
            r@ == lead(p@.take(i as int)),
    {
        let c = p[i];
        proof {
            assert(p@.take(i + 1).drop_last() =~= p@.take(i as int));
            assert(p@.take(i + 1).last() == c);
            lemma_lead_prefix(p@.take(i as int));
        }
        if r.len() == i && '0' <= c && c <= '9' {
            r.push(c);
            proof {
                assert(r@ =~= p@.take(i + 1));
            }
        }
    }
    assert(p@.take(p@.len() as int) =~= p@);
    proof {
        lemma_lead_prefix(p@);
    }
    r
}

/// The leading digits of each dot-separated piece of `s`.
fn version_digits(s: &str) -> (r: Vec<Vec<char>>)
    ensures
        r@.len() == parts_of(s@).len(),
        forall|i: int| 0 <= i < r@.len() ==> (#[trigger] r@[i])@ == lead(parts_of(s@)[i]) && all_digits(r@[i]@),
{
    let parts = split_parts(s);
    let ghost pv = parts@.map_values(|v: Vec<char>| v@);
    let mut r: Vec<Vec<char>> = Vec::new();
    for i in 0..parts.len()
        invariant
            pv == parts@.map_values(|v: Vec<char>| v@),
            pv == parts_of(s@),
            r@.len() == i,
            forall|j: int| 0 <= j < i ==> (#[trigger] r@[j])@ == lead(pv[j]) && all_digits(r@[j]@),
    {
        assert(pv[i as int] == parts@[i as int]@);
        r.push(lead_digits(&parts[i]));
    }
    r
}

/// Whether `latest` is a newer version than `current` (see `is_newer`).
pub fn newer_version(latest: &str, current: &str) -> (r: bool)
    ensures
        r == is_newer(latest@, current@),
{
    let a = version_digits(latest);
    let b = version_digits(current);
    let ghost va = version_values(latest@);
    let ghost vb = version_values(current@);
    let n = if a.len() >= b.len() {
        a.len()
    } else {
        b.len()
    };
    let empty: Vec<char> = Vec::new();
    let mut i: usize = 0;
    while i < n
        invariant
            va == version_values(latest@),
            vb == version_values(current@),
            va.len() == a@.len(),
            vb.len() == b@.len(),
            n == max_len(a@.len() as nat, b@.len() as nat),
            i <= n,
            empty@.len() == 0,
            forall|j: int| 0 <= j < a@.len() ==> (#[trigger] a@[j])@ == lead(parts_of(latest@)[j]) && all_digits(a@[j]@),
            forall|j: int| 0 <= j < b@.len() ==> (#[trigger] b@[j])@ == lead(parts_of(current@)[j]) && all_digits(b@[j]@),
            version_order_from(va, vb, 0) == version_order_from(va, vb, i as nat),
        decreases n - i,
    {
        let x = if i < a.len() {
            &a[i]
        } else {
            &empty
        };
        let y = if i < b.len() {
            &b[i]
        } else {
            &empty
        };
        proof {
            if i < a@.len() {
                assert(part_at(va, i as int) == dval(x@));
            } else {
                assert(part_at(va, i as int) == 0);
                assert(dval(x@) == 0);
            }
            if i < b@.len() {
                assert(part_at(vb, i as int) == dval(y@));
            } else {
                assert(part_at(vb, i as int) == 0);
                assert(dval(y@) == 0);
            }
            assert(all_digits(x@) && all_digits(y@));
        }
        let o = digits_order(x, y);
        if o != 0 {
            return o > 0;
        }
        i = i + 1;
    }
    false
}

/// The version to announce, given the latest published one (see `notice_for`).
pub fn update_notice(latest: Option<String>, current: &str) -> (r: Option<String>)
    ensures
        match r {
            Some(v) => notice_for(
                match latest {
                    Some(l) => Some(l@),
                    None => None,
                },
                current@,
            ) == Some(v@),
            None => notice_for(
                match latest {
                    Some(l) => Some(l@),
                    None => None,
                },
                current@,
            ).is_none(),
        },
{
    match latest {
        Some(l) => if newer_version(l.as_str(), current) {
            Some(l)
        } else {
            None
        },
        None => None,
    }
}

/// The version to announce after the crates.io answer `body` for the running
/// version `current`.
pub fn check_update(body: &str, current: &str) -> (r: Option<String>)
    ensures
        match r {
            Some(v) => notice_for(json_newest_version(body@), current@) == Some(v@),
            None => notice_for(json_newest_version(body@), current@).is_none(),
        },
{
    let latest = newest_version_in(body);
    update_notice(latest, current)
}

} // verus!
