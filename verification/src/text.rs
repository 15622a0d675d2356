//! Character-level text helpers: conversions between `String` and `Vec<char>`,
//! comparison, substring search, decimal rendering, trimming and line splitting.
use vstd::prelude::*;

verus! {

/// The characters of `s`, in order.
pub fn chars_of(s: &str) -> (r: Vec<char>)
    ensures
        r@ == s@,
{
    let mut r: Vec<char> = Vec::new();
    for c in it: s.chars()
        invariant
            r@ == it.seq().take(it.index() as int),
            it.seq() == s@,
    {
        r.push(c);
    }
    r
}

/// Appends one character to a string.
/// Trusted: `String::push` appends exactly the given character.
#[verifier::external_body]
pub(crate) fn push_char(s: &mut String, c: char)
    ensures
        final(s)@ == old(s)@.push(c),
{
    s.push(c)
}

/// The string made of the characters of `cs`.
pub fn string_of(cs: &Vec<char>) -> (r: String)
    ensures
        r@ == cs@,
{
    let mut r = String::new();
    for i in 0..cs.len()
        invariant
            r@ == cs@.take(i as int),
    {
        push_char(&mut r, cs[i]);
        assert(cs@.take(i as int).push(cs@[i as int]) =~= cs@.take(i + 1));
    }
    assert(cs@.take(cs@.len() as int) =~= cs@);
    r
}

/// A fresh string holding the characters of `s`.
pub fn to_owned_string(s: &str) -> (r: String)
    ensures
        r@ == s@,
{
    let cs = chars_of(s);
    string_of(&cs)
}

/// `a` followed by `b`.
pub fn concat(a: &str, b: &str) -> (r: String)
    ensures
        r@ == a@ + b@,
{
    let mut cs = chars_of(a);
    let bs = chars_of(b);
    for i in 0..bs.len()
        invariant
            cs@ == a@ + bs@.take(i as int),
            bs@ == b@,
    {
        cs.push(bs[i]);
        assert(a@ + bs@.take(i + 1) =~= (a@ + bs@.take(i as int)).push(bs@[i as int]));
    }
    assert(bs@.take(bs@.len() as int) =~= bs@);
    string_of(&cs)
}

/// Whether two strings hold the same characters.
pub fn str_eq(a: &str, b: &str) -> (r: bool)
    ensures
        r == (a@ == b@),
{
    let x = chars_of(a);
    let y = chars_of(b);
    chars_eq(&x, &y)
}

/// Whether two character vectors are equal.
pub fn chars_eq(x: &Vec<char>, y: &Vec<char>) -> (r: bool)
    ensures
        r == (x@ == y@),
{
    if x.len() != y.len() {
        return false;
    }
    for i in 0..x.len()
        invariant
            x@.len() == y@.len(),
            forall|j: int| 0 <= j < i ==> x@[j] == y@[j],
    {
        if x[i] != y[i] {
            return false;
        }
    }
    assert(x@ =~= y@);
    true
}

/// The name Unicode lowercasing gives to a string (`str::to_lowercase`).
pub uninterp spec fn lowercase_of(s: Seq<char>) -> Seq<char>;

/// Trusted: `str::to_lowercase` returns the Unicode lowercase mapping of `s`,
/// which depends on `s` alone; nothing more is claimed of it.
#[verifier::external_body]
pub(crate) fn to_lowercase(s: &str) -> (r: String)
    ensures
        r@ == lowercase_of(s@),
{
    s.to_lowercase()
}

/// `t` occurs in `s` as a contiguous run starting at `i`.
pub open spec fn occurs_at(s: Seq<char>, t: Seq<char>, i: int) -> bool {
    0 <= i && i + t.len() <= s.len() && s.subrange(i, i + t.len() as int) == t
}

/// `t` occurs somewhere in `s` (the empty string occurs in every string).
pub open spec fn contains_seq(s: Seq<char>, t: Seq<char>) -> bool {
    exists|i: int| occurs_at(s, t, i)
}

/// Whether `t` occurs at position `i` of `s`.
fn occurs_at_exec(s: &Vec<char>, t: &Vec<char>, i: usize) -> (r: bool)
    requires
        i + t@.len() <= s@.len(),
    ensures
        r == occurs_at(s@, t@, i as int),
{
    let tl = t.len();
    let sl = s.len();
    for k in 0..tl
        invariant
            tl == t@.len(),
            sl == s@.len(),
            i + t@.len() <= s@.len(),
            forall|j: int| 0 <= j < k ==> s@[i + j] == t@[j],
    {
        assert(i + k < s@.len());
        if s[i + k] != t[k] {
            assert(s@.subrange(i as int, i + t@.len())[k as int] != t@[k as int]);
            return false;
        }
    }
    assert(s@.subrange(i as int, i + t@.len()) =~= t@);
    true
}

/// First position at which the non-empty `t` occurs in `s`, if any.
fn first_occurrence_exec(s: &Vec<char>, t: &Vec<char>) -> (r: Option<usize>)
    requires
        t@.len() > 0,
    ensures
        r.is_none() ==> forall|j: int| !occurs_at(s@, t@, j),
        r.is_some() ==> occurs_at(s@, t@, r.unwrap() as int) && forall|j: int|
            0 <= j < r.unwrap() ==> !occurs_at(s@, t@, j),
{
    if t.len() > s.len() {
        assert forall|j: int| !occurs_at(s@, t@, j) by {}
        return None;
    }
    let sl = s.len();
    let last = sl - t.len();
    let mut i: usize = 0;
    while i <= last
        invariant
            sl == s@.len(),
            last + t@.len() == s@.len(),
            t@.len() > 0,
            i <= last + 1,
            forall|j: int| 0 <= j < i ==> !occurs_at(s@, t@, j),
        decreases last + 1 - i,
    {
        if occurs_at_exec(s, t, i) {
            return Some(i);
        }
        i = i + 1;
    }
    assert forall|j: int| !occurs_at(s@, t@, j) by {
        if 0 <= j && j + t@.len() <= s@.len() {
            assert(j < i);
        }
    }
    None
}

/// Whether `t` occurs in `s`.
pub fn contains_chars(s: &Vec<char>, t: &Vec<char>) -> (r: bool)
    ensures
        r == contains_seq(s@, t@),
{
    if t.len() == 0 {
        assert(occurs_at(s@, t@, 0)) by {
            assert(s@.subrange(0, 0) =~= t@);
        }
        return true;
    }
    match first_occurrence_exec(s, t) {
        Some(i) => {
            assert(occurs_at(s@, t@, i as int));
            true
        },
        None => false,
    }
}

/// Whether the string `s` contains the string `t`.
pub fn str_contains(s: &str, t: &str) -> (r: bool)
    ensures
        r == contains_seq(s@, t@),
{
    let x = chars_of(s);
    let y = chars_of(t);
    contains_chars(&x, &y)
}

/// `p` is a prefix of `s`.
pub open spec fn has_prefix(s: Seq<char>, p: Seq<char>) -> bool {
    p.len() <= s.len() && s.take(p.len() as int) == p
}

/// The character of the decimal digit `d`.
pub open spec fn digit_char(d: nat) -> char {
    (48 + d) as char
}

/// Decimal rendering of `n`, as `Display` prints an unsigned integer.
pub open spec fn decimal(n: nat) -> Seq<char>
    decreases n,
{
    if n < 10 {
        seq![digit_char(n)]
    } else {
        decimal(n / 10).push(digit_char(n % 10))
    }
}

fn digit(d: u64) -> (c: char)
    requires
        d < 10,
    ensures
        c == digit_char(d as nat),
{
    let b: u8 = 48 + (d as u8);
    b as char
}

/// Decimal rendering of `n`.
pub fn decimal_string(n: u64) -> (r: String)
    ensures
        r@ == decimal(n as nat),
{
    let mut acc: Vec<char> = Vec::new();
    let mut m: u64 = n;
    while m >= 10
        invariant
            decimal(n as nat) == decimal(m as nat) + acc@,
        decreases m,
    {
        let d = digit(m % 10);
        let ghost old_acc = acc@;
        acc.insert(0, d);
        assert(decimal(m as nat) == decimal((m / 10) as nat).push(digit_char((m % 10) as nat)));
        assert(decimal(m as nat) + old_acc =~= decimal((m / 10) as nat) + acc@);
        m = m / 10;
    }
    let ghost old_acc = acc@;
    acc.insert(0, digit(m));
    assert(decimal(m as nat) + old_acc =~= acc@);
    string_of(&acc)
}

/// `s` padded on the left with `'0'` up to `width` characters, as `{:0w}` does.
pub open spec fn zero_padded(s: Seq<char>, width: nat) -> Seq<char> {
    if s.len() >= width {
        s
    } else {
        Seq::new((width - s.len()) as nat, |i: int| '0') + s
    }
}

/// Decimal rendering of `n`, padded with zeros to `width` characters.
pub fn decimal_padded(n: u64, width: usize) -> (r: String)
    ensures
        r@ == zero_padded(decimal(n as nat), width as nat),
{
    let d = decimal_string(n);
    let ds = chars_of(d.as_str());
    if ds.len() >= width {
        return d;
    }
    let pad = width - ds.len();
    let mut cs: Vec<char> = Vec::new();
    for i in 0..pad
        invariant
            cs@ == Seq::new(i as nat, |k: int| '0'),
    {
        cs.push('0');
        assert(cs@ =~= Seq::new((i + 1) as nat, |k: int| '0'));
    }
    for i in 0..ds.len()
        invariant
            cs@ == Seq::new(pad as nat, |k: int| '0') + ds@.take(i as int),
    {
        cs.push(ds[i]);
        assert(Seq::new(pad as nat, |k: int| '0') + ds@.take(i + 1) =~= (Seq::new(
            pad as nat,
            |k: int| '0',
        ) + ds@.take(i as int)).push(ds@[i as int]));
    }
    assert(ds@.take(ds@.len() as int) =~= ds@);
    string_of(&cs)
}

/// Every character of a decimal rendering is an ASCII digit.
pub proof fn lemma_decimal_digits(n: nat)
    ensures
        decimal(n).len() >= 1,
        forall|i: int| 0 <= i < decimal(n).len() ==> '0' <= #[trigger] decimal(n)[i] <= '9',
        n >= 10 ==> decimal(n).len() >= 2,
    decreases n,
{
    if n >= 10 {
        lemma_decimal_digits(n / 10);
    }
}

/// Different numbers have different decimal renderings.
#[verifier::spinoff_prover]
pub proof fn lemma_decimal_injective(a: nat, b: nat)
    requires
        decimal(a) == decimal(b),
    ensures
        a == b,
    decreases a,
{
    lemma_decimal_digits(a);
    lemma_decimal_digits(b);
    if a < 10 && b < 10 {
        assert(decimal(a) == seq![digit_char(a)]);
        assert(decimal(b) == seq![digit_char(b)]);
        assert(seq![digit_char(a)][0] == digit_char(a));
        assert(seq![digit_char(b)][0] == digit_char(b));
        assert(decimal(a)[0] == decimal(b)[0]);
        assert(digit_char(a) == digit_char(b));
        assert(digit_char(a) as int == 48 + a);
        assert(digit_char(b) as int == 48 + b);
        assert(a == b);
    } else if a >= 10 && b >= 10 {
        let da = digit_char(a % 10);
        let db = digit_char(b % 10);
        assert(decimal(a) == decimal(a / 10).push(da));
        assert(decimal(b) == decimal(b / 10).push(db));
        assert(decimal(a / 10).len() == decimal(b / 10).len());
        assert(decimal(a)[decimal(a / 10).len() as int] == da);
        assert(decimal(b)[decimal(b / 10).len() as int] == db);
        assert(da == db);
        assert(da as int == 48 + a % 10);
        assert(db as int == 48 + b % 10);
        assert(a % 10 == b % 10);
        assert(decimal(a).drop_last() =~= decimal(a / 10));
        assert(decimal(b).drop_last() =~= decimal(b / 10));
        lemma_decimal_injective(a / 10, b / 10);
        assert(a == 10 * (a / 10) + a % 10);
        assert(b == 10 * (b / 10) + b % 10);
    } else {
        assert(decimal(a).len() != decimal(b).len());
        assert(false);
    }
}

/// The characters for which `char::is_whitespace` holds: Unicode `White_Space`.
pub open spec fn is_white_space(c: char) -> bool {
    let u = c as u32;
    (0x9 <= u <= 0xd) || u == 0x20 || u == 0x85 || u == 0xa0 || u == 0x1680 || (0x2000 <= u
        <= 0x200a) || u == 0x2028 || u == 0x2029 || u == 0x202f || u == 0x205f || u == 0x3000
}

fn white_space(c: char) -> (r: bool)
    ensures
        r == is_white_space(c),
{
    let u = c as u32;
    (0x9 <= u && u <= 0xd) || u == 0x20 || u == 0x85 || u == 0xa0 || u == 0x1680 || (0x2000 <= u
        && u <= 0x200a) || u == 0x2028 || u == 0x2029 || u == 0x202f || u == 0x205f || u == 0x3000
}

/// Number of leading white-space characters of `s`.
pub open spec fn leading_ws(s: Seq<char>) -> nat
    decreases s.len(),
{
    if s.len() > 0 && is_white_space(s[0]) {
        1 + leading_ws(s.drop_first())
    } else {
        0
    }
}

/// Number of trailing white-space characters of `s`.
pub open spec fn trailing_ws(s: Seq<char>) -> nat
    decreases s.len(),
{
    if s.len() > 0 && is_white_space(s.last()) {
        1 + trailing_ws(s.drop_last())
    } else {
        0
    }
}

/// `s` with leading and trailing white space removed, as `str::trim` does.
pub open spec fn trimmed(s: Seq<char>) -> Seq<char> {
    let a = s.skip(leading_ws(s) as int);
    a.take(a.len() - trailing_ws(a))
}

proof fn lemma_leading_ws_bound(s: Seq<char>)
    ensures
        leading_ws(s) <= s.len(),
    decreases s.len(),
{
    if s.len() > 0 && is_white_space(s[0]) {
        lemma_leading_ws_bound(s.drop_first());
    }
}

proof fn lemma_trailing_ws_bound(s: Seq<char>)
    ensures
        trailing_ws(s) <= s.len(),
    decreases s.len(),
{
    if s.len() > 0 && is_white_space(s.last()) {
        lemma_trailing_ws_bound(s.drop_last());
    }
}

/// `s` without leading and trailing white space.
pub fn trim(s: &Vec<char>) -> (r: Vec<char>)
    ensures
        r@ == trimmed(s@),
{
    let mut start: usize = 0;
    assert(s@.skip(0) =~= s@);
    while start < s.len() && white_space(s[start])
        invariant
            start <= s@.len(),
            leading_ws(s@) == start + leading_ws(s@.skip(start as int)),
        decreases s@.len() - start,
    {
        assert(s@.skip(start as int).drop_first() =~= s@.skip(start + 1));
        start = start + 1;
    }
    assert(leading_ws(s@.skip(start as int)) == 0);
    let ghost a = s@.skip(start as int);
    let mut end: usize = s.len();
    assert(a.take(end - start) =~= a);
    while end > start && white_space(s[end - 1])
        invariant
            start <= end <= s@.len(),
            a == s@.skip(start as int),
            trailing_ws(a) == (s@.len() - end) + trailing_ws(a.take(end - start)),
        decreases end,
    {
        assert(a.take(end - start).drop_last() =~= a.take(end - 1 - start));
        end = end - 1;
    }
    assert(trailing_ws(a.take(end - start)) == 0);
    let mut r: Vec<char> = Vec::new();
    let mut i = start;
    while i < end
        invariant
            start <= i <= end <= s@.len(),
            r@ == s@.subrange(start as int, i as int),
        decreases end - i,
    {
        r.push(s[i]);
        assert(s@.subrange(start as int, i + 1) =~= s@.subrange(start as int, i as int).push(
            s@[i as int],
        ));
        i = i + 1;
    }
    assert(r@ =~= trimmed(s@));
    r
}

/// `s` with every leading repetition of the non-empty `p` removed,
/// as `str::trim_start_matches` does with a string pattern.
pub open spec fn strip_all_prefix(s: Seq<char>, p: Seq<char>) -> Seq<char>
    decreases s.len(),
{
    if p.len() > 0 && has_prefix(s, p) {
        strip_all_prefix(s.skip(p.len() as int), p)
    } else {
        s
    }
}

/// `s` with every leading repetition of `p` removed.
pub fn strip_all_prefix_exec(s: &Vec<char>, p: &Vec<char>) -> (r: Vec<char>)
    ensures
        r@ == strip_all_prefix(s@, p@),
{
    if p.len() == 0 {
        return s.clone();
    }
    let mut start: usize = 0;
    assert(s@.skip(0) =~= s@);
    while p.len() <= s.len() - start && occurs_at_exec(s, p, start)
        invariant
            start <= s@.len(),
            p@.len() > 0,
            strip_all_prefix(s@, p@) == strip_all_prefix(s@.skip(start as int), p@),
        decreases s@.len() - start,
    {
        assert(s@.subrange(start as int, start + p@.len()) =~= s@.skip(start as int).take(
            p@.len() as int,
        ));
        assert(s@.skip(start as int).skip(p@.len() as int) =~= s@.skip(start + p@.len()));
        start = start + p.len();
    }
    if p.len() <= s.len() - start {
        assert(s@.subrange(start as int, start + p@.len()) =~= s@.skip(start as int).take(
            p@.len() as int,
        ));
    }
    let mut r: Vec<char> = Vec::new();
    let mut i = start;
    while i < s.len()
        invariant
            start <= i <= s@.len(),
            r@ == s@.subrange(start as int, i as int),
        decreases s@.len() - i,
    {
        r.push(s[i]);
        assert(s@.subrange(start as int, i + 1) =~= s@.subrange(start as int, i as int).push(
            s@[i as int],
        ));
        i = i + 1;
    }
    assert(r@ =~= s@.skip(start as int));
    r
}

/// Index of the first occurrence of the non-empty `t` in `s`, if any.
pub open spec fn first_occurrence(s: Seq<char>, t: Seq<char>) -> Option<int> {
    if contains_seq(s, t) {
        Some(choose|i: int| occurs_at(s, t, i) && forall|j: int| 0 <= j < i ==> !occurs_at(s, t, j))
    } else {
        None
    }
}

/// The part of `s` before the first occurrence of `t`, or all of `s`:
/// the first item of `str::split` with a string pattern.
pub open spec fn before_first(s: Seq<char>, t: Seq<char>) -> Seq<char> {
    match first_occurrence(s, t) {
        Some(i) => s.take(i),
        None => s,
    }
}

/// The part of `s` before the first occurrence of the non-empty `t`.
pub fn before_first_exec(s: &Vec<char>, t: &Vec<char>) -> (r: Vec<char>)
    requires
        t@.len() > 0,
    ensures
        r@ == before_first(s@, t@),
{
    match first_occurrence_exec(s, t) {
        Some(k) => {
            let ghost w = choose|i: int|
                occurs_at(s@, t@, i) && forall|j: int| 0 <= j < i ==> !occurs_at(s@, t@, j);
            assert(occurs_at(s@, t@, k as int));
            assert(w == k) by {
                if w < k {
                } else if w > k {
                }
            }
            let mut r: Vec<char> = Vec::new();
            for i in 0..k
                invariant
                    k <= s@.len(),
                    r@ == s@.take(i as int),
            {
                r.push(s[i]);
                assert(s@.take(i + 1) =~= s@.take(i as int).push(s@[i as int]));
            }
            r
        },
        None => s.clone(),
    }
}

/// Position of the first `'\n'` in `s`, or `-1`.
pub open spec fn first_newline(s: Seq<char>) -> int
    decreases s.len(),
{
    if s.len() == 0 {
        -1
    } else if s[0] == '\n' {
        0
    } else {
        let r = first_newline(s.drop_first());
        if r < 0 {
            -1
        } else {
            r + 1
        }
    }
}

/// A line with one trailing carriage return removed.
pub open spec fn strip_cr(l: Seq<char>) -> Seq<char> {
    if l.len() > 0 && l.last() == '\r' {
        l.drop_last()
    } else {
        l
    }
}

/// The lines of `s` as `str::lines` yields them: split at `'\n'`, each line
/// ended by `'\n'` losing one `'\r'` before it, and no empty line after a final `'\n'`.
pub open spec fn lines_of(s: Seq<char>) -> Seq<Seq<char>>
    decreases s.len(),
{
    if s.len() == 0 {
        seq![]
    } else {
        let i = first_newline(s);
        if i < 0 {
            seq![s]
        } else {
            proof {
                lemma_first_newline_bound(s);
            }
            seq![strip_cr(s.take(i))] + lines_of(s.skip(i + 1))
        }
    }
}

pub proof fn lemma_first_newline_bound(s: Seq<char>)
    ensures
        first_newline(s) < s.len(),
        first_newline(s) >= 0 ==> s[first_newline(s)] == '\n',
    decreases s.len(),
{
    if s.len() > 0 && s[0] != '\n' {
        lemma_first_newline_bound(s.drop_first());
    }
}

proof fn lemma_first_newline_after(cur: Seq<char>, rest: Seq<char>)
    requires
        forall|j: int| 0 <= j < cur.len() ==> cur[j] != '\n',
    ensures
        rest.len() > 0 && rest[0] == '\n' ==> first_newline(cur + rest) == cur.len(),
        first_newline(rest) < 0 ==> first_newline(cur + rest) < 0,
    decreases cur.len(),
{
    if cur.len() > 0 {
        lemma_first_newline_after(cur.drop_first(), rest);
        assert((cur + rest).drop_first() =~= cur.drop_first() + rest);
    }
}

/// The lines of `s`.
pub fn lines(s: &str) -> (r: Vec<String>)
    ensures
        r@.map_values(|l: String| l@) == lines_of(s@),
{
    let cs = chars_of(s);
    let mut out: Vec<String> = Vec::new();
    let mut cur: Vec<char> = Vec::new();
    let mut k: usize = 0;
    proof {
        assert(cur@ + cs@.skip(0) =~= s@);
        assert(out@.map_values(|l: String| l@) + lines_of(s@) =~= lines_of(s@));
    }
    while k < cs.len()
        invariant
            k <= cs@.len(),
            cs@ == s@,
            forall|j: int| 0 <= j < cur@.len() ==> cur@[j] != '\n',
            lines_of(s@) == out@.map_values(|l: String| l@) + lines_of(cur@ + cs@.skip(k as int)),
        decreases cs@.len() - k,
    {
        let c = cs[k];
        if c == '\n' {
            proof {
                lemma_first_newline_after(cur@, cs@.skip(k as int));
                let t = cur@ + cs@.skip(k as int);
                assert(t.take(cur@.len() as int) =~= cur@);
                assert(t.skip(cur@.len() as int + 1) =~= cs@.skip(k as int + 1));
            }
            let mut line = cur.clone();
            if line.len() > 0 && line[line.len() - 1] == '\r' {
                line.pop();
            }
            let ls = string_of(&line);
            let ghost old_out = out@;
            out.push(ls);
            proof {
                assert(out@.map_values(|l: String| l@) =~= old_out.map_values(|l: String| l@).push(
                    strip_cr(cur@),
                ));
                assert(lines_of(cur@ + cs@.skip(k as int)) =~= seq![strip_cr(cur@)] + lines_of(
                    Seq::<char>::empty() + cs@.skip(k + 1),
                ));
                assert(Seq::<char>::empty() + cs@.skip(k + 1) =~= cs@.skip(k + 1));
            }
            cur = Vec::new();
        } else {
            assert(cur@ + cs@.skip(k as int) =~= cur@.push(c) + cs@.skip(k + 1));
            cur.push(c);
        }
        k = k + 1;
    }
    proof {
        assert(cur@ + cs@.skip(k as int) =~= cur@);
    }
    if cur.len() > 0 {
        proof {
            lemma_first_newline_after(cur@, Seq::<char>::empty());
            assert(cur@ + Seq::<char>::empty() =~= cur@);
        }
        let ls = string_of(&cur);
        let ghost old_out = out@;
        out.push(ls);
        assert(out@.map_values(|l: String| l@) =~= old_out.map_values(|l: String| l@) + seq![
            cur@,
        ]);
    } else {
        assert(out@.map_values(|l: String| l@) + lines_of(cur@) =~= out@.map_values(
            |l: String| l@,
        ));
    }
    out
}

} // verus!
