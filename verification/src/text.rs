//! Character and string helpers shared by the compiler passes.
//!
//! Text is modelled as `Seq<char>`: a `String` or `&str` by its view, and the
//! helpers below say what they compute over that model.
use vstd::prelude::*;

verus! {

// ---------------------------------------------------------------------------
// Wrappers around std
// ---------------------------------------------------------------------------

/// The characters of `s`, in order. Calls `str::chars` and collects them;
/// the contract claims the collected characters are exactly the view of `s`.
#[verifier::external_body]
pub fn chars_of(s: &str) -> (v: Vec<char>)
    ensures
        v@ == s@,
{
    s.chars().collect()
}

/// Appends `t` to `s`. Calls `String::push_str`; the contract claims the new
/// text is the old text followed by `t`.
#[verifier::external_body]
pub fn push_str(s: &mut String, t: &str)
    ensures
        final(s)@ == old(s)@ + t@,
{
    s.push_str(t)
}

/// Appends one character to `s`. Calls `String::push`; the contract claims
/// the new text is the old text followed by `c`.
#[verifier::external_body]
pub fn push_char(s: &mut String, c: char)
    ensures
        final(s)@ == old(s)@.push(c),
{
    s.push(c)
}

/// What `char::is_alphabetic` answers for `c` (Unicode Alphabetic property).
pub uninterp spec fn alphabetic(c: char) -> bool;

/// What `char::is_numeric` answers for `c` (Unicode Nd, Nl, No).
pub uninterp spec fn numeric(c: char) -> bool;

/// What `char::is_uppercase` answers for `c` (Unicode Uppercase property).
pub uninterp spec fn uppercase(c: char) -> bool;

/// What `char::is_whitespace` answers for `c`: whether it has the Unicode
/// White_Space property, whose code points are these.
pub open spec fn whitespace(c: char) -> bool {
    ||| '\u{9}' <= c <= '\u{d}'
    ||| c == ' '
    ||| c == '\u{85}'
    ||| c == '\u{a0}'
    ||| c == '\u{1680}'
    ||| '\u{2000}' <= c <= '\u{200a}'
    ||| c == '\u{2028}'
    ||| c == '\u{2029}'
    ||| c == '\u{202f}'
    ||| c == '\u{205f}'
    ||| c == '\u{3000}'
}

/// Calls `char::is_alphabetic`. The contract names the answer and states
/// it for ASCII, where the Unicode Alphabetic property holds of the
/// letters `a`-`z` and `A`-`Z` alone.
#[verifier::external_body]
pub fn is_alphabetic(c: char) -> (b: bool)
    ensures
        b == alphabetic(c),
        c <= '\u{7f}' ==> (b == ('a' <= c <= 'z' || 'A' <= c <= 'Z')),
{
    c.is_alphabetic()
}

/// Calls `char::is_numeric`. The contract names the answer and states it
/// for ASCII, where the digits `0`-`9` alone are numeric.
#[verifier::external_body]
pub fn is_numeric(c: char) -> (b: bool)
    ensures
        b == numeric(c),
        c <= '\u{7f}' ==> (b == ('0' <= c <= '9')),
{
    c.is_numeric()
}

/// Calls `char::is_uppercase`. The contract names the answer and states it
/// for ASCII, where `A`-`Z` alone are uppercase.
#[verifier::external_body]
pub fn is_uppercase(c: char) -> (b: bool)
    ensures
        b == uppercase(c),
        c <= '\u{7f}' ==> (b == ('A' <= c <= 'Z')),
{
    c.is_uppercase()
}

/// Whether `c` has the Unicode White_Space property, as
/// `char::is_whitespace` answers.
pub fn is_whitespace(c: char) -> (b: bool)
    ensures
        b == whitespace(c),
{
    ('\u{9}' <= c && c <= '\u{d}') || c == ' ' || c == '\u{85}' || c == '\u{a0}' || c == '\u{1680}' || (
    '\u{2000}' <= c && c <= '\u{200a}') || c == '\u{2028}' || c == '\u{2029}' || c == '\u{202f}' || c == '\u{205f}'
        || c == '\u{3000}'
}

/// `char::is_alphanumeric` is alphabetic or numeric, by its documentation.
pub open spec fn alphanumeric(c: char) -> bool {
    alphabetic(c) || numeric(c)
}

pub fn is_alphanumeric(c: char) -> (b: bool)
    ensures
        b == alphanumeric(c),
{
    is_alphabetic(c) || is_numeric(c)
}

// ---------------------------------------------------------------------------
// Building strings
// ---------------------------------------------------------------------------

/// A `String` holding exactly the characters `v`.
pub fn string_from(v: &[char]) -> (s: String)
    ensures
        s@ == v@,
{
    let mut s = String::new();
    let mut i: usize = 0;
    while i < v.len()
        invariant
            i <= v.len(),
            s@ == v@.take(i as int),
        decreases v.len() - i,
    {
        push_char(&mut s, v[i]);
        assert(v@.take(i + 1) =~= v@.take(i as int).push(v@[i as int]));
        i += 1;
    }
    assert(v@.take(v.len() as int) =~= v@);
    s
}

/// Appends the characters `v` to `s`.
pub fn push_chars(s: &mut String, v: &[char])
    ensures
        final(s)@ == old(s)@ + v@,
{
    let ghost start = s@;
    let mut i: usize = 0;
    while i < v.len()
        invariant
            i <= v.len(),
            s@ == start + v@.take(i as int),
        decreases v.len() - i,
    {
        push_char(s, v[i]);
        assert(v@.take(i + 1) =~= v@.take(i as int).push(v@[i as int]));
        i += 1;
    }
    assert(v@.take(v.len() as int) =~= v@);
}

/// A new `String` holding the text of `t`.
pub fn owned(t: &str) -> (s: String)
    ensures
        s@ == t@,
{
    let mut s = String::new();
    push_str(&mut s, t);
    s
}

/// Appends the text of `t` to `s`.
pub fn push_string(s: &mut String, t: &String)
    ensures
        final(s)@ == old(s)@ + t@,
{
    push_str(s, t.as_str());
}

/// The decimal digit character for `d < 10`.
pub open spec fn digit_char(d: int) -> char {
    if d == 0 { '0' } else if d == 1 { '1' } else if d == 2 { '2' } else if d == 3 { '3' }
    else if d == 4 { '4' } else if d == 5 { '5' } else if d == 6 { '6' } else if d == 7 { '7' }
    else if d == 8 { '8' } else { '9' }
}

/// The decimal text of `n`, as `Display` writes an unsigned integer.
pub open spec fn decimal(n: nat) -> Seq<char>
    decreases n,
{
    if n < 10 {
        seq![digit_char(n as int)]
    } else {
        decimal(n / 10).push(digit_char((n % 10) as int))
    }
}

fn digit(d: u128) -> (c: char)
    requires
        d < 10,
    ensures
        c == digit_char(d as int),
{
    if d == 0 { '0' } else if d == 1 { '1' } else if d == 2 { '2' } else if d == 3 { '3' }
    else if d == 4 { '4' } else if d == 5 { '5' } else if d == 6 { '6' } else if d == 7 { '7' }
    else if d == 8 { '8' } else { '9' }
}

/// Appends the decimal text of `n` to `s`.
pub fn push_decimal(s: &mut String, n: u128)
    ensures
        final(s)@ == old(s)@ + decimal(n as nat),
    decreases n,
{
    if n < 10 {
        let c = digit(n);
        push_char(s, c);
        assert(decimal(n as nat) =~= seq![c]);
    } else {
        push_decimal(s, n / 10);
        let c = digit(n % 10);
        push_char(s, c);
    }
}

/// The decimal text of `n`.
pub fn decimal_string(n: u128) -> (s: String)
    ensures
        s@ == decimal(n as nat),
{
    let mut s = String::new();
    push_decimal(&mut s, n);
    s
}

// ---------------------------------------------------------------------------
// Searching
// ---------------------------------------------------------------------------

/// `p` is a prefix of `s`.
pub open spec fn starts_with(s: Seq<char>, p: Seq<char>) -> bool {
    p.len() <= s.len() && s.take(p.len() as int) == p
}

/// `p` is a suffix of `s`.
pub open spec fn ends_with(s: Seq<char>, p: Seq<char>) -> bool {
    p.len() <= s.len() && s.skip(s.len() - p.len()) == p
}

/// `p` occurs in `s` starting at `i`.
pub open spec fn occurs_at(s: Seq<char>, p: Seq<char>, i: int) -> bool {
    0 <= i && i + p.len() <= s.len() && s.subrange(i, i + p.len()) == p
}

/// `p` occurs somewhere in `s` (`str::contains`).
pub open spec fn contains(s: Seq<char>, p: Seq<char>) -> bool {
    exists|i: int| occurs_at(s, p, i)
}

pub fn is_prefix(s: &[char], p: &[char]) -> (b: bool)
    ensures
        b == starts_with(s@, p@),
{
    if p.len() > s.len() {
        return false;
    }
    let mut i: usize = 0;
    while i < p.len()
        invariant
            i <= p.len() <= s.len(),
            forall|j: int| 0 <= j < i ==> s@[j] == p@[j],
        decreases p.len() - i,
    {
        if s[i] != p[i] {
            assert(s@.take(p.len() as int)[i as int] != p@[i as int]);
            return false;
        }
        i += 1;
    }
    assert(s@.take(p.len() as int) =~= p@);
    true
}

/// Whether `p` occurs in `s` starting at `at`.
pub fn matches_at(s: &[char], p: &[char], at: usize) -> (b: bool)
    ensures
        b == occurs_at(s@, p@, at as int),
{
    if at > s.len() || p.len() > s.len() - at {
        return false;
    }
    let mut i: usize = 0;
    while i < p.len()
        invariant
            i <= p.len(),
            at + p.len() <= s.len(),
            forall|j: int| 0 <= j < i ==> s@[at + j] == p@[j],
        decreases p.len() - i,
    {
        if s[at + i] != p[i] {
            assert(s@.subrange(at as int, at + p.len())[i as int] != p@[i as int]);
            return false;
        }
        i += 1;
    }
    assert(s@.subrange(at as int, at + p.len()) =~= p@);
    true
}

pub fn is_suffix(s: &[char], p: &[char]) -> (b: bool)
    ensures
        b == ends_with(s@, p@),
{
    if p.len() > s.len() {
        return false;
    }
    let b = matches_at(s, p, s.len() - p.len());
    assert(s@.subrange(s.len() - p.len(), s.len() as int) =~= s@.skip(s.len() - p.len()));
    b
}

/// Whether `p` occurs anywhere in `s`.
pub fn contains_chars(s: &[char], p: &[char]) -> (b: bool)
    ensures
        b == contains(s@, p@),
{
    let mut i: usize = 0;
    loop
        invariant
            i <= s.len(),
            forall|j: int| 0 <= j < i ==> !occurs_at(s@, p@, j),
        decreases s.len() - i,
    {
        if matches_at(s, p, i) {
            return true;
        }
        if i == s.len() {
            assert forall|j: int| !occurs_at(s@, p@, j) by {
                if 0 <= j && j + p@.len() <= s@.len() {
                    assert(j <= i);
                }
            }
            return false;
        }
        i += 1;
    }
}

/// Whether the character `c` occurs in `s`.
pub fn contains_char(s: &[char], c: char) -> (b: bool)
    ensures
        b == s@.contains(c),
{
    let mut i: usize = 0;
    while i < s.len()
        invariant
            i <= s.len(),
            forall|j: int| 0 <= j < i ==> s@[j] != c,
        decreases s.len() - i,
    {
        if s[i] == c {
            return true;
        }
        i += 1;
    }
    false
}

/// Whether `a` and `b` hold the same characters.
pub fn chars_eq(a: &[char], b: &[char]) -> (r: bool)
    ensures
        r == (a@ == b@),
{
    if a.len() != b.len() {
        return false;
    }
    let mut i: usize = 0;
    while i < a.len()
        invariant
            i <= a.len() == b.len(),
            forall|j: int| 0 <= j < i ==> a@[j] == b@[j],
        decreases a.len() - i,
    {
        if a[i] != b[i] {
            return false;
        }
        i += 1;
    }
    assert(a@ =~= b@);
    true
}

/// Whether two strings hold the same text.
pub fn str_eq(a: &str, b: &str) -> (r: bool)
    ensures
        r == (a@ == b@),
{
    let x = chars_of(a);
    let y = chars_of(b);
    chars_eq(x.as_slice(), y.as_slice())
}

// ---------------------------------------------------------------------------
// Trimming, splitting, replacing
// ---------------------------------------------------------------------------

/// Number of leading whitespace characters of `s`.
pub open spec fn lead_ws(s: Seq<char>) -> nat
    decreases s.len(),
{
    if s.len() > 0 && whitespace(s[0]) {
        1 + lead_ws(s.skip(1))
    } else {
        0
    }
}

/// Number of trailing whitespace characters of `s`.
pub open spec fn trail_ws(s: Seq<char>) -> nat
    decreases s.len(),
{
    if s.len() > 0 && whitespace(s.last()) {
        1 + trail_ws(s.drop_last())
    } else {
        0
    }
}

/// `str::trim`: `s` without leading and trailing whitespace.
pub open spec fn trim(s: Seq<char>) -> Seq<char> {
    let t = s.skip(lead_ws(s) as int);
    t.take(t.len() - trail_ws(t))
}

proof fn lemma_lead_ws(s: Seq<char>)
    ensures
        lead_ws(s) <= s.len(),
        forall|j: int| 0 <= j < lead_ws(s) ==> whitespace(#[trigger] s[j]),
        lead_ws(s) < s.len() ==> !whitespace(s[lead_ws(s) as int]),
    decreases s.len(),
{
    if s.len() > 0 && whitespace(s[0]) {
        lemma_lead_ws(s.skip(1));
        assert forall|j: int| 0 <= j < lead_ws(s) implies whitespace(#[trigger] s[j]) by {
            if j > 0 {
                assert(s[j] == s.skip(1)[j - 1]);
            }
        }
        if lead_ws(s) < s.len() {
            assert(s[lead_ws(s) as int] == s.skip(1)[lead_ws(s.skip(1)) as int]);
        }
    }
}

proof fn lemma_trail_ws(s: Seq<char>)
    ensures
        trail_ws(s) <= s.len(),
        trail_ws(s) < s.len() ==> !whitespace(s[s.len() - trail_ws(s) - 1]),
    decreases s.len(),
{
    if s.len() > 0 && whitespace(s.last()) {
        lemma_trail_ws(s.drop_last());
        let d = s.drop_last();
        if trail_ws(s) < s.len() {
            assert(s[s.len() - trail_ws(s) - 1] == d[d.len() - trail_ws(d) - 1]);
        }
    }
}

/// A trimmed text is a piece of the text that neither starts nor ends
/// with whitespace.
pub proof fn lemma_trim(s: Seq<char>)
    ensures
        lead_ws(s) + trim(s).len() <= s.len(),
        forall|j: int| 0 <= j < trim(s).len() ==> #[trigger] trim(s)[j] == s[lead_ws(s) + j],
        trim(s).len() > 0 ==> !whitespace(trim(s)[0]) && !whitespace(trim(s).last()),
{
    lemma_lead_ws(s);
    let t = s.skip(lead_ws(s) as int);
    lemma_trail_ws(t);
    if trim(s).len() > 0 {
        assert(trim(s)[0] == s[lead_ws(s) as int]);
        assert(trim(s).last() == t[t.len() - trail_ws(t) - 1]);
    }
}

/// Spaces before a trimmed text are what trimming takes away.
pub proof fn lemma_trim_indented(p: Seq<char>, t: Seq<char>)
    requires
        forall|j: int| 0 <= j < p.len() ==> p[j] == ' ',
        t.len() > 0 ==> !whitespace(t[0]) && !whitespace(t.last()),
    ensures
        trim(p + t) == t,
{
    let s = p + t;
    assert forall|j: int| 0 <= j < p.len() implies whitespace(#[trigger] s[j]) by {
        assert(s[j] == p[j]);
    }
    if p.len() < s.len() {
        assert(s[p.len() as int] == t[0]);
    }
    lemma_lead_ws_exact(s, p.len() as int);
    let u = s.skip(p.len() as int);
    assert(u =~= t);
    if t.len() > 0 {
        assert(u[u.len() - 0 - 1] == t.last());
    }
    lemma_trail_ws_exact(u, 0);
    assert(u.take(u.len() - 0) =~= t);
}

proof fn lemma_lead_ws_exact(s: Seq<char>, k: int)
    requires
        0 <= k <= s.len(),
        forall|j: int| 0 <= j < k ==> whitespace(#[trigger] s[j]),
        k < s.len() ==> !whitespace(s[k]),
    ensures
        lead_ws(s) == k,
    decreases s.len(),
{
    if k > 0 {
        assert(whitespace(s[0]));
        assert forall|j: int| 0 <= j < k - 1 implies whitespace(#[trigger] s.skip(1)[j]) by {
            assert(s.skip(1)[j] == s[j + 1]);
        }
        if k - 1 < s.len() - 1 {
            assert(s.skip(1)[k - 1] == s[k]);
        }
        lemma_lead_ws_exact(s.skip(1), k - 1);
    } else if s.len() > 0 {
        assert(!whitespace(s[0]));
    }
}

proof fn lemma_trail_ws_exact(s: Seq<char>, k: int)
    requires
        0 <= k <= s.len(),
        forall|j: int| s.len() - k <= j < s.len() ==> whitespace(#[trigger] s[j]),
        k < s.len() ==> !whitespace(s[s.len() - k - 1]),
    ensures
        trail_ws(s) == k,
    decreases s.len(),
{
    if k > 0 {
        assert(whitespace(s[s.len() - 1]));
        let d = s.drop_last();
        assert forall|j: int| d.len() - (k - 1) <= j < d.len() implies whitespace(#[trigger] d[j]) by {
            assert(d[j] == s[j]);
        }
        if k - 1 < d.len() {
            assert(d[d.len() - (k - 1) - 1] == s[s.len() - k - 1]);
        }
        lemma_trail_ws_exact(d, k - 1);
    } else if s.len() > 0 {
        assert(!whitespace(s[s.len() - 1]));
    }
}

/// The bounds `(start, end)` of `trim(s[from..to])` within `s`.
pub fn trim_bounds(s: &[char], from: usize, to: usize) -> (r: (usize, usize))
    requires
        from <= to <= s.len(),
    ensures
        from <= r.0 <= r.1 <= to,
        s@.subrange(r.0 as int, r.1 as int) == trim(s@.subrange(from as int, to as int)),
{
    let ghost sub = s@.subrange(from as int, to as int);
    let mut a = from;
    while a < to && is_whitespace(s[a])
        invariant
            from <= a <= to <= s.len(),
            forall|j: int| from <= j < a ==> whitespace(#[trigger] s@[j]),
        decreases to - a,
    {
        a += 1;
    }
    proof {
        assert forall|j: int| 0 <= j < a - from implies whitespace(#[trigger] sub[j]) by {
            assert(sub[j] == s@[from + j]);
        }
        if a < to {
            assert(sub[a - from] == s@[a as int]);
        }
        lemma_lead_ws_exact(sub, a - from);
    }
    let mut b = to;
    while b > a && is_whitespace(s[b - 1])
        invariant
            from <= a <= b <= to <= s.len(),
            forall|j: int| b <= j < to ==> whitespace(#[trigger] s@[j]),
        decreases b - a,
    {
        b -= 1;
    }
    proof {
        let t = sub.skip(lead_ws(sub) as int);
        assert(t =~= s@.subrange(a as int, to as int));
        assert forall|j: int| t.len() - (to - b) <= j < t.len() implies whitespace(#[trigger] t[j]) by {
            assert(t[j] == s@[a + j]);
        }
        if to - b < t.len() {
            assert(t[t.len() - (to - b) - 1] == s@[b - 1]);
        }
        lemma_trail_ws_exact(t, to - b);
        assert(t.take(t.len() - trail_ws(t)) =~= s@.subrange(a as int, b as int));
    }
    (a, b)
}

/// `trim(s)` as a vector of characters.
pub fn trim_chars(s: &[char]) -> (r: Vec<char>)
    ensures
        r@ == trim(s@),
{
    let (a, b) = trim_bounds(s, 0, s.len());
    assert(s@.subrange(0, s.len() as int) =~= s@);
    slice_chars(s, a, b)
}

/// `s[from..to]` as a vector of characters.
pub fn slice_chars(s: &[char], from: usize, to: usize) -> (r: Vec<char>)
    requires
        from <= to <= s.len(),
    ensures
        r@ == s@.subrange(from as int, to as int),
{
    let mut r: Vec<char> = Vec::new();
    let mut i = from;
    while i < to
        invariant
            from <= i <= to <= s.len(),
            r@ == s@.subrange(from as int, i as int),
        decreases to - i,
    {
        r.push(s[i]);
        assert(s@.subrange(from as int, i + 1) =~= s@.subrange(from as int, i as int).push(s@[i as int]));
        i += 1;
    }
    r
}

/// `s[from..to]` as a `String`.
pub fn slice_string(s: &[char], from: usize, to: usize) -> (r: String)
    requires
        from <= to <= s.len(),
    ensures
        r@ == s@.subrange(from as int, to as int),
{
    let v = slice_chars(s, from, to);
    string_from(v.as_slice())
}

/// The position of the first `c` in `s` at or after `from`, if any.
pub open spec fn find_from(s: Seq<char>, c: char, from: int) -> Option<int>
    decreases s.len() - from,
{
    if from < 0 || from >= s.len() {
        None
    } else if s[from] == c {
        Some(from)
    } else {
        find_from(s, c, from + 1)
    }
}

pub proof fn lemma_find_from(s: Seq<char>, c: char, from: int)
    requires
        0 <= from <= s.len(),
    ensures
        find_from(s, c, from) matches Some(k) ==> from <= k < s.len() && s[k] == c
            && forall|j: int| from <= j < k ==> s[j] != c,
        find_from(s, c, from) is None ==> forall|j: int| from <= j < s.len() ==> s[j] != c,
    decreases s.len() - from,
{
    if from < s.len() && s[from] != c {
        lemma_find_from(s, c, from + 1);
    }
}

/// Finds the first `c` at or after `from`.
pub fn find_char(s: &[char], c: char, from: usize) -> (r: Option<usize>)
    requires
        from <= s.len(),
    ensures
        r matches Some(k) ==> find_from(s@, c, from as int) == Some(k as int),
        r is None ==> find_from(s@, c, from as int) is None,
        r matches Some(k) ==> from <= k < s.len() && s@[k as int] == c,
        r is None ==> forall|j: int| from <= j < s.len() ==> s@[j] != c,
{
    proof { lemma_find_from(s@, c, from as int); }
    let mut i = from;
    while i < s.len()
        invariant
            from <= i <= s.len(),
            forall|j: int| from <= j < i ==> s@[j] != c,
            find_from(s@, c, from as int) == find_from(s@, c, i as int),
        decreases s.len() - i,
    {
        if s[i] == c {
            return Some(i);
        }
        i += 1;
    }
    None
}

/// `str::split(c)`: the pieces of `s` between occurrences of `c` (at least one).
pub open spec fn split(s: Seq<char>, c: char) -> Seq<Seq<char>>
    decreases s.len(),
{
    match find_from(s, c, 0) {
        Some(k) => if 0 <= k < s.len() {
            seq![s.take(k)] + split(s.skip(k + 1), c)
        } else {
            seq![s]
        },
        None => seq![s],
    }
}

/// Splits `s` at every `c`, as `str::split` does.
pub fn split_char(s: &[char], c: char) -> (r: Vec<Vec<char>>)
    ensures
        r@.len() == split(s@, c).len(),
        forall|i: int| 0 <= i < r@.len() ==> #[trigger] r@[i]@ == split(s@, c)[i],
{
    let mut r: Vec<Vec<char>> = Vec::new();
    let mut start: usize = 0;
    assert(s@.skip(0) =~= s@);
    assert(r@.map_values(|v: Vec<char>| v@) =~= Seq::<Seq<char>>::empty());
    loop
        invariant
            start <= s.len(),
            split(s@, c) =~= r@.map_values(|v: Vec<char>| v@) + split(s@.skip(start as int), c),
        decreases s.len() - start,
    {
        let ghost rest = s@.skip(start as int);
        match find_char(s, c, start) {
            Some(k) => {
                proof {
                    lemma_find_from(s@, c, start as int);
                    assert forall|j: int| 0 <= j < k - start implies rest[j] != c by {
                        assert(rest[j] == s@[start + j]);
                    }
                    assert(rest[k - start] == c);
                    lemma_find_from(rest, c, 0);
                    lemma_find_first(rest, c, k - start);
                    assert(rest.take(k - start) =~= s@.subrange(start as int, k as int));
                    assert(rest.skip(k - start + 1) =~= s@.skip(k + 1));
                }
                let piece = slice_chars(s, start, k);
                r.push(piece);
                start = k + 1;
            }
            None => {
                proof {
                    lemma_find_from(rest, c, 0);
                    assert forall|j: int| 0 <= j < rest.len() implies rest[j] != c by {
                        assert(rest[j] == s@[start + j]);
                    }
                    if find_from(rest, c, 0) is Some {
                        let k = find_from(rest, c, 0)->0;
                        assert(rest[k] == c);
                    }
                    assert(rest =~= s@.subrange(start as int, s.len() as int));
                }
                let piece = slice_chars(s, start, s.len());
                r.push(piece);
                proof {
                    assert(split(s@, c) =~= r@.map_values(|v: Vec<char>| v@));
                }
                return r;
            }
        }
    }
}

proof fn lemma_find_first(s: Seq<char>, c: char, k: int)
    requires
        0 <= k < s.len(),
        s[k] == c,
        forall|j: int| 0 <= j < k ==> s[j] != c,
    ensures
        find_from(s, c, 0) == Some(k),
{
    lemma_find_from(s, c, 0);
    if find_from(s, c, 0) is Some {
        let m = find_from(s, c, 0)->0;
        assert(m == k);
    }
}

/// `str::lines`: the lines of `s`, split at `\n`, each without the `\n` and
/// without a `\r` just before it; no final empty line after a trailing `\n`.
pub open spec fn lines(s: Seq<char>) -> Seq<Seq<char>>
    decreases s.len(),
{
    if s.len() == 0 {
        seq![]
    } else {
        match find_from(s, '\n', 0) {
            Some(k) => if 0 <= k < s.len() {
                seq![strip_cr(s.take(k))] + lines(s.skip(k + 1))
            } else {
                seq![s]
            },
            None => seq![s],
        }
    }
}

/// No line holds a newline.
pub proof fn lemma_lines_no_newline(s: Seq<char>)
    ensures
        forall|i: int, j: int|
            0 <= i < lines(s).len() && 0 <= j < lines(s)[i].len() ==> #[trigger] lines(s)[i][j] != '\n',
    decreases s.len(),
{
    if s.len() > 0 {
        lemma_find_from(s, '\n', 0);
        match find_from(s, '\n', 0) {
            Some(k) => {
                let rest = s.skip(k + 1);
                lemma_lines_no_newline(rest);
                let first = strip_cr(s.take(k));
                assert forall|i: int, j: int|
                    0 <= i < lines(s).len() && 0 <= j < lines(s)[i].len() implies #[trigger] lines(s)[i][j] != '\n' by {
                    if i == 0 {
                        assert(lines(s)[0] == first);
                        assert(first[j] == s[j]);
                    } else {
                        assert(lines(s)[i] == lines(rest)[i - 1]);
                    }
                }
            },
            None => {},
        }
    }
}

/// Adding a line and its newline to a text that is empty or ends with a
/// newline adds that line to its lines.
pub proof fn lemma_lines_append_line(x: Seq<char>, l: Seq<char>)
    requires
        x.len() == 0 || x.last() == '\n',
        forall|j: int| 0 <= j < l.len() ==> l[j] != '\n',
        l.len() == 0 || l.last() != '\r',
    ensures
        lines(x + l + seq!['\n']) == lines(x).push(l),
    decreases x.len(),
{
    let s = x + l + seq!['\n'];
    if x.len() == 0 {
        assert(s =~= l + seq!['\n']);
        assert forall|j: int| 0 <= j < l.len() implies s[j] != '\n' by {
            assert(s[j] == l[j]);
        }
        lemma_find_first(s, '\n', l.len() as int);
        assert(s.take(l.len() as int) =~= l);
        assert(s.skip(l.len() as int + 1) =~= Seq::<char>::empty());
        assert(lines(s.skip(l.len() as int + 1)) =~= Seq::<Seq<char>>::empty());
        assert(strip_cr(l) == l);
        assert(lines(s) == seq![strip_cr(s.take(l.len() as int))] + lines(s.skip(l.len() as int + 1)));
        assert(lines(s) =~= seq![l]);
        assert(lines(x) =~= Seq::<Seq<char>>::empty());
    } else {
        lemma_find_from(x, '\n', 0);
        let k = find_from(x, '\n', 0)->0;
        assert forall|j: int| 0 <= j < k implies s[j] != '\n' by {
            assert(s[j] == x[j]);
        }
        assert(s[k] == x[k]);
        lemma_find_first(s, '\n', k);
        let x1 = x.skip(k + 1);
        if x1.len() > 0 {
            assert(x1.last() == x.last());
        }
        lemma_lines_append_line(x1, l);
        assert(s.take(k) =~= x.take(k));
        assert(s.skip(k + 1) =~= x1 + l + seq!['\n']);
        assert(lines(s) == seq![strip_cr(x.take(k))] + lines(x1).push(l));
        assert(lines(x) == seq![strip_cr(x.take(k))] + lines(x1));
        assert(seq![strip_cr(x.take(k))] + lines(x1).push(l) =~= (seq![strip_cr(x.take(k))] + lines(x1)).push(l));
    }
}

/// A line without its trailing `\r`, if any.
pub open spec fn strip_cr(l: Seq<char>) -> Seq<char> {
    if l.len() > 0 && l.last() == '\r' {
        l.drop_last()
    } else {
        l
    }
}

/// Splits `s` into lines, as `str::lines` does.
pub fn lines_of(s: &[char]) -> (r: Vec<Vec<char>>)
    ensures
        r@.len() == lines(s@).len(),
        forall|i: int| 0 <= i < r@.len() ==> #[trigger] r@[i]@ == lines(s@)[i],
{
    let mut r: Vec<Vec<char>> = Vec::new();
    let mut start: usize = 0;
    assert(s@.skip(0) =~= s@);
    assert(r@.map_values(|v: Vec<char>| v@) =~= Seq::<Seq<char>>::empty());
    loop
        invariant
            start <= s.len(),
            lines(s@) =~= r@.map_values(|v: Vec<char>| v@) + lines(s@.skip(start as int)),
        decreases s.len() - start,
    {
        let ghost rest = s@.skip(start as int);
        if start == s.len() {
            assert(rest.len() == 0);
            assert(lines(s@) =~= r@.map_values(|v: Vec<char>| v@));
            return r;
        }
        match find_char(s, '\n', start) {
            Some(k) => {
                proof {
                    lemma_find_from(s@, '\n', start as int);
                    assert forall|j: int| 0 <= j < k - start implies rest[j] != '\n' by {
                        assert(rest[j] == s@[start + j]);
                    }
                    assert(rest[k - start] == '\n');
                    lemma_find_first(rest, '\n', k - start);
                    assert(rest.take(k - start) =~= s@.subrange(start as int, k as int));
                    assert(rest.skip(k - start + 1) =~= s@.skip(k + 1));
                }
                let mut end = k;
                if end > start && s[end - 1] == '\r' {
                    end = end - 1;
                }
                proof {
                    assert(strip_cr(s@.subrange(start as int, k as int)) =~= s@.subrange(start as int, end as int));
                }
                let piece = slice_chars(s, start, end);
                r.push(piece);
                start = k + 1;
            }
            None => {
                proof {
                    lemma_find_from(rest, '\n', 0);
                    assert forall|j: int| 0 <= j < rest.len() implies rest[j] != '\n' by {
                        assert(rest[j] == s@[start + j]);
                    }
                    if find_from(rest, '\n', 0) is Some {
                        let k = find_from(rest, '\n', 0)->0;
                        assert(rest[k] == '\n');
                    }
                    assert(rest =~= s@.subrange(start as int, s.len() as int));
                    assert(lines(rest.skip(rest.len() as int)) =~= Seq::<Seq<char>>::empty());
                }
                let piece = slice_chars(s, start, s.len());
                r.push(piece);
                proof {
                    assert(lines(s@) =~= r@.map_values(|v: Vec<char>| v@));
                }
                return r;
            }
        }
    }
}

/// `str::replace(from, to)` for a non-empty pattern: every non-overlapping
/// occurrence of `from`, scanning left to right, replaced by `to`.
pub open spec fn replace(s: Seq<char>, from: Seq<char>, to: Seq<char>) -> Seq<char>
    decreases s.len(),
{
    if from.len() == 0 || s.len() < from.len() {
        s
    } else if s.take(from.len() as int) == from {
        to + replace(s.skip(from.len() as int), from, to)
    } else {
        seq![s[0]] + replace(s.skip(1), from, to)
    }
}

/// Replaces every occurrence of `from` in `s` by `to`.
pub fn replace_chars(s: &[char], from: &[char], to: &[char]) -> (r: Vec<char>)
    ensures
        r@ == replace(s@, from@, to@),
{
    if from.len() == 0 {
        assert(s@.subrange(0, s@.len() as int) =~= s@);
        return slice_chars(s, 0, s.len());
    }
    let mut r: Vec<char> = Vec::new();
    let mut i: usize = 0;
    assert(s@.skip(0) =~= s@);
    assert(r@ + replace(s@, from@, to@) =~= replace(s@, from@, to@));
    while i < s.len()
        invariant
            i <= s.len(),
            from@.len() > 0,
            replace(s@, from@, to@) == r@ + replace(s@.skip(i as int), from@, to@),
        decreases s.len() - i,
    {
        let ghost rest = s@.skip(i as int);
        if matches_at(s, from, i) {
            proof {
                assert(rest.take(from@.len() as int) =~= s@.subrange(i as int, i + from@.len()));
                assert(rest.skip(from@.len() as int) =~= s@.skip(i + from@.len()));
            }
            let mut j: usize = 0;
            let ghost before = r@;
            while j < to.len()
                invariant
                    j <= to.len(),
                    r@ == before + to@.take(j as int),
                decreases to.len() - j,
            {
                r.push(to[j]);
                assert(to@.take(j + 1) =~= to@.take(j as int).push(to@[j as int]));
                j += 1;
            }
            assert(to@.take(to.len() as int) =~= to@);
            assert(r@ + replace(s@.skip(i + from@.len()), from@, to@) =~= before + (to@ + replace(rest.skip(from@.len() as int), from@, to@)));
            i = i + from.len();
        } else {
            proof {
                if rest.len() >= from@.len() {
                    assert(rest.take(from@.len() as int) =~= s@.subrange(i as int, i + from@.len()));
                }
                assert(rest.skip(1) =~= s@.skip(i + 1));
                assert(rest[0] == s@[i as int]);
            }
            let ghost before = r@;
            r.push(s[i]);
            assert(r@ + replace(s@.skip(i + 1), from@, to@) =~= before + (seq![rest[0]] + replace(rest.skip(1), from@, to@)));
            i += 1;
        }
    }
    assert(s@.skip(s.len() as int) =~= Seq::<char>::empty());
    assert(r@ + Seq::<char>::empty() =~= r@);
    r
}

/// The pieces of `parts` joined by `sep`.
pub open spec fn join(parts: Seq<Seq<char>>, sep: Seq<char>) -> Seq<char>
    decreases parts.len(),
{
    if parts.len() == 0 {
        seq![]
    } else if parts.len() == 1 {
        parts[0]
    } else {
        join(parts.drop_last(), sep) + sep + parts.last()
    }
}

/// The views of a vector of strings.
pub open spec fn views(v: Seq<String>) -> Seq<Seq<char>> {
    v.map_values(|s: String| s@)
}

/// Joins `parts` with `sep`, as `[String]::join` does.
pub fn join_strings(parts: &Vec<String>, sep: &str) -> (r: String)
    ensures
        r@ == join(views(parts@), sep@),
{
    let mut r = String::new();
    let mut i: usize = 0;
    while i < parts.len()
        invariant
            i <= parts.len(),
            r@ == join(views(parts@).take(i as int), sep@),
        decreases parts.len() - i,
    {
        if i > 0 {
            push_str(&mut r, sep);
        }
        push_string(&mut r, &parts[i]);
        proof {
            let t = views(parts@).take(i + 1);
            assert(t.drop_last() =~= views(parts@).take(i as int));
            if i == 0 {
                assert(join(t, sep@) == t[0]);
                assert(r@ =~= t[0]);
            }
        }
        i += 1;
    }
    assert(views(parts@).take(parts.len() as int) =~= views(parts@));
    r
}

/// The text of a string in debug form: quoted and escaped. Named, not
/// stated: the escaping follows Unicode tables.
pub uninterp spec fn debug_quoted(s: Seq<char>) -> Seq<char>;

/// Writes `s` in debug form. Calls `format!` with `{:?}` on a `&str`; the
/// contract claims the result is a function of `s` alone.
#[verifier::external_body]
pub(crate) fn debug_str(s: &str) -> (r: String)
    ensures
        r@ == debug_quoted(s@),
{
    format!("{:?}", s)
}



/// Adds a name to a list of distinct names.
pub open spec fn set_add(s: Seq<Seq<char>>, n: Seq<char>) -> Seq<Seq<char>> {
    if s.contains(n) { s } else { s.push(n) }
}

/// Whether `n` is one of the strings of `v`.
pub fn contains_string(v: &Vec<String>, n: &str) -> (b: bool)
    ensures
        b == views(v@).contains(n@),
{
    let mut i: usize = 0;
    while i < v.len()
        invariant
            i <= v.len(),
            forall|k: int| 0 <= k < i ==> v@[k]@ != n@,
        decreases v.len() - i,
    {
        if str_eq(v[i].as_str(), n) {
            assert(views(v@)[i as int] == n@);
            return true;
        }
        i += 1;
    }
    assert(!views(v@).contains(n@)) by {
        if views(v@).contains(n@) {
            let k = choose|k: int| 0 <= k < views(v@).len() && views(v@)[k] == n@;
            assert(v@[k]@ == n@);
        }
    }
    false
}

/// Adds `n` to `v` unless it is there.
pub fn set_insert(v: &mut Vec<String>, n: &str)
    ensures
        views(final(v)@) == set_add(views(old(v)@), n@),
{
    if !contains_string(v, n) {
        let ghost v0 = v@;
        v.push(owned(n));
        assert(views(v@) =~= views(v0).push(n@));
    }
}

} // verus!
