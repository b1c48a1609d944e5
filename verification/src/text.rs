//! Character-sequence specifications and small text helpers shared by the library.

use vstd::prelude::*;
use vstd::string::StringExecFns;

verus! {

/// Unicode `White_Space` property, the set that `char::is_whitespace` tests.
pub open spec fn is_ws(c: char) -> bool {
    let u = c as u32;
    ||| u == 0x20
    ||| (0x09 <= u && u <= 0x0D)
    ||| u == 0x85
    ||| u == 0xA0
    ||| u == 0x1680
    ||| (0x2000 <= u && u <= 0x200A)
    ||| u == 0x2028
    ||| u == 0x2029
    ||| u == 0x202F
    ||| u == 0x205F
    ||| u == 0x3000
}

/// Wraps `char::is_whitespace`: true exactly for the characters with the
/// Unicode `White_Space` property, listed in `is_ws`.
#[verifier::external_body]
pub(crate) fn char_is_whitespace(c: char) -> (b: bool)
    ensures
        b == is_ws(c),
{
    c.is_whitespace()
}

/// Wraps `String::push`: appends one character.
#[verifier::external_body]
pub(crate) fn string_push(s: &mut String, c: char)
    ensures
        final(s)@ == old(s)@.push(c),
{
    s.push(c)
}

/// The characters of `s`, in order.
pub fn to_chars(s: &str) -> (v: Vec<char>)
    ensures
        v@ == s@,
{
    let mut v: Vec<char> = Vec::new();
    for c in it: s.chars()
        invariant
            v@ == it.seq().take(it.index() as int),
    {
        v.push(c);
    }
    v
}

} // verus!

verus! {

/// `p` is a prefix of `s`.
pub open spec fn has_prefix(s: Seq<char>, p: Seq<char>) -> bool {
    p.len() <= s.len() && s.take(p.len() as int) == p
}

/// Wraps `str::starts_with` with a string pattern: true when `p` is a prefix of `s`.
#[verifier::external_body]
pub(crate) fn str_starts_with(s: &str, p: &str) -> (b: bool)
    ensures
        b == has_prefix(s@, p@),
{
    s.starts_with(p)
}

/// A new `String` holding the characters of `s`.
pub fn owned(s: &str) -> (r: String)
    ensures
        r@ == s@,
{
    s.to_owned()
}

/// A new `String` holding the characters of `a` followed by those of `b`.
pub fn concat(a: &str, b: &str) -> (r: String)
    ensures
        r@ == a@ + b@,
{
    let mut r = a.to_owned();
    r.append(b);
    r
}

} // verus!

verus! {

/// `s` without its leading whitespace.
pub open spec fn trim_start_ws(s: Seq<char>) -> Seq<char>
    decreases s.len(),
{
    if s.len() > 0 && is_ws(s[0]) {
        trim_start_ws(s.drop_first())
    } else {
        s
    }
}

/// `s` without its trailing whitespace.
pub open spec fn trim_end_ws(s: Seq<char>) -> Seq<char>
    decreases s.len(),
{
    if s.len() > 0 && is_ws(s.last()) {
        trim_end_ws(s.drop_last())
    } else {
        s
    }
}

/// `s` without leading and trailing whitespace.
pub open spec fn trim_ws(s: Seq<char>) -> Seq<char> {
    trim_end_ws(trim_start_ws(s))
}

/// A `String` holding `v[lo..hi]`.
pub fn string_from_chars(v: &[char], lo: usize, hi: usize) -> (r: String)
    requires
        lo <= hi <= v@.len(),
    ensures
        r@ == v@.subrange(lo as int, hi as int),
{
    let mut r = String::new();
    let mut i = lo;
    while i < hi
        invariant
            lo <= i <= hi,
            hi <= v@.len(),
            r@ == v@.subrange(lo as int, i as int),
        decreases hi - i,
    {
        string_push(&mut r, v[i]);
        proof {
            assert(v@.subrange(lo as int, i + 1) =~= v@.subrange(lo as int, i as int).push(
                v@[i as int],
            ));
        }
        i = i + 1;
    }
    r
}

/// The index of the first character of `v` that is not whitespace
/// (`v.len()` if there is none); from it on, `v` is `trim_start_ws(v)`.
pub fn skip_leading_ws(v: &[char]) -> (lo: usize)
    ensures
        lo <= v@.len(),
        trim_start_ws(v@) == v@.skip(lo as int),
{
    let mut lo: usize = 0;
    proof {
        assert(v@.skip(0) =~= v@);
    }
    while lo < v.len() && char_is_whitespace(v[lo])
        invariant
            lo <= v@.len(),
            trim_start_ws(v@) == trim_start_ws(v@.skip(lo as int)),
        decreases v@.len() - lo,
    {
        proof {
            assert(v@.skip(lo as int).drop_first() =~= v@.skip(lo + 1));
        }
        lo = lo + 1;
    }
    lo
}

/// The end of `v[lo..]` once its trailing whitespace is dropped.
pub fn skip_trailing_ws(v: &[char], lo: usize) -> (hi: usize)
    requires
        lo <= v@.len(),
    ensures
        lo <= hi <= v@.len(),
        trim_end_ws(v@.skip(lo as int)) == v@.subrange(lo as int, hi as int),
{
    let mut hi: usize = v.len();
    proof {
        assert(v@.skip(lo as int) =~= v@.subrange(lo as int, v@.len() as int));
    }
    while hi > lo && char_is_whitespace(v[hi - 1])
        invariant
            lo <= hi <= v@.len(),
            trim_end_ws(v@.skip(lo as int)) == trim_end_ws(v@.subrange(lo as int, hi as int)),
        decreases hi,
    {
        proof {
            assert(v@.subrange(lo as int, hi as int).drop_last() =~= v@.subrange(
                lo as int,
                hi - 1,
            ));
        }
        hi = hi - 1;
    }
    hi
}

/// `s` without leading and trailing whitespace.
pub fn trim(s: &str) -> (r: String)
    ensures
        r@ == trim_ws(s@),
{
    let v = to_chars(s);
    let lo = skip_leading_ws(v.as_slice());
    let hi = skip_trailing_ws(v.as_slice(), lo);
    string_from_chars(v.as_slice(), lo, hi)
}

} // verus!

verus! {

/// The index of the first `c` in `s`, or -1 if there is none.
pub open spec fn find_char(s: Seq<char>, c: char) -> int
    decreases s.len(),
{
    if s.len() == 0 {
        -1
    } else if s[0] == c {
        0
    } else {
        let r = find_char(s.drop_first(), c);
        if r < 0 {
            -1
        } else {
            r + 1
        }
    }
}

/// `find_char` finds the first `c`, and -1 means there is none.
pub proof fn lemma_find_char(s: Seq<char>, c: char)
    ensures
        -1 <= find_char(s, c) < s.len(),
        find_char(s, c) >= 0 ==> s[find_char(s, c)] == c,
        forall|j: int|
            0 <= j < s.len() && (find_char(s, c) < 0 || j < find_char(s, c)) ==> s[j] != c,
    decreases s.len(),
{
    if s.len() > 0 && s[0] != c {
        lemma_find_char(s.drop_first(), c);
        assert forall|j: int|
            0 <= j < s.len() && (find_char(s, c) < 0 || j < find_char(s, c)) implies s[j]
            != c by {
            if j > 0 {
                assert(s[j] == s.drop_first()[j - 1]);
            }
        }
    }
}

/// A characterization of `find_char` by its defining properties.
pub proof fn lemma_find_char_unique(s: Seq<char>, c: char, p: int)
    requires
        -1 <= p < s.len(),
        p >= 0 ==> s[p] == c,
        forall|j: int| 0 <= j < s.len() && (p < 0 || j < p) ==> s[j] != c,
    ensures
        find_char(s, c) == p,
{
    lemma_find_char(s, c);
    let q = find_char(s, c);
    if q >= 0 && p >= 0 {
        if q < p {
            assert(s[q] != c);
        } else if p < q {
            assert(s[p] != c);
        }
    } else if q >= 0 {
        assert(s[q] != c);
    } else if p >= 0 {
        assert(s[p] != c);
    }
}

/// The index of the first `c` in `v[lo..hi]`, counted from the start of `v`.
pub fn find_char_in(v: &[char], lo: usize, hi: usize, c: char) -> (r: Option<usize>)
    requires
        lo <= hi <= v@.len(),
    ensures
        match r {
            Some(p) => lo <= p < hi && p - lo == find_char(v@.subrange(lo as int, hi as int), c),
            None => find_char(v@.subrange(lo as int, hi as int), c) < 0,
        },
{
    let ghost s = v@.subrange(lo as int, hi as int);
    let mut i = lo;
    while i < hi
        invariant
            lo <= i <= hi,
            hi <= v@.len(),
            s == v@.subrange(lo as int, hi as int),
            forall|j: int| lo <= j < i ==> v@[j] != c,
        decreases hi - i,
    {
        if v[i] == c {
            proof {
                lemma_find_char_unique(s, c, i - lo);
            }
            return Some(i);
        }
        i = i + 1;
    }
    proof {
        lemma_find_char_unique(s, c, -1);
    }
    None
}

/// `v[lo..hi]` as a vector.
pub fn chars_between(v: &[char], lo: usize, hi: usize) -> (r: Vec<char>)
    requires
        lo <= hi <= v@.len(),
    ensures
        r@ == v@.subrange(lo as int, hi as int),
{
    let mut r: Vec<char> = Vec::new();
    let mut i = lo;
    while i < hi
        invariant
            lo <= i <= hi,
            hi <= v@.len(),
            r@ == v@.subrange(lo as int, i as int),
        decreases hi - i,
    {
        r.push(v[i]);
        proof {
            assert(v@.subrange(lo as int, i + 1) =~= v@.subrange(lo as int, i as int).push(
                v@[i as int],
            ));
        }
        i = i + 1;
    }
    r
}

/// `s` without the copies of `c` at its start.
pub open spec fn trim_start_char(s: Seq<char>, c: char) -> Seq<char>
    decreases s.len(),
{
    if s.len() > 0 && s[0] == c {
        trim_start_char(s.drop_first(), c)
    } else {
        s
    }
}

/// `s` without the copies of `c` at its end.
pub open spec fn trim_end_char(s: Seq<char>, c: char) -> Seq<char>
    decreases s.len(),
{
    if s.len() > 0 && s.last() == c {
        trim_end_char(s.drop_last(), c)
    } else {
        s
    }
}

/// `s` without the copies of `c` at either end, as `str::trim_matches(c)`
/// computes it.
pub open spec fn trim_matches_char(s: Seq<char>, c: char) -> Seq<char> {
    trim_end_char(trim_start_char(s, c), c)
}

/// `v` without the copies of `c` at either end.
pub fn trim_matches(v: &[char], c: char) -> (r: Vec<char>)
    ensures
        r@ == trim_matches_char(v@, c),
{
    let mut lo: usize = 0;
    proof {
        assert(v@.skip(0) =~= v@);
    }
    while lo < v.len() && v[lo] == c
        invariant
            lo <= v@.len(),
            trim_start_char(v@, c) == trim_start_char(v@.skip(lo as int), c),
        decreases v@.len() - lo,
    {
        proof {
            assert(v@.skip(lo as int).drop_first() =~= v@.skip(lo + 1));
        }
        lo = lo + 1;
    }
    let mut hi: usize = v.len();
    proof {
        assert(v@.skip(lo as int) =~= v@.subrange(lo as int, v@.len() as int));
    }
    while hi > lo && v[hi - 1] == c
        invariant
            lo <= hi <= v@.len(),
            trim_end_char(v@.skip(lo as int), c) == trim_end_char(
                v@.subrange(lo as int, hi as int),
                c,
            ),
            trim_start_char(v@, c) == v@.skip(lo as int),
        decreases hi,
    {
        proof {
            assert(v@.subrange(lo as int, hi as int).drop_last() =~= v@.subrange(
                lo as int,
                hi - 1,
            ));
        }
        hi = hi - 1;
    }
    chars_between(v, lo, hi)
}

} // verus!

verus! {

/// `t` occurs in `s`.
pub open spec fn contains_seq(s: Seq<char>, t: Seq<char>) -> bool {
    exists|i: int| 0 <= i && i + t.len() <= s.len() && #[trigger] s.subrange(i, i + t.len()) == t
}

/// An occurrence at `i` shows that `t` occurs in `s`.
pub proof fn lemma_contains_at(s: Seq<char>, t: Seq<char>, i: int)
    requires
        0 <= i,
        i + t.len() <= s.len(),
        s.subrange(i, i + t.len()) == t,
    ensures
        contains_seq(s, t),
{
}

/// A text that does not start with whitespace is its own `trim_start_ws`.
pub proof fn lemma_trim_start_noop(s: Seq<char>)
    requires
        s.len() > 0,
        !is_ws(s[0]),
    ensures
        trim_start_ws(s) == s,
{
}

/// Dropping trailing whitespace keeps every prefix that ends in a
/// character that is not whitespace.
pub proof fn lemma_trim_end_keeps_prefix(s: Seq<char>, k: int)
    requires
        0 < k <= s.len(),
        !is_ws(s[k - 1]),
    ensures
        k <= trim_end_ws(s).len(),
        trim_end_ws(s).take(k) == s.take(k),
    decreases s.len(),
{
    if s.len() > k && is_ws(s.last()) {
        lemma_trim_end_keeps_prefix(s.drop_last(), k);
        assert(s.drop_last().take(k) =~= s.take(k));
    }
}

/// `trim_end_ws(s)` is a prefix of `s` that, unless empty, ends in a
/// character that is not whitespace.
pub proof fn lemma_trim_end_shape(s: Seq<char>)
    ensures
        trim_end_ws(s).len() <= s.len(),
        trim_end_ws(s) == s.take(trim_end_ws(s).len() as int),
        trim_end_ws(s).len() > 0 ==> !is_ws(trim_end_ws(s).last()),
    decreases s.len(),
{
    if s.len() > 0 && is_ws(s.last()) {
        lemma_trim_end_shape(s.drop_last());
        assert(s.drop_last().take(trim_end_ws(s).len() as int) =~= s.take(
            trim_end_ws(s).len() as int,
        ));
    } else {
        assert(s.take(s.len() as int) =~= s);
    }
}


/// `trim_start_ws(s)` is what follows the leading whitespace of `s`, which
/// ends at `k`.
proof fn lemma_trim_start_shape(s: Seq<char>) -> (k: int)
    ensures
        0 <= k <= s.len(),
        trim_start_ws(s) == s.skip(k),
        forall|j: int| 0 <= j < k ==> is_ws(s[j]),
        k < s.len() ==> !is_ws(s[k]),
    decreases s.len(),
{
    if s.len() > 0 && is_ws(s[0]) {
        let k0 = lemma_trim_start_shape(s.drop_first());
        assert(s.drop_first().skip(k0) =~= s.skip(k0 + 1));
        assert forall|j: int| 0 <= j < k0 + 1 implies is_ws(s[j]) by {
            if j > 0 {
                assert(s[j] == s.drop_first()[j - 1]);
            }
        }
        k0 + 1
    } else {
        assert(s.skip(0) =~= s);
        0
    }
}

/// What `trim_end_ws` drops is whitespace.
proof fn lemma_trim_end_tail(s: Seq<char>)
    ensures
        trim_end_ws(s).len() <= s.len(),
        forall|j: int| trim_end_ws(s).len() <= j < s.len() ==> is_ws(s[j]),
    decreases s.len(),
{
    if s.len() > 0 && is_ws(s.last()) {
        lemma_trim_end_tail(s.drop_last());
        assert forall|j: int| trim_end_ws(s).len() <= j < s.len() implies is_ws(s[j]) by {
            if j < s.len() - 1 {
                assert(s[j] == s.drop_last()[j]);
            }
        }
    }
}

/// Trimming keeps one stretch of `s` and drops only whitespace around it:
/// the result is `s[a..a + len]` for an `a` before which, and after whose
/// stretch, every character of `s` is whitespace; unless empty, the result
/// neither starts nor ends with whitespace.
pub proof fn law_trim(s: Seq<char>)
    ensures
        exists|a: int|
            {
                &&& 0 <= a
                &&& a + trim_ws(s).len() <= s.len()
                &&& trim_ws(s) == #[trigger] s.subrange(a, a + trim_ws(s).len())
                &&& forall|j: int| 0 <= j < a ==> is_ws(#[trigger] s[j])
                &&& forall|j: int| a + trim_ws(s).len() <= j < s.len() ==> is_ws(#[trigger] s[j])
            },
        trim_ws(s).len() > 0 ==> !is_ws(trim_ws(s)[0]) && !is_ws(trim_ws(s).last()),
{
    let k = lemma_trim_start_shape(s);
    let u = s.skip(k);
    lemma_trim_end_shape(u);
    lemma_trim_end_tail(u);
    let n = trim_ws(s).len() as int;
    assert(trim_ws(s) =~= s.subrange(k, k + n));
    assert forall|j: int| k + n <= j < s.len() implies is_ws(#[trigger] s[j]) by {
        assert(s[j] == u[j - k]);
    }
    if n > 0 {
        assert(trim_ws(s)[0] == s[k]);
    }
}

/// `trim_start_char(s, c)` is what follows the leading copies of `c`.
proof fn lemma_trim_start_char_shape(s: Seq<char>, c: char) -> (k: int)
    ensures
        0 <= k <= s.len(),
        trim_start_char(s, c) == s.skip(k),
        forall|j: int| 0 <= j < k ==> s[j] == c,
        k < s.len() ==> s[k] != c,
    decreases s.len(),
{
    if s.len() > 0 && s[0] == c {
        let k0 = lemma_trim_start_char_shape(s.drop_first(), c);
        assert(s.drop_first().skip(k0) =~= s.skip(k0 + 1));
        assert forall|j: int| 0 <= j < k0 + 1 implies s[j] == c by {
            if j > 0 {
                assert(s[j] == s.drop_first()[j - 1]);
            }
        }
        k0 + 1
    } else {
        assert(s.skip(0) =~= s);
        0
    }
}

/// `trim_end_char(s, c)` is what precedes the trailing copies of `c`.
proof fn lemma_trim_end_char_shape(s: Seq<char>, c: char)
    ensures
        trim_end_char(s, c).len() <= s.len(),
        trim_end_char(s, c) == s.take(trim_end_char(s, c).len() as int),
        trim_end_char(s, c).len() > 0 ==> trim_end_char(s, c).last() != c,
        forall|j: int| trim_end_char(s, c).len() <= j < s.len() ==> s[j] == c,
    decreases s.len(),
{
    if s.len() > 0 && s.last() == c {
        lemma_trim_end_char_shape(s.drop_last(), c);
        assert(s.drop_last().take(trim_end_char(s, c).len() as int) =~= s.take(
            trim_end_char(s, c).len() as int,
        ));
        assert forall|j: int| trim_end_char(s, c).len() <= j < s.len() implies s[j] == c by {
            if j < s.len() - 1 {
                assert(s[j] == s.drop_last()[j]);
            }
        }
    } else {
        assert(s.take(s.len() as int) =~= s);
    }
}

/// Trimming the copies of `c` keeps one stretch of `s` and drops only
/// copies of `c` around it; unless empty, the result neither starts nor
/// ends with `c`.
pub proof fn law_trim_matches(s: Seq<char>, c: char)
    ensures
        exists|a: int|
            {
                &&& 0 <= a
                &&& a + trim_matches_char(s, c).len() <= s.len()
                &&& trim_matches_char(s, c) == #[trigger] s.subrange(
                    a,
                    a + trim_matches_char(s, c).len(),
                )
                &&& forall|j: int| 0 <= j < a ==> #[trigger] s[j] == c
                &&& forall|j: int| a + trim_matches_char(s, c).len() <= j < s.len() ==> #[trigger] s[j]
                    == c
            },
        trim_matches_char(s, c).len() > 0 ==> trim_matches_char(s, c)[0] != c
            && trim_matches_char(s, c).last() != c,
{
    let k = lemma_trim_start_char_shape(s, c);
    let u = s.skip(k);
    lemma_trim_end_char_shape(u, c);
    let n = trim_matches_char(s, c).len() as int;
    assert(trim_matches_char(s, c) =~= s.subrange(k, k + n));
    assert forall|j: int| k + n <= j < s.len() implies #[trigger] s[j] == c by {
        assert(s[j] == u[j - k]);
    }
    if n > 0 {
        assert(trim_matches_char(s, c)[0] == s[k]);
    }
}

} // verus!
