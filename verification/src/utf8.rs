//! Facts about the UTF-8 encoding of character sequences, and the `String`
//! operations that work at byte positions.

use vstd::prelude::*;
use vstd::utf8::*;

verus! {

/// The number of bytes of the UTF-8 encoding of `s`.
pub open spec fn byte_len(s: Seq<char>) -> nat {
    encode_utf8(s).len()
}

/// The encoding of a concatenation is the concatenation of the encodings.
pub proof fn lemma_encode_concat(a: Seq<char>, b: Seq<char>)
    ensures
        encode_utf8(a + b) == encode_utf8(a) + encode_utf8(b),
    decreases a.len(),
{
    if a.len() == 0 {
        assert(a + b =~= b);
        assert(encode_utf8(a) =~= Seq::<u8>::empty());
        assert(encode_utf8(a) + encode_utf8(b) =~= encode_utf8(b));
    } else {
        assert((a + b).drop_first() =~= a.drop_first() + b);
        assert((a + b)[0] == a[0]);
        lemma_encode_concat(a.drop_first(), b);
        assert(encode_utf8(a + b) =~= encode_scalar(a[0] as u32) + (encode_utf8(a.drop_first())
            + encode_utf8(b)));
    }
}

/// Every character encodes to between one and four bytes.
pub proof fn lemma_encode_char_len(c: char)
    ensures
        1 <= encode_utf8(seq![c]).len() <= 4,
        encode_utf8(seq![c]) == encode_scalar(c as u32),
{
    assert(seq![c].drop_first() =~= Seq::<char>::empty());
    assert(encode_utf8(Seq::<char>::empty()) =~= Seq::<u8>::empty());
    assert(encode_utf8(seq![c]) == encode_scalar(seq![c][0] as u32) + encode_utf8(
        seq![c].drop_first(),
    ));
    assert(encode_scalar(c as u32) + Seq::<u8>::empty() =~= encode_scalar(c as u32));
    let u = c as u32;
    if has_width_1_encoding(u) {
    } else if has_width_2_encoding(u) {
    } else if has_width_3_encoding(u) {
    } else {
    }
}

/// Splitting a character sequence at `k` splits its encoding at the byte
/// length of the first `k` characters.
pub proof fn lemma_encode_split(s: Seq<char>, k: int)
    requires
        0 <= k <= s.len(),
    ensures
        encode_utf8(s) == encode_utf8(s.take(k)) + encode_utf8(s.skip(k)),
        encode_utf8(s).take(byte_len(s.take(k)) as int) == encode_utf8(s.take(k)),
        encode_utf8(s).skip(byte_len(s.take(k)) as int) == encode_utf8(s.skip(k)),
        byte_len(s.take(k)) <= byte_len(s),
{
    assert(s =~= s.take(k) + s.skip(k));
    lemma_encode_concat(s.take(k), s.skip(k));
    let e = encode_utf8(s);
    let l = byte_len(s.take(k)) as int;
    assert(e.take(l) =~= encode_utf8(s.take(k)));
    assert(e.skip(l) =~= encode_utf8(s.skip(k)));
}

/// The byte length of one more character.
pub proof fn lemma_byte_len_push(s: Seq<char>, c: char)
    ensures
        byte_len(s.push(c)) == byte_len(s) + encode_utf8(seq![c]).len(),
{
    assert(s.push(c) =~= s + seq![c]);
    lemma_encode_concat(s, seq![c]);
}

/// The byte length of a prefix, one character longer.
pub proof fn lemma_byte_len_take_next(s: Seq<char>, k: int)
    requires
        0 <= k < s.len(),
    ensures
        byte_len(s.take(k + 1)) == byte_len(s.take(k)) + encode_utf8(seq![s[k]]).len(),
{
    assert(s.take(k + 1) =~= s.take(k).push(s[k]));
    lemma_byte_len_push(s.take(k), s[k]);
}

/// The end of the encoding of every prefix is a character boundary.
pub proof fn lemma_prefix_is_boundary(s: Seq<char>, k: int)
    requires
        0 <= k <= s.len(),
    ensures
        is_char_boundary(encode_utf8(s), byte_len(s.take(k)) as int),
    decreases s.len(),
{
    broadcast use encode_utf8_valid_utf8;

    let e = encode_utf8(s);
    if k == 0 {
        assert(s.take(0) =~= Seq::<char>::empty());
        assert(encode_utf8(s.take(0)) =~= Seq::<u8>::empty());
    } else {
        encode_utf8_first_scalar(s);
        let rest = s.drop_first();
        assert(pop_first_scalar(e) =~= encode_utf8(rest));
        lemma_prefix_is_boundary(rest, k - 1);
        assert(s.take(k) =~= seq![s[0]] + rest.take(k - 1));
        lemma_encode_concat(seq![s[0]], rest.take(k - 1));
        lemma_encode_char_len(s[0]);
        lemma_encode_split(s, k);
        lemma_encode_split(s, 0);
        assert(byte_len(s.take(k)) <= e.len());
    }
}

/// Decoding undoes encoding.
pub proof fn lemma_decode_encode(s: Seq<char>)
    ensures
        decode_utf8(encode_utf8(s)) == s,
{
    encode_utf8_decode_utf8(s);
}

/// Wraps `char::len_utf8`: the number of bytes the character needs in UTF-8.
#[verifier::external_body]
pub(crate) fn char_len_utf8(c: char) -> (n: usize)
    ensures
        n == encode_utf8(seq![c]).len(),
{
    c.len_utf8()
}

/// Wraps `String::insert`: inserts `c` at byte position `idx`, which must be a
/// character boundary (else the call panics). The new text decodes to the
/// characters before `idx`, then `c`, then the characters from `idx` on, and
/// its byte length, like that of every `String`, is at most `isize::MAX`.
#[verifier::external_body]
pub(crate) fn string_insert(s: &mut String, idx: usize, c: char)
    requires
        is_char_boundary(encode_utf8(old(s)@), idx as int),
    ensures
        final(s)@ == decode_utf8(encode_utf8(old(s)@).take(idx as int)) + seq![c] + decode_utf8(
            encode_utf8(old(s)@).skip(idx as int),
        ),
        byte_len(final(s)@) <= isize::MAX,
{
    s.insert(idx, c)
}

/// Wraps `String::remove`: removes and returns the character that starts at
/// byte position `idx`, which must be a character boundary before the end of
/// the text (else the call panics).
#[verifier::external_body]
pub(crate) fn string_remove(s: &mut String, idx: usize) -> (c: char)
    requires
        idx < encode_utf8(old(s)@).len(),
        is_char_boundary(encode_utf8(old(s)@), idx as int),
    ensures
        decode_utf8(encode_utf8(old(s)@).skip(idx as int)).len() > 0,
        c == decode_utf8(encode_utf8(old(s)@).skip(idx as int))[0],
        final(s)@ == decode_utf8(encode_utf8(old(s)@).take(idx as int)) + decode_utf8(
            encode_utf8(old(s)@).skip(idx as int),
        ).drop_first(),
{
    s.remove(idx)
}

/// Wraps `String::clear`: the text becomes empty.
#[verifier::external_body]
pub(crate) fn string_clear(s: &mut String)
    ensures
        final(s)@ == Seq::<char>::empty(),
{
    s.clear()
}

} // verus!
