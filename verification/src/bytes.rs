//! Big-endian 32-bit words inside byte sequences.

use vstd::prelude::*;

verus! {

/// The 32-bit value whose big-endian bytes are `b0`, `b1`, `b2`, `b3`.
pub open spec fn be_word(b0: u8, b1: u8, b2: u8, b3: u8) -> u32 {
    ((b0 as u32) << 24) | ((b1 as u32) << 16) | ((b2 as u32) << 8) | (b3 as u32)
}

/// The big-endian word stored in `s` at byte offset `at`.
pub open spec fn word_at(s: Seq<u8>, at: int) -> u32
    recommends
        0 <= at,
        at + 4 <= s.len(),
{
    be_word(s[at], s[at + 1], s[at + 2], s[at + 3])
}

/// The four bytes of `v`, most significant first.
pub open spec fn be_bytes(v: u32) -> Seq<u8> {
    seq![(v >> 24) as u8, ((v >> 16) & 0xff) as u8, ((v >> 8) & 0xff) as u8, (v & 0xff) as u8]
}

/// `buffer` with the four bytes at `at` replaced by those of `value`.
pub open spec fn overwritten(buffer: Seq<u8>, at: int, value: Seq<u8>) -> Seq<u8>
    recommends
        0 <= at,
        at + 4 <= buffer.len(),
        value.len() == 4,
{
    buffer.subrange(0, at) + value + buffer.subrange(at + 4, buffer.len() as int)
}

/// `s` with the four bytes at `at` replaced by the big-endian bytes of `v`.
pub open spec fn with_word(s: Seq<u8>, at: int, v: u32) -> Seq<u8>
    recommends
        0 <= at,
        at + 4 <= s.len(),
{
    overwritten(s, at, be_bytes(v))
}

/// Overwriting four bytes keeps the length and every byte outside the
/// four.
pub proof fn lemma_overwritten(buffer: Seq<u8>, at: int, value: Seq<u8>)
    requires
        0 <= at,
        at + 4 <= buffer.len(),
        value.len() == 4,
    ensures
        overwritten(buffer, at, value).len() == buffer.len(),
        forall|i: int|
            0 <= i < buffer.len() && !(at <= i < at + 4) ==> overwritten(buffer, at, value)[i]
                == buffer[i],
        forall|i: int| at <= i < at + 4 ==> overwritten(buffer, at, value)[i] == value[i - at],
{
}

/// Reading back the bytes of a word gives the word.
pub proof fn lemma_be_round_trip(v: u32)
    ensures
        be_bytes(v).len() == 4,
        be_word(be_bytes(v)[0], be_bytes(v)[1], be_bytes(v)[2], be_bytes(v)[3]) == v,
{
    assert(((((v >> 24) as u8) as u32) << 24) | (((((v >> 16) & 0xff) as u8) as u32) << 16) | (((((v
        >> 8) & 0xff) as u8) as u32) << 8) | (((v & 0xff) as u8) as u32) == v) by (bit_vector);
}

/// Writing a word changes exactly the four bytes it covers, and the word
/// can be read back from them.
pub proof fn lemma_with_word(s: Seq<u8>, at: int, v: u32)
    requires
        0 <= at,
        at + 4 <= s.len(),
    ensures
        with_word(s, at, v).len() == s.len(),
        word_at(with_word(s, at, v), at) == v,
        forall|i: int| 0 <= i < s.len() && !(at <= i < at + 4) ==> with_word(s, at, v)[i] == s[i],
        forall|i: int| at <= i < at + 4 ==> with_word(s, at, v)[i] == be_bytes(v)[i - at],
{
    lemma_be_round_trip(v);
}

/// Whether `x` and `y` are of one length and differ at most in the four
/// bytes at `at`.
pub open spec fn same_outside(x: Seq<u8>, y: Seq<u8>, at: int) -> bool {
    x.len() == y.len() && forall|i: int| 0 <= i < x.len() && !(at <= i < at + 4) ==> x[i] == y[i]
}

/// Overwriting at the same place twice keeps only what was written
/// last.
pub proof fn lemma_overwritten_twice(s: Seq<u8>, at: int, v: Seq<u8>, w: Seq<u8>)
    requires
        0 <= at,
        at + 4 <= s.len(),
        v.len() == 4,
        w.len() == 4,
    ensures
        overwritten(overwritten(s, at, v), at, w) == overwritten(s, at, w),
{
    assert(overwritten(overwritten(s, at, v), at, w) =~= overwritten(s, at, w));
}

/// Spans that differ at most in four bytes are the same once those four
/// bytes are overwritten.
pub proof fn lemma_overwritten_same(x: Seq<u8>, y: Seq<u8>, at: int, v: Seq<u8>)
    requires
        0 <= at,
        at + 4 <= x.len(),
        v.len() == 4,
        same_outside(x, y, at),
    ensures
        overwritten(x, at, v) == overwritten(y, at, v),
{
    lemma_overwritten(x, at, v);
    lemma_overwritten(y, at, v);
    assert(overwritten(x, at, v) =~= overwritten(y, at, v));
}

/// Spans that differ at most in the four bytes at `at` still do so
/// after the same four bytes were written to both at `place`.
pub proof fn lemma_overwritten_keeps_same(x: Seq<u8>, y: Seq<u8>, at: int, place: int, v: Seq<u8>)
    requires
        0 <= place,
        place + 4 <= x.len(),
        v.len() == 4,
        same_outside(x, y, at),
    ensures
        same_outside(overwritten(x, place, v), overwritten(y, place, v), at),
{
    lemma_overwritten(x, place, v);
    lemma_overwritten(y, place, v);
}

/// Overwriting four bytes leaves a span that differs from the first at
/// most in those four bytes.
pub proof fn lemma_overwritten_outside(x: Seq<u8>, at: int, v: Seq<u8>)
    requires
        0 <= at,
        at + 4 <= x.len(),
        v.len() == 4,
    ensures
        same_outside(overwritten(x, at, v), x, at),
        same_outside(x, overwritten(x, at, v), at),
{
    lemma_overwritten(x, at, v);
}

/// Two writes, done over again, change nothing.
pub proof fn lemma_overwritten_pair_again(x: Seq<u8>, a: int, v: Seq<u8>, b: int, w: Seq<u8>)
    requires
        0 <= a,
        a + 4 <= x.len(),
        0 <= b,
        b + 4 <= x.len(),
        v.len() == 4,
        w.len() == 4,
    ensures
        overwritten(overwritten(overwritten(overwritten(x, a, v), b, w), a, v), b, w)
            == overwritten(overwritten(x, a, v), b, w),
{
    let x1 = overwritten(x, a, v);
    let x2 = overwritten(x1, b, w);
    let x3 = overwritten(x2, a, v);
    let x4 = overwritten(x3, b, w);
    lemma_overwritten(x, a, v);
    lemma_overwritten(x1, b, w);
    lemma_overwritten(x2, a, v);
    lemma_overwritten(x3, b, w);
    assert forall|i: int| 0 <= i < x.len() implies x4[i] == x2[i] by {
        if b <= i < b + 4 {
        } else if a <= i < a + 4 {
        } else {
        }
    }
    assert(x4 =~= x2);
}

/// The bytes of `v` in big-endian order.
pub fn to_be_bytes(v: u32) -> (r: [u8; 4])
    ensures
        r@ == be_bytes(v),
{
    let r: [u8; 4] = [
        (v >> 24) as u8,
        ((v >> 16) & 0xff) as u8,
        ((v >> 8) & 0xff) as u8,
        (v & 0xff) as u8,
    ];
    assert(r@ =~= be_bytes(v));
    r
}

/// The big-endian word stored in `bytes` at offset `at`.
pub fn read_be_u32(bytes: &[u8], at: usize) -> (r: u32)
    requires
        at + 4 <= bytes@.len(),
    ensures
        r == word_at(bytes@, at as int),
{
    ((bytes[at] as u32) << 24) | ((bytes[at + 1] as u32) << 16) | ((bytes[at + 2] as u32) << 8) | (
    bytes[at + 3] as u32)
}

} // verus!
