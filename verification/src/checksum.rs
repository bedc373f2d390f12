//! The running checksum that the game computes over an overlay's code and
//! data: a byte sum and a shifted exclusive-or, carried along together.

use vstd::prelude::*;
use crate::bytes::overwritten;

verus! {

/// The pair of accumulators before any byte has been taken in.
pub open spec fn checksum_start() -> (u32, u32) {
    (0u32, 0xFFFF_FFFFu32)
}

/// The accumulators after one more byte `b`. The sum wraps at 32 bits; the
/// shift of the byte is taken from the sum as it is *after* the addition.
pub open spec fn checksum_step(acc: (u32, u32), b: u8) -> (u32, u32) {
    let a = acc.0.wrapping_add(b as u32);
    (a, acc.1 ^ ((b as u32) << (a & 0x17)))
}

/// The accumulators after the bytes of `s` have been taken in from `acc`,
/// first to last.
pub open spec fn checksum_from(acc: (u32, u32), s: Seq<u8>) -> (u32, u32)
    decreases s.len(),
{
    if s.len() == 0 {
        acc
    } else {
        checksum_step(checksum_from(acc, s.drop_last()), s.last())
    }
}

/// The checksum of a span of bytes.
pub open spec fn checksum_of(s: Seq<u8>) -> (u32, u32) {
    checksum_from(checksum_start(), s)
}

/// The sum of the bytes of `s`, as a mathematical integer.
pub open spec fn byte_sum(s: Seq<u8>) -> nat
    decreases s.len(),
{
    if s.len() == 0 {
        0
    } else {
        byte_sum(s.drop_last()) + s.last() as nat
    }
}

/// The checksum of no bytes is the starting pair.
pub proof fn lemma_checksum_empty()
    ensures
        checksum_of(Seq::<u8>::empty()) == (0u32, 0xFFFF_FFFFu32),
{
}

/// The checksum is a function of the bytes and of nothing else: spans
/// of the same bytes have the same checksum.
pub proof fn lemma_checksum_deterministic(s: Seq<u8>, t: Seq<u8>)
    requires
        s.len() == t.len(),
        forall|i: int| 0 <= i < s.len() ==> s[i] == t[i],
    ensures
        checksum_of(s) == checksum_of(t),
{
    assert(s =~= t);
}

/// One more byte at the end is one more step.
pub proof fn lemma_checksum_push(s: Seq<u8>, b: u8)
    ensures
        checksum_of(s.push(b)) == checksum_step(checksum_of(s), b),
{
    assert(s.push(b).drop_last() =~= s);
}

/// A span can be taken in piece by piece: the checksum of `s + t` is what
/// the bytes of `t` make of the checksum of `s`.
pub proof fn lemma_checksum_concat(acc: (u32, u32), s: Seq<u8>, t: Seq<u8>)
    ensures
        checksum_from(acc, s + t) == checksum_from(checksum_from(acc, s), t),
    decreases t.len(),
{
    if t.len() == 0 {
        assert(s + t =~= s);
    } else {
        lemma_checksum_concat(acc, s, t.drop_last());
        assert((s + t).drop_last() =~= s + t.drop_last());
    }
}

/// The first accumulator is the sum of the bytes, modulo 2^32: it does not
/// depend on their order.
pub proof fn lemma_checksum_sum(s: Seq<u8>)
    ensures
        checksum_of(s).0 == byte_sum(s) % 0x1_0000_0000,
    decreases s.len(),
{
    if s.len() > 0 {
        lemma_checksum_sum(s.drop_last());
    }
}

/// The sum of the bytes of two spans, one after the other, is the sum of
/// their sums.
pub proof fn lemma_byte_sum_concat(s: Seq<u8>, t: Seq<u8>)
    ensures
        byte_sum(s + t) == byte_sum(s) + byte_sum(t),
    decreases t.len(),
{
    if t.len() == 0 {
        assert(s + t =~= s);
    } else {
        lemma_byte_sum_concat(s, t.drop_last());
        assert((s + t).drop_last() =~= s + t.drop_last());
    }
}

/// Overwriting four bytes changes the sum of the bytes by what the new
/// four bytes add and the old four took.
pub proof fn lemma_byte_sum_overwritten(s: Seq<u8>, at: int, value: Seq<u8>)
    requires
        0 <= at,
        at + 4 <= s.len(),
        value.len() == 4,
    ensures
        byte_sum(overwritten(s, at, value)) + byte_sum(s.subrange(at, at + 4)) == byte_sum(s)
            + byte_sum(value),
{
    let head = s.subrange(0, at);
    let old = s.subrange(at, at + 4);
    let tail = s.subrange(at + 4, s.len() as int);
    assert(s =~= head + old + tail);
    lemma_byte_sum_concat(head, old);
    lemma_byte_sum_concat(head + old, tail);
    lemma_byte_sum_concat(head, value);
    lemma_byte_sum_concat(head + value, tail);
}

/// The sum of four bytes.
pub proof fn lemma_byte_sum_four(s: Seq<u8>)
    requires
        s.len() == 4,
    ensures
        byte_sum(s) == s[0] + s[1] + s[2] + s[3],
{
    reveal_with_fuel(byte_sum, 5);
    assert(s.drop_last().drop_last().drop_last().drop_last().len() == 0);
}

/// The second accumulator does depend on the order of the bytes: there are
/// spans whose checksum changes when they are reversed.
pub proof fn lemma_checksum_order_sensitive()
    ensures
        exists|s: Seq<u8>| checksum_of(s) != checksum_of(s.reverse()),
{
    let s = seq![1u8, 2u8];
    let r = seq![2u8, 1u8];
    assert(s.reverse() =~= r);
    lemma_checksum_push(Seq::<u8>::empty(), 1u8);
    lemma_checksum_push(Seq::<u8>::empty(), 2u8);
    assert(Seq::<u8>::empty().push(1u8) =~= seq![1u8]);
    assert(Seq::<u8>::empty().push(2u8) =~= seq![2u8]);
    lemma_checksum_push(seq![1u8], 2u8);
    lemma_checksum_push(seq![2u8], 1u8);
    assert(seq![1u8].push(2u8) =~= s);
    assert(seq![2u8].push(1u8) =~= r);
    assert(0xFFFF_FFFFu32 ^ (1u32 << (1u32 & 0x17)) ^ (2u32 << (3u32 & 0x17)) != 0xFFFF_FFFFu32 ^ (
    2u32 << (2u32 & 0x17)) ^ (1u32 << (3u32 & 0x17))) by (bit_vector);
    assert(checksum_of(s) != checksum_of(r));
}

/// The checksum of `bytes`.
pub fn bk_crc(bytes: &[u8]) -> (crc: (u32, u32))
    ensures
        crc == checksum_of(bytes@),
{
    let mut a: u32 = 0;
    let mut b: u32 = 0xFFFF_FFFF;
    let mut i: usize = 0;
    while i < bytes.len()
        invariant
            i <= bytes@.len(),
            (a, b) == checksum_of(bytes@.take(i as int)),
        decreases bytes@.len() - i,
    {
        let byte: u32 = bytes[i] as u32;
        a = a.wrapping_add(byte);
        let shift: u32 = a & 0x17;
        assert(a & 0x17 < 32) by (bit_vector);
        b = b ^ (byte << shift);
        proof {
            assert(bytes@.take(i + 1).drop_last() =~= bytes@.take(i as int));
        }
        i = i + 1;
    }
    proof {
        assert(bytes@.take(i as int) =~= bytes@);
    }
    (a, b)
}

} // verus!
