//! The boot chip of the console: which variant a boot code was written
//! for, and the pair of words that the variant expects as the checksum of
//! the first megabyte after the boot code.

use vstd::prelude::*;
use crate::bytes::{read_be_u32, word_at};

verus! {

/// Length of the image header that precedes the boot code.
pub const HEADER_SIZE: usize = 0x40;

/// Offset at which the boot code ends and the checksummed window starts.
pub const BOOT_CODE_END: usize = 0x1000;

/// Length in bytes of the window that the boot checksum covers.
pub const WINDOW_SIZE: usize = 0x10_0000;

/// Number of 32-bit words in the window.
pub const WINDOW_WORDS: usize = 0x4_0000;

/// Number of leading bytes of an image that the boot checksum needs.
pub const CHECKED_SIZE: usize = 0x10_1000;

/// The reflected CRC-32 polynomial.
pub const POLYNOMIAL: u32 = 0xedb8_8320;

/// The known variants of the boot chip.
#[derive(PartialEq, Eq, Structural, Clone, Copy, Debug)]
pub enum N64CicType {
    Cic6101,
    Cic6102,
    Cic6103,
    Cic6105,
    Cic6106,
}

/// One bit of CRC-32: shift right, and fold the polynomial in when a one
/// fell out.
pub open spec fn crc_shift(c: u32) -> u32 {
    if c & 1 != 0 {
        (c >> 1) ^ POLYNOMIAL
    } else {
        c >> 1
    }
}

/// `n` bits of CRC-32.
pub open spec fn crc_shift_n(c: u32, n: nat) -> u32
    decreases n,
{
    if n == 0 {
        c
    } else {
        crc_shift(crc_shift_n(c, (n - 1) as nat))
    }
}

/// Eight bits of CRC-32.
pub open spec fn crc_shift8(c: u32) -> u32 {
    crc_shift(crc_shift(crc_shift(crc_shift(crc_shift(crc_shift(crc_shift(crc_shift(c))))))))
}

/// The entry of the CRC-32 table for the byte `i`.
pub open spec fn crc_table_entry(i: u8) -> u32 {
    crc_shift8(i as u32)
}

/// The CRC-32 register after the byte `b` went in, bit by bit.
pub open spec fn crc_update(c: u32, b: u8) -> u32 {
    crc_shift8(c ^ (b as u32))
}

/// The CRC-32 register after the bytes of `s`, from the all-ones start.
pub open spec fn crc_register(s: Seq<u8>) -> u32
    decreases s.len(),
{
    if s.len() == 0 {
        0xFFFF_FFFFu32
    } else {
        crc_update(crc_register(s.drop_last()), s.last())
    }
}

/// The standard reflected CRC-32 of `s`: all-ones start, final complement.
pub open spec fn crc32_of(s: Seq<u8>) -> u32 {
    !crc_register(s)
}

/// Eight single steps are `crc_shift8`.
pub proof fn lemma_crc_shift8(c: u32)
    ensures
        crc_shift_n(c, 8) == crc_shift8(c),
{
    reveal_with_fuel(crc_shift_n, 9);
}

/// A byte can go in through the table: the register moves down by eight
/// bits and takes the entry of its low byte mixed with the new byte.
pub proof fn lemma_crc_update_by_table(c: u32, b: u8)
    ensures
        crc_update(c, b) == (c >> 8) ^ crc_table_entry((c as u8) ^ b),
{
    assert(crc_shift8(c ^ (b as u32)) == (c >> 8) ^ crc_shift8(((c as u8) ^ b) as u32))
        by (bit_vector);
}

/// The CRC-32 table: for each byte, what eight bits of CRC make of it.
pub fn crc_generate_table() -> (table: [u32; 256])
    ensures
        forall|i: int| 0 <= i < 256 ==> table@[i] == crc_table_entry(i as u8),
{
    let mut table: [u32; 256] = [0u32; 256];
    let mut i: usize = 0;
    while i < 256
        invariant
            i <= 256,
            forall|j: int| 0 <= j < i ==> table@[j] == crc_table_entry(j as u8),
        decreases 256 - i,
    {
        let mut bit: usize = 8;
        let mut crc: u32 = i as u32;
        while bit > 0
            invariant
                bit <= 8,
                i < 256,
                crc == crc_shift_n(i as u32, (8 - bit) as nat),
            decreases bit,
        {
            crc = if (crc & 1) != 0 {
                (crc >> 1) ^ POLYNOMIAL
            } else {
                crc >> 1
            };
            bit = bit - 1;
        }
        proof {
            lemma_crc_shift8(i as u32);
        }
        table[i] = crc;
        i = i + 1;
    }
    table
}

/// The CRC-32 of `data`.
pub fn crc32(data: &[u8]) -> (crc: u32)
    ensures
        crc == crc32_of(data@),
{
    let table = crc_generate_table();
    let mut crc: u32 = 0xFFFF_FFFF;
    let mut i: usize = 0;
    while i < data.len()
        invariant
            i <= data@.len(),
            crc == crc_register(data@.take(i as int)),
            forall|j: int| 0 <= j < 256 ==> table@[j] == crc_table_entry(j as u8),
        decreases data@.len() - i,
    {
        let byte: u8 = data[i];
        let index: u8 = (crc as u8) ^ byte;
        proof {
            lemma_crc_update_by_table(crc, byte);
            assert(data@.take(i + 1).drop_last() =~= data@.take(i as int));
        }
        crc = (crc >> 8) ^ table[index as usize];
        i = i + 1;
    }
    proof {
        assert(data@.take(i as int) =~= data@);
    }
    !crc
}

/// The boot code of an image: what lies between its header and the
/// checksummed window.
pub open spec fn boot_code(rom: Seq<u8>) -> Seq<u8>
    recommends
        rom.len() >= BOOT_CODE_END,
{
    rom.subrange(HEADER_SIZE as int, BOOT_CODE_END as int)
}

/// The variant whose boot code has the CRC-32 `crc`, if it is a known one.
pub open spec fn cic_of_crc(crc: u32) -> Option<N64CicType> {
    if crc == 0x6170_a4a1 {
        Some(N64CicType::Cic6101)
    } else if crc == 0x90bb_6cb5 {
        Some(N64CicType::Cic6102)
    } else if crc == 0x0b05_0ee0 {
        Some(N64CicType::Cic6103)
    } else if crc == 0x98bc_2c86 {
        Some(N64CicType::Cic6105)
    } else if crc == 0xacc8_580a {
        Some(N64CicType::Cic6106)
    } else {
        None
    }
}

/// A boot chip is told for the five known values and for no other, and
/// each of the five tells another chip but for none.
pub proof fn lemma_cic_of_crc(crc: u32)
    ensures
        cic_of_crc(crc) is Some <==> (crc == 0x6170_a4a1 || crc == 0x90bb_6cb5 || crc == 0x0b05_0ee0
            || crc == 0x98bc_2c86 || crc == 0xacc8_580a),
        cic_of_crc(0x6170_a4a1) == Some(N64CicType::Cic6101),
        cic_of_crc(0x90bb_6cb5) == Some(N64CicType::Cic6102),
        cic_of_crc(0x0b05_0ee0) == Some(N64CicType::Cic6103),
        cic_of_crc(0x98bc_2c86) == Some(N64CicType::Cic6105),
        cic_of_crc(0xacc8_580a) == Some(N64CicType::Cic6106),
{
}

/// The variant that the boot code of `rom` was written for.
pub open spec fn cic_of(rom: Seq<u8>) -> Option<N64CicType>
    recommends
        rom.len() >= BOOT_CODE_END,
{
    cic_of_crc(crc32_of(boot_code(rom)))
}

/// The variant that belongs to a CRC-32 of boot code, `None` for a value
/// that is none of the five known ones.
pub fn cic_from_crc(crc: u32) -> (cic: Option<N64CicType>)
    ensures
        cic == cic_of_crc(crc),
{
    if crc == 0x6170_a4a1 {
        Some(N64CicType::Cic6101)
    } else if crc == 0x90bb_6cb5 {
        Some(N64CicType::Cic6102)
    } else if crc == 0x0b05_0ee0 {
        Some(N64CicType::Cic6103)
    } else if crc == 0x98bc_2c86 {
        Some(N64CicType::Cic6105)
    } else if crc == 0xacc8_580a {
        Some(N64CicType::Cic6106)
    } else {
        None
    }
}

/// Tells which variant of the boot chip the boot code of `rom` belongs to:
/// the CRC-32 of the boot code is looked up among the five known values.
pub fn identify(rom: &[u8]) -> (cic: Option<N64CicType>)
    requires
        rom@.len() >= BOOT_CODE_END,
    ensures
        cic == cic_of(rom@),
{
    let code = vstd::slice::slice_subrange(rom, HEADER_SIZE, BOOT_CODE_END);
    cic_from_crc(crc32(code))
}

/// The six accumulators of the boot checksum.
#[derive(PartialEq, Eq, Structural, Clone, Copy, Debug)]
pub struct BootSums {
    pub t1: u32,
    pub t2: u32,
    pub t3: u32,
    pub t4: u32,
    pub t5: u32,
    pub t6: u32,
}

/// The constant that all six accumulators start from.
pub open spec fn seed_of(cic: N64CicType) -> u32 {
    match cic {
        N64CicType::Cic6101 | N64CicType::Cic6102 => 0xF8CA_4DDCu32,
        N64CicType::Cic6103 => 0xA388_6759u32,
        N64CicType::Cic6105 => 0xDF26_F436u32,
        N64CicType::Cic6106 => 0x1FEA_617Au32,
    }
}

/// The accumulators before the first word.
pub open spec fn boot_start(cic: N64CicType) -> BootSums {
    let seed = seed_of(cic);
    BootSums { t1: seed, t2: seed, t3: seed, t4: seed, t5: seed, t6: seed }
}

/// The word `d` turned left by its own low five bits: `d` shifted left by
/// that amount, joined with `d` shifted right by the rest of the 32 bits,
/// where a shift by 32 counts as zero.
pub open spec fn turned(d: u32) -> u32 {
    let s = d & 0x1F;
    (d << s) | (if s == 0 {
        0u32
    } else {
        d >> ((32 - s) as u32)
    })
}

/// Byte offset, inside the window, of the word that one variant mixes in
/// at word `i` in place of the fifth accumulator.
pub open spec fn side_offset(i: int) -> int {
    (4 * i + 0x710) % 0x100
}

/// The accumulators after word `i` of `window` went in.
pub open spec fn boot_step(cic: N64CicType, window: Seq<u8>, i: int, st: BootSums) -> BootSums {
    let d = word_at(window, 4 * i);
    let r = turned(d);
    let t6 = st.t6.wrapping_add(d);
    let t4 = if st.t6 + d > u32::MAX {
        st.t4.wrapping_add(1)
    } else {
        st.t4
    };
    let t3 = st.t3 ^ d;
    let t5 = st.t5.wrapping_add(r);
    let t2 = st.t2 ^ (if st.t2 > d {
        r
    } else {
        t6 ^ d
    });
    let x = if cic == N64CicType::Cic6105 {
        word_at(window, side_offset(i))
    } else {
        t5
    };
    let t1 = st.t1.wrapping_add(d ^ x);
    BootSums { t1, t2, t3, t4, t5, t6 }
}

/// The accumulators after the first `n` words of `window`.
pub open spec fn boot_sums(cic: N64CicType, window: Seq<u8>, n: nat) -> BootSums
    decreases n,
{
    if n == 0 {
        boot_start(cic)
    } else {
        boot_step(cic, window, n - 1, boot_sums(cic, window, (n - 1) as nat))
    }
}

/// The two words that the accumulators are folded into, by the rule of
/// the variant.
pub open spec fn boot_fold(cic: N64CicType, st: BootSums) -> (u32, u32) {
    match cic {
        N64CicType::Cic6103 => ((st.t6 ^ st.t4).wrapping_add(st.t3), (st.t5 ^ st.t2).wrapping_add(
            st.t1,
        )),
        N64CicType::Cic6106 => (
            st.t6.wrapping_mul(st.t4).wrapping_add(st.t3),
            st.t5.wrapping_mul(st.t2).wrapping_add(st.t1),
        ),
        _ => (st.t6 ^ st.t4 ^ st.t3, st.t5 ^ st.t2 ^ st.t1),
    }
}

/// The window of an image that the boot checksum covers.
pub open spec fn boot_window(rom: Seq<u8>) -> Seq<u8>
    recommends
        rom.len() >= CHECKED_SIZE,
{
    rom.subrange(BOOT_CODE_END as int, CHECKED_SIZE as int)
}

/// The boot checksum of `rom` for the variant `cic`.
pub open spec fn boot_crc_of(cic: N64CicType, rom: Seq<u8>) -> (u32, u32)
    recommends
        rom.len() >= CHECKED_SIZE,
{
    boot_fold(cic, boot_sums(cic, boot_window(rom), WINDOW_WORDS as nat))
}

/// The constant that the accumulators of `cic` start from.
pub fn seed(cic: N64CicType) -> (s: u32)
    ensures
        s == seed_of(cic),
{
    match cic {
        N64CicType::Cic6101 | N64CicType::Cic6102 => 0xF8CA_4DDC,
        N64CicType::Cic6103 => 0xA388_6759,
        N64CicType::Cic6105 => 0xDF26_F436,
        N64CicType::Cic6106 => 0x1FEA_617A,
    }
}

/// Takes word `i` of `window` into the accumulators.
pub fn boot_step_word(cic: N64CicType, window: &[u8], i: usize, st: BootSums) -> (next: BootSums)
    requires
        window@.len() == WINDOW_SIZE,
        i < WINDOW_WORDS,
    ensures
        next == boot_step(cic, window@, i as int, st),
{
    let d: u32 = read_be_u32(window, 4 * i);
    let s: u32 = d & 0x1F;
    assert(d & 0x1F < 32) by (bit_vector);
    let r: u32 = (d << s) | (if s == 0 {
        0
    } else {
        d >> (32 - s)
    });
    let t6 = st.t6.wrapping_add(d);
    let t4 = st.t4.wrapping_add(if t6 < st.t6 {
        1
    } else {
        0
    });
    let t3 = st.t3 ^ d;
    let t5 = st.t5.wrapping_add(r);
    let t2 = st.t2 ^ (if st.t2 > d {
        r
    } else {
        t6 ^ d
    });
    let x = if cic == N64CicType::Cic6105 {
        let offset: usize = (4 * i + 0x710) & 0xff;
        assert(((4 * i + 0x710) as usize) & 0xff == ((4 * i + 0x710) as usize) % 0x100)
            by (bit_vector);
        read_be_u32(window, offset)
    } else {
        t5
    };
    let t1 = st.t1.wrapping_add(d ^ x);
    BootSums { t1, t2, t3, t4, t5, t6 }
}

/// Folds the accumulators into the two checksum words of `cic`.
pub fn boot_fold_sums(cic: N64CicType, st: BootSums) -> (words: (u32, u32))
    ensures
        words == boot_fold(cic, st),
{
    match cic {
        N64CicType::Cic6103 => ((st.t6 ^ st.t4).wrapping_add(st.t3), (st.t5 ^ st.t2).wrapping_add(
            st.t1,
        )),
        N64CicType::Cic6106 => (
            st.t6.wrapping_mul(st.t4).wrapping_add(st.t3),
            st.t5.wrapping_mul(st.t2).wrapping_add(st.t1),
        ),
        _ => (st.t6 ^ st.t4 ^ st.t3, st.t5 ^ st.t2 ^ st.t1),
    }
}

/// The boot checksum of `rom` for a boot chip that is already known.
pub fn boot_crc(cic: N64CicType, rom: &[u8]) -> (words: [u32; 2])
    requires
        rom@.len() >= CHECKED_SIZE,
    ensures
        words@ == seq![boot_crc_of(cic, rom@).0, boot_crc_of(cic, rom@).1],
{
    let window = vstd::slice::slice_subrange(rom, BOOT_CODE_END, CHECKED_SIZE);
    let start = seed(cic);
    let mut st = BootSums { t1: start, t2: start, t3: start, t4: start, t5: start, t6: start };
    let mut i: usize = 0;
    while i < WINDOW_WORDS
        invariant
            i <= WINDOW_WORDS,
            window@.len() == WINDOW_SIZE,
            st == boot_sums(cic, window@, i as nat),
        decreases WINDOW_WORDS - i,
    {
        st = boot_step_word(cic, window, i, st);
        i = i + 1;
    }
    let folded = boot_fold_sums(cic, st);
    let words: [u32; 2] = [folded.0, folded.1];
    assert(words@ =~= seq![folded.0, folded.1]);
    words
}

/// The boot checksum of an image: the variant of the boot chip is told
/// from the boot code, and the first megabyte after the boot code is
/// summed by the rule of that variant. `None` for a boot code that belongs
/// to no known variant.
pub fn calculate_crc(rom: &[u8]) -> (crc: Option<[u32; 2]>)
    requires
        rom@.len() >= CHECKED_SIZE,
    ensures
        crc is None <==> cic_of(rom@) is None,
        crc matches Some(words) ==> words@ == seq![
            boot_crc_of(cic_of(rom@).unwrap(), rom@).0,
            boot_crc_of(cic_of(rom@).unwrap(), rom@).1,
        ],
{
    match identify(rom) {
        None => None,
        Some(bootcode) => Some(boot_crc(bootcode, rom)),
    }
}

} // verus!
