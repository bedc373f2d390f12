//! The other output of the build: in place of the image, a list of
//! symbols that say where each compressed overlay starts and ends in it.

use vstd::prelude::*;
use vstd::string::StringExecFns;
use crate::error::{BuildError, Fault};
use crate::game::{version_tag, GameVersion};
use crate::image::{block_views, present, presented};
use crate::symbols::name_views;

verus! {

/// The hexadecimal digit of a value below 16, in upper case.
pub open spec fn hex_digit(d: nat) -> char {
    if d == 0 {
        '0'
    } else if d == 1 {
        '1'
    } else if d == 2 {
        '2'
    } else if d == 3 {
        '3'
    } else if d == 4 {
        '4'
    } else if d == 5 {
        '5'
    } else if d == 6 {
        '6'
    } else if d == 7 {
        '7'
    } else if d == 8 {
        '8'
    } else if d == 9 {
        '9'
    } else if d == 10 {
        'A'
    } else if d == 11 {
        'B'
    } else if d == 12 {
        'C'
    } else if d == 13 {
        'D'
    } else if d == 14 {
        'E'
    } else {
        'F'
    }
}

/// `n` in hexadecimal, upper case, without leading zeros.
pub open spec fn hex_upper(n: nat) -> Seq<char>
    decreases n,
{
    if n < 16 {
        seq![hex_digit(n)]
    } else {
        hex_upper(n / 16).push(hex_digit(n % 16))
    }
}

/// One line of the list: the symbol of the start or of the end of the
/// compressed overlay `name`, for the release `tag`, and its offset.
pub open spec fn symbol_line(name: Seq<char>, tag: Seq<char>, edge: Seq<char>, offset: nat) -> Seq<
    char,
> {
    "boot_"@ + name + "_"@ + tag + "_rzip_ROM_"@ + edge + " = 0x"@ + hex_upper(offset) + ";\n"@
}

/// The two lines of an overlay that starts at `start` and is `len` bytes
/// long: first its start, then its end.
pub open spec fn overlay_lines(name: Seq<char>, tag: Seq<char>, start: nat, len: nat) -> Seq<char> {
    symbol_line(name, tag, "START"@, start) + symbol_line(name, tag, "END"@, start + len)
}

/// The lengths of the first `n` blocks together.
pub open spec fn total_len(blocks: Seq<Seq<u8>>, n: nat) -> nat
    decreases n,
{
    if n == 0 {
        0
    } else {
        total_len(blocks, (n - 1) as nat) + blocks[n - 1].len()
    }
}

/// The lines of the first `n` overlays: each starts where the one
/// before it ends, and the first at `start`.
pub open spec fn listed(
    names: Seq<Seq<char>>,
    tag: Seq<char>,
    start: nat,
    blocks: Seq<Seq<u8>>,
    n: nat,
) -> Seq<char>
    decreases n,
{
    if n == 0 {
        Seq::empty()
    } else {
        listed(names, tag, start, blocks, (n - 1) as nat) + overlay_lines(
            names[n - 1],
            tag,
            start + total_len(blocks, (n - 1) as nat),
            blocks[n - 1].len(),
        )
    }
}

/// The number of overlays that have both a name and a block.
pub open spec fn paired(names: nat, blocks: nat) -> nat {
    if names <= blocks {
        names
    } else {
        blocks
    }
}

/// The number of the first overlays, out of `n`, whose blocks end at
/// offsets that fit into 64 bits, where the first block starts at
/// `start`.
pub open spec fn fitting(start: u64, blocks: Seq<Seq<u8>>, n: nat) -> nat
    decreases n,
{
    if n == 0 {
        0
    } else if start + total_len(blocks, n) <= u64::MAX {
        n
    } else {
        fitting(start, blocks, (n - 1) as nat)
    }
}

/// The list of symbols for the overlays `names` with the compressed
/// blocks `blocks`, both given in the order in which the overlays are
/// worked on, and listed in the order in which they stand in the image.
/// A failure, which names the first overlay whose end does not fit,
/// where an offset would not fit into 64 bits.
pub open spec fn listing_of(
    names: Seq<Seq<char>>,
    tag: Seq<char>,
    start: u64,
    blocks: Seq<Seq<u8>>,
) -> Result<Seq<char>, Fault> {
    let n = paired(names.len(), blocks.len());
    let fit = fitting(start, presented(blocks), n);
    if fit < n {
        Err(Fault::OffsetOverflow { name: presented(names)[fit as int] })
    } else {
        Ok(listed(presented(names), tag, start as nat, presented(blocks), n))
    }
}

/// The blocks that fit are the first ones: where the first `m` blocks
/// fit and the next does not, `m` is the number of those that fit out
/// of any greater number.
pub proof fn lemma_fitting(start: u64, blocks: Seq<Seq<u8>>, m: nat, n: nat)
    requires
        m <= n,
        start + total_len(blocks, m) <= u64::MAX,
        m < n ==> start + total_len(blocks, m + 1) > u64::MAX,
    ensures
        fitting(start, blocks, n) == m,
    decreases n - m,
{
    if m < n {
        lemma_total_len_grows(blocks, m + 1, n);
        lemma_fitting(start, blocks, m, (n - 1) as nat);
    }
}

/// The text of one hexadecimal digit.
fn digit_text(d: u64) -> (text: &'static str)
    requires
        d < 16,
    ensures
        text@ == seq![hex_digit(d as nat)],
{
    proof {
        reveal_strlit("0");
        reveal_strlit("1");
        reveal_strlit("2");
        reveal_strlit("3");
        reveal_strlit("4");
        reveal_strlit("5");
        reveal_strlit("6");
        reveal_strlit("7");
        reveal_strlit("8");
        reveal_strlit("9");
        reveal_strlit("A");
        reveal_strlit("B");
        reveal_strlit("C");
        reveal_strlit("D");
        reveal_strlit("E");
        reveal_strlit("F");
    }
    let text = if d == 0 {
        "0"
    } else if d == 1 {
        "1"
    } else if d == 2 {
        "2"
    } else if d == 3 {
        "3"
    } else if d == 4 {
        "4"
    } else if d == 5 {
        "5"
    } else if d == 6 {
        "6"
    } else if d == 7 {
        "7"
    } else if d == 8 {
        "8"
    } else if d == 9 {
        "9"
    } else if d == 10 {
        "A"
    } else if d == 11 {
        "B"
    } else if d == 12 {
        "C"
    } else if d == 13 {
        "D"
    } else if d == 14 {
        "E"
    } else {
        "F"
    };
    assert(text@ =~= seq![hex_digit(d as nat)]);
    text
}

/// Adds `n` in hexadecimal, upper case, to the end of `out`.
pub fn push_hex(out: &mut String, n: u64)
    ensures
        final(out)@ == old(out)@ + hex_upper(n as nat),
    decreases n,
{
    if n < 16 {
        out.append(digit_text(n));
    } else {
        push_hex(out, n / 16);
        out.append(digit_text(n % 16));
        assert(out@ =~= old(out)@ + hex_upper(n as nat));
    }
}

/// Adds one line of the list to the end of `out`.
fn push_line(out: &mut String, name: &str, tag: &str, edge: &str, offset: u64)
    ensures
        final(out)@ == old(out)@ + symbol_line(name@, tag@, edge@, offset as nat),
{
    out.append("boot_");
    out.append(name);
    out.append("_");
    out.append(tag);
    out.append("_rzip_ROM_");
    out.append(edge);
    out.append(" = 0x");
    push_hex(out, offset);
    out.append(";\n");
    assert(out@ =~= old(out)@ + symbol_line(name@, tag@, edge@, offset as nat));
}

/// Writes the list of symbols: for each overlay the offsets at which
/// its compressed block starts and ends in the image, where the first
/// block starts at `start`. `names` and `blocks` come in the order in
/// which the overlays are worked on; the list is in the order in which
/// they stand in the image.
pub fn symbol_listing(
    names: &Vec<String>,
    version: GameVersion,
    start: u64,
    blocks: &Vec<Vec<u8>>,
) -> (done: Result<String, BuildError>)
    ensures
        match listing_of(name_views(names@), version_tag(version), start, block_views(blocks@)) {
            Ok(text) => done matches Ok(out) && out@ == text,
            Err(fault) => done matches Err(e) && e@ == fault,
        },
{
    let mut ordered_names: Vec<String> = Vec::new();
    let mut i: usize = 0;
    while i < names.len()
        invariant
            i <= names@.len(),
            name_views(ordered_names@) == name_views(names@).take(i as int),
        decreases names@.len() - i,
    {
        let name = names[i].clone();
        proof {
            assert(name_views(ordered_names@.push(name)) =~= name_views(ordered_names@).push(
                name@,
            ));
            assert(name_views(names@).take(i + 1) =~= name_views(names@).take(i as int).push(
                names@[i as int]@,
            ));
        }
        ordered_names.push(name);
        i = i + 1;
    }
    proof {
        assert(name_views(names@).take(i as int) =~= name_views(names@));
    }
    let mut lens: Vec<usize> = Vec::new();
    let mut k: usize = 0;
    while k < blocks.len()
        invariant
            k <= blocks@.len(),
            lens@.len() == k,
            forall|j: int| 0 <= j < k ==> lens@[j] == blocks@[j]@.len(),
        decreases blocks@.len() - k,
    {
        lens.push(blocks[k].len());
        k = k + 1;
    }
    present(&mut ordered_names);
    present(&mut lens);
    let ghost all_names = presented(name_views(names@));
    let ghost all_blocks = presented(block_views(blocks@));
    let ghost tag = version_tag(version);
    proof {
        assert(name_views(ordered_names@) =~= all_names);
        assert(lens@.len() == all_blocks.len());
        assert forall|j: int| 0 <= j < lens@.len() implies lens@[j] == all_blocks[j].len() by {}
    }
    let n: usize = if ordered_names.len() <= lens.len() {
        ordered_names.len()
    } else {
        lens.len()
    };
    let mut text = String::new();
    let mut offset: u64 = start;
    let mut p: usize = 0;
    while p < n
        invariant
            p <= n,
            n <= ordered_names@.len(),
            n <= lens@.len(),
            n == paired(names@.len(), blocks@.len()),
            name_views(ordered_names@) == all_names,
            lens@.len() == all_blocks.len(),
            forall|j: int| 0 <= j < lens@.len() ==> lens@[j] == all_blocks[j].len(),
            tag == version_tag(version),
            all_names == presented(name_views(names@)),
            all_blocks == presented(block_views(blocks@)),
            offset == start + total_len(all_blocks, p as nat),
            text@ == listed(all_names, tag, start as nat, all_blocks, p as nat),
        decreases n - p,
    {
        let len = lens[p];
        if len as u64 > u64::MAX - offset {
            proof {
                lemma_fitting(start, all_blocks, p as nat, n as nat);
                assert(all_names[p as int] == ordered_names@[p as int]@);
            }
            return Err(BuildError::OffsetOverflow { name: ordered_names[p].clone() });
        }
        let end: u64 = offset + len as u64;
        proof {
            assert(all_names[p as int] == ordered_names@[p as int]@);
        }
        push_line(&mut text, ordered_names[p].as_str(), version.tag(), "START", offset);
        push_line(&mut text, ordered_names[p].as_str(), version.tag(), "END", end);
        proof {
            assert(text@ =~= listed(all_names, tag, start as nat, all_blocks, (p + 1) as nat));
        }
        offset = end;
        p = p + 1;
    }
    proof {
        lemma_fitting(start, all_blocks, n as nat, n as nat);
    }
    Ok(text)
}

/// The length of more blocks together is not less.
pub proof fn lemma_total_len_grows(blocks: Seq<Seq<u8>>, m: nat, n: nat)
    requires
        m <= n,
    ensures
        total_len(blocks, m) <= total_len(blocks, n),
    decreases n - m,
{
    if m < n {
        lemma_total_len_grows(blocks, m, (n - 1) as nat);
    }
}

} // verus!
