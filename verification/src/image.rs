//! The layout of the final image: what precedes the overlays, the block
//! of checksums, the compressed overlays on 16-byte boundaries, the fill,
//! and the boot checksum that is written last.

use vstd::prelude::*;
use vstd::slice::slice_subrange;
use crate::bytes::{
    be_bytes, lemma_be_round_trip, lemma_with_word, to_be_bytes, with_word, word_at,
};
use crate::checksum::{bk_crc, checksum_of};
use crate::cic::{
    boot_code, boot_crc_of, boot_window, calculate_crc, cic_of, crc32, crc32_of, BOOT_CODE_END,
    CHECKED_SIZE, HEADER_SIZE,
};
use crate::error::{BuildError, Fault};
use crate::patch::write_at;

verus! {

/// The fixed size of the final image: 16 MiB.
pub const IMAGE_SIZE: usize = 0x100_0000;

/// The size of the block of checksums that follows the boot segment.
pub const SUMS_SIZE: usize = 0x20;

/// The offset inside the block of checksums at which the two words of
/// the boot checksum stand: its last eight bytes.
pub const BOOT_CRC_SLOT: usize = 0x18;

/// The boundary on which each compressed overlay starts.
pub const BLOCK_ALIGN: usize = 16;

/// `n` bytes of the value `byte`.
pub open spec fn repeated(byte: u8, n: nat) -> Seq<u8> {
    Seq::new(n, |i: int| byte)
}

/// The block of checksums as it is before the image is laid out: the
/// two words of the checksum of the boot segment, of the code of the
/// primary core and of its data, each word big-endian, and eight bytes,
/// zero, in which the boot checksum is written last.
pub open spec fn sums_block(boot: Seq<u8>, code: Seq<u8>, data: Seq<u8>) -> Seq<u8> {
    be_bytes(checksum_of(boot).0) + be_bytes(checksum_of(boot).1) + be_bytes(checksum_of(code).0)
        + be_bytes(checksum_of(code).1) + be_bytes(checksum_of(data).0) + be_bytes(
        checksum_of(data).1,
    ) + repeated(0, 8)
}

/// The block of checksums is 32 bytes long, and its first six words are
/// the checksums it was made of.
pub proof fn lemma_sums_block(boot: Seq<u8>, code: Seq<u8>, data: Seq<u8>)
    ensures
        sums_block(boot, code, data).len() == SUMS_SIZE,
        word_at(sums_block(boot, code, data), 0) == checksum_of(boot).0,
        word_at(sums_block(boot, code, data), 4) == checksum_of(boot).1,
        word_at(sums_block(boot, code, data), 8) == checksum_of(code).0,
        word_at(sums_block(boot, code, data), 12) == checksum_of(code).1,
        word_at(sums_block(boot, code, data), 16) == checksum_of(data).0,
        word_at(sums_block(boot, code, data), 20) == checksum_of(data).1,
        forall|i: int| 24 <= i < 32 ==> sums_block(boot, code, data)[i] == 0,
{
    lemma_be_round_trip(checksum_of(boot).0);
    lemma_be_round_trip(checksum_of(boot).1);
    lemma_be_round_trip(checksum_of(code).0);
    lemma_be_round_trip(checksum_of(code).1);
    lemma_be_round_trip(checksum_of(data).0);
    lemma_be_round_trip(checksum_of(data).1);
}

/// Adds `bytes` to the end of `out`.
pub fn append_bytes(out: &mut Vec<u8>, bytes: &[u8])
    ensures
        final(out)@ == old(out)@ + bytes@,
{
    let mut i: usize = 0;
    while i < bytes.len()
        invariant
            i <= bytes@.len(),
            out@ == old(out)@ + bytes@.take(i as int),
        decreases bytes@.len() - i,
    {
        out.push(bytes[i]);
        proof {
            assert(bytes@.take(i + 1) =~= bytes@.take(i as int).push(bytes@[i as int]));
            assert(out@ =~= old(out)@ + bytes@.take(i + 1));
        }
        i = i + 1;
    }
    proof {
        assert(bytes@.take(i as int) =~= bytes@);
    }
}

/// Adds `n` bytes of the value `byte` to the end of `out`.
pub fn append_repeated(out: &mut Vec<u8>, byte: u8, n: usize)
    ensures
        final(out)@ == old(out)@ + repeated(byte, n as nat),
{
    let mut i: usize = 0;
    while i < n
        invariant
            i <= n,
            out@ == old(out)@ + repeated(byte, i as nat),
        decreases n - i,
    {
        out.push(byte);
        proof {
            assert(out@ =~= old(out)@ + repeated(byte, (i + 1) as nat));
        }
        i = i + 1;
    }
}

/// Makes the block of checksums from the bytes of the boot segment and
/// the code and data of the primary core.
pub fn checksum_header(boot: &[u8], code: &[u8], data: &[u8]) -> (block: [u8; 32])
    ensures
        block@ == sums_block(boot@, code@, data@),
{
    let boot_sum = bk_crc(boot);
    let code_sum = bk_crc(code);
    let data_sum = bk_crc(data);
    let mut bytes: Vec<u8> = Vec::new();
    append_bytes(&mut bytes, to_be_bytes(boot_sum.0).as_slice());
    append_bytes(&mut bytes, to_be_bytes(boot_sum.1).as_slice());
    append_bytes(&mut bytes, to_be_bytes(code_sum.0).as_slice());
    append_bytes(&mut bytes, to_be_bytes(code_sum.1).as_slice());
    append_bytes(&mut bytes, to_be_bytes(data_sum.0).as_slice());
    append_bytes(&mut bytes, to_be_bytes(data_sum.1).as_slice());
    append_repeated(&mut bytes, 0, 8);
    assert(bytes@ =~= sums_block(boot@, code@, data@));
    let mut block: [u8; 32] = [0u8; 32];
    let mut i: usize = 0;
    while i < 32
        invariant
            i <= 32,
            bytes@.len() == 32,
            forall|j: int| 0 <= j < i ==> block@[j] == bytes@[j],
        decreases 32 - i,
    {
        block[i] = bytes[i];
        i = i + 1;
    }
    assert(block@ =~= bytes@);
    block
}

/// The least multiple of 16 that is not below `n`.
pub open spec fn aligned(n: nat) -> nat {
    ((n + 15) / 16) * 16
}

/// A compressed overlay as it stands in the image: its compressed code,
/// its compressed data, and zero bytes up to the next 16-byte boundary.
pub open spec fn block_of(code: Seq<u8>, data: Seq<u8>) -> Seq<u8> {
    code + data + repeated(0, (aligned(code.len() + data.len()) - (code.len() + data.len())) as nat)
}

/// A block ends on a 16-byte boundary, and fewer than 16 bytes were
/// added to reach it.
pub proof fn lemma_block_aligned(code: Seq<u8>, data: Seq<u8>)
    ensures
        block_of(code, data).len() == aligned(code.len() + data.len()),
        block_of(code, data).len() % 16 == 0,
        code.len() + data.len() <= block_of(code, data).len() < code.len() + data.len() + 16,
{
}

/// Joins the compressed code and data of an overlay and pads them with
/// zero bytes to the next 16-byte boundary.
pub fn pack_block(code_rzip: Vec<u8>, data_rzip: Vec<u8>) -> (block: Vec<u8>)
    requires
        code_rzip@.len() + data_rzip@.len() + 15 <= usize::MAX,
    ensures
        block@ == block_of(code_rzip@, data_rzip@),
{
    let mut block = code_rzip;
    append_bytes(&mut block, data_rzip.as_slice());
    let len: usize = block.len();
    let target: usize = (len + (BLOCK_ALIGN - 1)) & !(BLOCK_ALIGN - 1);
    assert(((len + 15) as usize) & !15usize == (((len + 15) as usize) / 16) * 16) by (bit_vector);
    append_repeated(&mut block, 0, target - len);
    block
}

/// The blocks one after the other.
pub open spec fn joined(blocks: Seq<Seq<u8>>) -> Seq<u8>
    decreases blocks.len(),
{
    if blocks.len() == 0 {
        Seq::empty()
    } else {
        joined(blocks.drop_last()) + blocks.last()
    }
}

/// The views of a list of blocks.
pub open spec fn block_views(blocks: Seq<Vec<u8>>) -> Seq<Seq<u8>> {
    blocks.map_values(|block: Vec<u8>| block@)
}

/// The order in which the overlays stand in the image: the order in
/// which they are worked on, with the fourth and the fifth changing
/// places. A list too short to have both stays as it is.
pub open spec fn presented<T>(items: Seq<T>) -> Seq<T> {
    if items.len() >= 5 {
        items.update(3, items[4]).update(4, items[3])
    } else {
        items
    }
}

/// Makes the items at `i` and at `j` change places.
pub fn swap_items<T>(items: &mut Vec<T>, i: usize, j: usize)
    requires
        i < j,
        j < old(items)@.len(),
    ensures
        final(items)@ == old(items)@.update(i as int, old(items)@[j as int]).update(
            j as int,
            old(items)@[i as int],
        ),
{
    let later = items.remove(j);
    let earlier = items.remove(i);
    items.insert(i, later);
    items.insert(j, earlier);
    assert(items@ =~= old(items)@.update(i as int, old(items)@[j as int]).update(
        j as int,
        old(items)@[i as int],
    ));
}

/// Puts `items` into the order in which the overlays stand in the
/// image.
pub fn present<T>(items: &mut Vec<T>)
    ensures
        final(items)@ == presented(old(items)@),
{
    if items.len() >= 5 {
        swap_items(items, 3, 4);
    }
}

/// Joins `blocks`, one after the other.
pub fn join_blocks(blocks: &Vec<Vec<u8>>) -> (all: Vec<u8>)
    ensures
        all@ == joined(block_views(blocks@)),
{
    let ghost views = block_views(blocks@);
    let mut all: Vec<u8> = Vec::new();
    let mut i: usize = 0;
    while i < blocks.len()
        invariant
            i <= blocks@.len(),
            views == block_views(blocks@),
            all@ == joined(views.take(i as int)),
        decreases blocks@.len() - i,
    {
        proof {
            assert(views.take(i + 1).drop_last() =~= views.take(i as int));
        }
        append_bytes(&mut all, blocks[i].as_slice());
        i = i + 1;
    }
    proof {
        assert(views.take(i as int) =~= views);
    }
    all
}

/// Whether the pieces that precede the overlays are spans of a source
/// image of `rom_len` bytes: the bytes before the boot segment, and the
/// bytes between the place where the block of checksums stood and the
/// first overlay.
pub open spec fn layout_fits(rom_len: nat, boot_start: u64, sums_start: u64, overlay_start: u64) -> bool {
    boot_start <= rom_len && sums_start + SUMS_SIZE <= overlay_start && overlay_start <= rom_len
}

/// The image up to the end of the last overlay: the bytes of the source
/// image before the boot segment; the boot segment; the block of
/// checksums; the bytes of the source image between the place where the
/// block of checksums stood and the first overlay; the compressed
/// overlays, in the order of the image.
pub open spec fn image_body(
    rom: Seq<u8>,
    boot_start: u64,
    boot: Seq<u8>,
    sums: Seq<u8>,
    sums_start: u64,
    overlay_start: u64,
    blocks: Seq<Seq<u8>>,
) -> Seq<u8> {
    rom.subrange(0, boot_start as int) + boot + sums + rom.subrange(
        sums_start + SUMS_SIZE,
        overlay_start as int,
    ) + joined(presented(blocks))
}

/// The image before the boot checksum is written: the body, and bytes
/// of the value `0xFF` up to the fixed size of the image. A failure
/// where the pieces before the overlays are no spans of the source
/// image, or where the body is longer than the image.
pub open spec fn laid_out(
    rom: Seq<u8>,
    boot_start: u64,
    boot: Seq<u8>,
    sums: Seq<u8>,
    sums_start: u64,
    overlay_start: u64,
    blocks: Seq<Seq<u8>>,
) -> Result<Seq<u8>, Fault> {
    let body = image_body(rom, boot_start, boot, sums, sums_start, overlay_start, blocks);
    if !layout_fits(rom.len(), boot_start, sums_start, overlay_start) {
        Err(Fault::LayoutOutOfRange { boot_start, sums_start, overlay_start })
    } else if body.len() > IMAGE_SIZE {
        Err(Fault::ImageTooLarge { size: body.len() as u64 })
    } else {
        Ok(body + repeated(0xFF, (IMAGE_SIZE - body.len()) as nat))
    }
}

/// An image that is laid out has the fixed size; it starts with the
/// bytes of the source image that precede the boot segment, then come
/// the boot segment and the block of checksums, each as it was given.
pub proof fn lemma_laid_out(
    rom: Seq<u8>,
    boot_start: u64,
    boot: Seq<u8>,
    sums: Seq<u8>,
    sums_start: u64,
    overlay_start: u64,
    blocks: Seq<Seq<u8>>,
    image: Seq<u8>,
)
    requires
        laid_out(rom, boot_start, boot, sums, sums_start, overlay_start, blocks) == Ok::<
            Seq<u8>,
            Fault,
        >(image),
    ensures
        image.len() == IMAGE_SIZE,
        boot_start + boot.len() + sums.len() <= IMAGE_SIZE,
        image.subrange(0, boot_start as int) == rom.subrange(0, boot_start as int),
        image.subrange(boot_start as int, boot_start + boot.len()) == boot,
        image.subrange(boot_start + boot.len(), boot_start + boot.len() + sums.len()) == sums,
{
    assert(image.subrange(0, boot_start as int) =~= rom.subrange(0, boot_start as int));
    assert(image.subrange(boot_start as int, boot_start + boot.len()) =~= boot);
    assert(image.subrange(boot_start + boot.len(), boot_start + boot.len() + sums.len())
        =~= sums);
}

/// The image with its boot checksum: the two words of the checksum,
/// taken of the image as it is, are written into the eight bytes at
/// `at`. A failure, which tells the CRC-32 of the boot code, where the
/// boot code of the image belongs to no known boot chip.
pub open spec fn stamped(image: Seq<u8>, at: int) -> Result<Seq<u8>, Fault>
    recommends
        image.len() >= CHECKED_SIZE,
        0 <= at,
        at + 8 <= image.len(),
{
    match cic_of(image) {
        None => Err(Fault::UnknownBootChip { crc: crc32_of(boot_code(image)) }),
        Some(cic) => Ok(
            with_word(
                with_word(image, at, boot_crc_of(cic, image).0),
                at + 4,
                boot_crc_of(cic, image).1,
            ),
        ),
    }
}

/// Lays the image out, up to the boot checksum: what precedes the boot
/// segment, the boot segment, the block of checksums, what lies between
/// that block and the first overlay, the blocks of the overlays in the
/// order of the image, and the fill.
///
/// `blocks` come in the order in which the overlays are worked on.
pub fn lay_out(
    rom: &[u8],
    boot_start: u64,
    boot: &[u8],
    sums: &[u8],
    sums_start: u64,
    overlay_start: u64,
    blocks: Vec<Vec<u8>>,
) -> (image: Result<Vec<u8>, BuildError>)
    ensures
        match laid_out(
            rom@,
            boot_start,
            boot@,
            sums@,
            sums_start,
            overlay_start,
            block_views(blocks@),
        ) {
            Ok(bytes) => image matches Ok(out) && out@ == bytes,
            Err(fault) => image matches Err(e) && e@ == fault,
        },
        image matches Ok(out) ==> out@.len() == IMAGE_SIZE && boot_start + boot@.len() + sums@.len()
            <= IMAGE_SIZE,
{
    let len = rom.len();
    if !(boot_start <= len as u64 && overlay_start <= len as u64 && sums_start <= overlay_start
        && overlay_start - sums_start >= SUMS_SIZE as u64) {
        return Err(BuildError::LayoutOutOfRange { boot_start, sums_start, overlay_start });
    }
    let mut ordered = blocks;
    present(&mut ordered);
    proof {
        assert(block_views(ordered@) =~= presented(block_views(blocks@)));
    }
    let mut image: Vec<u8> = Vec::new();
    append_bytes(&mut image, slice_subrange(rom, 0, boot_start as usize));
    append_bytes(&mut image, boot);
    append_bytes(&mut image, sums);
    append_bytes(
        &mut image,
        slice_subrange(rom, (sums_start + SUMS_SIZE as u64) as usize, overlay_start as usize),
    );
    let packed = join_blocks(&ordered);
    append_bytes(&mut image, packed.as_slice());
    if image.len() > IMAGE_SIZE {
        return Err(BuildError::ImageTooLarge { size: image.len() as u64 });
    }
    let rest: usize = IMAGE_SIZE - image.len();
    append_repeated(&mut image, 0xFF, rest);
    Ok(image)
}

/// Takes the boot checksum of the finished image and writes its two
/// words into the eight bytes at `at`. This is the last patch: the
/// checksum covers the compressed overlays.
///
/// Fails, and leaves the image as it is, where its boot code belongs to
/// no known boot chip.
pub fn stamp_boot_crc(image: &mut Vec<u8>, at: usize) -> (done: Result<(), BuildError>)
    requires
        old(image)@.len() >= CHECKED_SIZE,
        at + 8 <= old(image)@.len(),
    ensures
        match stamped(old(image)@, at as int) {
            Ok(bytes) => done is Ok && final(image)@ == bytes,
            Err(fault) => done matches Err(e) && e@ == fault && final(image)@ == old(image)@,
        },
{
    let checked = slice_subrange(image.as_slice(), 0, CHECKED_SIZE);
    proof {
        assert(boot_code(checked@) =~= boot_code(image@));
        assert(boot_window(checked@) =~= boot_window(image@));
    }
    match calculate_crc(checked) {
        None => Err(
            BuildError::UnknownBootChip {
                crc: crc32(slice_subrange(image.as_slice(), HEADER_SIZE, BOOT_CODE_END)),
            },
        ),
        Some(words) => {
            assert(old(image).len() == old(image)@.len());
            write_at(image, at, to_be_bytes(words[0]));
            write_at(image, at + 4, to_be_bytes(words[1]));
            Ok(())
        },
    }
}

/// `image` with the eight bytes at `at` cleared.
pub open spec fn slot_cleared(image: Seq<u8>, at: int) -> Seq<u8>
    recommends
        0 <= at,
        at + 8 <= image.len(),
{
    with_word(with_word(image, at, 0), at + 4, 0)
}

/// What the boot checksum does to an image. Nothing but the eight bytes
/// of the checksum differs from the image before, and the two words in
/// them are the boot checksum of the image before. Where the eight
/// bytes were zero before, that is the image with the place of the
/// checksum cleared: whoever clears that place and takes the boot
/// checksum finds the words that stand there.
pub proof fn lemma_stamped(image: Seq<u8>, at: int, out: Seq<u8>)
    requires
        image.len() >= CHECKED_SIZE,
        0 <= at,
        at + 8 <= image.len(),
        stamped(image, at) == Ok::<Seq<u8>, Fault>(out),
    ensures
        out.len() == image.len(),
        forall|i: int| 0 <= i < image.len() && !(at <= i < at + 8) ==> out[i] == image[i],
        cic_of(image) matches Some(cic) && word_at(out, at) == boot_crc_of(cic, image).0
            && word_at(out, at + 4) == boot_crc_of(cic, image).1,
        (forall|i: int| at <= i < at + 8 ==> image[i] == 0) ==> slot_cleared(out, at) == image,
{
    let cic = cic_of(image)->Some_0;
    let first = boot_crc_of(cic, image).0;
    let second = boot_crc_of(cic, image).1;
    let half = with_word(image, at, first);
    lemma_be_round_trip(first);
    lemma_be_round_trip(second);
    lemma_be_round_trip(0);
    lemma_with_word(image, at, first);
    lemma_with_word(half, at + 4, second);
    assert(word_at(out, at) == first) by {
        assert(out[at] == half[at] && out[at + 1] == half[at + 1] && out[at + 2] == half[at + 2]
            && out[at + 3] == half[at + 3]);
    }
    if forall|i: int| at <= i < at + 8 ==> image[i] == 0 {
        let c1 = with_word(out, at, 0);
        let c2 = with_word(c1, at + 4, 0);
        lemma_with_word(out, at, 0);
        lemma_with_word(c1, at + 4, 0);
        assert(be_bytes(0u32)[0] == 0 && be_bytes(0u32)[1] == 0 && be_bytes(0u32)[2] == 0
            && be_bytes(0u32)[3] == 0) by {
            assert((0u32 >> 24) as u8 == 0 && ((0u32 >> 16) & 0xff) as u8 == 0 && ((0u32 >> 8)
                & 0xff) as u8 == 0 && (0u32 & 0xff) as u8 == 0) by (bit_vector);
        }
        assert forall|i: int| 0 <= i < image.len() implies c2[i] == image[i] by {
            if at + 4 <= i < at + 8 {
            } else if at <= i < at + 4 {
            } else {
            }
        }
        assert(c2 =~= image);
    }
}

} // verus!
