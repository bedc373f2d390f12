//! The build from end to end, in its two halves: what is done before the
//! overlays are compressed, and what is done with the compressed
//! overlays. Compressing lies between the two and is not done here.

use vstd::prelude::*;
use vstd::slice::{slice_subrange, slice_to_vec};
use crate::bytes::word_at;
use crate::checksum::checksum_of;
use crate::cic::{boot_crc_of, cic_of};
use crate::error::{BuildError, Fault};
use crate::graph::{patch_overlays, patched, position, position_of};
use crate::image::{
    block_views, checksum_header, laid_out, lay_out, lemma_laid_out, lemma_stamped,
    lemma_sums_block, slot_cleared, stamp_boot_crc, stamped, sums_block, BOOT_CRC_SLOT,
    IMAGE_SIZE, SUMS_SIZE,
};
use crate::segment::{
    boot_name, load_all, load_overlays, overlay_name_list, overlay_names, segment_views, Segment,
    SegmentView,
};
use crate::symbols::{
    find_elf_symbol, locate, resolve, symbol_views, OverlayInfo, Symbol, SymbolView,
};

verus! {

/// What the first half of the build hands to the second: the boot
/// segment and where it starts, the block of checksums, where the first
/// overlay starts in the source image, and the overlays with every
/// checksum written into them.
#[derive(Debug, Clone, PartialEq, Eq)]
pub struct Prepared {
    pub boot_start: u64,
    pub boot: Vec<u8>,
    pub sums: [u8; 32],
    pub overlay_start: u64,
    pub overlays: Vec<Segment>,
}

/// A `Prepared` as a plain value.
pub struct PreparedView {
    pub boot_start: u64,
    pub boot: Seq<u8>,
    pub sums: Seq<u8>,
    pub overlay_start: u64,
    pub overlays: Seq<SegmentView>,
}

impl View for Prepared {
    type V = PreparedView;

    open spec fn view(&self) -> PreparedView {
        PreparedView {
            boot_start: self.boot_start,
            boot: self.boot@,
            sums: self.sums@,
            overlay_start: self.overlay_start,
            overlays: segment_views(self.overlays@),
        }
    }
}

/// The name of the primary core, whose checksums stand in the block of
/// checksums.
pub open spec fn primary_name() -> Seq<char> {
    "core1"@
}

/// The name of the symbol at which the block of checksums stood in the
/// source image.
pub open spec fn sums_symbol() -> Seq<char> {
    "crc_ROM_START"@
}

/// The first half of the build. The boot segment is located and cut out
/// of `rom`; the overlays are located and cut out; every checksum of the
/// game is taken and written into them, in the order of their
/// dependencies; the block of checksums is made of the boot segment and
/// of the code and data of the primary core as they then are. The first
/// failure ends it.
pub open spec fn prepared(rom: Seq<u8>, symbols: Seq<SymbolView>) -> Result<PreparedView, Fault> {
    match locate(symbols, boot_name()) {
        Err(fault) => Err(fault),
        Ok(boot) => if !(boot.uncompressed_rom.start <= boot.uncompressed_rom.end
            && boot.uncompressed_rom.end <= rom.len()) {
            Err(Fault::SegmentOutOfRange { name: boot_name() })
        } else {
            match load_all(rom, symbols, overlay_name_list()) {
                Err(fault) => Err(fault),
                Ok(loaded) => match patched(loaded, symbols) {
                    Err(fault) => Err(fault),
                    Ok(overlays) => match position(overlays, primary_name()) {
                        None => Err(Fault::UnknownOverlay { name: primary_name() }),
                        Some(i) => {
                            let bytes = rom.subrange(
                                boot.uncompressed_rom.start as int,
                                boot.uncompressed_rom.end as int,
                            );
                            Ok(
                                PreparedView {
                                    boot_start: boot.uncompressed_rom.start,
                                    boot: bytes,
                                    sums: sums_block(bytes, overlays[i].code, overlays[i].data),
                                    overlay_start: overlays[0].info.uncompressed_rom.start,
                                    overlays,
                                },
                            )
                        },
                    },
                },
            }
        },
    }
}

/// The offset in the image at which the boot checksum stands: in the
/// last eight bytes of the block of checksums, which follows the boot
/// segment.
pub open spec fn boot_crc_place(prepared: PreparedView) -> int {
    prepared.boot_start + prepared.boot.len() + BOOT_CRC_SLOT
}

/// The second half of the build. The place where the block of checksums
/// stood is looked up; the image is laid out around the compressed
/// overlays `blocks`; the boot checksum of the image is taken and
/// written into the block of checksums. The first failure ends it.
pub open spec fn built(
    rom: Seq<u8>,
    symbols: Seq<SymbolView>,
    prepared: PreparedView,
    blocks: Seq<Seq<u8>>,
) -> Result<Seq<u8>, Fault> {
    match resolve(symbols, sums_symbol()) {
        Err(fault) => Err(fault),
        Ok(sums_start) => match laid_out(
            rom,
            prepared.boot_start,
            prepared.boot,
            prepared.sums,
            sums_start,
            prepared.overlay_start,
            blocks,
        ) {
            Err(fault) => Err(fault),
            Ok(image) => stamped(image, boot_crc_place(prepared)),
        },
    }
}

/// What the first half of the build hands on: the boot segment is the
/// span of the source image that starts at its start, and the block of
/// checksums is made of the boot segment and of the code and data of
/// the primary core as they are after all patches.
pub proof fn lemma_prepared(rom: Seq<u8>, symbols: Seq<SymbolView>, ready: PreparedView)
    requires
        prepared(rom, symbols) == Ok::<PreparedView, Fault>(ready),
    ensures
        ready.boot_start + ready.boot.len() <= rom.len(),
        ready.boot == rom.subrange(
            ready.boot_start as int,
            ready.boot_start + ready.boot.len(),
        ),
        patched(load_all(rom, symbols, overlay_name_list())->Ok_0, symbols) == Ok::<
            Seq<SegmentView>,
            Fault,
        >(ready.overlays),
        position(ready.overlays, primary_name()) matches Some(i) && ready.sums == sums_block(
            ready.boot,
            ready.overlays[i].code,
            ready.overlays[i].data,
        ),
{
}

/// What the second half of the build does to the image: it lays it out
/// and writes the boot checksum into the block of checksums.
pub proof fn lemma_built(
    rom: Seq<u8>,
    symbols: Seq<SymbolView>,
    ready: PreparedView,
    blocks: Seq<Seq<u8>>,
    image: Seq<u8>,
) -> (plain: Seq<u8>)
    requires
        built(rom, symbols, ready, blocks) == Ok::<Seq<u8>, Fault>(image),
    ensures
        resolve(symbols, sums_symbol()) matches Ok(sums_start) && laid_out(
            rom,
            ready.boot_start,
            ready.boot,
            ready.sums,
            sums_start,
            ready.overlay_start,
            blocks,
        ) == Ok::<Seq<u8>, Fault>(plain),
        stamped(plain, boot_crc_place(ready)) == Ok::<Seq<u8>, Fault>(image),
{
    let sums_start = resolve(symbols, sums_symbol())->Ok_0;
    laid_out(
        rom,
        ready.boot_start,
        ready.boot,
        ready.sums,
        sums_start,
        ready.overlay_start,
        blocks,
    )->Ok_0
}

/// What holds of every image that the build gives. It has the fixed
/// size. Up to the end of the boot segment it is the source image. The
/// block of checksums follows: the two words of the checksum of the
/// boot segment, of the code of the primary core and of its data, as
/// these are after all patches, and the two words of the boot checksum.
/// The boot checksum is that of the image with the place of the boot
/// checksum cleared.
pub proof fn lemma_built_image(
    rom: Seq<u8>,
    symbols: Seq<SymbolView>,
    ready: PreparedView,
    blocks: Seq<Seq<u8>>,
    image: Seq<u8>,
)
    requires
        prepared(rom, symbols) == Ok::<PreparedView, Fault>(ready),
        built(rom, symbols, ready, blocks) == Ok::<Seq<u8>, Fault>(image),
    ensures
        image.len() == IMAGE_SIZE,
        ready.boot_start + ready.boot.len() + SUMS_SIZE <= IMAGE_SIZE,
        ready.boot_start + ready.boot.len() <= rom.len(),
        forall|i: int| 0 <= i < ready.boot_start + ready.boot.len() ==> image[i] == rom[i],
        match position(ready.overlays, primary_name()) {
            None => false,
            Some(i) => {
                let at = ready.boot_start + ready.boot.len();
                &&& word_at(image, at) == checksum_of(ready.boot).0
                &&& word_at(image, at + 4) == checksum_of(ready.boot).1
                &&& word_at(image, at + 8) == checksum_of(ready.overlays[i].code).0
                &&& word_at(image, at + 12) == checksum_of(ready.overlays[i].code).1
                &&& word_at(image, at + 16) == checksum_of(ready.overlays[i].data).0
                &&& word_at(image, at + 20) == checksum_of(ready.overlays[i].data).1
            },
        },
        match cic_of(slot_cleared(image, boot_crc_place(ready))) {
            None => false,
            Some(cic) => {
                let cleared = slot_cleared(image, boot_crc_place(ready));
                &&& word_at(image, boot_crc_place(ready)) == boot_crc_of(cic, cleared).0
                &&& word_at(image, boot_crc_place(ready) + 4) == boot_crc_of(cic, cleared).1
            },
        },
{
    lemma_prepared(rom, symbols, ready);
    let plain = lemma_built(rom, symbols, ready, blocks, image);
    lemma_laid_out(
        rom,
        ready.boot_start,
        ready.boot,
        ready.sums,
        resolve(symbols, sums_symbol())->Ok_0,
        ready.overlay_start,
        blocks,
        plain,
    );
    let i = position(ready.overlays, primary_name())->Some_0;
    lemma_sums_block(ready.boot, ready.overlays[i].code, ready.overlays[i].data);
    lemma_image_head(rom, ready, plain, image);
}

/// The head of an image that was laid out around the boot segment
/// `ready.boot`, a span of `rom`, and a block of checksums that ends in
/// eight zero bytes, and then had its boot checksum written.
proof fn lemma_image_head(rom: Seq<u8>, ready: PreparedView, plain: Seq<u8>, image: Seq<u8>)
    requires
        ready.boot_start + ready.boot.len() <= rom.len(),
        ready.boot == rom.subrange(
            ready.boot_start as int,
            ready.boot_start + ready.boot.len(),
        ),
        ready.sums.len() == SUMS_SIZE,
        forall|k: int| BOOT_CRC_SLOT <= k < SUMS_SIZE ==> ready.sums[k] == 0,
        plain.len() == IMAGE_SIZE,
        ready.boot_start + ready.boot.len() + ready.sums.len() <= IMAGE_SIZE,
        plain.subrange(0, ready.boot_start as int) == rom.subrange(0, ready.boot_start as int),
        plain.subrange(ready.boot_start as int, ready.boot_start + ready.boot.len())
            == ready.boot,
        plain.subrange(
            ready.boot_start + ready.boot.len(),
            ready.boot_start + ready.boot.len() + ready.sums.len(),
        ) == ready.sums,
        stamped(plain, boot_crc_place(ready)) == Ok::<Seq<u8>, Fault>(image),
    ensures
        image.len() == IMAGE_SIZE,
        forall|i: int| 0 <= i < ready.boot_start + ready.boot.len() ==> image[i] == rom[i],
        forall|k: int|
            0 <= k < BOOT_CRC_SLOT ==> image[ready.boot_start + ready.boot.len() + k]
                == ready.sums[k],
        match cic_of(slot_cleared(image, boot_crc_place(ready))) {
            None => false,
            Some(cic) => {
                let cleared = slot_cleared(image, boot_crc_place(ready));
                &&& word_at(image, boot_crc_place(ready)) == boot_crc_of(cic, cleared).0
                &&& word_at(image, boot_crc_place(ready) + 4) == boot_crc_of(cic, cleared).1
            },
        },
{
    let start = ready.boot_start as int;
    let end = ready.boot_start + ready.boot.len();
    let place = boot_crc_place(ready);
    assert forall|k: int| place <= k < place + 8 implies plain[k] == 0 by {
        assert(plain[k] == plain.subrange(end, end + ready.sums.len())[k - end]);
    }
    lemma_stamped(plain, place, image);
    assert forall|k: int| 0 <= k < end implies image[k] == rom[k] by {
        if k < start {
            assert(plain[k] == plain.subrange(0, start)[k]);
            assert(rom[k] == rom.subrange(0, start)[k]);
        } else {
            assert(plain[k] == plain.subrange(start, end)[k - start]);
            assert(rom[k] == rom.subrange(start, end)[k - start]);
        }
    }
    assert forall|k: int| 0 <= k < BOOT_CRC_SLOT implies image[end + k] == ready.sums[k] by {
        assert(plain[end + k] == plain.subrange(end, end + ready.sums.len())[k]);
    }
}

/// The build has no other inputs than the bytes of the source image,
/// the names and addresses of the symbols and the bytes of the
/// compressed overlays: builds of the same inputs give the same image,
/// byte for byte.
pub proof fn lemma_build_deterministic(
    rom: Seq<u8>,
    symbols: Seq<SymbolView>,
    blocks: Seq<Seq<u8>>,
    rom_again: Seq<u8>,
    symbols_again: Seq<SymbolView>,
    blocks_again: Seq<Seq<u8>>,
    ready: PreparedView,
)
    requires
        rom.len() == rom_again.len(),
        forall|i: int| 0 <= i < rom.len() ==> rom[i] == rom_again[i],
        symbols.len() == symbols_again.len(),
        forall|i: int|
            0 <= i < symbols.len() ==> symbols[i].name == symbols_again[i].name && symbols[i].value
                == symbols_again[i].value,
        blocks.len() == blocks_again.len(),
        forall|i: int| 0 <= i < blocks.len() ==> blocks[i] =~= blocks_again[i],
    ensures
        prepared(rom, symbols) == prepared(rom_again, symbols_again),
        built(rom, symbols, ready, blocks) == built(rom_again, symbols_again, ready, blocks_again),
{
    assert(rom =~= rom_again);
    assert(symbols =~= symbols_again);
    assert(blocks =~= blocks_again);
}

/// Does all that is done before the overlays are compressed: locates
/// the boot segment and the overlays in the uncompressed image `rom`,
/// cuts them out, writes every checksum into the overlays, and makes the
/// block of checksums.
pub fn prepare(rom: &[u8], symbols: &[Symbol]) -> (done: Result<Prepared, BuildError>)
    ensures
        match prepared(rom@, symbol_views(symbols@)) {
            Ok(view) => done matches Ok(out) && out@ == view,
            Err(fault) => done matches Err(e) && e@ == fault,
        },
{
    let boot = match OverlayInfo::from_elf_symbols("boot_bk_boot", symbols) {
        Err(e) => {
            return Err(e);
        },
        Ok(info) => info,
    };
    let start = boot.uncompressed_rom.start;
    let end = boot.uncompressed_rom.end;
    if !(start <= end && end <= rom.len() as u64) {
        return Err(BuildError::SegmentOutOfRange { name: boot.name });
    }
    let bytes = slice_to_vec(slice_subrange(rom, start as usize, end as usize));
    let names = overlay_names();
    let loaded = match load_overlays(rom, symbols, &names) {
        Err(e) => {
            return Err(e);
        },
        Ok(loaded) => loaded,
    };
    let overlays = match patch_overlays(loaded, symbols) {
        Err(e) => {
            return Err(e);
        },
        Ok(overlays) => overlays,
    };
    let i = match position_of(&overlays, "core1") {
        None => {
            return Err(BuildError::UnknownOverlay { name: "core1".to_owned() });
        },
        Some(i) => i,
    };
    let sums = checksum_header(
        bytes.as_slice(),
        overlays[i].code.as_slice(),
        overlays[i].data.as_slice(),
    );
    let overlay_start = overlays[0].info.uncompressed_rom.start;
    Ok(Prepared { boot_start: start, boot: bytes, sums, overlay_start, overlays })
}

/// Does all that is done once the overlays are compressed: lays the
/// image out around `blocks`, the compressed overlays in the order in
/// which the overlays are worked on, and writes the boot checksum into
/// it.
pub fn build_rom(rom: &[u8], symbols: &[Symbol], prepared: &Prepared, blocks: Vec<Vec<u8>>) -> (done:
    Result<Vec<u8>, BuildError>)
    ensures
        match built(rom@, symbol_views(symbols@), prepared@, block_views(blocks@)) {
            Ok(bytes) => done matches Ok(image) && image@ == bytes,
            Err(fault) => done matches Err(e) && e@ == fault,
        },
        done matches Ok(image) ==> image@.len() == IMAGE_SIZE,
{
    let sums_start = match find_elf_symbol(symbols, "crc_ROM_START") {
        Err(e) => {
            return Err(e);
        },
        Ok(address) => address,
    };
    let mut image = match lay_out(
        rom,
        prepared.boot_start,
        prepared.boot.as_slice(),
        prepared.sums.as_slice(),
        sums_start,
        prepared.overlay_start,
        blocks,
    ) {
        Err(e) => {
            return Err(e);
        },
        Ok(image) => image,
    };
    let place: usize = prepared.boot_start as usize + prepared.boot.len() + BOOT_CRC_SLOT;
    match stamp_boot_crc(&mut image, place) {
        Err(e) => Err(e),
        Ok(()) => Ok(image),
    }
}

} // verus!
