//! Taking a finished image apart again: its byte order, which release it
//! is, where its compressed overlays lie, and how the image is put
//! together once they are decompressed. Decompressing is not done here.

use vstd::prelude::*;
use vstd::slice::{slice_subrange, slice_to_vec};
use crate::game::{GameId, GameVersion};
use crate::image::{append_bytes, block_views, join_blocks, joined, swap_items};

verus! {

/// The image starts with none of the three signatures of a cartridge
/// image.
#[derive(Debug, Clone, Copy, PartialEq, Eq, Structural)]
pub enum ROMEndianessError {
    NonN64ROM,
}

/// Why an image could not be taken apart.
#[derive(Debug, Clone, Copy, PartialEq, Eq, Structural)]
pub enum UnpackError {
    /// The places of the overlays are not known for this release.
    UnsupportedVersion(GameId),
    /// A compressed overlay does not lie inside the image, or ends before
    /// it starts.
    OffsetsOutOfRange,
    /// There are fewer than ten parts, or not two for each overlay.
    PartCount,
}

/// `s` with the two bytes of every pair changing places. A last byte
/// without a partner is dropped.
pub open spec fn pairs_swapped(s: Seq<u8>) -> Seq<u8> {
    Seq::new((s.len() / 2 * 2) as nat, |i: int| s[i / 2 * 2 + 1 - i % 2])
}

/// `s` with the four bytes of every word in reverse order. Last bytes
/// that fill no word are dropped.
pub open spec fn words_reversed(s: Seq<u8>) -> Seq<u8> {
    Seq::new((s.len() / 4 * 4) as nat, |i: int| s[i / 4 * 4 + 3 - i % 4])
}

/// Swaps the two bytes of every pair: an image whose 16-bit units are
/// byte-swapped becomes big-endian.
pub fn le_to_me(le_buff: Vec<u8>) -> (out: Vec<u8>)
    ensures
        out@ == pairs_swapped(le_buff@),
{
    let n: usize = le_buff.len() / 2;
    let mut out: Vec<u8> = Vec::new();
    let mut i: usize = 0;
    while i < n
        invariant
            i <= n,
            n == le_buff@.len() / 2,
            le_buff@.len() <= usize::MAX,
            out@ == pairs_swapped(le_buff@).take(2 * i),
        decreases n - i,
    {
        out.push(le_buff[2 * i + 1]);
        out.push(le_buff[2 * i]);
        proof {
            assert(out@ =~= pairs_swapped(le_buff@).take(2 * (i + 1)));
        }
        i = i + 1;
    }
    proof {
        assert(pairs_swapped(le_buff@).take(2 * i) =~= pairs_swapped(le_buff@));
    }
    out
}

/// Reverses the four bytes of every word: a little-endian image becomes
/// big-endian.
pub fn le_to_be(le_buff: Vec<u8>) -> (out: Vec<u8>)
    ensures
        out@ == words_reversed(le_buff@),
{
    let n: usize = le_buff.len() / 4;
    let mut out: Vec<u8> = Vec::new();
    let mut i: usize = 0;
    while i < n
        invariant
            i <= n,
            n == le_buff@.len() / 4,
            le_buff@.len() <= usize::MAX,
            out@ == words_reversed(le_buff@).take(4 * i),
        decreases n - i,
    {
        out.push(le_buff[4 * i + 3]);
        out.push(le_buff[4 * i + 2]);
        out.push(le_buff[4 * i + 1]);
        out.push(le_buff[4 * i]);
        proof {
            assert(out@ =~= words_reversed(le_buff@).take(4 * (i + 1)));
        }
        i = i + 1;
    }
    proof {
        assert(words_reversed(le_buff@).take(4 * i) =~= words_reversed(le_buff@));
    }
    out
}

/// Whether `s` starts with the four bytes `a`, `b`, `c`, `d`.
pub open spec fn starts_with(s: Seq<u8>, a: u8, b: u8, c: u8, d: u8) -> bool {
    s.len() >= 4 && s[0] == a && s[1] == b && s[2] == c && s[3] == d
}

/// The image in big-endian byte order, told by its first four bytes;
/// `None` where they are no signature of a cartridge image.
pub open spec fn big_endian_of(rom: Seq<u8>) -> Option<Seq<u8>> {
    if starts_with(rom, 0x80, 0x37, 0x12, 0x40) {
        Some(rom)
    } else if starts_with(rom, 0x40, 0x12, 0x37, 0x80) {
        Some(words_reversed(rom))
    } else if starts_with(rom, 0x37, 0x80, 0x40, 0x12) {
        Some(pairs_swapped(rom))
    } else {
        None
    }
}

/// Brings an image into big-endian byte order. The first four bytes
/// tell the order it is in; an image that starts with none of the three
/// signatures is refused.
pub fn rom_to_big_endian(rom_bin: Vec<u8>) -> (out: Result<Vec<u8>, ROMEndianessError>)
    ensures
        match big_endian_of(rom_bin@) {
            Some(bytes) => out matches Ok(rom) && rom@ == bytes,
            None => out == Err::<Vec<u8>, ROMEndianessError>(ROMEndianessError::NonN64ROM),
        },
{
    if rom_bin.len() < 4 {
        return Err(ROMEndianessError::NonN64ROM);
    }
    let a = rom_bin[0];
    let b = rom_bin[1];
    let c = rom_bin[2];
    let d = rom_bin[3];
    if a == 0x80 && b == 0x37 && c == 0x12 && d == 0x40 {
        Ok(rom_bin)
    } else if a == 0x40 && b == 0x12 && c == 0x37 && d == 0x80 {
        Ok(le_to_be(rom_bin))
    } else if a == 0x37 && b == 0x80 && c == 0x40 && d == 0x12 {
        Ok(le_to_me(rom_bin))
    } else {
        Err(ROMEndianessError::NonN64ROM)
    }
}

/// The MD5 digest of `data`: sixteen bytes.
pub uninterp spec fn md5_digest(data: Seq<u8>) -> Seq<u8>;

/// `md5::compute`: the digest of `data`. The digest is a function of the
/// bytes alone; nothing more is claimed of it.
#[verifier::external_body]
fn md5_compute(data: &[u8]) -> (digest: [u8; 16])
    ensures
        digest@ == md5_digest(data@),
{
    md5::compute(data).0
}

/// The digest of the big-endian image of a release.
pub open spec fn known_digest(version: GameVersion) -> Seq<u8> {
    match version {
        GameVersion::USA => seq![
            0xb2u8, 0x95, 0x99, 0x65, 0x1a, 0x13, 0xf6, 0x81,
            0xc9, 0x92, 0x3d, 0x69, 0x35, 0x4b, 0xf4, 0xa3,
        ],
        GameVersion::PAL => seq![
            0x06u8, 0xa4, 0x3b, 0xac, 0xf5, 0xc0, 0x68, 0x7f,
            0x59, 0x6d, 0xf9, 0xb0, 0x18, 0xca, 0x6d, 0x7f,
        ],
        GameVersion::JP => seq![
            0x3du8, 0x38, 0x55, 0xa8, 0x6f, 0xd5, 0xa1, 0xb4,
            0xd3, 0x0b, 0xeb, 0x0f, 0x5a, 0x4a, 0x85, 0xaf,
        ],
        GameVersion::USARevA => seq![
            0xb1u8, 0x1f, 0x47, 0x6d, 0x4b, 0xc8, 0xe0, 0x39,
            0x35, 0x52, 0x41, 0xe8, 0x71, 0xdc, 0x08, 0xcf,
        ],
    }
}

/// The release whose image has the digest `digest`.
pub open spec fn game_of_digest(digest: Seq<u8>) -> Option<GameId> {
    if digest == known_digest(GameVersion::USA) {
        Some(GameId::BanjoKazooie(GameVersion::USA))
    } else if digest == known_digest(GameVersion::PAL) {
        Some(GameId::BanjoKazooie(GameVersion::PAL))
    } else if digest == known_digest(GameVersion::JP) {
        Some(GameId::BanjoKazooie(GameVersion::JP))
    } else if digest == known_digest(GameVersion::USARevA) {
        Some(GameId::BanjoKazooie(GameVersion::USARevA))
    } else {
        None
    }
}

/// The digest of the big-endian image of `version`.
pub fn digest_of_version(version: GameVersion) -> (digest: [u8; 16])
    ensures
        digest@ == known_digest(version),
{
    let digest: [u8; 16] = match version {
        GameVersion::USA => [
            0xb2, 0x95, 0x99, 0x65, 0x1a, 0x13, 0xf6, 0x81,
            0xc9, 0x92, 0x3d, 0x69, 0x35, 0x4b, 0xf4, 0xa3,
        ],
        GameVersion::PAL => [
            0x06, 0xa4, 0x3b, 0xac, 0xf5, 0xc0, 0x68, 0x7f,
            0x59, 0x6d, 0xf9, 0xb0, 0x18, 0xca, 0x6d, 0x7f,
        ],
        GameVersion::JP => [
            0x3d, 0x38, 0x55, 0xa8, 0x6f, 0xd5, 0xa1, 0xb4,
            0xd3, 0x0b, 0xeb, 0x0f, 0x5a, 0x4a, 0x85, 0xaf,
        ],
        GameVersion::USARevA => [
            0xb1, 0x1f, 0x47, 0x6d, 0x4b, 0xc8, 0xe0, 0x39,
            0x35, 0x52, 0x41, 0xe8, 0x71, 0xdc, 0x08, 0xcf,
        ],
    };
    assert(digest@ =~= known_digest(version));
    digest
}

/// Whether two digests are the same.
pub fn same_digest(a: &[u8; 16], b: &[u8; 16]) -> (same: bool)
    ensures
        same == (a@ == b@),
{
    let mut i: usize = 0;
    while i < 16
        invariant
            i <= 16,
            forall|j: int| 0 <= j < i ==> a@[j] == b@[j],
        decreases 16 - i,
    {
        if a[i] != b[i] {
            return false;
        }
        i = i + 1;
    }
    assert(a@ =~= b@);
    true
}

/// The release whose image has the digest `digest`, `None` for a digest
/// of no known release.
pub fn identify_game(digest: &[u8; 16]) -> (game: Option<GameId>)
    ensures
        game == game_of_digest(digest@),
{
    if same_digest(digest, &digest_of_version(GameVersion::USA)) {
        Some(GameId::BanjoKazooie(GameVersion::USA))
    } else if same_digest(digest, &digest_of_version(GameVersion::PAL)) {
        Some(GameId::BanjoKazooie(GameVersion::PAL))
    } else if same_digest(digest, &digest_of_version(GameVersion::JP)) {
        Some(GameId::BanjoKazooie(GameVersion::JP))
    } else if same_digest(digest, &digest_of_version(GameVersion::USARevA)) {
        Some(GameId::BanjoKazooie(GameVersion::USARevA))
    } else {
        None
    }
}

/// Tells the release of a big-endian image by its MD5 digest. An image
/// of no known release gives its digest back as the error.
pub fn get_hash(rom: &Vec<u8>) -> (game: Result<GameId, [u8; 16]>)
    ensures
        match game_of_digest(md5_digest(rom@)) {
            Some(id) => game == Ok::<GameId, [u8; 16]>(id),
            None => game matches Err(digest) && digest@ == md5_digest(rom@),
        },
{
    let digest = md5_compute(rom.as_slice());
    match identify_game(&digest) {
        Some(id) => Ok(id),
        None => Err(digest),
    }
}

/// The offsets in the image of a release at which the compressed code
/// and the compressed data of its overlays start, overlay after overlay,
/// and at last the offset at which the last of them ends. `None` for a
/// release whose offsets are not known.
pub open spec fn offsets_of(version: GameVersion) -> Option<Seq<usize>> {
    match version {
        GameVersion::USA => Some(
            seq![
                0xF19250usize, 0xF362EB,
                0xF37F90, 0x1001630,
                0xFA3FD0, 0xFA5D96,
                0xFA5F50, 0xFA8CE6,
                0xFA9150, 0xFAE27E,
                0xFAE860, 0xFB1AEB,
                0xFB24A0, 0xFB42D9,
                0xFB44E0, 0xFB9610,
                0xFB9A30, 0xFBE5E2,
                0xFBEBE0, 0xFC3FEF,
                0xFC4810, 0xFC6C0F,
                0xFC6F20, 0xFC8AFC,
                0xFC9150, 0xFCF698,
                0xFD0420, 0xFD5A60,
                0xFD6190, 0xFDA2FF,
                0xFDAA10, 0xFDAA1E,
                0xFDAA30,
            ],
        ),
        GameVersion::PAL => Some(
            seq![
                0xF3D980usize, 0xF5A2DC,
                0xF5BEC0, 0xFC0CFD,
                0xFC8460, 0xFCA211,
                0xFCA3C0, 0xFCD15A,
                0xFCD5C0, 0xFD26E1,
                0xFD2CC0, 0xFD5F51,
                0xFD6900, 0xFD8733,
                0xFD8930, 0xFDDA69,
                0xFDDE80, 0xFE2A56,
                0xFE3060, 0xFE8474,
                0xFE8CA0, 0xFEB1D8,
                0xFEB540, 0xFED11D,
                0xFED780, 0xFF3CD7,
                0xFF4A50, 0xFFA0FD,
                0xFFA830, 0xFFE97E,
                0xFFF090, 0xFFF09E,
                0xFFF0B0,
            ],
        ),
        _ => None,
    }
}

/// The offsets at which the compressed code and data of the overlays of
/// `game` start, and at last the offset at which the last of them ends.
/// Fails for a release whose offsets are not known.
pub fn file_offsets(game: GameId) -> (found: Result<Vec<usize>, UnpackError>)
    ensures
        match offsets_of(game.release()) {
            Some(list) => found matches Ok(offsets) && offsets@ == list,
            None => found == Err::<Vec<usize>, UnpackError>(UnpackError::UnsupportedVersion(game)),
        },
{
    match game.version() {
        GameVersion::USA => {
            let table: [usize; 33] = [
                0xF19250, 0xF362EB,
                0xF37F90, 0x1001630,
                0xFA3FD0, 0xFA5D96,
                0xFA5F50, 0xFA8CE6,
                0xFA9150, 0xFAE27E,
                0xFAE860, 0xFB1AEB,
                0xFB24A0, 0xFB42D9,
                0xFB44E0, 0xFB9610,
                0xFB9A30, 0xFBE5E2,
                0xFBEBE0, 0xFC3FEF,
                0xFC4810, 0xFC6C0F,
                0xFC6F20, 0xFC8AFC,
                0xFC9150, 0xFCF698,
                0xFD0420, 0xFD5A60,
                0xFD6190, 0xFDA2FF,
                0xFDAA10, 0xFDAA1E,
                0xFDAA30,
            ];
            assert(table@ =~= offsets_of(GameVersion::USA)->Some_0);
            Ok(slice_to_vec(table.as_slice()))
        },
        GameVersion::PAL => {
            let table: [usize; 33] = [
                0xF3D980, 0xF5A2DC,
                0xF5BEC0, 0xFC0CFD,
                0xFC8460, 0xFCA211,
                0xFCA3C0, 0xFCD15A,
                0xFCD5C0, 0xFD26E1,
                0xFD2CC0, 0xFD5F51,
                0xFD6900, 0xFD8733,
                0xFD8930, 0xFDDA69,
                0xFDDE80, 0xFE2A56,
                0xFE3060, 0xFE8474,
                0xFE8CA0, 0xFEB1D8,
                0xFEB540, 0xFED11D,
                0xFED780, 0xFF3CD7,
                0xFF4A50, 0xFFA0FD,
                0xFFA830, 0xFFE97E,
                0xFFF090, 0xFFF09E,
                0xFFF0B0,
            ];
            assert(table@ =~= offsets_of(GameVersion::PAL)->Some_0);
            Ok(slice_to_vec(table.as_slice()))
        },
        _ => Err(UnpackError::UnsupportedVersion(game)),
    }
}

/// Whether each offset is followed by one that is not less, and none
/// lies past the end of an image of `len` bytes.
pub open spec fn offsets_fit(len: nat, offsets: Seq<usize>) -> bool {
    forall|i: int|
        0 <= i < offsets.len() - 1 ==> offsets[i] <= #[trigger] offsets[i + 1] && offsets[i + 1]
            <= len
}

/// The spans of `rom` between each offset and the next.
pub open spec fn spans_between(rom: Seq<u8>, offsets: Seq<usize>) -> Seq<Seq<u8>> {
    Seq::new(
        if offsets.len() == 0 {
            0
        } else {
            (offsets.len() - 1) as nat
        },
        |i: int| rom.subrange(offsets[i] as int, offsets[i + 1] as int),
    )
}

/// Cuts `rom` at `offsets`: the span between each offset and the next
/// is one part. Fails where an offset is followed by a lesser one or
/// lies past the end of `rom`.
pub fn compressed_overlays(rom: &[u8], offsets: &Vec<usize>) -> (parts: Result<
    Vec<Vec<u8>>,
    UnpackError,
>)
    ensures
        match parts {
            Ok(cut) => offsets_fit(rom@.len(), offsets@) && block_views(cut@) == spans_between(
                rom@,
                offsets@,
            ),
            Err(e) => !offsets_fit(rom@.len(), offsets@) && e == UnpackError::OffsetsOutOfRange,
        },
{
    let mut cut: Vec<Vec<u8>> = Vec::new();
    if offsets.len() == 0 {
        assert(block_views(cut@) =~= spans_between(rom@, offsets@));
        return Ok(cut);
    }
    let mut i: usize = 0;
    while i < offsets.len() - 1
        invariant
            offsets@.len() > 0,
            i <= offsets@.len() - 1,
            cut@.len() == i,
            forall|j: int|
                0 <= j < i ==> offsets@[j] <= #[trigger] offsets@[j + 1] && offsets@[j + 1]
                    <= rom@.len(),
            forall|j: int|
                0 <= j < i ==> cut@[j]@ == rom@.subrange(
                    offsets@[j] as int,
                    offsets@[j + 1] as int,
                ),
        decreases offsets@.len() - 1 - i,
    {
        let from = offsets[i];
        let to = offsets[i + 1];
        if !(from <= to && to <= rom.len()) {
            return Err(UnpackError::OffsetsOutOfRange);
        }
        cut.push(slice_to_vec(slice_subrange(rom, from, to)));
        i = i + 1;
    }
    assert(block_views(cut@) =~= spans_between(rom@, offsets@));
    Ok(cut)
}

/// The parts in the order of the uncompressed image: the code and data
/// of the fourth overlay change places with those of the fifth.
pub open spec fn reordered(parts: Seq<Seq<u8>>) -> Seq<Seq<u8>>
    recommends
        parts.len() >= 10,
{
    parts.update(6, parts[8]).update(8, parts[6]).update(7, parts[9]).update(9, parts[7])
}

/// Whether the parts can be put together: there are two for each
/// overlay and at least five overlays, and the image has the bytes that
/// precede them.
pub open spec fn rebuilds(rom_len: nat, first: usize, parts: nat) -> bool {
    parts >= 10 && parts % 2 == 0 && first <= rom_len
}

/// The uncompressed image: the bytes of `rom` before the first
/// compressed overlay, and then the decompressed parts in the order of
/// the uncompressed image.
pub open spec fn rebuilt(rom: Seq<u8>, first: usize, parts: Seq<Seq<u8>>) -> Seq<u8> {
    rom.subrange(0, first as int) + joined(reordered(parts))
}

/// Puts the uncompressed image together of the bytes of `rom` before
/// the offset `first` and the decompressed code and data of the
/// overlays, `parts`, which come in the order of the compressed image.
/// Fails where there are fewer than ten parts or an odd number of them,
/// or where `first` lies past the end of `rom`.
pub fn rebuild(rom: &[u8], first: usize, parts: Vec<Vec<u8>>) -> (image: Result<
    Vec<u8>,
    UnpackError,
>)
    ensures
        match image {
            Ok(bytes) => rebuilds(rom@.len(), first, parts@.len()) && bytes@ == rebuilt(
                rom@,
                first,
                block_views(parts@),
            ),
            Err(e) => !rebuilds(rom@.len(), first, parts@.len()) && e == if parts@.len() >= 10
                && parts@.len() % 2 == 0 {
                UnpackError::OffsetsOutOfRange
            } else {
                UnpackError::PartCount
            },
        },
{
    if parts.len() < 10 || parts.len() % 2 != 0 {
        return Err(UnpackError::PartCount);
    }
    if first > rom.len() {
        return Err(UnpackError::OffsetsOutOfRange);
    }
    let mut ordered = parts;
    swap_items(&mut ordered, 6, 8);
    swap_items(&mut ordered, 7, 9);
    proof {
        assert(block_views(ordered@) =~= reordered(block_views(parts@)));
    }
    let mut image: Vec<u8> = Vec::new();
    append_bytes(&mut image, slice_subrange(rom, 0, first));
    let rest = join_blocks(&ordered);
    append_bytes(&mut image, rest.as_slice());
    Ok(image)
}

} // verus!
