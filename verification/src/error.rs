//! The ways in which a build can fail.

use vstd::prelude::*;

verus! {

/// Why a build was abandoned. Every failure names what it was found at.
#[derive(Debug, Clone, PartialEq, Eq)]
pub enum BuildError {
    /// A symbol that the layout relies on is not in the symbol table.
    MissingSymbol { name: String },
    /// A symbol resolves to an address at which four bytes do not fit
    /// into the buffer that was to be patched.
    OffsetOutOfRange { name: String, address: u64 },
    /// The on-disk span of an overlay is no span of the source image, or
    /// is shorter than the overlay's code.
    SegmentOutOfRange { name: String },
    /// An overlay that the patch tables speak of is not among the
    /// overlays at hand.
    UnknownOverlay { name: String },
    /// The boot code belongs to none of the known boot chips; `crc` is
    /// its CRC-32.
    UnknownBootChip { crc: u32 },
    /// The pieces that precede the overlays are no spans of the source
    /// image: the boot segment starts past its end, or the block of
    /// checksums does not end before the first overlay, or the first
    /// overlay starts past its end.
    LayoutOutOfRange { boot_start: u64, sums_start: u64, overlay_start: u64 },
    /// The pieces of the image add up to `size` bytes, more than its
    /// fixed size.
    ImageTooLarge { size: u64 },
    /// The offset at which the compressed overlay `name` ends does not
    /// fit into 64 bits.
    OffsetOverflow { name: String },
}

/// A failure as a plain value: names are sequences of characters.
pub enum Fault {
    MissingSymbol { name: Seq<char> },
    OffsetOutOfRange { name: Seq<char>, address: u64 },
    SegmentOutOfRange { name: Seq<char> },
    UnknownOverlay { name: Seq<char> },
    UnknownBootChip { crc: u32 },
    LayoutOutOfRange { boot_start: u64, sums_start: u64, overlay_start: u64 },
    ImageTooLarge { size: u64 },
    OffsetOverflow { name: Seq<char> },
}

impl View for BuildError {
    type V = Fault;

    open spec fn view(&self) -> Fault {
        match *self {
            BuildError::MissingSymbol { name } => Fault::MissingSymbol { name: name@ },
            BuildError::OffsetOutOfRange { name, address } => Fault::OffsetOutOfRange {
                name: name@,
                address,
            },
            BuildError::SegmentOutOfRange { name } => Fault::SegmentOutOfRange { name: name@ },
            BuildError::UnknownOverlay { name } => Fault::UnknownOverlay { name: name@ },
            BuildError::UnknownBootChip { crc } => Fault::UnknownBootChip { crc },
            BuildError::LayoutOutOfRange { boot_start, sums_start, overlay_start } => {
                Fault::LayoutOutOfRange { boot_start, sums_start, overlay_start }
            },
            BuildError::ImageTooLarge { size } => Fault::ImageTooLarge { size },
            BuildError::OffsetOverflow { name } => Fault::OffsetOverflow { name: name@ },
        }
    }
}

} // verus!
