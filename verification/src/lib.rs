//! Rebuilds a cartridge image from a freshly linked, uncompressed build:
//! the two checksum algorithms the console and the game expect, the
//! dependency-ordered patching of overlay segments, and the layout of the
//! final image. Taking a finished image apart again is here too.
//!
//! The overlays are compressed between the two halves of the build, and
//! decompressed before an image is put together again; neither is done
//! here. Nothing here reads or writes a file.

pub mod attempt;
pub mod bytes;
pub mod checksum;
pub mod cic;
pub mod error;
pub mod game;
pub mod graph;
pub mod image;
pub mod listing;
pub mod options;
pub mod patch;
pub mod pipeline;
pub mod segment;
pub mod symbols;
pub mod unpack;
