//! Writing checksum words into a segment at the place a symbol names.

use vstd::prelude::*;
use crate::bytes::{lemma_overwritten, overwritten};
use crate::error::{BuildError, Fault};
use crate::symbols::{find_elf_symbol, lookup, symbol_views, Symbol, SymbolView};

verus! {

/// Whether four bytes fit into a buffer of `len` bytes at the place that
/// `address` names, where the buffer starts at the address `base`.
pub open spec fn fits(len: nat, base: u64, address: u64) -> bool {
    address >= base && address - base + 4 <= len
}

/// The offset at which the symbol `name` lies in a buffer of `len` bytes
/// that starts at the address `base`; a failure where the symbol is
/// missing, or where four bytes there would not lie inside the buffer.
pub open spec fn patch_offset(len: nat, base: u64, symbols: Seq<SymbolView>, name: Seq<char>) -> Result<
    int,
    Fault,
> {
    match lookup(symbols, name) {
        None => Err(Fault::MissingSymbol { name }),
        Some(address) => if fits(len, base, address) {
            Ok(address - base)
        } else {
            Err(Fault::OffsetOutOfRange { name, address })
        },
    }
}

/// Resolves `name` to an offset into a buffer of `len` bytes that starts
/// at the address `base`.
pub fn resolve_offset(len: usize, base: u64, symbols: &[Symbol], name: &str) -> (at: Result<
    usize,
    BuildError,
>)
    ensures
        match patch_offset(len as nat, base, symbol_views(symbols@), name@) {
            Ok(offset) => at matches Ok(found) && found == offset,
            Err(fault) => at matches Err(e) && e@ == fault,
        },
{
    match find_elf_symbol(symbols, name) {
        Err(e) => Err(e),
        Ok(address) => {
            if address >= base && len >= 4 && address - base <= (len - 4) as u64 {
                Ok((address - base) as usize)
            } else {
                Err(BuildError::OffsetOutOfRange { name: name.to_owned(), address })
            }
        },
    }
}

/// Overwrites the four bytes at `at` with `value`.
pub fn write_at(bytes: &mut Vec<u8>, at: usize, value: [u8; 4])
    requires
        at + 4 <= old(bytes)@.len(),
    ensures
        final(bytes)@ == overwritten(old(bytes)@, at as int, value@),
{
    assert(old(bytes).len() == old(bytes)@.len());
    bytes[at] = value[0];
    bytes[at + 1] = value[1];
    bytes[at + 2] = value[2];
    bytes[at + 3] = value[3];
    assert(bytes@ =~= overwritten(old(bytes)@, at as int, value@));
}

/// Writes `value` over the four bytes of `bytes` that the symbol
/// `symbol_name` names, where `bytes` starts at the address `rom_offset`.
///
/// Fails, and leaves `bytes` as they are, where the symbol is missing or
/// the four bytes would not lie inside `bytes`. No byte but those four is
/// changed.
pub fn replace_symbol(
    bytes: &mut Vec<u8>,
    rom_offset: u64,
    symbols: &[Symbol],
    symbol_name: &str,
    value: [u8; 4],
) -> (done: Result<(), BuildError>)
    ensures
        match patch_offset(old(bytes)@.len(), rom_offset, symbol_views(symbols@), symbol_name@) {
            Ok(at) => done is Ok && final(bytes)@ == overwritten(old(bytes)@, at, value@),
            Err(fault) => done matches Err(e) && e@ == fault && final(bytes)@ == old(bytes)@,
        },
        final(bytes)@.len() == old(bytes)@.len(),
        done is Ok ==> forall|i: int|
            0 <= i < old(bytes)@.len() && !(lookup(symbol_views(symbols@), symbol_name@).unwrap() - rom_offset
                <= i < lookup(symbol_views(symbols@), symbol_name@).unwrap() - rom_offset + 4)
                ==> final(bytes)@[i] == old(bytes)@[i],
{
    match resolve_offset(bytes.len(), rom_offset, symbols, symbol_name) {
        Err(e) => Err(e),
        Ok(at) => {
            write_at(bytes, at, value);
            proof {
                lemma_overwritten(old(bytes)@, at as int, value@);
            }
            Ok(())
        },
    }
}

} // verus!
