//! The symbol table of the linked build, and the byte ranges of an overlay
//! that are read from it.

use vstd::prelude::*;
use vstd::string::StringExecFns;
use crate::attempt::{lemma_try_all, lemma_try_map_failed, lemma_try_map_items, lemma_try_map_next, try_map};
use crate::error::{BuildError, Fault};

verus! {

/// A linker symbol: a name and the address it stands for.
#[derive(Debug, Clone, PartialEq, Eq)]
pub struct Symbol {
    pub name: String,
    pub value: u64,
}

/// A `Symbol` as a plain value.
pub struct SymbolView {
    pub name: Seq<char>,
    pub value: u64,
}

impl View for Symbol {
    type V = SymbolView;

    open spec fn view(&self) -> SymbolView {
        SymbolView { name: self.name@, value: self.value }
    }
}

/// The plain values of a symbol table.
pub open spec fn symbol_views(symbols: Seq<Symbol>) -> Seq<SymbolView> {
    symbols.map_values(|symbol: Symbol| symbol@)
}

/// The address of the first symbol of `symbols` that is called `name`.
pub open spec fn lookup(symbols: Seq<SymbolView>, name: Seq<char>) -> Option<u64>
    decreases symbols.len(),
{
    if symbols.len() == 0 {
        None
    } else if symbols[0].name == name {
        Some(symbols[0].value)
    } else {
        lookup(symbols.drop_first(), name)
    }
}

/// The address of `name`, or the failure that names it as missing.
pub open spec fn resolve(symbols: Seq<SymbolView>, name: Seq<char>) -> Result<u64, Fault> {
    match lookup(symbols, name) {
        Some(address) => Ok(address),
        None => Err(Fault::MissingSymbol { name }),
    }
}

/// `resolve` over a fixed symbol table.
pub open spec fn resolver(symbols: Seq<SymbolView>) -> spec_fn(Seq<char>) -> Result<u64, Fault> {
    |name: Seq<char>| resolve(symbols, name)
}

/// The addresses of all of `names`, in their order, or the failure for the
/// first of them that is missing.
pub open spec fn resolve_all(symbols: Seq<SymbolView>, names: Seq<Seq<char>>) -> Result<
    Seq<u64>,
    Fault,
> {
    try_map(names, resolver(symbols))
}

/// A symbol that is found is one of the table, and no symbol before it
/// has its name; a name that is not found is the name of no symbol.
pub proof fn lemma_lookup(symbols: Seq<SymbolView>, name: Seq<char>)
    ensures
        lookup(symbols, name) is Some ==> exists|i: int|
            0 <= i < symbols.len() && symbols[i].name == name && symbols[i].value == lookup(
                symbols,
                name,
            ).unwrap() && forall|j: int| 0 <= j < i ==> symbols[j].name != name,
        lookup(symbols, name) is None ==> forall|i: int|
            0 <= i < symbols.len() ==> symbols[i].name != name,
    decreases symbols.len(),
{
    if symbols.len() == 0 {
    } else if symbols[0].name == name {
        assert(0 <= 0 < symbols.len() && symbols[0].name == name);
    } else {
        let rest = symbols.drop_first();
        lemma_lookup(rest, name);
        if lookup(rest, name) is Some {
            let k = choose|i: int|
                0 <= i < rest.len() && rest[i].name == name && rest[i].value == lookup(
                    rest,
                    name,
                ).unwrap() && forall|j: int| 0 <= j < i ==> rest[j].name != name;
            assert forall|j: int| 0 <= j < k + 1 implies symbols[j].name != name by {
                if j > 0 {
                    assert(rest[j - 1].name != name);
                }
            }
            assert(symbols[k + 1] == rest[k]);
        } else {
            assert forall|i: int| 0 <= i < symbols.len() implies symbols[i].name != name by {
                if i > 0 {
                    assert(rest[i - 1].name != name);
                }
            }
        }
    }
}

/// Looks `name` up in the symbol table: the address of the first symbol
/// of that name, and a failure that names it where there is none.
pub fn find_elf_symbol(symbols: &[Symbol], name: &str) -> (found: Result<u64, BuildError>)
    ensures
        found is Ok <==> lookup(symbol_views(symbols@), name@) is Some,
        found matches Ok(address) ==> lookup(symbol_views(symbols@), name@) == Some(address),
        found matches Err(e) ==> e@ == (Fault::MissingSymbol { name: name@ }),
{
    let ghost table = symbol_views(symbols@);
    let wanted: String = name.to_owned();
    let mut i: usize = 0;
    proof {
        assert(table.skip(0) =~= table);
    }
    while i < symbols.len()
        invariant
            i <= symbols@.len(),
            wanted@ == name@,
            table == symbol_views(symbols@),
            lookup(table, name@) == lookup(table.skip(i as int), name@),
        decreases symbols@.len() - i,
    {
        if symbols[i].name == wanted {
            return Ok(symbols[i].value);
        }
        proof {
            assert(table.skip(i as int).drop_first() =~= table.skip(i + 1));
        }
        i = i + 1;
    }
    Err(BuildError::MissingSymbol { name: wanted })
}

/// The views of a list of names.
pub open spec fn name_views(names: Seq<String>) -> Seq<Seq<char>> {
    names.map_values(|name: String| name@)
}

/// Looks up each of `names`, in order: all the addresses, or the failure
/// for the first name that is missing.
pub fn find_elf_symbols(symbols: &[Symbol], names: &Vec<String>) -> (found: Result<
    Vec<u64>,
    BuildError,
>)
    ensures
        match resolve_all(symbol_views(symbols@), name_views(names@)) {
            Ok(addresses) => found matches Ok(values) && values@ == addresses,
            Err(fault) => found matches Err(e) && e@ == fault,
        },
{
    let ghost all = name_views(names@);
    let ghost f = resolver(symbol_views(symbols@));
    let mut values: Vec<u64> = Vec::new();
    let mut i: usize = 0;
    while i < names.len()
        invariant
            i <= names@.len(),
            all == name_views(names@),
            f == resolver(symbol_views(symbols@)),
            try_map(all.take(i as int), f) == Ok::<Seq<u64>, Fault>(values@),
        decreases names@.len() - i,
    {
        proof {
            lemma_try_map_next(all, f, i as int);
        }
        match find_elf_symbol(symbols, names[i].as_str()) {
            Ok(address) => {
                values.push(address);
            },
            Err(e) => {
                proof {
                    lemma_try_map_failed(all, f, i + 1);
                }
                return Err(e);
            },
        }
        i = i + 1;
    }
    proof {
        lemma_try_all(all);
    }
    Ok(values)
}

/// A half-open range of byte offsets or addresses.
#[derive(Debug, Clone, Copy, PartialEq, Eq, Structural)]
pub struct Span {
    pub start: u64,
    pub end: u64,
}

impl Span {
    /// The number of bytes in the range; none where it ends before it
    /// starts.
    pub open spec fn size(self) -> nat {
        if self.end >= self.start {
            (self.end - self.start) as nat
        } else {
            0
        }
    }

    /// The number of bytes in the range.
    pub fn len(&self) -> (n: u64)
        ensures
            n == self.size(),
    {
        if self.end >= self.start {
            self.end - self.start
        } else {
            0
        }
    }
}

/// Where an overlay lies: its code, its data and its zero-filled memory,
/// by address, and the span it takes up in the uncompressed image.
#[derive(Debug, Clone, PartialEq, Eq)]
pub struct OverlayInfo {
    pub name: String,
    pub text: Span,
    pub data: Span,
    pub bss: Span,
    pub uncompressed_rom: Span,
}

/// An `OverlayInfo` as a plain value.
pub struct OverlayLayout {
    pub name: Seq<char>,
    pub text: Span,
    pub data: Span,
    pub bss: Span,
    pub uncompressed_rom: Span,
}

impl View for OverlayInfo {
    type V = OverlayLayout;

    open spec fn view(&self) -> OverlayLayout {
        OverlayLayout {
            name: self.name@,
            text: self.text,
            data: self.data,
            bss: self.bss,
            uncompressed_rom: self.uncompressed_rom,
        }
    }
}

/// The one overlay whose code ends, and whose data starts, at a symbol of
/// another name than those of the rest.
pub open spec fn is_primary(overlay: Seq<char>) -> bool {
    overlay == "core1"@
}

/// The names of the eight symbols that bound the ranges of `overlay`:
/// start and end of code, of data, of zero-filled memory and of the span
/// in the image.
pub open spec fn overlay_symbol_names(overlay: Seq<char>) -> Seq<Seq<char>> {
    seq![
        overlay + "_TEXT_START"@,
        overlay + (if is_primary(overlay) {
            "_DATA_START_OFFSET"@
        } else {
            "_TEXT_END"@
        }),
        overlay + (if is_primary(overlay) {
            "_DATA_START_OFFSET"@
        } else {
            "_DATA_START"@
        }),
        overlay + "_DATA_END"@,
        overlay + "_BSS_START"@,
        overlay + "_BSS_END"@,
        overlay + "_ROM_START"@,
        overlay + "_ROM_END"@,
    ]
}

/// The ranges that the eight addresses `a` bound.
pub open spec fn layout_of(name: Seq<char>, a: Seq<u64>) -> OverlayLayout
    recommends
        a.len() == 8,
{
    OverlayLayout {
        name,
        text: Span { start: a[0], end: a[1] },
        data: Span { start: a[2], end: a[3] },
        bss: Span { start: a[4], end: a[5] },
        uncompressed_rom: Span { start: a[6], end: a[7] },
    }
}

/// The ranges of the overlay `name` by the symbol table, or the failure
/// for the first of its symbols that is missing.
pub open spec fn locate(symbols: Seq<SymbolView>, name: Seq<char>) -> Result<OverlayLayout, Fault> {
    match resolve_all(symbols, overlay_symbol_names(name)) {
        Ok(a) => Ok(layout_of(name, a)),
        Err(fault) => Err(fault),
    }
}

/// `overlay` followed by `suffix`.
fn symbol_name(overlay: &str, suffix: &str) -> (name: String)
    ensures
        name@ == overlay@ + suffix@,
{
    let mut name = overlay.to_owned();
    name.append(suffix);
    name
}

/// Whether two names are the same.
pub fn same_name(a: &str, b: &str) -> (same: bool)
    ensures
        same == (a@ == b@),
{
    a.to_owned() == b.to_owned()
}

impl OverlayInfo {
    /// Reads the ranges of the overlay `name` from the symbol table. Fails
    /// with the first of its eight symbols that is missing.
    pub fn from_elf_symbols(name: &str, symbols: &[Symbol]) -> (located: Result<
        OverlayInfo,
        BuildError,
    >)
        ensures
            match locate(symbol_views(symbols@), name@) {
                Ok(layout) => located matches Ok(info) && info@ == layout,
                Err(fault) => located matches Err(e) && e@ == fault,
            },
    {
        let primary = same_name(name, "core1");
        let mut names: Vec<String> = Vec::new();
        names.push(symbol_name(name, "_TEXT_START"));
        names.push(
            symbol_name(
                name,
                if primary {
                    "_DATA_START_OFFSET"
                } else {
                    "_TEXT_END"
                },
            ),
        );
        names.push(
            symbol_name(
                name,
                if primary {
                    "_DATA_START_OFFSET"
                } else {
                    "_DATA_START"
                },
            ),
        );
        names.push(symbol_name(name, "_DATA_END"));
        names.push(symbol_name(name, "_BSS_START"));
        names.push(symbol_name(name, "_BSS_END"));
        names.push(symbol_name(name, "_ROM_START"));
        names.push(symbol_name(name, "_ROM_END"));
        proof {
            assert(name_views(names@) =~= overlay_symbol_names(name@));
            lemma_try_map_items(overlay_symbol_names(name@), resolver(symbol_views(symbols@)));
        }
        match find_elf_symbols(symbols, &names) {
            Err(e) => Err(e),
            Ok(a) => Ok(
                OverlayInfo {
                    name: name.to_owned(),
                    text: Span { start: a[0], end: a[1] },
                    data: Span { start: a[2], end: a[3] },
                    bss: Span { start: a[4], end: a[5] },
                    uncompressed_rom: Span { start: a[6], end: a[7] },
                },
            ),
        }
    }
}

} // verus!
