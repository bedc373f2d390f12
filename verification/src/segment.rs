//! The overlays of the game as they lie in the uncompressed image: each
//! one's span split into its code and its data.

use vstd::prelude::*;
use vstd::slice::{slice_subrange, slice_to_vec};
use crate::attempt::{lemma_try_all, lemma_try_map_failed, lemma_try_map_next, try_map};
use crate::error::{BuildError, Fault};
use crate::symbols::{
    locate, name_views, symbol_views, OverlayInfo, OverlayLayout, Symbol, SymbolView,
};

verus! {

/// An overlay with its bytes: where it lies, its code and its data.
#[derive(Debug, Clone, PartialEq, Eq)]
pub struct Segment {
    pub info: OverlayInfo,
    pub code: Vec<u8>,
    pub data: Vec<u8>,
}

/// A `Segment` as a plain value.
pub struct SegmentView {
    pub info: OverlayLayout,
    pub code: Seq<u8>,
    pub data: Seq<u8>,
}

impl View for Segment {
    type V = SegmentView;

    open spec fn view(&self) -> SegmentView {
        SegmentView { info: self.info@, code: self.code@, data: self.data@ }
    }
}

/// The plain values of a list of segments.
pub open spec fn segment_views(segments: Seq<Segment>) -> Seq<SegmentView> {
    segments.map_values(|segment: Segment| segment@)
}

/// The plain values of a list of overlay ranges.
pub open spec fn layouts(infos: Seq<OverlayInfo>) -> Seq<OverlayLayout> {
    infos.map_values(|info: OverlayInfo| info@)
}

/// The names of the overlays, in the order in which they are worked on.
pub open spec fn overlay_name_list() -> Seq<Seq<char>> {
    seq![
        "core1"@,
        "core2"@,
        "CC"@,
        "GV"@,
        "MMM"@,
        "TTC"@,
        "MM"@,
        "BGS"@,
        "RBB"@,
        "FP"@,
        "SM"@,
        "cutscenes"@,
        "lair"@,
        "fight"@,
        "CCW"@,
        "emptyLvl"@,
    ]
}

/// The name of the boot segment.
pub open spec fn boot_name() -> Seq<char> {
    "boot_bk_boot"@
}

/// Whether the span of `info` in the image can be split into its code
/// and its data: the code fits into the span, and the span into the
/// image.
pub open spec fn splits(rom_len: nat, info: OverlayLayout) -> bool {
    info.uncompressed_rom.start + info.text.size() <= info.uncompressed_rom.end
        && info.uncompressed_rom.end <= rom_len
}

/// The overlay of `info` with its bytes from `rom`: the first bytes of
/// its span, as many as its code is long, are its code, and the rest of
/// the span is its data.
pub open spec fn split(rom: Seq<u8>, info: OverlayLayout) -> Result<SegmentView, Fault> {
    if splits(rom.len(), info) {
        let start = info.uncompressed_rom.start as int;
        let middle = start + info.text.size();
        let end = info.uncompressed_rom.end as int;
        Ok(SegmentView { info, code: rom.subrange(start, middle), data: rom.subrange(middle, end) })
    } else {
        Err(Fault::SegmentOutOfRange { name: info.name })
    }
}

/// `split` over a fixed image.
pub open spec fn splitter(rom: Seq<u8>) -> spec_fn(OverlayLayout) -> Result<SegmentView, Fault> {
    |info: OverlayLayout| split(rom, info)
}

/// `locate` over a fixed symbol table.
pub open spec fn locator(symbols: Seq<SymbolView>) -> spec_fn(Seq<char>) -> Result<
    OverlayLayout,
    Fault,
> {
    |name: Seq<char>| locate(symbols, name)
}

/// The overlays called `names` with their bytes from `rom`. All of them
/// are located first, then all are split; the first failure ends it.
pub open spec fn load_all(rom: Seq<u8>, symbols: Seq<SymbolView>, names: Seq<Seq<char>>) -> Result<
    Seq<SegmentView>,
    Fault,
> {
    match try_map(names, locator(symbols)) {
        Err(fault) => Err(fault),
        Ok(infos) => try_map(infos, splitter(rom)),
    }
}

/// The names of the overlays, in the order in which they are worked on.
pub fn overlay_names() -> (names: Vec<String>)
    ensures
        name_views(names@) == overlay_name_list(),
{
    let mut names: Vec<String> = Vec::new();
    names.push("core1".to_owned());
    names.push("core2".to_owned());
    names.push("CC".to_owned());
    names.push("GV".to_owned());
    names.push("MMM".to_owned());
    names.push("TTC".to_owned());
    names.push("MM".to_owned());
    names.push("BGS".to_owned());
    names.push("RBB".to_owned());
    names.push("FP".to_owned());
    names.push("SM".to_owned());
    names.push("cutscenes".to_owned());
    names.push("lair".to_owned());
    names.push("fight".to_owned());
    names.push("CCW".to_owned());
    names.push("emptyLvl".to_owned());
    assert(name_views(names@) =~= overlay_name_list());
    names
}

/// Cuts the code and the data of the overlay of `info` out of `rom`.
/// Fails where its span is no span of `rom` or is shorter than its code.
pub fn split_segment(rom: &[u8], info: OverlayInfo) -> (cut: Result<Segment, BuildError>)
    ensures
        match split(rom@, info@) {
            Ok(view) => cut matches Ok(segment) && segment@ == view,
            Err(fault) => cut matches Err(e) && e@ == fault,
        },
{
    let start = info.uncompressed_rom.start;
    let end = info.uncompressed_rom.end;
    let code_len = info.text.len();
    if start <= end && code_len <= end - start && end <= rom.len() as u64 {
        let middle = start + code_len;
        let code = slice_to_vec(slice_subrange(rom, start as usize, middle as usize));
        let data = slice_to_vec(slice_subrange(rom, middle as usize, end as usize));
        Ok(Segment { info, code, data })
    } else {
        Err(BuildError::SegmentOutOfRange { name: info.name })
    }
}

/// Reads the ranges of each of the overlays `names` from the symbol
/// table; fails with the first symbol that is missing.
pub fn locate_overlays(names: &Vec<String>, symbols: &[Symbol]) -> (located: Result<
    Vec<OverlayInfo>,
    BuildError,
>)
    ensures
        match try_map(name_views(names@), locator(symbol_views(symbols@))) {
            Ok(found) => located matches Ok(infos) && layouts(infos@) == found,
            Err(fault) => located matches Err(e) && e@ == fault,
        },
{
    let ghost all = name_views(names@);
    let ghost f = locator(symbol_views(symbols@));
    let mut infos: Vec<OverlayInfo> = Vec::new();
    let mut i: usize = 0;
    proof {
        assert(layouts(infos@) =~= Seq::<OverlayLayout>::empty());
    }
    while i < names.len()
        invariant
            i <= names@.len(),
            all == name_views(names@),
            f == locator(symbol_views(symbols@)),
            try_map(all.take(i as int), f) == Ok::<Seq<OverlayLayout>, Fault>(layouts(infos@)),
        decreases names@.len() - i,
    {
        proof {
            lemma_try_map_next(all, f, i as int);
        }
        match OverlayInfo::from_elf_symbols(names[i].as_str(), symbols) {
            Ok(info) => {
                proof {
                    assert(layouts(infos@.push(info)) =~= layouts(infos@).push(info@));
                }
                infos.push(info);
            },
            Err(e) => {
                proof {
                    lemma_try_map_failed(all, f, i + 1);
                }
                return Err(e);
            },
        }
        i = i + 1;
    }
    proof {
        lemma_try_all(all);
    }
    Ok(infos)
}

/// Cuts each of the overlays `infos` out of `rom`; fails with the first
/// that cannot be cut.
pub fn split_segments(rom: &[u8], infos: Vec<OverlayInfo>) -> (cut: Result<
    Vec<Segment>,
    BuildError,
>)
    ensures
        match try_map(layouts(infos@), splitter(rom@)) {
            Ok(views) => cut matches Ok(segments) && segment_views(segments@) == views,
            Err(fault) => cut matches Err(e) && e@ == fault,
        },
{
    let ghost all = layouts(infos@);
    let ghost f = splitter(rom@);
    let mut segments: Vec<Segment> = Vec::new();
    let mut i: usize = 0;
    proof {
        assert(segment_views(segments@) =~= Seq::<SegmentView>::empty());
    }
    while i < infos.len()
        invariant
            i <= infos@.len(),
            all == layouts(infos@),
            f == splitter(rom@),
            try_map(all.take(i as int), f) == Ok::<Seq<SegmentView>, Fault>(
                segment_views(segments@),
            ),
        decreases infos@.len() - i,
    {
        proof {
            lemma_try_map_next(all, f, i as int);
        }
        let info = OverlayInfo {
            name: infos[i].name.clone(),
            text: infos[i].text,
            data: infos[i].data,
            bss: infos[i].bss,
            uncompressed_rom: infos[i].uncompressed_rom,
        };
        match split_segment(rom, info) {
            Ok(segment) => {
                proof {
                    assert(segment_views(segments@.push(segment)) =~= segment_views(
                        segments@,
                    ).push(segment@));
                }
                segments.push(segment);
            },
            Err(e) => {
                proof {
                    lemma_try_map_failed(all, f, i + 1);
                }
                return Err(e);
            },
        }
        i = i + 1;
    }
    proof {
        lemma_try_all(all);
    }
    Ok(segments)
}

/// Locates the overlays `names` by the symbol table and cuts their code
/// and data out of `rom`.
pub fn load_overlays(rom: &[u8], symbols: &[Symbol], names: &Vec<String>) -> (loaded: Result<
    Vec<Segment>,
    BuildError,
>)
    ensures
        match load_all(rom@, symbol_views(symbols@), name_views(names@)) {
            Ok(views) => loaded matches Ok(segments) && segment_views(segments@) == views,
            Err(fault) => loaded matches Err(e) && e@ == fault,
        },
{
    match locate_overlays(names, symbols) {
        Err(e) => Err(e),
        Ok(infos) => split_segments(rom, infos),
    }
}

} // verus!
