//! The order in which checksums are taken and written: each checksum is
//! written into a segment that a later checksum covers, so the steps
//! below are done in this order and no other.

use vstd::prelude::*;
use crate::attempt::{lemma_try_all, lemma_try_fold_failed, lemma_try_fold_next, try_fold};
use crate::bytes::{
    be_bytes, lemma_be_round_trip, lemma_overwritten, lemma_overwritten_keeps_same,
    lemma_overwritten_outside, lemma_overwritten_pair_again, lemma_overwritten_same,
    lemma_overwritten_twice, lemma_with_word, overwritten, same_outside, to_be_bytes, with_word,
    word_at,
};
use crate::checksum::{
    bk_crc, byte_sum, checksum_of, lemma_byte_sum_four, lemma_byte_sum_overwritten,
    lemma_checksum_sum,
};
use crate::error::{BuildError, Fault};
use crate::patch::{patch_offset, resolve_offset, write_at};
use crate::segment::{segment_views, Segment, SegmentView};
use crate::symbols::{symbol_views, Symbol, SymbolView};

verus! {

/// An overlay that checks itself: the symbols in its data at which the
/// two words of its code checksum stand, and the symbol at which the
/// first word of its data checksum stands.
#[derive(Debug, Clone, PartialEq, Eq)]
pub struct SelfCheck {
    pub overlay: String,
    pub code_lo: String,
    pub code_hi: String,
    pub data_sum: String,
}

/// A `SelfCheck` as a plain value.
pub struct SelfCheckView {
    pub overlay: Seq<char>,
    pub code_lo: Seq<char>,
    pub code_hi: Seq<char>,
    pub data_sum: Seq<char>,
}

impl View for SelfCheck {
    type V = SelfCheckView;

    open spec fn view(&self) -> SelfCheckView {
        SelfCheckView {
            overlay: self.overlay@,
            code_lo: self.code_lo@,
            code_hi: self.code_hi@,
            data_sum: self.data_sum@,
        }
    }
}

/// The part of an overlay that a checksum is taken of.
#[derive(Debug, Clone, Copy, PartialEq, Eq, Structural)]
pub enum Part {
    Code,
    Data,
}

/// One of the two words of a checksum.
#[derive(Debug, Clone, Copy, PartialEq, Eq, Structural)]
pub enum Word {
    First,
    Second,
}

/// A checksum that one overlay keeps of another: the checksum of a part
/// of `source`, as that part is when the edge is followed, of which one
/// word is written into the data of `target` at `symbol`.
#[derive(Debug, Clone, PartialEq, Eq)]
pub struct Edge {
    pub source: String,
    pub part: Part,
    pub word: Word,
    pub target: String,
    pub symbol: String,
}

/// An `Edge` as a plain value.
pub struct EdgeView {
    pub source: Seq<char>,
    pub part: Part,
    pub word: Word,
    pub target: Seq<char>,
    pub symbol: Seq<char>,
}

impl View for Edge {
    type V = EdgeView;

    open spec fn view(&self) -> EdgeView {
        EdgeView {
            source: self.source@,
            part: self.part,
            word: self.word,
            target: self.target@,
            symbol: self.symbol@,
        }
    }
}

/// The plain values of a list of self-checking overlays.
pub open spec fn self_check_views(rows: Seq<SelfCheck>) -> Seq<SelfCheckView> {
    rows.map_values(|row: SelfCheck| row@)
}

/// The plain values of a list of edges.
pub open spec fn edge_views(edges: Seq<Edge>) -> Seq<EdgeView> {
    edges.map_values(|edge: Edge| edge@)
}

/// The overlays that check themselves, in the order in which they are
/// patched.
pub open spec fn self_check_rows() -> Seq<SelfCheckView> {
    seq![
        SelfCheckView {
            overlay: "SM"@,
            code_lo: "D_8038AAE0"@,
            code_hi: "D_8038AAE4"@,
            data_sum: "D_8038AAE8"@,
        },
        SelfCheckView {
            overlay: "MM"@,
            code_lo: "D_803899C0"@,
            code_hi: "D_803899C4"@,
            data_sum: "D_803899C8"@,
        },
        SelfCheckView {
            overlay: "TTC"@,
            code_lo: "D_8038C750"@,
            code_hi: "D_8038C754"@,
            data_sum: "D_8038C758"@,
        },
        SelfCheckView {
            overlay: "BGS"@,
            code_lo: "D_80390B20"@,
            code_hi: "D_80390B24"@,
            data_sum: "D_80390B28"@,
        },
        SelfCheckView {
            overlay: "CC"@,
            code_lo: "D_80389BE0"@,
            code_hi: "D_80389BE4"@,
            data_sum: "D_80389BE8"@,
        },
        SelfCheckView {
            overlay: "GV"@,
            code_lo: "D_80390F30"@,
            code_hi: "D_80390F34"@,
            data_sum: "D_80390F38"@,
        },
        SelfCheckView {
            overlay: "MMM"@,
            code_lo: "D_8038C300"@,
            code_hi: "D_8038C304"@,
            data_sum: "D_8038C308"@,
        },
    ]
}

/// The checksums that the primary core keeps of other overlays, in the
/// order in which they are written into its data: the checksum of the
/// code of the secondary core; the checksum of the data of the
/// secondary core; the checksum of the data of the first self-checking
/// overlay as they are after its own patches. Of each the second word
/// is kept.
pub open spec fn cross_edge_rows() -> Seq<EdgeView> {
    seq![
        EdgeView {
            source: "core2"@,
            part: Part::Code,
            word: Word::Second,
            target: "core1"@,
            symbol: "D_803727F4"@,
        },
        EdgeView {
            source: "core2"@,
            part: Part::Data,
            word: Word::Second,
            target: "core1"@,
            symbol: "D_80276574"@,
        },
        EdgeView {
            source: "SM"@,
            part: Part::Data,
            word: Word::Second,
            target: "core1"@,
            symbol: "D_80275650"@,
        },
    ]
}

/// The index of the first of `segments` that is called `name`.
pub open spec fn position(segments: Seq<SegmentView>, name: Seq<char>) -> Option<int>
    decreases segments.len(),
{
    if segments.len() == 0 {
        None
    } else if segments[0].info.name == name {
        Some(0int)
    } else {
        match position(segments.drop_first(), name) {
            Some(i) => Some(i + 1),
            None => None,
        }
    }
}

/// A position that is found is that of a segment of the name, and no
/// segment before it has the name; where none is found, no segment has
/// the name.
pub proof fn lemma_position(segments: Seq<SegmentView>, name: Seq<char>)
    ensures
        position(segments, name) matches Some(i) ==> 0 <= i < segments.len()
            && segments[i].info.name == name && forall|j: int|
            0 <= j < i ==> segments[j].info.name != name,
        position(segments, name) is None ==> forall|j: int|
            0 <= j < segments.len() ==> segments[j].info.name != name,
    decreases segments.len(),
{
    if segments.len() > 0 && segments[0].info.name != name {
        let rest = segments.drop_first();
        lemma_position(rest, name);
        match position(rest, name) {
            Some(i) => {
                assert(segments[i + 1] == rest[i]);
                assert forall|j: int| 0 <= j < i + 1 implies segments[j].info.name != name by {
                    if j > 0 {
                        assert(rest[j - 1] == segments[j]);
                    }
                }
            },
            None => {
                assert forall|j: int| 0 <= j < segments.len() implies segments[j].info.name
                    != name by {
                    if j > 0 {
                        assert(rest[j - 1] == segments[j]);
                    }
                }
            },
        }
    }
}

/// The data of a self-checking overlay after its patches: the two words
/// of its code checksum `code` are written at `lo` and `hi`; the four
/// bytes at `slot` are cleared; the checksum of the data, as they then
/// are, is taken, and its first word is written at `slot`.
pub open spec fn self_checked(data: Seq<u8>, lo: int, hi: int, slot: int, code: (u32, u32)) -> Seq<
    u8,
> {
    let cleared = with_word(with_word(with_word(data, lo, code.0), hi, code.1), slot, 0);
    with_word(cleared, slot, checksum_of(cleared).0)
}

/// The word that a self-checking overlay keeps of its data is the first
/// word of the checksum of the data with the place of that word cleared:
/// the overlay finds its data unchanged when it clears the place, takes
/// the checksum and compares. Doing the patches over again changes
/// nothing.
pub proof fn lemma_self_checked_fixed_point(
    data: Seq<u8>,
    lo: int,
    hi: int,
    slot: int,
    code: (u32, u32),
)
    requires
        0 <= lo && lo + 4 <= data.len(),
        0 <= hi && hi + 4 <= data.len(),
        0 <= slot && slot + 4 <= data.len(),
    ensures
        self_checked(data, lo, hi, slot, code).len() == data.len(),
        word_at(self_checked(data, lo, hi, slot, code), slot) == checksum_of(
            with_word(self_checked(data, lo, hi, slot, code), slot, 0),
        ).0,
        self_checked(self_checked(data, lo, hi, slot, code), lo, hi, slot, code) == self_checked(
            data,
            lo,
            hi,
            slot,
            code,
        ),
{
    let c0 = be_bytes(code.0);
    let c1 = be_bytes(code.1);
    let zero = be_bytes(0);
    let d1 = overwritten(data, lo, c0);
    let d2 = overwritten(d1, hi, c1);
    let cleared = overwritten(d2, slot, zero);
    let sum = checksum_of(cleared).0;
    let kept = be_bytes(sum);
    let out = overwritten(cleared, slot, kept);
    lemma_be_round_trip(code.0);
    lemma_be_round_trip(code.1);
    lemma_be_round_trip(0);
    lemma_be_round_trip(sum);
    lemma_overwritten(data, lo, c0);
    lemma_overwritten(d1, hi, c1);
    lemma_overwritten(d2, slot, zero);
    lemma_with_word(cleared, slot, sum);
    // Clearing the place of the kept word gives the data as they were
    // when the checksum was taken.
    lemma_overwritten_twice(cleared, slot, kept, zero);
    lemma_overwritten_twice(d2, slot, zero, zero);
    assert(overwritten(out, slot, zero) == cleared);
    // The patched data differ from the data with the code checksum at
    // most at the place of the kept word.
    lemma_overwritten_twice(d2, slot, zero, kept);
    lemma_overwritten_outside(d2, slot, kept);
    assert(same_outside(out, d2, slot));
    // So they do after the code checksum is written once more, which
    // changes the second of them not at all.
    let e1 = overwritten(out, lo, c0);
    let e2 = overwritten(e1, hi, c1);
    lemma_overwritten_keeps_same(out, d2, slot, lo, c0);
    lemma_overwritten(d2, lo, c0);
    lemma_overwritten_keeps_same(e1, overwritten(d2, lo, c0), slot, hi, c1);
    lemma_overwritten_pair_again(data, lo, c0, hi, c1);
    assert(same_outside(e2, d2, slot));
    lemma_overwritten(out, lo, c0);
    lemma_overwritten(e1, hi, c1);
    lemma_overwritten_same(e2, d2, slot, zero);
    assert(overwritten(e2, slot, zero) == cleared);
}

/// Taking the checksum of the patched data as they are, the place of the
/// kept word not cleared, gives the kept word only where that word is
/// zero: the bytes of the word add themselves to the sum.
pub proof fn lemma_self_checked_plain_sum(
    data: Seq<u8>,
    lo: int,
    hi: int,
    slot: int,
    code: (u32, u32),
)
    requires
        0 <= lo && lo + 4 <= data.len(),
        0 <= hi && hi + 4 <= data.len(),
        0 <= slot && slot + 4 <= data.len(),
    ensures
        checksum_of(self_checked(data, lo, hi, slot, code)).0 == word_at(
            self_checked(data, lo, hi, slot, code),
            slot,
        ) <==> word_at(self_checked(data, lo, hi, slot, code), slot) == 0,
{
    let d1 = with_word(data, lo, code.0);
    let d2 = with_word(d1, hi, code.1);
    let cleared = with_word(d2, slot, 0);
    let sum = checksum_of(cleared).0;
    let out = with_word(cleared, slot, sum);
    lemma_be_round_trip(code.0);
    lemma_be_round_trip(code.1);
    lemma_be_round_trip(0);
    lemma_be_round_trip(sum);
    lemma_with_word(cleared, slot, sum);
    lemma_with_word(d2, slot, 0);
    lemma_checksum_sum(cleared);
    lemma_checksum_sum(out);
    lemma_byte_sum_overwritten(cleared, slot, be_bytes(sum));
    let zeros = cleared.subrange(slot, slot + 4);
    assert(zeros =~= be_bytes(0));
    lemma_byte_sum_four(zeros);
    lemma_byte_sum_four(be_bytes(sum));
    let b = be_bytes(sum);
    assert(be_bytes(0u32)[0] == 0 && be_bytes(0u32)[1] == 0 && be_bytes(0u32)[2] == 0 && be_bytes(
        0u32,
    )[3] == 0) by {
        assert((0u32 >> 24) as u8 == 0 && ((0u32 >> 16) & 0xff) as u8 == 0 && ((0u32 >> 8)
            & 0xff) as u8 == 0 && (0u32 & 0xff) as u8 == 0) by (bit_vector);
    }
    assert((b[0] == 0 && b[1] == 0 && b[2] == 0 && b[3] == 0) <==> sum == 0) by {
        assert(((sum >> 24) as u8 == 0 && ((sum >> 16) & 0xff) as u8 == 0 && ((sum >> 8)
            & 0xff) as u8 == 0 && (sum & 0xff) as u8 == 0) <==> sum == 0) by (bit_vector);
    }
    assert(byte_sum(out) == byte_sum(cleared) + byte_sum(b));
    assert(byte_sum(b) <= 1020);
}

/// The data of a self-checking overlay after its patches, where its
/// three symbols resolve to places inside the data; the failure of the
/// first that does not.
pub open spec fn self_check(
    data: Seq<u8>,
    base: u64,
    code: (u32, u32),
    symbols: Seq<SymbolView>,
    row: SelfCheckView,
) -> Result<Seq<u8>, Fault> {
    match patch_offset(data.len(), base, symbols, row.code_lo) {
        Err(fault) => Err(fault),
        Ok(lo) => match patch_offset(data.len(), base, symbols, row.code_hi) {
            Err(fault) => Err(fault),
            Ok(hi) => match patch_offset(data.len(), base, symbols, row.data_sum) {
                Err(fault) => Err(fault),
                Ok(slot) => Ok(self_checked(data, lo, hi, slot, code)),
            },
        },
    }
}

/// `segment` with other data.
pub open spec fn with_data(segment: SegmentView, data: Seq<u8>) -> SegmentView {
    SegmentView { info: segment.info, code: segment.code, data }
}

/// The segments after the overlay of `row` has been made to check
/// itself. Only the data of that overlay differ.
pub open spec fn after_self_check(
    segments: Seq<SegmentView>,
    symbols: Seq<SymbolView>,
    row: SelfCheckView,
) -> Result<Seq<SegmentView>, Fault> {
    match position(segments, row.overlay) {
        None => Err(Fault::UnknownOverlay { name: row.overlay }),
        Some(i) => match self_check(
            segments[i].data,
            segments[i].info.data.start,
            checksum_of(segments[i].code),
            symbols,
            row,
        ) {
            Err(fault) => Err(fault),
            Ok(data) => Ok(segments.update(i, with_data(segments[i], data))),
        },
    }
}

/// Whether the word at `slot` is the first word of the checksum of
/// `data` with the four bytes at `slot` cleared.
pub open spec fn keeps_sum(data: Seq<u8>, slot: int) -> bool {
    0 <= slot && slot + 4 <= data.len() && word_at(data, slot) == checksum_of(
        with_word(data, slot, 0),
    ).0
}

/// What a self-check does to the segments: nothing but the data of the
/// overlay of `row` differ, and these keep their length. The word that
/// then stands at the place of the data checksum is the first word of
/// the checksum of the data with that place cleared, and doing the
/// self-check over again changes nothing.
pub proof fn lemma_after_self_check(
    segments: Seq<SegmentView>,
    symbols: Seq<SymbolView>,
    row: SelfCheckView,
    out: Seq<SegmentView>,
)
    requires
        after_self_check(segments, symbols, row) == Ok::<Seq<SegmentView>, Fault>(out),
    ensures
        out.len() == segments.len(),
        match position(segments, row.overlay) {
            None => false,
            Some(i) => {
                &&& 0 <= i < segments.len()
                &&& out[i].info == segments[i].info
                &&& out[i].code == segments[i].code
                &&& out[i].data.len() == segments[i].data.len()
                &&& forall|j: int| 0 <= j < segments.len() && j != i ==> out[j] == segments[j]
                &&& match patch_offset(
                    segments[i].data.len(),
                    segments[i].info.data.start,
                    symbols,
                    row.data_sum,
                ) {
                    Err(_) => false,
                    Ok(slot) => keeps_sum(out[i].data, slot),
                }
            },
        },
        after_self_check(out, symbols, row) == Ok::<Seq<SegmentView>, Fault>(out),
{
    lemma_position(segments, row.overlay);
    let i = position(segments, row.overlay)->Some_0;
    let data = segments[i].data;
    let base = segments[i].info.data.start;
    let code = checksum_of(segments[i].code);
    let lo = patch_offset(data.len(), base, symbols, row.code_lo)->Ok_0;
    let hi = patch_offset(data.len(), base, symbols, row.code_hi)->Ok_0;
    let slot = patch_offset(data.len(), base, symbols, row.data_sum)->Ok_0;
    lemma_self_checked_fixed_point(data, lo, hi, slot, code);
    lemma_position_of_name(segments, out, row.overlay);
    assert(out.update(i, with_data(out[i], out[i].data)) =~= out);
}

/// The place of a name among segments depends on the names alone.
pub proof fn lemma_position_of_name(a: Seq<SegmentView>, b: Seq<SegmentView>, name: Seq<char>)
    requires
        a.len() == b.len(),
        forall|j: int| 0 <= j < a.len() ==> a[j].info.name == b[j].info.name,
    ensures
        position(a, name) == position(b, name),
    decreases a.len(),
{
    if a.len() > 0 {
        lemma_position_of_name(a.drop_first(), b.drop_first(), name);
    }
}

/// The checksum word that `edge` carries, taken of its source as it is
/// in `segments`.
pub open spec fn carried(segments: Seq<SegmentView>, edge: EdgeView) -> Result<u32, Fault> {
    match position(segments, edge.source) {
        None => Err(Fault::UnknownOverlay { name: edge.source }),
        Some(i) => {
            let sum = checksum_of(
                match edge.part {
                    Part::Code => segments[i].code,
                    Part::Data => segments[i].data,
                },
            );
            Ok(
                match edge.word {
                    Word::First => sum.0,
                    Word::Second => sum.1,
                },
            )
        },
    }
}

/// The segments after `edge` has been followed. Only the data of its
/// target differ, and of them only the four bytes at its symbol.
pub open spec fn after_edge(segments: Seq<SegmentView>, symbols: Seq<SymbolView>, edge: EdgeView) -> Result<
    Seq<SegmentView>,
    Fault,
> {
    match carried(segments, edge) {
        Err(fault) => Err(fault),
        Ok(word) => match position(segments, edge.target) {
            None => Err(Fault::UnknownOverlay { name: edge.target }),
            Some(j) => match patch_offset(
                segments[j].data.len(),
                segments[j].info.data.start,
                symbols,
                edge.symbol,
            ) {
                Err(fault) => Err(fault),
                Ok(at) => Ok(
                    segments.update(j, with_data(segments[j], with_word(segments[j].data, at, word))),
                ),
            },
        },
    }
}

/// `after_self_check` over a fixed symbol table.
pub open spec fn self_checker(symbols: Seq<SymbolView>) -> spec_fn(
    Seq<SegmentView>,
    SelfCheckView,
) -> Result<Seq<SegmentView>, Fault> {
    |segments: Seq<SegmentView>, row: SelfCheckView| after_self_check(segments, symbols, row)
}

/// `after_edge` over a fixed symbol table.
pub open spec fn edge_follower(symbols: Seq<SymbolView>) -> spec_fn(
    Seq<SegmentView>,
    EdgeView,
) -> Result<Seq<SegmentView>, Fault> {
    |segments: Seq<SegmentView>, edge: EdgeView| after_edge(segments, symbols, edge)
}

/// The segments after all of `rows` have been made to check themselves,
/// in order, and then all of `edges` have been followed, in order; the
/// first failure where a step fails.
pub open spec fn patched_by(
    segments: Seq<SegmentView>,
    symbols: Seq<SymbolView>,
    rows: Seq<SelfCheckView>,
    edges: Seq<EdgeView>,
) -> Result<Seq<SegmentView>, Fault> {
    match try_fold(segments, rows, self_checker(symbols)) {
        Err(fault) => Err(fault),
        Ok(checked) => try_fold(checked, edges, edge_follower(symbols)),
    }
}

/// The segments after every checksum of the game has been taken and
/// written.
pub open spec fn patched(segments: Seq<SegmentView>, symbols: Seq<SymbolView>) -> Result<
    Seq<SegmentView>,
    Fault,
> {
    patched_by(segments, symbols, self_check_rows(), cross_edge_rows())
}

/// A row of the table of self-checking overlays.
fn self_check_row(overlay: &str, code_lo: &str, code_hi: &str, data_sum: &str) -> (row: SelfCheck)
    ensures
        row@ == (SelfCheckView {
            overlay: overlay@,
            code_lo: code_lo@,
            code_hi: code_hi@,
            data_sum: data_sum@,
        }),
{
    SelfCheck {
        overlay: overlay.to_owned(),
        code_lo: code_lo.to_owned(),
        code_hi: code_hi.to_owned(),
        data_sum: data_sum.to_owned(),
    }
}

/// An edge between two overlays.
fn edge(source: &str, part: Part, word: Word, target: &str, symbol: &str) -> (made: Edge)
    ensures
        made@ == (EdgeView { source: source@, part, word, target: target@, symbol: symbol@ }),
{
    Edge { source: source.to_owned(), part, word, target: target.to_owned(), symbol: symbol.to_owned() }
}

/// The overlays that check themselves, in the order in which they are
/// patched.
pub fn self_check_table() -> (rows: Vec<SelfCheck>)
    ensures
        self_check_views(rows@) == self_check_rows(),
{
    let mut rows: Vec<SelfCheck> = Vec::new();
    rows.push(self_check_row("SM", "D_8038AAE0", "D_8038AAE4", "D_8038AAE8"));
    rows.push(self_check_row("MM", "D_803899C0", "D_803899C4", "D_803899C8"));
    rows.push(self_check_row("TTC", "D_8038C750", "D_8038C754", "D_8038C758"));
    rows.push(self_check_row("BGS", "D_80390B20", "D_80390B24", "D_80390B28"));
    rows.push(self_check_row("CC", "D_80389BE0", "D_80389BE4", "D_80389BE8"));
    rows.push(self_check_row("GV", "D_80390F30", "D_80390F34", "D_80390F38"));
    rows.push(self_check_row("MMM", "D_8038C300", "D_8038C304", "D_8038C308"));
    assert(self_check_views(rows@) =~= self_check_rows());
    rows
}

/// The checksums that the primary core keeps of other overlays, in the
/// order in which they are written.
pub fn cross_edges() -> (edges: Vec<Edge>)
    ensures
        edge_views(edges@) == cross_edge_rows(),
{
    let mut edges: Vec<Edge> = Vec::new();
    edges.push(edge("core2", Part::Code, Word::Second, "core1", "D_803727F4"));
    edges.push(edge("core2", Part::Data, Word::Second, "core1", "D_80276574"));
    edges.push(edge("SM", Part::Data, Word::Second, "core1", "D_80275650"));
    assert(edge_views(edges@) =~= cross_edge_rows());
    edges
}

/// The index of the first of `segments` that is called `name`.
pub fn position_of(segments: &Vec<Segment>, name: &str) -> (found: Option<usize>)
    ensures
        found is Some <==> position(segment_views(segments@), name@) is Some,
        found matches Some(i) ==> i < segments@.len() && position(
            segment_views(segments@),
            name@,
        ) == Some(i as int),
{
    let ghost views = segment_views(segments@);
    let wanted: String = name.to_owned();
    let mut i: usize = 0;
    proof {
        assert(views.skip(0) =~= views);
    }
    while i < segments.len()
        invariant
            i <= segments@.len(),
            views == segment_views(segments@),
            wanted@ == name@,
            position(views, name@) == match position(views.skip(i as int), name@) {
                Some(k) => Some(k + i),
                None => None,
            },
        decreases segments@.len() - i,
    {
        if segments[i].info.name == wanted {
            return Some(i);
        }
        proof {
            assert(views.skip(i as int).drop_first() =~= views.skip(i + 1));
        }
        i = i + 1;
    }
    None
}

/// Makes the overlay of `row` check itself: writes the two words of its
/// code checksum into its data, clears the place of its data checksum,
/// takes the checksum of the data and writes its first word there.
///
/// Fails, and leaves the segments as they are, where the overlay is not
/// among them or one of the three symbols does not resolve to a place in
/// its data.
pub fn apply_self_check(segments: &mut Vec<Segment>, symbols: &[Symbol], row: &SelfCheck) -> (done:
    Result<(), BuildError>)
    ensures
        match after_self_check(segment_views(old(segments)@), symbol_views(symbols@), row@) {
            Ok(views) => done is Ok && segment_views(final(segments)@) == views,
            Err(fault) => done matches Err(e) && e@ == fault && final(segments)@ == old(
                segments,
            )@,
        },
{
    let ghost before = segment_views(segments@);
    let i = match position_of(segments, row.overlay.as_str()) {
        None => {
            return Err(BuildError::UnknownOverlay { name: row.overlay.clone() });
        },
        Some(i) => i,
    };
    let code = bk_crc(segments[i].code.as_slice());
    let base = segments[i].info.data.start;
    let len = segments[i].data.len();
    let lo = match resolve_offset(len, base, symbols, row.code_lo.as_str()) {
        Err(e) => {
            return Err(e);
        },
        Ok(at) => at,
    };
    let hi = match resolve_offset(len, base, symbols, row.code_hi.as_str()) {
        Err(e) => {
            return Err(e);
        },
        Ok(at) => at,
    };
    let slot = match resolve_offset(len, base, symbols, row.data_sum.as_str()) {
        Err(e) => {
            return Err(e);
        },
        Ok(at) => at,
    };
    write_at(&mut segments[i].data, lo, to_be_bytes(code.0));
    write_at(&mut segments[i].data, hi, to_be_bytes(code.1));
    write_at(&mut segments[i].data, slot, to_be_bytes(0));
    let sum = bk_crc(segments[i].data.as_slice());
    write_at(&mut segments[i].data, slot, to_be_bytes(sum.0));
    proof {
        let data = self_checked(before[i as int].data, lo as int, hi as int, slot as int, code);
        assert(segments@[i as int].data@ == data);
        assert(segment_views(segments@) =~= before.update(
            i as int,
            with_data(before[i as int], data),
        ));
    }
    Ok(())
}

/// Follows `edge`: takes the checksum of the part of its source and
/// writes the word of it into the data of its target, at its symbol.
///
/// Fails, and leaves the segments as they are, where source or target
/// is not among them or the symbol does not resolve to a place in the
/// data of the target.
pub fn apply_edge(segments: &mut Vec<Segment>, symbols: &[Symbol], edge: &Edge) -> (done: Result<
    (),
    BuildError,
>)
    ensures
        match after_edge(segment_views(old(segments)@), symbol_views(symbols@), edge@) {
            Ok(views) => done is Ok && segment_views(final(segments)@) == views,
            Err(fault) => done matches Err(e) && e@ == fault && final(segments)@ == old(
                segments,
            )@,
        },
{
    let ghost before = segment_views(segments@);
    let i = match position_of(segments, edge.source.as_str()) {
        None => {
            return Err(BuildError::UnknownOverlay { name: edge.source.clone() });
        },
        Some(i) => i,
    };
    let sum = match edge.part {
        Part::Code => bk_crc(segments[i].code.as_slice()),
        Part::Data => bk_crc(segments[i].data.as_slice()),
    };
    let word = match edge.word {
        Word::First => sum.0,
        Word::Second => sum.1,
    };
    let j = match position_of(segments, edge.target.as_str()) {
        None => {
            return Err(BuildError::UnknownOverlay { name: edge.target.clone() });
        },
        Some(j) => j,
    };
    let base = segments[j].info.data.start;
    let len = segments[j].data.len();
    let at = match resolve_offset(len, base, symbols, edge.symbol.as_str()) {
        Err(e) => {
            return Err(e);
        },
        Ok(at) => at,
    };
    write_at(&mut segments[j].data, at, to_be_bytes(word));
    proof {
        assert(segment_views(segments@) =~= before.update(
            j as int,
            with_data(before[j as int], with_word(before[j as int].data, at as int, word)),
        ));
    }
    Ok(())
}

/// Makes all of `rows` check themselves, in order, and then follows all
/// of `edges`, in order. The first step that fails ends it, and nothing
/// is handed back.
pub fn patch_overlays_by(
    segments: Vec<Segment>,
    symbols: &[Symbol],
    rows: &Vec<SelfCheck>,
    edges: &Vec<Edge>,
) -> (done: Result<Vec<Segment>, BuildError>)
    ensures
        match patched_by(
            segment_views(segments@),
            symbol_views(symbols@),
            self_check_views(rows@),
            edge_views(edges@),
        ) {
            Ok(views) => done matches Ok(out) && segment_views(out@) == views,
            Err(fault) => done matches Err(e) && e@ == fault,
        },
{
    let ghost start = segment_views(segments@);
    let ghost row_views = self_check_views(rows@);
    let ghost check = self_checker(symbol_views(symbols@));
    let ghost views = edge_views(edges@);
    let ghost follow = edge_follower(symbol_views(symbols@));
    let mut work = segments;
    let mut i: usize = 0;
    while i < rows.len()
        invariant
            i <= rows@.len(),
            start == segment_views(segments@),
            row_views == self_check_views(rows@),
            check == self_checker(symbol_views(symbols@)),
            views == edge_views(edges@),
            follow == edge_follower(symbol_views(symbols@)),
            try_fold(start, row_views.take(i as int), check) == Ok::<Seq<SegmentView>, Fault>(
                segment_views(work@),
            ),
        decreases rows@.len() - i,
    {
        proof {
            lemma_try_fold_next(start, row_views, check, i as int);
        }
        match apply_self_check(&mut work, symbols, &rows[i]) {
            Ok(()) => {},
            Err(e) => {
                proof {
                    lemma_try_fold_failed(start, row_views, check, i + 1);
                }
                return Err(e);
            },
        }
        i = i + 1;
    }
    proof {
        lemma_try_all(row_views);
    }
    let ghost checked = segment_views(work@);
    let mut k: usize = 0;
    while k < edges.len()
        invariant
            k <= edges@.len(),
            start == segment_views(segments@),
            row_views == self_check_views(rows@),
            check == self_checker(symbol_views(symbols@)),
            views == edge_views(edges@),
            follow == edge_follower(symbol_views(symbols@)),
            try_fold(start, row_views, check) == Ok::<Seq<SegmentView>, Fault>(checked),
            try_fold(checked, views.take(k as int), follow) == Ok::<Seq<SegmentView>, Fault>(
                segment_views(work@),
            ),
        decreases edges@.len() - k,
    {
        proof {
            lemma_try_fold_next(checked, views, follow, k as int);
        }
        match apply_edge(&mut work, symbols, &edges[k]) {
            Ok(()) => {},
            Err(e) => {
                proof {
                    lemma_try_fold_failed(checked, views, follow, k + 1);
                }
                return Err(e);
            },
        }
        k = k + 1;
    }
    proof {
        lemma_try_all(views);
    }
    Ok(work)
}

/// Takes and writes every checksum of the game, in the order that their
/// dependencies ask for: first each self-checking overlay, then the
/// checksums that the primary core keeps of other overlays.
pub fn patch_overlays(segments: Vec<Segment>, symbols: &[Symbol]) -> (done: Result<
    Vec<Segment>,
    BuildError,
>)
    ensures
        match patched(segment_views(segments@), symbol_views(symbols@)) {
            Ok(views) => done matches Ok(out) && segment_views(out@) == views,
            Err(fault) => done matches Err(e) && e@ == fault,
        },
{
    let rows = self_check_table();
    let edges = cross_edges();
    patch_overlays_by(segments, symbols, &rows, &edges)
}

} // verus!
