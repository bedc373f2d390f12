use bk_rom::checksum::bk_crc;
use bk_rom::error::BuildError;
use bk_rom::graph::{
    apply_edge, apply_self_check, cross_edges, patch_overlays, patch_overlays_by, position_of,
    self_check_table, Edge, Part, SelfCheck, Word,
};
use bk_rom::segment::Segment;
use bk_rom::symbols::{OverlayInfo, Span, Symbol};

fn symbol(name: &str, value: u64) -> Symbol {
    Symbol { name: name.to_string(), value }
}

fn segment(name: &str, data_start: u64, code: Vec<u8>, data: Vec<u8>) -> Segment {
    Segment {
        info: OverlayInfo {
            name: name.to_string(),
            text: Span { start: 0x1000, end: 0x1000 + code.len() as u64 },
            data: Span { start: data_start, end: data_start + data.len() as u64 },
            bss: Span { start: 0, end: 0 },
            uncompressed_rom: Span { start: 0, end: (code.len() + data.len()) as u64 },
        },
        code,
        data,
    }
}

fn row(overlay: &str, code_lo: &str, code_hi: &str, data_sum: &str) -> SelfCheck {
    SelfCheck {
        overlay: overlay.to_string(),
        code_lo: code_lo.to_string(),
        code_hi: code_hi.to_string(),
        data_sum: data_sum.to_string(),
    }
}

fn word(bytes: &[u8], at: usize) -> u32 {
    u32::from_be_bytes([bytes[at], bytes[at + 1], bytes[at + 2], bytes[at + 3]])
}

#[test]
fn the_table_of_self_checking_overlays() {
    let rows = self_check_table();
    assert_eq!(
        rows,
        vec![
            row("SM", "D_8038AAE0", "D_8038AAE4", "D_8038AAE8"),
            row("MM", "D_803899C0", "D_803899C4", "D_803899C8"),
            row("TTC", "D_8038C750", "D_8038C754", "D_8038C758"),
            row("BGS", "D_80390B20", "D_80390B24", "D_80390B28"),
            row("CC", "D_80389BE0", "D_80389BE4", "D_80389BE8"),
            row("GV", "D_80390F30", "D_80390F34", "D_80390F38"),
            row("MMM", "D_8038C300", "D_8038C304", "D_8038C308"),
        ]
    );
}

#[test]
fn the_edges_between_the_cores() {
    let edges = cross_edges();
    assert_eq!(edges.len(), 3);
    assert_eq!(
        edges[0],
        Edge {
            source: "core2".to_string(),
            part: Part::Code,
            word: Word::Second,
            target: "core1".to_string(),
            symbol: "D_803727F4".to_string(),
        }
    );
    assert_eq!(
        edges[1],
        Edge {
            source: "core2".to_string(),
            part: Part::Data,
            word: Word::Second,
            target: "core1".to_string(),
            symbol: "D_80276574".to_string(),
        }
    );
    assert_eq!(
        edges[2],
        Edge {
            source: "SM".to_string(),
            part: Part::Data,
            word: Word::Second,
            target: "core1".to_string(),
            symbol: "D_80275650".to_string(),
        }
    );
}

#[test]
fn a_segment_is_found_by_its_name() {
    let segments = vec![
        segment("a", 0, vec![], vec![]),
        segment("b", 0, vec![], vec![]),
        segment("b", 0, vec![1], vec![]),
    ];
    assert_eq!(position_of(&segments, "a"), Some(0));
    assert_eq!(position_of(&segments, "b"), Some(1));
    assert_eq!(position_of(&segments, "c"), None);
}

#[test]
fn a_self_check_by_hand() {
    let code = vec![1u8, 2, 3];
    let data = vec![0x11u8; 16];
    let mut segments = vec![segment("X", 0x8000_0000, code.clone(), data)];
    let symbols =
        vec![symbol("lo", 0x8000_0000), symbol("hi", 0x8000_0004), symbol("sum", 0x8000_000C)];
    assert_eq!(apply_self_check(&mut segments, &symbols, &row("X", "lo", "hi", "sum")), Ok(()));
    // The checksum of the code 1, 2, 3.
    let code_sum = bk_crc(&code);
    assert_eq!(code_sum, (6, 0xFFFF_FFFF ^ (1 << 1) ^ (2 << 3) ^ (3 << 6)));
    let data = &segments[0].data;
    assert_eq!(word(data, 0), code_sum.0);
    assert_eq!(word(data, 4), code_sum.1);
    assert_eq!(&data[8..12], &[0x11u8; 4]);
    // The sum of the data with the place of the sum cleared:
    // 6 + (0xFF + 0xFF + 0xFF + 0x2D) + 4 * 0x11.
    assert_eq!(word(data, 12), 6 + 0xFF + 0xFF + 0xFF + 0x2D + 4 * 0x11);
    assert_eq!(segments[0].code, code);
}

#[test]
fn the_kept_sum_is_the_sum_of_the_data_with_its_place_cleared() {
    let code: Vec<u8> = (0..200u32).map(|i| (i * 13) as u8).collect();
    let data: Vec<u8> = (0..64u32).map(|i| (i * 29 + 5) as u8).collect();
    let mut segments = vec![segment("X", 0x8000_0000, code, data)];
    let symbols =
        vec![symbol("lo", 0x8000_0010), symbol("hi", 0x8000_0014), symbol("sum", 0x8000_0018)];
    let check = row("X", "lo", "hi", "sum");
    assert_eq!(apply_self_check(&mut segments, &symbols, &check), Ok(()));
    let kept = word(&segments[0].data, 0x18);
    let mut cleared = segments[0].data.clone();
    cleared[0x18..0x1C].copy_from_slice(&[0, 0, 0, 0]);
    assert_eq!(bk_crc(&cleared).0, kept);
    // Taken with the kept sum in place, the sum differs by the bytes of
    // the kept sum.
    let bytes = kept.to_be_bytes();
    let added: u32 = bytes.iter().map(|b| *b as u32).sum();
    assert_ne!(kept, 0);
    assert_eq!(bk_crc(&segments[0].data).0, kept.wrapping_add(added));
    // Doing it over again changes nothing.
    let once = segments.clone();
    assert_eq!(apply_self_check(&mut segments, &symbols, &check), Ok(()));
    assert_eq!(segments, once);
}

#[test]
fn a_self_check_with_places_that_overlap() {
    let mut segments = vec![segment("X", 0, vec![9, 9], vec![0u8; 8])];
    let symbols = vec![symbol("lo", 0), symbol("hi", 2), symbol("sum", 4)];
    assert_eq!(apply_self_check(&mut segments, &symbols, &row("X", "lo", "hi", "sum")), Ok(()));
    let code_sum = bk_crc(&[9, 9]);
    let lo = code_sum.0.to_be_bytes();
    let hi = code_sum.1.to_be_bytes();
    let data = &segments[0].data;
    assert_eq!(&data[0..2], &lo[0..2]);
    assert_eq!(&data[2..4], &hi[0..2]);
    let expected: u32 =
        lo[0] as u32 + lo[1] as u32 + hi[0] as u32 + hi[1] as u32;
    assert_eq!(word(data, 4), expected);
}

#[test]
fn a_self_check_fails_as_a_whole() {
    let data = vec![0x11u8; 16];
    let start = vec![segment("X", 0x8000_0000, vec![1, 2, 3], data)];
    let mut segments = start.clone();
    let symbols = vec![symbol("lo", 0x8000_0000), symbol("hi", 0x8000_0004)];
    assert_eq!(
        apply_self_check(&mut segments, &symbols, &row("X", "lo", "hi", "sum")),
        Err(BuildError::MissingSymbol { name: "sum".to_string() })
    );
    assert_eq!(segments, start);
    let symbols =
        vec![symbol("lo", 0x8000_0000), symbol("hi", 0x8000_000D), symbol("sum", 0x9000_0000)];
    assert_eq!(
        apply_self_check(&mut segments, &symbols, &row("X", "lo", "hi", "sum")),
        Err(BuildError::OffsetOutOfRange { name: "hi".to_string(), address: 0x8000_000D })
    );
    assert_eq!(segments, start);
    assert_eq!(
        apply_self_check(&mut segments, &symbols, &row("Y", "lo", "hi", "sum")),
        Err(BuildError::UnknownOverlay { name: "Y".to_string() })
    );
    assert_eq!(segments, start);
}

#[test]
fn an_edge_carries_one_word() {
    let mut segments = vec![
        segment("A", 0x100, vec![1, 2], vec![0u8; 8]),
        segment("B", 0x200, vec![5], vec![3, 4, 0, 0, 0, 0, 0, 0]),
    ];
    let symbols = vec![symbol("here", 0x104), symbol("there", 0x200)];
    let edge = Edge {
        source: "B".to_string(),
        part: Part::Data,
        word: Word::Second,
        target: "A".to_string(),
        symbol: "here".to_string(),
    };
    assert_eq!(apply_edge(&mut segments, &symbols, &edge), Ok(()));
    let sum = bk_crc(&[3, 4, 0, 0, 0, 0, 0, 0]);
    assert_eq!(segments[0].data[0..4], [0, 0, 0, 0]);
    assert_eq!(word(&segments[0].data, 4), sum.1);
    assert_eq!(segments[1].data, vec![3, 4, 0, 0, 0, 0, 0, 0]);
    let edge = Edge {
        source: "A".to_string(),
        part: Part::Code,
        word: Word::First,
        target: "B".to_string(),
        symbol: "there".to_string(),
    };
    assert_eq!(apply_edge(&mut segments, &symbols, &edge), Ok(()));
    assert_eq!(word(&segments[1].data, 0), 3);
    assert_eq!(segments[1].data[4..8], [0, 0, 0, 0]);
}

#[test]
fn an_edge_fails_without_its_ends() {
    let start = vec![segment("A", 0x100, vec![1, 2], vec![0u8; 8])];
    let mut segments = start.clone();
    let symbols = vec![symbol("here", 0x104)];
    let mut edge = Edge {
        source: "B".to_string(),
        part: Part::Data,
        word: Word::Second,
        target: "C".to_string(),
        symbol: "here".to_string(),
    };
    assert_eq!(
        apply_edge(&mut segments, &symbols, &edge),
        Err(BuildError::UnknownOverlay { name: "B".to_string() })
    );
    edge.source = "A".to_string();
    assert_eq!(
        apply_edge(&mut segments, &symbols, &edge),
        Err(BuildError::UnknownOverlay { name: "C".to_string() })
    );
    edge.target = "A".to_string();
    edge.symbol = "nowhere".to_string();
    assert_eq!(
        apply_edge(&mut segments, &symbols, &edge),
        Err(BuildError::MissingSymbol { name: "nowhere".to_string() })
    );
    assert_eq!(segments, start);
}

#[test]
fn rows_come_before_edges_and_each_in_order() {
    let segments = vec![
        segment("A", 0x100, vec![1, 2], vec![0u8; 16]),
        segment("B", 0x200, vec![5], vec![0u8; 16]),
    ];
    let symbols = vec![
        symbol("lo", 0x100),
        symbol("hi", 0x104),
        symbol("sum", 0x108),
        symbol("kept", 0x200),
    ];
    let rows = vec![row("A", "lo", "hi", "sum")];
    let edges = vec![Edge {
        source: "A".to_string(),
        part: Part::Data,
        word: Word::First,
        target: "B".to_string(),
        symbol: "kept".to_string(),
    }];
    let out = patch_overlays_by(segments.clone(), &symbols, &rows, &edges).unwrap();
    let mut by_hand = segments.clone();
    apply_self_check(&mut by_hand, &symbols, &rows[0]).unwrap();
    let after_row = by_hand.clone();
    apply_edge(&mut by_hand, &symbols, &edges[0]).unwrap();
    assert_eq!(out, by_hand);
    // The edge carries the sum of the data of A as patched by the row.
    assert_eq!(word(&out[1].data, 0), bk_crc(&after_row[0].data).0);
    assert_ne!(word(&out[1].data, 0), bk_crc(&segments[0].data).0);
}

#[test]
fn the_game_needs_its_overlays() {
    let segments = vec![segment("core1", 0, vec![], vec![0u8; 16])];
    assert_eq!(
        patch_overlays(segments, &[]),
        Err(BuildError::UnknownOverlay { name: "SM".to_string() })
    );
}
