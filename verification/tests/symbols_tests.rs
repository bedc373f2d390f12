use bk_rom::error::BuildError;
use bk_rom::patch::{replace_symbol, resolve_offset, write_at};
use bk_rom::segment::{load_overlays, overlay_names, split_segment};
use bk_rom::symbols::{find_elf_symbol, find_elf_symbols, same_name, OverlayInfo, Span, Symbol};

fn symbol(name: &str, value: u64) -> Symbol {
    Symbol { name: name.to_string(), value }
}

fn overlay_symbols(name: &str, base: u64) -> Vec<Symbol> {
    vec![
        symbol(&format!("{}_TEXT_START", name), base),
        symbol(&format!("{}_TEXT_END", name), base + 0x10),
        symbol(&format!("{}_DATA_START", name), base + 0x20),
        symbol(&format!("{}_DATA_END", name), base + 0x30),
        symbol(&format!("{}_BSS_START", name), base + 0x40),
        symbol(&format!("{}_BSS_END", name), base + 0x50),
        symbol(&format!("{}_ROM_START", name), 0x100),
        symbol(&format!("{}_ROM_END", name), 0x120),
    ]
}

#[test]
fn a_symbol_is_found_by_its_name() {
    let symbols = vec![symbol("a", 1), symbol("b", 2), symbol("c", 3)];
    assert_eq!(find_elf_symbol(&symbols, "b"), Ok(2));
    assert_eq!(find_elf_symbol(&symbols, "c"), Ok(3));
}

#[test]
fn the_first_symbol_of_a_name_is_taken() {
    let symbols = vec![symbol("a", 1), symbol("b", 2), symbol("b", 7)];
    assert_eq!(find_elf_symbol(&symbols, "b"), Ok(2));
}

#[test]
fn a_missing_symbol_is_named() {
    let symbols = vec![symbol("a", 1)];
    assert_eq!(
        find_elf_symbol(&symbols, "zz"),
        Err(BuildError::MissingSymbol { name: "zz".to_string() })
    );
    assert_eq!(
        find_elf_symbol(&[], "a"),
        Err(BuildError::MissingSymbol { name: "a".to_string() })
    );
}

#[test]
fn names_are_compared_whole() {
    assert!(same_name("core1", "core1"));
    assert!(!same_name("core1", "core2"));
    assert!(!same_name("core1", "core"));
    assert!(same_name("", ""));
}

#[test]
fn several_symbols_in_order() {
    let symbols = vec![symbol("a", 1), symbol("b", 2), symbol("c", 3)];
    let names = vec!["c".to_string(), "a".to_string()];
    assert_eq!(find_elf_symbols(&symbols, &names), Ok(vec![3, 1]));
    let names = vec!["c".to_string(), "x".to_string(), "y".to_string()];
    assert_eq!(
        find_elf_symbols(&symbols, &names),
        Err(BuildError::MissingSymbol { name: "x".to_string() })
    );
    assert_eq!(find_elf_symbols(&symbols, &Vec::new()), Ok(Vec::new()));
}

#[test]
fn the_ranges_of_an_overlay() {
    let symbols = overlay_symbols("SM", 0x8038_0000);
    let info = OverlayInfo::from_elf_symbols("SM", &symbols).unwrap();
    assert_eq!(info.name, "SM");
    assert_eq!(info.text, Span { start: 0x8038_0000, end: 0x8038_0010 });
    assert_eq!(info.data, Span { start: 0x8038_0020, end: 0x8038_0030 });
    assert_eq!(info.bss, Span { start: 0x8038_0040, end: 0x8038_0050 });
    assert_eq!(info.uncompressed_rom, Span { start: 0x100, end: 0x120 });
}

#[test]
fn the_primary_core_has_one_symbol_for_code_end_and_data_start() {
    let mut symbols = overlay_symbols("core1", 0x8024_0000);
    symbols.push(symbol("core1_DATA_START_OFFSET", 0x8024_0018));
    let info = OverlayInfo::from_elf_symbols("core1", &symbols).unwrap();
    assert_eq!(info.text, Span { start: 0x8024_0000, end: 0x8024_0018 });
    assert_eq!(info.data, Span { start: 0x8024_0018, end: 0x8024_0030 });
}

#[test]
fn the_primary_core_needs_its_own_symbol() {
    let symbols = overlay_symbols("core1", 0x8024_0000);
    assert_eq!(
        OverlayInfo::from_elf_symbols("core1", &symbols),
        Err(BuildError::MissingSymbol { name: "core1_DATA_START_OFFSET".to_string() })
    );
}

#[test]
fn the_first_missing_symbol_of_an_overlay_is_named() {
    let mut symbols = overlay_symbols("GV", 0x8038_0000);
    symbols.retain(|s| s.name != "GV_DATA_END" && s.name != "GV_ROM_END");
    assert_eq!(
        OverlayInfo::from_elf_symbols("GV", &symbols),
        Err(BuildError::MissingSymbol { name: "GV_DATA_END".to_string() })
    );
}

#[test]
fn a_span_has_a_length() {
    assert_eq!(Span { start: 3, end: 10 }.len(), 7);
    assert_eq!(Span { start: 10, end: 10 }.len(), 0);
    assert_eq!(Span { start: 10, end: 3 }.len(), 0);
}

#[test]
fn an_overlay_is_cut_into_code_and_data() {
    let rom: Vec<u8> = (0..0x200u32).map(|i| i as u8).collect();
    let info = OverlayInfo::from_elf_symbols("SM", &overlay_symbols("SM", 0x8038_0000)).unwrap();
    let segment = split_segment(&rom, info).unwrap();
    assert_eq!(segment.code, rom[0x100..0x110].to_vec());
    assert_eq!(segment.data, rom[0x110..0x120].to_vec());
    assert_eq!(segment.info.name, "SM");
}

#[test]
fn an_overlay_outside_the_image_is_refused() {
    let rom = vec![0u8; 0x11F];
    let info = OverlayInfo::from_elf_symbols("SM", &overlay_symbols("SM", 0x8038_0000)).unwrap();
    assert_eq!(
        split_segment(&rom, info),
        Err(BuildError::SegmentOutOfRange { name: "SM".to_string() })
    );
}

#[test]
fn an_overlay_shorter_than_its_code_is_refused() {
    let rom = vec![0u8; 0x200];
    let mut info =
        OverlayInfo::from_elf_symbols("SM", &overlay_symbols("SM", 0x8038_0000)).unwrap();
    info.text = Span { start: 0, end: 0x21 };
    assert_eq!(
        split_segment(&rom, info.clone()),
        Err(BuildError::SegmentOutOfRange { name: "SM".to_string() })
    );
    info.text = Span { start: 0, end: 0x20 };
    let segment = split_segment(&rom, info).unwrap();
    assert_eq!(segment.code.len(), 0x20);
    assert_eq!(segment.data.len(), 0);
}

#[test]
fn there_are_sixteen_overlays() {
    let names = overlay_names();
    assert_eq!(
        names,
        vec![
            "core1", "core2", "CC", "GV", "MMM", "TTC", "MM", "BGS", "RBB", "FP", "SM",
            "cutscenes", "lair", "fight", "CCW", "emptyLvl"
        ]
    );
}

#[test]
fn overlays_are_located_before_any_is_cut() {
    // "a" lies outside the image and "b" lacks a symbol: the missing
    // symbol is found first.
    let mut symbols = overlay_symbols("a", 0x8000_0000);
    let mut more = overlay_symbols("b", 0x8000_1000);
    more.retain(|s| s.name != "b_BSS_END");
    symbols.append(&mut more);
    let names = vec!["a".to_string(), "b".to_string()];
    assert_eq!(
        load_overlays(&[0u8; 4], &symbols, &names),
        Err(BuildError::MissingSymbol { name: "b_BSS_END".to_string() })
    );
    let names = vec!["a".to_string()];
    assert_eq!(
        load_overlays(&[0u8; 4], &symbols, &names),
        Err(BuildError::SegmentOutOfRange { name: "a".to_string() })
    );
}

#[test]
fn patch_writes_four_bytes_and_no_more() {
    let symbols = vec![symbol("D_1", 0x8000_0104)];
    let mut bytes: Vec<u8> = (0..16).collect();
    assert_eq!(
        replace_symbol(&mut bytes, 0x8000_0100, &symbols, "D_1", [0xAA, 0xBB, 0xCC, 0xDD]),
        Ok(())
    );
    assert_eq!(bytes, vec![0, 1, 2, 3, 0xAA, 0xBB, 0xCC, 0xDD, 8, 9, 10, 11, 12, 13, 14, 15]);
}

#[test]
fn patch_at_the_very_end() {
    let symbols = vec![symbol("D_1", 0x8000_010C)];
    let mut bytes = vec![0u8; 16];
    assert_eq!(replace_symbol(&mut bytes, 0x8000_0100, &symbols, "D_1", [1, 2, 3, 4]), Ok(()));
    assert_eq!(&bytes[12..], &[1, 2, 3, 4]);
    assert_eq!(&bytes[..12], &[0u8; 12]);
}

#[test]
fn patch_past_the_end_fails() {
    for address in [0x8000_010Du64, 0x8000_010F, 0x8000_0110, 0x9000_0000] {
        let symbols = vec![symbol("D_1", address)];
        let mut bytes: Vec<u8> = (0..16).collect();
        assert_eq!(
            replace_symbol(&mut bytes, 0x8000_0100, &symbols, "D_1", [1, 2, 3, 4]),
            Err(BuildError::OffsetOutOfRange { name: "D_1".to_string(), address })
        );
        assert_eq!(bytes, (0..16).collect::<Vec<u8>>());
    }
}

#[test]
fn patch_before_the_start_fails() {
    let symbols = vec![symbol("D_1", 0x8000_00FF)];
    let mut bytes = vec![7u8; 16];
    assert_eq!(
        replace_symbol(&mut bytes, 0x8000_0100, &symbols, "D_1", [1, 2, 3, 4]),
        Err(BuildError::OffsetOutOfRange { name: "D_1".to_string(), address: 0x8000_00FF })
    );
    assert_eq!(bytes, vec![7u8; 16]);
}

#[test]
fn patch_of_a_missing_symbol_fails() {
    let mut bytes = vec![7u8; 16];
    assert_eq!(
        replace_symbol(&mut bytes, 0, &[], "D_1", [1, 2, 3, 4]),
        Err(BuildError::MissingSymbol { name: "D_1".to_string() })
    );
    assert_eq!(bytes, vec![7u8; 16]);
}

#[test]
fn patch_into_a_short_buffer_fails() {
    let symbols = vec![symbol("D_1", 0)];
    let mut bytes = vec![7u8; 3];
    assert_eq!(
        replace_symbol(&mut bytes, 0, &symbols, "D_1", [1, 2, 3, 4]),
        Err(BuildError::OffsetOutOfRange { name: "D_1".to_string(), address: 0 })
    );
    assert_eq!(resolve_offset(4, 0, &symbols, "D_1"), Ok(0));
}

#[test]
fn four_bytes_are_written_at_an_offset() {
    let mut bytes = vec![0u8; 6];
    write_at(&mut bytes, 1, [9, 8, 7, 6]);
    assert_eq!(bytes, vec![0, 9, 8, 7, 6, 0]);
}
