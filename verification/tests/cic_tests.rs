use bk_rom::cic::{
    boot_crc, boot_fold_sums, boot_step_word, calculate_crc, cic_from_crc, crc32,
    crc_generate_table, identify, seed, BootSums, N64CicType,
};

const SIZE: usize = 0x10_1000;

fn pattern(len: usize) -> Vec<u8> {
    let mut x: u32 = 1;
    let mut out = Vec::with_capacity(len);
    for _ in 0..len {
        x = x.wrapping_mul(0x41C6_4E6D).wrapping_add(12345);
        out.push((x >> 16) as u8);
    }
    out
}

/// An image whose boot code is zero but for its last four bytes, which
/// bring its CRC-32 to that of a known boot chip, and whose window holds
/// a fixed pattern.
fn image_with_boot_code_end(end: [u8; 4]) -> Vec<u8> {
    let mut rom = vec![0u8; SIZE];
    rom[0xFFC..0x1000].copy_from_slice(&end);
    let window = pattern(0x10_0000);
    rom[0x1000..].copy_from_slice(&window);
    rom
}

fn reference_boot_crc(cic: N64CicType, rom: &[u8]) -> [u32; 2] {
    let start: u32 = match cic {
        N64CicType::Cic6101 | N64CicType::Cic6102 => 0xF8CA_4DDC,
        N64CicType::Cic6103 => 0xA388_6759,
        N64CicType::Cic6105 => 0xDF26_F436,
        N64CicType::Cic6106 => 0x1FEA_617A,
    };
    let (mut t1, mut t2, mut t3, mut t4, mut t5, mut t6) = (start, start, start, start, start, start);
    let window = &rom[0x1000..0x10_1000];
    for i in 0..0x4_0000usize {
        let d = u32::from_be_bytes([
            window[4 * i],
            window[4 * i + 1],
            window[4 * i + 2],
            window[4 * i + 3],
        ]);
        if t6.wrapping_add(d) < t6 {
            t4 = t4.wrapping_add(1);
        }
        t6 = t6.wrapping_add(d);
        t3 ^= d;
        let r = d.rotate_left(d & 0x1F);
        t5 = t5.wrapping_add(r);
        if t2 > d {
            t2 ^= r;
        } else {
            t2 ^= t6 ^ d;
        }
        if cic == N64CicType::Cic6105 {
            let at = (4 * i + 0x710) & 0xFF;
            let side =
                u32::from_be_bytes([window[at], window[at + 1], window[at + 2], window[at + 3]]);
            t1 = t1.wrapping_add(d ^ side);
        } else {
            t1 = t1.wrapping_add(d ^ t5);
        }
    }
    match cic {
        N64CicType::Cic6103 => [(t6 ^ t4).wrapping_add(t3), (t5 ^ t2).wrapping_add(t1)],
        N64CicType::Cic6106 => {
            [t6.wrapping_mul(t4).wrapping_add(t3), t5.wrapping_mul(t2).wrapping_add(t1)]
        }
        _ => [t6 ^ t4 ^ t3, t5 ^ t2 ^ t1],
    }
}

#[test]
fn crc32_check_value() {
    assert_eq!(crc32(b"123456789"), 0xCBF4_3926);
}

#[test]
fn crc32_of_nothing() {
    assert_eq!(crc32(&[]), 0);
}

#[test]
fn crc_table_entries() {
    let table = crc_generate_table();
    assert_eq!(table[0], 0);
    assert_eq!(table[1], 0x7707_3096);
    assert_eq!(table[2], 0xEE0E_612C);
    assert_eq!(table[128], 0xEDB8_8320);
    assert_eq!(table[255], 0x2D02_EF8D);
}

#[test]
fn the_five_known_boot_chips() {
    assert_eq!(cic_from_crc(0x6170_A4A1), Some(N64CicType::Cic6101));
    assert_eq!(cic_from_crc(0x90BB_6CB5), Some(N64CicType::Cic6102));
    assert_eq!(cic_from_crc(0x0B05_0EE0), Some(N64CicType::Cic6103));
    assert_eq!(cic_from_crc(0x98BC_2C86), Some(N64CicType::Cic6105));
    assert_eq!(cic_from_crc(0xACC8_580A), Some(N64CicType::Cic6106));
}

#[test]
fn other_crcs_are_no_boot_chip() {
    assert_eq!(cic_from_crc(0), None);
    assert_eq!(cic_from_crc(0x6170_A4A2), None);
    assert_eq!(cic_from_crc(0xFFFF_FFFF), None);
}

#[test]
fn seeds_of_the_boot_chips() {
    assert_eq!(seed(N64CicType::Cic6101), 0xF8CA_4DDC);
    assert_eq!(seed(N64CicType::Cic6102), 0xF8CA_4DDC);
    assert_eq!(seed(N64CicType::Cic6103), 0xA388_6759);
    assert_eq!(seed(N64CicType::Cic6105), 0xDF26_F436);
    assert_eq!(seed(N64CicType::Cic6106), 0x1FEA_617A);
}

#[test]
fn identify_reads_the_boot_code_only() {
    let mut rom = image_with_boot_code_end([0x89, 0x26, 0x79, 0xFB]);
    assert_eq!(identify(&rom), Some(N64CicType::Cic6102));
    rom[0x10] = 0x55;
    rom[0x2000] ^= 0xFF;
    assert_eq!(identify(&rom), Some(N64CicType::Cic6102));
    rom[0x40] = 1;
    assert_eq!(identify(&rom), None);
}

#[test]
fn identify_each_boot_chip() {
    assert_eq!(
        identify(&image_with_boot_code_end([0xE2, 0x66, 0x56, 0xB7])),
        Some(N64CicType::Cic6101)
    );
    assert_eq!(
        identify(&image_with_boot_code_end([0x87, 0x5E, 0x92, 0x3F])),
        Some(N64CicType::Cic6103)
    );
    assert_eq!(
        identify(&image_with_boot_code_end([0x8F, 0xE6, 0x5E, 0x21])),
        Some(N64CicType::Cic6105)
    );
    assert_eq!(
        identify(&image_with_boot_code_end([0xED, 0x93, 0xDC, 0xB9])),
        Some(N64CicType::Cic6106)
    );
}

#[test]
fn unknown_boot_code_gives_no_checksum() {
    let rom = image_with_boot_code_end([0, 0, 0, 0]);
    assert_eq!(identify(&rom), None);
    assert_eq!(calculate_crc(&rom), None);
}

#[test]
fn boot_checksum_of_6101() {
    let rom = image_with_boot_code_end([0xE2, 0x66, 0x56, 0xB7]);
    assert_eq!(calculate_crc(&rom), Some([0x466B_7A33, 0x6A1E_10FE]));
}

#[test]
fn boot_checksum_of_6102() {
    let rom = image_with_boot_code_end([0x89, 0x26, 0x79, 0xFB]);
    assert_eq!(calculate_crc(&rom), Some([0x466B_7A33, 0x6A1E_10FE]));
    assert_eq!(calculate_crc(&rom).unwrap(), reference_boot_crc(N64CicType::Cic6102, &rom));
}

#[test]
fn boot_checksum_of_6103() {
    let rom = image_with_boot_code_end([0x87, 0x5E, 0x92, 0x3F]);
    assert_eq!(calculate_crc(&rom), Some([0x3629_59CF, 0x7257_8A12]));
    assert_eq!(calculate_crc(&rom).unwrap(), reference_boot_crc(N64CicType::Cic6103, &rom));
}

#[test]
fn boot_checksum_of_6105() {
    let rom = image_with_boot_code_end([0x8F, 0xE6, 0x5E, 0x21]);
    assert_eq!(calculate_crc(&rom), Some([0x6CC7_A6CD, 0x2850_0E09]));
    assert_eq!(calculate_crc(&rom).unwrap(), reference_boot_crc(N64CicType::Cic6105, &rom));
}

#[test]
fn boot_checksum_of_6106() {
    let rom = image_with_boot_code_end([0xED, 0x93, 0xDC, 0xB9]);
    assert_eq!(calculate_crc(&rom), Some([0xC42B_537A, 0x7DB7_6F32]));
    assert_eq!(calculate_crc(&rom).unwrap(), reference_boot_crc(N64CicType::Cic6106, &rom));
}

#[test]
fn boot_checksum_for_a_given_chip() {
    let rom = image_with_boot_code_end([0, 0, 0, 0]);
    assert_eq!(boot_crc(N64CicType::Cic6102, &rom), [0x466B_7A33, 0x6A1E_10FE]);
    assert_eq!(boot_crc(N64CicType::Cic6105, &rom), [0x6CC7_A6CD, 0x2850_0E09]);
}

#[test]
fn boot_checksum_ignores_what_follows_the_window() {
    let mut rom = image_with_boot_code_end([0x89, 0x26, 0x79, 0xFB]);
    rom.extend_from_slice(&[1, 2, 3, 4, 5, 6, 7, 8]);
    assert_eq!(calculate_crc(&rom), Some([0x466B_7A33, 0x6A1E_10FE]));
}

#[test]
fn one_word_of_the_boot_checksum() {
    let mut window = vec![0u8; 0x10_0000];
    window[0..4].copy_from_slice(&[0x80, 0x00, 0x00, 0x01]);
    let start = BootSums { t1: 1, t2: 2, t3: 3, t4: 4, t5: 5, t6: 0x8000_0000 };
    let next = boot_step_word(N64CicType::Cic6102, &window, 0, start);
    // d = 0x80000001, turned left by one bit: 0x00000003.
    assert_eq!(next.t6, 0x0000_0001);
    assert_eq!(next.t4, 5);
    assert_eq!(next.t3, 0x8000_0002);
    assert_eq!(next.t5, 8);
    assert_eq!(next.t2, 2 ^ (0x0000_0001 ^ 0x8000_0001));
    assert_eq!(next.t1, 1u32.wrapping_add(0x8000_0001 ^ 8));
}

#[test]
fn a_word_with_no_turn_is_taken_as_it_is() {
    let mut window = vec![0u8; 0x10_0000];
    window[0..4].copy_from_slice(&[0x12, 0x34, 0x56, 0x60]);
    let start = BootSums { t1: 0, t2: 0xFFFF_FFFF, t3: 0, t4: 0, t5: 0, t6: 0 };
    let next = boot_step_word(N64CicType::Cic6103, &window, 0, start);
    assert_eq!(next.t5, 0x1234_5660);
    assert_eq!(next.t2, 0xFFFF_FFFF ^ 0x1234_5660);
    assert_eq!(next.t4, 0);
}

#[test]
fn the_side_word_of_6105() {
    let mut window = vec![0u8; 0x10_0000];
    window[0x10..0x14].copy_from_slice(&[0xAA, 0xBB, 0xCC, 0xDD]);
    let start = BootSums { t1: 0, t2: 0, t3: 0, t4: 0, t5: 0, t6: 0 };
    let next = boot_step_word(N64CicType::Cic6105, &window, 0, start);
    assert_eq!(next.t1, 0xAABB_CCDD);
    let other = boot_step_word(N64CicType::Cic6102, &window, 0, start);
    assert_eq!(other.t1, 0);
    // Word 0x3C reads its side word at (0xF0 + 0x710) & 0xFF = 0x00.
    window[0..4].copy_from_slice(&[0, 0, 0, 7]);
    let late = boot_step_word(N64CicType::Cic6105, &window, 0x3C, start);
    assert_eq!(late.t1, 7);
}

#[test]
fn folding_by_the_rule_of_the_chip() {
    let sums = BootSums {
        t1: 0xFFFF_FFFF,
        t2: 0x0000_0003,
        t3: 0xF000_0000,
        t4: 0x0001_0001,
        t5: 0x8000_0000,
        t6: 0x0001_0000,
    };
    assert_eq!(
        boot_fold_sums(N64CicType::Cic6102, sums),
        (0x0001_0000 ^ 0x0001_0001 ^ 0xF000_0000, 0x8000_0000 ^ 0x0000_0003 ^ 0xFFFF_FFFF)
    );
    assert_eq!(boot_fold_sums(N64CicType::Cic6101, sums), boot_fold_sums(N64CicType::Cic6105, sums));
    assert_eq!(boot_fold_sums(N64CicType::Cic6103, sums), (0xF000_0001, 0x8000_0002));
    // 0x10000 * 0x10001 wraps to 0x00010000; 0x80000000 * 3 wraps to 0x80000000.
    assert_eq!(boot_fold_sums(N64CicType::Cic6106, sums), (0xF001_0000, 0x7FFF_FFFF));
}
