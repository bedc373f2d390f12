use bk_rom::bytes::{read_be_u32, to_be_bytes};
use bk_rom::checksum::bk_crc;

fn reference_checksum(bytes: &[u8]) -> (u32, u32) {
    bytes.iter().fold((0u32, 0xFFFF_FFFFu32), |acc, byte| {
        let a = acc.0.wrapping_add(*byte as u32);
        (a, acc.1 ^ ((*byte as u32) << (a & 0x17)))
    })
}

#[test]
fn checksum_of_nothing_is_the_start() {
    assert_eq!(bk_crc(&[]), (0, 0xFFFF_FFFF));
}

#[test]
fn checksum_of_one_byte() {
    assert_eq!(bk_crc(&[1]), (0x1, 0xFFFF_FFFD));
}

#[test]
fn checksum_known_values() {
    assert_eq!(bk_crc(&[1, 2]), (0x3, 0xFFFF_FFED));
    assert_eq!(bk_crc(b"hello"), (0x214, 0xF9D7_FEB7));
    let all: Vec<u8> = (0..=255u8).collect();
    assert_eq!(bk_crc(&all), (0x7F80, 0xFFFF_FFFF));
}

#[test]
fn checksum_depends_on_order() {
    assert_eq!(bk_crc(&[2, 1]), (0x3, 0xFFFF_FFFF));
    assert_ne!(bk_crc(&[1, 2]), bk_crc(&[2, 1]));
    assert_eq!(bk_crc(&[1, 2]).0, bk_crc(&[2, 1]).0);
}

#[test]
fn checksum_is_repeatable() {
    let bytes: Vec<u8> = (0..1000u32).map(|i| (i * 31 + 7) as u8).collect();
    assert_eq!(bk_crc(&bytes), bk_crc(&bytes));
    assert_eq!(bk_crc(&bytes), reference_checksum(&bytes));
}

#[test]
fn checksum_shift_comes_from_the_sum_after_the_byte() {
    // With the sum taken before the byte the shift would be 0 here.
    assert_eq!(bk_crc(&[4]), (4, 0xFFFF_FFFF ^ (4 << 4)));
}

#[test]
fn checksum_mask_is_not_a_full_mask() {
    // The sum 8 has none of the bits of the mask 0x17, so nothing shifts.
    assert_eq!(bk_crc(&[8]), (8, 0xFFFF_FFFF ^ 8));
    // The sum 0x1F keeps only the bits 0x17 of it.
    assert_eq!(bk_crc(&[0x1F]), (0x1F, 0xFFFF_FFFF ^ (0x1F << 0x17)));
}

#[test]
fn checksum_sum_wraps_at_32_bits() {
    let bytes = vec![0xFFu8; 17_000_000];
    assert_eq!(bk_crc(&bytes), (0x0262_D9C0, 0xFFFF_FFFF));
}

#[test]
fn big_endian_bytes_of_a_word() {
    assert_eq!(to_be_bytes(0x1234_5678), [0x12, 0x34, 0x56, 0x78]);
    assert_eq!(to_be_bytes(0), [0, 0, 0, 0]);
    assert_eq!(to_be_bytes(0xFFFF_FFFF), [0xFF, 0xFF, 0xFF, 0xFF]);
}

#[test]
fn big_endian_word_is_read_back() {
    let bytes = [0xAA, 0x12, 0x34, 0x56, 0x78, 0xBB];
    assert_eq!(read_be_u32(&bytes, 1), 0x1234_5678);
    assert_eq!(read_be_u32(&bytes, 0), 0xAA12_3456);
    assert_eq!(read_be_u32(&to_be_bytes(0xDEAD_BEEF), 0), 0xDEAD_BEEF);
}
