use swiss_uid::utils::nibble;
use swiss_uid::utils::{IntoNibbles, IntoNibblesNum};

#[test]
fn utils_test_to_nibbles() {
    let n: u16 = 0x1234;
    let n_split: Vec<u8> = n.into_nibbles();
    assert_eq!(n_split, [1, 2, 3, 4]);
}

#[test]
fn utils_test_from_nibbles() {
    let n = [1u8, 2u8, 3u8, 4u8];
    let n_quad: u16 = n.into_nibbles_num();
    assert_eq!(n_quad, 0x1234);
}

#[test]
fn utils_test_to_quad_nibble_above_10() {
    let n = [11u8, 12u8, 13u8, 14u8];
    let n_quad: u16 = n.into_nibbles_num();
    assert_eq!(n_quad, 0xbcde);
    assert_eq!(format!("{n_quad:#x}"), format!("{:#x}", 0xbcde));
}

#[test]
fn nibble_test_to_nibbles() {
    let n: u16 = 0x1234;
    let n_split: Vec<u8> = nibble::IntoNibbles::into_nibbles(n);
    assert_eq!(n_split, [1, 2, 3, 4]);
}

#[test]
fn nibble_test_from_nibbles() {
    let n = [1u8, 2u8, 3u8, 4u8];
    let n_quad: u16 = nibble::IntoNibblesNum::into_nibbles_num(&n[..]);
    assert_eq!(n_quad, 0x1234);
}

#[test]
fn nibble_test_to_quad_nibble_above_10() {
    let n = [11u8, 12u8, 13u8, 14u8];
    let n_quad: u16 = nibble::IntoNibblesNum::into_nibbles_num(&n[..]);
    assert_eq!(n_quad, 0xbcde);
    assert_eq!(format!("{n_quad:#x}"), format!("{:#x}", 0xbcde));
}

#[test]
fn from_nibbles_reads_at_most_four_into_u16() {
    let n = [1u8, 2, 3, 4, 5];
    let n_quad: u16 = n.into_nibbles_num();
    assert_eq!(n_quad, 0x1234);
}

#[test]
fn from_nibbles_with_fewer_digits() {
    let n = [1u8, 2];
    let v: u16 = n.into_nibbles_num();
    assert_eq!(v, 0x12);
    let empty: [u8; 0] = [];
    let z: u16 = empty.into_nibbles_num();
    assert_eq!(z, 0);
}

#[test]
fn nibbles_of_u32_round_trip() {
    let n = [1u8, 0, 9, 3, 2, 2, 5, 5];
    let v: u32 = n.into_nibbles_num();
    assert_eq!(v, 0x1093_2255);
    assert_eq!(v.into_nibbles(), vec![1, 0, 9, 3, 2, 2, 5, 5]);
    let w: u32 = 0xfedc_ba98;
    assert_eq!(w.into_nibbles(), vec![15, 14, 13, 12, 11, 10, 9, 8]);
}
