use genapi_core::content::decode_content;
use genapi_core::elem_type::{Endianness, Sign};

#[test]
fn bytes_in_both_orders() {
    let bytes = [0x12, 0x34, 0x56, 0x78];
    assert_eq!(decode_content(&bytes, Sign::Unsigned, Endianness::BE), Some(0x12345678));
    assert_eq!(decode_content(&bytes, Sign::Unsigned, Endianness::LE), Some(0x78563412));
    assert_eq!(decode_content(&[0x01, 0x00], Sign::Unsigned, Endianness::BE), Some(256));
    assert_eq!(decode_content(&[0x01, 0x00], Sign::Unsigned, Endianness::LE), Some(1));
}

#[test]
fn signed_contents_are_in_twos_complement() {
    assert_eq!(decode_content(&[0xff], Sign::Signed, Endianness::BE), Some(-1));
    assert_eq!(decode_content(&[0xff], Sign::Unsigned, Endianness::BE), Some(255));
    assert_eq!(decode_content(&[0x80], Sign::Signed, Endianness::LE), Some(-128));
    assert_eq!(decode_content(&[0x7f], Sign::Signed, Endianness::LE), Some(127));
    assert_eq!(decode_content(&[0xff, 0xfe], Sign::Signed, Endianness::BE), Some(-2));
    assert_eq!(decode_content(&[0xfe, 0xff], Sign::Signed, Endianness::LE), Some(-2));
    assert_eq!(decode_content(&[0x80, 0, 0, 0], Sign::Signed, Endianness::BE), Some(i32::MIN as i64));
}

#[test]
fn contents_of_eight_bytes() {
    let all = [0xff; 8];
    assert_eq!(decode_content(&all, Sign::Signed, Endianness::BE), Some(-1));
    assert_eq!(decode_content(&all, Sign::Unsigned, Endianness::BE), None);
    let top = [0x7f, 0xff, 0xff, 0xff, 0xff, 0xff, 0xff, 0xff];
    assert_eq!(decode_content(&top, Sign::Unsigned, Endianness::BE), Some(i64::MAX));
    assert_eq!(decode_content(&top, Sign::Signed, Endianness::BE), Some(i64::MAX));
    let bottom = [0, 0, 0, 0, 0, 0, 0, 0x80];
    assert_eq!(decode_content(&bottom, Sign::Signed, Endianness::LE), Some(i64::MIN));
    assert_eq!(decode_content(&bottom, Sign::Unsigned, Endianness::LE), None);
}

#[test]
fn no_bytes_and_too_many() {
    assert_eq!(decode_content(&[], Sign::Unsigned, Endianness::BE), Some(0));
    assert_eq!(decode_content(&[], Sign::Signed, Endianness::LE), Some(0));
    assert_eq!(decode_content(&[0; 9], Sign::Unsigned, Endianness::BE), None);
    assert_eq!(decode_content(&[0; 9], Sign::Signed, Endianness::LE), None);
}
