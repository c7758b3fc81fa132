//! Width quantizations and quantized numbers.

use atln_processor::num::{Signed, Size, Unsigned};

#[test]
fn size_from_power() {
    assert_eq!(Size::from_power(0), Size::U8);
    assert_eq!(Size::from_power(1), Size::U16);
    assert_eq!(Size::from_power(2), Size::U32);
    assert_eq!(Size::from_power(3), Size::U64);
    // Only the low two bits of the power are significant.
    assert_eq!(Size::from_power(0b111_01), Size::U16);
}

#[test]
fn size_to_power() {
    assert_eq!(Size::U8.to_power(), 0);
    assert_eq!(Size::U16.to_power(), 1);
    assert_eq!(Size::U32.to_power(), 2);
    assert_eq!(Size::U64.to_power(), 3);
}

#[test]
fn size_byte_length() {
    assert_eq!(Size::U8.size(), 1);
    assert_eq!(Size::U16.size(), 2);
    assert_eq!(Size::U32.size(), 4);
    assert_eq!(Size::U64.size(), 8);
}

#[test]
fn size_from_bytes_and_exponent() {
    assert_eq!(Size::from_bytes(1), Some(Size::U8));
    assert_eq!(Size::from_bytes(8), Some(Size::U64));
    assert_eq!(Size::from_bytes(3), None);
    assert_eq!(Size::from_exponent(2), Some(Size::U32));
    assert_eq!(Size::from_exponent(4), None);
}

#[test]
fn size_stepping() {
    assert_eq!(Size::U8.upsize(), Size::U16);
    assert_eq!(Size::U64.upsize(), Size::U64);
    assert!(Size::U8.can_upsize());
    assert!(!Size::U64.can_upsize());
    assert_eq!(Size::U64.downsize(), Size::U32);
    assert_eq!(Size::U8.downsize(), Size::U8);
    assert!(Size::U64.can_downsize());
    assert!(!Size::U8.can_downsize());
}

#[test]
fn size_mask_and_minimum() {
    assert_eq!(Size::U8.mask(), 0xff);
    assert_eq!(Size::U16.mask(), 0xffff);
    assert_eq!(Size::U32.mask(), 0xffff_ffff);
    assert_eq!(Size::U64.mask(), u64::MAX);

    assert_eq!(Size::minimum(0), Size::U8);
    assert_eq!(Size::minimum(255), Size::U8);
    assert_eq!(Size::minimum(256), Size::U16);
    assert_eq!(Size::minimum(0x1_0000_0000), Size::U64);

    assert_eq!(Size::minimum_signed(127), Size::U8);
    assert_eq!(Size::minimum_signed(-128), Size::U8);
    assert_eq!(Size::minimum_signed(128), Size::U16);
    assert_eq!(Size::minimum_signed(-129), Size::U16);
    assert_eq!(Size::minimum_signed(i64::MIN), Size::U64);
}

#[test]
fn unsigned_requantization() {
    let value = Unsigned::U64(0x1122_3344_5566_7788);
    assert_eq!(Unsigned::with_size(Size::U8, value), Unsigned::U8(0x88));
    assert_eq!(Unsigned::with_size(Size::U16, value), Unsigned::U16(0x7788));
    assert_eq!(Unsigned::with_size_u64(Size::U32, 0x1122_3344_5566_7788), Unsigned::U32(0x5566_7788));

    assert_eq!(Unsigned::U8(7).upsize(), Unsigned::U16(7));
    assert_eq!(Unsigned::U64(7).upsize(), Unsigned::U64(7));
    assert_eq!(Unsigned::U16(0x0102).downsize(), Unsigned::U8(0x02));
    assert_eq!(Unsigned::U8(7).downsize(), Unsigned::U8(7));
}

#[test]
fn unsigned_le_bytes() {
    assert_eq!(Unsigned::U64(1001).to_le_bytes(), 1001u64.to_le_bytes().to_vec());
    assert_eq!(Unsigned::U16(0x0102).to_le_bytes(), vec![0x02, 0x01]);
    assert_eq!(Unsigned::U8(9).to_le_bytes(), vec![9]);

    let bytes = vec![0x02, 0x01];
    assert_eq!(Unsigned::from_le_bytes(Size::U16, &bytes), Unsigned::U16(0x0102));
    let bytes = 1001u64.to_le_bytes().to_vec();
    assert_eq!(Unsigned::from_le_bytes(Size::U64, &bytes), Unsigned::U64(1001));
}

#[test]
fn signed_reinterpretation() {
    assert_eq!(Unsigned::U8(0xff).to_signed(), Signed::I8(-1));
    assert_eq!(Signed::I8(-1).to_unsigned(), Unsigned::U8(0xff));
    assert_eq!(Unsigned::U16(1).to_signed(), Signed::I16(1));
    assert_eq!(Signed::I64(-2).to_unsigned().to_signed(), Signed::I64(-2));
    assert_eq!(Signed::I32(5).size(), Size::U32);
}
