//! Bit-field coding of the two driver bytes.

use atln_processor::instruction::Driver;

#[test]
fn extract_extension() {
    assert_eq!(Driver::extract_extension(0b001101_0_0), 0b00_001101);
    assert_eq!(Driver::extract_extension(0b101010_0_1), 0b00_101010);
}

#[test]
fn set_extension() {
    assert_eq!(Driver::set_extension(0b000000_0_1, 10), 0b001010_0_1);
    assert_eq!(Driver::set_extension(0b101100_0_0, 0b101100), 0b101100_0_0);
    assert_eq!(Driver::set_extension(0b101100_1_0, 0b101100), 0b101100_1_0);

    // Truncating extension
    assert_eq!(Driver::set_extension(0b00000000_0_0, 0b11_111111), 0b111111_0_0);
    assert_eq!(Driver::set_extension(0b00000000_0_1, 0b11_111110), 0b111110_0_1);
}

#[test]
fn extract_synchronise() {
    assert!(Driver::extract_synchronise(0b000000_1_0));
    assert!(!Driver::extract_synchronise(0b000000_0_0));
    assert!(Driver::extract_synchronise(0b001010_1_1));
    assert!(!Driver::extract_synchronise(0b001010_0_1));
}

#[test]
fn set_synchronise() {
    assert_eq!(Driver::set_synchronise(0b000000_0_0, true), 0b000000_1_0);
    assert_eq!(Driver::set_synchronise(0b000000_1_0, false), 0b000000_0_0);
    assert_eq!(Driver::set_synchronise(0b000000_0_1, true), 0b000000_1_1);
    assert_eq!(Driver::set_synchronise(0b111111_0_0, false), 0b111111_0_0);
}

#[test]
fn extract_dynamic_destination() {
    assert!(Driver::extract_dynamic_destination(0b000000_0_1));
    assert!(!Driver::extract_dynamic_destination(0b000000_0_0));
    assert!(Driver::extract_dynamic_destination(0b000000_1_1));
    assert!(!Driver::extract_dynamic_destination(0b000000_1_0));
}

#[test]
fn set_dynamic_destination() {
    assert_eq!(Driver::set_dynamic_destination(0b000000_0_0, true), 0b000000_0_1);
    assert_eq!(Driver::set_dynamic_destination(0b000000_1_0, true), 0b000000_1_1);
    assert_eq!(Driver::set_dynamic_destination(0b000000_0_1, false), 0b000000_0_0);
    assert_eq!(Driver::set_dynamic_destination(0b000000_1_1, false), 0b000000_1_0);
}

#[test]
fn extract_operation() {
    assert_eq!(Driver::extract_operation(0b1101_00_00), 0b0000_1101);
    assert_eq!(Driver::extract_operation(0b1010_01_10), 0b0000_1010);
}

#[test]
fn set_operation() {
    assert_eq!(Driver::set_operation(0b0001_00_11, 0b0000_1111), 0b1111_00_11);
    assert_eq!(Driver::set_operation(0b1111_00_10, 0b0000_1001), 0b1001_00_10);
    assert_eq!(Driver::set_operation(0b1010_00_10, 0b0000_1010), 0b1010_00_10);

    // Truncating extension
    assert_eq!(Driver::set_operation(0b0000_00_00, 0b1111_1111), 0b1111_00_00);
    assert_eq!(Driver::set_operation(0b0000_10_01, 0b1111_1111), 0b1111_10_01);
}

#[test]
fn extract_addressing() {
    assert_eq!(Driver::extract_addressing(0b0011_10_00), 0b000000_10);
    assert_eq!(Driver::extract_addressing(0b1011_11_00), 0b000000_11);
    assert_eq!(Driver::extract_addressing(0b0000_00_00), 0b000000_00);
}

#[test]
fn set_addressing() {
    assert_eq!(Driver::set_addressing(0b0000_11_00, 0b000000_00), 0b0000_00_00);
    assert_eq!(Driver::set_addressing(0b0011_00_00, 0b000000_01), 0b0011_01_00);
    assert_eq!(Driver::set_addressing(0b1011_00_00, 0b000000_00), 0b1011_00_00);

    // Truncating extension
    assert_eq!(Driver::set_addressing(0b0000_00_00, 0b111111_11), 0b0000_11_00);
    assert_eq!(Driver::set_addressing(0b1010_00_01, 0b111111_11), 0b1010_11_01);
}

#[test]
fn extract_immediate_exponent() {
    assert_eq!(Driver::extract_immediate_exponent(0b0000_00_11), 0b000000_11);
    assert_eq!(Driver::extract_immediate_exponent(0b1010_11_01), 0b000000_01);
}

#[test]
fn set_immediate_exponent() {
    assert_eq!(Driver::set_immediate_exponent(0b0011_00_00, 0b000000_11), 0b0011_00_11);
    assert_eq!(Driver::set_immediate_exponent(0b0000_11_00, 0b000000_10), 0b0000_11_10);
    assert_eq!(Driver::set_immediate_exponent(0b1011_01_00, 0b000000_00), 0b1011_01_00);

    // Truncating extension
    assert_eq!(Driver::set_immediate_exponent(0b0000_00_00, 0b111111_11), 0b0000_00_11);
    assert_eq!(Driver::set_immediate_exponent(0b1011_01_00, 0b111111_10), 0b1011_01_10);
}

#[test]
fn from_encoded() {
    let driver = Driver::from_encoded([0b001010_0_1, 0b1111_10_01]);

    // Driver 0
    assert_eq!(driver.extension, 0b001010);
    assert!(!driver.synchronise);
    assert!(driver.dynamic_destination);

    // Driver 1
    assert_eq!(driver.operation, 0b1111);
    assert_eq!(driver.addressing, 0b10);
    assert_eq!(driver.immediate_exponent, 0b1);
}

#[test]
fn encode() {
    let driver = Driver {
        operation: 0b1110,
        extension: 0b1010,
        synchronise: true,
        dynamic_destination: false,
        addressing: 0b11,
        immediate_exponent: 0b10,
    };

    let encoded = driver.encode();

    assert_eq!(encoded[0], 0b001010_1_0);
    assert_eq!(encoded[1], 0b1110_11_10);
}
