//! The instruction codec: operand decoding, instruction decoding, and the
//! round trip between decode and encode.

use atln_processor::instruction::{
    Data, DecodeError, Destination, DestinationError, Driver, Instruction, RawData,
};
use atln_processor::num::{Signed, Size, Unsigned};
use atln_processor::operand::{
    AddressingMode, All, Combination, ComplexAddressing, DualInput, ImmediateAddressing, Operand,
    Registers,
};
use atln_processor::operation::{Arithmetic, Control, Extension, Transfer};
use atln_processor::stream::{BufferSource, ByteSource};

fn register_operand(size: Size, register: u8) -> Operand {
    Operand { size, mode: AddressingMode::Register { register } }
}

#[test]
fn decode_relative_addressing() {
    // +1 int_1 offset with a qword value.
    let mut input = BufferSource::new(vec![0b10_110000, 0b00000001]);
    assert_eq!(
        Operand::decode(&mut input).unwrap(),
        Operand {
            size: Size::U64,
            mode: AddressingMode::Immediate {
                mode: ImmediateAddressing::Relative { offset: Signed::I8(1) }
            }
        }
    );

    // +0 int_2 offset with a qword value.
    let mut input = BufferSource::new(vec![0b10_110100, 0b00000000, 0b00000000]);
    assert_eq!(
        Operand::decode(&mut input).unwrap(),
        Operand {
            size: Size::U64,
            mode: AddressingMode::Immediate {
                mode: ImmediateAddressing::Relative { offset: Signed::I16(0) }
            }
        }
    );
}

#[test]
fn decode_immediate_value() {
    // 10 uint_1 as a qword value.
    let mut input = BufferSource::new(vec![0b01_110000, 0b00001010]);
    assert_eq!(
        Operand::decode(&mut input).unwrap(),
        Operand {
            size: Size::U64,
            mode: AddressingMode::Immediate {
                mode: ImmediateAddressing::Immediate { immediate: Unsigned::U8(10) }
            }
        }
    );

    // 10 uint_8 as a word value.
    let mut input = BufferSource::new(vec![0b01_001100, 0b00001010, 0, 0, 0, 0, 0, 0, 0]);
    assert_eq!(
        Operand::decode(&mut input).unwrap(),
        Operand {
            size: Size::U8,
            mode: AddressingMode::Immediate {
                mode: ImmediateAddressing::Immediate { immediate: Unsigned::U64(10) }
            }
        }
    );
}

#[test]
fn decode() {
    let driver = Driver {
        extension: 0,
        operation: 0,
        synchronise: true,
        dynamic_destination: false,
        addressing: 0,
        immediate_exponent: 0,
    }
    .encode();

    let data = RawData { width: 0, x_static: 10, x_dynamic: 20 }.encode();

    let mut cursor = BufferSource::new(vec![driver[0], driver[1], data]);
    let instruction = Instruction::from_encoded(&mut cursor).unwrap();

    assert!(matches!(instruction.operation, Extension::Arithmetic(_)));
}

#[test]
fn destination() {
    let x_static = Instruction {
        operation: Extension::Arithmetic(Arithmetic::Add),
        width: Size::U8,
        synchronise: false,
        data: Some(Data {
            width: Size::U8,
            destination: Destination::Static,
            operands: Combination::All(All {
                destination: register_operand(Size::U8, 0),
                input_a: register_operand(Size::U8, 0),
                input_b: register_operand(Size::U8, 1),
            }),
        }),
    };

    let x_dynamic = Instruction {
        operation: Extension::Arithmetic(Arithmetic::Add),
        width: Size::U8,
        synchronise: false,
        data: Some(Data {
            width: Size::U8,
            destination: Destination::Dynamic,
            operands: Combination::All(All {
                destination: register_operand(Size::U8, 1),
                input_a: register_operand(Size::U8, 0),
                input_b: register_operand(Size::U8, 1),
            }),
        }),
    };

    assert!(matches!(
        x_static.destination().unwrap().mode,
        AddressingMode::Register { register: 0 }
    ));
    assert!(!matches!(
        x_dynamic.destination().unwrap().mode,
        AddressingMode::Register { register: 0 }
    ));
}

#[test]
fn destination_absent() {
    let halt = Instruction {
        operation: Extension::Control(Control::Halt),
        width: Size::U8,
        synchronise: false,
        data: None,
    };
    assert_eq!(halt.destination(), Err(DestinationError::Data));

    let compare = Instruction {
        operation: Extension::Arithmetic(Arithmetic::Compare),
        width: Size::U16,
        synchronise: false,
        data: Some(Data {
            width: Size::U16,
            destination: Destination::Static,
            operands: Combination::DualInput(DualInput {
                input_a: register_operand(Size::U16, 2),
                input_b: register_operand(Size::U16, 3),
            }),
        }),
    };
    assert_eq!(compare.destination(), Err(DestinationError::Static));
}

/// Round trip: encode an instruction, decode the bytes, and find the same
/// instruction, for one operation of each operand combination and several
/// addressing modes.
#[test]
fn encode_decode_round_trip() {
    let halt = Instruction {
        operation: Extension::Control(Control::Halt),
        width: Size::U8,
        synchronise: true,
        data: None,
    };
    let jump_relative = Instruction {
        operation: Extension::Control(Control::Jump),
        width: Size::U64,
        synchronise: false,
        data: Some(Data {
            width: Size::U64,
            destination: Destination::Static,
            operands: Combination::SingleInput(Operand {
                size: Size::U64,
                mode: AddressingMode::Immediate {
                    mode: ImmediateAddressing::Relative { offset: Signed::I16(-2) },
                },
            }),
        }),
    };
    let add_immediate = Instruction {
        operation: Extension::Arithmetic(Arithmetic::Add),
        width: Size::U32,
        synchronise: false,
        data: Some(Data {
            width: Size::U32,
            destination: Destination::Static,
            operands: Combination::All(All {
                destination: register_operand(Size::U32, 5),
                input_a: register_operand(Size::U32, 5),
                input_b: Operand {
                    size: Size::U32,
                    mode: AddressingMode::Immediate {
                        mode: ImmediateAddressing::Immediate { immediate: Unsigned::U32(70000) },
                    },
                },
            }),
        }),
    };
    let move_complex = Instruction {
        operation: Extension::Transfer(Transfer::Move),
        width: Size::U16,
        synchronise: false,
        data: Some(Data {
            width: Size::U16,
            destination: Destination::Dynamic,
            operands: Combination::DestinationAndInput {
                destination: Operand {
                    size: Size::U16,
                    mode: AddressingMode::Complex {
                        mode: ComplexAddressing::OffsetIndex {
                            offset: Unsigned::U16(0x1234),
                            index: 6,
                        },
                        base: 2,
                    },
                },
                input: register_operand(Size::U16, 7),
            },
        }),
    };
    let clear_register = Instruction {
        operation: Extension::Transfer(Transfer::Clear),
        width: Size::U64,
        synchronise: false,
        data: Some(Data {
            width: Size::U64,
            destination: Destination::Static,
            operands: Combination::Destination(register_operand(Size::U64, 3)),
        }),
    };
    let compare = Instruction {
        operation: Extension::Arithmetic(Arithmetic::Compare),
        width: Size::U8,
        synchronise: false,
        data: Some(Data {
            width: Size::U8,
            destination: Destination::Static,
            operands: Combination::DualInput(DualInput {
                input_a: register_operand(Size::U8, 1),
                input_b: Operand {
                    size: Size::U8,
                    mode: AddressingMode::Complex {
                        mode: ComplexAddressing::Index { index: 4 },
                        base: 0,
                    },
                },
            }),
        }),
    };

    for instruction in [halt, jump_relative, add_immediate, move_complex, clear_register, compare]
    {
        let bytes = instruction.encode();
        let mut source = BufferSource::new(bytes);
        assert_eq!(Instruction::from_encoded(&mut source).unwrap(), instruction);
        assert!(source.at_end());
    }
}

/// Round trip the other way: re-encoding a decoded instruction reproduces
/// the exact bytes it was decoded from.
#[test]
fn decode_encode_round_trip() {
    // Add with a one-byte immediate dynamic operand.
    let bytes = vec![0b000000_1_0, 0b0000_01_00, 0b10_011_000, 42];
    let mut source = BufferSource::new(bytes.clone());
    let instruction = Instruction::from_encoded(&mut source).unwrap();
    assert_eq!(instruction.encode(), bytes);
}

#[test]
fn decode_errors() {
    // Unmatched extension/operation pair.
    let mut source = BufferSource::new(vec![0b111111_0_0, 0]);
    assert_eq!(Instruction::from_encoded(&mut source), Err(DecodeError::InvalidCode));

    // Too few bytes for the header.
    let mut source = BufferSource::new(vec![0]);
    assert_eq!(Instruction::from_encoded(&mut source), Err(DecodeError::Length));

    // An operation that expects operands, but no data byte follows.
    let mut source = BufferSource::new(vec![0, 0]);
    assert_eq!(Instruction::from_encoded(&mut source), Err(DecodeError::Length));

    // A truncated immediate payload.
    let mut source = BufferSource::new(vec![0b000000_0_0, 0b0000_01_11, 0b00_000_000, 1]);
    assert_eq!(
        Instruction::from_encoded(&mut source),
        Err(DecodeError::Dynamic(atln_processor::operand::DecodeError::ImmediateValue))
    );

    // A halt whose unused dynamic-destination bit is not zero.
    let mut source = BufferSource::new(vec![0b000010_0_1, 0b0000_00_00]);
    assert_eq!(Instruction::from_encoded(&mut source), Err(DecodeError::InvalidCode));
}

#[test]
fn registers_round_trip() {
    let registers = Registers::decode(0b1010_0111);
    assert_eq!(registers.x_static, 0b1010);
    assert_eq!(registers.x_dynamic, 0b0111);
    assert_eq!(registers.encode(), 0b1010_0111);
}
