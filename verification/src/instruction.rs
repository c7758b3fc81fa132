//! The binary instruction codec.
//!
//! An encoded instruction is a fixed three-stage sequence:
//!
//! - **Driver bytes (2).** Driver 0 carries the operation extension in its
//!   high six bits, then the synchronise flag, then the dynamic-destination
//!   flag. Driver 1 carries the operation code in its high four bits, the
//!   dynamic operand's addressing mode below it, and the immediate-size
//!   exponent in its low two bits.
//! - **Data byte (1, present only when the resolved operation expects
//!   operands).** Its high two bits hold the width exponent, the next three
//!   the static register field, the low three the dynamic register field.
//! - **Operand payload (variable).** The payload bytes of the dynamic
//!   operand, as the addressing mode dictates; nothing for register mode.
//!
//! Which operand slots a decoded instruction populates is determined
//! entirely by the resolved operation's declared combination, never inferred
//! from the bytes. Header fields that the operation or the addressing mode
//! leaves unused must be zero, so that every successfully decoded byte
//! string is exactly the encoding of its instruction: decoding the bytes
//! produced by [`Instruction::encode`] reproduces the instruction
//! ([`lemma_encode_then_decode`]), and re-encoding a decoded instruction
//! reproduces the consumed bytes ([`lemma_decode_then_encode`]).

use vstd::prelude::*;

use crate::num::Size;
use crate::operand::{self, AddressingMode, Operand};
use crate::operation::{Expectation, Extension};
use crate::stream::{read_exact, ByteSource, ReadFailure};

verus! {

/// Structured data from the two driver bytes. All field extraction and
/// packing is unchecked bit-field arithmetic; the codes are resolved against
/// the opcode table only by the full decoder.
#[derive(Debug, Clone, Copy, PartialEq, Eq, Structural)]
pub struct Driver {
    /// Operation extension: the operation group.
    pub extension: u8,
    /// Operation code inside the group.
    pub operation: u8,
    /// Whether execution must be synchronous with other processors.
    pub synchronise: bool,
    /// Whether the result is stored where the dynamic operand points.
    pub dynamic_destination: bool,
    /// Addressing mode of the dynamic operand.
    pub addressing: u8,
    /// Width exponent of the dynamic operand's immediate bytes.
    pub immediate_exponent: u8,
}

impl Driver {
    /// The extension: the high six bits of driver byte 0.
    pub fn extract_extension(driver0: u8) -> (r: u8)
        ensures
            r == driver0 / 4,
            r < 64,
    {
        driver0 / 4
    }

    /// Replace the extension field of driver byte 0. Only the low six bits
    /// of the extension are used.
    pub fn set_extension(driver0: u8, extension: u8) -> (r: u8)
        ensures
            r == (extension % 64) * 4 + driver0 % 4,
    {
        (extension % 64) * 4 + driver0 % 4
    }

    /// The synchronise flag: bit 1 of driver byte 0.
    pub fn extract_synchronise(driver0: u8) -> (r: bool)
        ensures
            r == ((driver0 / 2) % 2 == 1),
    {
        (driver0 / 2) % 2 == 1
    }

    /// Replace the synchronise flag of driver byte 0.
    pub fn set_synchronise(driver0: u8, lock: bool) -> (r: u8)
        ensures
            r == (driver0 / 4) * 4 + (if lock {
                2int
            } else {
                0int
            }) + driver0 % 2,
    {
        proof {
            vstd::arithmetic::div_mod::lemma_fundamental_div_mod(driver0 as int, 4);
        }
        (driver0 / 4) * 4 + (if lock {
            2
        } else {
            0
        }) + driver0 % 2
    }

    /// The dynamic-destination flag: bit 0 of driver byte 0.
    pub fn extract_dynamic_destination(driver0: u8) -> (r: bool)
        ensures
            r == (driver0 % 2 == 1),
    {
        driver0 % 2 == 1
    }

    /// Replace the dynamic-destination flag of driver byte 0.
    pub fn set_dynamic_destination(driver0: u8, dynamic_destination: bool) -> (r: u8)
        ensures
            r == (driver0 / 2) * 2 + (if dynamic_destination {
                1int
            } else {
                0int
            }),
    {
        proof {
            vstd::arithmetic::div_mod::lemma_fundamental_div_mod(driver0 as int, 2);
        }
        (driver0 / 2) * 2 + (if dynamic_destination {
            1
        } else {
            0
        })
    }

    /// The operation code: the high four bits of driver byte 1.
    pub fn extract_operation(driver1: u8) -> (r: u8)
        ensures
            r == driver1 / 16,
            r < 16,
    {
        driver1 / 16
    }

    /// Replace the operation field of driver byte 1. Only the low four bits
    /// of the operation are used.
    pub fn set_operation(driver1: u8, operation: u8) -> (r: u8)
        ensures
            r == (operation % 16) * 16 + driver1 % 16,
    {
        (operation % 16) * 16 + driver1 % 16
    }

    /// The addressing mode: bits 3-2 of driver byte 1.
    pub fn extract_addressing(driver1: u8) -> (r: u8)
        ensures
            r == (driver1 / 4) % 4,
            r < 4,
    {
        (driver1 / 4) % 4
    }

    /// Replace the addressing field of driver byte 1. Only the low two bits
    /// of the addressing are used.
    pub fn set_addressing(driver1: u8, addressing: u8) -> (r: u8)
        ensures
            r == (driver1 / 16) * 16 + (addressing % 4) * 4 + driver1 % 4,
    {
        proof {
            vstd::arithmetic::div_mod::lemma_fundamental_div_mod(driver1 as int, 16);
            vstd::arithmetic::div_mod::lemma_mod_breakdown(driver1 as int, 4, 4);
        }
        (driver1 / 16) * 16 + (addressing % 4) * 4 + driver1 % 4
    }

    /// The immediate-size exponent: the low two bits of driver byte 1.
    pub fn extract_immediate_exponent(driver1: u8) -> (r: u8)
        ensures
            r == driver1 % 4,
            r < 4,
    {
        driver1 % 4
    }

    /// Replace the immediate-exponent field of driver byte 1. Only the low
    /// two bits of the exponent are used.
    pub fn set_immediate_exponent(driver1: u8, immediate_exponent: u8) -> (r: u8)
        ensures
            r == (driver1 / 4) * 4 + immediate_exponent % 4,
    {
        proof {
            vstd::arithmetic::div_mod::lemma_fundamental_div_mod(driver1 as int, 4);
        }
        (driver1 / 4) * 4 + immediate_exponent % 4
    }

    /// Unpack both driver bytes into their fields.
    pub fn from_encoded(bytes: [u8; 2]) -> (r: Self)
        ensures
            r.extension == bytes[0] / 4,
            r.operation == bytes[1] / 16,
            r.synchronise == ((bytes[0] / 2) % 2 == 1),
            r.dynamic_destination == (bytes[0] % 2 == 1),
            r.addressing == (bytes[1] / 4) % 4,
            r.immediate_exponent == bytes[1] % 4,
            r.extension < 64 && r.operation < 16 && r.addressing < 4 && r.immediate_exponent < 4,
    {
        let driver0 = bytes[0];
        let driver1 = bytes[1];
        Driver {
            extension: Driver::extract_extension(driver0),
            operation: Driver::extract_operation(driver1),
            synchronise: Driver::extract_synchronise(driver0),
            dynamic_destination: Driver::extract_dynamic_destination(driver0),
            addressing: Driver::extract_addressing(driver1),
            immediate_exponent: Driver::extract_immediate_exponent(driver1),
        }
    }

    /// Pack the fields back into the two driver bytes. Bits of each field
    /// beyond its width are discarded.
    pub fn encode(&self) -> (r: [u8; 2])
        ensures
            r[0] == (self.extension % 64) * 4 + (if self.synchronise {
                2int
            } else {
                0int
            }) + (if self.dynamic_destination {
                1int
            } else {
                0int
            }),
            r[1] == (self.operation % 16) * 16 + (self.addressing % 4) * 4
                + self.immediate_exponent % 4,
    {
        let mut driver0 = Driver::set_extension(0, self.extension);
        driver0 = Driver::set_synchronise(driver0, self.synchronise);
        driver0 = Driver::set_dynamic_destination(driver0, self.dynamic_destination);
        let mut driver1 = Driver::set_operation(0, self.operation);
        driver1 = Driver::set_addressing(driver1, self.addressing);
        driver1 = Driver::set_immediate_exponent(driver1, self.immediate_exponent);
        [driver0, driver1]
    }
}

/// The operand the instruction's result is stored through: the static
/// register slot, or the dynamic operand.
#[derive(Debug, Clone, Copy, PartialEq, Eq, Structural)]
pub enum Destination {
    Static,
    Dynamic,
}

/// The data byte's structure: the width exponent in its high two bits, the
/// static register field in the next three, the dynamic register field in
/// the low three.
#[derive(Debug, Clone, Copy, PartialEq, Eq, Structural)]
pub struct RawData {
    pub width: u8,
    pub x_static: u8,
    pub x_dynamic: u8,
}

impl RawData {
    /// The width exponent: the high two bits of the data byte.
    pub fn extract_width(data: u8) -> (r: u8)
        ensures
            r == data / 64,
            r < 4,
    {
        data / 64
    }

    /// Replace the width field of the data byte. Only the low two bits of
    /// the width are used.
    pub fn set_width(data: u8, width: u8) -> (r: u8)
        ensures
            r == (width % 4) * 64 + data % 64,
    {
        (width % 4) * 64 + data % 64
    }

    /// The static register field: bits 5-3 of the data byte.
    pub fn extract_static(data: u8) -> (r: u8)
        ensures
            r == (data / 8) % 8,
            r < 8,
    {
        (data / 8) % 8
    }

    /// Replace the static register field of the data byte. Only the low
    /// three bits of the field are used.
    pub fn set_static(data: u8, x_static: u8) -> (r: u8)
        ensures
            r == (data / 64) * 64 + (x_static % 8) * 8 + data % 8,
    {
        proof {
            vstd::arithmetic::div_mod::lemma_fundamental_div_mod(data as int, 64);
            vstd::arithmetic::div_mod::lemma_mod_breakdown(data as int, 8, 8);
        }
        (data / 64) * 64 + (x_static % 8) * 8 + data % 8
    }

    /// The dynamic register field: the low three bits of the data byte.
    pub fn extract_dynamic(data: u8) -> (r: u8)
        ensures
            r == data % 8,
            r < 8,
    {
        data % 8
    }

    /// Replace the dynamic register field of the data byte. Only the low
    /// three bits of the field are used.
    pub fn set_dynamic(data: u8, dynamic: u8) -> (r: u8)
        ensures
            r == (data / 8) * 8 + dynamic % 8,
    {
        proof {
            vstd::arithmetic::div_mod::lemma_fundamental_div_mod(data as int, 8);
        }
        (data / 8) * 8 + dynamic % 8
    }

    /// Unpack the data byte into its three fields.
    pub fn from_encoded(encoded: u8) -> (r: Self)
        ensures
            r.width == encoded / 64,
            r.x_static == (encoded / 8) % 8,
            r.x_dynamic == encoded % 8,
            r.width < 4 && r.x_static < 8 && r.x_dynamic < 8,
    {
        RawData {
            width: RawData::extract_width(encoded),
            x_static: RawData::extract_static(encoded),
            x_dynamic: RawData::extract_dynamic(encoded),
        }
    }

    /// Pack the three fields back into the data byte. Bits of each field
    /// beyond its width are discarded.
    pub fn encode(&self) -> (r: u8)
        ensures
            r == (self.width % 4) * 64 + (self.x_static % 8) * 8 + self.x_dynamic % 8,
    {
        let mut encoded = RawData::set_width(0, self.width);
        encoded = RawData::set_static(encoded, self.x_static);
        RawData::set_dynamic(encoded, self.x_dynamic)
    }
}

/// The operand fields of an instruction: the operating width, the
/// destination selector, and the operand combination the operation declared.
#[derive(Debug, Clone, Copy, PartialEq, Eq, Structural)]
pub struct Data {
    /// Width of the operands when dereferenced and of the stored result.
    pub width: Size,
    /// Which slot the result is stored through.
    pub destination: Destination,
    /// The operands, in the combination the operation declares.
    pub operands: crate::operand::Combination,
}

/// A decoded instruction: the resolved operation, the operating width, the
/// synchronise flag, and the operand data where the operation expects any.
#[derive(Debug, Clone, Copy, PartialEq, Eq, Structural)]
pub struct Instruction {
    pub operation: Extension,
    /// Width of operands when dereferenced and for storing the result.
    pub width: Size,
    pub synchronise: bool,
    pub data: Option<Data>,
}

/// Error from decoding an instruction.
#[derive(Debug, Clone, Copy, PartialEq, Eq, Structural)]
pub enum DecodeError {
    /// The underlying stream failed to read.
    StreamRead,
    /// Fewer bytes arrived than a fixed-size stage required.
    Length,
    /// The extension and operation pair is not in the opcode table, or a
    /// header field the resolved operation leaves unused is not zero.
    InvalidCode,
    /// The operand stage failed.
    Dynamic(operand::DecodeError),
}

/// Caused by asking for a destination operand that the instruction does not
/// carry.
#[derive(Debug, Clone, Copy, PartialEq, Eq, Structural)]
pub enum DestinationError {
    /// The instruction carries no data at all.
    Data,
    /// The static slot is not a destination of this instruction.
    Static,
    /// The dynamic slot is not a destination of this instruction.
    Dynamic,
}

impl Data {
    /// The operand in the instruction's dynamic slot, where the combination
    /// has one.
    pub open spec fn spec_dynamic_operand(self) -> Option<Operand> {
        match self.operands {
            operand::Combination::All(all) => Some(all.input_b),
            operand::Combination::DualInput(pair) => Some(pair.input_b),
            operand::Combination::DestinationAndInput { destination, input } => Some(
                if self.destination == Destination::Static {
                    input
                } else {
                    destination
                },
            ),
            operand::Combination::SingleInput(input) => Some(input),
            operand::Combination::Destination(target) => if self.destination
                == Destination::Dynamic {
                Some(target)
            } else {
                None
            },
        }
    }

    /// The register index of a static-slot operand.
    pub open spec fn spec_register_of(target: Operand) -> u8 {
        match target.mode {
            AddressingMode::Register { register } => register,
            _ => 0,
        }
    }

    /// The static register field of the data byte: the register of whichever
    /// operand the combination draws from the static slot, zero where none.
    pub open spec fn spec_static_register(self) -> u8 {
        match self.operands {
            operand::Combination::All(all) => Data::spec_register_of(all.input_a),
            operand::Combination::DualInput(pair) => Data::spec_register_of(pair.input_a),
            operand::Combination::DestinationAndInput { destination, input } => if self.destination
                == Destination::Static {
                Data::spec_register_of(destination)
            } else {
                Data::spec_register_of(input)
            },
            operand::Combination::SingleInput(_) => 0,
            operand::Combination::Destination(target) => if self.destination
                == Destination::Static {
                Data::spec_register_of(target)
            } else {
                0
            },
        }
    }

    /// The addressing code of the data's dynamic operand; zero where the
    /// combination has none.
    pub open spec fn spec_addressing(self) -> u8 {
        match self.spec_dynamic_operand() {
            Some(op) => op.spec_codes().0,
            None => 0,
        }
    }

    /// The immediate-exponent field of the data's dynamic operand; zero
    /// where the combination has none.
    pub open spec fn spec_immediate_exponent(self) -> u8 {
        match self.spec_dynamic_operand() {
            Some(op) => op.spec_codes().1,
            None => 0,
        }
    }

    /// The dynamic register field of the data byte; zero where the
    /// combination has no dynamic operand.
    pub open spec fn spec_x_dynamic(self) -> u8 {
        match self.spec_dynamic_operand() {
            Some(op) => op.spec_codes().2,
            None => 0,
        }
    }

    /// The data byte this data packs into.
    pub open spec fn spec_data_byte(self) -> u8 {
        (self.width.spec_power() * 64 + self.spec_static_register() * 8
            + self.spec_x_dynamic()) as u8
    }

    /// The payload bytes of the data's dynamic operand; empty where the
    /// combination has none.
    pub open spec fn spec_payload(self) -> Seq<u8> {
        match self.spec_dynamic_operand() {
            Some(op) => op.spec_payload(),
            None => Seq::empty(),
        }
    }

    /// Whether an operand fills a static register slot at width `width`.
    pub open spec fn spec_wf_static(target: Operand, width: Size) -> bool {
        &&& target.size == width
        &&& target.mode matches AddressingMode::Register { register } && register < 8
    }

    /// Well-formedness of the data against the combination `expectation`
    /// that its operation declares: the combination is the declared one,
    /// every operand is sized to the data's width with register fields that
    /// fit three bits, operands drawn from the static slot are registers,
    /// and the destination operand is a copy of the slot the destination
    /// selector names.
    pub open spec fn spec_wf(self, expectation: Expectation) -> bool {
        match (expectation, self.operands) {
            (Expectation::All, operand::Combination::All(all)) => {
                &&& Data::spec_wf_static(all.input_a, self.width)
                &&& all.input_b.spec_wf_dynamic(self.width)
                &&& all.destination == (if self.destination == Destination::Static {
                    all.input_a
                } else {
                    all.input_b
                })
            },
            (Expectation::DualInput, operand::Combination::DualInput(pair)) => {
                &&& Data::spec_wf_static(pair.input_a, self.width)
                &&& pair.input_b.spec_wf_dynamic(self.width)
            },
            (
                Expectation::DestinationAndInput,
                operand::Combination::DestinationAndInput { destination, input },
            ) => {
                if self.destination == Destination::Static {
                    Data::spec_wf_static(destination, self.width) && input.spec_wf_dynamic(
                        self.width,
                    )
                } else {
                    destination.spec_wf_dynamic(self.width) && Data::spec_wf_static(
                        input,
                        self.width,
                    )
                }
            },
            (Expectation::SingleInput, operand::Combination::SingleInput(input)) => {
                input.spec_wf_dynamic(self.width)
            },
            (Expectation::Destination, operand::Combination::Destination(target)) => {
                if self.destination == Destination::Static {
                    Data::spec_wf_static(target, self.width)
                } else {
                    target.spec_wf_dynamic(self.width)
                }
            },
            _ => false,
        }
    }
}

impl Data {
    /// The operand in the instruction's dynamic slot, where the combination
    /// has one.
    pub fn dynamic_operand(&self) -> (r: Option<Operand>)
        ensures
            r == self.spec_dynamic_operand(),
    {
        let data = self;
        match &data.operands {
            operand::Combination::All(all) => Some(all.input_b),
            operand::Combination::DualInput(pair) => Some(pair.input_b),
            operand::Combination::DestinationAndInput { destination, input } => Some(
                if matches!(data.destination, Destination::Static) {
                    *input
                } else {
                    *destination
                },
            ),
            operand::Combination::SingleInput(input) => Some(*input),
            operand::Combination::Destination(target) => if matches!(
                data.destination,
                Destination::Dynamic,
            ) {
                Some(*target)
            } else {
                None
            },
        }
    }

    /// The static register field of a data byte: the register of whichever
    /// operand the combination draws from the static slot.
    pub fn static_register(&self) -> (r: u8)
        ensures
            r == self.spec_static_register(),
    {
        let data = self;
        let register_of = |target: &Operand| -> (r: u8)
            ensures
                r == Data::spec_register_of(*target),
            {
                match target.mode {
                    AddressingMode::Register { register } => register,
                    _ => 0,
                }
            };
        match &data.operands {
            operand::Combination::All(all) => register_of(&all.input_a),
            operand::Combination::DualInput(pair) => register_of(&pair.input_a),
            operand::Combination::DestinationAndInput { destination, input } => if matches!(
                data.destination,
                Destination::Static,
            ) {
                register_of(destination)
            } else {
                register_of(input)
            },
            operand::Combination::SingleInput(_) => 0,
            operand::Combination::Destination(target) => if matches!(
                data.destination,
                Destination::Static,
            ) {
                register_of(target)
            } else {
                0
            },
        }
    }
}

impl Instruction {
    /// The dynamic-destination bit of the instruction.
    pub open spec fn spec_dynamic_destination(self) -> bool {
        match self.data {
            Some(data) => data.destination == Destination::Dynamic,
            None => false,
        }
    }

    /// Driver byte 0 of the instruction's encoding.
    pub open spec fn spec_driver0(self) -> u8 {
        (self.operation.spec_extension_code() * 4 + (if self.synchronise {
            2int
        } else {
            0int
        }) + (if self.spec_dynamic_destination() {
            1int
        } else {
            0int
        })) as u8
    }

    /// Driver byte 1 of the instruction's encoding.
    pub open spec fn spec_driver1(self) -> u8 {
        (self.operation.spec_operation_code() * 16 + (match self.data {
            Some(data) => data.spec_addressing() * 4 + data.spec_immediate_exponent(),
            None => 0int,
        })) as u8
    }

    /// The bytes this instruction encodes to: the two driver bytes, then,
    /// when the operation expects operands, the data byte and the dynamic
    /// operand's payload.
    pub open spec fn spec_encode(self) -> Seq<u8> {
        seq![self.spec_driver0(), self.spec_driver1()] + (match self.data {
            Some(data) => seq![data.spec_data_byte()] + data.spec_payload(),
            None => Seq::empty(),
        })
    }

    /// A legally constructed instruction: its data matches the combination
    /// its operation declares, and the instruction's width mirrors the
    /// data's width (8-bit where there is no data).
    pub open spec fn wf(self) -> bool {
        match self.data {
            None => self.operation.spec_expectation() == Expectation::NoOperands && self.width
                == Size::U8,
            Some(data) => self.operation.spec_expectation() != Expectation::NoOperands
                && data.spec_wf(self.operation.spec_expectation()) && self.width == data.width,
        }
    }

    /// The spec-level mirror of [`Instruction::from_encoded`]: the
    /// instruction parsed from the front of `bytes` with how many bytes it
    /// occupies, or the exact error the parse reports.
    pub open spec fn spec_decode(bytes: Seq<u8>) -> Result<(Instruction, int), DecodeError> {
        if bytes.len() < 2 {
            Err(DecodeError::Length)
        } else {
            let driver0 = bytes[0];
            let driver1 = bytes[1];
            let synchronise = (driver0 / 2) % 2 == 1;
            let dynamic_destination = driver0 % 2 == 1;
            let addressing = (driver1 / 4) % 4;
            let immediate_exponent = driver1 % 4;
            match Extension::spec_from_codes(driver0 / 4, driver1 / 16) {
                None => Err(DecodeError::InvalidCode),
                Some(operation) => {
                    if operation.spec_expectation() == Expectation::NoOperands {
                        if dynamic_destination || addressing != 0 || immediate_exponent != 0 {
                            Err(DecodeError::InvalidCode)
                        } else {
                            Ok(
                                (
                                    Instruction {
                                        operation,
                                        width: Size::U8,
                                        synchronise,
                                        data: None,
                                    },
                                    2,
                                ),
                            )
                        }
                    } else if bytes.len() < 3 {
                        Err(DecodeError::Length)
                    } else {
                        let width = Size::spec_from_power(bytes[2] / 64);
                        let x_static = (bytes[2] / 8) % 8;
                        let x_dynamic = bytes[2] % 8;
                        let destination = if dynamic_destination {
                            Destination::Dynamic
                        } else {
                            Destination::Static
                        };
                        match Instruction::spec_decode_operands(
                            bytes.skip(3),
                            operation.spec_expectation(),
                            destination,
                            width,
                            x_static,
                            x_dynamic,
                            addressing,
                            immediate_exponent,
                        ) {
                            Err(e) => Err(e),
                            Ok((operands, n)) => Ok(
                                (
                                    Instruction {
                                        operation,
                                        width,
                                        synchronise,
                                        data: Some(
                                            Data { width, destination, operands },
                                        ),
                                    },
                                    3 + n,
                                ),
                            ),
                        }
                    }
                },
            }
        }
    }

    /// The spec-level parse of the operand stage: the combination the
    /// declared expectation populates from the static register field, the
    /// dynamic operand fields and the payload in `bytes`, with how many
    /// payload bytes it consumes. Fields that the combination leaves unused
    /// must be zero.
    pub open spec fn spec_decode_operands(
        bytes: Seq<u8>,
        expectation: Expectation,
        destination: Destination,
        width: Size,
        x_static: u8,
        x_dynamic: u8,
        addressing: u8,
        immediate_exponent: u8,
    ) -> Result<(operand::Combination, int), DecodeError> {
        let register_operand = Operand {
            size: width,
            mode: AddressingMode::Register { register: x_static },
        };
        match expectation {
            Expectation::NoOperands => Err(DecodeError::InvalidCode),
            Expectation::All => match Operand::spec_decode_dynamic(
                bytes,
                x_dynamic,
                addressing,
                immediate_exponent,
                width,
            ) {
                Err(e) => Err(DecodeError::Dynamic(e)),
                Ok((op, n)) => Ok(
                    (
                        operand::Combination::All(
                            operand::All {
                                destination: if destination == Destination::Static {
                                    register_operand
                                } else {
                                    op
                                },
                                input_a: register_operand,
                                input_b: op,
                            },
                        ),
                        n,
                    ),
                ),
            },
            Expectation::DualInput => match Operand::spec_decode_dynamic(
                bytes,
                x_dynamic,
                addressing,
                immediate_exponent,
                width,
            ) {
                Err(e) => Err(DecodeError::Dynamic(e)),
                Ok((op, n)) => Ok(
                    (
                        operand::Combination::DualInput(
                            operand::DualInput { input_a: register_operand, input_b: op },
                        ),
                        n,
                    ),
                ),
            },
            Expectation::DestinationAndInput => match Operand::spec_decode_dynamic(
                bytes,
                x_dynamic,
                addressing,
                immediate_exponent,
                width,
            ) {
                Err(e) => Err(DecodeError::Dynamic(e)),
                Ok((op, n)) => Ok(
                    (
                        if destination == Destination::Static {
                            operand::Combination::DestinationAndInput {
                                destination: register_operand,
                                input: op,
                            }
                        } else {
                            operand::Combination::DestinationAndInput {
                                destination: op,
                                input: register_operand,
                            }
                        },
                        n,
                    ),
                ),
            },
            Expectation::SingleInput => {
                if x_static != 0 {
                    Err(DecodeError::InvalidCode)
                } else {
                    match Operand::spec_decode_dynamic(
                        bytes,
                        x_dynamic,
                        addressing,
                        immediate_exponent,
                        width,
                    ) {
                        Err(e) => Err(DecodeError::Dynamic(e)),
                        Ok((op, n)) => Ok((operand::Combination::SingleInput(op), n)),
                    }
                }
            },
            Expectation::Destination => {
                if destination == Destination::Static {
                    if addressing != 0 || immediate_exponent != 0 || x_dynamic != 0 {
                        Err(DecodeError::InvalidCode)
                    } else {
                        Ok((operand::Combination::Destination(register_operand), 0))
                    }
                } else {
                    if x_static != 0 {
                        Err(DecodeError::InvalidCode)
                    } else {
                        match Operand::spec_decode_dynamic(
                            bytes,
                            x_dynamic,
                            addressing,
                            immediate_exponent,
                            width,
                        ) {
                            Err(e) => Err(DecodeError::Dynamic(e)),
                            Ok((op, n)) => Ok((operand::Combination::Destination(op), n)),
                        }
                    }
                }
            },
        }
    }

    /// Decode one instruction from the stream: the two driver bytes, the
    /// opcode-table lookup, and — when the operation expects operands — the
    /// data byte and the dynamic operand's payload. Header fields that the
    /// resolved operation leaves unused must be zero, so a successful decode
    /// consumes exactly the instruction's own encoding.
    #[verifier::rlimit(60)]
    pub fn from_encoded<S: ByteSource>(stream: &mut S) -> (r: Result<Instruction, DecodeError>)
        requires
            old(stream).inv(),
        ensures
            final(stream).inv(),
            final(stream).faultless() == old(stream).faultless(),
            match r {
                Ok(instruction) => Instruction::spec_decode(old(stream).remaining()) matches Ok(
                    pair,
                ) && pair.0 == instruction && final(stream).remaining() == old(
                    stream,
                ).remaining().skip(pair.1) && final(stream).offset() == old(stream).offset()
                    + pair.1,
                Err(DecodeError::StreamRead) => !old(stream).faultless(),
                Err(e) => Instruction::spec_decode(old(stream).remaining()) == Err::<
                    (Instruction, int),
                    DecodeError,
                >(e),
            },
    {
        let header = match read_exact(stream, 2) {
            Ok(bytes) => bytes,
            Err(ReadFailure::Short) => {
                return Err(DecodeError::Length);
            },
            Err(ReadFailure::Fault) => {
                return Err(DecodeError::StreamRead);
            },
        };
        let driver = Driver::from_encoded([header[0], header[1]]);
        proof {
            assert(header@[0] == old(stream).remaining()[0]);
            assert(header@[1] == old(stream).remaining()[1]);
        }
        let operation = match Extension::from_codes(driver.extension, driver.operation) {
            Some(operation) => operation,
            None => {
                return Err(DecodeError::InvalidCode);
            },
        };
        if !operation.expects_operand() {
            if driver.dynamic_destination || driver.addressing != 0 || driver.immediate_exponent
                != 0 {
                return Err(DecodeError::InvalidCode);
            }
            return Ok(
                Instruction {
                    operation,
                    width: Size::U8,
                    synchronise: driver.synchronise,
                    data: None,
                },
            );
        }
        let data_encoded = match read_exact(stream, 1) {
            Ok(bytes) => bytes,
            Err(ReadFailure::Short) => {
                return Err(DecodeError::Length);
            },
            Err(ReadFailure::Fault) => {
                return Err(DecodeError::StreamRead);
            },
        };
        let raw = RawData::from_encoded(data_encoded[0]);
        proof {
            assert(old(stream).remaining().skip(2)[0] == old(stream).remaining()[2]);
            assert(old(stream).remaining().skip(2).skip(1) =~= old(stream).remaining().skip(3));
        }
        let width = Size::from_power(raw.width);
        let destination = if driver.dynamic_destination {
            Destination::Dynamic
        } else {
            Destination::Static
        };
        let register_operand = Operand {
            size: width,
            mode: AddressingMode::Register { register: raw.x_static },
        };
        let ghost tail = old(stream).remaining().skip(3);
        let expectation = operation.expectation();
        let operands: operand::Combination = match expectation {
            Expectation::NoOperands => {
                // unreachable: the operation expects operands
                proof {
                    assert(false);
                }
                return Err(DecodeError::InvalidCode);
            },
            Expectation::All => {
                let op = match Operand::from_codes(
                    raw.x_dynamic,
                    driver.addressing,
                    driver.immediate_exponent,
                    width,
                    stream,
                ) {
                    Ok(op) => op,
                    Err(operand::DecodeError::Read) => {
                        return Err(DecodeError::StreamRead);
                    },
                    Err(e) => {
                        return Err(DecodeError::Dynamic(e));
                    },
                };
                operand::Combination::All(
                    operand::All {
                        destination: if driver.dynamic_destination {
                            op
                        } else {
                            register_operand
                        },
                        input_a: register_operand,
                        input_b: op,
                    },
                )
            },
            Expectation::DualInput => {
                let op = match Operand::from_codes(
                    raw.x_dynamic,
                    driver.addressing,
                    driver.immediate_exponent,
                    width,
                    stream,
                ) {
                    Ok(op) => op,
                    Err(operand::DecodeError::Read) => {
                        return Err(DecodeError::StreamRead);
                    },
                    Err(e) => {
                        return Err(DecodeError::Dynamic(e));
                    },
                };
                operand::Combination::DualInput(
                    operand::DualInput { input_a: register_operand, input_b: op },
                )
            },
            Expectation::DestinationAndInput => {
                let op = match Operand::from_codes(
                    raw.x_dynamic,
                    driver.addressing,
                    driver.immediate_exponent,
                    width,
                    stream,
                ) {
                    Ok(op) => op,
                    Err(operand::DecodeError::Read) => {
                        return Err(DecodeError::StreamRead);
                    },
                    Err(e) => {
                        return Err(DecodeError::Dynamic(e));
                    },
                };
                if driver.dynamic_destination {
                    operand::Combination::DestinationAndInput {
                        destination: op,
                        input: register_operand,
                    }
                } else {
                    operand::Combination::DestinationAndInput {
                        destination: register_operand,
                        input: op,
                    }
                }
            },
            Expectation::SingleInput => {
                if raw.x_static != 0 {
                    return Err(DecodeError::InvalidCode);
                }
                let op = match Operand::from_codes(
                    raw.x_dynamic,
                    driver.addressing,
                    driver.immediate_exponent,
                    width,
                    stream,
                ) {
                    Ok(op) => op,
                    Err(operand::DecodeError::Read) => {
                        return Err(DecodeError::StreamRead);
                    },
                    Err(e) => {
                        return Err(DecodeError::Dynamic(e));
                    },
                };
                operand::Combination::SingleInput(op)
            },
            Expectation::Destination => {
                if !driver.dynamic_destination {
                    if driver.addressing != 0 || driver.immediate_exponent != 0 || raw.x_dynamic
                        != 0 {
                        return Err(DecodeError::InvalidCode);
                    }
                    operand::Combination::Destination(register_operand)
                } else {
                    if raw.x_static != 0 {
                        return Err(DecodeError::InvalidCode);
                    }
                    let op = match Operand::from_codes(
                        raw.x_dynamic,
                        driver.addressing,
                        driver.immediate_exponent,
                        width,
                        stream,
                    ) {
                        Ok(op) => op,
                        Err(operand::DecodeError::Read) => {
                            return Err(DecodeError::StreamRead);
                        },
                        Err(e) => {
                            return Err(DecodeError::Dynamic(e));
                        },
                    };
                    operand::Combination::Destination(op)
                }
            },
        };
        proof {
            if let Ok((op, n)) = Operand::spec_decode_dynamic(
                tail,
                raw.x_dynamic,
                driver.addressing,
                driver.immediate_exponent,
                width,
            ) {
                assert(tail.skip(n) =~= old(stream).remaining().skip(3 + n));
            }
        }
        Ok(
            Instruction {
                operation,
                width,
                synchronise: driver.synchronise,
                data: Some(Data { width, destination, operands }),
            },
        )
    }

    /// Encode the instruction back into its exact byte sequence: the two
    /// driver bytes, and, when the operation expects operands, the data byte
    /// and the dynamic operand's payload. Decoding these bytes reproduces
    /// the instruction.
    pub fn encode(&self) -> (r: Vec<u8>)
        requires
            self.wf(),
        ensures
            r@ == self.spec_encode(),
    {
        let mut out: Vec<u8> = Vec::new();
        let (addressing, immediate_exponent, x_dynamic) = match &self.data {
            Some(data) => match data.dynamic_operand() {
                Some(op) => op.codes(),
                None => (0, 0, 0),
            },
            None => (0, 0, 0),
        };
        let driver = Driver {
            extension: self.operation.extension_code(),
            operation: self.operation.operation_code(),
            synchronise: self.synchronise,
            dynamic_destination: match &self.data {
                Some(data) => matches!(data.destination, Destination::Dynamic),
                None => false,
            },
            addressing,
            immediate_exponent,
        };
        let header = driver.encode();
        out.push(header[0]);
        out.push(header[1]);
        if let Some(data) = &self.data {
            let raw = RawData {
                width: data.width.to_power(),
                x_static: data.static_register(),
                x_dynamic,
            };
            out.push(raw.encode());
            if let Some(op) = data.dynamic_operand() {
                let mut payload = op.encode_payload();
                out.append(&mut payload);
            }
        }
        proof {
            assert(out@ =~= self.spec_encode());
        }
        out
    }

    /// Get the operand that the destination selector corresponds to, where
    /// the instruction has one.
    pub fn destination(&self) -> (r: Result<Operand, DestinationError>)
        ensures
            match r {
                Ok(target) => {
                    &&& self.data matches Some(data)
                    &&& match data.operands {
                        operand::Combination::Destination(op) => target == op,
                        operand::Combination::DestinationAndInput { destination, .. } => target
                            == destination,
                        operand::Combination::All(all) => target == all.destination,
                        _ => false,
                    }
                },
                Err(DestinationError::Data) => self.data is None,
                Err(e) => {
                    &&& self.data matches Some(data)
                    &&& (data.operands is SingleInput || data.operands is DualInput)
                    &&& e == (if data.destination == Destination::Static {
                        DestinationError::Static
                    } else {
                        DestinationError::Dynamic
                    })
                },
            },
    {
        let data = match &self.data {
            Some(data) => data,
            None => {
                return Err(DestinationError::Data);
            },
        };
        match &data.operands {
            operand::Combination::Destination(target) => Ok(*target),
            operand::Combination::DestinationAndInput { destination, .. } => Ok(*destination),
            operand::Combination::All(all) => Ok(all.destination),
            _ => Err(
                if matches!(data.destination, Destination::Static) {
                    DestinationError::Static
                } else {
                    DestinationError::Dynamic
                },
            ),
        }
    }
}

/// One direction of the codec round-trip law: decoding the bytes produced
/// by encoding any legally constructed instruction — whatever follows them
/// in the stream — reproduces that instruction and consumes exactly its
/// encoding.
pub proof fn lemma_encode_then_decode(instruction: Instruction, rest: Seq<u8>)
    requires
        instruction.wf(),
    ensures
        Instruction::spec_decode(instruction.spec_encode() + rest) == Ok::<
            (Instruction, int),
            DecodeError,
        >((instruction, instruction.spec_encode().len() as int)),
{
    let enc = instruction.spec_encode();
    let b = enc + rest;
    let e = instruction.operation.spec_extension_code() as int;
    let o = instruction.operation.spec_operation_code() as int;
    let s: int = if instruction.synchronise {
        2
    } else {
        0
    };
    let d: int = if instruction.spec_dynamic_destination() {
        1
    } else {
        0
    };
    let b0 = b[0] as int;
    let b1 = b[1] as int;
    assert(b[0] == instruction.spec_driver0() && b[1] == instruction.spec_driver1());
    assert(e <= 2 && o <= 4);
    let (addressing, exponent) = match instruction.data {
        Some(data) => (data.spec_addressing() as int, data.spec_immediate_exponent() as int),
        None => (0int, 0int),
    };
    assert(addressing < 4 && exponent < 4) by {
        if let Some(data) = instruction.data {
            if let Some(op) = data.spec_dynamic_operand() {
                assert(op.spec_codes().0 < 4 && op.spec_codes().1 < 4);
            }
        }
    };
    assert(b0 == e * 4 + s + d && b1 == o * 16 + addressing * 4 + exponent);
    assert(b0 / 4 == e && (b0 / 2) % 2 == s / 2 && b0 % 2 == d) by {
        vstd::arithmetic::div_mod::lemma_div_multiples_vanish_fancy(e, s + d, 4);
        vstd::arithmetic::div_mod::lemma_div_multiples_vanish_fancy(2 * e + s / 2, d, 2);
        vstd::arithmetic::div_mod::lemma_mod_multiples_vanish(e, s / 2, 2);
        vstd::arithmetic::div_mod::lemma_mod_multiples_vanish(2 * e + s / 2, d, 2);
    };
    assert(b1 / 16 == o && (b1 / 4) % 4 == addressing && b1 % 4 == exponent) by {
        vstd::arithmetic::div_mod::lemma_div_multiples_vanish_fancy(o, addressing * 4 + exponent, 16);
        vstd::arithmetic::div_mod::lemma_div_multiples_vanish_fancy(o * 4 + addressing, exponent, 4);
        vstd::arithmetic::div_mod::lemma_mod_multiples_vanish(o, addressing, 4);
        vstd::arithmetic::div_mod::lemma_mod_multiples_vanish(o * 4 + addressing, exponent, 4);
    };
    crate::operation::lemma_codes_resolve(instruction.operation);
    match instruction.data {
        None => {
            assert(b.take(2) =~= enc);
        },
        Some(data) => {
            let db = data.spec_data_byte() as int;
            let w = data.width.spec_power() as int;
            let xs = data.spec_static_register() as int;
            let xd = data.spec_x_dynamic() as int;
            assert(xs < 8 && xd < 8) by {
                if let Some(op) = data.spec_dynamic_operand() {
                    assert(op.spec_codes().2 < 8);
                }
            };
            assert(b[2] == data.spec_data_byte());
            assert(db == w * 64 + xs * 8 + xd);
            assert(db / 64 == w && (db / 8) % 8 == xs && db % 8 == xd) by {
                vstd::arithmetic::div_mod::lemma_div_multiples_vanish_fancy(w, xs * 8 + xd, 64);
                vstd::arithmetic::div_mod::lemma_div_multiples_vanish_fancy(w * 8 + xs, xd, 8);
                vstd::arithmetic::div_mod::lemma_mod_multiples_vanish(w, xs, 8);
                vstd::arithmetic::div_mod::lemma_mod_multiples_vanish(w * 8 + xs, xd, 8);
            };
            assert(Size::spec_from_power(data.width.spec_power()) == data.width);
            assert(b.skip(3) =~= data.spec_payload() + rest);
            let expectation = instruction.operation.spec_expectation();
            match data.spec_dynamic_operand() {
                Some(op) => {
                    assert(op.spec_wf_dynamic(data.width));
                    operand::lemma_dynamic_payload_decodes(op, data.width, rest);
                    assert(op.spec_codes() == (
                        data.spec_addressing(),
                        data.spec_immediate_exponent(),
                        data.spec_x_dynamic(),
                    ));
                },
                None => {},
            }
            assert(Instruction::spec_decode_operands(
                b.skip(3),
                expectation,
                data.destination,
                data.width,
                data.spec_static_register(),
                data.spec_x_dynamic(),
                data.spec_addressing(),
                data.spec_immediate_exponent(),
            ) == Ok::<(operand::Combination, int), DecodeError>(
                (data.operands, data.spec_payload().len() as int),
            ));
            assert(enc.len() == 3 + data.spec_payload().len());
        },
    }
}

/// The other direction of the codec round-trip law: whatever byte string an
/// instruction was successfully decoded from begins with exactly that
/// instruction's own encoding, and the decoded instruction is legally
/// constructed.
pub proof fn lemma_decode_then_encode(bytes: Seq<u8>)
    requires
        Instruction::spec_decode(bytes) is Ok,
    ensures
        Instruction::spec_decode(bytes) matches Ok(pair) && {
            &&& pair.0.wf()
            &&& 0 <= pair.1 <= bytes.len()
            &&& bytes.take(pair.1) == pair.0.spec_encode()
        },
{
    let (instruction, k) = Instruction::spec_decode(bytes)->Ok_0;
    let b0 = bytes[0] as int;
    let b1 = bytes[1] as int;
    crate::operation::lemma_from_codes_codes(bytes[0] / 4, bytes[1] / 16);
    assert(b0 == (b0 / 4) * 4 + ((b0 / 2) % 2) * 2 + b0 % 2) by {
        vstd::arithmetic::div_mod::lemma_fundamental_div_mod(b0, 4);
        vstd::arithmetic::div_mod::lemma_mod_breakdown(b0, 2, 2);
    };
    assert(b1 == (b1 / 16) * 16 + ((b1 / 4) % 4) * 4 + b1 % 4) by {
        vstd::arithmetic::div_mod::lemma_fundamental_div_mod(b1, 16);
        vstd::arithmetic::div_mod::lemma_mod_breakdown(b1, 4, 4);
    };
    match instruction.data {
        None => {
            assert(bytes.take(2) =~= instruction.spec_encode());
        },
        Some(data) => {
            let db = bytes[2] as int;
            assert(db == (db / 64) * 64 + ((db / 8) % 8) * 8 + db % 8) by {
                vstd::arithmetic::div_mod::lemma_fundamental_div_mod(db, 64);
                vstd::arithmetic::div_mod::lemma_mod_breakdown(db, 8, 8);
            };
            let width = Size::spec_from_power(bytes[2] / 64);
            assert(width.spec_power() == bytes[2] / 64);
            let x_static = (bytes[2] / 8) % 8;
            let x_dynamic = bytes[2] % 8;
            let addressing = (bytes[1] / 4) % 4;
            let exponent = bytes[1] % 4;
            let expectation = instruction.operation.spec_expectation();
            let uses_dynamic = match Instruction::spec_decode_operands(
                bytes.skip(3),
                expectation,
                data.destination,
                width,
                x_static,
                x_dynamic,
                addressing,
                exponent,
            ) {
                Ok(_) => !(expectation == Expectation::Destination && data.destination
                    == Destination::Static),
                Err(_) => false,
            };
            if uses_dynamic {
                operand::lemma_dynamic_decode_encodes(
                    bytes.skip(3),
                    x_dynamic,
                    addressing,
                    exponent,
                    width,
                );
                let (op, n) = Operand::spec_decode_dynamic(
                    bytes.skip(3),
                    x_dynamic,
                    addressing,
                    exponent,
                    width,
                )->Ok_0;
                assert(data.spec_dynamic_operand() == Some(op));
                assert(bytes.skip(3).take(n) == op.spec_payload());
                assert(bytes.take(3 + n) =~= seq![bytes[0], bytes[1], bytes[2]] + bytes.skip(
                    3,
                ).take(n));
                assert(bytes.take(k) =~= instruction.spec_encode());
            } else {
                assert(data.spec_dynamic_operand() is None);
                assert(bytes.take(3) =~= instruction.spec_encode());
            }
        },
    }
}

} // verus!
