//! Operands and their addressing modes.
//!
//! An [`Operand`] locates a value for an instruction: a register, an
//! immediate, a relative offset, or a complex combination of a base register
//! with an optional offset and/or index register. Each addressing mode
//! declares, as static metadata, whether it carries a register field, an
//! immediate payload, an offset and/or an index register; that metadata
//! drives both decode and encode.
//!
//! Two byte grammars produce operands:
//! - the stand-alone grammar of [`Operand::decode`], whose first byte packs
//!   the addressing mode (bits 7-6), the operand width power (bits 5-4) and
//!   a mode-specific end segment (bits 3-0);
//! - the instruction-embedded grammar of [`Operand::from_codes`], whose mode,
//!   immediate-size exponent and register field arrive in the instruction's
//!   header and data bytes, and only payload bytes are read from the stream.
//!
//! Both share the complex-submode grammar: one submode byte holding the
//! submode code (bits 1-0) and the offset width power (bits 3-2), with the
//! high four bits zero, followed by the offset and/or index-register bytes
//! the submode requires.

use vstd::prelude::*;

use crate::num::{spec_le_value, Signed, Size, Unsigned};
use crate::stream::{read_exact, ByteSource, ReadFailure};

verus! {

/// Addressing through an immediate payload: a plain immediate value, or a
/// relative offset interpreted as a signed number.
#[derive(Debug, Clone, Copy, PartialEq, Eq, Structural)]
pub enum ImmediateAddressing {
    /// A quantized unsigned constant.
    Immediate { immediate: Unsigned },
    /// A quantized signed offset, relative to the current position.
    Relative { offset: Signed },
}

/// The submodes of complex addressing: a base register, optionally combined
/// with an offset and/or an index register.
#[derive(Debug, Clone, Copy, PartialEq, Eq, Structural)]
pub enum ComplexAddressing {
    /// The base register alone.
    Base,
    /// The base register displaced by a quantized offset.
    Offset { offset: Unsigned },
    /// The base register displaced by an index register.
    Index { index: u8 },
    /// The base register displaced by both an offset and an index register.
    OffsetIndex { offset: Unsigned, index: u8 },
}

/// The addressing mode of an operand.
#[derive(Debug, Clone, Copy, PartialEq, Eq, Structural)]
pub enum AddressingMode {
    /// The value lives in a register.
    Register { register: u8 },
    /// The value is an immediate payload.
    Immediate { mode: ImmediateAddressing },
    /// The value is located through a base register and the submode's
    /// displacements.
    Complex { mode: ComplexAddressing, base: u8 },
}

/// An operand: the width of the data it refers to, and the addressing mode
/// that locates the data.
#[derive(Debug, Clone, Copy, PartialEq, Eq, Structural)]
pub struct Operand {
    pub size: Size,
    pub mode: AddressingMode,
}

/// Error from decoding an operand.
#[derive(Debug, Clone, Copy, PartialEq, Eq, Structural)]
pub enum DecodeError {
    /// The addressing or submode byte could not be read.
    AddressingByte,
    /// The immediate value bytes could not be read.
    ImmediateValue,
    /// The offset bytes of a relative or complex operand could not be read.
    ImmediateOffset,
    /// The index register byte could not be read.
    IndexRegister,
    /// A code field held bits that no mode of the grammar uses.
    InvalidCode,
    /// The underlying stream faulted.
    Read,
}

impl ComplexAddressing {
    /// The code of this submode in the submode byte.
    pub open spec fn spec_code(self) -> u8 {
        match self {
            ComplexAddressing::Base => 0,
            ComplexAddressing::Offset { .. } => 1,
            ComplexAddressing::Index { .. } => 2,
            ComplexAddressing::OffsetIndex { .. } => 3,
        }
    }

    /// The width power of the submode's offset; zero when it has none.
    pub open spec fn spec_offset_power(self) -> u8 {
        match self {
            ComplexAddressing::Offset { offset } => offset.spec_size().spec_power(),
            ComplexAddressing::OffsetIndex { offset, .. } => offset.spec_size().spec_power(),
            _ => 0,
        }
    }

    /// The submode byte: the submode code in its low two bits and the offset
    /// width power above it; the high four bits are zero.
    pub open spec fn spec_submode_byte(self) -> u8 {
        (self.spec_code() + 4 * self.spec_offset_power()) as u8
    }

    /// The bytes a complex submode occupies: the submode byte, then the
    /// offset bytes where the submode carries an offset, then the index
    /// register byte where it carries one.
    pub open spec fn spec_payload(self) -> Seq<u8> {
        match self {
            ComplexAddressing::Base => seq![self.spec_submode_byte()],
            ComplexAddressing::Offset { offset } => seq![self.spec_submode_byte()]
                + offset.spec_le_bytes(),
            ComplexAddressing::Index { index } => seq![self.spec_submode_byte(), index],
            ComplexAddressing::OffsetIndex { offset, index } => seq![self.spec_submode_byte()]
                + offset.spec_le_bytes() + seq![index],
        }
    }

    /// Whether the submode with the given code carries an offset; `None`
    /// when the code names no submode.
    pub fn requires_offset(code: u8) -> (r: Option<bool>)
        ensures
            r == (if code < 4 {
                Some(code == 1 || code == 3)
            } else {
                None::<bool>
            }),
    {
        match code {
            0 => Some(false),
            1 => Some(true),
            2 => Some(false),
            3 => Some(true),
            _ => None,
        }
    }

    /// Whether the submode with the given code carries an index register;
    /// `None` when the code names no submode.
    pub fn requires_index_register(code: u8) -> (r: Option<bool>)
        ensures
            r == (if code < 4 {
                Some(code == 2 || code == 3)
            } else {
                None::<bool>
            }),
    {
        match code {
            0 => Some(false),
            1 => Some(false),
            2 => Some(true),
            3 => Some(true),
            _ => None,
        }
    }
}

impl AddressingMode {
    /// The code of this addressing mode: register, immediate, relative or
    /// complex.
    pub open spec fn spec_code(self) -> u8 {
        match self {
            AddressingMode::Register { .. } => 0,
            AddressingMode::Immediate { mode: ImmediateAddressing::Immediate { .. } } => 1,
            AddressingMode::Immediate { mode: ImmediateAddressing::Relative { .. } } => 2,
            AddressingMode::Complex { .. } => 3,
        }
    }

    /// Whether the mode with the given code carries a register field;
    /// `None` when the code names no mode.
    pub fn requires_register(code: u8) -> (r: Option<bool>)
        ensures
            r == (if code < 4 {
                Some(code == 0 || code == 3)
            } else {
                None::<bool>
            }),
    {
        match code {
            0 => Some(true),
            1 => Some(false),
            2 => Some(false),
            3 => Some(true),
            _ => None,
        }
    }

    /// Whether the mode with the given code carries an immediate payload;
    /// `None` when the code names no mode.
    pub fn requires_immediate(code: u8) -> (r: Option<bool>)
        ensures
            r == (if code < 4 {
                Some(code == 1 || code == 2)
            } else {
                None::<bool>
            }),
    {
        match code {
            0 => Some(false),
            1 => Some(true),
            2 => Some(true),
            3 => Some(false),
            _ => None,
        }
    }
}

/// The unsigned value of size `size` read from a little-endian byte string.
pub open spec fn spec_unsigned_from_le(size: Size, s: Seq<u8>) -> Unsigned {
    Unsigned::spec_with_size_u64(size, spec_le_value(s) as u64)
}

/// The spec-level mirror of [`Operand::decode_complex`]: the submode parsed
/// from the front of `bytes` and how many bytes it occupies, or the exact
/// error the parse reports.
pub open spec fn spec_decode_complex(bytes: Seq<u8>) -> Result<(ComplexAddressing, int), DecodeError> {
    if bytes.len() < 1 {
        Err(DecodeError::AddressingByte)
    } else {
        let submode = bytes[0];
        if submode / 16 != 0 {
            Err(DecodeError::InvalidCode)
        } else {
            let code = submode % 4;
            let power = submode / 4;
            let n = Size::spec_from_power(power).spec_size() as int;
            if code == 0 {
                if power != 0 {
                    Err(DecodeError::InvalidCode)
                } else {
                    Ok((ComplexAddressing::Base, 1))
                }
            } else if code == 1 {
                if bytes.len() < 1 + n {
                    Err(DecodeError::ImmediateOffset)
                } else {
                    Ok(
                        (
                            ComplexAddressing::Offset {
                                offset: spec_unsigned_from_le(
                                    Size::spec_from_power(power),
                                    bytes.subrange(1, 1 + n),
                                ),
                            },
                            1 + n,
                        ),
                    )
                }
            } else if code == 2 {
                if power != 0 {
                    Err(DecodeError::InvalidCode)
                } else if bytes.len() < 2 {
                    Err(DecodeError::IndexRegister)
                } else {
                    Ok((ComplexAddressing::Index { index: bytes[1] }, 2))
                }
            } else {
                if bytes.len() < 1 + n {
                    Err(DecodeError::ImmediateOffset)
                } else if bytes.len() < 2 + n {
                    Err(DecodeError::IndexRegister)
                } else {
                    Ok(
                        (
                            ComplexAddressing::OffsetIndex {
                                offset: spec_unsigned_from_le(
                                    Size::spec_from_power(power),
                                    bytes.subrange(1, 1 + n),
                                ),
                                index: bytes[1 + n],
                            },
                            2 + n,
                        ),
                    )
                }
            }
        }
    }
}

impl Operand {
    /// The header fields an instruction-embedded operand occupies: its
    /// addressing code, its immediate-size exponent, and its register field.
    pub open spec fn spec_codes(self) -> (u8, u8, u8) {
        match self.mode {
            AddressingMode::Register { register } => (0, 0, register),
            AddressingMode::Immediate { mode: ImmediateAddressing::Immediate { immediate } } => (
                1,
                immediate.spec_size().spec_power(),
                0,
            ),
            AddressingMode::Immediate { mode: ImmediateAddressing::Relative { offset } } => (
                2,
                offset.spec_size().spec_power(),
                0,
            ),
            AddressingMode::Complex { mode, base } => (3, 0, base),
        }
    }

    /// The payload bytes an instruction-embedded operand occupies after the
    /// header: nothing for a register, the value bytes for an immediate or
    /// relative operand, and the submode's bytes for a complex one.
    pub open spec fn spec_payload(self) -> Seq<u8> {
        match self.mode {
            AddressingMode::Register { .. } => Seq::empty(),
            AddressingMode::Immediate { mode: ImmediateAddressing::Immediate { immediate } } =>
                immediate.spec_le_bytes(),
            AddressingMode::Immediate { mode: ImmediateAddressing::Relative { offset } } =>
                offset.spec_unsigned().spec_le_bytes(),
            AddressingMode::Complex { mode, .. } => mode.spec_payload(),
        }
    }

    /// Whether an operand can stand in an instruction's dynamic slot at
    /// width `width`: its size is the instruction's width, and its register
    /// fields fit the three-bit fields that carry them.
    pub open spec fn spec_wf_dynamic(self, width: Size) -> bool {
        &&& self.size == width
        &&& match self.mode {
            AddressingMode::Register { register } => register < 8,
            AddressingMode::Immediate { .. } => true,
            AddressingMode::Complex { base, .. } => base < 8,
        }
    }

    /// The spec-level mirror of [`Operand::from_codes`]: the operand the
    /// instruction-embedded grammar parses from the header fields and the
    /// front of `bytes`, with how many payload bytes it consumes, or the
    /// exact error it reports. Fields that the selected mode leaves unused
    /// must be zero.
    pub open spec fn spec_decode_dynamic(
        bytes: Seq<u8>,
        register: u8,
        addressing: u8,
        immediate_exponent: u8,
        width: Size,
    ) -> Result<(Operand, int), DecodeError> {
        if addressing == 0 {
            if immediate_exponent != 0 {
                Err(DecodeError::InvalidCode)
            } else {
                Ok((Operand { size: width, mode: AddressingMode::Register { register } }, 0))
            }
        } else if addressing == 1 || addressing == 2 {
            if register != 0 {
                Err(DecodeError::InvalidCode)
            } else {
                let size = Size::spec_from_power(immediate_exponent);
                let n = size.spec_size() as int;
                if bytes.len() < n {
                    if addressing == 1 {
                        Err(DecodeError::ImmediateValue)
                    } else {
                        Err(DecodeError::ImmediateOffset)
                    }
                } else {
                    let value = spec_unsigned_from_le(size, bytes.subrange(0, n));
                    let mode = if addressing == 1 {
                        ImmediateAddressing::Immediate { immediate: value }
                    } else {
                        ImmediateAddressing::Relative { offset: value.spec_signed() }
                    };
                    Ok((Operand { size: width, mode: AddressingMode::Immediate { mode } }, n))
                }
            }
        } else {
            if immediate_exponent != 0 {
                Err(DecodeError::InvalidCode)
            } else {
                match spec_decode_complex(bytes) {
                    Err(e) => Err(e),
                    Ok((mode, n)) => Ok(
                        (
                            Operand {
                                size: width,
                                mode: AddressingMode::Complex { mode, base: register },
                            },
                            n,
                        ),
                    ),
                }
            }
        }
    }

    /// Read the immediate payload of an operand: exactly `size` bytes,
    /// little-endian.
    pub fn decode_immediate<S: ByteSource>(input: &mut S, size: Size) -> (r: Result<
        Unsigned,
        ReadFailure,
    >)
        requires
            old(input).inv(),
        ensures
            final(input).inv(),
            final(input).faultless() == old(input).faultless(),
            match r {
                Ok(value) => {
                    &&& old(input).remaining().len() >= size.spec_size()
                    &&& value == spec_unsigned_from_le(
                        size,
                        old(input).remaining().take(size.spec_size() as int),
                    )
                    &&& value.spec_size() == size
                    &&& value.spec_le_bytes() == old(input).remaining().take(
                        size.spec_size() as int,
                    )
                    &&& final(input).remaining() == old(input).remaining().skip(
                        size.spec_size() as int,
                    )
                    &&& final(input).offset() == old(input).offset() + size.spec_size()
                },
                Err(ReadFailure::Short) => old(input).remaining().len() < size.spec_size(),
                Err(ReadFailure::Fault) => !old(input).faultless(),
            },
    {
        let bytes = match read_exact(input, size.size()) {
            Ok(bytes) => bytes,
            Err(failure) => {
                return Err(failure);
            },
        };
        Ok(Unsigned::from_le_bytes(size, &bytes))
    }

    /// Decode the submode of a complex operand: the submode byte, whose high
    /// four bits must be zero, then the offset and/or index-register bytes
    /// that the submode declares it requires. The offset width power sits in
    /// bits 3-2 of the submode byte and must be zero for submodes without an
    /// offset.
    pub fn decode_complex<S: ByteSource>(input: &mut S) -> (r: Result<
        ComplexAddressing,
        DecodeError,
    >)
        requires
            old(input).inv(),
        ensures
            final(input).inv(),
            final(input).faultless() == old(input).faultless(),
            match r {
                Ok(mode) => spec_decode_complex(old(input).remaining()) matches Ok(pair)
                    && pair.0 == mode && final(input).remaining() == old(input).remaining().skip(
                    pair.1,
                ) && final(input).offset() == old(input).offset() + pair.1,
                Err(DecodeError::Read) => !old(input).faultless(),
                Err(e) => spec_decode_complex(old(input).remaining()) == Err::<
                    (ComplexAddressing, int),
                    DecodeError,
                >(e),
            },
    {
        let submode = match read_exact(input, 1) {
            Ok(bytes) => bytes[0],
            Err(ReadFailure::Short) => {
                return Err(DecodeError::AddressingByte);
            },
            Err(ReadFailure::Fault) => {
                return Err(DecodeError::Read);
            },
        };
        if submode / 16 != 0 {
            return Err(DecodeError::InvalidCode);
        }
        let code = submode % 4;
        let power = submode / 4;
        let ghost rest = old(input).remaining().skip(1);
        if code == 0 {
            if power != 0 {
                return Err(DecodeError::InvalidCode);
            }
            Ok(ComplexAddressing::Base)
        } else if code == 1 {
            let size = Size::from_power(power);
            let offset = match Operand::decode_immediate(input, size) {
                Ok(value) => value,
                Err(ReadFailure::Short) => {
                    return Err(DecodeError::ImmediateOffset);
                },
                Err(ReadFailure::Fault) => {
                    return Err(DecodeError::Read);
                },
            };
            proof {
                let n = size.spec_size() as int;
                assert(rest.take(n) =~= old(input).remaining().subrange(1, 1 + n));
                assert(rest.skip(n) =~= old(input).remaining().skip(1 + n));
            }
            Ok(ComplexAddressing::Offset { offset })
        } else if code == 2 {
            if power != 0 {
                return Err(DecodeError::InvalidCode);
            }
            let index = match read_exact(input, 1) {
                Ok(bytes) => bytes[0],
                Err(ReadFailure::Short) => {
                    return Err(DecodeError::IndexRegister);
                },
                Err(ReadFailure::Fault) => {
                    return Err(DecodeError::Read);
                },
            };
            proof {
                assert(rest.skip(1) =~= old(input).remaining().skip(2));
                assert(rest[0] == old(input).remaining()[1]);
            }
            Ok(ComplexAddressing::Index { index })
        } else {
            let size = Size::from_power(power);
            let offset = match Operand::decode_immediate(input, size) {
                Ok(value) => value,
                Err(ReadFailure::Short) => {
                    return Err(DecodeError::ImmediateOffset);
                },
                Err(ReadFailure::Fault) => {
                    return Err(DecodeError::Read);
                },
            };
            let ghost n = size.spec_size() as int;
            proof {
                assert(rest.take(n) =~= old(input).remaining().subrange(1, 1 + n));
            }
            let index = match read_exact(input, 1) {
                Ok(bytes) => bytes[0],
                Err(ReadFailure::Short) => {
                    return Err(DecodeError::IndexRegister);
                },
                Err(ReadFailure::Fault) => {
                    return Err(DecodeError::Read);
                },
            };
            proof {
                assert(rest.skip(n)[0] == old(input).remaining()[1 + n]);
                assert(rest.skip(n).skip(1) =~= old(input).remaining().skip(2 + n));
            }
            Ok(ComplexAddressing::OffsetIndex { offset, index })
        }
    }

    /// Decode the dynamic operand of an instruction from its header fields
    /// and the payload bytes that follow: no further bytes for a register,
    /// the immediate bytes sized by the exponent for an immediate or
    /// relative operand, and the submode bytes for a complex one. Header
    /// fields that the selected mode leaves unused must be zero.
    pub fn from_codes<S: ByteSource>(
        register: u8,
        addressing: u8,
        immediate_exponent: u8,
        width: Size,
        input: &mut S,
    ) -> (r: Result<Operand, DecodeError>)
        requires
            old(input).inv(),
            addressing < 4,
            immediate_exponent < 4,
        ensures
            final(input).inv(),
            final(input).faultless() == old(input).faultless(),
            match r {
                Ok(operand) => Operand::spec_decode_dynamic(
                    old(input).remaining(),
                    register,
                    addressing,
                    immediate_exponent,
                    width,
                ) matches Ok(pair) && pair.0 == operand && final(input).remaining() == old(
                    input,
                ).remaining().skip(pair.1) && final(input).offset() == old(input).offset()
                    + pair.1,
                Err(DecodeError::Read) => !old(input).faultless(),
                Err(e) => Operand::spec_decode_dynamic(
                    old(input).remaining(),
                    register,
                    addressing,
                    immediate_exponent,
                    width,
                ) == Err::<(Operand, int), DecodeError>(e),
            },
    {
        if addressing == 0 {
            if immediate_exponent != 0 {
                return Err(DecodeError::InvalidCode);
            }
            Ok(Operand { size: width, mode: AddressingMode::Register { register } })
        } else if addressing == 1 || addressing == 2 {
            if register != 0 {
                return Err(DecodeError::InvalidCode);
            }
            let size = Size::from_power(immediate_exponent);
            let value = match Operand::decode_immediate(input, size) {
                Ok(value) => value,
                Err(ReadFailure::Short) => {
                    return Err(
                        if addressing == 1 {
                            DecodeError::ImmediateValue
                        } else {
                            DecodeError::ImmediateOffset
                        },
                    );
                },
                Err(ReadFailure::Fault) => {
                    return Err(DecodeError::Read);
                },
            };
            let mode = if addressing == 1 {
                ImmediateAddressing::Immediate { immediate: value }
            } else {
                ImmediateAddressing::Relative { offset: value.to_signed() }
            };
            proof {
                assert(old(input).remaining().take(size.spec_size() as int)
                    =~= old(input).remaining().subrange(0, size.spec_size() as int));
            }
            Ok(Operand { size: width, mode: AddressingMode::Immediate { mode } })
        } else {
            if immediate_exponent != 0 {
                return Err(DecodeError::InvalidCode);
            }
            let mode = match Operand::decode_complex(input) {
                Ok(mode) => mode,
                Err(e) => {
                    return Err(e);
                },
            };
            Ok(Operand { size: width, mode: AddressingMode::Complex { mode, base: register } })
        }
    }

    /// The spec-level mirror of [`Operand::decode`]: the operand the
    /// stand-alone grammar parses from the front of `bytes` and how many
    /// bytes it consumes, or the exact error it reports.
    pub open spec fn spec_decode(bytes: Seq<u8>) -> Result<(Operand, int), DecodeError> {
        if bytes.len() < 1 {
            Err(DecodeError::AddressingByte)
        } else {
            let first = bytes[0];
            let mode_code = first / 64;
            let size = Size::spec_from_power((first / 16) % 4);
            let end = first % 16;
            if mode_code == 0 {
                Ok((Operand { size, mode: AddressingMode::Register { register: end } }, 1))
            } else if mode_code == 1 || mode_code == 2 {
                let immediate_size = Size::spec_from_power(end / 4);
                let n = immediate_size.spec_size() as int;
                if bytes.len() < 1 + n {
                    if mode_code == 1 {
                        Err(DecodeError::ImmediateValue)
                    } else {
                        Err(DecodeError::ImmediateOffset)
                    }
                } else {
                    let value = spec_unsigned_from_le(immediate_size, bytes.subrange(1, 1 + n));
                    let mode = if mode_code == 1 {
                        ImmediateAddressing::Immediate { immediate: value }
                    } else {
                        ImmediateAddressing::Relative { offset: value.spec_signed() }
                    };
                    Ok((Operand { size, mode: AddressingMode::Immediate { mode } }, 1 + n))
                }
            } else {
                match spec_decode_complex(bytes.skip(1)) {
                    Err(e) => Err(e),
                    Ok((mode, n)) => Ok(
                        (
                            Operand { size, mode: AddressingMode::Complex { mode, base: end } },
                            1 + n,
                        ),
                    ),
                }
            }
        }
    }

    /// Decode a stand-alone operand: one byte holding the addressing mode
    /// (bits 7-6), the operand width power (bits 5-4) and the end segment
    /// (bits 3-0) — the register for register mode, the immediate width
    /// power in its high two bits for the immediate modes, and the base
    /// register for complex mode — followed by the mode's payload bytes.
    pub fn decode<S: ByteSource>(input: &mut S) -> (r: Result<Operand, DecodeError>)
        requires
            old(input).inv(),
        ensures
            final(input).inv(),
            final(input).faultless() == old(input).faultless(),
            match r {
                Ok(operand) => Operand::spec_decode(old(input).remaining()) matches Ok(pair)
                    && pair.0 == operand && final(input).remaining() == old(
                    input,
                ).remaining().skip(pair.1) && final(input).offset() == old(input).offset()
                    + pair.1,
                Err(DecodeError::Read) => !old(input).faultless(),
                Err(e) => Operand::spec_decode(old(input).remaining()) == Err::<
                    (Operand, int),
                    DecodeError,
                >(e),
            },
    {
        let first = match read_exact(input, 1) {
            Ok(bytes) => bytes[0],
            Err(ReadFailure::Short) => {
                return Err(DecodeError::AddressingByte);
            },
            Err(ReadFailure::Fault) => {
                return Err(DecodeError::Read);
            },
        };
        let mode_code = first / 64;
        let size = Size::from_power((first / 16) % 4);
        let end = first % 16;
        let ghost rest = old(input).remaining().skip(1);
        if mode_code == 0 {
            Ok(Operand { size, mode: AddressingMode::Register { register: end } })
        } else if mode_code == 1 || mode_code == 2 {
            let immediate_size = Size::from_power(end / 4);
            let value = match Operand::decode_immediate(input, immediate_size) {
                Ok(value) => value,
                Err(ReadFailure::Short) => {
                    return Err(
                        if mode_code == 1 {
                            DecodeError::ImmediateValue
                        } else {
                            DecodeError::ImmediateOffset
                        },
                    );
                },
                Err(ReadFailure::Fault) => {
                    return Err(DecodeError::Read);
                },
            };
            let mode = if mode_code == 1 {
                ImmediateAddressing::Immediate { immediate: value }
            } else {
                ImmediateAddressing::Relative { offset: value.to_signed() }
            };
            proof {
                let n = immediate_size.spec_size() as int;
                assert(rest.take(n) =~= old(input).remaining().subrange(1, 1 + n));
                assert(rest.skip(n) =~= old(input).remaining().skip(1 + n));
            }
            Ok(Operand { size, mode: AddressingMode::Immediate { mode } })
        } else {
            let mode = match Operand::decode_complex(input) {
                Ok(mode) => mode,
                Err(e) => {
                    return Err(e);
                },
            };
            proof {
                if let Ok((_, n)) = spec_decode_complex(rest) {
                    assert(rest.skip(n) =~= old(input).remaining().skip(1 + n));
                }
            }
            Ok(Operand { size, mode: AddressingMode::Complex { mode, base: end } })
        }
    }
}

impl ComplexAddressing {
    /// Pack the submode's bytes: the submode byte, then the offset and/or
    /// index register it carries.
    pub fn encode_payload(&self) -> (r: Vec<u8>)
        ensures
            r@ == self.spec_payload(),
    {
        let mut out: Vec<u8> = Vec::new();
        match self {
            ComplexAddressing::Base => {
                out.push(0);
            },
            ComplexAddressing::Offset { offset } => {
                out.push(1 + 4 * offset.size().to_power());
                let mut offset_bytes = offset.to_le_bytes();
                out.append(&mut offset_bytes);
            },
            ComplexAddressing::Index { index } => {
                out.push(2);
                out.push(*index);
            },
            ComplexAddressing::OffsetIndex { offset, index } => {
                out.push(3 + 4 * offset.size().to_power());
                let mut offset_bytes = offset.to_le_bytes();
                out.append(&mut offset_bytes);
                out.push(*index);
            },
        }
        proof {
            assert(out@ =~= self.spec_payload());
        }
        out
    }
}

impl Operand {
    /// The header fields this operand occupies when embedded in an
    /// instruction: its addressing code, immediate-size exponent and
    /// register field.
    pub fn codes(&self) -> (r: (u8, u8, u8))
        ensures
            r == self.spec_codes(),
    {
        match self.mode {
            AddressingMode::Register { register } => (0, 0, register),
            AddressingMode::Immediate { mode: ImmediateAddressing::Immediate { immediate } } => (
                1,
                immediate.size().to_power(),
                0,
            ),
            AddressingMode::Immediate { mode: ImmediateAddressing::Relative { offset } } => (
                2,
                offset.size().to_power(),
                0,
            ),
            AddressingMode::Complex { mode: _, base } => (3, 0, base),
        }
    }

    /// Pack the operand's payload bytes, the exact bytes that follow the
    /// data byte in an instruction's encoding.
    pub fn encode_payload(&self) -> (r: Vec<u8>)
        ensures
            r@ == self.spec_payload(),
    {
        match self.mode {
            AddressingMode::Register { .. } => Vec::new(),
            AddressingMode::Immediate { mode: ImmediateAddressing::Immediate { immediate } } =>
                immediate.to_le_bytes(),
            AddressingMode::Immediate { mode: ImmediateAddressing::Relative { offset } } =>
                offset.to_unsigned().to_le_bytes(),
            AddressingMode::Complex { mode, .. } => mode.encode_payload(),
        }
    }
}

/// A complex submode's payload, followed by anything, decodes back to the
/// submode, consuming exactly the payload.
pub proof fn lemma_complex_payload_decodes(mode: ComplexAddressing, rest: Seq<u8>)
    ensures
        spec_decode_complex(mode.spec_payload() + rest) == Ok::<(ComplexAddressing, int), DecodeError>(
            (mode, mode.spec_payload().len() as int),
        ),
{
    let b = mode.spec_payload() + rest;
    let power = mode.spec_offset_power();
    let code = mode.spec_code();
    let sb = mode.spec_submode_byte();
    assert(power < 4);
    assert(b[0] == sb);
    assert(sb == code + 4 * power);
    assert(sb / 16 == 0 && sb % 4 == code && sb / 4 == power) by {
        vstd::arithmetic::div_mod::lemma_div_multiples_vanish_fancy(power as int, code as int, 4);
        vstd::arithmetic::div_mod::lemma_mod_multiples_vanish(power as int, code as int, 4);
    };
    match mode {
        ComplexAddressing::Base => {},
        ComplexAddressing::Offset { offset } => {
            let n = offset.spec_size().spec_size() as int;
            crate::num::lemma_le_bytes_len(offset.spec_u64() as int, n as nat);
            assert(b.subrange(1, 1 + n) =~= offset.spec_le_bytes());
            crate::num::lemma_le_bytes_identity(offset);
            assert(Size::spec_from_power(power) == offset.spec_size());
        },
        ComplexAddressing::Index { index } => {
            assert(b[1] == index);
        },
        ComplexAddressing::OffsetIndex { offset, index } => {
            let n = offset.spec_size().spec_size() as int;
            crate::num::lemma_le_bytes_len(offset.spec_u64() as int, n as nat);
            assert(b.subrange(1, 1 + n) =~= offset.spec_le_bytes());
            assert(b[1 + n] == index);
            crate::num::lemma_le_bytes_identity(offset);
            assert(Size::spec_from_power(power) == offset.spec_size());
        },
    }
}

/// A dynamic operand's payload, followed by anything, decodes back to the
/// operand under the operand's own header codes, consuming exactly the
/// payload.
pub proof fn lemma_dynamic_payload_decodes(op: Operand, width: Size, rest: Seq<u8>)
    requires
        op.spec_wf_dynamic(width),
    ensures
        Operand::spec_decode_dynamic(
            op.spec_payload() + rest,
            op.spec_codes().2,
            op.spec_codes().0,
            op.spec_codes().1,
            width,
        ) == Ok::<(Operand, int), DecodeError>((op, op.spec_payload().len() as int)),
{
    let b = op.spec_payload() + rest;
    match op.mode {
        AddressingMode::Register { register } => {},
        AddressingMode::Immediate { mode } => {
            let value = match mode {
                ImmediateAddressing::Immediate { immediate } => immediate,
                ImmediateAddressing::Relative { offset } => offset.spec_unsigned(),
            };
            let size = value.spec_size();
            let n = size.spec_size() as int;
            assert(op.spec_payload() == value.spec_le_bytes());
            crate::num::lemma_le_bytes_len(value.spec_u64() as int, n as nat);
            assert(b.subrange(0, n) =~= value.spec_le_bytes());
            crate::num::lemma_le_bytes_identity(value);
            assert(Size::spec_from_power(size.spec_power()) == size);
            if let ImmediateAddressing::Relative { offset } = mode {
                crate::num::lemma_signed_unsigned_inverse();
                assert(offset.spec_unsigned().spec_signed() == offset);
            }
        },
        AddressingMode::Complex { mode, base } => {
            lemma_complex_payload_decodes(mode, rest);
        },
    }
}

/// Whatever bytes a complex submode was successfully decoded from begin
/// with exactly the submode's own payload.
pub proof fn lemma_complex_decode_encodes(bytes: Seq<u8>)
    requires
        spec_decode_complex(bytes) is Ok,
    ensures
        spec_decode_complex(bytes) matches Ok(pair) && 0 <= pair.1 <= bytes.len() && bytes.take(
            pair.1,
        ) == pair.0.spec_payload(),
{
    let (mode, k) = spec_decode_complex(bytes)->Ok_0;
    let sb = bytes[0];
    let code = sb % 4;
    let power = sb / 4;
    assert(sb == 4 * power + code) by {
        vstd::arithmetic::div_mod::lemma_fundamental_div_mod(sb as int, 4);
    };
    assert(power < 4);
    match mode {
        ComplexAddressing::Base => {
            assert(mode.spec_submode_byte() == sb);
            assert(bytes.take(1) =~= mode.spec_payload());
        },
        ComplexAddressing::Offset { offset } => {
            let size = Size::spec_from_power(power);
            let n = size.spec_size() as int;
            crate::num::lemma_le_value_identity(size, bytes.subrange(1, 1 + n));
            assert(offset.spec_size() == size);
            assert(mode.spec_offset_power() == power);
            assert(mode.spec_submode_byte() == sb);
            assert(offset.spec_le_bytes() == bytes.subrange(1, 1 + n));
            assert(bytes.take(1 + n) =~= mode.spec_payload());
        },
        ComplexAddressing::Index { index } => {
            assert(mode.spec_submode_byte() == sb);
            assert(bytes.take(2) =~= mode.spec_payload());
        },
        ComplexAddressing::OffsetIndex { offset, index } => {
            let size = Size::spec_from_power(power);
            let n = size.spec_size() as int;
            crate::num::lemma_le_value_identity(size, bytes.subrange(1, 1 + n));
            assert(offset.spec_size() == size);
            assert(mode.spec_offset_power() == power);
            assert(mode.spec_submode_byte() == sb);
            assert(offset.spec_le_bytes() == bytes.subrange(1, 1 + n));
            assert(bytes.take(2 + n) =~= mode.spec_payload());
        },
    }
}

/// Whatever bytes a dynamic operand was successfully decoded from begin
/// with exactly the operand's own payload, and the operand is well formed
/// and occupies exactly the header codes it was decoded from.
pub proof fn lemma_dynamic_decode_encodes(
    bytes: Seq<u8>,
    register: u8,
    addressing: u8,
    immediate_exponent: u8,
    width: Size,
)
    requires
        addressing < 4,
        immediate_exponent < 4,
        register < 8,
        Operand::spec_decode_dynamic(bytes, register, addressing, immediate_exponent, width)
            is Ok,
    ensures
        Operand::spec_decode_dynamic(bytes, register, addressing, immediate_exponent, width)
            matches Ok(pair) && {
            &&& pair.0.spec_wf_dynamic(width)
            &&& pair.0.spec_codes() == (addressing, immediate_exponent, register)
            &&& 0 <= pair.1 <= bytes.len()
            &&& bytes.take(pair.1) == pair.0.spec_payload()
        },
{
    let (op, k) = Operand::spec_decode_dynamic(
        bytes,
        register,
        addressing,
        immediate_exponent,
        width,
    )->Ok_0;
    if addressing == 0 {
        assert(bytes.take(0) =~= op.spec_payload());
    } else if addressing == 1 || addressing == 2 {
        let size = Size::spec_from_power(immediate_exponent);
        let n = size.spec_size() as int;
        crate::num::lemma_le_value_identity(size, bytes.subrange(0, n));
        assert(size.spec_power() == immediate_exponent);
        if addressing == 2 {
            crate::num::lemma_signed_unsigned_inverse();
        }
        assert(bytes.take(n) =~= bytes.subrange(0, n));
    } else {
        lemma_complex_decode_encodes(bytes);
    }
}

/// Two input operands.
#[derive(Debug, Clone, Copy, PartialEq, Eq, Structural)]
pub struct DualInput {
    pub input_a: Operand,
    pub input_b: Operand,
}

/// A destination operand and two input operands. The destination is a copy
/// of whichever slot the instruction's destination selector names.
#[derive(Debug, Clone, Copy, PartialEq, Eq, Structural)]
pub struct All {
    pub destination: Operand,
    pub input_a: Operand,
    pub input_b: Operand,
}

/// The closed set of operand combinations an operation can declare: nothing
/// (no `Data` at all), a destination alone, one input, two inputs, a
/// destination with one input, or all three present.
#[derive(Debug, Clone, Copy, PartialEq, Eq, Structural)]
pub enum Combination {
    /// Only a destination.
    Destination(Operand),
    /// Only one input.
    SingleInput(Operand),
    /// Two inputs and no destination.
    DualInput(DualInput),
    /// A destination and one input.
    DestinationAndInput { destination: Operand, input: Operand },
    /// A destination and two inputs.
    All(All),
}

/// A package of the two adjacent register codes of an instruction's data
/// byte area: the static register in the high four bits, the dynamic
/// register in the low four.
#[derive(Debug, Clone, Copy, PartialEq, Eq, Structural)]
pub struct Registers {
    pub x_static: u8,
    pub x_dynamic: u8,
}

impl Registers {
    /// Split a byte into its two register codes: the static one from the
    /// high four bits, the dynamic one from the low four.
    pub fn decode(input: u8) -> (r: Self)
        ensures
            r.x_static == input / 16,
            r.x_dynamic == input % 16,
    {
        Registers { x_static: input / 16, x_dynamic: input % 16 }
    }

    /// Pack both register codes adjacent to each other in a byte: the
    /// static one in the high four bits, the dynamic one in the low four.
    pub fn encode(&self) -> (r: u8)
        ensures
            r == (self.x_static % 16) * 16 + self.x_dynamic % 16,
    {
        (self.x_static % 16) * 16 + self.x_dynamic % 16
    }
}

} // verus!
