//! A fixed-field instruction parser.
//!
//! This parser reads a simpler, byte-per-field instruction form: one
//! operation byte that must match the operation the parser was built for,
//! followed by one byte per operand slot that the parser's operand presence
//! declares. The bytes are assigned to the slots in the fixed order
//! destination, then first source, then second source, by position.

use vstd::prelude::*;

use crate::stream::{read_exact, ByteSource, ReadFailure, ReadOutcome};

verus! {

/// Which operand bytes an instruction of the parsed form carries.
#[derive(Debug, Clone, Copy, PartialEq, Eq, Structural)]
pub struct OperandPresense {
    pub source0: bool,
    pub source1: bool,
    pub destination: bool,
}

impl OperandPresense {
    /// How many bytes an instruction with this presence occupies: the
    /// operation byte plus one byte per present operand.
    pub open spec fn spec_expected(self) -> int {
        1 + (if self.destination {
            1int
        } else {
            0int
        }) + (if self.source0 {
            1int
        } else {
            0int
        }) + (if self.source1 {
            1int
        } else {
            0int
        })
    }
}

/// An instruction of the fixed-field form: the operation byte and the
/// operand bytes that were present.
#[derive(Debug, Clone, Copy, PartialEq, Eq, Structural)]
pub struct Instruction {
    pub operation: u8,
    pub source0: Option<u8>,
    pub source1: Option<u8>,
    pub destination: Option<u8>,
}

/// Error from parsing the fixed-field form.
#[derive(Debug, Clone, Copy, PartialEq, Eq, Structural)]
pub enum InstructionParseError {
    /// The stream ended, or failed, before the expected bytes arrived.
    EndOfStream,
    /// The operation byte did not match the parser's operation.
    OperationUnmatched,
}

/// A parser for one operation of the fixed-field form, with the operand
/// presence that operation declares.
#[derive(Debug, Clone, Copy, PartialEq, Eq, Structural)]
pub struct Parser {
    pub operation: u8,
    pub operand_presense: OperandPresense,
}

impl Parser {
    /// A parser for the given operation byte and operand presence.
    pub fn new(operation: u8, operand_presense: OperandPresense) -> (r: Self)
        ensures
            r.operation == operation,
            r.operand_presense == operand_presense,
    {
        Parser { operation, operand_presense }
    }

    /// The spec-level mirror of [`Parser::parse`]: the instruction parsed
    /// from the front of `bytes` with how many bytes it occupies, or the
    /// exact error the parse reports. The operand bytes fill the slots in
    /// the fixed order destination, first source, second source, by
    /// position.
    pub open spec fn spec_parse(self, bytes: Seq<u8>) -> Result<
        (Instruction, int),
        InstructionParseError,
    > {
        let expected = self.operand_presense.spec_expected();
        if bytes.len() < 1 {
            Err(InstructionParseError::EndOfStream)
        } else if bytes[0] != self.operation {
            Err(InstructionParseError::OperationUnmatched)
        } else if bytes.len() < expected {
            Err(InstructionParseError::EndOfStream)
        } else {
            Ok(
                (
                    Instruction {
                        operation: self.operation,
                        destination: if expected >= 2 {
                            Some(bytes[1])
                        } else {
                            None
                        },
                        source0: if expected >= 3 {
                            Some(bytes[2])
                        } else {
                            None
                        },
                        source1: if expected >= 4 {
                            Some(bytes[3])
                        } else {
                            None
                        },
                    },
                    expected,
                ),
            )
        }
    }

    /// Parse one instruction of the fixed-field form: the operation byte,
    /// which must match this parser's operation, then one byte per declared
    /// operand. A stream that ends or fails before the expected bytes
    /// arrive reports the end of the stream.
    pub fn parse<S: ByteSource>(&mut self, source: &mut S) -> (r: Result<
        Instruction,
        InstructionParseError,
    >)
        requires
            old(source).inv(),
        ensures
            *final(self) == *old(self),
            final(source).inv(),
            final(source).faultless() == old(source).faultless(),
            match r {
                Ok(instruction) => old(self).spec_parse(old(source).remaining()) matches Ok(pair)
                    && pair.0 == instruction && final(source).remaining() == old(
                    source,
                ).remaining().skip(pair.1) && final(source).offset() == old(source).offset()
                    + pair.1,
                Err(InstructionParseError::OperationUnmatched) => old(self).spec_parse(
                    old(source).remaining(),
                ) == Err::<(Instruction, int), InstructionParseError>(
                    InstructionParseError::OperationUnmatched,
                ),
                Err(InstructionParseError::EndOfStream) => old(self).spec_parse(
                    old(source).remaining(),
                ) == Err::<(Instruction, int), InstructionParseError>(
                    InstructionParseError::EndOfStream,
                ) || !old(source).faultless(),
            },
    {
        let operation = match source.read_byte() {
            ReadOutcome::Byte(value) => value,
            ReadOutcome::End => {
                return Err(InstructionParseError::EndOfStream);
            },
            ReadOutcome::Fault => {
                return Err(InstructionParseError::EndOfStream);
            },
        };
        if operation != self.operation {
            return Err(InstructionParseError::OperationUnmatched);
        }
        let rest: u8 = (if self.operand_presense.destination {
            1
        } else {
            0
        }) + (if self.operand_presense.source0 {
            1
        } else {
            0
        }) + (if self.operand_presense.source1 {
            1
        } else {
            0
        });
        let operands = match read_exact(source, rest) {
            Ok(bytes) => bytes,
            Err(ReadFailure::Short) => {
                return Err(InstructionParseError::EndOfStream);
            },
            Err(ReadFailure::Fault) => {
                return Err(InstructionParseError::EndOfStream);
            },
        };
        proof {
            let tail = old(source).remaining().skip(1);
            assert(forall|k: int| 0 <= k < tail.len() ==> tail[k] == old(source).remaining()[k + 1]);
            assert(operands@[0] == tail.take(rest as int)[0] || rest == 0);
            assert(tail.skip(rest as int) =~= old(source).remaining().skip(1 + rest));
        }
        Ok(
            Instruction {
                operation,
                destination: if rest >= 1 {
                    Some(operands[0])
                } else {
                    None
                },
                source0: if rest >= 2 {
                    Some(operands[1])
                } else {
                    None
                },
                source1: if rest >= 3 {
                    Some(operands[2])
                } else {
                    None
                },
            },
        )
    }
}

/// Read one sized block: a length byte, then exactly that many bytes.
/// Returns `None` when the stream ends or fails before the block is
/// complete.
pub fn read_sized_block<S: ByteSource>(byte_stream: &mut S) -> (r: Option<Vec<u8>>)
    requires
        old(byte_stream).inv(),
    ensures
        final(byte_stream).inv(),
        final(byte_stream).faultless() == old(byte_stream).faultless(),
        match r {
            Some(bytes) => {
                &&& old(byte_stream).remaining().len() >= 1
                &&& bytes@.len() == old(byte_stream).remaining()[0]
                &&& old(byte_stream).remaining().len() >= 1 + bytes@.len()
                &&& bytes@ == old(byte_stream).remaining().subrange(1, 1 + bytes@.len() as int)
                &&& final(byte_stream).remaining() == old(byte_stream).remaining().skip(
                    1 + bytes@.len() as int,
                )
                &&& final(byte_stream).offset() == old(byte_stream).offset() + 1 + bytes@.len()
            },
            None => old(byte_stream).remaining().len() == 0 || old(byte_stream).remaining().len()
                < 1 + old(byte_stream).remaining()[0] || !old(byte_stream).faultless(),
        },
{
    let value_size = match byte_stream.read_byte() {
        ReadOutcome::Byte(value) => value,
        ReadOutcome::End => {
            return None;
        },
        ReadOutcome::Fault => {
            return None;
        },
    };
    let bytes = match read_exact(byte_stream, value_size) {
        Ok(bytes) => bytes,
        Err(_) => {
            return None;
        },
    };
    proof {
        let tail = old(byte_stream).remaining().skip(1);
        assert(tail.take(value_size as int) =~= old(byte_stream).remaining().subrange(
            1,
            1 + value_size,
        ));
        assert(tail.skip(value_size as int) =~= old(byte_stream).remaining().skip(
            1 + value_size,
        ));
    }
    Some(bytes)
}

} // verus!
