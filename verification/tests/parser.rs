//! The fixed-field parser and the sized-block reader.

use atln_processor::parser::{read_sized_block, InstructionParseError, OperandPresense, Parser};
use atln_processor::stream::BufferSource;

#[test]
fn parse_full_instruction() {
    let mut parser = Parser::new(
        7,
        OperandPresense { source0: true, source1: true, destination: true },
    );
    let mut source = BufferSource::new(vec![7, 30, 31, 32]);
    let instruction = parser.parse(&mut source).unwrap();
    assert_eq!(instruction.operation, 7);
    assert_eq!(instruction.destination, Some(30));
    assert_eq!(instruction.source0, Some(31));
    assert_eq!(instruction.source1, Some(32));
}

#[test]
fn parse_without_operands() {
    let mut parser = Parser::new(
        3,
        OperandPresense { source0: false, source1: false, destination: false },
    );
    let mut source = BufferSource::new(vec![3, 99]);
    let instruction = parser.parse(&mut source).unwrap();
    assert_eq!(instruction.operation, 3);
    assert_eq!(instruction.destination, None);
    assert_eq!(instruction.source0, None);
    assert_eq!(instruction.source1, None);
}

#[test]
fn parse_unmatched_operation() {
    let mut parser = Parser::new(
        3,
        OperandPresense { source0: false, source1: false, destination: false },
    );
    let mut source = BufferSource::new(vec![4]);
    assert_eq!(parser.parse(&mut source), Err(InstructionParseError::OperationUnmatched));
}

#[test]
fn parse_short_stream() {
    let mut parser = Parser::new(
        3,
        OperandPresense { source0: true, source1: true, destination: true },
    );
    let mut source = BufferSource::new(vec![3, 1]);
    assert_eq!(parser.parse(&mut source), Err(InstructionParseError::EndOfStream));

    let mut source = BufferSource::new(Vec::new());
    assert_eq!(parser.parse(&mut source), Err(InstructionParseError::EndOfStream));
}

#[test]
fn sized_block() {
    let mut source = BufferSource::new(vec![3, 10, 11, 12, 99]);
    assert_eq!(read_sized_block(&mut source).unwrap(), vec![10, 11, 12]);

    // The stream continues right after the block.
    assert_eq!(read_sized_block(&mut source), None);

    let mut source = BufferSource::new(vec![3, 10]);
    assert_eq!(read_sized_block(&mut source), None);

    let mut source = BufferSource::new(vec![0]);
    assert_eq!(read_sized_block(&mut source).unwrap(), Vec::<u8>::new());
}
