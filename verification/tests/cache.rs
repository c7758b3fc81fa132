//! The decode cache: aging, refreshing and bulk population.

use atln_processor::cache::DecodeCache;
use atln_processor::instruction::{Data, Destination, Instruction};
use atln_processor::num::Size;
use atln_processor::operand::{AddressingMode, All, Combination, Operand};
use atln_processor::operation::{Arithmetic, Extension};
use atln_processor::stream::BufferSource;

fn register_operand(register: u8) -> Operand {
    Operand { size: Size::U64, mode: AddressingMode::Register { register } }
}

fn add_instruction() -> Instruction {
    Instruction {
        operation: Extension::Arithmetic(Arithmetic::Add),
        width: Size::U64,
        synchronise: false,
        data: Some(Data {
            width: Size::U64,
            destination: Destination::Static,
            operands: Combination::All(All {
                destination: register_operand(0),
                input_a: register_operand(0),
                input_b: register_operand(1),
            }),
        }),
    }
}

#[test]
fn lifetime_aging() {
    let mut cache = DecodeCache { decoded: Vec::new(), initial_lifetime: 4, chunk_size: 0 };

    // The base address is not meant to be accurately reflective of the
    // instruction for this test.
    cache.append(0, add_instruction());
    cache.append(2, add_instruction());

    assert_eq!(cache.decoded[0].lifetime, 3);
    assert_eq!(cache.decoded[1].lifetime, 4);

    // Kill the first instruction.
    {
        let mut cache = cache.clone();
        for _ in 0..3 {
            cache.age();
        }
        assert!(cache.find(0).is_none());
    }

    // Reset the first lifetime.
    {
        let mut cache = cache.clone();
        let taken = cache.take(0).unwrap();
        assert_eq!(taken, add_instruction());
        assert_eq!(cache.decoded[0].lifetime, 4);
    }
}

#[test]
fn populating() {
    let mut data = add_instruction().encode();
    data.extend(add_instruction().encode());

    let mut memory = BufferSource::new(data);

    let mut cache = DecodeCache { decoded: Vec::new(), initial_lifetime: 4, chunk_size: 2 };

    assert_eq!(cache.populate(&mut memory).unwrap(), 2);
}

#[test]
fn populating_addresses() {
    // Two back-to-back encodings of the same instruction: both addresses are
    // present afterwards, at the offsets their encodings start at.
    let one = add_instruction().encode();
    let length = one.len() as u64;
    let mut data = one.clone();
    data.extend(one);

    let mut memory = BufferSource::new(data);
    let mut cache = DecodeCache { decoded: Vec::new(), initial_lifetime: 4, chunk_size: 2 };

    assert_eq!(cache.populate(&mut memory).unwrap(), 2);
    assert!(cache.find(0).is_some());
    assert!(cache.find(length).is_some());
    assert_eq!(cache.decoded.len(), 2);
}

#[test]
fn populating_stops_at_chunk() {
    // Three encodings but a chunk of one: only the first is inserted.
    let mut data = add_instruction().encode();
    data.extend(add_instruction().encode());
    data.extend(add_instruction().encode());

    let mut memory = BufferSource::new(data);
    let mut cache = DecodeCache { decoded: Vec::new(), initial_lifetime: 4, chunk_size: 1 };

    assert_eq!(cache.populate(&mut memory).unwrap(), 1);
    assert_eq!(cache.decoded.len(), 1);
}

#[test]
fn populating_partial_success() {
    // One good encoding followed by garbage: the partial count comes back as
    // success.
    let mut data = add_instruction().encode();
    data.push(0xff);
    data.push(0xff);

    let mut memory = BufferSource::new(data);
    let mut cache = DecodeCache { decoded: Vec::new(), initial_lifetime: 4, chunk_size: 4 };

    assert_eq!(cache.populate(&mut memory).unwrap(), 1);
    assert_eq!(cache.decoded.len(), 1);
}

#[test]
fn populating_propagates_error() {
    // Garbage from the start and nothing inserted yet: the error propagates
    // and the cache is untouched.
    let mut memory = BufferSource::new(vec![0xff, 0xff]);
    let mut cache = DecodeCache { decoded: Vec::new(), initial_lifetime: 4, chunk_size: 4 };

    assert!(cache.populate(&mut memory).is_err());
    assert!(cache.decoded.is_empty());
}

#[test]
fn populating_empty_source() {
    // A source exhausted from the start populates nothing, successfully.
    let mut memory = BufferSource::new(Vec::new());
    let mut cache = DecodeCache { decoded: Vec::new(), initial_lifetime: 4, chunk_size: 4 };

    assert_eq!(cache.populate(&mut memory).unwrap(), 0);
}

#[test]
fn populating_from_memory() {
    // The typical deployment: populate pulls its bytes from a stream backed
    // by the emulated memory, so the cached addresses are real addresses.
    let mut bytes = vec![0u8; 4];
    bytes.extend(add_instruction().encode());
    bytes.extend(add_instruction().encode());
    let length = add_instruction().encode().len() as u64;

    let memory = atln_processor::memory::Memory::new(bytes);
    let mut source = atln_processor::stream::MemorySource::new(memory, 4);
    let mut cache = DecodeCache { decoded: Vec::new(), initial_lifetime: 4, chunk_size: 8 };

    assert_eq!(cache.populate(&mut source).unwrap(), 2);
    assert!(cache.find(4).is_some());
    assert!(cache.find(4 + length).is_some());
}

#[test]
fn take_on_absent_key() {
    let mut cache = DecodeCache { decoded: Vec::new(), initial_lifetime: 4, chunk_size: 0 };
    cache.append(8, add_instruction());

    assert!(cache.take(9).is_none());
    assert_eq!(cache.decoded.len(), 1);
    assert_eq!(cache.decoded[0].lifetime, 4);
}

#[test]
fn find_does_not_refresh() {
    let mut cache = DecodeCache { decoded: Vec::new(), initial_lifetime: 4, chunk_size: 0 };
    cache.append(0, add_instruction());
    cache.append(2, add_instruction());

    assert!(cache.find(0).is_some());
    assert_eq!(cache.decoded[0].lifetime, 3);

    cache.age();
    assert_eq!(cache.decoded[0].lifetime, 2);
    assert_eq!(cache.decoded[1].lifetime, 3);
}
