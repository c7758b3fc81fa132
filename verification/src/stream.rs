//! Byte sources for the decoders.
//!
//! A [`ByteSource`] hands out bytes one at a time; the decoders demand
//! "exactly N bytes or fail", so a short read is always a decode failure and
//! never yields a partial result. [`BufferSource`] reads from an owned byte
//! buffer and never faults.

use vstd::prelude::*;

verus! {

/// One read from a byte source: the next byte, the clean end of the stream,
/// or a fault of the underlying carrier.
#[derive(Debug, Clone, Copy, PartialEq, Eq, Structural)]
pub enum ReadOutcome {
    Byte(u8),
    End,
    Fault,
}

/// Why a whole-block read failed: the stream ended before enough bytes
/// arrived, or the underlying carrier faulted.
#[derive(Debug, Clone, Copy, PartialEq, Eq, Structural)]
pub enum ReadFailure {
    Short,
    Fault,
}

/// A byte source the decoders can pull from.
///
/// A source models the bytes it will yield as [`remaining`](Self::remaining)
/// and the address of the next byte as [`offset`](Self::offset). A source
/// whose [`faultless`](Self::faultless) holds never reports a fault.
pub trait ByteSource: Sized {
    /// The bytes this source will yield, in order.
    spec fn remaining(&self) -> Seq<u8>;

    /// The address of the next byte to be read.
    spec fn offset(&self) -> int;

    /// Whether this source can never fault.
    spec fn faultless(&self) -> bool;

    /// Well-formedness of the source; it bounds the offset so that every
    /// reachable position fits an address.
    spec fn inv(&self) -> bool;

    /// A well-formed source keeps its offset, and everything it can reach,
    /// within the range of an address.
    proof fn offset_in_range(&self)
        requires
            self.inv(),
        ensures
            0 <= self.offset(),
            self.offset() + self.remaining().len() <= u64::MAX,
    ;

    /// Read the next byte, advancing the source past it; report `End` at the
    /// clean end of the stream and `Fault` when the carrier fails.
    fn read_byte(&mut self) -> (r: ReadOutcome)
        requires
            old(self).inv(),
        ensures
            final(self).inv(),
            final(self).faultless() == old(self).faultless(),
            match r {
                ReadOutcome::Byte(b) => old(self).remaining().len() > 0 && b == old(
                    self,
                ).remaining()[0] && final(self).remaining() == old(self).remaining().skip(1)
                    && final(self).offset() == old(self).offset() + 1,
                ReadOutcome::End => old(self).remaining().len() == 0 && *final(self) == *old(self),
                ReadOutcome::Fault => !old(self).faultless() && final(self).remaining() == old(
                    self,
                ).remaining() && final(self).offset() == old(self).offset(),
            },
    ;

    /// The address of the next byte to be read.
    fn position(&self) -> (p: u64)
        requires
            self.inv(),
        ensures
            p == self.offset(),
    ;

    /// Whether the source is exhausted.
    fn at_end(&self) -> (b: bool)
        requires
            self.inv(),
        ensures
            b == (self.remaining().len() == 0),
    ;
}

/// Read exactly `n` bytes from the source, or fail: `Short` when the stream
/// ends first, `Fault` when the carrier fails. Exactly the returned bytes
/// are consumed on success; the whole rest of the stream is consumed when it
/// comes up short.
pub fn read_exact<S: ByteSource>(source: &mut S, n: u8) -> (r: Result<Vec<u8>, ReadFailure>)
    requires
        old(source).inv(),
    ensures
        final(source).inv(),
        final(source).faultless() == old(source).faultless(),
        match r {
            Ok(bytes) => {
                &&& bytes@.len() == n
                &&& old(source).remaining().len() >= n
                &&& bytes@ == old(source).remaining().take(n as int)
                &&& final(source).remaining() == old(source).remaining().skip(n as int)
                &&& final(source).offset() == old(source).offset() + n
            },
            Err(ReadFailure::Short) => old(source).remaining().len() < n && final(source).remaining().len() == 0,
            Err(ReadFailure::Fault) => !old(source).faultless(),
        },
{
    let mut bytes: Vec<u8> = Vec::new();
    let mut i: u8 = 0;
    while i < n
        invariant
            0 <= i <= n,
            source.inv(),
            source.faultless() == old(source).faultless(),
            bytes@.len() == i,
            old(source).remaining().len() >= i,
            bytes@ == old(source).remaining().take(i as int),
            source.remaining() == old(source).remaining().skip(i as int),
            source.offset() == old(source).offset() + i,
        decreases n - i,
    {
        match source.read_byte() {
            ReadOutcome::Byte(b) => {
                proof {
                    let rem = old(source).remaining();
                    assert(rem.skip(i as int).skip(1) =~= rem.skip(i + 1));
                    assert(rem.take(i as int).push(rem.skip(i as int)[0]) =~= rem.take(i + 1));
                }
                bytes.push(b);
                i = i + 1;
            },
            ReadOutcome::End => {
                return Err(ReadFailure::Short);
            },
            ReadOutcome::Fault => {
                return Err(ReadFailure::Fault);
            },
        }
    }
    Ok(bytes)
}

/// A byte source over an owned buffer: yields the bytes from `position` to
/// the end, one at a time, and never faults.
#[derive(Debug, Clone)]
pub struct BufferSource {
    pub bytes: Vec<u8>,
    pub position: usize,
}

impl BufferSource {
    /// A source that yields every byte of the buffer from the start.
    pub fn new(bytes: Vec<u8>) -> (r: Self)
        ensures
            r.inv(),
            r.remaining() == bytes@,
            r.offset() == 0,
            r.faultless(),
    {
        let r = BufferSource { bytes, position: 0 };
        proof {
            assert(r.remaining() =~= bytes@);
        }
        r
    }
}

impl ByteSource for BufferSource {
    open spec fn remaining(&self) -> Seq<u8> {
        self.bytes@.skip(self.position as int)
    }

    open spec fn offset(&self) -> int {
        self.position as int
    }

    open spec fn faultless(&self) -> bool {
        true
    }

    open spec fn inv(&self) -> bool {
        self.position <= self.bytes@.len()
    }

    proof fn offset_in_range(&self) {
        assert(self.bytes@.len() <= usize::MAX) by {
            let v = &self.bytes;
            assert(v@.len() == vstd::std_specs::vec::spec_vec_len(v));
        };
    }

    fn read_byte(&mut self) -> (r: ReadOutcome) {
        if self.position < self.bytes.len() {
            let b = self.bytes[self.position];
            self.position = self.position + 1;
            proof {
                assert(old(self).bytes@.skip(old(self).position as int).skip(1) =~= self.bytes@.skip(
                    self.position as int,
                ));
            }
            ReadOutcome::Byte(b)
        } else {
            ReadOutcome::End
        }
    }

    fn position(&self) -> (p: u64) {
        proof {
            self.offset_in_range();
        }
        self.position as u64
    }

    fn at_end(&self) -> (b: bool) {
        self.position == self.bytes.len()
    }
}

/// A byte source over an owned memory: yields the memory's bytes from
/// `position` to the end of the store, one at a time, and never faults. The
/// source owns the memory while it reads; the memory is handed back through
/// the public field.
#[derive(Debug, Clone)]
pub struct MemorySource {
    pub memory: crate::memory::Memory,
    pub position: u64,
}

impl MemorySource {
    /// A source over the memory's byte store, starting at `position`.
    pub fn new(memory: crate::memory::Memory, position: u64) -> (r: Self)
        requires
            position <= memory.bytes@.len(),
        ensures
            r.inv(),
            r.memory == memory,
            r.remaining() == memory.bytes@.skip(position as int),
            r.offset() == position,
            r.faultless(),
    {
        MemorySource { memory, position }
    }
}

impl ByteSource for MemorySource {
    open spec fn remaining(&self) -> Seq<u8> {
        self.memory.bytes@.skip(self.position as int)
    }

    open spec fn offset(&self) -> int {
        self.position as int
    }

    open spec fn faultless(&self) -> bool {
        true
    }

    open spec fn inv(&self) -> bool {
        self.position <= self.memory.bytes@.len()
    }

    proof fn offset_in_range(&self) {
        assert(self.memory.bytes@.len() <= usize::MAX) by {
            let v = &self.memory.bytes;
            assert(v@.len() == vstd::std_specs::vec::spec_vec_len(v));
        };
    }

    fn read_byte(&mut self) -> (r: ReadOutcome) {
        proof {
            self.offset_in_range();
        }
        if self.position < self.memory.bytes.len() as u64 {
            let b = self.memory.bytes[self.position as usize];
            self.position = self.position + 1;
            proof {
                assert(old(self).memory.bytes@.skip(old(self).position as int).skip(1)
                    =~= self.memory.bytes@.skip(self.position as int));
            }
            ReadOutcome::Byte(b)
        } else {
            ReadOutcome::End
        }
    }

    fn position(&self) -> (p: u64) {
        self.position
    }

    fn at_end(&self) -> (b: bool) {
        proof {
            self.offset_in_range();
        }
        self.position == self.memory.bytes.len() as u64
    }
}

} // verus!
