//! Memory and address utilities.
//!
//! # Addresses
//! There are two kinds of addresses and two parts to an address.
//! - Physical: a real address that points to the same byte every time.
//! - Virtual: an illusion address that is translated to a physical address
//!   through the page table before it is used.
//!
//! The two parts of an address are
//! - the page, the block of memory the address falls in; it occupies the
//!   high bits of the address, and
//! - the item, the byte inside that page; it occupies the low
//!   [`PAGE_ITEM_BITS`] bits.
//!
//! A page holds [`PAGE_BYTES_COUNT`] bytes, and translation replaces the
//! virtual page identifier with a physical one while the item stays the same.
//! A virtual page that has no entry in the page table is a page fault; there
//! is never a default mapping.

use std::collections::HashMap;
use vstd::prelude::*;

use crate::num::{
    lemma_le_bytes_len, lemma_le_bytes_value, lemma_le_value_bound, lemma_pow256_increases,
    lemma_pow256_positive, pow256, spec_le_bytes, spec_le_value, Size, Unsigned,
};

verus! {

/// How many low bits of an address select the byte inside its page.
pub const PAGE_ITEM_BITS: u64 = 13;

/// How many bytes one page holds: 2 to the power [`PAGE_ITEM_BITS`].
pub const PAGE_BYTES_COUNT: u64 = 0x2000;

/// How many distinct page identifiers fit in an address: 2 to the power of
/// the remaining 51 high bits.
pub const PAGE_IDENTIFIER_COUNT: u64 = 0x8_0000_0000_0000;

/// An address frame: a memory address together with the size of the access.
#[derive(Debug, Clone, Copy)]
pub struct Frame {
    pub address: u64,
    pub size: Size,
}

impl Frame {
    /// Whether the frame is aligned: its address is a multiple of its byte
    /// length. An 8-bit frame is always aligned.
    pub open spec fn spec_is_aligned(self) -> bool {
        self.address as int % self.size.spec_size() as int == 0
    }

    /// Check whether the address frame is aligned to memory. Only aligned
    /// frames can be used to interact with memory.
    pub fn is_aligned(&self) -> (r: bool)
        ensures
            r == self.spec_is_aligned(),
            self.size == Size::U8 ==> r,
    {
        match self.size {
            Size::U8 => true,
            _ => self.address % (self.size.size() as u64) == 0,
        }
    }

    /// The first address past the frame.
    pub fn max_address(&self) -> (r: u64)
        requires
            self.address + self.size.spec_size() <= u64::MAX,
        ensures
            r == self.address + self.size.spec_size(),
    {
        self.address + self.size.size() as u64
    }
}

/// A utility containing methods for manipulating and reading addresses and
/// their partitioned segments: the page identifier in the high bits and the
/// item, the byte offset inside the page, in the low [`PAGE_ITEM_BITS`] bits.
pub trait Address {
    /// The numeric address this object stands for.
    spec fn addr(&self) -> u64;

    /// Extract the address item: the byte offset inside the page, held in
    /// the low bits of the address.
    fn extract_item(&self) -> (r: u64)
        ensures
            r == self.addr() as int % PAGE_BYTES_COUNT as int,
    ;

    /// Layer the item bits of `item` onto the page bits of this address.
    fn set_item(&self, item: u64) -> (r: u64)
        ensures
            r == (self.addr() as int / PAGE_BYTES_COUNT as int) * PAGE_BYTES_COUNT
                + item as int % PAGE_BYTES_COUNT as int,
    ;

    /// Extract the address page identifier: the high bits of the address.
    fn extract_page(&self) -> (r: u64)
        ensures
            r == self.addr() as int / PAGE_BYTES_COUNT as int,
    ;

    /// Replace the page bits of this address with the given page identifier,
    /// keeping the item bits.
    fn set_page(&self, page: u64) -> (r: u64)
        ensures
            r == (page as int % PAGE_IDENTIFIER_COUNT as int) * PAGE_BYTES_COUNT
                + self.addr() as int % PAGE_BYTES_COUNT as int,
    ;

    /// Move a bare page identifier into the page segment of an address,
    /// leaving zero item bits. Identifier bits beyond the page segment are
    /// discarded.
    fn offset_page(&self) -> (r: u64)
        ensures
            r == (self.addr() as int % PAGE_IDENTIFIER_COUNT as int) * PAGE_BYTES_COUNT,
    ;
}

impl Address for u64 {
    open spec fn addr(&self) -> u64 {
        *self
    }

    fn extract_item(&self) -> (r: u64)
    {
        *self % PAGE_BYTES_COUNT
    }

    fn set_item(&self, item: u64) -> (r: u64)
    {
        proof {
            vstd::arithmetic::div_mod::lemma_fundamental_div_mod(*self as int, 0x2000);
        }
        (*self / PAGE_BYTES_COUNT) * PAGE_BYTES_COUNT + item % PAGE_BYTES_COUNT
    }

    fn extract_page(&self) -> (r: u64)
    {
        *self / PAGE_BYTES_COUNT
    }

    fn set_page(&self, page: u64) -> (r: u64)
    {
        (page % PAGE_IDENTIFIER_COUNT) * PAGE_BYTES_COUNT + *self % PAGE_BYTES_COUNT
    }

    fn offset_page(&self) -> (r: u64)
    {
        (*self % PAGE_IDENTIFIER_COUNT) * PAGE_BYTES_COUNT
    }
}

/// Error caused by setting data in memory.
#[derive(Debug, Clone, Copy, PartialEq, Eq, Structural)]
pub enum SetError {
    /// Error from using an unaligned address frame.
    UnalignedFrame,
}

/// Error caused by an invalid address frame during a memory access.
#[derive(Debug, Clone, Copy, PartialEq, Eq, Structural)]
pub enum GetError {
    /// The address frame is not aligned to its size.
    UnalignedFrame,
    /// The address frame crosses the positive memory boundary.
    OutOfBounds,
    /// A virtual access found no mapping for its page in the page table.
    PageFault,
}

/// Memory with an owned byte store, an optional upper address bound and a
/// page table.
///
/// Memory addressing must be aligned, and rules must be followed for frame
/// oriented operations on memory:
/// - if the memory is size constrained, a frame must not reach past the
///   memory size limit;
/// - frames must be aligned, simulating the limitations of a hardware
///   memory module.
#[derive(Debug, Clone)]
pub struct Memory {
    pub bytes: Vec<u8>,
    pub max_address: Option<u64>,
    /// Mappings of virtual page identifiers to physical page identifiers.
    pub pages: HashMap<u64, u64>,
}

impl Memory {
    /// Translation of `address` under the page table `pages`: the physical
    /// page identifier moved into the page segment, composed with the
    /// unchanged item bits; a page fault (`None`) when the virtual page has
    /// no mapping.
    pub open spec fn spec_translate(pages: Map<u64, u64>, address: u64) -> Option<u64> {
        if pages.contains_key(address / PAGE_BYTES_COUNT) {
            Some(
                (((pages[address / PAGE_BYTES_COUNT] as int % PAGE_IDENTIFIER_COUNT as int)
                    * PAGE_BYTES_COUNT) + address as int % PAGE_BYTES_COUNT as int) as u64,
            )
        } else {
            None
        }
    }

    /// The address an access through `frame` reaches: the frame's own
    /// address for a physical access, its translation for a virtual one.
    pub open spec fn spec_effective_address(self, address: u64, translate: bool) -> Option<u64> {
        if translate {
            Memory::spec_translate(self.pages@, address)
        } else {
            Some(address)
        }
    }

    /// Whether an access of `n` bytes at `address` stays below the
    /// configured upper bound, where one is configured.
    pub open spec fn spec_within_bound(self, address: u64, n: u8) -> bool {
        match self.max_address {
            Some(max) => address + n <= max,
            None => true,
        }
    }

    /// The alignment, translation and bound checks of a frame access, in
    /// their fixed order; returns the effective address when all pass, and
    /// the first violated check otherwise.
    pub open spec fn spec_frame_check(self, frame: Frame, translate: bool) -> Result<u64, GetError> {
        if !frame.spec_is_aligned() {
            Err(GetError::UnalignedFrame)
        } else {
            match self.spec_effective_address(frame.address, translate) {
                None => Err(GetError::PageFault),
                Some(address) => if self.spec_within_bound(address, frame.size.spec_size()) {
                    Ok(address)
                } else {
                    Err(GetError::OutOfBounds)
                },
            }
        }
    }

    /// The value a read through `frame` returns when every check passes:
    /// the little-endian value of the bytes under the frame, tagged with the
    /// frame's size.
    pub open spec fn spec_read(self, address: u64, size: Size) -> Unsigned {
        Unsigned::spec_with_size_u64(
            size,
            spec_le_value(
                self.bytes@.subrange(address as int, address + size.spec_size()),
            ) as u64,
        )
    }

    /// What `get` returns: the first violated check, `OutOfBounds` where the
    /// store itself is too short, or the value read.
    pub open spec fn spec_get(self, frame: Frame, translate: bool) -> Result<Unsigned, GetError> {
        match self.spec_frame_check(frame, translate) {
            Err(e) => Err(e),
            Ok(address) => if address + frame.size.spec_size() > self.bytes@.len() {
                Err(GetError::OutOfBounds)
            } else {
                Ok(self.spec_read(address, frame.size))
            },
        }
    }

    /// The byte store after the low `n` bytes of `value` are written at
    /// `address`.
    pub open spec fn spec_written(self, address: u64, size: Size, value: u64) -> Seq<u8> {
        self.bytes@.take(address as int) + spec_le_bytes(value as int, size.spec_size() as nat)
            + self.bytes@.skip(address + size.spec_size())
    }

    /// Translate a virtual address into a physical address under the current
    /// page table. Returns `None`, meaning a page fault, when the virtual
    /// page is not mapped.
    pub fn translate_virtual(&self, address: u64) -> (r: Option<u64>)
        ensures
            r == Memory::spec_translate(self.pages@, address),
    {
        let virtual_page = address.extract_page();
        let physical_page = match self.pages.get(&virtual_page) {
            Some(page) => *page,
            None => {
                return None;
            },
        };
        let virtual_item = address.extract_item();
        let layered = physical_page.offset_page();
        let composed = layered.set_item(virtual_item);
        proof {
            let p = physical_page as int % PAGE_IDENTIFIER_COUNT as int;
            assert((p * 0x2000) / 0x2000 == p && (p * 0x2000) % 0x2000 == 0) by (nonlinear_arith)
                requires
                    0 <= p < 0x8_0000_0000_0000,
            ;
            assert(virtual_item as int % 0x2000 == virtual_item) by {
                vstd::arithmetic::div_mod::lemma_small_mod(
                    virtual_item as nat,
                    PAGE_BYTES_COUNT as nat,
                );
            };
        }
        Some(composed)
    }

    /// A memory over the given byte store, with no upper bound and an empty
    /// page table.
    pub fn new(bytes: Vec<u8>) -> (r: Self)
        ensures
            r.bytes == bytes,
            r.max_address is None,
            r.pages@ == Map::<u64, u64>::empty(),
    {
        Memory { bytes, pages: HashMap::new(), max_address: None }
    }

    /// Check a frame for the errors of a memory operation, in the fixed
    /// order alignment, translation, bound, and translate its address in
    /// place when the access is virtual.
    fn process_test_frame(&self, frame: &mut Frame, translate: bool) -> (r: Result<(), GetError>)
        ensures
            final(frame).size == old(frame).size,
            match r {
                Ok(()) => self.spec_frame_check(*old(frame), translate) == Ok::<u64, GetError>(
                    final(frame).address,
                ),
                Err(e) => self.spec_frame_check(*old(frame), translate) == Err::<u64, GetError>(e),
            },
    {
        if !frame.is_aligned() {
            return Err(GetError::UnalignedFrame);
        }
        if translate {
            frame.address = match self.translate_virtual(frame.address) {
                Some(value) => value,
                None => {
                    return Err(GetError::PageFault);
                },
            };
        }
        if let Some(max_address) = self.max_address {
            let n = frame.size.size() as u64;
            if max_address < n || frame.address > max_address - n {
                return Err(GetError::OutOfBounds);
            }
        }
        Ok(())
    }

    /// Read and return the data targeted by the frame, with safeguards
    /// emulating hardware limitations: the frame must be aligned, a virtual
    /// access must find its page mapped, and the access must stay inside the
    /// configured bound and the byte store; the first violated rule is
    /// reported. The bytes are read little-endian and tagged with the
    /// frame's size.
    pub fn get(&self, frame: Frame, translate: bool) -> (r: Result<Unsigned, GetError>)
        ensures
            r == self.spec_get(frame, translate),
    {
        let mut frame = frame;
        if let Err(e) = self.process_test_frame(&mut frame, translate) {
            return Err(e);
        }
        let n: u8 = frame.size.size();
        let address = frame.address;
        if self.bytes.len() < n as usize || address > (self.bytes.len() - n as usize) as u64 {
            return Err(GetError::OutOfBounds);
        }
        let start = address as usize;
        let mut value: u64 = 0;
        let mut j: u8 = 0;
        while j < n
            invariant
                0 <= j <= n,
                n == frame.size.spec_size(),
                start == address,
                start + n <= self.bytes@.len(),
                self.bytes@.len() <= usize::MAX,
                value == spec_le_value(self.bytes@.subrange(start + n - j, start + n as int)),
                value < pow256(j as nat),
            decreases n - j,
        {
            let b = self.bytes[start + (n - 1 - j) as usize];
            proof {
                let hi = start + n as int;
                let tail = self.bytes@.subrange(hi - j, hi);
                let longer = self.bytes@.subrange(hi - j - 1, hi);
                assert(longer =~= seq![self.bytes@[hi - j - 1]] + tail);
                assert(longer.skip(1) =~= tail);
                lemma_le_value_bound(longer);
                lemma_pow256_positive(j as nat);
                assert(pow256((j + 1) as nat) == 0x100 * pow256(j as nat));
                crate::num::lemma_pow256_values();
                assert(pow256((j + 1) as nat) <= pow256(8)) by {
                    lemma_pow256_increases((j + 1) as nat, 8);
                };
            }
            value = value * 0x100 + (b as u64);
            j = j + 1;
        }
        proof {
            assert(self.bytes@.subrange(start as int, start + n as int) == self.bytes@.subrange(
                address as int,
                address + frame.size.spec_size(),
            ));
        }
        Ok(Unsigned::with_size_u64(frame.size, value))
    }

    /// Write the low `frame.size` bytes of `value` at the frame's (possibly
    /// translated) address, little-endian, under the same safeguards and in
    /// the same order as `get`; the store is untouched whenever an error is
    /// reported.
    pub fn set(&mut self, frame: Frame, translate: bool, value: Unsigned) -> (r: Result<
        (),
        GetError,
    >)
        ensures
            final(self).max_address == old(self).max_address,
            final(self).pages@ == old(self).pages@,
            match r {
                Ok(()) => match old(self).spec_frame_check(frame, translate) {
                    Ok(address) => address + frame.size.spec_size() <= old(self).bytes@.len()
                        && final(self).bytes@ == old(self).spec_written(
                        address,
                        frame.size,
                        value.spec_u64(),
                    ),
                    Err(_) => false,
                },
                Err(e) => final(self).bytes@ == old(self).bytes@ && match old(self).spec_get(
                    frame,
                    translate,
                ) {
                    Ok(_) => false,
                    Err(cause) => e == cause,
                },
            },
    {
        let mut frame = frame;
        if let Err(e) = self.process_test_frame(&mut frame, translate) {
            return Err(e);
        }
        let n: u8 = frame.size.size();
        let address = frame.address;
        if self.bytes.len() < n as usize || address > (self.bytes.len() - n as usize) as u64 {
            return Err(GetError::OutOfBounds);
        }
        let start = address as usize;
        let ghost old_bytes = self.bytes@;
        let v: u64 = value.to_u64();
        let mut rest: u64 = v;
        let mut i: u8 = 0;
        while i < n
            invariant
                0 <= i <= n,
                start == address,
                start + n <= self.bytes@.len(),
                self.bytes@.len() <= usize::MAX,
                self.bytes@.len() == old_bytes.len(),
                self.pages@ == old(self).pages@,
                self.max_address == old(self).max_address,
                spec_le_bytes(v as int, n as nat) =~= self.bytes@.subrange(
                    start as int,
                    start + i as int,
                ) + spec_le_bytes(rest as int, (n - i) as nat),
                forall|k: int| 0 <= k < start ==> self.bytes@[k] == old_bytes[k],
                forall|k: int| start + i <= k < old_bytes.len() ==> self.bytes@[k] == old_bytes[k],
            decreases n - i,
        {
            let ghost before = self.bytes@;
            let ghost lo = start as int;
            self.bytes[start + i as usize] = (rest % 0x100) as u8;
            proof {
                assert(self.bytes@ =~= before.update(lo + i, (rest % 0x100) as u8));
                assert(self.bytes@.subrange(lo, lo + i + 1) =~= before.subrange(lo, lo + i)
                    + seq![(rest % 0x100) as u8]);
                assert(spec_le_bytes(rest as int, (n - i) as nat) =~= seq![(rest % 0x100) as u8]
                    + spec_le_bytes(rest as int / 0x100, (n - i - 1) as nat));
                assert((spec_le_bytes(v as int, n as nat)) =~= self.bytes@.subrange(lo, lo + i + 1)
                    + spec_le_bytes(rest as int / 0x100, (n - i - 1) as nat));
            }
            rest = rest / 0x100;
            i = i + 1;
        }
        proof {
            let lo = start as int;
            assert(self.bytes@ =~= old_bytes.take(lo) + spec_le_bytes(v as int, n as nat)
                + old_bytes.skip(lo + n)) by {
                lemma_le_bytes_len(v as int, n as nat);
                assert(self.bytes@.subrange(lo, lo + n) =~= spec_le_bytes(v as int, n as nat)
                    + spec_le_bytes(rest as int, 0));
                assert(self.bytes@.subrange(lo, lo + n) =~= spec_le_bytes(v as int, n as nat));
            };
        }
        Ok(())
    }
}

/// Translation is a pure function of the address and the page table:
/// two memories with equal page tables translate every address alike.
pub proof fn lemma_translate_is_pure(pages1: Map<u64, u64>, pages2: Map<u64, u64>, address: u64)
    requires
        pages1 == pages2,
    ensures
        Memory::spec_translate(pages1, address) == Memory::spec_translate(pages2, address),
{
}

/// A translation succeeds exactly when the page table maps the address's
/// page; removing the relevant mapping turns a previously successful
/// translation into a page fault.
pub proof fn lemma_translate_requires_mapping(pages: Map<u64, u64>, address: u64)
    ensures
        Memory::spec_translate(pages, address) is Some <==> pages.contains_key(
            address / PAGE_BYTES_COUNT,
        ),
        Memory::spec_translate(pages.remove(address / PAGE_BYTES_COUNT), address) is None,
{
}

/// Writing a value through an aligned, in-bounds frame and reading it back
/// through the same frame returns the value requantized to the frame's
/// size: the read yields exactly the low bytes that the write stored.
pub proof fn lemma_set_then_get(
    before: Memory,
    after: Memory,
    frame: Frame,
    translate: bool,
    value: Unsigned,
)
    requires
        before.spec_frame_check(frame, translate) matches Ok(address) && address
            + frame.size.spec_size() <= before.bytes@.len() && after.bytes@ == before.spec_written(
            address,
            frame.size,
            value.spec_u64(),
        ),
        after.pages@ == before.pages@,
        after.max_address == before.max_address,
    ensures
        after.spec_get(frame, translate) == Ok::<Unsigned, GetError>(
            Unsigned::spec_with_size_u64(frame.size, value.spec_u64()),
        ),
{
    let address = before.spec_frame_check(frame, translate)->Ok_0;
    let n = frame.size.spec_size() as nat;
    let v = value.spec_u64() as int;
    lemma_le_bytes_len(v, n);
    assert(after.bytes@.len() == before.bytes@.len());
    assert(after.spec_frame_check(frame, translate) == before.spec_frame_check(frame, translate));
    let written = after.bytes@.subrange(address as int, address + n);
    assert(written =~= spec_le_bytes(v, n));
    lemma_le_bytes_value(v, n);
    crate::num::lemma_pow256_values();
    let read = spec_le_value(written);
    assert(read == v % pow256(n));
    lemma_mod_mask_agrees(frame.size, value.spec_u64());
    assert(Unsigned::spec_with_size_u64(frame.size, read as u64) == Unsigned::spec_with_size_u64(
        frame.size,
        value.spec_u64(),
    ));
}

/// Reducing a value modulo 256 to a size's byte count and requantizing it to
/// that size agree with requantizing the value directly.
proof fn lemma_mod_mask_agrees(size: Size, value: u64)
    ensures
        Unsigned::spec_with_size_u64(size, (value as int % pow256(size.spec_size() as nat)) as u64)
            == Unsigned::spec_with_size_u64(size, value),
{
    crate::num::lemma_pow256_values();
    let p = pow256(size.spec_size() as nat);
    let reduced = (value as int % p) as u64;
    vstd::arithmetic::div_mod::lemma_mod_bound(value as int, p);
    match size {
        Size::U8 => {
            vstd::arithmetic::div_mod::lemma_mod_mod(value as int, 0x100, 1);
            assert(reduced as int % 0x100 == value as int % 0x100) by {
                vstd::arithmetic::div_mod::lemma_mod_twice(value as int, 0x100);
            };
            assert(reduced % 0x100 == value % 0x100);
        },
        Size::U16 => {
            assert(reduced as int % 0x1_0000 == value as int % 0x1_0000) by {
                vstd::arithmetic::div_mod::lemma_mod_twice(value as int, 0x1_0000);
            };
            assert(reduced % 0x1_0000 == value % 0x1_0000);
        },
        Size::U32 => {
            assert(reduced as int % 0x1_0000_0000 == value as int % 0x1_0000_0000) by {
                vstd::arithmetic::div_mod::lemma_mod_twice(value as int, 0x1_0000_0000);
            };
            assert(reduced % 0x1_0000_0000 == value % 0x1_0000_0000);
        },
        Size::U64 => {
            assert(value as int % pow256(8) == value) by {
                vstd::arithmetic::div_mod::lemma_small_mod(value as nat, pow256(8) as nat);
            };
        },
    }
}

} // verus!
