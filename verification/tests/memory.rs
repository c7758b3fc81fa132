//! The paged memory model: alignment, translation, and sized access.

use atln_processor::memory::{Address, Frame, GetError, Memory, PAGE_BYTES_COUNT};
use atln_processor::num::{Size, Unsigned};

#[test]
fn misalignment() {
    assert!(!Frame { address: 7, size: Size::U16 }.is_aligned());
    assert!(Frame { address: 7, size: Size::U8 }.is_aligned());

    assert!(Frame { address: 0, size: Size::U8 }.is_aligned());
    assert!(Frame { address: 0, size: Size::U64 }.is_aligned());
    assert!(Frame { address: 8, size: Size::U16 }.is_aligned());
    assert!(Frame { address: 8, size: Size::U64 }.is_aligned());
    assert!(!Frame { address: 1, size: Size::U64 }.is_aligned());
}

#[test]
fn frame_max_address() {
    assert_eq!(Frame { address: 16, size: Size::U32 }.max_address(), 20);
    assert_eq!(Frame { address: 0, size: Size::U8 }.max_address(), 1);
}

#[test]
fn address_parts() {
    let address: u64 = 3 * PAGE_BYTES_COUNT + 17;
    assert_eq!(address.extract_page(), 3);
    assert_eq!(address.extract_item(), 17);
    assert_eq!(5u64.offset_page(), 5 * PAGE_BYTES_COUNT);
    assert_eq!(address.set_item(40), 3 * PAGE_BYTES_COUNT + 40);
    assert_eq!(address.set_page(9), 9 * PAGE_BYTES_COUNT + 17);
}

#[test]
fn page_translation() {
    let mut memory = Memory::new(Vec::new());
    memory.pages.insert(10, 200);
    memory.pages.insert(9, 199);
    memory.pages.insert(8, 198);

    // Test multiple mappings: the item bits stay, the page is replaced.
    assert_eq!(
        memory.translate_virtual(10 * PAGE_BYTES_COUNT + 10).unwrap(),
        200 * PAGE_BYTES_COUNT + 10
    );
    assert_eq!(
        memory.translate_virtual(9 * PAGE_BYTES_COUNT + 10).unwrap(),
        199 * PAGE_BYTES_COUNT + 10
    );
    assert_eq!(
        memory.translate_virtual(8 * PAGE_BYTES_COUNT + 10).unwrap(),
        198 * PAGE_BYTES_COUNT + 10
    );

    // Unmapped page: a page fault.
    assert!(memory.translate_virtual(10).is_none());

    // Removing the relevant mapping turns success into a page fault.
    memory.pages.remove(&10);
    assert!(memory.translate_virtual(10 * PAGE_BYTES_COUNT + 10).is_none());
}

#[test]
fn sized_memory_access() {
    // Basic non-virtual addressing.
    let memory = Memory::new(vec![0, 0, 0, 0]);
    assert_eq!(
        memory.get(Frame { address: 0, size: Size::U32 }, false).unwrap(),
        Unsigned::U32(0)
    );

    let memory = Memory::new(vec![255, 255, 255, 255, 0, 0, 0, 0]);
    assert_eq!(
        memory.get(Frame { address: 0, size: Size::U64 }, false).unwrap(),
        Unsigned::U64(u32::MAX as u64)
    );

    let memory = Memory::new(1001u64.to_le_bytes().to_vec());
    assert_eq!(
        memory.get(Frame { address: 0, size: Size::U64 }, false).unwrap(),
        Unsigned::U64(1001)
    );
    assert_eq!(memory.get(Frame { address: 1, size: Size::U8 }, false).unwrap(), Unsigned::U8(3));
}

#[test]
fn virtual_memory_access() {
    // Two pages of storage; virtual page 0 maps to hardware page 1.
    let mut store = vec![0u8; (PAGE_BYTES_COUNT * 2) as usize];
    let second_page_index = PAGE_BYTES_COUNT as usize;
    store[second_page_index] = 255;
    store[second_page_index + 1] = 1;
    store[second_page_index + 5] = 1;
    store[second_page_index + 6] = 255;

    let mut memory = Memory::new(store);
    memory.pages.insert(0, 1);

    assert_eq!(memory.get(Frame { address: 0, size: Size::U8 }, true).unwrap(), Unsigned::U8(255));
    assert_eq!(
        memory.get(Frame { address: 0, size: Size::U16 }, true).unwrap(),
        Unsigned::U16(511)
    );
    assert_eq!(
        memory.get(Frame { address: 4, size: Size::U16 }, true).unwrap(),
        Unsigned::U16(256)
    );
}

#[test]
fn get_errors_in_order() {
    let mut memory = Memory::new(vec![0u8; 16]);
    memory.max_address = Some(8);

    // Alignment is checked first.
    assert_eq!(
        memory.get(Frame { address: 7, size: Size::U16 }, true),
        Err(GetError::UnalignedFrame)
    );
    // Then translation: no page is mapped.
    assert_eq!(
        memory.get(Frame { address: 8, size: Size::U16 }, true),
        Err(GetError::PageFault)
    );
    // Then the configured bound.
    assert_eq!(
        memory.get(Frame { address: 8, size: Size::U16 }, false),
        Err(GetError::OutOfBounds)
    );
    // A short underlying store also surfaces as out of bounds.
    let memory = Memory::new(vec![0u8; 2]);
    assert_eq!(
        memory.get(Frame { address: 0, size: Size::U32 }, false),
        Err(GetError::OutOfBounds)
    );
}

#[test]
fn set_then_get_round_trip() {
    // For every size: writing an aligned, in-bounds frame and reading it back
    // returns the value requantized to the frame's size.
    let mut memory = Memory::new(vec![0u8; 16]);
    let value = Unsigned::U64(0x1122_3344_5566_7788);

    for size in [Size::U8, Size::U16, Size::U32, Size::U64] {
        let frame = Frame { address: 8, size };
        memory.set(frame, false, value).unwrap();
        let read = memory.get(frame, false).unwrap();
        assert_eq!(read, Unsigned::with_size(size, value));
    }

    // The bytes around the written frame stay untouched.
    let mut memory = Memory::new(vec![0xaa; 8]);
    memory.set(Frame { address: 2, size: Size::U16 }, false, Unsigned::U16(0x0102)).unwrap();
    assert_eq!(memory.bytes, vec![0xaa, 0xaa, 0x02, 0x01, 0xaa, 0xaa, 0xaa, 0xaa]);
}

#[test]
fn set_failure_leaves_memory_untouched() {
    let mut memory = Memory::new(vec![0u8; 4]);
    assert_eq!(
        memory.set(Frame { address: 3, size: Size::U16 }, false, Unsigned::U16(7)),
        Err(GetError::UnalignedFrame)
    );
    assert_eq!(
        memory.set(Frame { address: 4, size: Size::U32 }, false, Unsigned::U32(7)),
        Err(GetError::OutOfBounds)
    );
    assert_eq!(memory.bytes, vec![0, 0, 0, 0]);
}
