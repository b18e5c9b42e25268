use asbind::{encode, write_optional, Memory, Target, WhatToWrite};

/// A guest heap for tests: a bump allocator over a byte vector that, like the guest's own
/// allocator, leaves each block's size in the four bytes before it.
struct Heap {
    bytes: Vec<u8>,
    allocations: usize,
    writes: usize,
}

impl Heap {
    fn new() -> Heap {
        Heap { bytes: vec![0; 16], allocations: 0, writes: 0 }
    }
}

impl Memory for Heap {
    fn allocate(&mut self, size: i32) -> i32 {
        self.allocations += 1;
        self.bytes.extend_from_slice(&size.to_le_bytes());
        let address = self.bytes.len();
        self.bytes.resize(address + size as usize, 0xAA);
        address as i32
    }

    fn write(&mut self, ptr: i32, data: &[u8]) {
        self.writes += 1;
        let start = ptr as usize;
        self.bytes[start..start + data.len()].copy_from_slice(data);
    }
}

struct Pair {
    id: i32,
    text: Option<String>,
}

impl WhatToWrite for Pair {
    fn write<M: Memory>(&self, target: &mut Target<M>, ptr: i32) {
        let block = target.allocate(8);
        WhatToWrite::write(&self.id, target, block.wrapping_add(0));
        write_optional(&self.text, 4, target, block.wrapping_add(4));
        WhatToWrite::write(&block, target, ptr);
    }

    fn size(&self) -> i32 {
        4
    }
}

#[test]
fn integer_is_written_inline() {
    let mut target = Target::new(Heap::new());
    0x11223344_i32.write(&mut target, 4);
    let (heap, pins) = target.release();
    assert_eq!(&heap.bytes[4..8], &[0x44, 0x33, 0x22, 0x11]);
    assert_eq!(heap.allocations, 0);
    assert_eq!(heap.writes, 1);
    assert!(pins.is_empty());
    assert_eq!(7_i32.size(), 4);
    assert_eq!(7_i64.size(), 8);
}

#[test]
fn absent_optional_writes_zero_sentinel() {
    let mut heap = Heap::new();
    heap.bytes[4..12].copy_from_slice(&[0xFF; 8]);
    let mut target = Target::new(heap);
    let absent: Option<String> = None;
    write_optional(&absent, 4, &mut target, 4);
    let (heap, pins) = target.release();
    assert_eq!(&heap.bytes[4..12], &[0, 0, 0, 0, 0xFF, 0xFF, 0xFF, 0xFF]);
    assert_eq!(heap.allocations, 0);
    assert_eq!(heap.writes, 1);
    assert!(pins.is_empty());
}

#[test]
fn encode_allocates_the_slot_first() {
    let mut target = Target::new(Heap::new());
    let address = encode(&(-2_i64), &mut target);
    let (heap, pins) = target.release();
    assert_eq!(address, 20);
    assert_eq!(pins, vec![20]);
    assert_eq!(&heap.bytes[16..20], &[8, 0, 0, 0]);
    assert_eq!(&heap.bytes[20..28], &[0xFE, 0xFF, 0xFF, 0xFF, 0xFF, 0xFF, 0xFF, 0xFF]);
}

#[test]
fn record_is_one_indirection() {
    let mut target = Target::new(Heap::new());
    let value = Pair { id: 7, text: None };
    let slot = encode(&value, &mut target);
    let (heap, pins) = target.release();
    assert_eq!(pins.len(), 2);
    assert_eq!(pins[0], slot);
    let block = pins[1] as usize;
    let at = slot as usize;
    assert_eq!(&heap.bytes[at..at + 4], &(block as i32).to_le_bytes());
    assert_eq!(&heap.bytes[block..block + 8], &[7, 0, 0, 0, 0, 0, 0, 0]);
}
