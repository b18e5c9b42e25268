use asbind::utf16::{decode_utf16_le, encode_utf16, utf16_le_bytes};
use asbind::{
    encode, generate_err, read_asc_string, read_i32, CallError, GuestAbort, Memory, Target,
    WhatToWrite,
};

struct Heap {
    bytes: Vec<u8>,
}

impl Memory for Heap {
    fn allocate(&mut self, size: i32) -> i32 {
        self.bytes.extend_from_slice(&size.to_le_bytes());
        let address = self.bytes.len();
        self.bytes.resize(address + size as usize, 0xAA);
        address as i32
    }

    fn write(&mut self, ptr: i32, data: &[u8]) {
        let start = ptr as usize;
        self.bytes[start..start + data.len()].copy_from_slice(data);
    }
}

fn round_trip(text: &str) {
    let mut heap = Heap { bytes: vec![0; 8] };
    let value = String::from(text);
    let slot = {
        let mut target = Target::new(&mut heap);
        let slot = encode(&value, &mut target);
        let (_, pins) = target.release();
        assert_eq!(pins.len(), 2);
        assert_eq!(pins[0], slot);
        slot
    };
    let buffer = read_i32(&heap.bytes, slot).unwrap();
    assert_eq!(read_asc_string(&heap.bytes, buffer), Ok(value));
}

#[test]
fn empty_string_round_trips() {
    round_trip("");
}

#[test]
fn plain_string_round_trips() {
    round_trip("hi");
}

#[test]
fn multi_byte_code_points_round_trip() {
    round_trip("Grüße, мир, 世界");
}

#[test]
fn surrogate_pairs_round_trip() {
    round_trip("a😀b𝄞");
}

#[test]
fn integers_round_trip() {
    for x in [0_i32, 1, -1, 7, 255, 256, i32::MAX, i32::MIN, 0x1234_5678, -0x1234_5678] {
        let mut heap = Heap { bytes: vec![0; 8] };
        let mut target = Target::new(&mut heap);
        let slot = encode(&x, &mut target);
        target.release();
        assert_eq!(read_i32(&heap.bytes, slot), Ok(x));
    }
}

#[test]
fn wide_integers_are_eight_little_endian_bytes() {
    for x in [0_i64, -1, i64::MAX, i64::MIN, 0x0102_0304_0506_0708] {
        let mut heap = Heap { bytes: vec![0; 8] };
        let mut target = Target::new(&mut heap);
        let slot = encode(&x, &mut target) as usize;
        target.release();
        assert_eq!(&heap.bytes[slot..slot + 8], &x.to_le_bytes());
    }
}

#[test]
fn utf16_bytes_are_little_endian_units() {
    assert_eq!(utf16_le_bytes("hi"), vec![0x68, 0x00, 0x69, 0x00]);
    assert_eq!(utf16_le_bytes("€"), vec![0xAC, 0x20]);
    assert_eq!(utf16_le_bytes("😀"), vec![0x3D, 0xD8, 0x00, 0xDE]);
    assert_eq!(encode_utf16("a😀"), vec![0x61, 0xD83D, 0xDE00]);
    assert_eq!(encode_utf16("\u{FFFF}\u{10000}\u{10FFFF}"), vec![0xFFFF, 0xD800, 0xDC00, 0xDBFF, 0xDFFF]);
    assert_eq!(utf16_le_bytes(""), Vec::<u8>::new());
}

#[test]
fn encoding_agrees_with_the_standard_library() {
    for text in ["", "hi", "Grüße", "世界", "a😀b𝄞", "\u{D7FF}\u{E000}\u{FFFF}\u{10000}\u{10FFFF}"] {
        let units: Vec<u16> = text.encode_utf16().collect();
        assert_eq!(encode_utf16(text), units);
        let mut bytes = Vec::new();
        for unit in &units {
            bytes.extend_from_slice(&unit.to_le_bytes());
        }
        assert_eq!(utf16_le_bytes(text), bytes);
        assert_eq!(decode_utf16_le(&bytes), Some(String::from(text)));
    }
}

#[test]
fn invalid_utf16_fails_the_decode() {
    assert_eq!(decode_utf16_le(&[0x00, 0xD8]), None);
    assert_eq!(decode_utf16_le(&[0x00, 0xDC]), None);
    assert_eq!(decode_utf16_le(&[0x00, 0xD8, 0x61, 0x00]), None);
    assert_eq!(decode_utf16_le(&[0x00, 0xDC, 0x00, 0xD8]), None);
    assert_eq!(decode_utf16_le(&[0x61]), None);
    assert_eq!(decode_utf16_le(&[0x61, 0x00, 0x62]), None);
    assert_eq!(decode_utf16_le(&[0x3D, 0xD8, 0x00, 0xDE]), Some(String::from("😀")));
}

fn memory_with_string(text: &str) -> (Vec<u8>, i32) {
    let mut memory = vec![0_u8; 4];
    let bytes = utf16_le_bytes(text);
    memory.extend_from_slice(&(bytes.len() as i32).to_le_bytes());
    let ptr = memory.len() as i32;
    memory.extend_from_slice(&bytes);
    (memory, ptr)
}

#[test]
fn string_is_read_by_its_length_prefix() {
    let (memory, ptr) = memory_with_string("abort");
    assert_eq!(ptr, 8);
    assert_eq!(read_asc_string(&memory, ptr), Ok(String::from("abort")));
}

#[test]
fn reads_outside_memory_are_out_of_bounds() {
    let memory = vec![1_u8, 0, 0, 0, 2, 0];
    assert_eq!(read_i32(&memory, 0), Ok(1));
    assert_eq!(read_i32(&memory, 2), Ok(0x0002_0000));
    assert_eq!(read_i32(&memory, 3), Err(CallError::OutOfBounds));
    assert_eq!(read_i32(&memory, 6), Err(CallError::OutOfBounds));
    assert_eq!(read_i32(&memory, -1), Err(CallError::OutOfBounds));
    assert_eq!(read_i32(&memory, i32::MAX), Err(CallError::OutOfBounds));
    assert_eq!(read_i32(&[], 0), Err(CallError::OutOfBounds));
    assert_eq!(read_asc_string(&memory, 0), Err(CallError::OutOfBounds));
    assert_eq!(read_asc_string(&memory, 3), Err(CallError::OutOfBounds));
    assert_eq!(read_asc_string(&memory, 4), Err(CallError::Decode));
    assert_eq!(read_asc_string(&memory, 5), Err(CallError::OutOfBounds));
    assert_eq!(read_asc_string(&memory, i32::MIN), Err(CallError::OutOfBounds));
}

#[test]
fn a_length_that_runs_past_the_end_is_out_of_bounds() {
    let memory = vec![4_u8, 0, 0, 0, 0x61, 0];
    assert_eq!(read_asc_string(&memory, 4), Err(CallError::OutOfBounds));
    let negative = vec![0xFF_u8, 0xFF, 0xFF, 0xFF, 0x61, 0];
    assert_eq!(read_asc_string(&negative, 4), Err(CallError::OutOfBounds));
    let empty = vec![0_u8, 0, 0, 0];
    assert_eq!(read_asc_string(&empty, 4), Ok(String::new()));
}

#[test]
fn bad_units_in_memory_are_a_decode_error() {
    let odd = vec![1_u8, 0, 0, 0, 0x61];
    assert_eq!(read_asc_string(&odd, 4), Err(CallError::Decode));
    let lone = vec![2_u8, 0, 0, 0, 0x00, 0xD8];
    assert_eq!(read_asc_string(&lone, 4), Err(CallError::Decode));
}

#[test]
fn abort_report_holds_both_strings() {
    let (mut memory, message) = memory_with_string("index out of range");
    let bytes = utf16_le_bytes("assembly/index.ts");
    memory.extend_from_slice(&(bytes.len() as i32).to_le_bytes());
    let file = memory.len() as i32;
    memory.extend_from_slice(&bytes);
    assert_eq!(
        generate_err(&memory, message, file, 12, 5),
        Ok(GuestAbort {
            message: "index out of range".into(),
            file: "assembly/index.ts".into(),
            line: 12,
            column: 5,
        })
    );
    assert_eq!(generate_err(&memory, 0, file, 12, 5), Err(CallError::OutOfBounds));
    assert_eq!(generate_err(&memory, message, 1 << 20, 12, 5), Err(CallError::OutOfBounds));
    assert_eq!(4_i32.size(), 4);
}
