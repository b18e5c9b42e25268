use asbind::lex::{mark_names, tokenize, Token, TokenKind};
use asbind::tg::{send_message, Polling};
use asbind::{CallError, Field, GenRust, GenWrite, KrjFile, SendMessage, Struct, Type, Update};

fn field(name: &str, ty: Type, optional: bool) -> Field {
    Field { name: name.into(), ty, optional }
}

fn mixed() -> Struct {
    Struct {
        name: "Mixed".into(),
        fields: vec![
            field("a", Type::I32, false),
            field("b", Type::I64, false),
            field("c", Type::String, true),
            field("d", Type::I64, true),
            field("e", Type::Other("Mixed".into()), false),
        ],
    }
}

#[test]
fn offsets_add_up_the_slots_before() {
    let s = mixed();
    assert_eq!(s.field_offset(0), Some(0));
    assert_eq!(s.field_offset(1), Some(4));
    assert_eq!(s.field_offset(2), Some(12));
    assert_eq!(s.field_offset(3), Some(16));
    assert_eq!(s.field_offset(4), Some(24));
    assert_eq!(s.field_offset(5), Some(28));
    assert_eq!(s.field_offset(6), None);
    assert_eq!(s.block_size(), Some(28));
    for k in 0..5 {
        let width = s.fields[k].ty.slot_size();
        assert_eq!(s.field_offset(k + 1).unwrap(), s.field_offset(k).unwrap() + width);
    }
}

#[test]
fn slots_are_eight_bytes_for_wide_integers_only() {
    assert_eq!(Type::I32.slot_size(), 4);
    assert_eq!(Type::I64.slot_size(), 8);
    assert_eq!(Type::String.slot_size(), 4);
    assert_eq!(Type::Other("X".into()).slot_size(), 4);
}

#[test]
fn empty_record_has_an_empty_block() {
    let s = Struct { name: "E".into(), fields: vec![] };
    assert_eq!(s.block_size(), Some(0));
    assert_eq!(s.gen_rust().unwrap(), "pub struct E {\n}\n");
    assert_eq!(
        s.gen_write().unwrap(),
        "impl asbind::WhatToWrite for E {\n    fn write<M: asbind::Memory>(&self, target: &mut asbind::Target<M>, ptr: i32) {\n        let block = target.allocate(0);\n        asbind::WhatToWrite::write(&block, target, ptr);\n    }\n\n    fn size(&self) -> i32 {\n        4\n    }\n}\n"
    );
}

#[test]
fn marshaling_code_carries_offsets_and_widths() {
    let text = mixed().gen_write().unwrap();
    assert!(text.contains("let block = target.allocate(28);"));
    assert!(text.contains("asbind::WhatToWrite::write(&self.a, target, block.wrapping_add(0));"));
    assert!(text.contains("asbind::WhatToWrite::write(&self.b, target, block.wrapping_add(4));"));
    assert!(text.contains("asbind::write_optional(&self.c, 4, target, block.wrapping_add(12));"));
    assert!(text.contains("asbind::write_optional(&self.d, 8, target, block.wrapping_add(16));"));
    assert!(text.contains("asbind::WhatToWrite::write(&self.e, target, block.wrapping_add(24));"));
}

#[test]
fn large_offsets_are_written_in_decimal() {
    let mut fields = Vec::new();
    for n in 0..1300 {
        fields.push(field(&format!("f{}", n), Type::I64, n % 2 == 1));
    }
    let text = Struct { name: "Big".into(), fields }.gen_write().unwrap();
    assert!(text.contains("let block = target.allocate(10400);"));
    assert!(text.contains("asbind::WhatToWrite::write(&self.f1000, target, block.wrapping_add(8000));"));
    assert!(text.contains("asbind::write_optional(&self.f1299, 8, target, block.wrapping_add(10392));"));
}

#[test]
fn types_keep_their_host_names() {
    assert_eq!(Type::I32.gen_rust().unwrap(), "i32");
    assert_eq!(Type::I64.gen_rust().unwrap(), "i64");
    assert_eq!(Type::String.gen_rust().unwrap(), "String");
    assert_eq!(Type::Other("User".into()).gen_rust().unwrap(), "User");
}

#[test]
fn records_are_joined_by_a_line_feed() {
    let file = KrjFile {
        structs: vec![
            Struct { name: "A".into(), fields: vec![field("x", Type::I32, false)] },
            Struct { name: "B".into(), fields: vec![field("a", Type::Other("A".into()), true)] },
        ],
    };
    assert_eq!(
        file.gen_rust().unwrap(),
        "pub struct A {\n    pub x: i32,\n}\n\npub struct B {\n    pub a: Option<A>,\n}\n"
    );
    let host = file.gen_host().unwrap();
    assert!(host.starts_with(&file.gen_rust().unwrap()));
    assert!(host.ends_with(&file.gen_write().unwrap()));
    assert_eq!(host.len(), file.gen_rust().unwrap().len() + 1 + file.gen_write().unwrap().len());
    assert_eq!(KrjFile { structs: vec![] }.gen_host().unwrap(), "");
}

#[test]
fn tokens_follow_the_marks() {
    let chars: Vec<char> = "a_1: é?".chars().collect();
    let marks = mark_names(&chars);
    assert_eq!(marks, vec![true, true, true, false, false, true, false]);
    let tokens = tokenize(&chars, &marks);
    assert_eq!(
        tokens,
        vec![
            Token { kind: TokenKind::Name, start: 0, end: 3 },
            Token { kind: TokenKind::Colon, start: 3, end: 4 },
            Token { kind: TokenKind::Name, start: 5, end: 6 },
            Token { kind: TokenKind::Question, start: 6, end: 7 },
            Token { kind: TokenKind::End, start: 7, end: 7 },
        ]
    );
    let unmarked = tokenize(&chars, &[]);
    assert_eq!(unmarked.len(), 7);
    assert_eq!(unmarked[0], Token { kind: TokenKind::Unknown, start: 0, end: 1 });
}

#[test]
fn marks_tell_letters_and_numbers_from_the_rest() {
    let chars: Vec<char> = "aZ09_é٣藏-+ {}:,?\n".chars().collect();
    assert_eq!(
        mark_names(&chars),
        vec![
            true, true, true, true, true, true, true, true, false, false, false, false, false,
            false, false, false, false
        ]
    );
}

#[test]
fn waits_double_up_to_a_minute() {
    let mut polling = Polling::new();
    let waits: Vec<u64> = (0..9).map(|_| polling.failed()).collect();
    assert_eq!(waits, vec![2, 4, 8, 16, 32, 60, 60, 60, 60]);
    assert_eq!(polling.errors, 9);
    polling.errors = u32::MAX;
    assert_eq!(polling.failed(), 60);
    assert_eq!(polling.errors, u32::MAX);
}

#[test]
fn offset_moves_past_every_update_seen() {
    let update = |update_id: u32| Update { update_id, message: None };
    let mut polling = Polling { offset: 5, errors: 3 };
    polling.received(&[update(9), update(2), update(7)]);
    assert_eq!(polling, Polling { offset: 10, errors: 0 });
    polling.received(&[update(1)]);
    assert_eq!(polling.offset, 10);
    polling.received(&[]);
    assert_eq!(polling.offset, 10);
    polling.received(&[update(u32::MAX - 1)]);
    assert_eq!(polling.offset, u32::MAX);
}

#[test]
fn outgoing_message_takes_its_text_from_guest_memory() {
    let memory = vec![4_u8, 0, 0, 0, 0x68, 0, 0x69, 0];
    assert_eq!(
        send_message(&memory, -42, 4),
        Ok(SendMessage { chat_id: -42, text: "hi".into() })
    );
    assert_eq!(send_message(&memory, -42, 6), Err(CallError::OutOfBounds));
}
