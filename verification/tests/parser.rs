use asbind::{parse, Expected, Field, KrjFile, ParseError, Struct, Type};

#[test]
fn smoke_test() {
    let r = parse(
        "struct Update {
                field: i32,
                field_2: i64,
                field_3: User?
            }",
    )
    .unwrap();
    assert_eq!(
        r,
        KrjFile {
            structs: vec![Struct {
                name: "Update".into(),
                fields: vec![
                    Field {
                        name: "field".into(),
                        ty: Type::I32,
                        optional: false
                    },
                    Field {
                        name: "field_2".into(),
                        ty: Type::I64,
                        optional: false
                    },
                    Field {
                        name: "field_3".into(),
                        ty: Type::Other("User".into()),
                        optional: true
                    }
                ]
            }]
        }
    )
}

#[test]
fn trailing_comma() {
    let r = parse(
        "struct Update {
                field: User?,
            }",
    )
    .unwrap();
    assert_eq!(r.structs.len(), 1);
    assert_eq!(
        r.structs[0].fields,
        vec![Field { name: "field".into(), ty: Type::Other("User".into()), optional: true }]
    );
}

fn single_int_field() -> KrjFile {
    KrjFile {
        structs: vec![Struct {
            name: "A".into(),
            fields: vec![Field { name: "f".into(), ty: Type::I32, optional: false }],
        }],
    }
}

#[test]
fn one_required_int_field() {
    assert_eq!(parse("struct A { f: i32 }"), Ok(single_int_field()));
}

#[test]
fn trailing_comma_parses_identically() {
    assert_eq!(parse("struct A { f: i32, }"), Ok(single_int_field()));
    assert_eq!(parse("struct A { f: i32, }"), parse("struct A { f: i32 }"));
}

#[test]
fn missing_colon_is_an_error() {
    assert_eq!(
        parse("struct A { f i32 }"),
        Err(ParseError { position: 13, expected: Expected::Colon })
    );
}

#[test]
fn white_space_between_tokens_means_nothing() {
    let spread = parse("\n\tstruct\r\nA{f\n:\ti32\n?\n,g:string}\n\n");
    let tight = parse("struct A{f:i32?,g:string}");
    assert_eq!(spread, tight);
    assert_eq!(
        tight,
        Ok(KrjFile {
            structs: vec![Struct {
                name: "A".into(),
                fields: vec![
                    Field { name: "f".into(), ty: Type::I32, optional: true },
                    Field { name: "g".into(), ty: Type::String, optional: false },
                ],
            }],
        })
    );
}

#[test]
fn empty_text_is_an_empty_file() {
    assert_eq!(parse(""), Ok(KrjFile { structs: vec![] }));
    assert_eq!(parse(" \n\t"), Ok(KrjFile { structs: vec![] }));
}

#[test]
fn several_records_keep_their_order() {
    let r = parse("struct A { x: i64 } struct B { a: A, b: B? }").unwrap();
    assert_eq!(r.structs.len(), 2);
    assert_eq!(r.structs[0].name, "A");
    assert_eq!(r.structs[1].name, "B");
    assert_eq!(r.structs[1].fields[0].ty, Type::Other("A".into()));
    assert_eq!(r.structs[1].fields[1].optional, true);
}

#[test]
fn a_type_is_a_whole_name() {
    let r = parse("struct A { a: i32x, b: string_list, c: My_Type }").unwrap();
    assert_eq!(r.structs[0].fields[0].ty, Type::Other("i32x".into()));
    assert_eq!(r.structs[0].fields[1].ty, Type::Other("string_list".into()));
    assert_eq!(r.structs[0].fields[2].ty, Type::Other("My_Type".into()));
}

#[test]
fn names_may_hold_letters_of_any_script() {
    let r = parse("struct Größe { знач: i32 }").unwrap();
    assert_eq!(r.structs[0].name, "Größe");
    assert_eq!(r.structs[0].fields[0].name, "знач");
}

#[test]
fn positions_count_characters() {
    assert_eq!(
        parse("struct Ä { é i32 }"),
        Err(ParseError { position: 13, expected: Expected::Colon })
    );
}

#[test]
fn every_expectation_is_reported() {
    let cases: Vec<(&str, usize, Expected)> = vec![
        ("class A { f: i32 }", 0, Expected::StructKeyword),
        ("structA { f: i32 }", 0, Expected::StructKeyword),
        ("struct A { f: i32 } ;", 20, Expected::StructKeyword),
        ("struct { f: i32 }", 7, Expected::StructName),
        ("struct A f: i32 }", 9, Expected::OpenBrace),
        ("struct A { }", 11, Expected::FieldName),
        ("struct A { , }", 11, Expected::FieldName),
        ("struct A { f: i32,, }", 18, Expected::FieldName),
        ("struct A { f = i32 }", 13, Expected::Colon),
        ("struct A { f: ? }", 14, Expected::FieldType),
        ("struct A { f: i32 g: i32 }", 18, Expected::CommaOrCloseBrace),
        ("struct A { f: i32", 17, Expected::CommaOrCloseBrace),
        ("struct A { f: i32??", 18, Expected::CommaOrCloseBrace),
    ];
    for (text, position, expected) in cases {
        assert_eq!(parse(text), Err(ParseError { position, expected }), "{}", text);
    }
}
