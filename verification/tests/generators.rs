use asbind::{Field, GenAs, GenRust, GenWrite, KrjFile, Struct, Type};

fn sample() -> KrjFile {
    KrjFile {
        structs: vec![Struct {
            name: "S1".into(),
            fields: vec![
                Field {
                    name: "field".into(),
                    ty: Type::I32,
                    optional: false,
                },
                Field {
                    name: "field2".into(),
                    ty: Type::Other("S2".into()),
                    optional: true,
                },
            ],
        }],
    }
}

#[test]
fn test_gen() {
    let k = KrjFile {
        structs: vec![Struct {
            name: "S1".into(),
            fields: vec![
                Field {
                    name: "field".into(),
                    ty: Type::I32,
                    optional: false,
                },
                Field {
                    name: "field2".into(),
                    ty: Type::Other("S2".into()),
                    optional: true,
                },
            ],
        }],
    };
    assert_eq!(
        k.gen_rust().unwrap().trim(),
        r#"
pub struct S1 {
    pub field: i32,
    pub field2: Option<S2>,
}"#
        .trim()
    )
}

#[test]
fn struct_declaration_is_exact() {
    let k = sample();
    assert_eq!(
        k.structs[0].gen_rust().unwrap(),
        "pub struct S1 {\n    pub field: i32,\n    pub field2: Option<S2>,\n}\n"
    );
}

#[test]
fn guest_class_is_exact() {
    let k = sample();
    assert_eq!(
        k.gen_as().unwrap(),
        "class S1 {\n  field: i32 \n  field2: S2  | null = null;\n}\n"
    );
}

#[test]
fn marshaling_code_is_exact() {
    let k = sample();
    assert_eq!(
        k.structs[0].gen_write().unwrap(),
        "impl asbind::WhatToWrite for S1 {\n    fn write<M: asbind::Memory>(&self, target: &mut asbind::Target<M>, ptr: i32) {\n        let block = target.allocate(8);\n        asbind::WhatToWrite::write(&self.field, target, block.wrapping_add(0));\n        asbind::write_optional(&self.field2, 4, target, block.wrapping_add(4));\n        asbind::WhatToWrite::write(&block, target, ptr);\n    }\n\n    fn size(&self) -> i32 {\n        4\n    }\n}\n"
    );
}

#[test]
fn a_file_as_a_whole_is_its_complete_host_source() {
    let k = sample();
    let whole = GenRust::gen_rust(&k).unwrap();
    assert_eq!(whole, k.gen_host().unwrap());
    assert!(whole.starts_with("pub struct S1 {\n"));
    assert!(whole.ends_with("    fn size(&self) -> i32 {\n        4\n    }\n}\n"));
    assert_eq!(
        whole,
        format!("{}\n{}", k.gen_rust().unwrap(), k.structs[0].gen_write().unwrap())
    );
}
