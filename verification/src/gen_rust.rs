//! The host-side generator: for every record an aggregate declaration and the code that
//! writes a value of it into guest memory.

use vstd::prelude::*;
use crate::definitions::{
    block_size, field_offset, lemma_offset_bounds, slot_size, FieldView, KrjFile, Struct,
    StructView, Type, TypeView,
};
use crate::text::{decimal, joined, push_decimal, push_joined};

verus! {

/// Why a generator gave up. Nothing is emitted when it does.
#[derive(Debug, Clone, Copy, PartialEq, Eq, Structural)]
pub enum GenerationError {
    /// The block of some record is larger than a 32-bit address can span.
    BlockTooLarge,
}

/// Something that has a host-side declaration.
pub trait GenRust {
    /// The host-side source text that stands for `self`.
    spec fn rust_text(&self) -> Seq<char>;

    fn gen_rust(&self) -> (r: Result<String, GenerationError>)
        ensures
            r matches Ok(text) ==> text@ == self.rust_text(),
    ;
}

/// Something that has host-side marshaling code.
pub trait GenWrite {
    /// Whether marshaling code can be emitted for `self`.
    spec fn can_write(&self) -> bool;

    /// The source text of the marshaling code of `self`.
    spec fn write_text(&self) -> Seq<char>;

    fn gen_write(&self) -> (r: Result<String, GenerationError>)
        ensures
            r is Ok <==> self.can_write(),
            r matches Ok(text) ==> text@ == self.write_text(),
    ;
}

/// The host-side name of a type.
pub open spec fn rust_type(ty: TypeView) -> Seq<char> {
    match ty {
        TypeView::Other(name) => name,
        TypeView::String => "String"@,
        TypeView::I32 => "i32"@,
        TypeView::I64 => "i64"@,
    }
}

/// The line that declares one field; an optional field is wrapped in `Option`.
pub open spec fn rust_field(f: FieldView) -> Seq<char> {
    if f.optional {
        "    pub "@ + f.name + ": "@ + "Option<"@ + rust_type(f.ty) + ">,\n"@
    } else {
        "    pub "@ + f.name + ": "@ + rust_type(f.ty) + ",\n"@
    }
}

/// The declaration lines of `fields`, in order.
pub open spec fn rust_fields(fields: Seq<FieldView>) -> Seq<char>
    decreases fields.len(),
{
    if fields.len() == 0 {
        Seq::empty()
    } else {
        rust_fields(fields.drop_last()) + rust_field(fields.last())
    }
}

/// The aggregate declaration of one record.
pub open spec fn rust_struct(s: StructView) -> Seq<char> {
    "pub struct "@ + s.name + " {\n"@ + rust_fields(s.fields) + "}\n"@
}

/// The aggregate declarations of `structs`, one text each.
pub open spec fn rust_structs(structs: Seq<StructView>) -> Seq<Seq<char>> {
    Seq::new(structs.len(), |i: int| rust_struct(structs[i]))
}

/// The line that writes one field into its slot, `offset` bytes into the block. A required
/// field writes itself; an optional one goes through `write_optional` with its slot's width.
pub open spec fn write_line(f: FieldView, offset: int) -> Seq<char> {
    if f.optional {
        "        asbind::write_optional(&self."@ + f.name + ", "@ + decimal(slot_size(f.ty) as nat)
            + ", target, block.wrapping_add("@ + decimal(offset as nat) + "));\n"@
    } else {
        "        asbind::WhatToWrite::write(&self."@ + f.name + ", target, block.wrapping_add("@
            + decimal(offset as nat) + "));\n"@
    }
}

/// The lines that write the first `n` fields, each at its offset.
pub open spec fn write_lines(fields: Seq<FieldView>, n: int) -> Seq<char>
    decreases n,
{
    if n <= 0 {
        Seq::empty()
    } else {
        write_lines(fields, n - 1) + write_line(fields[n - 1], field_offset(fields, n - 1))
    }
}

/// The marshaling code of one record: allocate the block, write every field at its offset,
/// then store the block's address in the record's own four-byte slot.
pub open spec fn write_impl(s: StructView) -> Seq<char> {
    "impl asbind::WhatToWrite for "@ + s.name + " {\n"@
        + "    fn write<M: asbind::Memory>(&self, target: &mut asbind::Target<M>, ptr: i32) {\n"@
        + "        let block = target.allocate("@ + decimal(block_size(s.fields) as nat) + ");\n"@
        + write_lines(s.fields, s.fields.len() as int)
        + "        asbind::WhatToWrite::write(&block, target, ptr);\n"@
        + "    }\n\n    fn size(&self) -> i32 {\n        4\n    }\n}\n"@
}

/// The marshaling code of `structs`, one text each.
pub open spec fn write_impls(structs: Seq<StructView>) -> Seq<Seq<char>> {
    Seq::new(structs.len(), |i: int| write_impl(structs[i]))
}

/// Whether every record's block fits a 32-bit address.
pub open spec fn blocks_fit(structs: Seq<StructView>) -> bool {
    forall|i: int| 0 <= i < structs.len() ==> block_size(#[trigger] structs[i].fields) <= i32::MAX
}

impl GenRust for Type {
    open spec fn rust_text(&self) -> Seq<char> {
        rust_type(self@)
    }

    fn gen_rust(&self) -> (r: Result<String, GenerationError>)
        ensures
            r is Ok,
    {
        let text = match self {
            Type::Other(name) => name.clone(),
            Type::String => String::from_str("String"),
            Type::I32 => String::from_str("i32"),
            Type::I64 => String::from_str("i64"),
        };
        Ok(text)
    }
}

impl GenRust for Struct {
    open spec fn rust_text(&self) -> Seq<char> {
        rust_struct(self@)
    }

    fn gen_rust(&self) -> (r: Result<String, GenerationError>)
        ensures
            r is Ok,
    {
        let mut body = String::new();
        let mut i: usize = 0;
        while i < self.fields.len()
            invariant
                i <= self.fields.len(),
                body@ == rust_fields(self@.fields.take(i as int)),
            decreases self.fields.len() - i,
        {
            let f = &self.fields[i];
            let ty = f.ty.gen_rust()?;
            let mut line = String::from_str("    pub ");
            line.append(f.name.as_str());
            line.append(": ");
            if f.optional {
                line.append("Option<");
                line.append(ty.as_str());
                line.append(">,\n");
            } else {
                line.append(ty.as_str());
                line.append(",\n");
            }
            body.append(line.as_str());
            proof {
                let next = self@.fields.take(i as int + 1);
                assert(next.drop_last() =~= self@.fields.take(i as int));
                assert(next.last() == f@);
            }
            i = i + 1;
        }
        assert(self@.fields.take(self.fields.len() as int) =~= self@.fields);
        let mut res = String::from_str("pub struct ");
        res.append(self.name.as_str());
        res.append(" {\n");
        res.append(body.as_str());
        res.append("}\n");
        Ok(res)
    }
}

impl GenWrite for Struct {
    open spec fn can_write(&self) -> bool {
        block_size(self@.fields) <= i32::MAX
    }

    open spec fn write_text(&self) -> Seq<char> {
        write_impl(self@)
    }

    fn gen_write(&self) -> (r: Result<String, GenerationError>)
        ensures
            r is Err ==> r == Err::<String, GenerationError>(GenerationError::BlockTooLarge),
    {
        let block = match self.block_size() {
            Some(block) => block,
            None => {
                return Err(GenerationError::BlockTooLarge);
            },
        };
        let mut lines = String::new();
        let mut offset: i32 = 0;
        let mut i: usize = 0;
        while i < self.fields.len()
            invariant
                i <= self.fields.len(),
                block == block_size(self@.fields),
                offset == field_offset(self@.fields, i as int),
                lines@ == write_lines(self@.fields, i as int),
            decreases self.fields.len() - i,
        {
            let f = &self.fields[i];
            let width = f.ty.slot_size();
            proof {
                assert(self@.fields[i as int] == f@);
                lemma_offset_bounds(self@.fields, i as int);
                lemma_offset_bounds(self@.fields, i as int + 1);
            }
            let mut line = String::new();
            if f.optional {
                line.append("        asbind::write_optional(&self.");
                line.append(f.name.as_str());
                line.append(", ");
                push_decimal(&mut line, width as u32);
                line.append(", target, block.wrapping_add(");
                push_decimal(&mut line, offset as u32);
                line.append("));\n");
            } else {
                line.append("        asbind::WhatToWrite::write(&self.");
                line.append(f.name.as_str());
                line.append(", target, block.wrapping_add(");
                push_decimal(&mut line, offset as u32);
                line.append("));\n");
            }
            assert(line@ =~= write_line(f@, offset as int));
            lines.append(line.as_str());
            offset = offset + width;
            i = i + 1;
        }
        proof {
            lemma_offset_bounds(self@.fields, 0);
        }
        let mut res = String::from_str("impl asbind::WhatToWrite for ");
        res.append(self.name.as_str());
        res.append(" {\n");
        res.append("    fn write<M: asbind::Memory>(&self, target: &mut asbind::Target<M>, ptr: i32) {\n");
        res.append("        let block = target.allocate(");
        push_decimal(&mut res, block as u32);
        res.append(");\n");
        res.append(lines.as_str());
        res.append("        asbind::WhatToWrite::write(&block, target, ptr);\n");
        res.append("    }\n\n    fn size(&self) -> i32 {\n        4\n    }\n}\n");
        Ok(res)
    }
}

impl KrjFile {
    /// The aggregate declarations of every record, in schema order, one empty line apart.
    pub fn gen_rust(&self) -> (r: Result<String, GenerationError>)
        ensures
            r matches Ok(text) && text@ == joined(rust_structs(self@.structs), "\n"@),
    {
        let mut res = String::new();
        let mut i: usize = 0;
        while i < self.structs.len()
            invariant
                i <= self.structs.len(),
                res@ == joined(rust_structs(self@.structs).take(i as int), "\n"@),
            decreases self.structs.len() - i,
        {
            let item = self.structs[i].gen_rust()?;
            let ghost before = rust_structs(self@.structs).take(i as int);
            push_joined(&mut res, i == 0, "\n", item.as_str(), Ghost(before));
            assert(before.push(item@) =~= rust_structs(self@.structs).take(i as int + 1));
            i = i + 1;
        }
        assert(rust_structs(self@.structs).take(self.structs.len() as int) =~= rust_structs(
            self@.structs,
        ));
        Ok(res)
    }

    /// The complete host-side source: every aggregate declaration, then every record's
    /// marshaling code, in schema order. Fails, with nothing emitted, exactly when some
    /// record's block does not fit a 32-bit address.
    pub fn gen_host(&self) -> (r: Result<String, GenerationError>)
        ensures
            r is Ok <==> blocks_fit(self@.structs),
            r matches Ok(text) ==> text@ == joined(
                rust_structs(self@.structs) + write_impls(self@.structs),
                "\n"@,
            ),
            r matches Err(e) ==> e == GenerationError::BlockTooLarge,
    {
        let mut res = self.gen_rust()?;
        let ghost declarations = rust_structs(self@.structs);
        let mut i: usize = 0;
        while i < self.structs.len()
            invariant
                i <= self.structs.len(),
                declarations == rust_structs(self@.structs),
                res@ == joined(declarations + write_impls(self@.structs).take(i as int), "\n"@),
                forall|j: int| 0 <= j < i ==> block_size(#[trigger] self@.structs[j].fields) <= i32::MAX,
            decreases self.structs.len() - i,
        {
            let item = match self.structs[i].gen_write() {
                Ok(item) => item,
                Err(e) => {
                    assert(self@.structs[i as int] == self.structs@[i as int]@);
                    return Err(e);
                },
            };
            let ghost before = declarations + write_impls(self@.structs).take(i as int);
            push_joined(&mut res, false, "\n", item.as_str(), Ghost(before));
            assert(before.push(item@) =~= declarations + write_impls(self@.structs).take(
                i as int + 1,
            ));
            i = i + 1;
        }
        assert(write_impls(self@.structs).take(self.structs.len() as int) =~= write_impls(
            self@.structs,
        ));
        Ok(res)
    }
}

/// As a whole, a file stands for its complete host-side source: every aggregate
/// declaration, then every record's marshaling code.
impl GenRust for KrjFile {
    open spec fn rust_text(&self) -> Seq<char> {
        joined(rust_structs(self@.structs) + write_impls(self@.structs), "\n"@)
    }

    fn gen_rust(&self) -> (r: Result<String, GenerationError>)
        ensures
            r is Ok <==> blocks_fit(self@.structs),
            r matches Err(e) ==> e == GenerationError::BlockTooLarge,
    {
        self.gen_host()
    }
}

impl GenWrite for KrjFile {
    open spec fn can_write(&self) -> bool {
        blocks_fit(self@.structs)
    }

    open spec fn write_text(&self) -> Seq<char> {
        joined(write_impls(self@.structs), "\n"@)
    }

    fn gen_write(&self) -> (r: Result<String, GenerationError>)
        ensures
            r is Err ==> r == Err::<String, GenerationError>(GenerationError::BlockTooLarge),
    {
        let mut res = String::new();
        let mut i: usize = 0;
        while i < self.structs.len()
            invariant
                i <= self.structs.len(),
                res@ == joined(write_impls(self@.structs).take(i as int), "\n"@),
                forall|j: int| 0 <= j < i ==> block_size(#[trigger] self@.structs[j].fields) <= i32::MAX,
            decreases self.structs.len() - i,
        {
            let item = match self.structs[i].gen_write() {
                Ok(item) => item,
                Err(e) => {
                    assert(self@.structs[i as int] == self.structs@[i as int]@);
                    return Err(e);
                },
            };
            let ghost before = write_impls(self@.structs).take(i as int);
            push_joined(&mut res, i == 0, "\n", item.as_str(), Ghost(before));
            assert(before.push(item@) =~= write_impls(self@.structs).take(i as int + 1));
            i = i + 1;
        }
        assert(write_impls(self@.structs).take(self.structs.len() as int) =~= write_impls(
            self@.structs,
        ));
        Ok(res)
    }
}

} // verus!
