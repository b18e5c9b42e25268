//! The guest-side generator: for every record a class-like declaration in the guest's
//! language. Guest shapes carry no marshaling code.

use vstd::prelude::*;
use crate::definitions::{FieldView, KrjFile, Struct, StructView, Type, TypeView};
use crate::gen_rust::GenerationError;
use crate::text::{joined, push_joined};

verus! {

/// Something that has a guest-side declaration.
pub trait GenAs {
    /// The guest-side source text that stands for `self`.
    spec fn as_text(&self) -> Seq<char>;

    fn gen_as(&self) -> (r: Result<String, GenerationError>)
        ensures
            r matches Ok(text) ==> text@ == self.as_text(),
    ;
}

/// The guest-side name of a type.
pub open spec fn as_type(ty: TypeView) -> Seq<char> {
    match ty {
        TypeView::Other(name) => name,
        TypeView::String => "string"@,
        TypeView::I32 => "i32"@,
        TypeView::I64 => "i64"@,
    }
}

/// The line that declares one field; an optional field may be null and starts out null.
pub open spec fn as_field(f: FieldView) -> Seq<char> {
    "  "@ + f.name + ": "@ + as_type(f.ty) + " "@ + (if f.optional {
        " | null = null;"@
    } else {
        ""@
    }) + "\n"@
}

/// The declaration lines of `fields`, in order.
pub open spec fn as_fields(fields: Seq<FieldView>) -> Seq<char>
    decreases fields.len(),
{
    if fields.len() == 0 {
        Seq::empty()
    } else {
        as_fields(fields.drop_last()) + as_field(fields.last())
    }
}

/// The class declaration of one record.
pub open spec fn as_class(s: StructView) -> Seq<char> {
    "class "@ + s.name + " {\n"@ + as_fields(s.fields) + "}\n"@
}

/// The class declarations of `structs`, one text each.
pub open spec fn as_classes(structs: Seq<StructView>) -> Seq<Seq<char>> {
    Seq::new(structs.len(), |i: int| as_class(structs[i]))
}

impl GenAs for Type {
    open spec fn as_text(&self) -> Seq<char> {
        as_type(self@)
    }

    fn gen_as(&self) -> (r: Result<String, GenerationError>)
        ensures
            r is Ok,
    {
        let res = match self {
            Type::Other(name) => name.clone(),
            Type::String => String::from_str("string"),
            Type::I32 => String::from_str("i32"),
            Type::I64 => String::from_str("i64"),
        };
        Ok(res)
    }
}

impl GenAs for Struct {
    open spec fn as_text(&self) -> Seq<char> {
        as_class(self@)
    }

    fn gen_as(&self) -> (r: Result<String, GenerationError>)
        ensures
            r is Ok,
    {
        let mut body = String::new();
        let mut i: usize = 0;
        while i < self.fields.len()
            invariant
                i <= self.fields.len(),
                body@ == as_fields(self@.fields.take(i as int)),
            decreases self.fields.len() - i,
        {
            let f = &self.fields[i];
            let ty = f.ty.gen_as()?;
            let mut line = String::from_str("  ");
            line.append(f.name.as_str());
            line.append(": ");
            line.append(ty.as_str());
            line.append(" ");
            line.append(if f.optional { " | null = null;" } else { "" });
            line.append("\n");
            body.append(line.as_str());
            proof {
                let next = self@.fields.take(i as int + 1);
                assert(next.drop_last() =~= self@.fields.take(i as int));
                assert(next.last() == f@);
            }
            i = i + 1;
        }
        assert(self@.fields.take(self.fields.len() as int) =~= self@.fields);
        let mut res = String::from_str("class ");
        res.append(self.name.as_str());
        res.append(" {\n");
        res.append(body.as_str());
        res.append("}\n");
        Ok(res)
    }
}

impl GenAs for KrjFile {
    open spec fn as_text(&self) -> Seq<char> {
        joined(as_classes(self@.structs), "\n"@)
    }

    fn gen_as(&self) -> (r: Result<String, GenerationError>)
        ensures
            r is Ok,
    {
        let mut res = String::new();
        let mut i: usize = 0;
        while i < self.structs.len()
            invariant
                i <= self.structs.len(),
                res@ == joined(as_classes(self@.structs).take(i as int), "\n"@),
            decreases self.structs.len() - i,
        {
            let item = self.structs[i].gen_as()?;
            let ghost before = as_classes(self@.structs).take(i as int);
            push_joined(&mut res, i == 0, "\n", item.as_str(), Ghost(before));
            assert(before.push(item@) =~= as_classes(self@.structs).take(i as int + 1));
            i = i + 1;
        }
        assert(as_classes(self@.structs).take(self.structs.len() as int) =~= as_classes(
            self@.structs,
        ));
        Ok(res)
    }
}

} // verus!
