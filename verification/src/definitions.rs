//! The schema as data: a file of records, each an ordered list of typed fields.

use vstd::prelude::*;

verus! {

/// The declared type of a field.
#[derive(Debug, PartialEq)]
pub enum Type {
    /// A reference to another record, by name.
    Other(String),
    String,
    I32,
    I64,
}

/// One field of a record.
#[derive(Debug, PartialEq)]
pub struct Field {
    pub name: String,
    pub ty: Type,
    /// Optionality changes how a value is written, never the declared type.
    pub optional: bool,
}

/// One record: a name and its fields in declaration order.
#[derive(Debug, PartialEq)]
pub struct Struct {
    pub name: String,
    pub fields: Vec<Field>,
}

/// A whole schema file: its records in declaration order.
#[derive(Debug, PartialEq)]
pub struct KrjFile {
    pub structs: Vec<Struct>,
}

/// Mathematical model of [`Type`].
pub enum TypeView {
    Other(Seq<char>),
    String,
    I32,
    I64,
}

/// Mathematical model of [`Field`].
pub struct FieldView {
    pub name: Seq<char>,
    pub ty: TypeView,
    pub optional: bool,
}

/// Mathematical model of [`Struct`].
pub struct StructView {
    pub name: Seq<char>,
    pub fields: Seq<FieldView>,
}

/// Mathematical model of [`KrjFile`].
pub struct KrjFileView {
    pub structs: Seq<StructView>,
}

impl View for Type {
    type V = TypeView;

    open spec fn view(&self) -> TypeView {
        match self {
            Type::Other(name) => TypeView::Other(name@),
            Type::String => TypeView::String,
            Type::I32 => TypeView::I32,
            Type::I64 => TypeView::I64,
        }
    }
}

impl View for Field {
    type V = FieldView;

    open spec fn view(&self) -> FieldView {
        FieldView { name: self.name@, ty: self.ty@, optional: self.optional }
    }
}

/// The models of a list of fields, in order.
pub open spec fn field_views(fields: Seq<Field>) -> Seq<FieldView> {
    Seq::new(fields.len(), |i: int| fields[i]@)
}

/// The models of a list of records, in order.
pub open spec fn struct_views(structs: Seq<Struct>) -> Seq<StructView> {
    Seq::new(structs.len(), |i: int| structs[i]@)
}

impl View for Struct {
    type V = StructView;

    open spec fn view(&self) -> StructView {
        StructView { name: self.name@, fields: field_views(self.fields@) }
    }
}

impl View for KrjFile {
    type V = KrjFileView;

    open spec fn view(&self) -> KrjFileView {
        KrjFileView { structs: struct_views(self.structs@) }
    }
}

/// Width in bytes of the slot that a field of type `ty` occupies inside its record's block:
/// eight for a 64-bit integer, four for everything else (32-bit integers and addresses).
pub open spec fn slot_size(ty: TypeView) -> int {
    match ty {
        TypeView::I64 => 8,
        _ => 4,
    }
}

/// Distance in bytes from the start of a record's block to the slot of field `k`:
/// the widths of all the fields before it, added up.
pub open spec fn field_offset(fields: Seq<FieldView>, k: int) -> int
    decreases k,
{
    if k <= 0 {
        0
    } else {
        field_offset(fields, k - 1) + slot_size(fields[k - 1].ty)
    }
}

/// Size in bytes of the block that holds one record: the offset just past its last field.
pub open spec fn block_size(fields: Seq<FieldView>) -> int {
    field_offset(fields, fields.len() as int)
}

/// The first field sits at the start of the block, and every later field starts where the
/// one before it ends; a slot is eight bytes wide for a 64-bit integer and four otherwise.
pub proof fn lemma_offset_law(fields: Seq<FieldView>, k: int)
    requires
        0 <= k < fields.len(),
    ensures
        field_offset(fields, 0) == 0,
        field_offset(fields, k + 1) == field_offset(fields, k) + slot_size(fields[k].ty),
        slot_size(fields[k].ty) == (if fields[k].ty is I64 { 8int } else { 4int }),
{
}

/// Offsets never decrease, and a block of `n` fields is between `4 * n` and `8 * n` bytes.
pub proof fn lemma_offset_bounds(fields: Seq<FieldView>, k: int)
    requires
        0 <= k <= fields.len(),
    ensures
        4 * k <= field_offset(fields, k) <= 8 * k,
        field_offset(fields, k) <= block_size(fields),
    decreases fields.len() - k,
{
    lemma_offset_prefix_bounds(fields, k);
    if k < fields.len() {
        lemma_offset_bounds(fields, k + 1);
    }
}

proof fn lemma_offset_prefix_bounds(fields: Seq<FieldView>, k: int)
    requires
        0 <= k,
    ensures
        4 * k <= field_offset(fields, k) <= 8 * k,
    decreases k,
{
    if k > 0 {
        lemma_offset_prefix_bounds(fields, k - 1);
    }
}

impl Type {
    /// Width in bytes of a slot of this type.
    pub fn slot_size(&self) -> (n: i32)
        ensures
            n == slot_size(self@),
    {
        match self {
            Type::I64 => 8,
            _ => 4,
        }
    }
}

impl Struct {
    /// Offset of field `k` inside the record's block, or of the block's end for
    /// `k == fields.len()`. `None` when `k` is past the end or the offset does not fit the
    /// 32-bit address type.
    pub fn field_offset(&self, k: usize) -> (r: Option<i32>)
        ensures
            r is Some <==> k <= self.fields.len() && field_offset(self@.fields, k as int)
                <= i32::MAX,
            r matches Some(n) ==> n == field_offset(self@.fields, k as int),
    {
        if k > self.fields.len() {
            return None;
        }
        let mut offset: i32 = 0;
        let mut i: usize = 0;
        while i < k
            invariant
                i <= k <= self.fields.len(),
                offset == field_offset(self@.fields, i as int),
            decreases k - i,
        {
            let width = self.fields[i].ty.slot_size();
            assert(self@.fields[i as int] == self.fields@[i as int]@);
            if offset > i32::MAX - width {
                proof {
                    lemma_offset_monotone(self@.fields, i as int + 1, k as int);
                }
                return None;
            }
            offset = offset + width;
            i = i + 1;
        }
        Some(offset)
    }

    /// Size in bytes of the block that holds one value of this record, `None` when it does
    /// not fit the 32-bit address type.
    pub fn block_size(&self) -> (r: Option<i32>)
        ensures
            r is Some <==> block_size(self@.fields) <= i32::MAX,
            r matches Some(n) ==> n == block_size(self@.fields),
    {
        self.field_offset(self.fields.len())
    }
}

/// A later field never starts before an earlier one.
pub proof fn lemma_offset_monotone(fields: Seq<FieldView>, j: int, k: int)
    requires
        0 <= j <= k,
    ensures
        field_offset(fields, j) <= field_offset(fields, k),
    decreases k - j,
{
    if j < k {
        lemma_offset_monotone(fields, j, k - 1);
    }
}

} // verus!
