//! The schema grammar, over the tokens of the text:
//!
//! ```text
//! file   := record* end
//! record := "struct" name "{" field ( "," field )* ","? "}"
//! field  := name ":" name "?"?
//! ```
//!
//! A field's type is `i32`, `i64`, `string`, or any other name, which then refers to a
//! record. Whether such a record exists is not looked into.

use vstd::prelude::*;
use crate::definitions::{
    field_views, struct_views, Field, FieldView, KrjFile, KrjFileView, Struct, StructView, Type,
    TypeView,
};
use crate::lex::{mark_names, name_marks, tokenize, tokens, Token, TokenKind};

verus! {

/// What the parser looked for where the text went wrong.
#[derive(Debug, Clone, Copy, PartialEq, Eq, Structural)]
pub enum Expected {
    /// The word `struct`, or the end of the text.
    StructKeyword,
    StructName,
    OpenBrace,
    FieldName,
    Colon,
    FieldType,
    /// A comma before the next field, or the closing brace.
    CommaOrCloseBrace,
}

/// Malformed schema text: where it went wrong, counted in characters from the start, and
/// what was looked for there.
#[derive(Debug, Clone, Copy, PartialEq, Eq, Structural)]
pub struct ParseError {
    pub position: usize,
    pub expected: Expected,
}

/// The kind of token `k`; past the last token there is only the end.
pub open spec fn kind_at(t: Seq<Token>, k: int) -> TokenKind {
    if 0 <= k < t.len() {
        t[k].kind
    } else {
        TokenKind::End
    }
}

/// Where token `k` starts.
pub open spec fn start_at(t: Seq<Token>, k: int) -> usize {
    if 0 <= k < t.len() {
        t[k].start
    } else {
        0
    }
}

/// The characters of token `k`; none for a token that does not lie inside the text.
pub open spec fn text_at(s: Seq<char>, t: Seq<Token>, k: int) -> Seq<char> {
    if 0 <= k < t.len() && t[k].start <= t[k].end <= s.len() {
        s.subrange(t[k].start as int, t[k].end as int)
    } else {
        Seq::empty()
    }
}

/// The failure to find `expected` at token `k`.
pub open spec fn wanted<T>(t: Seq<Token>, k: int, expected: Expected) -> Result<T, ParseError> {
    Err(ParseError { position: start_at(t, k), expected })
}

/// The type that a name stands for: one of the three built-in ones, else a record.
pub open spec fn named_type(name: Seq<char>) -> TypeView {
    if name == "i32"@ {
        TypeView::I32
    } else if name == "i64"@ {
        TypeView::I64
    } else if name == "string"@ {
        TypeView::String
    } else {
        TypeView::Other(name)
    }
}

/// The field that starts at token `k`, and the token after it.
pub open spec fn field_at(s: Seq<char>, t: Seq<Token>, k: int) -> Result<
    (FieldView, int),
    ParseError,
> {
    if kind_at(t, k) != TokenKind::Name {
        wanted(t, k, Expected::FieldName)
    } else if kind_at(t, k + 1) != TokenKind::Colon {
        wanted(t, k + 1, Expected::Colon)
    } else if kind_at(t, k + 2) != TokenKind::Name {
        wanted(t, k + 2, Expected::FieldType)
    } else {
        let optional = kind_at(t, k + 3) == TokenKind::Question;
        Ok(
            (
                FieldView {
                    name: text_at(s, t, k),
                    ty: named_type(text_at(s, t, k + 2)),
                    optional,
                },
                if optional {
                    k + 4
                } else {
                    k + 3
                },
            ),
        )
    }
}

/// The fields from token `k` up to the closing brace, after the fields `done`, and the
/// token after the brace. There is at least one field; a comma may follow the last.
pub open spec fn fields_at(s: Seq<char>, t: Seq<Token>, k: int, done: Seq<FieldView>) -> Result<
    (Seq<FieldView>, int),
    ParseError,
>
    decreases t.len() - k,
{
    match field_at(s, t, k) {
        Err(e) => Err(e),
        Ok((field, after)) => {
            let fields = done.push(field);
            if kind_at(t, after) == TokenKind::CloseBrace {
                Ok((fields, after + 1))
            } else if kind_at(t, after) == TokenKind::Comma {
                if kind_at(t, after + 1) == TokenKind::CloseBrace {
                    Ok((fields, after + 2))
                } else {
                    fields_at(s, t, after + 1, fields)
                }
            } else {
                wanted(t, after, Expected::CommaOrCloseBrace)
            }
        },
    }
}

/// The record that starts at token `k`, and the token after it.
pub open spec fn struct_at(s: Seq<char>, t: Seq<Token>, k: int) -> Result<
    (StructView, int),
    ParseError,
> {
    if !(kind_at(t, k) == TokenKind::Name && text_at(s, t, k) == "struct"@) {
        wanted(t, k, Expected::StructKeyword)
    } else if kind_at(t, k + 1) != TokenKind::Name {
        wanted(t, k + 1, Expected::StructName)
    } else if kind_at(t, k + 2) != TokenKind::OpenBrace {
        wanted(t, k + 2, Expected::OpenBrace)
    } else {
        match fields_at(s, t, k + 3, Seq::empty()) {
            Err(e) => Err(e),
            Ok((fields, after)) => Ok((StructView { name: text_at(s, t, k + 1), fields }, after)),
        }
    }
}

/// The records from token `k` up to the end of the text, after the records `done`.
pub open spec fn structs_at(s: Seq<char>, t: Seq<Token>, k: int, done: Seq<StructView>) -> Result<
    Seq<StructView>,
    ParseError,
>
    decreases t.len() - k,
{
    if kind_at(t, k) == TokenKind::End {
        Ok(done)
    } else {
        match struct_at(s, t, k) {
            Err(e) => Err(e),
            Ok((record, after)) => {
                proof {
                    lemma_fields_advance(s, t, k + 3, Seq::empty());
                }
                structs_at(s, t, after, done.push(record))
            },
        }
    }
}

/// What the tokens `t` of the text `s` mean: the file they describe, or the first place
/// where they are not a schema.
pub open spec fn parsed_tokens(s: Seq<char>, t: Seq<Token>) -> Result<KrjFileView, ParseError> {
    match structs_at(s, t, 0, Seq::empty()) {
        Ok(structs) => Ok(KrjFileView { structs }),
        Err(e) => Err(e),
    }
}

/// What schema text means: the file it describes, or the first place where it is not a
/// schema.
pub open spec fn parsed(s: Seq<char>) -> Result<KrjFileView, ParseError> {
    parsed_tokens(s, tokens(s, name_marks(s)))
}

/// A list of fields that parses ends after its start and inside the tokens.
pub proof fn lemma_fields_advance(s: Seq<char>, t: Seq<Token>, k: int, done: Seq<FieldView>)
    ensures
        fields_at(s, t, k, done) matches Ok((fields, after)) ==> k < after <= t.len()
            && fields.len() > done.len(),
    decreases t.len() - k,
{
    if let Ok((field, after)) = field_at(s, t, k) {
        if kind_at(t, after) == TokenKind::Comma && kind_at(t, after + 1) != TokenKind::CloseBrace {
            lemma_fields_advance(s, t, after + 1, done.push(field));
        }
    }
}

/// The kind of token `k`.
fn kind(toks: &[Token], k: usize) -> (found: TokenKind)
    ensures
        found == kind_at(toks@, k as int),
{
    if k < toks.len() {
        toks[k].kind
    } else {
        TokenKind::End
    }
}

/// The failure to find `expected` at token `k`.
fn fail<T>(toks: &[Token], k: usize, expected: Expected) -> (r: Result<T, ParseError>)
    ensures
        r == wanted::<T>(toks@, k as int, expected),
{
    let position = if k < toks.len() {
        toks[k].start
    } else {
        0
    };
    Err(ParseError { position, expected })
}

/// Whether token `k`, a name, spells `word`.
#[verifier::loop_isolation(false)]
fn is_word(chars: &[char], toks: &[Token], k: usize, word: &str) -> (same: bool)
    ensures
        same == (text_at(chars@, toks@, k as int) == word@),
{
    let len = word.unicode_len();
    let ghost text = text_at(chars@, toks@, k as int);
    if !(k < toks.len() && toks[k].start <= toks[k].end && toks[k].end <= chars.len()) {
        assert(text =~= Seq::<char>::empty());
        assert(len == 0 ==> word@ =~= Seq::<char>::empty());
        return len == 0;
    }
    let from = toks[k].start;
    let to = toks[k].end;
    if to - from != len {
        assert(text.len() != word@.len());
        return false;
    }
    let mut i: usize = 0;
    while i < len
        invariant
            from + len == to <= chars.len(),
            len == word@.len(),
            text == chars@.subrange(from as int, to as int),
            i <= len,
            forall|j: int| 0 <= j < i ==> text[j] == word@[j],
        decreases len - i,
    {
        let here = chars[from + i];
        let there = word.get_char(i);
        if !(here == there) {
            assert(text[i as int] == here);
            assert(word@[i as int] == there);
            return false;
        }
        i = i + 1;
    }
    assert(text =~= word@);
    true
}

/// The name that token `k` spells.
fn ident(chars: &[char], toks: &[Token], k: usize) -> (name: String)
    ensures
        name@ == text_at(chars@, toks@, k as int),
{
    let mut name = String::new();
    if !(k < toks.len() && toks[k].start <= toks[k].end && toks[k].end <= chars.len()) {
        return name;
    }
    let from = toks[k].start;
    let to = toks[k].end;
    let mut i: usize = from;
    while i < to
        invariant
            from <= i <= to <= chars.len(),
            name@ == chars@.subrange(from as int, i as int),
        decreases to - i,
    {
        name.push(chars[i]);
        i = i + 1;
        assert(name@ =~= chars@.subrange(from as int, i as int));
    }
    name
}

/// The type that token `k`, a name, stands for.
fn field_type(chars: &[char], toks: &[Token], k: usize) -> (ty: Type)
    ensures
        ty@ == named_type(text_at(chars@, toks@, k as int)),
{
    if is_word(chars, toks, k, "i32") {
        Type::I32
    } else if is_word(chars, toks, k, "i64") {
        Type::I64
    } else if is_word(chars, toks, k, "string") {
        Type::String
    } else {
        Type::Other(ident(chars, toks, k))
    }
}

/// The field that starts at token `k`, and the token after it.
fn field_def(chars: &[char], toks: &[Token], k: usize) -> (r: Result<(Field, usize), ParseError>)
    ensures
        match field_at(chars@, toks@, k as int) {
            Ok((field, after)) => r matches Ok((found, next)) && found@ == field && next == after,
            Err(e) => r matches Err(found) && found == e,
        },
{
    if !(kind(toks, k) == TokenKind::Name) {
        return fail(toks, k, Expected::FieldName);
    }
    assert(k < toks.len());
    if !(kind(toks, k + 1) == TokenKind::Colon) {
        return fail(toks, k + 1, Expected::Colon);
    }
    assert(k + 1 < toks.len());
    if !(kind(toks, k + 2) == TokenKind::Name) {
        return fail(toks, k + 2, Expected::FieldType);
    }
    assert(k + 2 < toks.len());
    let optional = kind(toks, k + 3) == TokenKind::Question;
    let field = Field { name: ident(chars, toks, k), ty: field_type(chars, toks, k + 2), optional };
    Ok((field, if optional { k + 4 } else { k + 3 }))
}

/// The record that starts at token `k`, and the token after it.
#[verifier::loop_isolation(false)]
fn struct_def(chars: &[char], toks: &[Token], k: usize) -> (r: Result<(Struct, usize), ParseError>)
    ensures
        match struct_at(chars@, toks@, k as int) {
            Ok((record, after)) => r matches Ok((found, next)) && found@ == record && next
                == after,
            Err(e) => r matches Err(found) && found == e,
        },
{
    if !(kind(toks, k) == TokenKind::Name && is_word(chars, toks, k, "struct")) {
        return fail(toks, k, Expected::StructKeyword);
    }
    assert(k < toks.len());
    if !(kind(toks, k + 1) == TokenKind::Name) {
        return fail(toks, k + 1, Expected::StructName);
    }
    assert(k + 1 < toks.len());
    if !(kind(toks, k + 2) == TokenKind::OpenBrace) {
        return fail(toks, k + 2, Expected::OpenBrace);
    }
    assert(k + 2 < toks.len());
    let name = ident(chars, toks, k + 1);
    let mut fields: Vec<Field> = Vec::new();
    let mut at: usize = k + 3;
    let ghost whole = fields_at(chars@, toks@, k as int + 3, Seq::empty());
    assert(field_views(fields@) =~= Seq::empty());
    loop
        invariant
            at <= toks.len(),
            whole == fields_at(chars@, toks@, at as int, field_views(fields@)),
        decreases toks.len() - at,
    {
        let (field, after) = match field_def(chars, toks, at) {
            Ok(found) => found,
            Err(e) => {
                return Err(e);
            },
        };
        proof {
            assert(field_views(fields@).push(field@) =~= field_views(fields@.push(field)));
        }
        fields.push(field);
        let next = kind(toks, after);
        if next == TokenKind::CloseBrace {
            return Ok((Struct { name, fields }, after + 1));
        }
        if !(next == TokenKind::Comma) {
            return fail(toks, after, Expected::CommaOrCloseBrace);
        }
        if kind(toks, after + 1) == TokenKind::CloseBrace {
            return Ok((Struct { name, fields }, after + 2));
        }
        at = after + 1;
    }
}

/// The characters of `s`, in order.
fn chars_of(s: &str) -> (chars: Vec<char>)
    ensures
        chars@ == s@,
{
    let mut chars: Vec<char> = Vec::new();
    for c in it: s.chars()
        invariant
            it.seq() == s@,
            chars@ == s@.take(it.index() as int),
    {
        chars.push(c);
        assert(chars@ =~= s@.take(it.index() + 1));
    }
    assert(s@.take(s@.len() as int) =~= s@);
    chars
}

/// Reads the tokens `toks` of the text `chars`. Gives the file that they describe, or
/// tells where they stop being a schema and what was looked for there.
#[verifier::loop_isolation(false)]
pub fn parse_tokens(chars: &[char], toks: &[Token]) -> (r: Result<KrjFile, ParseError>)
    ensures
        match parsed_tokens(chars@, toks@) {
            Ok(file) => r matches Ok(found) && found@ == file,
            Err(e) => r matches Err(found) && found == e,
        },
{
    let mut structs: Vec<Struct> = Vec::new();
    let mut at: usize = 0;
    let ghost whole = structs_at(chars@, toks@, 0, Seq::empty());
    assert(struct_views(structs@) =~= Seq::empty());
    while !(kind(toks, at) == TokenKind::End)
        invariant
            whole == structs_at(chars@, toks@, at as int, struct_views(structs@)),
        decreases toks.len() - at,
    {
        let (record, after) = match struct_def(chars, toks, at) {
            Ok(found) => found,
            Err(e) => {
                return Err(e);
            },
        };
        proof {
            lemma_fields_advance(chars@, toks@, at as int + 3, Seq::empty());
            assert(struct_views(structs@).push(record@) =~= struct_views(structs@.push(record)));
        }
        structs.push(record);
        at = after;
    }
    Ok(KrjFile { structs })
}

/// Reads schema text. Gives the file that the text describes, or tells where the text
/// stops being a schema and what was looked for there.
pub fn parse(s: &str) -> (r: Result<KrjFile, ParseError>)
    ensures
        match parsed(s@) {
            Ok(file) => r matches Ok(found) && found@ == file,
            Err(e) => r matches Err(found) && found == e,
        },
{
    let chars = chars_of(s);
    let marks = mark_names(chars.as_slice());
    let toks = tokenize(chars.as_slice(), marks.as_slice());
    parse_tokens(chars.as_slice(), toks.as_slice())
}

} // verus!
