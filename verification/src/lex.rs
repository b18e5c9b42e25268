//! The tokens of schema text. White space separates tokens and means nothing else.
//!
//! Which characters names are made of is decided once, character by character, and handed
//! to the tokenizer as a list of marks, one for each character of the text.

use vstd::prelude::*;
use crate::chars::{is_alphanumeric, unicode_alphanumeric};

verus! {

/// What a token is.
#[derive(Debug, Clone, Copy, PartialEq, Eq, Structural)]
pub enum TokenKind {
    /// A run of letters, numbers and underscores, as long as it can be.
    Name,
    OpenBrace,
    CloseBrace,
    Colon,
    Comma,
    Question,
    /// Any other single character.
    Unknown,
    /// The end of the text. It is the last token of every text, and only the last.
    End,
}

/// A token and the characters it spans, `start` included and `end` not.
#[derive(Debug, Clone, Copy, PartialEq, Eq, Structural)]
pub struct Token {
    pub kind: TokenKind,
    pub start: usize,
    pub end: usize,
}

/// White space: blank, tab, carriage return and line feed.
pub open spec fn is_space(c: char) -> bool {
    c == ' ' || c == '\t' || c == '\r' || c == '\n'
}

/// The characters that names are made of: letters and numbers of any script, and the
/// underscore.
pub open spec fn is_name_char(c: char) -> bool {
    unicode_alphanumeric(c) || c == '_'
}

/// The marks of a text: for each character, whether names are made of it.
pub open spec fn name_marks(s: Seq<char>) -> Seq<bool> {
    Seq::new(s.len(), |i: int| is_name_char(s[i]))
}

/// Whether character `i` is marked as one that names are made of. A character without a
/// mark is not.
pub open spec fn marked(marks: Seq<bool>, i: int) -> bool {
    0 <= i < marks.len() && marks[i]
}

/// Where the white space that starts at `i` ends: `i` itself if there is none.
pub open spec fn spaces_end(s: Seq<char>, i: int) -> int
    decreases s.len() - i,
{
    if 0 <= i < s.len() && is_space(s[i]) {
        spaces_end(s, i + 1)
    } else {
        i
    }
}

/// Where the name that starts at `i` ends: `i` itself if there is none.
pub open spec fn name_end(s: Seq<char>, marks: Seq<bool>, i: int) -> int
    decreases s.len() - i,
{
    if 0 <= i < s.len() && marked(marks, i) {
        name_end(s, marks, i + 1)
    } else {
        i
    }
}

/// The kind of a token that is a single character.
pub open spec fn mark_kind(c: char) -> TokenKind {
    if c == '{' {
        TokenKind::OpenBrace
    } else if c == '}' {
        TokenKind::CloseBrace
    } else if c == ':' {
        TokenKind::Colon
    } else if c == ',' {
        TokenKind::Comma
    } else if c == '?' {
        TokenKind::Question
    } else {
        TokenKind::Unknown
    }
}

/// Where the token that starts at `p` ends. A name runs as far as it can; anything else
/// is one character.
pub open spec fn token_end(s: Seq<char>, marks: Seq<bool>, p: int) -> int {
    if marked(marks, p) {
        name_end(s, marks, p)
    } else {
        p + 1
    }
}

/// The token that starts at `p`, which is inside the text and not white space.
pub open spec fn token_at(s: Seq<char>, marks: Seq<bool>, p: int) -> Token {
    Token {
        kind: if marked(marks, p) {
            TokenKind::Name
        } else {
            mark_kind(s[p])
        },
        start: p as usize,
        end: token_end(s, marks, p) as usize,
    }
}

/// The tokens of the text from `i` on, the end token last.
pub open spec fn tokens_from(s: Seq<char>, marks: Seq<bool>, i: int) -> Seq<Token>
    decreases s.len() - i,
{
    let p = spaces_end(s, i);
    if 0 <= p < s.len() {
        proof {
            lemma_spaces_end(s, i);
            lemma_name_end(s, marks, p);
        }
        seq![token_at(s, marks, p)] + tokens_from(s, marks, token_end(s, marks, p))
    } else {
        seq![Token { kind: TokenKind::End, start: p as usize, end: p as usize }]
    }
}

/// The tokens of a text with the given marks, the end token last.
pub open spec fn tokens(s: Seq<char>, marks: Seq<bool>) -> Seq<Token> {
    tokens_from(s, marks, 0)
}

/// White space ends at or after its start, inside the text or at its end, at a character
/// that is not white space.
pub proof fn lemma_spaces_end(s: Seq<char>, i: int)
    requires
        0 <= i <= s.len(),
    ensures
        i <= spaces_end(s, i) <= s.len(),
        spaces_end(s, i) < s.len() ==> !is_space(s[spaces_end(s, i)]),
        forall|j: int| i <= j < spaces_end(s, i) ==> is_space(#[trigger] s[j]),
    decreases s.len() - i,
{
    if i < s.len() && is_space(s[i]) {
        lemma_spaces_end(s, i + 1);
    }
}

/// A name ends at or after its start, inside the text or at its end, at a character that
/// names are not made of; and after its start wherever a name character starts it.
pub proof fn lemma_name_end(s: Seq<char>, marks: Seq<bool>, i: int)
    requires
        0 <= i <= s.len(),
    ensures
        i <= name_end(s, marks, i) <= s.len(),
        i < s.len() && marked(marks, i) ==> i < name_end(s, marks, i),
        name_end(s, marks, i) < s.len() ==> !marked(marks, name_end(s, marks, i)),
        forall|j: int| i <= j < name_end(s, marks, i) ==> #[trigger] marked(marks, j),
    decreases s.len() - i,
{
    if i < s.len() && marked(marks, i) {
        lemma_name_end(s, marks, i + 1);
    }
}

/// Every text has at least one token, the last one marks the end, none before it does, and
/// the tokens come in the order of the text, each inside it.
pub proof fn lemma_tokens_shape(s: Seq<char>, marks: Seq<bool>, i: int)
    requires
        0 <= i <= s.len(),
        s.len() <= usize::MAX,
    ensures
        tokens_from(s, marks, i).len() >= 1,
        tokens_from(s, marks, i).last().kind == TokenKind::End,
        tokens_from(s, marks, i).last().start == s.len(),
        forall|k: int|
            0 <= k < tokens_from(s, marks, i).len() - 1 ==> {
                let t = #[trigger] tokens_from(s, marks, i)[k];
                &&& t.kind != TokenKind::End
                &&& i <= t.start < t.end <= s.len()
            },
    decreases s.len() - i,
{
    let p = spaces_end(s, i);
    lemma_spaces_end(s, i);
    if p < s.len() {
        lemma_name_end(s, marks, p);
        let rest = tokens_from(s, marks, token_end(s, marks, p));
        lemma_tokens_shape(s, marks, token_end(s, marks, p));
        let all = tokens_from(s, marks, i);
        assert(all =~= seq![token_at(s, marks, p)] + rest);
        assert forall|k: int| 0 <= k < all.len() - 1 implies {
            let t = #[trigger] all[k];
            &&& t.kind != TokenKind::End
            &&& i <= t.start < t.end <= s.len()
        } by {
            if k > 0 {
                assert(all[k] == rest[k - 1]);
            }
        }
    }
}

fn is_space_char(c: char) -> (b: bool)
    ensures
        b == is_space(c),
{
    c == ' ' || c == '\t' || c == '\r' || c == '\n'
}

fn is_marked(marks: &[bool], i: usize) -> (b: bool)
    ensures
        b == marked(marks@, i as int),
{
    i < marks.len() && marks[i]
}

/// Marks the characters that names are made of.
pub fn mark_names(chars: &[char]) -> (marks: Vec<bool>)
    ensures
        marks@ == name_marks(chars@),
{
    let mut marks: Vec<bool> = Vec::new();
    let mut i: usize = 0;
    while i < chars.len()
        invariant
            i <= chars.len(),
            marks@ == name_marks(chars@).take(i as int),
        decreases chars.len() - i,
    {
        let c = chars[i];
        marks.push(c == '_' || is_alphanumeric(c));
        i = i + 1;
        assert(marks@ =~= name_marks(chars@).take(i as int));
    }
    assert(name_marks(chars@).take(chars.len() as int) =~= name_marks(chars@));
    marks
}

/// The tokens of `chars`, the end token last. `marks` tells for each character whether
/// names are made of it.
pub fn tokenize(chars: &[char], marks: &[bool]) -> (found: Vec<Token>)
    ensures
        found@ == tokens(chars@, marks@),
        found@.len() >= 1,
        found@.last().kind == TokenKind::End,
        forall|k: int|
            0 <= k < found@.len() - 1 ==> {
                let t = #[trigger] found@[k];
                t.kind != TokenKind::End && t.start < t.end <= chars@.len()
            },
{
    proof {
        assert(chars@.len() == chars.len());
        lemma_tokens_shape(chars@, marks@, 0);
    }
    let mut found: Vec<Token> = Vec::new();
    let mut i: usize = 0;
    loop
        invariant_except_break
            tokens(chars@, marks@) == found@ + tokens_from(chars@, marks@, i as int),
        invariant
            0 <= i <= chars.len(),
        ensures
            found@ == tokens(chars@, marks@),
        decreases chars.len() - i,
    {
        let ghost from = i;
        while i < chars.len() && is_space_char(chars[i])
            invariant
                from <= i <= chars.len(),
                spaces_end(chars@, from as int) == spaces_end(chars@, i as int),
            decreases chars.len() - i,
        {
            i = i + 1;
        }
        if i >= chars.len() {
            let ghost before = found@;
            found.push(Token { kind: TokenKind::End, start: i, end: i });
            assert(found@ =~= before + tokens_from(chars@, marks@, from as int));
            break;
        }
        let start = i;
        let c = chars[i];
        let kind = if is_marked(marks, i) {
            i = i + 1;
            while i < chars.len() && is_marked(marks, i)
                invariant
                    start < i <= chars.len(),
                    name_end(chars@, marks@, start as int) == name_end(chars@, marks@, i as int),
                decreases chars.len() - i,
            {
                i = i + 1;
            }
            TokenKind::Name
        } else {
            i = i + 1;
            if c == '{' {
                TokenKind::OpenBrace
            } else if c == '}' {
                TokenKind::CloseBrace
            } else if c == ':' {
                TokenKind::Colon
            } else if c == ',' {
                TokenKind::Comma
            } else if c == '?' {
                TokenKind::Question
            } else {
                TokenKind::Unknown
            }
        };
        let ghost before = found@;
        found.push(Token { kind, start, end: i });
        proof {
            assert(found@.last() == token_at(chars@, marks@, start as int));
            assert(before + (seq![token_at(chars@, marks@, start as int)] + tokens_from(
                chars@,
                marks@,
                i as int,
            )) =~= found@ + tokens_from(chars@, marks@, i as int));
        }
    }
    found
}

} // verus!
