//! Source spans and the token data model.
//!
//! A token carries the half-open byte range it was matched at; the
//! value-carrying and comment variants additionally carry the exact
//! source bytes they matched (the lexeme).

use vstd::prelude::*;

verus! {

/// Half-open byte range `[start, end)` into the source buffer.
///
/// Offsets are byte offsets into the original source, not character
/// indices. This is useful for reporting errors in the code.
#[derive(Debug, Clone, Copy, PartialEq, Eq, Structural)]
pub struct SourceSpan {
    pub start: u32,
    pub end: u32,
}

impl SourceSpan {
    /// A span is well formed when it denotes a half-open range.
    pub open spec fn well_formed(self) -> bool {
        self.start <= self.end
    }

    /// Build the span `[start_index, end_index)`.
    pub fn new(start_index: usize, end_index: usize) -> (r: SourceSpan)
        requires
            start_index <= end_index,
            end_index <= u32::MAX,
        ensures
            r.start == start_index,
            r.end == end_index,
            r.well_formed(),
    {
        SourceSpan { start: start_index as u32, end: end_index as u32 }
    }
}

impl Default for SourceSpan {
    /// The empty span at the start of the source.
    fn default() -> (r: SourceSpan)
        ensures
            r.start == 0,
            r.end == 0,
    {
        SourceSpan { start: 0, end: 0 }
    }
}

/// The span covering the byte range `[a, b)`.
pub open spec fn lex_span(a: int, b: int) -> SourceSpan {
    SourceSpan { start: a as u32, end: b as u32 }
}

// Byte classes of the lexical grammar.

/// Space, tab and newline separate words and are otherwise skipped.
pub open spec fn is_space_byte(c: u8) -> bool {
    c == ' ' as u8 || c == '\t' as u8 || c == '\n' as u8
}

pub open spec fn is_digit_byte(c: u8) -> bool {
    '0' as u8 <= c && c <= '9' as u8
}

/// Bytes that may stand inside a word: alphanumeric or underscore.
/// Every other byte delimits words and forms a one-byte word of its own.
pub open spec fn is_word_byte(c: u8) -> bool {
    ||| is_digit_byte(c)
    ||| 'a' as u8 <= c && c <= 'z' as u8
    ||| 'A' as u8 <= c && c <= 'Z' as u8
    ||| c == '_' as u8
}

/// Bytes allowed in an integer literal: digits and underscores.
pub open spec fn is_int_byte(c: u8) -> bool {
    is_digit_byte(c) || c == '_' as u8
}

/// A word shaped like an integer literal: digits and underscores only,
/// and the first byte is not an underscore.
pub open spec fn int_shape(w: Seq<u8>) -> bool {
    &&& w.len() > 0
    &&& w[0] != '_' as u8
    &&& forall|k: int| 0 <= k < w.len() ==> is_int_byte(#[trigger] w[k])
}

/// A word shaped like an identifier: word bytes only.
pub open spec fn ident_shape(w: Seq<u8>) -> bool {
    &&& w.len() > 0
    &&& forall|k: int| 0 <= k < w.len() ==> is_word_byte(#[trigger] w[k])
}

/// Two slashes open a line comment.
pub open spec fn is_comment_start(s: Seq<u8>, j: int) -> bool {
    &&& 0 <= j
    &&& j + 1 < s.len()
    &&& s[j] == '/' as u8
    &&& s[j + 1] == '/' as u8
}

/// Three slashes open a documentation comment.
pub open spec fn is_doc_start(s: Seq<u8>, j: int) -> bool {
    &&& 0 <= j
    &&& j + 2 < s.len()
    &&& s[j] == '/' as u8
    &&& s[j + 1] == '/' as u8
    &&& s[j + 2] == '/' as u8
}

/// Tokens of the language.
///
/// Symbol, keyword and type-keyword variants carry only their span;
/// the comment and value variants also carry the matched lexeme.
#[derive(Debug, Clone)]
pub enum Token {
    Documentation(SourceSpan, Vec<u8>),
    Comment(SourceSpan, Vec<u8>),
    // Symbols
    Semicolon(SourceSpan),
    Colon(SourceSpan),
    Comma(SourceSpan),
    Dot(SourceSpan),
    Equal(SourceSpan),
    Plus(SourceSpan),
    Minus(SourceSpan),
    Star(SourceSpan),
    Slash(SourceSpan),
    LParenthesis(SourceSpan),
    RParenthesis(SourceSpan),
    LBracket(SourceSpan),
    RBracket(SourceSpan),
    LAngle(SourceSpan),
    RAngle(SourceSpan),
    LBrace(SourceSpan),
    RBrace(SourceSpan),
    Exclamation(SourceSpan),
    Question(SourceSpan),
    Dollar(SourceSpan),
    Hash(SourceSpan),
    // Directives
    Use(SourceSpan),
    Let(SourceSpan),
    Var(SourceSpan),
    As(SourceSpan),
    In(SourceSpan),
    Return(SourceSpan),
    Break(SourceSpan),
    Continue(SourceSpan),
    // Blocks
    Macro(SourceSpan),
    Module(SourceSpan),
    Fn(SourceSpan),
    Struct(SourceSpan),
    Enum(SourceSpan),
    Instance(SourceSpan),
    Implement(SourceSpan),
    Match(SourceSpan),
    If(SourceSpan),
    Else(SourceSpan),
    For(SourceSpan),
    While(SourceSpan),
    Loop(SourceSpan),
    // Types
    Unit(SourceSpan),
    Usize(SourceSpan),
    Int(SourceSpan),
    Flt(SourceSpan),
    Str(SourceSpan),
    I8(SourceSpan),
    U8(SourceSpan),
    I16(SourceSpan),
    U16(SourceSpan),
    I32(SourceSpan),
    U32(SourceSpan),
    I64(SourceSpan),
    U64(SourceSpan),
    F32(SourceSpan),
    F64(SourceSpan),
    // Values
    IntVal(SourceSpan, Vec<u8>),
    FltVal(SourceSpan, Vec<u8>),
    StrVal(SourceSpan, Vec<u8>),
    IdxVal(SourceSpan, Vec<u8>),
}

/// The fixed symbol, keyword and type-keyword table, as a predicate:
/// the word is matched exactly, case sensitively and whole.
pub open spec fn is_reserved_word(w: Seq<u8>) -> bool {
    ||| w == seq![';' as u8]
    ||| w == seq![':' as u8]
    ||| w == seq![',' as u8]
    ||| w == seq!['.' as u8]
    ||| w == seq!['=' as u8]
    ||| w == seq!['+' as u8]
    ||| w == seq!['-' as u8]
    ||| w == seq!['*' as u8]
    ||| w == seq!['/' as u8]
    ||| w == seq!['(' as u8]
    ||| w == seq![')' as u8]
    ||| w == seq!['[' as u8]
    ||| w == seq![']' as u8]
    ||| w == seq!['<' as u8]
    ||| w == seq!['>' as u8]
    ||| w == seq!['{' as u8]
    ||| w == seq!['}' as u8]
    ||| w == seq!['!' as u8]
    ||| w == seq!['?' as u8]
    ||| w == seq!['$' as u8]
    ||| w == seq!['#' as u8]
    ||| w == seq!['u' as u8, 's' as u8, 'e' as u8]
    ||| w == seq!['l' as u8, 'e' as u8, 't' as u8]
    ||| w == seq!['v' as u8, 'a' as u8, 'r' as u8]
    ||| w == seq!['a' as u8, 's' as u8]
    ||| w == seq!['i' as u8, 'n' as u8]
    ||| w == seq!['r' as u8, 'e' as u8, 't' as u8, 'u' as u8, 'r' as u8, 'n' as u8]
    ||| w == seq!['b' as u8, 'r' as u8, 'e' as u8, 'a' as u8, 'k' as u8]
    ||| w == seq!['c' as u8, 'o' as u8, 'n' as u8, 't' as u8, 'i' as u8, 'n' as u8, 'u' as u8, 'e' as u8]
    ||| w == seq!['m' as u8, 'a' as u8, 'c' as u8, 'r' as u8, 'o' as u8]
    ||| w == seq!['m' as u8, 'o' as u8, 'd' as u8, 'u' as u8, 'l' as u8, 'e' as u8]
    ||| w == seq!['f' as u8, 'n' as u8]
    ||| w == seq!['s' as u8, 't' as u8, 'r' as u8, 'u' as u8, 'c' as u8, 't' as u8]
    ||| w == seq!['e' as u8, 'n' as u8, 'u' as u8, 'm' as u8]
    ||| w == seq!['i' as u8, 'n' as u8, 's' as u8, 't' as u8, 'a' as u8, 'n' as u8, 'c' as u8, 'e' as u8]
    ||| w == seq!['i' as u8, 'm' as u8, 'p' as u8, 'l' as u8, 'e' as u8, 'm' as u8, 'e' as u8, 'n' as u8, 't' as u8]
    ||| w == seq!['m' as u8, 'a' as u8, 't' as u8, 'c' as u8, 'h' as u8]
    ||| w == seq!['i' as u8, 'f' as u8]
    ||| w == seq!['e' as u8, 'l' as u8, 's' as u8, 'e' as u8]
    ||| w == seq!['f' as u8, 'o' as u8, 'r' as u8]
    ||| w == seq!['w' as u8, 'h' as u8, 'i' as u8, 'l' as u8, 'e' as u8]
    ||| w == seq!['l' as u8, 'o' as u8, 'o' as u8, 'p' as u8]
    ||| w == seq!['(' as u8, ')' as u8]
    ||| w == seq!['u' as u8, 's' as u8, 'i' as u8, 'z' as u8, 'e' as u8]
    ||| w == seq!['i' as u8, 'n' as u8, 't' as u8]
    ||| w == seq!['f' as u8, 'l' as u8, 't' as u8]
    ||| w == seq!['s' as u8, 't' as u8, 'r' as u8]
    ||| w == seq!['i' as u8, '8' as u8]
    ||| w == seq!['u' as u8, '8' as u8]
    ||| w == seq!['i' as u8, '1' as u8, '6' as u8]
    ||| w == seq!['u' as u8, '1' as u8, '6' as u8]
    ||| w == seq!['i' as u8, '3' as u8, '2' as u8]
    ||| w == seq!['u' as u8, '3' as u8, '2' as u8]
    ||| w == seq!['i' as u8, '6' as u8, '4' as u8]
    ||| w == seq!['u' as u8, '6' as u8, '4' as u8]
    ||| w == seq!['f' as u8, '3' as u8, '2' as u8]
    ||| w == seq!['f' as u8, '6' as u8, '4' as u8]
}

/// The token that the lexer reports for the source range `[a, b)` of
/// `s`. For a given range produced by a scan, exactly one token
/// satisfies this relation: the table entry the word matches, or an
/// integer literal, or an identifier; a range opened by two or three
/// slashes is a comment or a documentation comment and keeps its
/// lexeme.
pub open spec fn token_at(s: Seq<u8>, a: int, b: int, t: Token) -> bool {
    let w = s.subrange(a, b);
    let sp = lex_span(a, b);
    match t {
        Token::Documentation(p, lex) => p == sp && lex@ == w && is_doc_start(s, a),
        Token::Comment(p, lex) => p == sp && lex@ == w && is_comment_start(s, a)
            && !is_doc_start(s, a),
        Token::Semicolon(p) => p == sp && w == seq![';' as u8],
        Token::Colon(p) => p == sp && w == seq![':' as u8],
        Token::Comma(p) => p == sp && w == seq![',' as u8],
        Token::Dot(p) => p == sp && w == seq!['.' as u8],
        Token::Equal(p) => p == sp && w == seq!['=' as u8],
        Token::Plus(p) => p == sp && w == seq!['+' as u8],
        Token::Minus(p) => p == sp && w == seq!['-' as u8],
        Token::Star(p) => p == sp && w == seq!['*' as u8],
        Token::Slash(p) => p == sp && w == seq!['/' as u8],
        Token::LParenthesis(p) => p == sp && w == seq!['(' as u8],
        Token::RParenthesis(p) => p == sp && w == seq![')' as u8],
        Token::LBracket(p) => p == sp && w == seq!['[' as u8],
        Token::RBracket(p) => p == sp && w == seq![']' as u8],
        Token::LAngle(p) => p == sp && w == seq!['<' as u8],
        Token::RAngle(p) => p == sp && w == seq!['>' as u8],
        Token::LBrace(p) => p == sp && w == seq!['{' as u8],
        Token::RBrace(p) => p == sp && w == seq!['}' as u8],
        Token::Exclamation(p) => p == sp && w == seq!['!' as u8],
        Token::Question(p) => p == sp && w == seq!['?' as u8],
        Token::Dollar(p) => p == sp && w == seq!['$' as u8],
        Token::Hash(p) => p == sp && w == seq!['#' as u8],
        Token::Use(p) => p == sp && w == seq!['u' as u8, 's' as u8, 'e' as u8],
        Token::Let(p) => p == sp && w == seq!['l' as u8, 'e' as u8, 't' as u8],
        Token::Var(p) => p == sp && w == seq!['v' as u8, 'a' as u8, 'r' as u8],
        Token::As(p) => p == sp && w == seq!['a' as u8, 's' as u8],
        Token::In(p) => p == sp && w == seq!['i' as u8, 'n' as u8],
        Token::Return(p) => p == sp && w == seq!['r' as u8, 'e' as u8, 't' as u8, 'u' as u8, 'r' as u8, 'n' as u8],
        Token::Break(p) => p == sp && w == seq!['b' as u8, 'r' as u8, 'e' as u8, 'a' as u8, 'k' as u8],
        Token::Continue(p) => p == sp && w == seq!['c' as u8, 'o' as u8, 'n' as u8, 't' as u8, 'i' as u8, 'n' as u8, 'u' as u8, 'e' as u8],
        Token::Macro(p) => p == sp && w == seq!['m' as u8, 'a' as u8, 'c' as u8, 'r' as u8, 'o' as u8],
        Token::Module(p) => p == sp && w == seq!['m' as u8, 'o' as u8, 'd' as u8, 'u' as u8, 'l' as u8, 'e' as u8],
        Token::Fn(p) => p == sp && w == seq!['f' as u8, 'n' as u8],
        Token::Struct(p) => p == sp && w == seq!['s' as u8, 't' as u8, 'r' as u8, 'u' as u8, 'c' as u8, 't' as u8],
        Token::Enum(p) => p == sp && w == seq!['e' as u8, 'n' as u8, 'u' as u8, 'm' as u8],
        Token::Instance(p) => p == sp && w == seq!['i' as u8, 'n' as u8, 's' as u8, 't' as u8, 'a' as u8, 'n' as u8, 'c' as u8, 'e' as u8],
        Token::Implement(p) => p == sp && w == seq!['i' as u8, 'm' as u8, 'p' as u8, 'l' as u8, 'e' as u8, 'm' as u8, 'e' as u8, 'n' as u8, 't' as u8],
        Token::Match(p) => p == sp && w == seq!['m' as u8, 'a' as u8, 't' as u8, 'c' as u8, 'h' as u8],
        Token::If(p) => p == sp && w == seq!['i' as u8, 'f' as u8],
        Token::Else(p) => p == sp && w == seq!['e' as u8, 'l' as u8, 's' as u8, 'e' as u8],
        Token::For(p) => p == sp && w == seq!['f' as u8, 'o' as u8, 'r' as u8],
        Token::While(p) => p == sp && w == seq!['w' as u8, 'h' as u8, 'i' as u8, 'l' as u8, 'e' as u8],
        Token::Loop(p) => p == sp && w == seq!['l' as u8, 'o' as u8, 'o' as u8, 'p' as u8],
        Token::Unit(p) => p == sp && w == seq!['(' as u8, ')' as u8],
        Token::Usize(p) => p == sp && w == seq!['u' as u8, 's' as u8, 'i' as u8, 'z' as u8, 'e' as u8],
        Token::Int(p) => p == sp && w == seq!['i' as u8, 'n' as u8, 't' as u8],
        Token::Flt(p) => p == sp && w == seq!['f' as u8, 'l' as u8, 't' as u8],
        Token::Str(p) => p == sp && w == seq!['s' as u8, 't' as u8, 'r' as u8],
        Token::I8(p) => p == sp && w == seq!['i' as u8, '8' as u8],
        Token::U8(p) => p == sp && w == seq!['u' as u8, '8' as u8],
        Token::I16(p) => p == sp && w == seq!['i' as u8, '1' as u8, '6' as u8],
        Token::U16(p) => p == sp && w == seq!['u' as u8, '1' as u8, '6' as u8],
        Token::I32(p) => p == sp && w == seq!['i' as u8, '3' as u8, '2' as u8],
        Token::U32(p) => p == sp && w == seq!['u' as u8, '3' as u8, '2' as u8],
        Token::I64(p) => p == sp && w == seq!['i' as u8, '6' as u8, '4' as u8],
        Token::U64(p) => p == sp && w == seq!['u' as u8, '6' as u8, '4' as u8],
        Token::F32(p) => p == sp && w == seq!['f' as u8, '3' as u8, '2' as u8],
        Token::F64(p) => p == sp && w == seq!['f' as u8, '6' as u8, '4' as u8],
        Token::IntVal(p, lex) => p == sp && lex@ == w && int_shape(w),
        Token::FltVal(_p, _lex) => false,
        Token::StrVal(_p, _lex) => false,
        Token::IdxVal(p, lex) => p == sp && lex@ == w && ident_shape(w) && !int_shape(w)
            && !is_reserved_word(w),
    }
}

/// A word is classifiable when the table, the integer test or the
/// identifier test accepts it; anything else is a fatal lexing error.
pub open spec fn word_classifiable(w: Seq<u8>) -> bool {
    is_reserved_word(w) || int_shape(w) || ident_shape(w)
}

/// The span of an identifier token, if the token is one.
pub open spec fn spec_idx_val_span(t: Token) -> Option<SourceSpan> {
    match t {
        Token::IdxVal(sp, _lex) => Some(sp),
        _ => None,
    }
}

impl Token {
    /// Whether this token is the `fn` keyword.
    pub fn is_fn_keyword(&self) -> (r: bool)
        ensures
            r == (self is Fn),
    {
        match self {
            Token::Fn(_) => true,
            _ => false,
        }
    }

    /// The span of an identifier token; `None` for every other variant.
    pub fn idx_val_span(&self) -> (r: Option<SourceSpan>)
        ensures
            r == spec_idx_val_span(*self),
    {
        match self {
            Token::IdxVal(sp, _lex) => Some(*sp),
            _ => None,
        }
    }
}

} // verus!

// ---------------------------------------------------------------------
// The span a token carries.

verus! {

/// The span carried by a token, whatever its variant.
pub open spec fn spec_token_span(t: Token) -> SourceSpan {
    match t {
        Token::Documentation(sp, _) => sp,
        Token::Comment(sp, _) => sp,
        Token::Semicolon(sp) => sp,
        Token::Colon(sp) => sp,
        Token::Comma(sp) => sp,
        Token::Dot(sp) => sp,
        Token::Equal(sp) => sp,
        Token::Plus(sp) => sp,
        Token::Minus(sp) => sp,
        Token::Star(sp) => sp,
        Token::Slash(sp) => sp,
        Token::LParenthesis(sp) => sp,
        Token::RParenthesis(sp) => sp,
        Token::LBracket(sp) => sp,
        Token::RBracket(sp) => sp,
        Token::LAngle(sp) => sp,
        Token::RAngle(sp) => sp,
        Token::LBrace(sp) => sp,
        Token::RBrace(sp) => sp,
        Token::Exclamation(sp) => sp,
        Token::Question(sp) => sp,
        Token::Dollar(sp) => sp,
        Token::Hash(sp) => sp,
        Token::Use(sp) => sp,
        Token::Let(sp) => sp,
        Token::Var(sp) => sp,
        Token::As(sp) => sp,
        Token::In(sp) => sp,
        Token::Return(sp) => sp,
        Token::Break(sp) => sp,
        Token::Continue(sp) => sp,
        Token::Macro(sp) => sp,
        Token::Module(sp) => sp,
        Token::Fn(sp) => sp,
        Token::Struct(sp) => sp,
        Token::Enum(sp) => sp,
        Token::Instance(sp) => sp,
        Token::Implement(sp) => sp,
        Token::Match(sp) => sp,
        Token::If(sp) => sp,
        Token::Else(sp) => sp,
        Token::For(sp) => sp,
        Token::While(sp) => sp,
        Token::Loop(sp) => sp,
        Token::Unit(sp) => sp,
        Token::Usize(sp) => sp,
        Token::Int(sp) => sp,
        Token::Flt(sp) => sp,
        Token::Str(sp) => sp,
        Token::I8(sp) => sp,
        Token::U8(sp) => sp,
        Token::I16(sp) => sp,
        Token::U16(sp) => sp,
        Token::I32(sp) => sp,
        Token::U32(sp) => sp,
        Token::I64(sp) => sp,
        Token::U64(sp) => sp,
        Token::F32(sp) => sp,
        Token::F64(sp) => sp,
        Token::IntVal(sp, _) => sp,
        Token::FltVal(sp, _) => sp,
        Token::StrVal(sp, _) => sp,
        Token::IdxVal(sp, _) => sp,
    }
}

impl Token {
    /// The span this token was matched at.
    pub fn span(&self) -> (r: SourceSpan)
        ensures
            r == spec_token_span(*self),
    {
        match self {
            Token::Documentation(sp, _) => *sp,
            Token::Comment(sp, _) => *sp,
            Token::Semicolon(sp) => *sp,
            Token::Colon(sp) => *sp,
            Token::Comma(sp) => *sp,
            Token::Dot(sp) => *sp,
            Token::Equal(sp) => *sp,
            Token::Plus(sp) => *sp,
            Token::Minus(sp) => *sp,
            Token::Star(sp) => *sp,
            Token::Slash(sp) => *sp,
            Token::LParenthesis(sp) => *sp,
            Token::RParenthesis(sp) => *sp,
            Token::LBracket(sp) => *sp,
            Token::RBracket(sp) => *sp,
            Token::LAngle(sp) => *sp,
            Token::RAngle(sp) => *sp,
            Token::LBrace(sp) => *sp,
            Token::RBrace(sp) => *sp,
            Token::Exclamation(sp) => *sp,
            Token::Question(sp) => *sp,
            Token::Dollar(sp) => *sp,
            Token::Hash(sp) => *sp,
            Token::Use(sp) => *sp,
            Token::Let(sp) => *sp,
            Token::Var(sp) => *sp,
            Token::As(sp) => *sp,
            Token::In(sp) => *sp,
            Token::Return(sp) => *sp,
            Token::Break(sp) => *sp,
            Token::Continue(sp) => *sp,
            Token::Macro(sp) => *sp,
            Token::Module(sp) => *sp,
            Token::Fn(sp) => *sp,
            Token::Struct(sp) => *sp,
            Token::Enum(sp) => *sp,
            Token::Instance(sp) => *sp,
            Token::Implement(sp) => *sp,
            Token::Match(sp) => *sp,
            Token::If(sp) => *sp,
            Token::Else(sp) => *sp,
            Token::For(sp) => *sp,
            Token::While(sp) => *sp,
            Token::Loop(sp) => *sp,
            Token::Unit(sp) => *sp,
            Token::Usize(sp) => *sp,
            Token::Int(sp) => *sp,
            Token::Flt(sp) => *sp,
            Token::Str(sp) => *sp,
            Token::I8(sp) => *sp,
            Token::U8(sp) => *sp,
            Token::I16(sp) => *sp,
            Token::U16(sp) => *sp,
            Token::I32(sp) => *sp,
            Token::U32(sp) => *sp,
            Token::I64(sp) => *sp,
            Token::U64(sp) => *sp,
            Token::F32(sp) => *sp,
            Token::F64(sp) => *sp,
            Token::IntVal(sp, _) => *sp,
            Token::FltVal(sp, _) => *sp,
            Token::StrVal(sp, _) => *sp,
            Token::IdxVal(sp, _) => *sp,
        }
    }
}

/// A token of a scanned range carries exactly that range as its span.
pub proof fn lemma_token_at_span(s: Seq<u8>, a: int, b: int, t: Token)
    requires
        token_at(s, a, b, t),
    ensures
        spec_token_span(t) == lex_span(a, b),
{
}

} // verus!
