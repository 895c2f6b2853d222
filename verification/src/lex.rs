//! The tokenizer: source bytes in, an ordered token sequence out.
//!
//! The scan works word by word. Each step skips leading whitespace,
//! takes the next word (a run of word bytes, or a single delimiter
//! byte), folds a word opened by two or three slashes into a comment
//! running to the end of the line, and otherwise classifies the word
//! against the reserved table, the integer test and the identifier
//! test, in that order.

use vstd::prelude::*;
use vstd::string::StringSliceAdditionalSpecFns;

use crate::error::LexError;
use crate::token::{
    SourceSpan, Token, is_comment_start, is_doc_start, is_int_byte, is_space_byte,
    is_word_byte, token_at, word_classifiable, int_shape, ident_shape, is_reserved_word,
    lex_span, spec_token_span, lemma_token_at_span,
};

verus! {

/// First position at or after `i` that does not hold whitespace.
pub open spec fn spec_skip_ws(s: Seq<u8>, i: int) -> int
    decreases s.len() - i,
{
    if 0 <= i && i < s.len() && is_space_byte(s[i]) {
        spec_skip_ws(s, i + 1)
    } else {
        i
    }
}

/// First position at or after `i` that does not hold a word byte.
pub open spec fn spec_word_scan(s: Seq<u8>, i: int) -> int
    decreases s.len() - i,
{
    if 0 <= i && i < s.len() && is_word_byte(s[i]) {
        spec_word_scan(s, i + 1)
    } else {
        i
    }
}

/// End of the word starting at `j`: a run of word bytes, or, when the
/// first byte already delimits, that single byte alone.
pub open spec fn spec_word_end(s: Seq<u8>, j: int) -> int {
    if 0 <= j && j < s.len() && is_word_byte(s[j]) {
        spec_word_scan(s, j)
    } else {
        j + 1
    }
}

/// First newline at or after `i`, or the end of the source.
pub open spec fn spec_find_newline(s: Seq<u8>, i: int) -> int
    decreases s.len() - i,
{
    if 0 <= i && i < s.len() {
        if s[i] == '\n' as u8 {
            i
        } else {
            spec_find_newline(s, i + 1)
        }
    } else {
        s.len() as int
    }
}

/// End of the token whose word starts at `j`: a comment or
/// documentation comment runs to (not including) the next newline;
/// every other token is exactly its word.
pub open spec fn spec_token_end(s: Seq<u8>, j: int) -> int {
    if is_doc_start(s, j) {
        spec_find_newline(s, j + 3)
    } else if is_comment_start(s, j) {
        spec_find_newline(s, j + 2)
    } else {
        spec_word_end(s, j)
    }
}

/// Whether the token at `[j, e)` classifies: comment ranges always do,
/// a plain word must pass the table, the integer test or the
/// identifier test.
pub open spec fn range_classifiable(s: Seq<u8>, j: int, e: int) -> bool {
    if is_comment_start(s, j) {
        true
    } else {
        word_classifiable(s.subrange(j, e))
    }
}

pub proof fn lemma_skip_ws_bounds(s: Seq<u8>, i: int)
    requires
        0 <= i <= s.len(),
    ensures
        i <= spec_skip_ws(s, i) <= s.len(),
        forall|p: int| i <= p < spec_skip_ws(s, i) ==> is_space_byte(#[trigger] s[p]),
        spec_skip_ws(s, i) < s.len() ==> !is_space_byte(s[spec_skip_ws(s, i)]),
    decreases s.len() - i,
{
    if i < s.len() && is_space_byte(s[i]) {
        lemma_skip_ws_bounds(s, i + 1);
    }
}

pub proof fn lemma_word_scan_bounds(s: Seq<u8>, i: int)
    requires
        0 <= i <= s.len(),
    ensures
        i <= spec_word_scan(s, i) <= s.len(),
        forall|p: int| i <= p < spec_word_scan(s, i) ==> is_word_byte(#[trigger] s[p]),
        spec_word_scan(s, i) < s.len() ==> !is_word_byte(s[spec_word_scan(s, i)]),
    decreases s.len() - i,
{
    if i < s.len() && is_word_byte(s[i]) {
        lemma_word_scan_bounds(s, i + 1);
    }
}

pub proof fn lemma_find_newline_bounds(s: Seq<u8>, i: int)
    requires
        0 <= i <= s.len(),
    ensures
        i <= spec_find_newline(s, i) <= s.len(),
        forall|p: int| i <= p < spec_find_newline(s, i) ==> #[trigger] s[p] != '\n' as u8,
        spec_find_newline(s, i) < s.len() ==> s[spec_find_newline(s, i)] == '\n' as u8,
    decreases s.len() - i,
{
    if i < s.len() && s[i] != '\n' as u8 {
        lemma_find_newline_bounds(s, i + 1);
    }
}

/// Each token strictly advances the scan position: lexing cannot stall.
pub proof fn lemma_token_end_bounds(s: Seq<u8>, j: int)
    requires
        0 <= j < s.len(),
    ensures
        j < spec_token_end(s, j) <= s.len(),
{
    if is_doc_start(s, j) {
        lemma_find_newline_bounds(s, j + 3);
    } else if is_comment_start(s, j) {
        lemma_find_newline_bounds(s, j + 2);
    } else if is_word_byte(s[j]) {
        lemma_word_scan_bounds(s, j + 1);
        assert(spec_word_scan(s, j) == spec_word_scan(s, j + 1));
    }
}

/// Result of scanning for token ranges: the ranges found, in order,
/// and whether the scan reached the end of the source (`complete`) or
/// stopped at an unclassifiable word.
pub struct SpanScan {
    pub ranges: Seq<(int, int)>,
    pub complete: bool,
}

/// Scan the source for token ranges, starting at `i`.
pub open spec fn spec_scan(s: Seq<u8>, i: int) -> SpanScan
    decreases s.len() - i,
{
    if i < 0 || i > s.len() {
        SpanScan { ranges: Seq::empty(), complete: true }
    } else {
        let j = spec_skip_ws(s, i);
        if j >= s.len() {
            SpanScan { ranges: Seq::empty(), complete: true }
        } else {
            let e = spec_token_end(s, j);
            if !range_classifiable(s, j, e) {
                SpanScan { ranges: Seq::empty(), complete: false }
            } else {
                proof {
                    lemma_skip_ws_bounds(s, i);
                    lemma_token_end_bounds(s, j);
                }
                let rest = spec_scan(s, e);
                SpanScan { ranges: seq![(j, e)] + rest.ranges, complete: rest.complete }
            }
        }
    }
}

} // verus!

// ---------------------------------------------------------------------
// Executable scanning helpers.

verus! {

fn byte_is_space(c: u8) -> (r: bool)
    ensures
        r == is_space_byte(c),
{
    c == ' ' as u8 || c == '\t' as u8 || c == '\n' as u8
}

fn byte_is_word(c: u8) -> (r: bool)
    ensures
        r == is_word_byte(c),
{
    ('0' as u8 <= c && c <= '9' as u8) || ('a' as u8 <= c && c <= 'z' as u8)
        || ('A' as u8 <= c && c <= 'Z' as u8) || c == '_' as u8
}

fn byte_is_int(c: u8) -> (r: bool)
    ensures
        r == is_int_byte(c),
{
    ('0' as u8 <= c && c <= '9' as u8) || c == '_' as u8
}

fn skip_whitespace(code: &[u8], start: usize) -> (r: usize)
    requires
        start <= code@.len(),
    ensures
        r == spec_skip_ws(code@, start as int),
        start <= r <= code@.len(),
{
    let mut i = start;
    while i < code.len() && byte_is_space(code[i])
        invariant
            start <= i <= code@.len(),
            spec_skip_ws(code@, start as int) == spec_skip_ws(code@, i as int),
        decreases code@.len() - i,
    {
        i = i + 1;
    }
    i
}

fn word_end_from(code: &[u8], j: usize) -> (r: usize)
    requires
        j < code@.len(),
    ensures
        r == spec_word_end(code@, j as int),
        j < r <= code@.len(),
{
    if !byte_is_word(code[j]) {
        return j + 1;
    }
    let mut i = j;
    while i < code.len() && byte_is_word(code[i])
        invariant
            j <= i <= code@.len(),
            spec_word_scan(code@, j as int) == spec_word_scan(code@, i as int),
        decreases code@.len() - i,
    {
        i = i + 1;
    }
    proof {
        lemma_word_scan_bounds(code@, j as int);
        assert(spec_word_scan(code@, j as int) >= j + 1) by {
            assert(spec_word_scan(code@, j as int) == spec_word_scan(code@, j + 1));
            lemma_word_scan_bounds(code@, j + 1);
        }
    }
    i
}

fn find_newline_from(code: &[u8], start: usize) -> (r: usize)
    requires
        start <= code@.len(),
    ensures
        r == spec_find_newline(code@, start as int),
        start <= r <= code@.len(),
{
    let mut i = start;
    while i < code.len() && code[i] != '\n' as u8
        invariant
            start <= i <= code@.len(),
            spec_find_newline(code@, start as int) == spec_find_newline(code@, i as int),
        decreases code@.len() - i,
    {
        i = i + 1;
    }
    i
}

fn copy_range(code: &[u8], start: usize, end: usize) -> (v: Vec<u8>)
    requires
        start <= end <= code@.len(),
    ensures
        v@ == code@.subrange(start as int, end as int),
{
    let mut v: Vec<u8> = Vec::new();
    let mut i = start;
    while i < end
        invariant
            start <= i <= end <= code@.len(),
            v@ == code@.subrange(start as int, i as int),
        decreases end - i,
    {
        v.push(code[i]);
        i = i + 1;
        proof {
            assert(v@ =~= code@.subrange(start as int, i as int));
        }
    }
    v
}

fn word_is_integer(code: &[u8], start: usize, end: usize) -> (r: bool)
    requires
        start < end <= code@.len(),
    ensures
        r == int_shape(code@.subrange(start as int, end as int)),
{
    let ghost w = code@.subrange(start as int, end as int);
    proof {
        assert(forall|k: int| 0 <= k < w.len() ==> w[k] == code@[start + k]);
    }
    if code[start] == '_' as u8 {
        return false;
    }
    let mut i = start;
    while i < end
        invariant
            start <= i <= end <= code@.len(),
            w == code@.subrange(start as int, end as int),
            forall|p: int| start <= p < i ==> is_int_byte(#[trigger] code@[p]),
        decreases end - i,
    {
        if !byte_is_int(code[i]) {
            proof {
                assert(w[i - start] == code@[i as int]);
            }
            return false;
        }
        i = i + 1;
    }
    proof {
        assert forall|k: int| 0 <= k < w.len() implies is_int_byte(#[trigger] w[k]) by {
            assert(w[k] == code@[start + k]);
        }
    }
    true
}

fn word_is_identifier(code: &[u8], start: usize, end: usize) -> (r: bool)
    requires
        start < end <= code@.len(),
    ensures
        r == ident_shape(code@.subrange(start as int, end as int)),
{
    let ghost w = code@.subrange(start as int, end as int);
    proof {
        assert(forall|k: int| 0 <= k < w.len() ==> w[k] == code@[start + k]);
    }
    let mut i = start;
    while i < end
        invariant
            start <= i <= end <= code@.len(),
            w == code@.subrange(start as int, end as int),
            forall|p: int| start <= p < i ==> is_word_byte(#[trigger] code@[p]),
        decreases end - i,
    {
        if !byte_is_word(code[i]) {
            proof {
                assert(w[i - start] == code@[i as int]);
            }
            return false;
        }
        i = i + 1;
    }
    proof {
        assert forall|k: int| 0 <= k < w.len() implies is_word_byte(#[trigger] w[k]) by {
            assert(w[k] == code@[start + k]);
        }
    }
    true
}

} // verus!

// ---------------------------------------------------------------------
// Word classification.

verus! {

/// Classify one word against the reserved table, the integer test and
/// the identifier test, in that order. `None` is the unclassified
/// sentinel that the caller must turn into a fatal lexing error.
fn classify_word(code: &[u8], start: usize, end: usize) -> (r: Option<Token>)
    requires
        start < end <= code@.len(),
        end <= u32::MAX,
    ensures
        ({
            let w = code@.subrange(start as int, end as int);
            match r {
                Some(t) => token_at(code@, start as int, end as int, t),
                None => !word_classifiable(w),
            }
        }),
        (r is Some) == word_classifiable(code@.subrange(start as int, end as int)),
{
    let ghost w = code@.subrange(start as int, end as int);
    let ghost a = start as int;
    proof {
        assert(w.len() == end - start);
        assert(forall|k: int| 0 <= k < w.len() ==> w[k] == code@[a + k]);
    }
    let span = SourceSpan::new(start, end);
    let len = end - start;

    // Symbols
    if len == 1 && code[start] == ';' as u8 {
        proof { assert(w =~= seq![';' as u8]); }
        return Some(Token::Semicolon(span));
    }
    if len == 1 && code[start] == ':' as u8 {
        proof { assert(w =~= seq![':' as u8]); }
        return Some(Token::Colon(span));
    }
    if len == 1 && code[start] == ',' as u8 {
        proof { assert(w =~= seq![',' as u8]); }
        return Some(Token::Comma(span));
    }
    if len == 1 && code[start] == '.' as u8 {
        proof { assert(w =~= seq!['.' as u8]); }
        return Some(Token::Dot(span));
    }
    if len == 1 && code[start] == '=' as u8 {
        proof { assert(w =~= seq!['=' as u8]); }
        return Some(Token::Equal(span));
    }
    if len == 1 && code[start] == '+' as u8 {
        proof { assert(w =~= seq!['+' as u8]); }
        return Some(Token::Plus(span));
    }
    if len == 1 && code[start] == '-' as u8 {
        proof { assert(w =~= seq!['-' as u8]); }
        return Some(Token::Minus(span));
    }
    if len == 1 && code[start] == '*' as u8 {
        proof { assert(w =~= seq!['*' as u8]); }
        return Some(Token::Star(span));
    }
    if len == 1 && code[start] == '/' as u8 {
        proof { assert(w =~= seq!['/' as u8]); }
        return Some(Token::Slash(span));
    }
    if len == 1 && code[start] == '(' as u8 {
        proof { assert(w =~= seq!['(' as u8]); }
        return Some(Token::LParenthesis(span));
    }
    if len == 1 && code[start] == ')' as u8 {
        proof { assert(w =~= seq![')' as u8]); }
        return Some(Token::RParenthesis(span));
    }
    if len == 1 && code[start] == '[' as u8 {
        proof { assert(w =~= seq!['[' as u8]); }
        return Some(Token::LBracket(span));
    }
    if len == 1 && code[start] == ']' as u8 {
        proof { assert(w =~= seq![']' as u8]); }
        return Some(Token::RBracket(span));
    }
    if len == 1 && code[start] == '<' as u8 {
        proof { assert(w =~= seq!['<' as u8]); }
        return Some(Token::LAngle(span));
    }
    if len == 1 && code[start] == '>' as u8 {
        proof { assert(w =~= seq!['>' as u8]); }
        return Some(Token::RAngle(span));
    }
    if len == 1 && code[start] == '{' as u8 {
        proof { assert(w =~= seq!['{' as u8]); }
        return Some(Token::LBrace(span));
    }
    if len == 1 && code[start] == '}' as u8 {
        proof { assert(w =~= seq!['}' as u8]); }
        return Some(Token::RBrace(span));
    }
    if len == 1 && code[start] == '!' as u8 {
        proof { assert(w =~= seq!['!' as u8]); }
        return Some(Token::Exclamation(span));
    }
    if len == 1 && code[start] == '?' as u8 {
        proof { assert(w =~= seq!['?' as u8]); }
        return Some(Token::Question(span));
    }
    if len == 1 && code[start] == '$' as u8 {
        proof { assert(w =~= seq!['$' as u8]); }
        return Some(Token::Dollar(span));
    }
    if len == 1 && code[start] == '#' as u8 {
        proof { assert(w =~= seq!['#' as u8]); }
        return Some(Token::Hash(span));
    }
    // Directive, block and type keywords
    if len == 3 && code[start] == 'u' as u8 && code[start + 1] == 's' as u8 && code[start + 2] == 'e' as u8 {
        proof { assert(w =~= seq!['u' as u8, 's' as u8, 'e' as u8]); }
        return Some(Token::Use(span));
    }
    if len == 3 && code[start] == 'l' as u8 && code[start + 1] == 'e' as u8 && code[start + 2] == 't' as u8 {
        proof { assert(w =~= seq!['l' as u8, 'e' as u8, 't' as u8]); }
        return Some(Token::Let(span));
    }
    if len == 3 && code[start] == 'v' as u8 && code[start + 1] == 'a' as u8 && code[start + 2] == 'r' as u8 {
        proof { assert(w =~= seq!['v' as u8, 'a' as u8, 'r' as u8]); }
        return Some(Token::Var(span));
    }
    if len == 2 && code[start] == 'a' as u8 && code[start + 1] == 's' as u8 {
        proof { assert(w =~= seq!['a' as u8, 's' as u8]); }
        return Some(Token::As(span));
    }
    if len == 2 && code[start] == 'i' as u8 && code[start + 1] == 'n' as u8 {
        proof { assert(w =~= seq!['i' as u8, 'n' as u8]); }
        return Some(Token::In(span));
    }
    if len == 6 && code[start] == 'r' as u8 && code[start + 1] == 'e' as u8 && code[start + 2] == 't' as u8 && code[start + 3] == 'u' as u8 && code[start + 4] == 'r' as u8 && code[start + 5] == 'n' as u8 {
        proof { assert(w =~= seq!['r' as u8, 'e' as u8, 't' as u8, 'u' as u8, 'r' as u8, 'n' as u8]); }
        return Some(Token::Return(span));
    }
    if len == 5 && code[start] == 'b' as u8 && code[start + 1] == 'r' as u8 && code[start + 2] == 'e' as u8 && code[start + 3] == 'a' as u8 && code[start + 4] == 'k' as u8 {
        proof { assert(w =~= seq!['b' as u8, 'r' as u8, 'e' as u8, 'a' as u8, 'k' as u8]); }
        return Some(Token::Break(span));
    }
    if len == 8 && code[start] == 'c' as u8 && code[start + 1] == 'o' as u8 && code[start + 2] == 'n' as u8 && code[start + 3] == 't' as u8 && code[start + 4] == 'i' as u8 && code[start + 5] == 'n' as u8 && code[start + 6] == 'u' as u8 && code[start + 7] == 'e' as u8 {
        proof { assert(w =~= seq!['c' as u8, 'o' as u8, 'n' as u8, 't' as u8, 'i' as u8, 'n' as u8, 'u' as u8, 'e' as u8]); }
        return Some(Token::Continue(span));
    }
    if len == 5 && code[start] == 'm' as u8 && code[start + 1] == 'a' as u8 && code[start + 2] == 'c' as u8 && code[start + 3] == 'r' as u8 && code[start + 4] == 'o' as u8 {
        proof { assert(w =~= seq!['m' as u8, 'a' as u8, 'c' as u8, 'r' as u8, 'o' as u8]); }
        return Some(Token::Macro(span));
    }
    if len == 6 && code[start] == 'm' as u8 && code[start + 1] == 'o' as u8 && code[start + 2] == 'd' as u8 && code[start + 3] == 'u' as u8 && code[start + 4] == 'l' as u8 && code[start + 5] == 'e' as u8 {
        proof { assert(w =~= seq!['m' as u8, 'o' as u8, 'd' as u8, 'u' as u8, 'l' as u8, 'e' as u8]); }
        return Some(Token::Module(span));
    }
    if len == 2 && code[start] == 'f' as u8 && code[start + 1] == 'n' as u8 {
        proof { assert(w =~= seq!['f' as u8, 'n' as u8]); }
        return Some(Token::Fn(span));
    }
    if len == 6 && code[start] == 's' as u8 && code[start + 1] == 't' as u8 && code[start + 2] == 'r' as u8 && code[start + 3] == 'u' as u8 && code[start + 4] == 'c' as u8 && code[start + 5] == 't' as u8 {
        proof { assert(w =~= seq!['s' as u8, 't' as u8, 'r' as u8, 'u' as u8, 'c' as u8, 't' as u8]); }
        return Some(Token::Struct(span));
    }
    if len == 4 && code[start] == 'e' as u8 && code[start + 1] == 'n' as u8 && code[start + 2] == 'u' as u8 && code[start + 3] == 'm' as u8 {
        proof { assert(w =~= seq!['e' as u8, 'n' as u8, 'u' as u8, 'm' as u8]); }
        return Some(Token::Enum(span));
    }
    if len == 8 && code[start] == 'i' as u8 && code[start + 1] == 'n' as u8 && code[start + 2] == 's' as u8 && code[start + 3] == 't' as u8 && code[start + 4] == 'a' as u8 && code[start + 5] == 'n' as u8 && code[start + 6] == 'c' as u8 && code[start + 7] == 'e' as u8 {
        proof { assert(w =~= seq!['i' as u8, 'n' as u8, 's' as u8, 't' as u8, 'a' as u8, 'n' as u8, 'c' as u8, 'e' as u8]); }
        return Some(Token::Instance(span));
    }
    if len == 9 && code[start] == 'i' as u8 && code[start + 1] == 'm' as u8 && code[start + 2] == 'p' as u8 && code[start + 3] == 'l' as u8 && code[start + 4] == 'e' as u8 && code[start + 5] == 'm' as u8 && code[start + 6] == 'e' as u8 && code[start + 7] == 'n' as u8 && code[start + 8] == 't' as u8 {
        proof { assert(w =~= seq!['i' as u8, 'm' as u8, 'p' as u8, 'l' as u8, 'e' as u8, 'm' as u8, 'e' as u8, 'n' as u8, 't' as u8]); }
        return Some(Token::Implement(span));
    }
    if len == 5 && code[start] == 'm' as u8 && code[start + 1] == 'a' as u8 && code[start + 2] == 't' as u8 && code[start + 3] == 'c' as u8 && code[start + 4] == 'h' as u8 {
        proof { assert(w =~= seq!['m' as u8, 'a' as u8, 't' as u8, 'c' as u8, 'h' as u8]); }
        return Some(Token::Match(span));
    }
    if len == 2 && code[start] == 'i' as u8 && code[start + 1] == 'f' as u8 {
        proof { assert(w =~= seq!['i' as u8, 'f' as u8]); }
        return Some(Token::If(span));
    }
    if len == 4 && code[start] == 'e' as u8 && code[start + 1] == 'l' as u8 && code[start + 2] == 's' as u8 && code[start + 3] == 'e' as u8 {
        proof { assert(w =~= seq!['e' as u8, 'l' as u8, 's' as u8, 'e' as u8]); }
        return Some(Token::Else(span));
    }
    if len == 3 && code[start] == 'f' as u8 && code[start + 1] == 'o' as u8 && code[start + 2] == 'r' as u8 {
        proof { assert(w =~= seq!['f' as u8, 'o' as u8, 'r' as u8]); }
        return Some(Token::For(span));
    }
    if len == 5 && code[start] == 'w' as u8 && code[start + 1] == 'h' as u8 && code[start + 2] == 'i' as u8 && code[start + 3] == 'l' as u8 && code[start + 4] == 'e' as u8 {
        proof { assert(w =~= seq!['w' as u8, 'h' as u8, 'i' as u8, 'l' as u8, 'e' as u8]); }
        return Some(Token::While(span));
    }
    if len == 4 && code[start] == 'l' as u8 && code[start + 1] == 'o' as u8 && code[start + 2] == 'o' as u8 && code[start + 3] == 'p' as u8 {
        proof { assert(w =~= seq!['l' as u8, 'o' as u8, 'o' as u8, 'p' as u8]); }
        return Some(Token::Loop(span));
    }
    if len == 2 && code[start] == '(' as u8 && code[start + 1] == ')' as u8 {
        proof { assert(w =~= seq!['(' as u8, ')' as u8]); }
        return Some(Token::Unit(span));
    }
    if len == 5 && code[start] == 'u' as u8 && code[start + 1] == 's' as u8 && code[start + 2] == 'i' as u8 && code[start + 3] == 'z' as u8 && code[start + 4] == 'e' as u8 {
        proof { assert(w =~= seq!['u' as u8, 's' as u8, 'i' as u8, 'z' as u8, 'e' as u8]); }
        return Some(Token::Usize(span));
    }
    if len == 3 && code[start] == 'i' as u8 && code[start + 1] == 'n' as u8 && code[start + 2] == 't' as u8 {
        proof { assert(w =~= seq!['i' as u8, 'n' as u8, 't' as u8]); }
        return Some(Token::Int(span));
    }
    if len == 3 && code[start] == 'f' as u8 && code[start + 1] == 'l' as u8 && code[start + 2] == 't' as u8 {
        proof { assert(w =~= seq!['f' as u8, 'l' as u8, 't' as u8]); }
        return Some(Token::Flt(span));
    }
    if len == 3 && code[start] == 's' as u8 && code[start + 1] == 't' as u8 && code[start + 2] == 'r' as u8 {
        proof { assert(w =~= seq!['s' as u8, 't' as u8, 'r' as u8]); }
        return Some(Token::Str(span));
    }
    if len == 2 && code[start] == 'i' as u8 && code[start + 1] == '8' as u8 {
        proof { assert(w =~= seq!['i' as u8, '8' as u8]); }
        return Some(Token::I8(span));
    }
    if len == 2 && code[start] == 'u' as u8 && code[start + 1] == '8' as u8 {
        proof { assert(w =~= seq!['u' as u8, '8' as u8]); }
        return Some(Token::U8(span));
    }
    if len == 3 && code[start] == 'i' as u8 && code[start + 1] == '1' as u8 && code[start + 2] == '6' as u8 {
        proof { assert(w =~= seq!['i' as u8, '1' as u8, '6' as u8]); }
        return Some(Token::I16(span));
    }
    if len == 3 && code[start] == 'u' as u8 && code[start + 1] == '1' as u8 && code[start + 2] == '6' as u8 {
        proof { assert(w =~= seq!['u' as u8, '1' as u8, '6' as u8]); }
        return Some(Token::U16(span));
    }
    if len == 3 && code[start] == 'i' as u8 && code[start + 1] == '3' as u8 && code[start + 2] == '2' as u8 {
        proof { assert(w =~= seq!['i' as u8, '3' as u8, '2' as u8]); }
        return Some(Token::I32(span));
    }
    if len == 3 && code[start] == 'u' as u8 && code[start + 1] == '3' as u8 && code[start + 2] == '2' as u8 {
        proof { assert(w =~= seq!['u' as u8, '3' as u8, '2' as u8]); }
        return Some(Token::U32(span));
    }
    if len == 3 && code[start] == 'i' as u8 && code[start + 1] == '6' as u8 && code[start + 2] == '4' as u8 {
        proof { assert(w =~= seq!['i' as u8, '6' as u8, '4' as u8]); }
        return Some(Token::I64(span));
    }
    if len == 3 && code[start] == 'u' as u8 && code[start + 1] == '6' as u8 && code[start + 2] == '4' as u8 {
        proof { assert(w =~= seq!['u' as u8, '6' as u8, '4' as u8]); }
        return Some(Token::U64(span));
    }
    if len == 3 && code[start] == 'f' as u8 && code[start + 1] == '3' as u8 && code[start + 2] == '2' as u8 {
        proof { assert(w =~= seq!['f' as u8, '3' as u8, '2' as u8]); }
        return Some(Token::F32(span));
    }
    if len == 3 && code[start] == 'f' as u8 && code[start + 1] == '6' as u8 && code[start + 2] == '4' as u8 {
        proof { assert(w =~= seq!['f' as u8, '6' as u8, '4' as u8]); }
        return Some(Token::F64(span));
    }
    proof {
        assert(!is_reserved_word(w)) by {
            if w.len() > 0 { assert(w[0] == code@[a + 0]); }
            if w.len() > 1 { assert(w[1] == code@[a + 1]); }
            if w.len() > 2 { assert(w[2] == code@[a + 2]); }
            if w.len() > 3 { assert(w[3] == code@[a + 3]); }
            if w.len() > 4 { assert(w[4] == code@[a + 4]); }
            if w.len() > 5 { assert(w[5] == code@[a + 5]); }
            if w.len() > 6 { assert(w[6] == code@[a + 6]); }
            if w.len() > 7 { assert(w[7] == code@[a + 7]); }
            if w.len() > 8 { assert(w[8] == code@[a + 8]); }
        }
    }
    // Integer literals must be recognized before identifiers: a word
    // such as a bare digit satisfies both shapes.
    if word_is_integer(code, start, end) {
        let lex = copy_range(code, start, end);
        return Some(Token::IntVal(span, lex));
    }
    if word_is_identifier(code, start, end) {
        let lex = copy_range(code, start, end);
        return Some(Token::IdxVal(span, lex));
    }
    None
}

} // verus!

// ---------------------------------------------------------------------
// One scanning step.

verus! {

/// Outcome of one scanning step.
#[derive(Debug)]
pub enum NextToken {
    /// A token, and the byte offset just past it.
    Found(Token, usize),
    /// The next word survives no classification step; tokenization
    /// must fail rather than let the sentinel escape.
    Unclassifiable,
    /// Only whitespace remained.
    EndOfInput,
}

/// Find the next token at or after `code_index`.
///
/// Leading whitespace is skipped first. A word of two or three leading
/// slashes becomes a comment or documentation token running to (not
/// including) the next newline; any other word is classified against
/// the reserved table, the integer test and the identifier test.
pub fn tokenize_next_word(code: &[u8], code_index: usize) -> (r: NextToken)
    requires
        code_index <= code@.len(),
        code@.len() <= u32::MAX,
    ensures
        ({
            let j = spec_skip_ws(code@, code_index as int);
            let e = spec_token_end(code@, j);
            if j >= code@.len() {
                r is EndOfInput
            } else if range_classifiable(code@, j, e) {
                r matches NextToken::Found(t, n) && n == e && token_at(code@, j, e, t)
            } else {
                r is Unclassifiable
            }
        }),
{
    let j = skip_whitespace(code, code_index);
    if j == code.len() {
        return NextToken::EndOfInput;
    }
    // Comment lookahead: a `/` word followed by one or two further `/`
    // words replaces ordinary classification for this step.
    if code[j] == '/' as u8 && j + 1 < code.len() && code[j + 1] == '/' as u8 {
        if j + 2 < code.len() && code[j + 2] == '/' as u8 {
            let nl = find_newline_from(code, j + 3);
            let span = SourceSpan::new(j, nl);
            let lex = copy_range(code, j, nl);
            return NextToken::Found(Token::Documentation(span, lex), nl);
        }
        let nl = find_newline_from(code, j + 2);
        let span = SourceSpan::new(j, nl);
        let lex = copy_range(code, j, nl);
        return NextToken::Found(Token::Comment(span, lex), nl);
    }
    let e = word_end_from(code, j);
    match classify_word(code, j, e) {
        Some(t) => NextToken::Found(t, e),
        None => NextToken::Unclassifiable,
    }
}

} // verus!

// ---------------------------------------------------------------------
// The tokenizer entry points.

verus! {

/// Number of newline bytes at or after `i`.
pub open spec fn spec_newline_count(s: Seq<u8>, i: int) -> int
    decreases s.len() - i,
{
    if 0 <= i && i < s.len() {
        (if s[i] == '\n' as u8 {
            1int
        } else {
            0int
        }) + spec_newline_count(s, i + 1)
    } else {
        0
    }
}

pub proof fn lemma_newline_count_bounds(s: Seq<u8>, i: int)
    requires
        0 <= i <= s.len(),
    ensures
        0 <= spec_newline_count(s, i) <= s.len() - i,
    decreases s.len() - i,
{
    if i < s.len() {
        lemma_newline_count_bounds(s, i + 1);
    }
}

/// The defensive cap on the emitted token count: five times a
/// heuristic guess of twenty tokens per line, saturated at the machine
/// limit. The guess and the factor are tunable performance and safety
/// constants, not correctness requirements.
pub open spec fn spec_token_cap(s: Seq<u8>) -> int {
    if spec_newline_count(s, 0) < usize::MAX as int / 100 {
        (spec_newline_count(s, 0) + 1) * 100
    } else {
        usize::MAX as int
    }
}

fn count_newlines(code: &[u8]) -> (r: usize)
    ensures
        r == spec_newline_count(code@, 0),
{
    let mut n: usize = 0;
    let mut i: usize = 0;
    while i < code.len()
        invariant
            0 <= i <= code@.len(),
            n <= i,
            n == spec_newline_count(code@, 0) - spec_newline_count(code@, i as int),
        decreases code@.len() - i,
    {
        proof {
            lemma_newline_count_bounds(code@, i as int);
            lemma_newline_count_bounds(code@, i + 1);
        }
        if code[i] == '\n' as u8 {
            n = n + 1;
        }
        i = i + 1;
    }
    n
}

/// What tokenization yields for the source bytes `s`: empty input is
/// refused; a scan past the cap is refused; a scan stopped by an
/// unclassifiable word is refused; otherwise exactly one token per
/// scanned range, in order.
pub open spec fn tokenize_result(s: Seq<u8>, r: Result<Vec<Token>, LexError>) -> bool {
    let sc = spec_scan(s, 0);
    let cap = spec_token_cap(s);
    if s.len() == 0 {
        r == Err::<Vec<Token>, LexError>(LexError::EmptyInput)
    } else if sc.ranges.len() > cap {
        r == Err::<Vec<Token>, LexError>(LexError::TooManyTokens)
    } else if !sc.complete {
        r == Err::<Vec<Token>, LexError>(LexError::UnclassifiableWord)
    } else {
        r matches Ok(v) && v@.len() == sc.ranges.len() && (forall|k: int|
            0 <= k < sc.ranges.len() ==> token_at(
                s,
                sc.ranges[k].0,
                sc.ranges[k].1,
                #[trigger] v@[k],
            ))
    }
}

/// Tokenize code, reusing the given token buffer.
///
/// The buffer is cleared first; on success it holds one token per
/// source word or comment, in source order.
pub fn tokenize_string_standard(code: &str, tokens: Vec<Token>) -> (r: Result<
    Vec<Token>,
    LexError,
>)
    requires
        code.spec_bytes().len() <= u32::MAX,
    ensures
        tokenize_result(code.spec_bytes(), r),
{
    let bytes = code.as_bytes();
    let ghost s = bytes@;
    if bytes.len() == 0 {
        return Err(LexError::EmptyInput);
    }
    let mut tokens = tokens;
    tokens.clear();

    // Allocate enough memory for the tokens. The guess of twenty
    // tokens per line and the five-fold cap on it are tunable
    // performance and safety constants, not correctness requirements.
    let num_lines = count_newlines(bytes);
    let guess_num_tokens = if num_lines < usize::MAX / 100 {
        (num_lines + 1) * 20
    } else {
        usize::MAX
    };
    tokens.reserve(guess_num_tokens);
    let cap = if num_lines < usize::MAX / 100 {
        (num_lines + 1) * 100
    } else {
        usize::MAX
    };
    let mut idx: usize = 0;
    let ghost mut done: Seq<(int, int)> = Seq::empty();
    proof {
        assert(Seq::<(int, int)>::empty() + spec_scan(s, 0).ranges =~= spec_scan(s, 0).ranges);
    }
    loop
        invariant
            s == code.spec_bytes(),
            s == bytes@,
            0 < s.len() <= u32::MAX,
            idx <= s.len(),
            cap == spec_token_cap(s),
            tokens@.len() == done.len(),
            tokens@.len() <= cap,
            spec_scan(s, 0).ranges == done + spec_scan(s, idx as int).ranges,
            spec_scan(s, 0).complete == spec_scan(s, idx as int).complete,
            forall|k: int|
                0 <= k < done.len() ==> token_at(s, done[k].0, done[k].1, #[trigger] tokens@[k]),
        decreases s.len() - idx,
    {
        let ghost j = spec_skip_ws(s, idx as int);
        let ghost e = spec_token_end(s, j);
        proof {
            lemma_skip_ws_bounds(s, idx as int);
        }
        match tokenize_next_word(bytes, idx) {
            NextToken::EndOfInput => {
                proof {
                    assert(spec_scan(s, 0).ranges =~= done);
                }
                return Ok(tokens);
            },
            NextToken::Unclassifiable => {
                proof {
                    assert(spec_scan(s, 0).ranges =~= done);
                }
                return Err(LexError::UnclassifiableWord);
            },
            NextToken::Found(t, n) => {
                proof {
                    lemma_token_end_bounds(s, j);
                }
                if tokens.len() == cap {
                    return Err(LexError::TooManyTokens);
                }
                tokens.push(t);
                proof {
                    done = done.push((j, e));
                    assert(spec_scan(s, 0).ranges =~= done + spec_scan(s, n as int).ranges);
                }
                idx = n;
            },
        }
    }
}

/// Tokenize code.
///
/// A fresh token buffer is allocated; on success it holds one token
/// per source word or comment, in source order.
pub fn tokenize_string(code: &str) -> (r: Result<Vec<Token>, LexError>)
    requires
        code.spec_bytes().len() <= u32::MAX,
    ensures
        tokenize_result(code.spec_bytes(), r),
{
    tokenize_string_standard(code, Vec::new())
}

} // verus!

// ---------------------------------------------------------------------
// Properties of the scan.

verus! {

/// Whether some scanned range covers the source position `p`.
pub open spec fn covered_by(ranges: Seq<(int, int)>, p: int) -> bool {
    exists|k: int| 0 <= k < ranges.len() && (#[trigger] ranges[k]).0 <= p < ranges[k].1
}

/// Law: the ranges of a scan stay within the source and are strictly
/// increasing without overlap; when the scan is complete, every source
/// position outside all ranges holds whitespace. Concatenating the
/// span slices of the emitted tokens and restoring the skipped
/// whitespace therefore reconstructs the source bytes exactly.
pub proof fn lemma_scan_spans_reconstruct(s: Seq<u8>, i: int)
    requires
        0 <= i <= s.len(),
    ensures
        forall|k: int|
            0 <= k < spec_scan(s, i).ranges.len() ==> i <= (#[trigger] spec_scan(
                s,
                i,
            ).ranges[k]).0 < spec_scan(s, i).ranges[k].1 <= s.len(),
        forall|k: int|
            0 <= k && k + 1 < spec_scan(s, i).ranges.len() ==> (#[trigger] spec_scan(
                s,
                i,
            ).ranges[k]).1 <= spec_scan(s, i).ranges[k + 1].0,
        spec_scan(s, i).complete ==> forall|p: int|
            i <= p < s.len() && !covered_by(spec_scan(s, i).ranges, p) ==> is_space_byte(
                #[trigger] s[p],
            ),
    decreases s.len() - i,
{
    let sc = spec_scan(s, i);
    let j = spec_skip_ws(s, i);
    lemma_skip_ws_bounds(s, i);
    if j >= s.len() {
        // Only whitespace remained.
    } else {
        let e = spec_token_end(s, j);
        lemma_token_end_bounds(s, j);
        if range_classifiable(s, j, e) {
            let rest = spec_scan(s, e);
            lemma_scan_spans_reconstruct(s, e);
            assert(sc.ranges == seq![(j, e)] + rest.ranges);
            assert(sc.ranges[0] == (j, e));
            assert(forall|k: int|
                1 <= k < sc.ranges.len() ==> sc.ranges[k] == rest.ranges[k - 1]);
            if sc.complete {
                assert forall|p: int|
                    i <= p < s.len() && !covered_by(sc.ranges, p) implies is_space_byte(
                    s[p],
                ) by {
                    if p < j {
                        // Skipped whitespace before the first range.
                    } else if p < e {
                        assert(covered_by(sc.ranges, p));
                    } else {
                        assert(!covered_by(rest.ranges, p)) by {
                            if covered_by(rest.ranges, p) {
                                let k = choose|k: int|
                                    0 <= k < rest.ranges.len() && (#[trigger] rest.ranges[k]).0
                                        <= p < rest.ranges[k].1;
                                assert(sc.ranges[k + 1] == rest.ranges[k]);
                                assert(covered_by(sc.ranges, p));
                            }
                        }
                    }
                }
            }
        }
    }
}

/// Law: a word of digits and underscores whose first byte is not an
/// underscore is classified as an integer literal; a leading
/// underscore disqualifies it, and it is classified as an identifier
/// instead.
pub proof fn lemma_digit_word_classification(s: Seq<u8>, a: int, b: int, t: Token)
    requires
        0 <= a < b <= s.len(),
        forall|k: int| a <= k < b ==> is_int_byte(#[trigger] s[k]),
        token_at(s, a, b, t),
    ensures
        s[a] != '_' as u8 ==> t is IntVal,
        s[a] == '_' as u8 ==> t is IdxVal,
{
    let w = s.subrange(a, b);
    assert(forall|k: int| 0 <= k < w.len() ==> w[k] == s[a + k]);
    assert(w[0] == s[a]);
    assert(is_int_byte(w[0]));
    // No table entry begins with a digit or an underscore, so the word
    // cannot be reserved.
    assert(!is_reserved_word(w));
    assert(forall|k: int| 0 <= k < w.len() ==> is_word_byte(#[trigger] w[k]));
}

} // verus!

verus! {

/// Whether some token's span covers the source position `p`.
pub open spec fn token_covered(v: Seq<Token>, p: int) -> bool {
    exists|k: int|
        0 <= k < v.len() && (#[trigger] spec_token_span(v[k])).start <= p < spec_token_span(
            v[k],
        ).end
}

/// Law (token level): the tokens of a complete scan carry spans that
/// lie within the source, are monotonically increasing and never
/// overlap, and every source position outside all spans holds
/// whitespace. Concatenating each token's span slice with the skipped
/// whitespace restored therefore reconstructs the source exactly.
pub proof fn lemma_token_spans_reconstruct(s: Seq<u8>, v: Seq<Token>)
    requires
        s.len() <= u32::MAX,
        spec_scan(s, 0).complete,
        v.len() == spec_scan(s, 0).ranges.len(),
        forall|k: int|
            0 <= k < v.len() ==> token_at(
                s,
                spec_scan(s, 0).ranges[k].0,
                spec_scan(s, 0).ranges[k].1,
                #[trigger] v[k],
            ),
    ensures
        forall|k: int|
            0 <= k < v.len() ==> (#[trigger] spec_token_span(v[k])).start <= spec_token_span(
                v[k],
            ).end <= s.len(),
        forall|k: int|
            0 <= k && k + 1 < v.len() ==> (#[trigger] spec_token_span(v[k])).end
                <= spec_token_span(v[k + 1]).start,
        forall|p: int|
            0 <= p < s.len() && !token_covered(v, p) ==> is_space_byte(#[trigger] s[p]),
{
    let ranges = spec_scan(s, 0).ranges;
    lemma_scan_spans_reconstruct(s, 0);
    assert forall|k: int| 0 <= k < v.len() implies spec_token_span(v[k]) == lex_span(
        ranges[k].0,
        ranges[k].1,
    ) by {
        lemma_token_at_span(s, ranges[k].0, ranges[k].1, v[k]);
    }
    assert forall|p: int| 0 <= p < s.len() && !token_covered(v, p) implies is_space_byte(
        s[p],
    ) by {
        assert(!covered_by(ranges, p)) by {
            if covered_by(ranges, p) {
                let k = choose|k: int|
                    0 <= k < ranges.len() && (#[trigger] ranges[k]).0 <= p < ranges[k].1;
                assert(spec_token_span(v[k]).start <= p < spec_token_span(v[k]).end);
                assert(token_covered(v, p));
            }
        }
    }
}

} // verus!
