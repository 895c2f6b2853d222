use nx::error::LexError;
use nx::lex::{NextToken, tokenize_next_word, tokenize_string, tokenize_string_standard};
use nx::token::{SourceSpan, Token};

#[test]
fn test_tokenize_string() {
    assert!(tokenize_string("fn main() { }").is_ok());
    assert!(tokenize_string("fn main() int { return 0; }").is_ok());
    assert!(tokenize_string("fn main() int { let x = 0; return x; }").is_ok());
    assert!(tokenize_string("fn main() int { let x:int = 0; return x; }").is_ok());
    assert!(tokenize_string("fn main() int {\n 0\n}").is_ok());
    assert!(tokenize_string("fn main() int {\n let x = 0\n x\n}").is_ok());
    assert!(tokenize_string("fn main() int {\n let x:int = 0\n x\n}").is_ok());
    assert!(tokenize_string("/// this is a documentation comment\n fn main() {}").is_ok());
    assert!(tokenize_string("// this is a comment\n fn main() {}").is_ok());
    assert!(tokenize_string("// this is a comment /// with a nested comment\n fn main() {}").is_ok());
    assert!(tokenize_string("0 _ _0 0_ 000_000_000").is_ok());
    assert!(tokenize_string("123_456_789").is_ok());
}

#[test]
fn test_tokenize_empty_input() {
    assert!(matches!(tokenize_string(""), Err(LexError::EmptyInput)));
    assert!(matches!(tokenize_string_standard("", Vec::new()), Err(LexError::EmptyInput)));
}

#[test]
fn test_tokenize_fn_main() {
    let toks = tokenize_string("fn main() { }").unwrap();
    assert_eq!(toks.len(), 6);
    assert!(matches!(&toks[0], Token::Fn(sp) if sp.start == 0 && sp.end == 2));
    assert!(matches!(&toks[1], Token::IdxVal(sp, lex)
        if sp.start == 3 && sp.end == 7 && *lex == *b"main"));
    assert!(matches!(&toks[2], Token::LParenthesis(sp) if sp.start == 7 && sp.end == 8));
    assert!(matches!(&toks[3], Token::RParenthesis(sp) if sp.start == 8 && sp.end == 9));
    assert!(matches!(&toks[4], Token::LBrace(sp) if sp.start == 10 && sp.end == 11));
    assert!(matches!(&toks[5], Token::RBrace(sp) if sp.start == 12 && sp.end == 13));
}

#[test]
fn test_integer_classification() {
    let toks = tokenize_string("0 _ _0 0_ 000_000_000").unwrap();
    assert_eq!(toks.len(), 5);
    assert!(matches!(&toks[0], Token::IntVal(_, lex) if *lex == *b"0"));
    assert!(matches!(&toks[1], Token::IdxVal(_, lex) if *lex == *b"_"));
    assert!(matches!(&toks[2], Token::IdxVal(_, lex) if *lex == *b"_0"));
    assert!(matches!(&toks[3], Token::IntVal(_, lex) if *lex == *b"0_"));
    assert!(matches!(&toks[4], Token::IntVal(_, lex) if *lex == *b"000_000_000"));

    let toks = tokenize_string("123_456_789").unwrap();
    assert_eq!(toks.len(), 1);
    assert!(matches!(&toks[0], Token::IntVal(sp, lex)
        if sp.start == 0 && sp.end == 11 && *lex == *b"123_456_789"));
}

#[test]
fn test_double_equal_is_two_tokens() {
    // Runs of delimiter characters are tokenized one character at a
    // time, so `==` is two separate one-byte tokens.
    let toks = tokenize_string("==").unwrap();
    assert_eq!(toks.len(), 2);
    assert!(matches!(&toks[0], Token::Equal(sp) if sp.start == 0 && sp.end == 1));
    assert!(matches!(&toks[1], Token::Equal(sp) if sp.start == 1 && sp.end == 2));
}

#[test]
fn test_line_comment() {
    let toks = tokenize_string("// line comment\nfn f() {}").unwrap();
    assert_eq!(toks.len(), 7);
    assert!(matches!(&toks[0], Token::Comment(sp, lex)
        if sp.start == 0 && sp.end == 15 && *lex == *b"// line comment"));
    assert!(matches!(&toks[1], Token::Fn(sp) if sp.start == 16 && sp.end == 18));
    assert!(matches!(&toks[2], Token::IdxVal(sp, lex)
        if sp.start == 19 && sp.end == 20 && *lex == *b"f"));
    assert!(matches!(&toks[3], Token::LParenthesis(_)));
    assert!(matches!(&toks[4], Token::RParenthesis(_)));
    assert!(matches!(&toks[5], Token::LBrace(_)));
    assert!(matches!(&toks[6], Token::RBrace(_)));
}

#[test]
fn test_documentation_comment() {
    let toks = tokenize_string("/// this is a documentation comment\n fn main() {}").unwrap();
    assert!(matches!(&toks[0], Token::Documentation(sp, lex)
        if sp.start == 0 && sp.end == 35 && *lex == *b"/// this is a documentation comment"));
    assert!(matches!(&toks[1], Token::Fn(_)));
}

#[test]
fn test_comment_at_end_of_input() {
    // A comment with no trailing newline runs to the end of the input.
    let toks = tokenize_string("x //").unwrap();
    assert_eq!(toks.len(), 2);
    assert!(matches!(&toks[0], Token::IdxVal(_, lex) if *lex == *b"x"));
    assert!(matches!(&toks[1], Token::Comment(sp, lex)
        if sp.start == 2 && sp.end == 4 && *lex == *b"//"));
}

#[test]
fn test_whitespace_only_input() {
    let toks = tokenize_string(" \t\n ").unwrap();
    assert_eq!(toks.len(), 0);
}

#[test]
fn test_unclassifiable_word() {
    assert!(matches!(tokenize_string("@"), Err(LexError::UnclassifiableWord)));
    assert!(matches!(tokenize_string("let x = 1 @ 2;"), Err(LexError::UnclassifiableWord)));
}

#[test]
fn test_too_many_tokens() {
    // One source line allows at most (0 + 1) * 20 * 5 tokens.
    let code = "a ".repeat(101);
    assert!(matches!(tokenize_string(&code), Err(LexError::TooManyTokens)));
    let code = "a ".repeat(100);
    assert!(tokenize_string(&code).is_ok());
}

#[test]
fn test_keywords_and_symbols() {
    let toks = tokenize_string("use let var as in return break continue").unwrap();
    assert_eq!(toks.len(), 8);
    assert!(matches!(&toks[0], Token::Use(_)));
    assert!(matches!(&toks[1], Token::Let(_)));
    assert!(matches!(&toks[2], Token::Var(_)));
    assert!(matches!(&toks[3], Token::As(_)));
    assert!(matches!(&toks[4], Token::In(_)));
    assert!(matches!(&toks[5], Token::Return(_)));
    assert!(matches!(&toks[6], Token::Break(_)));
    assert!(matches!(&toks[7], Token::Continue(_)));

    let toks = tokenize_string("usize int flt str i8 u8 i16 u16 i32 u32 i64 u64 f32 f64").unwrap();
    assert_eq!(toks.len(), 14);
    assert!(matches!(&toks[0], Token::Usize(_)));
    assert!(matches!(&toks[1], Token::Int(_)));
    assert!(matches!(&toks[2], Token::Flt(_)));
    assert!(matches!(&toks[3], Token::Str(_)));
    assert!(matches!(&toks[13], Token::F64(_)));

    // `int` matches the keyword whole-word only; `integer` does not.
    let toks = tokenize_string("integer").unwrap();
    assert_eq!(toks.len(), 1);
    assert!(matches!(&toks[0], Token::IdxVal(_, lex) if *lex == *b"integer"));
}

#[test]
fn test_spans_reconstruct_source() {
    // Concatenating each token's span slice and restoring the skipped
    // whitespace reconstructs the source bytes exactly.
    let code = "// note\nfn main() {\n let x:int = 0\n}";
    let toks = tokenize_string(code).unwrap();
    let bytes = code.as_bytes();
    let mut cursor = 0usize;
    for t in toks.iter() {
        let sp = t.span();
        assert!(sp.start as usize >= cursor);
        // The gap before each token is whitespace only.
        for p in cursor..sp.start as usize {
            assert!(bytes[p] == b' ' || bytes[p] == b'\t' || bytes[p] == b'\n');
        }
        assert!(sp.start <= sp.end);
        assert!((sp.end as usize) <= bytes.len());
        cursor = sp.end as usize;
    }
    for p in cursor..bytes.len() {
        assert!(bytes[p] == b' ' || bytes[p] == b'\t' || bytes[p] == b'\n');
    }
    // Comment and value tokens carry exactly their span's slice.
    for t in toks.iter() {
        match t {
            Token::Comment(sp, lex) | Token::Documentation(sp, lex)
            | Token::IntVal(sp, lex) | Token::IdxVal(sp, lex) => {
                assert_eq!(&bytes[sp.start as usize..sp.end as usize], lex.as_slice());
            }
            _ => {}
        }
    }
}

#[test]
fn test_tokenize_standard_reuses_buffer() {
    let buffer = tokenize_string("let x = 1;").unwrap();
    let toks = tokenize_string_standard("fn f", buffer).unwrap();
    assert_eq!(toks.len(), 2);
    assert!(matches!(&toks[0], Token::Fn(_)));
    assert!(matches!(&toks[1], Token::IdxVal(_, lex) if *lex == *b"f"));
}

#[test]
fn test_tokenize_next_word() {
    let code = b"  fn main";
    match tokenize_next_word(code, 0) {
        NextToken::Found(Token::Fn(sp), next) => {
            assert_eq!((sp.start, sp.end), (2, 4));
            assert_eq!(next, 4);
        }
        other => panic!("expected the fn keyword, got {:?}", other),
    }
    match tokenize_next_word(code, 4) {
        NextToken::Found(Token::IdxVal(sp, lex), next) => {
            assert_eq!((sp.start, sp.end), (5, 9));
            assert_eq!(*lex, *b"main");
            assert_eq!(next, 9);
        }
        other => panic!("expected an identifier, got {:?}", other),
    }
    assert!(matches!(tokenize_next_word(code, 9), NextToken::EndOfInput));
    assert!(matches!(tokenize_next_word(b"%", 0), NextToken::Unclassifiable));
}

#[test]
fn test_source_span_new() {
    let sp = SourceSpan::new(3, 9);
    assert_eq!(sp.start, 3);
    assert_eq!(sp.end, 9);
    let d = SourceSpan::default();
    assert_eq!((d.start, d.end), (0, 0));
}

#[test]
fn test_symbols_one_byte_each() {
    let toks = tokenize_string("; : , . = + - * / ( ) [ ] < > { } ! ? $ #").unwrap();
    assert_eq!(toks.len(), 21);
    assert!(matches!(&toks[0], Token::Semicolon(_)));
    assert!(matches!(&toks[1], Token::Colon(_)));
    assert!(matches!(&toks[2], Token::Comma(_)));
    assert!(matches!(&toks[3], Token::Dot(_)));
    assert!(matches!(&toks[4], Token::Equal(_)));
    assert!(matches!(&toks[5], Token::Plus(_)));
    assert!(matches!(&toks[6], Token::Minus(_)));
    assert!(matches!(&toks[7], Token::Star(_)));
    assert!(matches!(&toks[8], Token::Slash(_)));
    assert!(matches!(&toks[9], Token::LParenthesis(_)));
    assert!(matches!(&toks[10], Token::RParenthesis(_)));
    assert!(matches!(&toks[11], Token::LBracket(_)));
    assert!(matches!(&toks[12], Token::RBracket(_)));
    assert!(matches!(&toks[13], Token::LAngle(_)));
    assert!(matches!(&toks[14], Token::RAngle(_)));
    assert!(matches!(&toks[15], Token::LBrace(_)));
    assert!(matches!(&toks[16], Token::RBrace(_)));
    assert!(matches!(&toks[17], Token::Exclamation(_)));
    assert!(matches!(&toks[18], Token::Question(_)));
    assert!(matches!(&toks[19], Token::Dollar(_)));
    assert!(matches!(&toks[20], Token::Hash(_)));
}

#[test]
fn test_block_keywords() {
    let toks =
        tokenize_string("macro module fn struct enum instance implement match if else for while loop")
            .unwrap();
    assert_eq!(toks.len(), 13);
    assert!(matches!(&toks[0], Token::Macro(_)));
    assert!(matches!(&toks[1], Token::Module(_)));
    assert!(matches!(&toks[2], Token::Fn(_)));
    assert!(matches!(&toks[3], Token::Struct(_)));
    assert!(matches!(&toks[4], Token::Enum(_)));
    assert!(matches!(&toks[5], Token::Instance(_)));
    assert!(matches!(&toks[6], Token::Implement(_)));
    assert!(matches!(&toks[7], Token::Match(_)));
    assert!(matches!(&toks[8], Token::If(_)));
    assert!(matches!(&toks[9], Token::Else(_)));
    assert!(matches!(&toks[10], Token::For(_)));
    assert!(matches!(&toks[11], Token::While(_)));
    assert!(matches!(&toks[12], Token::Loop(_)));
}

#[test]
fn test_comment_with_multibyte_text() {
    // Spans are byte offsets: the comment's text may hold bytes beyond
    // ASCII, and the tokens after it keep exact byte positions.
    let code = "// caf\u{e9}\nfn f() {}";
    let toks = tokenize_string(code).unwrap();
    assert!(matches!(&toks[0], Token::Comment(sp, lex)
        if sp.start == 0 && sp.end == 8 && lex.as_slice() == "// caf\u{e9}".as_bytes()));
    assert!(matches!(&toks[1], Token::Fn(sp) if sp.start == 9 && sp.end == 11));
}
