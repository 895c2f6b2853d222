use nx::ast::{AstNode, AstNodeData, AstNodeProxy, AstNodeProxyMut, AstNodeType};
use nx::error::ParseError;
use nx::lex::tokenize_string;
use nx::parse::parse_token;
use nx::token::SourceSpan;

#[test]
fn test_parse_token() {
    let xa = tokenize_string("fn main() { }").unwrap();
    let xb = tokenize_string("/// Returns zero\n fn zero() int { let x = 0; return x; }").unwrap();
    assert!(parse_token(&xa).is_ok());
    assert!(parse_token(&xb).is_ok());
}

#[test]
fn test_parse_empty_input() {
    assert_eq!(parse_token(&[]), Err(ParseError::EmptyInput));
}

fn empty_data() -> AstNodeData {
    AstNodeData { span: SourceSpan { start: 0, end: 0 }, type_: AstNodeType::Unresolved }
}

#[test]
fn test_parse_fn_main() {
    let toks = tokenize_string("fn main() { }").unwrap();
    let nodes = parse_token(&toks).unwrap();
    let name = AstNodeData {
        span: SourceSpan { start: 3, end: 7 },
        type_: AstNodeType::Unresolved,
    };
    assert_eq!(
        nodes,
        vec![
            AstNode::StartFunction(empty_data()),
            AstNode::Invisible(empty_data()),
            AstNode::Identifier(name),
            AstNode::Placeholder(empty_data()),
            AstNode::Placeholder(empty_data()),
            AstNode::Placeholder(empty_data()),
            AstNode::EndFunction(empty_data()),
        ]
    );
}

#[test]
fn test_parse_two_functions() {
    let toks = tokenize_string("fn one() {} fn two() {}").unwrap();
    let nodes = parse_token(&toks).unwrap();
    assert_eq!(nodes.len(), 14);
    assert!(matches!(nodes[0], AstNode::StartFunction(_)));
    assert!(matches!(nodes[2], AstNode::Identifier(d)
        if d.span == SourceSpan { start: 3, end: 6 }));
    assert!(matches!(nodes[6], AstNode::EndFunction(_)));
    assert!(matches!(nodes[7], AstNode::StartFunction(_)));
    assert!(matches!(nodes[9], AstNode::Identifier(d)
        if d.span == SourceSpan { start: 15, end: 18 }));
    assert!(matches!(nodes[13], AstNode::EndFunction(_)));
}

#[test]
fn test_parse_skips_other_tokens() {
    // Tokens outside a function declaration are skipped one by one.
    let toks = tokenize_string("let x = 1; fn f() {}").unwrap();
    let nodes = parse_token(&toks).unwrap();
    assert_eq!(nodes.len(), 7);
    assert!(matches!(nodes[2], AstNode::Identifier(d)
        if d.span == SourceSpan { start: 14, end: 15 }));
}

#[test]
fn test_parse_expected_identifier() {
    let toks = tokenize_string("fn").unwrap();
    assert_eq!(parse_token(&toks), Err(ParseError::ExpectedIdentifier));
    let toks = tokenize_string("fn fn").unwrap();
    assert_eq!(parse_token(&toks), Err(ParseError::ExpectedIdentifier));
    let toks = tokenize_string("fn 0() {}").unwrap();
    assert_eq!(parse_token(&toks), Err(ParseError::ExpectedIdentifier));
}

#[test]
fn test_ast_defaults() {
    assert_eq!(AstNodeType::default(), AstNodeType::Unresolved);
    assert_eq!(AstNodeData::default(), empty_data());
    assert_eq!(AstNodeProxy::default(), AstNodeProxy::Unresolved);
    assert_eq!(AstNodeProxyMut::default(), AstNodeProxyMut::Unresolved);
}

#[test]
fn test_dev() {
    assert!(nx::dev().is_ok());
}
