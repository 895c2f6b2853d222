//! The parser: a token sequence in, a flat bracketed AST sequence out.
//!
//! Top-level constructs are recognized by one token of lookahead over
//! an explicit cursor. A `fn` token opens function parsing; any other
//! token discards the working buffer and advances the cursor by one.
//! Nodes are appended to a working buffer that is committed to the
//! result only when a whole function was parsed.

use vstd::prelude::*;

use crate::ast::{AstNode, AstNodeData, AstNodeType, empty_node_data};
use crate::error::ParseError;
use crate::token::{SourceSpan, Token, spec_idx_val_span};

verus! {

/// The nodes appended for one parsed function declaration: brackets
/// around a visibility marker, the name, and placeholders for the
/// parameter list, the return type and the body.
pub open spec fn fn_nodes(name_span: SourceSpan) -> Seq<AstNode> {
    seq![
        AstNode::StartFunction(empty_node_data()),
        AstNode::Invisible(empty_node_data()),
        AstNode::Identifier(AstNodeData { span: name_span, type_: AstNodeType::Unresolved }),
        AstNode::Placeholder(empty_node_data()),
        AstNode::Placeholder(empty_node_data()),
        AstNode::Placeholder(empty_node_data()),
        AstNode::EndFunction(empty_node_data()),
    ]
}

/// Nodes produced by scanning from token `i` on: one `fn_nodes` group
/// per recognized function declaration. `None` reports a function
/// whose `fn` keyword is not followed by an identifier.
pub open spec fn spec_parse(tokens: Seq<Token>, i: int) -> Option<Seq<AstNode>>
    decreases tokens.len() - i,
{
    if i < 0 || i >= tokens.len() {
        Some(Seq::empty())
    } else if tokens[i] is Fn {
        if i + 1 < tokens.len() && tokens[i + 1] is IdxVal {
            match spec_parse(tokens, i + 2) {
                Some(rest) => Some(fn_nodes(spec_idx_val_span(tokens[i + 1]).unwrap()) + rest),
                None => None,
            }
        } else {
            None
        }
    } else {
        spec_parse(tokens, i + 1)
    }
}

/// Already-committed nodes prepended to the outcome of the remaining
/// scan.
pub open spec fn opt_prepend(pre: Seq<AstNode>, rest: Option<Seq<AstNode>>) -> Option<
    Seq<AstNode>,
> {
    match rest {
        Some(ns) => Some(pre + ns),
        None => None,
    }
}

/// Emit the unconditional `Invisible` visibility marker. Visibility
/// syntax is not implemented yet: the cursor advances by one token
/// regardless of what that token is.
fn parse_visibility(ast: &mut Vec<AstNode>, _tokens: &[Token], token_index: usize) -> (r: usize)
    requires
        token_index < _tokens@.len(),
    ensures
        final(ast)@ == old(ast)@.push(AstNode::Invisible(empty_node_data())),
        r == token_index + 1,
{
    let num_tokens = _tokens.len();
    let visibility = AstNode::Invisible(
        AstNodeData { span: SourceSpan { start: 0, end: 0 }, type_: AstNodeType::Unresolved },
    );
    ast.push(visibility);
    proof {
        assert(token_index < num_tokens);
    }
    token_index + 1
}

/// Read the function name. The token under the cursor must be
/// identifier-shaped; anything else is reported as a structured error.
fn parse_identifier(ast: &mut Vec<AstNode>, tokens: &[Token], token_index: usize) -> (r: Result<
    usize,
    ParseError,
>)
    ensures
        ({
            if token_index < tokens@.len() && tokens@[token_index as int] is IdxVal {
                r matches Ok(n) && n == token_index + 1 && final(ast)@ == old(ast)@.push(
                    AstNode::Identifier(
                        AstNodeData {
                            span: spec_idx_val_span(tokens@[token_index as int]).unwrap(),
                            type_: AstNodeType::Unresolved,
                        },
                    ),
                )
            } else {
                r == Err::<usize, ParseError>(ParseError::ExpectedIdentifier) && final(ast)@
                    == old(ast)@
            }
        }),
{
    if token_index >= tokens.len() {
        return Err(ParseError::ExpectedIdentifier);
    }
    match tokens[token_index].idx_val_span() {
        Some(span) => {
            let identifier = AstNode::Identifier(
                AstNodeData { span, type_: AstNodeType::Unresolved },
            );
            ast.push(identifier);
            Ok(token_index + 1)
        },
        None => Err(ParseError::ExpectedIdentifier),
    }
}

/// Emit the parameter-list placeholder; parameter parsing is not
/// implemented yet, so no tokens are consumed.
fn parse_argument(ast: &mut Vec<AstNode>, _tokens: &[Token], token_index: usize) -> (r: usize)
    ensures
        final(ast)@ == old(ast)@.push(AstNode::Placeholder(empty_node_data())),
        r == token_index,
{
    ast.push(
        AstNode::Placeholder(
            AstNodeData { span: SourceSpan { start: 0, end: 0 }, type_: AstNodeType::Unresolved },
        ),
    );
    token_index
}

/// Emit the return-type placeholder; type parsing is not implemented
/// yet, so no tokens are consumed.
fn parse_type(ast: &mut Vec<AstNode>, _tokens: &[Token], token_index: usize) -> (r: usize)
    ensures
        final(ast)@ == old(ast)@.push(AstNode::Placeholder(empty_node_data())),
        r == token_index,
{
    ast.push(
        AstNode::Placeholder(
            AstNodeData { span: SourceSpan { start: 0, end: 0 }, type_: AstNodeType::Unresolved },
        ),
    );
    token_index
}

/// Emit the body placeholder; block parsing is not implemented yet, so
/// no tokens are consumed.
fn parse_block(ast: &mut Vec<AstNode>, _tokens: &[Token], token_index: usize) -> (r: usize)
    ensures
        final(ast)@ == old(ast)@.push(AstNode::Placeholder(empty_node_data())),
        r == token_index,
{
    ast.push(
        AstNode::Placeholder(
            AstNodeData { span: SourceSpan { start: 0, end: 0 }, type_: AstNodeType::Unresolved },
        ),
    );
    token_index
}

/// Parse one function declaration whose `fn` keyword stands at
/// `token_index`, appending its nodes to the working buffer.
fn parse_function(ast: &mut Vec<AstNode>, tokens: &[Token], token_index: usize) -> (r: Result<
    usize,
    ParseError,
>)
    requires
        token_index < tokens@.len(),
    ensures
        ({
            if token_index + 1 < tokens@.len() && tokens@[token_index + 1] is IdxVal {
                r matches Ok(n) && n == token_index + 2 && final(ast)@ == old(ast)@ + fn_nodes(
                    spec_idx_val_span(tokens@[token_index + 1]).unwrap(),
                )
            } else {
                r == Err::<usize, ParseError>(ParseError::ExpectedIdentifier) && final(ast)@
                    == old(ast)@.push(AstNode::StartFunction(empty_node_data())).push(
                    AstNode::Invisible(empty_node_data()),
                )
            }
        }),
{
    // Mark the start of the function
    ast.push(
        AstNode::StartFunction(
            AstNodeData { span: SourceSpan { start: 0, end: 0 }, type_: AstNodeType::Unresolved },
        ),
    );

    // Parse the rest of the nodes
    let next = parse_visibility(ast, tokens, token_index);
    let next = match parse_identifier(ast, tokens, next) {
        Ok(n) => n,
        Err(e) => {
            return Err(e);
        },
    };
    let next = parse_argument(ast, tokens, next);
    let next = parse_type(ast, tokens, next);
    let next = parse_block(ast, tokens, next);

    // Mark the end of the function
    ast.push(
        AstNode::EndFunction(
            AstNodeData { span: SourceSpan { start: 0, end: 0 }, type_: AstNodeType::Unresolved },
        ),
    );
    proof {
        assert(ast@ =~= old(ast)@ + fn_nodes(
            spec_idx_val_span(tokens@[token_index + 1]).unwrap(),
        ));
    }
    Ok(next)
}

/// Parse tokens one by one until all are processed. Since top-level
/// entities are expected to occur first in the code, they are parsed
/// with a recursive descent over a working buffer that is committed
/// only when a whole construct was recognized.
pub fn parse_token(tokens: &[Token]) -> (r: Result<Vec<AstNode>, ParseError>)
    ensures
        tokens@.len() == 0 ==> r == Err::<Vec<AstNode>, ParseError>(ParseError::EmptyInput),
        tokens@.len() > 0 ==> match spec_parse(tokens@, 0) {
            Some(nodes) => r matches Ok(v) && v@ == nodes,
            None => r == Err::<Vec<AstNode>, ParseError>(ParseError::ExpectedIdentifier),
        },
{
    if tokens.len() == 0 {
        return Err(ParseError::EmptyInput);
    }

    let mut xast: Vec<AstNode> = Vec::new();
    let mut ast: Vec<AstNode> = Vec::new();
    let mut token_index: usize = 0;

    proof {
        match spec_parse(tokens@, 0) {
            Some(ns) => {
                assert(Seq::<AstNode>::empty() + ns =~= ns);
            },
            None => {},
        }
    }
    while token_index < tokens.len()
        invariant
            token_index <= tokens@.len(),
            xast@.len() == 0,
            spec_parse(tokens@, 0) == opt_prepend(ast@, spec_parse(tokens@, token_index as int)),
        decreases tokens@.len() - token_index,
    {
        if tokens[token_index].is_fn_keyword() {
            let ghost pre = ast@;
            match parse_function(&mut xast, tokens, token_index) {
                Ok(next) => {
                    // Store the nodes and reset the working buffer
                    ast.append(&mut xast);
                    proof {
                        match spec_parse(tokens@, token_index + 2) {
                            Some(rest) => {
                                let group = fn_nodes(
                                    spec_idx_val_span(tokens@[token_index + 1]).unwrap(),
                                );
                                assert(pre + (group + rest) =~= (pre + group) + rest);
                            },
                            None => {},
                        }
                    }
                    // Advance the cursor to process the remaining tokens
                    token_index = next;
                },
                Err(e) => {
                    return Err(e);
                },
            }
        } else {
            // Reset, and advance the cursor to process the remaining
            // tokens
            xast.clear();
            token_index = token_index + 1;
        }
    }
    Ok(ast)
}

} // verus!
