//! The flat, bracketed AST data model.
//!
//! The AST is a single growable linear sequence of nodes; nesting is
//! expressed only through matching `Start.../End...` bracket pairs,
//! never through parent or child links.

use vstd::prelude::*;

use crate::token::SourceSpan;

verus! {

/// One node of the flat AST sequence.
///
/// `Placeholder` stands for a construct whose parsing is not
/// implemented yet; it consumes no tokens and carries empty data.
#[derive(Debug, Clone, Copy, PartialEq, Eq, Structural)]
pub enum AstNode {
    // Visibility
    Visible(AstNodeData),
    Invisible(AstNodeData),
    // Types
    Unit(AstNodeData),
    Usize(AstNodeData),
    Int(AstNodeData),
    Flt(AstNodeData),
    Str(AstNodeData),
    // Values
    Integer(AstNodeData),
    Float(AstNodeData),
    StringValue(AstNodeData),
    Identifier(AstNodeData),
    // Helpers
    StartFunction(AstNodeData),
    EndFunction(AstNodeData),
    StartStatement(AstNodeData),
    EndStatement(AstNodeData),
    StartExpression(AstNodeData),
    EndExpression(AstNodeData),
    Placeholder(AstNodeData),
}

/// Span and semantic-type payload shared by every node variant.
#[derive(Debug, Clone, Copy, PartialEq, Eq, Structural)]
pub struct AstNodeData {
    pub span: SourceSpan,
    pub type_: AstNodeType,
}

/// Semantic type of a node. No analysis populates the field yet, so
/// its only state is the explicit absent value.
#[derive(Debug, Clone, Copy, PartialEq, Eq, Structural)]
pub enum AstNodeType {
    Unresolved,
}

/// Read proxy over a node; no variants are populated yet.
#[derive(Debug, Clone, Copy, PartialEq, Eq, Structural)]
pub enum AstNodeProxy {
    Unresolved,
}

/// Write proxy over a node; no variants are populated yet.
#[derive(Debug, Clone, Copy, PartialEq, Eq, Structural)]
pub enum AstNodeProxyMut {
    Unresolved,
}

/// Node data before any span or type is attached.
pub open spec fn empty_node_data() -> AstNodeData {
    AstNodeData { span: SourceSpan { start: 0, end: 0 }, type_: AstNodeType::Unresolved }
}

impl Default for AstNodeType {
    fn default() -> (r: AstNodeType)
        ensures
            r == AstNodeType::Unresolved,
    {
        AstNodeType::Unresolved
    }
}

impl Default for AstNodeData {
    fn default() -> (r: AstNodeData)
        ensures
            r == empty_node_data(),
    {
        AstNodeData { span: SourceSpan { start: 0, end: 0 }, type_: AstNodeType::Unresolved }
    }
}

impl Default for AstNodeProxy {
    fn default() -> (r: AstNodeProxy)
        ensures
            r == AstNodeProxy::Unresolved,
    {
        AstNodeProxy::Unresolved
    }
}

impl Default for AstNodeProxyMut {
    fn default() -> (r: AstNodeProxyMut)
        ensures
            r == AstNodeProxyMut::Unresolved,
    {
        AstNodeProxyMut::Unresolved
    }
}

} // verus!
