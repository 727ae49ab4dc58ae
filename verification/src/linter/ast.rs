//! The parts of a syntax tree that the rule reads.
use crate::span::Span;
use vstd::prelude::*;

verus! {

/// An expression, as far as the rule tells expressions apart.
#[derive(Debug)]
pub enum Expression {
    ThisExpression,
    Identifier(String),
    MemberExpression(Box<MemberExpression>),
    Other,
}

/// `object.property`, `object[property]` or `object.#property`.
#[derive(Debug)]
pub struct MemberExpression {
    pub object: Expression,
    /// The name of the property, where the source shows it. A private name is none.
    pub static_property_name: Option<String>,
    pub span: Span,
}

/// What stands between the braces of `{...}` in JSX.
#[derive(Clone, Copy, Debug, PartialEq, Eq, Structural)]
pub enum JSXExpression {
    StringLiteral,
    TemplateLiteral,
    Other,
}

#[derive(Clone, Copy, Debug, PartialEq, Eq, Structural)]
pub struct JSXExpressionContainer {
    pub expression: JSXExpression,
}

#[derive(Clone, Debug)]
pub enum JSXAttributeName {
    Identifier(String),
    /// `namespace:name`.
    NamespacedName,
}

#[derive(Clone, Copy, Debug, PartialEq, Eq, Structural)]
pub enum JSXAttributeValue {
    StringLiteral,
    ExpressionContainer(JSXExpressionContainer),
    /// An element or a fragment.
    Other,
}

/// An attribute of a JSX element.
#[derive(Clone, Debug)]
pub struct JSXAttribute {
    pub name: JSXAttributeName,
    pub value: Option<JSXAttributeValue>,
    pub span: Span,
}

#[derive(Debug)]
pub enum AstKind {
    JSXAttribute(JSXAttribute),
    MemberExpression(MemberExpression),
    CallExpression { callee: Expression },
    Class { super_class: Option<Expression> },
    Other,
}

/// A node of the tree.
#[derive(Debug)]
pub struct AstNode {
    pub kind: AstKind,
    /// The number of the node above this one. The root has none.
    pub parent: Option<usize>,
}

/// The nodes are numbered from the root down: each stands behind the one above it.
pub open spec fn is_tree(nodes: Seq<AstNode>) -> bool {
    forall|i: int|
        0 <= i < nodes.len() ==> match (#[trigger] nodes[i]).parent {
            Some(parent) => parent < i,
            None => true,
        }
}

/// One node stands above the other, at any distance.
pub open spec fn is_above(nodes: Seq<AstNode>, above: int, id: int) -> bool
    decreases id,
{
    &&& 0 <= id < nodes.len()
    &&& nodes[id].parent matches Some(parent)
    &&& parent < id
    &&& parent == above || is_above(nodes, above, parent as int)
}

} // verus!
