//! React components in a syntax tree.
use super::ast::{AstKind, AstNode, Expression};
use crate::text::same;
use vstd::prelude::*;

verus! {

/// The name is one of two.
pub open spec fn one_of(name: Seq<char>, first: Seq<char>, second: Seq<char>) -> bool {
    name == first || name == second
}

/// The expression is one of two names, bare or as a property of `React`.
pub open spec fn is_react_name(
    expression: Expression,
    first: Seq<char>,
    second: Seq<char>,
) -> bool {
    match expression {
        Expression::Identifier(name) => one_of(name@, first, second),
        Expression::MemberExpression(member) => {
            &&& member.object matches Expression::Identifier(object)
            &&& object@ == "React"@
            &&& member.static_property_name matches Some(name)
            &&& one_of(name@, first, second)
        },
        _ => false,
    }
}

/// A call of `createReactClass`.
pub open spec fn es5_component(kind: AstKind) -> bool {
    kind matches AstKind::CallExpression { callee } && is_react_name(
        callee,
        "createReactClass"@,
        "createReactClass"@,
    )
}

/// A class that extends `Component` or `PureComponent`.
pub open spec fn es6_component(kind: AstKind) -> bool {
    &&& kind matches AstKind::Class { super_class }
    &&& super_class matches Some(super_class)
    &&& is_react_name(super_class, "Component"@, "PureComponent"@)
}

/// The node defines a component.
pub open spec fn is_component(node: AstNode) -> bool {
    es5_component(node.kind) || es6_component(node.kind)
}

/// The nearest node above this one that defines a component.
pub open spec fn parent_component(nodes: Seq<AstNode>, id: int) -> Option<int>
    decreases id,
{
    if id < 0 || id >= nodes.len() {
        None
    } else {
        match nodes[id].parent {
            Some(parent) => if parent >= id {
                None
            } else if is_component(nodes[parent as int]) {
                Some(parent as int)
            } else {
                parent_component(nodes, parent as int)
            },
            None => None,
        }
    }
}

fn matches_react_name(expression: &Expression, first: &str, second: &str) -> (matched: bool)
    ensures
        matched == is_react_name(*expression, first@, second@),
{
    match expression {
        Expression::Identifier(name) => same(name.as_str(), first) || same(name.as_str(), second),
        Expression::MemberExpression(member) => match (
            &member.object,
            &member.static_property_name,
        ) {
            (Expression::Identifier(object), Some(name)) => same(object.as_str(), "React") && (same(
                name.as_str(),
                first,
            ) || same(name.as_str(), second)),
            _ => false,
        },
        _ => false,
    }
}

/// Tells whether the node is a call of `createReactClass`, bare or as a property of `React`.
pub fn is_es5_component(node: &AstNode) -> (component: bool)
    ensures
        component == es5_component(node.kind),
{
    match &node.kind {
        AstKind::CallExpression { callee } => matches_react_name(
            callee,
            "createReactClass",
            "createReactClass",
        ),
        _ => false,
    }
}

/// Tells whether the node is a class that extends `Component` or `PureComponent`, bare or as
/// a property of `React`.
pub fn is_es6_component(node: &AstNode) -> (component: bool)
    ensures
        component == es6_component(node.kind),
{
    match &node.kind {
        AstKind::Class { super_class: Some(super_class) } => matches_react_name(
            super_class,
            "Component",
            "PureComponent",
        ),
        _ => false,
    }
}

/// Finds the nearest node above this one that defines a component.
pub fn get_parent_component(nodes: &Vec<AstNode>, id: usize) -> (component: Option<usize>)
    requires
        super::ast::is_tree(nodes@),
        id < nodes@.len(),
    ensures
        match component {
            Some(found) => parent_component(nodes@, id as int) == Some(found as int),
            None => parent_component(nodes@, id as int) is None,
        },
{
    let mut current: usize = id;
    loop
        invariant
            super::ast::is_tree(nodes@),
            current < nodes@.len(),
            parent_component(nodes@, current as int) == parent_component(nodes@, id as int),
        decreases current,
    {
        match nodes[current].parent {
            Some(parent) => {
                if is_es5_component(&nodes[parent]) || is_es6_component(&nodes[parent]) {
                    return Some(parent);
                }
                current = parent;
            },
            None => {
                return None;
            },
        }
    }
}

/// A node is in a component if and only if one of the nodes above it defines a component.
pub proof fn law_in_component(nodes: Seq<AstNode>, id: int)
    ensures
        parent_component(nodes, id) is Some <==> exists|above: int| #[trigger]
            super::ast::is_above(nodes, above, id) && is_component(nodes[above]),
    decreases id,
{
    if 0 <= id < nodes.len() {
        if let Some(parent) = nodes[id].parent {
            if parent < id {
                law_in_component(nodes, parent as int);
                assert(super::ast::is_above(nodes, parent as int, id));
                assert forall|above: int| #[trigger]
                    super::ast::is_above(nodes, above, id) implies above == parent
                    || super::ast::is_above(nodes, above, parent as int) by {}
                if parent_component(nodes, parent as int) is Some {
                    let above = choose|above: int| #[trigger]
                        super::ast::is_above(nodes, above, parent as int) && is_component(
                            nodes[above],
                        );
                    assert(super::ast::is_above(nodes, above, id));
                }
            }
        }
    }
}

/// The component that a node is in stands above it, and no other component stands between.
pub proof fn law_nearest_component(nodes: Seq<AstNode>, id: int, between: int)
    requires
        parent_component(nodes, id) is Some,
    ensures
        ({
            let found = parent_component(nodes, id)->0;
            &&& super::ast::is_above(nodes, found, id)
            &&& is_component(nodes[found])
            &&& super::ast::is_above(nodes, between, id) && super::ast::is_above(
                nodes,
                found,
                between,
            ) ==> !is_component(nodes[between])
        }),
    decreases id,
{
    let parent = nodes[id].parent->0 as int;
    if is_component(nodes[parent]) {
        if super::ast::is_above(nodes, between, id) && super::ast::is_above(
            nodes,
            parent,
            between,
        ) {
            lemma_above_is_before(nodes, parent, between);
            if between != parent {
                lemma_above_is_before(nodes, between, parent);
            }
        }
    } else {
        law_nearest_component(nodes, parent, between);
    }
}

proof fn lemma_above_is_before(nodes: Seq<AstNode>, above: int, id: int)
    requires
        super::ast::is_above(nodes, above, id),
    ensures
        above < id,
    decreases id,
{
    let parent = nodes[id].parent->0 as int;
    if parent != above {
        lemma_above_is_before(nodes, above, parent);
    }
}

} // verus!
