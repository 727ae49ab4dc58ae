//! What the rule promises of every tree.
use super::ast::{
    AstKind, AstNode, Expression, JSXAttribute, JSXAttributeName, JSXAttributeValue, JSXExpression,
    JSXExpressionContainer, MemberExpression,
};
use super::context::{LintContext, OxcDiagnostic, Severity};
use super::no_string_refs::NoStringRefs;
use vstd::prelude::*;

verus! {

/// The expression is this name, or `React.` and this name.
pub open spec fn names(expression: Expression, name: Seq<char>) -> bool {
    match expression {
        Expression::ThisExpression => false,
        Expression::Identifier(text) => text@ == name,
        Expression::MemberExpression(member) => match (
            member.object,
            member.static_property_name,
        ) {
            (Expression::Identifier(object), Some(property)) => object@ == "React"@ && property@
                == name,
            _ => false,
        },
        Expression::Other => false,
    }
}

/// What defines a component: a call of `createReactClass`, and a class that extends `Component`
/// or `PureComponent`.
pub open spec fn defines_component(kind: AstKind) -> bool {
    match kind {
        AstKind::CallExpression { callee } => names(callee, "createReactClass"@),
        AstKind::Class { super_class: Some(class) } => names(class, "Component"@) || names(
            class,
            "PureComponent"@,
        ),
        _ => false,
    }
}

/// The path goes from a node to the one above it, to the one above that, and so on.
pub open spec fn leads_up(nodes: Seq<AstNode>, path: Seq<usize>) -> bool {
    &&& forall|i: int| 0 <= i < path.len() ==> (#[trigger] path[i]) < nodes.len()
    &&& forall|i: int, j: int|
        0 <= i < path.len() && j == i + 1 && j < path.len() ==> nodes[(
        #[trigger] path[i]) as int].parent == Some(#[trigger] path[j])
}

/// Each node stands behind the one above it.
pub open spec fn root_first(nodes: Seq<AstNode>) -> bool {
    forall|i: int|
        0 <= i < nodes.len() && (#[trigger] nodes[i]).parent is Some ==> nodes[i].parent->0 < i
}

/// The trees that the rule takes are those whose nodes are numbered from the root down.
pub proof fn law_trees(nodes: Seq<AstNode>, ctx: LintContext)
    ensures
        super::ast::is_tree(nodes) == root_first(nodes),
        ctx.well_formed() == root_first(ctx.nodes@),
{
    assert(super::ast::is_tree(nodes) ==> root_first(nodes));
    assert(root_first(nodes) ==> super::ast::is_tree(nodes));
    assert(super::ast::is_tree(ctx.nodes@) ==> root_first(ctx.nodes@));
    assert(root_first(ctx.nodes@) ==> super::ast::is_tree(ctx.nodes@));
}

/// `this.refs`.
pub open spec fn reads_refs(member: MemberExpression) -> bool {
    match (member.object, member.static_property_name) {
        (Expression::ThisExpression, Some(name)) => name@ == "refs"@,
        _ => false,
    }
}

/// Which nodes define a component.
pub proof fn law_components(node: AstNode)
    ensures
        super::component::is_component(node) == defines_component(node.kind),
        super::component::es5_component(node.kind) == (defines_component(node.kind)
            && node.kind is CallExpression),
        super::component::es6_component(node.kind) == (defines_component(node.kind)
            && node.kind is Class),
{
}

/// A node stands above another exactly where a path leads up to it.
pub proof fn law_above(nodes: Seq<AstNode>, path: Seq<usize>)
    requires
        root_first(nodes),
        leads_up(nodes, path),
        path.len() > 1,
    ensures
        super::ast::is_above(nodes, path.last() as int, path[0] as int),
    decreases path.len(),
{
    assert(nodes[path[0] as int].parent == Some(path[1]));
    if path.len() > 2 {
        let rest = path.skip(1);
        assert(leads_up(nodes, rest)) by {
            assert forall|i: int, j: int|
                0 <= i < rest.len() && j == i + 1 && j < rest.len() implies nodes[(
            #[trigger] rest[i]) as int].parent == Some(#[trigger] rest[j]) by {
                assert(rest[i] == path[i + 1] && rest[j] == path[j + 1]);
            }
        }
        law_above(nodes, rest);
    }
}

/// The component that a node is in is the first one on the way up, however far it is and
/// whatever stands between. Where none is met up to the root, the node is in none.
pub proof fn law_first_component(nodes: Seq<AstNode>, path: Seq<usize>)
    requires
        root_first(nodes),
        leads_up(nodes, path),
        path.len() > 0,
        forall|i: int|
            0 < i < path.len() - 1 ==> !defines_component(nodes[(#[trigger] path[i]) as int].kind),
    ensures
        path.len() > 1 && defines_component(nodes[path.last() as int].kind)
            ==> super::component::parent_component(nodes, path[0] as int) == Some(
            path.last() as int,
        ),
        (path.len() > 1 ==> !defines_component(nodes[path.last() as int].kind))
            && nodes[path.last() as int].parent is None ==> super::component::parent_component(
            nodes,
            path[0] as int,
        ) is None,
    decreases path.len(),
{
    if path.len() > 1 {
        assert(nodes[path[0] as int].parent == Some(path[1]));
        let rest = path.skip(1);
        assert(leads_up(nodes, rest)) by {
            assert forall|i: int, j: int|
                0 <= i < rest.len() && j == i + 1 && j < rest.len() implies nodes[(
            #[trigger] rest[i]) as int].parent == Some(#[trigger] rest[j]) by {
                assert(rest[i] == path[i + 1] && rest[j] == path[j + 1]);
            }
        }
        assert forall|i: int| 0 < i < rest.len() - 1 implies !defines_component(
            nodes[(#[trigger] rest[i]) as int].kind,
        ) by {
            assert(rest[i] == path[i + 1]);
        }
        law_components(nodes[path[1] as int]);
        law_first_component(nodes, rest);
        assert(rest[0] == path[1]);
    }
}

/// Where a component is met on the way up from a node, the node is in one.
proof fn lemma_some_component(nodes: Seq<AstNode>, path: Seq<usize>)
    requires
        root_first(nodes),
        leads_up(nodes, path),
        path.len() > 1,
        defines_component(nodes[path.last() as int].kind),
    ensures
        super::component::parent_component(nodes, path[0] as int) is Some,
{
    law_above(nodes, path);
    law_components(nodes[path.last() as int]);
    super::component::law_in_component(nodes, path[0] as int);
}

/// `this.refs` with a component above it, at any distance, gives one finding, at its own place,
/// whatever the rule's configuration and whatever the node is part of.
pub proof fn law_this_refs(rule: NoStringRefs, nodes: Seq<AstNode>, path: Seq<usize>)
    requires
        root_first(nodes),
        leads_up(nodes, path),
        path.len() > 1,
        defines_component(nodes[path.last() as int].kind),
    ensures
        nodes[path[0] as int].kind matches AstKind::MemberExpression(member) ==> (reads_refs(member)
            ==> rule.findings(nodes, path[0] as int) == seq![
            OxcDiagnostic {
                severity: Severity::Warning,
                message: "Using this.refs is deprecated.",
                help: "Using this.xxx instead of this.refs.xxx",
                label: member.span,
            },
        ]),
{
    lemma_some_component(nodes, path);
}

/// A member expression gives no finding where it is not `this.refs`, and none where no component
/// stands above it.
pub proof fn law_other_members(rule: NoStringRefs, nodes: Seq<AstNode>, path: Seq<usize>)
    requires
        root_first(nodes),
        leads_up(nodes, path),
        path.len() > 0,
    ensures
        nodes[path[0] as int].kind matches AstKind::MemberExpression(member) ==> (!reads_refs(
            member,
        ) ==> rule.findings(nodes, path[0] as int) == Seq::<OxcDiagnostic>::empty()),
        nodes[path[0] as int].kind is MemberExpression && nodes[path.last() as int].parent is None
            && (forall|i: int|
            0 < i < path.len() ==> !defines_component(nodes[(#[trigger] path[i]) as int].kind))
            ==> rule.findings(nodes, path[0] as int) == Seq::<OxcDiagnostic>::empty(),
{
    if forall|i: int|
        0 < i < path.len() ==> !defines_component(nodes[(#[trigger] path[i]) as int].kind) {
        law_first_component(nodes, path);
    }
}

/// The attribute `ref` with a value.
pub open spec fn ref_value(attr: JSXAttribute) -> Option<JSXAttributeValue> {
    match attr.name {
        JSXAttributeName::Identifier(name) => if name@ == "ref"@ {
            attr.value
        } else {
            None
        },
        JSXAttributeName::NamespacedName => None,
    }
}

/// An attribute gives one finding, at its own place, where it is `ref` with a string literal,
/// bare or in braces, and under the stricter configuration with a template literal in braces; in
/// any tree. No other attribute gives one.
pub proof fn law_ref_attribute(
    rule: NoStringRefs,
    nodes: Seq<AstNode>,
    id: int,
    attr: JSXAttribute,
)
    requires
        nodes[id].kind == AstKind::JSXAttribute(attr),
    ensures
        ({
            let literal = Some(JSXAttributeValue::StringLiteral);
            let in_braces = Some(
                JSXAttributeValue::ExpressionContainer(
                    JSXExpressionContainer { expression: JSXExpression::StringLiteral },
                ),
            );
            let template = Some(
                JSXAttributeValue::ExpressionContainer(
                    JSXExpressionContainer { expression: JSXExpression::TemplateLiteral },
                ),
            );
            let value = ref_value(attr);
            let counts = value == literal || value == in_braces || rule.no_template_literals
                && value == template;
            rule.findings(nodes, id) == if counts {
                seq![
                    OxcDiagnostic {
                        severity: Severity::Warning,
                        message: "Using string literals in ref attributes is deprecated.",
                        help: "Using reference callback instead",
                        label: attr.span,
                    },
                ]
            } else {
                Seq::empty()
            }
        }),
{
}

/// Calls, classes and all other nodes give no finding.
pub proof fn law_no_other_finding(rule: NoStringRefs, nodes: Seq<AstNode>, id: int)
    ensures
        nodes[id].kind !is JSXAttribute && nodes[id].kind !is MemberExpression ==> rule.findings(
            nodes,
            id,
        ) == Seq::<OxcDiagnostic>::empty(),
{
}

/// The configuration is what was set, and lax where nothing was.
pub proof fn law_configured(flag: bool)
    ensures
        NoStringRefs::configured(Some(flag)).no_template_literals == flag,
        !NoStringRefs::configured(None).no_template_literals,
{
}

} // verus!
