//! The rule `no-string-refs`: string literals in `ref` attributes, and `this.refs`, are
//! deprecated in React.
use super::ast::{
    AstKind, AstNode, Expression, JSXAttribute, JSXAttributeName, JSXAttributeValue, JSXExpression,
    JSXExpressionContainer,
};
use super::component::get_parent_component;
use super::context::{ContextHost, LanguageVariant, LintContext, OxcDiagnostic, Severity};
use crate::span::Span;
use crate::text::same;
use vstd::prelude::*;

verus! {

/// A JSON value.
#[verifier::external_type_specification]
#[verifier::external_body]
pub struct ExValue(serde_json::Value);

/// The members of a JSON object that are booleans. A value of another kind has none.
pub uninterp spec fn bool_members(value: serde_json::Value) -> Map<Seq<char>, bool>;

/// `serde_json::Value::get` with a string, then `serde_json::Value::as_bool`: the boolean under
/// that key. There is none where the value is no object, where the object has no such key, and
/// where what stands under it is no boolean.
#[verifier::external_body]
fn bool_member(value: &serde_json::Value, key: &str) -> (member: Option<bool>)
    ensures
        match member {
            Some(flag) => bool_members(*value).contains_pair(key@, flag),
            None => !bool_members(*value).contains_key(key@),
        },
{
    value.get(key).and_then(serde_json::Value::as_bool)
}

/// The finding at `this.refs`.
pub open spec fn this_refs_finding(span: Span) -> OxcDiagnostic {
    OxcDiagnostic {
        severity: Severity::Warning,
        message: "Using this.refs is deprecated.",
        help: "Using this.xxx instead of this.refs.xxx",
        label: span,
    }
}

/// The finding at a `ref` attribute.
pub open spec fn string_in_ref_finding(span: Span) -> OxcDiagnostic {
    OxcDiagnostic {
        severity: Severity::Warning,
        message: "Using string literals in ref attributes is deprecated.",
        help: "Using reference callback instead",
        label: span,
    }
}

fn this_refs_deprecated(span: Span) -> (diagnostic: OxcDiagnostic)
    ensures
        diagnostic == this_refs_finding(span),
{
    OxcDiagnostic {
        severity: Severity::Warning,
        message: "Using this.refs is deprecated.",
        help: "Using this.xxx instead of this.refs.xxx",
        label: span,
    }
}

fn string_in_ref_deprecated(span: Span) -> (diagnostic: OxcDiagnostic)
    ensures
        diagnostic == string_in_ref_finding(span),
{
    OxcDiagnostic {
        severity: Severity::Warning,
        message: "Using string literals in ref attributes is deprecated.",
        help: "Using reference callback instead",
        label: span,
    }
}

/// The expression is a string literal, or a template literal where those count too.
pub open spec fn is_string(expression: JSXExpression, no_template_literals: bool) -> bool {
    match expression {
        JSXExpression::StringLiteral => true,
        JSXExpression::TemplateLiteral => no_template_literals,
        JSXExpression::Other => false,
    }
}

/// The attribute is `ref`, and its value is a string.
pub open spec fn is_string_ref(attr: JSXAttribute, no_template_literals: bool) -> bool {
    &&& attr.name matches JSXAttributeName::Identifier(name)
    &&& name@ == "ref"@
    &&& match attr.value {
        Some(JSXAttributeValue::StringLiteral) => true,
        Some(JSXAttributeValue::ExpressionContainer(container)) => is_string(
            container.expression,
            no_template_literals,
        ),
        _ => false,
    }
}

/// The node is `this.refs` in a component.
pub open spec fn is_this_refs(nodes: Seq<AstNode>, id: int) -> bool {
    &&& nodes[id].kind matches AstKind::MemberExpression(member)
    &&& member.object is ThisExpression
    &&& member.static_property_name matches Some(name)
    &&& name@ == "refs"@
    &&& super::component::parent_component(nodes, id) is Some
}

/// Tells whether the braces hold a string literal, or a template literal where those count.
pub fn contains_string_literal(
    expr_container: &JSXExpressionContainer,
    no_template_literals: bool,
) -> (found: bool)
    ensures
        found == is_string(expr_container.expression, no_template_literals),
{
    let expr = expr_container.expression;
    expr == JSXExpression::StringLiteral || (no_template_literals && expr
        == JSXExpression::TemplateLiteral)
}

/// Tells whether the attribute is `ref` with a string for its value.
pub fn is_literal_ref_attribute(attr: &JSXAttribute, no_template_literals: bool) -> (found: bool)
    ensures
        found == is_string_ref(*attr, no_template_literals),
{
    match &attr.name {
        JSXAttributeName::Identifier(attr_ident) => {
            if !same(attr_ident.as_str(), "ref") {
                return false;
            }
            match &attr.value {
                Some(JSXAttributeValue::ExpressionContainer(expr_container)) => {
                    contains_string_literal(expr_container, no_template_literals)
                },
                Some(JSXAttributeValue::StringLiteral) => true,
                _ => false,
            }
        },
        JSXAttributeName::NamespacedName => false,
    }
}

/// The rule, with its configuration.
#[derive(Clone, Debug)]
pub struct NoStringRefs {
    /// A template literal counts as a string too.
    pub no_template_literals: bool,
}

impl NoStringRefs {
    /// The name of the rule.
    pub const NAME: &'static str = "no-string-refs";

    /// The plugin that the rule belongs to.
    pub const PLUGIN: &'static str = "react";

    /// The category of the rule.
    pub const CATEGORY: &'static str = "correctness";

    /// What the rule reports of a node.
    pub open spec fn findings(self, nodes: Seq<AstNode>, id: int) -> Seq<OxcDiagnostic> {
        match nodes[id].kind {
            AstKind::JSXAttribute(attr) => if is_string_ref(attr, self.no_template_literals) {
                seq![string_in_ref_finding(attr.span)]
            } else {
                Seq::empty()
            },
            AstKind::MemberExpression(member) => if is_this_refs(nodes, id) {
                seq![this_refs_finding(member.span)]
            } else {
                Seq::empty()
            },
            _ => Seq::empty(),
        }
    }

    /// The rule for a setting: where it is absent, template literals do not count.
    pub open spec fn configured(setting: Option<bool>) -> NoStringRefs {
        NoStringRefs { no_template_literals: setting == Some(true) }
    }

    /// Makes the rule from the setting `noTemplateLiterals`, which may be absent.
    pub fn from_setting(setting: Option<bool>) -> (rule: NoStringRefs)
        ensures
            rule == Self::configured(setting),
    {
        NoStringRefs {
            no_template_literals: match setting {
                Some(flag) => flag,
                None => false,
            },
        }
    }

    /// Makes the rule from its configuration: the boolean `noTemplateLiterals` of an object.
    /// Anything else counts as absent.
    pub fn from_configuration(value: serde_json::Value) -> (rule: NoStringRefs)
        ensures
            rule == Self::configured(
                if bool_members(value).contains_key("noTemplateLiterals"@) {
                    Some(bool_members(value)["noTemplateLiterals"@])
                } else {
                    None
                },
            ),
            rule.no_template_literals == bool_members(value).contains_pair(
                "noTemplateLiterals"@,
                true,
            ),
    {
        NoStringRefs::from_setting(bool_member(&value, "noTemplateLiterals"))
    }

    /// Reports what the rule finds at a node.
    pub fn run(&self, node: usize, ctx: &mut LintContext)
        requires
            old(ctx).well_formed(),
            node < old(ctx).nodes@.len(),
        ensures
            final(ctx).nodes == old(ctx).nodes,
            final(ctx).diagnostics@ == old(ctx).diagnostics@ + self.findings(
                old(ctx).nodes@,
                node as int,
            ),
    {
        let found = match &ctx.nodes[node].kind {
            AstKind::JSXAttribute(attr) => {
                if is_literal_ref_attribute(attr, self.no_template_literals) {
                    Some(string_in_ref_deprecated(attr.span))
                } else {
                    None
                }
            },
            AstKind::MemberExpression(member) => match (
                &member.object,
                &member.static_property_name,
            ) {
                (Expression::ThisExpression, Some(name)) => {
                    if same(name.as_str(), "refs") && get_parent_component(
                        &ctx.nodes,
                        node,
                    ).is_some() {
                        Some(this_refs_deprecated(member.span))
                    } else {
                        None
                    }
                },
                _ => None,
            },
            _ => None,
        };
        if let Some(diagnostic) = found {
            ctx.diagnostic(diagnostic);
        }
    }

    /// Tells whether the rule is for this file.
    pub fn should_run(&self, ctx: &ContextHost) -> (runs: bool)
        ensures
            runs == (ctx.source_type.variant == LanguageVariant::Jsx),
    {
        ctx.source_type.is_jsx()
    }
}

impl Default for NoStringRefs {
    fn default() -> (rule: NoStringRefs)
        ensures
            rule == NoStringRefs::configured(None),
    {
        NoStringRefs { no_template_literals: false }
    }
}

/// A node gives at most one finding, a warning at the place of the node.
pub proof fn law_one_warning(rule: NoStringRefs, nodes: Seq<AstNode>, id: int)
    ensures
        rule.findings(nodes, id).len() <= 1,
        rule.findings(nodes, id).len() == 1 ==> {
            let finding = rule.findings(nodes, id)[0];
            finding.severity == Severity::Warning && match nodes[id].kind {
                AstKind::JSXAttribute(attr) => finding.label == attr.span,
                AstKind::MemberExpression(member) => finding.label == member.span,
                _ => false,
            }
        },
{
}

/// The attribute is `ref={...}` with a template literal.
pub open spec fn is_template_ref(attr: JSXAttribute) -> bool {
    &&& attr.name matches JSXAttributeName::Identifier(name)
    &&& name@ == "ref"@
    &&& attr.value matches Some(JSXAttributeValue::ExpressionContainer(container))
    &&& container.expression == JSXExpression::TemplateLiteral
}

/// An attribute that counts where template literals do not counts where they do. The two differ
/// at `ref` attributes with a template literal in braces, and nowhere else.
pub proof fn law_template_literals(attr: JSXAttribute)
    ensures
        is_string_ref(attr, false) ==> is_string_ref(attr, true),
        is_string_ref(attr, false) != is_string_ref(attr, true) <==> is_template_ref(attr),
{
}

/// The stricter configuration finds all that the other one finds. The two differ at `ref`
/// attributes with a template literal in braces, and nowhere else.
pub proof fn law_stricter_finds_more(nodes: Seq<AstNode>, id: int)
    ensures
        ({
            let strict = NoStringRefs { no_template_literals: true }.findings(nodes, id);
            let lax = NoStringRefs { no_template_literals: false }.findings(nodes, id);
            &&& lax.len() > 0 ==> strict == lax
            &&& strict != lax <==> (nodes[id].kind matches AstKind::JSXAttribute(attr)
                && is_template_ref(attr))
        }),
{
    if let AstKind::JSXAttribute(attr) = nodes[id].kind {
        law_template_literals(attr);
        assert(seq![string_in_ref_finding(attr.span)].len() == 1);
    }
}

/// `this.refs` is no finding where no node above it defines a component.
pub proof fn law_this_refs_needs_component(rule: NoStringRefs, nodes: Seq<AstNode>, id: int)
    requires
        nodes[id].kind is MemberExpression,
        forall|above: int| #[trigger]
            super::ast::is_above(nodes, above, id) ==> !super::component::is_component(
                nodes[above],
            ),
    ensures
        rule.findings(nodes, id).len() == 0,
{
    super::component::law_in_component(nodes, id);
}

} // verus!
