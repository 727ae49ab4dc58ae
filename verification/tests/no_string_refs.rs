use oxc_core::linter::ast::{
    AstKind, AstNode, Expression, JSXAttribute, JSXAttributeName, JSXAttributeValue, JSXExpression,
    JSXExpressionContainer, MemberExpression,
};
use oxc_core::linter::component::{get_parent_component, is_es5_component, is_es6_component};
use oxc_core::linter::context::{
    ContextHost, LanguageVariant, LintContext, OxcDiagnostic, Severity, SourceType,
};
use oxc_core::linter::no_string_refs::{is_literal_ref_attribute, NoStringRefs};
use oxc_core::span::Span;

/// A syntax tree that grows from the root down.
struct Tree {
    nodes: Vec<AstNode>,
}

impl Tree {
    fn new() -> Tree {
        Tree { nodes: vec![AstNode { kind: AstKind::Other, parent: None }] }
    }

    fn add(&mut self, parent: usize, kind: AstKind) -> usize {
        self.nodes.push(AstNode { kind, parent: Some(parent) });
        self.nodes.len() - 1
    }

    /// `this.name`.
    fn this_member(&mut self, parent: usize, name: &str, span: Span) -> usize {
        self.add(parent, AstKind::MemberExpression(this_dot(name, span)))
    }

    /// `this.outer.inner`.
    fn this_path(&mut self, parent: usize, outer: &str, inner: &str, span: Span) {
        let member = MemberExpression {
            object: Expression::MemberExpression(Box::new(this_dot(outer, span))),
            static_property_name: Some(inner.to_string()),
            span: Span::new(span.start, span.end + 6),
        };
        let whole = self.add(parent, AstKind::MemberExpression(member));
        self.this_member(whole, outer, span);
    }

    /// A function that is a property of an object or a method of a class.
    fn method(&mut self, parent: usize) -> usize {
        let property = self.add(parent, AstKind::Other);
        self.add(property, AstKind::Other)
    }

    /// `<div ref=value>Hello {this.props.name}</div>`.
    fn div(&mut self, parent: usize, value: JSXAttributeValue, span: Span) {
        let element = self.add(parent, AstKind::Other);
        self.add(
            element,
            AstKind::JSXAttribute(JSXAttribute {
                name: JSXAttributeName::Identifier("ref".to_string()),
                value: Some(value),
                span,
            }),
        );
        self.this_path(element, "props", "name", Span::new(500, 510));
    }

    fn lint(self, config: Option<&str>) -> Vec<OxcDiagnostic> {
        let rule = match config {
            Some(json) => NoStringRefs::from_configuration(serde_json::from_str(json).unwrap()),
            None => NoStringRefs::default(),
        };
        assert!(rule.should_run(&host(LanguageVariant::Jsx)));
        let mut ctx = LintContext::new(self.nodes);
        for id in 0..ctx.nodes.len() {
            rule.run(id, &mut ctx);
        }
        ctx.diagnostics
    }
}

fn host(variant: LanguageVariant) -> ContextHost {
    ContextHost { source_type: SourceType { variant } }
}

fn this_dot(name: &str, span: Span) -> MemberExpression {
    MemberExpression {
        object: Expression::ThisExpression,
        static_property_name: Some(name.to_string()),
        span,
    }
}

fn identifier(name: &str) -> Expression {
    Expression::Identifier(name.to_string())
}

/// `React.name`.
fn react(name: &str) -> Expression {
    Expression::MemberExpression(Box::new(MemberExpression {
        object: identifier("React"),
        static_property_name: Some(name.to_string()),
        span: Span::new(0, 1),
    }))
}

fn call(callee: Expression) -> AstKind {
    AstKind::CallExpression { callee }
}

fn class_of(super_class: Expression) -> AstKind {
    AstKind::Class { super_class: Some(super_class) }
}

fn container(expression: JSXExpression) -> JSXAttributeValue {
    JSXAttributeValue::ExpressionContainer(JSXExpressionContainer { expression })
}

const NO_TEMPLATES: &str = "{ \"noTemplateLiterals\": true }";

fn refs_at() -> Span {
    Span::new(100, 109)
}

fn attr_at() -> Span {
    Span::new(200, 211)
}

fn is_this_refs(diagnostic: &OxcDiagnostic) -> bool {
    diagnostic.severity == Severity::Warning
        && diagnostic.message == "Using this.refs is deprecated."
        && diagnostic.help == "Using this.xxx instead of this.refs.xxx"
        && diagnostic.label == refs_at()
}

fn is_string_in_ref(diagnostic: &OxcDiagnostic) -> bool {
    diagnostic.severity == Severity::Warning
        && diagnostic.message == "Using string literals in ref attributes is deprecated."
        && diagnostic.help == "Using reference callback instead"
        && diagnostic.label == attr_at()
}

/// `var Hello = function() { return this.refs; };`
fn plain_function(tree: &mut Tree) {
    let variable = tree.add(0, AstKind::Other);
    let function = tree.add(variable, AstKind::Other);
    tree.this_member(function, "refs", refs_at());
}

/// A component whose `componentDidMount` reads `this.refs.hello` and whose `render` returns a
/// `div` with that `ref`.
fn component(kind: AstKind, reads_refs: bool, value: Option<JSXAttributeValue>) -> Tree {
    let mut tree = Tree::new();
    let variable = tree.add(0, AstKind::Other);
    let component = tree.add(variable, kind);
    if reads_refs {
        let mount = tree.method(component);
        tree.this_path(mount, "refs", "hello", refs_at());
    }
    let render = tree.method(component);
    match value {
        Some(value) => tree.div(render, value, attr_at()),
        None => tree.this_path(render, "props", "name", Span::new(500, 510)),
    }
    tree
}

fn es5() -> AstKind {
    call(identifier("createReactClass"))
}

#[test]
fn test() {
    // A function that is in no component.
    let mut tree = Tree::new();
    plain_function(&mut tree);
    assert!(tree.lint(None).is_empty());

    // A callback for `ref`, and `this.hello`.
    let mut tree = component(
        call(react("createReactClass")),
        false,
        Some(container(JSXExpression::Other)),
    );
    let mount = tree.method(2);
    tree.this_member(mount, "hello", Span::new(300, 310));
    assert!(tree.lint(None).is_empty());

    // Template literals, where they are allowed: `hello` and `hello${index}`.
    for _ in 0..2 {
        let tree = component(es5(), false, Some(container(JSXExpression::TemplateLiteral)));
        assert!(tree.lint(None).is_empty());
    }

    // A function beside a component.
    let mut tree = Tree::new();
    plain_function(&mut tree);
    let other = tree.add(0, es5());
    tree.method(other);
    assert!(tree.lint(None).is_empty());
    let mut tree = Tree::new();
    plain_function(&mut tree);
    let other = tree.add(0, class_of(react("Component")));
    tree.method(other);
    assert!(tree.lint(None).is_empty());

    // `this.refs.hello` in a component.
    let found = component(es5(), true, None).lint(None);
    assert_eq!(found.len(), 1);
    assert!(is_this_refs(&found[0]));

    // `ref="hello"` and `ref={'hello'}`.
    for value in [JSXAttributeValue::StringLiteral, container(JSXExpression::StringLiteral)] {
        let found = component(es5(), false, Some(value)).lint(None);
        assert_eq!(found.len(), 1);
        assert!(is_string_in_ref(&found[0]));
    }

    // Both.
    let found = component(es5(), true, Some(JSXAttributeValue::StringLiteral)).lint(None);
    assert_eq!(found.len(), 2);
    assert!(is_this_refs(&found[0]));
    assert!(is_string_in_ref(&found[1]));

    // Template literals, where they are not allowed.
    for _ in 0..2 {
        let found = component(es5(), true, Some(container(JSXExpression::TemplateLiteral)))
            .lint(Some(NO_TEMPLATES));
        assert_eq!(found.len(), 2);
        assert!(is_this_refs(&found[0]));
        assert!(is_string_in_ref(&found[1]));
    }
    let found = component(es5(), false, Some(container(JSXExpression::TemplateLiteral)))
        .lint(Some(NO_TEMPLATES));
    assert_eq!(found.len(), 1);
    assert!(is_string_in_ref(&found[0]));

    // Classes.
    for _ in 0..2 {
        let found = component(class_of(react("Component")), true, None).lint(None);
        assert_eq!(found.len(), 1);
        assert!(is_this_refs(&found[0]));
    }
    let found = component(
        class_of(react("PureComponent")),
        true,
        Some(container(JSXExpression::TemplateLiteral)),
    )
    .lint(Some(NO_TEMPLATES));
    assert_eq!(found.len(), 2);
    assert!(is_this_refs(&found[0]));
    assert!(is_string_in_ref(&found[1]));
}

#[test]
fn configuration_takes_a_boolean_of_an_object() {
    let strict = |json: &str| {
        NoStringRefs::from_configuration(serde_json::from_str(json).unwrap()).no_template_literals
    };
    assert!(strict(NO_TEMPLATES));
    assert!(strict("{ \"other\": 1, \"noTemplateLiterals\": true }"));
    assert!(!strict("{ \"noTemplateLiterals\": false }"));
    assert!(!strict("{ \"noTemplateLiterals\": \"true\" }"));
    assert!(!strict("{ \"noTemplateLiterals\": null }"));
    assert!(!strict("{ \"noTemplateLiterals\": [true] }"));
    assert!(!strict("{ \"notemplateliterals\": true }"));
    assert!(!strict("{}"));
    assert!(!strict("true"));
    assert!(!strict("[{ \"noTemplateLiterals\": true }]"));
    assert!(!strict("null"));
}

#[test]
fn setting_defaults_to_false() {
    assert!(!NoStringRefs::default().no_template_literals);
    assert!(!NoStringRefs::from_setting(None).no_template_literals);
    assert!(!NoStringRefs::from_setting(Some(false)).no_template_literals);
    assert!(NoStringRefs::from_setting(Some(true)).no_template_literals);
}

#[test]
fn runs_on_jsx_only() {
    let rule = NoStringRefs::default();
    assert!(rule.should_run(&host(LanguageVariant::Jsx)));
    assert!(!rule.should_run(&host(LanguageVariant::Standard)));
}

fn lint_attribute(name: JSXAttributeName, value: Option<JSXAttributeValue>, strict: bool) -> usize {
    let mut tree = Tree::new();
    tree.add(0, AstKind::JSXAttribute(JSXAttribute { name, value, span: attr_at() }));
    tree.lint(if strict { Some(NO_TEMPLATES) } else { None }).len()
}

#[test]
fn only_ref_attributes_with_strings_count() {
    let name = |text: &str| JSXAttributeName::Identifier(text.to_string());
    let string = Some(JSXAttributeValue::StringLiteral);
    assert_eq!(lint_attribute(name("ref"), string, false), 1);
    assert_eq!(lint_attribute(name("Ref"), string, false), 0);
    assert_eq!(lint_attribute(name("id"), string, false), 0);
    assert_eq!(lint_attribute(JSXAttributeName::NamespacedName, string, false), 0);
    assert_eq!(lint_attribute(name("ref"), None, true), 0);
    assert_eq!(lint_attribute(name("ref"), Some(JSXAttributeValue::Other), true), 0);
    assert_eq!(lint_attribute(name("ref"), Some(container(JSXExpression::Other)), true), 0);
}

#[test]
fn stricter_configuration_finds_more() {
    let name = || JSXAttributeName::Identifier("ref".to_string());
    for (value, lax, strict) in [
        (JSXAttributeValue::StringLiteral, 1, 1),
        (container(JSXExpression::StringLiteral), 1, 1),
        (container(JSXExpression::TemplateLiteral), 0, 1),
        (container(JSXExpression::Other), 0, 0),
    ] {
        assert_eq!(lint_attribute(name(), Some(value), false), lax);
        assert_eq!(lint_attribute(name(), Some(value), true), strict);
    }
}

#[test]
fn other_members_do_not_count() {
    // `that.refs`, `this[refs]` and `this.#refs` in a component.
    for (object, name) in [
        (identifier("that"), Some("refs".to_string())),
        (Expression::ThisExpression, None),
        (Expression::ThisExpression, Some("ref".to_string())),
        (Expression::Other, Some("refs".to_string())),
    ] {
        let mut tree = Tree::new();
        let component = tree.add(0, es5());
        tree.add(
            component,
            AstKind::MemberExpression(MemberExpression {
                object,
                static_property_name: name,
                span: refs_at(),
            }),
        );
        assert!(tree.lint(None).is_empty());
    }
}

#[test]
fn components_are_told_by_their_names() {
    let node = |kind: AstKind| AstNode { kind, parent: None };
    assert!(is_es5_component(&node(es5())));
    assert!(is_es5_component(&node(call(react("createReactClass")))));
    assert!(!is_es5_component(&node(call(identifier("createClass")))));
    assert!(!is_es5_component(&node(call(react("Component")))));
    assert!(!is_es5_component(&node(call(Expression::Other))));
    assert!(!is_es5_component(&node(class_of(identifier("createReactClass")))));
    assert!(is_es6_component(&node(class_of(react("Component")))));
    assert!(is_es6_component(&node(class_of(react("PureComponent")))));
    assert!(is_es6_component(&node(class_of(identifier("Component")))));
    assert!(is_es6_component(&node(class_of(identifier("PureComponent")))));
    assert!(!is_es6_component(&node(class_of(identifier("Base")))));
    assert!(!is_es6_component(&node(AstKind::Class { super_class: None })));
    let elsewhere = Expression::MemberExpression(Box::new(MemberExpression {
        object: identifier("Preact"),
        static_property_name: Some("Component".to_string()),
        span: Span::new(0, 1),
    }));
    assert!(!is_es6_component(&node(class_of(elsewhere))));
}

#[test]
fn the_nearest_component_is_found() {
    let mut tree = Tree::new();
    let outer = tree.add(0, class_of(react("Component")));
    let middle = tree.method(outer);
    let inner = tree.add(middle, es5());
    let leaf = tree.method(inner);
    assert_eq!(get_parent_component(&tree.nodes, leaf), Some(inner));
    assert_eq!(get_parent_component(&tree.nodes, inner), Some(outer));
    assert_eq!(get_parent_component(&tree.nodes, middle), Some(outer));
    assert_eq!(get_parent_component(&tree.nodes, outer), None);
    assert_eq!(get_parent_component(&tree.nodes, 0), None);
}

#[test]
fn template_literals_count_where_they_are_asked_for() {
    for (name, value, differs) in [
        ("ref", JSXAttributeValue::StringLiteral, false),
        ("ref", container(JSXExpression::TemplateLiteral), true),
        ("id", container(JSXExpression::TemplateLiteral), false),
        ("ref", container(JSXExpression::Other), false),
    ] {
        let attr = JSXAttribute {
            name: JSXAttributeName::Identifier(name.to_string()),
            value: Some(value),
            span: attr_at(),
        };
        let lax = is_literal_ref_attribute(&attr, false);
        let strict = is_literal_ref_attribute(&attr, true);
        assert!(!lax || strict);
        assert_eq!(lax != strict, differs);
    }
}
