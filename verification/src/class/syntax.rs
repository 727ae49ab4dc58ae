//! Tokens, class nodes and diagnostics.
use super::modifiers::Modifier;
use crate::span::Span;
use vstd::prelude::*;

verus! {

/// The kinds of token that the class grammar tells apart.
#[derive(Clone, Copy, Debug, PartialEq, Eq, Structural)]
pub enum Kind {
    Async,
    Bang,
    Comma,
    Eof,
    Eq,
    Extends,
    GetWord,
    Implements,
    LAngle,
    LCurly,
    LParen,
    PrivateIdentifier,
    Question,
    RCurly,
    Semicolon,
    SetWord,
    Star,
    Static,
    /// Any other kind.
    Other,
}

/// A token, with what the class grammar asks of it.
#[derive(Clone, Copy, Debug, PartialEq, Eq, Structural)]
pub struct Token {
    pub kind: Kind,
    pub span: Span,
    /// A line break stands between the token before and this one.
    pub is_on_new_line: bool,
    /// The token can be a `BindingIdentifier`.
    pub is_binding_identifier: bool,
    /// The token can start a `ClassElementName`.
    pub is_class_element_name_start: bool,
}

/// A node that the host parser made, known here by its number and its span.
#[derive(Clone, Copy, Debug, PartialEq, Eq, Structural)]
pub struct Node {
    pub id: u32,
    pub span: Span,
}

/// An expression in an `extends` clause.
#[derive(Clone, Copy, Debug, PartialEq, Eq, Structural)]
pub enum Expression {
    /// `a<T>` with no call: an expression and the type arguments that it was given.
    TSInstantiationExpression { expression: Node, type_arguments: Node },
    /// Any other expression.
    Other(Node),
}

/// One entry of an `extends` clause.
#[derive(Clone, Copy, Debug, PartialEq, Eq, Structural)]
pub struct Extends {
    pub expression: Node,
    pub type_arguments: Option<Node>,
    pub span: Span,
}

/// The function of a method definition.
#[derive(Clone, Copy, Debug, PartialEq, Eq, Structural)]
pub struct Function {
    pub node: Node,
    /// The span of the `this` parameter.
    pub this_param: Option<Span>,
    /// The span of the type parameters.
    pub type_parameters: Option<Span>,
}

#[derive(Clone, Copy, Debug, PartialEq, Eq, Structural)]
pub enum ClassType {
    ClassDeclaration,
    ClassExpression,
}

#[derive(Clone, Copy, Debug, PartialEq, Eq, Structural)]
pub enum MethodDefinitionKind {
    Constructor,
    Method,
    Getter,
    Setter,
}

#[derive(Clone, Copy, Debug, PartialEq, Eq, Structural)]
pub enum TSAccessibility {
    Private,
    Protected,
    Public,
}

/// What is known of the name of a property key.
#[derive(Clone, Debug)]
pub enum KeyName {
    /// A private identifier, without its `#`.
    Private(String),
    /// An identifier or a string literal: the name of the property.
    Static(String),
    /// No name that the source shows.
    Unknown,
}

/// The key of a class member.
#[derive(Clone, Debug)]
pub struct PropertyKey {
    pub node: Node,
    pub name: KeyName,
}

/// The model of a [`KeyName`].
pub enum KeyNameView {
    Private(Seq<char>),
    Static(Seq<char>),
    Unknown,
}

/// The model of a [`PropertyKey`].
pub struct KeyView {
    pub node: Node,
    pub name: KeyNameView,
}

impl View for KeyName {
    type V = KeyNameView;

    open spec fn view(&self) -> KeyNameView {
        match self {
            KeyName::Private(name) => KeyNameView::Private(name@),
            KeyName::Static(name) => KeyNameView::Static(name@),
            KeyName::Unknown => KeyNameView::Unknown,
        }
    }
}

impl View for PropertyKey {
    type V = KeyView;

    open spec fn view(&self) -> KeyView {
        KeyView { node: self.node, name: self.name@ }
    }
}

impl KeyView {
    /// The key is `name`, or `"name"`.
    pub open spec fn is_named(self, name: Seq<char>) -> bool {
        self.name == KeyNameView::Static(name)
    }
}

impl PropertyKey {
    /// Tells whether the key is the given name, as an identifier or a string literal.
    pub fn is_named(&self, name: &str) -> (named: bool)
        ensures
            named == self@.is_named(name@),
    {
        match &self.name {
            KeyName::Static(own) => *own == name.to_owned(),
            _ => false,
        }
    }

    /// Tells whether the key is the private name `#name`.
    pub fn is_private(&self, name: &str) -> (named: bool)
        ensures
            named == (self@.name == KeyNameView::Private(name@)),
    {
        match &self.name {
            KeyName::Private(own) => *own == name.to_owned(),
            _ => false,
        }
    }
}

/// A member of a class body.
#[derive(Clone, Debug)]
pub enum ClassElement {
    StaticBlock { span: Span, body: Node },
    MethodDefinition(MethodDefinition),
    PropertyDefinition(PropertyDefinition),
    AccessorProperty(AccessorProperty),
    TSIndexSignature(Node),
}

#[derive(Clone, Debug)]
pub struct MethodDefinition {
    pub span: Span,
    /// `TSAbstractMethodDefinition` instead of `MethodDefinition`.
    pub is_abstract: bool,
    pub decorators: Vec<Node>,
    pub key: PropertyKey,
    pub value: Function,
    pub kind: MethodDefinitionKind,
    pub computed: bool,
    pub is_static: bool,
    pub is_override: bool,
    pub optional: bool,
    pub accessibility: Option<TSAccessibility>,
}

#[derive(Clone, Debug)]
pub struct PropertyDefinition {
    pub span: Span,
    /// `TSAbstractPropertyDefinition` instead of `PropertyDefinition`.
    pub is_abstract: bool,
    pub decorators: Vec<Node>,
    pub key: PropertyKey,
    pub type_annotation: Option<Node>,
    pub value: Option<Node>,
    pub computed: bool,
    pub is_static: bool,
    pub declare: bool,
    pub is_override: bool,
    pub optional: bool,
    pub definite: bool,
    pub readonly: bool,
    pub accessibility: Option<TSAccessibility>,
}

#[derive(Clone, Debug)]
pub struct AccessorProperty {
    pub span: Span,
    /// `TSAbstractAccessorProperty` instead of `AccessorProperty`.
    pub is_abstract: bool,
    pub decorators: Vec<Node>,
    pub key: PropertyKey,
    pub type_annotation: Option<Node>,
    pub value: Option<Node>,
    pub computed: bool,
    pub is_static: bool,
    pub is_override: bool,
    pub definite: bool,
    pub accessibility: Option<TSAccessibility>,
}

/// The members of a class, with the span from `{` to `}`.
#[derive(Clone, Debug)]
pub struct ClassBody {
    pub span: Span,
    pub body: Vec<ClassElement>,
}

#[derive(Clone, Debug)]
pub struct Class {
    pub span: Span,
    pub class_type: ClassType,
    pub decorators: Vec<Node>,
    pub id: Option<Node>,
    pub type_parameters: Option<Node>,
    pub super_class: Option<Node>,
    pub super_type_parameters: Option<Node>,
    pub implements: Vec<Node>,
    pub body: ClassBody,
    pub is_abstract: bool,
    pub declare: bool,
}

/// The model of a [`ClassElement`].
pub enum ElementView {
    StaticBlock { span: Span, body: Node },
    MethodDefinition(MethodView),
    PropertyDefinition(PropertyView),
    AccessorProperty(AccessorView),
    TSIndexSignature(Node),
}

/// The model of a [`MethodDefinition`].
#[verifier::ext_equal]
pub struct MethodView {
    pub span: Span,
    pub is_abstract: bool,
    pub decorators: Seq<Node>,
    pub key: KeyView,
    pub value: Function,
    pub kind: MethodDefinitionKind,
    pub computed: bool,
    pub is_static: bool,
    pub is_override: bool,
    pub optional: bool,
    pub accessibility: Option<TSAccessibility>,
}

/// The model of a [`PropertyDefinition`].
#[verifier::ext_equal]
pub struct PropertyView {
    pub span: Span,
    pub is_abstract: bool,
    pub decorators: Seq<Node>,
    pub key: KeyView,
    pub type_annotation: Option<Node>,
    pub value: Option<Node>,
    pub computed: bool,
    pub is_static: bool,
    pub declare: bool,
    pub is_override: bool,
    pub optional: bool,
    pub definite: bool,
    pub readonly: bool,
    pub accessibility: Option<TSAccessibility>,
}

/// The model of an [`AccessorProperty`].
#[verifier::ext_equal]
pub struct AccessorView {
    pub span: Span,
    pub is_abstract: bool,
    pub decorators: Seq<Node>,
    pub key: KeyView,
    pub type_annotation: Option<Node>,
    pub value: Option<Node>,
    pub computed: bool,
    pub is_static: bool,
    pub is_override: bool,
    pub definite: bool,
    pub accessibility: Option<TSAccessibility>,
}

/// The model of a [`ClassBody`].
#[verifier::ext_equal]
pub struct BodyView {
    pub span: Span,
    pub body: Seq<ElementView>,
}

/// The model of a [`Class`].
#[verifier::ext_equal]
pub struct ClassView {
    pub span: Span,
    pub class_type: ClassType,
    pub decorators: Seq<Node>,
    pub id: Option<Node>,
    pub type_parameters: Option<Node>,
    pub super_class: Option<Node>,
    pub super_type_parameters: Option<Node>,
    pub implements: Seq<Node>,
    pub body: BodyView,
    pub is_abstract: bool,
    pub declare: bool,
}

impl View for MethodDefinition {
    type V = MethodView;

    open spec fn view(&self) -> MethodView {
        MethodView {
            span: self.span,
            is_abstract: self.is_abstract,
            decorators: self.decorators@,
            key: self.key@,
            value: self.value,
            kind: self.kind,
            computed: self.computed,
            is_static: self.is_static,
            is_override: self.is_override,
            optional: self.optional,
            accessibility: self.accessibility,
        }
    }
}

impl View for PropertyDefinition {
    type V = PropertyView;

    open spec fn view(&self) -> PropertyView {
        PropertyView {
            span: self.span,
            is_abstract: self.is_abstract,
            decorators: self.decorators@,
            key: self.key@,
            type_annotation: self.type_annotation,
            value: self.value,
            computed: self.computed,
            is_static: self.is_static,
            declare: self.declare,
            is_override: self.is_override,
            optional: self.optional,
            definite: self.definite,
            readonly: self.readonly,
            accessibility: self.accessibility,
        }
    }
}

impl View for AccessorProperty {
    type V = AccessorView;

    open spec fn view(&self) -> AccessorView {
        AccessorView {
            span: self.span,
            is_abstract: self.is_abstract,
            decorators: self.decorators@,
            key: self.key@,
            type_annotation: self.type_annotation,
            value: self.value,
            computed: self.computed,
            is_static: self.is_static,
            is_override: self.is_override,
            definite: self.definite,
            accessibility: self.accessibility,
        }
    }
}

impl View for ClassElement {
    type V = ElementView;

    open spec fn view(&self) -> ElementView {
        match self {
            ClassElement::StaticBlock { span, body } => ElementView::StaticBlock {
                span: *span,
                body: *body,
            },
            ClassElement::MethodDefinition(method) => ElementView::MethodDefinition(method@),
            ClassElement::PropertyDefinition(property) => ElementView::PropertyDefinition(
                property@,
            ),
            ClassElement::AccessorProperty(accessor) => ElementView::AccessorProperty(accessor@),
            ClassElement::TSIndexSignature(node) => ElementView::TSIndexSignature(*node),
        }
    }
}

impl View for ClassBody {
    type V = BodyView;

    open spec fn view(&self) -> BodyView {
        BodyView {
            span: self.span,
            body: self.body@.map_values(|element: ClassElement| element@),
        }
    }
}

impl View for Class {
    type V = ClassView;

    open spec fn view(&self) -> ClassView {
        ClassView {
            span: self.span,
            class_type: self.class_type,
            decorators: self.decorators@,
            id: self.id,
            type_parameters: self.type_parameters,
            super_class: self.super_class,
            super_type_parameters: self.super_type_parameters,
            implements: self.implements@,
            body: self.body@,
            is_abstract: self.is_abstract,
            declare: self.declare,
        }
    }
}

/// What the parser reports, each with the place that it is about.
#[derive(Clone, Copy, Debug, PartialEq, Eq, Structural)]
pub enum Diagnostic {
    /// A class declaration stands where only a statement may.
    ClassDeclaration(Span),
    ExtendsClauseAlreadySeen(Span),
    ExtendsClauseMustPrecedeImplements(Span),
    ImplementsClauseAlreadySeen(Span),
    ModifierCannotBeUsedHere(Modifier),
    /// A member is marked with both `?` and `!`.
    OptionalDefiniteProperty(Span),
    ConstClassMember(Span),
    AccessibilityModifierOnPrivateProperty(Modifier),
    /// A member is named `#constructor`.
    PrivateNameConstructor(Span),
    OptionalAccessorProperty(Span),
    /// A static member is named `prototype`.
    StaticPrototype(Span),
    ConstructorGetterSetter(Span),
    ConstructorAsync(Span),
    ConstructorGenerator(Span),
    /// A field is named `constructor`.
    FieldConstructor(Span),
    TSConstructorThisParameter(Span),
    TSConstructorTypeParameter(Span),
    StaticConstructor(Span),
    AccessorModifier(Modifier),
    /// A diagnostic of the host parser, known here by its number.
    Host(u32),
}

} // verus!
