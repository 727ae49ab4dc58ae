//! The members of a class, behind their modifiers and their name.
use super::host::{Rule, Stop};
use super::modifiers::{ModifierKind, ModifierPlace, Modifiers, ModifiersView};
use super::state::{ParserImpl, State, Step};
use super::syntax::{
    AccessorProperty, AccessorView, ClassElement, Diagnostic, ElementView, Function, KeyView, Kind,
    MethodDefinition, MethodDefinitionKind, MethodView, Node, PropertyDefinition, PropertyKey,
    PropertyView, TSAccessibility,
};
use vstd::prelude::*;

verus! {

/// The key is `constructor` or `"constructor"`.
pub open spec fn names_constructor(key: KeyView, computed: bool) -> bool {
    !computed && key.is_named("constructor"@)
}

/// The key is `prototype` or `"prototype"`.
pub open spec fn names_prototype(key: KeyView, computed: bool) -> bool {
    !computed && key.is_named("prototype"@)
}

/// The kind of a method: the method named `constructor` that is not static is the constructor,
/// whatever stands in front of it.
pub open spec fn method_kind(
    kind: MethodDefinitionKind,
    key: KeyView,
    computed: bool,
    is_static: bool,
) -> MethodDefinitionKind {
    if !is_static && names_constructor(key, computed) {
        MethodDefinitionKind::Constructor
    } else {
        kind
    }
}

impl State {
    /// The name of a member: the key, and whether it is computed.
    pub open spec fn class_element_name(self) -> Step<(KeyView, bool)> {
        if self.at(Kind::PrivateIdentifier) {
            match self.ask_private_key() {
                (s, Ok(key)) => (s, Ok((key, false))),
                (s, Err(stop)) => (s, Err(stop)),
            }
        } else {
            self.ask_property_name()
        }
    }

    /// What is reported of the function of a constructor.
    pub open spec fn constructor_errors(
        self,
        value: Function,
        key: KeyView,
        is_static: bool,
    ) -> State {
        self.error_if(
            value.this_param is Some,
            Diagnostic::TSConstructorThisParameter(value.this_param->0),
        ).error_if(
            value.type_parameters is Some,
            Diagnostic::TSConstructorTypeParameter(value.type_parameters->0),
        ).error_if(is_static, Diagnostic::StaticConstructor(key.node.span))
    }

    /// A method: the pending decorators are its own, then come its parameters and its body.
    pub open spec fn class_method_definition(
        self,
        start: u32,
        kind: MethodDefinitionKind,
        key: KeyView,
        computed: bool,
        is_static: bool,
        is_async: bool,
        generator: bool,
        is_override: bool,
        is_abstract: bool,
        accessibility: Option<TSAccessibility>,
        optional: bool,
    ) -> Step<ElementView> {
        let kind = method_kind(kind, key, computed, is_static);
        match self.without_decorators().ask_function(Rule::Method { is_async, generator }) {
            (s, Err(stop)) => (s, Err(stop)),
            (s, Ok(value)) => {
                let s = if kind == MethodDefinitionKind::Constructor {
                    s.constructor_errors(value, key, is_static)
                } else {
                    s
                };
                (
                    s,
                    Ok(
                        ElementView::MethodDefinition(
                            MethodView {
                                span: s.end_span(start),
                                is_abstract,
                                decorators: self.decorators,
                                key,
                                value,
                                kind,
                                computed,
                                is_static,
                                is_override,
                                optional,
                                accessibility,
                            },
                        ),
                    ),
                )
            },
        }
    }

    /// A type annotation, in TypeScript only.
    pub open spec fn type_annotation(self) -> Step<Option<Node>> {
        if self.is_ts {
            self.ask_optional(Rule::TSTypeAnnotation)
        } else {
            (self, Ok(None))
        }
    }

    /// `=` and the value of a field, if `=` stands here.
    pub open spec fn field_initializer(self) -> Step<Option<Node>> {
        if self.at(Kind::Eq) {
            match self.advance().ask_node(Rule::Expr, self.ctx.initializer_spec()) {
                (s, Ok(value)) => (s, Ok(Some(value))),
                (s, Err(stop)) => (s, Err(stop)),
            }
        } else {
            (self, Ok(None))
        }
    }

    /// `=` and the value of an accessor property, if `=` stands here.
    pub open spec fn accessor_initializer(self) -> Step<Option<Node>> {
        if self.at(Kind::Eq) {
            match self.advance().ask_node(Rule::AssignmentExpressionOrHigher, self.ctx) {
                (s, Ok(value)) => (s, Ok(Some(value))),
                (s, Err(stop)) => (s, Err(stop)),
            }
        } else {
            (self, Ok(None))
        }
    }

    /// A field: its type, its value and a semicolon. The decorators that are pending behind the
    /// type are its own.
    pub open spec fn class_property_definition(
        self,
        start: u32,
        key: KeyView,
        computed: bool,
        is_static: bool,
        declare: bool,
        is_override: bool,
        readonly: bool,
        is_abstract: bool,
        accessibility: Option<TSAccessibility>,
        optional: bool,
        definite: bool,
    ) -> Step<ElementView> {
        match self.type_annotation() {
            (s, Err(stop)) => (s, Err(stop)),
            (typed, Ok(type_annotation)) => match typed.without_decorators().field_initializer() {
                (s, Err(stop)) => (s, Err(stop)),
                (s, Ok(value)) => match s.ask_done(Rule::Asi) {
                    (s, Err(stop)) => (s, Err(stop)),
                    (s, Ok(_)) => (
                        s,
                        Ok(
                            ElementView::PropertyDefinition(
                                PropertyView {
                                    span: s.end_span(start),
                                    is_abstract,
                                    decorators: typed.decorators,
                                    key,
                                    type_annotation,
                                    value,
                                    computed,
                                    is_static,
                                    declare,
                                    is_override,
                                    optional,
                                    definite,
                                    readonly,
                                    accessibility,
                                },
                            ),
                        ),
                    ),
                },
            },
        }
    }

    /// An accessor property: its type, its value and a semicolon. The decorators that are
    /// pending at its end are its own.
    pub open spec fn class_accessor_property(
        self,
        start: u32,
        key: KeyView,
        computed: bool,
        is_static: bool,
        definite: bool,
        modifiers: ModifiersView,
    ) -> Step<ElementView> {
        match self.type_annotation() {
            (s, Err(stop)) => (s, Err(stop)),
            (s, Ok(type_annotation)) => match s.accessor_initializer() {
                (s, Err(stop)) => (s, Err(stop)),
                (s, Ok(value)) => match s.ask_done(Rule::Asi) {
                    (s, Err(stop)) => (s, Err(stop)),
                    (s, Ok(_)) => (
                        s.verify_modifiers(
                            modifiers,
                            ModifierPlace::AccessorProperty,
                        ).without_decorators(),
                        Ok(
                            ElementView::AccessorProperty(
                                AccessorView {
                                    span: s.end_span(start),
                                    is_abstract: modifiers.contains(ModifierKind::Abstract),
                                    decorators: s.decorators,
                                    key,
                                    type_annotation,
                                    value,
                                    computed,
                                    is_static,
                                    is_override: modifiers.contains(ModifierKind::Override),
                                    definite,
                                    accessibility: modifiers.accessibility,
                                },
                            ),
                        ),
                    ),
                },
            },
        }
    }

    /// The block of a static block, with `await` and without `yield` and `return`.
    pub open spec fn class_static_block(self, start: u32) -> Step<ElementView> {
        match self.ask_node(Rule::Block, self.ctx.static_block_spec()) {
            (s, Err(stop)) => (s, Err(stop)),
            (s, Ok(body)) => (s, Ok(ElementView::StaticBlock { span: s.end_span(start), body })),
        }
    }
}

impl ParserImpl {
    /// Reads the name of a member, and tells whether it is computed.
    pub fn parse_class_element_name(&mut self) -> (result: Result<(PropertyKey, bool), Stop>)
        ensures
            final(self)@ == old(self)@.class_element_name().0,
            super::state::agrees(result, old(self)@.class_element_name().1),
    {
        match self.cur_token().kind {
            Kind::PrivateIdentifier => {
                let key = self.ask_private_key()?;
                Ok((key, false))
            },
            _ => self.ask_property_name(),
        }
    }

    /// Reads a method behind its name.
    pub fn parse_class_method_definition(
        &mut self,
        start: u32,
        kind: MethodDefinitionKind,
        key: PropertyKey,
        computed: bool,
        is_static: bool,
        is_async: bool,
        generator: bool,
        is_override: bool,
        is_abstract: bool,
        accessibility: Option<TSAccessibility>,
        optional: bool,
    ) -> (result: Result<ClassElement, Stop>)
        ensures
            final(self)@ == old(self)@.class_method_definition(
                start,
                kind,
                key@,
                computed,
                is_static,
                is_async,
                generator,
                is_override,
                is_abstract,
                accessibility,
                optional,
            ).0,
            super::state::agrees(
                result,
                old(self)@.class_method_definition(
                    start,
                    kind,
                    key@,
                    computed,
                    is_static,
                    is_async,
                    generator,
                    is_override,
                    is_abstract,
                    accessibility,
                    optional,
                ).1,
            ),
    {
        let kind = if !is_static && !computed && key.is_named("constructor") {
            MethodDefinitionKind::Constructor
        } else {
            kind
        };
        let decorators = self.consume_decorators();
        let value = self.ask_function(Rule::Method { is_async, generator })?;
        if kind == MethodDefinitionKind::Constructor {
            if let Some(span) = value.this_param {
                // class Foo { constructor(this: number) {} }
                self.error(Diagnostic::TSConstructorThisParameter(span));
            }
            if let Some(span) = value.type_parameters {
                // class Foo { constructor<T>(param: T ) {} }
                self.error(Diagnostic::TSConstructorTypeParameter(span));
            }
            if is_static {
                self.error(Diagnostic::StaticConstructor(key.node.span));
            }
        }
        Ok(
            ClassElement::MethodDefinition(
                MethodDefinition {
                    span: self.end_span(start),
                    is_abstract,
                    decorators,
                    key,
                    value,
                    kind,
                    computed,
                    is_static,
                    is_override,
                    optional,
                    accessibility,
                },
            ),
        )
    }

    fn parse_type_annotation(&mut self) -> (result: Result<Option<Node>, Stop>)
        ensures
            final(self)@ == old(self)@.type_annotation().0,
            result == old(self)@.type_annotation().1,
    {
        if self.is_ts {
            self.ask_optional(Rule::TSTypeAnnotation)
        } else {
            Ok(None)
        }
    }

    /// `FieldDefinition` ;
    pub fn parse_class_property_definition(
        &mut self,
        start: u32,
        key: PropertyKey,
        computed: bool,
        is_static: bool,
        declare: bool,
        is_override: bool,
        readonly: bool,
        is_abstract: bool,
        accessibility: Option<TSAccessibility>,
        optional: bool,
        definite: bool,
    ) -> (result: Result<ClassElement, Stop>)
        ensures
            final(self)@ == old(self)@.class_property_definition(
                start,
                key@,
                computed,
                is_static,
                declare,
                is_override,
                readonly,
                is_abstract,
                accessibility,
                optional,
                definite,
            ).0,
            super::state::agrees(
                result,
                old(self)@.class_property_definition(
                    start,
                    key@,
                    computed,
                    is_static,
                    declare,
                    is_override,
                    readonly,
                    is_abstract,
                    accessibility,
                    optional,
                    definite,
                ).1,
            ),
    {
        let type_annotation = self.parse_type_annotation()?;
        let decorators = self.consume_decorators();
        let value = if self.eat(Kind::Eq) {
            Some(self.ask_node(Rule::Expr, self.ctx.initializer())?)
        } else {
            None
        };
        self.ask_done(Rule::Asi)?;
        Ok(
            ClassElement::PropertyDefinition(
                PropertyDefinition {
                    span: self.end_span(start),
                    is_abstract,
                    decorators,
                    key,
                    type_annotation,
                    value,
                    computed,
                    is_static,
                    declare,
                    is_override,
                    optional,
                    definite,
                    readonly,
                    accessibility,
                },
            ),
        )
    }

    /// Reads the block of a static block.
    pub fn parse_class_static_block(&mut self, start: u32) -> (result: Result<ClassElement, Stop>)
        ensures
            final(self)@ == old(self)@.class_static_block(start).0,
            super::state::agrees(result, old(self)@.class_static_block(start).1),
    {
        let body = self.ask_node(Rule::Block, self.ctx.static_block())?;
        Ok(ClassElement::StaticBlock { span: self.end_span(start), body })
    }

    /// Reads an `accessor` property behind its name.
    pub fn parse_class_accessor_property(
        &mut self,
        start: u32,
        key: PropertyKey,
        computed: bool,
        is_static: bool,
        definite: bool,
        modifiers: &Modifiers,
    ) -> (result: Result<ClassElement, Stop>)
        ensures
            final(self)@ == old(self)@.class_accessor_property(
                start,
                key@,
                computed,
                is_static,
                definite,
                modifiers@,
            ).0,
            super::state::agrees(
                result,
                old(self)@.class_accessor_property(
                    start,
                    key@,
                    computed,
                    is_static,
                    definite,
                    modifiers@,
                ).1,
            ),
    {
        let type_annotation = self.parse_type_annotation()?;
        let value = if self.eat(Kind::Eq) {
            Some(self.ask_node(Rule::AssignmentExpressionOrHigher, self.ctx)?)
        } else {
            None
        };
        self.ask_done(Rule::Asi)?;
        let is_abstract: bool = modifiers.contains(ModifierKind::Abstract);
        self.verify_modifiers(modifiers, ModifierPlace::AccessorProperty);
        Ok(
            ClassElement::AccessorProperty(
                AccessorProperty {
                    span: self.end_span(start),
                    is_abstract,
                    decorators: self.consume_decorators(),
                    key,
                    type_annotation,
                    value,
                    computed,
                    is_static,
                    is_override: modifiers.contains(ModifierKind::Override),
                    definite,
                    accessibility: modifiers.accessibility,
                },
            ),
        )
    }
}

} // verus!
