//! Class declarations, class expressions and class bodies.
use super::heritage::HeritageView;
use super::host::{Rule, Stop};
use super::modifiers::{ModifierKind, ModifierPlace, Modifiers, ModifiersView};
use super::state::{ParserImpl, State, Step};
use super::syntax::{
    BodyView, Class, ClassBody, ClassElement, ClassType, ClassView, Diagnostic, ElementView, Kind,
    Node,
};
use crate::span::Span;
use vstd::prelude::*;

verus! {

/// Where a statement stands.
#[derive(Clone, Copy, Debug, PartialEq, Eq, Structural)]
pub enum StatementContext {
    /// Among other statements, in a block or at the top.
    StatementList,
    /// Alone, as the body of an `if`, a loop or a label.
    SingleStatement,
}

impl StatementContext {
    /// Tells whether only one statement may stand here.
    pub fn is_single_statement(self) -> (single: bool)
        ensures
            single == (self == StatementContext::SingleStatement),
    {
        match self {
            StatementContext::StatementList => false,
            StatementContext::SingleStatement => true,
        }
    }
}

impl State {
    /// The members of a class body, up to where there is no member.
    pub open spec fn class_elements(self) -> Step<Seq<ElementView>>
        decreases self.replies.len(),
    {
        proof {
            super::progress::lemma_class_element_keeps(self);
        }
        match self.class_element() {
            (s, Err(stop)) => (s, Err(stop)),
            (s, Ok(None)) => (s, Ok(Seq::empty())),
            (s, Ok(Some(element))) => match s.class_elements() {
                (s, Err(stop)) => (s, Err(stop)),
                (s, Ok(rest)) => (s, Ok(seq![element] + rest)),
            },
        }
    }

    /// The members of a class between `{` and `}`.
    pub open spec fn class_body(self) -> Step<BodyView> {
        let start = self.cur().span.start;
        match self.ask_done(Rule::Expect(Kind::LCurly)) {
            (s, Err(stop)) => (s, Err(stop)),
            (s, Ok(_)) => match s.class_elements() {
                (s, Err(stop)) => (s, Err(stop)),
                (s, Ok(body)) => match s.ask_done(Rule::Expect(Kind::RCurly)) {
                    (s, Err(stop)) => (s, Err(stop)),
                    (s, Ok(_)) => (s, Ok(BodyView { span: s.end_span(start), body })),
                },
            },
        }
    }

    /// The name of a class, if one stands here. The word `implements` is no name here.
    pub open spec fn class_name(self) -> Step<Option<Node>> {
        if self.cur().is_binding_identifier && !self.at(Kind::Implements) {
            match self.ask_node(Rule::BindingIdentifier, self.ctx) {
                (s, Ok(id)) => (s, Ok(Some(id))),
                (s, Err(stop)) => (s, Err(stop)),
            }
        } else {
            (self, Ok(None))
        }
    }

    /// The type parameters of a class, in TypeScript only.
    pub open spec fn class_type_parameters(self) -> Step<Option<Node>> {
        if self.is_ts {
            self.ask_optional(Rule::TSTypeParameters)
        } else {
            (self, Ok(None))
        }
    }

    /// A class, from the word `class` to its end. The pending decorators are its own, and a
    /// class expression starts at the first of them.
    pub open spec fn class(
        self,
        start: u32,
        class_type: ClassType,
        modifiers: ModifiersView,
    ) -> Step<ClassView> {
        let decorators = self.decorators;
        let start = if class_type == ClassType::ClassExpression && decorators.len() > 0 {
            decorators[0].span.start
        } else {
            start
        };
        match self.advance().without_decorators().class_name() {
            (s, Err(stop)) => (s, Err(stop)),
            (s, Ok(id)) => match s.class_type_parameters() {
                (s, Err(stop)) => (s, Err(stop)),
                (s, Ok(type_parameters)) => match s.heritage(HeritageView::empty()) {
                    (s, Err(stop)) => (s, Err(stop)),
                    (s, Ok(heritage)) => match s.class_body() {
                        (s, Err(stop)) => (s, Err(stop)),
                        (s, Ok(body)) => (
                            s.verify_modifiers(modifiers, ModifierPlace::Class),
                            Ok(
                                ClassView {
                                    span: s.end_span(start),
                                    class_type,
                                    decorators,
                                    id,
                                    type_parameters,
                                    super_class: match heritage.super_class() {
                                        Some(entry) => Some(entry.expression),
                                        None => None,
                                    },
                                    super_type_parameters: match heritage.super_class() {
                                        Some(entry) => entry.type_arguments,
                                        None => None,
                                    },
                                    implements: heritage.implements,
                                    body,
                                    is_abstract: modifiers.contains(ModifierKind::Abstract),
                                    declare: modifiers.contains(ModifierKind::Declare),
                                },
                            ),
                        ),
                    },
                },
            },
        }
    }

    /// A class declaration as a statement: modifiers, then the class.
    pub open spec fn class_statement(self, stmt_ctx: StatementContext, start: u32) -> Step<
        ClassView,
    > {
        match self.ask_modifiers(
            Rule::Modifiers {
                allow_decorators: true,
                permit_const_as_modifier: false,
                stop_on_start_of_class_static_block: true,
            },
        ) {
            (s, Err(stop)) => (s, Err(stop)),
            (s, Ok(modifiers)) => match s.class(start, ClassType::ClassDeclaration, modifiers) {
                (s, Err(stop)) => (s, Err(stop)),
                (s, Ok(class)) => (
                    s.error_if(
                        stmt_ctx == StatementContext::SingleStatement,
                        Diagnostic::ClassDeclaration(
                            Span { start: class.span.start, end: class.body.span.start },
                        ),
                    ),
                    Ok(class),
                ),
            },
        }
    }
}

impl ParserImpl {
    /// Reads a class declaration that stands as a statement. `start_span` points at the start
    /// of all decorators and the `class` keyword.
    pub fn parse_class_statement(
        &mut self,
        stmt_ctx: StatementContext,
        start_span: u32,
    ) -> (result: Result<Class, Stop>)
        ensures
            final(self)@ == old(self)@.class_statement(stmt_ctx, start_span).0,
            super::state::agrees(result, old(self)@.class_statement(stmt_ctx, start_span).1),
    {
        let modifiers = self.ask_modifiers(
            Rule::Modifiers {
                allow_decorators: true,
                permit_const_as_modifier: false,
                stop_on_start_of_class_static_block: true,
            },
        )?;
        let decl = self.parse_class_declaration(start_span, &modifiers)?;
        if stmt_ctx.is_single_statement() {
            self.error(
                Diagnostic::ClassDeclaration(Span::new(decl.span.start, decl.body.span.start)),
            );
        }
        Ok(decl)
    }

    /// Reads a class declaration behind its modifiers.
    pub fn parse_class_declaration(
        &mut self,
        start_span: u32,
        modifiers: &Modifiers,
    ) -> (result: Result<Class, Stop>)
        ensures
            final(self)@ == old(self)@.class(
                start_span,
                ClassType::ClassDeclaration,
                modifiers@,
            ).0,
            super::state::agrees(
                result,
                old(self)@.class(start_span, ClassType::ClassDeclaration, modifiers@).1,
            ),
            result matches Ok(class) ==> class.class_type == ClassType::ClassDeclaration
                && class.span.start == start_span,
    {
        self.parse_class(start_span, ClassType::ClassDeclaration, modifiers)
    }

    /// `ClassExpression`:
    ///     class `BindingIdentifier` `ClassTail`
    pub fn parse_class_expression(&mut self) -> (result: Result<Class, Stop>)
        ensures
            final(self)@ == old(self)@.class(
                old(self)@.cur().span.start,
                ClassType::ClassExpression,
                ModifiersView::empty(),
            ).0,
            super::state::agrees(
                result,
                old(self)@.class(
                    old(self)@.cur().span.start,
                    ClassType::ClassExpression,
                    ModifiersView::empty(),
                ).1,
            ),
            result matches Ok(class) ==> class.class_type == ClassType::ClassExpression
                && !class.is_abstract && !class.declare,
    {
        let start: u32 = self.start_span();
        self.parse_class(start, ClassType::ClassExpression, &Modifiers::empty())
    }

    fn parse_class_name(&mut self) -> (result: Result<Option<Node>, Stop>)
        ensures
            final(self)@ == old(self)@.class_name().0,
            result == old(self)@.class_name().1,
    {
        if self.cur_token().is_binding_identifier && !self.at(Kind::Implements) {
            Ok(Some(self.ask_node(Rule::BindingIdentifier, self.ctx)?))
        } else {
            Ok(None)
        }
    }

    fn parse_class_type_parameters(&mut self) -> (result: Result<Option<Node>, Stop>)
        ensures
            final(self)@ == old(self)@.class_type_parameters().0,
            result == old(self)@.class_type_parameters().1,
    {
        if self.is_ts {
            self.ask_optional(Rule::TSTypeParameters)
        } else {
            Ok(None)
        }
    }

    /// Reads a class from the word `class` to its end.
    pub fn parse_class(
        &mut self,
        start_span: u32,
        class_type: ClassType,
        modifiers: &Modifiers,
    ) -> (result: Result<Class, Stop>)
        ensures
            final(self)@ == old(self)@.class(start_span, class_type, modifiers@).0,
            super::state::agrees(result, old(self)@.class(start_span, class_type, modifiers@).1),
    {
        self.bump_any();  // advance `class`
        let decorators = self.consume_decorators();
        // Move span start to decorator position if this is a class expression.
        let start: u32 = if class_type == ClassType::ClassExpression && decorators.len() > 0 {
            decorators[0].span.start
        } else {
            start_span
        };
        let id = self.parse_class_name()?;
        let type_parameters = self.parse_class_type_parameters()?;
        let heritage = self.parse_heritage_clause()?;
        let (super_class, super_type_parameters) = match heritage.super_class() {
            Some(entry) => (Some(entry.expression), entry.type_arguments),
            None => (None, None),
        };
        let body = self.parse_class_body()?;
        self.verify_modifiers(modifiers, ModifierPlace::Class);
        Ok(
            Class {
                span: self.end_span(start),
                class_type,
                decorators,
                id,
                type_parameters,
                super_class,
                super_type_parameters,
                implements: heritage.implements,
                body,
                is_abstract: modifiers.contains(ModifierKind::Abstract),
                declare: modifiers.contains(ModifierKind::Declare),
            },
        )
    }

    fn parse_class_elements(&mut self) -> (result: Result<Vec<ClassElement>, Stop>)
        ensures
            final(self)@ == old(self)@.class_elements().0,
            match (result, old(self)@.class_elements().1) {
                (Ok(body), Ok(model)) => body@.map_values(|element: ClassElement| element@)
                    == model,
                (Err(stop), Err(model)) => stop == model,
                _ => false,
            },
    {
        let ghost view = |element: ClassElement| element@;
        let mut body: Vec<ClassElement> = Vec::new();
        proof {
            if let (s, Ok(rest)) = self@.class_elements() {
                assert(body@.map_values(view) + rest =~= rest);
            }
        }
        loop
            invariant
                view == (|element: ClassElement| element@),
                old(self)@.class_elements() == (match self@.class_elements() {
                    (s, Ok(rest)) => (s, Ok(body@.map_values(view) + rest)),
                    (s, Err(stop)) => (s, Err(stop)),
                }),
            decreases self@.replies.len(),
        {
            proof {
                super::progress::lemma_class_element_keeps(self@);
            }
            let ghost list = body@;
            match self.parse_class_element()? {
                Some(element) => {
                    body.push(element);
                    proof {
                        if let (s, Ok(rest)) = self@.class_elements() {
                            assert(list.map_values(view) + (seq![element@] + rest)
                                =~= body@.map_values(view) + rest);
                        }
                    }
                },
                None => {
                    assert(body@.map_values(view) + Seq::empty() =~= body@.map_values(view));
                    return Ok(body);
                },
            }
        }
    }

    /// Reads the members of a class between `{` and `}`.
    pub fn parse_class_body(&mut self) -> (result: Result<ClassBody, Stop>)
        ensures
            final(self)@ == old(self)@.class_body().0,
            super::state::agrees(result, old(self)@.class_body().1),
    {
        let start: u32 = self.start_span();
        self.ask_done(Rule::Expect(Kind::LCurly))?;
        let body = self.parse_class_elements()?;
        self.ask_done(Rule::Expect(Kind::RCurly))?;
        Ok(ClassBody { span: self.end_span(start), body })
    }
}

} // verus!
