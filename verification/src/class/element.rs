//! A member of a class body, from its modifiers to its end.
use super::host::{Rule, Stop};
use super::modifiers::{ModifierKind, ModifierPlace, Modifiers, ModifiersView};
use super::state::{ParserImpl, State, Step};
use super::syntax::{
    ClassElement, Diagnostic, ElementView, KeyName, KeyNameView, KeyView, Kind,
    MethodDefinitionKind, PropertyKey,
};
use crate::span::Span;
use vstd::prelude::*;

verus! {

/// What the words in front of the name of a member say of it.
#[derive(Clone, Copy, Debug, PartialEq, Eq, Structural)]
pub struct MemberHead {
    pub kind: MethodDefinitionKind,
    pub is_static: bool,
    pub is_async: bool,
    pub generator: bool,
}

/// What the start of a member turned out to be.
pub enum MemberStart {
    /// A whole member: a static block or an index signature.
    Element(ClassElement),
    /// The words in front of a name, the name, and whether it is computed.
    Member(MemberHead, PropertyKey, bool),
    /// No member. This has been reported.
    Unexpected,
}

/// The model of a [`MemberStart`].
pub enum StartView {
    Element(ElementView),
    Member(MemberHead, KeyView, bool),
    Unexpected,
}

impl View for MemberStart {
    type V = StartView;

    open spec fn view(&self) -> StartView {
        match self {
            MemberStart::Element(element) => StartView::Element(element@),
            MemberStart::Member(head, key, computed) => StartView::Member(*head, key@, *computed),
            MemberStart::Unexpected => StartView::Unexpected,
        }
    }
}

/// A result and its model agree, where there may be no member.
pub open spec fn agrees_element(
    given: Result<Option<ClassElement>, Stop>,
    expected: Result<Option<ElementView>, Stop>,
) -> bool {
    match (given, expected) {
        (Ok(Some(element)), Ok(Some(model))) => element@ == model,
        (Ok(None), Ok(None)) => true,
        (Err(stop), Err(model)) => stop == model,
        _ => false,
    }
}

/// A result and its model agree, where a name may have been read.
pub open spec fn agrees_name(
    given: Result<(MemberHead, Option<(PropertyKey, bool)>), Stop>,
    expected: Result<(MemberHead, Option<(KeyView, bool)>), Stop>,
) -> bool {
    match (given, expected) {
        (Ok((head, Some(name))), Ok((model, Some(key)))) => head == model && name@ == key,
        (Ok((head, None)), Ok((model, None))) => head == model,
        (Err(stop), Err(model)) => stop == model,
        _ => false,
    }
}

impl State {
    /// The state behind the semicolons that stand here.
    pub open spec fn skip_semicolons(self) -> State
        decreases self.token_count() - self.cursor.index,
    {
        if self.at(Kind::Semicolon) {
            self.advance().skip_semicolons()
        } else {
            self
        }
    }

    /// The word `static`, if it stands here and is no block's: a modifier when a name or `*`
    /// follows, and otherwise the name of the member.
    pub open spec fn static_word(self, head: MemberHead) -> Step<
        (MemberHead, Option<(KeyView, bool)>),
    > {
        if !self.at(Kind::Static) {
            (self, Ok((head, None)))
        } else if self.peek().is_class_element_name_start || self.peek_at(Kind::Star) {
            (self.advance(), Ok((MemberHead { is_static: true, ..head }, None)))
        } else {
            match self.class_element_name() {
                (s, Ok(name)) => (s, Ok((head, Some(name)))),
                (s, Err(stop)) => (s, Err(stop)),
            }
        }
    }

    /// The word `async`, if it stands here in front of anything but `?`: a modifier when a name
    /// or `*` follows on the same line, and otherwise the name of the member.
    pub open spec fn async_word(self, head: MemberHead, name: Option<(KeyView, bool)>) -> Step<
        (MemberHead, Option<(KeyView, bool)>),
    > {
        if name is Some || !self.at(Kind::Async) || self.peek_at(Kind::Question) {
            (self, Ok((head, name)))
        } else if !self.peek().is_on_new_line && (self.peek().is_class_element_name_start
            || self.peek_at(Kind::Star)) {
            (self.advance(), Ok((MemberHead { is_async: true, ..head }, None)))
        } else {
            match self.class_element_name() {
                (s, Ok(name)) => (s, Ok((head, Some(name)))),
                (s, Err(stop)) => (s, Err(stop)),
            }
        }
    }

    /// The name of a member behind the words in front of it.
    pub open spec fn named(self, head: MemberHead) -> Step<StartView> {
        match self.class_element_name() {
            (s, Ok((key, computed))) => (s, Ok(StartView::Member(head, key, computed))),
            (s, Err(stop)) => (s, Err(stop)),
        }
    }

    /// The current token is reported as unexpected.
    pub open spec fn unexpected_start(self) -> Step<StartView> {
        match self.ask_done(Rule::Unexpected) {
            (s, Ok(_)) => (s, Ok(StartView::Unexpected)),
            (s, Err(stop)) => (s, Err(stop)),
        }
    }

    /// The words `*`, `get` and `set`, and the name of a member that has no name yet. Behind
    /// `async` or `*` the words `get` and `set` are names; elsewhere they are modifiers when a
    /// name follows.
    pub open spec fn member_name(self, head: MemberHead, name: Option<(KeyView, bool)>) -> Step<
        StartView,
    > {
        match name {
            Some((key, computed)) => (self, Ok(StartView::Member(head, key, computed))),
            None => if self.at(Kind::Star) {
                self.advance().named(MemberHead { generator: true, ..head })
            } else if head.is_async {
                self.named(head)
            } else if self.at(Kind::GetWord) && self.peek().is_class_element_name_start {
                self.advance().named(MemberHead { kind: MethodDefinitionKind::Getter, ..head })
            } else if self.at(Kind::SetWord) && self.peek().is_class_element_name_start {
                self.advance().named(MemberHead { kind: MethodDefinitionKind::Setter, ..head })
            } else if self.cur().is_class_element_name_start {
                self.named(head)
            } else {
                self.unexpected_start()
            },
        }
    }

    /// An index signature if one starts here, else the name of a member.
    pub open spec fn index_signature_or_name(
        self,
        start: u32,
        modifiers: ModifiersView,
        head: MemberHead,
        name: Option<(KeyView, bool)>,
    ) -> Step<StartView> {
        match self.ask_flag(Rule::AtTSIndexSignatureMember) {
            (s, Err(stop)) => (s, Err(stop)),
            (s, Ok(true)) => match s.ask_node(
                Rule::IndexSignatureDeclaration { start, modifiers: modifiers.id },
                s.ctx,
            ) {
                (s, Err(stop)) => (s, Err(stop)),
                (s, Ok(node)) => (s, Ok(StartView::Element(ElementView::TSIndexSignature(node)))),
            },
            (s, Ok(false)) => s.member_name(head, name),
        }
    }

    /// The start of a member behind its modifiers.
    pub open spec fn member_start(self, start: u32, modifiers: ModifiersView) -> Step<StartView> {
        let head = MemberHead {
            kind: MethodDefinitionKind::Method,
            is_static: modifiers.contains(ModifierKind::Static),
            is_async: modifiers.contains(ModifierKind::Async),
            generator: false,
        };
        if self.at(Kind::Static) && self.peek_at(Kind::LCurly) {
            match self.advance().class_static_block(start) {
                (s, Err(stop)) => (s, Err(stop)),
                (s, Ok(element)) => (s, Ok(StartView::Element(element))),
            }
        } else {
            match self.static_word(head) {
                (s, Err(stop)) => (s, Err(stop)),
                (s, Ok((head, name))) => match s.async_word(head, name) {
                    (s, Err(stop)) => (s, Err(stop)),
                    (s, Ok((head, name))) => s.index_signature_or_name(
                        start,
                        modifiers,
                        head,
                        name,
                    ),
                },
            }
        }
    }

    /// The mark `?` behind a name: its span, if it stands here.
    pub open spec fn optional_mark(self) -> Option<Span> {
        if self.at(Kind::Question) {
            Some(self.advance().end_span(self.cur().span.start))
        } else {
            None
        }
    }

    /// What is reported of a private name.
    pub open spec fn private_name_errors(self, modifiers: ModifiersView, key: KeyView) -> State {
        match key.name {
            KeyNameView::Private(name) => {
                let s = if self.is_ts {
                    self.verify_modifiers(modifiers, ModifierPlace::PrivateMember)
                } else {
                    self
                };
                s.error_if(
                    name == "constructor"@,
                    Diagnostic::PrivateNameConstructor(key.node.span),
                )
            },
            _ => self,
        }
    }

    /// What is reported of the name and the marks of a member, whatever the member is.
    pub open spec fn name_errors(
        self,
        modifiers: ModifiersView,
        key: KeyView,
        optional: Option<Span>,
        definite: bool,
    ) -> State {
        self.error_if(
            optional is Some && definite,
            Diagnostic::OptionalDefiniteProperty(optional->0.expanded_right(1)),
        ).error_if(
            modifiers.contains(ModifierKind::Const),
            Diagnostic::ConstClassMember(key.node.span),
        ).private_name_errors(modifiers, key)
    }

    /// What is reported of the name of a method.
    pub open spec fn method_name_errors(
        self,
        head: MemberHead,
        key: KeyView,
        computed: bool,
    ) -> State {
        let is_constructor = !head.is_static && super::members::names_constructor(key, computed);
        self.error_if(
            head.is_static && super::members::names_prototype(key, computed) && !self.ctx.ambient,
            Diagnostic::StaticPrototype(key.node.span),
        ).error_if(
            is_constructor && (head.kind == MethodDefinitionKind::Getter || head.kind
                == MethodDefinitionKind::Setter),
            Diagnostic::ConstructorGetterSetter(key.node.span),
        ).error_if(
            is_constructor && head.is_async,
            Diagnostic::ConstructorAsync(key.node.span),
        ).error_if(
            is_constructor && head.generator,
            Diagnostic::ConstructorGenerator(key.node.span),
        )
    }

    /// What is reported of the name of a field.
    pub open spec fn field_name_errors(
        self,
        head: MemberHead,
        key: KeyView,
        computed: bool,
    ) -> State {
        self.error_if(
            super::members::names_constructor(key, computed),
            Diagnostic::FieldConstructor(key.node.span),
        ).error_if(
            head.is_static && super::members::names_prototype(key, computed) && !self.ctx.ambient,
            Diagnostic::StaticPrototype(key.node.span),
        )
    }

    /// An accessor property behind its name and marks.
    pub open spec fn accessor_member(
        self,
        start: u32,
        modifiers: ModifiersView,
        head: MemberHead,
        key: KeyView,
        computed: bool,
        optional: Option<Span>,
        definite: bool,
    ) -> Step<ElementView> {
        self.error_if(
            optional is Some,
            Diagnostic::OptionalAccessorProperty(optional->0),
        ).class_accessor_property(start, key, computed, head.is_static, definite, modifiers)
    }

    /// A method behind its name and marks.
    pub open spec fn method_member(
        self,
        start: u32,
        modifiers: ModifiersView,
        head: MemberHead,
        key: KeyView,
        computed: bool,
        optional: bool,
    ) -> Step<ElementView> {
        self.method_name_errors(head, key, computed).class_method_definition(
            start,
            head.kind,
            key,
            computed,
            head.is_static,
            head.is_async,
            head.generator,
            modifiers.contains(ModifierKind::Override),
            modifiers.contains(ModifierKind::Abstract),
            modifiers.accessibility,
            optional,
        )
    }

    /// A field behind its name and marks.
    pub open spec fn field_member(
        self,
        start: u32,
        modifiers: ModifiersView,
        head: MemberHead,
        key: KeyView,
        computed: bool,
        optional: bool,
        definite: bool,
    ) -> Step<ElementView> {
        self.field_name_errors(head, key, computed).class_property_definition(
            start,
            key,
            computed,
            head.is_static,
            modifiers.contains(ModifierKind::Declare),
            modifiers.contains(ModifierKind::Override),
            modifiers.contains(ModifierKind::Readonly),
            modifiers.contains(ModifierKind::Abstract),
            modifiers.accessibility,
            optional,
            definite,
        )
    }

    /// A member behind its name and marks: an accessor property with the modifier `accessor`; a
    /// method where parameters or type parameters follow, and behind `async` and `*`; else a
    /// field. A getter or setter is no field.
    pub open spec fn marked_member(
        self,
        start: u32,
        modifiers: ModifiersView,
        head: MemberHead,
        key: KeyView,
        computed: bool,
        optional: Option<Span>,
        definite: bool,
    ) -> Step<Option<ElementView>> {
        if modifiers.contains(ModifierKind::Accessor) {
            some_element(
                self.accessor_member(start, modifiers, head, key, computed, optional, definite),
            )
        } else if self.at(Kind::LParen) || self.at(Kind::LAngle) || head.is_async
            || head.generator {
            some_element(
                self.method_member(start, modifiers, head, key, computed, optional is Some),
            )
        } else if head.kind != MethodDefinitionKind::Method {
            match self.ask_done(Rule::Unexpected) {
                (s, Ok(_)) => (s, Ok(None)),
                (s, Err(stop)) => (s, Err(stop)),
            }
        } else {
            some_element(
                self.field_member(
                    start,
                    modifiers,
                    head,
                    key,
                    computed,
                    optional is Some,
                    definite,
                ),
            )
        }
    }

    /// A member behind its name: the marks `?` and `!`, then the rest.
    pub open spec fn member(
        self,
        start: u32,
        modifiers: ModifiersView,
        head: MemberHead,
        key: KeyView,
        computed: bool,
    ) -> Step<Option<ElementView>> {
        let optional = self.optional_mark();
        let marked = self.eat(Kind::Question);
        let definite = marked.at(Kind::Bang);
        marked.eat(Kind::Bang).name_errors(modifiers, key, optional, definite).marked_member(
            start,
            modifiers,
            head,
            key,
            computed,
            optional,
            definite,
        )
    }

    /// A member behind its modifiers.
    pub open spec fn modified_element(self, start: u32, modifiers: ModifiersView) -> Step<
        Option<ElementView>,
    > {
        match self.member_start(start, modifiers) {
            (s, Err(stop)) => (s, Err(stop)),
            (s, Ok(StartView::Element(element))) => (s, Ok(Some(element))),
            (s, Ok(StartView::Unexpected)) => (s, Ok(None)),
            (s, Ok(StartView::Member(head, key, computed))) => s.member(
                start,
                modifiers,
                head,
                key,
                computed,
            ),
        }
    }

    /// The next member of a class body, behind any semicolons. There is none at `}`.
    pub open spec fn class_element(self) -> Step<Option<ElementView>> {
        let s = self.skip_semicolons();
        if s.at(Kind::RCurly) {
            (s, Ok(None))
        } else {
            let start = s.cur().span.start;
            match s.ask_modifiers(
                Rule::Modifiers {
                    allow_decorators: true,
                    permit_const_as_modifier: true,
                    stop_on_start_of_class_static_block: true,
                },
            ) {
                (s, Err(stop)) => (s, Err(stop)),
                (s, Ok(modifiers)) => s.modified_element(start, modifiers),
            }
        }
    }
}

/// A step to a member, as a step to a member that may be absent.
pub open spec fn some_element(step: Step<ElementView>) -> Step<Option<ElementView>> {
    match step {
        (s, Ok(element)) => (s, Ok(Some(element))),
        (s, Err(stop)) => (s, Err(stop)),
    }
}

impl ParserImpl {
    fn skip_semicolons(&mut self)
        ensures
            final(self)@ == old(self)@.skip_semicolons(),
    {
        while self.at(Kind::Semicolon)
            invariant
                old(self)@.skip_semicolons() == self@.skip_semicolons(),
            decreases self@.token_count() - self@.cursor.index,
        {
            self.bump_any();
        }
    }

    fn parse_static_word(&mut self, head: MemberHead) -> (result: Result<
        (MemberHead, Option<(PropertyKey, bool)>),
        Stop,
    >)
        ensures
            final(self)@ == old(self)@.static_word(head).0,
            agrees_name(result, old(self)@.static_word(head).1),
    {
        if !self.at(Kind::Static) {
            return Ok((head, None));
        }
        if self.peek_token().is_class_element_name_start || self.peek_at(Kind::Star) {
            self.bump_any();
            Ok((MemberHead { is_static: true, ..head }, None))
        } else {
            let name = self.parse_class_element_name()?;
            Ok((head, Some(name)))
        }
    }

    fn parse_async_word(&mut self, head: MemberHead, name: Option<(PropertyKey, bool)>) -> (result:
        Result<(MemberHead, Option<(PropertyKey, bool)>), Stop>)
        ensures
            final(self)@ == old(self)@.async_word(head, name_view(name)).0,
            agrees_name(result, old(self)@.async_word(head, name_view(name)).1),
    {
        if name.is_some() || !self.at(Kind::Async) || self.peek_at(Kind::Question) {
            return Ok((head, name));
        }
        if !self.peek_token().is_on_new_line && (self.peek_token().is_class_element_name_start
            || self.peek_at(Kind::Star)) {
            self.bump_any();
            Ok((MemberHead { is_async: true, ..head }, None))
        } else {
            let name = self.parse_class_element_name()?;
            Ok((head, Some(name)))
        }
    }

    fn parse_named(&mut self, head: MemberHead) -> (result: Result<MemberStart, Stop>)
        ensures
            final(self)@ == old(self)@.named(head).0,
            super::state::agrees(result, old(self)@.named(head).1),
    {
        let (key, computed) = self.parse_class_element_name()?;
        Ok(MemberStart::Member(head, key, computed))
    }

    fn parse_member_name(&mut self, head: MemberHead, name: Option<(PropertyKey, bool)>) -> (result:
        Result<MemberStart, Stop>)
        ensures
            final(self)@ == old(self)@.member_name(head, name_view(name)).0,
            super::state::agrees(result, old(self)@.member_name(head, name_view(name)).1),
    {
        if let Some((key, computed)) = name {
            return Ok(MemberStart::Member(head, key, computed));
        }
        // * ...
        if self.eat(Kind::Star) {
            return self.parse_named(MemberHead { generator: true, ..head });
        }
        if head.is_async {
            return self.parse_named(head);
        }
        // get ... / set ...
        let peeked_class_element: bool = self.peek_token().is_class_element_name_start;
        let token = self.cur_token();
        if token.kind == Kind::GetWord && peeked_class_element {
            self.bump_any();
            self.parse_named(MemberHead { kind: MethodDefinitionKind::Getter, ..head })
        } else if token.kind == Kind::SetWord && peeked_class_element {
            self.bump_any();
            self.parse_named(MemberHead { kind: MethodDefinitionKind::Setter, ..head })
        } else if token.is_class_element_name_start {
            self.parse_named(head)
        } else {
            self.ask_done(Rule::Unexpected)?;
            Ok(MemberStart::Unexpected)
        }
    }

    fn parse_index_signature_or_name(
        &mut self,
        start: u32,
        modifiers: &Modifiers,
        head: MemberHead,
        name: Option<(PropertyKey, bool)>,
    ) -> (result: Result<MemberStart, Stop>)
        ensures
            final(self)@ == old(self)@.index_signature_or_name(
                start,
                modifiers@,
                head,
                name_view(name),
            ).0,
            super::state::agrees(
                result,
                old(self)@.index_signature_or_name(start, modifiers@, head, name_view(name)).1,
            ),
    {
        if self.ask_flag(Rule::AtTSIndexSignatureMember)? {
            let node = self.ask_node(
                Rule::IndexSignatureDeclaration { start, modifiers: modifiers.id },
                self.ctx,
            )?;
            return Ok(MemberStart::Element(ClassElement::TSIndexSignature(node)));
        }
        self.parse_member_name(head, name)
    }

    fn parse_member_start(&mut self, start: u32, modifiers: &Modifiers) -> (result: Result<
        MemberStart,
        Stop,
    >)
        ensures
            final(self)@ == old(self)@.member_start(start, modifiers@).0,
            super::state::agrees(result, old(self)@.member_start(start, modifiers@).1),
    {
        let head = MemberHead {
            kind: MethodDefinitionKind::Method,
            is_static: modifiers.contains(ModifierKind::Static),
            is_async: modifiers.contains(ModifierKind::Async),
            generator: false,
        };
        // static { block }
        if self.at(Kind::Static) && self.peek_at(Kind::LCurly) {
            self.bump_any();
            let element = self.parse_class_static_block(start)?;
            return Ok(MemberStart::Element(element));
        }
        // static ...
        let (head, name) = self.parse_static_word(head)?;
        // async ...
        let (head, name) = self.parse_async_word(head, name)?;
        self.parse_index_signature_or_name(start, modifiers, head, name)
    }

    fn report_name_errors(
        &mut self,
        modifiers: &Modifiers,
        key: &PropertyKey,
        optional: Option<Span>,
        definite: bool,
    )
        ensures
            final(self)@ == old(self)@.name_errors(modifiers@, key@, optional, definite),
    {
        if let Some(span) = optional {
            if definite {
                self.error(Diagnostic::OptionalDefiniteProperty(span.expand_right(1)));
            }
        }
        if modifiers.contains(ModifierKind::Const) {
            self.error(Diagnostic::ConstClassMember(key.node.span));
        }
        if let KeyName::Private(_) = &key.name {
            // `private #foo`, etc. is illegal
            if self.is_ts {
                self.verify_modifiers(modifiers, ModifierPlace::PrivateMember);
            }
            if key.is_private("constructor") {
                self.error(Diagnostic::PrivateNameConstructor(key.node.span));
            }
        }
    }

    fn report_method_name_errors(&mut self, head: MemberHead, key: &PropertyKey, computed: bool)
        ensures
            final(self)@ == old(self)@.method_name_errors(head, key@, computed),
    {
        let span = key.node.span;
        if !computed {
            if head.is_static && key.is_named("prototype") && !self.ctx.ambient {
                self.error(Diagnostic::StaticPrototype(span));
            }
            if !head.is_static && key.is_named("constructor") {
                if head.kind == MethodDefinitionKind::Getter || head.kind
                    == MethodDefinitionKind::Setter {
                    self.error(Diagnostic::ConstructorGetterSetter(span));
                }
                if head.is_async {
                    self.error(Diagnostic::ConstructorAsync(span));
                }
                if head.generator {
                    self.error(Diagnostic::ConstructorGenerator(span));
                }
            }
        }
    }

    fn report_field_name_errors(&mut self, head: MemberHead, key: &PropertyKey, computed: bool)
        ensures
            final(self)@ == old(self)@.field_name_errors(head, key@, computed),
    {
        let span = key.node.span;
        if !computed {
            if key.is_named("constructor") {
                self.error(Diagnostic::FieldConstructor(span));
            }
            if head.is_static && key.is_named("prototype") && !self.ctx.ambient {
                self.error(Diagnostic::StaticPrototype(span));
            }
        }
    }

    fn parse_member(
        &mut self,
        start: u32,
        modifiers: &Modifiers,
        head: MemberHead,
        key: PropertyKey,
        computed: bool,
    ) -> (result: Result<Option<ClassElement>, Stop>)
        ensures
            final(self)@ == old(self)@.member(start, modifiers@, head, key@, computed).0,
            agrees_element(result, old(self)@.member(start, modifiers@, head, key@, computed).1),
    {
        let optional = if self.at(Kind::Question) {
            let mark: u32 = self.start_span();
            self.bump_any();
            Some(self.end_span(mark))
        } else {
            None
        };
        let definite: bool = self.eat(Kind::Bang);
        self.report_name_errors(modifiers, &key, optional, definite);
        self.parse_marked_member(start, modifiers, head, key, computed, optional, definite)
    }

    fn parse_accessor_member(
        &mut self,
        start: u32,
        modifiers: &Modifiers,
        head: MemberHead,
        key: PropertyKey,
        computed: bool,
        optional: Option<Span>,
        definite: bool,
    ) -> (result: Result<ClassElement, Stop>)
        ensures
            final(self)@ == old(self)@.accessor_member(
                start,
                modifiers@,
                head,
                key@,
                computed,
                optional,
                definite,
            ).0,
            super::state::agrees(
                result,
                old(self)@.accessor_member(
                    start,
                    modifiers@,
                    head,
                    key@,
                    computed,
                    optional,
                    definite,
                ).1,
            ),
    {
        if let Some(span) = optional {
            self.error(Diagnostic::OptionalAccessorProperty(span));
        }
        self.parse_class_accessor_property(
            start,
            key,
            computed,
            head.is_static,
            definite,
            modifiers,
        )
    }

    fn parse_method_member(
        &mut self,
        start: u32,
        modifiers: &Modifiers,
        head: MemberHead,
        key: PropertyKey,
        computed: bool,
        optional: bool,
    ) -> (result: Result<ClassElement, Stop>)
        ensures
            final(self)@ == old(self)@.method_member(
                start,
                modifiers@,
                head,
                key@,
                computed,
                optional,
            ).0,
            super::state::agrees(
                result,
                old(self)@.method_member(start, modifiers@, head, key@, computed, optional).1,
            ),
    {
        self.report_method_name_errors(head, &key, computed);
        self.parse_class_method_definition(
            start,
            head.kind,
            key,
            computed,
            head.is_static,
            head.is_async,
            head.generator,
            modifiers.contains(ModifierKind::Override),
            modifiers.contains(ModifierKind::Abstract),
            modifiers.accessibility,
            optional,
        )
    }

    fn parse_field_member(
        &mut self,
        start: u32,
        modifiers: &Modifiers,
        head: MemberHead,
        key: PropertyKey,
        computed: bool,
        optional: bool,
        definite: bool,
    ) -> (result: Result<ClassElement, Stop>)
        ensures
            final(self)@ == old(self)@.field_member(
                start,
                modifiers@,
                head,
                key@,
                computed,
                optional,
                definite,
            ).0,
            super::state::agrees(
                result,
                old(self)@.field_member(
                    start,
                    modifiers@,
                    head,
                    key@,
                    computed,
                    optional,
                    definite,
                ).1,
            ),
    {
        self.report_field_name_errors(head, &key, computed);
        self.parse_class_property_definition(
            start,
            key,
            computed,
            head.is_static,
            modifiers.contains(ModifierKind::Declare),
            modifiers.contains(ModifierKind::Override),
            modifiers.contains(ModifierKind::Readonly),
            modifiers.contains(ModifierKind::Abstract),
            modifiers.accessibility,
            optional,
            definite,
        )
    }

    fn parse_marked_member(
        &mut self,
        start: u32,
        modifiers: &Modifiers,
        head: MemberHead,
        key: PropertyKey,
        computed: bool,
        optional: Option<Span>,
        definite: bool,
    ) -> (result: Result<Option<ClassElement>, Stop>)
        ensures
            final(self)@ == old(self)@.marked_member(
                start,
                modifiers@,
                head,
                key@,
                computed,
                optional,
                definite,
            ).0,
            agrees_element(
                result,
                old(self)@.marked_member(
                    start,
                    modifiers@,
                    head,
                    key@,
                    computed,
                    optional,
                    definite,
                ).1,
            ),
    {
        let element = if modifiers.contains(ModifierKind::Accessor) {
            self.parse_accessor_member(start, modifiers, head, key, computed, optional, definite)?
        } else if self.at(Kind::LParen) || self.at(Kind::LAngle) || head.is_async
            || head.generator {
            self.parse_method_member(start, modifiers, head, key, computed, optional.is_some())?
        } else if head.kind != MethodDefinitionKind::Method {
            // getter and setter has no ts type annotation
            self.ask_done(Rule::Unexpected)?;
            return Ok(None);
        } else {
            self.parse_field_member(
                start,
                modifiers,
                head,
                key,
                computed,
                optional.is_some(),
                definite,
            )?
        };
        Ok(Some(element))
    }

    /// Reads the next member of a class body, if there is one.
    pub fn parse_class_element(&mut self) -> (result: Result<Option<ClassElement>, Stop>)
        ensures
            final(self)@ == old(self)@.class_element().0,
            agrees_element(result, old(self)@.class_element().1),
    {
        // skip empty class element `;`
        self.skip_semicolons();
        if self.at(Kind::RCurly) {
            return Ok(None);
        }
        let start: u32 = self.start_span();
        let modifiers = self.ask_modifiers(
            Rule::Modifiers {
                allow_decorators: true,
                permit_const_as_modifier: true,
                stop_on_start_of_class_static_block: true,
            },
        )?;
        match self.parse_member_start(start, &modifiers)? {
            MemberStart::Element(element) => Ok(Some(element)),
            MemberStart::Unexpected => Ok(None),
            MemberStart::Member(head, key, computed) => self.parse_member(
                start,
                &modifiers,
                head,
                key,
                computed,
            ),
        }
    }
}

/// The model of a name that may have been read.
pub open spec fn name_view(name: Option<(PropertyKey, bool)>) -> Option<(KeyView, bool)> {
    match name {
        Some(name) => Some(name@),
        None => None,
    }
}

} // verus!
