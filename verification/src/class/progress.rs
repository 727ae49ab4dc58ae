//! What every step of the parser keeps.
use super::declaration::StatementContext;
use super::element::{MemberHead, StartView};
use super::heritage::HeritageView;
use super::host::{Context, Rule, Stop};
use super::modifiers::{ModifierKind, ModifierPlace, ModifiersView};
use super::state::{State, Step};
use super::syntax::{
    ClassType, Diagnostic, Function, KeyView, Kind, MethodDefinitionKind, TSAccessibility,
};
use crate::span::Span;
use vstd::prelude::*;

verus! {

impl State {
    /// Parsing leads from this state to the later one, with every request answered: the source
    /// and the context are the same, what was reported and asked is still there, and the
    /// replies were taken from the front, one for each new request.
    pub open spec fn reaches(self, later: State) -> bool {
        let taken = self.replies.len() - later.replies.len();
        &&& later.tokens == self.tokens
        &&& later.source_end == self.source_end
        &&& later.ctx == self.ctx
        &&& later.is_ts == self.is_ts
        &&& self.errors.len() <= later.errors.len()
        &&& later.errors.take(self.errors.len() as int) == self.errors
        &&& taken >= 0
        &&& later.replies == self.replies.skip(taken)
        &&& later.requests.len() == self.requests.len() + taken
        &&& later.requests.take(self.requests.len() as int) == self.requests
    }

    /// The state before its last request.
    pub open spec fn before_request(self) -> State {
        State { requests: self.requests.drop_last(), ..self }
    }
}

/// A step from this state keeps what every step keeps. Where it ends for want of a reply, all
/// replies have been taken and only the last request is unanswered.
pub open spec fn keeps<T>(s: State, step: Step<T>) -> bool {
    if step.1 is Err && step.1->Err_0 == Stop::Pending {
        &&& step.0.replies.len() == 0
        &&& step.0.requests.len() > 0
        &&& s.reaches(step.0.before_request())
    } else {
        s.reaches(step.0)
    }
}

pub proof fn lemma_reaches_chain(a: State, b: State, c: State)
    requires
        a.reaches(b),
        b.reaches(c),
    ensures
        a.reaches(c),
{
    assert(c.errors.take(a.errors.len() as int) =~= c.errors.take(b.errors.len() as int).take(
        a.errors.len() as int,
    ));
    assert(c.requests.take(a.requests.len() as int) =~= c.requests.take(
        b.requests.len() as int,
    ).take(a.requests.len() as int));
    assert(c.replies =~= a.replies.skip(a.replies.len() - c.replies.len()));
}

pub proof fn lemma_keeps_chain<T>(a: State, b: State, step: Step<T>)
    requires
        a.reaches(b),
        keeps(b, step),
    ensures
        keeps(a, step),
{
    if step.1 is Err && step.1->Err_0 == Stop::Pending {
        lemma_reaches_chain(a, b, step.0.before_request());
    } else {
        lemma_reaches_chain(a, b, step.0);
    }
}

pub proof fn lemma_ask_keeps(s: State, rule: Rule, ctx: Context)
    ensures
        keeps(s, s.ask_in(rule, ctx)),
{
    let step = s.ask_in(rule, ctx);
    if s.replies.len() == 0 {
        let before = step.0.before_request();
        assert(before.requests =~= s.requests);
        assert(before.errors.take(s.errors.len() as int) =~= s.errors);
        assert(before.replies =~= s.replies.skip(0));
        assert(before.requests.take(s.requests.len() as int) =~= s.requests);
    } else {
        assert(step.0.errors.take(s.errors.len() as int) =~= s.errors);
        assert(step.0.replies =~= s.replies.skip(1));
        assert(step.0.requests.take(s.requests.len() as int) =~= s.requests);
    }
}

/// Steps that ask for nothing and only report.
pub proof fn lemma_reports_reach(s: State, later: State)
    requires
        later.tokens == s.tokens,
        later.source_end == s.source_end,
        later.ctx == s.ctx,
        later.is_ts == s.is_ts,
        later.replies == s.replies,
        later.requests == s.requests,
        s.errors.len() <= later.errors.len(),
        later.errors.take(s.errors.len() as int) == s.errors,
    ensures
        s.reaches(later),
{
    assert(s.replies.skip(0) =~= s.replies);
    assert(s.requests.take(s.requests.len() as int) =~= s.requests);
}

pub proof fn lemma_same_reach(s: State, later: State)
    requires
        later == (State { cursor: later.cursor, decorators: later.decorators, ..s }),
    ensures
        s.reaches(later),
{
    assert(s.errors.take(s.errors.len() as int) =~= s.errors);
    lemma_reports_reach(s, later);
}

pub proof fn lemma_error_if_reaches(s: State, reported: bool, diagnostic: Diagnostic)
    ensures
        s.reaches(s.error_if(reported, diagnostic)),
{
    let later = s.error_if(reported, diagnostic);
    assert(later.errors.take(s.errors.len() as int) =~= s.errors);
    lemma_reports_reach(s, later);
}

pub proof fn lemma_verify_modifiers_reaches(
    s: State,
    modifiers: ModifiersView,
    place: ModifierPlace,
)
    ensures
        s.reaches(s.verify_modifiers(modifiers, place)),
{
    let later = s.verify_modifiers(modifiers, place);
    assert(later.errors.take(s.errors.len() as int) =~= s.errors);
    lemma_reports_reach(s, later);
}

pub proof fn lemma_class_element_name_keeps(s: State)
    ensures
        keeps(s, s.class_element_name()),
{
    if s.at(Kind::PrivateIdentifier) {
        lemma_ask_keeps(s, Rule::PrivateIdentifier, s.ctx);
    } else {
        lemma_ask_keeps(s, Rule::PropertyName, s.ctx);
    }
}

pub proof fn lemma_type_annotation_keeps(s: State)
    ensures
        keeps(s, s.type_annotation()),
{
    if s.is_ts {
        lemma_ask_keeps(s, Rule::TSTypeAnnotation, s.ctx);
    } else {
        lemma_same_reach(s, s);
    }
}

pub proof fn lemma_field_initializer_keeps(s: State)
    ensures
        keeps(s, s.field_initializer()),
{
    if s.at(Kind::Eq) {
        lemma_same_reach(s, s.advance());
        lemma_ask_keeps(s.advance(), Rule::Expr, s.ctx.initializer_spec());
        lemma_keeps_chain(s, s.advance(), s.field_initializer());
    } else {
        lemma_same_reach(s, s);
    }
}

pub proof fn lemma_accessor_initializer_keeps(s: State)
    ensures
        keeps(s, s.accessor_initializer()),
{
    if s.at(Kind::Eq) {
        lemma_same_reach(s, s.advance());
        lemma_ask_keeps(s.advance(), Rule::AssignmentExpressionOrHigher, s.ctx);
        lemma_keeps_chain(s, s.advance(), s.accessor_initializer());
    } else {
        lemma_same_reach(s, s);
    }
}

pub proof fn lemma_constructor_errors_reach(
    s: State,
    value: Function,
    key: KeyView,
    is_static: bool,
)
    ensures
        s.reaches(s.constructor_errors(value, key, is_static)),
{
    let later = s.constructor_errors(value, key, is_static);
    assert(later.errors.take(s.errors.len() as int) =~= s.errors);
    lemma_reports_reach(s, later);
}

pub proof fn lemma_class_method_definition_keeps(
    s: State,
    start: u32,
    kind: MethodDefinitionKind,
    key: KeyView,
    computed: bool,
    is_static: bool,
    is_async: bool,
    generator: bool,
    is_override: bool,
    is_abstract: bool,
    accessibility: Option<TSAccessibility>,
    optional: bool,
)
    ensures
        keeps(
            s,
            s.class_method_definition(
                start,
                kind,
                key,
                computed,
                is_static,
                is_async,
                generator,
                is_override,
                is_abstract,
                accessibility,
                optional,
            ),
        ),
{
    let rule = Rule::Method { is_async, generator };
    let bare = s.without_decorators();
    let step = s.class_method_definition(
        start,
        kind,
        key,
        computed,
        is_static,
        is_async,
        generator,
        is_override,
        is_abstract,
        accessibility,
        optional,
    );
    lemma_same_reach(s, bare);
    lemma_ask_keeps(bare, rule, s.ctx);
    let asked = bare.ask_function(rule);
    lemma_keeps_chain(s, bare, asked);
    if let (a, Ok(value)) = asked {
        lemma_constructor_errors_reach(a, value, key, is_static);
        lemma_same_reach(a, a);
        lemma_reaches_chain(s, a, step.0);
    }
}

pub proof fn lemma_class_property_definition_keeps(
    s: State,
    start: u32,
    key: KeyView,
    computed: bool,
    is_static: bool,
    declare: bool,
    is_override: bool,
    readonly: bool,
    is_abstract: bool,
    accessibility: Option<TSAccessibility>,
    optional: bool,
    definite: bool,
)
    ensures
        keeps(
            s,
            s.class_property_definition(
                start,
                key,
                computed,
                is_static,
                declare,
                is_override,
                readonly,
                is_abstract,
                accessibility,
                optional,
                definite,
            ),
        ),
{
    lemma_type_annotation_keeps(s);
    if let (a, Ok(_)) = s.type_annotation() {
        let bare = a.without_decorators();
        lemma_same_reach(a, bare);
        lemma_reaches_chain(s, a, bare);
        let value = bare.field_initializer();
        lemma_field_initializer_keeps(bare);
        lemma_keeps_chain(s, bare, value);
        if let (b, Ok(_)) = value {
            lemma_ask_keeps(b, Rule::Asi, b.ctx);
            lemma_keeps_chain(s, b, b.ask_done(Rule::Asi));
        }
    }
}

pub proof fn lemma_class_accessor_property_keeps(
    s: State,
    start: u32,
    key: KeyView,
    computed: bool,
    is_static: bool,
    definite: bool,
    modifiers: ModifiersView,
)
    ensures
        keeps(
            s,
            s.class_accessor_property(start, key, computed, is_static, definite, modifiers),
        ),
{
    lemma_type_annotation_keeps(s);
    if let (a, Ok(_)) = s.type_annotation() {
        let value = a.accessor_initializer();
        lemma_accessor_initializer_keeps(a);
        lemma_keeps_chain(s, a, value);
        if let (b, Ok(_)) = value {
            let asi = b.ask_done(Rule::Asi);
            lemma_ask_keeps(b, Rule::Asi, b.ctx);
            lemma_keeps_chain(s, b, asi);
            if let (c, Ok(_)) = asi {
                let checked = c.verify_modifiers(modifiers, ModifierPlace::AccessorProperty);
                lemma_verify_modifiers_reaches(c, modifiers, ModifierPlace::AccessorProperty);
                lemma_same_reach(checked, checked.without_decorators());
                lemma_reaches_chain(s, c, checked);
                lemma_reaches_chain(s, checked, checked.without_decorators());
            }
        }
    }
}

pub proof fn lemma_class_static_block_keeps(s: State, start: u32)
    ensures
        keeps(s, s.class_static_block(start)),
{
    lemma_ask_keeps(s, Rule::Block, s.ctx.static_block_spec());
}

pub proof fn lemma_static_word_keeps(s: State, head: MemberHead)
    ensures
        keeps(s, s.static_word(head)),
{
    lemma_same_reach(s, s);
    lemma_same_reach(s, s.advance());
    lemma_class_element_name_keeps(s);
}

pub proof fn lemma_async_word_keeps(s: State, head: MemberHead, name: Option<(KeyView, bool)>)
    ensures
        keeps(s, s.async_word(head, name)),
{
    lemma_same_reach(s, s);
    lemma_same_reach(s, s.advance());
    lemma_class_element_name_keeps(s);
}

pub proof fn lemma_member_name_keeps(s: State, head: MemberHead, name: Option<(KeyView, bool)>)
    ensures
        keeps(s, s.member_name(head, name)),
{
    let step = s.member_name(head, name);
    lemma_same_reach(s, s);
    lemma_same_reach(s, s.advance());
    lemma_class_element_name_keeps(s);
    lemma_class_element_name_keeps(s.advance());
    lemma_ask_keeps(s, Rule::Unexpected, s.ctx);
    if name is None && (s.at(Kind::Star) || (!head.is_async && (s.at(Kind::GetWord) || s.at(
        Kind::SetWord,
    )) && s.peek().is_class_element_name_start)) {
        lemma_keeps_chain(s, s.advance(), step);
    }
}

pub proof fn lemma_index_signature_or_name_keeps(
    s: State,
    start: u32,
    modifiers: ModifiersView,
    head: MemberHead,
    name: Option<(KeyView, bool)>,
)
    ensures
        keeps(s, s.index_signature_or_name(start, modifiers, head, name)),
{
    let asked = s.ask_flag(Rule::AtTSIndexSignatureMember);
    lemma_ask_keeps(s, Rule::AtTSIndexSignatureMember, s.ctx);
    if let (a, Ok(found)) = asked {
        let step = s.index_signature_or_name(start, modifiers, head, name);
        if found {
            lemma_ask_keeps(
                a,
                Rule::IndexSignatureDeclaration { start, modifiers: modifiers.id },
                a.ctx,
            );
        } else {
            lemma_member_name_keeps(a, head, name);
        }
        lemma_keeps_chain(s, a, step);
    }
}

pub proof fn lemma_member_start_keeps(s: State, start: u32, modifiers: ModifiersView)
    ensures
        keeps(s, s.member_start(start, modifiers)),
{
    let step = s.member_start(start, modifiers);
    let head = MemberHead {
        kind: MethodDefinitionKind::Method,
        is_static: modifiers.contains(ModifierKind::Static),
        is_async: modifiers.contains(ModifierKind::Async),
        generator: false,
    };
    if s.at(Kind::Static) && s.peek_at(Kind::LCurly) {
        lemma_same_reach(s, s.advance());
        lemma_class_static_block_keeps(s.advance(), start);
        lemma_keeps_chain(s, s.advance(), step);
    } else {
        lemma_static_word_keeps(s, head);
        if let (a, Ok((head, name))) = s.static_word(head) {
            lemma_async_word_keeps(a, head, name);
            lemma_keeps_chain(s, a, a.async_word(head, name));
            if let (b, Ok((head, name))) = a.async_word(head, name) {
                lemma_index_signature_or_name_keeps(b, start, modifiers, head, name);
                lemma_keeps_chain(s, b, step);
            }
        }
    }
}

pub proof fn lemma_name_errors_reach(
    s: State,
    modifiers: ModifiersView,
    key: KeyView,
    optional: Option<Span>,
    definite: bool,
)
    ensures
        s.reaches(s.name_errors(modifiers, key, optional, definite)),
{
    let later = s.name_errors(modifiers, key, optional, definite);
    assert(later.errors.take(s.errors.len() as int) =~= s.errors);
    lemma_reports_reach(s, later);
}

pub proof fn lemma_method_name_errors_reach(
    s: State,
    head: MemberHead,
    key: KeyView,
    computed: bool,
)
    ensures
        s.reaches(s.method_name_errors(head, key, computed)),
{
    let later = s.method_name_errors(head, key, computed);
    assert(later.errors.take(s.errors.len() as int) =~= s.errors);
    lemma_reports_reach(s, later);
}

pub proof fn lemma_field_name_errors_reach(s: State, head: MemberHead, key: KeyView, computed: bool)
    ensures
        s.reaches(s.field_name_errors(head, key, computed)),
{
    let later = s.field_name_errors(head, key, computed);
    assert(later.errors.take(s.errors.len() as int) =~= s.errors);
    lemma_reports_reach(s, later);
}

pub proof fn lemma_accessor_member_keeps(
    s: State,
    start: u32,
    modifiers: ModifiersView,
    head: MemberHead,
    key: KeyView,
    computed: bool,
    optional: Option<Span>,
    definite: bool,
)
    ensures
        keeps(s, s.accessor_member(start, modifiers, head, key, computed, optional, definite)),
{
    let complaint = Diagnostic::OptionalAccessorProperty(optional->0);
    let a = s.error_if(optional is Some, complaint);
    lemma_error_if_reaches(s, optional is Some, complaint);
    lemma_class_accessor_property_keeps(
        a,
        start,
        key,
        computed,
        head.is_static,
        definite,
        modifiers,
    );
    lemma_keeps_chain(
        s,
        a,
        a.class_accessor_property(start, key, computed, head.is_static, definite, modifiers),
    );
}

pub proof fn lemma_method_member_keeps(
    s: State,
    start: u32,
    modifiers: ModifiersView,
    head: MemberHead,
    key: KeyView,
    computed: bool,
    optional: bool,
)
    ensures
        keeps(s, s.method_member(start, modifiers, head, key, computed, optional)),
{
    let a = s.method_name_errors(head, key, computed);
    lemma_method_name_errors_reach(s, head, key, computed);
    lemma_class_method_definition_keeps(
        a,
        start,
        head.kind,
        key,
        computed,
        head.is_static,
        head.is_async,
        head.generator,
        modifiers.contains(ModifierKind::Override),
        modifiers.contains(ModifierKind::Abstract),
        modifiers.accessibility,
        optional,
    );
    lemma_keeps_chain(s, a, s.method_member(start, modifiers, head, key, computed, optional));
}

pub proof fn lemma_field_member_keeps(
    s: State,
    start: u32,
    modifiers: ModifiersView,
    head: MemberHead,
    key: KeyView,
    computed: bool,
    optional: bool,
    definite: bool,
)
    ensures
        keeps(s, s.field_member(start, modifiers, head, key, computed, optional, definite)),
{
    let a = s.field_name_errors(head, key, computed);
    lemma_field_name_errors_reach(s, head, key, computed);
    lemma_class_property_definition_keeps(
        a,
        start,
        key,
        computed,
        head.is_static,
        modifiers.contains(ModifierKind::Declare),
        modifiers.contains(ModifierKind::Override),
        modifiers.contains(ModifierKind::Readonly),
        modifiers.contains(ModifierKind::Abstract),
        modifiers.accessibility,
        optional,
        definite,
    );
    lemma_keeps_chain(
        s,
        a,
        s.field_member(start, modifiers, head, key, computed, optional, definite),
    );
}

pub proof fn lemma_marked_member_keeps(
    s: State,
    start: u32,
    modifiers: ModifiersView,
    head: MemberHead,
    key: KeyView,
    computed: bool,
    optional: Option<Span>,
    definite: bool,
)
    ensures
        keeps(s, s.marked_member(start, modifiers, head, key, computed, optional, definite)),
{
    lemma_accessor_member_keeps(s, start, modifiers, head, key, computed, optional, definite);
    lemma_method_member_keeps(s, start, modifiers, head, key, computed, optional is Some);
    lemma_field_member_keeps(s, start, modifiers, head, key, computed, optional is Some, definite);
    lemma_ask_keeps(s, Rule::Unexpected, s.ctx);
}

pub proof fn lemma_member_keeps(
    s: State,
    start: u32,
    modifiers: ModifiersView,
    head: MemberHead,
    key: KeyView,
    computed: bool,
)
    ensures
        keeps(s, s.member(start, modifiers, head, key, computed)),
{
    let optional = s.optional_mark();
    let marked = s.eat(Kind::Question);
    let definite = marked.at(Kind::Bang);
    let a = marked.eat(Kind::Bang);
    let b = a.name_errors(modifiers, key, optional, definite);
    lemma_same_reach(s, a);
    lemma_name_errors_reach(a, modifiers, key, optional, definite);
    lemma_reaches_chain(s, a, b);
    lemma_marked_member_keeps(b, start, modifiers, head, key, computed, optional, definite);
    lemma_keeps_chain(s, b, s.member(start, modifiers, head, key, computed));
}

pub proof fn lemma_modified_element_keeps(s: State, start: u32, modifiers: ModifiersView)
    ensures
        keeps(s, s.modified_element(start, modifiers)),
{
    lemma_member_start_keeps(s, start, modifiers);
    if let (a, Ok(StartView::Member(head, key, computed))) = s.member_start(start, modifiers) {
        lemma_member_keeps(a, start, modifiers, head, key, computed);
        lemma_keeps_chain(s, a, s.modified_element(start, modifiers));
    }
}

pub proof fn lemma_skip_semicolons_same(s: State)
    ensures
        s.skip_semicolons() == (State { cursor: s.skip_semicolons().cursor, ..s }),
    decreases s.token_count() - s.cursor.index,
{
    if s.at(Kind::Semicolon) {
        lemma_skip_semicolons_same(s.advance());
    }
}

/// Reading a member keeps what every step keeps, and takes a reply where there is a member.
pub proof fn lemma_class_element_keeps(s: State)
    ensures
        keeps(s, s.class_element()),
        s.class_element().1 is Ok && s.class_element().1->Ok_0 is Some
            ==> s.class_element().0.replies.len() < s.replies.len(),
{
    let a = s.skip_semicolons();
    lemma_skip_semicolons_same(s);
    lemma_same_reach(s, a);
    if !a.at(Kind::RCurly) {
        let rule = Rule::Modifiers {
            allow_decorators: true,
            permit_const_as_modifier: true,
            stop_on_start_of_class_static_block: true,
        };
        lemma_ask_keeps(a, rule, a.ctx);
        lemma_keeps_chain(s, a, a.ask(rule));
        if let (b, Ok(modifiers)) = a.ask_modifiers(rule) {
            let start = a.cur().span.start;
            lemma_same_reach(a.ask(rule).0, b);
            lemma_reaches_chain(s, a.ask(rule).0, b);
            lemma_modified_element_keeps(b, start, modifiers);
            lemma_keeps_chain(s, b, s.class_element());
        }
    }
}

pub proof fn lemma_extends_entry_keeps(s: State)
    ensures
        keeps(s, s.extends_entry()),
{
    lemma_ask_keeps(s, Rule::LhsExpressionOrHigher, s.ctx);
    if let (a, Ok(_)) = s.ask_expression(Rule::LhsExpressionOrHigher) {
        lemma_ask_keeps(a, Rule::TypeArguments, a.ctx);
        lemma_keeps_chain(s, a, a.ask_optional(Rule::TypeArguments));
    }
}

pub proof fn lemma_extends_entries_keeps(s: State)
    ensures
        keeps(s, s.extends_entries()),
    decreases s.replies.len(),
{
    lemma_extends_entry_keeps(s);
    if let (a, Ok(_)) = s.extends_entry() {
        if a.at(Kind::Comma) {
            lemma_same_reach(a, a.advance());
            lemma_reaches_chain(s, a, a.advance());
            lemma_extends_entries_keeps(a.advance());
            lemma_keeps_chain(s, a.advance(), s.extends_entries());
        }
    }
}

pub proof fn lemma_at_clause_reaches(s: State, before: HeritageView)
    ensures
        s.reaches(s.at_extends(before)),
        s.reaches(s.at_implements(before)),
{
    let extends = s.at_extends(before);
    let implements = s.at_implements(before);
    assert(extends.errors.take(s.errors.len() as int) =~= s.errors);
    assert(implements.errors.take(s.errors.len() as int) =~= s.errors);
    lemma_reports_reach(s, extends);
    lemma_reports_reach(s, implements);
}

pub proof fn lemma_heritage_keeps(s: State, before: HeritageView)
    ensures
        keeps(s, s.heritage(before)),
    decreases s.replies.len(),
{
    lemma_at_clause_reaches(s, before);
    if s.at(Kind::Extends) {
        let a = s.at_extends(before);
        let b = a.advance();
        let entries = b.extends_entries();
        lemma_same_reach(a, b);
        lemma_reaches_chain(s, a, b);
        lemma_extends_entries_keeps(b);
        lemma_keeps_chain(s, b, entries);
        b.lemma_extends_entries_progress();
        if let (c, Ok(list)) = entries {
            let clauses = HeritageView { extends: Some(list), implements: before.implements };
            lemma_heritage_keeps(c, clauses);
            lemma_keeps_chain(s, c, c.heritage(clauses));
        }
    } else if s.at(Kind::Implements) {
        let a = s.at_implements(before);
        let asked = a.ask_nodes(Rule::TSImplementsClause);
        lemma_ask_keeps(a, Rule::TSImplementsClause, a.ctx);
        lemma_keeps_chain(s, a, asked);
        if let (b, Ok(list)) = asked {
            let clauses = HeritageView {
                extends: before.extends,
                implements: before.implements + list,
            };
            lemma_heritage_keeps(b, clauses);
            lemma_keeps_chain(s, b, b.heritage(clauses));
        }
    } else {
        lemma_same_reach(s, s);
    }
}

pub proof fn lemma_class_name_keeps(s: State)
    ensures
        keeps(s, s.class_name()),
{
    lemma_same_reach(s, s);
    lemma_ask_keeps(s, Rule::BindingIdentifier, s.ctx);
}

pub proof fn lemma_class_type_parameters_keeps(s: State)
    ensures
        keeps(s, s.class_type_parameters()),
{
    lemma_same_reach(s, s);
    lemma_ask_keeps(s, Rule::TSTypeParameters, s.ctx);
}

pub proof fn lemma_class_elements_keeps(s: State)
    ensures
        keeps(s, s.class_elements()),
    decreases s.replies.len(),
{
    lemma_class_element_keeps(s);
    if let (a, Ok(Some(_))) = s.class_element() {
        lemma_class_elements_keeps(a);
        lemma_keeps_chain(s, a, s.class_elements());
    }
}

pub proof fn lemma_class_body_keeps(s: State)
    ensures
        keeps(s, s.class_body()),
{
    let open = Rule::Expect(Kind::LCurly);
    let close = Rule::Expect(Kind::RCurly);
    lemma_ask_keeps(s, open, s.ctx);
    if let (a, Ok(_)) = s.ask_done(open) {
        lemma_class_elements_keeps(a);
        lemma_keeps_chain(s, a, a.class_elements());
        if let (b, Ok(_)) = a.class_elements() {
            lemma_ask_keeps(b, close, b.ctx);
            lemma_keeps_chain(s, b, b.ask_done(close));
        }
    }
}

/// Reading a class keeps what every step keeps.
pub proof fn law_class_keeps(s: State, start: u32, class_type: ClassType, modifiers: ModifiersView)
    ensures
        keeps(s, s.class(start, class_type, modifiers)),
{
    let a = s.advance().without_decorators();
    lemma_same_reach(s, a);
    lemma_class_name_keeps(a);
    lemma_keeps_chain(s, a, a.class_name());
    if let (b, Ok(_)) = a.class_name() {
        lemma_class_type_parameters_keeps(b);
        lemma_keeps_chain(s, b, b.class_type_parameters());
        if let (c, Ok(_)) = b.class_type_parameters() {
            lemma_heritage_keeps(c, HeritageView::empty());
            lemma_keeps_chain(s, c, c.heritage(HeritageView::empty()));
            if let (d, Ok(_)) = c.heritage(HeritageView::empty()) {
                lemma_class_body_keeps(d);
                lemma_keeps_chain(s, d, d.class_body());
                if let (e, Ok(_)) = d.class_body() {
                    lemma_verify_modifiers_reaches(e, modifiers, ModifierPlace::Class);
                    lemma_reaches_chain(s, e, e.verify_modifiers(modifiers, ModifierPlace::Class));
                }
            }
        }
    }
}

/// Reading a class declaration keeps what every step keeps.
pub proof fn law_class_statement_keeps(s: State, stmt_ctx: StatementContext, start: u32)
    ensures
        keeps(s, s.class_statement(stmt_ctx, start)),
{
    let rule = Rule::Modifiers {
        allow_decorators: true,
        permit_const_as_modifier: false,
        stop_on_start_of_class_static_block: true,
    };
    lemma_ask_keeps(s, rule, s.ctx);
    if let (a, Ok(modifiers)) = s.ask_modifiers(rule) {
        let class = a.class(start, ClassType::ClassDeclaration, modifiers);
        lemma_same_reach(s.ask(rule).0, a);
        lemma_reaches_chain(s, s.ask(rule).0, a);
        law_class_keeps(a, start, ClassType::ClassDeclaration, modifiers);
        lemma_keeps_chain(s, a, class);
        if let (b, Ok(read)) = class {
            let single = stmt_ctx == StatementContext::SingleStatement;
            let complaint = Diagnostic::ClassDeclaration(
                Span { start: read.span.start, end: read.body.span.start },
            );
            lemma_error_if_reaches(b, single, complaint);
            lemma_reaches_chain(s, b, b.error_if(single, complaint));
        }
    }
}

} // verus!
