//! What holds of every class that is read.
use super::declaration::StatementContext;
use super::element::{MemberHead, StartView};
use super::heritage::HeritageView;
use super::host::Rule;
use super::modifiers::{ModifierKind, ModifiersView};
use super::state::State;
use super::syntax::{
    ClassType, Diagnostic, ElementView, KeyView, Kind, MethodDefinitionKind, TSAccessibility,
};
use crate::span::Span;
use vstd::prelude::*;

verus! {

/// The span of a member. That of an index signature is up to the host parser.
pub open spec fn element_span(element: ElementView) -> Option<Span> {
    match element {
        ElementView::StaticBlock { span, .. } => Some(span),
        ElementView::MethodDefinition(method) => Some(method.span),
        ElementView::PropertyDefinition(property) => Some(property.span),
        ElementView::AccessorProperty(accessor) => Some(accessor.span),
        ElementView::TSIndexSignature(_) => None,
    }
}

/// The member has a type annotation.
pub open spec fn has_type_annotation(element: ElementView) -> bool {
    match element {
        ElementView::PropertyDefinition(property) => property.type_annotation is Some,
        ElementView::AccessorProperty(accessor) => accessor.type_annotation is Some,
        _ => false,
    }
}

/// The member has a name of its own: it is a method, a field or an accessor property.
pub open spec fn is_named_member(element: ElementView) -> bool {
    element is MethodDefinition || element is PropertyDefinition || element is AccessorProperty
}

/// A method is the constructor if and only if it is not static and is named `constructor`, and
/// not by a computed key.
pub open spec fn is_rightly_constructor(element: ElementView) -> bool {
    element matches ElementView::MethodDefinition(method) ==> (method.kind
        == MethodDefinitionKind::Constructor <==> !method.is_static
        && super::members::names_constructor(method.key, method.computed))
}

/// A getter or setter is neither async nor a generator: its function was asked for as a plain
/// one, and last of all.
pub open spec fn is_plain_accessor(element: ElementView, later: State) -> bool {
    element matches ElementView::MethodDefinition(method) ==> (method.kind
        == MethodDefinitionKind::Getter || method.kind == MethodDefinitionKind::Setter
        ==> later.requests.last().rule == (Rule::Method { is_async: false, generator: false }))
}

/// The words in front of a name fit together: none makes a constructor, and a getter or setter
/// is neither async nor a generator.
pub open spec fn is_fit(head: MemberHead) -> bool {
    &&& head.kind != MethodDefinitionKind::Constructor
    &&& head.kind != MethodDefinitionKind::Method ==> !head.is_async && !head.generator
}

/// What holds of a member between its start and the state behind it.
pub open spec fn is_sound_member(s: State, start: u32, element: ElementView, later: State) -> bool {
    &&& element_span(element) matches Some(span) ==> span == later.end_span(start)
    &&& is_named_member(element) ==> later.decorators.len() == 0
    &&& !s.is_ts ==> !has_type_annotation(element)
    &&& is_rightly_constructor(element)
    &&& is_plain_accessor(element, later)
}

proof fn lemma_accessor_member(
    s: State,
    start: u32,
    modifiers: ModifiersView,
    head: MemberHead,
    key: KeyView,
    computed: bool,
    optional: Option<Span>,
    definite: bool,
)
    ensures
        s.accessor_member(start, modifiers, head, key, computed, optional, definite) matches (
            later,
            Ok(element),
        ) ==> element is AccessorProperty && is_sound_member(s, start, element, later),
{
}

proof fn lemma_method_definition(
    s: State,
    start: u32,
    kind: MethodDefinitionKind,
    key: KeyView,
    computed: bool,
    is_static: bool,
    is_async: bool,
    generator: bool,
    is_override: bool,
    is_abstract: bool,
    accessibility: Option<TSAccessibility>,
    optional: bool,
)
    requires
        is_fit(MemberHead { kind, is_static, is_async, generator }),
    ensures
        s.class_method_definition(
            start,
            kind,
            key,
            computed,
            is_static,
            is_async,
            generator,
            is_override,
            is_abstract,
            accessibility,
            optional,
        ) matches (later, Ok(element)) ==> element is MethodDefinition && is_sound_member(
            s,
            start,
            element,
            later,
        ),
{
}

proof fn lemma_field_member(
    s: State,
    start: u32,
    modifiers: ModifiersView,
    head: MemberHead,
    key: KeyView,
    computed: bool,
    optional: bool,
    definite: bool,
)
    ensures
        s.field_member(start, modifiers, head, key, computed, optional, definite) matches (
            later,
            Ok(element),
        ) ==> element is PropertyDefinition && is_sound_member(s, start, element, later),
{
}

proof fn lemma_marked_member(
    s: State,
    start: u32,
    modifiers: ModifiersView,
    head: MemberHead,
    key: KeyView,
    computed: bool,
    optional: Option<Span>,
    definite: bool,
)
    requires
        is_fit(head),
    ensures
        s.marked_member(start, modifiers, head, key, computed, optional, definite) matches (
            later,
            Ok(Some(element)),
        ) ==> {
            &&& is_sound_member(s, start, element, later)
            &&& element is AccessorProperty <==> modifiers.contains(ModifierKind::Accessor)
            &&& element is PropertyDefinition ==> head.kind == MethodDefinitionKind::Method
                && !head.is_async && !head.generator
        },
{
    if modifiers.contains(ModifierKind::Accessor) {
        lemma_accessor_member(s, start, modifiers, head, key, computed, optional, definite);
    } else if s.at(Kind::LParen) || s.at(Kind::LAngle) || head.is_async || head.generator {
        lemma_method_definition(
            s.method_name_errors(head, key, computed),
            start,
            head.kind,
            key,
            computed,
            head.is_static,
            head.is_async,
            head.generator,
            modifiers.contains(ModifierKind::Override),
            modifiers.contains(ModifierKind::Abstract),
            modifiers.accessibility,
            optional is Some,
        );
    } else if head.kind == MethodDefinitionKind::Method {
        lemma_field_member(
            s,
            start,
            modifiers,
            head,
            key,
            computed,
            optional is Some,
            definite,
        );
    }
}

proof fn lemma_member_name(s: State, head: MemberHead, name: Option<(KeyView, bool)>)
    requires
        head.kind == MethodDefinitionKind::Method,
        !head.generator,
    ensures
        s.member_name(head, name) matches (_, Ok(found)) ==> match found {
            StartView::Member(head, _, _) => is_fit(head),
            StartView::Element(_) => false,
            StartView::Unexpected => s.member_name(head, name).0.requests.last().rule
                == Rule::Unexpected,
        },
{
}

proof fn lemma_member_start(s: State, start: u32, modifiers: ModifiersView)
    ensures
        s.member_start(start, modifiers) matches (later, Ok(found)) ==> match found {
            StartView::Member(head, _, _) => is_fit(head),
            StartView::Element(element) => !is_named_member(element) && is_sound_member(
                s,
                start,
                element,
                later,
            ),
            StartView::Unexpected => later.requests.last().rule == Rule::Unexpected,
        },
{
    let head = MemberHead {
        kind: MethodDefinitionKind::Method,
        is_static: modifiers.contains(ModifierKind::Static),
        is_async: modifiers.contains(ModifierKind::Async),
        generator: false,
    };
    if !(s.at(Kind::Static) && s.peek_at(Kind::LCurly)) {
        if let (a, Ok((head, name))) = s.static_word(head) {
            if let (b, Ok((head, name))) = a.async_word(head, name) {
                if let (c, Ok(false)) = b.ask_flag(Rule::AtTSIndexSignatureMember) {
                    lemma_member_name(c, head, name);
                }
            }
        }
    }
}

proof fn lemma_member(
    s: State,
    start: u32,
    modifiers: ModifiersView,
    head: MemberHead,
    key: KeyView,
    computed: bool,
)
    requires
        is_fit(head),
    ensures
        s.member(start, modifiers, head, key, computed) matches (later, Ok(found)) ==> match found {
            Some(element) => is_sound_member(s, start, element, later) && (
            element is AccessorProperty <==> modifiers.contains(ModifierKind::Accessor)),
            None => later.requests.last().rule == Rule::Unexpected,
        },
{
    let optional = s.optional_mark();
    let marked = s.eat(Kind::Question);
    let definite = marked.at(Kind::Bang);
    let a = marked.eat(Kind::Bang);
    let b = a.name_errors(modifiers, key, optional, definite);
    super::progress::lemma_name_errors_reach(a, modifiers, key, optional, definite);
    lemma_marked_member(b, start, modifiers, head, key, computed, optional, definite);
}

/// A member that is read, behind its modifiers: it spans from its start to the token before
/// which parsing goes on; the pending decorators are its own, but for a static block and an
/// index signature, which have none; it has no type annotation in JavaScript; it is the
/// constructor if and only if it is a method that is not static and is named `constructor`; as a
/// getter or setter it is neither async nor a generator. It is an accessor property only with
/// the modifier `accessor`. Where there is no member, this has been reported.
pub proof fn law_modified_element(s: State, start: u32, modifiers: ModifiersView)
    ensures
        s.modified_element(start, modifiers) matches (later, Ok(found)) ==> match found {
            Some(element) => is_sound_member(s, start, element, later) && (
            element is AccessorProperty ==> modifiers.contains(ModifierKind::Accessor)),
            None => later.requests.last().rule == Rule::Unexpected,
        },
{
    lemma_member_start(s, start, modifiers);
    super::progress::lemma_member_start_keeps(s, start, modifiers);
    if let (a, Ok(StartView::Member(head, key, computed))) = s.member_start(start, modifiers) {
        lemma_member(a, start, modifiers, head, key, computed);
    }
}

/// A member of a class body starts behind the semicolons in front of it. There is none at `}`,
/// where nothing is asked, and where the host parser was told of an unexpected token.
pub proof fn law_class_element(s: State)
    ensures
        s.class_element() matches (later, Ok(found)) ==> match found {
            Some(element) => is_sound_member(
                s,
                s.skip_semicolons().cur().span.start,
                element,
                later,
            ),
            None => {
                ||| later == s.skip_semicolons() && later.at(Kind::RCurly)
                ||| later.requests.last().rule == Rule::Unexpected
            },
        },
{
    let rule = Rule::Modifiers {
        allow_decorators: true,
        permit_const_as_modifier: true,
        stop_on_start_of_class_static_block: true,
    };
    let a = s.skip_semicolons();
    super::progress::lemma_skip_semicolons_same(s);
    if !a.at(Kind::RCurly) {
        if let (b, Ok(modifiers)) = a.ask_modifiers(rule) {
            law_modified_element(b, a.cur().span.start, modifiers);
        }
    }
}

/// All members of a class body are sound in the respects that do not depend on their place.
pub proof fn law_class_elements(s: State)
    ensures
        s.class_elements() matches (_, Ok(body)) ==> forall|i: int|
            0 <= i < body.len() ==> is_rightly_constructor(#[trigger] body[i]) && (!s.is_ts
                ==> !has_type_annotation(body[i])),
    decreases s.replies.len(),
{
    super::progress::lemma_class_element_keeps(s);
    law_class_element(s);
    if let (a, Ok(Some(element))) = s.class_element() {
        law_class_elements(a);
        if let (b, Ok(rest)) = a.class_elements() {
            let body = seq![element] + rest;
            assert forall|i: int| 0 <= i < body.len() implies is_rightly_constructor(
                #[trigger] body[i],
            ) && (!s.is_ts ==> !has_type_annotation(body[i])) by {
                if i > 0 {
                    assert(body[i] == rest[i - 1]);
                }
            }
        }
    }
}

/// The clauses of a class are read to their end: behind them stands neither `extends` nor
/// `implements`.
pub proof fn law_heritage_ends(s: State, before: HeritageView)
    ensures
        s.heritage(before) matches (later, Ok(_)) ==> !later.at(Kind::Extends) && !later.at(
            Kind::Implements,
        ),
    decreases s.replies.len(),
{
    if s.at(Kind::Extends) {
        let a = s.at_extends(before);
        a.advance().lemma_extends_entries_progress();
        if let (b, Ok(list)) = a.extends_clause() {
            law_heritage_ends(
                b,
                HeritageView { extends: Some(list), implements: before.implements },
            );
        }
    } else if s.at(Kind::Implements) {
        let a = s.at_implements(before);
        if let (b, Ok(list)) = a.ask_nodes(Rule::TSImplementsClause) {
            law_heritage_ends(
                b,
                HeritageView { extends: before.extends, implements: before.implements + list },
            );
        }
    }
}

/// A class takes the decorators that are pending, and a class expression starts at the first of
/// them. A class ends where its body ends. Its modifiers say whether it is abstract and whether
/// it is only declared. In JavaScript it has no type parameters, and no member has a type
/// annotation. A member is the constructor if and only if it is a method that is not static and
/// is named `constructor`.
pub proof fn law_class(s: State, start: u32, class_type: ClassType, modifiers: ModifiersView)
    ensures
        s.class(start, class_type, modifiers) matches (later, Ok(class)) ==> {
            &&& class.class_type == class_type
            &&& class.decorators == s.decorators
            &&& class.span.start == if class_type == ClassType::ClassExpression
                && s.decorators.len() > 0 {
                s.decorators[0].span.start
            } else {
                start
            }
            &&& class.span.end == later.cursor.prev_token_end
            &&& class.body.span.end == class.span.end
            &&& class.is_abstract == modifiers.contains(ModifierKind::Abstract)
            &&& class.declare == modifiers.contains(ModifierKind::Declare)
            &&& class.super_class is None ==> class.super_type_parameters is None
            &&& !s.is_ts ==> class.type_parameters is None
            &&& forall|i: int|
                0 <= i < class.body.body.len() ==> is_rightly_constructor(
                    #[trigger] class.body.body[i],
                ) && (!s.is_ts ==> !has_type_annotation(class.body.body[i]))
        },
{
    let none = HeritageView::empty();
    let a = s.advance().without_decorators();
    super::progress::lemma_class_name_keeps(a);
    if let (b, Ok(_)) = a.class_name() {
        super::progress::lemma_class_type_parameters_keeps(b);
        if let (c, Ok(_)) = b.class_type_parameters() {
            super::progress::lemma_heritage_keeps(c, none);
            if let (d, Ok(_)) = c.heritage(none) {
                super::progress::lemma_ask_keeps(d, Rule::Expect(Kind::LCurly), d.ctx);
                if let (e, Ok(_)) = d.ask_done(Rule::Expect(Kind::LCurly)) {
                    law_class_elements(e);
                }
            }
        }
    }
}

/// A class declaration that stands alone as a statement is read like any other, and reported.
pub proof fn law_single_statement(s: State, start: u32)
    ensures
        ({
            let listed = s.class_statement(StatementContext::StatementList, start);
            let single = s.class_statement(StatementContext::SingleStatement, start);
            &&& single.1 == listed.1
            &&& listed.1 is Err ==> single.0 == listed.0
            &&& listed.1 matches Ok(class) ==> single.0 == listed.0.error(
                Diagnostic::ClassDeclaration(
                    Span { start: class.span.start, end: class.body.span.start },
                ),
            )
        }),
{
}

/// A static member is never reported as a static constructor: a method that is static is not
/// the constructor.
pub proof fn law_no_static_constructor(
    s: State,
    start: u32,
    kind: MethodDefinitionKind,
    key: KeyView,
    computed: bool,
    is_static: bool,
    is_async: bool,
    generator: bool,
    is_override: bool,
    is_abstract: bool,
    accessibility: Option<TSAccessibility>,
    optional: bool,
    span: Span,
)
    requires
        kind != MethodDefinitionKind::Constructor,
        s.replies.len() > 0,
        !s.errors.contains(Diagnostic::StaticConstructor(span)),
        !s.replies[0].errors.contains(Diagnostic::StaticConstructor(span)),
    ensures
        !s.class_method_definition(
            start,
            kind,
            key,
            computed,
            is_static,
            is_async,
            generator,
            is_override,
            is_abstract,
            accessibility,
            optional,
        ).0.errors.contains(Diagnostic::StaticConstructor(span)),
{
    let reported = Diagnostic::StaticConstructor(span);
    let asked = s.without_decorators().ask(Rule::Method { is_async, generator }).0;
    assert(asked.errors =~= s.errors + s.replies[0].errors);
    assert(!asked.errors.contains(reported)) by {
        if asked.errors.contains(reported) {
            let i = choose|i: int| 0 <= i < asked.errors.len() && asked.errors[i] == reported;
            if i < s.errors.len() {
                assert(s.errors[i] == reported);
            } else {
                assert(s.replies[0].errors[i - s.errors.len()] == reported);
            }
        }
    }
    if let (a, Ok(value)) = s.without_decorators().ask_function(
        Rule::Method { is_async, generator },
    ) {
        if !is_static {
            let later = a.constructor_errors(value, key, is_static);
            if later.errors.contains(reported) {
                let i = choose|i: int| 0 <= i < later.errors.len() && later.errors[i] == reported;
                assert(i < a.errors.len());
                assert(a.errors[i] == reported);
            }
        }
    }
}

/// A clause of a class.
pub enum Clause {
    Extends,
    /// An `implements` clause with so many entries.
    Implements(nat),
}

/// A report on the clauses of a class.
pub enum ClauseReport {
    ExtendsAgain,
    ImplementsAgain,
    /// `extends` behind `implements`.
    Order,
}

/// The diagnostic is that report.
pub open spec fn is_report(diagnostic: Diagnostic, report: ClauseReport) -> bool {
    match report {
        ClauseReport::ExtendsAgain => diagnostic is ExtendsClauseAlreadySeen,
        ClauseReport::ImplementsAgain => diagnostic is ImplementsClauseAlreadySeen,
        ClauseReport::Order => diagnostic is ExtendsClauseMustPrecedeImplements,
    }
}

/// How often a report was made.
pub open spec fn times(errors: Seq<Diagnostic>, report: ClauseReport) -> nat
    decreases errors.len(),
{
    if errors.len() == 0 {
        0
    } else {
        times(errors.drop_last(), report) + if is_report(errors.last(), report) {
            1nat
        } else {
            0
        }
    }
}

impl State {
    /// The host parser makes none of the reports on clauses, as far as its replies are known.
    pub open spec fn is_quiet(self) -> bool {
        forall|i: int, report: ClauseReport|
            0 <= i < self.replies.len() ==> #[trigger] times(self.replies[i].errors, report) == 0
    }

    /// The clauses that are read from here, behind the clauses `before`.
    pub open spec fn clauses(self, before: HeritageView) -> Seq<Clause>
        decreases self.replies.len(),
    {
        if self.at(Kind::Extends) {
            proof {
                self.at_extends(before).advance().lemma_extends_entries_progress();
            }
            match self.at_extends(before).extends_clause() {
                (s, Err(_)) => Seq::empty(),
                (s, Ok(list)) => seq![Clause::Extends] + s.clauses(
                    HeritageView { extends: Some(list), implements: before.implements },
                ),
            }
        } else if self.at(Kind::Implements) {
            match self.at_implements(before).ask_nodes(Rule::TSImplementsClause) {
                (s, Err(_)) => Seq::empty(),
                (s, Ok(list)) => seq![Clause::Implements(list.len())] + s.clauses(
                    HeritageView { extends: before.extends, implements: before.implements + list },
                ),
            }
        } else {
            Seq::empty()
        }
    }
}

/// How many clauses are `extends` clauses.
pub open spec fn extends_count(clauses: Seq<Clause>) -> nat
    decreases clauses.len(),
{
    if clauses.len() == 0 {
        0
    } else {
        extends_count(clauses.skip(1)) + if clauses[0] is Extends {
            1nat
        } else {
            0
        }
    }
}

/// How many clauses are `implements` clauses.
pub open spec fn implements_count(clauses: Seq<Clause>) -> nat
    decreases clauses.len(),
{
    if clauses.len() == 0 {
        0
    } else {
        implements_count(clauses.skip(1)) + if clauses[0] is Implements {
            1nat
        } else {
            0
        }
    }
}

/// How often a report is due, where an `extends` clause (`extended`) or an entry of an
/// `implements` clause (`implemented`) has been seen already.
pub open spec fn due(
    clauses: Seq<Clause>,
    extended: bool,
    implemented: bool,
    report: ClauseReport,
) -> nat
    decreases clauses.len(),
{
    if clauses.len() == 0 {
        0
    } else {
        match clauses[0] {
            Clause::Extends => due(clauses.skip(1), true, implemented, report) + match report {
                ClauseReport::ExtendsAgain => if extended {
                    1nat
                } else {
                    0
                },
                ClauseReport::Order => if !extended && implemented {
                    1nat
                } else {
                    0
                },
                ClauseReport::ImplementsAgain => 0,
            },
            Clause::Implements(entries) => due(
                clauses.skip(1),
                extended,
                implemented || entries > 0,
                report,
            ) + if report is ImplementsAgain && implemented {
                1nat
            } else {
                0
            },
        }
    }
}

proof fn lemma_times_join(a: Seq<Diagnostic>, b: Seq<Diagnostic>, report: ClauseReport)
    ensures
        times(a + b, report) == times(a, report) + times(b, report),
    decreases b.len(),
{
    if b.len() == 0 {
        assert(a + b =~= a);
    } else {
        assert((a + b).drop_last() =~= a + b.drop_last());
        lemma_times_join(a, b.drop_last(), report);
    }
}

proof fn lemma_times_push(s: State, reported: bool, diagnostic: Diagnostic, report: ClauseReport)
    ensures
        times(s.error_if(reported, diagnostic).errors, report) == times(s.errors, report) + (
        if reported && is_report(diagnostic, report) {
            1nat
        } else {
            0
        }),
{
    assert(s.errors.push(diagnostic).drop_last() =~= s.errors);
}

proof fn lemma_ask_is_quiet(s: State, rule: Rule, report: ClauseReport)
    requires
        s.is_quiet(),
    ensures
        s.ask(rule).0.is_quiet(),
        times(s.ask(rule).0.errors, report) == times(s.errors, report),
{
    let later = s.ask(rule).0;
    if s.replies.len() > 0 {
        lemma_times_join(s.errors, s.replies[0].errors, report);
        assert(times(s.replies[0].errors, report) == 0);
        assert forall|i: int, report: ClauseReport|
            0 <= i < later.replies.len() implies #[trigger] times(
            later.replies[i].errors,
            report,
        ) == 0 by {
            assert(later.replies[i] == s.replies[i + 1]);
            assert(times(s.replies[i + 1].errors, report) == 0);
        }
    }
}

proof fn lemma_extends_entries_are_quiet(s: State, report: ClauseReport)
    requires
        s.is_quiet(),
    ensures
        s.extends_entries().0.is_quiet(),
        times(s.extends_entries().0.errors, report) == times(s.errors, report),
    decreases s.replies.len(),
{
    lemma_ask_is_quiet(s, Rule::LhsExpressionOrHigher, report);
    if let (a, Ok(_)) = s.ask_expression(Rule::LhsExpressionOrHigher) {
        lemma_ask_is_quiet(a, Rule::TypeArguments, report);
    }
    if let (b, Ok(_)) = s.extends_entry() {
        if b.at(Kind::Comma) {
            lemma_extends_entries_are_quiet(b.advance(), report);
        }
    }
}

proof fn lemma_reports_are_due(s: State, before: HeritageView, report: ClauseReport)
    requires
        s.is_quiet(),
    ensures
        s.heritage(before) matches (later, Ok(_)) ==> times(later.errors, report) == times(
            s.errors,
            report,
        ) + due(s.clauses(before), before.extends is Some, before.implements.len() > 0, report),
    decreases s.replies.len(),
{
    let span = s.cur().span;
    if s.at(Kind::Extends) {
        let again = before.extends is Some;
        let late = before.extends is None && before.implements.len() > 0;
        let seen = Diagnostic::ExtendsClauseAlreadySeen(span);
        let order = Diagnostic::ExtendsClauseMustPrecedeImplements(span);
        let a = s.error_if(again, seen);
        lemma_times_push(s, again, seen, report);
        lemma_times_push(a, late, order, report);
        let b = s.at_extends(before).advance();
        b.lemma_extends_entries_progress();
        lemma_extends_entries_are_quiet(b, report);
        if let (c, Ok(list)) = b.extends_entries() {
            let clauses = HeritageView { extends: Some(list), implements: before.implements };
            lemma_reports_are_due(c, clauses, report);
            let rest = c.clauses(clauses);
            assert((seq![Clause::Extends] + rest).skip(1) =~= rest);
        }
    } else if s.at(Kind::Implements) {
        let again = before.implements.len() > 0;
        let a = s.at_implements(before);
        lemma_times_push(s, again, Diagnostic::ImplementsClauseAlreadySeen(span), report);
        lemma_ask_is_quiet(a, Rule::TSImplementsClause, report);
        if let (b, Ok(list)) = a.ask_nodes(Rule::TSImplementsClause) {
            let clauses = HeritageView {
                extends: before.extends,
                implements: before.implements + list,
            };
            lemma_reports_are_due(b, clauses, report);
            let rest = b.clauses(clauses);
            assert((seq![Clause::Implements(list.len())] + rest).skip(1) =~= rest);
        }
    }
}

proof fn lemma_due(clauses: Seq<Clause>, extended: bool, implemented: bool)
    ensures
        due(clauses, extended, implemented, ClauseReport::ExtendsAgain) == if extended
            || extends_count(clauses) == 0 {
            extends_count(clauses) as int
        } else {
            extends_count(clauses) - 1
        },
        due(clauses, extended, implemented, ClauseReport::Order) <= if extended {
            0nat
        } else {
            1
        },
        (forall|i: int| 0 <= i < clauses.len() ==> #[trigger] clauses[i] != Clause::Implements(0))
            ==> due(clauses, extended, implemented, ClauseReport::ImplementsAgain)
            == if implemented || implements_count(clauses) == 0 {
            implements_count(clauses) as int
        } else {
            implements_count(clauses) - 1
        },
    decreases clauses.len(),
{
    if clauses.len() > 0 {
        let rest = clauses.skip(1);
        assert(forall|i: int| 0 <= i < rest.len() ==> #[trigger] rest[i] == clauses[i + 1]);
        match clauses[0] {
            Clause::Extends => lemma_due(rest, true, implemented),
            Clause::Implements(entries) => lemma_due(rest, extended, implemented || entries > 0),
        }
    }
}

/// How often the clauses of a class are reported, where the host parser makes no such report:
/// `extends` once for each clause but the first; `implements` once for each clause behind one
/// that has entries, which is each but the first where all have entries; and the order of the
/// two once at most.
pub proof fn law_heritage_reports(s: State)
    requires
        s.is_quiet(),
    ensures
        s.heritage(HeritageView::empty()) matches (later, Ok(_)) ==> {
            let clauses = s.clauses(HeritageView::empty());
            let extends = times(later.errors, ClauseReport::ExtendsAgain) - times(
                s.errors,
                ClauseReport::ExtendsAgain,
            );
            let implements = times(later.errors, ClauseReport::ImplementsAgain) - times(
                s.errors,
                ClauseReport::ImplementsAgain,
            );
            let order = times(later.errors, ClauseReport::Order) - times(
                s.errors,
                ClauseReport::Order,
            );
            &&& extends == if extends_count(clauses) == 0 {
                0
            } else {
                extends_count(clauses) - 1
            }
            &&& implements == due(clauses, false, false, ClauseReport::ImplementsAgain)
            &&& (forall|i: int|
                0 <= i < clauses.len() ==> #[trigger] clauses[i] != Clause::Implements(0))
                ==> implements == if implements_count(clauses) == 0 {
                0
            } else {
                implements_count(clauses) - 1
            }
            &&& order == due(clauses, false, false, ClauseReport::Order)
            &&& 0 <= order <= 1
        },
{
    let none = HeritageView::empty();
    lemma_reports_are_due(s, none, ClauseReport::ExtendsAgain);
    lemma_reports_are_due(s, none, ClauseReport::ImplementsAgain);
    lemma_reports_are_due(s, none, ClauseReport::Order);
    lemma_due(s.clauses(none), false, false);
}

} // verus!
