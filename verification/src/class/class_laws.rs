//! How clauses, members and modifiers make a class.
use super::declaration::StatementContext;
use super::heritage::HeritageView;
use super::host::{AnswerView, Rule, Stop};
use super::modifiers::{ModifierKind, ModifierPlace, ModifiersView};
use super::state::State;
use super::syntax::{
    BodyView, ClassType, ClassView, Diagnostic, ElementView, Expression, Extends, Kind, Node,
};
use crate::span::Span;
use vstd::prelude::*;

verus! {

/// One entry of an `extends` clause: the expression that the host parser reads, with the type
/// arguments that stand in it, or else those that it reads behind it. The entry starts at its
/// first token and ends where the last answer ends.
pub proof fn law_extends_entry(s: State)
    ensures
        ({
            let start = super::element_laws::here(s).span.start;
            let first = s.replies[0];
            let second = s.replies[1];
            let a = super::element_laws::answered(s, Rule::LhsExpressionOrHigher);
            let b = super::element_laws::answered(a, Rule::TypeArguments);
            &&& s.replies.len() == 0 ==> s.extends_entry().1 == Err::<Extends, Stop>(Stop::Pending)
            &&& s.replies.len() > 0 ==> (first.answer matches AnswerView::Expression(
                Expression::TSInstantiationExpression { expression, type_arguments },
            ) ==> s.extends_entry() == (
                a,
                Ok::<Extends, Stop>(
                    Extends {
                        expression,
                        type_arguments: Some(type_arguments),
                        span: Span { start, end: first.cursor.prev_token_end },
                    },
                ),
            ))
            &&& s.replies.len() > 1 ==> (first.answer matches AnswerView::Expression(
                Expression::Other(expression),
            ) ==> (second.answer matches AnswerView::Optional(type_arguments) ==> s.extends_entry()
                == (
                b,
                Ok::<Extends, Stop>(
                    Extends {
                        expression,
                        type_arguments,
                        span: Span { start, end: second.cursor.prev_token_end },
                    },
                ),
            )))
        }),
{
    let a = super::element_laws::answered(s, Rule::LhsExpressionOrHigher);
    super::element_laws::lemma_here(s);
    super::base_laws::law_ask(s, Rule::LhsExpressionOrHigher, s.ctx);
    super::base_laws::law_answers(s, Rule::LhsExpressionOrHigher, s.ctx);
    super::base_laws::law_ask(a, Rule::TypeArguments, a.ctx);
    super::base_laws::law_answers(a, Rule::TypeArguments, a.ctx);
}

/// The entries of an `extends` clause: behind an entry and a comma the rest of the list comes,
/// and without a comma there is no rest.
pub proof fn law_extends_entries(s: State)
    ensures
        match s.extends_entry() {
            (a, Err(stop)) => s.extends_entries() == (a, Err::<Seq<Extends>, Stop>(stop)),
            (a, Ok(entry)) => if super::element_laws::here(a).kind == Kind::Comma {
                match super::element_laws::stepped(a).extends_entries() {
                    (b, Err(stop)) => s.extends_entries() == (b, Err::<Seq<Extends>, Stop>(stop)),
                    (b, Ok(rest)) => s.extends_entries().0 == b && (s.extends_entries().1 matches
                        Ok(list) && list.len() == rest.len() + 1 && list[0] == entry && list.skip(1)
                        == rest),
                }
            } else {
                s.extends_entries() == (a, Ok::<Seq<Extends>, Stop>(seq![entry]))
            },
        },
        s.extends_entries().1 matches Ok(list) ==> list.len() > 0,
        super::element_laws::here(s).kind == Kind::Extends ==> s.extends_clause()
            == super::element_laws::stepped(s).extends_entries(),
{
    super::element_laws::lemma_here(s);
    if let (a, Ok(entry)) = s.extends_entry() {
        super::element_laws::lemma_here(a);
        if super::element_laws::here(a).kind == Kind::Comma {
            if let (b, Ok(rest)) = a.advance().extends_entries() {
                assert((seq![entry] + rest).skip(1) =~= rest);
            }
        }
    }
}

/// What is reported at a clause: an `extends` clause behind another one, or behind entries of an
/// `implements` clause; an `implements` clause behind entries of another one.
pub open spec fn clause_reports(s: State, before: HeritageView) -> Seq<Diagnostic> {
    let span = super::element_laws::here(s).span;
    if super::element_laws::here(s).kind == Kind::Extends {
        if before.extends is Some {
            seq![Diagnostic::ExtendsClauseAlreadySeen(span)]
        } else if before.implements.len() > 0 {
            seq![Diagnostic::ExtendsClauseMustPrecedeImplements(span)]
        } else {
            Seq::empty()
        }
    } else if before.implements.len() > 0 {
        seq![Diagnostic::ImplementsClauseAlreadySeen(span)]
    } else {
        Seq::empty()
    }
}

/// One clause of a class: the entries of an `extends` clause take the place of those of an
/// earlier one and leave the `implements` clauses alone, and those of an `implements` clause are
/// added behind the ones before and leave the `extends` clause alone. Where no clause starts,
/// the clauses are those that were read.
pub proof fn law_one_clause(s: State, before: HeritageView)
    ensures
        ({
            let kind = super::element_laws::here(s).kind;
            let a = super::element_laws::with_reports(s, clause_reports(s, before));
            &&& kind == Kind::Extends ==> match super::element_laws::stepped(a).extends_entries() {
                (b, Err(stop)) => s.heritage(before) == (b, Err::<HeritageView, Stop>(stop)),
                (b, Ok(list)) => s.heritage(before) == b.heritage(
                    HeritageView { extends: Some(list), implements: before.implements },
                ),
            }
            &&& kind == Kind::Implements && s.replies.len() > 0 ==> (
            s.replies[0].answer matches AnswerView::Nodes(list) ==> s.heritage(before)
                == super::element_laws::answered(a, Rule::TSImplementsClause).heritage(
                HeritageView { extends: before.extends, implements: before.implements + list },
            ))
            &&& kind != Kind::Extends && kind != Kind::Implements ==> s.heritage(before) == (
                s,
                Ok::<HeritageView, Stop>(before),
            )
        }),
{
    let span = super::element_laws::here(s).span;
    let a = super::element_laws::with_reports(s, clause_reports(s, before));
    super::element_laws::lemma_here(s);
    super::element_laws::lemma_here(a);
    if super::element_laws::here(s).kind == Kind::Extends {
        let again = Diagnostic::ExtendsClauseAlreadySeen(span);
        let late = Diagnostic::ExtendsClauseMustPrecedeImplements(span);
        super::base_laws::law_errors(s, before.extends is Some, again);
        super::base_laws::law_errors(
            s.error_if(before.extends is Some, again),
            before.extends is None && before.implements.len() > 0,
            late,
        );
        assert(s.at_extends(before) =~= a);
    } else if super::element_laws::here(s).kind == Kind::Implements {
        super::base_laws::law_errors(
            s,
            before.implements.len() > 0,
            Diagnostic::ImplementsClauseAlreadySeen(span),
        );
        assert(s.at_implements(before) =~= a);
        super::base_laws::law_ask(a, Rule::TSImplementsClause, a.ctx);
        super::base_laws::law_answers(a, Rule::TSImplementsClause, a.ctx);
    }
}

/// No clause: the class extends and implements nothing.
pub open spec fn no_clauses() -> HeritageView {
    HeritageView { extends: None, implements: Seq::empty() }
}

/// What is read in clauses is not lost in later ones: what is implemented stays in front, a
/// class that extends another still does, and one that does not has met no `extends` clause. An
/// `extends` clause names at least one class.
pub proof fn law_clauses_stay(s: State, before: HeritageView)
    requires
        before.extends matches Some(list) ==> list.len() > 0,
    ensures
        s.heritage(before) matches (later, Ok(heritage)) ==> {
            &&& heritage.implements.len() >= before.implements.len()
            &&& heritage.implements.take(before.implements.len() as int) == before.implements
            &&& heritage.extends is Some <==> before.extends is Some
                || super::laws::extends_count(s.clauses(before)) > 0
            &&& heritage.extends matches Some(list) ==> list.len() > 0
        },
    decreases s.replies.len(),
{
    if s.at(Kind::Extends) {
        let a = s.at_extends(before);
        a.advance().lemma_extends_entries_progress();
        law_extends_entries(a.advance());
        if let (b, Ok(list)) = a.extends_clause() {
            let with = HeritageView { extends: Some(list), implements: before.implements };
            law_clauses_stay(b, with);
            assert(s.clauses(before).skip(1) =~= b.clauses(with));
            assert(s.clauses(before)[0] is Extends);
        }
    } else if s.at(Kind::Implements) {
        if let (b, Ok(list)) = s.at_implements(before).ask_nodes(Rule::TSImplementsClause) {
            let with = HeritageView {
                extends: before.extends,
                implements: before.implements + list,
            };
            law_clauses_stay(b, with);
            assert(s.clauses(before).skip(1) =~= b.clauses(with));
            assert(s.clauses(before)[0] is Implements);
            if let (_, Ok(heritage)) = s.heritage(before) {
                let n = before.implements.len() as int;
                assert(heritage.implements.take(n) =~= heritage.implements.take(
                    with.implements.len() as int,
                ).take(n));
                assert(with.implements.take(n) =~= before.implements);
            }
        }
    } else {
        assert(before.implements.take(before.implements.len() as int) =~= before.implements);
    }
}

/// A name stands behind the word `class` where an identifier can be bound and the word is not
/// `implements`. Type parameters are read in TypeScript only.
pub proof fn law_class_names(s: State)
    ensures
        ({
            let here = super::element_laws::here(s);
            let named = here.is_binding_identifier && here.kind != Kind::Implements;
            let first = s.replies[0].answer;
            &&& !named ==> s.class_name() == (s, Ok::<Option<Node>, Stop>(None))
            &&& named && s.replies.len() == 0 ==> s.class_name().1 == Err::<Option<Node>, Stop>(
                Stop::Pending,
            )
            &&& named && s.replies.len() > 0 ==> (first matches AnswerView::Node(id)
                ==> s.class_name() == (
                super::element_laws::answered(s, Rule::BindingIdentifier),
                Ok::<Option<Node>, Stop>(Some(id)),
            ))
            &&& !s.is_ts ==> s.class_type_parameters() == (s, Ok::<Option<Node>, Stop>(None))
            &&& s.is_ts && s.replies.len() > 0 ==> (first matches AnswerView::Optional(parameters)
                ==> s.class_type_parameters() == (
                super::element_laws::answered(s, Rule::TSTypeParameters),
                Ok::<Option<Node>, Stop>(parameters),
            ))
        }),
{
    super::element_laws::lemma_here(s);
    super::base_laws::law_ask(s, Rule::BindingIdentifier, s.ctx);
    super::base_laws::law_answers(s, Rule::BindingIdentifier, s.ctx);
    super::base_laws::law_ask(s, Rule::TSTypeParameters, s.ctx);
    super::base_laws::law_answers(s, Rule::TSTypeParameters, s.ctx);
}

/// The members of a class come in the order in which they are read, each once, up to where
/// there is none.
pub proof fn law_members_in_order(s: State)
    ensures
        match s.class_element() {
            (a, Err(stop)) => s.class_elements() == (a, Err::<Seq<ElementView>, Stop>(stop)),
            (a, Ok(None)) => s.class_elements() == (
                a,
                Ok::<Seq<ElementView>, Stop>(Seq::empty()),
            ),
            (a, Ok(Some(element))) => match a.class_elements() {
                (b, Err(stop)) => s.class_elements() == (b, Err::<Seq<ElementView>, Stop>(stop)),
                (b, Ok(rest)) => s.class_elements().0 == b && (s.class_elements().1 matches Ok(list)
                    && list.len() == rest.len() + 1 && list[0] == element && list.skip(1) == rest),
            },
        },
{
    if let (a, Ok(Some(element))) = s.class_element() {
        super::progress::lemma_class_element_keeps(s);
        if let (b, Ok(rest)) = a.class_elements() {
            assert((seq![element] + rest).skip(1) =~= rest);
        }
    }
}

/// The body of a class: `{`, the members and `}`, from its first token to where the answer on
/// `}` ends.
pub proof fn law_class_body(s: State)
    ensures
        s.replies.len() == 0 ==> s.class_body().1 == Err::<BodyView, Stop>(Stop::Pending),
        s.replies.len() > 0 && s.replies[0].answer is Done ==> {
            let a = super::element_laws::answered(s, Rule::Expect(Kind::LCurly));
            match a.class_elements() {
                (b, Err(stop)) => s.class_body() == (b, Err::<BodyView, Stop>(stop)),
                (b, Ok(body)) => b.replies.len() > 0 && b.replies[0].answer is Done
                    ==> s.class_body() == (
                    super::element_laws::answered(b, Rule::Expect(Kind::RCurly)),
                    Ok::<BodyView, Stop>(
                        BodyView {
                            span: Span {
                                start: super::element_laws::here(s).span.start,
                                end: b.replies[0].cursor.prev_token_end,
                            },
                            body,
                        },
                    ),
                ),
            }
        },
{
    let a = super::element_laws::answered(s, Rule::Expect(Kind::LCurly));
    super::element_laws::lemma_here(s);
    super::base_laws::law_ask(s, Rule::Expect(Kind::LCurly), s.ctx);
    super::base_laws::law_answers(s, Rule::Expect(Kind::LCurly), s.ctx);
    if let (b, Ok(_)) = a.class_elements() {
        super::base_laws::law_ask(b, Rule::Expect(Kind::RCurly), b.ctx);
        super::base_laws::law_answers(b, Rule::Expect(Kind::RCurly), b.ctx);
    }
}

/// A class behind the word `class`: each part is the one that was read. What it extends is the
/// first entry of the `extends` clause that counts, with the type arguments of that entry, and
/// nothing where there is no such clause, whatever it implements. It implements what all
/// `implements` clauses name, whatever it extends. Its modifiers are looked at last.
pub proof fn law_whole_class(
    s: State,
    start: u32,
    class_type: ClassType,
    modifiers: ModifiersView,
)
    requires
        super::element_laws::here(s).kind != Kind::Eof,
    ensures
        ({
            let a = State { decorators: Seq::empty(), ..super::element_laws::stepped(s) };
            let step = s.class(start, class_type, modifiers);
            match a.class_name() {
                (b, Err(stop)) => step == (b, Err::<ClassView, Stop>(stop)),
                (b, Ok(id)) => match b.class_type_parameters() {
                    (c, Err(stop)) => step == (c, Err::<ClassView, Stop>(stop)),
                    (c, Ok(type_parameters)) => match c.heritage(no_clauses()) {
                        (d, Err(stop)) => step == (d, Err::<ClassView, Stop>(stop)),
                        (d, Ok(clauses)) => match d.class_body() {
                            (e, Err(stop)) => step == (e, Err::<ClassView, Stop>(stop)),
                            (e, Ok(body)) => {
                                &&& step.0 == super::element_laws::with_reports(
                                    e,
                                    ModifierPlace::Class.complaints(modifiers.list),
                                )
                                &&& step.1 matches Ok(class) && {
                                    &&& class.span.end == e.cursor.prev_token_end
                                    &&& class.span.start == if class_type
                                        == ClassType::ClassExpression && s.decorators.len() > 0 {
                                        s.decorators[0].span.start
                                    } else {
                                        start
                                    }
                                    &&& class.class_type == class_type
                                    &&& class.decorators == s.decorators
                                    &&& class.id == id
                                    &&& class.type_parameters == type_parameters
                                    &&& class.implements == clauses.implements
                                    &&& class.body == body
                                    &&& class.is_abstract == super::base_laws::has(
                                        modifiers,
                                        ModifierKind::Abstract,
                                    )
                                    &&& class.declare == super::base_laws::has(
                                        modifiers,
                                        ModifierKind::Declare,
                                    )
                                    &&& clauses.extends is None ==> class.super_class is None
                                        && class.super_type_parameters is None
                                    &&& clauses.extends matches Some(list) ==> list.len() > 0
                                        && class.super_class == Some(list[0].expression)
                                        && class.super_type_parameters == list[0].type_arguments
                                    &&& class.super_class is Some <==> super::laws::extends_count(
                                        c.clauses(no_clauses()),
                                    ) > 0
                                }
                            },
                        },
                    },
                },
            }
        }),
{
    super::element_laws::lemma_here(s);
    super::base_laws::law_contains(modifiers, ModifierKind::Abstract);
    super::base_laws::law_contains(modifiers, ModifierKind::Declare);
    let a = State { decorators: Seq::empty(), ..super::element_laws::stepped(s) };
    super::base_laws::law_without_decorators(s.advance());
    assert(s.advance().without_decorators() == a);
    assert(HeritageView::empty() == no_clauses());
    if let (b, Ok(_)) = a.class_name() {
        if let (c, Ok(_)) = b.class_type_parameters() {
            law_clauses_stay(c, no_clauses());
        }
    }
}

/// A class declaration as a statement: its modifiers are asked for, without `const` among them,
/// and its class is a declaration with these modifiers. Where only one statement may stand, the
/// stretch from the start of the class to its body is reported; nowhere else.
pub proof fn law_class_statement(s: State, stmt_ctx: StatementContext, start: u32)
    ensures
        s.replies.len() == 0 ==> s.class_statement(stmt_ctx, start).1 == Err::<ClassView, Stop>(
            Stop::Pending,
        ),
        s.replies.len() > 0 ==> (s.replies[0].answer matches AnswerView::Modifiers {
            modifiers,
            decorators,
        } ==> {
            let rule = Rule::Modifiers {
                allow_decorators: true,
                permit_const_as_modifier: false,
                stop_on_start_of_class_static_block: true,
            };
            let a = State {
                decorators: s.decorators + decorators,
                ..super::element_laws::answered(s, rule)
            };
            match a.class(start, ClassType::ClassDeclaration, modifiers) {
                (b, Err(stop)) => s.class_statement(stmt_ctx, start) == (
                    b,
                    Err::<ClassView, Stop>(stop),
                ),
                (b, Ok(class)) => s.class_statement(stmt_ctx, start) == (
                    super::element_laws::with_reports(
                        b,
                        super::base_laws::said(
                            stmt_ctx == StatementContext::SingleStatement,
                            Diagnostic::ClassDeclaration(
                                Span { start: class.span.start, end: class.body.span.start },
                            ),
                        ),
                    ),
                    Ok::<ClassView, Stop>(class),
                ),
            }
        }),
{
    let rule = Rule::Modifiers {
        allow_decorators: true,
        permit_const_as_modifier: false,
        stop_on_start_of_class_static_block: true,
    };
    super::base_laws::law_ask(s, rule, s.ctx);
    super::base_laws::law_ask_modifiers(s, rule);
    if let (a, Ok(modifiers)) = s.ask_modifiers(rule) {
        if let (b, Ok(class)) = a.class(start, ClassType::ClassDeclaration, modifiers) {
            super::base_laws::law_errors(
                b,
                stmt_ctx == StatementContext::SingleStatement,
                Diagnostic::ClassDeclaration(
                    Span { start: class.span.start, end: class.body.span.start },
                ),
            );
        }
    }
}

} // verus!
