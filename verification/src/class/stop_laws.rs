//! Where reading stops, it stops as the question that stopped it does.
use super::declaration::StatementContext;
use super::element::{MemberHead, StartView};
use super::heritage::HeritageView;
use super::host::{AnswerView, Request, Rule, Stop};
use super::modifiers::{ModifierKind, ModifiersView};
use super::state::State;
use super::syntax::{
    BodyView, ClassView, ElementView, Extends, KeyView, Kind, MethodDefinitionKind, Node,
    TSAccessibility,
};
use vstd::prelude::*;

verus! {

/// Why a question that wants such an answer stops: no reply is left, or the reply is of another
/// shape.
pub open spec fn stop_at(s: State) -> Stop {
    if s.replies.len() == 0 {
        Stop::Pending
    } else {
        Stop::Mismatch
    }
}

/// The state behind a question, whether it is answered or not.
pub open spec fn behind_question(s: State, rule: Rule) -> State {
    if s.replies.len() == 0 {
        State {
            requests: s.requests.push(Request { rule, index: s.cursor.index, ctx: s.ctx }),
            ..s
        }
    } else {
        super::element_laws::answered(s, rule)
    }
}

/// The next reply is of the shape that is wanted.
pub open spec fn gives_done(s: State) -> bool {
    s.replies.len() > 0 && s.replies[0].answer is Done
}

/// The clauses of a class stop at the question that is not answered.
pub proof fn law_clauses_stop(s: State, before: HeritageView)
    ensures
        !(s.replies.len() > 0 && s.replies[0].answer is Expression) ==> s.extends_entry() == (
            behind_question(s, Rule::LhsExpressionOrHigher),
            Err::<Extends, Stop>(stop_at(s)),
        ),
        s.replies.len() > 0 && (s.replies[0].answer matches AnswerView::Expression(expression)
            && expression is Other) && !(s.replies.len() > 1 && s.replies[1].answer is Optional)
            ==> {
            let a = super::element_laws::answered(s, Rule::LhsExpressionOrHigher);
            s.extends_entry() == (
                behind_question(a, Rule::TypeArguments),
                Err::<Extends, Stop>(stop_at(a)),
            )
        },
        super::element_laws::here(s).kind == Kind::Implements && !(s.replies.len() > 0
            && s.replies[0].answer is Nodes) ==> {
            let a = super::element_laws::with_reports(
                s,
                super::class_laws::clause_reports(s, before),
            );
            s.heritage(before) == (
                behind_question(a, Rule::TSImplementsClause),
                Err::<HeritageView, Stop>(stop_at(s)),
            )
        },
{
    let a = super::element_laws::answered(s, Rule::LhsExpressionOrHigher);
    super::base_laws::law_ask(s, Rule::LhsExpressionOrHigher, s.ctx);
    super::base_laws::law_answers(s, Rule::LhsExpressionOrHigher, s.ctx);
    super::base_laws::law_ask(a, Rule::TypeArguments, a.ctx);
    super::base_laws::law_answers(a, Rule::TypeArguments, a.ctx);
    super::element_laws::lemma_here(s);
    if super::element_laws::here(s).kind == Kind::Implements {
        let b = super::element_laws::with_reports(s, super::class_laws::clause_reports(s, before));
        super::base_laws::law_errors(
            s,
            before.implements.len() > 0,
            super::syntax::Diagnostic::ImplementsClauseAlreadySeen(
                super::element_laws::here(s).span,
            ),
        );
        assert(s.at_implements(before) =~= b);
        super::base_laws::law_ask(b, Rule::TSImplementsClause, b.ctx);
        super::base_laws::law_answers(b, Rule::TSImplementsClause, b.ctx);
    }
}

/// A class stops at the question that is not answered: on its name, its type parameters, `{`,
/// `}` or its modifiers.
pub proof fn law_class_stops(s: State, stmt_ctx: StatementContext, start: u32)
    ensures
        ({
            let here = super::element_laws::here(s);
            let answer = s.replies[0].answer;
            &&& here.is_binding_identifier && here.kind != Kind::Implements && !(s.replies.len() > 0
                && answer is Node) ==> s.class_name() == (
                behind_question(s, Rule::BindingIdentifier),
                Err::<Option<Node>, Stop>(stop_at(s)),
            )
            &&& s.is_ts && !(s.replies.len() > 0 && answer is Optional)
                ==> s.class_type_parameters() == (
                behind_question(s, Rule::TSTypeParameters),
                Err::<Option<Node>, Stop>(stop_at(s)),
            )
            &&& !gives_done(s) ==> s.class_body() == (
                behind_question(s, Rule::Expect(Kind::LCurly)),
                Err::<BodyView, Stop>(stop_at(s)),
            )
            &&& gives_done(s) ==> (super::element_laws::answered(
                s,
                Rule::Expect(Kind::LCurly),
            ).class_elements() matches (b, Ok(_)) ==> (!gives_done(b) ==> s.class_body() == (
                behind_question(b, Rule::Expect(Kind::RCurly)),
                Err::<BodyView, Stop>(stop_at(b)),
            )))
            &&& !(s.replies.len() > 0 && answer is Modifiers) ==> s.class_statement(
                stmt_ctx,
                start,
            ).1 == Err::<ClassView, Stop>(stop_at(s))
        }),
{
    let rule = Rule::Modifiers {
        allow_decorators: true,
        permit_const_as_modifier: false,
        stop_on_start_of_class_static_block: true,
    };
    super::element_laws::lemma_here(s);
    super::base_laws::law_ask(s, Rule::BindingIdentifier, s.ctx);
    super::base_laws::law_answers(s, Rule::BindingIdentifier, s.ctx);
    super::base_laws::law_ask(s, Rule::TSTypeParameters, s.ctx);
    super::base_laws::law_answers(s, Rule::TSTypeParameters, s.ctx);
    super::base_laws::law_ask(s, Rule::Expect(Kind::LCurly), s.ctx);
    super::base_laws::law_answers(s, Rule::Expect(Kind::LCurly), s.ctx);
    super::base_laws::law_ask(s, rule, s.ctx);
    super::base_laws::law_ask_modifiers(s, rule);
    let a = super::element_laws::answered(s, Rule::Expect(Kind::LCurly));
    if let (b, Ok(_)) = a.class_elements() {
        super::base_laws::law_ask(b, Rule::Expect(Kind::RCurly), b.ctx);
        super::base_laws::law_answers(b, Rule::Expect(Kind::RCurly), b.ctx);
    }
}

/// The name of a member stops at the question that is not answered, and so do the words that
/// wait for a name.
pub proof fn law_names_stop(s: State, head: MemberHead)
    ensures
        super::element_laws::here(s).kind == Kind::PrivateIdentifier && !(s.replies.len() > 0
            && s.replies[0].answer is PrivateName) ==> s.class_element_name().1 == Err::<
            (KeyView, bool),
            Stop,
        >(stop_at(s)),
        super::element_laws::here(s).kind != Kind::PrivateIdentifier && !(s.replies.len() > 0
            && s.replies[0].answer is PropertyName) ==> s.class_element_name().1 == Err::<
            (KeyView, bool),
            Stop,
        >(stop_at(s)),
        s.class_element_name() matches (a, Err(stop)) ==> {
            &&& s.named(head) == (a, Err::<StartView, Stop>(stop))
            &&& super::element_laws::here(s).kind == Kind::Static
                && !super::element_laws::name_can_follow(s) ==> s.static_word(head) == (
                a,
                Err::<(MemberHead, Option<(KeyView, bool)>), Stop>(stop),
            )
            &&& super::element_laws::here(s).kind == Kind::Async
                && super::element_laws::next(s).kind != Kind::Question && (
            super::element_laws::next(s).is_on_new_line || !super::element_laws::name_can_follow(s))
                ==> s.async_word(head, None) == (
                a,
                Err::<(MemberHead, Option<(KeyView, bool)>), Stop>(stop),
            )
        },
{
    super::element_laws::lemma_here(s);
}

/// The start of a member stops where its words, its static block, its index signature or its
/// name do; and so does the member.
pub proof fn law_member_stops(
    s: State,
    start: u32,
    modifiers: ModifiersView,
    head: MemberHead,
    name: Option<(KeyView, bool)>,
)
    ensures
        ({
            let is_block = super::element_laws::here(s).kind == Kind::Static
                && super::element_laws::next(s).kind == Kind::LCurly;
            let first = super::element_laws::modified_head(modifiers);
            let asked = super::element_laws::answered(s, Rule::AtTSIndexSignatureMember);
            &&& is_block ==> (super::element_laws::stepped(s).class_static_block(start) matches (
                a,
                Err(stop),
            ) ==> s.member_start(start, modifiers) == (a, Err::<StartView, Stop>(stop)))
            &&& !is_block ==> match s.static_word(first) {
                (a, Err(stop)) => s.member_start(start, modifiers) == (
                    a,
                    Err::<StartView, Stop>(stop),
                ),
                (a, Ok((second, found))) => a.async_word(second, found) matches (b, Err(stop))
                    ==> s.member_start(start, modifiers) == (b, Err::<StartView, Stop>(stop)),
            }
            &&& !(s.replies.len() > 0 && s.replies[0].answer is Flag) ==> s.index_signature_or_name(
                start,
                modifiers,
                head,
                name,
            ) == (
                behind_question(s, Rule::AtTSIndexSignatureMember),
                Err::<StartView, Stop>(stop_at(s)),
            )
            &&& s.replies.len() > 0 && s.replies[0].answer == AnswerView::Flag(true) && !(
            s.replies.len() > 1 && s.replies[1].answer is Node) ==> s.index_signature_or_name(
                start,
                modifiers,
                head,
                name,
            ) == (
                behind_question(
                    asked,
                    Rule::IndexSignatureDeclaration { start, modifiers: modifiers.id },
                ),
                Err::<StartView, Stop>(stop_at(asked)),
            )
            &&& super::element_laws::here(s).kind != Kind::Semicolon
                && super::element_laws::here(s).kind != Kind::RCurly && !(s.replies.len() > 0
                && s.replies[0].answer is Modifiers) ==> s.class_element().1 == Err::<
                Option<ElementView>,
                Stop,
            >(stop_at(s))
            &&& !(s.replies.len() > 0 && s.replies[0].answer is Node) ==> s.class_static_block(
                start,
            ).1 == Err::<ElementView, Stop>(stop_at(s))
        }),
{
    let rule = Rule::Modifiers {
        allow_decorators: true,
        permit_const_as_modifier: true,
        stop_on_start_of_class_static_block: true,
    };
    let asked = super::element_laws::answered(s, Rule::AtTSIndexSignatureMember);
    super::element_laws::lemma_here(s);
    super::base_laws::law_contains(modifiers, ModifierKind::Static);
    super::base_laws::law_contains(modifiers, ModifierKind::Async);
    super::base_laws::law_ask(s, Rule::AtTSIndexSignatureMember, s.ctx);
    super::base_laws::law_answers(s, Rule::AtTSIndexSignatureMember, s.ctx);
    let inner = Rule::IndexSignatureDeclaration { start, modifiers: modifiers.id };
    super::base_laws::law_ask(asked, inner, asked.ctx);
    super::base_laws::law_answers(asked, inner, asked.ctx);
    super::base_laws::law_ask(s, rule, s.ctx);
    super::base_laws::law_ask_modifiers(s, rule);
    super::element_laws::law_semicolons(s);
}

/// A method without its function, and a member that nothing can follow, stop at the question
/// that is not answered.
pub proof fn law_method_stops(
    s: State,
    start: u32,
    kind: MethodDefinitionKind,
    key: KeyView,
    computed: bool,
    is_static: bool,
    is_async: bool,
    generator: bool,
    is_override: bool,
    is_abstract: bool,
    accessibility: Option<TSAccessibility>,
    optional: bool,
)
    ensures
        !(s.replies.len() > 0 && s.replies[0].answer is Function) ==> s.class_method_definition(
            start,
            kind,
            key,
            computed,
            is_static,
            is_async,
            generator,
            is_override,
            is_abstract,
            accessibility,
            optional,
        ) == (
            behind_question(
                State { decorators: Seq::empty(), ..s },
                Rule::Method { is_async, generator },
            ),
            Err::<ElementView, Stop>(stop_at(s)),
        ),
        !gives_done(s) ==> s.unexpected_start() == (
            behind_question(s, Rule::Unexpected),
            Err::<StartView, Stop>(stop_at(s)),
        ),
{
    let a = State { decorators: Seq::<Node>::empty(), ..s };
    let rule = Rule::Method { is_async, generator };
    super::base_laws::law_without_decorators(s);
    super::base_laws::law_ask(a, rule, a.ctx);
    super::base_laws::law_answers(a, rule, a.ctx);
    super::base_laws::law_ask(s, Rule::Unexpected, s.ctx);
    super::base_laws::law_answers(s, Rule::Unexpected, s.ctx);
}

/// A type annotation and a value stop at the question that is not answered.
pub proof fn law_annotations_stop(s: State)
    ensures
        s.is_ts && !(s.replies.len() > 0 && s.replies[0].answer is Optional)
            ==> s.type_annotation() == (
            behind_question(s, Rule::TSTypeAnnotation),
            Err::<Option<Node>, Stop>(stop_at(s)),
        ),
        super::element_laws::here(s).kind == Kind::Eq && !(s.replies.len() > 0
            && s.replies[0].answer is Node) ==> s.field_initializer().1 == Err::<
            Option<Node>,
            Stop,
        >(stop_at(s)) && s.accessor_initializer().1 == Err::<Option<Node>, Stop>(stop_at(s)),
{
    super::element_laws::lemma_here(s);
    super::base_laws::law_ask(s, Rule::TSTypeAnnotation, s.ctx);
    super::base_laws::law_answers(s, Rule::TSTypeAnnotation, s.ctx);
}

proof fn lemma_semicolon_stops(s: State)
    ensures
        !gives_done(s) ==> s.ask_done(Rule::Asi) == (
            behind_question(s, Rule::Asi),
            Err::<(), Stop>(stop_at(s)),
        ),
{
    super::base_laws::law_ask(s, Rule::Asi, s.ctx);
    super::base_laws::law_answers(s, Rule::Asi, s.ctx);
}

/// A field stops where its type annotation, its value or its semicolon does.
pub proof fn law_fields_stop(
    s: State,
    start: u32,
    key: KeyView,
    computed: bool,
    is_static: bool,
    declare: bool,
    is_override: bool,
    readonly: bool,
    is_abstract: bool,
    accessibility: Option<TSAccessibility>,
    optional: bool,
    definite: bool,
)
    ensures
        ({
            let field = s.class_property_definition(
                start,
                key,
                computed,
                is_static,
                declare,
                is_override,
                readonly,
                is_abstract,
                accessibility,
                optional,
                definite,
            );
            match s.type_annotation() {
                (a, Err(stop)) => field == (a, Err::<ElementView, Stop>(stop)),
                (a, Ok(_)) => match (State { decorators: Seq::empty(), ..a }).field_initializer() {
                    (b, Err(stop)) => field == (b, Err::<ElementView, Stop>(stop)),
                    (b, Ok(_)) => !gives_done(b) ==> field == (
                        behind_question(b, Rule::Asi),
                        Err::<ElementView, Stop>(stop_at(b)),
                    ),
                },
            }
        }),
{
    if let (a, Ok(_)) = s.type_annotation() {
        super::base_laws::law_without_decorators(a);
        if let (b, Ok(_)) = a.without_decorators().field_initializer() {
            lemma_semicolon_stops(b);
        }
    }
}

/// An accessor property stops where its type annotation, its value or its semicolon does.
pub proof fn law_accessors_stop(
    s: State,
    start: u32,
    key: KeyView,
    computed: bool,
    is_static: bool,
    definite: bool,
    modifiers: ModifiersView,
)
    ensures
        ({
            let accessor = s.class_accessor_property(
                start,
                key,
                computed,
                is_static,
                definite,
                modifiers,
            );
            match s.type_annotation() {
                (a, Err(stop)) => accessor == (a, Err::<ElementView, Stop>(stop)),
                (a, Ok(_)) => match a.accessor_initializer() {
                    (b, Err(stop)) => accessor == (b, Err::<ElementView, Stop>(stop)),
                    (b, Ok(_)) => !gives_done(b) ==> accessor == (
                        behind_question(b, Rule::Asi),
                        Err::<ElementView, Stop>(stop_at(b)),
                    ),
                },
            }
        }),
{
    if let (a, Ok(_)) = s.type_annotation() {
        if let (b, Ok(_)) = a.accessor_initializer() {
            lemma_semicolon_stops(b);
        }
    }
}

} // verus!
