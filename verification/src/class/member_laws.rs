//! What is read of a member of a class, from the tokens and the replies of the host parser.
use super::host::{AnswerView, Context, Cursor, Request, Rule, Stop};
use super::modifiers::{ModifierKind, ModifierPlace, ModifiersView};
use super::state::State;
use super::syntax::{
    AccessorView, Diagnostic, ElementView, Function, KeyNameView, KeyView, Kind,
    MethodDefinitionKind, MethodView, Node, PropertyView, TSAccessibility,
};
use crate::span::Span;
use vstd::prelude::*;

verus! {

/// The key that an answer gives, and whether it is computed. A private name never is.
pub open spec fn answered_name(answer: AnswerView, private: bool) -> Option<(KeyView, bool)> {
    match answer {
        AnswerView::PrivateName { name, node } => if private {
            Some((KeyView { node, name: KeyNameView::Private(name) }, false))
        } else {
            None
        },
        AnswerView::PropertyName { key, computed } => if private {
            None
        } else {
            Some((key, computed))
        },
        _ => None,
    }
}

/// What is asked for at a name: a private name at a private identifier, else a property name.
pub open spec fn name_rule(s: State, i: int) -> Rule {
    if super::base_laws::tok(s, i).kind == Kind::PrivateIdentifier {
        Rule::PrivateIdentifier
    } else {
        Rule::PropertyName
    }
}

/// A name is what the host parser answers, and a name of the kind that the token shows.
pub proof fn law_element_name(s: State)
    ensures
        ({
            let i = s.cursor.index as int;
            let private = super::base_laws::tok(s, i).kind == Kind::PrivateIdentifier;
            let request = Request { rule: name_rule(s, i), index: s.cursor.index, ctx: s.ctx };
            s.replies.len() > 0 ==> (answered_name(s.replies[0].answer, private) matches Some(
                name,
            ) ==> {
                &&& s.class_element_name().1 == Ok::<(KeyView, bool), Stop>(name)
                &&& s.class_element_name().0 == super::base_laws::moved(
                    s,
                    s.replies[0].cursor,
                    seq![request],
                    1,
                    s.errors + s.replies[0].errors,
                )
            })
        }),
{
    let rule = name_rule(s, s.cursor.index as int);
    super::base_laws::law_tokens(s, 0, Kind::PrivateIdentifier);
    super::base_laws::law_ask(s, rule, s.ctx);
}

/// A method takes the pending decorators and the function that the host parser makes of it. The
/// method named `constructor` that is not static is the constructor; of a constructor a `this`
/// parameter and type parameters are reported.
pub proof fn law_method_definition(
    s: State,
    start: u32,
    kind: MethodDefinitionKind,
    key: KeyView,
    computed: bool,
    is_static: bool,
    is_async: bool,
    generator: bool,
    is_override: bool,
    is_abstract: bool,
    accessibility: Option<TSAccessibility>,
    optional: bool,
    value: Function,
)
    requires
        s.replies.len() > 0,
        s.replies[0].answer == AnswerView::Function(value),
    ensures
        ({
            let step = s.class_method_definition(
                start,
                kind,
                key,
                computed,
                is_static,
                is_async,
                generator,
                is_override,
                is_abstract,
                accessibility,
                optional,
            );
            let reply = s.replies[0];
            let named = !is_static && super::base_laws::is_called(key, computed, "constructor"@);
            let constructor = named || kind == MethodDefinitionKind::Constructor;
            let request = Request {
                rule: Rule::Method { is_async, generator },
                index: s.cursor.index,
                ctx: s.ctx,
            };
            &&& step.1 == Ok::<ElementView, Stop>(
                ElementView::MethodDefinition(
                    MethodView {
                        span: Span { start, end: reply.cursor.prev_token_end },
                        is_abstract,
                        decorators: s.decorators,
                        key,
                        value,
                        kind: if named {
                            MethodDefinitionKind::Constructor
                        } else {
                            kind
                        },
                        computed,
                        is_static,
                        is_override,
                        optional,
                        accessibility,
                    },
                ),
            )
            &&& step.0 == (State {
                decorators: Seq::empty(),
                ..super::base_laws::moved(
                    s,
                    reply.cursor,
                    seq![request],
                    1,
                    s.errors + reply.errors + super::base_laws::said(
                        constructor && value.this_param is Some,
                        Diagnostic::TSConstructorThisParameter(value.this_param->0),
                    ) + super::base_laws::said(
                        constructor && value.type_parameters is Some,
                        Diagnostic::TSConstructorTypeParameter(value.type_parameters->0),
                    ) + super::base_laws::said(
                        constructor && is_static,
                        Diagnostic::StaticConstructor(key.node.span),
                    ),
                )
            })
        }),
{
    let rule = Rule::Method { is_async, generator };
    let bare = s.without_decorators();
    super::base_laws::law_ask(bare, rule, s.ctx);
    let asked = bare.ask(rule).0;
    let this_param = Diagnostic::TSConstructorThisParameter(value.this_param->0);
    let type_parameters = Diagnostic::TSConstructorTypeParameter(value.type_parameters->0);
    let a = asked.error_if(value.this_param is Some, this_param);
    let b = a.error_if(value.type_parameters is Some, type_parameters);
    super::base_laws::law_errors(asked, value.this_param is Some, this_param);
    super::base_laws::law_errors(a, value.type_parameters is Some, type_parameters);
    super::base_laws::law_errors(b, is_static, Diagnostic::StaticConstructor(key.node.span));
    assert(asked.errors + Seq::empty() + Seq::empty() + Seq::empty() =~= asked.errors);
}

/// Where the parser stands behind a type annotation: in TypeScript the host parser reads one if
/// there is one; in JavaScript nothing is read.
pub open spec fn annotated(s: State) -> Cursor {
    if s.is_ts {
        s.replies[0].cursor
    } else {
        s.cursor
    }
}

/// How many replies a type annotation takes.
pub open spec fn annotations(s: State) -> int {
    if s.is_ts {
        1
    } else {
        0
    }
}

/// How many replies a type annotation and an initializer take.
pub open spec fn initialized(s: State) -> int {
    if super::base_laws::tok(s, annotated(s).index as int).kind == Kind::Eq {
        annotations(s) + 1
    } else {
        annotations(s)
    }
}

/// The replies that a field wants are there, and of the right shape: a type annotation, absent
/// or not, in TypeScript; a value where `=` stands; and a semicolon.
pub open spec fn has_field_replies(s: State) -> bool {
    let a = annotations(s);
    let v = initialized(s);
    &&& s.replies.len() > v
    &&& s.is_ts ==> s.replies[0].answer is Optional
    &&& v > a ==> s.replies[a].answer is Node
    &&& s.replies[v].answer is Done
}

/// The type annotation of a field: the host parser's answer in TypeScript, none in JavaScript.
pub open spec fn field_annotation(s: State) -> Option<Node> {
    if s.is_ts {
        s.replies[0].answer->Optional_0
    } else {
        None
    }
}

/// The value of a field: there is one if and only if `=` stands behind the type annotation, and
/// then it is what the host parser made of the initializer.
pub open spec fn field_value(s: State) -> Option<Node> {
    if super::base_laws::tok(s, annotated(s).index as int).kind == Kind::Eq {
        Some(s.replies[annotations(s)].answer->Node_0)
    } else {
        None
    }
}

/// The questions that a field asks, where its value is asked for as `rule` in `ctx`.
pub open spec fn field_questions(s: State, rule: Rule, ctx: Context) -> Seq<Request> {
    let annotation = Request { rule: Rule::TSTypeAnnotation, index: s.cursor.index, ctx: s.ctx };
    let value = Request { rule, index: (annotated(s).index + 1) as usize, ctx };
    let v = initialized(s);
    let end = Request {
        rule: Rule::Asi,
        index: if v > 0 {
            s.replies[v - 1].cursor.index
        } else {
            s.cursor.index
        },
        ctx: s.ctx,
    };
    (if s.is_ts {
        seq![annotation]
    } else {
        Seq::empty()
    }) + (if v > annotations(s) {
        seq![value]
    } else {
        Seq::empty()
    }) + seq![end]
}

/// The reports of the host parser in the first replies, in order.
pub open spec fn host_errors(s: State, taken: int) -> Seq<Diagnostic>
    decreases taken,
{
    if taken <= 0 {
        Seq::empty()
    } else {
        host_errors(s, taken - 1) + s.replies[taken - 1].errors
    }
}

proof fn lemma_host_errors(s: State)
    ensures
        host_errors(s, 0) == Seq::<Diagnostic>::empty(),
        host_errors(s, 1) == s.replies[0].errors,
        host_errors(s, 2) == s.replies[0].errors + s.replies[1].errors,
        host_errors(s, 3) == s.replies[0].errors + s.replies[1].errors + s.replies[2].errors,
        host_errors(s, 4) == s.replies[0].errors + s.replies[1].errors + s.replies[2].errors
            + s.replies[3].errors,
{
    reveal_with_fuel(host_errors, 5);
    assert(Seq::<Diagnostic>::empty() + s.replies[0].errors =~= s.replies[0].errors);
}

proof fn lemma_moved_nowhere(s: State)
    ensures
        super::base_laws::moved(s, s.cursor, Seq::empty(), 0, s.errors + host_errors(s, 0)) == s,
{
    assert(s.requests + Seq::empty() =~= s.requests);
    assert(s.replies.skip(0) =~= s.replies);
    assert(s.errors + host_errors(s, 0) =~= s.errors);
}

/// The question for a type annotation, in TypeScript only.
pub open spec fn annotation_questions(s: State) -> Seq<Request> {
    if s.is_ts {
        seq![Request { rule: Rule::TSTypeAnnotation, index: s.cursor.index, ctx: s.ctx }]
    } else {
        Seq::empty()
    }
}

/// A type annotation is read in TypeScript only, and is what the host parser answers.
pub proof fn law_type_annotation(s: State)
    requires
        s.is_ts ==> s.replies.len() > 0 && s.replies[0].answer is Optional,
    ensures
        s.type_annotation().1 == Ok::<Option<Node>, Stop>(field_annotation(s)),
        s.type_annotation().0 == super::base_laws::moved(
            s,
            annotated(s),
            annotation_questions(s),
            annotations(s),
            s.errors + host_errors(s, annotations(s)),
        ),
{
    lemma_host_errors(s);
    lemma_moved_nowhere(s);
    super::base_laws::law_ask(s, Rule::TSTypeAnnotation, s.ctx);
}

/// The state behind `=` and a value that is asked for as `rule` in `ctx`.
pub open spec fn behind_value(s: State, rule: Rule, ctx: Context) -> State {
    super::base_laws::moved(
        s,
        s.replies[0].cursor,
        seq![Request { rule, index: (s.cursor.index + 1) as usize, ctx }],
        1,
        s.errors + s.replies[0].errors,
    )
}

/// A field or an accessor property has a value if and only if `=` stands here, and it is what
/// the host parser makes of the expression behind `=`.
pub proof fn law_initializers(s: State)
    ensures
        super::base_laws::tok(s, s.cursor.index as int).kind != Kind::Eq ==> {
            &&& s.field_initializer() == (s, Ok::<Option<Node>, Stop>(None))
            &&& s.accessor_initializer() == (s, Ok::<Option<Node>, Stop>(None))
        },
        super::base_laws::tok(s, s.cursor.index as int).kind == Kind::Eq && s.replies.len() > 0
            && s.replies[0].answer is Node ==> {
            let value = Some(s.replies[0].answer->Node_0);
            let inside = Context {
                allow_in: true,
                allow_yield: false,
                allow_await: false,
                allow_return: s.ctx.allow_return,
                ambient: s.ctx.ambient,
            };
            &&& s.field_initializer().1 == Ok::<Option<Node>, Stop>(value)
            &&& s.field_initializer().0 == behind_value(s, Rule::Expr, inside)
            &&& s.accessor_initializer().1 == Ok::<Option<Node>, Stop>(value)
            &&& s.accessor_initializer().0 == behind_value(
                s,
                Rule::AssignmentExpressionOrHigher,
                s.ctx,
            )
        },
{
    super::base_laws::law_tokens(s, 0, Kind::Eq);
    super::base_laws::law_advance(s, Kind::Eq);
    super::base_laws::law_ask(s.advance(), Rule::Expr, s.ctx.initializer_spec());
    super::base_laws::law_ask(s.advance(), Rule::AssignmentExpressionOrHigher, s.ctx);
}

proof fn lemma_behind_semicolon(s: State, t: State, rule: Rule, ctx: Context)
    requires
        has_field_replies(s),
        ({
            let a = State { decorators: t.decorators, ..s.type_annotation().0 };
            t == if super::base_laws::tok(s, annotated(s).index as int).kind == Kind::Eq {
                behind_value(a, rule, ctx)
            } else {
                a
            }
        }),
    ensures
        t.ask_done(Rule::Asi).1 is Ok,
        t.ask_done(Rule::Asi).0 == (State {
            decorators: t.decorators,
            ..super::base_laws::moved(
                s,
                s.replies[initialized(s)].cursor,
                field_questions(s, rule, ctx),
                initialized(s) + 1,
                s.errors + host_errors(s, initialized(s) + 1),
            )
        }),
{
    let v = initialized(s);
    let later = t.ask_done(Rule::Asi).0;
    law_type_annotation(s);
    lemma_host_errors(s);
    super::base_laws::law_ask(t, Rule::Asi, t.ctx);
    assert(t.replies =~= s.replies.skip(v));
    assert(t.replies[0] == s.replies[v]);
    assert(later.replies =~= s.replies.skip(v + 1));
    assert(later.requests =~= s.requests + field_questions(s, rule, ctx));
    assert(later.errors =~= s.errors + host_errors(s, v + 1));
}

/// A field: its type annotation, its value and a semicolon, in this order. A value stands there
/// if and only if `=` does, whatever the type annotation is; it is read with `in`, and without
/// `yield` and `await`. The pending decorators are its own. Nothing is reported but what the
/// host parser reports.
pub proof fn law_property_definition(
    s: State,
    start: u32,
    key: KeyView,
    computed: bool,
    is_static: bool,
    declare: bool,
    is_override: bool,
    readonly: bool,
    is_abstract: bool,
    accessibility: Option<TSAccessibility>,
    optional: bool,
    definite: bool,
)
    requires
        has_field_replies(s),
    ensures
        ({
            let step = s.class_property_definition(
                start,
                key,
                computed,
                is_static,
                declare,
                is_override,
                readonly,
                is_abstract,
                accessibility,
                optional,
                definite,
            );
            let v = initialized(s);
            let inside = Context {
                allow_in: true,
                allow_yield: false,
                allow_await: false,
                allow_return: s.ctx.allow_return,
                ambient: s.ctx.ambient,
            };
            &&& step.1 == Ok::<ElementView, Stop>(
                ElementView::PropertyDefinition(
                    PropertyView {
                        span: Span { start, end: s.replies[v].cursor.prev_token_end },
                        is_abstract,
                        decorators: s.decorators,
                        key,
                        type_annotation: field_annotation(s),
                        value: field_value(s),
                        computed,
                        is_static,
                        declare,
                        is_override,
                        optional,
                        definite,
                        readonly,
                        accessibility,
                    },
                ),
            )
            &&& step.0 == (State {
                decorators: Seq::empty(),
                ..super::base_laws::moved(
                    s,
                    s.replies[v].cursor,
                    field_questions(s, Rule::Expr, inside),
                    v + 1,
                    s.errors + host_errors(s, v + 1),
                )
            })
        }),
{
    law_type_annotation(s);
    let bare = s.type_annotation().0.without_decorators();
    let inside = s.ctx.initializer_spec();
    law_initializers(bare);
    let value = bare.field_initializer();
    assert(bare.replies.len() > 0 ==> bare.replies[0] == s.replies[annotations(s)]);
    assert(value.1 == Ok::<Option<Node>, Stop>(field_value(s)));
    lemma_behind_semicolon(s, value.0, Rule::Expr, inside);
    let later = value.0.ask_done(Rule::Asi).0;
    assert(later.end_span(start) == (Span {
        start,
        end: s.replies[initialized(s)].cursor.prev_token_end,
    }));
}

/// An accessor property: its type annotation, its value and a semicolon, in this order. A value
/// stands there if and only if `=` does; it is one expression without a comma, read as around
/// the class. The decorators that are pending at the end are its own. Of its modifiers those are
/// reported that may not stand there.
pub proof fn law_accessor_property(
    s: State,
    start: u32,
    key: KeyView,
    computed: bool,
    is_static: bool,
    definite: bool,
    modifiers: ModifiersView,
)
    requires
        has_field_replies(s),
    ensures
        ({
            let step = s.class_accessor_property(
                start,
                key,
                computed,
                is_static,
                definite,
                modifiers,
            );
            let v = initialized(s);
            &&& step.1 == Ok::<ElementView, Stop>(
                ElementView::AccessorProperty(
                    AccessorView {
                        span: Span { start, end: s.replies[v].cursor.prev_token_end },
                        is_abstract: super::base_laws::has(modifiers, ModifierKind::Abstract),
                        decorators: s.decorators,
                        key,
                        type_annotation: field_annotation(s),
                        value: field_value(s),
                        computed,
                        is_static,
                        is_override: super::base_laws::has(modifiers, ModifierKind::Override),
                        definite,
                        accessibility: modifiers.accessibility,
                    },
                ),
            )
            &&& step.0 == (State {
                decorators: Seq::empty(),
                ..super::base_laws::moved(
                    s,
                    s.replies[v].cursor,
                    field_questions(s, Rule::AssignmentExpressionOrHigher, s.ctx),
                    v + 1,
                    s.errors + host_errors(s, v + 1) + ModifierPlace::AccessorProperty.complaints(
                        modifiers.list,
                    ),
                )
            })
        }),
{
    law_type_annotation(s);
    let a = s.type_annotation().0;
    law_initializers(a);
    lemma_behind_semicolon(
        s,
        a.accessor_initializer().0,
        Rule::AssignmentExpressionOrHigher,
        s.ctx,
    );
    super::base_laws::law_contains(modifiers, ModifierKind::Abstract);
    super::base_laws::law_contains(modifiers, ModifierKind::Override);
}

/// A static block is the block that the host parser reads, with `await` and without `yield` and
/// `return`.
pub proof fn law_static_block(s: State, start: u32, body: Node)
    requires
        s.replies.len() > 0,
        s.replies[0].answer == AnswerView::Node(body),
    ensures
        ({
            let step = s.class_static_block(start);
            let inside = Context {
                allow_in: s.ctx.allow_in,
                allow_yield: false,
                allow_await: true,
                allow_return: false,
                ambient: s.ctx.ambient,
            };
            let request = Request { rule: Rule::Block, index: s.cursor.index, ctx: inside };
            &&& step.1 == Ok::<ElementView, Stop>(
                ElementView::StaticBlock {
                    span: Span { start, end: s.replies[0].cursor.prev_token_end },
                    body,
                },
            )
            &&& step.0 == super::base_laws::moved(
                s,
                s.replies[0].cursor,
                seq![request],
                1,
                s.errors + s.replies[0].errors,
            )
        }),
{
    super::base_laws::law_ask(s, Rule::Block, s.ctx.static_block_spec());
}

} // verus!
