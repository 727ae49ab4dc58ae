//! What the steps below the level of the grammar do, field by field.
use super::host::{Answer, AnswerView, Context, Cursor, Reply, Request, Rule, Stop};
use super::modifiers::{Modifier, ModifierKind, ModifierPlace, Modifiers, ModifiersView};
use super::state::{ParserImpl, State};
use super::syntax::{
    AccessorProperty, Class, ClassBody, ClassElement, Diagnostic, ElementView, Expression,
    Function, KeyName, KeyNameView, KeyView, Kind, MethodDefinition, Node, PropertyDefinition,
    PropertyKey, Token,
};
use crate::span::Span;
use vstd::prelude::*;

verus! {

/// The token of that number; behind the last one there is only the end of the source.
pub open spec fn tok(s: State, i: int) -> Token {
    if 0 <= i < s.tokens.len() && i < usize::MAX {
        s.tokens[i]
    } else {
        Token {
            kind: Kind::Eof,
            span: Span { start: s.source_end, end: s.source_end },
            is_on_new_line: false,
            is_binding_identifier: false,
            is_class_element_name_start: false,
        }
    }
}

/// One of the modifiers is of this kind.
pub open spec fn has(modifiers: ModifiersView, kind: ModifierKind) -> bool {
    exists|i: int| 0 <= i < modifiers.list.len() && (#[trigger] modifiers.list[i]).kind == kind
}

/// The key is that name, as an identifier or a string literal.
pub open spec fn is_called(key: KeyView, computed: bool, name: Seq<char>) -> bool {
    !computed && key.name == KeyNameView::Static(name)
}

/// A report, or none.
pub open spec fn said(reported: bool, diagnostic: Diagnostic) -> Seq<Diagnostic> {
    if reported {
        seq![diagnostic]
    } else {
        Seq::empty()
    }
}

/// A state that stands elsewhere, with more asked, replies taken, and these reports in all.
pub open spec fn moved(
    s: State,
    cursor: Cursor,
    asked: Seq<Request>,
    taken: int,
    errors: Seq<Diagnostic>,
) -> State {
    State {
        cursor,
        requests: s.requests + asked,
        replies: s.replies.skip(taken),
        errors,
        ..s
    }
}

/// The cursor behind the token of that number, which is not the end of the source.
pub open spec fn behind(s: State, i: int) -> Cursor {
    Cursor { index: (i + 1) as usize, prev_token_end: tok(s, i).span.end }
}

/// The parser looks at the token of its number and at the one behind it.
pub proof fn law_tokens(s: State, i: int, kind: Kind)
    ensures
        0 <= i ==> s.token(i) == tok(s, i),
        s.cur() == tok(s, s.cursor.index as int),
        s.peek() == tok(s, s.cursor.index + 1),
        s.at(kind) <==> tok(s, s.cursor.index as int).kind == kind,
        s.peek_at(kind) <==> tok(s, s.cursor.index + 1).kind == kind,
{
}

/// Stepping over a token moves the cursor behind it and changes nothing else. Behind the end of
/// the source there is nothing.
pub proof fn law_advance(s: State, kind: Kind)
    ensures
        s.advance() == (State { cursor: s.advance().cursor, ..s }),
        s.advance().cursor.prev_token_end == tok(s, s.cursor.index as int).span.end,
        s.cursor.index < s.tokens.len() && s.cursor.index < usize::MAX ==> s.advance().cursor
            == behind(s, s.cursor.index as int),
        s.cursor.index >= s.tokens.len() || s.cursor.index == usize::MAX
            ==> s.advance().cursor.index == s.cursor.index,
        tok(s, s.cursor.index as int).kind == kind ==> s.eat(kind) == s.advance(),
        tok(s, s.cursor.index as int).kind != kind ==> s.eat(kind) == s,
{
}

/// A span ends where the token before the current one ends.
pub proof fn law_end_span(s: State, start: u32)
    ensures
        s.end_span(start).start == start,
        s.end_span(start).end == s.cursor.prev_token_end,
{
}

/// A span that is widened keeps its start; its end moves by the offset, as far as it can.
pub proof fn law_expanded_right(span: Span, offset: u32)
    ensures
        span.expanded_right(offset).start == span.start,
        span.end + offset <= u32::MAX ==> span.expanded_right(offset).end == span.end + offset,
        span.end + offset > u32::MAX ==> span.expanded_right(offset).end == u32::MAX,
{
}

/// A report is the last one and changes nothing else; without one nothing changes.
pub proof fn law_errors(s: State, reported: bool, diagnostic: Diagnostic)
    ensures
        s.error(diagnostic) == (State { errors: s.errors.push(diagnostic), ..s }),
        s.error_if(reported, diagnostic) == (State {
            errors: s.errors + said(reported, diagnostic),
            ..s
        }),
{
    assert(s.errors.push(diagnostic) =~= s.errors + seq![diagnostic]);
    assert(s.errors + Seq::empty() =~= s.errors);
}

/// Taking the pending decorators leaves none pending and changes nothing else.
pub proof fn law_without_decorators(s: State)
    ensures
        s.without_decorators() == (State { decorators: Seq::empty(), ..s }),
{
}

/// The modifiers that may stand in front of a class: `declare` and `abstract`. In front of a
/// private member: all but those of accessibility. In front of an accessor property: those of
/// accessibility, `accessor`, `static`, `abstract` and `override`.
pub proof fn law_allowed(kind: ModifierKind)
    ensures
        ModifierPlace::Class.allowed(kind) <==> match kind {
            ModifierKind::Declare | ModifierKind::Abstract => true,
            _ => false,
        },
        ModifierPlace::PrivateMember.allowed(kind) <==> match kind {
            ModifierKind::Public | ModifierKind::Protected | ModifierKind::Private => false,
            _ => true,
        },
        ModifierPlace::AccessorProperty.allowed(kind) <==> match kind {
            ModifierKind::Public => true,
            ModifierKind::Protected => true,
            ModifierKind::Private => true,
            ModifierKind::Accessor => true,
            ModifierKind::Static => true,
            ModifierKind::Abstract => true,
            ModifierKind::Override => true,
            _ => false,
        },
{
}

/// Each place has its own report, with the modifier that may not stand there.
pub proof fn law_complaint(modifier: Modifier)
    ensures
        ModifierPlace::Class.complaint(modifier) == Diagnostic::ModifierCannotBeUsedHere(modifier),
        ModifierPlace::PrivateMember.complaint(modifier)
            == Diagnostic::AccessibilityModifierOnPrivateProperty(modifier),
        ModifierPlace::AccessorProperty.complaint(modifier) == Diagnostic::AccessorModifier(
            modifier,
        ),
{
}

/// Every modifier that may not stand in a place is reported, in the order of the list, and no
/// other is: one more modifier adds its own report or none.
pub proof fn law_complaints(place: ModifierPlace, list: Seq<Modifier>, modifier: Modifier)
    ensures
        place.complaints(Seq::empty()) == Seq::<Diagnostic>::empty(),
        place.complaints(list.push(modifier)) == place.complaints(list) + said(
            !place.allowed(modifier.kind),
            place.complaint(modifier),
        ),
{
    let rejected = |m: Modifier| !place.allowed(m.kind);
    let complaint = |m: Modifier| place.complaint(m);
    reveal(Seq::filter);
    assert(list.push(modifier).drop_last() =~= list);
    assert(list.push(modifier).last() == modifier);
    if rejected(modifier) {
        assert(list.filter(rejected).push(modifier).map_values(complaint) =~= list.filter(
            rejected,
        ).map_values(complaint) + seq![complaint(modifier)]);
    } else {
        assert(list.filter(rejected).map_values(complaint) + Seq::empty() =~= list.filter(
            rejected,
        ).map_values(complaint));
    }
}

/// A check of modifiers adds its reports behind the others and changes nothing else.
pub proof fn law_verify_modifiers(s: State, modifiers: ModifiersView, place: ModifierPlace)
    ensures
        s.verify_modifiers(modifiers, place) == (State {
            errors: s.errors + place.complaints(modifiers.list),
            ..s
        }),
{
}

/// A list holds a kind of modifier if and only if one of its modifiers is of that kind. An empty
/// list holds none.
pub proof fn law_contains(modifiers: ModifiersView, kind: ModifierKind)
    ensures
        modifiers.contains(kind) <==> has(modifiers, kind),
        !ModifiersView::empty().contains(kind),
        ModifiersView::empty().list.len() == 0,
        ModifiersView::empty().accessibility is None,
{
}

/// The value of a field is read with `in`, and without `yield` and `await`; a static block with
/// `await`, and without `yield` and `return`. All else is as around the class.
pub proof fn law_contexts(ctx: Context)
    ensures
        ({
            let value = ctx.initializer_spec();
            &&& value.allow_in && !value.allow_yield && !value.allow_await
            &&& value.allow_return == ctx.allow_return
            &&& value.ambient == ctx.ambient
        }),
        ({
            let block = ctx.static_block_spec();
            &&& block.allow_await && !block.allow_yield && !block.allow_return
            &&& block.allow_in == ctx.allow_in
            &&& block.ambient == ctx.ambient
        }),
{
}

/// A question is logged with the place and the context in which it is asked. Its reply is the
/// first of those left; the cursor goes where the host parser stopped, what it reported is
/// reported behind the rest, and nothing else changes. Without a reply only the log changes.
pub proof fn law_ask(s: State, rule: Rule, ctx: Context)
    ensures
        s.ask(rule) == s.ask_in(rule, s.ctx),
        s.replies.len() == 0 ==> {
            &&& s.ask_in(rule, ctx).0 == (State {
                requests: s.requests.push(Request { rule, index: s.cursor.index, ctx }),
                ..s
            })
            &&& s.ask_in(rule, ctx).1 == Err::<AnswerView, Stop>(Stop::Pending)
        },
        s.replies.len() > 0 ==> {
            &&& s.ask_in(rule, ctx).0 == moved(
                s,
                s.replies[0].cursor,
                seq![Request { rule, index: s.cursor.index, ctx }],
                1,
                s.errors + s.replies[0].errors,
            )
            &&& s.ask_in(rule, ctx).1 == Ok::<AnswerView, Stop>(s.replies[0].answer)
        },
{
    let request = Request { rule, index: s.cursor.index, ctx };
    assert(s.requests.push(request) =~= s.requests + seq![request]);
    if s.replies.len() > 0 {
        assert(s.replies.drop_first() =~= s.replies.skip(1));
    }
}

/// What an answer of the right shape is taken for. Any other shape is a mismatch, and a missing
/// reply leaves the question pending; the state is that of the question in each case.
pub proof fn law_answers(s: State, rule: Rule, ctx: Context)
    ensures
        s.ask_done(rule).0 == s.ask(rule).0,
        s.ask_done(rule).1 == (match s.ask(rule).1 {
            Ok(AnswerView::Done) => Ok::<(), Stop>(()),
            Ok(_) => Err(Stop::Mismatch),
            Err(stop) => Err(stop),
        }),
        s.ask_flag(rule).0 == s.ask(rule).0,
        s.ask_flag(rule).1 == (match s.ask(rule).1 {
            Ok(AnswerView::Flag(flag)) => Ok::<bool, Stop>(flag),
            Ok(_) => Err(Stop::Mismatch),
            Err(stop) => Err(stop),
        }),
        s.ask_node(rule, ctx).0 == s.ask_in(rule, ctx).0,
        s.ask_node(rule, ctx).1 == (match s.ask_in(rule, ctx).1 {
            Ok(AnswerView::Node(node)) => Ok::<Node, Stop>(node),
            Ok(_) => Err(Stop::Mismatch),
            Err(stop) => Err(stop),
        }),
        s.ask_optional(rule).0 == s.ask(rule).0,
        s.ask_optional(rule).1 == (match s.ask(rule).1 {
            Ok(AnswerView::Optional(node)) => Ok::<Option<Node>, Stop>(node),
            Ok(_) => Err(Stop::Mismatch),
            Err(stop) => Err(stop),
        }),
        s.ask_nodes(rule).0 == s.ask(rule).0,
        s.ask_nodes(rule).1 == (match s.ask(rule).1 {
            Ok(AnswerView::Nodes(nodes)) => Ok::<Seq<Node>, Stop>(nodes),
            Ok(_) => Err(Stop::Mismatch),
            Err(stop) => Err(stop),
        }),
        s.ask_expression(rule).0 == s.ask(rule).0,
        s.ask_expression(rule).1 == (match s.ask(rule).1 {
            Ok(AnswerView::Expression(expression)) => Ok::<Expression, Stop>(expression),
            Ok(_) => Err(Stop::Mismatch),
            Err(stop) => Err(stop),
        }),
        s.ask_function(rule).0 == s.ask(rule).0,
        s.ask_function(rule).1 == (match s.ask(rule).1 {
            Ok(AnswerView::Function(function)) => Ok::<Function, Stop>(function),
            Ok(_) => Err(Stop::Mismatch),
            Err(stop) => Err(stop),
        }),
{
}

/// Modifiers bring decorators along, which wait behind those that wait already.
pub proof fn law_ask_modifiers(s: State, rule: Rule)
    ensures
        match s.ask(rule).1 {
            Ok(AnswerView::Modifiers { modifiers, decorators }) => {
                &&& s.ask_modifiers(rule).1 == Ok::<ModifiersView, Stop>(modifiers)
                &&& s.ask_modifiers(rule).0 == (State {
                    decorators: s.decorators + decorators,
                    ..s.ask(rule).0
                })
            },
            Ok(_) => s.ask_modifiers(rule).1 == Err::<ModifiersView, Stop>(Stop::Mismatch),
            Err(stop) => s.ask_modifiers(rule).1 == Err::<ModifiersView, Stop>(stop),
        },
{
}

/// A result and its model agree only if they are the same: the same value, or the same stop.
pub proof fn law_agrees<T: View>(given: Result<T, Stop>, expected: Result<T::V, Stop>)
    ensures
        super::state::agrees(given, expected) ==> match given {
            Ok(value) => expected == Ok::<T::V, Stop>(value@),
            Err(stop) => expected == Err::<T::V, Stop>(stop),
        },
{
}

/// The model of a parser holds every field as it is.
pub proof fn law_parser_model(parser: ParserImpl)
    ensures
        parser@.tokens == parser.tokens@,
        parser@.source_end == parser.source_end,
        parser@.cursor == parser.cursor,
        parser@.ctx == parser.ctx,
        parser@.is_ts == parser.is_ts,
        parser@.decorators == parser.decorators@,
        parser@.errors == parser.errors@,
        parser@.requests == parser.requests@,
        parser@.replies.len() == parser.replies@.len(),
        forall|i: int|
            0 <= i < parser.replies@.len() ==> #[trigger] parser@.replies[i]
                == parser.replies@[i]@,
{
}

/// The models of what the host parser says hold every field as it is.
pub proof fn law_host_models(reply: Reply, modifiers: Modifiers, key: PropertyKey)
    ensures
        reply@.cursor == reply.cursor,
        reply@.errors == reply.errors@,
        reply@.answer == (match reply.answer {
            Answer::Done => AnswerView::Done,
            Answer::Flag(flag) => AnswerView::Flag(flag),
            Answer::Node(node) => AnswerView::Node(node),
            Answer::Optional(node) => AnswerView::Optional(node),
            Answer::Nodes(nodes) => AnswerView::Nodes(nodes@),
            Answer::Expression(expression) => AnswerView::Expression(expression),
            Answer::Function(function) => AnswerView::Function(function),
            Answer::Modifiers { modifiers, decorators } => AnswerView::Modifiers {
                modifiers: modifiers@,
                decorators: decorators@,
            },
            Answer::PrivateName { name, node } => AnswerView::PrivateName { name: name@, node },
            Answer::PropertyName { key, computed } => AnswerView::PropertyName {
                key: key@,
                computed,
            },
        }),
        modifiers@.id == modifiers.id,
        modifiers@.list == modifiers.list@,
        modifiers@.accessibility == modifiers.accessibility,
        key@.node == key.node,
        key@.name == (match key.name {
            KeyName::Private(name) => KeyNameView::Private(name@),
            KeyName::Static(name) => KeyNameView::Static(name@),
            KeyName::Unknown => KeyNameView::Unknown,
        }),
{
}

/// The models of members hold every field as it is.
pub proof fn law_member_models(
    element: ClassElement,
    method: MethodDefinition,
    field: PropertyDefinition,
    accessor: AccessorProperty,
)
    ensures
        element@ == (match element {
            ClassElement::StaticBlock { span, body } => ElementView::StaticBlock { span, body },
            ClassElement::MethodDefinition(method) => ElementView::MethodDefinition(method@),
            ClassElement::PropertyDefinition(field) => ElementView::PropertyDefinition(field@),
            ClassElement::AccessorProperty(accessor) => ElementView::AccessorProperty(accessor@),
            ClassElement::TSIndexSignature(node) => ElementView::TSIndexSignature(node),
        }),
        method@.span == method.span,
        method@.is_abstract == method.is_abstract,
        method@.decorators == method.decorators@,
        method@.key == method.key@,
        method@.value == method.value,
        method@.kind == method.kind,
        method@.computed == method.computed,
        method@.is_static == method.is_static,
        method@.is_override == method.is_override,
        method@.optional == method.optional,
        method@.accessibility == method.accessibility,
        field@.span == field.span,
        field@.is_abstract == field.is_abstract,
        field@.decorators == field.decorators@,
        field@.key == field.key@,
        field@.type_annotation == field.type_annotation,
        field@.value == field.value,
        field@.computed == field.computed,
        field@.is_static == field.is_static,
        field@.declare == field.declare,
        field@.is_override == field.is_override,
        field@.optional == field.optional,
        field@.definite == field.definite,
        field@.readonly == field.readonly,
        field@.accessibility == field.accessibility,
        accessor@.span == accessor.span,
        accessor@.is_abstract == accessor.is_abstract,
        accessor@.decorators == accessor.decorators@,
        accessor@.key == accessor.key@,
        accessor@.type_annotation == accessor.type_annotation,
        accessor@.value == accessor.value,
        accessor@.computed == accessor.computed,
        accessor@.is_static == accessor.is_static,
        accessor@.is_override == accessor.is_override,
        accessor@.definite == accessor.definite,
        accessor@.accessibility == accessor.accessibility,
{
}

/// The models of a class and its body hold every field as it is.
pub proof fn law_class_models(class: Class, body: ClassBody)
    ensures
        class@.span == class.span,
        class@.class_type == class.class_type,
        class@.decorators == class.decorators@,
        class@.id == class.id,
        class@.type_parameters == class.type_parameters,
        class@.super_class == class.super_class,
        class@.super_type_parameters == class.super_type_parameters,
        class@.implements == class.implements@,
        class@.body == class.body@,
        class@.is_abstract == class.is_abstract,
        class@.declare == class.declare,
        body@.span == body.span,
        body@.body.len() == body.body@.len(),
        forall|i: int| 0 <= i < body.body@.len() ==> #[trigger] body@.body[i] == body.body@[i]@,
{
}

} // verus!
