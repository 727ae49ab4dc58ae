//! How the words in front of a name, the marks behind it and what follows make a member.
use super::element::{MemberHead, StartView};
use super::host::{AnswerView, Request, Rule, Stop};
use super::modifiers::{ModifierKind, ModifierPlace, ModifiersView};
use super::state::State;
use super::syntax::{
    Diagnostic, ElementView, KeyNameView, KeyView, Kind, MethodDefinitionKind, Node, Token,
};
use crate::span::Span;
use vstd::prelude::*;

verus! {

/// The current token.
pub open spec fn here(s: State) -> Token {
    super::base_laws::tok(s, s.cursor.index as int)
}

/// The token behind the current one.
pub open spec fn next(s: State) -> Token {
    super::base_laws::tok(s, s.cursor.index + 1)
}

/// The state behind the current token, which is not the end of the source.
pub open spec fn stepped(s: State) -> State {
    State { cursor: super::base_laws::behind(s, s.cursor.index as int), ..s }
}

/// The state behind an answer to a question that is asked here.
pub open spec fn answered(s: State, rule: Rule) -> State {
    super::base_laws::moved(
        s,
        s.replies[0].cursor,
        seq![Request { rule, index: s.cursor.index, ctx: s.ctx }],
        1,
        s.errors + s.replies[0].errors,
    )
}

/// The name that the first reply gives here.
pub open spec fn given_name(s: State) -> Option<(KeyView, bool)> {
    if s.replies.len() == 0 {
        None
    } else {
        super::member_laws::answered_name(
            s.replies[0].answer,
            here(s).kind == Kind::PrivateIdentifier,
        )
    }
}

/// The state behind a name that is read here.
pub open spec fn behind_name(s: State) -> State {
    answered(s, super::member_laws::name_rule(s, s.cursor.index as int))
}

/// A name, or `*` and a name, can follow the current token.
pub open spec fn name_can_follow(s: State) -> bool {
    next(s).is_class_element_name_start || next(s).kind == Kind::Star
}

pub proof fn lemma_here(s: State)
    ensures
        s.cur() == here(s),
        s.peek() == next(s),
        here(s).kind != Kind::Eof ==> s.advance() == stepped(s) || s.cursor.index
            >= s.tokens.len() || s.cursor.index == usize::MAX,
        here(s).kind != Kind::Eof && s.cursor.index < s.tokens.len() && s.cursor.index < usize::MAX
            ==> s.advance() == stepped(s),
        s.cursor.index >= s.tokens.len() || s.cursor.index == usize::MAX ==> here(s).kind
            == Kind::Eof && !here(s).is_class_element_name_start,
{
    super::base_laws::law_tokens(s, 0, Kind::Eof);
    super::base_laws::law_advance(s, Kind::Eof);
}

proof fn lemma_name(s: State)
    ensures
        given_name(s) matches Some(name) ==> s.class_element_name() == (
            behind_name(s),
            Ok::<(KeyView, bool), Stop>(name),
        ),
{
    super::member_laws::law_element_name(s);
}

/// The word `static` makes a member static where a name or `*` follows; elsewhere it is the name
/// of the member. Any other token changes nothing.
pub proof fn law_static_word(s: State, head: MemberHead)
    ensures
        here(s).kind != Kind::Static ==> s.static_word(head) == (
            s,
            Ok::<(MemberHead, Option<(KeyView, bool)>), Stop>((head, None)),
        ),
        here(s).kind == Kind::Static && name_can_follow(s) ==> {
            let found = MemberHead {
                kind: head.kind,
                is_static: true,
                is_async: head.is_async,
                generator: head.generator,
            };
            s.static_word(head) == (
                stepped(s),
                Ok::<(MemberHead, Option<(KeyView, bool)>), Stop>((found, None)),
            )
        },
        here(s).kind == Kind::Static && !name_can_follow(s) ==> (given_name(s) matches Some(name)
            ==> s.static_word(head) == (
            behind_name(s),
            Ok::<(MemberHead, Option<(KeyView, bool)>), Stop>((head, Some(name))),
        )),
{
    lemma_here(s);
    lemma_name(s);
}

/// The word `async` makes a member async where a name or `*` follows on the same line; in front
/// of `?` it is left for the name; elsewhere it is the name of the member. Any other token, and a
/// member that has a name, changes nothing.
pub proof fn law_async_word(s: State, head: MemberHead, name: Option<(KeyView, bool)>)
    ensures
        name is Some || here(s).kind != Kind::Async || next(s).kind == Kind::Question
            ==> s.async_word(head, name) == (
            s,
            Ok::<(MemberHead, Option<(KeyView, bool)>), Stop>((head, name)),
        ),
        name is None && here(s).kind == Kind::Async && next(s).kind != Kind::Question
            && !next(s).is_on_new_line && name_can_follow(s) ==> {
            let found = MemberHead {
                kind: head.kind,
                is_static: head.is_static,
                is_async: true,
                generator: head.generator,
            };
            s.async_word(head, name) == (
                stepped(s),
                Ok::<(MemberHead, Option<(KeyView, bool)>), Stop>((found, None)),
            )
        },
        name is None && here(s).kind == Kind::Async && next(s).kind != Kind::Question && (next(
            s,
        ).is_on_new_line || !name_can_follow(s)) ==> (given_name(s) matches Some(found)
            ==> s.async_word(head, name) == (
            behind_name(s),
            Ok::<(MemberHead, Option<(KeyView, bool)>), Stop>((head, Some(found))),
        )),
{
    lemma_here(s);
    lemma_name(s);
}

/// The words that can stand in front of a name that has not been read: `*`, and, where the
/// member is not async, `get` and `set` if a name follows them.
pub open spec fn is_get(s: State, is_async: bool) -> bool {
    here(s).kind == Kind::GetWord && next(s).is_class_element_name_start && !is_async
}

pub open spec fn is_set(s: State, is_async: bool) -> bool {
    here(s).kind == Kind::SetWord && next(s).is_class_element_name_start && !is_async
}

/// The state at the name, behind the word in front of it.
pub open spec fn at_name(s: State, is_async: bool) -> State {
    if here(s).kind == Kind::Star || is_get(s, is_async) || is_set(s, is_async) {
        stepped(s)
    } else {
        s
    }
}

/// The words in front of a name: `*` makes a generator, `get` a getter and `set` a setter,
/// whether the member is static or not; nothing else makes any of these.
pub open spec fn worded(s: State, head: MemberHead) -> MemberHead {
    MemberHead {
        kind: if is_get(s, head.is_async) {
            MethodDefinitionKind::Getter
        } else if is_set(s, head.is_async) {
            MethodDefinitionKind::Setter
        } else {
            head.kind
        },
        is_static: head.is_static,
        is_async: head.is_async,
        generator: here(s).kind == Kind::Star || head.generator,
    }
}

/// A member without a name has one behind its words. A name that is there already is kept, with
/// the words in front of it. Where neither a word nor a name stands, the host parser is told.
pub proof fn law_member_name(s: State, head: MemberHead, name: Option<(KeyView, bool)>)
    ensures
        name matches Some(known) ==> s.member_name(head, name) == (
            s,
            Ok::<StartView, Stop>(StartView::Member(head, known.0, known.1)),
        ),
        name is None && (here(s).kind == Kind::Star || head.is_async || here(
            s,
        ).is_class_element_name_start || is_get(s, false) || is_set(s, false)) ==> (given_name(
            at_name(s, head.is_async),
        ) matches Some(found) ==> s.member_name(head, name) == (
            behind_name(at_name(s, head.is_async)),
            Ok::<StartView, Stop>(StartView::Member(worded(s, head), found.0, found.1)),
        )),
        name is None && here(s).kind != Kind::Star && !head.is_async && !is_get(s, false)
            && !is_set(s, false) && !here(s).is_class_element_name_start && s.replies.len() > 0
            && s.replies[0].answer is Done ==> s.member_name(head, name) == (
            answered(s, Rule::Unexpected),
            Ok::<StartView, Stop>(StartView::Unexpected),
        ),
{
    lemma_here(s);
    lemma_name(s);
    lemma_name(stepped(s));
    super::base_laws::law_ask(s, Rule::Unexpected, s.ctx);
}

/// An index signature is read where the host parser says that one starts, from the start of the
/// member and with its modifiers; elsewhere the name is read.
pub proof fn law_index_signature(
    s: State,
    start: u32,
    modifiers: ModifiersView,
    head: MemberHead,
    name: Option<(KeyView, bool)>,
)
    ensures
        s.replies.len() > 0 && s.replies[0].answer == AnswerView::Flag(false)
            ==> s.index_signature_or_name(start, modifiers, head, name) == answered(
            s,
            Rule::AtTSIndexSignatureMember,
        ).member_name(head, name),
        s.replies.len() > 1 && s.replies[0].answer == AnswerView::Flag(true) ==> (
        s.replies[1].answer matches AnswerView::Node(node) ==> s.index_signature_or_name(
            start,
            modifiers,
            head,
            name,
        ) == (
            answered(
                answered(s, Rule::AtTSIndexSignatureMember),
                Rule::IndexSignatureDeclaration { start, modifiers: modifiers.id },
            ),
            Ok::<StartView, Stop>(StartView::Element(ElementView::TSIndexSignature(node))),
        )),
{
    let asked = answered(s, Rule::AtTSIndexSignatureMember);
    super::base_laws::law_ask(s, Rule::AtTSIndexSignatureMember, s.ctx);
    super::base_laws::law_ask(
        asked,
        Rule::IndexSignatureDeclaration { start, modifiers: modifiers.id },
        s.ctx,
    );
}

/// What the modifiers alone say of a member.
pub open spec fn modified_head(modifiers: ModifiersView) -> MemberHead {
    MemberHead {
        kind: MethodDefinitionKind::Method,
        is_static: super::base_laws::has(modifiers, ModifierKind::Static),
        is_async: super::base_laws::has(modifiers, ModifierKind::Async),
        generator: false,
    }
}

/// A member starts with the words `static` and `async`, in this order, and what the modifiers
/// say of it; `static {` starts a static block instead.
pub proof fn law_member_start(s: State, start: u32, modifiers: ModifiersView)
    ensures
        here(s).kind == Kind::Static && next(s).kind == Kind::LCurly ==> {
            let block = stepped(s).class_static_block(start);
            &&& s.member_start(start, modifiers).0 == block.0
            &&& block.1 matches Ok(element) ==> s.member_start(start, modifiers).1 == Ok::<
                StartView,
                Stop,
            >(StartView::Element(element))
        },
        !(here(s).kind == Kind::Static && next(s).kind == Kind::LCurly) ==> {
            s.static_word(modified_head(modifiers)) matches (a, Ok((head, name))) ==> (
            a.async_word(head, name) matches (b, Ok((head, name))) ==> s.member_start(
                start,
                modifiers,
            ) == b.index_signature_or_name(start, modifiers, head, name))
        },
{
    lemma_here(s);
    super::base_laws::law_contains(modifiers, ModifierKind::Static);
    super::base_laws::law_contains(modifiers, ModifierKind::Async);
}

/// The words in front of a name that stands behind no `static` or `async` of its own: a member is
/// static if and only if a modifier or the word `static` says so, async likewise, a generator if
/// and only if `*` stands there, a getter if and only if the word `get` stands in front of the
/// name and the member is not async, a setter likewise, and else a plain member. None of these
/// depends on the others but as said.
pub proof fn law_words(s: State, start: u32, modifiers: ModifiersView)
    requires
        s.replies.len() > 0,
        s.replies[0].answer == AnswerView::Flag(false),
        !(here(s).kind == Kind::Static && !name_can_follow(s)),
        ({
            let a = if here(s).kind == Kind::Static {
                stepped(s)
            } else {
                s
            };
            here(a).kind == Kind::Async ==> next(a).kind == Kind::Question || (!next(
                a,
            ).is_on_new_line && name_can_follow(a))
        }),
    ensures
        s.member_start(start, modifiers) matches (_, Ok(StartView::Member(head, _, _))) ==> {
            let a = if here(s).kind == Kind::Static {
                stepped(s)
            } else {
                s
            };
            let b = State { cursor: s.replies[0].cursor, ..s };
            &&& head.is_static <==> super::base_laws::has(modifiers, ModifierKind::Static) || here(
                s,
            ).kind == Kind::Static
            &&& head.is_async <==> super::base_laws::has(modifiers, ModifierKind::Async) || (here(
                a,
            ).kind == Kind::Async && next(a).kind != Kind::Question)
            &&& head.generator <==> here(b).kind == Kind::Star
            &&& head.kind == MethodDefinitionKind::Getter <==> here(b).kind == Kind::GetWord
                && next(b).is_class_element_name_start && !head.is_async
            &&& head.kind == MethodDefinitionKind::Setter <==> here(b).kind == Kind::SetWord
                && next(b).is_class_element_name_start && !head.is_async
            &&& head.kind != MethodDefinitionKind::Constructor
        },
{
    law_member_start(s, start, modifiers);
    let first = modified_head(modifiers);
    law_static_word(s, first);
    lemma_here(s);
    let a = if here(s).kind == Kind::Static {
        stepped(s)
    } else {
        s
    };
    if !(here(s).kind == Kind::Static && next(s).kind == Kind::LCurly) {
        let second = s.static_word(first).1->Ok_0.0;
        law_async_word(a, second, None);
        let (c, third) = a.async_word(second, None);
        let head = third->Ok_0.0;
        law_index_signature(c, start, modifiers, head, None);
        let d = answered(c, Rule::AtTSIndexSignatureMember);
        law_member_name(d, head, None);
        lemma_here(d);
        lemma_words_of_name(d, head);
    }
}

/// What a name that is read here says of the words in front of it, however it is answered.
proof fn lemma_words_of_name(s: State, head: MemberHead)
    ensures
        s.member_name(head, None) matches (_, Ok(StartView::Member(found, _, _))) ==> found
            == worded(s, head),
{
    lemma_here(s);
}

/// The mark `?` stands behind a name.
pub open spec fn is_optional(s: State) -> bool {
    here(s).kind == Kind::Question
}

/// The state behind the mark `?`, if it stands here.
pub open spec fn behind_question(s: State) -> State {
    if is_optional(s) {
        stepped(s)
    } else {
        s
    }
}

/// The mark `!` stands behind a name, and behind `?` where that stands there.
pub open spec fn is_definite(s: State) -> bool {
    here(behind_question(s)).kind == Kind::Bang
}

/// The state behind the marks `?` and `!`.
pub open spec fn behind_marks(s: State) -> State {
    if is_definite(s) {
        stepped(behind_question(s))
    } else {
        behind_question(s)
    }
}

/// What is reported of any member: both marks, `const`, a modifier of accessibility in front of a
/// private name in TypeScript, and the private name `#constructor`; in this order.
pub open spec fn member_reports(
    s: State,
    modifiers: ModifiersView,
    key: KeyView,
) -> Seq<Diagnostic> {
    let question = here(s).span;
    let private = key.name is Private;
    super::base_laws::said(
        is_optional(s) && is_definite(s),
        Diagnostic::OptionalDefiniteProperty(
            Span {
                start: question.start,
                end: if question.end < u32::MAX {
                    (question.end + 1) as u32
                } else {
                    u32::MAX
                },
            },
        ),
    ) + super::base_laws::said(
        super::base_laws::has(modifiers, ModifierKind::Const),
        Diagnostic::ConstClassMember(key.node.span),
    ) + (if private && s.is_ts {
        ModifierPlace::PrivateMember.complaints(modifiers.list)
    } else {
        Seq::empty()
    }) + super::base_laws::said(
        key.name == KeyNameView::Private("constructor"@),
        Diagnostic::PrivateNameConstructor(key.node.span),
    )
}

/// What is reported of the name of a method: `static prototype` outside of declarations, and a
/// constructor that is a getter or setter, async, or a generator; in this order.
pub open spec fn method_reports(
    s: State,
    head: MemberHead,
    key: KeyView,
    computed: bool,
) -> Seq<Diagnostic> {
    let constructor = !head.is_static && super::base_laws::is_called(
        key,
        computed,
        "constructor"@,
    );
    let span = key.node.span;
    super::base_laws::said(
        head.is_static && super::base_laws::is_called(key, computed, "prototype"@)
            && !s.ctx.ambient,
        Diagnostic::StaticPrototype(span),
    ) + super::base_laws::said(
        constructor && (head.kind == MethodDefinitionKind::Getter || head.kind
            == MethodDefinitionKind::Setter),
        Diagnostic::ConstructorGetterSetter(span),
    ) + super::base_laws::said(
        constructor && head.is_async,
        Diagnostic::ConstructorAsync(span),
    ) + super::base_laws::said(
        constructor && head.generator,
        Diagnostic::ConstructorGenerator(span),
    )
}

/// What is reported of the name of a field: `constructor`, static or not, and `static prototype`
/// outside of declarations; in this order.
pub open spec fn field_reports(
    s: State,
    head: MemberHead,
    key: KeyView,
    computed: bool,
) -> Seq<Diagnostic> {
    super::base_laws::said(
        super::base_laws::is_called(key, computed, "constructor"@),
        Diagnostic::FieldConstructor(key.node.span),
    ) + super::base_laws::said(
        head.is_static && super::base_laws::is_called(key, computed, "prototype"@)
            && !s.ctx.ambient,
        Diagnostic::StaticPrototype(key.node.span),
    )
}

/// The same state with more reports.
pub open spec fn with_reports(s: State, reports: Seq<Diagnostic>) -> State {
    State { errors: s.errors + reports, ..s }
}

proof fn lemma_reported(s: State, reports: Seq<Diagnostic>, condition: bool, report: Diagnostic)
    ensures
        with_reports(s, reports).error_if(condition, report) == with_reports(
            s,
            reports + super::base_laws::said(condition, report),
        ),
{
    super::base_laws::law_errors(with_reports(s, reports), condition, report);
    assert(s.errors + reports + super::base_laws::said(condition, report) =~= s.errors + (reports
        + super::base_laws::said(condition, report)));
}

proof fn lemma_no_reports(s: State)
    ensures
        with_reports(s, Seq::empty()) == s,
{
    assert(s.errors + Seq::empty() =~= s.errors);
}

proof fn lemma_first_report(condition: bool, report: Diagnostic)
    ensures
        Seq::<Diagnostic>::empty() + super::base_laws::said(condition, report)
            == super::base_laws::said(condition, report),
{
    assert(Seq::<Diagnostic>::empty() + super::base_laws::said(condition, report)
        =~= super::base_laws::said(condition, report));
}

/// The reports on the names of methods and fields are those above, behind all others, and
/// nothing else changes.
pub proof fn law_name_reports(s: State, head: MemberHead, key: KeyView, computed: bool)
    ensures
        s.method_name_errors(head, key, computed) == with_reports(
            s,
            method_reports(s, head, key, computed),
        ),
        s.field_name_errors(head, key, computed) == with_reports(
            s,
            field_reports(s, head, key, computed),
        ),
{
    let span = key.node.span;
    let called = super::base_laws::is_called(key, computed, "constructor"@);
    let constructor = !head.is_static && called;
    let prototype = head.is_static && super::base_laws::is_called(key, computed, "prototype"@)
        && !s.ctx.ambient;
    let accessor = constructor && (head.kind == MethodDefinitionKind::Getter || head.kind
        == MethodDefinitionKind::Setter);
    let none = Seq::<Diagnostic>::empty();
    lemma_no_reports(s);
    let a = super::base_laws::said(prototype, Diagnostic::StaticPrototype(span));
    let b = a + super::base_laws::said(accessor, Diagnostic::ConstructorGetterSetter(span));
    let c = b + super::base_laws::said(
        constructor && head.is_async,
        Diagnostic::ConstructorAsync(span),
    );
    lemma_first_report(prototype, Diagnostic::StaticPrototype(span));
    lemma_reported(s, none, prototype, Diagnostic::StaticPrototype(span));
    lemma_reported(s, a, accessor, Diagnostic::ConstructorGetterSetter(span));
    lemma_reported(s, b, constructor && head.is_async, Diagnostic::ConstructorAsync(span));
    lemma_reported(s, c, constructor && head.generator, Diagnostic::ConstructorGenerator(span));
    let d = super::base_laws::said(called, Diagnostic::FieldConstructor(span));
    lemma_first_report(called, Diagnostic::FieldConstructor(span));
    lemma_reported(s, none, called, Diagnostic::FieldConstructor(span));
    lemma_reported(s, d, prototype, Diagnostic::StaticPrototype(span));
}

/// The marks behind a name are stepped over, and what there is to report of any member is
/// reported behind all else.
proof fn lemma_marks(s: State, modifiers: ModifiersView, key: KeyView)
    ensures
        ({
            let marked = s.eat(Kind::Question);
            let definite = marked.at(Kind::Bang);
            &&& s.optional_mark() is Some <==> is_optional(s)
            &&& s.optional_mark() matches Some(span) ==> span == here(s).span
            &&& definite == is_definite(s)
            &&& marked.eat(Kind::Bang) == behind_marks(s)
            &&& marked.eat(Kind::Bang).name_errors(modifiers, key, s.optional_mark(), definite)
                == with_reports(behind_marks(s), member_reports(s, modifiers, key))
        }),
{
    let optional = s.optional_mark();
    let marked = s.eat(Kind::Question);
    let definite = marked.at(Kind::Bang);
    lemma_here(s);
    lemma_here(marked);
    super::base_laws::law_advance(s, Kind::Question);
    super::base_laws::law_advance(marked, Kind::Bang);
    let t = marked.eat(Kind::Bang);
    assert(t == behind_marks(s));
    super::base_laws::law_contains(modifiers, ModifierKind::Const);
    let both = Diagnostic::OptionalDefiniteProperty(optional->0.expanded_right(1));
    let constant = Diagnostic::ConstClassMember(key.node.span);
    let private = Diagnostic::PrivateNameConstructor(key.node.span);
    let is_const = modifiers.contains(ModifierKind::Const);
    let none = Seq::<Diagnostic>::empty();
    lemma_no_reports(t);
    let a = super::base_laws::said(optional is Some && definite, both);
    let b = a + super::base_laws::said(is_const, constant);
    lemma_first_report(optional is Some && definite, both);
    lemma_reported(t, none, optional is Some && definite, both);
    lemma_reported(t, a, is_const, constant);
    let complaints = ModifierPlace::PrivateMember.complaints(modifiers.list);
    let checked = b + complaints;
    assert(with_reports(t, b).verify_modifiers(modifiers, ModifierPlace::PrivateMember)
        == with_reports(t, checked)) by {
        assert(t.errors + b + complaints =~= t.errors + checked);
    }
    let named = key.name == KeyNameView::Private("constructor"@);
    lemma_reported(t, b, named, private);
    lemma_reported(t, checked, named, private);
    assert(b + none =~= b);
    assert(b + super::base_laws::said(false, private) =~= b);
    if optional is Some && definite {
        super::base_laws::law_expanded_right(optional->0, 1);
    }
}

/// A member behind its name. With the modifier `accessor` it is an accessor property; else it is
/// a method where `(` or `<` follows, and where it is async or a generator; else a field, unless
/// it is a getter or setter, which the host parser is told of. Each is read with the marks, the
/// words and the modifiers that it has, behind the reports on its name.
pub proof fn law_member(
    s: State,
    start: u32,
    modifiers: ModifiersView,
    head: MemberHead,
    key: KeyView,
    computed: bool,
)
    ensures
        ({
            let step = s.member(start, modifiers, head, key, computed);
            let t = with_reports(behind_marks(s), member_reports(s, modifiers, key));
            let is_method = here(t).kind == Kind::LParen || here(t).kind == Kind::LAngle
                || head.is_async || head.generator;
            if super::base_laws::has(modifiers, ModifierKind::Accessor) {
                step == super::element::some_element(
                    with_reports(
                        t,
                        super::base_laws::said(
                            is_optional(s),
                            Diagnostic::OptionalAccessorProperty(here(s).span),
                        ),
                    ).class_accessor_property(
                        start,
                        key,
                        computed,
                        head.is_static,
                        is_definite(s),
                        modifiers,
                    ),
                )
            } else if is_method {
                step == super::element::some_element(
                    with_reports(
                        t,
                        method_reports(t, head, key, computed),
                    ).class_method_definition(
                        start,
                        head.kind,
                        key,
                        computed,
                        head.is_static,
                        head.is_async,
                        head.generator,
                        super::base_laws::has(modifiers, ModifierKind::Override),
                        super::base_laws::has(modifiers, ModifierKind::Abstract),
                        modifiers.accessibility,
                        is_optional(s),
                    ),
                )
            } else if head.kind == MethodDefinitionKind::Method {
                step == super::element::some_element(
                    with_reports(
                        t,
                        field_reports(t, head, key, computed),
                    ).class_property_definition(
                        start,
                        key,
                        computed,
                        head.is_static,
                        super::base_laws::has(modifiers, ModifierKind::Declare),
                        super::base_laws::has(modifiers, ModifierKind::Override),
                        super::base_laws::has(modifiers, ModifierKind::Readonly),
                        super::base_laws::has(modifiers, ModifierKind::Abstract),
                        modifiers.accessibility,
                        is_optional(s),
                        is_definite(s),
                    ),
                )
            } else {
                &&& s.replies.len() > 0 && s.replies[0].answer is Done ==> step == (
                    answered(t, Rule::Unexpected),
                    Ok::<Option<ElementView>, Stop>(None),
                )
                &&& s.replies.len() > 0 && s.replies[0].answer !is Done ==> step == (
                    answered(t, Rule::Unexpected),
                    Err::<Option<ElementView>, Stop>(Stop::Mismatch),
                )
                &&& s.replies.len() == 0 ==> step.1 == Err::<Option<ElementView>, Stop>(
                    Stop::Pending,
                )
            }
        }),
{
    let t = with_reports(behind_marks(s), member_reports(s, modifiers, key));
    lemma_marks(s, modifiers, key);
    lemma_here(t);
    law_name_reports(t, head, key, computed);
    super::base_laws::law_errors(
        t,
        is_optional(s),
        Diagnostic::OptionalAccessorProperty(here(s).span),
    );
    super::base_laws::law_ask(t, Rule::Unexpected, t.ctx);
    super::base_laws::law_contains(modifiers, ModifierKind::Accessor);
    super::base_laws::law_contains(modifiers, ModifierKind::Override);
    super::base_laws::law_contains(modifiers, ModifierKind::Abstract);
    super::base_laws::law_contains(modifiers, ModifierKind::Declare);
    super::base_laws::law_contains(modifiers, ModifierKind::Readonly);
}

/// A member that is read is the member that was read: nothing is made of it on the way.
pub proof fn law_some_element(step: super::state::Step<ElementView>)
    ensures
        super::element::some_element(step).0 == step.0,
        super::element::some_element(step).1 == (match step.1 {
            Ok(element) => Ok::<Option<ElementView>, Stop>(Some(element)),
            Err(stop) => Err(stop),
        }),
{
}

/// Semicolons in front of a member are stepped over, all of them and nothing else.
pub proof fn law_semicolons(s: State)
    ensures
        ({
            let later = s.skip_semicolons();
            &&& later == (State { cursor: later.cursor, ..s })
            &&& s.cursor.index <= later.cursor.index
            &&& here(later).kind != Kind::Semicolon
            &&& forall|i: int|
                s.cursor.index <= i < later.cursor.index ==> (#[trigger] super::base_laws::tok(
                    s,
                    i,
                )).kind == Kind::Semicolon
            &&& here(s).kind != Kind::Semicolon ==> later == s
            &&& here(s).kind == Kind::Semicolon ==> later.cursor.prev_token_end
                == super::base_laws::tok(s, later.cursor.index - 1).span.end
        }),
    decreases s.token_count() - s.cursor.index,
{
    lemma_here(s);
    if here(s).kind == Kind::Semicolon {
        let t = s.advance();
        lemma_here(t);
        law_semicolons(t);
        assert forall|i: int|
            s.cursor.index <= i < s.skip_semicolons().cursor.index implies (
        #[trigger] super::base_laws::tok(s, i)).kind == Kind::Semicolon by {
            if i != s.cursor.index {
                assert(super::base_laws::tok(t, i).kind == Kind::Semicolon);
            }
        }
    }
}

/// The next member of a class body: behind the semicolons there is none at `}`; else come the
/// modifiers, with whatever decorators stand among them, and the member behind them, which
/// starts where its modifiers start.
pub proof fn law_next_member(s: State)
    ensures
        ({
            let a = s.skip_semicolons();
            let rule = Rule::Modifiers {
                allow_decorators: true,
                permit_const_as_modifier: true,
                stop_on_start_of_class_static_block: true,
            };
            &&& here(a).kind == Kind::RCurly ==> s.class_element() == (
                a,
                Ok::<Option<ElementView>, Stop>(None),
            )
            &&& here(a).kind != Kind::RCurly && s.replies.len() > 0 ==> (
            s.replies[0].answer matches AnswerView::Modifiers { modifiers, decorators } ==> {
                let b = State { decorators: s.decorators + decorators, ..answered(a, rule) };
                match b.member_start(here(a).span.start, modifiers) {
                    (c, Ok(StartView::Element(element))) => s.class_element() == (
                        c,
                        Ok::<Option<ElementView>, Stop>(Some(element)),
                    ),
                    (c, Ok(StartView::Unexpected)) => s.class_element() == (
                        c,
                        Ok::<Option<ElementView>, Stop>(None),
                    ),
                    (c, Ok(StartView::Member(head, key, computed))) => s.class_element()
                        == c.member(here(a).span.start, modifiers, head, key, computed),
                    (c, Err(stop)) => s.class_element() == (
                        c,
                        Err::<Option<ElementView>, Stop>(stop),
                    ),
                }
            })
        }),
{
    let a = s.skip_semicolons();
    let rule = Rule::Modifiers {
        allow_decorators: true,
        permit_const_as_modifier: true,
        stop_on_start_of_class_static_block: true,
    };
    law_semicolons(s);
    lemma_here(a);
    super::base_laws::law_ask(a, rule, a.ctx);
    super::base_laws::law_ask_modifiers(a, rule);
}

/// What comes of a member however it is read: a method keeps the kind that its words gave it,
/// unless it is the constructor, and its words, its marks and its modifiers are its own; a field
/// is no getter or setter; an accessor property has the modifier `accessor`.
pub proof fn law_member_is(
    s: State,
    start: u32,
    modifiers: ModifiersView,
    head: MemberHead,
    key: KeyView,
    computed: bool,
)
    ensures
        s.member(start, modifiers, head, key, computed) matches (_, Ok(Some(element)))
            ==> match element {
            ElementView::MethodDefinition(method) => {
                &&& !super::base_laws::has(modifiers, ModifierKind::Accessor)
                &&& method.kind == if !head.is_static && super::base_laws::is_called(
                    key,
                    computed,
                    "constructor"@,
                ) {
                    MethodDefinitionKind::Constructor
                } else {
                    head.kind
                }
                &&& method.key == key
                &&& method.computed == computed
                &&& method.span.start == start
                &&& method.decorators == s.decorators
                &&& method.is_static == head.is_static
                &&& method.optional == is_optional(s)
                &&& method.is_override == super::base_laws::has(modifiers, ModifierKind::Override)
                &&& method.is_abstract == super::base_laws::has(modifiers, ModifierKind::Abstract)
                &&& method.accessibility == modifiers.accessibility
            },
            ElementView::PropertyDefinition(field) => {
                &&& !super::base_laws::has(modifiers, ModifierKind::Accessor)
                &&& head.kind == MethodDefinitionKind::Method
                &&& !head.is_async && !head.generator
                &&& field.key == key
                &&& field.computed == computed
                &&& field.span.start == start
                &&& field.decorators == s.decorators
                &&& field.is_static == head.is_static
                &&& field.optional == is_optional(s)
                &&& field.definite == is_definite(s)
                &&& field.declare == super::base_laws::has(modifiers, ModifierKind::Declare)
                &&& field.is_override == super::base_laws::has(modifiers, ModifierKind::Override)
                &&& field.readonly == super::base_laws::has(modifiers, ModifierKind::Readonly)
                &&& field.accessibility == modifiers.accessibility
            },
            ElementView::AccessorProperty(_) => super::base_laws::has(
                modifiers,
                ModifierKind::Accessor,
            ),
            _ => false,
        },
{
    law_member(s, start, modifiers, head, key, computed);
    lemma_marks(s, modifiers, key);
    super::base_laws::law_contains(modifiers, ModifierKind::Accessor);
    super::base_laws::law_contains(modifiers, ModifierKind::Override);
    super::base_laws::law_contains(modifiers, ModifierKind::Abstract);
    super::base_laws::law_contains(modifiers, ModifierKind::Declare);
    super::base_laws::law_contains(modifiers, ModifierKind::Readonly);
}

/// A method of a class that is not the constructor is a getter if and only if the word `get`
/// stands in front of its name as a word of its own, a setter likewise, and a plain method
/// otherwise; whether it is static or not. Behind `async` these words are names.
pub proof fn law_getters_and_setters(s: State, a: State, modifiers: ModifiersView)
    requires
        here(s).kind != Kind::Semicolon,
        here(s).kind != Kind::RCurly,
        s.replies.len() > 1,
        s.replies[0].answer matches AnswerView::Modifiers { modifiers: given, .. } && given
            == modifiers,
        s.replies[1].answer == AnswerView::Flag(false),
        a == (State { cursor: s.replies[0].cursor, ..s }),
        !(here(a).kind == Kind::Static && !name_can_follow(a)),
        ({
            let b = if here(a).kind == Kind::Static {
                stepped(a)
            } else {
                a
            };
            here(b).kind == Kind::Async ==> next(b).kind == Kind::Question || (!next(
                b,
            ).is_on_new_line && name_can_follow(b))
        }),
    ensures
        s.class_element() matches (_, Ok(Some(ElementView::MethodDefinition(method)))) ==> {
            let b = if here(a).kind == Kind::Static {
                stepped(a)
            } else {
                a
            };
            let c = State { cursor: s.replies[1].cursor, ..s };
            let is_async = super::base_laws::has(modifiers, ModifierKind::Async) || (here(b).kind
                == Kind::Async && next(b).kind != Kind::Question);
            let worded = next(c).is_class_element_name_start && !is_async;
            let constructor = !method.is_static && super::base_laws::is_called(
                method.key,
                method.computed,
                "constructor"@,
            );
            &&& method.is_static <==> super::base_laws::has(modifiers, ModifierKind::Static)
                || here(a).kind == Kind::Static
            &&& method.kind == if constructor {
                MethodDefinitionKind::Constructor
            } else if here(c).kind == Kind::GetWord && worded {
                MethodDefinitionKind::Getter
            } else if here(c).kind == Kind::SetWord && worded {
                MethodDefinitionKind::Setter
            } else {
                MethodDefinitionKind::Method
            }
        },
{
    let rule = Rule::Modifiers {
        allow_decorators: true,
        permit_const_as_modifier: true,
        stop_on_start_of_class_static_block: true,
    };
    let start = here(s).span.start;
    law_semicolons(s);
    law_next_member(s);
    if let AnswerView::Modifiers { modifiers: _, decorators } = s.replies[0].answer {
        let b = State { decorators: s.decorators + decorators, ..answered(s, rule) };
        law_words(b, start, modifiers);
        match b.member_start(start, modifiers) {
            (c, Ok(StartView::Member(head, key, computed))) => {
                law_member_is(c, start, modifiers, head, key, computed);
            },
            (_, Ok(StartView::Element(element))) => {
                law_member_start(b, start, modifiers);
                lemma_start_is_no_method(b, start, modifiers);
            },
            _ => {},
        }
    }
}

/// What is read without a name is no method.
proof fn lemma_start_is_no_method(s: State, start: u32, modifiers: ModifiersView)
    ensures
        s.member_start(start, modifiers) matches (_, Ok(StartView::Element(element))) ==> !(
        element is MethodDefinition),
{
}

} // verus!
