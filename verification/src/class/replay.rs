//! Parsing again with more replies.
//!
//! The host parser is asked for one part at a time: parsing runs until a reply is wanting, the
//! host parser makes that part, and parsing starts over with one reply more. This is sound
//! because parsing again goes the same way as before as far as the replies reached.
use super::declaration::StatementContext;
use super::element::{MemberHead, StartView};
use super::heritage::HeritageView;
use super::host::{Context, ReplyView, Rule, Stop};
use super::modifiers::{ModifierKind, ModifierPlace, ModifiersView};
use super::state::{State, Step};
use super::syntax::{
    ClassType, Diagnostic, ElementView, Function, KeyView, Kind, MethodDefinitionKind,
    TSAccessibility,
};
use crate::span::Span;
use vstd::prelude::*;

verus! {

impl State {
    /// The same state, with more replies behind those that it has.
    pub open spec fn more(self, extra: Seq<ReplyView>) -> State {
        State { replies: self.replies + extra, ..self }
    }
}

/// A step that is taken again with more replies. If it ended for want of a reply, it asks the
/// same again, and may go on from there. If not, it does the same again and leaves the
/// additional replies alone.
pub open spec fn replayed<T>(step: Step<T>, again: Step<T>, extra: Seq<ReplyView>) -> bool {
    if step.1 is Err && step.1->Err_0 == Stop::Pending {
        &&& step.0.requests.len() <= again.0.requests.len()
        &&& again.0.requests.take(step.0.requests.len() as int) == step.0.requests
    } else {
        again == (step.0.more(extra), step.1)
    }
}

proof fn lemma_ask_replays(s: State, rule: Rule, ctx: Context, extra: Seq<ReplyView>)
    ensures
        replayed(s.ask_in(rule, ctx), s.more(extra).ask_in(rule, ctx), extra),
{
    let step = s.ask_in(rule, ctx);
    let again = s.more(extra).ask_in(rule, ctx);
    if s.replies.len() == 0 {
        assert(again.0.requests.take(step.0.requests.len() as int) =~= step.0.requests);
    } else {
        assert((s.replies + extra).drop_first() =~= s.replies.drop_first() + extra);
    }
}

/// What was asked in one state has been asked in the later one too.
pub open spec fn grown(s: State, later: State) -> bool {
    &&& s.requests.len() <= later.requests.len()
    &&& later.requests.take(s.requests.len() as int) == s.requests
}

proof fn lemma_grown_chain(a: State, b: State, c: State)
    requires
        grown(a, b),
        grown(b, c),
    ensures
        grown(a, c),
{
    assert(c.requests.take(a.requests.len() as int) =~= c.requests.take(
        b.requests.len() as int,
    ).take(a.requests.len() as int));
}

proof fn lemma_grown_by<T>(s: State, step: Step<T>)
    requires
        super::progress::keeps(s, step),
    ensures
        grown(s, step.0),
{
    if step.1 is Err && step.1->Err_0 == Stop::Pending {
        assert(step.0.requests.drop_last().take(s.requests.len() as int) =~= step.0.requests.take(
            s.requests.len() as int,
        ));
    }
}

proof fn lemma_grown_same(s: State, later: State)
    requires
        later.requests == s.requests,
    ensures
        grown(s, later),
{
    assert(s.requests.take(s.requests.len() as int) =~= s.requests);
}

/// Two steps in a row: the whole is replayed if the first is, and the rest behind it.
proof fn lemma_replays_then<T, U>(
    first: Step<T>,
    first_again: Step<T>,
    whole: Step<U>,
    whole_again: Step<U>,
    extra: Seq<ReplyView>,
)
    requires
        replayed(first, first_again, extra),
        first.1 matches Err(stop) ==> whole == (first.0, Err::<U, Stop>(stop)),
        first_again.1 matches Err(stop) ==> whole_again == (first_again.0, Err::<U, Stop>(stop)),
        first_again.1 is Ok ==> grown(first_again.0, whole_again.0),
        first.1 is Ok ==> replayed(whole, whole_again, extra),
    ensures
        replayed(whole, whole_again, extra),
{
    if first.1 is Err && first.1->Err_0 == Stop::Pending && first_again.1 is Ok {
        lemma_grown_chain(first.0, first_again.0, whole_again.0);
    }
}

proof fn lemma_class_element_name_replays(s: State, extra: Seq<ReplyView>)
    ensures
        replayed(s.class_element_name(), s.more(extra).class_element_name(), extra),
{
    lemma_ask_replays(s, Rule::PrivateIdentifier, s.ctx, extra);
    lemma_ask_replays(s, Rule::PropertyName, s.ctx, extra);
}

proof fn lemma_type_annotation_replays(s: State, extra: Seq<ReplyView>)
    ensures
        replayed(s.type_annotation(), s.more(extra).type_annotation(), extra),
{
    lemma_ask_replays(s, Rule::TSTypeAnnotation, s.ctx, extra);
}

proof fn lemma_initializers_replay(s: State, extra: Seq<ReplyView>)
    ensures
        replayed(s.field_initializer(), s.more(extra).field_initializer(), extra),
        replayed(s.accessor_initializer(), s.more(extra).accessor_initializer(), extra),
{
    assert(s.more(extra).advance() == s.advance().more(extra));
    lemma_ask_replays(s.advance(), Rule::Expr, s.ctx.initializer_spec(), extra);
    lemma_ask_replays(s.advance(), Rule::AssignmentExpressionOrHigher, s.ctx, extra);
}

proof fn lemma_error_if_more(
    s: State,
    reported: bool,
    diagnostic: Diagnostic,
    extra: Seq<ReplyView>,
)
    ensures
        s.more(extra).error_if(reported, diagnostic) == s.error_if(reported, diagnostic).more(
            extra,
        ),
{
}

proof fn lemma_constructor_errors_more(
    s: State,
    value: Function,
    key: KeyView,
    is_static: bool,
    extra: Seq<ReplyView>,
)
    ensures
        s.more(extra).constructor_errors(value, key, is_static) == s.constructor_errors(
            value,
            key,
            is_static,
        ).more(extra),
{
    let this_param = Diagnostic::TSConstructorThisParameter(value.this_param->0);
    let type_parameters = Diagnostic::TSConstructorTypeParameter(value.type_parameters->0);
    let a = s.error_if(value.this_param is Some, this_param);
    let b = a.error_if(value.type_parameters is Some, type_parameters);
    lemma_error_if_more(s, value.this_param is Some, this_param, extra);
    lemma_error_if_more(a, value.type_parameters is Some, type_parameters, extra);
    lemma_error_if_more(b, is_static, Diagnostic::StaticConstructor(key.node.span), extra);
}

proof fn lemma_constructor_errors_ask_nothing(
    s: State,
    value: Function,
    key: KeyView,
    is_static: bool,
)
    ensures
        s.constructor_errors(value, key, is_static).requests == s.requests,
{
}

proof fn lemma_class_method_definition_replays(
    s: State,
    start: u32,
    kind: MethodDefinitionKind,
    key: KeyView,
    computed: bool,
    is_static: bool,
    is_async: bool,
    generator: bool,
    is_override: bool,
    is_abstract: bool,
    accessibility: Option<TSAccessibility>,
    optional: bool,
    extra: Seq<ReplyView>,
)
    ensures
        replayed(
            s.class_method_definition(
                start,
                kind,
                key,
                computed,
                is_static,
                is_async,
                generator,
                is_override,
                is_abstract,
                accessibility,
                optional,
            ),
            s.more(extra).class_method_definition(
                start,
                kind,
                key,
                computed,
                is_static,
                is_async,
                generator,
                is_override,
                is_abstract,
                accessibility,
                optional,
            ),
            extra,
        ),
{
    let rule = Rule::Method { is_async, generator };
    let bare = s.without_decorators();
    assert(s.more(extra).without_decorators() == bare.more(extra));
    lemma_ask_replays(bare, rule, s.ctx, extra);
    let asked = bare.ask_function(rule);
    let asked_again = bare.more(extra).ask_function(rule);
    let whole = s.class_method_definition(
        start,
        kind,
        key,
        computed,
        is_static,
        is_async,
        generator,
        is_override,
        is_abstract,
        accessibility,
        optional,
    );
    let whole_again = s.more(extra).class_method_definition(
        start,
        kind,
        key,
        computed,
        is_static,
        is_async,
        generator,
        is_override,
        is_abstract,
        accessibility,
        optional,
    );
    if let (a, Ok(value)) = asked_again {
        lemma_constructor_errors_ask_nothing(a, value, key, is_static);
        lemma_grown_same(a, whole_again.0);
    }
    if let (a, Ok(value)) = asked {
        lemma_constructor_errors_more(a, value, key, is_static, extra);
        assert(replayed(whole, whole_again, extra));
    }
    lemma_replays_then(asked, asked_again, whole, whole_again, extra);
}

proof fn lemma_class_property_definition_replays(
    s: State,
    start: u32,
    key: KeyView,
    computed: bool,
    is_static: bool,
    declare: bool,
    is_override: bool,
    readonly: bool,
    is_abstract: bool,
    accessibility: Option<TSAccessibility>,
    optional: bool,
    definite: bool,
    extra: Seq<ReplyView>,
)
    ensures
        replayed(
            s.class_property_definition(
                start,
                key,
                computed,
                is_static,
                declare,
                is_override,
                readonly,
                is_abstract,
                accessibility,
                optional,
                definite,
            ),
            s.more(extra).class_property_definition(
                start,
                key,
                computed,
                is_static,
                declare,
                is_override,
                readonly,
                is_abstract,
                accessibility,
                optional,
                definite,
            ),
            extra,
        ),
{
    let whole = s.class_property_definition(
        start,
        key,
        computed,
        is_static,
        declare,
        is_override,
        readonly,
        is_abstract,
        accessibility,
        optional,
        definite,
    );
    let whole_again = s.more(extra).class_property_definition(
        start,
        key,
        computed,
        is_static,
        declare,
        is_override,
        readonly,
        is_abstract,
        accessibility,
        optional,
        definite,
    );
    let first = s.type_annotation();
    let first_again = s.more(extra).type_annotation();
    lemma_type_annotation_replays(s, extra);
    if let (a, Ok(_)) = first_again {
        let bare = a.without_decorators();
        let second = bare.field_initializer();
        super::progress::lemma_field_initializer_keeps(bare);
        lemma_grown_by(bare, second);
        if let (b, Ok(_)) = second {
            super::progress::lemma_ask_keeps(b, Rule::Asi, b.ctx);
            lemma_grown_by(b, b.ask(Rule::Asi));
            lemma_grown_chain(bare, b, whole_again.0);
        }
        lemma_grown_same(a, bare);
        lemma_grown_chain(a, bare, whole_again.0);
    }
    if let (a, Ok(_)) = first {
        let bare = a.without_decorators();
        assert(a.more(extra).without_decorators() == bare.more(extra));
        let second = bare.field_initializer();
        let second_again = bare.more(extra).field_initializer();
        lemma_initializers_replay(bare, extra);
        if let (b, Ok(_)) = second_again {
            super::progress::lemma_ask_keeps(b, Rule::Asi, b.ctx);
            lemma_grown_by(b, b.ask(Rule::Asi));
        }
        if let (b, Ok(_)) = second {
            lemma_ask_replays(b, Rule::Asi, b.ctx, extra);
        }
        lemma_replays_then(second, second_again, whole, whole_again, extra);
    }
    lemma_replays_then(first, first_again, whole, whole_again, extra);
}

proof fn lemma_class_accessor_property_replays(
    s: State,
    start: u32,
    key: KeyView,
    computed: bool,
    is_static: bool,
    definite: bool,
    modifiers: ModifiersView,
    extra: Seq<ReplyView>,
)
    ensures
        replayed(
            s.class_accessor_property(start, key, computed, is_static, definite, modifiers),
            s.more(extra).class_accessor_property(
                start,
                key,
                computed,
                is_static,
                definite,
                modifiers,
            ),
            extra,
        ),
{
    let whole = s.class_accessor_property(start, key, computed, is_static, definite, modifiers);
    let whole_again = s.more(extra).class_accessor_property(
        start,
        key,
        computed,
        is_static,
        definite,
        modifiers,
    );
    let first = s.type_annotation();
    let first_again = s.more(extra).type_annotation();
    lemma_type_annotation_replays(s, extra);
    if let (a, Ok(_)) = first_again {
        let second = a.accessor_initializer();
        super::progress::lemma_accessor_initializer_keeps(a);
        lemma_grown_by(a, second);
        if let (b, Ok(_)) = second {
            super::progress::lemma_ask_keeps(b, Rule::Asi, b.ctx);
            lemma_grown_by(b, b.ask(Rule::Asi));
            lemma_grown_same(b.ask(Rule::Asi).0, whole_again.0);
            lemma_grown_chain(b, b.ask(Rule::Asi).0, whole_again.0);
            lemma_grown_chain(a, b, whole_again.0);
        }
    }
    if let (a, Ok(_)) = first {
        let second = a.accessor_initializer();
        let second_again = a.more(extra).accessor_initializer();
        lemma_initializers_replay(a, extra);
        if let (b, Ok(_)) = second_again {
            super::progress::lemma_ask_keeps(b, Rule::Asi, b.ctx);
            lemma_grown_by(b, b.ask(Rule::Asi));
            lemma_grown_same(b.ask(Rule::Asi).0, whole_again.0);
            lemma_grown_chain(b, b.ask(Rule::Asi).0, whole_again.0);
        }
        if let (b, Ok(_)) = second {
            lemma_ask_replays(b, Rule::Asi, b.ctx, extra);
        }
        lemma_replays_then(second, second_again, whole, whole_again, extra);
    }
    lemma_replays_then(first, first_again, whole, whole_again, extra);
}

proof fn lemma_class_static_block_replays(s: State, start: u32, extra: Seq<ReplyView>)
    ensures
        replayed(s.class_static_block(start), s.more(extra).class_static_block(start), extra),
{
    lemma_ask_replays(s, Rule::Block, s.ctx.static_block_spec(), extra);
}

proof fn lemma_words_replay(
    s: State,
    head: MemberHead,
    name: Option<(KeyView, bool)>,
    extra: Seq<ReplyView>,
)
    ensures
        replayed(s.static_word(head), s.more(extra).static_word(head), extra),
        replayed(s.async_word(head, name), s.more(extra).async_word(head, name), extra),
{
    assert(s.more(extra).advance() == s.advance().more(extra));
    lemma_class_element_name_replays(s, extra);
}

proof fn lemma_member_name_replays(
    s: State,
    head: MemberHead,
    name: Option<(KeyView, bool)>,
    extra: Seq<ReplyView>,
)
    ensures
        replayed(s.member_name(head, name), s.more(extra).member_name(head, name), extra),
{
    assert(s.more(extra).advance() == s.advance().more(extra));
    lemma_class_element_name_replays(s, extra);
    lemma_class_element_name_replays(s.advance(), extra);
    lemma_ask_replays(s, Rule::Unexpected, s.ctx, extra);
}

proof fn lemma_index_signature_or_name_replays(
    s: State,
    start: u32,
    modifiers: ModifiersView,
    head: MemberHead,
    name: Option<(KeyView, bool)>,
    extra: Seq<ReplyView>,
)
    ensures
        replayed(
            s.index_signature_or_name(start, modifiers, head, name),
            s.more(extra).index_signature_or_name(start, modifiers, head, name),
            extra,
        ),
{
    let question = Rule::AtTSIndexSignatureMember;
    let rule = Rule::IndexSignatureDeclaration { start, modifiers: modifiers.id };
    let whole = s.index_signature_or_name(start, modifiers, head, name);
    let whole_again = s.more(extra).index_signature_or_name(start, modifiers, head, name);
    let first = s.ask_flag(question);
    let first_again = s.more(extra).ask_flag(question);
    lemma_ask_replays(s, question, s.ctx, extra);
    if let (a, Ok(found)) = first_again {
        if found {
            super::progress::lemma_ask_keeps(a, rule, a.ctx);
            lemma_grown_by(a, a.ask(rule));
        } else {
            super::progress::lemma_member_name_keeps(a, head, name);
            lemma_grown_by(a, a.member_name(head, name));
        }
    }
    if let (a, Ok(found)) = first {
        if found {
            lemma_ask_replays(a, rule, a.ctx, extra);
        } else {
            lemma_member_name_replays(a, head, name, extra);
        }
    }
    lemma_replays_then(first, first_again, whole, whole_again, extra);
}

proof fn lemma_member_start_replays(
    s: State,
    start: u32,
    modifiers: ModifiersView,
    extra: Seq<ReplyView>,
)
    ensures
        replayed(
            s.member_start(start, modifiers),
            s.more(extra).member_start(start, modifiers),
            extra,
        ),
{
    let head = MemberHead {
        kind: MethodDefinitionKind::Method,
        is_static: modifiers.contains(ModifierKind::Static),
        is_async: modifiers.contains(ModifierKind::Async),
        generator: false,
    };
    let whole = s.member_start(start, modifiers);
    let whole_again = s.more(extra).member_start(start, modifiers);
    assert(s.more(extra).advance() == s.advance().more(extra));
    if s.at(Kind::Static) && s.peek_at(Kind::LCurly) {
        lemma_class_static_block_replays(s.advance(), start, extra);
    } else {
        let first = s.static_word(head);
        let first_again = s.more(extra).static_word(head);
        lemma_words_replay(s, head, None, extra);
        if let (a, Ok((head, name))) = first_again {
            lemma_words_grow(a, start, modifiers, head, name);
        }
        if let (a, Ok((head, name))) = first {
            let second = a.async_word(head, name);
            let second_again = a.more(extra).async_word(head, name);
            lemma_words_replay(a, head, name, extra);
            if let (b, Ok((head, name))) = second_again {
                super::progress::lemma_index_signature_or_name_keeps(
                    b,
                    start,
                    modifiers,
                    head,
                    name,
                );
                lemma_grown_by(b, whole_again);
            }
            if let (b, Ok((head, name))) = second {
                lemma_index_signature_or_name_replays(b, start, modifiers, head, name, extra);
            }
            lemma_replays_then(second, second_again, whole, whole_again, extra);
        }
        lemma_replays_then(first, first_again, whole, whole_again, extra);
    }
}

proof fn lemma_words_grow(
    s: State,
    start: u32,
    modifiers: ModifiersView,
    head: MemberHead,
    name: Option<(KeyView, bool)>,
)
    ensures
        grown(s, s.async_word(head, name).0),
        s.async_word(head, name) matches (a, Ok((head, name))) ==> grown(
            s,
            a.index_signature_or_name(start, modifiers, head, name).0,
        ),
{
    super::progress::lemma_async_word_keeps(s, head, name);
    lemma_grown_by(s, s.async_word(head, name));
    if let (a, Ok((head, name))) = s.async_word(head, name) {
        super::progress::lemma_index_signature_or_name_keeps(a, start, modifiers, head, name);
        lemma_grown_by(a, a.index_signature_or_name(start, modifiers, head, name));
        lemma_grown_chain(s, a, a.index_signature_or_name(start, modifiers, head, name).0);
    }
}

proof fn lemma_verify_modifiers_more(
    s: State,
    modifiers: ModifiersView,
    place: ModifierPlace,
    extra: Seq<ReplyView>,
)
    ensures
        s.more(extra).verify_modifiers(modifiers, place) == s.verify_modifiers(
            modifiers,
            place,
        ).more(extra),
{
}

proof fn lemma_name_errors_more(
    s: State,
    modifiers: ModifiersView,
    key: KeyView,
    optional: Option<Span>,
    definite: bool,
    extra: Seq<ReplyView>,
)
    ensures
        s.more(extra).name_errors(modifiers, key, optional, definite) == s.name_errors(
            modifiers,
            key,
            optional,
            definite,
        ).more(extra),
{
    let both = Diagnostic::OptionalDefiniteProperty(optional->0.expanded_right(1));
    let constant = Diagnostic::ConstClassMember(key.node.span);
    let private = Diagnostic::PrivateNameConstructor(key.node.span);
    let a = s.error_if(optional is Some && definite, both);
    let b = a.error_if(modifiers.contains(ModifierKind::Const), constant);
    let c = if s.is_ts {
        b.verify_modifiers(modifiers, ModifierPlace::PrivateMember)
    } else {
        b
    };
    lemma_error_if_more(s, optional is Some && definite, both, extra);
    lemma_error_if_more(a, modifiers.contains(ModifierKind::Const), constant, extra);
    lemma_verify_modifiers_more(b, modifiers, ModifierPlace::PrivateMember, extra);
    lemma_error_if_more(c, true, private, extra);
    lemma_error_if_more(c, false, private, extra);
}

proof fn lemma_method_name_errors_more(
    s: State,
    head: MemberHead,
    key: KeyView,
    computed: bool,
    extra: Seq<ReplyView>,
)
    ensures
        s.more(extra).method_name_errors(head, key, computed) == s.method_name_errors(
            head,
            key,
            computed,
        ).more(extra),
{
    let is_constructor = !head.is_static && super::members::names_constructor(key, computed);
    let prototype = head.is_static && super::members::names_prototype(key, computed)
        && !s.ctx.ambient;
    let accessor = is_constructor && (head.kind == MethodDefinitionKind::Getter || head.kind
        == MethodDefinitionKind::Setter);
    let span = key.node.span;
    let a = s.error_if(prototype, Diagnostic::StaticPrototype(span));
    let b = a.error_if(accessor, Diagnostic::ConstructorGetterSetter(span));
    let c = b.error_if(is_constructor && head.is_async, Diagnostic::ConstructorAsync(span));
    lemma_error_if_more(s, prototype, Diagnostic::StaticPrototype(span), extra);
    lemma_error_if_more(a, accessor, Diagnostic::ConstructorGetterSetter(span), extra);
    lemma_error_if_more(
        b,
        is_constructor && head.is_async,
        Diagnostic::ConstructorAsync(span),
        extra,
    );
    lemma_error_if_more(
        c,
        is_constructor && head.generator,
        Diagnostic::ConstructorGenerator(span),
        extra,
    );
}

proof fn lemma_field_name_errors_more(
    s: State,
    head: MemberHead,
    key: KeyView,
    computed: bool,
    extra: Seq<ReplyView>,
)
    ensures
        s.more(extra).field_name_errors(head, key, computed) == s.field_name_errors(
            head,
            key,
            computed,
        ).more(extra),
{
    let constructor = super::members::names_constructor(key, computed);
    let prototype = head.is_static && super::members::names_prototype(key, computed)
        && !s.ctx.ambient;
    let span = key.node.span;
    let a = s.error_if(constructor, Diagnostic::FieldConstructor(span));
    lemma_error_if_more(s, constructor, Diagnostic::FieldConstructor(span), extra);
    lemma_error_if_more(a, prototype, Diagnostic::StaticPrototype(span), extra);
}

proof fn lemma_accessor_member_replays(
    s: State,
    start: u32,
    modifiers: ModifiersView,
    head: MemberHead,
    key: KeyView,
    computed: bool,
    optional: Option<Span>,
    definite: bool,
    extra: Seq<ReplyView>,
)
    ensures
        replayed(
            s.accessor_member(start, modifiers, head, key, computed, optional, definite),
            s.more(extra).accessor_member(
                start,
                modifiers,
                head,
                key,
                computed,
                optional,
                definite,
            ),
            extra,
        ),
{
    let complaint = Diagnostic::OptionalAccessorProperty(optional->0);
    lemma_error_if_more(s, optional is Some, complaint, extra);
    lemma_class_accessor_property_replays(
        s.error_if(optional is Some, complaint),
        start,
        key,
        computed,
        head.is_static,
        definite,
        modifiers,
        extra,
    );
}

proof fn lemma_method_member_replays(
    s: State,
    start: u32,
    modifiers: ModifiersView,
    head: MemberHead,
    key: KeyView,
    computed: bool,
    optional: bool,
    extra: Seq<ReplyView>,
)
    ensures
        replayed(
            s.method_member(start, modifiers, head, key, computed, optional),
            s.more(extra).method_member(start, modifiers, head, key, computed, optional),
            extra,
        ),
{
    lemma_method_name_errors_more(s, head, key, computed, extra);
    lemma_class_method_definition_replays(
        s.method_name_errors(head, key, computed),
        start,
        head.kind,
        key,
        computed,
        head.is_static,
        head.is_async,
        head.generator,
        modifiers.contains(ModifierKind::Override),
        modifiers.contains(ModifierKind::Abstract),
        modifiers.accessibility,
        optional,
        extra,
    );
}

proof fn lemma_field_member_replays(
    s: State,
    start: u32,
    modifiers: ModifiersView,
    head: MemberHead,
    key: KeyView,
    computed: bool,
    optional: bool,
    definite: bool,
    extra: Seq<ReplyView>,
)
    ensures
        replayed(
            s.field_member(start, modifiers, head, key, computed, optional, definite),
            s.more(extra).field_member(start, modifiers, head, key, computed, optional, definite),
            extra,
        ),
{
    lemma_field_name_errors_more(s, head, key, computed, extra);
    lemma_class_property_definition_replays(
        s.field_name_errors(head, key, computed),
        start,
        key,
        computed,
        head.is_static,
        modifiers.contains(ModifierKind::Declare),
        modifiers.contains(ModifierKind::Override),
        modifiers.contains(ModifierKind::Readonly),
        modifiers.contains(ModifierKind::Abstract),
        modifiers.accessibility,
        optional,
        definite,
        extra,
    );
}

proof fn lemma_some_element_replays(
    step: Step<ElementView>,
    again: Step<ElementView>,
    extra: Seq<ReplyView>,
)
    requires
        replayed(step, again, extra),
    ensures
        replayed(super::element::some_element(step), super::element::some_element(again), extra),
{
}

proof fn lemma_marked_member_replays(
    s: State,
    start: u32,
    modifiers: ModifiersView,
    head: MemberHead,
    key: KeyView,
    computed: bool,
    optional: Option<Span>,
    definite: bool,
    extra: Seq<ReplyView>,
)
    ensures
        replayed(
            s.marked_member(start, modifiers, head, key, computed, optional, definite),
            s.more(extra).marked_member(start, modifiers, head, key, computed, optional, definite),
            extra,
        ),
{
    if modifiers.contains(ModifierKind::Accessor) {
        let step = s.accessor_member(start, modifiers, head, key, computed, optional, definite);
        let again = s.more(extra).accessor_member(
            start,
            modifiers,
            head,
            key,
            computed,
            optional,
            definite,
        );
        lemma_accessor_member_replays(
            s,
            start,
            modifiers,
            head,
            key,
            computed,
            optional,
            definite,
            extra,
        );
        lemma_some_element_replays(step, again, extra);
    } else if s.at(Kind::LParen) || s.at(Kind::LAngle) || head.is_async || head.generator {
        let optional = optional is Some;
        let step = s.method_member(start, modifiers, head, key, computed, optional);
        let again = s.more(extra).method_member(start, modifiers, head, key, computed, optional);
        lemma_method_member_replays(s, start, modifiers, head, key, computed, optional, extra);
        lemma_some_element_replays(step, again, extra);
    } else if head.kind != MethodDefinitionKind::Method {
        lemma_ask_replays(s, Rule::Unexpected, s.ctx, extra);
    } else {
        let optional = optional is Some;
        let step = s.field_member(start, modifiers, head, key, computed, optional, definite);
        let again = s.more(extra).field_member(
            start,
            modifiers,
            head,
            key,
            computed,
            optional,
            definite,
        );
        lemma_field_member_replays(
            s,
            start,
            modifiers,
            head,
            key,
            computed,
            optional,
            definite,
            extra,
        );
        lemma_some_element_replays(step, again, extra);
    }
}

proof fn lemma_member_replays(
    s: State,
    start: u32,
    modifiers: ModifiersView,
    head: MemberHead,
    key: KeyView,
    computed: bool,
    extra: Seq<ReplyView>,
)
    ensures
        replayed(
            s.member(start, modifiers, head, key, computed),
            s.more(extra).member(start, modifiers, head, key, computed),
            extra,
        ),
{
    let optional = s.optional_mark();
    let marked = s.eat(Kind::Question);
    let definite = marked.at(Kind::Bang);
    let a = marked.eat(Kind::Bang);
    assert(s.more(extra).advance() == s.advance().more(extra));
    assert(s.more(extra).optional_mark() == optional);
    assert(s.more(extra).eat(Kind::Question) == marked.more(extra));
    assert(marked.more(extra).advance() == marked.advance().more(extra));
    assert(marked.more(extra).eat(Kind::Bang) == a.more(extra));
    lemma_name_errors_more(a, modifiers, key, optional, definite, extra);
    lemma_marked_member_replays(
        a.name_errors(modifiers, key, optional, definite),
        start,
        modifiers,
        head,
        key,
        computed,
        optional,
        definite,
        extra,
    );
}

proof fn lemma_modified_element_replays(
    s: State,
    start: u32,
    modifiers: ModifiersView,
    extra: Seq<ReplyView>,
)
    ensures
        replayed(
            s.modified_element(start, modifiers),
            s.more(extra).modified_element(start, modifiers),
            extra,
        ),
{
    let whole = s.modified_element(start, modifiers);
    let whole_again = s.more(extra).modified_element(start, modifiers);
    let first = s.member_start(start, modifiers);
    let first_again = s.more(extra).member_start(start, modifiers);
    lemma_member_start_replays(s, start, modifiers, extra);
    if let (a, Ok(found)) = first_again {
        if let StartView::Member(head, key, computed) = found {
            super::progress::lemma_member_keeps(a, start, modifiers, head, key, computed);
            lemma_grown_by(a, a.member(start, modifiers, head, key, computed));
        } else {
            lemma_grown_same(a, a);
        }
    }
    if let (a, Ok(StartView::Member(head, key, computed))) = first {
        lemma_member_replays(a, start, modifiers, head, key, computed, extra);
    }
    lemma_replays_then(first, first_again, whole, whole_again, extra);
}

proof fn lemma_skip_semicolons_more(s: State, extra: Seq<ReplyView>)
    ensures
        s.more(extra).skip_semicolons() == s.skip_semicolons().more(extra),
    decreases s.token_count() - s.cursor.index,
{
    if s.at(Kind::Semicolon) {
        assert(s.more(extra).advance() == s.advance().more(extra));
        lemma_skip_semicolons_more(s.advance(), extra);
    }
}

/// Reading a member again with more replies goes the same way as before.
pub proof fn law_class_element_replays(s: State, extra: Seq<ReplyView>)
    ensures
        replayed(s.class_element(), s.more(extra).class_element(), extra),
{
    let rule = Rule::Modifiers {
        allow_decorators: true,
        permit_const_as_modifier: true,
        stop_on_start_of_class_static_block: true,
    };
    let a = s.skip_semicolons();
    lemma_skip_semicolons_more(s, extra);
    if !a.at(Kind::RCurly) {
        let start = a.cur().span.start;
        let whole = s.class_element();
        let whole_again = s.more(extra).class_element();
        let first = a.ask_modifiers(rule);
        let first_again = a.more(extra).ask_modifiers(rule);
        lemma_ask_replays(a, rule, a.ctx, extra);
        if let (b, Ok(modifiers)) = first_again {
            super::progress::lemma_modified_element_keeps(b, start, modifiers);
            lemma_grown_by(b, b.modified_element(start, modifiers));
        }
        if let (b, Ok(modifiers)) = first {
            lemma_modified_element_replays(b, start, modifiers, extra);
        }
        lemma_replays_then(first, first_again, whole, whole_again, extra);
    }
}

proof fn lemma_extends_entry_replays(s: State, extra: Seq<ReplyView>)
    ensures
        replayed(s.extends_entry(), s.more(extra).extends_entry(), extra),
{
    let first = s.ask_expression(Rule::LhsExpressionOrHigher);
    let first_again = s.more(extra).ask_expression(Rule::LhsExpressionOrHigher);
    lemma_ask_replays(s, Rule::LhsExpressionOrHigher, s.ctx, extra);
    if let (a, Ok(_)) = first_again {
        super::progress::lemma_ask_keeps(a, Rule::TypeArguments, a.ctx);
        lemma_grown_by(a, a.ask(Rule::TypeArguments));
        lemma_grown_same(a, a);
    }
    if let (a, Ok(_)) = first {
        lemma_ask_replays(a, Rule::TypeArguments, a.ctx, extra);
    }
    lemma_replays_then(
        first,
        first_again,
        s.extends_entry(),
        s.more(extra).extends_entry(),
        extra,
    );
}

proof fn lemma_extends_entries_replays(s: State, extra: Seq<ReplyView>)
    ensures
        replayed(s.extends_entries(), s.more(extra).extends_entries(), extra),
    decreases s.replies.len(),
{
    let whole = s.extends_entries();
    let whole_again = s.more(extra).extends_entries();
    let first = s.extends_entry();
    let first_again = s.more(extra).extends_entry();
    lemma_extends_entry_replays(s, extra);
    if let (a, Ok(_)) = first_again {
        if a.at(Kind::Comma) {
            let b = a.advance();
            super::progress::lemma_extends_entries_keeps(b);
            lemma_grown_by(b, b.extends_entries());
            lemma_grown_same(a, b);
            lemma_grown_chain(a, b, b.extends_entries().0);
        } else {
            lemma_grown_same(a, a);
        }
    }
    if let (a, Ok(_)) = first {
        assert(a.more(extra).advance() == a.advance().more(extra));
        if a.at(Kind::Comma) {
            lemma_extends_entries_replays(a.advance(), extra);
        }
    }
    lemma_replays_then(first, first_again, whole, whole_again, extra);
}

proof fn lemma_at_clause_more(s: State, before: HeritageView, extra: Seq<ReplyView>)
    ensures
        s.more(extra).at_extends(before) == s.at_extends(before).more(extra),
        s.more(extra).at_implements(before) == s.at_implements(before).more(extra),
{
    let span = s.cur().span;
    let again = before.extends is Some;
    let late = before.extends is None && before.implements.len() > 0;
    let a = s.error_if(again, Diagnostic::ExtendsClauseAlreadySeen(span));
    lemma_error_if_more(s, again, Diagnostic::ExtendsClauseAlreadySeen(span), extra);
    lemma_error_if_more(a, late, Diagnostic::ExtendsClauseMustPrecedeImplements(span), extra);
    lemma_error_if_more(
        s,
        before.implements.len() > 0,
        Diagnostic::ImplementsClauseAlreadySeen(span),
        extra,
    );
}

/// Reading the clauses of a class again with more replies goes the same way as before.
pub proof fn law_heritage_replays(s: State, before: HeritageView, extra: Seq<ReplyView>)
    ensures
        replayed(s.heritage(before), s.more(extra).heritage(before), extra),
    decreases s.replies.len(),
{
    let whole = s.heritage(before);
    let whole_again = s.more(extra).heritage(before);
    lemma_at_clause_more(s, before, extra);
    if s.at(Kind::Extends) {
        let a = s.at_extends(before).advance();
        assert(s.at_extends(before).more(extra).advance() == a.more(extra));
        let first = a.extends_entries();
        let first_again = a.more(extra).extends_entries();
        lemma_extends_entries_replays(a, extra);
        a.lemma_extends_entries_progress();
        if let (b, Ok(list)) = first_again {
            let clauses = HeritageView { extends: Some(list), implements: before.implements };
            super::progress::lemma_heritage_keeps(b, clauses);
            lemma_grown_by(b, b.heritage(clauses));
        }
        if let (b, Ok(list)) = first {
            let clauses = HeritageView { extends: Some(list), implements: before.implements };
            law_heritage_replays(b, clauses, extra);
        }
        lemma_replays_then(first, first_again, whole, whole_again, extra);
    } else if s.at(Kind::Implements) {
        let a = s.at_implements(before);
        let first = a.ask_nodes(Rule::TSImplementsClause);
        let first_again = a.more(extra).ask_nodes(Rule::TSImplementsClause);
        lemma_ask_replays(a, Rule::TSImplementsClause, a.ctx, extra);
        if let (b, Ok(list)) = first_again {
            let clauses = HeritageView {
                extends: before.extends,
                implements: before.implements + list,
            };
            super::progress::lemma_heritage_keeps(b, clauses);
            lemma_grown_by(b, b.heritage(clauses));
        }
        if let (b, Ok(list)) = first {
            let clauses = HeritageView {
                extends: before.extends,
                implements: before.implements + list,
            };
            law_heritage_replays(b, clauses, extra);
        }
        lemma_replays_then(first, first_again, whole, whole_again, extra);
    }
}

proof fn lemma_class_elements_replays(s: State, extra: Seq<ReplyView>)
    ensures
        replayed(s.class_elements(), s.more(extra).class_elements(), extra),
    decreases s.replies.len(),
{
    let whole = s.class_elements();
    let whole_again = s.more(extra).class_elements();
    let first = s.class_element();
    let first_again = s.more(extra).class_element();
    law_class_element_replays(s, extra);
    super::progress::lemma_class_element_keeps(s);
    if let (a, Ok(found)) = first_again {
        if found is Some {
            super::progress::lemma_class_elements_keeps(a);
            lemma_grown_by(a, a.class_elements());
        } else {
            lemma_grown_same(a, a);
        }
    }
    if let (a, Ok(Some(_))) = first {
        lemma_class_elements_replays(a, extra);
    }
    lemma_replays_then(first, first_again, whole, whole_again, extra);
}

proof fn lemma_members_grow(s: State)
    ensures
        grown(s, s.class_elements().0),
        s.class_elements() matches (a, Ok(_)) ==> grown(
            s,
            a.ask_done(Rule::Expect(Kind::RCurly)).0,
        ) && grown(a, a.ask_done(Rule::Expect(Kind::RCurly)).0),
{
    let close = Rule::Expect(Kind::RCurly);
    super::progress::lemma_class_elements_keeps(s);
    lemma_grown_by(s, s.class_elements());
    if let (a, Ok(_)) = s.class_elements() {
        super::progress::lemma_ask_keeps(a, close, a.ctx);
        lemma_grown_by(a, a.ask(close));
        lemma_grown_chain(s, a, a.ask(close).0);
    }
}

/// Reading the body of a class again with more replies goes the same way as before.
pub proof fn law_class_body_replays(s: State, extra: Seq<ReplyView>)
    ensures
        replayed(s.class_body(), s.more(extra).class_body(), extra),
{
    let open = Rule::Expect(Kind::LCurly);
    let close = Rule::Expect(Kind::RCurly);
    let whole = s.class_body();
    let whole_again = s.more(extra).class_body();
    let first = s.ask_done(open);
    let first_again = s.more(extra).ask_done(open);
    lemma_ask_replays(s, open, s.ctx, extra);
    if let (a, Ok(_)) = first_again {
        lemma_members_grow(a);
    }
    if let (a, Ok(_)) = first {
        let second = a.class_elements();
        let second_again = a.more(extra).class_elements();
        lemma_class_elements_replays(a, extra);
        lemma_members_grow(a.more(extra));
        if let (b, Ok(_)) = second {
            lemma_ask_replays(b, close, b.ctx, extra);
        }
        lemma_replays_then(second, second_again, whole, whole_again, extra);
    }
    lemma_replays_then(first, first_again, whole, whole_again, extra);
}

proof fn lemma_class_head_replays(s: State, extra: Seq<ReplyView>)
    ensures
        replayed(s.class_name(), s.more(extra).class_name(), extra),
        replayed(s.class_type_parameters(), s.more(extra).class_type_parameters(), extra),
{
    lemma_ask_replays(s, Rule::BindingIdentifier, s.ctx, extra);
    lemma_ask_replays(s, Rule::TSTypeParameters, s.ctx, extra);
}

/// What follows the name of a class, up to the end of its body.
spec fn behind_name(s: State) -> State {
    match s.class_type_parameters() {
        (s, Err(_)) => s,
        (s, Ok(_)) => behind_type_parameters(s),
    }
}

/// What follows the type parameters of a class, up to the end of its body.
spec fn behind_type_parameters(s: State) -> State {
    match s.heritage(HeritageView::empty()) {
        (s, Err(_)) => s,
        (s, Ok(_)) => s.class_body().0,
    }
}

proof fn lemma_behind_type_parameters_grows(s: State)
    ensures
        grown(s, behind_type_parameters(s)),
{
    super::progress::lemma_heritage_keeps(s, HeritageView::empty());
    lemma_grown_by(s, s.heritage(HeritageView::empty()));
    if let (a, Ok(_)) = s.heritage(HeritageView::empty()) {
        super::progress::lemma_class_body_keeps(a);
        lemma_grown_by(a, a.class_body());
        lemma_grown_chain(s, a, a.class_body().0);
    }
}

proof fn lemma_behind_name_grows(s: State)
    ensures
        grown(s, behind_name(s)),
{
    super::progress::lemma_class_type_parameters_keeps(s);
    lemma_grown_by(s, s.class_type_parameters());
    if let (a, Ok(_)) = s.class_type_parameters() {
        lemma_behind_type_parameters_grows(a);
        lemma_grown_chain(s, a, behind_type_parameters(a));
    }
}

proof fn lemma_grown_equal(s: State, later: State, last: State)
    requires
        grown(s, later),
        last.requests == later.requests,
    ensures
        grown(s, last),
{
}

/// Reading a class again with more replies goes the same way as before.
pub proof fn law_class_replays(
    s: State,
    start: u32,
    class_type: ClassType,
    modifiers: ModifiersView,
    extra: Seq<ReplyView>,
)
    ensures
        replayed(
            s.class(start, class_type, modifiers),
            s.more(extra).class(start, class_type, modifiers),
            extra,
        ),
{
    let none = HeritageView::empty();
    let whole = s.class(start, class_type, modifiers);
    let whole_again = s.more(extra).class(start, class_type, modifiers);
    let a = s.advance().without_decorators();
    assert(s.more(extra).advance().without_decorators() == a.more(extra));
    let name = a.class_name();
    let name_again = a.more(extra).class_name();
    lemma_class_head_replays(a, extra);
    if let (b, Ok(_)) = name_again {
        lemma_behind_name_grows(b);
        lemma_grown_equal(b, behind_name(b), whole_again.0);
    }
    if let (b, Ok(_)) = name {
        let typed = b.class_type_parameters();
        let typed_again = b.more(extra).class_type_parameters();
        lemma_class_head_replays(b, extra);
        if let (c, Ok(_)) = typed_again {
            lemma_behind_type_parameters_grows(c);
            lemma_grown_equal(c, behind_type_parameters(c), whole_again.0);
        }
        if let (c, Ok(_)) = typed {
            let clauses = c.heritage(none);
            let clauses_again = c.more(extra).heritage(none);
            law_heritage_replays(c, none, extra);
            if let (d, Ok(_)) = clauses_again {
                super::progress::lemma_class_body_keeps(d);
                lemma_grown_by(d, d.class_body());
                lemma_grown_equal(d, d.class_body().0, whole_again.0);
            }
            if let (d, Ok(_)) = clauses {
                let body = d.class_body();
                let body_again = d.more(extra).class_body();
                law_class_body_replays(d, extra);
                if let (e, Ok(_)) = body_again {
                    lemma_grown_same(e, whole_again.0);
                }
                if let (e, Ok(_)) = body {
                    lemma_verify_modifiers_more(e, modifiers, ModifierPlace::Class, extra);
                }
                lemma_replays_then(body, body_again, whole, whole_again, extra);
            }
            lemma_replays_then(clauses, clauses_again, whole, whole_again, extra);
        }
        lemma_replays_then(typed, typed_again, whole, whole_again, extra);
    }
    lemma_replays_then(name, name_again, whole, whole_again, extra);
}

/// Reading a class declaration again with more replies goes the same way as before.
pub proof fn law_class_statement_replays(
    s: State,
    stmt_ctx: StatementContext,
    start: u32,
    extra: Seq<ReplyView>,
)
    ensures
        replayed(
            s.class_statement(stmt_ctx, start),
            s.more(extra).class_statement(stmt_ctx, start),
            extra,
        ),
{
    let rule = Rule::Modifiers {
        allow_decorators: true,
        permit_const_as_modifier: false,
        stop_on_start_of_class_static_block: true,
    };
    let single = stmt_ctx == StatementContext::SingleStatement;
    let class_type = ClassType::ClassDeclaration;
    let whole = s.class_statement(stmt_ctx, start);
    let whole_again = s.more(extra).class_statement(stmt_ctx, start);
    let first = s.ask_modifiers(rule);
    let first_again = s.more(extra).ask_modifiers(rule);
    lemma_ask_replays(s, rule, s.ctx, extra);
    if let (a, Ok(modifiers)) = first_again {
        super::progress::law_class_keeps(a, start, class_type, modifiers);
        lemma_grown_by(a, a.class(start, class_type, modifiers));
        lemma_grown_equal(a, a.class(start, class_type, modifiers).0, whole_again.0);
    }
    if let (a, Ok(modifiers)) = first {
        let class = a.class(start, class_type, modifiers);
        let class_again = a.more(extra).class(start, class_type, modifiers);
        law_class_replays(a, start, class_type, modifiers, extra);
        if let (b, Ok(_)) = class_again {
            lemma_grown_same(b, whole_again.0);
        }
        if let (b, Ok(read)) = class {
            let complaint = Diagnostic::ClassDeclaration(
                Span { start: read.span.start, end: read.body.span.start },
            );
            lemma_error_if_more(b, single, complaint, extra);
        }
        lemma_replays_then(class, class_again, whole, whole_again, extra);
    }
    lemma_replays_then(first, first_again, whole, whole_again, extra);
}

} // verus!
