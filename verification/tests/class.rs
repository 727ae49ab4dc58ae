use std::collections::VecDeque;

use oxc_core::class::declaration::StatementContext;
use oxc_core::class::host::{Answer, Context, Cursor, Reply, Request, Rule, Stop};
use oxc_core::class::modifiers::{Modifier, ModifierKind, Modifiers};
use oxc_core::class::state::ParserImpl;
use oxc_core::class::syntax::{
    AccessorProperty, Class, ClassElement, ClassType, Diagnostic, Expression, Extends, Function,
    KeyName, Kind, MethodDefinition, MethodDefinitionKind, Node, PropertyDefinition, PropertyKey,
    TSAccessibility, Token,
};
use oxc_core::span::Span;

/// The token of that number spans from ten times its number, over five characters.
fn span_of(index: usize) -> Span {
    Span::new(10 * index as u32, 10 * index as u32 + 5)
}

fn over(first: usize, last: usize) -> Span {
    Span::new(span_of(first).start, span_of(last).end)
}

/// A word for a token: its kind, and whether it can be a name.
fn token(index: usize, word: &str) -> Token {
    let kind = match word {
        "async" => Kind::Async,
        "!" => Kind::Bang,
        "," => Kind::Comma,
        "=" => Kind::Eq,
        "extends" => Kind::Extends,
        "get" => Kind::GetWord,
        "implements" => Kind::Implements,
        "<" => Kind::LAngle,
        "{" => Kind::LCurly,
        "(" => Kind::LParen,
        "#x" => Kind::PrivateIdentifier,
        "?" => Kind::Question,
        "}" => Kind::RCurly,
        ";" => Kind::Semicolon,
        "set" => Kind::SetWord,
        "*" => Kind::Star,
        "static" => Kind::Static,
        _ => Kind::Other,
    };
    let is_word = word.starts_with(|c: char| c.is_ascii_alphabetic());
    Token {
        kind,
        span: span_of(index),
        is_on_new_line: false,
        is_binding_identifier: is_word && !matches!(word, "extends" | "class"),
        is_class_element_name_start: is_word || matches!(word, "#x" | "["),
    }
}

fn tokens(source: &str) -> Vec<Token> {
    let mut list = Vec::new();
    for (index, word) in source.split(' ').enumerate() {
        // A tilde in front of a word stands for a line break.
        let broken = word.starts_with('~');
        let mut token = token(index, word.trim_start_matches('~'));
        token.is_on_new_line = broken;
        list.push(token);
    }
    list
}

const CTX: Context = Context {
    allow_in: false,
    allow_yield: true,
    allow_await: true,
    allow_return: true,
    ambient: false,
};

/// The host parser made this of a part, and stands at that token.
fn reply(answer: Answer, index: usize) -> Reply {
    Reply {
        answer,
        cursor: Cursor {
            index,
            prev_token_end: if index == 0 { 0 } else { span_of(index - 1).end },
        },
        errors: Vec::new(),
    }
}

fn parser(source: &str, is_ts: bool, replies: Vec<Reply>) -> ParserImpl {
    let list = tokens(source);
    let end = span_of(list.len()).start;
    ParserImpl::new(list, end, CTX, is_ts, Vec::new(), VecDeque::from(replies))
}

fn node(id: u32, index: usize) -> Node {
    Node { id, span: span_of(index) }
}

fn modifiers(kinds: &[ModifierKind], index: usize) -> Reply {
    let mut list = Vec::new();
    for (i, kind) in kinds.iter().enumerate() {
        list.push(Modifier { kind: *kind, span: span_of(i) });
    }
    let accessibility = if kinds.contains(&ModifierKind::Private) {
        Some(TSAccessibility::Private)
    } else if kinds.contains(&ModifierKind::Public) {
        Some(TSAccessibility::Public)
    } else {
        None
    };
    reply(
        Answer::Modifiers {
            modifiers: Modifiers { id: 7, list, accessibility },
            decorators: Vec::new(),
        },
        index,
    )
}

fn no_modifiers(index: usize) -> Reply {
    modifiers(&[], index)
}

fn flag(value: bool, index: usize) -> Reply {
    reply(Answer::Flag(value), index)
}

fn done(index: usize) -> Reply {
    reply(Answer::Done, index)
}

/// A name that is one token, read at the token before `index`.
fn name(text: &str, index: usize) -> Reply {
    reply(
        Answer::PropertyName {
            key: PropertyKey { node: node(1, index - 1), name: KeyName::Static(text.to_string()) },
            computed: false,
        },
        index,
    )
}

fn computed_name(text: &str, index: usize) -> Reply {
    reply(
        Answer::PropertyName {
            key: PropertyKey { node: node(1, index - 1), name: KeyName::Static(text.to_string()) },
            computed: true,
        },
        index,
    )
}

fn private_name(text: &str, index: usize) -> Reply {
    reply(Answer::PrivateName { name: text.to_string(), node: node(1, index - 1) }, index)
}

fn plain_function(index: usize) -> Function {
    Function { node: node(2, index - 1), this_param: None, type_parameters: None }
}

fn function(index: usize) -> Reply {
    reply(Answer::Function(plain_function(index)), index)
}

fn element(parser: &mut ParserImpl) -> ClassElement {
    parser.parse_class_element().unwrap().unwrap()
}

fn method_of(element: ClassElement) -> MethodDefinition {
    match element {
        ClassElement::MethodDefinition(method) => method,
        other => panic!("{:?}", other),
    }
}

fn field_of(element: ClassElement) -> PropertyDefinition {
    match element {
        ClassElement::PropertyDefinition(field) => field,
        other => panic!("{:?}", other),
    }
}

fn accessor_of(element: ClassElement) -> AccessorProperty {
    match element {
        ClassElement::AccessorProperty(accessor) => accessor,
        other => panic!("{:?}", other),
    }
}

fn rules(parser: &ParserImpl) -> Vec<Rule> {
    parser.requests.iter().map(|request| request.rule).collect()
}

const MEMBER_MODIFIERS: Rule = Rule::Modifiers {
    allow_decorators: true,
    permit_const_as_modifier: true,
    stop_on_start_of_class_static_block: true,
};

const CLASS_MODIFIERS: Rule = Rule::Modifiers {
    allow_decorators: true,
    permit_const_as_modifier: false,
    stop_on_start_of_class_static_block: true,
};

// Class declarations and expressions.

fn empty_class_replies() -> Vec<Reply> {
    vec![reply(Answer::Node(node(3, 1)), 2), done(3), done(4)]
}

#[test]
fn empty_class_declaration() {
    let mut parser = parser("class A { }", false, empty_class_replies());
    let class = parser.parse_class_declaration(0, &Modifiers::empty()).unwrap();
    assert_eq!(class.span, over(0, 3));
    assert_eq!(class.class_type, ClassType::ClassDeclaration);
    assert_eq!(class.id, Some(node(3, 1)));
    assert_eq!(class.type_parameters, None);
    assert_eq!(class.super_class, None);
    assert_eq!(class.super_type_parameters, None);
    assert!(class.implements.is_empty());
    assert!(class.decorators.is_empty());
    assert_eq!(class.body.span, over(2, 3));
    assert!(class.body.body.is_empty());
    assert!(!class.is_abstract);
    assert!(!class.declare);
    assert!(parser.errors.is_empty());
    assert_eq!(
        rules(&parser),
        vec![Rule::BindingIdentifier, Rule::Expect(Kind::LCurly), Rule::Expect(Kind::RCurly)]
    );
}

#[test]
fn replies_are_asked_for_one_by_one() {
    let all = empty_class_replies();
    let asked = [
        Request { rule: Rule::BindingIdentifier, index: 1, ctx: CTX },
        Request { rule: Rule::Expect(Kind::LCurly), index: 2, ctx: CTX },
        Request { rule: Rule::Expect(Kind::RCurly), index: 3, ctx: CTX },
    ];
    for known in 0..all.len() {
        let mut parser = parser("class A { }", false, all[..known].to_vec());
        let stop = parser.parse_class_declaration(0, &Modifiers::empty()).unwrap_err();
        assert_eq!(stop, Stop::Pending);
        assert_eq!(parser.requests, asked[..known + 1].to_vec());
    }
}

#[test]
fn replies_that_are_not_asked_for_stay() {
    let mut replies = empty_class_replies();
    replies.push(flag(true, 9));
    let mut parser = parser("class A { }", false, replies);
    let class = parser.parse_class_declaration(0, &Modifiers::empty()).unwrap();
    assert_eq!(class.span, over(0, 3));
    assert_eq!(parser.requests.len(), 3);
    assert_eq!(parser.replies.len(), 1);
}

#[test]
fn a_reply_of_another_shape_is_a_mismatch() {
    let mut parser = parser("class A { }", false, vec![flag(true, 2)]);
    let stop = parser.parse_class_declaration(0, &Modifiers::empty()).unwrap_err();
    assert_eq!(stop, Stop::Mismatch);
}

#[test]
fn what_the_host_reports_is_kept_in_order() {
    let mut replies = empty_class_replies();
    replies[0].errors.push(Diagnostic::Host(1));
    replies[2].errors.push(Diagnostic::Host(2));
    let mut parser = parser("class A { }", false, replies);
    parser.parse_class_declaration(0, &Modifiers::empty()).unwrap();
    assert_eq!(parser.errors, vec![Diagnostic::Host(1), Diagnostic::Host(2)]);
}

#[test]
fn class_statement_reads_modifiers_first() {
    let mut replies = vec![modifiers(&[ModifierKind::Declare, ModifierKind::Export], 2)];
    replies.push(reply(Answer::Node(node(3, 3)), 4));
    replies.push(done(5));
    replies.push(done(6));
    let mut parser = parser("declare export class A { }", false, replies);
    let class = parser.parse_class_statement(StatementContext::StatementList, 0).unwrap();
    assert_eq!(class.span, over(0, 5));
    assert!(class.declare);
    assert!(!class.is_abstract);
    assert_eq!(rules(&parser)[0], CLASS_MODIFIERS);
    let export = Modifier { kind: ModifierKind::Export, span: span_of(1) };
    assert_eq!(parser.errors, vec![Diagnostic::ModifierCannotBeUsedHere(export)]);
}

fn statement(ctx: StatementContext) -> (Class, Vec<Diagnostic>) {
    let mut replies = vec![no_modifiers(0)];
    replies.extend(empty_class_replies());
    let mut parser = parser("class A { }", false, replies);
    let class = parser.parse_class_statement(ctx, 0).unwrap();
    (class, parser.errors)
}

#[test]
fn class_as_a_single_statement_is_reported() {
    let (listed, nothing) = statement(StatementContext::StatementList);
    let (single, reported) = statement(StatementContext::SingleStatement);
    assert!(nothing.is_empty());
    assert_eq!(listed.span, single.span);
    let head = Span::new(0, span_of(2).start);
    assert_eq!(reported, vec![Diagnostic::ClassDeclaration(head)]);
}

#[test]
fn decorators_belong_to_the_class() {
    let replies = vec![done(2), done(3)];
    let mut expression = parser("class { }", false, replies.clone());
    let decorator = Node { id: 9, span: Span::new(1, 2) };
    expression.decorators = vec![decorator];
    let class = expression.parse_class_expression().unwrap();
    assert_eq!(class.class_type, ClassType::ClassExpression);
    assert_eq!(class.id, None);
    assert_eq!(class.decorators, vec![decorator]);
    assert_eq!(class.span, Span::new(1, span_of(2).end));
    assert!(expression.decorators.is_empty());
    // A declaration starts where its caller says.
    let mut declaration = parser("class { }", false, replies);
    declaration.decorators = vec![decorator];
    let class = declaration.parse_class_declaration(0, &Modifiers::empty()).unwrap();
    assert_eq!(class.decorators, vec![decorator]);
    assert_eq!(class.span, over(0, 2));
}

#[test]
fn implements_is_no_name_of_a_class() {
    let replies = vec![reply(Answer::Nodes(vec![node(5, 2)]), 3), done(4), done(5)];
    let mut parser = parser("class implements I { }", false, replies);
    let class = parser.parse_class_expression().unwrap();
    assert_eq!(class.id, None);
    assert_eq!(class.implements, vec![node(5, 2)]);
    assert_eq!(class.span, over(0, 4));
    assert_eq!(rules(&parser)[0], Rule::TSImplementsClause);
}

#[test]
fn type_parameters_are_read_in_typescript_only() {
    let mut replies = empty_class_replies();
    replies.insert(1, reply(Answer::Optional(Some(node(4, 1))), 2));
    let mut ts = parser("class A { }", true, replies);
    let class = ts.parse_class_declaration(0, &Modifiers::empty()).unwrap();
    assert_eq!(class.type_parameters, Some(node(4, 1)));
    assert_eq!(rules(&ts)[1], Rule::TSTypeParameters);
    let mut js = parser("class A { }", false, empty_class_replies());
    let class = js.parse_class_declaration(0, &Modifiers::empty()).unwrap();
    assert_eq!(class.type_parameters, None);
    assert!(!rules(&js).contains(&Rule::TSTypeParameters));
}

// Heritage clauses.

fn expression(id: u32, index: usize) -> Reply {
    reply(Answer::Expression(Expression::Other(node(id, index - 1))), index)
}

fn no_type_arguments(index: usize) -> Reply {
    reply(Answer::Optional(None), index)
}

#[test]
fn the_first_entry_of_extends_is_the_super_class() {
    let replies = vec![
        expression(1, 3),
        reply(Answer::Optional(Some(node(8, 2))), 3),
        expression(2, 5),
        no_type_arguments(5),
        done(6),
        done(7),
    ];
    let mut parser = parser("class extends B , C { }", false, replies);
    let class = parser.parse_class_expression().unwrap();
    assert_eq!(class.super_class, Some(node(1, 2)));
    assert_eq!(class.super_type_parameters, Some(node(8, 2)));
    assert_eq!(class.span, over(0, 6));
    assert!(parser.errors.is_empty());
}

#[test]
fn entries_of_extends() {
    let replies = vec![
        reply(
            Answer::Expression(Expression::TSInstantiationExpression {
                expression: node(1, 1),
                type_arguments: node(2, 2),
            }),
            3,
        ),
        expression(3, 5),
        no_type_arguments(5),
    ];
    let mut parser = parser("extends B <T> , C {", true, replies);
    let entries = parser.parse_extends_clause().unwrap();
    assert_eq!(
        entries,
        vec![
            Extends {
                expression: node(1, 1),
                type_arguments: Some(node(2, 2)),
                span: over(1, 2),
            },
            Extends { expression: node(3, 4), type_arguments: None, span: over(4, 4) },
        ]
    );
    assert_eq!(
        rules(&parser),
        vec![Rule::LhsExpressionOrHigher, Rule::LhsExpressionOrHigher, Rule::TypeArguments]
    );
    assert_eq!(parser.cursor.index, 5);
}

#[test]
fn clauses_out_of_order_are_reported() {
    // implements A implements B extends C extends D
    let replies = vec![
        reply(Answer::Nodes(vec![node(1, 1)]), 2),
        reply(Answer::Nodes(vec![node(2, 3)]), 4),
        expression(3, 6),
        no_type_arguments(6),
        expression(4, 8),
        no_type_arguments(8),
    ];
    let mut parser =
        parser("implements A implements B extends C extends D {", true, replies);
    let heritage = parser.parse_heritage_clause().unwrap();
    assert_eq!(
        parser.errors,
        vec![
            Diagnostic::ImplementsClauseAlreadySeen(span_of(2)),
            Diagnostic::ExtendsClauseMustPrecedeImplements(span_of(4)),
            Diagnostic::ExtendsClauseAlreadySeen(span_of(6)),
        ]
    );
    assert_eq!(heritage.implements, vec![node(1, 1), node(2, 3)]);
    // The last clause counts.
    assert_eq!(heritage.super_class().unwrap().expression, node(4, 7));
    assert!(!parser.at(Kind::Extends) && !parser.at(Kind::Implements));
}

#[test]
fn every_clause_but_the_first_is_reported() {
    // extends A extends B extends C implements D implements E
    let replies = vec![
        expression(1, 2),
        no_type_arguments(2),
        expression(2, 4),
        no_type_arguments(4),
        expression(3, 6),
        no_type_arguments(6),
        reply(Answer::Nodes(vec![node(4, 7)]), 8),
        reply(Answer::Nodes(vec![node(5, 9)]), 10),
    ];
    let mut several = parser(
        "extends A extends B extends C implements D implements E {",
        true,
        replies,
    );
    several.parse_heritage_clause().unwrap();
    assert_eq!(
        several.errors,
        vec![
            Diagnostic::ExtendsClauseAlreadySeen(span_of(2)),
            Diagnostic::ExtendsClauseAlreadySeen(span_of(4)),
            Diagnostic::ImplementsClauseAlreadySeen(span_of(8)),
        ]
    );
    // An `implements` clause without entries leaves the next one the first.
    let replies = vec![
        reply(Answer::Nodes(vec![]), 1),
        reply(Answer::Nodes(vec![node(1, 2)]), 3),
        reply(Answer::Nodes(vec![]), 4),
    ];
    let mut empty = parser("implements implements A implements {", true, replies);
    empty.parse_heritage_clause().unwrap();
    assert_eq!(empty.errors, vec![Diagnostic::ImplementsClauseAlreadySeen(span_of(3))]);
}

#[test]
fn no_clause_at_all() {
    let mut parser = parser("{ }", true, Vec::new());
    let heritage = parser.parse_heritage_clause().unwrap();
    assert!(heritage.extends.is_none());
    assert!(heritage.implements.is_empty());
    assert!(heritage.super_class().is_none());
    assert!(parser.requests.is_empty());
}

// Class bodies.

#[test]
fn class_body_reads_members_up_to_the_brace() {
    // { a ( ) {} ; ; b ; }
    let replies = vec![
        done(1),
        no_modifiers(1),
        flag(false, 1),
        name("a", 2),
        function(5),
        no_modifiers(7),
        flag(false, 7),
        name("b", 8),
        done(9),
        done(10),
    ];
    let mut parser = parser("{ a ( ) {} ; ; b ; }", false, replies);
    let body = parser.parse_class_body().unwrap();
    assert_eq!(body.span, over(0, 9));
    assert_eq!(body.body.len(), 2);
    let method = method_of(body.body[0].clone());
    assert_eq!(method.span, over(1, 4));
    let field = field_of(body.body[1].clone());
    assert_eq!(field.span, over(7, 8));
}

#[test]
fn semicolons_alone_are_no_member() {
    let mut parser = parser("; ; }", false, Vec::new());
    assert!(parser.parse_class_element().unwrap().is_none());
    assert!(parser.requests.is_empty());
    assert_eq!(parser.cursor.index, 2);
}

#[test]
fn the_end_of_the_source_is_no_semicolon() {
    let mut parser = parser(";", false, Vec::new());
    assert_eq!(parser.parse_class_element().unwrap_err(), Stop::Pending);
    assert_eq!(parser.requests, vec![Request { rule: MEMBER_MODIFIERS, index: 1, ctx: CTX }]);
}

// Members.

#[test]
fn method() {
    let mut parser = parser(
        "m ( ) {}",
        false,
        vec![no_modifiers(0), flag(false, 0), name("m", 1), function(4)],
    );
    let method = method_of(element(&mut parser));
    assert_eq!(method.span, over(0, 3));
    assert_eq!(method.kind, MethodDefinitionKind::Method);
    assert_eq!(method.key.node, node(1, 0));
    assert_eq!(method.value, plain_function(4));
    assert!(!method.computed);
    assert!(!method.is_static);
    assert!(!method.is_override);
    assert!(!method.is_abstract);
    assert!(!method.optional);
    assert_eq!(method.accessibility, None);
    assert!(parser.errors.is_empty());
    assert_eq!(
        rules(&parser),
        vec![
            MEMBER_MODIFIERS,
            Rule::AtTSIndexSignatureMember,
            Rule::PropertyName,
            Rule::Method { is_async: false, generator: false },
        ]
    );
}

#[test]
fn modifiers_of_a_method() {
    let kinds = [
        ModifierKind::Private,
        ModifierKind::Static,
        ModifierKind::Override,
        ModifierKind::Abstract,
        ModifierKind::Async,
    ];
    let mut parser = parser(
        "private static override abstract async m ( ) {}",
        true,
        vec![modifiers(&kinds, 5), flag(false, 5), name("m", 6), function(9)],
    );
    let method = method_of(element(&mut parser));
    assert_eq!(method.span, over(0, 8));
    assert!(method.is_static);
    assert!(method.is_override);
    assert!(method.is_abstract);
    assert_eq!(method.accessibility, Some(TSAccessibility::Private));
    assert_eq!(rules(&parser)[3], Rule::Method { is_async: true, generator: false });
}

#[test]
fn type_parameters_start_a_method() {
    let mut parser = parser(
        "m < T",
        true,
        vec![no_modifiers(0), flag(false, 0), name("m", 1), function(3)],
    );
    method_of(element(&mut parser));
}

#[test]
fn static_words() {
    // static m ( ) {}
    let mut modifier = parser(
        "static m ( ) {}",
        false,
        vec![no_modifiers(0), flag(false, 1), name("m", 2), function(5)],
    );
    let method = method_of(element(&mut modifier));
    assert!(method.is_static);
    assert_eq!(method.span, over(0, 4));
    // static * m ( ) {}
    let mut generator = parser(
        "static * m ( ) {}",
        false,
        vec![no_modifiers(0), flag(false, 1), name("m", 3), function(6)],
    );
    assert!(method_of(element(&mut generator)).is_static);
    assert_eq!(rules(&generator)[3], Rule::Method { is_async: false, generator: true });
    // static ( ) {}
    let mut named = parser(
        "static ( ) {}",
        false,
        vec![no_modifiers(0), name("static", 1), flag(false, 1), function(4)],
    );
    let method = method_of(element(&mut named));
    assert!(!method.is_static);
    assert_eq!(rules(&named)[1], Rule::PropertyName);
    // static { }
    let mut block = parser(
        "static { }",
        false,
        vec![no_modifiers(0), reply(Answer::Node(node(6, 1)), 3)],
    );
    match element(&mut block) {
        ClassElement::StaticBlock { span, body } => {
            assert_eq!(span, over(0, 2));
            assert_eq!(body, node(6, 1));
        }
        other => panic!("{:?}", other),
    }
    let inside = Context { allow_await: true, allow_yield: false, allow_return: false, ..CTX };
    assert_eq!(block.requests[1], Request { rule: Rule::Block, index: 1, ctx: inside });
    assert_eq!(block.ctx, CTX);
}

#[test]
fn async_words() {
    // async m ( ) {}
    let mut modifier = parser(
        "async m ( ) {}",
        false,
        vec![no_modifiers(0), flag(false, 1), name("m", 2), function(5)],
    );
    method_of(element(&mut modifier));
    assert_eq!(rules(&modifier)[3], Rule::Method { is_async: true, generator: false });
    // async * m ( ) {}
    let mut both = parser(
        "async * m ( ) {}",
        false,
        vec![no_modifiers(0), flag(false, 1), name("m", 3), function(6)],
    );
    method_of(element(&mut both));
    assert_eq!(rules(&both)[3], Rule::Method { is_async: true, generator: true });
    // async get ( ) {}: behind `async`, `get` is a name.
    let mut get = parser(
        "async get ( ) {}",
        false,
        vec![no_modifiers(0), flag(false, 1), name("get", 2), function(5)],
    );
    assert_eq!(method_of(element(&mut get)).kind, MethodDefinitionKind::Method);
    // `async`, then a line break: a field of that name.
    let mut broken = parser(
        "async ~m ( ) {}",
        false,
        vec![no_modifiers(0), name("async", 1), flag(false, 1), done(1)],
    );
    assert_eq!(field_of(element(&mut broken)).span, over(0, 0));
    // async ? : a name that is optional.
    let mut optional = parser(
        "async ? ;",
        true,
        vec![
            no_modifiers(0),
            flag(false, 0),
            name("async", 1),
            reply(Answer::Optional(None), 2),
            done(3),
        ],
    );
    let field = field_of(element(&mut optional));
    assert!(field.optional);
    assert_eq!(rules(&optional)[1], Rule::AtTSIndexSignatureMember);
}

#[test]
fn getters_and_setters() {
    for (word, kind) in
        [("get", MethodDefinitionKind::Getter), ("set", MethodDefinitionKind::Setter)]
    {
        let source = format!("{} m ( ) {{}}", word);
        let mut parser = parser(
            &source,
            false,
            vec![no_modifiers(0), flag(false, 0), name("m", 2), function(5)],
        );
        assert_eq!(method_of(element(&mut parser)).kind, kind);
        assert_eq!(
            *rules(&parser).last().unwrap(),
            Rule::Method { is_async: false, generator: false }
        );
        // Alone, the word is a name.
        let mut named = self::parser(
            &format!("{} ( ) {{}}", word),
            false,
            vec![no_modifiers(0), flag(false, 0), name(word, 1), function(4)],
        );
        assert_eq!(method_of(element(&mut named)).kind, MethodDefinitionKind::Method);
        // A getter or setter is no field.
        let mut field = self::parser(
            &format!("{} m ;", word),
            false,
            vec![no_modifiers(0), flag(false, 0), name("m", 2), done(2)],
        );
        assert!(field.parse_class_element().unwrap().is_none());
        assert_eq!(*rules(&field).last().unwrap(), Rule::Unexpected);
    }
}

#[test]
fn generators() {
    let mut parser = parser(
        "* get ( ) {}",
        false,
        vec![no_modifiers(0), flag(false, 0), name("get", 2), function(5)],
    );
    let method = method_of(element(&mut parser));
    assert_eq!(method.kind, MethodDefinitionKind::Method);
    assert_eq!(rules(&parser)[3], Rule::Method { is_async: false, generator: true });
}

#[test]
fn index_signatures() {
    let mut parser = parser(
        "readonly [ k : string ] ;",
        true,
        vec![
            modifiers(&[ModifierKind::Readonly], 1),
            flag(true, 1),
            reply(Answer::Node(node(6, 1)), 7),
        ],
    );
    match element(&mut parser) {
        ClassElement::TSIndexSignature(found) => assert_eq!(found, node(6, 1)),
        other => panic!("{:?}", other),
    }
    assert_eq!(
        rules(&parser)[2],
        Rule::IndexSignatureDeclaration { start: 0, modifiers: 7 }
    );
}

#[test]
fn fields() {
    // a = 1 ;
    let mut js = parser(
        "a = 1 ;",
        false,
        vec![
            no_modifiers(0),
            flag(false, 0),
            name("a", 1),
            reply(Answer::Node(node(6, 2)), 3),
            done(4),
        ],
    );
    let field = field_of(element(&mut js));
    assert_eq!(field.span, over(0, 3));
    assert_eq!(field.value, Some(node(6, 2)));
    assert_eq!(field.type_annotation, None);
    let inside = Context { allow_in: true, allow_yield: false, allow_await: false, ..CTX };
    assert_eq!(js.requests[3], Request { rule: Rule::Expr, index: 2, ctx: inside });
    assert_eq!(js.ctx, CTX);
    assert!(!rules(&js).contains(&Rule::TSTypeAnnotation));
    // declare readonly override abstract a ! : T ;
    let kinds = [
        ModifierKind::Declare,
        ModifierKind::Readonly,
        ModifierKind::Override,
        ModifierKind::Abstract,
        ModifierKind::Public,
    ];
    let mut ts = parser(
        "declare readonly override abstract public a ! : T ;",
        true,
        vec![
            modifiers(&kinds, 5),
            flag(false, 5),
            name("a", 6),
            reply(Answer::Optional(Some(node(6, 8))), 9),
            done(10),
        ],
    );
    let field = field_of(element(&mut ts));
    assert!(field.declare && field.readonly && field.is_override && field.is_abstract);
    assert!(field.definite && !field.optional && !field.is_static && !field.computed);
    assert_eq!(field.type_annotation, Some(node(6, 8)));
    assert_eq!(field.value, None);
    assert_eq!(field.accessibility, Some(TSAccessibility::Public));
    assert_eq!(field.span, over(0, 9));
}

#[test]
fn accessor_properties() {
    let kinds = [ModifierKind::Accessor, ModifierKind::Static, ModifierKind::Declare];
    let mut parser = parser(
        "accessor static declare a ? = 1 ;",
        false,
        vec![
            modifiers(&kinds, 3),
            flag(false, 3),
            name("a", 4),
            reply(Answer::Node(node(6, 6)), 7),
            done(8),
        ],
    );
    let accessor = accessor_of(element(&mut parser));
    assert_eq!(accessor.span, over(0, 7));
    assert!(accessor.is_static && !accessor.is_abstract && !accessor.is_override);
    assert_eq!(accessor.value, Some(node(6, 6)));
    assert_eq!(rules(&parser)[3], Rule::AssignmentExpressionOrHigher);
    assert_eq!(parser.requests[3].ctx, CTX);
    let declare = Modifier { kind: ModifierKind::Declare, span: span_of(2) };
    assert_eq!(
        parser.errors,
        vec![
            Diagnostic::OptionalAccessorProperty(span_of(4)),
            Diagnostic::AccessorModifier(declare),
        ]
    );
}

#[test]
fn decorators_belong_to_the_member() {
    let decorator = Node { id: 9, span: Span::new(1, 2) };
    let decorated = |kinds: &[ModifierKind], index: usize| {
        let mut given = modifiers(kinds, index);
        if let Answer::Modifiers { decorators, .. } = &mut given.answer {
            decorators.push(decorator);
        }
        given
    };
    let mut with_method = parser(
        "m ( ) {}",
        false,
        vec![decorated(&[], 0), flag(false, 0), name("m", 1), function(4)],
    );
    assert_eq!(method_of(element(&mut with_method)).decorators, vec![decorator]);
    assert!(with_method.decorators.is_empty());
    let mut with_field = parser(
        "m ;",
        false,
        vec![decorated(&[], 0), flag(false, 0), name("m", 1), done(2)],
    );
    assert_eq!(field_of(element(&mut with_field)).decorators, vec![decorator]);
    assert!(with_field.decorators.is_empty());
    let mut with_accessor = parser(
        "accessor m ;",
        false,
        vec![decorated(&[ModifierKind::Accessor], 1), flag(false, 1), name("m", 2), done(3)],
    );
    assert_eq!(accessor_of(element(&mut with_accessor)).decorators, vec![decorator]);
    assert!(with_accessor.decorators.is_empty());
}

// Reports on members.

#[test]
fn optional_and_definite_exclude_each_other() {
    let mut parser = parser(
        "a ? ! ;",
        false,
        vec![no_modifiers(0), flag(false, 0), name("a", 1), done(4)],
    );
    let field = field_of(element(&mut parser));
    assert!(field.optional && field.definite);
    let both = Span::new(span_of(1).start, span_of(1).end + 1);
    assert_eq!(parser.errors, vec![Diagnostic::OptionalDefiniteProperty(both)]);
}

#[test]
fn constants_are_no_members() {
    let mut parser = parser(
        "const a ;",
        false,
        vec![modifiers(&[ModifierKind::Const], 1), flag(false, 1), name("a", 2), done(3)],
    );
    field_of(element(&mut parser));
    assert_eq!(parser.errors, vec![Diagnostic::ConstClassMember(span_of(1))]);
}

#[test]
fn private_names() {
    let replies = vec![
        modifiers(&[ModifierKind::Private, ModifierKind::Static], 2),
        flag(false, 2),
        private_name("constructor", 3),
        function(6),
    ];
    let private = Modifier { kind: ModifierKind::Private, span: span_of(0) };
    let mut ts = parser("private static #x ( ) {}", true, replies.clone());
    let method = method_of(element(&mut ts));
    assert_eq!(method.kind, MethodDefinitionKind::Method);
    assert!(method.key.is_private("constructor"));
    assert!(!method.key.is_private("other"));
    assert!(!method.key.is_named("constructor"));
    assert_eq!(
        ts.errors,
        vec![
            Diagnostic::AccessibilityModifierOnPrivateProperty(private),
            Diagnostic::PrivateNameConstructor(span_of(2)),
        ]
    );
    assert_eq!(rules(&ts)[2], Rule::PrivateIdentifier);
    let mut js = parser("private static #x ( ) {}", false, replies);
    element(&mut js);
    assert_eq!(js.errors, vec![Diagnostic::PrivateNameConstructor(span_of(2))]);
}

fn constructor(
    source: &str,
    kinds: &[ModifierKind],
    replies: Vec<Reply>,
) -> (ClassElement, Vec<Diagnostic>) {
    let skip = kinds.len();
    let mut all = vec![modifiers(kinds, skip)];
    all.extend(replies);
    let mut parser = parser(source, true, all);
    let read = element(&mut parser);
    (read, parser.errors)
}

#[test]
fn constructors() {
    let read = |key: Reply| {
        let (read, errors) =
            constructor("constructor ( ) {}", &[], vec![flag(false, 0), key, function(4)]);
        assert!(errors.is_empty());
        method_of(read).kind
    };
    assert_eq!(read(name("constructor", 1)), MethodDefinitionKind::Constructor);
    assert_eq!(read(computed_name("constructor", 1)), MethodDefinitionKind::Method);
    assert_eq!(read(name("construct", 1)), MethodDefinitionKind::Method);
    assert_eq!(read(unknown_name(1)), MethodDefinitionKind::Method);
    // A static one is a method like any other.
    let (read, errors) = constructor(
        "static constructor ( ) {}",
        &[ModifierKind::Static],
        vec![flag(false, 1), name("constructor", 2), function(5)],
    );
    assert_eq!(method_of(read).kind, MethodDefinitionKind::Method);
    assert!(errors.is_empty());
}

/// A key that the source shows no name of.
fn unknown_name(index: usize) -> Reply {
    reply(
        Answer::PropertyName {
            key: PropertyKey { node: node(1, index - 1), name: KeyName::Unknown },
            computed: false,
        },
        index,
    )
}

#[test]
fn constructors_of_another_kind_are_reported() {
    let (read, errors) = constructor(
        "get constructor ( ) {}",
        &[],
        vec![flag(false, 0), name("constructor", 2), function(5)],
    );
    assert_eq!(method_of(read).kind, MethodDefinitionKind::Constructor);
    assert_eq!(errors, vec![Diagnostic::ConstructorGetterSetter(span_of(1))]);
    let (read, errors) = constructor(
        "async * constructor ( ) {}",
        &[],
        vec![flag(false, 1), name("constructor", 3), function(6)],
    );
    assert_eq!(method_of(read).kind, MethodDefinitionKind::Constructor);
    assert_eq!(
        errors,
        vec![
            Diagnostic::ConstructorAsync(span_of(2)),
            Diagnostic::ConstructorGenerator(span_of(2)),
        ]
    );
    let (read, errors) =
        constructor(
            "constructor ;",
            &[],
            vec![flag(false, 0), name("constructor", 1), no_type_arguments(1), done(2)],
        );
    field_of(read);
    assert_eq!(errors, vec![Diagnostic::FieldConstructor(span_of(0))]);
}

#[test]
fn parameters_of_a_constructor_are_reported() {
    let value = Function {
        node: node(2, 2),
        this_param: Some(Span::new(21, 22)),
        type_parameters: Some(Span::new(11, 12)),
    };
    let (_, errors) = constructor(
        "constructor ( ) {}",
        &[],
        vec![flag(false, 0), name("constructor", 1), reply(Answer::Function(value), 4)],
    );
    assert_eq!(
        errors,
        vec![
            Diagnostic::TSConstructorThisParameter(Span::new(21, 22)),
            Diagnostic::TSConstructorTypeParameter(Span::new(11, 12)),
        ]
    );
    // A method may have both.
    let (_, errors) = constructor(
        "other ( ) {}",
        &[],
        vec![flag(false, 0), name("other", 1), reply(Answer::Function(value), 4)],
    );
    assert!(errors.is_empty());
}

#[test]
fn static_prototypes_are_reported() {
    let replies = vec![no_modifiers(0), flag(false, 1), name("prototype", 2), function(5)];
    let mut plain = parser("static prototype ( ) {}", false, replies.clone());
    method_of(element(&mut plain));
    assert_eq!(plain.errors, vec![Diagnostic::StaticPrototype(span_of(1))]);
    let mut ambient = parser("static prototype ( ) {}", false, replies);
    ambient.ctx = Context { ambient: true, ..CTX };
    method_of(element(&mut ambient));
    assert!(ambient.errors.is_empty());
    let mut field = parser(
        "static prototype ;",
        false,
        vec![no_modifiers(0), flag(false, 1), name("prototype", 2), done(3)],
    );
    field_of(element(&mut field));
    assert_eq!(field.errors, vec![Diagnostic::StaticPrototype(span_of(1))]);
}

#[test]
fn what_is_no_member_is_unexpected() {
    let mut parser = parser(
        "( ) {}",
        false,
        vec![no_modifiers(0), flag(false, 0), done(0)],
    );
    assert!(parser.parse_class_element().unwrap().is_none());
    assert_eq!(*rules(&parser).last().unwrap(), Rule::Unexpected);
}

#[test]
fn spans_do_not_overflow() {
    assert_eq!(Span::new(1, 2).expand_right(3), Span::new(1, 5));
    assert_eq!(Span::new(1, u32::MAX).expand_right(1), Span::new(1, u32::MAX));
}
