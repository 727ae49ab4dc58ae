use oxc_core::lint_macro::fix::{
    parse_fix, parse_fix_kind, try_parse_fix, try_parse_fix_kind, FixError, FixKind, RuleFixMeta,
};
use oxc_core::lint_macro::meta::{
    documentation, documentation_line, parse_attr, Found, Item, LintRuleMeta, MetaError,
};
use oxc_core::lint_macro::output::{
    declare_oxc_lint, rule_name_converter, try_declare_oxc_lint, write_fix, write_rule,
    DeclareError, Piece,
};
use oxc_core::lint_macro::tokens::{Attribute, AttributeValue};
use oxc_core::linter::no_string_refs::NoStringRefs;
use oxc_core::text::split;
use proc_macro2::{Delimiter, Group, TokenStream, TokenTree};
use syn::parse::{ParseStream, Parser};

fn stream(source: &str) -> TokenStream {
    source.parse().unwrap()
}

fn parse(source: &str) -> LintRuleMeta {
    LintRuleMeta::parse(&stream(source), true).unwrap()
}

fn parse_error(source: &str) -> MetaError {
    LintRuleMeta::parse(&stream(source), true).unwrap_err()
}

/// The code that pieces stand for, as tokens.
fn render(pieces: &[Piece]) -> String {
    let mut text = String::new();
    for piece in pieces {
        match piece {
            Piece::Source(source) => text.push_str(source),
            Piece::StringLiteral(value) => {
                text.push_str(&proc_macro2::Literal::string(value).to_string());
            }
        }
    }
    tokens(&text)
}

fn tokens(source: &str) -> String {
    stream(source).to_string()
}

#[test]
fn declaration_with_documentation() {
    let meta = parse(
        "/// ### What it does\n///\n///   Indented.\n///Tight.\nNoStringRefs,\nreact,\ncorrectness",
    );
    assert_eq!(meta.name, "NoStringRefs");
    assert_eq!(meta.plugin, "react");
    assert_eq!(meta.category, "correctness");
    assert_eq!(meta.fix, None);
    assert_eq!(meta.documentation.unwrap(), "### What it does\n\n  Indented.\nTight.\n");
    assert!(!meta.used_in_test);
}

#[test]
fn documentation_only_where_wanted() {
    let source = "/// Text.\nNoDebugger, eslint, correctness, fix";
    let bare = LintRuleMeta::parse(&stream(source), false).unwrap();
    assert_eq!(bare.documentation, None);
    assert_eq!(bare.name, "NoDebugger");
    assert_eq!(bare.fix.as_deref(), Some("fix"));
    assert_eq!(parse(source).documentation.as_deref(), Some("Text.\n"));
    assert_eq!(parse("A, b, c").documentation.as_deref(), Some(""));
}

#[test]
fn written_doc_attributes_count_as_doc_comments() {
    let meta = parse("#[doc = \" One.\"]\n/** Two. */\nA, b, c");
    assert_eq!(meta.documentation.as_deref(), Some("One.\nTwo. \n"));
}

#[test]
fn fix_is_optional_and_the_rest_is_ignored() {
    assert_eq!(parse("A, b, c").fix, None);
    assert_eq!(parse("A, b, c,").fix, None);
    assert_eq!(parse("A, b, c, pending").fix.as_deref(), Some("pending"));
    assert_eq!(parse("A, b, c, fix, more, 1 + (2)").fix.as_deref(), Some("fix"));
    assert_eq!(parse("A, b, c, 1").fix, None);
    assert_eq!(parse("A, b, c, fn").fix, None);
    assert_eq!(parse("A, b, c; fix").fix, None);
    assert_eq!(parse("A, b, c { fix }").fix, None);
}

fn expected_identifier(i: usize, found: Found) -> MetaError {
    MetaError::ExpectedIdentifier(i, found)
}

fn keyword(word: &str) -> Found {
    Found::Keyword(word.to_string())
}

#[test]
fn errors_of_declarations() {
    let invalid = |source: &str| matches!(parse_error(source), MetaError::InvalidAttribute(_));
    assert!(invalid("# A, b, c"));
    assert!(invalid("#(doc = \"x\") A, b, c"));
    assert!(invalid("#[1] A, b, c"));
    assert!(invalid("#[test] #[1] A, b, c"));
    assert_eq!(parse_error("#[allow(dead_code)] A, b, c"), MetaError::UnexpectedAttribute(0));
    assert_eq!(parse_error("#[doc(hidden)] A, b, c"), MetaError::UnexpectedAttribute(0));
    assert_eq!(parse_error("#[test] A, b, c"), MetaError::UnexpectedAttribute(0));
    assert_eq!(parse_error("#[doc = 1] A, b, c"), MetaError::UnexpectedAttribute(0));
    assert_eq!(parse_error("#[doc = -1] A, b, c"), MetaError::UnexpectedAttribute(0));
    assert_eq!(parse_error("#[doc = f(x)] A, b, c"), MetaError::UnexpectedAttribute(0));
    assert_eq!(parse_error("#[doc::doc = \"x\"] A, b, c"), MetaError::UnexpectedAttribute(0));
    assert_eq!(parse_error("#[docs = \"x\"] A, b, c"), MetaError::UnexpectedAttribute(0));
    assert_eq!(parse_error("/// a\n/// b\n#[test] #[doc] ,"), MetaError::UnexpectedAttribute(2));
    assert_eq!(parse_error(""), expected_identifier(0, Found::End));
    assert_eq!(parse_error("/// a\n"), expected_identifier(0, Found::End));
    assert_eq!(parse_error(", b, c"), expected_identifier(0, Found::Other));
    assert_eq!(parse_error("struct, b, c"), expected_identifier(0, keyword("struct")));
    assert_eq!(parse_error("A, 1, c"), expected_identifier(2, Found::Other));
    assert_eq!(parse_error("A, _, c"), expected_identifier(2, keyword("_")));
    assert_eq!(parse_error("A, b,"), expected_identifier(4, Found::End));
    assert_eq!(parse_error("A, b, [c]"), expected_identifier(4, Found::Other));
    assert_eq!(parse_error("A b, c"), MetaError::ExpectedComma(1));
    assert_eq!(parse_error("A, b c"), MetaError::ExpectedComma(3));
    assert_eq!(parse_error("/// a\nA, b c"), MetaError::ExpectedComma(3));
    assert_eq!(parse_error("A"), MetaError::ExpectedComma(1));
    let left = "unexpected token, expected `]`".to_string();
    assert_eq!(parse_error("#[doc = \"x\" y] A, b, c"), MetaError::UnexpectedToken(left));
    assert_eq!(parse_error("#[doc = \"x\" y] A b"), MetaError::ExpectedComma(1));
    assert_eq!(
        parse_error("#[doc = \"x\" y] #[test] A, b, c"),
        MetaError::UnexpectedAttribute(1)
    );
}

#[test]
fn messages_of_declarations() {
    assert_eq!(parse_error("#[test] A, b, c").message(), "unexpected attribute");
    assert_eq!(parse_error("1, b, c").message(), "expected identifier");
    assert_eq!(parse_error("A, ").message(), "unexpected end of input, expected identifier");
    assert_eq!(
        parse_error("A, b, fn").message(),
        "expected identifier, found keyword `fn`"
    );
    assert_eq!(parse_error("A; b, c").message(), "expected `,`");
    assert_eq!(parse_error("A").message(), "expected `,`");
    assert_eq!(
        parse_error("#[doc = \"x\" y] A, b, c").message(),
        "unexpected token, expected `]`"
    );
    assert_eq!(parse_error("# A, b, c").message(), "expected square brackets");
}

/// What syn says of the tokens, read one by one.
fn said_by_syn(tokens: TokenStream) -> Option<String> {
    let read = |input: ParseStream| -> syn::Result<()> {
        for attr in input.call(syn::Attribute::parse_outer)? {
            let is_doc = match &attr.meta {
                syn::Meta::NameValue(meta) => {
                    meta.path.is_ident("doc")
                        && matches!(
                            &meta.value,
                            syn::Expr::Lit(syn::ExprLit { lit: syn::Lit::Str(_), .. })
                        )
                }
                _ => false,
            };
            if !is_doc {
                return Err(syn::Error::new_spanned(attr, "unexpected attribute"));
            }
        }
        input.parse::<syn::Ident>()?;
        input.parse::<syn::token::Comma>()?;
        input.parse::<syn::Ident>()?;
        input.parse::<syn::token::Comma>()?;
        input.parse::<syn::Ident>()?;
        if input.peek(syn::token::Comma) {
            input.parse::<syn::token::Comma>()?;
            input.parse::<Option<syn::Ident>>()?;
        }
        input.parse::<TokenStream>()?;
        Ok(())
    };
    read.parse2(tokens).err().map(|error| error.to_string())
}

fn said(tokens: &TokenStream) -> Option<String> {
    LintRuleMeta::parse(tokens, false).err().map(|error| error.message())
}

#[test]
fn messages_are_those_of_syn() {
    for source in [
        "A, b, c",
        "A, b, c, fix",
        "A, b, c,",
        "A, b, c, fn",
        "#",
        "# A, b, c",
        "#! [doc] A, b, c",
        "#(doc) A, b, c",
        "#[] A, b, c",
        "#[1] A, b, c",
        "#[doc =] A, b, c",
        "#[doc = #[x] y] A, b, c",
        "#[fn = 1] A, b, c",
        "#[doc::] A, b, c",
        "#[doc = \"x\" y] A, b, c",
        "#[doc x] A, b, c",
        "#[doc = \"x\" y] A b",
        "#[doc = \"x\" y]",
        "#[test] #[1] A",
        "/// a\n#[test] A",
        "",
        "/// a\n",
        "A",
        "A,",
        "A, b",
        "A, b,",
        "1",
        "(A), b, c",
        "'a, b, c",
        "fn, b, c",
        "A, _, c",
        "A, b, self",
        "A; b",
        "A, b; c",
        "A,, b",
    ] {
        let tokens = stream(source);
        assert_eq!(said(&tokens), said_by_syn(tokens.clone()), "{}", source);
        // The same with an invisible group behind, and around.
        let mut longer = tokens.clone();
        longer.extend([invisible("")]);
        assert_eq!(said(&longer), said_by_syn(longer.clone()), "{} behind", source);
        let mut nested = TokenStream::new();
        nested.extend([TokenTree::Group(Group::new(Delimiter::None, longer))]);
        assert_eq!(said(&nested), said_by_syn(nested.clone()), "{} around", source);
    }
}

fn invisible(source: &str) -> TokenTree {
    TokenTree::Group(Group::new(Delimiter::None, stream(source)))
}

#[test]
fn invisible_groups_do_not_count() {
    let mut tokens = stream("/// a\n");
    tokens.extend([invisible("A")]);
    tokens.extend(stream(", "));
    let mut nested = TokenStream::new();
    nested.extend([invisible("b ,"), invisible("")]);
    tokens.extend([TokenTree::Group(Group::new(Delimiter::None, nested))]);
    tokens.extend(stream("c, fix"));
    let meta = LintRuleMeta::parse(&tokens, true).unwrap();
    assert_eq!(meta.name, "A");
    assert_eq!(meta.plugin, "b");
    assert_eq!(meta.category, "c");
    assert_eq!(meta.fix.as_deref(), Some("fix"));
    assert_eq!(meta.documentation.as_deref(), Some("a\n"));
    // A group in parentheses is no name.
    assert_eq!(parse_error("(A), b, c"), expected_identifier(0, Found::Other));
    // A keyword is none either, in a group or not.
    let mut tokens = TokenStream::new();
    tokens.extend([invisible("fn")]);
    assert_eq!(
        LintRuleMeta::parse(&tokens, true).unwrap_err(),
        expected_identifier(0, keyword("fn"))
    );
    // One that opens behind the last token keeps the tokens from ending there.
    let mut tokens = stream("A, ");
    tokens.extend([invisible("")]);
    assert_eq!(
        LintRuleMeta::parse(&tokens, true).unwrap_err(),
        expected_identifier(2, Found::Other)
    );
}

#[test]
fn raw_identifiers_are_identifiers() {
    assert_eq!(parse("r#struct, b, c").name, "r#struct");
}

fn named(path: &[&str], value: AttributeValue) -> Attribute {
    Attribute::NameValue { path: path.iter().map(|segment| segment.to_string()).collect(), value }
}

fn doc(text: &str) -> Attribute {
    named(&["doc"], AttributeValue::StringLiteral(text.to_string()))
}

fn ident(text: &str) -> Item {
    Item::Ident(text.to_string())
}

#[test]
fn declaration_from_its_parts() {
    let items = |attributes: usize| {
        let mut list = Vec::new();
        for _ in 0..2 * attributes {
            list.push(Item::Other);
        }
        list.extend([
            ident("A"),
            Item::Comma,
            ident("b"),
            Item::Comma,
            ident("c"),
            Item::Comma,
            ident("fix"),
            Item::Other,
        ]);
        list
    };
    let attrs = vec![doc(" x"), doc("y")];
    let meta = LintRuleMeta::from_parts(&attrs, None, &items(2), true).unwrap();
    assert_eq!(meta.name, "A");
    assert_eq!(meta.plugin, "b");
    assert_eq!(meta.category, "c");
    assert_eq!(meta.fix.as_deref(), Some("fix"));
    assert_eq!(meta.documentation.as_deref(), Some("x\ny\n"));
    let error = |attrs: Vec<Attribute>, left: Option<&str>, items: Vec<Item>| {
        LintRuleMeta::from_parts(&attrs, left.map(str::to_string), &items, true).unwrap_err()
    };
    assert_eq!(
        error(vec![doc("x"), Attribute::List], Some("left"), items(2)),
        MetaError::UnexpectedAttribute(1)
    );
    assert_eq!(error(vec![Attribute::Path], None, items(1)), MetaError::UnexpectedAttribute(0));
    assert_eq!(
        error(vec![], Some("left"), items(0)),
        MetaError::UnexpectedToken("left".to_string())
    );
    assert_eq!(error(vec![], None, vec![ident("A"), ident("b")]), MetaError::ExpectedComma(1));
    assert_eq!(error(vec![], None, vec![Item::Comma]), expected_identifier(0, Found::Other));
    assert_eq!(
        error(vec![doc("x")], None, vec![Item::Other]),
        expected_identifier(0, Found::End)
    );
    assert_eq!(
        error(vec![], None, vec![Item::Keyword("fn".to_string())]),
        expected_identifier(0, keyword("fn"))
    );
}

#[test]
fn what_follows_a_settled_declaration_does_not_count() {
    for (source, more) in [("A, b, c;", "x, y"), ("A, b, c, fix", ", y"), ("A b", ", c, d"), ("1", "A")]
    {
        let longer = format!("{} {}", source, more);
        let short = LintRuleMeta::parse(&stream(source), true);
        let long = LintRuleMeta::parse(&stream(&longer), true);
        match (short, long) {
            (Ok(a), Ok(b)) => {
                assert_eq!(a.name, b.name);
                assert_eq!(a.category, b.category);
                assert_eq!(a.fix, b.fix);
            }
            (Err(a), Err(b)) => assert_eq!(a, b),
            other => panic!("{:?}", other),
        }
    }
}

#[test]
fn the_first_attribute_that_is_no_doc_comment_is_found() {
    assert_eq!(documentation(&vec![doc("x"), doc(" y")]), Ok("x\ny\n".to_string()));
    assert_eq!(
        documentation(&vec![doc("x"), Attribute::Path, doc("y"), Attribute::List]),
        Err(1)
    );
    assert_eq!(documentation(&vec![]), Ok(String::new()));
}

#[test]
fn attributes_are_found_by_their_path() {
    assert_eq!(parse_attr(["doc"], &doc("x")).map(String::as_str), Some("x"));
    assert_eq!(parse_attr(["docs"], &doc("x")), None);
    assert_eq!(parse_attr(["doc", "doc"], &doc("x")), None);
    assert_eq!(parse_attr([], &doc("x")), None);
    assert_eq!(parse_attr(["doc"], &Attribute::Path), None);
    assert_eq!(parse_attr(["doc"], &Attribute::List), None);
    let nested = named(&["a", "b"], AttributeValue::StringLiteral("x".to_string()));
    assert_eq!(parse_attr(["a", "b"], &nested).map(String::as_str), Some("x"));
    assert_eq!(parse_attr(["b", "a"], &nested), None);
    assert_eq!(parse_attr(["doc"], &named(&["doc"], AttributeValue::OtherLiteral)), None);
    assert_eq!(parse_attr(["doc"], &named(&["doc"], AttributeValue::Expression)), None);
}

#[test]
fn documentation_lines_lose_one_space() {
    assert_eq!(documentation_line(" a b "), "a b \n");
    assert_eq!(documentation_line("  a"), " a\n");
    assert_eq!(documentation_line("a"), "a\n");
    assert_eq!(documentation_line("\ta"), "\ta\n");
    assert_eq!(documentation_line(" "), "\n");
    assert_eq!(documentation_line(""), "\n");
}

#[test]
fn rule_names_are_kebab_case() {
    assert_eq!(rule_name_converter("NoStringRefs"), "no-string-refs");
    assert_eq!(rule_name_converter("NoDebugger"), "no-debugger");
    // A digit stays with a lower case letter in front of it, and with no other letter.
    assert_eq!(rule_name_converter("UseES6Class"), "use-es-6-class");
    assert_eq!(rule_name_converter("NoUnsafeAs2Cast"), "no-unsafe-as2-cast");
}

fn fix_code(word: &str) -> String {
    write_fix(&parse_fix(word))
}

fn fix_message(word: &str) -> String {
    try_parse_fix(word).unwrap_err().message()
}

#[test]
fn single_words_for_fixes() {
    assert_eq!(fix_code("none"), "RuleFixMeta::None");
    assert_eq!(fix_code("pending"), "RuleFixMeta::FixPending");
    assert_eq!(fix_code("fix"), "RuleFixMeta::Fixable(FixKind::SafeFix)");
    assert_eq!(fix_code("suggestion"), "RuleFixMeta::Fixable(FixKind::Suggestion)");
}

#[test]
fn joined_words_for_fixes() {
    assert_eq!(fix_code("fix_dangerous"), "RuleFixMeta::Fixable(FixKind::Fix.union(FixKind::Dangerous))");
    assert_eq!(fix_code("conditional_fix"), "RuleFixMeta::Conditional(FixKind::Fix)");
    assert_eq!(fix_code("fix_conditional"), "RuleFixMeta::Conditional(FixKind::Fix)");
    assert_eq!(
        fix_code("fix_or_suggestion"),
        "RuleFixMeta::Fixable(FixKind::Fix.union(FixKind::Suggestion))"
    );
    assert_eq!(
        fix_code("conditional_dangerous_fix_and_suggestion"),
        "RuleFixMeta::Conditional(FixKind::Dangerous.union(FixKind::Fix).union(FixKind::Suggestion))"
    );
}

#[test]
fn repeated_and_joining_words_add_nothing() {
    assert_eq!(fix_code("fix_fix"), "RuleFixMeta::Fixable(FixKind::Fix)");
    assert_eq!(
        fix_code("suggestion_fix_suggestion_and_fix"),
        "RuleFixMeta::Fixable(FixKind::Suggestion.union(FixKind::Fix))"
    );
    assert_eq!(fix_code("fix_or"), "RuleFixMeta::Fixable(FixKind::Fix)");
    match parse_fix("fix_dangerous_fix") {
        RuleFixMeta::Fixable(kinds) => assert_eq!(kinds, vec![FixKind::Fix, FixKind::Dangerous]),
        other => panic!("{:?}", other),
    }
}

#[test]
fn errors_of_fixes() {
    assert_eq!(
        fix_message("conditional"),
        "Invalid fix capabilities: missing a fix kind. Did you mean 'fix-conditional'?"
    );
    assert_eq!(fix_message("None"), "Invalid fix capabilities. Did you mean 'none'?");
    assert_eq!(fix_message("Pending"), "Invalid fix capabilities. Did you mean 'pending'?");
    assert_eq!(fix_message("Fix"), "Invalid fix capabilities. Did you mean 'fix'?");
    assert_eq!(fix_message("Suggestion"), "Invalid fix capabilities. Did you mean 'suggestion'?");
    assert_eq!(
        fix_message("dangerous"),
        "invalid fix capabilities: dangerous. Valid capabilities are none, pending, fix, suggestion, or [fix|suggestion]_[conditional?]_[dangerous?]."
    );
    assert_eq!(
        fix_message("fix_safely"),
        "invalid fix kind: safely. Valid fix kinds are fix, suggestion, or dangerous."
    );
    assert_eq!(
        fix_message("fix__dangerous"),
        "invalid fix kind: . Valid fix kinds are fix, suggestion, or dangerous."
    );
    assert_eq!(
        fix_message("conditional_and"),
        "No fix kinds were found during parsing, but at least one is required."
    );
    assert!(matches!(try_parse_fix("a_b").unwrap_err(), FixError::InvalidKind(part) if part == "a"));
}

#[test]
fn words_that_name_no_fixes() {
    for word in [
        "conditional", "None", "Pending", "Fix", "Suggestion", "dangerous", "", "fix_",
        "fix_pending", "conditional_or",
    ] {
        assert!(try_parse_fix(word).is_err());
    }
    for word in ["none", "pending", "fix", "suggestion", "or_fix", "dangerous_conditional"] {
        assert!(try_parse_fix(word).is_ok());
    }
}

#[test]
fn kinds_of_fixes() {
    assert_eq!(parse_fix_kind("fix"), FixKind::Fix);
    assert_eq!(parse_fix_kind("suggestion"), FixKind::Suggestion);
    assert_eq!(parse_fix_kind("dangerous"), FixKind::Dangerous);
    assert_eq!(try_parse_fix_kind("fix").unwrap(), FixKind::Fix);
    for word in ["conditional", "none", "Fix", ""] {
        assert!(try_parse_fix_kind(word).is_err());
    }
}

#[test]
fn code_of_a_rule() {
    let meta = LintRuleMeta::parse(&stream("NoStringRefs, react, correctness"), false).unwrap();
    assert_eq!(
        render(&declare_oxc_lint(meta)),
        tokens(
            "use crate::{rule::{RuleCategory, RuleMeta, RuleFixMeta}, fixer::FixKind};
            impl RuleMeta for NoStringRefs {
                const NAME: &'static str = \"no-string-refs\";
                const PLUGIN: &'static str = \"react\";
                const CATEGORY: RuleCategory = RuleCategory::Correctness;
            }"
        )
    );
}

#[test]
fn code_of_a_rule_with_everything() {
    let mut meta = parse("/// Says \"no\".\nNoVar, eslint, restriction, fix_dangerous");
    meta.used_in_test = true;
    assert_eq!(
        render(&declare_oxc_lint(meta)),
        tokens(
            "impl RuleMeta for NoVar {
                const NAME: &'static str = \"no-var\";
                const PLUGIN: &'static str = \"eslint\";
                const CATEGORY: RuleCategory = RuleCategory::Restriction;
                const FIX: RuleFixMeta = RuleFixMeta::Fixable(FixKind::Fix.union(FixKind::Dangerous));
                fn documentation() -> Option<&'static str> {
                    Some(\"Says \\\"no\\\".\\n\")
                }
            }"
        )
    );
}

#[test]
fn tests_have_no_import() {
    let code = |used_in_test: bool| {
        let mut meta = parse("NoVar, eslint, style, fix");
        meta.used_in_test = used_in_test;
        render(&declare_oxc_lint(meta))
    };
    let import = tokens("use crate::{rule::{RuleCategory, RuleMeta, RuleFixMeta}, fixer::FixKind};");
    assert_eq!(code(false), format!("{} {}", import, code(true)));
}

#[test]
fn the_name_is_written_as_given() {
    let code = write_rule(parse("NoVar, eslint, style"), "other-name".to_string()).unwrap();
    assert!(render(&code).contains("\"other-name\""));
}

#[test]
fn categories() {
    for (word, code) in [
        ("correctness", "Correctness"),
        ("suspicious", "Suspicious"),
        ("pedantic", "Pedantic"),
        ("perf", "Perf"),
        ("style", "Style"),
        ("restriction", "Restriction"),
        ("nursery", "Nursery"),
    ] {
        let source = format!("A, b, {}", word);
        let code = format!("RuleCategory::{}", code);
        let pieces = declare_oxc_lint(parse(&source));
        assert!(pieces
            .iter()
            .any(|piece| matches!(piece, Piece::Source(text) if *text == code)));
    }
    let error = try_declare_oxc_lint(parse("A, b, Correctness, None")).unwrap_err();
    assert!(matches!(error, DeclareError::InvalidCategory));
    assert_eq!(error.message(), "invalid rule category");
    let error = try_declare_oxc_lint(parse("A, b, perf, None")).unwrap_err();
    assert_eq!(error.message(), "Invalid fix capabilities. Did you mean 'none'?");
}

#[test]
fn splitting_keeps_every_piece() {
    for text in ["", "_", "a", "a_b", "_a__b_", "\u{e9}_\u{e9}"] {
        assert_eq!(split(text, '_'), text.split('_').collect::<Vec<_>>());
        assert_eq!(split(text, '_').join("_"), text);
    }
}

#[test]
fn the_rule_is_named_as_declared() {
    let meta = parse("NoStringRefs, react, correctness");
    assert_eq!(rule_name_converter(&meta.name), NoStringRefs::NAME);
    assert_eq!(meta.plugin, NoStringRefs::PLUGIN);
    assert_eq!(meta.category, NoStringRefs::CATEGORY);
    assert_eq!(meta.fix, None);
}
