//! The tokens and attributes of a rule declaration.
use proc_macro2::{Delimiter as Enclosure, Spacing, TokenStream, TokenTree};
use syn::parse::{ParseStream, Parser};
use syn::Expr::Lit as LitExpr;
use syn::Lit::Str as StrLit;
use syn::{Attribute as OuterAttribute, Meta};
use self::Attribute::{List, NameValue, Path};
use self::AttributeValue::{Expression, OtherLiteral, StringLiteral};
use vstd::prelude::*;

verus! {

/// The tokens that a macro is given. They were made by the lexer that `proc_macro2` has in
/// force, the compiler's inside a procedural macro and the crate's own elsewhere; the crate
/// panics where one has been put in the place of the other since.
#[verifier::external_type_specification]
#[verifier::external_body]
pub struct ExTokenStream(TokenStream);

/// What encloses a group of tokens.
#[derive(Clone, Copy, Debug, PartialEq, Eq, Structural)]
pub enum Delimiter {
    Parenthesis,
    Brace,
    Bracket,
    /// Nothing that the source shows: the group is what another macro was given as one piece.
    Invisible,
}

/// A token, or a group of tokens with what encloses it.
#[derive(Debug)]
pub enum Tree {
    Ident(String),
    /// A character, and whether the next one is part of the same sign.
    Punct { ch: char, joint: bool },
    /// The text of a literal.
    Literal(String),
    Group(Delimiter, TokenStream),
}

/// The model of a [`Tree`].
#[verifier::ext_equal]
pub enum TreeView {
    Ident(Seq<char>),
    Punct { ch: char, joint: bool },
    Literal(Seq<char>),
    Group(Delimiter, Seq<TreeView>),
}

impl View for Tree {
    type V = TreeView;

    open spec fn view(&self) -> TreeView {
        match self {
            Tree::Ident(text) => TreeView::Ident(text@),
            Tree::Punct { ch, joint } => TreeView::Punct { ch: *ch, joint: *joint },
            Tree::Literal(text) => TreeView::Literal(text@),
            Tree::Group(delimiter, inner) => TreeView::Group(*delimiter, contents(*inner)),
        }
    }
}

/// The value of an attribute.
#[derive(Debug)]
pub enum AttributeValue {
    /// A string literal, by the string that it stands for.
    StringLiteral(String),
    OtherLiteral,
    /// An expression that is no literal.
    Expression,
}

/// The model of an [`AttributeValue`].
#[verifier::ext_equal]
pub enum ValueView {
    StringLiteral(Seq<char>),
    OtherLiteral,
    Expression,
}

impl View for AttributeValue {
    type V = ValueView;

    open spec fn view(&self) -> ValueView {
        match self {
            AttributeValue::StringLiteral(text) => ValueView::StringLiteral(text@),
            AttributeValue::OtherLiteral => ValueView::OtherLiteral,
            AttributeValue::Expression => ValueView::Expression,
        }
    }
}

/// An outer attribute. A doc comment is the attribute `#[doc = "..."]`.
#[derive(Debug)]
pub enum Attribute {
    /// `#[path]`.
    Path,
    /// `#[path(...)]`.
    List,
    /// `#[path = value]`, with the segments of the path.
    NameValue { path: Vec<String>, value: AttributeValue },
}

/// The model of an [`Attribute`].
#[verifier::ext_equal]
pub enum AttributeView {
    Path,
    List,
    NameValue { path: Seq<Seq<char>>, value: ValueView },
}

impl View for Attribute {
    type V = AttributeView;

    open spec fn view(&self) -> AttributeView {
        match self {
            Attribute::Path => AttributeView::Path,
            Attribute::List => AttributeView::List,
            Attribute::NameValue { path, value } => AttributeView::NameValue {
                path: crate::text::texts(path@),
                value: value@,
            },
        }
    }
}

/// The models of a list of trees.
pub open spec fn tree_views(trees: Seq<Tree>) -> Seq<TreeView> {
    trees.map_values(|tree: Tree| tree@)
}

/// The models of a list of attributes.
pub open spec fn attribute_views(attributes: Seq<Attribute>) -> Seq<AttributeView> {
    attributes.map_values(|attribute: Attribute| attribute@)
}

/// The models of a list of attributes that may be absent.
pub open spec fn optional_views(attributes: Option<Vec<Attribute>>) -> Option<
    Seq<AttributeView>,
> {
    match attributes {
        Some(attributes) => Some(attribute_views(attributes@)),
        None => None,
    }
}

/// What a stream of tokens holds, in order.
pub uninterp spec fn contents(stream: TokenStream) -> Seq<TreeView>;

/// The outer attributes at the start of the tokens, unless one of them cannot be read, and what
/// is said where one cannot be read or has tokens left between its brackets.
pub uninterp spec fn leading_attributes(trees: Seq<TreeView>) -> (
    Option<Seq<AttributeView>>,
    Option<Seq<char>>,
);

/// The token is an identifier and no keyword.
pub uninterp spec fn is_identifier(tree: TreeView) -> bool;

/// `proc_macro2::TokenStream::into_iter`: what the stream holds, in order.
#[verifier::external_body]
pub(crate) fn trees(stream: &TokenStream) -> (trees: Vec<Tree>)
    ensures
        tree_views(trees@) == contents(*stream),
{
    stream.clone().into_iter().map(|tree| match tree {
        TokenTree::Ident(ident) => Tree::Ident(ident.to_string()),
        TokenTree::Punct(punct) => Tree::Punct {
            ch: punct.as_char(),
            joint: punct.spacing() == Spacing::Joint,
        },
        TokenTree::Literal(literal) => Tree::Literal(literal.to_string()),
        TokenTree::Group(group) => Tree::Group(match group.delimiter() {
            Enclosure::Parenthesis => Delimiter::Parenthesis,
            Enclosure::Brace => Delimiter::Brace,
            Enclosure::Bracket => Delimiter::Bracket,
            Enclosure::None => Delimiter::Invisible,
        }, group.stream()),
    }).collect()
}

/// `syn::parse2` for `syn::Ident`, on each token by itself: tells which are identifiers and no
/// keywords. This rests on the token alone.
#[verifier::external_body]
pub(crate) fn identifiers(stream: &TokenStream) -> (accepted: Vec<bool>)
    ensures
        accepted@ == contents(*stream).map_values(|tree: TreeView| is_identifier(tree)),
{
    stream.clone().into_iter().map(|tree| syn::parse2::<syn::Ident>(tree.into()).is_ok()).collect()
}

/// `syn::Attribute::parse_outer`, on the start of a stream: the attributes that stand there,
/// unless one of them cannot be read, and the text of the error that syn gives. There is always
/// an error where an attribute cannot be read; else there is one where tokens are left between
/// the brackets of an attribute. This rests on the tokens alone: the only text that is lexed on
/// the way is that of a number behind a minus sign, which is a literal and no string either way.
#[verifier::external_body]
pub(crate) fn outer_attributes(stream: &TokenStream) -> (read: (
    Option<Vec<Attribute>>,
    Option<String>,
))
    ensures
        leading_attributes(contents(*stream)) == (
            optional_views(read.0),
            crate::text::optional_text(read.1),
        ),
        read.0 is None ==> read.1 is Some,
{
    let mut read = None;
    let error = (|input: ParseStream| {
        read = Some(input.call(OuterAttribute::parse_outer)?);
        input.parse::<TokenStream>()
    }).parse2(stream.clone()).err();
    (read.map(|list| list.into_iter().map(|attribute| match attribute.meta {
        Meta::Path(_) => Path,
        Meta::List(_) => List,
        Meta::NameValue(meta) => NameValue {
            path: meta.path.segments.iter().map(|segment| segment.ident.to_string()).collect(),
            value: match meta.value { LitExpr(value) => match value.lit { StrLit(text) => StringLiteral(text.value()), _ => OtherLiteral }, _ => Expression }
        }
    }).collect()), error.map(|error| error.to_string()))
}

/// `itertools::equal`: tells whether both lists hold the same strings in the same order.
#[verifier::external_body]
pub(crate) fn equal(segments: &Vec<String>, path: &[&str]) -> (same: bool)
    ensures
        same == (crate::text::texts(segments@) == crate::text::slice_texts(path@)),
{
    itertools::equal(segments, path.iter().copied())
}

} // verus!
