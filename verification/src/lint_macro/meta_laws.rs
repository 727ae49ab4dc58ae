//! What the tokens of a declaration promise of the metadata that is read from them.
use super::meta::{
    Found, FoundView, Item, ItemView, LintRuleMeta, MetaError, MetaErrorView, MetaView,
};
use super::tokens::{Attribute, AttributeValue, AttributeView, Delimiter, TreeView, ValueView};
use vstd::prelude::*;

verus! {

/// The model of the metadata holds every field as it is.
pub proof fn law_meta_model(meta: LintRuleMeta)
    ensures
        meta@.name == meta.name@,
        meta@.plugin == meta.plugin@,
        meta@.category == meta.category@,
        meta.fix is Some <==> meta@.fix is Some,
        meta.fix matches Some(fix) ==> meta@.fix == Some(fix@),
        meta.documentation is Some <==> meta@.documentation is Some,
        meta.documentation matches Some(text) ==> meta@.documentation == Some(text@),
        meta@.used_in_test == meta.used_in_test,
{
}

/// The models of tokens, errors and attributes hold what these hold.
pub proof fn law_models(item: Item, error: MetaError, attribute: Attribute)
    ensures
        item@ == (match item {
            Item::Ident(text) => ItemView::Ident(text@),
            Item::Keyword(text) => ItemView::Keyword(text@),
            Item::Comma => ItemView::Comma,
            Item::Other => ItemView::Other,
        }),
        error@ == (match error {
            MetaError::InvalidAttribute(text) => MetaErrorView::InvalidAttribute(text@),
            MetaError::UnexpectedAttribute(i) => MetaErrorView::UnexpectedAttribute(i as nat),
            MetaError::ExpectedIdentifier(i, Found::End) => MetaErrorView::ExpectedIdentifier(
                i as nat,
                FoundView::End,
            ),
            MetaError::ExpectedIdentifier(i, Found::Keyword(text)) =>
                MetaErrorView::ExpectedIdentifier(i as nat, FoundView::Keyword(text@)),
            MetaError::ExpectedIdentifier(i, Found::Other) => MetaErrorView::ExpectedIdentifier(
                i as nat,
                FoundView::Other,
            ),
            MetaError::ExpectedComma(i) => MetaErrorView::ExpectedComma(i as nat),
            MetaError::UnexpectedToken(text) => MetaErrorView::UnexpectedToken(text@),
        }),
        attribute is Path ==> attribute@ is Path,
        attribute is List ==> attribute@ is List,
        attribute matches Attribute::NameValue { path, value } ==> (
        attribute@ matches AttributeView::NameValue { path: segments, value: model }
            && segments.len() == path@.len() && (forall|i: int|
            0 <= i < path@.len() ==> #[trigger] segments[i] == path@[i]@) && model == (
        match value {
            AttributeValue::StringLiteral(text) => ValueView::StringLiteral(text@),
            AttributeValue::OtherLiteral => ValueView::OtherLiteral,
            AttributeValue::Expression => ValueView::Expression,
        })),
{
}

/// What is said where tokens are no declaration.
pub proof fn law_meta_messages(text: Seq<char>, i: nat)
    ensures
        super::meta::meta_error_message(MetaErrorView::InvalidAttribute(text)) == text,
        super::meta::meta_error_message(MetaErrorView::UnexpectedAttribute(i))
            == "unexpected attribute"@,
        super::meta::meta_error_message(MetaErrorView::ExpectedIdentifier(i, FoundView::End))
            == "unexpected end of input, expected identifier"@,
        super::meta::meta_error_message(
            MetaErrorView::ExpectedIdentifier(i, FoundView::Keyword(text)),
        ) == "expected identifier, found keyword `"@ + text + "`"@,
        super::meta::meta_error_message(MetaErrorView::ExpectedIdentifier(i, FoundView::Other))
            == "expected identifier"@,
        super::meta::meta_error_message(MetaErrorView::ExpectedComma(i)) == "expected `,`"@,
        super::meta::meta_error_message(MetaErrorView::UnexpectedToken(text)) == text,
{
}

/// A token is added to those in front of it as what it is: an identifier or a keyword with its
/// text, a comma, or neither. A group counts as one token that is neither, but what an invisible
/// group holds stands there as if the group were not.
pub proof fn law_one_token_more(before: Seq<TreeView>, tree: TreeView)
    ensures
        super::meta::items_in(Seq::empty()) == Seq::<ItemView>::empty(),
        tree matches TreeView::Ident(text) ==> super::meta::items_in(before.push(tree))
            == super::meta::items_in(before).push(
            if super::tokens::is_identifier(tree) {
                ItemView::Ident(text)
            } else {
                ItemView::Keyword(text)
            },
        ),
        tree matches TreeView::Punct { ch, joint } ==> super::meta::items_in(before.push(tree))
            == super::meta::items_in(before).push(
            if ch == ',' {
                ItemView::Comma
            } else {
                ItemView::Other
            },
        ),
        tree is Literal ==> super::meta::items_in(before.push(tree)) == super::meta::items_in(
            before,
        ).push(ItemView::Other),
        tree matches TreeView::Group(delimiter, inner) ==> super::meta::items_in(before.push(tree))
            == if delimiter == Delimiter::Invisible {
            super::meta::items_in(before) + super::meta::items_in(inner)
        } else {
            super::meta::items_in(before).push(ItemView::Other)
        },
{
    let longer = before.push(tree);
    assert(longer.drop_last() =~= before);
    assert(longer.last() == tree);
    reveal_with_fuel(super::meta::items_in, 3);
    reveal_with_fuel(super::meta::items_of, 3);
    assert(super::meta::items_in(longer) == super::meta::items_in(before) + super::meta::items_of(
        tree,
    ));
}

/// A declaration does not end where an invisible group opens behind its last token: one token
/// more stands there, which is none of those expected.
pub proof fn law_open_end(before: Seq<TreeView>, tree: TreeView)
    ensures
        !super::meta::has_hollow_end(Seq::empty()),
        super::meta::has_hollow_end(before.push(tree)) <==> (tree matches TreeView::Group(
            delimiter,
            inner,
        ) && delimiter == Delimiter::Invisible && (super::meta::items_in(inner).len() == 0
            || super::meta::has_hollow_end(inner))),
        super::meta::has_hollow_end(before) ==> super::meta::declared_items(before)
            == super::meta::items_in(before).push(ItemView::Other),
        !super::meta::has_hollow_end(before) ==> super::meta::declared_items(before)
            == super::meta::items_in(before),
{
    reveal_with_fuel(super::meta::has_hollow_end, 2);
    assert(before.push(tree).last() == tree);
}

/// The attribute `#[path = "text"]` with a path of these segments.
pub open spec fn sets_text(attr: AttributeView, path: Seq<Seq<char>>, text: Seq<char>) -> bool {
    attr == AttributeView::NameValue { path, value: ValueView::StringLiteral(text) }
}

/// The text of an attribute is the string that it sets under that path; the text of a doc
/// comment is what it sets under `doc`.
pub proof fn law_attribute_text(path: Seq<Seq<char>>, attr: AttributeView, text: Seq<char>)
    ensures
        super::meta::attr_text(path, attr) == Some(text) <==> sets_text(attr, path, text),
        super::meta::doc_text(attr) == Some(text) <==> sets_text(attr, seq!["doc"@], text),
{
}

/// One attribute more: a doc comment adds its text, without one space in front of it, and a line
/// break. Anything else is the first attribute that was not expected, unless there was one.
pub proof fn law_one_attribute_more(
    attrs: Seq<AttributeView>,
    attr: AttributeView,
    text: Seq<char>,
    lines: Seq<char>,
)
    ensures
        super::meta::documentation_of(Seq::empty()) == Ok::<Seq<char>, nat>(Seq::empty()),
        super::meta::documentation_of(attrs) is Err ==> super::meta::documentation_of(
            attrs.push(attr),
        ) == super::meta::documentation_of(attrs),
        super::meta::documentation_of(attrs) == Ok::<Seq<char>, nat>(lines) && sets_text(
            attr,
            seq!["doc"@],
            seq![' '] + text,
        ) ==> super::meta::documentation_of(attrs.push(attr)) == Ok::<Seq<char>, nat>(
            lines + text + seq!['\n'],
        ),
        super::meta::documentation_of(attrs) == Ok::<Seq<char>, nat>(lines) && sets_text(
            attr,
            seq!["doc"@],
            text,
        ) && (text.len() > 0 ==> text[0] != ' ') ==> super::meta::documentation_of(attrs.push(attr))
            == Ok::<Seq<char>, nat>(lines + text + seq!['\n']),
        super::meta::documentation_of(attrs) is Ok && (forall|other: Seq<char>|
            !sets_text(attr, seq!["doc"@], other)) ==> super::meta::documentation_of(
            attrs.push(attr),
        ) == Err::<Seq<char>, nat>(attrs.len()),
{
    assert(attrs.push(attr).drop_last() =~= attrs);
    assert((seq![' '] + text).skip(1) =~= text);
    assert(lines + text.push('\n') =~= lines + text + seq!['\n']);
    if forall|other: Seq<char>| !sets_text(attr, seq!["doc"@], other) {
        if let Some(other) = super::meta::doc_text(attr) {
            law_attribute_text(seq!["doc"@], attr, other);
        }
    }
}

/// The token of that number behind the attributes, each of which is two tokens.
pub open spec fn token_behind(attrs: Seq<AttributeView>, items: Seq<ItemView>, i: int) -> Option<
    ItemView,
> {
    if 2 * attrs.len() + i < items.len() {
        Some(items[2 * attrs.len() + i])
    } else {
        None
    }
}

/// What is expected at that place: an identifier at the even ones, a comma at the odd ones.
pub open spec fn is_expected(attrs: Seq<AttributeView>, items: Seq<ItemView>, i: int) -> bool {
    if i % 2 == 0 {
        token_behind(attrs, items, i) matches Some(item) && item is Ident
    } else {
        token_behind(attrs, items, i) == Some(ItemView::Comma)
    }
}

proof fn lemma_places(attrs: Seq<AttributeView>, items: Seq<ItemView>, i: int)
    requires
        0 <= i,
    ensures
        ({
            let rest = super::meta::after_attributes(items, attrs.len());
            let item = token_behind(attrs, items, i);
            &&& super::meta::comma_at(rest, i) == (item == Some(ItemView::Comma))
            &&& super::meta::ident_at(rest, i) is Some <==> item is Some && item->0 is Ident
            &&& super::meta::ident_at(rest, i) matches Some(text) ==> item == Some(
                ItemView::Ident(text),
            )
            &&& super::meta::found_at(rest, i) == (match item {
                None => FoundView::End,
                Some(ItemView::Keyword(text)) => FoundView::Keyword(text),
                Some(_) => FoundView::Other,
            })
        }),
{
    if 2 * attrs.len() + i < items.len() {
        assert(items.skip(2 * attrs.len() as int)[i] == items[2 * attrs.len() + i]);
    }
}

/// A declaration that is read: its name, plugin and category are the identifiers in the first,
/// third and fifth place behind the attributes, with commas between; its fixes are the identifier
/// in the seventh place, if a comma stands in front of it; its documentation is that of the
/// attributes, where it is wanted.
pub proof fn law_declared(
    attrs: Seq<AttributeView>,
    left: Option<Seq<char>>,
    items: Seq<ItemView>,
    ruledocs: bool,
)
    ensures
        super::meta::declaration(attrs, left, items, ruledocs) is Ok <==> {
            &&& super::meta::documentation_of(attrs) is Ok
            &&& left is None
            &&& is_expected(attrs, items, 0)
            &&& is_expected(attrs, items, 1)
            &&& is_expected(attrs, items, 2)
            &&& is_expected(attrs, items, 3)
            &&& is_expected(attrs, items, 4)
        },
        super::meta::declaration(attrs, left, items, ruledocs) matches Ok(meta) ==> {
            &&& token_behind(attrs, items, 0) == Some(ItemView::Ident(meta.name))
            &&& token_behind(attrs, items, 2) == Some(ItemView::Ident(meta.plugin))
            &&& token_behind(attrs, items, 4) == Some(ItemView::Ident(meta.category))
            &&& meta.fix is Some <==> is_expected(attrs, items, 5) && is_expected(attrs, items, 6)
            &&& meta.fix matches Some(fix) ==> token_behind(attrs, items, 6) == Some(
                ItemView::Ident(fix),
            )
            &&& meta.documentation is Some <==> ruledocs
            &&& meta.documentation matches Some(lines) ==> super::meta::documentation_of(attrs)
                == Ok::<Seq<char>, nat>(lines)
            &&& !meta.used_in_test
        },
{
    lemma_places(attrs, items, 0);
    lemma_places(attrs, items, 1);
    lemma_places(attrs, items, 2);
    lemma_places(attrs, items, 3);
    lemma_places(attrs, items, 4);
    lemma_places(attrs, items, 5);
    lemma_places(attrs, items, 6);
}

/// A declaration that is refused: an attribute that is no doc comment comes before all else, and
/// then the first place where something else stands than is expected, with what stands there.
/// Tokens that are left in an attribute come last.
pub proof fn law_refused(
    attrs: Seq<AttributeView>,
    left: Option<Seq<char>>,
    items: Seq<ItemView>,
    ruledocs: bool,
    i: int,
)
    ensures
        ({
            let given = super::meta::declaration(attrs, left, items, ruledocs);
            let found = match token_behind(attrs, items, i) {
                None => FoundView::End,
                Some(ItemView::Keyword(text)) => FoundView::Keyword(text),
                Some(_) => FoundView::Other,
            };
            &&& super::meta::documentation_of(attrs) matches Err(n) ==> given == Err::<
                MetaView,
                MetaErrorView,
            >(MetaErrorView::UnexpectedAttribute(n))
            &&& super::meta::documentation_of(attrs) is Ok && 0 <= i <= 4 && !is_expected(
                attrs,
                items,
                i,
            ) && (forall|j: int| 0 <= j < i ==> #[trigger] is_expected(attrs, items, j)) ==> given
                == Err::<MetaView, MetaErrorView>(
                if i % 2 == 0 {
                    MetaErrorView::ExpectedIdentifier(i as nat, found)
                } else {
                    MetaErrorView::ExpectedComma(i as nat)
                },
            )
            &&& super::meta::documentation_of(attrs) is Ok && (forall|j: int|
                0 <= j <= 4 ==> #[trigger] is_expected(attrs, items, j)) ==> (left matches Some(text)
                ==> given == Err::<MetaView, MetaErrorView>(MetaErrorView::UnexpectedToken(text)))
        }),
{
    lemma_places(attrs, items, 0);
    lemma_places(attrs, items, 1);
    lemma_places(attrs, items, 2);
    lemma_places(attrs, items, 3);
    lemma_places(attrs, items, 4);
    if 0 <= i <= 4 && (forall|j: int| 0 <= j < i ==> #[trigger] is_expected(attrs, items, j)) {
        assert(i > 0 ==> is_expected(attrs, items, 0));
        assert(i > 1 ==> is_expected(attrs, items, 1));
        assert(i > 2 ==> is_expected(attrs, items, 2));
        assert(i > 3 ==> is_expected(attrs, items, 3));
    }
    if forall|j: int| 0 <= j <= 4 ==> #[trigger] is_expected(attrs, items, j) {
        assert(is_expected(attrs, items, 0));
        assert(is_expected(attrs, items, 1));
        assert(is_expected(attrs, items, 2));
        assert(is_expected(attrs, items, 3));
        assert(is_expected(attrs, items, 4));
    }
}

/// What tokens declare is what the attributes at their start and all tokens together declare. An
/// attribute that cannot be read comes before all else.
pub proof fn law_declared_in(trees: Seq<TreeView>, ruledocs: bool)
    ensures
        match super::tokens::leading_attributes(trees) {
            (Some(attrs), left) => super::meta::declaration_in(trees, ruledocs)
                == super::meta::declaration(
                attrs,
                left,
                super::meta::declared_items(trees),
                ruledocs,
            ),
            (None, Some(text)) => super::meta::declaration_in(trees, ruledocs) == Err::<
                MetaView,
                MetaErrorView,
            >(MetaErrorView::InvalidAttribute(text)),
            (None, None) => super::meta::declaration_in(trees, ruledocs) is Err,
        },
{
}

} // verus!
