//! The declaration of a lint rule.
use super::tokens::{
    equal, identifiers, outer_attributes, trees, Attribute, AttributeValue, AttributeView,
    Delimiter, Tree, TreeView, ValueView,
};
use proc_macro2::TokenStream;
use vstd::prelude::*;

verus! {

/// What a rule declaration says.
#[derive(Debug)]
pub struct LintRuleMeta {
    pub name: String,
    pub plugin: String,
    pub category: String,
    /// What auto-fixing capabilities the rule has.
    pub fix: Option<String>,
    /// The doc comment of the rule, if documentation is wanted.
    pub documentation: Option<String>,
    pub used_in_test: bool,
}

/// The model of a [`LintRuleMeta`].
#[verifier::ext_equal]
pub struct MetaView {
    pub name: Seq<char>,
    pub plugin: Seq<char>,
    pub category: Seq<char>,
    pub fix: Option<Seq<char>>,
    pub documentation: Option<Seq<char>>,
    pub used_in_test: bool,
}

impl View for LintRuleMeta {
    type V = MetaView;

    open spec fn view(&self) -> MetaView {
        MetaView {
            name: self.name@,
            plugin: self.plugin@,
            category: self.category@,
            fix: crate::text::optional_text(self.fix),
            documentation: crate::text::optional_text(self.documentation),
            used_in_test: self.used_in_test,
        }
    }
}

/// What stands where an identifier is expected.
#[derive(Clone, Debug, PartialEq, Eq)]
pub enum Found {
    /// Nothing: the tokens end.
    End,
    Keyword(String),
    Other,
}

/// The model of [`Found`].
#[verifier::ext_equal]
pub enum FoundView {
    End,
    Keyword(Seq<char>),
    Other,
}

impl View for Found {
    type V = FoundView;

    open spec fn view(&self) -> FoundView {
        match self {
            Found::End => FoundView::End,
            Found::Keyword(text) => FoundView::Keyword(text@),
            Found::Other => FoundView::Other,
        }
    }
}

/// Why tokens are no rule declaration, and at which attribute or token.
#[derive(Clone, Debug, PartialEq, Eq)]
pub enum MetaError {
    /// An attribute cannot be read, for the reason given.
    InvalidAttribute(String),
    /// The attribute of this number is the first that is no doc comment.
    UnexpectedAttribute(usize),
    /// The token of this number behind the attributes is no identifier, or there is none.
    ExpectedIdentifier(usize, Found),
    /// The token of this number behind the attributes is no comma, or there is none.
    ExpectedComma(usize),
    /// Tokens are left between the brackets of an attribute, as the text says.
    UnexpectedToken(String),
}

/// The model of a [`MetaError`].
#[verifier::ext_equal]
pub enum MetaErrorView {
    InvalidAttribute(Seq<char>),
    UnexpectedAttribute(nat),
    ExpectedIdentifier(nat, FoundView),
    ExpectedComma(nat),
    UnexpectedToken(Seq<char>),
}

impl View for MetaError {
    type V = MetaErrorView;

    open spec fn view(&self) -> MetaErrorView {
        match self {
            MetaError::InvalidAttribute(text) => MetaErrorView::InvalidAttribute(text@),
            MetaError::UnexpectedAttribute(i) => MetaErrorView::UnexpectedAttribute(*i as nat),
            MetaError::ExpectedIdentifier(i, found) => MetaErrorView::ExpectedIdentifier(
                *i as nat,
                found@,
            ),
            MetaError::ExpectedComma(i) => MetaErrorView::ExpectedComma(*i as nat),
            MetaError::UnexpectedToken(text) => MetaErrorView::UnexpectedToken(text@),
        }
    }
}

/// What a [`MetaError`] says.
pub open spec fn meta_error_message(error: MetaErrorView) -> Seq<char> {
    match error {
        MetaErrorView::InvalidAttribute(text) => text,
        MetaErrorView::UnexpectedAttribute(_) => "unexpected attribute"@,
        MetaErrorView::ExpectedIdentifier(_, FoundView::End) =>
            "unexpected end of input, expected identifier"@,
        MetaErrorView::ExpectedIdentifier(_, FoundView::Keyword(word)) =>
            "expected identifier, found keyword `"@ + word + "`"@,
        MetaErrorView::ExpectedIdentifier(_, FoundView::Other) => "expected identifier"@,
        MetaErrorView::ExpectedComma(_) => "expected `,`"@,
        MetaErrorView::UnexpectedToken(text) => text,
    }
}

impl MetaError {
    /// Says what is wrong.
    pub fn message(&self) -> (message: String)
        ensures
            message@ == meta_error_message(self@),
    {
        match self {
            MetaError::InvalidAttribute(text) => text.clone(),
            MetaError::UnexpectedAttribute(_) => "unexpected attribute".to_owned(),
            MetaError::ExpectedIdentifier(_, Found::End) =>
                "unexpected end of input, expected identifier".to_owned(),
            MetaError::ExpectedIdentifier(_, Found::Keyword(word)) =>
                "expected identifier, found keyword `".to_owned().concat(word.as_str()).concat("`"),
            MetaError::ExpectedIdentifier(_, Found::Other) => "expected identifier".to_owned(),
            MetaError::ExpectedComma(_) => "expected `,`".to_owned(),
            MetaError::UnexpectedToken(text) => text.clone(),
        }
    }
}

/// What a token is in a rule declaration.
#[derive(Debug)]
pub enum Item {
    /// An identifier that is no keyword.
    Ident(String),
    Keyword(String),
    Comma,
    Other,
}

/// The model of an [`Item`].
#[verifier::ext_equal]
pub enum ItemView {
    Ident(Seq<char>),
    Keyword(Seq<char>),
    Comma,
    Other,
}

impl View for Item {
    type V = ItemView;

    open spec fn view(&self) -> ItemView {
        match self {
            Item::Ident(text) => ItemView::Ident(text@),
            Item::Keyword(text) => ItemView::Keyword(text@),
            Item::Comma => ItemView::Comma,
            Item::Other => ItemView::Other,
        }
    }
}

/// The models of a list of items.
pub open spec fn item_views(items: Seq<Item>) -> Seq<ItemView> {
    items.map_values(|item: Item| item@)
}

/// What the tokens are in a rule declaration. What stands in an invisible group stands there
/// as if the group were not; any other group is one token.
pub open spec fn items_in(trees: Seq<TreeView>) -> Seq<ItemView>
    decreases trees,
{
    if trees.len() == 0 {
        Seq::empty()
    } else {
        items_in(trees.drop_last()) + items_of(trees.last())
    }
}

/// What one token, or one group, is in a rule declaration.
pub open spec fn items_of(tree: TreeView) -> Seq<ItemView>
    decreases tree,
{
    match tree {
        TreeView::Ident(text) => if super::tokens::is_identifier(tree) {
            seq![ItemView::Ident(text)]
        } else {
            seq![ItemView::Keyword(text)]
        },
        TreeView::Punct { ch, .. } => if ch == ',' {
            seq![ItemView::Comma]
        } else {
            seq![ItemView::Other]
        },
        TreeView::Literal(_) => seq![ItemView::Other],
        TreeView::Group(delimiter, inner) => if delimiter == Delimiter::Invisible {
            items_in(inner)
        } else {
            seq![ItemView::Other]
        },
    }
}

/// Behind the last token, or behind none at all, an invisible group opens.
pub open spec fn has_hollow_end(trees: Seq<TreeView>) -> bool
    decreases trees,
{
    if trees.len() == 0 {
        false
    } else {
        match trees.last() {
            TreeView::Group(Delimiter::Invisible, inner) => items_in(inner).len() == 0
                || has_hollow_end(inner),
            _ => false,
        }
    }
}

/// The tokens of a declaration. An invisible group that opens behind the last token keeps the
/// declaration from ending there: it stands for a token that is none of those expected.
pub open spec fn declared_items(trees: Seq<TreeView>) -> Seq<ItemView> {
    if has_hollow_end(trees) {
        items_in(trees).push(ItemView::Other)
    } else {
        items_in(trees)
    }
}

/// The string of an attribute with that path and a string for its value.
pub open spec fn attr_text(path: Seq<Seq<char>>, attr: AttributeView) -> Option<Seq<char>> {
    match attr {
        AttributeView::NameValue {
            path: segments,
            value: ValueView::StringLiteral(text),
        } => if segments == path {
            Some(text)
        } else {
            None
        },
        _ => None,
    }
}

/// The text of a doc comment.
pub open spec fn doc_text(attr: AttributeView) -> Option<Seq<char>> {
    attr_text(seq!["doc"@], attr)
}

/// A line of documentation: the text of a doc comment without one space in front, and a line
/// break.
pub open spec fn doc_line(text: Seq<char>) -> Seq<char> {
    if text.len() > 0 && text[0] == ' ' {
        text.skip(1).push('\n')
    } else {
        text.push('\n')
    }
}

/// The documentation that the attributes hold, or the number of the first that is no doc
/// comment.
pub open spec fn documentation_of(attrs: Seq<AttributeView>) -> Result<Seq<char>, nat>
    decreases attrs.len(),
{
    if attrs.len() == 0 {
        Ok(Seq::empty())
    } else {
        match (documentation_of(attrs.drop_last()), doc_text(attrs.last())) {
            (Err(i), _) => Err(i),
            (Ok(lines), Some(text)) => Ok(lines + doc_line(text)),
            (Ok(_), None) => Err((attrs.len() - 1) as nat),
        }
    }
}

/// The identifier at that place.
pub open spec fn ident_at(items: Seq<ItemView>, i: int) -> Option<Seq<char>> {
    if 0 <= i < items.len() {
        match items[i] {
            ItemView::Ident(text) => Some(text),
            _ => None,
        }
    } else {
        None
    }
}

/// What stands at a place where no identifier is.
pub open spec fn found_at(items: Seq<ItemView>, i: int) -> FoundView {
    if 0 <= i < items.len() {
        match items[i] {
            ItemView::Keyword(text) => FoundView::Keyword(text),
            _ => FoundView::Other,
        }
    } else {
        FoundView::End
    }
}

/// A comma stands at that place.
pub open spec fn comma_at(items: Seq<ItemView>, i: int) -> bool {
    0 <= i < items.len() && items[i] == ItemView::Comma
}

/// The tokens behind the attributes. An attribute is two tokens, `#` and what is in brackets.
pub open spec fn after_attributes(items: Seq<ItemView>, attributes: nat) -> Seq<ItemView> {
    if 2 * attributes <= items.len() {
        items.skip(2 * attributes as int)
    } else {
        Seq::empty()
    }
}

/// What a declaration says: doc comments, then the name of the rule, its plugin, its category
/// and, behind another comma, its fixes. What follows does not count.
pub open spec fn declaration(
    attrs: Seq<AttributeView>,
    left: Option<Seq<char>>,
    items: Seq<ItemView>,
    ruledocs: bool,
) -> Result<MetaView, MetaErrorView> {
    let rest = after_attributes(items, attrs.len());
    if documentation_of(attrs) is Err {
        Err(MetaErrorView::UnexpectedAttribute(documentation_of(attrs)->Err_0))
    } else if ident_at(rest, 0) is None {
        Err(MetaErrorView::ExpectedIdentifier(0, found_at(rest, 0)))
    } else if !comma_at(rest, 1) {
        Err(MetaErrorView::ExpectedComma(1))
    } else if ident_at(rest, 2) is None {
        Err(MetaErrorView::ExpectedIdentifier(2, found_at(rest, 2)))
    } else if !comma_at(rest, 3) {
        Err(MetaErrorView::ExpectedComma(3))
    } else if ident_at(rest, 4) is None {
        Err(MetaErrorView::ExpectedIdentifier(4, found_at(rest, 4)))
    } else if left is Some {
        Err(MetaErrorView::UnexpectedToken(left->0))
    } else {
        Ok(
            MetaView {
                name: ident_at(rest, 0)->0,
                plugin: ident_at(rest, 2)->0,
                category: ident_at(rest, 4)->0,
                fix: if comma_at(rest, 5) {
                    ident_at(rest, 6)
                } else {
                    None
                },
                documentation: if ruledocs {
                    Some(documentation_of(attrs)->Ok_0)
                } else {
                    None
                },
                used_in_test: false,
            },
        )
    }
}

/// What tokens declare.
pub open spec fn declaration_in(trees: Seq<TreeView>, ruledocs: bool) -> Result<
    MetaView,
    MetaErrorView,
> {
    match super::tokens::leading_attributes(trees) {
        (None, text) => Err(MetaErrorView::InvalidAttribute(text->0)),
        (Some(attrs), left) => declaration(attrs, left, declared_items(trees), ruledocs),
    }
}

/// A result and its model agree.
pub open spec fn agrees(
    given: Result<LintRuleMeta, MetaError>,
    expected: Result<MetaView, MetaErrorView>,
) -> bool {
    match (given, expected) {
        (Ok(meta), Ok(model)) => meta@ == model,
        (Err(error), Err(model)) => error@ == model,
        _ => false,
    }
}

/// The string of an attribute with that path and a string for its value.
pub fn parse_attr<'a, const LEN: usize>(path: [&'static str; LEN], attr: &'a Attribute) -> (text:
    Option<&'a String>)
    ensures
        match text {
            Some(text) => attr_text(crate::text::slice_texts(path@), attr@) == Some(text@),
            None => attr_text(crate::text::slice_texts(path@), attr@) is None,
        },
{
    if let Attribute::NameValue { path: segments, value } = attr {
        if equal(segments, path.as_slice()) {
            if let AttributeValue::StringLiteral(text) = value {
                return Some(text);
            }
        }
    }
    None
}

/// Makes a line of documentation.
pub fn documentation_line(text: &str) -> (line: String)
    ensures
        line@ == doc_line(text@),
{
    let len: usize = text.unicode_len();
    let start: usize = if len > 0 && text.get_char(0) == ' ' {
        1
    } else {
        0
    };
    proof {
        reveal_strlit("\n");
        assert(text@.subrange(0, len as int) =~= text@);
        assert(text@.subrange(start as int, len as int) + "\n"@ =~= doc_line(text@));
    }
    text.substring_char(start, len).to_owned().concat("\n")
}

/// Collects the lines of documentation, or finds the first attribute that is no doc comment.
pub fn documentation(attrs: &Vec<Attribute>) -> (lines: Result<String, usize>)
    ensures
        match (lines, documentation_of(super::tokens::attribute_views(attrs@))) {
            (Ok(lines), Ok(model)) => lines@ == model,
            (Err(i), Err(model)) => i == model,
            _ => false,
        },
{
    let ghost views = super::tokens::attribute_views(attrs@);
    let mut lines = String::new();
    let mut i: usize = 0;
    assert(views.take(0) =~= Seq::empty());
    while i < attrs.len()
        invariant
            i <= attrs@.len(),
            views == super::tokens::attribute_views(attrs@),
            documentation_of(views.take(i as int)) == Ok::<_, nat>(lines@),
        decreases attrs@.len() - i,
    {
        proof {
            assert(views.take(i + 1).drop_last() =~= views.take(i as int));
            assert(views.take(i + 1).last() == attrs@[i as int]@);
        }
        let path: [&'static str; 1] = ["doc"];
        assert(crate::text::slice_texts(path@) =~= seq!["doc"@]);
        match parse_attr(path, &attrs[i]) {
            Some(text) => {
                lines = lines.concat(documentation_line(text.as_str()).as_str());
            },
            None => {
                proof {
                    lemma_documentation_error_stays(views, i + 1);
                }
                return Err(i);
            },
        }
        i += 1;
    }
    assert(views.take(i as int) =~= views);
    Ok(lines)
}

proof fn lemma_documentation_error_stays(attrs: Seq<AttributeView>, i: int)
    requires
        0 <= i <= attrs.len(),
        documentation_of(attrs.take(i)) is Err,
    ensures
        documentation_of(attrs) == documentation_of(attrs.take(i)),
    decreases attrs.len(),
{
    if i == attrs.len() {
        assert(attrs.take(i) =~= attrs);
    } else {
        assert(attrs.drop_last().take(i) =~= attrs.take(i));
        lemma_documentation_error_stays(attrs.drop_last(), i);
    }
}

fn identifier(items: &Vec<Item>, start: usize, i: usize) -> (text: Option<String>)
    requires
        start <= items@.len(),
    ensures
        crate::text::optional_text(text) == ident_at(item_views(items@).skip(start as int), i as int),
{
    if i < items.len() - start {
        match &items[start + i] {
            Item::Ident(text) => Some(text.clone()),
            _ => None,
        }
    } else {
        None
    }
}

fn expect_identifier(items: &Vec<Item>, start: usize, i: usize) -> (text: Result<
    String,
    MetaError,
>)
    requires
        start <= items@.len(),
    ensures
        match text {
            Ok(text) => ident_at(item_views(items@).skip(start as int), i as int) == Some(text@),
            Err(error) => {
                let rest = item_views(items@).skip(start as int);
                ident_at(rest, i as int) is None && error@ == MetaErrorView::ExpectedIdentifier(
                    i as nat,
                    found_at(rest, i as int),
                )
            },
        },
{
    let found = if i < items.len() - start {
        match &items[start + i] {
            Item::Ident(text) => {
                return Ok(text.clone());
            },
            Item::Keyword(text) => Found::Keyword(text.clone()),
            _ => Found::Other,
        }
    } else {
        Found::End
    };
    Err(MetaError::ExpectedIdentifier(i, found))
}

fn is_comma(items: &Vec<Item>, start: usize, i: usize) -> (comma: bool)
    requires
        start <= items@.len(),
    ensures
        comma == comma_at(item_views(items@).skip(start as int), i as int),
{
    if i < items.len() - start {
        matches!(&items[start + i], Item::Comma)
    } else {
        false
    }
}

/// Tells what the tokens are in a rule declaration, and whether an invisible group opens behind
/// the last of them.
fn read_items(stream: &TokenStream) -> (read: (Vec<Item>, bool))
    ensures
        item_views(read.0@) == items_in(super::tokens::contents(*stream)),
        read.1 == has_hollow_end(super::tokens::contents(*stream)),
    decreases super::tokens::contents(*stream),
{
    let ghost views = super::tokens::contents(*stream);
    let list = trees(stream);
    let accepted = identifiers(stream);
    let mut items: Vec<Item> = Vec::new();
    let mut hollow_end = false;
    let mut i: usize = 0;
    assert(views.take(0) =~= Seq::empty());
    assert(item_views(items@) =~= items_in(views.take(0)));
    while i < list.len()
        invariant
            i <= list@.len(),
            views == super::tokens::contents(*stream),
            super::tokens::tree_views(list@) == views,
            accepted@ == views.map_values(|tree: TreeView| super::tokens::is_identifier(tree)),
            item_views(items@) == items_in(views.take(i as int)),
            hollow_end == has_hollow_end(views.take(i as int)),
        decreases list@.len() - i,
    {
        let ghost before = items@;
        let ghost tree = views[i as int];
        proof {
            assert(tree == list@[i as int]@);
            assert(views.take(i + 1).drop_last() =~= views.take(i as int));
            assert(views.take(i + 1).last() == tree);
        }
        hollow_end = false;
        match &list[i] {
            Tree::Ident(text) => {
                if accepted[i] {
                    items.push(Item::Ident(text.clone()));
                } else {
                    items.push(Item::Keyword(text.clone()));
                }
            },
            Tree::Punct { ch, .. } => {
                if *ch == ',' {
                    items.push(Item::Comma);
                } else {
                    items.push(Item::Other);
                }
            },
            Tree::Group(Delimiter::Invisible, inner) => {
                proof {
                    assert(decreases_to!(views => views[i as int]));
                    assert(decreases_to!(tree => tree->Group_1));
                }
                let (mut inside, inside_hollow_end) = read_items(inner);
                hollow_end = inside.len() == 0 || inside_hollow_end;
                items.append(&mut inside);
            },
            _ => {
                items.push(Item::Other);
            },
        }
        assert(item_views(items@) =~= item_views(before) + items_of(tree));
        i += 1;
    }
    assert(views.take(i as int) =~= views);
    (items, hollow_end)
}

/// Tells what the tokens of a declaration are.
fn read_declared_items(stream: &TokenStream) -> (items: Vec<Item>)
    ensures
        item_views(items@) == declared_items(super::tokens::contents(*stream)),
{
    let (mut items, hollow_end) = read_items(stream);
    let ghost before = items@;
    if hollow_end {
        items.push(Item::Other);
        assert(item_views(items@) =~= item_views(before).push(ItemView::Other));
    }
    items
}

impl LintRuleMeta {
    /// Reads a declaration whose attributes and tokens are known. `left` is what is said of
    /// tokens that are left between the brackets of an attribute, if any are. `ruledocs` tells
    /// that the documentation is wanted.
    pub fn from_parts(
        attrs: &Vec<Attribute>,
        left: Option<String>,
        items: &Vec<Item>,
        ruledocs: bool,
    ) -> (result: Result<LintRuleMeta, MetaError>)
        ensures
            agrees(
                result,
                declaration(
                    super::tokens::attribute_views(attrs@),
                    crate::text::optional_text(left),
                    item_views(items@),
                    ruledocs,
                ),
            ),
    {
        let lines = match documentation(attrs) {
            Ok(lines) => lines,
            Err(i) => {
                return Err(MetaError::UnexpectedAttribute(i));
            },
        };
        let start: usize = if attrs.len() <= items.len() / 2 {
            2 * attrs.len()
        } else {
            items.len()
        };
        assert(item_views(items@).skip(start as int) =~= after_attributes(
            item_views(items@),
            attrs@.len(),
        ));
        let name = expect_identifier(items, start, 0)?;
        if !is_comma(items, start, 1) {
            return Err(MetaError::ExpectedComma(1));
        }
        let plugin = expect_identifier(items, start, 2)?;
        if !is_comma(items, start, 3) {
            return Err(MetaError::ExpectedComma(3));
        }
        let category = expect_identifier(items, start, 4)?;
        // Without a fix, none is declared: the default is set where the metadata is used.
        let fix = if is_comma(items, start, 5) {
            identifier(items, start, 6)
        } else {
            None
        };
        if let Some(text) = left {
            return Err(MetaError::UnexpectedToken(text));
        }
        let documentation = if ruledocs {
            Some(lines)
        } else {
            None
        };
        Ok(LintRuleMeta { name, plugin, category, fix, documentation, used_in_test: false })
    }

    /// Reads a declaration from its tokens. `ruledocs` tells that the documentation is wanted.
    pub fn parse(input: &TokenStream, ruledocs: bool) -> (result: Result<LintRuleMeta, MetaError>)
        ensures
            agrees(result, declaration_in(super::tokens::contents(*input), ruledocs)),
    {
        match outer_attributes(input) {
            (Some(attrs), left) => LintRuleMeta::from_parts(
                &attrs,
                left,
                &read_declared_items(input),
                ruledocs,
            ),
            (None, text) => Err(MetaError::InvalidAttribute(text.unwrap())),
        }
    }
}

/// The documentation is the lines of the doc comments, one behind the other: that of two lists
/// of attributes is that of the first and that of the second.
pub proof fn law_documentation_joins(first: Seq<AttributeView>, second: Seq<AttributeView>)
    ensures
        documentation_of(first + second) == (match (
            documentation_of(first),
            documentation_of(second),
        ) {
            (Ok(a), Ok(b)) => Ok::<Seq<char>, nat>(a + b),
            (Err(i), _) => Err(i),
            (Ok(_), Err(i)) => Err(first.len() + i),
        }),
    decreases second.len(),
{
    if second.len() == 0 {
        assert(first + second =~= first);
        if let Ok(lines) = documentation_of(first) {
            assert(lines + Seq::empty() =~= lines);
        }
    } else {
        let both = first + second;
        assert(both.drop_last() =~= first + second.drop_last());
        assert(both.last() == second.last());
        law_documentation_joins(first, second.drop_last());
        if let (Ok(a), Ok(b), Some(text)) = (
            documentation_of(first),
            documentation_of(second.drop_last()),
            doc_text(second.last()),
        ) {
            assert(a + b + doc_line(text) =~= a + (b + doc_line(text)));
        }
    }
}

/// There is documentation if and only if all attributes are doc comments; if not, the first
/// that is none is found.
pub proof fn law_first_unexpected_attribute(attrs: Seq<AttributeView>)
    ensures
        documentation_of(attrs) is Ok <==> (forall|i: int|
            0 <= i < attrs.len() ==> doc_text(#[trigger] attrs[i]) is Some),
        documentation_of(attrs) matches Err(i) ==> {
            &&& i < attrs.len()
            &&& doc_text(attrs[i as int]) is None
            &&& forall|j: int| 0 <= j < i ==> doc_text(#[trigger] attrs[j]) is Some
        },
    decreases attrs.len(),
{
    if attrs.len() > 0 {
        let rest = attrs.drop_last();
        law_first_unexpected_attribute(rest);
        assert(forall|i: int| 0 <= i < rest.len() ==> rest[i] == attrs[i]);
        if documentation_of(rest) is Ok {
            assert forall|j: int| 0 <= j < attrs.len() - 1 implies doc_text(
                #[trigger] attrs[j],
            ) is Some by {
                assert(doc_text(rest[j]) is Some);
            }
        } else {
            let i = documentation_of(rest)->Err_0;
            assert(doc_text(attrs[i as int]) is None);
            assert forall|j: int| 0 <= j < i implies doc_text(#[trigger] attrs[j]) is Some by {
                assert(doc_text(rest[j]) is Some);
            }
        }
    }
}

/// Every doc comment gives a whole line.
pub proof fn law_documentation_lines(attrs: Seq<AttributeView>)
    ensures
        documentation_of(attrs) matches Ok(lines) ==> (attrs.len() > 0 ==> lines.len() > 0
            && lines.last() == '\n'),
{
    if attrs.len() > 0 {
        if let (Ok(lines), Some(text)) = (
            documentation_of(attrs.drop_last()),
            doc_text(attrs.last()),
        ) {
            assert((lines + doc_line(text)).last() == doc_line(text).last());
        }
    }
}

/// Whether the documentation is wanted changes nothing but the documentation.
pub proof fn law_ruledocs(
    attrs: Seq<AttributeView>,
    left: Option<Seq<char>>,
    items: Seq<ItemView>,
)
    ensures
        match (
            declaration(attrs, left, items, true),
            declaration(attrs, left, items, false),
        ) {
            (Ok(documented), Ok(bare)) => {
                &&& bare == (MetaView { documentation: None, ..documented })
                &&& documentation_of(attrs) == Ok::<_, nat>(documented.documentation->0)
                &&& documented.documentation is Some
            },
            (Err(a), Err(b)) => a == b,
            _ => false,
        },
{
}

/// The tokens settle what is declared, whatever follows them: they do not end where another
/// token is expected, nor where another would say what is to be fixed.
pub open spec fn is_settled(
    attrs: Seq<AttributeView>,
    left: Option<Seq<char>>,
    items: Seq<ItemView>,
) -> bool {
    let behind = after_attributes(items, attrs.len());
    match declaration(attrs, left, items, false) {
        Ok(_) => behind.len() >= 7 || (behind.len() == 6 && behind[5] != ItemView::Comma),
        Err(MetaErrorView::ExpectedIdentifier(i, _)) => i < behind.len(),
        Err(MetaErrorView::ExpectedComma(i)) => i < behind.len(),
        Err(_) => true,
    }
}

/// What stands behind the tokens that settle a declaration does not count: behind the word for
/// the fixes, behind a category that no comma follows, and behind an error.
pub proof fn law_rest_is_ignored(
    attrs: Seq<AttributeView>,
    left: Option<Seq<char>>,
    items: Seq<ItemView>,
    rest: Seq<ItemView>,
    ruledocs: bool,
)
    requires
        is_settled(attrs, left, items),
    ensures
        declaration(attrs, left, items + rest, ruledocs) == declaration(
            attrs,
            left,
            items,
            ruledocs,
        ),
{
    let short = after_attributes(items, attrs.len());
    let long = after_attributes(items + rest, attrs.len());
    if 2 * attrs.len() <= items.len() {
        assert(forall|i: int| 0 <= i < short.len() ==> long[i] == short[i]);
        assert(short.len() <= long.len());
    }
}

/// Seven tokens behind the attributes settle a declaration, and six where the sixth is no comma.
pub proof fn law_settled_by_length(
    attrs: Seq<AttributeView>,
    left: Option<Seq<char>>,
    items: Seq<ItemView>,
)
    requires
        items.len() >= 2 * attrs.len() + 7 || (items.len() >= 2 * attrs.len() + 6 && !comma_at(
            items,
            2 * attrs.len() as int + 5,
        )),
    ensures
        is_settled(attrs, left, items),
{
}

/// An invisible group changes nothing: what stands in it counts as if the group were not.
pub proof fn law_invisible_groups(before: Seq<TreeView>, inner: Seq<TreeView>)
    ensures
        items_in(before.push(TreeView::Group(Delimiter::Invisible, inner))) == items_in(
            before + inner,
        ),
{
    let group = TreeView::Group(Delimiter::Invisible, inner);
    assert(before.push(group).drop_last() =~= before);
    assert(before.push(group).last() == group);
    assert(items_of(group) == items_in(inner));
    lemma_items_join(before, inner);
}

proof fn lemma_items_join(first: Seq<TreeView>, second: Seq<TreeView>)
    ensures
        items_in(first + second) == items_in(first) + items_in(second),
    decreases second.len(),
{
    if second.len() == 0 {
        assert(first + second =~= first);
        assert(items_in(first) + items_in(second) =~= items_in(first));
    } else {
        let both = first + second;
        assert(both.drop_last() =~= first + second.drop_last());
        assert(both.last() == second.last());
        lemma_items_join(first, second.drop_last());
        assert(items_in(both) =~= items_in(first) + items_in(second));
    }
}

} // verus!
