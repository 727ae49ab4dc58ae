//! The code that the declaration of a lint rule stands for.
use super::fix::{try_parse_fix, FixError, FixErrorView, FixKind, FixView, RuleFixMeta};
use super::meta::{LintRuleMeta, MetaView};
use crate::text::same;
use convert_case::{Boundary, Case, Converter};
use vstd::prelude::*;

verus! {

/// A piece of code. The code is the pieces, one behind the other.
#[derive(Debug)]
pub enum Piece {
    /// Source text.
    Source(String),
    /// A string literal with this value.
    StringLiteral(String),
}

/// The model of a [`Piece`].
#[verifier::ext_equal]
pub enum PieceView {
    Source(Seq<char>),
    StringLiteral(Seq<char>),
}

impl View for Piece {
    type V = PieceView;

    open spec fn view(&self) -> PieceView {
        match self {
            Piece::Source(text) => PieceView::Source(text@),
            Piece::StringLiteral(value) => PieceView::StringLiteral(value@),
        }
    }
}

/// The models of a list of pieces.
pub open spec fn piece_views(pieces: Seq<Piece>) -> Seq<PieceView> {
    pieces.map_values(|piece: Piece| piece@)
}

/// Why a declaration stands for no code.
#[derive(Debug)]
pub enum DeclareError {
    InvalidCategory,
    Fix(FixError),
}

/// The model of a [`DeclareError`].
#[verifier::ext_equal]
pub enum DeclareErrorView {
    InvalidCategory,
    Fix(FixErrorView),
}

impl View for DeclareError {
    type V = DeclareErrorView;

    open spec fn view(&self) -> DeclareErrorView {
        match self {
            DeclareError::InvalidCategory => DeclareErrorView::InvalidCategory,
            DeclareError::Fix(error) => DeclareErrorView::Fix(error@),
        }
    }
}

impl DeclareError {
    /// Says what is wrong.
    pub fn message(&self) -> (message: String)
        ensures
            message@ == (match self@ {
                DeclareErrorView::InvalidCategory => "invalid rule category"@,
                DeclareErrorView::Fix(error) => super::fix::fix_error_message(error),
            }),
    {
        match self {
            DeclareError::InvalidCategory => "invalid rule category".to_owned(),
            DeclareError::Fix(error) => error.message(),
        }
    }
}

/// How the words of a name are joined.
#[derive(Clone, Copy, Debug, PartialEq, Eq, Structural)]
pub enum NameCase {
    /// `like-this`.
    Kebab,
    /// `like_this`.
    Snake,
}

/// A place inside a name where a word may end.
#[derive(Clone, Copy, Debug, PartialEq, Eq, Structural)]
pub enum WordBoundary {
    /// Between a lower case letter and a digit.
    LowerDigit,
    /// Between an upper case letter and a digit.
    UpperDigit,
}

/// A name in another case, with words ending at the default boundaries but for one.
pub uninterp spec fn converted_name(
    name: Seq<char>,
    case: NameCase,
    without: WordBoundary,
) -> Seq<char>;

/// `convert_case::Converter::convert`, in the given case, with the default boundaries but for
/// the given one.
#[verifier::external_body]
fn convert(name: &str, case: NameCase, without: WordBoundary) -> (converted: String)
    ensures
        converted@ == converted_name(name@, case, without),
{
    Converter::new().remove_boundary(match without {
        WordBoundary::LowerDigit => Boundary::LOWER_DIGIT,
        WordBoundary::UpperDigit => Boundary::UPPER_DIGIT,
    }).to_case(match case {
        NameCase::Kebab => Case::Kebab,
        NameCase::Snake => Case::Snake,
    }).convert(name)
}

/// The name of a rule as users write it, for the name of its type.
pub open spec fn canonical_name(name: Seq<char>) -> Seq<char> {
    converted_name(name, NameCase::Kebab, WordBoundary::LowerDigit)
}

/// Converts the name of a rule to kebab case. A digit stays with a lower case letter in front.
pub fn rule_name_converter(name: &str) -> (converted: String)
    ensures
        converted@ == canonical_name(name@),
{
    convert(name, NameCase::Kebab, WordBoundary::LowerDigit)
}

/// The code of a category, if it is one.
pub open spec fn category_code(category: Seq<char>) -> Option<Seq<char>> {
    if category == "correctness"@ {
        Some("RuleCategory::Correctness"@)
    } else if category == "suspicious"@ {
        Some("RuleCategory::Suspicious"@)
    } else if category == "pedantic"@ {
        Some("RuleCategory::Pedantic"@)
    } else if category == "perf"@ {
        Some("RuleCategory::Perf"@)
    } else if category == "style"@ {
        Some("RuleCategory::Style"@)
    } else if category == "restriction"@ {
        Some("RuleCategory::Restriction"@)
    } else if category == "nursery"@ {
        Some("RuleCategory::Nursery"@)
    } else {
        None
    }
}

/// The code of a kind of fix.
pub open spec fn kind_code(kind: FixKind) -> Seq<char> {
    match kind {
        FixKind::Fix => "FixKind::Fix"@,
        FixKind::SafeFix => "FixKind::SafeFix"@,
        FixKind::Suggestion => "FixKind::Suggestion"@,
        FixKind::Dangerous => "FixKind::Dangerous"@,
    }
}

/// The code of the union of kinds, from the first one on.
pub open spec fn union_code(kinds: Seq<FixKind>) -> Seq<char>
    decreases kinds.len(),
{
    if kinds.len() == 0 {
        Seq::empty()
    } else if kinds.len() == 1 {
        kind_code(kinds[0])
    } else {
        union_code(kinds.drop_last()) + ".union("@ + kind_code(kinds.last()) + ")"@
    }
}

/// The code of the fixes of a rule.
pub open spec fn fix_code(fix: FixView) -> Seq<char> {
    match fix {
        FixView::NoFix => "RuleFixMeta::None"@,
        FixView::FixPending => "RuleFixMeta::FixPending"@,
        FixView::Fixable(kinds) => "RuleFixMeta::Fixable("@ + union_code(kinds) + ")"@,
        FixView::Conditional(kinds) => "RuleFixMeta::Conditional("@ + union_code(kinds) + ")"@,
    }
}

/// The import in front of the code, but for the code of a test.
pub open spec fn import_pieces(used_in_test: bool) -> Seq<PieceView> {
    if used_in_test {
        Seq::empty()
    } else {
        seq![
            PieceView::Source(
                "use crate::{rule::{RuleCategory, RuleMeta, RuleFixMeta}, fixer::FixKind};\n"@,
            ),
        ]
    }
}

/// The constant `FIX`, where the fixes are declared.
pub open spec fn fix_pieces(fix: Option<FixView>) -> Seq<PieceView> {
    match fix {
        Some(fix) => seq![
            PieceView::Source("    const FIX: RuleFixMeta = "@),
            PieceView::Source(fix_code(fix)),
            PieceView::Source(";\n"@),
        ],
        None => Seq::empty(),
    }
}

/// The function `documentation`, where the documentation is known.
pub open spec fn documentation_pieces(documentation: Option<Seq<char>>) -> Seq<PieceView> {
    match documentation {
        Some(documentation) => seq![
            PieceView::Source(
                "    fn documentation() -> Option<&'static str> {\n        Some("@,
            ),
            PieceView::StringLiteral(documentation),
            PieceView::Source(")\n    }\n"@),
        ],
        None => Seq::empty(),
    }
}

/// The code for a rule whose category and fixes have been read.
pub open spec fn rule_pieces(
    metadata: MetaView,
    canonical_name: Seq<char>,
    category: Seq<char>,
    fix: Option<FixView>,
) -> Seq<PieceView> {
    import_pieces(metadata.used_in_test) + seq![
        PieceView::Source("impl RuleMeta for "@),
        PieceView::Source(metadata.name),
        PieceView::Source(" {\n    const NAME: &'static str = "@),
        PieceView::StringLiteral(canonical_name),
        PieceView::Source(";\n    const PLUGIN: &'static str = "@),
        PieceView::StringLiteral(metadata.plugin),
        PieceView::Source(";\n    const CATEGORY: RuleCategory = "@),
        PieceView::Source(category),
        PieceView::Source(";\n"@),
    ] + fix_pieces(fix) + documentation_pieces(metadata.documentation) + seq![
        PieceView::Source("}\n"@),
    ]
}

/// The fixes that a declaration names, if it names any.
pub open spec fn declared_fix(fix: Option<Seq<char>>) -> Result<Option<FixView>, FixErrorView> {
    match fix {
        None => Ok(None),
        Some(word) => match super::fix::fix_of(word) {
            Ok(fix) => Ok(Some(fix)),
            Err(error) => Err(error),
        },
    }
}

/// The model of optional fixes.
pub open spec fn optional_fix(fix: Option<RuleFixMeta>) -> Option<FixView> {
    match fix {
        Some(fix) => Some(fix@),
        None => None,
    }
}

/// The code that a declaration stands for, with the canonical name of the rule.
pub open spec fn rule_code(metadata: MetaView, canonical_name: Seq<char>) -> Result<
    Seq<PieceView>,
    DeclareErrorView,
> {
    match (category_code(metadata.category), declared_fix(metadata.fix)) {
        (None, _) => Err(DeclareErrorView::InvalidCategory),
        (_, Err(error)) => Err(DeclareErrorView::Fix(error)),
        (Some(category), Ok(fix)) => Ok(rule_pieces(metadata, canonical_name, category, fix)),
    }
}

/// A result and its model agree.
pub open spec fn agrees(
    given: Result<Vec<Piece>, DeclareError>,
    expected: Result<Seq<PieceView>, DeclareErrorView>,
) -> bool {
    match (given, expected) {
        (Ok(pieces), Ok(model)) => piece_views(pieces@) == model,
        (Err(error), Err(model)) => error@ == model,
        _ => false,
    }
}

fn parse_category(category: &str) -> (code: Option<&'static str>)
    ensures
        match code {
            Some(code) => category_code(category@) == Some(code@),
            None => category_code(category@) is None,
        },
{
    if same(category, "correctness") {
        Some("RuleCategory::Correctness")
    } else if same(category, "suspicious") {
        Some("RuleCategory::Suspicious")
    } else if same(category, "pedantic") {
        Some("RuleCategory::Pedantic")
    } else if same(category, "perf") {
        Some("RuleCategory::Perf")
    } else if same(category, "style") {
        Some("RuleCategory::Style")
    } else if same(category, "restriction") {
        Some("RuleCategory::Restriction")
    } else if same(category, "nursery") {
        Some("RuleCategory::Nursery")
    } else {
        None
    }
}

fn write_kind(kind: FixKind) -> (code: &'static str)
    ensures
        code@ == kind_code(kind),
{
    match kind {
        FixKind::Fix => "FixKind::Fix",
        FixKind::SafeFix => "FixKind::SafeFix",
        FixKind::Suggestion => "FixKind::Suggestion",
        FixKind::Dangerous => "FixKind::Dangerous",
    }
}

fn write_union(kinds: &Vec<FixKind>) -> (code: String)
    ensures
        code@ == union_code(kinds@),
{
    if kinds.len() == 0 {
        return String::new();
    }
    let mut code = write_kind(kinds[0]).to_owned();
    let mut i: usize = 1;
    proof {
        assert(kinds@.take(1)[0] == kinds@[0]);
    }
    while i < kinds.len()
        invariant
            1 <= i <= kinds@.len(),
            code@ == union_code(kinds@.take(i as int)),
        decreases kinds@.len() - i,
    {
        proof {
            assert(kinds@.take(i + 1).drop_last() =~= kinds@.take(i as int));
            assert(kinds@.take(i + 1).last() == kinds@[i as int]);
        }
        code = code.concat(".union(").concat(write_kind(kinds[i])).concat(")");
        i += 1;
    }
    assert(kinds@.take(i as int) =~= kinds@);
    code
}

/// Writes the fixes of a rule as code.
pub fn write_fix(fix: &RuleFixMeta) -> (code: String)
    ensures
        code@ == fix_code(fix@),
{
    match fix {
        RuleFixMeta::NoFix => "RuleFixMeta::None".to_owned(),
        RuleFixMeta::FixPending => "RuleFixMeta::FixPending".to_owned(),
        RuleFixMeta::Fixable(kinds) => {
            "RuleFixMeta::Fixable(".to_owned().concat(write_union(kinds).as_str()).concat(")")
        },
        RuleFixMeta::Conditional(kinds) => {
            "RuleFixMeta::Conditional(".to_owned().concat(write_union(kinds).as_str()).concat(")")
        },
    }
}

fn push_source(pieces: &mut Vec<Piece>, text: &str)
    ensures
        piece_views(final(pieces)@) == piece_views(old(pieces)@).push(PieceView::Source(text@)),
{
    pieces.push(Piece::Source(text.to_owned()));
    assert(piece_views(pieces@) =~= piece_views(old(pieces)@).push(PieceView::Source(text@)));
}

fn push_literal(pieces: &mut Vec<Piece>, value: String)
    ensures
        piece_views(final(pieces)@) == piece_views(old(pieces)@).push(
            PieceView::StringLiteral(value@),
        ),
{
    pieces.push(Piece::StringLiteral(value));
    assert(piece_views(pieces@) =~= piece_views(old(pieces)@).push(
        PieceView::StringLiteral(value@),
    ));
}

/// Writes the code that a declaration stands for, with the canonical name of the rule.
pub fn write_rule(metadata: LintRuleMeta, canonical_name: String) -> (code: Result<
    Vec<Piece>,
    DeclareError,
>)
    ensures
        agrees(code, rule_code(metadata@, canonical_name@)),
{
    let ghost model = metadata@;
    let category = match parse_category(metadata.category.as_str()) {
        Some(category) => category,
        None => {
            return Err(DeclareError::InvalidCategory);
        },
    };
    let fix = match &metadata.fix {
        Some(word) => match try_parse_fix(word.as_str()) {
            Ok(fix) => Some(fix),
            Err(error) => {
                return Err(DeclareError::Fix(error));
            },
        },
        None => None,
    };
    let ghost fix_view = optional_fix(fix);
    let mut pieces: Vec<Piece> = Vec::new();
    if !metadata.used_in_test {
        push_source(
            &mut pieces,
            "use crate::{rule::{RuleCategory, RuleMeta, RuleFixMeta}, fixer::FixKind};\n",
        );
    }
    assert(piece_views(pieces@) =~= import_pieces(model.used_in_test));
    push_source(&mut pieces, "impl RuleMeta for ");
    push_source(&mut pieces, metadata.name.as_str());
    push_source(&mut pieces, " {\n    const NAME: &'static str = ");
    push_literal(&mut pieces, canonical_name);
    push_source(&mut pieces, ";\n    const PLUGIN: &'static str = ");
    push_literal(&mut pieces, metadata.plugin);
    push_source(&mut pieces, ";\n    const CATEGORY: RuleCategory = ");
    push_source(&mut pieces, category);
    push_source(&mut pieces, ";\n");
    let ghost head = piece_views(pieces@);
    if let Some(fix) = &fix {
        push_source(&mut pieces, "    const FIX: RuleFixMeta = ");
        push_source(&mut pieces, write_fix(fix).as_str());
        push_source(&mut pieces, ";\n");
    }
    assert(piece_views(pieces@) =~= head + fix_pieces(fix_view));
    let ghost fixed = piece_views(pieces@);
    if let Some(documentation) = metadata.documentation {
        push_source(
            &mut pieces,
            "    fn documentation() -> Option<&'static str> {\n        Some(",
        );
        push_literal(&mut pieces, documentation);
        push_source(&mut pieces, ")\n    }\n");
    }
    assert(piece_views(pieces@) =~= fixed + documentation_pieces(model.documentation));
    push_source(&mut pieces, "}\n");
    assert(piece_views(pieces@) =~= rule_pieces(
        model,
        canonical_name@,
        category@,
        fix_view,
    ));
    Ok(pieces)
}

/// Writes the code that a declaration stands for, if its category and its fixes are some.
pub fn try_declare_oxc_lint(metadata: LintRuleMeta) -> (code: Result<Vec<Piece>, DeclareError>)
    ensures
        agrees(code, rule_code(metadata@, canonical_name(metadata@.name))),
        code matches Ok(pieces) ==> {
            let k = super::laws::lead(metadata@);
            &&& pieces@[k + 1]@ == PieceView::Source(metadata.name@)
            &&& pieces@[k + 3]@ == PieceView::StringLiteral(
                converted_name(metadata.name@, NameCase::Kebab, WordBoundary::LowerDigit),
            )
            &&& pieces@[k + 5]@ == PieceView::StringLiteral(metadata.plugin@)
        },
{
    proof {
        super::laws::law_constants(metadata@, canonical_name(metadata@.name));
    }
    let canonical_name = rule_name_converter(metadata.name.as_str());
    write_rule(metadata, canonical_name)
}

/// The category of a declaration is one, and its fixes, where it names any, are some.
pub open spec fn is_declarable(metadata: MetaView) -> bool {
    category_code(metadata.category) is Some && declared_fix(metadata.fix) is Ok
}

/// Writes the code that a declaration stands for.
pub fn declare_oxc_lint(metadata: LintRuleMeta) -> (code: Vec<Piece>)
    requires
        is_declarable(metadata@),
    ensures
        rule_code(metadata@, canonical_name(metadata@.name)) == Ok::<_, DeclareErrorView>(
            piece_views(code@),
        ),
{
    try_declare_oxc_lint(metadata).unwrap()
}

/// The code of a test is the code of any rule without the import in front.
pub proof fn law_test_code(metadata: MetaView, canonical_name: Seq<char>)
    ensures
        ({
            let plain = rule_code(
                MetaView { used_in_test: false, ..metadata },
                canonical_name,
            );
            let test = rule_code(MetaView { used_in_test: true, ..metadata }, canonical_name);
            match (plain, test) {
                (Ok(code), Ok(rest)) => code == import_pieces(false) + rest,
                (Err(a), Err(b)) => a == b,
                _ => false,
            }
        }),
{
    if let (Some(category), Ok(fix)) = (
        category_code(metadata.category),
        declared_fix(metadata.fix),
    ) {
        let plain = MetaView { used_in_test: false, ..metadata };
        let test = MetaView { used_in_test: true, ..metadata };
        assert(rule_pieces(plain, canonical_name, category, fix) =~= import_pieces(false)
            + rule_pieces(test, canonical_name, category, fix));
    }
}

/// Code comes of a declaration if and only if its category is one, and its fixes, where it
/// names any, are some. An unknown category is reported first.
pub proof fn law_code_is_owed(metadata: MetaView, canonical_name: Seq<char>)
    ensures
        rule_code(metadata, canonical_name) is Ok <==> is_declarable(metadata),
        is_declarable(metadata) <==> category_code(metadata.category) is Some && (
        metadata.fix matches Some(word) ==> super::fix::fix_of(word) is Ok),
        category_code(metadata.category) is None ==> rule_code(metadata, canonical_name) == Err::<
            Seq<PieceView>,
            DeclareErrorView,
        >(DeclareErrorView::InvalidCategory),
{
}

} // verus!
