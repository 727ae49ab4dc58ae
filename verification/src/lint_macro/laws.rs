//! What the declaration of a lint rule promises of the code that comes of it.
use super::fix::{FixError, FixErrorView, FixKind, FixView, RuleFixMeta};
use super::meta::{LintRuleMeta, MetaError, MetaErrorView, MetaView};
use super::output::{DeclareError, DeclareErrorView, NameCase, Piece, PieceView, WordBoundary};
use vstd::prelude::*;

verus! {

/// The path of a kind of fix.
pub open spec fn kind_path(kind: FixKind) -> Seq<char> {
    match kind {
        FixKind::Fix => "FixKind::Fix"@,
        FixKind::SafeFix => "FixKind::SafeFix"@,
        FixKind::Suggestion => "FixKind::Suggestion"@,
        FixKind::Dangerous => "FixKind::Dangerous"@,
    }
}

/// The word that names a kind between other words. None names a safe fix there.
pub open spec fn names_kind(part: Seq<char>, kind: FixKind) -> bool {
    match kind {
        FixKind::Fix => part == "fix"@,
        FixKind::SafeFix => false,
        FixKind::Suggestion => part == "suggestion"@,
        FixKind::Dangerous => part == "dangerous"@,
    }
}

/// The words that only join others.
pub open spec fn only_joins(part: Seq<char>) -> bool {
    part == "conditional"@ || part == "and"@ || part == "or"@
}

/// The first code unit of text that has one.
spec fn initial(text: Seq<char>) -> char {
    text[0]
}

proof fn lemma_kind_words()
    ensures
        "fix"@ != "suggestion"@,
        "fix"@ != "dangerous"@,
        "suggestion"@ != "dangerous"@,
        !only_joins("fix"@),
        !only_joins("suggestion"@),
        !only_joins("dangerous"@),
        "conditional"@ != "and"@,
        "conditional"@ != "or"@,
{
    reveal_strlit("fix");
    reveal_strlit("suggestion");
    reveal_strlit("dangerous");
    reveal_strlit("conditional");
    reveal_strlit("and");
    reveal_strlit("or");
    assert(initial("fix"@) == 'f');
    assert(initial("and"@) == 'a');
    assert("fix"@.len() == 3 && "suggestion"@.len() == 10 && "dangerous"@.len() == 9);
    assert("conditional"@.len() == 11 && "and"@.len() == 3 && "or"@.len() == 2);
}

/// Three words name a kind, three others only join, and all else names none.
pub proof fn law_kind_words(part: Seq<char>, kind: FixKind)
    ensures
        super::fix::kind_of(part) == Some(kind) <==> names_kind(part, kind),
        super::fix::is_kind_part(part) == !only_joins(part),
        names_kind(part, kind) ==> !only_joins(part),
{
    lemma_kind_words();
}

/// Reading one word more. A word that only joins changes nothing, but that `conditional` makes
/// the whole conditional. A kind is added behind the others, unless it is there already. A word
/// that is neither is an error, and the first such error stays.
pub proof fn law_one_word_more(parts: Seq<Seq<char>>, part: Seq<char>, kind: FixKind)
    ensures
        super::fix::joined_fix(Seq::empty()) == Err::<FixView, FixErrorView>(
            FixErrorView::NoKinds,
        ),
        ({
            let before = super::fix::joined_fix(parts);
            let after = super::fix::joined_fix(parts.push(part));
            let conditional = "conditional"@;
            match before {
                Err(FixErrorView::NoKinds) => {
                    &&& only_joins(part) ==> after == before
                    &&& names_kind(part, kind) ==> after == Ok::<FixView, FixErrorView>(
                        if parts.contains(conditional) {
                            FixView::Conditional(seq![kind])
                        } else {
                            FixView::Fixable(seq![kind])
                        },
                    )
                    &&& !only_joins(part) && super::fix::kind_of(part) is None ==> after == Err::<
                        FixView,
                        FixErrorView,
                    >(FixErrorView::InvalidKind(part))
                },
                Err(error) => after == before && error is InvalidKind,
                Ok(fix) => {
                    &&& fix is Fixable || fix is Conditional
                    &&& fix is Conditional <==> parts.contains(conditional)
                    &&& super::fix::kinds_in(fix) matches Some(kinds) && {
                        &&& part == conditional ==> after == Ok::<FixView, FixErrorView>(
                            FixView::Conditional(kinds),
                        )
                        &&& only_joins(part) && part != conditional ==> after == before
                        &&& names_kind(part, kind) && kinds.contains(kind) ==> after == before
                        &&& names_kind(part, kind) && !kinds.contains(kind) ==> after == Ok::<
                            FixView,
                            FixErrorView,
                        >(
                            match fix {
                                FixView::Fixable(_) => FixView::Fixable(kinds.push(kind)),
                                _ => FixView::Conditional(kinds.push(kind)),
                            },
                        )
                        &&& !only_joins(part) && super::fix::kind_of(part) is None ==> after
                            == Err::<FixView, FixErrorView>(FixErrorView::InvalidKind(part))
                    }
                },
            }
        }),
{
    lemma_kind_words();
    law_kind_words(part, kind);
    let keeps = |word: Seq<char>| super::fix::is_kind_part(word);
    let kept = parts.filter(keeps);
    let listed = super::fix::first_occurrences(kept);
    let longer = parts.push(part);
    reveal(Seq::filter);
    assert(longer.drop_last() =~= parts);
    assert(longer.contains("conditional"@) <==> parts.contains("conditional"@) || part
        == "conditional"@) by {
        if parts.contains("conditional"@) {
            let i = choose|i: int| 0 <= i < parts.len() && parts[i] == "conditional"@;
            assert(longer[i] == "conditional"@);
        }
        if part == "conditional"@ {
            assert(longer[parts.len() as int] == "conditional"@);
        }
    }
    if only_joins(part) {
        assert(longer.filter(keeps) =~= kept);
    } else {
        assert(longer.filter(keeps) =~= kept.push(part));
        assert(kept.push(part).drop_last() =~= kept);
        super::fix::lemma_first_occurrences(kept);
        if !kept.contains(part) {
            assert(listed.push(part).drop_last() =~= listed);
        }
        if super::fix::kinds_of(listed) is Ok {
            super::fix::lemma_kinds_are_named(listed);
            let kinds = super::fix::kinds_of(listed)->Ok_0;
            if names_kind(part, kind) {
                if listed.contains(part) {
                    let i = choose|i: int| 0 <= i < listed.len() && listed[i] == part;
                    assert(super::fix::kind_of(listed[i]) == Some(kinds[i]));
                    assert(kinds.contains(kind));
                }
                if kinds.contains(kind) {
                    let i = choose|i: int| 0 <= i < kinds.len() && kinds[i] == kind;
                    assert(super::fix::kind_of(listed[i]) == Some(kinds[i]));
                    law_kind_words(listed[i], kind);
                    assert(listed.contains(part));
                }
                assert(Seq::<FixKind>::empty().push(kind) =~= seq![kind]);
            }
            if super::fix::kind_of(part) is None && listed.contains(part) {
                let i = choose|i: int| 0 <= i < listed.len() && listed[i] == part;
                assert(super::fix::kind_of(listed[i]) == Some(kinds[i]));
            }
        }
    }
    lemma_invalid_kind(listed);
}

proof fn lemma_invalid_kind(parts: Seq<Seq<char>>)
    ensures
        super::fix::kinds_of(parts) matches Err(error) ==> error is InvalidKind,
    decreases parts.len(),
{
    if parts.len() > 0 {
        lemma_invalid_kind(parts.drop_last());
    }
}

/// The words that stand for themselves: `none`, `pending`, `fix` and `suggestion`. `conditional`
/// misses a kind, a capital letter is pointed at, and any other word without `_` is refused.
pub proof fn law_single_words(word: Seq<char>)
    ensures
        word == "none"@ ==> super::fix::fix_of(word) == Ok::<FixView, FixErrorView>(FixView::NoFix),
        word == "pending"@ ==> super::fix::fix_of(word) == Ok::<FixView, FixErrorView>(
            FixView::FixPending,
        ),
        word == "fix"@ ==> super::fix::fix_of(word) == Ok::<FixView, FixErrorView>(
            FixView::Fixable(seq![FixKind::SafeFix]),
        ),
        word == "suggestion"@ ==> super::fix::fix_of(word) == Ok::<FixView, FixErrorView>(
            FixView::Fixable(seq![FixKind::Suggestion]),
        ),
        word == "conditional"@ ==> super::fix::fix_of(word) == Err::<FixView, FixErrorView>(
            FixErrorView::MissingKind,
        ),
        word == "None"@ ==> super::fix::fix_of(word) == Err::<FixView, FixErrorView>(
            FixErrorView::DidYouMean("none"@),
        ),
        word == "Pending"@ ==> super::fix::fix_of(word) == Err::<FixView, FixErrorView>(
            FixErrorView::DidYouMean("pending"@),
        ),
        word == "Fix"@ ==> super::fix::fix_of(word) == Err::<FixView, FixErrorView>(
            FixErrorView::DidYouMean("fix"@),
        ),
        word == "Suggestion"@ ==> super::fix::fix_of(word) == Err::<FixView, FixErrorView>(
            FixErrorView::DidYouMean("suggestion"@),
        ),
        word.contains('_') ==> super::fix::fix_of(word) == super::fix::joined_fix(
            crate::text::split_at(word, '_'),
        ),
        !word.contains('_') && word != "none"@ && word != "pending"@ && word != "fix"@ && word
            != "suggestion"@ && word != "conditional"@ && word != "None"@ && word != "Pending"@
            && word != "Fix"@ && word != "Suggestion"@ ==> super::fix::fix_of(word) == Err::<
            FixView,
            FixErrorView,
        >(FixErrorView::InvalidCapabilities(word)),
{
    reveal_strlit("none");
    reveal_strlit("pending");
    reveal_strlit("fix");
    reveal_strlit("suggestion");
    reveal_strlit("conditional");
    reveal_strlit("None");
    reveal_strlit("Pending");
    reveal_strlit("Fix");
    reveal_strlit("Suggestion");
    assert(initial("none"@) == 'n' && initial("None"@) == 'N');
    assert(initial("pending"@) == 'p' && initial("Pending"@) == 'P');
    assert(initial("fix"@) == 'f' && initial("Fix"@) == 'F');
    assert(initial("suggestion"@) == 's' && initial("Suggestion"@) == 'S');
    assert("none"@.len() == 4 && "None"@.len() == 4);
    assert("pending"@.len() == 7 && "Pending"@.len() == 7);
    assert("fix"@.len() == 3 && "Fix"@.len() == 3);
    assert("suggestion"@.len() == 10 && "Suggestion"@.len() == 10);
    assert("conditional"@.len() == 11);
    assert(!"none"@.contains('_') && !"None"@.contains('_'));
    assert(!"pending"@.contains('_') && !"Pending"@.contains('_'));
    assert(!"fix"@.contains('_') && !"Fix"@.contains('_'));
    assert(!"suggestion"@.contains('_') && !"Suggestion"@.contains('_'));
    assert(!"conditional"@.contains('_'));
}

/// What is said of words that name no fixes.
pub proof fn law_fix_messages(word: Seq<char>)
    ensures
        super::fix::fix_error_message(FixErrorView::MissingKind)
            == "Invalid fix capabilities: missing a fix kind. Did you mean 'fix-conditional'?"@,
        super::fix::fix_error_message(FixErrorView::DidYouMean(word))
            == "Invalid fix capabilities. Did you mean '"@ + word + "'?"@,
        super::fix::fix_error_message(FixErrorView::InvalidCapabilities(word))
            == "invalid fix capabilities: "@ + word
            + ". Valid capabilities are none, pending, fix, suggestion, or [fix|suggestion]_[conditional?]_[dangerous?]."@,
        super::fix::fix_error_message(FixErrorView::InvalidKind(word)) == "invalid fix kind: "@
            + word + ". Valid fix kinds are fix, suggestion, or dangerous."@,
        super::fix::fix_error_message(FixErrorView::NoKinds)
            == "No fix kinds were found during parsing, but at least one is required."@,
{
}

/// The seven categories, each with its path.
pub open spec fn categories() -> Seq<(Seq<char>, Seq<char>)> {
    seq![
        ("correctness"@, "RuleCategory::Correctness"@),
        ("suspicious"@, "RuleCategory::Suspicious"@),
        ("pedantic"@, "RuleCategory::Pedantic"@),
        ("perf"@, "RuleCategory::Perf"@),
        ("style"@, "RuleCategory::Style"@),
        ("restriction"@, "RuleCategory::Restriction"@),
        ("nursery"@, "RuleCategory::Nursery"@),
    ]
}

/// Each category has its own path, and no other word is a category.
pub proof fn law_categories(category: Seq<char>)
    ensures
        forall|i: int|
            0 <= i < 7 ==> super::output::category_code((#[trigger] categories()[i]).0) == Some(
                categories()[i].1,
            ),
        (forall|i: int| 0 <= i < 7 ==> (#[trigger] categories()[i]).0 != category)
            ==> super::output::category_code(category) is None,
{
    reveal_strlit("correctness");
    reveal_strlit("suspicious");
    reveal_strlit("pedantic");
    reveal_strlit("perf");
    reveal_strlit("style");
    reveal_strlit("restriction");
    reveal_strlit("nursery");
    assert("correctness"@.len() == 11 && initial("correctness"@) == 'c');
    assert("suspicious"@.len() == 10 && "pedantic"@.len() == 8 && "perf"@.len() == 4);
    assert("style"@.len() == 5 && "nursery"@.len() == 7);
    assert("restriction"@.len() == 11 && initial("restriction"@) == 'r');
    let all = categories();
    assert(all[0].0 == "correctness"@ && all[1].0 == "suspicious"@ && all[2].0 == "pedantic"@);
    assert(all[3].0 == "perf"@ && all[4].0 == "style"@ && all[5].0 == "restriction"@);
    assert(all[6].0 == "nursery"@);
}

/// The code of fixes: the kinds from the first on, each further one in a call of `union` on
/// those in front of it.
pub proof fn law_fix_code(kinds: Seq<FixKind>, kind: FixKind)
    ensures
        super::output::kind_code(kind) == kind_path(kind),
        super::output::union_code(seq![kind]) == kind_path(kind),
        kinds.len() > 0 ==> super::output::union_code(kinds.push(kind))
            == super::output::union_code(kinds) + ".union("@ + kind_path(kind) + ")"@,
        super::output::fix_code(FixView::NoFix) == "RuleFixMeta::None"@,
        super::output::fix_code(FixView::FixPending) == "RuleFixMeta::FixPending"@,
        super::output::fix_code(FixView::Fixable(kinds)) == "RuleFixMeta::Fixable("@
            + super::output::union_code(kinds) + ")"@,
        super::output::fix_code(FixView::Conditional(kinds)) == "RuleFixMeta::Conditional("@
            + super::output::union_code(kinds) + ")"@,
{
    assert(kinds.push(kind).drop_last() =~= kinds);
}

/// How many pieces stand in front of the code of a rule: the import, but for a test.
pub open spec fn lead(metadata: MetaView) -> int {
    if metadata.used_in_test {
        0
    } else {
        1
    }
}

/// What stands in the code of a rule: the type as it was declared, the canonical name, the
/// plugin character for character, and the category.
pub proof fn law_constants(metadata: MetaView, canonical_name: Seq<char>)
    ensures
        super::output::rule_code(metadata, canonical_name) matches Ok(code) ==> {
            let k = lead(metadata);
            &&& code.len() > k + 9
            &&& !metadata.used_in_test ==> code[0] == PieceView::Source(
                "use crate::{rule::{RuleCategory, RuleMeta, RuleFixMeta}, fixer::FixKind};\n"@,
            )
            &&& code[k] == PieceView::Source("impl RuleMeta for "@)
            &&& code[k + 1] == PieceView::Source(metadata.name)
            &&& code[k + 2] == PieceView::Source(" {\n    const NAME: &'static str = "@)
            &&& code[k + 3] == PieceView::StringLiteral(canonical_name)
            &&& code[k + 4] == PieceView::Source(";\n    const PLUGIN: &'static str = "@)
            &&& code[k + 5] == PieceView::StringLiteral(metadata.plugin)
            &&& code[k + 6] == PieceView::Source(";\n    const CATEGORY: RuleCategory = "@)
            &&& super::output::category_code(metadata.category) matches Some(category) && code[k
                + 7] == PieceView::Source(category)
            &&& code[k + 8] == PieceView::Source(";\n"@)
            &&& code.last() == PieceView::Source("}\n"@)
        },
{
}

/// The fixes stand in the code of a rule where they are declared, and the documentation where
/// there is one; nothing else does.
pub proof fn law_fix_and_documentation(metadata: MetaView, canonical_name: Seq<char>)
    ensures
        super::output::rule_code(metadata, canonical_name) matches Ok(code) ==> {
            let k = lead(metadata);
            let fixes: int = if metadata.fix is Some {
                3
            } else {
                0
            };
            let documentation: int = if metadata.documentation is Some {
                3
            } else {
                0
            };
            let end = k + 9 + fixes + documentation;
            &&& code.len() == end + 1
            &&& metadata.fix matches Some(word) ==> {
                &&& code[k + 9] == PieceView::Source("    const FIX: RuleFixMeta = "@)
                &&& super::fix::fix_of(word) matches Ok(fix) && code[k + 10] == PieceView::Source(
                    super::output::fix_code(fix),
                )
                &&& code[k + 11] == PieceView::Source(";\n"@)
            }
            &&& metadata.documentation matches Some(text) ==> {
                &&& code[end - 3] == PieceView::Source(
                    "    fn documentation() -> Option<&'static str> {\n        Some("@,
                )
                &&& code[end - 2] == PieceView::StringLiteral(text)
                &&& code[end - 1] == PieceView::Source(")\n    }\n"@)
            }
        },
{
}

/// A declaration that stands for no code: an unknown category is reported before anything else,
/// and then what is wrong with the fixes.
pub proof fn law_no_code(metadata: MetaView, canonical_name: Seq<char>, word: Seq<char>)
    ensures
        super::output::category_code(metadata.category) is None ==> super::output::rule_code(
            metadata,
            canonical_name,
        ) == Err::<Seq<PieceView>, DeclareErrorView>(DeclareErrorView::InvalidCategory),
        super::output::category_code(metadata.category) is Some && metadata.fix == Some(word) ==> (
        super::fix::fix_of(word) matches Err(error) ==> super::output::rule_code(
            metadata,
            canonical_name,
        ) == Err::<Seq<PieceView>, DeclareErrorView>(DeclareErrorView::Fix(error))),
        super::output::category_code(metadata.category) is Some && metadata.fix is None
            ==> super::output::rule_code(metadata, canonical_name) is Ok,
        super::output::canonical_name(word) == super::output::converted_name(
            word,
            NameCase::Kebab,
            WordBoundary::LowerDigit,
        ),
{
}

/// The models of pieces, fixes and errors hold what these hold.
pub proof fn law_output_models(
    pieces: Seq<Piece>,
    fix: RuleFixMeta,
    error: FixError,
    declare_error: DeclareError,
)
    ensures
        super::output::piece_views(pieces).len() == pieces.len(),
        forall|i: int|
            0 <= i < pieces.len() ==> #[trigger] super::output::piece_views(pieces)[i] == (
            match pieces[i] {
                Piece::Source(text) => PieceView::Source(text@),
                Piece::StringLiteral(value) => PieceView::StringLiteral(value@),
            }),
        fix@ == (match fix {
            RuleFixMeta::NoFix => FixView::NoFix,
            RuleFixMeta::FixPending => FixView::FixPending,
            RuleFixMeta::Fixable(kinds) => FixView::Fixable(kinds@),
            RuleFixMeta::Conditional(kinds) => FixView::Conditional(kinds@),
        }),
        error@ == (match error {
            FixError::MissingKind => FixErrorView::MissingKind,
            FixError::DidYouMean(word) => FixErrorView::DidYouMean(word@),
            FixError::InvalidCapabilities(word) => FixErrorView::InvalidCapabilities(word@),
            FixError::InvalidKind(part) => FixErrorView::InvalidKind(part@),
            FixError::NoKinds => FixErrorView::NoKinds,
        }),
        declare_error@ == (match declare_error {
            DeclareError::InvalidCategory => DeclareErrorView::InvalidCategory,
            DeclareError::Fix(inner) => DeclareErrorView::Fix(inner@),
        }),
{
}

/// A result and its model agree if and only if they are the same: the same value, or the same
/// error.
pub proof fn law_results_agree(
    code: Result<Vec<Piece>, DeclareError>,
    code_model: Result<Seq<PieceView>, DeclareErrorView>,
    fix: Result<RuleFixMeta, FixError>,
    fix_model: Result<FixView, FixErrorView>,
    meta: Result<LintRuleMeta, MetaError>,
    meta_model: Result<MetaView, MetaErrorView>,
)
    ensures
        super::output::agrees(code, code_model) <==> code_model == (match code {
            Ok(pieces) => Ok::<Seq<PieceView>, DeclareErrorView>(
                super::output::piece_views(pieces@),
            ),
            Err(error) => Err(error@),
        }),
        super::fix::agrees(fix, fix_model) <==> fix_model == (match fix {
            Ok(value) => Ok::<FixView, FixErrorView>(value@),
            Err(error) => Err(error@),
        }),
        super::meta::agrees(meta, meta_model) <==> meta_model == (match meta {
            Ok(value) => Ok::<MetaView, MetaErrorView>(value@),
            Err(error) => Err(error@),
        }),
{
}

} // verus!
