//! What a lint rule can mend by itself.
use crate::text::{same, split};
use itertools::Itertools;
use vstd::prelude::*;

verus! {

#[derive(Clone, Copy, Debug, PartialEq, Eq, Structural)]
pub enum FixKind {
    Fix,
    SafeFix,
    Suggestion,
    Dangerous,
}

/// The fixes of a rule. A list of kinds stands for their union, and is not empty.
#[derive(Debug)]
pub enum RuleFixMeta {
    NoFix,
    FixPending,
    Fixable(Vec<FixKind>),
    /// Only some of the findings can be mended.
    Conditional(Vec<FixKind>),
}

/// The model of a [`RuleFixMeta`].
#[verifier::ext_equal]
pub enum FixView {
    NoFix,
    FixPending,
    Fixable(Seq<FixKind>),
    Conditional(Seq<FixKind>),
}

impl View for RuleFixMeta {
    type V = FixView;

    open spec fn view(&self) -> FixView {
        match self {
            RuleFixMeta::NoFix => FixView::NoFix,
            RuleFixMeta::FixPending => FixView::FixPending,
            RuleFixMeta::Fixable(kinds) => FixView::Fixable(kinds@),
            RuleFixMeta::Conditional(kinds) => FixView::Conditional(kinds@),
        }
    }
}

/// Why a word names no fixes.
#[derive(Debug)]
pub enum FixError {
    /// `conditional` alone.
    MissingKind,
    /// A word that has to be in lower case.
    DidYouMean(&'static str),
    /// Any other word without `_`.
    InvalidCapabilities(String),
    /// A part between `_` that is none of the known ones.
    InvalidKind(String),
    /// Parts that name no kind.
    NoKinds,
}

/// The model of a [`FixError`].
#[verifier::ext_equal]
pub enum FixErrorView {
    MissingKind,
    DidYouMean(Seq<char>),
    InvalidCapabilities(Seq<char>),
    InvalidKind(Seq<char>),
    NoKinds,
}

impl View for FixError {
    type V = FixErrorView;

    open spec fn view(&self) -> FixErrorView {
        match self {
            FixError::MissingKind => FixErrorView::MissingKind,
            FixError::DidYouMean(word) => FixErrorView::DidYouMean(word@),
            FixError::InvalidCapabilities(word) => FixErrorView::InvalidCapabilities(word@),
            FixError::InvalidKind(part) => FixErrorView::InvalidKind(part@),
            FixError::NoKinds => FixErrorView::NoKinds,
        }
    }
}

/// What a [`FixError`] says.
pub open spec fn fix_error_message(error: FixErrorView) -> Seq<char> {
    match error {
        FixErrorView::MissingKind =>
            "Invalid fix capabilities: missing a fix kind. Did you mean 'fix-conditional'?"@,
        FixErrorView::DidYouMean(word) => "Invalid fix capabilities. Did you mean '"@ + word
            + "'?"@,
        FixErrorView::InvalidCapabilities(word) => "invalid fix capabilities: "@ + word
            + ". Valid capabilities are none, pending, fix, suggestion, or [fix|suggestion]_[conditional?]_[dangerous?]."@,
        FixErrorView::InvalidKind(part) => "invalid fix kind: "@ + part
            + ". Valid fix kinds are fix, suggestion, or dangerous."@,
        FixErrorView::NoKinds =>
            "No fix kinds were found during parsing, but at least one is required."@,
    }
}

impl FixError {
    /// Says what is wrong.
    pub fn message(&self) -> (message: String)
        ensures
            message@ == fix_error_message(self@),
    {
        match self {
            FixError::MissingKind =>
                "Invalid fix capabilities: missing a fix kind. Did you mean 'fix-conditional'?".to_owned(),
            FixError::DidYouMean(word) => {
                "Invalid fix capabilities. Did you mean '".to_owned().concat(word).concat("'?")
            },
            FixError::InvalidCapabilities(word) => {
                "invalid fix capabilities: ".to_owned().concat(word.as_str()).concat(
                    ". Valid capabilities are none, pending, fix, suggestion, or [fix|suggestion]_[conditional?]_[dangerous?].",
                )
            },
            FixError::InvalidKind(part) => {
                "invalid fix kind: ".to_owned().concat(part.as_str()).concat(
                    ". Valid fix kinds are fix, suggestion, or dangerous.",
                )
            },
            FixError::NoKinds =>
                "No fix kinds were found during parsing, but at least one is required.".to_owned(),
        }
    }
}

/// The kind that a part names.
pub open spec fn kind_of(part: Seq<char>) -> Option<FixKind> {
    if part == "fix"@ {
        Some(FixKind::Fix)
    } else if part == "suggestion"@ {
        Some(FixKind::Suggestion)
    } else if part == "dangerous"@ {
        Some(FixKind::Dangerous)
    } else {
        None
    }
}

/// The part has to name a kind: it is none of the words that only join.
pub open spec fn is_kind_part(part: Seq<char>) -> bool {
    part != "conditional"@ && part != "and"@ && part != "or"@
}

/// A list without what stands in it further in front already.
pub open spec fn first_occurrences(list: Seq<Seq<char>>) -> Seq<Seq<char>>
    decreases list.len(),
{
    if list.len() == 0 {
        list
    } else if list.drop_last().contains(list.last()) {
        first_occurrences(list.drop_last())
    } else {
        first_occurrences(list.drop_last()).push(list.last())
    }
}

/// The kinds that the parts name, or the first part that names none.
pub open spec fn kinds_of(parts: Seq<Seq<char>>) -> Result<Seq<FixKind>, FixErrorView>
    decreases parts.len(),
{
    if parts.len() == 0 {
        Ok(Seq::empty())
    } else {
        match kinds_of(parts.drop_last()) {
            Err(error) => Err(error),
            Ok(kinds) => match kind_of(parts.last()) {
                Some(kind) => Ok(kinds.push(kind)),
                None => Err(FixErrorView::InvalidKind(parts.last())),
            },
        }
    }
}

/// The fixes that the parts between `_` name together.
pub open spec fn joined_fix(parts: Seq<Seq<char>>) -> Result<FixView, FixErrorView> {
    match kinds_of(first_occurrences(parts.filter(|part: Seq<char>| is_kind_part(part)))) {
        Err(error) => Err(error),
        Ok(kinds) => if kinds.len() == 0 {
            Err(FixErrorView::NoKinds)
        } else if parts.contains("conditional"@) {
            Ok(FixView::Conditional(kinds))
        } else {
            Ok(FixView::Fixable(kinds))
        },
    }
}

/// The fixes that a word names. `fix` alone is a safe one.
pub open spec fn fix_of(s: Seq<char>) -> Result<FixView, FixErrorView> {
    if s == "none"@ {
        Ok(FixView::NoFix)
    } else if s == "pending"@ {
        Ok(FixView::FixPending)
    } else if s == "fix"@ {
        Ok(FixView::Fixable(seq![FixKind::SafeFix]))
    } else if s == "suggestion"@ {
        Ok(FixView::Fixable(seq![FixKind::Suggestion]))
    } else if s == "conditional"@ {
        Err(FixErrorView::MissingKind)
    } else if s == "None"@ {
        Err(FixErrorView::DidYouMean("none"@))
    } else if s == "Pending"@ {
        Err(FixErrorView::DidYouMean("pending"@))
    } else if s == "Fix"@ {
        Err(FixErrorView::DidYouMean("fix"@))
    } else if s == "Suggestion"@ {
        Err(FixErrorView::DidYouMean("suggestion"@))
    } else if !s.contains('_') {
        Err(FixErrorView::InvalidCapabilities(s))
    } else {
        joined_fix(crate::text::split_at(s, '_'))
    }
}

/// A result and its model agree.
pub open spec fn agrees(
    given: Result<RuleFixMeta, FixError>,
    expected: Result<FixView, FixErrorView>,
) -> bool {
    match (given, expected) {
        (Ok(fix), Ok(model)) => fix@ == model,
        (Err(error), Err(model)) => error@ == model,
        _ => false,
    }
}

/// `itertools::Itertools::unique`: the items in their order, each where it first occurs.
#[verifier::external_body]
fn unique(items: Vec<String>) -> (kept: Vec<String>)
    ensures
        crate::text::texts(kept@) == first_occurrences(crate::text::texts(items@)),
{
    items.into_iter().unique().collect()
}

/// Reads one part between `_`, if it names a kind.
pub fn try_parse_fix_kind(s: &str) -> (kind: Result<FixKind, FixError>)
    ensures
        match kind {
            Ok(kind) => kind_of(s@) == Some(kind),
            Err(error) => kind_of(s@) is None && error@ == FixErrorView::InvalidKind(s@),
        },
{
    if same(s, "fix") {
        Ok(FixKind::Fix)
    } else if same(s, "suggestion") {
        Ok(FixKind::Suggestion)
    } else if same(s, "dangerous") {
        Ok(FixKind::Dangerous)
    } else {
        Err(FixError::InvalidKind(s.to_owned()))
    }
}

/// Reads one part between `_` that names a kind.
pub fn parse_fix_kind(s: &str) -> (kind: FixKind)
    requires
        kind_of(s@) is Some,
    ensures
        kind_of(s@) == Some(kind),
{
    try_parse_fix_kind(s).unwrap()
}

fn parse_kinds(parts: &Vec<String>) -> (kinds: Result<Vec<FixKind>, FixError>)
    ensures
        match (kinds, kinds_of(crate::text::texts(parts@))) {
            (Ok(kinds), Ok(model)) => kinds@ == model,
            (Err(error), Err(model)) => error@ == model,
            _ => false,
        },
{
    let ghost texts = crate::text::texts(parts@);
    let mut kinds: Vec<FixKind> = Vec::new();
    let mut i: usize = 0;
    while i < parts.len()
        invariant
            i <= parts@.len(),
            texts == crate::text::texts(parts@),
            kinds_of(texts.take(i as int)) == Ok::<_, FixErrorView>(kinds@),
        decreases parts@.len() - i,
    {
        proof {
            assert(texts.take(i + 1).drop_last() =~= texts.take(i as int));
            assert(texts.take(i + 1).last() == parts@[i as int]@);
        }
        match try_parse_fix_kind(parts[i].as_str()) {
            Ok(kind) => {
                kinds.push(kind);
            },
            Err(error) => {
                proof {
                    lemma_kinds_error_stays(texts, i + 1);
                }
                return Err(error);
            },
        }
        i += 1;
    }
    assert(texts.take(i as int) =~= texts);
    Ok(kinds)
}

proof fn lemma_kinds_error_stays(parts: Seq<Seq<char>>, i: int)
    requires
        0 <= i <= parts.len(),
        kinds_of(parts.take(i)) is Err,
    ensures
        kinds_of(parts) == kinds_of(parts.take(i)),
    decreases parts.len(),
{
    if i == parts.len() {
        assert(parts.take(i) =~= parts);
    } else {
        assert(parts.drop_last().take(i) =~= parts.take(i));
        lemma_kinds_error_stays(parts.drop_last(), i);
    }
}

/// Reads what the parts between `_` say together: whether one is `conditional`, and the parts
/// that have to name a kind.
fn kind_parts(parts: &Vec<String>) -> (found: (bool, Vec<String>))
    ensures
        found.0 == crate::text::texts(parts@).contains("conditional"@),
        crate::text::texts(found.1@) == crate::text::texts(parts@).filter(
            |part: Seq<char>| is_kind_part(part),
        ),
{
    let ghost texts = crate::text::texts(parts@);
    let ghost keeps = |part: Seq<char>| is_kind_part(part);
    let mut conditional = false;
    let mut kept: Vec<String> = Vec::new();
    let mut i: usize = 0;
    proof {
        reveal(Seq::filter);
        assert(crate::text::texts(kept@) =~= texts.take(0).filter(keeps));
    }
    while i < parts.len()
        invariant
            i <= parts@.len(),
            texts == crate::text::texts(parts@),
            keeps == (|part: Seq<char>| is_kind_part(part)),
            conditional == texts.take(i as int).contains("conditional"@),
            crate::text::texts(kept@) == texts.take(i as int).filter(keeps),
        decreases parts@.len() - i,
    {
        let part = parts[i].as_str();
        let ghost before = kept@;
        proof {
            reveal(Seq::filter);
            assert(texts.take(i + 1).drop_last() =~= texts.take(i as int));
            assert(texts.take(i + 1).last() == part@);
            assert(texts.take(i + 1) =~= texts.take(i as int).push(part@));
        }
        if same(part, "conditional") {
            assert(texts.take(i + 1)[i as int] == "conditional"@);
            conditional = true;
        } else if !same(part, "and") && !same(part, "or") {
            kept.push(part.to_owned());
            assert(crate::text::texts(kept@) =~= crate::text::texts(before).push(part@));
        }
        proof {
            if conditional && part@ != "conditional"@ {
                let j = choose|j: int|
                    0 <= j < i && texts.take(i as int)[j] == "conditional"@;
                assert(texts.take(i + 1)[j] == "conditional"@);
            }
        }
        i += 1;
    }
    assert(texts.take(i as int) =~= texts);
    (conditional, kept)
}

fn has_underscore(s: &str) -> (found: bool)
    ensures
        found == s@.contains('_'),
{
    let len: usize = s.unicode_len();
    let mut i: usize = 0;
    while i < len
        invariant
            i <= len,
            len == s@.len(),
            forall|j: int| 0 <= j < i ==> s@[j] != '_',
        decreases len - i,
    {
        if s.get_char(i) == '_' {
            return true;
        }
        i += 1;
    }
    false
}

/// Reads what the parts between `_` name together, such as `fix`, `or`, `suggestion`.
pub fn parse_joined_fix(parts: &Vec<String>) -> (fix: Result<RuleFixMeta, FixError>)
    ensures
        agrees(fix, joined_fix(crate::text::texts(parts@))),
{
    let (is_conditional, kind_words) = kind_parts(parts);
    let fix_kinds = parse_kinds(&unique(kind_words))?;
    if fix_kinds.len() == 0 {
        Err(FixError::NoKinds)
    } else if is_conditional {
        Ok(RuleFixMeta::Conditional(fix_kinds))
    } else {
        Ok(RuleFixMeta::Fixable(fix_kinds))
    }
}

/// Reads the word that says what a rule can mend, if it says that.
pub fn try_parse_fix(s: &str) -> (fix: Result<RuleFixMeta, FixError>)
    ensures
        agrees(fix, fix_of(s@)),
{
    if same(s, "none") {
        Ok(RuleFixMeta::NoFix)
    } else if same(s, "pending") {
        Ok(RuleFixMeta::FixPending)
    } else if same(s, "fix") {
        let kinds = vec![FixKind::SafeFix];
        assert(kinds@ =~= seq![FixKind::SafeFix]);
        Ok(RuleFixMeta::Fixable(kinds))
    } else if same(s, "suggestion") {
        let kinds = vec![FixKind::Suggestion];
        assert(kinds@ =~= seq![FixKind::Suggestion]);
        Ok(RuleFixMeta::Fixable(kinds))
    } else if same(s, "conditional") {
        Err(FixError::MissingKind)
    } else if same(s, "None") {
        Err(FixError::DidYouMean("none"))
    } else if same(s, "Pending") {
        Err(FixError::DidYouMean("pending"))
    } else if same(s, "Fix") {
        Err(FixError::DidYouMean("fix"))
    } else if same(s, "Suggestion") {
        Err(FixError::DidYouMean("suggestion"))
    } else if !has_underscore(s) {
        Err(FixError::InvalidCapabilities(s.to_owned()))
    } else {
        parse_joined_fix(&split(s, '_'))
    }
}

/// Reads a word that says what a rule can mend.
pub fn parse_fix(s: &str) -> (fix: RuleFixMeta)
    requires
        fix_of(s@) is Ok,
    ensures
        fix_of(s@) == Ok::<_, FixErrorView>(fix@),
{
    try_parse_fix(s).unwrap()
}

pub proof fn lemma_first_occurrences(list: Seq<Seq<char>>)
    ensures
        first_occurrences(list).no_duplicates(),
        forall|item: Seq<char>|
            #![trigger first_occurrences(list).contains(item)]
            #![trigger list.contains(item)]
            first_occurrences(list).contains(item) <==> list.contains(item),
    decreases list.len(),
{
    if list.len() > 0 {
        let rest = list.drop_last();
        lemma_first_occurrences(rest);
        assert forall|item: Seq<char>|
            #![trigger first_occurrences(list).contains(item)]
            #![trigger list.contains(item)]
            first_occurrences(list).contains(item) <==> list.contains(item) by {
            assert(list =~= rest.push(list.last()));
            broadcast use vstd::seq_lib::group_seq_properties;

        }
        if !rest.contains(list.last()) {
            assert(!first_occurrences(rest).contains(list.last()));
        }
    }
}

pub proof fn lemma_kinds_are_named(parts: Seq<Seq<char>>)
    requires
        kinds_of(parts) is Ok,
    ensures
        kinds_of(parts)->Ok_0.len() == parts.len(),
        forall|i: int|
            0 <= i < parts.len() ==> kind_of(#[trigger] parts[i]) == Some(
                kinds_of(parts)->Ok_0[i],
            ),
    decreases parts.len(),
{
    if parts.len() > 0 {
        lemma_kinds_are_named(parts.drop_last());
        assert forall|i: int| 0 <= i < parts.len() implies kind_of(#[trigger] parts[i]) == Some(
            kinds_of(parts)->Ok_0[i],
        ) by {
            if i < parts.len() - 1 {
                assert(parts.drop_last()[i] == parts[i]);
            }
        }
    }
}

/// The kinds of a fix, where it has any.
pub open spec fn kinds_in(fix: FixView) -> Option<Seq<FixKind>> {
    match fix {
        FixView::Fixable(kinds) => Some(kinds),
        FixView::Conditional(kinds) => Some(kinds),
        _ => None,
    }
}

/// A fix that has kinds has at least one, and none of them twice.
pub proof fn law_kinds_are_distinct(s: Seq<char>)
    ensures
        fix_of(s) matches Ok(fix) ==> (kinds_in(fix) matches Some(kinds) ==> kinds.len() > 0
            && kinds.no_duplicates()),
{
    let parts = crate::text::split_at(s, '_');
    let listed = first_occurrences(parts.filter(|part: Seq<char>| is_kind_part(part)));
    if kinds_of(listed) is Ok {
        lemma_kinds_are_named(listed);
        lemma_first_occurrences(parts.filter(|part: Seq<char>| is_kind_part(part)));
        let kinds = kinds_of(listed)->Ok_0;
        assert forall|i: int, j: int|
            0 <= i < kinds.len() && 0 <= j < kinds.len() && i != j implies kinds[i]
            != kinds[j] by {
            assert(kind_of(listed[i]) == Some(kinds[i]));
            assert(kind_of(listed[j]) == Some(kinds[j]));
        }
    }
}

/// The kind `SafeFix` comes of the word `fix` alone, and of no other.
pub proof fn law_safe_fix(s: Seq<char>)
    ensures
        (fix_of(s) matches Ok(fix) && kinds_in(fix) matches Some(kinds) && kinds.contains(
            FixKind::SafeFix,
        )) <==> s == "fix"@,
{
    if s == "fix"@ {
        reveal_strlit("fix");
        reveal_strlit("none");
        reveal_strlit("pending");
        assert("none"@.len() != "fix"@.len());
        assert("pending"@.len() != "fix"@.len());
        assert(seq![FixKind::SafeFix][0] == FixKind::SafeFix);
    } else {
        let parts = crate::text::split_at(s, '_');
        let listed = first_occurrences(parts.filter(|part: Seq<char>| is_kind_part(part)));
        if kinds_of(listed) is Ok {
            lemma_kinds_are_named(listed);
            let kinds = kinds_of(listed)->Ok_0;
            assert forall|i: int| 0 <= i < kinds.len() implies kinds[i] != FixKind::SafeFix by {
                assert(kind_of(listed[i]) == Some(kinds[i]));
            }
        }
        assert(!seq![FixKind::Suggestion].contains(FixKind::SafeFix));
    }
}

proof fn lemma_kinds_are_owed(parts: Seq<Seq<char>>)
    ensures
        kinds_of(parts) is Ok <==> (forall|i: int|
            0 <= i < parts.len() ==> kind_of(#[trigger] parts[i]) is Some),
    decreases parts.len(),
{
    if parts.len() > 0 {
        let rest = parts.drop_last();
        lemma_kinds_are_owed(rest);
        assert(forall|i: int| 0 <= i < rest.len() ==> rest[i] == parts[i]);
        if kinds_of(rest) is Err {
            let i = choose|i: int| 0 <= i < rest.len() && kind_of(#[trigger] rest[i]) is None;
            assert(kind_of(parts[i]) is None);
        } else {
            assert(forall|i: int|
                0 <= i < parts.len() - 1 ==> kind_of(rest[i]) is Some && rest[i]
                    == #[trigger] parts[i]);
        }
    }
}

/// A word names fixes if and only if it is one of four words, or has `_` in it, each part
/// between `_` is a kind or one of the words that only join, and at least one part is a kind.
pub proof fn law_fixes_are_owed(s: Seq<char>)
    ensures
        fix_of(s) is Ok <==> {
            ||| s == "none"@
            ||| s == "pending"@
            ||| s == "fix"@
            ||| s == "suggestion"@
            ||| {
                let parts = crate::text::split_at(s, '_');
                &&& s.contains('_')
                &&& forall|i: int|
                    0 <= i < parts.len() ==> kind_of(#[trigger] parts[i]) is Some || !is_kind_part(
                        parts[i],
                    )
                &&& exists|i: int| 0 <= i < parts.len() && kind_of(#[trigger] parts[i]) is Some
            }
        },
{
    let parts = crate::text::split_at(s, '_');
    let keeps = |part: Seq<char>| is_kind_part(part);
    let kept = parts.filter(keeps);
    let listed = first_occurrences(kept);
    if s.contains('_') {
        reveal_strlit("conditional");
        reveal_strlit("None");
        reveal_strlit("Pending");
        reveal_strlit("Fix");
        reveal_strlit("Suggestion");
        let i = choose|i: int| 0 <= i < s.len() && s[i] == '_';
        assert(s[i] == '_');
    }
    lemma_kinds_are_owed(listed);
    lemma_first_occurrences(kept);
    assert forall|part: Seq<char>| #[trigger] listed.contains(part) <==> parts.contains(part)
        && is_kind_part(part) by {
        if kept.contains(part) {
            parts.lemma_filter_contains_rev(keeps, part);
            let i = choose|i: int| 0 <= i < kept.len() && kept[i] == part;
            parts.lemma_filter_pred(keeps, i);
        }
        if parts.contains(part) && is_kind_part(part) {
            let i = choose|i: int| 0 <= i < parts.len() && parts[i] == part;
            parts.lemma_filter_contains(keeps, i);
        }
    }
    assert forall|part: Seq<char>| #[trigger] kind_of(part) is Some implies is_kind_part(part) by {
        reveal_strlit("fix");
        reveal_strlit("suggestion");
        reveal_strlit("dangerous");
        reveal_strlit("conditional");
        reveal_strlit("and");
        reveal_strlit("or");
        assert("fix"@[0] != "and"@[0]);
        assert("suggestion"@.len() != "conditional"@.len());
        assert("dangerous"@.len() != "conditional"@.len());
    }
    // What is read of the kinds that are listed holds of the parts, and the other way round.
    if kinds_of(listed) is Ok {
        lemma_kinds_are_named(listed);
        assert forall|i: int| 0 <= i < parts.len() implies kind_of(#[trigger] parts[i]) is Some
            || !is_kind_part(parts[i]) by {
            if is_kind_part(parts[i]) {
                assert(listed.contains(parts[i]));
                let j = choose|j: int| 0 <= j < listed.len() && listed[j] == parts[i];
                assert(kind_of(listed[j]) is Some);
            }
        }
        if listed.len() > 0 {
            assert(listed.contains(listed[0]));
            let j = choose|j: int| 0 <= j < parts.len() && parts[j] == listed[0];
            assert(kind_of(parts[j]) is Some);
        }
        if exists|i: int| 0 <= i < parts.len() && kind_of(#[trigger] parts[i]) is Some {
            let i = choose|i: int| 0 <= i < parts.len() && kind_of(#[trigger] parts[i]) is Some;
            assert(listed.contains(parts[i]));
        }
    } else {
        let j = choose|j: int| 0 <= j < listed.len() && kind_of(#[trigger] listed[j]) is None;
        assert(listed.contains(listed[j]));
        let i = choose|i: int| 0 <= i < parts.len() && parts[i] == listed[j];
        assert(kind_of(parts[i]) is None && is_kind_part(parts[i]));
    }
}

/// A fix is conditional if and only if one of the parts between `_` is `conditional`.
pub proof fn law_conditional(s: Seq<char>)
    ensures
        fix_of(s) matches Ok(fix) ==> (fix is Conditional <==> crate::text::split_at(
            s,
            '_',
        ).contains("conditional"@)),
{
    if !s.contains('_') {
        crate::text::law_split_whole(s, '_');
        if seq![s].contains("conditional"@) {
            assert(s == "conditional"@);
            reveal_strlit("conditional");
            reveal_strlit("none");
            reveal_strlit("pending");
            reveal_strlit("fix");
            reveal_strlit("suggestion");
            assert("none"@.len() != s.len());
            assert("pending"@.len() != s.len());
            assert("fix"@.len() != s.len());
            assert("suggestion"@.len() != s.len());
        }
    } else {
        reveal_strlit("none");
        reveal_strlit("pending");
        reveal_strlit("fix");
        reveal_strlit("suggestion");
        let i = choose|i: int| 0 <= i < s.len() && s[i] == '_';
        assert(s[i] == '_');
    }
}

/// A part that stands there already adds nothing, and neither do the words `and` and `or`.
pub proof fn law_idle_parts(parts: Seq<Seq<char>>, part: Seq<char>)
    requires
        parts.contains(part) || part == "and"@ || part == "or"@,
    ensures
        joined_fix(parts.push(part)) == joined_fix(parts),
{
    let keeps = |part: Seq<char>| is_kind_part(part);
    let longer = parts.push(part);
    reveal(Seq::filter);
    assert(longer.drop_last() =~= parts);
    assert(longer.contains("conditional"@) == parts.contains("conditional"@)) by {
        reveal_strlit("conditional");
        reveal_strlit("and");
        reveal_strlit("or");
        assert("conditional"@.len() != "and"@.len());
        assert("conditional"@.len() != "or"@.len());
        broadcast use vstd::seq_lib::group_seq_properties;

    }
    if is_kind_part(part) {
        let kept = parts.filter(keeps);
        assert(longer.filter(keeps) =~= kept.push(part));
        assert(kept.push(part).drop_last() =~= kept);
        assert(kept.contains(part)) by {
            broadcast use vstd::seq_lib::group_filter_ensures;

            let i = choose|i: int| 0 <= i < parts.len() && parts[i] == part;
            assert(keeps(parts[i]));
        }
    }
}

} // verus!
