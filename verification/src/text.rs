//! Strings as sequences of characters.
use vstd::prelude::*;

verus! {

/// The contents of a list of strings.
pub open spec fn texts(list: Seq<String>) -> Seq<Seq<char>> {
    list.map_values(|text: String| text@)
}

/// The contents of a list of string slices.
pub open spec fn slice_texts(list: Seq<&str>) -> Seq<Seq<char>> {
    list.map_values(|text: &str| text@)
}

/// The contents of a string that may be absent.
pub open spec fn optional_text(text: Option<String>) -> Option<Seq<char>> {
    match text {
        Some(text) => Some(text@),
        None => None,
    }
}

/// Tells whether two strings are the same.
pub fn same(a: &str, b: &str) -> (equal: bool)
    ensures
        equal == (a@ == b@),
{
    a.to_owned() == b.to_owned()
}

/// Where the separator first occurs, or the length of the text.
pub open spec fn first(text: Seq<char>, separator: char) -> nat
    decreases text.len(),
{
    if text.len() == 0 || text[0] == separator {
        0
    } else {
        1 + first(text.skip(1), separator)
    }
}

/// The pieces of a text between the separators.
pub open spec fn split_at(text: Seq<char>, separator: char) -> Seq<Seq<char>>
    decreases text.len(),
{
    let i = first(text, separator) as int;
    if i >= text.len() {
        seq![text]
    } else {
        seq![text.take(i)] + split_at(text.skip(i + 1), separator)
    }
}

/// The pieces with the separator between them.
pub open spec fn join(pieces: Seq<Seq<char>>, separator: char) -> Seq<char>
    decreases pieces.len(),
{
    if pieces.len() == 0 {
        Seq::empty()
    } else if pieces.len() == 1 {
        pieces[0]
    } else {
        pieces[0].push(separator) + join(pieces.skip(1), separator)
    }
}

proof fn lemma_first(text: Seq<char>, separator: char)
    ensures
        first(text, separator) <= text.len(),
        first(text, separator) < text.len() ==> text[first(text, separator) as int] == separator,
        forall|j: int| 0 <= j < first(text, separator) ==> text[j] != separator,
    decreases text.len(),
{
    if text.len() > 0 && text[0] != separator {
        lemma_first(text.skip(1), separator);
        assert forall|j: int| 0 <= j < first(text, separator) implies text[j] != separator by {
            if j > 0 {
                assert(text.skip(1)[j - 1] == text[j]);
            }
        }
    }
}

proof fn lemma_first_unique(text: Seq<char>, separator: char, i: int)
    requires
        0 <= i <= text.len(),
        i < text.len() ==> text[i] == separator,
        forall|j: int| 0 <= j < i ==> text[j] != separator,
    ensures
        first(text, separator) == i,
{
    lemma_first(text, separator);
}

/// A text without a separator is one piece.
pub proof fn law_split_whole(text: Seq<char>, separator: char)
    requires
        !text.contains(separator),
    ensures
        split_at(text, separator) == seq![text],
{
    lemma_first(text, separator);
}

/// Splitting loses nothing: the pieces joined are the text, and no piece holds a separator.
pub proof fn law_split_join(text: Seq<char>, separator: char)
    ensures
        join(split_at(text, separator), separator) == text,
        split_at(text, separator).len() >= 1,
        forall|i: int|
            0 <= i < split_at(text, separator).len() ==> !(#[trigger] split_at(
                text,
                separator,
            )[i]).contains(separator),
    decreases text.len(),
{
    lemma_first(text, separator);
    let i = first(text, separator) as int;
    let pieces = split_at(text, separator);
    if i < text.len() {
        let rest = split_at(text.skip(i + 1), separator);
        law_split_join(text.skip(i + 1), separator);
        assert(pieces.skip(1) =~= rest);
        assert(pieces[0].push(separator) + text.skip(i + 1) =~= text);
        assert forall|k: int| 0 <= k < pieces.len() implies !(#[trigger] pieces[k]).contains(
            separator,
        ) by {
            if k > 0 {
                assert(pieces[k] == rest[k - 1]);
            }
        }
    }
}

/// Cuts a text at every separator.
pub fn split(text: &str, separator: char) -> (pieces: Vec<String>)
    ensures
        texts(pieces@) == split_at(text@, separator),
{
    let len: usize = text.unicode_len();
    let mut pieces: Vec<String> = Vec::new();
    let mut start: usize = 0;
    let mut i: usize = 0;
    proof {
        assert(text@.skip(0) =~= text@);
        assert(texts(pieces@) + split_at(text@, separator) =~= split_at(text@, separator));
    }
    while i < len
        invariant
            start <= i <= len,
            len == text@.len(),
            forall|j: int| start <= j < i ==> text@[j] != separator,
            texts(pieces@) + split_at(text@.skip(start as int), separator) == split_at(
                text@,
                separator,
            ),
        decreases len - i,
    {
        if text.get_char(i) == separator {
            let ghost before = texts(pieces@);
            let ghost tail = text@.skip(start as int);
            let piece = text.substring_char(start, i).to_owned();
            proof {
                lemma_first_unique(tail, separator, i - start);
                assert(tail.take(i - start) =~= piece@);
                assert(tail.skip(i - start + 1) =~= text@.skip(i + 1));
            }
            pieces.push(piece);
            proof {
                assert(texts(pieces@) =~= before.push(piece@));
                let rest = split_at(text@.skip(i + 1), separator);
                assert(before + (seq![piece@] + rest) =~= texts(pieces@) + rest);
            }
            start = i + 1;
        }
        i += 1;
    }
    let ghost before = texts(pieces@);
    let piece = text.substring_char(start, len).to_owned();
    proof {
        lemma_first_unique(text@.skip(start as int), separator, len - start);
        assert(text@.skip(start as int) =~= piece@);
    }
    pieces.push(piece);
    assert(texts(pieces@) =~= before + seq![piece@]);
    pieces
}

/// The first piece goes up to the first separator, and the others are those of what is behind it.
pub proof fn law_split_first(piece: Seq<char>, rest: Seq<char>, separator: char)
    requires
        !piece.contains(separator),
    ensures
        split_at(piece.push(separator) + rest, separator) == seq![piece] + split_at(
            rest,
            separator,
        ),
{
    let text = piece.push(separator) + rest;
    lemma_first(text, separator);
    let i = first(text, separator) as int;
    assert(text[piece.len() as int] == separator);
    if i < piece.len() {
        assert(piece[i] == text[i]);
    }
    assert(text.take(i) =~= piece);
    assert(text.skip(i + 1) =~= rest);
}

/// The models of lists of strings hold each string in its place, and that of a string that may
/// be absent holds it where it is there.
pub proof fn law_texts(list: Seq<String>, slices: Seq<&str>, text: Option<String>)
    ensures
        texts(list).len() == list.len(),
        forall|i: int| 0 <= i < list.len() ==> #[trigger] texts(list)[i] == list[i]@,
        slice_texts(slices).len() == slices.len(),
        forall|i: int| 0 <= i < slices.len() ==> #[trigger] slice_texts(slices)[i] == slices[i]@,
        text is Some <==> optional_text(text) is Some,
        text matches Some(string) ==> optional_text(text) == Some(string@),
{
}

} // verus!
