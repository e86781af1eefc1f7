//! The scanner: words between white space, identifiers, and the ends of
//! words.

use vstd::prelude::*;
use vstd::slice::slice_subrange;
use vstd::string::{StrSliceExecFns, StringExecFns};
use crate::chars::{
    char_is_alphabetic,
    char_is_alphanumeric,
    char_is_whitespace,
    char_to_uppercase,
    is_alphabetic,
    is_alphanumeric,
    is_whitespace,
    string_of,
    to_chars,
    uppercase,
};
use crate::errors::{new_syntax_error, syntax_error, Result};
use crate::position::Pos;

verus! {

/// The place of the first character at or after `from` that is not white
/// space; the length of the text if there is none.
pub open spec fn skip_whitespace(text: Seq<char>, from: int) -> int
    decreases text.len() - from,
{
    if 0 <= from < text.len() && is_whitespace(text[from]) {
        skip_whitespace(text, from + 1)
    } else {
        from
    }
}

/// The place of the first white space at or after `from`; the length of
/// the text if there is none.
pub open spec fn skip_word(text: Seq<char>, from: int) -> int
    decreases text.len() - from,
{
    if 0 <= from < text.len() && !is_whitespace(text[from]) {
        skip_word(text, from + 1)
    } else {
        from
    }
}

/// `skip_whitespace` passes white space only, and stops at the first
/// character that is none.
pub proof fn lemma_skip_whitespace(text: Seq<char>, from: int)
    requires
        0 <= from <= text.len(),
    ensures
        from <= skip_whitespace(text, from) <= text.len(),
        forall|i: int| from <= i < skip_whitespace(text, from) ==> is_whitespace(text[i]),
        skip_whitespace(text, from) < text.len() ==> !is_whitespace(
            text[skip_whitespace(text, from)],
        ),
    decreases text.len() - from,
{
    if from < text.len() && is_whitespace(text[from]) {
        lemma_skip_whitespace(text, from + 1);
    }
}

/// `skip_word` passes no white space, and stops at the first.
pub proof fn lemma_skip_word(text: Seq<char>, from: int)
    requires
        0 <= from <= text.len(),
    ensures
        from <= skip_word(text, from) <= text.len(),
        forall|i: int| from <= i < skip_word(text, from) ==> !is_whitespace(text[i]),
        skip_word(text, from) < text.len() ==> is_whitespace(text[skip_word(text, from)]),
        from < text.len() && !is_whitespace(text[from]) ==> from < skip_word(text, from),
    decreases text.len() - from,
{
    if from < text.len() && !is_whitespace(text[from]) {
        lemma_skip_word(text, from + 1);
    }
}

/// What a `Word` holds: where the word starts in the text it was found
/// in, and its characters.
pub struct WordView {
    pub index: int,
    pub word: Seq<char>,
}

/// A word found by the scanner, with the place of its first character in
/// the text it was found in, counted in characters from zero.
#[derive(Debug, PartialEq)]
pub struct Word<'a> {
    pub index: usize,
    pub word: &'a str,
}

impl<'a> View for Word<'a> {
    type V = WordView;

    open spec fn view(&self) -> WordView {
        WordView { index: self.index as int, word: self.word@ }
    }
}

/// The word of a text that starts at `start`.
pub open spec fn word_at(text: Seq<char>, start: int) -> WordView {
    WordView { index: start, word: text.subrange(start, skip_word(text, start)) }
}

/// The first word of a text: its longest run of characters without white
/// space that follows white space only. A blank text has none.
pub open spec fn first_word(text: Seq<char>) -> Option<WordView> {
    let start = skip_whitespace(text, 0);
    if start < text.len() {
        Some(word_at(text, start))
    } else {
        None
    }
}

/// The words of a text that start at or after `from`, in order.
pub open spec fn words_from(text: Seq<char>, from: int) -> Seq<WordView>
    decreases text.len() - from,
    via words_from_decreases
{
    let start = skip_whitespace(text, from);
    if from < 0 || start >= text.len() {
        Seq::empty()
    } else {
        seq![word_at(text, start)] + words_from(text, skip_word(text, start))
    }
}

#[via_fn]
proof fn words_from_decreases(text: Seq<char>, from: int) {
    if 0 <= from <= text.len() {
        lemma_skip_whitespace(text, from);
        let start = skip_whitespace(text, from);
        if start < text.len() {
            lemma_skip_word(text, start);
        }
    }
}

/// What `words` answers: the first `count` words of a text, if it has as
/// many.
pub open spec fn words_spec(text: Seq<char>, count: int) -> Option<Seq<WordView>> {
    let all = words_from(text, 0);
    if 0 <= count <= all.len() {
        Some(all.take(count))
    } else {
        None
    }
}

/// Which characters of a text are white space.
pub open spec fn spaces(text: Seq<char>) -> Seq<bool> {
    text.map_values(|character: char| is_whitespace(character))
}

/// Tells of each character of a text whether it is white space.
pub fn spaces_of(text: &[char]) -> (marks: Vec<bool>)
    ensures
        marks@ == spaces(text@),
{
    let mut marks: Vec<bool> = Vec::new();
    let mut i: usize = 0;
    while i < text.len()
        invariant
            i <= text.len(),
            marks@ == spaces(text@.take(i as int)),
        decreases text.len() - i,
    {
        marks.push(char_is_whitespace(text[i]));
        assert(marks@ =~= spaces(text@.take(i + 1)));
        i += 1;
    }
    assert(text@.take(text.len() as int) == text@);
    marks
}

/// The first place at or after `from` that is not marked; the number of
/// marks if there is none.
pub open spec fn skip_marked(marks: Seq<bool>, from: int) -> int
    decreases marks.len() - from,
{
    if 0 <= from < marks.len() && marks[from] {
        skip_marked(marks, from + 1)
    } else {
        from
    }
}

/// The first place at or after `from` that is marked; the number of marks
/// if there is none.
pub open spec fn skip_unmarked(marks: Seq<bool>, from: int) -> int
    decreases marks.len() - from,
{
    if 0 <= from < marks.len() && !marks[from] {
        skip_unmarked(marks, from + 1)
    } else {
        from
    }
}

/// Words are found by the marks of white space alone.
pub proof fn lemma_spaces(text: Seq<char>, from: int)
    requires
        0 <= from <= text.len(),
    ensures
        skip_whitespace(text, from) == skip_marked(spaces(text), from),
        skip_word(text, from) == skip_unmarked(spaces(text), from),
        from <= skip_whitespace(text, from) <= text.len(),
        from <= skip_word(text, from) <= text.len(),
    decreases text.len() - from,
{
    if from < text.len() {
        lemma_spaces(text, from + 1);
    }
}

/// Finds the first run without a mark at or after `from`: where it starts
/// and where it ends. The run starts at the first place that is not marked,
/// and ends before the next mark.
pub fn find_run(marks: &[bool], from: usize) -> (found: Option<(usize, usize)>)
    requires
        from <= marks@.len(),
    ensures
        match found {
            Some((start, end)) => from <= start < end <= marks@.len() && start == skip_marked(
                marks@,
                from as int,
            ) && end == skip_unmarked(marks@, start as int),
            None => skip_marked(marks@, from as int) == marks@.len(),
        },
{
    let mut start: usize = from;
    while start < marks.len() && marks[start]
        invariant
            from <= start <= marks.len(),
            skip_marked(marks@, from as int) == skip_marked(marks@, start as int),
        decreases marks.len() - start,
    {
        start += 1;
    }
    if start >= marks.len() {
        return None;
    }
    let mut end: usize = start + 1;
    while end < marks.len() && !marks[end]
        invariant
            start < end <= marks.len(),
            skip_unmarked(marks@, start as int) == skip_unmarked(marks@, end as int),
        decreases marks.len() - end,
    {
        end += 1;
    }
    Some((start, end))
}

/// The runs without a mark that start at or after `from`, in order.
pub open spec fn runs_from(marks: Seq<bool>, from: int) -> Seq<(int, int)>
    decreases marks.len() - from,
    via runs_from_decreases
{
    let start = skip_marked(marks, from);
    if from < 0 || start >= marks.len() {
        Seq::empty()
    } else {
        seq![(start, skip_unmarked(marks, start))] + runs_from(marks, skip_unmarked(marks, start))
    }
}

#[via_fn]
proof fn runs_from_decreases(marks: Seq<bool>, from: int) {
    if 0 <= from <= marks.len() {
        lemma_skip_marks(marks, from);
        let start = skip_marked(marks, from);
        if start < marks.len() {
            lemma_skip_marks(marks, start);
        }
    }
}

/// Skipping goes forward, and stays within the marks.
pub proof fn lemma_skip_marks(marks: Seq<bool>, from: int)
    requires
        0 <= from <= marks.len(),
    ensures
        from <= skip_marked(marks, from) <= marks.len(),
        from <= skip_unmarked(marks, from) <= marks.len(),
        skip_marked(marks, from) < marks.len() ==> !marks[skip_marked(marks, from)],
        from < marks.len() && !marks[from] ==> from < skip_unmarked(marks, from),
    decreases marks.len() - from,
{
    if from < marks.len() {
        lemma_skip_marks(marks, from + 1);
    }
}

/// The words of a text are the runs between its white space.
pub proof fn lemma_words_are_runs(text: Seq<char>, from: int)
    requires
        0 <= from <= text.len(),
    ensures
        words_from(text, from).len() == runs_from(spaces(text), from).len(),
        forall|i: int|
            0 <= i < words_from(text, from).len() ==> {
                let (start, end) = #[trigger] runs_from(spaces(text), from)[i];
                &&& from <= start < end <= text.len()
                &&& end == skip_word(text, start)
                &&& words_from(text, from)[i] == word_at(text, start)
            },
    decreases text.len() - from,
{
    lemma_spaces(text, from);
    lemma_skip_whitespace(text, from);
    let start = skip_whitespace(text, from);
    if start < text.len() {
        lemma_spaces(text, start);
        lemma_skip_word(text, start);
        let end = skip_word(text, start);
        lemma_words_are_runs(text, end);
        let words = words_from(text, from);
        let runs = runs_from(spaces(text), from);
        assert forall|i: int| 0 <= i < words.len() implies {
            let (run_start, run_end) = #[trigger] runs[i];
            &&& from <= run_start < run_end <= text.len()
            &&& run_end == skip_word(text, run_start)
            &&& words[i] == word_at(text, run_start)
        } by {
            assert(runs == seq![(start, end)] + runs_from(spaces(text), end));
            assert(words == seq![word_at(text, start)] + words_from(text, end));
            if i > 0 {
                assert(runs[i] == runs_from(spaces(text), end)[i - 1]);
                assert(words[i] == words_from(text, end)[i - 1]);
            }
        }
    }
}

/// Finds the first `count` runs without a mark: where each starts and ends.
/// Nothing is found if there are fewer.
pub fn find_runs(marks: &[bool], count: usize) -> (found: Option<Vec<(usize, usize)>>)
    ensures
        match found {
            Some(places) => places@.len() == count && count <= runs_from(marks@, 0).len()
                && forall|i: int|
                0 <= i < count ==> ((#[trigger] places@[i]).0 as int, places@[i].1 as int)
                    == runs_from(marks@, 0)[i],
            None => runs_from(marks@, 0).len() < count,
        },
{
    let mut places: Vec<(usize, usize)> = Vec::new();
    let mut from: usize = 0;
    let ghost mut found: Seq<(int, int)> = Seq::empty();
    proof {
        assert(found + runs_from(marks@, 0) =~= runs_from(marks@, 0));
    }
    while places.len() < count
        invariant
            from <= marks.len(),
            places@.len() <= count,
            found.len() == places@.len(),
            runs_from(marks@, 0) == found + runs_from(marks@, from as int),
            forall|i: int|
                0 <= i < places@.len() ==> ((#[trigger] places@[i]).0 as int, places@[i].1 as int)
                    == found[i],
        decreases marks.len() - from,
    {
        match find_run(marks, from) {
            None => {
                proof {
                    assert(runs_from(marks@, from as int) =~= Seq::<(int, int)>::empty());
                    assert(found + Seq::<(int, int)>::empty() =~= found);
                }
                return None;
            },
            Some((start, end)) => {
                proof {
                    let run = (start as int, end as int);
                    assert(found.push(run) + runs_from(marks@, end as int) =~= found + (seq![run]
                        + runs_from(marks@, end as int)));
                    found = found.push(run);
                }
                places.push((start, end));
                from = end;
            },
        }
    }
    Some(places)
}

/// Finds the first word of a text: where it starts and where it ends.
pub fn find_word(text: &[char]) -> (found: Option<(usize, usize)>)
    ensures
        match found {
            Some((start, end)) => start < end <= text@.len() && start == skip_whitespace(text@, 0)
                && end == skip_word(text@, start as int) && first_word(text@) == Some(
                word_at(text@, start as int),
            ),
            None => first_word(text@) is None,
        },
{
    let marks = spaces_of(text);
    proof {
        lemma_spaces(text@, 0);
        lemma_spaces(text@, skip_whitespace(text@, 0));
    }
    find_run(marks.as_slice(), 0)
}

/// Finds the first `count` words of a text: where each starts and ends.
pub fn find_words(text: &[char], count: usize) -> (found: Option<Vec<(usize, usize)>>)
    ensures
        match found {
            Some(places) => words_spec(text@, count as int) is Some && places@.len() == count
                && forall|i: int|
                0 <= i < count ==> {
                    let (start, end) = #[trigger] places@[i];
                    &&& start < end <= text@.len()
                    &&& end == skip_word(text@, start as int)
                    &&& words_spec(text@, count as int)->Some_0[i] == word_at(text@, start as int)
                },
            None => words_spec(text@, count as int) is None,
        },
{
    let marks = spaces_of(text);
    proof {
        lemma_words_are_runs(text@, 0);
    }
    let found = find_runs(marks.as_slice(), count);
    proof {
        if found is Some {
            let places = found->Some_0;
            assert(words_from(text@, 0).len() >= count);
            assert forall|i: int| 0 <= i < count implies {
                let (start, end) = #[trigger] places@[i];
                &&& start < end <= text@.len()
                &&& end == skip_word(text@, start as int)
                &&& words_spec(text@, count as int)->Some_0[i] == word_at(text@, start as int)
            } by {
                assert((places@[i].0 as int, places@[i].1 as int) == runs_from(marks@, 0)[i]);
            }
        }
    }
    found
}

/// What a word that was found or not holds.
pub open spec fn found_word_view(found: Option<Word<'_>>) -> Option<WordView> {
    match found {
        Some(word) => Some(word@),
        None => None,
    }
}

/// What a list of words holds.
pub open spec fn word_views(words: Seq<Word<'_>>) -> Seq<WordView> {
    words.map_values(|word: Word<'_>| word@)
}

/// Parses a single word: the first of a text that is not blank. The caller
/// has checked that there is one.
pub fn word(input: &str) -> (found: Word<'_>)
    requires
        first_word(input@) is Some,
    ensures
        Some(found@) == first_word(input@),
{
    let chars = to_chars(input);
    match find_word(chars.as_slice()) {
        Some((start, end)) => Word { index: start, word: input.substring_char(start, end) },
        None => Word { index: 0, word: input },
    }
}

/// Whether a text holds a word: whether it is not blank.
pub fn has_word(input: &str) -> (found: bool)
    ensures
        found == first_word(input@) is Some,
{
    let chars = to_chars(input);
    find_word(chars.as_slice()).is_some()
}

/// Parses a single word: the first of the text, if the text is not blank.
pub fn maybe_word(input: &str) -> (found: Option<Word<'_>>)
    ensures
        found_word_view(found) == first_word(input@),
{
    if has_word(input) {
        Some(word(input))
    } else {
        None
    }
}

/// Parses `count` words: the first `count` words of the text, each with
/// the place where it starts, if the text has as many.
pub fn words(input: &str, count: usize) -> (found: Option<Vec<Word<'_>>>)
    ensures
        match found {
            Some(list) => words_spec(input@, count as int) == Some(word_views(list@)),
            None => words_spec(input@, count as int) is None,
        },
{
    let chars = to_chars(input);
    match find_words(chars.as_slice(), count) {
        None => None,
        Some(places) => {
            let mut list: Vec<Word<'_>> = Vec::new();
            let mut i: usize = 0;
            while i < count
                invariant
                    i <= count,
                    chars@ == input@,
                    places@.len() == count,
                    list@.len() == i,
                    words_spec(input@, count as int) is Some,
                    forall|j: int|
                        0 <= j < count ==> {
                            let (start, end) = #[trigger] places@[j];
                            &&& start < end <= input@.len()
                            &&& end == skip_word(input@, start as int)
                            &&& words_spec(input@, count as int)->Some_0[j] == word_at(
                                input@,
                                start as int,
                            )
                        },
                    forall|j: int|
                        0 <= j < i ==> (#[trigger] list@[j])@ == words_spec(
                            input@,
                            count as int,
                        )->Some_0[j],
                decreases count - i,
            {
                let (start, end) = places[i];
                list.push(Word { index: start, word: input.substring_char(start, end) });
                i += 1;
            }
            proof {
                assert(word_views(list@) =~= words_spec(input@, count as int)->Some_0);
            }
            Some(list)
        },
    }
}

/// Whether a word is an identifier: a letter, followed by letters,
/// numbers, `-` and `_` only.
pub open spec fn is_identifier(text: Seq<char>) -> bool {
    &&& text.len() > 0
    &&& is_alphabetic(text[0])
    &&& forall|i: int|
        0 <= i < text.len() ==> is_alphanumeric(#[trigger] text[i]) || text[i] == '-' || text[i]
            == '_'
}

/// Which characters of a text are letters.
pub open spec fn letters(text: Seq<char>) -> Seq<bool> {
    text.map_values(|character: char| is_alphabetic(character))
}

/// Which characters of a text are letters or numbers.
pub open spec fn letters_or_numbers(text: Seq<char>) -> Seq<bool> {
    text.map_values(|character: char| is_alphanumeric(character))
}

/// Tells of each character of a text whether it is a letter.
pub fn letters_of(text: &[char]) -> (marks: Vec<bool>)
    ensures
        marks@ == letters(text@),
{
    let mut marks: Vec<bool> = Vec::new();
    let mut i: usize = 0;
    while i < text.len()
        invariant
            i <= text.len(),
            marks@ == letters(text@.take(i as int)),
        decreases text.len() - i,
    {
        marks.push(char_is_alphabetic(text[i]));
        assert(marks@ =~= letters(text@.take(i + 1)));
        i += 1;
    }
    assert(text@.take(text.len() as int) == text@);
    marks
}

/// Tells of each character of a text whether it is a letter or a number.
pub fn letters_or_numbers_of(text: &[char]) -> (marks: Vec<bool>)
    ensures
        marks@ == letters_or_numbers(text@),
{
    let mut marks: Vec<bool> = Vec::new();
    let mut i: usize = 0;
    while i < text.len()
        invariant
            i <= text.len(),
            marks@ == letters_or_numbers(text@.take(i as int)),
        decreases text.len() - i,
    {
        marks.push(char_is_alphanumeric(text[i]));
        assert(marks@ =~= letters_or_numbers(text@.take(i + 1)));
        i += 1;
    }
    assert(text@.take(text.len() as int) == text@);
    marks
}

/// Whether a text is an identifier, given which of its characters are
/// letters and which are letters or numbers: the first is a letter, and
/// each is a letter, a number, `-` or `_`.
pub open spec fn is_identifier_by(
    text: Seq<char>,
    letter: Seq<bool>,
    letter_or_number: Seq<bool>,
) -> bool {
    &&& text.len() > 0
    &&& letter[0]
    &&& forall|i: int|
        0 <= i < text.len() ==> #[trigger] letter_or_number[i] || text[i] == '-' || text[i] == '_'
}

/// Whether a run of characters is an identifier, given which of them are
/// letters and which are letters or numbers.
pub fn is_ident_by(text: &[char], letter: &[bool], letter_or_number: &[bool]) -> (valid: bool)
    requires
        letter@.len() == text@.len(),
        letter_or_number@.len() == text@.len(),
    ensures
        valid == is_identifier_by(text@, letter@, letter_or_number@),
{
    if text.len() == 0 || !letter[0] {
        return false;
    }
    let mut i: usize = 0;
    while i < text.len()
        invariant
            i <= text.len(),
            letter_or_number@.len() == text@.len(),
            forall|j: int|
                0 <= j < i ==> #[trigger] letter_or_number@[j] || text@[j] == '-' || text@[j]
                    == '_',
        decreases text.len() - i,
    {
        if !(letter_or_number[i] || text[i] == '-' || text[i] == '_') {
            return false;
        }
        i += 1;
    }
    true
}

/// Whether a run of characters is an identifier.
pub fn is_ident(text: &[char]) -> (valid: bool)
    ensures
        valid == is_identifier(text@),
{
    let letter = letters_of(text);
    let letter_or_number = letters_or_numbers_of(text);
    proof {
        if is_identifier(text@) {
            assert forall|i: int| 0 <= i < text@.len() implies #[trigger] letter_or_number@[i]
                || text@[i] == '-' || text@[i] == '_' by {
                assert(is_alphanumeric(text@[i]) || text@[i] == '-' || text@[i] == '_');
            }
        }
        if is_identifier_by(text@, letter@, letter_or_number@) {
            assert forall|i: int| 0 <= i < text@.len() implies is_alphanumeric(#[trigger] text@[i])
                || text@[i] == '-' || text@[i] == '_' by {
                assert(letter_or_number@[i] || text@[i] == '-' || text@[i] == '_');
            }
        }
    }
    is_ident_by(text, letter.as_slice(), letter_or_number.as_slice())
}

/// What an identifier that was checked holds.
pub open spec fn ident_result_view(result: Result<String>) -> core::result::Result<
    Seq<char>,
    crate::errors::ErrorView,
> {
    match result {
        Ok(identifier) => Ok(identifier@),
        Err(error) => Err(error@),
    }
}

/// What `check_ident` answers: the word itself if it is an identifier,
/// else a syntax error at the given place.
pub open spec fn check_ident_spec(text: Seq<char>, pos: Pos) -> core::result::Result<
    Seq<char>,
    crate::errors::ErrorView,
> {
    if is_identifier(text) {
        Ok(text)
    } else {
        Err(syntax_error(text, "identifier"@, pos.line, pos.column))
    }
}

/// Checks that a word is an identifier.
pub fn check_ident(string: String, pos: &Pos) -> (result: Result<String>)
    ensures
        ident_result_view(result) == check_ident_spec(string@, *pos),
{
    let chars = to_chars(string.as_str());
    if is_ident(chars.as_slice()) {
        Ok(string)
    } else {
        Err(new_syntax_error(chars.as_slice(), "identifier", pos.line, pos.column))
    }
}

/// The length of a text without the white space at its end.
pub open spec fn trim_end(text: Seq<char>) -> int
    decreases text.len(),
{
    if text.len() > 0 && is_whitespace(text.last()) {
        trim_end(text.drop_last())
    } else {
        text.len() as int
    }
}

/// A text without the white space at its start and at its end.
pub open spec fn trimmed(text: Seq<char>) -> Seq<char> {
    let start = skip_whitespace(text, 0);
    let end = trim_end(text);
    if start < end {
        text.subrange(start, end)
    } else {
        Seq::empty()
    }
}

/// `trim_end` cuts white space only, and all of it.
pub proof fn lemma_trim_end(text: Seq<char>)
    ensures
        0 <= trim_end(text) <= text.len(),
        forall|i: int| trim_end(text) <= i < text.len() ==> is_whitespace(text[i]),
        trim_end(text) > 0 ==> !is_whitespace(text[trim_end(text) - 1]),
    decreases text.len(),
{
    if text.len() > 0 && is_whitespace(text.last()) {
        lemma_trim_end(text.drop_last());
        assert forall|i: int| trim_end(text) <= i < text.len() implies is_whitespace(text[i]) by {
            if i < text.len() - 1 {
                assert(text.drop_last()[i] == text[i]);
            }
        }
    }
}

/// The number of marks without the marked places at the end.
pub open spec fn unmarked_end(marks: Seq<bool>) -> int
    decreases marks.len(),
{
    if marks.len() > 0 && marks.last() {
        unmarked_end(marks.drop_last())
    } else {
        marks.len() as int
    }
}

/// The places between the marks at the start and the marks at the end:
/// where they start and where they end. Where every place is marked, both
/// are the same.
pub open spec fn unmarked_middle(marks: Seq<bool>) -> (int, int) {
    let start = skip_marked(marks, 0);
    let end = unmarked_end(marks);
    if start < end {
        (start, end)
    } else {
        (end, end)
    }
}

/// Finds the places between the marks at the start and the marks at the
/// end.
pub fn find_middle(marks: &[bool]) -> (middle: (usize, usize))
    ensures
        middle.0 <= middle.1 <= marks@.len(),
        (middle.0 as int, middle.1 as int) == unmarked_middle(marks@),
{
    let mut end: usize = marks.len();
    proof {
        assert(marks@.take(end as int) == marks@);
    }
    while end > 0 && marks[end - 1]
        invariant
            end <= marks.len(),
            unmarked_end(marks@) == unmarked_end(marks@.take(end as int)),
        decreases end,
    {
        proof {
            assert(marks@.take(end as int).drop_last() == marks@.take(end - 1));
        }
        end -= 1;
    }
    let mut start: usize = 0;
    while start < end && marks[start]
        invariant
            start <= end <= marks.len(),
            skip_marked(marks@, 0) == skip_marked(marks@, start as int),
        decreases end - start,
    {
        start += 1;
    }
    proof {
        lemma_skip_marks(marks@, start as int);
        if start == end && start < marks.len() && end > 0 {
            lemma_unmarked_end(marks@);
        }
        if start == end && end == 0 {
            lemma_unmarked_end(marks@);
        }
    }
    (start, end)
}

/// Every place from the end of the unmarked on is marked.
pub proof fn lemma_unmarked_end(marks: Seq<bool>)
    ensures
        0 <= unmarked_end(marks) <= marks.len(),
        forall|i: int| unmarked_end(marks) <= i < marks.len() ==> marks[i],
        unmarked_end(marks) > 0 ==> !marks[unmarked_end(marks) - 1],
    decreases marks.len(),
{
    if marks.len() > 0 && marks.last() {
        lemma_unmarked_end(marks.drop_last());
        assert forall|i: int| unmarked_end(marks) <= i < marks.len() implies marks[i] by {
            if i < marks.len() - 1 {
                assert(marks.drop_last()[i] == marks[i]);
            }
        }
    }
}

/// A text is trimmed by the marks of white space alone.
pub proof fn lemma_trim_by_marks(text: Seq<char>)
    ensures
        trim_end(text) == unmarked_end(spaces(text)),
    decreases text.len(),
{
    if text.len() > 0 && is_whitespace(text.last()) {
        lemma_trim_by_marks(text.drop_last());
        assert(spaces(text).drop_last() =~= spaces(text.drop_last()));
    }
}

/// Cuts the white space at both ends of a text.
pub fn trim(text: &[char]) -> (result: &[char])
    ensures
        result@ == trimmed(text@),
{
    let marks = spaces_of(text);
    let (start, end) = find_middle(marks.as_slice());
    proof {
        lemma_spaces(text@, 0);
        lemma_trim_by_marks(text@);
    }
    let result = slice_subrange(text, start, end);
    assert(result@ =~= trimmed(text@));
    result
}

/// A text with its first character in upper case.
pub open spec fn capitalized(text: Seq<char>) -> Seq<char> {
    if text.len() == 0 {
        Seq::empty()
    } else {
        uppercase(text[0]) + text.skip(1)
    }
}

/// A text with its first character replaced by the given text.
pub open spec fn with_first(text: Seq<char>, first: Seq<char>) -> Seq<char> {
    if text.len() == 0 {
        Seq::empty()
    } else {
        first + text.skip(1)
    }
}

/// Replaces the first character of a text by the given text. The empty
/// text stays empty.
pub fn replace_first(text: &[char], first: &str) -> (result: Vec<char>)
    ensures
        result@ == with_first(text@, first@),
{
    if text.len() == 0 {
        return Vec::new();
    }
    let mut result = to_chars(first);
    let mut i: usize = 1;
    while i < text.len()
        invariant
            1 <= i <= text.len(),
            result@ == first@ + text@.subrange(1, i as int),
        decreases text.len() - i,
    {
        result.push(text[i]);
        assert(result@ =~= first@ + text@.subrange(1, i + 1));
        i += 1;
    }
    assert(text@.subrange(1, text.len() as int) == text@.skip(1));
    result
}

/// Operations on words.
pub trait StrExt<'a> {
    /// The text with its first character in upper case.
    fn capitalize(&self) -> String;

    /// The text cut before its last `index` characters: what stands before
    /// them, and the `index` characters themselves. A text of `index`
    /// characters or fewer gives two empty texts.
    fn rsplit_at(&'a self, index: usize) -> (&'a str, &'a str);
}

impl<'a> StrExt<'a> for &'a str {
    fn capitalize(&self) -> (result: String)
        ensures
            result@ == capitalized(self@),
    {
        let chars = to_chars(self);
        if chars.len() == 0 {
            let result = String::new();
            assert(result@ =~= capitalized(self@));
            result
        } else {
            let first = char_to_uppercase(chars[0]);
            let result = replace_first(chars.as_slice(), first.as_str());
            string_of(result.as_slice())
        }
    }

    fn rsplit_at(&'a self, index: usize) -> (parts: (&'a str, &'a str))
        ensures
            (parts.0@, parts.1@) == crate::grammar::split_end(self@, index as int),
    {
        let length = self.unicode_len();
        if length > index {
            let middle = length - index;
            let parts = (self.substring_char(0, middle), self.substring_char(middle, length));
            assert(parts.0@ == self@.take(middle as int));
            assert(parts.1@ == self@.skip(middle as int));
            parts
        } else {
            proof {
                reveal_strlit("");
            }
            let parts = ("", "");
            assert(parts.0@ =~= Seq::<char>::empty());
            parts
        }
    }
}

} // verus!
