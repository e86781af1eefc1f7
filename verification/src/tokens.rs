//! A tokenizer for configurations: booleans, numbers, words, quoted
//! strings and the keyword `set`, each with the place where it starts.

use vstd::prelude::*;
use vstd::slice::slice_subrange;
use vstd::string::StringExecFns;
use crate::chars::{
    char_is_alphabetic,
    char_is_alphanumeric,
    char_is_numeric,
    char_is_whitespace,
    decimal,
    is_alphabetic,
    is_alphanumeric,
    is_numeric,
    is_whitespace,
    push_decimal,
    spells,
    string_of,
    to_chars,
};
use crate::errors::{new_syntax_error, syntax_error, ErrorView, Result};
use crate::position::{saturate, shift, shifted, Pos, WithPos};
use crate::value::{all_digits, digits_value, is_decimal, read_digits};

verus! {

/// What a `Token` holds.
pub enum TokenView {
    Bool(bool),
    Eof,
    Float(Seq<char>),
    Int(i64),
    SetKeyword,
    Str(Seq<char>),
    QuotedStr(Seq<char>),
}

/// A token of a configuration.
#[derive(Debug)]
pub enum Token {
    /// `true` or `false`.
    Bool(bool),
    /// The end of the input.
    Eof,
    /// A number with a point, held as the decimal text that was read.
    Float(String),
    /// A number without a point.
    Int(i64),
    /// The keyword `set`.
    SetKeyword,
    /// A word.
    Str(String),
    /// A text between double quotes.
    QuotedStr(String),
}

impl View for Token {
    type V = TokenView;

    open spec fn view(&self) -> TokenView {
        match *self {
            Token::Bool(value) => TokenView::Bool(value),
            Token::Eof => TokenView::Eof,
            Token::Float(text) => TokenView::Float(text@),
            Token::Int(value) => TokenView::Int(value),
            Token::SetKeyword => TokenView::SetKeyword,
            Token::Str(text) => TokenView::Str(text@),
            Token::QuotedStr(text) => TokenView::QuotedStr(text@),
        }
    }
}

/// An integer written in decimal, with its sign if it is negative.
pub open spec fn signed_decimal(value: i64) -> Seq<char> {
    if value < 0 {
        seq!['-'] + decimal((-value) as nat)
    } else {
        decimal(value as nat)
    }
}

impl TokenView {
    /// How a token is written.
    pub open spec fn text(self) -> Seq<char> {
        match self {
            TokenView::Bool(value) => if value {
                "true"@
            } else {
                "false"@
            },
            TokenView::Eof => "eof"@,
            TokenView::Float(text) => text,
            TokenView::Int(value) => signed_decimal(value),
            TokenView::SetKeyword => "set"@,
            TokenView::Str(text) => text,
            TokenView::QuotedStr(text) => text,
        }
    }
}

impl Token {
    /// The token as it is written. A quoted string is written without its
    /// quotes.
    pub fn to_string(&self) -> (string: String)
        ensures
            string@ == self@.text(),
    {
        match self {
            Token::Bool(value) => if *value {
                String::from_str("true")
            } else {
                String::from_str("false")
            },
            Token::Eof => String::from_str("eof"),
            Token::Float(text) => text.clone(),
            Token::Int(value) => {
                let mut string = String::new();
                if *value < 0 {
                    string.push('-');
                    let magnitude: u64 = if *value == i64::MIN {
                        9223372036854775808u64
                    } else {
                        (-*value) as u64
                    };
                    push_decimal(&mut string, magnitude);
                } else {
                    push_decimal(&mut string, *value as u64);
                }
                assert(string@ =~= signed_decimal(*value));
                string
            },
            Token::SetKeyword => String::from_str("set"),
            Token::Str(text) => text.clone(),
            Token::QuotedStr(text) => text.clone(),
        }
    }
}

/// What kind of character a character is.
#[derive(Clone, Copy, Debug, PartialEq, Eq)]
pub struct CharClass {
    /// A letter.
    pub alphabetic: bool,
    /// A letter or a number.
    pub alphanumeric: bool,
    /// A number.
    pub numeric: bool,
    /// White space.
    pub whitespace: bool,
}

/// The kind of a character.
pub open spec fn class_of(character: char) -> CharClass {
    CharClass {
        alphabetic: is_alphabetic(character),
        alphanumeric: is_alphanumeric(character),
        numeric: is_numeric(character),
        whitespace: is_whitespace(character),
    }
}

/// The kind of each character of a text.
pub open spec fn classes(text: Seq<char>) -> Seq<CharClass> {
    text.map_values(|character: char| class_of(character))
}

/// Tells the kind of each character of a text.
pub fn classes_of(text: &[char]) -> (kinds: Vec<CharClass>)
    ensures
        kinds@ == classes(text@),
{
    let mut kinds: Vec<CharClass> = Vec::new();
    let mut i: usize = 0;
    while i < text.len()
        invariant
            i <= text.len(),
            kinds@ == classes(text@.take(i as int)),
        decreases text.len() - i,
    {
        let character = text[i];
        kinds.push(
            CharClass {
                alphabetic: char_is_alphabetic(character),
                alphanumeric: char_is_alphanumeric(character),
                numeric: char_is_numeric(character),
                whitespace: char_is_whitespace(character),
            },
        );
        assert(kinds@ =~= classes(text@.take(i + 1)));
        i += 1;
    }
    assert(text@.take(text.len() as int) == text@);
    kinds
}

/// What the tokenizer holds: the input that is left, with the kind of each
/// of its characters, and the place of its first character.
pub struct TokensView {
    pub input: Seq<char>,
    pub kinds: Seq<CharClass>,
    pub pos: Pos,
}

/// The place behind a line break.
pub open spec fn next_line(pos: Pos) -> Pos {
    Pos { line: saturate(pos.line + 1), column: 1 }
}

/// Whether `len` characters can be passed at once: there are as many, and
/// a line break is passed alone.
pub open spec fn can_advance(state: TokensView, len: int) -> bool {
    &&& 0 <= len <= state.input.len()
    &&& state.input.len() > 0 && (state.input[0] == '\r' || state.input[0] == '\n') ==> len == 1
}

/// The tokenizer `len` characters further on the same line.
pub open spec fn passed(state: TokensView, len: int) -> TokensView {
    TokensView {
        input: state.input.skip(len),
        kinds: state.kinds.skip(len),
        pos: Pos { line: state.pos.line, column: shift(state.pos.column, len) },
    }
}

/// The tokenizer `len` characters further, on the next line.
pub open spec fn passed_line(state: TokensView, len: int) -> TokensView {
    TokensView {
        input: state.input.skip(len),
        kinds: state.kinds.skip(len),
        pos: next_line(state.pos),
    }
}

/// The tokenizer `len` characters further. On text within a line the
/// column moves by `len`. A line feed, a carriage return, and a carriage
/// return with the line feed behind it are one line break each: the place
/// is the start of the next line.
pub open spec fn advanced(state: TokensView, len: int) -> TokensView {
    let input = state.input;
    if input.len() == 0 {
        state
    } else if input[0] == '\r' {
        if input.len() > 1 && input[1] == '\n' {
            passed_line(state, 2)
        } else {
            passed_line(state, 1)
        }
    } else if input[0] == '\n' {
        passed_line(state, 1)
    } else {
        passed(state, len)
    }
}

/// The number of characters at the start of a text, from `from` on, that
/// are none of the three given.
pub open spec fn run_until(text: Seq<char>, from: int, a: char, b: char, c: char) -> int
    decreases text.len() - from,
{
    if 0 <= from < text.len() && text[from] != a && text[from] != b && text[from] != c {
        run_until(text, from + 1, a, b, c)
    } else {
        from
    }
}

/// The number of characters at the start of the input, from `from` on,
/// that are numbers or points.
pub open spec fn number_end(state: TokensView, from: int) -> int
    decreases state.input.len() - from,
{
    if 0 <= from < state.input.len() && (state.kinds[from].numeric || state.input[from] == '.') {
        number_end(state, from + 1)
    } else {
        from
    }
}

/// What the word at the place `index` holds and how many backslashes are
/// passed in it. A word is made of letters and numbers; a space behind a
/// backslash is part of the word, and the backslash is not. `skip` says
/// whether a backslash came just before.
pub open spec fn scanned_word(state: TokensView, index: int, skip: bool) -> (Seq<char>, int)
    decreases state.input.len() - index,
{
    if index < 0 || index >= state.input.len() {
        (Seq::empty(), 0)
    } else if state.input[index] == '\\' {
        let (word, backslashes) = scanned_word(state, index + 1, true);
        (word, backslashes + 1)
    } else if state.input[index] == ' ' && skip {
        let (word, backslashes) = scanned_word(state, index + 1, false);
        (seq![state.input[index]] + word, backslashes)
    } else if !state.kinds[index].alphanumeric {
        (Seq::empty(), 0)
    } else {
        let (word, backslashes) = scanned_word(state, index + 1, false);
        (seq![state.input[index]] + word, backslashes)
    }
}

/// The token that a word stands for.
pub open spec fn word_token(word: Seq<char>) -> TokenView {
    if word == "false"@ {
        TokenView::Bool(false)
    } else if word == "set"@ {
        TokenView::SetKeyword
    } else if word == "true"@ {
        TokenView::Bool(true)
    } else {
        TokenView::Str(word)
    }
}

/// The token that a run of numbers and points stands for: an integer, if
/// it is made of decimal digits that fit one; else a number with a point,
/// if it is made of decimal digits with at most one point; else a word.
pub open spec fn number_token(text: Seq<char>) -> TokenView {
    if all_digits(text) && digits_value(text) <= i64::MAX {
        TokenView::Int(digits_value(text) as i64)
    } else if is_decimal(text) {
        TokenView::Float(text)
    } else {
        TokenView::Str(text)
    }
}

/// A token with its place, or an error, and the tokenizer behind it.
pub struct Step {
    pub token: core::result::Result<(TokenView, Pos), ErrorView>,
    pub state: TokensView,
}

/// What `quoted_string` answers on an input that starts with a double
/// quote: the text up to the next double quote, which must stand on the
/// same line.
pub open spec fn quoted_string_spec(state: TokensView) -> Step {
    let body = state.input.skip(1);
    let end = run_until(body, 0, '"', '\r', '\n');
    if end < body.len() && body[end] == '"' {
        Step {
            token: Ok((TokenView::QuotedStr(body.take(end)), state.pos)),
            state: passed(state, 2 + end),
        }
    } else {
        Step {
            token: Err(
                syntax_error(
                    if end < body.len() {
                        body.subrange(end, end + 1)
                    } else {
                        "eof"@
                    },
                    "\""@,
                    state.pos.line,
                    shift(state.pos.column, end),
                ),
            ),
            state: passed(state, 1 + end),
        }
    }
}

/// What `next` answers: the next token with the place where it starts, or
/// the error of a character that starts no token. Comments and white space
/// are passed. The end of the input is a token, as often as it is asked
/// for; a character that starts no token is not passed.
pub open spec fn next_spec(state: TokensView) -> Step
    decreases state.input.len(),
    via next_spec_decreases
{
    let input = state.input;
    if input.len() == 0 {
        Step { token: Ok((TokenView::Eof, state.pos)), state }
    } else if input[0] == '#' {
        next_spec(passed(state, run_until(input, 1, '\n', '\n', '\n')))
    } else if input[0] == '"' {
        quoted_string_spec(state)
    } else if state.kinds[0].alphabetic {
        let (word, backslashes) = scanned_word(state, 0, false);
        Step {
            token: Ok((word_token(word), state.pos)),
            state: passed(state, word.len() + backslashes),
        }
    } else if state.kinds[0].numeric {
        let end = number_end(state, 0);
        Step { token: Ok((number_token(input.take(end)), state.pos)), state: passed(state, end) }
    } else if state.kinds[0].whitespace {
        next_spec(advanced(state, 1))
    } else {
        Step {
            token: Err(
                syntax_error(
                    input.take(1),
                    "identifier, number, boolean, string or comment"@,
                    state.pos.line,
                    state.pos.column,
                ),
            ),
            state,
        }
    }
}

#[via_fn]
proof fn next_spec_decreases(state: TokensView) {
    if state.input.len() > 0 {
        lemma_run_until(state.input, 1, '\n', '\n', '\n');
    }
}

/// `run_until` stops inside the text, at the first of the three
/// characters.
pub proof fn lemma_run_until(text: Seq<char>, from: int, a: char, b: char, c: char)
    requires
        0 <= from <= text.len(),
    ensures
        from <= run_until(text, from, a, b, c) <= text.len(),
    decreases text.len() - from,
{
    if from < text.len() && text[from] != a && text[from] != b && text[from] != c {
        lemma_run_until(text, from + 1, a, b, c);
    }
}

/// What a token with its place holds.
pub open spec fn token_view(token: WithPos<Token>) -> (TokenView, Pos) {
    (token.node@, token.pos)
}

/// What a token with its place, or an error, holds.
pub open spec fn token_result_view(result: Result<WithPos<Token>>) -> core::result::Result<
    (TokenView, Pos),
    ErrorView,
> {
    match result {
        Ok(token) => Ok(token_view(token)),
        Err(error) => Err(error@),
    }
}

/// The tokens of an input, one after the other.
pub struct InputTokens {
    chars: Vec<char>,
    kinds: Vec<CharClass>,
    offset: usize,
    pos: Pos,
}

impl View for InputTokens {
    type V = TokensView;

    closed spec fn view(&self) -> TokensView {
        TokensView {
            input: self.chars@.skip(self.offset as int),
            kinds: self.kinds@.skip(self.offset as int),
            pos: self.pos,
        }
    }
}

impl InputTokens {
    #[verifier::type_invariant]
    spec fn well_formed(self) -> bool {
        self.offset <= self.chars@.len() && self.kinds@.len() == self.chars@.len()
    }

    /// The tokenizer at the start of a text, given the kind of each of its
    /// characters: line 1, column 1. Where the kinds are not as many as
    /// the characters, there is none.
    pub fn new(chars: Vec<char>, kinds: Vec<CharClass>) -> (tokens: Option<InputTokens>)
        ensures
            match tokens {
                Some(tokens) => kinds@.len() == chars@.len() && tokens@ == (TokensView {
                    input: chars@,
                    kinds: kinds@,
                    pos: Pos { line: 1, column: 1 },
                }),
                None => kinds@.len() != chars@.len(),
            },
    {
        if kinds.len() != chars.len() {
            return None;
        }
        assert(chars@.skip(0) == chars@);
        assert(kinds@.skip(0) == kinds@);
        Some(InputTokens { chars, kinds, offset: 0, pos: Pos::new(1, 1) })
    }

    /// The input that is left.
    fn rest(&self) -> (rest: &[char])
        ensures
            rest@ == self@.input,
            self@.kinds.len() == self@.input.len(),
    {
        proof {
            use_type_invariant(self);
        }
        slice_subrange(self.chars.as_slice(), self.offset, self.chars.len())
    }

    /// The kinds of the input that is left.
    fn rest_kinds(&self) -> (rest: &[CharClass])
        ensures
            rest@ == self@.kinds,
            self@.kinds.len() == self@.input.len(),
    {
        proof {
            use_type_invariant(self);
        }
        slice_subrange(self.kinds.as_slice(), self.offset, self.kinds.len())
    }

    /// Goes `len` characters further, on the same line or, with `line`, to
    /// the start of the next.
    fn pass(&mut self, len: usize, line: bool)
        requires
            len <= old(self)@.input.len(),
        ensures
            final(self)@ == if line {
                passed_line(old(self)@, len as int)
            } else {
                passed(old(self)@, len as int)
            },
    {
        proof {
            use_type_invariant(&*self);
            assert(self@.input.len() == self.chars@.len() - self.offset);
            assert(self.chars@.skip(self.offset as int).skip(len as int) == self.chars@.skip(
                self.offset + len,
            ));
            assert(self.kinds@.skip(self.offset as int).skip(len as int) == self.kinds@.skip(
                self.offset + len,
            ));
        }
        // A place in the text fits a `usize`, as the length of the text does.
        let length = self.chars.len();
        let offset = self.offset + len;
        let mut pos = self.pos;
        if line {
            pos.newline();
        } else {
            pos = Pos::new(pos.line, shifted(pos.column, len));
        }
        self.pos = pos;
        self.offset = offset;
    }

    /// Advances the place and the input by `len` characters. A line break
    /// is passed alone.
    pub fn advance(&mut self, len: usize)
        requires
            can_advance(old(self)@, len as int),
        ensures
            final(self)@ == advanced(old(self)@, len as int),
    {
        let rest = self.rest();
        if rest.len() == 0 {
            return ;
        }
        let first = rest[0];
        if first == '\r' || first == '\n' {
            if first == '\r' && rest.len() > 1 && rest[1] == '\n' {
                self.pass(2, true);
            } else {
                self.pass(1, true);
            }
        } else {
            self.pass(len, false);
        }
    }

    /// Passes a comment: all up to the end of the line.
    pub fn skip_comment(&mut self)
        requires
            old(self)@.input.len() > 0,
            old(self)@.input[0] == '#',
        ensures
            final(self)@ == passed(
                old(self)@,
                run_until(old(self)@.input, 1, '\n', '\n', '\n'),
            ),
    {
        let rest = self.rest();
        let mut end: usize = 1;
        while end < rest.len() && rest[end] != '\n'
            invariant
                1 <= end <= rest.len(),
                run_until(rest@, 1, '\n', '\n', '\n') == run_until(
                    rest@,
                    end as int,
                    '\n',
                    '\n',
                    '\n',
                ),
            decreases rest.len() - end,
        {
            end += 1;
        }
        self.pass(end, false);
    }

    /// Reads a number.
    fn int_or_float(&mut self) -> (token: WithPos<Token>)
        ensures
            token_view(token) == (
                number_token(old(self)@.input.take(number_end(old(self)@, 0))),
                old(self)@.pos,
            ),
            final(self)@ == passed(old(self)@, number_end(old(self)@, 0)),
    {
        let pos = self.pos;
        let rest = self.rest();
        let kinds = self.rest_kinds();
        let mut end: usize = 0;
        while end < rest.len() && (kinds[end].numeric || rest[end] == '.')
            invariant
                end <= rest.len(),
                rest@ == self@.input,
                kinds@ == self@.kinds,
                kinds@.len() == rest@.len(),
                number_end(self@, 0) == number_end(self@, end as int),
            decreases rest.len() - end,
        {
            end += 1;
        }
        let text = slice_subrange(rest, 0, end);
        let digits = read_digits(text);
        let token = match digits.value {
            Some(number) => Token::Int(number),
            None => if digits.decimal {
                Token::Float(string_of(text))
            } else {
                Token::Str(string_of(text))
            },
        };
        self.pass(end, false);
        WithPos::new(token, pos)
    }

    /// Reads a word: a keyword, a boolean or a string.
    fn keyword_or_string(&mut self) -> (token: WithPos<Token>)
        ensures
            token_view(token) == (
                word_token(scanned_word(old(self)@, 0, false).0),
                old(self)@.pos,
            ),
            final(self)@ == passed(
                old(self)@,
                scanned_word(old(self)@, 0, false).0.len() + scanned_word(old(self)@, 0, false).1,
            ),
    {
        let pos = self.pos;
        let rest = self.rest();
        let kinds = self.rest_kinds();
        let mut skip = false;
        let mut backslash_count: usize = 0;
        let mut word: Vec<char> = Vec::new();
        let mut i: usize = 0;
        proof {
            assert(word@ + scanned_word(self@, 0, false).0 =~= scanned_word(self@, 0, false).0);
        }
        loop
            invariant
                i <= rest.len(),
                rest@ == self@.input,
                kinds@ == self@.kinds,
                kinds@.len() == rest@.len(),
                word@.len() + backslash_count == i,
                scanned_word(self@, 0, false).0 == word@ + scanned_word(self@, i as int, skip).0,
                scanned_word(self@, 0, false).1 == backslash_count + scanned_word(
                    self@,
                    i as int,
                    skip,
                ).1,
            ensures
                word@.len() + backslash_count <= rest@.len(),
                rest@ == self@.input,
                scanned_word(self@, 0, false) == (word@, backslash_count as int),
            decreases rest.len() - i,
        {
            if i >= rest.len() {
                proof {
                    assert(word@ + Seq::<char>::empty() =~= word@);
                }
                break ;
            }
            let character = rest[i];
            if character == '\\' {
                skip = true;
                backslash_count += 1;
            } else if character == ' ' && skip {
                skip = false;
                proof {
                    let more = scanned_word(self@, i + 1, false).0;
                    assert(word@.push(character) + more =~= word@ + (seq![character] + more));
                }
                word.push(character);
            } else if !kinds[i].alphanumeric {
                proof {
                    assert(word@ + Seq::<char>::empty() =~= word@);
                }
                break ;
            } else {
                skip = false;
                proof {
                    let more = scanned_word(self@, i + 1, false).0;
                    assert(word@.push(character) + more =~= word@ + (seq![character] + more));
                }
                word.push(character);
            }
            i += 1;
        }
        let token = if spells(word.as_slice(), "false") {
            Token::Bool(false)
        } else if spells(word.as_slice(), "set") {
            Token::SetKeyword
        } else if spells(word.as_slice(), "true") {
            Token::Bool(true)
        } else {
            Token::Str(string_of(word.as_slice()))
        };
        self.pass(word.len() + backslash_count, false);
        WithPos::new(token, pos)
    }

    /// Reads a text between double quotes.
    fn quoted_string(&mut self) -> (result: Result<WithPos<Token>>)
        requires
            old(self)@.input.len() > 0,
        ensures
            token_result_view(result) == quoted_string_spec(old(self)@).token,
            final(self)@ == quoted_string_spec(old(self)@).state,
    {
        let pos = self.pos;
        let rest = self.rest();
        let body = slice_subrange(rest, 1, rest.len());
        let mut end: usize = 0;
        while end < body.len() && body[end] != '"' && body[end] != '\r' && body[end] != '\n'
            invariant
                end <= body.len(),
                run_until(body@, 0, '"', '\r', '\n') == run_until(body@, end as int, '"', '\r', '\n'),
            decreases body.len() - end,
        {
            end += 1;
        }
        if end < body.len() && body[end] == '"' {
            let token = Token::QuotedStr(string_of(slice_subrange(body, 0, end)));
            self.pass(end + 2, false);
            Ok(WithPos::new(token, pos))
        } else {
            let error = if end < body.len() {
                new_syntax_error(
                    slice_subrange(body, end, end + 1),
                    "\"",
                    pos.line,
                    shifted(pos.column, end),
                )
            } else {
                new_syntax_error(
                    to_chars("eof").as_slice(),
                    "\"",
                    pos.line,
                    shifted(pos.column, end),
                )
            };
            self.pass(end + 1, false);
            Err(error)
        }
    }

    /// The next token, with the place where it starts. There is always a
    /// next token: behind the last stands the end of the input.
    pub fn next(&mut self) -> (item: Option<Result<WithPos<Token>>>)
        ensures
            item matches Some(result) && token_result_view(result) == next_spec(old(self)@).token,
            final(self)@ == next_spec(old(self)@).state,
    {
        loop
            invariant
                next_spec(old(self)@) == next_spec(self@),
            decreases self@.input.len(),
        {
            let rest = self.rest();
            if rest.len() == 0 {
                return Some(Ok(WithPos::new(Token::Eof, self.pos)));
            }
            let first = rest[0];
            let kind = self.rest_kinds()[0];
            if first == '#' {
                proof {
                    lemma_run_until(self@.input, 1, '\n', '\n', '\n');
                }
                self.skip_comment();
            } else if first == '"' {
                return Some(self.quoted_string());
            } else if kind.alphabetic {
                return Some(Ok(self.keyword_or_string()));
            } else if kind.numeric {
                return Some(Ok(self.int_or_float()));
            } else if kind.whitespace {
                self.advance(1);
            } else {
                let unexpected = slice_subrange(rest, 0, 1);
                assert(unexpected@ == self@.input.take(1));
                return Some(
                    Err(
                        new_syntax_error(
                            unexpected,
                            "identifier, number, boolean, string or comment",
                            self.pos.line,
                            self.pos.column,
                        ),
                    ),
                );
            }
        }
    }
}

/// The tokens of an input.
pub type Tokens = InputTokens;

/// The tokenizer at the start of an input: line 1, column 1.
pub fn tokenize(input: &str) -> (tokens: InputTokens)
    ensures
        tokens@ == (TokensView {
            input: input@,
            kinds: classes(input@),
            pos: Pos { line: 1, column: 1 },
        }),
{
    let chars = to_chars(input);
    let kinds = classes_of(chars.as_slice());
    assert(chars@.skip(0) == chars@);
    assert(kinds@.skip(0) == kinds@);
    InputTokens { chars, kinds, offset: 0, pos: Pos::new(1, 1) }
}

} // verus!
