//! What can go wrong while a configuration is read or applied.

use vstd::prelude::*;
use vstd::string::StringExecFns;
use crate::chars::string_of;
use crate::position::Pos;

verus! {

/// What the parser returns.
pub type Result<T> = core::result::Result<T, Error>;

/// The kinds of parse errors.
#[derive(Clone, Copy, Debug, PartialEq, Eq)]
pub enum ErrorType {
    /// A command that needs arguments has none.
    MissingArgument,
    /// The line holds no command: it is blank or a comment.
    NoCommand,
    /// The line does not follow the grammar.
    Parse,
    /// The first word is no known command.
    UnknownCommand,
}

/// What a `ParseError` holds.
pub struct ParseErrorView {
    pub typ: ErrorType,
    pub unexpected: Seq<char>,
    pub expected: Seq<char>,
    pub pos: Pos,
}

impl ParseErrorView {
    /// The message of a parse error.
    pub open spec fn text(self) -> Seq<char> {
        "unexpected "@ + self.unexpected + ", expecting "@ + self.expected + " on "@
            + self.pos.text()
    }
}

/// What was found at a place of the input, and what was expected there.
#[derive(Debug, PartialEq)]
pub struct ParseError {
    /// The expected token.
    pub expected: String,
    pos: Pos,
    /// The error type.
    pub typ: ErrorType,
    /// The unexpected token.
    pub unexpected: String,
}

impl View for ParseError {
    type V = ParseErrorView;

    closed spec fn view(&self) -> ParseErrorView {
        ParseErrorView {
            typ: self.typ,
            unexpected: self.unexpected@,
            expected: self.expected@,
            pos: self.pos,
        }
    }
}

impl ParseError {
    /// Creates a parse error, as an `Error`.
    pub fn new(typ: ErrorType, unexpected: String, expected: String, pos: Pos) -> (error: Error)
        ensures
            error@ == ErrorView::Parse(
                ParseErrorView { typ, unexpected: unexpected@, expected: expected@, pos },
            ),
    {
        Error::Parse(ParseError { expected, pos, typ, unexpected })
    }

    /// Where the unexpected token was found.
    pub fn pos(&self) -> (pos: Pos)
        ensures
            pos == self@.pos,
    {
        self.pos
    }

    /// The kind of the error.
    pub fn typ(&self) -> (typ: ErrorType)
        ensures
            typ == self@.typ,
    {
        self.typ
    }

    /// The message: `unexpected X, expecting Y on line L, column C`.
    pub fn to_string(&self) -> (s: String)
        ensures
            s@ == self@.text(),
    {
        let mut s = String::new();
        s.append("unexpected ");
        s.append(self.unexpected.as_str());
        s.append(", expecting ");
        s.append(self.expected.as_str());
        s.append(" on ");
        let pos = self.pos.to_string();
        s.append(pos.as_str());
        assert(s@ =~= self@.text());
        s
    }
}

/// A syntax error: what was found at a place, and what was expected.
pub open spec fn syntax_error(
    unexpected: Seq<char>,
    expected: Seq<char>,
    line: u32,
    column: u32,
) -> ErrorView {
    ErrorView::Parse(
        ParseErrorView { typ: ErrorType::Parse, unexpected, expected, pos: Pos { column, line } },
    )
}

/// Makes a syntax error.
pub fn new_syntax_error(unexpected: &[char], expected: &str, line: u32, column: u32) -> (error:
    Error)
    ensures
        error@ == syntax_error(unexpected@, expected@, line, column),
{
    ParseError::new(
        ErrorType::Parse,
        string_of(unexpected),
        String::from_str(expected),
        Pos::new(line, column),
    )
}

/// The texts of a list of words.
pub open spec fn texts(words: Seq<&'static str>) -> Seq<Seq<char>> {
    words.map_values(|word: &'static str| word@)
}

/// The items of a list written one after the other, with a separator
/// between each two.
pub open spec fn joined(items: Seq<Seq<char>>, separator: Seq<char>) -> Seq<char>
    decreases items.len(),
{
    if items.len() == 0 {
        Seq::empty()
    } else if items.len() == 1 {
        items[0]
    } else {
        joined(items.drop_last(), separator) + separator + items.last()
    }
}

/// What a `SettingError` holds.
#[allow(inconsistent_fields)]
pub enum SettingErrorView {
    UnknownChoice { actual: Seq<char>, expected: Seq<Seq<char>> },
    UnknownSetting(Seq<char>),
    WrongType { actual: Seq<char>, expected: Seq<char> },
}

impl SettingErrorView {
    /// The message of a setting error.
    pub open spec fn text(self) -> Seq<char> {
        match self {
            SettingErrorView::UnknownChoice { actual, expected } => "unknown choice "@ + actual
                + ", expecting one of: "@ + joined(expected, ", "@),
            SettingErrorView::UnknownSetting(name) => "no setting named "@ + name,
            SettingErrorView::WrongType { actual, expected } => "wrong value type: expecting "@
                + expected + ", but found "@ + actual,
        }
    }
}

/// Error when getting or setting a setting.
#[allow(inconsistent_fields)]
#[derive(Debug, PartialEq)]
pub enum SettingError {
    /// The value is none of the choices of the setting.
    UnknownChoice {
        /// The actual value.
        actual: String,
        /// The list of expected values.
        expected: Vec<&'static str>,
    },
    /// No setting has this name.
    UnknownSetting(String),
    /// The value has another type than the setting.
    WrongType {
        /// The actual type.
        actual: String,
        /// The expected type.
        expected: String,
    },
}

impl View for SettingError {
    type V = SettingErrorView;

    open spec fn view(&self) -> SettingErrorView {
        match *self {
            SettingError::UnknownChoice { actual, expected } => SettingErrorView::UnknownChoice {
                actual: actual@,
                expected: texts(expected@),
            },
            SettingError::UnknownSetting(name) => SettingErrorView::UnknownSetting(name@),
            SettingError::WrongType { actual, expected } => SettingErrorView::WrongType {
                actual: actual@,
                expected: expected@,
            },
        }
    }
}

/// Writes the words of a list, with `, ` between each two, at the end of a
/// string.
fn push_joined(s: &mut String, words: &Vec<&'static str>)
    ensures
        final(s)@ == old(s)@ + joined(texts(words@), ", "@),
{
    let mut i: usize = 0;
    while i < words.len()
        invariant
            i <= words.len(),
            s@ == old(s)@ + joined(texts(words@).take(i as int), ", "@),
        decreases words.len() - i,
    {
        let ghost before = texts(words@).take(i as int);
        let ghost after = texts(words@).take(i + 1);
        assert(after.drop_last() == before);
        assert(after.last() == words@[i as int]@);
        if i > 0 {
            s.append(", ");
        }
        s.append(words[i]);
        assert(s@ =~= old(s)@ + joined(after, ", "@)) by {
            if i == 0 {
                assert(joined(before, ", "@) =~= Seq::<char>::empty());
            }
        }
        i += 1;
    }
    assert(texts(words@).take(words.len() as int) == texts(words@));
}

impl SettingError {
    /// The message of the error.
    pub fn to_string(&self) -> (s: String)
        ensures
            s@ == self@.text(),
    {
        let mut s = String::new();
        match self {
            SettingError::UnknownChoice { actual, expected } => {
                s.append("unknown choice ");
                s.append(actual.as_str());
                s.append(", expecting one of: ");
                push_joined(&mut s, expected);
            },
            SettingError::UnknownSetting(name) => {
                s.append("no setting named ");
                s.append(name.as_str());
            },
            SettingError::WrongType { actual, expected } => {
                s.append("wrong value type: expecting ");
                s.append(expected.as_str());
                s.append(", but found ");
                s.append(actual.as_str());
            },
        }
        assert(s@ =~= self@.text());
        s
    }
}

/// What an `Error` holds.
pub enum ErrorView {
    Msg(Seq<char>),
    Parse(ParseErrorView),
    Setting(SettingErrorView),
}

impl ErrorView {
    /// The message of an error.
    pub open spec fn text(self) -> Seq<char> {
        match self {
            ErrorView::Msg(message) => message,
            ErrorView::Parse(error) => error.text(),
            ErrorView::Setting(error) => error.text(),
        }
    }
}

/// Parser or setting error.
#[derive(Debug, PartialEq)]
pub enum Error {
    /// Another error, such as a file that could not be read.
    Msg(String),
    /// Parse error.
    Parse(ParseError),
    /// Error when getting or setting a setting.
    Setting(SettingError),
}

impl View for Error {
    type V = ErrorView;

    open spec fn view(&self) -> ErrorView {
        match *self {
            Error::Msg(message) => ErrorView::Msg(message@),
            Error::Parse(error) => ErrorView::Parse(error@),
            Error::Setting(error) => ErrorView::Setting(error@),
        }
    }
}

impl Error {
    /// The message of the error.
    pub fn to_string(&self) -> (s: String)
        ensures
            s@ == self@.text(),
    {
        match self {
            Error::Msg(message) => message.clone(),
            Error::Parse(error) => error.to_string(),
            Error::Setting(error) => error.to_string(),
        }
    }
}

/// What a list of errors holds.
pub open spec fn error_views(errors: Seq<Error>) -> Seq<ErrorView> {
    errors.map_values(|error: Error| error@)
}

} // verus!
