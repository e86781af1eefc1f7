//! The parser: the rules of the grammar, line by line.

use vstd::prelude::*;
use vstd::slice::{slice_subrange, slice_to_vec};
use vstd::string::StringExecFns;
use vstd::utf8::{decode_utf8, valid_utf8};
use core::marker::PhantomData;
use crate::{Command, CommandView, Config, ConfigView, EnumFromStr, ParseResult, ParseResultView};
use crate::chars::{same_chars, spells, string_of, string_views, to_chars};
use crate::errors::{new_syntax_error, texts, Error, ErrorType, ErrorView, ParseError, Result};
use crate::grammar::{
    check_eol_spec,
    custom_command_spec,
    include_command_spec,
    included_name,
    keyword_of,
    line_spec,
    map_command_spec,
    missing_arguments,
    resolved_command,
    set_command_spec,
    split_end,
    unmap_command_spec,
    KeywordView,
    LineOutcome,
};
use crate::key::parse_key_sequence;
use crate::position::{saturate, saturated, shifted, Pos};
use crate::stream::{
    followed,
    included_names,
    included_names_from,
    lines_from,
    lines_of,
    lookup,
    next_line,
    open_failure,
    parse_line_spec,
    parse_lines,
    parse_one,
    parse_spec,
    IncludeFileView,
    Outcome,
    ParserView,
};
use crate::string::{
    check_ident,
    find_word,
    find_words,
    first_word,
    trim,
    word_at,
    words_spec,
    WordView,
};
use crate::value::value;

verus! {

/// What the first word of a line asks for.
pub enum Keyword {
    /// The line is a comment.
    Comment,
    /// The line names a file to read.
    Include,
    /// The line gives a value to an option.
    Assign,
    /// The line binds keys in a mode.
    Mapping(String),
    /// The line frees keys in a mode.
    Unmapping(String),
    /// The line is a command of the application.
    Command,
}

impl View for Keyword {
    type V = KeywordView;

    open spec fn view(&self) -> KeywordView {
        match *self {
            Keyword::Comment => KeywordView::Comment,
            Keyword::Include => KeywordView::Include,
            Keyword::Assign => KeywordView::Assign,
            Keyword::Mapping(mode) => KeywordView::Mapping(mode@),
            Keyword::Unmapping(mode) => KeywordView::Unmapping(mode@),
            Keyword::Command => KeywordView::Command,
        }
    }
}

/// Whether a text is one of the words of a list.
pub fn contains_text(list: &Vec<&'static str>, text: &[char]) -> (found: bool)
    ensures
        found == texts(list@).contains(text@),
{
    let mut i: usize = 0;
    while i < list.len()
        invariant
            i <= list.len(),
            forall|j: int| 0 <= j < i ==> texts(list@)[j] != text@,
        decreases list.len() - i,
    {
        if spells(text, list[i]) {
            assert(texts(list@)[i as int] == text@);
            return true;
        }
        i += 1;
    }
    false
}

/// Cuts a word before its last `count` characters.
pub fn split_end_of(word: &[char], count: usize) -> (parts: (&[char], &[char]))
    ensures
        (parts.0@, parts.1@) == split_end(word@, count as int),
{
    if word.len() > count {
        let middle = word.len() - count;
        let parts = (slice_subrange(word, 0, middle), slice_subrange(word, middle, word.len()));
        assert(parts.0@ =~= word@.take(middle as int));
        assert(parts.1@ =~= word@.skip(middle as int));
        parts
    } else {
        let parts = (slice_subrange(word, 0, 0), slice_subrange(word, 0, 0));
        assert(parts.0@ =~= Seq::<char>::empty());
        parts
    }
}

/// Tells what a first word asks for, by its letters and the modes of the
/// configuration.
pub fn keyword(word: &[char], modes: &Vec<&'static str>) -> (found: Keyword)
    ensures
        found@ == keyword_of(word@, texts(modes@)),
{
    if word.len() > 0 && word[0] == '#' {
        return Keyword::Comment;
    }
    if spells(word, "include") {
        return Keyword::Include;
    }
    if spells(word, "set") {
        return Keyword::Assign;
    }
    let (start3, end3) = split_end_of(word, 3);
    if spells(end3, "map") && contains_text(modes, start3) {
        return Keyword::Mapping(string_of(start3));
    }
    let (start5, end5) = split_end_of(word, 5);
    if spells(end5, "unmap") && contains_text(modes, start5) {
        return Keyword::Unmapping(string_of(start5));
    }
    Keyword::Command
}

/// What a command, or an error, holds.
pub open spec fn command_result_view<T>(result: Result<Command<T>>) -> core::result::Result<
    CommandView<T>,
    ErrorView,
> {
    match result {
        Ok(command) => Ok(command@),
        Err(error) => Err(error@),
    }
}

/// What the end of a line that was checked holds.
pub open spec fn check_result_view(result: Result<()>) -> Option<ErrorView> {
    match result {
        Ok(_) => None,
        Err(error) => Some(error@),
    }
}

/// What the application answered when it was asked for a command.
pub open spec fn created_view<T>(created: core::result::Result<T, String>) -> Option<T> {
    match created {
        Ok(command) => Some(command),
        Err(_) => None,
    }
}

/// What a line gives by itself: its commands and errors, and the name of
/// the file that it asks to read, if there is one.
pub struct LineResult<T> {
    pub result: ParseResult<T>,
    pub file: Option<String>,
}

impl<T> View for LineResult<T> {
    type V = LineOutcome<T>;

    open spec fn view(&self) -> LineOutcome<T> {
        LineOutcome {
            result: self.result@,
            file: match self.file {
                Some(name) => Some(name@),
                None => None,
            },
        }
    }
}

impl<T> LineResult<T> {
    /// A line that gives nothing.
    pub fn nothing() -> (outcome: LineResult<T>)
        ensures
            outcome@ == crate::grammar::nothing::<T>(),
    {
        LineResult { result: ParseResult::new(), file: None }
    }

    /// A line that gives one command, or one error.
    pub fn of(result: Result<Command<T>>) -> (outcome: LineResult<T>)
        ensures
            outcome@ == crate::grammar::outcome_of(command_result_view(result)),
    {
        match result {
            Ok(command) => LineResult { result: ParseResult::new_with_command(command), file: None },
            Err(error) => LineResult { result: ParseResult::new_with_error(error), file: None },
        }
    }
}

/// The error of a command without the arguments that it needs.
pub fn missing_args(line: u32, column: u32) -> (error: Error)
    ensures
        error@ == missing_arguments(line, column),
{
    ParseError::new(
        ErrorType::MissingArgument,
        String::from_str("<end of line>"),
        String::from_str("command arguments"),
        Pos::new(line, column),
    )
}

/// What `get_rest` answers: all that follows the character behind the
/// place `end`, if anything does.
pub open spec fn get_rest_spec(text: Seq<char>, end: int, line: u32) -> core::result::Result<
    Seq<char>,
    ErrorView,
> {
    if text.len() > end + 1 {
        Ok(text.skip(end + 1))
    } else {
        Err(missing_arguments(line, saturate(end + 1)))
    }
}

/// The rest of a line behind its first word, which ends before the place
/// `end`: all that follows the character at `end`. An error if nothing
/// does.
pub fn get_rest<'a>(text: &'a [char], end: usize, line: u32) -> (rest: Result<&'a [char]>)
    requires
        end <= text@.len(),
    ensures
        match rest {
            Ok(slice) => get_rest_spec(text@, end as int, line) == Ok::<Seq<char>, ErrorView>(
                slice@,
            ),
            Err(error) => get_rest_spec(text@, end as int, line) == Err::<Seq<char>, ErrorView>(
                error@,
            ),
        },
{
    if text.len() - end > 1 {
        Ok(slice_subrange(text, end + 1, text.len()))
    } else {
        Err(missing_args(line, shifted(saturated(end), 1)))
    }
}

/// Checks that nothing but white space follows the character at `end`.
/// `column` is the column of the first character of the text.
pub fn check_eol(text: &[char], end: usize, line: u32, column: u32) -> (result: Result<()>)
    requires
        end <= text@.len(),
    ensures
        check_result_view(result) == check_eol_spec(text@, end + 1, line, column),
{
    if text.len() - end > 1 {
        let rest = slice_subrange(text, end + 1, text.len());
        if let Some((index, _)) = find_word(rest) {
            return Err(
                new_syntax_error(rest, "<end of line>", line, shifted(column, end + 1 + index)),
            );
        }
    }
    Ok(())
}

/// Parses the text behind `set`. `column` is the column of the first
/// character of the text.
pub fn set_command<T>(rest: &[char], line: u32, column: u32) -> (result: Result<Command<T>>)
    ensures
        command_result_view(result) == set_command_spec::<T>(rest@, line, column),
{
    match find_words(rest, 2) {
        Some(places) => {
            let (index, end) = places[0];
            let (operator_index, operator_end) = places[1];
            let name = slice_subrange(rest, index, end);
            let operator = slice_subrange(rest, operator_index, operator_end);
            proof {
                let words = words_spec(rest@, 2)->Some_0;
                assert(words[0] == word_at(rest@, index as int));
                assert(words[1] == word_at(rest@, operator_index as int));
            }
            let identifier =
            match check_ident(string_of(name), &Pos::new(line, shifted(column, index))) {
                Ok(identifier) => identifier,
                Err(error) => {
                    return Err(error);
                },
            };
            if spells(operator, "=") {
                let text = slice_subrange(rest, operator_index + 1, rest.len());
                match value(text, line, shifted(column, operator_index + 1)) {
                    Ok(value) => Ok(Command::Setting(identifier, value)),
                    Err(error) => Err(error),
                }
            } else {
                Err(new_syntax_error(operator, "=", line, shifted(column, operator_index)))
            }
        },
        None => Err(
            new_syntax_error(
                to_chars("<end of line>").as_slice(),
                "=",
                line,
                shifted(column, rest.len()),
            ),
        ),
    }
}

/// Parses the text behind a `map` keyword. `column` is the column of the
/// first character of the text.
pub fn map_command<T>(rest: &[char], mode: String, line: u32, column: u32) -> (result: Result<
    Command<T>,
>)
    requires
        first_word(rest@) is Some,
    ensures
        command_result_view(result) == map_command_spec::<T>(rest@, mode@, line, column),
{
    let (index, end) = match find_word(rest) {
        Some(place) => place,
        None => (0, 0),
    };
    let word = slice_subrange(rest, index, end);
    let action = trim(slice_subrange(rest, end, rest.len()));
    if action.len() > 0 {
        match parse_key_sequence(word, line, shifted(column, index)) {
            Ok(keys) => Ok(Command::Mapping { action: string_of(action), keys, mode }),
            Err(error) => Err(error),
        }
    } else {
        Err(
            new_syntax_error(
                to_chars("<end of line>").as_slice(),
                "mapping action",
                line,
                shifted(column, rest.len()),
            ),
        )
    }
}

/// Parses the text behind an `unmap` keyword. `column` is the column of
/// the first character of the text.
pub fn unmap_command<T>(rest: &[char], mode: String, line: u32, column: u32) -> (result: Result<
    Command<T>,
>)
    requires
        first_word(rest@) is Some,
    ensures
        command_result_view(result) == unmap_command_spec::<T>(rest@, mode@, line, column),
{
    let (index, end) = match find_word(rest) {
        Some(place) => place,
        None => (0, 0),
    };
    let word = slice_subrange(rest, index, end);
    match check_eol(rest, end, line, column) {
        Err(error) => Err(error),
        Ok(_) => match parse_key_sequence(word, line, shifted(column, index)) {
            Ok(keys) => Ok(Command::Unmap { keys, mode }),
            Err(error) => Err(error),
        },
    }
}

/// Parses the text behind `include`: the name of the file to read.
/// `column` is the column of the first character of the text.
pub fn include_command<T>(rest: &[char], line: u32, column: u32) -> (outcome: LineResult<T>)
    requires
        first_word(rest@) is Some,
    ensures
        outcome@ == include_command_spec::<T>(rest@, line, column),
{
    let (index, end) = match find_word(rest) {
        Some(place) => place,
        None => (0, 0),
    };
    let word = slice_subrange(rest, index, end);
    let mut result = ParseResult::new();
    match check_eol(rest, end, line, column) {
        Err(error) => {
            result.push_error(error);
            assert(result@.errors =~= seq![error@]);
        },
        Ok(_) => {},
    }
    LineResult { result, file: Some(string_of(word)) }
}

/// Decides what becomes of a first word that is no keyword, from what the
/// application answered when it was asked for the command. `index` is the
/// place of the word in its line.
pub fn resolve_command<T>(
    created: core::result::Result<T, String>,
    application_commands: &Vec<&'static str>,
    word: &[char],
    index: usize,
    line: u32,
) -> (result: Result<Command<T>>)
    ensures
        command_result_view(result) == resolved_command(
            created_view(created),
            texts(application_commands@),
            WordView { index: index as int, word: word@ },
            line,
        ),
{
    match created {
        Ok(command) => Ok(Command::Custom(command)),
        Err(_) => {
            if contains_text(application_commands, word) {
                Ok(Command::App(string_of(word)))
            } else {
                Err(
                    ParseError::new(
                        ErrorType::UnknownCommand,
                        string_of(word),
                        String::from_str("command or comment"),
                        Pos::new(line, shifted(saturated(index), 1)),
                    ),
                )
            }
        },
    }
}

/// Whether the application answered that a command needs an argument.
pub open spec fn needed_view(answer: core::result::Result<bool, String>) -> bool {
    answer matches Ok(needed) && needed
}

/// Decides what is handed to the application as the argument of a command
/// that stands alone on its line, from what the application answered when
/// it was asked whether the command needs one: the empty text, or the
/// error of a missing argument. `end` is the place behind the command's
/// name.
pub fn without_argument(
    answer: core::result::Result<bool, String>,
    end: usize,
    line: u32,
) -> (argument: Result<String>)
    ensures
        match argument {
            Ok(text) => !needed_view(answer) && text@ == Seq::<char>::empty(),
            Err(error) => needed_view(answer) && error@ == missing_arguments(
                line,
                saturate(end + 1),
            ),
        },
{
    match answer {
        Ok(true) => Err(missing_args(line, shifted(saturated(end), 1))),
        _ => Ok(String::new()),
    }
}

/// Parses a line whose first word, from `index` to `end`, is no keyword:
/// asks the application for the command of that name.
pub fn custom_command<T: EnumFromStr>(
    application_commands: &Vec<&'static str>,
    text: &[char],
    index: usize,
    end: usize,
    prefix: Option<u32>,
    line: u32,
) -> (result: Result<Command<T>>)
    requires
        index <= end <= text@.len(),
    ensures
        command_result_view(result) == custom_command_spec::<T>(
            texts(application_commands@),
            text@,
            WordView { index: index as int, word: text@.subrange(index as int, end as int) },
            prefix,
            line,
        ),
{
    let word = slice_subrange(text, index, end);
    let name = string_of(word);
    let argument = if text.len() - end > 1 {
        string_of(trim(slice_subrange(text, end + 1, text.len())))
    } else {
        match without_argument(T::has_argument(name.as_str()), end, line) {
            Ok(argument) => argument,
            Err(error) => {
                return Err(error);
            },
        }
    };
    let created = T::create(name.as_str(), argument.as_str(), prefix);
    resolve_command(created, application_commands, word, index, line)
}

/// Parses one line, without reading the file that it may name. `line` is
/// the number of the line.
pub fn command_line<T: EnumFromStr>(
    config: &Config,
    text: &[char],
    line: u32,
    prefix: Option<u32>,
) -> (outcome: LineResult<T>)
    ensures
        outcome@ == line_spec::<T>(config@, text@, line, prefix),
{
    let (index, end) = match find_word(text) {
        Some(place) => place,
        None => {
            return LineResult::nothing();
        },
    };
    let word = slice_subrange(text, index, end);
    let column = shifted(saturated(end), 2);
    let after = shifted(saturated(end), 1);
    match keyword(word, &config.mapping_modes) {
        Keyword::Comment => LineResult::nothing(),
        Keyword::Include => match get_rest(text, end, line) {
            Err(error) => LineResult::of(Err(error)),
            Ok(rest) => if find_word(rest).is_none() {
                LineResult::of(Err(missing_args(line, after)))
            } else {
                include_command(rest, line, column)
            },
        },
        Keyword::Assign => match get_rest(text, end, line) {
            Err(error) => LineResult::of(Err(error)),
            Ok(rest) => LineResult::of(set_command(rest, line, column)),
        },
        Keyword::Mapping(mode) => match get_rest(text, end, line) {
            Err(error) => LineResult::of(Err(error)),
            Ok(rest) => if find_word(rest).is_none() {
                LineResult::of(Err(missing_args(line, after)))
            } else {
                LineResult::of(map_command(rest, mode, line, column))
            },
        },
        Keyword::Unmapping(mode) => match get_rest(text, end, line) {
            Err(error) => LineResult::of(Err(error)),
            Ok(rest) => if find_word(rest).is_none() {
                LineResult::of(Err(missing_args(line, after)))
            } else {
                LineResult::of(unmap_command(rest, mode, line, column))
            },
        },
        Keyword::Command => LineResult::of(
            custom_command(&config.application_commands, text, index, end, prefix, line),
        ),
    }
}

/// A file that a configuration may name: its name as it is written behind
/// `include`, and what opening it gave, its bytes or the message of the
/// failure.
pub struct IncludeFile {
    pub name: String,
    pub content: core::result::Result<Vec<u8>, String>,
}

impl View for IncludeFile {
    type V = IncludeFileView;

    open spec fn view(&self) -> IncludeFileView {
        IncludeFileView {
            name: self.name@,
            content: match self.content {
                Ok(bytes) => Ok(bytes@),
                Err(message) => Err(message@),
            },
        }
    }
}

/// What a list of files holds.
pub open spec fn file_views(files: Seq<IncludeFile>) -> Seq<IncludeFileView> {
    files.map_values(|file: IncludeFile| file@)
}

/// What a result and the number of the line read last hold.
pub open spec fn outcome_view<T>(outcome: (ParseResult<T>, u32)) -> Outcome<T> {
    Outcome { result: outcome.0@, line: outcome.1 }
}

/// Calls `str::from_utf8`: the text that the bytes encode, where they are
/// valid UTF-8, and nothing where they are not.
#[verifier::external_body]
fn utf8_text(bytes: &[u8]) -> (text: Option<&str>)
    ensures
        text is Some <==> valid_utf8(bytes@),
        text matches Some(decoded) ==> decoded@ == decode_utf8(bytes@),
{
    core::str::from_utf8(bytes).ok()
}

/// The error of a file that could not be opened.
fn open_failure_error(name: &[char], reason: &str) -> (error: Error)
    ensures
        error@ == open_failure(name@, reason@),
{
    let mut message = String::from_str("failed to open included file `");
    let name = string_of(name);
    message.append(name.as_str());
    message.append("`: ");
    message.append(reason);
    assert(message@ =~= "failed to open included file `"@ + name@ + "`: "@ + reason@);
    Error::Msg(message)
}

/// The config parser.
pub struct Parser<T> {
    config: Config,
    include_path: String,
    files: Vec<IncludeFile>,
    line: u32,
    _phantom: PhantomData<T>,
}

impl<T> View for Parser<T> {
    type V = ParserView;

    closed spec fn view(&self) -> ParserView {
        ParserView {
            config: self.config@,
            include_path: self.include_path@,
            files: file_views(self.files@),
            line: self.line,
        }
    }
}

impl<T: EnumFromStr> Parser<T> {
    /// Creates a parser without commands and without modes. It reads files
    /// from the directory `./`, has been given no file, and is on line 1.
    pub fn new() -> (parser: Parser<T>)
        ensures
            parser@ == (ParserView {
                config: ConfigView {
                    application_commands: Seq::empty(),
                    mapping_modes: Seq::empty(),
                },
                include_path: "./"@,
                files: Seq::empty(),
                line: 1,
            }),
    {
        let parser = Parser {
            config: Config { application_commands: Vec::new(), mapping_modes: Vec::new() },
            include_path: String::from_str("./"),
            files: Vec::new(),
            line: 1,
            _phantom: PhantomData,
        };
        assert(parser@.config.application_commands =~= Seq::empty());
        assert(parser@.config.mapping_modes =~= Seq::empty());
        assert(parser@.files =~= Seq::empty());
        parser
    }

    /// Creates a parser with a configuration. It reads files from the
    /// directory `./`, has been given no file, and is on line 1.
    pub fn new_with_config(config: Config) -> (parser: Parser<T>)
        ensures
            parser@ == (ParserView {
                config: config@,
                include_path: "./"@,
                files: Seq::empty(),
                line: 1,
            }),
    {
        let parser = Parser {
            config,
            include_path: String::from_str("./"),
            files: Vec::new(),
            line: 1,
            _phantom: PhantomData,
        };
        assert(parser@.files =~= Seq::empty());
        parser
    }

    /// Sets the directory where the files that `include` lines name are
    /// looked for.
    pub fn set_include_path(&mut self, directory: &str)
        ensures
            final(self)@ == (ParserView { include_path: directory@, ..old(self)@ }),
    {
        self.include_path = String::from_str(directory);
    }

    /// The directory where the files that `include` lines name are looked
    /// for.
    pub fn include_path(&self) -> (directory: &str)
        ensures
            directory@ == self@.include_path,
    {
        self.include_path.as_str()
    }

    /// The number of the line that the parser read last.
    pub fn line_number(&self) -> (line: u32)
        ensures
            line == self@.line,
    {
        self.line
    }

    /// Gives the parser a file: its name, as `include` lines write it, and
    /// its bytes. Of two files of one name the first is read.
    pub fn add_include(&mut self, name: &str, content: &[u8])
        ensures
            final(self)@ == (ParserView {
                files: old(self)@.files.push(
                    IncludeFileView { name: name@, content: Ok(content@) },
                ),
                ..old(self)@
            }),
    {
        let file = IncludeFile { name: String::from_str(name), content: Ok(slice_to_vec(content)) };
        self.files.push(file);
        assert(final(self)@.files =~= old(self)@.files.push(file@));
    }

    /// Tells the parser of a file that could not be opened: its name, as
    /// `include` lines write it, and the message of the failure.
    pub fn add_include_failure(&mut self, name: &str, message: &str)
        ensures
            final(self)@ == (ParserView {
                files: old(self)@.files.push(
                    IncludeFileView { name: name@, content: Err(message@) },
                ),
                ..old(self)@
            }),
    {
        let file = IncludeFile {
            name: String::from_str(name),
            content: Err(String::from_str(message)),
        };
        self.files.push(file);
        assert(final(self)@.files =~= old(self)@.files.push(file@));
    }

    /// Finds the first file of a name among the files that the parser was
    /// given.
    fn find_file(&self, name: &[char]) -> (found: Option<usize>)
        ensures
            match found {
                Some(index) => index < self.files@.len() && lookup(self@.files, name@) == Some(
                    self.files@[index as int]@.content,
                ),
                None => lookup(self@.files, name@) is None,
            },
    {
        let mut i: usize = 0;
        proof {
            assert(self@.files.skip(0) =~= self@.files);
        }
        while i < self.files.len()
            invariant
                i <= self.files@.len(),
                lookup(self@.files, name@) == lookup(self@.files.skip(i as int), name@),
            decreases self.files.len() - i,
        {
            let file_name = to_chars(self.files[i].name.as_str());
            proof {
                assert(self@.files.skip(i as int)[0] == self.files@[i as int]@);
                assert(self@.files.skip(i as int).drop_first() =~= self@.files.skip(i + 1));
            }
            if same_chars(file_name.as_slice(), name) {
                return Some(i);
            }
            i += 1;
        }
        None
    }

    /// Whether the parser was given a file of this name.
    pub fn has_include(&self, name: &str) -> (known: bool)
        ensures
            known == lookup(self@.files, name@) is Some,
    {
        let chars = to_chars(name);
        self.find_file(chars.as_slice()).is_some()
    }

    /// Parses the file of a name. `line` is the number of the line that
    /// names it.
    fn parse_file(&self, name: &[char], depth: usize, line: u32) -> (outcome: (
        ParseResult<T>,
        u32,
    ))
        ensures
            outcome_view(outcome) == crate::stream::parse_file::<T>(
                self@,
                name@,
                depth as nat,
                line,
            ),
        decreases depth, 0nat,
    {
        match self.find_file(name) {
            None => (ParseResult::new_with_error(open_failure_error(name, "no such file")), line),
            Some(index) => match &self.files[index].content {
                Err(message) => (
                    ParseResult::new_with_error(Error::Msg(message.clone())),
                    line,
                ),
                Ok(content) => {
                    if depth == 0 {
                        (
                            ParseResult::new_with_error(
                                open_failure_error(name, "too many nested files"),
                            ),
                            line,
                        )
                    } else {
                        self.parse_nested(content.as_slice(), None, depth - 1, line)
                    }
                },
            },
        }
    }

    /// Parses one line of an input, and the file that it names. `number`
    /// is the number of the line.
    fn line(&self, bytes: &[u8], number: u32, prefix: Option<u32>, depth: usize) -> (outcome: (
        ParseResult<T>,
        u32,
    ))
        ensures
            outcome_view(outcome) == parse_one::<T>(self@, bytes@, number, prefix, depth as nat),
        decreases depth, 1nat,
    {
        let text = match utf8_text(bytes) {
            Some(text) => text,
            None => {
                return (
                    ParseResult::new_with_error(
                        Error::Msg(String::from_str("stream did not contain valid UTF-8")),
                    ),
                    number,
                );
            },
        };
        let chars = to_chars(text);
        let this = command_line(&self.config, chars.as_slice(), number, prefix);
        match this.file {
            None => (this.result, number),
            Some(name) => {
                let name_chars = to_chars(name.as_str());
                let (inner, after) = self.parse_file(name_chars.as_slice(), depth, number);
                let mut result = this.result;
                result.merge(inner);
                (result, after)
            },
        }
    }

    /// Parses an input, with at most `depth` files open below it. `line`
    /// is the number of the line that was read last.
    fn parse_nested(&self, input: &[u8], prefix: Option<u32>, depth: usize, line: u32) -> (outcome:
        (ParseResult<T>, u32))
        ensures
            outcome_view(outcome) == parse_lines::<T>(
                self@,
                lines_of(input@),
                1,
                prefix,
                depth as nat,
                line,
            ),
        decreases depth, 2nat,
    {
        let mut result = ParseResult::new();
        let mut current = line;
        let mut from: usize = 0;
        let mut number: u32 = 1;
        let ghost mut count: int = 0;
        proof {
            let all = parse_lines::<T>(self@, lines_of(input@), 1, prefix, depth as nat, line);
            assert(result@.merged(all.result) == all.result) by {
                assert(result@.commands + all.result.commands =~= all.result.commands);
                assert(result@.errors + all.result.errors =~= all.result.errors);
            }
        }
        while from < input.len()
            invariant
                from <= input.len(),
                count >= 0,
                number == saturate(count + 1),
                parse_lines::<T>(self@, lines_of(input@), 1, prefix, depth as nat, line)
                    == followed(
                    result@,
                    parse_lines::<T>(
                        self@,
                        lines_from(input@, from as int),
                        count + 1,
                        prefix,
                        depth as nat,
                        current,
                    ),
                ),
            decreases input.len() - from,
        {
            let (bytes, next) = next_line(input, from);
            let (this, after) = self.line(bytes, number, prefix, depth);
            proof {
                let lines = lines_from(input@, from as int);
                assert(lines[0] == bytes@);
                assert(lines.drop_first() =~= lines_from(input@, next as int));
                let rest = parse_lines::<T>(
                    self@,
                    lines_from(input@, next as int),
                    count + 2,
                    prefix,
                    depth as nat,
                    after,
                );
                assert(result@.merged(this@.merged(rest.result)) == result@.merged(this@).merged(
                    rest.result,
                )) by {
                    assert(result@.commands + (this@.commands + rest.result.commands) =~= (
                    result@.commands + this@.commands) + rest.result.commands);
                    assert(result@.errors + (this@.errors + rest.result.errors) =~= (result@.errors
                        + this@.errors) + rest.result.errors);
                }
            }
            result.merge(this);
            current = after;
            from = next;
            if number < u32::MAX {
                number += 1;
            }
            proof {
                count = count + 1;
            }
        }
        proof {
            let rest = ParseResultView::<T>::empty();
            assert(result@.merged(rest) == result@) by {
                assert(result@.commands + rest.commands =~= result@.commands);
                assert(result@.errors + rest.errors =~= result@.errors);
            }
        }
        (result, current)
    }

    /// Parses a configuration: every line of the input, and every file
    /// that a line names, where the line stands. The commands and the
    /// errors come in the order in which they were met; a line that failed
    /// does not stop the parser. `prefix` is the count that goes before a
    /// command of the application.
    pub fn parse(&mut self, input: &[u8], prefix: Option<u32>) -> (result: ParseResult<T>)
        ensures
            result@ == parse_spec::<T>(old(self)@, input@, prefix).result,
            final(self)@ == (ParserView {
                line: parse_spec::<T>(old(self)@, input@, prefix).line,
                ..old(self)@
            }),
    {
        let depth = self.files.len();
        let (result, line) = self.parse_nested(input, prefix, depth, self.line);
        self.line = line;
        result
    }

    /// Parses a single line of a configuration. A line that holds no
    /// command, because it is blank or a comment, is an error.
    pub fn parse_line(&mut self, line: &str, prefix: Option<u32>) -> (result: ParseResult<T>)
        ensures
            result@ == parse_line_spec::<T>(old(self)@, line@, prefix).result,
            final(self)@ == (ParserView {
                line: parse_line_spec::<T>(old(self)@, line@, prefix).line,
                ..old(self)@
            }),
    {
        let mut result = self.parse(line.as_bytes(), prefix);
        if result.commands.len() == 0 && result.errors.len() == 0 {
            result.push_error(
                ParseError::new(
                    ErrorType::NoCommand,
                    String::from_str("comment or <end of line>"),
                    String::from_str("command"),
                    Pos::new(self.line, 1),
                ),
            );
            assert(result@.commands =~= Seq::empty());
            assert(result@.errors =~= seq![crate::grammar::no_command(self.line)]);
        }
        result
    }
}

/// The name of the file that a line asks to read, if it asks for one.
pub fn included_file(text: &[char]) -> (name: Option<String>)
    ensures
        match name {
            Some(name) => included_name(text@) == Some(name@),
            None => included_name(text@) is None,
        },
{
    let (index, end) = match find_word(text) {
        Some(place) => place,
        None => {
            return None;
        },
    };
    let word = slice_subrange(text, index, end);
    if !spells(word, "include") || text.len() - end <= 1 {
        return None;
    }
    let rest = slice_subrange(text, end + 1, text.len());
    match find_word(rest) {
        Some((start, stop)) => Some(string_of(slice_subrange(rest, start, stop))),
        None => None,
    }
}

/// The names of the files that an input asks to read, in the order of the
/// lines that name them. These are the files that `parse` looks for when
/// it is given this input.
pub fn included_files(input: &[u8]) -> (names: Vec<String>)
    ensures
        string_views(names@) == included_names(input@),
{
    let mut names: Vec<String> = Vec::new();
    let mut from: usize = 0;
    let ghost mut count: int = 0;
    let ghost lines = lines_of(input@);
    proof {
        assert(string_views(names@) + included_names_from(lines, 0)
            =~= included_names_from(lines, 0));
        assert(lines.skip(0) =~= lines);
    }
    while from < input.len()
        invariant
            from <= input.len(),
            lines == lines_of(input@),
            0 <= count <= lines.len(),
            lines.skip(count) == lines_from(input@, from as int),
            included_names(input@) == string_views(names@) + included_names_from(
                lines,
                count,
            ),
        decreases input.len() - from,
    {
        let (bytes, next) = next_line(input, from);
        let ghost rest = included_names_from(lines, count + 1);
        let ghost before = string_views(names@);
        proof {
            assert(lines.skip(count).len() > 0);
            assert(lines.skip(count)[0] == bytes@);
            assert(lines[count] == bytes@);
            assert(lines.skip(count + 1) =~= lines.skip(count).drop_first());
            assert(lines.skip(count).drop_first() =~= lines_from(input@, next as int));
        }
        let mut added = false;
        match utf8_text(bytes) {
            Some(text) => {
                let chars = to_chars(text);
                match included_file(chars.as_slice()) {
                    Some(name) => {
                        proof {
                            assert(string_views(names@.push(name)) =~= before.push(
                                name@,
                            ));
                            assert(before.push(name@) + rest =~= before + (seq![name@] + rest));
                        }
                        names.push(name);
                        added = true;
                    },
                    None => {},
                }
            },
            None => {},
        }
        proof {
            if !added {
                assert(before + (Seq::<Seq<char>>::empty() + rest) =~= before + rest);
            }
            count = count + 1;
        }
        from = next;
    }
    proof {
        assert(lines.skip(count).len() == 0);
        assert(string_views(names@) + Seq::<Seq<char>>::empty()
            =~= string_views(names@));
    }
    names
}

} // verus!
