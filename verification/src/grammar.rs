//! The grammar of a line, as functions of its text: what each rule gives
//! for every input.

use vstd::prelude::*;
use crate::{CommandView, ConfigView, EnumFromStr, ParseResultView};
use crate::errors::{syntax_error, ErrorType, ErrorView, ParseErrorView};
use crate::key::parse_keys_spec;
use crate::position::{saturate, shift, Pos};
use crate::string::{check_ident_spec, first_word, trimmed, words_spec, WordView};
use crate::value::value_spec;

verus! {

/// The error of a command without the arguments that it needs.
pub open spec fn missing_arguments(line: u32, column: u32) -> ErrorView {
    ErrorView::Parse(
        ParseErrorView {
            typ: ErrorType::MissingArgument,
            unexpected: "<end of line>"@,
            expected: "command arguments"@,
            pos: Pos { column, line },
        },
    )
}

/// The error of a first word that is no command.
pub open spec fn unknown_command(word: Seq<char>, line: u32, column: u32) -> ErrorView {
    ErrorView::Parse(
        ParseErrorView {
            typ: ErrorType::UnknownCommand,
            unexpected: word,
            expected: "command or comment"@,
            pos: Pos { column, line },
        },
    )
}

/// The error of a line without a command, where one is asked for.
pub open spec fn no_command(line: u32) -> ErrorView {
    ErrorView::Parse(
        ParseErrorView {
            typ: ErrorType::NoCommand,
            unexpected: "comment or <end of line>"@,
            expected: "command"@,
            pos: Pos { column: 1, line },
        },
    )
}

/// A word cut before its last `count` characters: what stands before them
/// and the `count` characters themselves. A word of `count` characters or
/// fewer gives two empty texts.
pub open spec fn split_end(word: Seq<char>, count: int) -> (Seq<char>, Seq<char>) {
    if 0 <= count < word.len() {
        (word.take(word.len() - count), word.skip(word.len() - count))
    } else {
        (Seq::empty(), Seq::empty())
    }
}

/// What the first word of a line asks for.
pub enum KeywordView {
    /// The line is a comment.
    Comment,
    /// The line names a file to read.
    Include,
    /// The line gives a value to an option.
    Assign,
    /// The line binds keys in a mode.
    Mapping(Seq<char>),
    /// The line frees keys in a mode.
    Unmapping(Seq<char>),
    /// The line is a command of the application.
    Command,
}

/// What the first word of a line asks for. A word that starts with `#` is
/// a comment. The words `include` and `set`, and a mode followed by `map`
/// or `unmap`, are told by their letters alone, before the application is
/// asked about a command of that name.
pub open spec fn keyword_of(word: Seq<char>, modes: Seq<Seq<char>>) -> KeywordView {
    if word.len() > 0 && word[0] == '#' {
        KeywordView::Comment
    } else if word == "include"@ {
        KeywordView::Include
    } else if word == "set"@ {
        KeywordView::Assign
    } else if split_end(word, 3).1 == "map"@ && modes.contains(split_end(word, 3).0) {
        KeywordView::Mapping(split_end(word, 3).0)
    } else if split_end(word, 5).1 == "unmap"@ && modes.contains(split_end(word, 5).0) {
        KeywordView::Unmapping(split_end(word, 5).0)
    } else {
        KeywordView::Command
    }
}

/// What `check_eol` answers: the error of a text that holds a word at or
/// after `index`. The unexpected text is all that stands from `index` on;
/// the error is at the first word there. `column` is the column of the
/// first character of the text.
pub open spec fn check_eol_spec(text: Seq<char>, index: int, line: u32, column: u32) -> Option<
    ErrorView,
> {
    if 0 <= index < text.len() {
        let rest = text.skip(index);
        match first_word(rest) {
            Some(word) => Some(
                syntax_error(rest, "<end of line>"@, line, shift(column, index + word.index)),
            ),
            None => None,
        }
    } else {
        None
    }
}

/// What `set_command` answers for the text behind `set`: the option and
/// its value, or the first error. `column` is the column of the first
/// character of the text.
pub open spec fn set_command_spec<T>(rest: Seq<char>, line: u32, column: u32) -> Result<
    CommandView<T>,
    ErrorView,
> {
    match words_spec(rest, 2) {
        None => Err(syntax_error("<end of line>"@, "="@, line, shift(column, rest.len() as int))),
        Some(words) => {
            let name = words[0];
            let operator = words[1];
            match check_ident_spec(
                name.word,
                Pos { line, column: shift(column, name.index) },
            ) {
                Err(error) => Err(error),
                Ok(identifier) => if operator.word == "="@ {
                    match value_spec(
                        rest.skip(operator.index + 1),
                        line,
                        shift(column, operator.index + 1),
                    ) {
                        Ok(value) => Ok(CommandView::Setting(identifier, value)),
                        Err(error) => Err(error),
                    }
                } else {
                    Err(syntax_error(operator.word, "="@, line, shift(column, operator.index)))
                },
            }
        },
    }
}

/// What `map_command` answers for the text behind a `map` keyword, which
/// holds a word: the keys that its first word spells, and the action,
/// which is all that follows, without the white space round it.
pub open spec fn map_command_spec<T>(
    rest: Seq<char>,
    mode: Seq<char>,
    line: u32,
    column: u32,
) -> Result<CommandView<T>, ErrorView>
    recommends
        first_word(rest) is Some,
{
    let word = first_word(rest)->Some_0;
    let action = trimmed(rest.skip(word.index + word.word.len()));
    if action.len() > 0 {
        match parse_keys_spec(word.word, line, shift(column, word.index)) {
            Ok(keys) => Ok(CommandView::Mapping { action, keys, mode }),
            Err(error) => Err(error),
        }
    } else {
        Err(
            syntax_error(
                "<end of line>"@,
                "mapping action"@,
                line,
                shift(column, rest.len() as int),
            ),
        )
    }
}

/// What `unmap_command` answers for the text behind an `unmap` keyword,
/// which holds a word: the keys that its first word spells. Nothing may
/// follow that word.
pub open spec fn unmap_command_spec<T>(
    rest: Seq<char>,
    mode: Seq<char>,
    line: u32,
    column: u32,
) -> Result<CommandView<T>, ErrorView>
    recommends
        first_word(rest) is Some,
{
    let word = first_word(rest)->Some_0;
    match check_eol_spec(rest, word.index + word.word.len() + 1, line, column) {
        Some(error) => Err(error),
        None => match parse_keys_spec(word.word, line, shift(column, word.index)) {
            Ok(keys) => Ok(CommandView::Unmap { keys, mode }),
            Err(error) => Err(error),
        },
    }
}

/// The argument of a command of the application: all that follows the
/// character behind the command's name, without the white space round it.
pub open spec fn command_argument(text: Seq<char>, word: WordView) -> Seq<char> {
    let start = word.index + word.word.len() + 1;
    if text.len() > start {
        trimmed(text.skip(start))
    } else {
        Seq::empty()
    }
}

/// What becomes of a word that is no keyword, once the application has
/// answered: its command if it made one; else the word itself if it is the
/// name of a command of the application library; else an error at the
/// word.
pub open spec fn resolved_command<T>(
    created: Option<T>,
    application_commands: Seq<Seq<char>>,
    word: WordView,
    line: u32,
) -> Result<CommandView<T>, ErrorView> {
    match created {
        Some(command) => Ok(CommandView::Custom(command)),
        None => if application_commands.contains(word.word) {
            Ok(CommandView::App(word.word))
        } else {
            Err(unknown_command(word.word, line, saturate(word.index + 1)))
        },
    }
}

/// What `custom_command` answers for a line whose first word is no
/// keyword. A command that needs an argument, on a line that ends with
/// the command's name or one character behind it, is an error. Else the
/// application is asked for the command.
pub open spec fn custom_command_spec<T: EnumFromStr>(
    application_commands: Seq<Seq<char>>,
    text: Seq<char>,
    word: WordView,
    prefix: Option<u32>,
    line: u32,
) -> Result<CommandView<T>, ErrorView> {
    let start = word.index + word.word.len() + 1;
    if text.len() <= start && T::needs_argument(word.word) {
        Err(missing_arguments(line, saturate(start)))
    } else {
        resolved_command(
            T::created(word.word, command_argument(text, word), prefix),
            application_commands,
            word,
            line,
        )
    }
}

/// What a line gives by itself: its commands and errors, and the name of
/// the file that it asks to read, if it is an `include` line.
pub struct LineOutcome<T> {
    pub result: ParseResultView<T>,
    pub file: Option<Seq<char>>,
}

/// A line that gives nothing.
pub open spec fn nothing<T>() -> LineOutcome<T> {
    LineOutcome { result: ParseResultView::empty(), file: None }
}

/// A line that gives one command, or one error.
pub open spec fn outcome_of<T>(result: Result<CommandView<T>, ErrorView>) -> LineOutcome<T> {
    match result {
        Ok(command) => LineOutcome {
            result: ParseResultView { commands: seq![command], errors: Seq::empty() },
            file: None,
        },
        Err(error) => LineOutcome {
            result: ParseResultView { commands: Seq::empty(), errors: seq![error] },
            file: None,
        },
    }
}

/// What `include_command` answers for the text behind `include`, which
/// holds a word: that word is the name of the file to read. A second word
/// is an error, and the file is read all the same.
pub open spec fn include_command_spec<T>(rest: Seq<char>, line: u32, column: u32) -> LineOutcome<T>
    recommends
        first_word(rest) is Some,
{
    let word = first_word(rest)->Some_0;
    LineOutcome {
        result: ParseResultView {
            commands: Seq::empty(),
            errors: match check_eol_spec(rest, word.index + word.word.len() + 1, line, column) {
                Some(error) => seq![error],
                None => Seq::empty(),
            },
        },
        file: Some(word.word),
    }
}

/// What one line gives. A blank line and a comment give nothing. A
/// keyword with nothing but white space behind it is an error, but for
/// `set`, which has an error of its own. `line` is the number of the line.
pub open spec fn line_spec<T: EnumFromStr>(
    config: ConfigView,
    text: Seq<char>,
    line: u32,
    prefix: Option<u32>,
) -> LineOutcome<T> {
    match first_word(text) {
        None => nothing(),
        Some(word) => {
            let start = word.index + word.word.len() + 1;
            let column = saturate(start + 1);
            let rest = text.skip(start);
            let missing = outcome_of::<T>(Err(missing_arguments(line, saturate(start))));
            match keyword_of(word.word, config.mapping_modes) {
                KeywordView::Comment => nothing(),
                KeywordView::Include => if text.len() <= start || first_word(rest) is None {
                    missing
                } else {
                    include_command_spec(rest, line, column)
                },
                KeywordView::Assign => if text.len() <= start {
                    missing
                } else {
                    outcome_of(set_command_spec(rest, line, column))
                },
                KeywordView::Mapping(mode) => if text.len() <= start || first_word(rest) is None {
                    missing
                } else {
                    outcome_of(map_command_spec(rest, mode, line, column))
                },
                KeywordView::Unmapping(mode) => if text.len() <= start || first_word(rest)
                    is None {
                    missing
                } else {
                    outcome_of(unmap_command_spec(rest, mode, line, column))
                },
                KeywordView::Command => outcome_of(
                    custom_command_spec::<T>(
                        config.application_commands,
                        text,
                        word,
                        prefix,
                        line,
                    ),
                ),
            }
        },
    }
}

/// The name of the file that a line asks to read: the word behind
/// `include`, if the line starts with that keyword and a word follows it.
pub open spec fn included_name(text: Seq<char>) -> Option<Seq<char>> {
    match first_word(text) {
        None => None,
        Some(word) => {
            let start = word.index + word.word.len() + 1;
            if word.word == "include"@ && text.len() > start {
                match first_word(text.skip(start)) {
                    Some(name) => Some(name.word),
                    None => None,
                }
            } else {
                None
            }
        },
    }
}

/// Which file a line asks to read does not depend on the configuration,
/// on the commands of the application, on the number of the line or on
/// the count: it is read off the line's first two words.
pub proof fn lemma_included_name<T: EnumFromStr>(
    config: ConfigView,
    text: Seq<char>,
    line: u32,
    prefix: Option<u32>,
)
    ensures
        line_spec::<T>(config, text, line, prefix).file == included_name(text),
{
    reveal_strlit("include");
    reveal_strlit("set");
}

} // verus!
