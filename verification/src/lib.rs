//! Parser of configuration files, one command per line: `set` gives a
//! value to an option, `include` reads another file, `<mode>map` and
//! `<mode>unmap` bind and free keys, and any other word is a command of the
//! application.
//!
//! A line that fails gives an error with the place where it failed, and
//! the parser goes on with the next line.
//!
//! # Usage
//!
//! Make a [`Parser`] for the type of the application's commands, give it
//! the files that the configuration may name (`add_include`), and call
//! `parse` on the bytes of the configuration. The parser opens no file
//! itself: it reads what it was given.
//!
//! # Contracts
//!
//! What each function answers is stated over the characters of its input:
//! `grammar` holds the rules of a line, `stream` those of a whole input
//! with its files, and `laws` and `key_laws` what holds of them on every
//! input. Lines and columns count characters from one, and stay at the
//! largest number that fits once they have reached it.

use vstd::prelude::*;
use std::collections::HashMap;

pub mod attributes;
pub mod chars;
pub mod derive;
pub mod errors;
pub mod grammar;
pub mod key;
pub mod key_laws;
pub mod laws;
pub mod naming;
pub mod parser;
pub mod position;
pub mod settings;
pub mod stream;
pub mod string;
pub mod tokens;
pub mod value;

pub use crate::parser::Parser;
pub use crate::value::{Value, ValueView};

use crate::errors::{error_views, texts, Error, ErrorView};
use crate::key::Key;

verus! {

/// The values that a type offers for completion.
pub trait CompletionValues {
    /// The completion values of the type.
    fn completion_values() -> Vec<String>;
}

impl CompletionValues for bool {
    fn completion_values() -> (values: Vec<String>)
        ensures
            values@.len() == 2,
            values@[0]@ == "true"@,
            values@[1]@ == "false"@,
    {
        let mut values: Vec<String> = Vec::new();
        values.push(String::from_str("true"));
        values.push(String::from_str("false"));
        values
    }
}

impl CompletionValues for i64 {
    fn completion_values() -> (values: Vec<String>)
        ensures
            values@.len() == 0,
    {
        Vec::new()
    }
}

impl CompletionValues for String {
    fn completion_values() -> (values: Vec<String>)
        ensures
            values@.len() == 0,
    {
        Vec::new()
    }
}

/// How a command of the application is made from its name and argument.
///
/// The parser asks by the name as it is written in a configuration, in
/// lower case with dashes: `win-open` for a variant `WinOpen`.
pub trait EnumFromStr: Sized {
    /// What `create` answers for a name, an argument and a count: the
    /// command, or none where `create` refuses. An implementation that is
    /// verified says what it is; for any other it is only known to depend
    /// on nothing but these three.
    open spec fn created(variant: Seq<char>, argument: Seq<char>, prefix: Option<u32>) -> Option<
        Self,
    > {
        arbitrary::<spec_fn(Seq<char>, Seq<char>, Option<u32>) -> Option<Self>>()(
            variant,
            argument,
            prefix,
        )
    }

    /// Whether `has_argument` answers that the command needs an argument.
    /// As for `created`, it depends on the name alone.
    open spec fn needs_argument(variant: Seq<char>) -> bool {
        arbitrary::<spec_fn(Seq<char>) -> bool>()(variant)
    }

    /// Creates the command named `variant` from an `argument` and a count.
    fn create(variant: &str, argument: &str, prefix: Option<u32>) -> (result: core::result::Result<
        Self,
        String,
    >)
        ensures
            match result {
                Ok(command) => Self::created(variant@, argument@, prefix) == Some(command),
                Err(_) => Self::created(variant@, argument@, prefix) is None,
            },
    ;

    /// Checks whether the command named `variant` needs an argument.
    fn has_argument(variant: &str) -> (result: core::result::Result<bool, String>)
        ensures
            (result matches Ok(needed) && needed) == Self::needs_argument(variant@),
    ;
}

/// The meta-data of the commands or settings of a type, by name.
pub trait EnumMetaData {
    /// The meta-data of each command or setting.
    fn get_metadata() -> HashMap<String, MetaData>;
}

/// What a `MetaData` holds.
pub struct MetaDataView {
    pub completion_hidden: bool,
    pub help_text: Seq<char>,
    pub is_special_command: bool,
}

/// What is known of a command or setting besides its name.
#[derive(Debug)]
pub struct MetaData {
    /// Whether the command or setting is left out of the completion.
    pub completion_hidden: bool,
    /// The help text of the command or setting.
    pub help_text: String,
    /// Whether this is a special command. A setting never is.
    pub is_special_command: bool,
}

impl View for MetaData {
    type V = MetaDataView;

    open spec fn view(&self) -> MetaDataView {
        MetaDataView {
            completion_hidden: self.completion_hidden,
            help_text: self.help_text@,
            is_special_command: self.is_special_command,
        }
    }
}

/// The values that each setting offers for completion.
pub trait SettingCompletion {
    /// The completion values of every setting, by name.
    fn get_value_completions() -> HashMap<String, Vec<String>>;
}

/// Commands that are entered by one character, such as `/` for a search.
pub trait SpecialCommand: Sized {
    /// The command that a character and the text behind it stand for.
    fn identifier_to_command(identifier: char, input: &str) -> core::result::Result<Self, String>;

    /// Whether a character stands for a special command.
    fn is_identifier(character: char) -> bool;

    /// Whether the command of a character runs at every key stroke.
    fn is_incremental(identifier: char) -> bool;
}

/// What a `Command` holds.
pub enum CommandView<T> {
    App(Seq<char>),
    Custom(T),
    Mapping { action: Seq<char>, keys: Seq<Key>, mode: Seq<char> },
    Setting(Seq<char>, ValueView),
    Unmap { keys: Seq<Key>, mode: Seq<char> },
}

/// A command from a configuration.
#[derive(Debug, PartialEq)]
pub enum Command<T> {
    /// A command of the application library, known by its name alone.
    App(String),
    /// A command of the application.
    Custom(T),
    /// A `map` command binds keys to an action.
    Mapping {
        /// The action that the keys start.
        action: String,
        /// The keys to press.
        keys: Vec<Key>,
        /// The mode in which the mapping is made.
        mode: String,
    },
    /// A `set` command gives a value to an option.
    Setting(String, Value),
    /// An `unmap` command frees keys.
    Unmap {
        /// The keys to free.
        keys: Vec<Key>,
        /// The mode in which the mapping was made.
        mode: String,
    },
}

impl<T> View for Command<T> {
    type V = CommandView<T>;

    open spec fn view(&self) -> CommandView<T> {
        match *self {
            Command::App(name) => CommandView::App(name@),
            Command::Custom(command) => CommandView::Custom(command),
            Command::Mapping { action, keys, mode } => CommandView::Mapping {
                action: action@,
                keys: keys@,
                mode: mode@,
            },
            Command::Setting(name, value) => CommandView::Setting(name@, value@),
            Command::Unmap { keys, mode } => CommandView::Unmap { keys: keys@, mode: mode@ },
        }
    }
}

/// What a list of commands holds.
pub open spec fn command_views<T>(commands: Seq<Command<T>>) -> Seq<CommandView<T>> {
    commands.map_values(|command: Command<T>| command@)
}

/// What a `Config` holds.
pub struct ConfigView {
    pub application_commands: Seq<Seq<char>>,
    pub mapping_modes: Seq<Seq<char>>,
}

/// The parsing configuration.
pub struct Config {
    /// The names of the commands of the application library.
    pub application_commands: Vec<&'static str>,
    /// The modes for which there are `map` and `unmap` commands.
    pub mapping_modes: Vec<&'static str>,
}

impl View for Config {
    type V = ConfigView;

    open spec fn view(&self) -> ConfigView {
        ConfigView {
            application_commands: texts(self.application_commands@),
            mapping_modes: texts(self.mapping_modes@),
        }
    }
}

impl Default for Config {
    /// The configuration without commands and without modes.
    fn default() -> (config: Config)
        ensures
            config@.application_commands.len() == 0,
            config@.mapping_modes.len() == 0,
    {
        Config { application_commands: Vec::new(), mapping_modes: Vec::new() }
    }
}

/// What a `ParseResult` holds.
pub struct ParseResultView<T> {
    pub commands: Seq<CommandView<T>>,
    pub errors: Seq<ErrorView>,
}

impl<T> ParseResultView<T> {
    /// The result without commands and without errors.
    pub open spec fn empty() -> ParseResultView<T> {
        ParseResultView { commands: Seq::empty(), errors: Seq::empty() }
    }

    /// The commands and errors of this result, followed by those of
    /// another.
    pub open spec fn merged(self, other: ParseResultView<T>) -> ParseResultView<T> {
        ParseResultView {
            commands: self.commands + other.commands,
            errors: self.errors + other.errors,
        }
    }
}

/// The commands and errors from parsing a configuration, each in the order
/// in which they were met.
pub struct ParseResult<T> {
    /// The parsed commands.
    pub commands: Vec<Command<T>>,
    /// The errors found while parsing.
    pub errors: Vec<Error>,
}

impl<T> View for ParseResult<T> {
    type V = ParseResultView<T>;

    open spec fn view(&self) -> ParseResultView<T> {
        ParseResultView {
            commands: command_views(self.commands@),
            errors: error_views(self.errors@),
        }
    }
}

impl<T> ParseResult<T> {
    /// Creates a result without commands and without errors.
    pub fn new() -> (result: ParseResult<T>)
        ensures
            result@ == ParseResultView::<T>::empty(),
    {
        let result = ParseResult { commands: Vec::new(), errors: Vec::new() };
        assert(result@.commands =~= Seq::empty());
        assert(result@.errors =~= Seq::empty());
        result
    }

    /// Creates a result with one command.
    pub fn new_with_command(command: Command<T>) -> (result: ParseResult<T>)
        ensures
            result@ == (ParseResultView { commands: seq![command@], errors: Seq::empty() }),
    {
        let mut commands: Vec<Command<T>> = Vec::new();
        commands.push(command);
        let result = ParseResult { commands, errors: Vec::new() };
        assert(result@.commands =~= seq![command@]);
        assert(result@.errors =~= Seq::empty());
        result
    }

    /// Creates a result with one error.
    pub fn new_with_error(error: Error) -> (result: ParseResult<T>)
        ensures
            result@ == (ParseResultView::<T> { commands: Seq::empty(), errors: seq![error@] }),
    {
        let mut errors: Vec<Error> = Vec::new();
        errors.push(error);
        let result = ParseResult { commands: Vec::new(), errors };
        assert(result@.commands =~= Seq::empty());
        assert(result@.errors =~= seq![error@]);
        result
    }

    /// Puts the commands and errors of another result behind those of this
    /// one.
    pub fn merge(&mut self, parse_result: ParseResult<T>)
        ensures
            final(self)@ == old(self)@.merged(parse_result@),
    {
        let mut other = parse_result;
        self.commands.append(&mut other.commands);
        self.errors.append(&mut other.errors);
        assert(final(self)@.commands =~= old(self)@.commands + parse_result@.commands);
        assert(final(self)@.errors =~= old(self)@.errors + parse_result@.errors);
    }

    /// Puts an error behind the errors of this result.
    pub fn push_error(&mut self, error: Error)
        ensures
            final(self)@ == (ParseResultView {
                commands: old(self)@.commands,
                errors: old(self)@.errors.push(error@),
            }),
    {
        self.errors.push(error);
        assert(final(self)@.errors =~= old(self)@.errors.push(error@));
    }
}

} // verus!
