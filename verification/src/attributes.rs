//! The attributes of the variants of a command enum and of the fields of
//! a settings struct, and what they say of each command or setting.

use vstd::prelude::*;
use vstd::string::StringExecFns;
use crate::chars::{same_chars, to_chars};

verus! {

/// Whether two texts are the same.
pub fn same_text(first: &str, second: &str) -> (same: bool)
    ensures
        same == (first@ == second@),
{
    let first = to_chars(first);
    let second = to_chars(second);
    same_chars(first.as_slice(), second.as_slice())
}

/// What an `Argument` holds.
pub enum ArgumentView {
    Word(Seq<char>),
    NameValue { name: Seq<char>, text: Option<Seq<char>> },
    List(Seq<char>),
    Literal,
}

/// An argument of an attribute.
#[derive(Debug, PartialEq)]
pub enum Argument {
    /// A word: `hidden`.
    Word(String),
    /// A name with a value: `text = "..."`. The text is that of a value
    /// that is a string; any other value has none.
    NameValue { name: String, text: Option<String> },
    /// A name with arguments of its own.
    List(String),
    /// A literal.
    Literal,
}

impl View for Argument {
    type V = ArgumentView;

    open spec fn view(&self) -> ArgumentView {
        match *self {
            Argument::Word(word) => ArgumentView::Word(word@),
            Argument::NameValue { name, text } => ArgumentView::NameValue {
                name: name@,
                text: match text {
                    Some(text) => Some(text@),
                    None => None,
                },
            },
            Argument::List(name) => ArgumentView::List(name@),
            Argument::Literal => ArgumentView::Literal,
        }
    }
}

/// What a list of arguments holds.
pub open spec fn argument_views(arguments: Seq<Argument>) -> Seq<ArgumentView> {
    arguments.map_values(|argument: Argument| argument@)
}

/// What an `Attribute` holds.
pub enum AttributeView {
    Word(Seq<char>),
    List { name: Seq<char>, arguments: Seq<ArgumentView> },
    Other,
}

/// An attribute of a variant or of a field.
#[derive(Debug, PartialEq)]
pub enum Attribute {
    /// A word: `#[count]`.
    Word(String),
    /// A name with arguments: `#[help(text = "...")]`.
    List { name: String, arguments: Vec<Argument> },
    /// Any other attribute.
    Other,
}

impl View for Attribute {
    type V = AttributeView;

    open spec fn view(&self) -> AttributeView {
        match *self {
            Attribute::Word(word) => AttributeView::Word(word@),
            Attribute::List { name, arguments } => AttributeView::List {
                name: name@,
                arguments: argument_views(arguments@),
            },
            Attribute::Other => AttributeView::Other,
        }
    }
}

/// What a list of attributes holds.
pub open spec fn attribute_views(attributes: Seq<Attribute>) -> Seq<AttributeView> {
    attributes.map_values(|attribute: Attribute| attribute@)
}

/// What a `Command` holds.
pub struct CommandView {
    pub description: Seq<char>,
    pub has_argument: bool,
    pub hidden: bool,
    pub is_count: bool,
    pub is_optional: bool,
    pub name: Seq<char>,
}

/// What the attributes say of a command or setting.
#[derive(Debug)]
pub struct Command {
    pub description: String,
    pub has_argument: bool,
    pub hidden: bool,
    pub is_count: bool,
    pub is_optional: bool,
    pub name: String,
}

impl View for Command {
    type V = CommandView;

    open spec fn view(&self) -> CommandView {
        CommandView {
            description: self.description@,
            has_argument: self.has_argument,
            hidden: self.hidden,
            is_count: self.is_count,
            is_optional: self.is_optional,
            name: self.name@,
        }
    }
}

impl Command {
    /// A command without a name, of which nothing is said.
    pub fn new() -> (command: Command)
        ensures
            command@ == (CommandView {
                description: Seq::empty(),
                has_argument: false,
                hidden: false,
                is_count: false,
                is_optional: false,
                name: Seq::empty(),
            }),
    {
        Command {
            description: String::new(),
            has_argument: false,
            hidden: false,
            is_count: false,
            is_optional: false,
            name: String::new(),
        }
    }
}

/// What a `SpecialCommand` holds.
pub struct SpecialCommandView {
    pub identifier: char,
    pub incremental: bool,
    pub name: Seq<char>,
}

/// A command that is entered by one character.
#[derive(Debug)]
pub struct SpecialCommand {
    pub identifier: char,
    pub incremental: bool,
    pub name: String,
}

impl View for SpecialCommand {
    type V = SpecialCommandView;

    open spec fn view(&self) -> SpecialCommandView {
        SpecialCommandView {
            identifier: self.identifier,
            incremental: self.incremental,
            name: self.name@,
        }
    }
}

/// What a `VariantInfo` holds.
pub enum VariantInfoView {
    CommandInfo(CommandView),
    SpecialCommandInfo(SpecialCommandView),
}

/// What is known of a variant or of a field.
#[derive(Debug)]
pub enum VariantInfo {
    CommandInfo(Command),
    SpecialCommandInfo(SpecialCommand),
}

impl View for VariantInfo {
    type V = VariantInfoView;

    open spec fn view(&self) -> VariantInfoView {
        match *self {
            VariantInfo::CommandInfo(command) => VariantInfoView::CommandInfo(command@),
            VariantInfo::SpecialCommandInfo(command) => VariantInfoView::SpecialCommandInfo(
                command@,
            ),
        }
    }
}

/// What a list of variants holds.
pub open spec fn info_views(infos: Seq<VariantInfo>) -> Seq<VariantInfoView> {
    infos.map_values(|info: VariantInfo| info@)
}

/// What is wrong with the attributes or the shape of a variant or field.
#[derive(Clone, Copy, Debug, PartialEq, Eq)]
pub enum AttributeError {
    /// A `completion` or `help` attribute has no argument.
    MissingArgument,
    /// A `special_command` attribute has an argument with arguments of its
    /// own.
    UnexpectedArgument,
    /// The identifier of a special command is the empty text.
    EmptyIdentifier,
    /// A `special_command` attribute has no identifier.
    MissingIdentifier,
    /// A variant with parentheses has no field between them.
    MissingField,
    /// A field has no name.
    UnnamedField,
}

impl AttributeError {
    /// The message of the error.
    pub open spec fn text(self) -> Seq<char> {
        match self {
            AttributeError::MissingArgument => "attribute without argument"@,
            AttributeError::UnexpectedArgument =>
                "Unexpected argument, expecting `incremental`, or `identifier=\"c\"`"@,
            AttributeError::EmptyIdentifier => "identifier should be one character"@,
            AttributeError::MissingIdentifier =>
                "identifier is required in #[special_command] attribute"@,
            AttributeError::MissingField => "variant without field"@,
            AttributeError::UnnamedField => "field without name"@,
        }
    }

    /// The message of the error.
    pub fn to_string(&self) -> (message: String)
        ensures
            message@ == self.text(),
    {
        match self {
            AttributeError::MissingArgument => String::from_str("attribute without argument"),
            AttributeError::UnexpectedArgument => String::from_str(
                "Unexpected argument, expecting `incremental`, or `identifier=\"c\"`",
            ),
            AttributeError::EmptyIdentifier => String::from_str(
                "identifier should be one character",
            ),
            AttributeError::MissingIdentifier => String::from_str(
                "identifier is required in #[special_command] attribute",
            ),
            AttributeError::MissingField => String::from_str("variant without field"),
            AttributeError::UnnamedField => String::from_str("field without name"),
        }
    }
}

/// What the arguments of a `special_command` attribute say, from the
/// argument at `index` on: whether the command is incremental, and its
/// identifier, the first character of the text that is given for it. The
/// last identifier counts.
pub open spec fn special_command_from(
    arguments: Seq<ArgumentView>,
    index: int,
    incremental: bool,
    identifier: Option<char>,
) -> Result<(bool, char), AttributeError>
    decreases arguments.len() - index,
{
    if index < 0 || index >= arguments.len() {
        match identifier {
            Some(character) => Ok((incremental, character)),
            None => Err(AttributeError::MissingIdentifier),
        }
    } else {
        match arguments[index] {
            ArgumentView::Word(word) => special_command_from(
                arguments,
                index + 1,
                incremental || word == "incremental"@,
                identifier,
            ),
            ArgumentView::NameValue { name, text } => if name == "identifier"@ && text is Some {
                if text->Some_0.len() == 0 {
                    Err(AttributeError::EmptyIdentifier)
                } else {
                    special_command_from(arguments, index + 1, incremental, Some(text->Some_0[0]))
                }
            } else {
                special_command_from(arguments, index + 1, incremental, identifier)
            },
            ArgumentView::List(_) => Err(AttributeError::UnexpectedArgument),
            ArgumentView::Literal => special_command_from(
                arguments,
                index + 1,
                incremental,
                identifier,
            ),
        }
    }
}

/// Reads the arguments of a `special_command` attribute.
pub fn special_command_of(arguments: &Vec<Argument>) -> (result: Result<(bool, char), AttributeError>)
    ensures
        result == special_command_from(argument_views(arguments@), 0, false, None),
{
    let mut incremental = false;
    let mut identifier: Option<char> = None;
    let mut index: usize = 0;
    while index < arguments.len()
        invariant
            index <= arguments.len(),
            special_command_from(argument_views(arguments@), 0, false, None)
                == special_command_from(
                argument_views(arguments@),
                index as int,
                incremental,
                identifier,
            ),
        decreases arguments.len() - index,
    {
        assert(argument_views(arguments@)[index as int] == arguments@[index as int]@);
        match &arguments[index] {
            Argument::Word(word) => {
                if same_text(word.as_str(), "incremental") {
                    incremental = true;
                }
            },
            Argument::NameValue { name, text } => {
                if same_text(name.as_str(), "identifier") {
                    match text {
                        Some(text) => {
                            let chars = to_chars(text.as_str());
                            if chars.len() == 0 {
                                return Err(AttributeError::EmptyIdentifier);
                            }
                            identifier = Some(chars[0]);
                        },
                        None => {},
                    }
                }
            },
            Argument::List(_) => {
                return Err(AttributeError::UnexpectedArgument);
            },
            Argument::Literal => {},
        }
        index += 1;
    }
    match identifier {
        Some(character) => Ok((incremental, character)),
        None => Err(AttributeError::MissingIdentifier),
    }
}

/// What the attributes of a variant or field say.
pub struct Collected {
    /// Whether the command or setting is left out of the completion.
    pub hidden: bool,
    /// The help text.
    pub description: Seq<char>,
    /// Whether the command takes a count.
    pub is_count: bool,
    /// The special command that the attributes make of the variant, if they
    /// make one.
    pub special: Result<Option<SpecialCommandView>, AttributeError>,
}

/// What `collect_attrs` answers, from the attribute at `index` on.
/// `completion(hidden)` hides, `help(text = "...")` gives the help text,
/// `count` says that the command takes a count. The first
/// `special_command` attribute makes a special command, and the
/// attributes behind it are not read.
pub open spec fn collected_from(
    name: Seq<char>,
    attributes: Seq<AttributeView>,
    index: int,
    hidden: bool,
    description: Seq<char>,
    is_count: bool,
) -> Collected
    decreases attributes.len() - index,
{
    if index < 0 || index >= attributes.len() {
        Collected { hidden, description, is_count, special: Ok(None) }
    } else {
        match attributes[index] {
            AttributeView::List { name: attribute, arguments } => if attribute == "completion"@ {
                if arguments.len() == 0 {
                    Collected {
                        hidden,
                        description,
                        is_count,
                        special: Err(AttributeError::MissingArgument),
                    }
                } else {
                    collected_from(
                        name,
                        attributes,
                        index + 1,
                        hidden || arguments[0] == ArgumentView::Word("hidden"@),
                        description,
                        is_count,
                    )
                }
            } else if attribute == "help"@ {
                if arguments.len() == 0 {
                    Collected {
                        hidden,
                        description,
                        is_count,
                        special: Err(AttributeError::MissingArgument),
                    }
                } else {
                    collected_from(
                        name,
                        attributes,
                        index + 1,
                        hidden,
                        match arguments[0] {
                            ArgumentView::NameValue { name: argument, text: Some(text) } =>
                                if argument == "text"@ {
                                text
                            } else {
                                description
                            },
                            _ => description,
                        },
                        is_count,
                    )
                }
            } else if attribute == "special_command"@ {
                Collected {
                    hidden,
                    description,
                    is_count,
                    special: match special_command_from(arguments, 0, false, None) {
                        Ok((incremental, identifier)) => Ok(
                            Some(SpecialCommandView { identifier, incremental, name }),
                        ),
                        Err(error) => Err(error),
                    },
                }
            } else {
                collected_from(name, attributes, index + 1, hidden, description, is_count)
            },
            AttributeView::Word(word) => collected_from(
                name,
                attributes,
                index + 1,
                hidden,
                description,
                is_count || word == "count"@,
            ),
            AttributeView::Other => collected_from(
                name,
                attributes,
                index + 1,
                hidden,
                description,
                is_count,
            ),
        }
    }
}

/// What a special command that was found or not, or an error, holds.
pub open spec fn special_view(
    special: Result<Option<VariantInfo>, AttributeError>,
) -> Result<Option<VariantInfoView>, AttributeError> {
    match special {
        Ok(Some(info)) => Ok(Some(info@)),
        Ok(None) => Ok(None),
        Err(error) => Err(error),
    }
}

/// What the special command of a collection is as a variant.
pub open spec fn special_info(
    special: Result<Option<SpecialCommandView>, AttributeError>,
) -> Result<Option<VariantInfoView>, AttributeError> {
    match special {
        Ok(Some(command)) => Ok(Some(VariantInfoView::SpecialCommandInfo(command))),
        Ok(None) => Ok(None),
        Err(error) => Err(error),
    }
}

/// Reads the attributes of the variant or field of a name: sets `hidden`,
/// `description` and `is_count` as the attributes say, and gives the
/// special command that they make of it, if they make one.
pub fn collect_attrs(
    name: &str,
    attrs: &Vec<Attribute>,
    hidden: &mut bool,
    description: &mut String,
    is_count: &mut bool,
) -> (special: Result<Option<VariantInfo>, AttributeError>)
    ensures
        ({
            let all = collected_from(
                name@,
                attribute_views(attrs@),
                0,
                *old(hidden),
                old(description)@,
                *old(is_count),
            );
            &&& *final(hidden) == all.hidden
            &&& final(description)@ == all.description
            &&& *final(is_count) == all.is_count
            &&& special_view(special) == special_info(all.special)
        }),
{
    let mut index: usize = 0;
    while index < attrs.len()
        invariant
            index <= attrs.len(),
            collected_from(
                name@,
                attribute_views(attrs@),
                0,
                *old(hidden),
                old(description)@,
                *old(is_count),
            ) == collected_from(
                name@,
                attribute_views(attrs@),
                index as int,
                *hidden,
                description@,
                *is_count,
            ),
        decreases attrs.len() - index,
    {
        assert(attribute_views(attrs@)[index as int] == attrs@[index as int]@);
        match &attrs[index] {
            Attribute::List { name: attribute, arguments } => {
                if same_text(attribute.as_str(), "completion") {
                    if arguments.len() == 0 {
                        return Err(AttributeError::MissingArgument);
                    }
                    assert(argument_views(arguments@)[0] == arguments@[0]@);
                    match &arguments[0] {
                        Argument::Word(word) => {
                            if same_text(word.as_str(), "hidden") {
                                *hidden = true;
                            }
                        },
                        _ => {},
                    }
                } else if same_text(attribute.as_str(), "help") {
                    if arguments.len() == 0 {
                        return Err(AttributeError::MissingArgument);
                    }
                    assert(argument_views(arguments@)[0] == arguments@[0]@);
                    match &arguments[0] {
                        Argument::NameValue { name: argument, text: Some(text) } => {
                            if same_text(argument.as_str(), "text") {
                                *description = text.clone();
                            }
                        },
                        _ => {},
                    }
                } else if same_text(attribute.as_str(), "special_command") {
                    return match special_command_of(arguments) {
                        Ok((incremental, identifier)) => Ok(
                            Some(
                                VariantInfo::SpecialCommandInfo(
                                    SpecialCommand {
                                        identifier,
                                        incremental,
                                        name: String::from_str(name),
                                    },
                                ),
                            ),
                        ),
                        Err(error) => Err(error),
                    };
                }
            },
            Attribute::Word(word) => {
                if same_text(word.as_str(), "count") {
                    *is_count = true;
                }
            },
            Attribute::Other => {},
        }
        index += 1;
    }
    Ok(None)
}

/// What the fields of a variant hold.
pub enum FieldsView {
    Unit,
    Unnamed(Seq<Option<Seq<char>>>),
    Named,
}

/// The fields of a variant.
#[derive(Debug, PartialEq)]
pub enum Fields {
    /// No field.
    Unit,
    /// Fields between parentheses. Of each, the first name in the path of
    /// its type, if its type is a path.
    Unnamed(Vec<Option<String>>),
    /// Fields between braces.
    Named,
}

/// What a list of names that may be missing holds.
pub open spec fn name_views(names: Seq<Option<String>>) -> Seq<Option<Seq<char>>> {
    names.map_values(
        |name: Option<String>|
            match name {
                Some(name) => Some(name@),
                None => None,
            },
    )
}

impl View for Fields {
    type V = FieldsView;

    open spec fn view(&self) -> FieldsView {
        match *self {
            Fields::Unit => FieldsView::Unit,
            Fields::Unnamed(types) => FieldsView::Unnamed(name_views(types@)),
            Fields::Named => FieldsView::Named,
        }
    }
}

/// What a `Variant` holds.
pub struct VariantView {
    pub name: Seq<char>,
    pub fields: FieldsView,
    pub attrs: Seq<AttributeView>,
}

/// A variant of an enum.
#[derive(Debug, PartialEq)]
pub struct Variant {
    pub name: String,
    pub fields: Fields,
    pub attrs: Vec<Attribute>,
}

impl View for Variant {
    type V = VariantView;

    open spec fn view(&self) -> VariantView {
        VariantView { name: self.name@, fields: self.fields@, attrs: attribute_views(self.attrs@) }
    }
}

/// What a `Field` holds.
pub struct FieldView {
    pub name: Option<Seq<char>>,
    pub type_path: Option<Seq<char>>,
    pub attrs: Seq<AttributeView>,
}

/// A field of a struct: its name, if it has one, the first name in the
/// path of its type, if its type is a path, and its attributes.
#[derive(Debug, PartialEq)]
pub struct Field {
    pub name: Option<String>,
    pub type_path: Option<String>,
    pub attrs: Vec<Attribute>,
}

impl View for Field {
    type V = FieldView;

    open spec fn view(&self) -> FieldView {
        FieldView {
            name: match self.name {
                Some(name) => Some(name@),
                None => None,
            },
            type_path: match self.type_path {
                Some(name) => Some(name@),
                None => None,
            },
            attrs: attribute_views(self.attrs@),
        }
    }
}

/// What a list of variants of an enum holds.
pub open spec fn variant_views(variants: Seq<Variant>) -> Seq<VariantView> {
    variants.map_values(|variant: Variant| variant@)
}

/// What a list of fields holds.
pub open spec fn field_views(fields: Seq<Field>) -> Seq<FieldView> {
    fields.map_values(|field: Field| field@)
}

/// What a `Data` holds.
pub enum DataView {
    Enum(Seq<VariantView>),
    Struct { named: bool, fields: Seq<FieldView> },
    Union,
}

/// The type that a derive is asked for.
#[derive(Debug, PartialEq)]
pub enum Data {
    /// An enum, with its variants.
    Enum(Vec<Variant>),
    /// A struct, with its fields, which stand between braces or not.
    Struct { named: bool, fields: Vec<Field> },
    /// A union.
    Union,
}

impl View for Data {
    type V = DataView;

    open spec fn view(&self) -> DataView {
        match *self {
            Data::Enum(variants) => DataView::Enum(variant_views(variants@)),
            Data::Struct { named, fields } => DataView::Struct {
                named,
                fields: field_views(fields@),
            },
            Data::Union => DataView::Union,
        }
    }
}

/// What a variant that was read, or an error, holds.
pub open spec fn info_result_view(result: Result<VariantInfo, AttributeError>) -> Result<
    VariantInfoView,
    AttributeError,
> {
    match result {
        Ok(info) => Ok(info@),
        Err(error) => Err(error),
    }
}

/// What is known of something of a name, from what its attributes say.
pub open spec fn info_of(
    name: Seq<char>,
    has_argument: bool,
    is_optional: bool,
    attributes: Seq<AttributeView>,
) -> Result<VariantInfoView, AttributeError> {
    let all = collected_from(name, attributes, 0, false, Seq::empty(), false);
    match all.special {
        Err(error) => Err(error),
        Ok(Some(command)) => Ok(VariantInfoView::SpecialCommandInfo(command)),
        Ok(None) => Ok(
            VariantInfoView::CommandInfo(
                CommandView {
                    description: all.description,
                    has_argument,
                    hidden: all.hidden,
                    is_count: all.is_count,
                    is_optional,
                    name,
                },
            ),
        ),
    }
}

/// What `collect_and_transform_variant` answers: the command of a variant.
/// It has an argument if the variant has fields, and the argument is
/// optional if the first field between parentheses is an `Option`.
pub open spec fn variant_info(variant: VariantView) -> Result<VariantInfoView, AttributeError> {
    match variant.fields {
        FieldsView::Unnamed(types) => if types.len() == 0 {
            Err(AttributeError::MissingField)
        } else {
            info_of(variant.name, true, types[0] == Some("Option"@), variant.attrs)
        },
        FieldsView::Unit => info_of(variant.name, false, false, variant.attrs),
        FieldsView::Named => info_of(variant.name, true, false, variant.attrs),
    }
}

/// What `collect_and_transform_field` answers: the setting of a field,
/// which must have a name.
pub open spec fn field_info(field: FieldView) -> Result<VariantInfoView, AttributeError> {
    match field.name {
        None => Err(AttributeError::UnnamedField),
        Some(name) => info_of(name, false, false, field.attrs),
    }
}

/// Reads what is known of something of a name.
fn collect_info(command: Command, attrs: &Vec<Attribute>) -> (result: Result<
    VariantInfo,
    AttributeError,
>)
    requires
        command@.description.len() == 0,
        !command@.hidden,
        !command@.is_count,
    ensures
        info_result_view(result) == info_of(
            command@.name,
            command@.has_argument,
            command@.is_optional,
            attribute_views(attrs@),
        ),
{
    let mut command = command;
    let mut hidden = false;
    let mut description = String::new();
    let mut is_count = false;
    assert(description@ =~= Seq::<char>::empty());
    assert(command@.description =~= Seq::<char>::empty());
    match collect_attrs(command.name.as_str(), attrs, &mut hidden, &mut description, &mut is_count) {
        Err(error) => Err(error),
        Ok(Some(special)) => Ok(special),
        Ok(None) => {
            command.hidden = hidden;
            command.description = description;
            command.is_count = is_count;
            Ok(VariantInfo::CommandInfo(command))
        },
    }
}

/// Reads a variant of a command enum.
pub fn collect_and_transform_variant(variant: &Variant) -> (result: Result<
    VariantInfo,
    AttributeError,
>)
    ensures
        info_result_view(result) == variant_info(variant@),
{
    let mut command = Command::new();
    command.name = variant.name.clone();
    match &variant.fields {
        Fields::Unit => {},
        Fields::Named => {
            command.has_argument = true;
        },
        Fields::Unnamed(types) => {
            command.has_argument = true;
            if types.len() == 0 {
                return Err(AttributeError::MissingField);
            }
            assert(name_views(types@)[0] == match types@[0] {
                Some(name) => Some(name@),
                None => None,
            });
            match &types[0] {
                Some(name) => {
                    command.is_optional = same_text(name.as_str(), "Option");
                },
                None => {},
            }
        },
    }
    collect_info(command, &variant.attrs)
}

/// Reads a field of a settings struct.
pub fn collect_and_transform_field(field: &Field) -> (result: Result<VariantInfo, AttributeError>)
    ensures
        info_result_view(result) == field_info(field@),
{
    let mut command = Command::new();
    match &field.name {
        None => {
            return Err(AttributeError::UnnamedField);
        },
        Some(name) => {
            command.name = name.clone();
        },
    }
    collect_info(command, &field.attrs)
}

/// What each variant gives, from the variant at `index` on, or the first
/// error.
pub open spec fn variant_infos_from(variants: Seq<VariantView>, index: int) -> Result<
    Seq<VariantInfoView>,
    AttributeError,
>
    decreases variants.len() - index,
{
    if index < 0 || index >= variants.len() {
        Ok(Seq::empty())
    } else {
        match variant_info(variants[index]) {
            Err(error) => Err(error),
            Ok(info) => match variant_infos_from(variants, index + 1) {
                Err(error) => Err(error),
                Ok(infos) => Ok(seq![info] + infos),
            },
        }
    }
}

/// What each field gives, from the field at `index` on, or the first
/// error.
pub open spec fn field_infos_from(fields: Seq<FieldView>, index: int) -> Result<
    Seq<VariantInfoView>,
    AttributeError,
>
    decreases fields.len() - index,
{
    if index < 0 || index >= fields.len() {
        Ok(Seq::empty())
    } else {
        match field_info(fields[index]) {
            Err(error) => Err(error),
            Ok(info) => match field_infos_from(fields, index + 1) {
                Err(error) => Err(error),
                Ok(infos) => Ok(seq![info] + infos),
            },
        }
    }
}

/// What `transform_enum` answers: what is known of each variant of an
/// enum, or of each field of a struct, in their order. A union gives
/// nothing.
pub open spec fn transformed(data: DataView) -> Result<Seq<VariantInfoView>, AttributeError> {
    match data {
        DataView::Enum(variants) => variant_infos_from(variants, 0),
        DataView::Struct { named, fields } => field_infos_from(fields, 0),
        DataView::Union => Ok(Seq::empty()),
    }
}

/// What a list of variants that were read, or an error, holds.
pub open spec fn infos_result_view(result: Result<Vec<VariantInfo>, AttributeError>) -> Result<
    Seq<VariantInfoView>,
    AttributeError,
> {
    match result {
        Ok(infos) => Ok(info_views(infos@)),
        Err(error) => Err(error),
    }
}

/// The variants found so far, followed by what the rest gives.
pub open spec fn infos_followed_by(
    infos: Seq<VariantInfoView>,
    rest: Result<Seq<VariantInfoView>, AttributeError>,
) -> Result<Seq<VariantInfoView>, AttributeError> {
    match rest {
        Ok(more) => Ok(infos + more),
        Err(error) => Err(error),
    }
}

/// Gathers what the attributes say of the variants of an enum, or of the
/// fields of a struct.
pub fn transform_enum(item: &Data) -> (result: Result<Vec<VariantInfo>, AttributeError>)
    ensures
        infos_result_view(result) == transformed(item@),
{
    let mut variant_infos: Vec<VariantInfo> = Vec::new();
    match item {
        Data::Enum(variants) => {
            let ghost views = variant_views(variants@);
            let mut index: usize = 0;
            proof {
                let all = variant_infos_from(views, 0);
                if all is Ok {
                    assert(info_views(variant_infos@) + all->Ok_0 =~= all->Ok_0);
                }
            }
            while index < variants.len()
                invariant
                    index <= variants.len(),
                    views == variant_views(variants@),
                    transformed(item@) == variant_infos_from(views, 0),
                    variant_infos_from(views, 0) == infos_followed_by(
                        info_views(variant_infos@),
                        variant_infos_from(views, index as int),
                    ),
                decreases variants.len() - index,
            {
                assert(views[index as int] == variants@[index as int]@);
                match collect_and_transform_variant(&variants[index]) {
                    Err(error) => {
                        assert(variant_info(views[index as int]) == Err::<
                            VariantInfoView,
                            AttributeError,
                        >(error));
                        assert(variant_infos_from(views, index as int) == Err::<
                            Seq<VariantInfoView>,
                            AttributeError,
                        >(error));
                        return Err(error);
                    },
                    Ok(info) => {
                        proof {
                            let more = variant_infos_from(views, index + 1);
                            if more is Ok {
                                assert(info_views(variant_infos@.push(info)) + more->Ok_0
                                    =~= info_views(variant_infos@) + (seq![info@] + more->Ok_0));
                            }
                        }
                        variant_infos.push(info);
                    },
                }
                index += 1;
            }
            proof {
                assert(info_views(variant_infos@) + Seq::<VariantInfoView>::empty() =~= info_views(
                    variant_infos@,
                ));
            }
        },
        Data::Struct { named, fields } => {
            let ghost views = field_views(fields@);
            let mut index: usize = 0;
            proof {
                let all = field_infos_from(views, 0);
                if all is Ok {
                    assert(info_views(variant_infos@) + all->Ok_0 =~= all->Ok_0);
                }
            }
            while index < fields.len()
                invariant
                    index <= fields.len(),
                    views == field_views(fields@),
                    transformed(item@) == field_infos_from(views, 0),
                    field_infos_from(views, 0) == infos_followed_by(
                        info_views(variant_infos@),
                        field_infos_from(views, index as int),
                    ),
                decreases fields.len() - index,
            {
                assert(views[index as int] == fields@[index as int]@);
                match collect_and_transform_field(&fields[index]) {
                    Err(error) => {
                        assert(field_info(views[index as int]) == Err::<
                            VariantInfoView,
                            AttributeError,
                        >(error));
                        assert(field_infos_from(views, index as int) == Err::<
                            Seq<VariantInfoView>,
                            AttributeError,
                        >(error));
                        return Err(error);
                    },
                    Ok(info) => {
                        proof {
                            let more = field_infos_from(views, index + 1);
                            if more is Ok {
                                assert(info_views(variant_infos@.push(info)) + more->Ok_0
                                    =~= info_views(variant_infos@) + (seq![info@] + more->Ok_0));
                            }
                        }
                        variant_infos.push(info);
                    },
                }
                index += 1;
            }
            proof {
                assert(info_views(variant_infos@) + Seq::<VariantInfoView>::empty() =~= info_views(
                    variant_infos@,
                ));
            }
        },
        Data::Union => {
            assert(info_views(variant_infos@) =~= Seq::<VariantInfoView>::empty());
        },
    }
    Ok(variant_infos)
}

} // verus!
