//! What the traits of a command enum and of a settings struct are made
//! from: the names under which a configuration knows the commands and
//! settings, and what is known of each.

use vstd::prelude::*;
use crate::{MetaData, MetaDataView};
use crate::attributes::{
    Command,
    CommandView,
    info_views,
    same_text,
    variant_views,
    Argument,
    ArgumentView,
    Attribute,
    AttributeView,
    Field,
    FieldView,
    Variant,
    VariantInfo,
    VariantInfoView,
    VariantView,
};
use crate::chars::{string_of, string_views, to_chars};
use crate::naming::{to_dash_name, to_dash_name_spec};

verus! {

/// A text in which each `from` is replaced by `to`.
pub open spec fn replaced(text: Seq<char>, from: char, to: char) -> Seq<char> {
    text.map_values(
        |character: char|
            if character == from {
                to
            } else {
                character
            },
    )
}

/// Replaces each `from` of a text by `to`.
pub fn replace_char(text: &str, from: char, to: char) -> (result: String)
    ensures
        result@ == replaced(text@, from, to),
{
    let chars = to_chars(text);
    let mut result: Vec<char> = Vec::new();
    let mut index: usize = 0;
    while index < chars.len()
        invariant
            index <= chars.len(),
            result@ == replaced(chars@.take(index as int), from, to),
        decreases chars.len() - index,
    {
        let character = chars[index];
        result.push(
            if character == from {
                to
            } else {
                character
            },
        );
        assert(result@ =~= replaced(chars@.take(index + 1), from, to));
        index += 1;
    }
    assert(chars@.take(chars.len() as int) == chars@);
    string_of(result.as_slice())
}

/// The name of a setting in a configuration: the name of its field, with
/// a dash for each underscore.
pub open spec fn setting_name_spec(field: Seq<char>) -> Seq<char> {
    replaced(field, '_', '-')
}

/// The name of a setting in a configuration.
pub fn setting_name(field: &str) -> (name: String)
    ensures
        name@ == setting_name_spec(field@),
{
    replace_char(field, '_', '-')
}

/// The name of a command in a configuration: the name of its variant in
/// lower case, with a dash before each upper-case letter but the first,
/// and with a dash for each underscore.
pub open spec fn command_name_spec(variant: Seq<char>) -> Seq<char> {
    replaced(to_dash_name_spec(variant), '_', '-')
}

/// What a name with its meta-data holds.
pub open spec fn entry_view(entry: (String, MetaData)) -> (Seq<char>, MetaDataView) {
    (entry.0@, entry.1@)
}

/// What a list of names with their meta-data holds.
pub open spec fn entry_views(entries: Seq<(String, MetaData)>) -> Seq<(Seq<char>, MetaDataView)> {
    entries.map_values(|entry: (String, MetaData)| entry_view(entry))
}

/// The meta-data of the commands from `index` on, each under its name in
/// a configuration. A command that takes a count is left out of the
/// completion, as a hidden one is. Special commands have no entry.
pub open spec fn metadata_from(infos: Seq<VariantInfoView>, index: int) -> Seq<
    (Seq<char>, MetaDataView),
>
    decreases infos.len() - index,
{
    if index < 0 || index >= infos.len() {
        Seq::empty()
    } else {
        (match infos[index] {
            VariantInfoView::CommandInfo(command) => seq![
                (
                    command_name_spec(command.name),
                    MetaDataView {
                        completion_hidden: command.hidden || command.is_count,
                        help_text: command.description,
                        is_special_command: false,
                    },
                ),
            ],
            VariantInfoView::SpecialCommandInfo(_) => Seq::empty(),
        }) + metadata_from(infos, index + 1)
    }
}

/// The meta-data of commands or settings, each under its name in a
/// configuration.
pub fn metadata(infos: &Vec<VariantInfo>) -> (entries: Vec<(String, MetaData)>)
    ensures
        entry_views(entries@) == metadata_from(info_views(infos@), 0),
{
    let mut entries: Vec<(String, MetaData)> = Vec::new();
    let mut index: usize = 0;
    proof {
        assert(entry_views(entries@) + metadata_from(info_views(infos@), 0) =~= metadata_from(
            info_views(infos@),
            0,
        ));
    }
    while index < infos.len()
        invariant
            index <= infos.len(),
            metadata_from(info_views(infos@), 0) == entry_views(entries@) + metadata_from(
                info_views(infos@),
                index as int,
            ),
        decreases infos.len() - index,
    {
        assert(info_views(infos@)[index as int] == infos@[index as int]@);
        let ghost rest = metadata_from(info_views(infos@), index + 1);
        let ghost before = entry_views(entries@);
        match &infos[index] {
            VariantInfo::CommandInfo(command) => {
                let dashed = to_dash_name(command.name.as_str());
                let entry = (
                    replace_char(dashed.as_str(), '_', '-'),
                    MetaData {
                        completion_hidden: command.hidden || command.is_count,
                        help_text: command.description.clone(),
                        is_special_command: false,
                    },
                );
                proof {
                    assert(entry_views(entries@.push(entry)) =~= before.push(entry_view(entry)));
                    assert(before.push(entry_view(entry)) + rest =~= before + (seq![
                        entry_view(entry),
                    ] + rest));
                }
                entries.push(entry);
            },
            VariantInfo::SpecialCommandInfo(_) => {
                proof {
                    assert(before + (Seq::<(Seq<char>, MetaDataView)>::empty() + rest) =~= before
                        + rest);
                }
            },
        }
        index += 1;
    }
    proof {
        assert(entry_views(entries@) + Seq::<(Seq<char>, MetaDataView)>::empty() =~= entry_views(
            entries@,
        ));
    }
    entries
}

/// The names of the commands from `index` on, as the configuration writes
/// them: each variant's name in lower case with dashes. `with_argument`
/// says which are asked for: the commands with an argument or those
/// without, or all of them if it says nothing.
pub open spec fn command_names_from(
    infos: Seq<VariantInfoView>,
    index: int,
    with_argument: Option<bool>,
) -> Seq<Seq<char>>
    decreases infos.len() - index,
{
    if index < 0 || index >= infos.len() {
        Seq::empty()
    } else {
        (match infos[index] {
            VariantInfoView::CommandInfo(command) => if with_argument is None
                || with_argument == Some(command.has_argument) {
                seq![to_dash_name_spec(command.name)]
            } else {
                Seq::empty()
            },
            VariantInfoView::SpecialCommandInfo(_) => Seq::empty(),
        }) + command_names_from(infos, index + 1, with_argument)
    }
}

/// The names of commands in a configuration: of all of them, of those with
/// an argument, or of those without.
pub fn command_names(infos: &Vec<VariantInfo>, with_argument: Option<bool>) -> (names: Vec<String>)
    ensures
        string_views(names@) == command_names_from(info_views(infos@), 0, with_argument),
{
    let mut names: Vec<String> = Vec::new();
    let mut index: usize = 0;
    proof {
        let all = command_names_from(info_views(infos@), 0, with_argument);
        assert(string_views(names@) + all =~= all);
    }
    while index < infos.len()
        invariant
            index <= infos.len(),
            command_names_from(info_views(infos@), 0, with_argument) == string_views(names@)
                + command_names_from(info_views(infos@), index as int, with_argument),
        decreases infos.len() - index,
    {
        assert(info_views(infos@)[index as int] == infos@[index as int]@);
        let ghost rest = command_names_from(info_views(infos@), index + 1, with_argument);
        let ghost before = string_views(names@);
        let mut added = false;
        match &infos[index] {
            VariantInfo::CommandInfo(command) => {
                let wanted = match with_argument {
                    None => true,
                    Some(wanted) => wanted == command.has_argument,
                };
                if wanted {
                    let name = to_dash_name(command.name.as_str());
                    proof {
                        assert(string_views(names@.push(name)) =~= before.push(name@));
                        assert(before.push(name@) + rest =~= before + (seq![name@] + rest));
                    }
                    names.push(name);
                    added = true;
                }
            },
            VariantInfo::SpecialCommandInfo(_) => {},
        }
        proof {
            if !added {
                assert(before + (Seq::<Seq<char>>::empty() + rest) =~= before + rest);
            }
        }
        index += 1;
    }
    proof {
        assert(string_views(names@) + Seq::<Seq<char>>::empty() =~= string_views(names@));
    }
    names
}

/// The identifiers of the special commands from `index` on: of all of
/// them, or of the incremental ones alone.
pub open spec fn identifiers_from(
    infos: Seq<VariantInfoView>,
    index: int,
    incremental_only: bool,
) -> Seq<char>
    decreases infos.len() - index,
{
    if index < 0 || index >= infos.len() {
        Seq::empty()
    } else {
        (match infos[index] {
            VariantInfoView::SpecialCommandInfo(command) => if !incremental_only
                || command.incremental {
                seq![command.identifier]
            } else {
                Seq::empty()
            },
            VariantInfoView::CommandInfo(_) => Seq::empty(),
        }) + identifiers_from(infos, index + 1, incremental_only)
    }
}

/// The identifiers of special commands: of all of them, or of the
/// incremental ones alone.
pub fn special_identifiers(infos: &Vec<VariantInfo>, incremental_only: bool) -> (identifiers: Vec<
    char,
>)
    ensures
        identifiers@ == identifiers_from(info_views(infos@), 0, incremental_only),
{
    let mut identifiers: Vec<char> = Vec::new();
    let mut index: usize = 0;
    proof {
        let all = identifiers_from(info_views(infos@), 0, incremental_only);
        assert(identifiers@ + all =~= all);
    }
    while index < infos.len()
        invariant
            index <= infos.len(),
            identifiers_from(info_views(infos@), 0, incremental_only) == identifiers@
                + identifiers_from(info_views(infos@), index as int, incremental_only),
        decreases infos.len() - index,
    {
        assert(info_views(infos@)[index as int] == infos@[index as int]@);
        let ghost rest = identifiers_from(info_views(infos@), index + 1, incremental_only);
        let ghost before = identifiers@;
        let mut added = false;
        match &infos[index] {
            VariantInfo::SpecialCommandInfo(command) => {
                if !incremental_only || command.incremental {
                    proof {
                        assert(before.push(command.identifier) + rest =~= before + (seq![
                            command.identifier,
                        ] + rest));
                    }
                    identifiers.push(command.identifier);
                    added = true;
                }
            },
            VariantInfo::CommandInfo(_) => {},
        }
        proof {
            if !added {
                assert(before + (Seq::<char>::empty() + rest) =~= before + rest);
            }
        }
        index += 1;
    }
    proof {
        assert(identifiers@ + Seq::<char>::empty() =~= identifiers@);
    }
    identifiers
}

/// The choices of a setting, as the configuration writes them: the name
/// of each variant in lower case with dashes.
pub open spec fn choice_names_spec(variants: Seq<VariantView>) -> Seq<Seq<char>> {
    variants.map_values(|variant: VariantView| to_dash_name_spec(variant.name))
}

/// The choices of a setting, as the configuration writes them.
pub fn choice_names(variants: &Vec<Variant>) -> (names: Vec<String>)
    ensures
        string_views(names@) == choice_names_spec(variant_views(variants@)),
{
    let mut names: Vec<String> = Vec::new();
    let mut index: usize = 0;
    while index < variants.len()
        invariant
            index <= variants.len(),
            names@.len() == index,
            forall|i: int|
                0 <= i < index ==> (#[trigger] names@[i])@ == to_dash_name_spec(
                    variants@[i]@.name,
                ),
        decreases variants.len() - index,
    {
        names.push(to_dash_name(variants[index].name.as_str()));
        index += 1;
    }
    assert(string_views(names@) =~= choice_names_spec(variant_views(variants@)));
    names
}

/// Whether a variant is marked as the default: one of its attributes is
/// the word `default`.
pub open spec fn is_default(variant: VariantView) -> bool {
    exists|i: int|
        0 <= i < variant.attrs.len() && #[trigger] variant.attrs[i] == AttributeView::Word(
            "default"@,
        )
}

/// The place of the default among the variants before `count`: the last
/// variant that is marked as the default.
pub open spec fn default_before(variants: Seq<VariantView>, count: int) -> Option<int>
    decreases count,
{
    if count <= 0 || count > variants.len() {
        None
    } else if is_default(variants[count - 1]) {
        Some(count - 1)
    } else {
        default_before(variants, count - 1)
    }
}

/// Whether a variant is marked as the default.
pub fn marked_default(variant: &Variant) -> (marked: bool)
    ensures
        marked == is_default(variant@),
{
    let mut index: usize = 0;
    while index < variant.attrs.len()
        invariant
            index <= variant.attrs.len(),
            forall|i: int|
                0 <= i < index ==> variant@.attrs[i] != AttributeView::Word("default"@),
        decreases variant.attrs.len() - index,
    {
        assert(variant@.attrs[index as int] == variant.attrs@[index as int]@);
        match &variant.attrs[index] {
            Attribute::Word(word) => {
                if same_text(word.as_str(), "default") {
                    return true;
                }
            },
            _ => {},
        }
        index += 1;
    }
    false
}

/// The place of the variant that is the default of a setting, if one is
/// marked: the last one that is.
pub fn default_variant(variants: &Vec<Variant>) -> (default: Option<usize>)
    ensures
        match default {
            Some(index) => default_before(
                variant_views(variants@),
                variants@.len() as int,
            ) == Some(index as int),
            None => default_before(variant_views(variants@), variants@.len() as int) is None,
        },
{
    let mut default: Option<usize> = None;
    let mut index: usize = 0;
    while index < variants.len()
        invariant
            index <= variants.len(),
            match default {
                Some(found) => default_before(variant_views(variants@), index as int) == Some(
                    found as int,
                ),
                None => default_before(variant_views(variants@), index as int) is None,
            },
        decreases variants.len() - index,
    {
        assert(variant_views(variants@)[index as int] == variants@[index as int]@);
        if marked_default(&variants[index]) {
            default = Some(index);
        }
        index += 1;
    }
    default
}

/// Whether a type is none of those that a value holds as it is: `bool`,
/// `f64`, `i64` and `String`.
pub open spec fn is_custom_type_spec(name: Seq<char>) -> bool {
    name != "bool"@ && name != "f64"@ && name != "i64"@ && name != "String"@
}

/// Checks whether a type is a custom type, such as an enum.
pub fn is_custom_type(ident: &str) -> (custom: bool)
    ensures
        custom == is_custom_type_spec(ident@),
{
    !(same_text(ident, "bool") || same_text(ident, "f64") || same_text(ident, "i64") || same_text(
        ident,
        "String",
    ))
}

/// The variant of `Value` that holds a type: a custom type is held as a
/// string.
pub open spec fn to_value_type_spec(name: Seq<char>) -> Seq<char> {
    if name == "bool"@ {
        "Bool"@
    } else if name == "f64"@ {
        "Float"@
    } else if name == "i64"@ {
        "Int"@
    } else {
        "Str"@
    }
}

/// Converts a type to the variant of `Value` that holds it.
pub fn to_value_type(ident: &str) -> (variant: &'static str)
    ensures
        variant@ == to_value_type_spec(ident@),
{
    if same_text(ident, "bool") {
        "Bool"
    } else if same_text(ident, "f64") {
        "Float"
    } else if same_text(ident, "i64") {
        "Int"
    } else {
        "Str"
    }
}

/// The name under which an error speaks of a variant of `Value`.
pub open spec fn value_type_to_type_spec(variant: Seq<char>) -> Option<Seq<char>> {
    if variant == "Bool"@ {
        Some("bool"@)
    } else if variant == "Float"@ {
        Some("float"@)
    } else if variant == "Int"@ {
        Some("integer"@)
    } else if variant == "Str"@ {
        Some("string"@)
    } else {
        None
    }
}

/// Converts a variant of `Value` to the name under which an error speaks
/// of it. Any other word has none.
pub fn value_type_to_type(ident: &str) -> (name: Option<&'static str>)
    ensures
        match name {
            Some(name) => value_type_to_type_spec(ident@) == Some(name@),
            None => value_type_to_type_spec(ident@) is None,
        },
{
    if same_text(ident, "Bool") {
        Some("bool")
    } else if same_text(ident, "Float") {
        Some("float")
    } else if same_text(ident, "Int") {
        Some("integer")
    } else if same_text(ident, "Str") {
        Some("string")
    } else {
        None
    }
}

/// Whether a field is left out of the completion: one of its attributes
/// is `completion`, with `hidden` as its first argument.
pub open spec fn is_hidden(field: FieldView) -> bool {
    exists|i: int|
        0 <= i < field.attrs.len() && hides(#[trigger] field.attrs[i])
}

/// Whether an attribute is `completion`, with `hidden` as its first
/// argument.
pub open spec fn hides(attribute: AttributeView) -> bool {
    attribute matches AttributeView::List { name, arguments } && name == "completion"@
        && arguments.len() > 0 && arguments[0] == ArgumentView::Word("hidden"@)
}

/// Whether a field is left out of the completion.
pub fn hidden_field(field: &Field) -> (hidden: bool)
    ensures
        hidden == is_hidden(field@),
{
    let mut index: usize = 0;
    while index < field.attrs.len()
        invariant
            index <= field.attrs.len(),
            forall|i: int| 0 <= i < index ==> !hides(field@.attrs[i]),
        decreases field.attrs.len() - index,
    {
        assert(field@.attrs[index as int] == field.attrs@[index as int]@);
        match &field.attrs[index] {
            Attribute::List { name, arguments } => {
                if same_text(name.as_str(), "completion") && arguments.len() > 0 {
                    assert(crate::attributes::argument_views(arguments@)[0] == arguments@[0]@);
                    match &arguments[0] {
                        Argument::Word(word) => {
                            if same_text(word.as_str(), "hidden") {
                                return true;
                            }
                        },
                        _ => {},
                    }
                }
            },
            _ => {},
        }
        index += 1;
    }
    false
}

/// What a command is made from when it is created.
#[derive(Clone, Copy, Debug, PartialEq, Eq)]
pub enum Creation {
    /// From the count that goes before the command.
    Count,
    /// From the text behind the command's name.
    Argument,
    /// From nothing: the command has no field.
    Plain,
}

/// What a command is made from: from the count, if it takes one; else
/// from its argument, if it has one.
pub open spec fn creation_spec(command: CommandView) -> Creation {
    if command.is_count {
        Creation::Count
    } else if command.has_argument {
        Creation::Argument
    } else {
        Creation::Plain
    }
}

/// Tells what a command is made from.
pub fn creation_of(command: &Command) -> (creation: Creation)
    ensures
        creation == creation_spec(command@),
{
    if command.is_count {
        Creation::Count
    } else if command.has_argument {
        Creation::Argument
    } else {
        Creation::Plain
    }
}

/// Whether a variant of `Value` holds a text: a string does, and so does a
/// floating-point number.
pub open spec fn holds_text_spec(variant: Seq<char>) -> bool {
    variant == "Str"@ || variant == "Float"@
}

/// Tells whether a variant of `Value` holds a text.
pub fn holds_text(variant: &str) -> (text: bool)
    ensures
        text == holds_text_spec(variant@),
{
    same_text(variant, "Str") || same_text(variant, "Float")
}

} // verus!
