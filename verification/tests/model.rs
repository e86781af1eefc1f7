use mg_settings::attributes::{
    collect_and_transform_field, collect_and_transform_variant, collect_attrs, same_text,
    special_command_of, transform_enum, Argument, Attribute, AttributeError, Command, Data, Field,
    Fields, SpecialCommand, Variant, VariantInfo,
};
use mg_settings::derive::{
    choice_names, command_names, creation_of, default_variant, hidden_field, holds_text,
    is_custom_type, marked_default, metadata, replace_char, setting_name, special_identifiers,
    to_value_type, value_type_to_type, Creation,
};
use mg_settings::naming::{camel_case, capitals_of, dash_case, lowercases_of, uppercases_of};
use mg_settings::parser::{
    included_file, included_files, keyword, resolve_command, without_argument, Keyword,
};
use mg_settings::string::{
    find_middle, find_run, find_runs, has_word, is_ident_by, letters_of, letters_or_numbers_of,
    replace_first, spaces_of,
};
use mg_settings::tokens::{classes_of, CharClass, InputTokens, Token};
use mg_settings::value::{classified, read_digits};
use mg_settings::Value;

fn word(text: &str) -> Argument {
    Argument::Word(text.to_string())
}

fn pair(name: &str, text: Option<&str>) -> Argument {
    Argument::NameValue { name: name.to_string(), text: text.map(|text| text.to_string()) }
}

fn list(name: &str, arguments: Vec<Argument>) -> Attribute {
    Attribute::List { name: name.to_string(), arguments }
}

fn flag(name: &str) -> Attribute {
    Attribute::Word(name.to_string())
}

fn variant(name: &str, fields: Fields, attrs: Vec<Attribute>) -> Variant {
    Variant { name: name.to_string(), fields, attrs }
}

fn field(name: &str, type_path: &str, attrs: Vec<Attribute>) -> Field {
    Field { name: Some(name.to_string()), type_path: Some(type_path.to_string()), attrs }
}

struct Said {
    hidden: bool,
    description: String,
    is_count: bool,
    special: Result<Option<VariantInfo>, AttributeError>,
}

fn collect(attrs: Vec<Attribute>) -> Said {
    let mut hidden = false;
    let mut description = String::new();
    let mut is_count = false;
    let special = collect_attrs("Name", &attrs, &mut hidden, &mut description, &mut is_count);
    Said { hidden, description, is_count, special }
}

fn command_of(info: VariantInfo) -> Command {
    match info {
        VariantInfo::CommandInfo(command) => command,
        VariantInfo::SpecialCommandInfo(_) => panic!("a special command"),
    }
}

fn special_of(info: VariantInfo) -> SpecialCommand {
    match info {
        VariantInfo::SpecialCommandInfo(command) => command,
        VariantInfo::CommandInfo(_) => panic!("a plain command"),
    }
}

#[test]
fn attributes_are_collected() {
    let said = collect(vec![]);
    assert!(!said.hidden && !said.is_count && said.description.is_empty());
    assert!(matches!(said.special, Ok(None)));
    let said = collect(vec![
        list("completion", vec![word("hidden")]),
        Attribute::Other,
        list("help", vec![pair("text", Some("Show the text"))]),
        flag("count"),
        list("unknown", vec![]),
    ]);
    assert!(said.hidden && said.is_count);
    assert_eq!(said.description, "Show the text");
    assert!(matches!(said.special, Ok(None)));
    let said = collect(vec![
        list("completion", vec![word("shown"), word("hidden")]),
        list("help", vec![pair("other", Some("no")), pair("text", Some("no"))]),
        list("help", vec![pair("text", None)]),
        flag("counted"),
    ]);
    assert!(!said.hidden && !said.is_count && said.description.is_empty());
    let said = collect(vec![
        list("help", vec![pair("text", Some("first"))]),
        list("help", vec![pair("text", Some("second"))]),
    ]);
    assert_eq!(said.description, "second");
}

#[test]
fn attributes_without_arguments_are_errors() {
    let said = collect(vec![flag("count"), list("completion", vec![]), list("help", vec![pair("text", Some("late"))])]);
    assert!(matches!(said.special, Err(AttributeError::MissingArgument)));
    assert!(said.is_count && said.description.is_empty());
    let said = collect(vec![list("help", vec![])]);
    assert!(matches!(said.special, Err(AttributeError::MissingArgument)));
}

#[test]
fn special_commands_are_collected() {
    let said = collect(vec![
        flag("count"),
        list("special_command", vec![word("incremental"), pair("identifier", Some("/"))]),
        list("completion", vec![word("hidden")]),
    ]);
    assert!(said.is_count && !said.hidden);
    let special = match said.special {
        Ok(Some(info)) => special_of(info),
        _ => panic!("no special command"),
    };
    assert_eq!(special.identifier, '/');
    assert!(special.incremental);
    assert_eq!(special.name, "Name");
    assert_eq!(special_command_of(&vec![pair("identifier", Some("?x"))]), Ok((false, '?')));
    assert_eq!(
        special_command_of(&vec![
            pair("identifier", Some("a")),
            Argument::Literal,
            word("other"),
            pair("identifier", None),
            pair("name", Some("n")),
            pair("identifier", Some("b")),
        ]),
        Ok((false, 'b'))
    );
    assert_eq!(special_command_of(&vec![]), Err(AttributeError::MissingIdentifier));
    assert_eq!(special_command_of(&vec![word("incremental")]), Err(AttributeError::MissingIdentifier));
    assert_eq!(
        special_command_of(&vec![pair("identifier", Some(""))]),
        Err(AttributeError::EmptyIdentifier)
    );
    assert_eq!(
        special_command_of(&vec![Argument::List("nested".to_string()), pair("identifier", Some(""))]),
        Err(AttributeError::UnexpectedArgument)
    );
}

#[test]
fn attribute_error_messages() {
    assert_eq!(AttributeError::MissingArgument.to_string(), "attribute without argument");
    assert_eq!(
        AttributeError::UnexpectedArgument.to_string(),
        "Unexpected argument, expecting `incremental`, or `identifier=\"c\"`"
    );
    assert_eq!(AttributeError::EmptyIdentifier.to_string(), "identifier should be one character");
    assert_eq!(
        AttributeError::MissingIdentifier.to_string(),
        "identifier is required in #[special_command] attribute"
    );
    assert_eq!(AttributeError::MissingField.to_string(), "variant without field");
    assert_eq!(AttributeError::UnnamedField.to_string(), "field without name");
}

#[test]
fn variants_and_fields_are_read() {
    let open = variant("Open", Fields::Unnamed(vec![Some("String".to_string())]), vec![]);
    let command = command_of(collect_and_transform_variant(&open).unwrap());
    assert_eq!(command.name, "Open");
    assert!(command.has_argument && !command.is_optional && !command.hidden && !command.is_count);
    assert_eq!(command.description, "");
    let scroll = variant(
        "Scroll",
        Fields::Unnamed(vec![Some("Option".to_string()), None]),
        vec![flag("count"), list("help", vec![pair("text", Some("Scroll down"))])],
    );
    let command = command_of(collect_and_transform_variant(&scroll).unwrap());
    assert!(command.has_argument && command.is_optional && command.is_count);
    assert_eq!(command.description, "Scroll down");
    let quit = variant("Quit", Fields::Unit, vec![list("completion", vec![word("hidden")])]);
    let command = command_of(collect_and_transform_variant(&quit).unwrap());
    assert!(!command.has_argument && !command.is_optional && command.hidden);
    let named = variant("Move", Fields::Named, vec![]);
    assert!(command_of(collect_and_transform_variant(&named).unwrap()).has_argument);
    let other = variant("Other", Fields::Unnamed(vec![None]), vec![]);
    assert!(!command_of(collect_and_transform_variant(&other).unwrap()).is_optional);
    let empty = variant("Empty", Fields::Unnamed(vec![]), vec![]);
    assert!(matches!(collect_and_transform_variant(&empty), Err(AttributeError::MissingField)));
    let search = variant(
        "Search",
        Fields::Unnamed(vec![Some("String".to_string())]),
        vec![list("special_command", vec![pair("identifier", Some("/"))])],
    );
    let special = special_of(collect_and_transform_variant(&search).unwrap());
    assert_eq!((special.identifier, special.incremental, special.name.as_str()), ('/', false, "Search"));
    let size = field("font_size", "i64", vec![list("help", vec![pair("text", Some("The size"))])]);
    let command = command_of(collect_and_transform_field(&size).unwrap());
    assert_eq!(command.name, "font_size");
    assert_eq!(command.description, "The size");
    assert!(!command.has_argument);
    let unnamed = Field { name: None, type_path: None, attrs: vec![] };
    assert!(matches!(collect_and_transform_field(&unnamed), Err(AttributeError::UnnamedField)));
}

fn example_infos() -> Vec<VariantInfo> {
    transform_enum(&Data::Enum(vec![
        variant("WinOpen", Fields::Unnamed(vec![Some("String".to_string())]), vec![]),
        variant(
            "Search",
            Fields::Unnamed(vec![Some("String".to_string())]),
            vec![list("special_command", vec![word("incremental"), pair("identifier", Some("/"))])],
        ),
        variant("Quit", Fields::Unit, vec![list("help", vec![pair("text", Some("Leave"))])]),
        variant("Scroll_Up", Fields::Unnamed(vec![Some("Option".to_string())]), vec![flag("count")]),
        variant(
            "BackwardSearch",
            Fields::Unnamed(vec![Some("String".to_string())]),
            vec![list("special_command", vec![pair("identifier", Some("?"))])],
        ),
    ]))
    .unwrap()
}

#[test]
fn types_are_transformed() {
    let infos = example_infos();
    assert_eq!(infos.len(), 5);
    assert!(matches!(infos[0], VariantInfo::CommandInfo(_)));
    assert!(matches!(infos[1], VariantInfo::SpecialCommandInfo(_)));
    let fields = transform_enum(&Data::Struct {
        named: true,
        fields: vec![field("a", "bool", vec![]), field("b_c", "String", vec![flag("count")])],
    })
    .unwrap();
    assert_eq!(fields.len(), 2);
    assert!(command_of(fields.into_iter().nth(1).unwrap()).is_count);
    assert!(transform_enum(&Data::Union).unwrap().is_empty());
    assert!(transform_enum(&Data::Enum(vec![])).unwrap().is_empty());
    let failing = Data::Enum(vec![
        variant("A", Fields::Unit, vec![]),
        variant("B", Fields::Unit, vec![list("help", vec![])]),
        variant("C", Fields::Unnamed(vec![]), vec![]),
    ]);
    assert!(matches!(transform_enum(&failing), Err(AttributeError::MissingArgument)));
    let failing = Data::Struct {
        named: false,
        fields: vec![Field { name: None, type_path: None, attrs: vec![] }],
    };
    assert!(matches!(transform_enum(&failing), Err(AttributeError::UnnamedField)));
}

#[test]
fn names_and_metadata_of_commands() {
    let infos = example_infos();
    assert_eq!(command_names(&infos, None), vec!["win-open", "quit", "scroll_-up"]);
    assert_eq!(command_names(&infos, Some(true)), vec!["win-open", "scroll_-up"]);
    assert_eq!(command_names(&infos, Some(false)), vec!["quit"]);
    assert_eq!(special_identifiers(&infos, false), vec!['/', '?']);
    assert_eq!(special_identifiers(&infos, true), vec!['/']);
    let entries = metadata(&infos);
    let seen: Vec<(String, bool, String, bool)> = entries
        .into_iter()
        .map(|(name, data)| (name, data.completion_hidden, data.help_text, data.is_special_command))
        .collect();
    assert_eq!(
        seen,
        vec![
            ("win-open".to_string(), false, String::new(), false),
            ("quit".to_string(), false, "Leave".to_string(), false),
            ("scroll--up".to_string(), true, String::new(), false),
        ]
    );
    assert!(command_names(&vec![], None).is_empty());
    assert!(metadata(&vec![]).is_empty());
}

#[test]
fn choices_of_a_setting() {
    let variants = vec![
        variant("Always", Fields::Unit, vec![]),
        variant("NeverEver", Fields::Unit, vec![Attribute::Other, flag("default")]),
        variant("Sometimes", Fields::Unit, vec![list("default", vec![])]),
    ];
    assert_eq!(choice_names(&variants), vec!["always", "never-ever", "sometimes"]);
    assert_eq!(default_variant(&variants), Some(1));
    assert!(!marked_default(&variants[0]));
    assert!(marked_default(&variants[1]));
    assert!(!marked_default(&variants[2]));
    let two = vec![
        variant("A", Fields::Unit, vec![flag("default")]),
        variant("B", Fields::Unit, vec![flag("default")]),
        variant("C", Fields::Unit, vec![]),
    ];
    assert_eq!(default_variant(&two), Some(1));
    assert_eq!(default_variant(&vec![]), None);
    assert_eq!(default_variant(&vec![variant("A", Fields::Unit, vec![])]), None);
}

#[test]
fn types_of_settings() {
    for plain in ["bool", "f64", "i64", "String"] {
        assert!(!is_custom_type(plain));
    }
    for custom in ["Mode", "u32", "string", ""] {
        assert!(is_custom_type(custom));
    }
    assert_eq!(to_value_type("bool"), "Bool");
    assert_eq!(to_value_type("f64"), "Float");
    assert_eq!(to_value_type("i64"), "Int");
    assert_eq!(to_value_type("String"), "Str");
    assert_eq!(to_value_type("Mode"), "Str");
    assert_eq!(value_type_to_type("Bool"), Some("bool"));
    assert_eq!(value_type_to_type("Float"), Some("float"));
    assert_eq!(value_type_to_type("Int"), Some("integer"));
    assert_eq!(value_type_to_type("Str"), Some("string"));
    assert_eq!(value_type_to_type("bool"), None);
    assert_eq!(setting_name("font_size_max"), "font-size-max");
    assert_eq!(setting_name("plain"), "plain");
    assert_eq!(replace_char("a.b.c", '.', '/'), "a/b/c");
    assert_eq!(replace_char("", '.', '/'), "");
    assert!(hidden_field(&field("a", "bool", vec![flag("x"), list("completion", vec![word("hidden")])])));
    assert!(!hidden_field(&field("a", "bool", vec![list("completion", vec![])])));
    assert!(!hidden_field(&field("a", "bool", vec![list("completion", vec![word("shown"), word("hidden")])])));
    assert!(!hidden_field(&field("a", "bool", vec![list("help", vec![word("hidden")])])));
    assert!(same_text("abc", "abc"));
    assert!(!same_text("abc", "abd"));
    assert!(!same_text("abc", "ab"));
}

#[test]
fn runs_between_marks() {
    let marks = [true, false, false, true, true, false];
    assert_eq!(find_run(&marks, 0), Some((1, 3)));
    assert_eq!(find_run(&marks, 2), Some((2, 3)));
    assert_eq!(find_run(&marks, 3), Some((5, 6)));
    assert_eq!(find_run(&marks, 6), None);
    assert_eq!(find_run(&[true, true], 0), None);
    assert_eq!(find_run(&[], 0), None);
    assert_eq!(find_runs(&marks, 2), Some(vec![(1, 3), (5, 6)]));
    assert_eq!(find_runs(&marks, 1), Some(vec![(1, 3)]));
    assert_eq!(find_runs(&marks, 0), Some(vec![]));
    assert_eq!(find_runs(&marks, 3), None);
    assert_eq!(find_middle(&marks), (1, 6));
    assert_eq!(find_middle(&[true, false, true, false, true, true]), (1, 4));
    assert_eq!(find_middle(&[true, true]), (0, 0));
    assert_eq!(find_middle(&[]), (0, 0));
    assert_eq!(find_middle(&[false]), (0, 1));
    let text: Vec<char> = " a\tb\u{2003}".chars().collect();
    assert_eq!(spaces_of(&text), vec![true, false, true, false, true]);
    assert!(has_word(" a "));
    assert!(!has_word(" \t "));
}

#[test]
fn identifiers_by_their_marks() {
    let text: Vec<char> = "a-1_".chars().collect();
    assert_eq!(letters_of(&text), vec![true, false, false, false]);
    assert_eq!(letters_or_numbers_of(&text), vec![true, false, true, false]);
    assert!(is_ident_by(&text, &[true, false, false, false], &[true, false, true, false]));
    assert!(!is_ident_by(&text, &[false, false, false, false], &[true, false, true, false]));
    assert!(!is_ident_by(&text, &[true, false, false, false], &[true, false, false, false]));
    assert!(!is_ident_by(&[], &[], &[]));
}

#[test]
fn names_by_their_cases() {
    let text: Vec<char> = "a_b\u{df}".chars().collect();
    let upper = uppercases_of(&text);
    assert_eq!(upper, vec!["A", "_", "B", "SS"]);
    assert_eq!(lowercases_of(&['A', 'b', '\u{130}']), vec!["a", "b", "i\u{307}"]);
    assert_eq!(capitals_of(&['A', 'b', '1', '\u{c9}']), vec![true, false, false, true]);
    assert_eq!(camel_case(&text, &upper), "aB\u{df}");
    let marked = vec!["x".to_string(), "y".to_string(), "z".to_string(), "w".to_string()];
    assert_eq!(camel_case(&text, &marked), "az\u{df}");
    assert_eq!(camel_case(&[], &vec![]), "");
    let lower = vec!["w".to_string(), "in".to_string(), "o".to_string()];
    assert_eq!(dash_case(&lower, &[true, false, true]), "win-o");
    assert_eq!(dash_case(&lower, &[false, true, true]), "w-in-o");
    assert_eq!(dash_case(&vec![], &[]), "");
}

#[test]
fn first_words_are_told_apart() {
    let modes = vec!["n", "i"];
    let kind = |text: &str| {
        let chars: Vec<char> = text.chars().collect();
        match keyword(&chars, &modes) {
            Keyword::Comment => "comment".to_string(),
            Keyword::Include => "include".to_string(),
            Keyword::Assign => "set".to_string(),
            Keyword::Mapping(mode) => format!("map {}", mode),
            Keyword::Unmapping(mode) => format!("unmap {}", mode),
            Keyword::Command => "command".to_string(),
        }
    };
    assert_eq!(kind("#set"), "comment");
    assert_eq!(kind("include"), "include");
    assert_eq!(kind("set"), "set");
    assert_eq!(kind("nmap"), "map n");
    assert_eq!(kind("imap"), "map i");
    assert_eq!(kind("iunmap"), "unmap i");
    assert_eq!(kind("map"), "command");
    assert_eq!(kind("cmap"), "command");
    assert_eq!(kind("Set"), "command");
    assert_eq!(kind("includes"), "command");
}

#[test]
fn commands_are_resolved_from_the_answer() {
    let apps = vec!["next"];
    let next: Vec<char> = "next".chars().collect();
    let other: Vec<char> = "other".chars().collect();
    assert!(matches!(
        resolve_command(Ok(7), &apps, &next, 2, 3),
        Ok(mg_settings::Command::Custom(7))
    ));
    match resolve_command::<u8>(Err("no".to_string()), &apps, &next, 2, 3) {
        Ok(mg_settings::Command::App(name)) => assert_eq!(name, "next"),
        _ => panic!("not an application command"),
    }
    match resolve_command::<u8>(Err("no".to_string()), &apps, &other, 2, 3) {
        Err(error) => assert_eq!(
            error.to_string(),
            "unexpected other, expecting command or comment on line 3, column 3"
        ),
        _ => panic!("resolved"),
    }
}

#[test]
fn files_that_an_input_names() {
    assert_eq!(
        included_files(b"include a.conf\nset b = 1\n  include   b.conf  extra\ninclude\n#include c\ninclude \xff\ninclude a.conf"),
        vec!["a.conf", "b.conf", "a.conf"]
    );
    assert!(included_files(b"").is_empty());
    let line: Vec<char> = "include  file".chars().collect();
    assert_eq!(included_file(&line), Some("file".to_string()));
    let line: Vec<char> = "included file".chars().collect();
    assert_eq!(included_file(&line), None);
    let line: Vec<char> = "include   ".chars().collect();
    assert_eq!(included_file(&line), None);
}

#[test]
fn texts_are_classified() {
    let value = |text: &str| {
        let chars: Vec<char> = text.chars().collect();
        classified(&chars)
    };
    assert_eq!(value("123"), Value::Int(123));
    assert_eq!(value("123.4"), Value::Float("123.4".to_string()));
    assert_eq!(value("true"), Value::Bool(true));
    assert_eq!(value("false"), Value::Bool(false));
    assert_eq!(value("12.3.4"), Value::Str("12.3.4".to_string()));
    assert_eq!(value(" 1"), Value::Str(" 1".to_string()));
    let digits = read_digits(&['1', '2']);
    assert!(digits.all_digits && digits.decimal);
    assert_eq!(digits.value, Some(12));
    let digits = read_digits(&['1', '.']);
    assert!(!digits.all_digits && digits.decimal);
    assert_eq!(digits.value, None);
    let digits = read_digits(&['.']);
    assert!(!digits.decimal);
    let digits = read_digits(&['1', 'a']);
    assert!(!digits.all_digits && !digits.decimal);
}

#[test]
fn tokenizer_reads_the_kinds_it_is_given() {
    let chars: Vec<char> = "ab 1".chars().collect();
    let kinds = classes_of(&chars);
    assert_eq!(
        kinds[0],
        CharClass { alphabetic: true, alphanumeric: true, numeric: false, whitespace: false }
    );
    assert_eq!(
        kinds[2],
        CharClass { alphabetic: false, alphanumeric: false, numeric: false, whitespace: true }
    );
    assert_eq!(
        kinds[3],
        CharClass { alphabetic: false, alphanumeric: true, numeric: true, whitespace: false }
    );
    assert!(InputTokens::new(chars.clone(), vec![]).is_none());
    let letter = CharClass { alphabetic: true, alphanumeric: true, numeric: false, whitespace: false };
    let space = CharClass { alphabetic: false, alphanumeric: false, numeric: false, whitespace: true };
    let mut tokens = InputTokens::new(chars, vec![letter, space, letter, letter]).unwrap();
    let mut seen = vec![];
    for _ in 0..3 {
        match tokens.next() {
            Some(Ok(token)) => match token.node {
                Token::Str(text) => seen.push(format!("{}@{}", text, token.pos.column)),
                Token::Eof => seen.push("eof".to_string()),
                _ => seen.push("other".to_string()),
            },
            _ => seen.push("error".to_string()),
        }
    }
    assert_eq!(seen, vec!["a@1", " 1@3", "eof"]);
}

#[test]
fn argument_of_a_command_alone_on_its_line() {
    assert_eq!(without_argument(Ok(false), 4, 2), Ok(String::new()));
    assert_eq!(without_argument(Err("unknown".to_string()), 4, 2), Ok(String::new()));
    match without_argument(Ok(true), 4, 2) {
        Err(error) => assert_eq!(
            error.to_string(),
            "unexpected <end of line>, expecting command arguments on line 2, column 5"
        ),
        Ok(_) => panic!("an argument"),
    }
}

#[test]
fn first_character_is_replaced() {
    assert_eq!(replace_first(&['a', 'b', 'c'], "XY"), vec!['X', 'Y', 'b', 'c']);
    assert_eq!(replace_first(&['a'], ""), Vec::<char>::new());
    assert_eq!(replace_first(&[], "XY"), Vec::<char>::new());
}

#[test]
fn what_commands_are_made_from() {
    let mut command = Command::new();
    assert_eq!(creation_of(&command), Creation::Plain);
    command.has_argument = true;
    assert_eq!(creation_of(&command), Creation::Argument);
    command.is_count = true;
    assert_eq!(creation_of(&command), Creation::Count);
    command.has_argument = false;
    assert_eq!(creation_of(&command), Creation::Count);
    assert!(holds_text("Str") && holds_text("Float"));
    assert!(!holds_text("Int") && !holds_text("Bool") && !holds_text("str"));
}
