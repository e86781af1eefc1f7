use mg_settings::errors::{Error, ErrorType, ParseError, SettingError};
use mg_settings::key::{key_constructor, parse_keys, ConstructorKeys, Key};
use mg_settings::naming::{snake_to_camel, to_dash_name};
use mg_settings::parser::Parser;
use mg_settings::position::{Pos, WithPos};
use mg_settings::string::{check_ident, maybe_word, word, words, StrExt, Word};
use mg_settings::tokens::{tokenize, Token};
use mg_settings::{Command, CompletionValues, Config, EnumFromStr, ParseResult, Value};

#[derive(Debug, PartialEq)]
enum Cmd {
    Open(String),
    Scroll(Option<u32>),
    Quit,
}

impl EnumFromStr for Cmd {
    fn create(variant: &str, argument: &str, prefix: Option<u32>) -> Result<Self, String> {
        match variant {
            "open" => Ok(Cmd::Open(argument.to_string())),
            "scroll" => Ok(Cmd::Scroll(prefix)),
            "quit" => Ok(Cmd::Quit),
            _ => Err(format!("unknown command {}", variant)),
        }
    }

    fn has_argument(variant: &str) -> Result<bool, String> {
        match variant {
            "open" => Ok(true),
            "scroll" | "quit" => Ok(false),
            _ => Err(format!("unknown command {}", variant)),
        }
    }
}

fn parser() -> Parser<Cmd> {
    Parser::new_with_config(Config {
        application_commands: vec!["complete-next"],
        mapping_modes: vec!["n", "i", "c"],
    })
}

fn parse(input: &str) -> ParseResult<Cmd> {
    parser().parse(input.as_bytes(), None)
}

fn messages(errors: &[Error]) -> Vec<String> {
    errors.iter().map(|error| error.to_string()).collect()
}

fn setting(name: &str, value: Value) -> Command<Cmd> {
    Command::Setting(name.to_string(), value)
}

fn mapping(action: &str, keys: Vec<Key>) -> Command<Cmd> {
    Command::Mapping { action: action.to_string(), keys, mode: "n".to_string() }
}

fn control(key: Key) -> Key {
    Key::Control(Box::new(key))
}

fn alt(key: Key) -> Key {
    Key::Alt(Box::new(key))
}

fn shift(key: Key) -> Key {
    Key::Shift(Box::new(key))
}

#[test]
fn valid_set_lines_give_one_command() {
    for name in ["a", "option1", "with-dash", "with_underscore", "é1"] {
        for (text, value) in [("1", Value::Int(1)), ("yes", Value::Str("yes".to_string()))] {
            let result = parse(&format!("set {} = {}", name, text));
            assert_eq!(result.commands, vec![setting(name, value)]);
            assert!(result.errors.is_empty());
        }
    }
}

#[test]
fn set_line_needs_an_identifier() {
    for name in ["1a", "-a", "_a", "a.b", "a=b"] {
        let result = parse(&format!("set {} = 1", name));
        assert!(result.commands.is_empty());
        assert_eq!(
            messages(&result.errors),
            vec![format!("unexpected {}, expecting identifier on line 1, column 5", name)]
        );
    }
}

#[test]
fn set_line_needs_the_operator_alone() {
    let result = parse("set a =5");
    assert!(result.commands.is_empty());
    assert_eq!(messages(&result.errors), vec!["unexpected =5, expecting = on line 1, column 7"]);
    let result = parse("set a");
    assert_eq!(
        messages(&result.errors),
        vec!["unexpected <end of line>, expecting = on line 1, column 6"]
    );
    let result = parse("set  ");
    assert_eq!(
        messages(&result.errors),
        vec!["unexpected <end of line>, expecting = on line 1, column 6"]
    );
    let result = parse("set ");
    assert_eq!(
        messages(&result.errors),
        vec!["unexpected <end of line>, expecting command arguments on line 1, column 4"]
    );
}

#[test]
fn blank_lines_and_comments_give_nothing() {
    for input in ["", " ", "\t  ", "#", "# comment", "   #comment", "#set a = 1", "\n\n", "# a\n  \n#b\n"] {
        let result = parse(input);
        assert!(result.commands.is_empty());
        assert!(result.errors.is_empty());
    }
}

#[test]
fn blank_line_or_comment_alone_is_no_command() {
    for input in [" ", "\t  ", "#", "# comment", "   #comment"] {
        let result = parser().parse_line(input, None);
        assert!(result.commands.is_empty());
        assert_eq!(
            messages(&result.errors),
            vec!["unexpected comment or <end of line>, expecting command on line 1, column 1"]
        );
        match &result.errors[0] {
            Error::Parse(error) => {
                assert_eq!(error.typ, ErrorType::NoCommand);
                assert_eq!(error.pos(), Pos::new(1, 1));
            }
            _ => panic!("not a parse error"),
        }
    }
}

#[test]
fn empty_line_is_no_command_at_the_line_read_last() {
    let mut parser = parser();
    let result = parser.parse_line("", None);
    assert_eq!(
        messages(&result.errors),
        vec!["unexpected comment or <end of line>, expecting command on line 1, column 1"]
    );
    parser.parse(b"quit\nquit\nquit", None);
    assert_eq!(parser.line_number(), 3);
    let result = parser.parse_line("", None);
    assert_eq!(
        messages(&result.errors),
        vec!["unexpected comment or <end of line>, expecting command on line 3, column 1"]
    );
}

#[test]
fn parse_line_with_a_command_gives_no_error() {
    let result = parser().parse_line("quit", None);
    assert_eq!(result.commands, vec![Command::Custom(Cmd::Quit)]);
    assert!(result.errors.is_empty());
    let result = parser().parse_line("mmap o :open", None);
    assert!(result.commands.is_empty());
    assert_eq!(
        messages(&result.errors),
        vec!["unexpected mmap, expecting command or comment on line 1, column 1"]
    );
}

fn special_keys() -> Vec<Key> {
    vec![
        Key::Backspace, Key::Delete, Key::Down, Key::End, Key::Enter, Key::Escape, Key::F1,
        Key::F2, Key::F3, Key::F4, Key::F5, Key::F6, Key::F7, Key::F8, Key::F9, Key::F10,
        Key::F11, Key::F12, Key::Home, Key::Insert, Key::Left, Key::PageDown, Key::PageUp,
        Key::Right, Key::Space, Key::Tab, Key::Up,
    ]
}

fn modifier_sets() -> Vec<ConstructorKeys> {
    let mut sets = vec![];
    for control in [false, true] {
        for alt in [false, true] {
            for shift in [false, true] {
                sets.push(ConstructorKeys { alt, control, shift });
            }
        }
    }
    sets
}

#[test]
fn keys_round_trip() {
    let mut bases = special_keys();
    for letter in ['a', 'z', 'A', 'Z', 'm'] {
        bases.push(Key::Char(letter));
    }
    let mut count = 0;
    for base in &bases {
        for modifiers in modifier_sets() {
            let key = key_constructor(base.clone(), &modifiers);
            let text = key.to_string();
            assert_eq!(parse_keys(&text, 1, 1).ok(), Some(vec![key.clone()]), "{}", text);
            count += 1;
        }
    }
    assert_eq!(count, 32 * 8);
    for character in "09=+-;!\"'#%&()*,./>?@[\\]^_{|}~çÇéÉàÀèÈ$".chars() {
        let key = Key::Char(character);
        assert_eq!(key.to_string(), character.to_string());
        assert_eq!(parse_keys(&key.to_string(), 1, 1).ok(), Some(vec![key]));
    }
}

#[test]
fn keys_are_written_as_in_a_configuration() {
    assert_eq!(Key::Char('a').to_string(), "a");
    assert_eq!(Key::Tab.to_string(), "<Tab>");
    assert_eq!(Key::Escape.to_string(), "<Esc>");
    assert_eq!(control(Key::Char('a')).to_string(), "<C-a>");
    assert_eq!(control(alt(shift(Key::F12))).to_string(), "<C-A-S-F12>");
    assert_eq!(alt(control(Key::Up)).to_string(), "<A-C-Up>");
    assert_eq!(shift(Key::PageDown).to_string(), "<S-PageDown>");
}

#[test]
fn modifier_order_does_not_matter() {
    let expected = Some(vec![control(shift(Key::Tab))]);
    assert_eq!(parse_keys("<C-S-Tab>", 1, 1).ok(), expected);
    assert_eq!(parse_keys("<S-C-Tab>", 1, 1).ok(), expected);
    let all = Some(vec![control(alt(shift(Key::Char('x'))))]);
    for text in ["<C-A-S-x>", "<C-S-A-x>", "<A-C-S-x>", "<A-S-C-x>", "<S-A-C-x>", "<S-C-A-x>", "<S-S-A-C-A-x>"] {
        assert_eq!(parse_keys(text, 1, 1).ok(), all, "{}", text);
    }
    assert_eq!(parse_keys("<A-C-o>", 1, 1).ok(), Some(vec![control(alt(Key::Char('o')))]));
    assert_eq!(parse_keys("<S-A-End>", 1, 1).ok(), Some(vec![alt(shift(Key::End))]));
}

#[test]
fn key_takes_its_whole_token() {
    assert_eq!(
        parse_keys("<C-S-a>x<F1>", 1, 1).ok(),
        Some(vec![control(shift(Key::Char('a'))), Key::Char('x'), Key::F1])
    );
    assert_eq!(parse_keys("", 1, 1).ok(), Some(vec![]));
    assert_eq!(parse_keys("a>b", 1, 1).ok(), Some(vec![Key::Char('a'), Key::Char('>'), Key::Char('b')]));
    assert_eq!(parse_keys("5", 1, 1).ok(), Some(vec![Key::Char('5')]));
}

fn key_error(text: &str, line: usize, column: usize) -> String {
    match parse_keys(text, line, column) {
        Ok(keys) => panic!("parsed {:?}", keys),
        Err(error) => error.to_string(),
    }
}

#[test]
fn key_errors_have_their_place() {
    assert_eq!(key_error("<F1", 2, 7), "unexpected (none), expecting > on line 2, column 10");
    assert_eq!(key_error("ab<F1", 2, 7), "unexpected (none), expecting > on line 2, column 12");
    assert_eq!(key_error("<Test>", 1, 6), "unexpected Test, expecting special key on line 1, column 7");
    assert_eq!(key_error("<>", 1, 6), "unexpected , expecting special key on line 1, column 7");
    assert_eq!(key_error("<C->", 1, 6), "unexpected , expecting A-Z or special key on line 1, column 9");
    assert_eq!(key_error("<C-@>", 1, 6), "unexpected @, expecting A-Z or special key on line 1, column 9");
    assert_eq!(key_error("<C-5>", 1, 6), "unexpected 5, expecting A-Z or special key on line 1, column 9");
    assert_eq!(key_error("<C-S-o@>", 1, 6), "unexpected o@, expecting one character on line 1, column 11");
    assert_eq!(key_error("<c-a>", 1, 6), "unexpected c-a, expecting special key on line 1, column 7");
    assert_eq!(key_error("a b", 1, 1), "unexpected  , expecting key on line 1, column 2");
    assert_eq!(key_error("a\u{e4}", 3, 1), "unexpected \u{e4}, expecting key on line 3, column 2");
    assert_eq!(
        key_error("<Tab", usize::MAX, usize::MAX),
        "unexpected (none), expecting > on line 4294967295, column 4294967295"
    );
}

#[test]
fn unmap_errors_have_their_place() {
    let result = parse("nunmap <Test>");
    assert_eq!(
        messages(&result.errors),
        vec!["unexpected Test, expecting special key on line 1, column 9"]
    );
    let result = parse("nunmap   ");
    assert_eq!(
        messages(&result.errors),
        vec!["unexpected <end of line>, expecting command arguments on line 1, column 7"]
    );
    let result = parse("cunmap a  b c");
    assert_eq!(
        messages(&result.errors),
        vec!["unexpected  b c, expecting <end of line> on line 1, column 11"]
    );
}

#[test]
fn map_needs_keys_and_an_action() {
    let result = parse("nmap   ");
    assert_eq!(
        messages(&result.errors),
        vec!["unexpected <end of line>, expecting command arguments on line 1, column 5"]
    );
    let result = parse("nmap a   ");
    assert_eq!(
        messages(&result.errors),
        vec!["unexpected <end of line>, expecting mapping action on line 1, column 10"]
    );
    let result = parse("nmap ab  :open  now ");
    assert_eq!(result.commands, vec![mapping(":open  now", vec![Key::Char('a'), Key::Char('b')])]);
    let result = parse("imap <Esc> :normal");
    assert_eq!(
        result.commands,
        vec![Command::Mapping {
            action: ":normal".to_string(),
            keys: vec![Key::Escape],
            mode: "i".to_string()
        }]
    );
}

#[test]
fn keyword_goes_by_its_letters() {
    let result = parse("map a b");
    assert_eq!(messages(&result.errors), vec!["unexpected map, expecting command or comment on line 1, column 1"]);
    let result = parse("xmap a b");
    assert_eq!(messages(&result.errors), vec!["unexpected xmap, expecting command or comment on line 1, column 1"]);
    let result = parse("unmap a");
    assert_eq!(messages(&result.errors), vec!["unexpected unmap, expecting command or comment on line 1, column 1"]);
    let mut with_un: Parser<Cmd> = Parser::new_with_config(Config {
        application_commands: vec!["set", "nmap"],
        mapping_modes: vec!["un", "n"],
    });
    let result = with_un.parse(b"unmap a b\nset\nnmap\nnunmap a", None);
    assert_eq!(
        result.commands,
        vec![
            Command::Mapping { action: "b".to_string(), keys: vec![Key::Char('a')], mode: "un".to_string() },
            Command::Unmap { keys: vec![Key::Char('a')], mode: "n".to_string() },
        ]
    );
    assert_eq!(
        messages(&result.errors),
        vec![
            "unexpected <end of line>, expecting command arguments on line 2, column 4",
            "unexpected <end of line>, expecting command arguments on line 3, column 5",
        ]
    );
}

#[test]
fn values_are_classified() {
    let cases = vec![
        ("123", Value::Int(123)),
        ("0", Value::Int(0)),
        ("007", Value::Int(7)),
        ("9223372036854775807", Value::Int(i64::MAX)),
        ("9223372036854775808", Value::Float("9223372036854775808".to_string())),
        ("99999999999999999999999", Value::Float("99999999999999999999999".to_string())),
        ("123.4", Value::Float("123.4".to_string())),
        ("1.", Value::Float("1.".to_string())),
        (".5", Value::Float(".5".to_string())),
        ("true", Value::Bool(true)),
        ("false", Value::Bool(false)),
        ("12.3.4", Value::Str("12.3.4".to_string())),
        (".", Value::Str(".".to_string())),
        ("..", Value::Str("..".to_string())),
        ("True", Value::Str("True".to_string())),
        ("-5", Value::Str("-5".to_string())),
        ("+5", Value::Str("+5".to_string())),
        ("1e5", Value::Str("1e5".to_string())),
        ("a  b", Value::Str("a  b".to_string())),
        ("\u{663}", Value::Str("\u{663}".to_string())),
    ];
    for (text, value) in cases {
        let result = parse(&format!("set name =   {}  ", text));
        assert_eq!(result.commands, vec![setting("name", value)], "{}", text);
        assert!(result.errors.is_empty());
    }
    for text in ["123.4", "1.", ".5", "9223372036854775808"] {
        assert!(text.parse::<f64>().is_ok());
    }
    assert_eq!("123.4".parse::<f64>(), Ok(123.4));
}

#[test]
fn value_ends_at_its_comment() {
    let result = parse("set a = b # c");
    assert_eq!(result.commands, vec![setting("a", Value::Str("b".to_string()))]);
    let result = parse("set a = 1#2");
    assert_eq!(result.commands, vec![setting("a", Value::Int(1))]);
    let result = parse("set a = #fff");
    assert!(result.commands.is_empty());
    assert_eq!(
        messages(&result.errors),
        vec!["unexpected <end of line>, expecting value on line 1, column 8"]
    );
}

#[test]
fn value_type_names() {
    assert_eq!(Value::Bool(true).to_type(), "bool");
    assert_eq!(Value::Float("1.5".to_string()).to_type(), "float");
    assert_eq!(Value::Int(1).to_type(), "int");
    assert_eq!(Value::Str("a".to_string()).to_type(), "string");
}

#[test]
fn custom_commands_and_arguments() {
    let result = parse("open");
    assert_eq!(
        messages(&result.errors),
        vec!["unexpected <end of line>, expecting command arguments on line 1, column 5"]
    );
    match &result.errors[0] {
        Error::Parse(error) => assert_eq!(error.typ(), ErrorType::MissingArgument),
        _ => panic!("not a parse error"),
    }
    let result = parse("open ");
    assert_eq!(
        messages(&result.errors),
        vec!["unexpected <end of line>, expecting command arguments on line 1, column 5"]
    );
    let result = parse("open  ");
    assert_eq!(result.commands, vec![Command::Custom(Cmd::Open(String::new()))]);
    let result = parse("quit now");
    assert_eq!(result.commands, vec![Command::Custom(Cmd::Quit)]);
    let result = parser().parse(b"scroll", Some(5));
    assert_eq!(result.commands, vec![Command::Custom(Cmd::Scroll(Some(5)))]);
    let result = parse("complete-next  ignored");
    assert_eq!(result.commands, vec![Command::App("complete-next".to_string())]);
    let result = parse("  complete-previous");
    assert_eq!(
        messages(&result.errors),
        vec!["unexpected complete-previous, expecting command or comment on line 1, column 3"]
    );
    match &result.errors[0] {
        Error::Parse(error) => assert_eq!(error.typ(), ErrorType::UnknownCommand),
        _ => panic!("not a parse error"),
    }
}

fn with_files() -> Parser<Cmd> {
    let mut parser = parser();
    parser.add_include("b.conf", b"set b = 1\nbad\nset c = 2\n");
    parser.add_include("outer.conf", b"quit\ninclude b.conf\nset d = 3");
    parser.add_include("self.conf", b"set s = 1\ninclude self.conf\nset t = 2");
    parser.add_include("empty.conf", b"");
    parser.add_include_failure("gone.conf", "failed to open included file `./gone.conf`: gone");
    parser
}

#[test]
fn included_file_is_merged_where_it_is_named() {
    let mut parser = with_files();
    let whole = parser.parse(b"set a = 0\nwrong\ninclude b.conf\nalso wrong\nset e = 4", None);
    let before = with_files().parse(b"set a = 0\nwrong", None);
    let file = with_files().parse(b"set b = 1\nbad\nset c = 2\n", None);
    let after = with_files().parse(b"\n\n\nalso wrong\nset e = 4", None);
    let mut commands = before.commands;
    commands.extend(file.commands);
    commands.extend(after.commands);
    let mut errors = messages(&before.errors);
    errors.extend(messages(&file.errors));
    errors.extend(messages(&after.errors));
    assert_eq!(whole.commands, commands);
    assert_eq!(messages(&whole.errors), errors);
    assert_eq!(
        whole.commands,
        vec![
            setting("a", Value::Int(0)),
            setting("b", Value::Int(1)),
            setting("c", Value::Int(2)),
            setting("e", Value::Int(4)),
        ]
    );
    assert_eq!(
        errors,
        vec![
            "unexpected wrong, expecting command or comment on line 2, column 1",
            "unexpected bad, expecting command or comment on line 2, column 1",
            "unexpected also, expecting command or comment on line 4, column 1",
        ]
    );
}

#[test]
fn included_files_nest() {
    let result = with_files().parse(b"include outer.conf\nset z = 9", None);
    assert_eq!(
        result.commands,
        vec![
            Command::Custom(Cmd::Quit),
            setting("b", Value::Int(1)),
            setting("c", Value::Int(2)),
            setting("d", Value::Int(3)),
            setting("z", Value::Int(9)),
        ]
    );
    assert_eq!(
        messages(&result.errors),
        vec!["unexpected bad, expecting command or comment on line 2, column 1"]
    );
}

#[test]
fn include_failures_do_not_stop_the_parser() {
    let result = with_files().parse(b"include missing.conf\nset a = 1\ninclude gone.conf\nset b = 2", None);
    assert_eq!(result.commands, vec![setting("a", Value::Int(1)), setting("b", Value::Int(2))]);
    assert_eq!(
        messages(&result.errors),
        vec![
            "failed to open included file `missing.conf`: no such file",
            "failed to open included file `./gone.conf`: gone",
        ]
    );
    match &result.errors[0] {
        Error::Msg(_) => {}
        _ => panic!("not a message"),
    }
    let result = with_files().parse(b"include   \ninclude", None);
    assert_eq!(
        messages(&result.errors),
        vec![
            "unexpected <end of line>, expecting command arguments on line 1, column 8",
            "unexpected <end of line>, expecting command arguments on line 2, column 8",
        ]
    );
}

#[test]
fn file_that_names_itself_ends() {
    let mut parser = with_files();
    let result = parser.parse(b"include self.conf", None);
    let mut commands = vec![];
    for _ in 0..5 {
        commands.push(setting("s", Value::Int(1)));
    }
    for _ in 0..5 {
        commands.push(setting("t", Value::Int(2)));
    }
    assert_eq!(result.commands, commands);
    assert_eq!(
        messages(&result.errors),
        vec!["failed to open included file `self.conf`: too many nested files"]
    );
}

#[test]
fn parser_keeps_the_line_read_last() {
    let mut parser = with_files();
    assert_eq!(parser.line_number(), 1);
    parser.parse(b"", None);
    assert_eq!(parser.line_number(), 1);
    parser.parse(b"quit\nquit\n", None);
    assert_eq!(parser.line_number(), 2);
    parser.parse(b"quit\ninclude b.conf", None);
    assert_eq!(parser.line_number(), 3);
    parser.parse(b"quit\ninclude empty.conf", None);
    assert_eq!(parser.line_number(), 2);
    let result = parser.parse_line("include empty.conf", None);
    assert_eq!(
        messages(&result.errors),
        vec!["unexpected comment or <end of line>, expecting command on line 1, column 1"]
    );
}

#[test]
fn parser_knows_its_files_and_directory() {
    let mut parser = with_files();
    assert_eq!(parser.include_path(), "./");
    parser.set_include_path("tests");
    assert_eq!(parser.include_path(), "tests");
    assert!(parser.has_include("b.conf"));
    assert!(parser.has_include("gone.conf"));
    assert!(!parser.has_include("c.conf"));
    parser.add_include("b.conf", b"quit");
    let result = parser.parse(b"include b.conf", None);
    assert_eq!(result.commands.len(), 2);
    let fresh: Parser<Cmd> = Parser::new();
    assert_eq!(fresh.include_path(), "./");
    assert_eq!(fresh.line_number(), 1);
}

#[test]
fn lines_end_at_line_feeds() {
    let result = parse("quit\r\nquit\rquit\nquit\r");
    assert_eq!(
        result.commands,
        vec![Command::Custom(Cmd::Quit), Command::Custom(Cmd::Quit), Command::Custom(Cmd::Quit)]
    );
    assert!(result.errors.is_empty());
    let result = parse("bad\r\nbad");
    assert_eq!(
        messages(&result.errors),
        vec![
            "unexpected bad, expecting command or comment on line 1, column 1",
            "unexpected bad, expecting command or comment on line 2, column 1",
        ]
    );
}

#[test]
fn line_that_is_no_text_is_an_error() {
    let result = parser().parse(b"quit\n\xff\xfe\nset a = 1\n\xc3", None);
    assert_eq!(result.commands, vec![Command::Custom(Cmd::Quit), setting("a", Value::Int(1))]);
    assert_eq!(
        messages(&result.errors),
        vec!["stream did not contain valid UTF-8", "stream did not contain valid UTF-8"]
    );
    let result = parser().parse("set caf\u{e9} = \u{e9}t\u{e9}".as_bytes(), None);
    assert_eq!(result.commands, vec![setting("caf\u{e9}", Value::Str("\u{e9}t\u{e9}".to_string()))]);
}

#[test]
fn columns_count_characters() {
    let result = parse("set \u{e9}\u{e9} x 1");
    assert_eq!(messages(&result.errors), vec!["unexpected x, expecting = on line 1, column 8"]);
}

#[test]
fn results_merge_in_order() {
    let mut first: ParseResult<Cmd> = ParseResult::new();
    assert!(first.commands.is_empty() && first.errors.is_empty());
    first.merge(ParseResult::new_with_command(Command::Custom(Cmd::Quit)));
    first.merge(ParseResult::new_with_error(Error::Msg("one".to_string())));
    first.push_error(Error::Msg("two".to_string()));
    let mut second = ParseResult::new_with_command(Command::App("next".to_string()));
    second.push_error(Error::Msg("three".to_string()));
    first.merge(second);
    assert_eq!(first.commands, vec![Command::Custom(Cmd::Quit), Command::App("next".to_string())]);
    assert_eq!(messages(&first.errors), vec!["one", "two", "three"]);
}

#[test]
fn positions() {
    let mut pos = Pos::new(3, 14);
    assert_eq!(pos.line, 3);
    assert_eq!(pos.column, 14);
    assert_eq!(pos.to_string(), "line 3, column 14");
    pos.newline();
    assert_eq!(pos, Pos::new(4, 1));
    let mut last = Pos::new(u32::MAX, 7);
    last.newline();
    assert_eq!(last, Pos::new(u32::MAX, 1));
    assert_eq!(Pos::new(0, 4294967295).to_string(), "line 0, column 4294967295");
    assert_eq!(Pos::new(10, 100).to_string(), "line 10, column 100");
    let with_pos = WithPos::new("node", Pos::new(1, 2));
    assert_eq!(with_pos.node, "node");
    assert_eq!(with_pos.pos, Pos::new(1, 2));
}

#[test]
fn error_messages() {
    let error = ParseError::new(ErrorType::Parse, "x".to_string(), "y".to_string(), Pos::new(2, 3));
    assert_eq!(error.to_string(), "unexpected x, expecting y on line 2, column 3");
    match &error {
        Error::Parse(parse_error) => {
            assert_eq!(parse_error.to_string(), "unexpected x, expecting y on line 2, column 3");
            assert_eq!(parse_error.pos(), Pos::new(2, 3));
            assert_eq!(parse_error.typ(), ErrorType::Parse);
            assert_eq!(parse_error.unexpected, "x");
            assert_eq!(parse_error.expected, "y");
        }
        _ => panic!("not a parse error"),
    }
    assert_eq!(Error::Msg("plain".to_string()).to_string(), "plain");
    let choice = SettingError::UnknownChoice { actual: "c".to_string(), expected: vec!["a", "b"] };
    assert_eq!(choice.to_string(), "unknown choice c, expecting one of: a, b");
    let one = SettingError::UnknownChoice { actual: "c".to_string(), expected: vec!["a"] };
    assert_eq!(one.to_string(), "unknown choice c, expecting one of: a");
    let none = SettingError::UnknownChoice { actual: "c".to_string(), expected: vec![] };
    assert_eq!(none.to_string(), "unknown choice c, expecting one of: ");
    let setting = SettingError::UnknownSetting("size".to_string());
    assert_eq!(setting.to_string(), "no setting named size");
    let wrong = SettingError::WrongType { actual: "int".to_string(), expected: "bool".to_string() };
    assert_eq!(wrong.to_string(), "wrong value type: expecting bool, but found int");
    assert_eq!(Error::Setting(wrong).to_string(), "wrong value type: expecting bool, but found int");
}

#[test]
fn scanner_finds_words() {
    assert_eq!(maybe_word("  hello world"), Some(Word { index: 2, word: "hello" }));
    assert_eq!(maybe_word("hello"), Some(Word { index: 0, word: "hello" }));
    assert_eq!(maybe_word("\u{a0}\u{2003}h\u{e9}llo\tworld"), Some(Word { index: 2, word: "h\u{e9}llo" }));
    assert_eq!(maybe_word("   "), None);
    assert_eq!(maybe_word(""), None);
    assert_eq!(word(" a b"), Word { index: 1, word: "a" });
    assert_eq!(words("a b", 0), Some(vec![]));
    assert_eq!(words("", 0), Some(vec![]));
    assert_eq!(words("", 1), None);
    assert_eq!(words("a  b\tc", 3), Some(vec![
        Word { index: 0, word: "a" },
        Word { index: 3, word: "b" },
        Word { index: 5, word: "c" },
    ]));
    assert_eq!(words("a  b\tc", 4), None);
}

#[test]
fn identifiers() {
    let pos = Pos::new(4, 2);
    assert_eq!(check_ident("abc".to_string(), &pos), Ok("abc".to_string()));
    assert_eq!(check_ident("a-b_c9".to_string(), &pos), Ok("a-b_c9".to_string()));
    assert_eq!(check_ident("\u{e9}t\u{e9}".to_string(), &pos), Ok("\u{e9}t\u{e9}".to_string()));
    for bad in ["", "9a", "-a", "a b", "a.b", "_"] {
        match check_ident(bad.to_string(), &pos) {
            Ok(_) => panic!("accepted {}", bad),
            Err(error) => assert_eq!(
                error.to_string(),
                format!("unexpected {}, expecting identifier on line 4, column 2", bad)
            ),
        }
    }
}

#[test]
fn words_are_capitalized_and_split() {
    assert_eq!("abc".capitalize(), "Abc");
    assert_eq!("Abc".capitalize(), "Abc");
    assert_eq!("".capitalize(), "");
    assert_eq!("\u{df}a".capitalize(), "SSa");
    assert_eq!("nmap".rsplit_at(3), ("n", "map"));
    assert_eq!("map".rsplit_at(3), ("", ""));
    assert_eq!("ab".rsplit_at(3), ("", ""));
    assert_eq!("nunmap".rsplit_at(5), ("n", "unmap"));
    assert_eq!("\u{e9}map".rsplit_at(3), ("\u{e9}", "map"));
    assert_eq!("a\u{e9}".rsplit_at(1), ("a", "\u{e9}"));
    assert_eq!("abc".rsplit_at(0), ("abc", ""));
}

#[test]
fn names_are_converted() {
    assert_eq!(snake_to_camel("win_open"), "WinOpen");
    assert_eq!(snake_to_camel("open"), "Open");
    assert_eq!(snake_to_camel(""), "");
    assert_eq!(snake_to_camel("a__b_"), "AB");
    assert_eq!(snake_to_camel("_a"), "A");
    assert_eq!(snake_to_camel("hint_chars"), "HintChars");
    assert_eq!(to_dash_name("WinOpen"), "win-open");
    assert_eq!(to_dash_name("Quit"), "quit");
    assert_eq!(to_dash_name("quit"), "quit");
    assert_eq!(to_dash_name(""), "");
    assert_eq!(to_dash_name("ABc"), "a-bc");
    assert_eq!(to_dash_name("aB"), "a-b");
}

#[test]
fn completion_values_of_plain_types() {
    assert_eq!(bool::completion_values(), vec!["true".to_string(), "false".to_string()]);
    assert_eq!(i64::completion_values(), Vec::<String>::new());
    assert_eq!(String::completion_values(), Vec::<String>::new());
}

fn token_texts(input: &str, count: usize) -> Vec<String> {
    let mut tokens = tokenize(input);
    let mut texts = vec![];
    for _ in 0..count {
        match tokens.next() {
            Some(Ok(token)) => texts.push(format!(
                "{}@{}:{}",
                token.node.to_string(),
                token.pos.line,
                token.pos.column
            )),
            Some(Err(error)) => texts.push(error.to_string()),
            None => texts.push("none".to_string()),
        }
    }
    texts
}

#[test]
fn tokens_of_a_configuration() {
    assert_eq!(
        token_texts("set option1 5 12.5 true # comment\r\nfalse \"a b\"\n x\\ y", 10),
        vec![
            "set@1:1", "option1@1:5", "5@1:13", "12.5@1:15", "true@1:20", "false@2:1",
            "a b@2:7", "x y@3:2", "eof@3:6", "eof@3:6",
        ]
    );
    assert_eq!(token_texts("", 2), vec!["eof@1:1", "eof@1:1"]);
    assert_eq!(
        token_texts("a = b", 3),
        vec![
            "a@1:1",
            "unexpected =, expecting identifier, number, boolean, string or comment on line 1, column 3",
            "unexpected =, expecting identifier, number, boolean, string or comment on line 1, column 3",
        ]
    );
    assert_eq!(
        token_texts("\"open\nnext", 3),
        vec!["unexpected \n, expecting \" on line 1, column 5", "next@2:1", "eof@2:5"]
    );
    assert_eq!(
        token_texts("\"open", 2),
        vec!["unexpected eof, expecting \" on line 1, column 5", "eof@1:6"]
    );
    assert_eq!(token_texts("1.2.3 99999999999999999999", 3), vec!["1.2.3@1:1", "99999999999999999999@1:7", "eof@1:27"]);
    assert_eq!(token_texts("\r\r\n\na", 2), vec!["a@4:1", "eof@4:2"]);
}

#[test]
fn token_kinds() {
    let mut tokens = tokenize("set 5 1.5 true word \"quoted\" 1.2.3");
    let mut kinds = vec![];
    for _ in 0..8 {
        kinds.push(match tokens.next() {
            Some(Ok(token)) => match token.node {
                Token::Bool(value) => format!("bool {}", value),
                Token::Eof => "eof".to_string(),
                Token::Float(text) => format!("float {}", text),
                Token::Int(value) => format!("int {}", value),
                Token::SetKeyword => "set".to_string(),
                Token::Str(text) => format!("str {}", text),
                Token::QuotedStr(text) => format!("quoted {}", text),
            },
            _ => "error".to_string(),
        });
    }
    assert_eq!(
        kinds,
        vec!["set", "int 5", "float 1.5", "bool true", "str word", "quoted quoted", "str 1.2.3", "eof"]
    );
    assert_eq!(Token::Int(-42).to_string(), "-42");
    assert_eq!(Token::Int(i64::MIN).to_string(), "-9223372036854775808");
    assert_eq!(Token::Int(0).to_string(), "0");
}

#[test]
fn tokenizer_advances() {
    let mut tokens = tokenize("ab\r\ncd");
    tokens.advance(2);
    tokens.advance(1);
    assert_eq!(token_texts_from(&mut tokens), "cd@2:1");
    let mut tokens = tokenize("# a comment\nx");
    tokens.skip_comment();
    assert_eq!(token_texts_from(&mut tokens), "x@2:1");
}

fn token_texts_from(tokens: &mut mg_settings::tokens::InputTokens) -> String {
    match tokens.next() {
        Some(Ok(token)) => format!("{}@{}:{}", token.node.to_string(), token.pos.line, token.pos.column),
        _ => "error".to_string(),
    }
}
