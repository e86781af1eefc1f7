//! Keys, and the parser of key chords such as `<C-S-Tab>`.

use vstd::prelude::*;
use vstd::slice::slice_subrange;
use vstd::string::StringExecFns;
use crate::chars::{
    char_is_ascii_letter,
    char_is_digit,
    is_ascii_letter,
    is_digit,
    spells,
    string_of,
    to_chars,
};
use crate::errors::{new_syntax_error, syntax_error, ErrorView, Result};
use crate::position::{lemma_shift_shift, saturate, saturated, shift, shifted, Pos};

verus! {

/// The keys that can be used in a mapping.
#[derive(Debug, PartialEq, Eq, Hash)]
pub enum Key {
    Alt(Box<Key>),
    Backspace,
    Char(char),
    Control(Box<Key>),
    Delete,
    Down,
    End,
    Enter,
    Escape,
    F1,
    F2,
    F3,
    F4,
    F5,
    F6,
    F7,
    F8,
    F9,
    F10,
    F11,
    F12,
    Home,
    Insert,
    Left,
    PageDown,
    PageUp,
    Right,
    Shift(Box<Key>),
    Space,
    Tab,
    Up,
}

impl Clone for Key {
    fn clone(&self) -> (key: Key)
        ensures
            key == *self,
        decreases *self,
    {
        match self {
            Key::Alt(inner) => Key::Alt(Box::new((**inner).clone())),
            Key::Backspace => Key::Backspace,
            Key::Char(character) => Key::Char(*character),
            Key::Control(inner) => Key::Control(Box::new((**inner).clone())),
            Key::Delete => Key::Delete,
            Key::Down => Key::Down,
            Key::End => Key::End,
            Key::Enter => Key::Enter,
            Key::Escape => Key::Escape,
            Key::F1 => Key::F1,
            Key::F2 => Key::F2,
            Key::F3 => Key::F3,
            Key::F4 => Key::F4,
            Key::F5 => Key::F5,
            Key::F6 => Key::F6,
            Key::F7 => Key::F7,
            Key::F8 => Key::F8,
            Key::F9 => Key::F9,
            Key::F10 => Key::F10,
            Key::F11 => Key::F11,
            Key::F12 => Key::F12,
            Key::Home => Key::Home,
            Key::Insert => Key::Insert,
            Key::Left => Key::Left,
            Key::PageDown => Key::PageDown,
            Key::PageUp => Key::PageUp,
            Key::Right => Key::Right,
            Key::Shift(inner) => Key::Shift(Box::new((**inner).clone())),
            Key::Space => Key::Space,
            Key::Tab => Key::Tab,
            Key::Up => Key::Up,
        }
    }
}

/// The modifiers that were held down with a key.
#[derive(Clone, Copy, Debug, PartialEq, Eq)]
pub struct ConstructorKeys {
    pub alt: bool,
    pub control: bool,
    pub shift: bool,
}

impl ConstructorKeys {
    pub fn new() -> (keys: ConstructorKeys)
        ensures
            keys == (ConstructorKeys { alt: false, control: false, shift: false }),
    {
        ConstructorKeys { alt: false, control: false, shift: false }
    }

    /// Whether any modifier is held down.
    pub open spec fn any(self) -> bool {
        self.alt || self.control || self.shift
    }

    /// These modifiers and one more, named by its letter.
    pub open spec fn with(self, letter: char) -> ConstructorKeys {
        ConstructorKeys {
            alt: self.alt || letter == 'A',
            control: self.control || letter == 'C',
            shift: self.shift || letter == 'S',
        }
    }

    /// The modifiers of both.
    pub open spec fn union(self, other: ConstructorKeys) -> ConstructorKeys {
        ConstructorKeys {
            alt: self.alt || other.alt,
            control: self.control || other.control,
            shift: self.shift || other.shift,
        }
    }
}

/// A key under its modifiers: Control outermost, Alt next, Shift innermost.
pub open spec fn constructed(key: Key, modifiers: ConstructorKeys) -> Key {
    let shifted = if modifiers.shift {
        Key::Shift(Box::new(key))
    } else {
        key
    };
    let alted = if modifiers.alt {
        Key::Alt(Box::new(shifted))
    } else {
        shifted
    };
    if modifiers.control {
        Key::Control(Box::new(alted))
    } else {
        alted
    }
}

/// Puts a key under its modifiers.
pub fn key_constructor(key: Key, constructor_keys: &ConstructorKeys) -> (result: Key)
    ensures
        result == constructed(key, *constructor_keys),
{
    let mut result = key;
    if constructor_keys.shift {
        result = Key::Shift(Box::new(result));
    }
    if constructor_keys.alt {
        result = Key::Alt(Box::new(result));
    }
    if constructor_keys.control {
        result = Key::Control(Box::new(result));
    }
    result
}

/// The key that a name stands for, if it is the name of a special key.
pub open spec fn special_key_of(name: Seq<char>) -> Option<Key> {
    if name == "Backspace"@ {
        Some(Key::Backspace)
    } else if name == "Delete"@ {
        Some(Key::Delete)
    } else if name == "Down"@ {
        Some(Key::Down)
    } else if name == "End"@ {
        Some(Key::End)
    } else if name == "Enter"@ {
        Some(Key::Enter)
    } else if name == "Esc"@ {
        Some(Key::Escape)
    } else if name == "F1"@ {
        Some(Key::F1)
    } else if name == "F2"@ {
        Some(Key::F2)
    } else if name == "F3"@ {
        Some(Key::F3)
    } else if name == "F4"@ {
        Some(Key::F4)
    } else if name == "F5"@ {
        Some(Key::F5)
    } else if name == "F6"@ {
        Some(Key::F6)
    } else if name == "F7"@ {
        Some(Key::F7)
    } else if name == "F8"@ {
        Some(Key::F8)
    } else if name == "F9"@ {
        Some(Key::F9)
    } else if name == "F10"@ {
        Some(Key::F10)
    } else if name == "F11"@ {
        Some(Key::F11)
    } else if name == "F12"@ {
        Some(Key::F12)
    } else if name == "Home"@ {
        Some(Key::Home)
    } else if name == "Insert"@ {
        Some(Key::Insert)
    } else if name == "Left"@ {
        Some(Key::Left)
    } else if name == "PageDown"@ {
        Some(Key::PageDown)
    } else if name == "PageUp"@ {
        Some(Key::PageUp)
    } else if name == "Right"@ {
        Some(Key::Right)
    } else if name == "Space"@ {
        Some(Key::Space)
    } else if name == "Tab"@ {
        Some(Key::Tab)
    } else if name == "Up"@ {
        Some(Key::Up)
    } else {
        None
    }
}

/// What `special_key` answers: the key that the text between the brackets
/// names, with the length of the whole token, brackets included; or an
/// error at the first character of the text.
pub open spec fn special_key_spec(
    key: Seq<char>,
    line: u32,
    column: u32,
    in_special_key: bool,
) -> core::result::Result<(Key, int), ErrorView> {
    match special_key_of(key) {
        Some(found) => Ok((found, key.len() as int + 2)),
        None => Err(
            syntax_error(
                key,
                if in_special_key {
                    "A-Z or special key"@
                } else {
                    "special key"@
                },
                line,
                shift(column, 1),
            ),
        ),
    }
}

/// What a parsed key and the number of characters it took, or an error,
/// hold.
pub open spec fn key_result_view(result: Result<(Key, usize)>) -> core::result::Result<
    (Key, int),
    ErrorView,
> {
    match result {
        Ok((key, size)) => Ok((key, size as int)),
        Err(error) => Err(error@),
    }
}

/// Parses the name of a special key, found between `<` and `>` behind the
/// modifiers. `column_num` is the column of the character before the name.
pub fn special_key(key: &[char], line_num: u32, column_num: u32, in_special_key: bool) -> (result:
    Result<(Key, usize)>)
    ensures
        key_result_view(result) == special_key_spec(key@, line_num, column_num, in_special_key),
{
    let expected = if in_special_key {
        "A-Z or special key"
    } else {
        "special key"
    };
    proof {
        reveal_strlit("Backspace");
        reveal_strlit("Delete");
        reveal_strlit("Down");
        reveal_strlit("End");
        reveal_strlit("Enter");
        reveal_strlit("Esc");
        reveal_strlit("F1");
        reveal_strlit("F2");
        reveal_strlit("F3");
        reveal_strlit("F4");
        reveal_strlit("F5");
        reveal_strlit("F6");
        reveal_strlit("F7");
        reveal_strlit("F8");
        reveal_strlit("F9");
        reveal_strlit("F10");
        reveal_strlit("F11");
        reveal_strlit("F12");
        reveal_strlit("Home");
        reveal_strlit("Insert");
        reveal_strlit("Left");
        reveal_strlit("PageDown");
        reveal_strlit("PageUp");
        reveal_strlit("Right");
        reveal_strlit("Space");
        reveal_strlit("Tab");
        reveal_strlit("Up");
    }
    let result = if spells(key, "Backspace") {
        (Key::Backspace, 11)
    } else if spells(key, "Delete") {
        (Key::Delete, 8)
    } else if spells(key, "Down") {
        (Key::Down, 6)
    } else if spells(key, "End") {
        (Key::End, 5)
    } else if spells(key, "Enter") {
        (Key::Enter, 7)
    } else if spells(key, "Esc") {
        (Key::Escape, 5)
    } else if spells(key, "F1") {
        (Key::F1, 4)
    } else if spells(key, "F2") {
        (Key::F2, 4)
    } else if spells(key, "F3") {
        (Key::F3, 4)
    } else if spells(key, "F4") {
        (Key::F4, 4)
    } else if spells(key, "F5") {
        (Key::F5, 4)
    } else if spells(key, "F6") {
        (Key::F6, 4)
    } else if spells(key, "F7") {
        (Key::F7, 4)
    } else if spells(key, "F8") {
        (Key::F8, 4)
    } else if spells(key, "F9") {
        (Key::F9, 4)
    } else if spells(key, "F10") {
        (Key::F10, 5)
    } else if spells(key, "F11") {
        (Key::F11, 5)
    } else if spells(key, "F12") {
        (Key::F12, 5)
    } else if spells(key, "Home") {
        (Key::Home, 6)
    } else if spells(key, "Insert") {
        (Key::Insert, 8)
    } else if spells(key, "Left") {
        (Key::Left, 6)
    } else if spells(key, "PageDown") {
        (Key::PageDown, 10)
    } else if spells(key, "PageUp") {
        (Key::PageUp, 8)
    } else if spells(key, "Right") {
        (Key::Right, 7)
    } else if spells(key, "Space") {
        (Key::Space, 7)
    } else if spells(key, "Tab") {
        (Key::Tab, 5)
    } else if spells(key, "Up") {
        (Key::Up, 4)
    } else {
        return Err(new_syntax_error(key, expected, line_num, shifted(column_num, 1)));
    };
    Ok(result)
}

/// The place of the first occurrence of a character at or after `from`; the
/// length of the text if there is none.
pub open spec fn position_of(text: Seq<char>, character: char, from: int) -> int
    decreases text.len() - from,
{
    if from < 0 || from >= text.len() {
        text.len() as int
    } else if text[from] == character {
        from
    } else {
        position_of(text, character, from + 1)
    }
}

/// `position_of` gives the first occurrence.
pub proof fn lemma_position_of(text: Seq<char>, character: char, from: int)
    requires
        0 <= from <= text.len(),
    ensures
        from <= position_of(text, character, from) <= text.len(),
        position_of(text, character, from) < text.len() ==> text[position_of(
            text,
            character,
            from,
        )] == character,
        forall|i: int| from <= i < position_of(text, character, from) ==> text[i] != character,
    decreases text.len() - from,
{
    if from < text.len() && text[from] != character {
        lemma_position_of(text, character, from + 1);
    }
}

/// Whether a text starts with a modifier: `A-`, `C-` or `S-`.
pub open spec fn has_modifier(text: Seq<char>) -> bool {
    text.len() >= 2 && text[1] == '-' && (text[0] == 'A' || text[0] == 'C' || text[0] == 'S')
}

/// The number of characters that the modifiers at the start of a text take.
pub open spec fn modifiers_len(text: Seq<char>) -> int
    decreases text.len(),
{
    if has_modifier(text) {
        2 + modifiers_len(text.skip(2))
    } else {
        0
    }
}

/// The modifiers at the start of a text, in whatever order and however
/// often each is written.
pub open spec fn modifiers(text: Seq<char>) -> ConstructorKeys
    decreases text.len(),
{
    if has_modifier(text) {
        modifiers(text.skip(2)).with(text[0])
    } else {
        ConstructorKeys { alt: false, control: false, shift: false }
    }
}

/// The modifiers end inside the text, and nothing behind them is one.
pub proof fn lemma_modifiers_len(text: Seq<char>)
    ensures
        0 <= modifiers_len(text) <= text.len(),
        !has_modifier(text.skip(modifiers_len(text))),
        modifiers_len(text) > 0 ==> modifiers(text).any(),
    decreases text.len(),
{
    if has_modifier(text) {
        lemma_modifiers_len(text.skip(2));
        assert(text.skip(2).skip(modifiers_len(text.skip(2))) == text.skip(modifiers_len(text)));
    } else {
        assert(text.skip(0) == text);
    }
}

/// The punctuation that stands for its own key.
pub open spec fn key_punctuation() -> Seq<char> {
    "=+-;!\"'#%&()*,./<>?@[\\]^_{|}~çÇéÉàÀèÈ$"@
}

/// Whether a character outside brackets stands for its own key.
pub open spec fn plain_key(character: char) -> bool {
    is_ascii_letter(character) || is_digit(character) || key_punctuation().contains(character)
}

fn is_plain_key(character: char) -> (plain: bool)
    ensures
        plain == plain_key(character),
{
    if char_is_ascii_letter(character) || char_is_digit(character) {
        return true;
    }
    let punctuation = to_chars("=+-;!\"'#%&()*,./<>?@[\\]^_{|}~çÇéÉàÀèÈ$");
    let mut i: usize = 0;
    while i < punctuation.len()
        invariant
            i <= punctuation.len(),
            punctuation@ == key_punctuation(),
            forall|j: int| 0 <= j < i ==> punctuation@[j] != character,
        decreases punctuation.len() - i,
    {
        if punctuation[i] == character {
            return true;
        }
        i += 1;
    }
    false
}

/// The key that the text between `<` and `>` stands for, with the length
/// of the whole token, or the error found in it. `column` is the column of
/// the `<`.
pub open spec fn bracketed_key_spec(inner: Seq<char>, line: u32, column: u32) -> core::result::Result<
    (Key, int),
    ErrorView,
> {
    let delta = modifiers_len(inner);
    let end = inner.skip(delta);
    let size = inner.len() as int + 2;
    if delta == 0 {
        match special_key_of(inner) {
            Some(key) => Ok((key, size)),
            None => Err(syntax_error(inner, "special key"@, line, shift(column, 1))),
        }
    } else {
        match special_key_of(end) {
            Some(key) => Ok((constructed(key, modifiers(inner)), size)),
            None => if end.len() == 1 && is_ascii_letter(end[0]) {
                Ok((constructed(Key::Char(end[0]), modifiers(inner)), size))
            } else if end.len() > 1 && is_ascii_letter(end[0]) {
                Err(syntax_error(end, "one character"@, line, shift(column, delta + 1)))
            } else {
                Err(syntax_error(end, "A-Z or special key"@, line, shift(column, delta + 1)))
            },
        }
    }
}

/// What `parse_key` answers on a text that is not empty: the key at its
/// start with the number of characters that the key takes, or the error
/// found there. `column` is the column of the first character.
pub open spec fn parse_key_spec(input: Seq<char>, line: u32, column: u32) -> core::result::Result<
    (Key, int),
    ErrorView,
> {
    if input.len() > 0 && input[0] == '<' {
        let close = position_of(input, '>', 1);
        if close >= input.len() {
            Err(syntax_error("(none)"@, ">"@, line, shift(column, input.len() as int)))
        } else {
            bracketed_key_spec(input.subrange(1, close), line, column)
        }
    } else if input.len() > 0 && plain_key(input[0]) {
        Ok((Key::Char(input[0]), 1))
    } else {
        Err(syntax_error(input.take(1), "key"@, line, column))
    }
}

/// A key takes at least one character, and no more than there are.
pub proof fn lemma_parse_key_size(input: Seq<char>, line: u32, column: u32)
    requires
        input.len() > 0,
    ensures
        parse_key_spec(input, line, column) matches Ok((_, size)) ==> 1 <= size <= input.len(),
{
    lemma_position_of(input, '>', 1);
}

/// Parses the key at the start of a text. `column_num` is the column of
/// the first character of the text.
pub fn parse_key(input: &[char], line_num: u32, column_num: u32) -> (result: Result<(Key, usize)>)
    requires
        input@.len() > 0,
    ensures
        key_result_view(result) == parse_key_spec(input@, line_num, column_num),
{
    let first = input[0];
    if first == '<' {
        let mut close: usize = 1;
        while close < input.len() && input[close] != '>'
            invariant
                1 <= close <= input.len(),
                position_of(input@, '>', 1) == position_of(input@, '>', close as int),
            decreases input.len() - close,
        {
            close += 1;
        }
        if close >= input.len() {
            return Err(
                new_syntax_error(
                    to_chars("(none)").as_slice(),
                    ">",
                    line_num,
                    shifted(column_num, input.len()),
                ),
            );
        }
        let inner = slice_subrange(input, 1, close);
        let mut delta: usize = 0;
        let mut constructor_keys = ConstructorKeys::new();
        proof {
            assert(inner@.skip(0) == inner@);
        }
        while inner.len() - delta >= 2 && inner[delta + 1] == '-' && (inner[delta] == 'A'
            || inner[delta] == 'C' || inner[delta] == 'S')
            invariant
                delta <= inner.len(),
                modifiers_len(inner@) == delta + modifiers_len(inner@.skip(delta as int)),
                modifiers(inner@) == constructor_keys.union(modifiers(inner@.skip(delta as int))),
            decreases inner.len() - delta,
        {
            proof {
                assert(has_modifier(inner@.skip(delta as int)));
                assert(inner@.skip(delta as int).skip(2) == inner@.skip(delta + 2));
            }
            let letter = inner[delta];
            if letter == 'A' {
                constructor_keys.alt = true;
            } else if letter == 'C' {
                constructor_keys.control = true;
            } else {
                constructor_keys.shift = true;
            }
            delta += 2;
        }
        proof {
            assert(!has_modifier(inner@.skip(delta as int)));
        }
        if delta == 0 {
            proof {
                assert(inner@.skip(0) == inner@);
            }
            return special_key(inner, line_num, column_num, false);
        }
        let end = slice_subrange(inner, delta, inner.len());
        assert(end@ == inner@.skip(delta as int));
        match special_key(end, line_num, shifted(column_num, delta), true) {
            Ok((key, size)) => Ok((key_constructor(key, &constructor_keys), size + delta)),
            Err(error) => {
                proof {
                    lemma_shift_shift(column_num, delta as int, 1);
                }
                if end.len() >= 1 && char_is_ascii_letter(end[0]) {
                    if end.len() == 1 {
                        Ok((key_constructor(Key::Char(end[0]), &constructor_keys), delta + 3))
                    } else {
                        Err(
                            new_syntax_error(
                                end,
                                "one character",
                                line_num,
                                shifted(column_num, delta + 1),
                            ),
                        )
                    }
                } else {
                    Err(error)
                }
            },
        }
    } else if is_plain_key(first) {
        Ok((Key::Char(first), 1))
    } else {
        let unexpected = slice_subrange(input, 0, 1);
        assert(unexpected@ == input@.take(1));
        Err(new_syntax_error(unexpected, "key", line_num, column_num))
    }
}

/// What `parse_keys` answers: the keys that a word spells, one after the
/// other, or the first error. `column` is the column of the first
/// character of the word.
pub open spec fn parse_keys_spec(input: Seq<char>, line: u32, column: u32) -> core::result::Result<
    Seq<Key>,
    ErrorView,
>
    decreases input.len(),
    via parse_keys_spec_decreases
{
    if input.len() == 0 {
        Ok(Seq::empty())
    } else {
        match parse_key_spec(input, line, column) {
            Err(error) => Err(error),
            Ok((key, size)) => match parse_keys_spec(input.skip(size), line, shift(column, size)) {
                Ok(keys) => Ok(seq![key] + keys),
                Err(error) => Err(error),
            },
        }
    }
}

#[via_fn]
proof fn parse_keys_spec_decreases(input: Seq<char>, line: u32, column: u32) {
    if input.len() > 0 {
        lemma_parse_key_size(input, line, column);
    }
}

/// The keys found so far, followed by what the rest of the word gives.
pub open spec fn keys_followed_by(
    keys: Seq<Key>,
    rest: core::result::Result<Seq<Key>, ErrorView>,
) -> core::result::Result<Seq<Key>, ErrorView> {
    match rest {
        Ok(more) => Ok(keys + more),
        Err(error) => Err(error),
    }
}

/// What a list of keys, or an error, holds.
pub open spec fn keys_result_view(result: Result<Vec<Key>>) -> core::result::Result<
    Seq<Key>,
    ErrorView,
> {
    match result {
        Ok(keys) => Ok(keys@),
        Err(error) => Err(error@),
    }
}

/// Parses the keys that a word spells. `column_num` is the column of the
/// first character of the word.
pub fn parse_key_sequence(input: &[char], line_num: u32, column_num: u32) -> (result: Result<
    Vec<Key>,
>)
    ensures
        keys_result_view(result) == parse_keys_spec(input@, line_num, column_num),
{
    let mut keys: Vec<Key> = Vec::new();
    let mut index: usize = 0;
    proof {
        assert(input@.skip(0) == input@);
        assert(Seq::<Key>::empty() + parse_keys_spec(input@, line_num, column_num)->Ok_0
            =~= parse_keys_spec(input@, line_num, column_num)->Ok_0);
    }
    while index < input.len()
        invariant
            index <= input.len(),
            parse_keys_spec(input@, line_num, column_num) == keys_followed_by(
                keys@,
                parse_keys_spec(
                    input@.skip(index as int),
                    line_num,
                    shift(column_num, index as int),
                ),
            ),
        decreases input.len() - index,
    {
        let rest = slice_subrange(input, index, input.len());
        let column = shifted(column_num, index);
        proof {
            assert(rest@ == input@.skip(index as int));
            lemma_parse_key_size(rest@, line_num, column);
        }
        match parse_key(rest, line_num, column) {
            Err(error) => {
                return Err(error);
            },
            Ok((key, size)) => {
                proof {
                    assert(rest@.skip(size as int) == input@.skip(index + size));
                    lemma_shift_shift(column_num, index as int, size as int);
                    let more = parse_keys_spec(rest@.skip(size as int), line_num, shift(column, size as int));
                    if more is Ok {
                        assert(keys@.push(key) + more->Ok_0 =~= keys@ + (seq![key] + more->Ok_0));
                    }
                }
                keys.push(key);
                index += size;
            },
        }
    }
    proof {
        assert(input@.skip(index as int).len() == 0);
        assert(keys@ + Seq::<Key>::empty() =~= keys@);
    }
    Ok(keys)
}

/// Parses a word into the keys that it spells. `line_num` and `column_num`
/// say where the word starts; errors are reported from there.
pub fn parse_keys(input: &str, line_num: usize, column_num: usize) -> (result: Result<Vec<Key>>)
    ensures
        keys_result_view(result) == parse_keys_spec(
            input@,
            saturate(line_num as int),
            saturate(column_num as int),
        ),
{
    let chars = to_chars(input);
    parse_key_sequence(chars.as_slice(), saturated(line_num), saturated(column_num))
}

/// How a key is written between `<` and `>`: its modifiers from the
/// outermost in, each followed by `-`, then the key's name or character.
pub open spec fn key_name(key: Key) -> Seq<char>
    decreases key,
{
    match key {
        Key::Alt(inner) => "A-"@ + key_name(*inner),
        Key::Backspace => "Backspace"@,
        Key::Char(character) => seq![character],
        Key::Control(inner) => "C-"@ + key_name(*inner),
        Key::Delete => "Delete"@,
        Key::Down => "Down"@,
        Key::End => "End"@,
        Key::Enter => "Enter"@,
        Key::Escape => "Esc"@,
        Key::F1 => "F1"@,
        Key::F2 => "F2"@,
        Key::F3 => "F3"@,
        Key::F4 => "F4"@,
        Key::F5 => "F5"@,
        Key::F6 => "F6"@,
        Key::F7 => "F7"@,
        Key::F8 => "F8"@,
        Key::F9 => "F9"@,
        Key::F10 => "F10"@,
        Key::F11 => "F11"@,
        Key::F12 => "F12"@,
        Key::Home => "Home"@,
        Key::Insert => "Insert"@,
        Key::Left => "Left"@,
        Key::PageDown => "PageDown"@,
        Key::PageUp => "PageUp"@,
        Key::Right => "Right"@,
        Key::Shift(inner) => "S-"@ + key_name(*inner),
        Key::Space => "Space"@,
        Key::Tab => "Tab"@,
        Key::Up => "Up"@,
    }
}

/// How a key is written in a configuration: a character alone stands for
/// itself, any other key stands between `<` and `>`.
pub open spec fn key_text(key: Key) -> Seq<char> {
    if key is Char {
        key_name(key)
    } else {
        "<"@ + key_name(key) + ">"@
    }
}

/// Writes a key, without `<` and `>`.
pub fn key_to_string(key: &Key) -> (string: String)
    ensures
        string@ == key_name(*key),
    decreases *key,
{
    let name = match key {
        Key::Alt(inner) => {
            let mut string = String::from_str("A-");
            let rest = key_to_string(&**inner);
            string.append(rest.as_str());
            return string;
        },
        Key::Backspace => "Backspace",
        Key::Char(character) => {
            let mut string = String::new();
            string.push(*character);
            assert(string@ =~= seq![*character]);
            return string;
        },
        Key::Control(inner) => {
            let mut string = String::from_str("C-");
            let rest = key_to_string(&**inner);
            string.append(rest.as_str());
            return string;
        },
        Key::Delete => "Delete",
        Key::Down => "Down",
        Key::End => "End",
        Key::Enter => "Enter",
        Key::Escape => "Esc",
        Key::F1 => "F1",
        Key::F2 => "F2",
        Key::F3 => "F3",
        Key::F4 => "F4",
        Key::F5 => "F5",
        Key::F6 => "F6",
        Key::F7 => "F7",
        Key::F8 => "F8",
        Key::F9 => "F9",
        Key::F10 => "F10",
        Key::F11 => "F11",
        Key::F12 => "F12",
        Key::Home => "Home",
        Key::Insert => "Insert",
        Key::Left => "Left",
        Key::PageDown => "PageDown",
        Key::PageUp => "PageUp",
        Key::Right => "Right",
        Key::Shift(inner) => {
            let mut string = String::from_str("S-");
            let rest = key_to_string(&**inner);
            string.append(rest.as_str());
            return string;
        },
        Key::Space => "Space",
        Key::Tab => "Tab",
        Key::Up => "Up",
    };
    String::from_str(name)
}

impl Key {
    /// The key as it is written in a configuration.
    pub fn to_string(&self) -> (string: String)
        ensures
            string@ == key_text(*self),
    {
        let name = key_to_string(self);
        match self {
            Key::Char(_) => name,
            _ => {
                let mut string = String::from_str("<");
                string.append(name.as_str());
                string.append(">");
                string
            },
        }
    }
}

} // verus!
