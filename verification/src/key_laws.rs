//! What holds of the key parser on every input.

use vstd::prelude::*;
use crate::chars::{is_ascii_letter, is_digit};
use crate::key::{
    bracketed_key_spec,
    constructed,
    has_modifier,
    key_name,
    key_text,
    lemma_modifiers_len,
    lemma_position_of,
    modifiers,
    modifiers_len,
    parse_key_spec,
    parse_keys_spec,
    plain_key,
    position_of,
    special_key_of,
    ConstructorKeys,
    Key,
};
use crate::position::shift;

verus! {

/// A key with a name of its own: neither a character nor a key under a
/// modifier.
pub open spec fn is_special(key: Key) -> bool {
    !(key is Alt) && !(key is Control) && !(key is Shift) && !(key is Char)
}

/// The key under all the modifiers of a key.
pub open spec fn base_key(key: Key) -> Key
    decreases key,
{
    match key {
        Key::Alt(inner) => base_key(*inner),
        Key::Control(inner) => base_key(*inner),
        Key::Shift(inner) => base_key(*inner),
        _ => key,
    }
}

/// The modifiers that a key is under.
pub open spec fn held_modifiers(key: Key) -> ConstructorKeys
    decreases key,
{
    match key {
        Key::Alt(inner) => held_modifiers(*inner).with('A'),
        Key::Control(inner) => held_modifiers(*inner).with('C'),
        Key::Shift(inner) => held_modifiers(*inner).with('S'),
        _ => ConstructorKeys { alt: false, control: false, shift: false },
    }
}

/// A key whose modifiers are nested in the one order that the parser
/// builds: Control outside Alt outside Shift, each at most once.
pub open spec fn is_normal(key: Key) -> bool {
    key == constructed(base_key(key), held_modifiers(key))
}

/// Letters and digits only, in the first `n` characters.
spec fn all_plain(text: Seq<char>, n: int) -> bool
    decreases n,
{
    n <= 0 || ((is_ascii_letter(text[n - 1]) || is_digit(text[n - 1])) && all_plain(text, n - 1))
}

proof fn lemma_all_plain(text: Seq<char>, n: int)
    requires
        all_plain(text, n),
    ensures
        forall|i: int| 0 <= i < n ==> is_ascii_letter(#[trigger] text[i]) || is_digit(text[i]),
    decreases n,
{
    if n > 0 {
        lemma_all_plain(text, n - 1);
    }
}

/// The name of a special key is made of two to nine letters and digits,
/// and stands for that key alone.
pub proof fn lemma_special_name(key: Key)
    requires
        is_special(key),
    ensures
        2 <= key_name(key).len() <= 9,
        forall|i: int|
            0 <= i < key_name(key).len() ==> is_ascii_letter(#[trigger] key_name(key)[i])
                || is_digit(key_name(key)[i]),
        special_key_of(key_name(key)) == Some(key),
{
    reveal_strlit("Backspace");
    reveal_strlit("Delete");
    reveal_strlit("Down");
    reveal_strlit("End");
    reveal_strlit("Enter");
    reveal_strlit("Esc");
    reveal_strlit("F1");
    reveal_strlit("F2");
    reveal_strlit("F3");
    reveal_strlit("F4");
    reveal_strlit("F5");
    reveal_strlit("F6");
    reveal_strlit("F7");
    reveal_strlit("F8");
    reveal_strlit("F9");
    reveal_strlit("F10");
    reveal_strlit("F11");
    reveal_strlit("F12");
    reveal_strlit("Home");
    reveal_strlit("Insert");
    reveal_strlit("Left");
    reveal_strlit("PageDown");
    reveal_strlit("PageUp");
    reveal_strlit("Right");
    reveal_strlit("Space");
    reveal_strlit("Tab");
    reveal_strlit("Up");
    let name = key_name(key);
    assert(all_plain(name, name.len() as int)) by {
        reveal_with_fuel(all_plain, 10);
    }
    lemma_all_plain(name, name.len() as int);
}

/// A bracketed text without `>` inside closes at its last character.
proof fn lemma_bracket_close(inner: Seq<char>)
    requires
        forall|i: int| 0 <= i < inner.len() ==> inner[i] != '>',
    ensures
        ("<"@ + inner + ">"@).len() == inner.len() + 2,
        ("<"@ + inner + ">"@)[0] == '<',
        position_of("<"@ + inner + ">"@, '>', 1) == inner.len() + 1,
        ("<"@ + inner + ">"@).subrange(1, inner.len() as int + 1) == inner,
        ("<"@ + inner + ">"@).skip(inner.len() as int + 2).len() == 0,
{
    reveal_strlit("<");
    reveal_strlit(">");
    let text = "<"@ + inner + ">"@;
    lemma_position_of(text, '>', 1);
    let close = position_of(text, '>', 1);
    assert(text[inner.len() as int + 1] == '>');
    if close < inner.len() + 1 {
        assert(text[close] == inner[close - 1]);
    }
    assert(text.subrange(1, inner.len() as int + 1) =~= inner);
}

/// A modifier in front of a text is one more modifier of the text.
proof fn lemma_modifier_prefix(letter: char, rest: Seq<char>)
    requires
        letter == 'A' || letter == 'C' || letter == 'S',
    ensures
        modifiers_len(seq![letter, '-'] + rest) == 2 + modifiers_len(rest),
        modifiers(seq![letter, '-'] + rest) == modifiers(rest).with(letter),
        (seq![letter, '-'] + rest).skip(2 + modifiers_len(rest)) == rest.skip(modifiers_len(rest)),
{
    let text = seq![letter, '-'] + rest;
    assert(has_modifier(text));
    assert(text.skip(2) =~= rest);
    lemma_modifiers_len(rest);
    assert(text.skip(2 + modifiers_len(rest)) =~= rest.skip(modifiers_len(rest)));
}

/// How the modifiers of a key are written: Control first, Shift last.
pub open spec fn modifiers_text(modifiers: ConstructorKeys) -> Seq<char> {
    (if modifiers.control {
        seq!['C', '-']
    } else {
        Seq::empty()
    }) + (if modifiers.alt {
        seq!['A', '-']
    } else {
        Seq::empty()
    }) + (if modifiers.shift {
        seq!['S', '-']
    } else {
        Seq::empty()
    })
}

/// A key under modifiers is written as its modifiers, then the key.
pub proof fn lemma_name_of_constructed(base: Key, modifiers: ConstructorKeys)
    ensures
        key_name(constructed(base, modifiers)) == modifiers_text(modifiers) + key_name(base),
{
    reveal_strlit("A-");
    reveal_strlit("C-");
    reveal_strlit("S-");
    assert("S-"@ =~= seq!['S', '-']);
    assert("A-"@ =~= seq!['A', '-']);
    assert("C-"@ =~= seq!['C', '-']);
    let bare = key_name(base);
    let with_shift = if modifiers.shift {
        Key::Shift(Box::new(base))
    } else {
        base
    };
    let with_alt = if modifiers.alt {
        Key::Alt(Box::new(with_shift))
    } else {
        with_shift
    };
    let shift_text = if modifiers.shift {
        seq!['S', '-'] + bare
    } else {
        bare
    };
    let alt_text = if modifiers.alt {
        seq!['A', '-'] + shift_text
    } else {
        shift_text
    };
    let control_text = if modifiers.control {
        seq!['C', '-'] + alt_text
    } else {
        alt_text
    };
    assert(key_name(with_shift) == shift_text);
    assert(key_name(with_alt) == alt_text);
    assert(key_name(constructed(base, modifiers)) == control_text);
    assert(control_text =~= modifiers_text(modifiers) + bare);
}

/// Written modifiers in front of a text that starts with none are the
/// modifiers of the whole, and the text is what follows them.
pub proof fn lemma_modifiers_of_written(modifiers: ConstructorKeys, bare: Seq<char>)
    requires
        !has_modifier(bare),
    ensures
        crate::key::modifiers(modifiers_text(modifiers) + bare) == modifiers,
        modifiers_len(modifiers_text(modifiers) + bare) == modifiers_text(modifiers).len(),
        (modifiers_text(modifiers) + bare).skip(modifiers_text(modifiers).len() as int) == bare,
        modifiers_text(modifiers).len() > 0 <==> modifiers.any(),
        forall|i: int|
            0 <= i < modifiers_text(modifiers).len() ==> modifiers_text(modifiers)[i] != '>',
{
    assert(bare.skip(0) =~= bare);
    let shift_text = if modifiers.shift {
        seq!['S', '-'] + bare
    } else {
        bare
    };
    let alt_text = if modifiers.alt {
        seq!['A', '-'] + shift_text
    } else {
        shift_text
    };
    let control_text = if modifiers.control {
        seq!['C', '-'] + alt_text
    } else {
        alt_text
    };
    if modifiers.shift {
        lemma_modifier_prefix('S', bare);
    }
    if modifiers.alt {
        lemma_modifier_prefix('A', shift_text);
    }
    if modifiers.control {
        lemma_modifier_prefix('C', alt_text);
    }
    assert(control_text =~= modifiers_text(modifiers) + bare);
    assert(crate::key::modifiers(control_text) == modifiers);
    assert(control_text.skip(modifiers_len(control_text)) == bare);
    assert(control_text.skip(modifiers_text(modifiers).len() as int) =~= bare);
}

/// The keys that the round trip holds of: a special key under any
/// modifiers, a letter under at least one modifier, or, under none, a
/// character that stands for its own key.
pub open spec fn can_be_written(base: Key, modifiers: ConstructorKeys) -> bool {
    ||| is_special(base)
    ||| (base matches Key::Char(character) && if modifiers.any() {
        is_ascii_letter(character)
    } else {
        plain_key(character) && character != '<'
    })
}

/// A name that stands for a special key is that key's name.
pub proof fn lemma_special_key_of(name: Seq<char>)
    ensures
        special_key_of(name) matches Some(key) ==> is_special(key) && key_name(key) == name,
{
}

/// What the text of a key under its modifiers gives between the brackets:
/// the key.
proof fn lemma_bracketed_round_trip(base: Key, modifiers: ConstructorKeys, line: u32, column: u32)
    requires
        can_be_written(base, modifiers),
        !(base is Char && !modifiers.any()),
    ensures
        bracketed_key_spec(key_name(constructed(base, modifiers)), line, column) == Ok::<
            (Key, int),
            crate::errors::ErrorView,
        >((constructed(base, modifiers), key_name(constructed(base, modifiers)).len() as int + 2)),
        forall|i: int|
            0 <= i < key_name(constructed(base, modifiers)).len() ==> key_name(
                constructed(base, modifiers),
            )[i] != '>',
        !(constructed(base, modifiers) is Char),
{
    let bare = key_name(base);
    if is_special(base) {
        lemma_special_name(base);
    }
    assert(forall|i: int| 0 <= i < bare.len() ==> bare[i] != '>' && bare[i] != '-');
    assert(!has_modifier(bare));
    let inner = modifiers_text(modifiers) + bare;
    lemma_name_of_constructed(base, modifiers);
    lemma_modifiers_of_written(modifiers, bare);
    if base is Char {
        lemma_special_key_of(bare);
        if special_key_of(bare) is Some {
            lemma_special_name(special_key_of(bare)->Some_0);
        }
        assert(special_key_of(bare) is None);
    }
    if !modifiers.any() {
        assert(inner =~= bare);
    }
}

/// Round trip: a key written as the configuration writes it, and parsed
/// again, is the same key and nothing else. This holds of every special
/// key and every letter under every combination of Control, Alt and
/// Shift, and of every character that stands for its own key.
pub proof fn lemma_round_trip(base: Key, modifiers: ConstructorKeys, line: u32, column: u32)
    requires
        can_be_written(base, modifiers),
    ensures
        parse_keys_spec(key_text(constructed(base, modifiers)), line, column) == Ok::<
            Seq<Key>,
            crate::errors::ErrorView,
        >(seq![constructed(base, modifiers)]),
{
    let key = constructed(base, modifiers);
    let text = key_text(key);
    if base is Char && !modifiers.any() {
        assert(text =~= seq![base->Char_0]);
        assert(text.skip(1).len() == 0);
        assert(parse_key_spec(text, line, column) == Ok::<(Key, int), crate::errors::ErrorView>(
            (key, 1),
        ));
        assert(parse_keys_spec(text.skip(1), line, shift(column, 1)) == Ok::<
            Seq<Key>,
            crate::errors::ErrorView,
        >(Seq::empty()));
        assert(seq![key] + Seq::<Key>::empty() =~= seq![key]);
    } else {
        let inner = key_name(key);
        lemma_bracketed_round_trip(base, modifiers, line, column);
        lemma_bracket_close(inner);
        assert(text == "<"@ + inner + ">"@);
        assert(parse_key_spec(text, line, column) == bracketed_key_spec(inner, line, column));
        let size = inner.len() as int + 2;
        assert(parse_keys_spec(text.skip(size), line, shift(column, size)) == Ok::<
            Seq<Key>,
            crate::errors::ErrorView,
        >(Seq::empty()));
        assert(seq![key] + Seq::<Key>::empty() =~= seq![key]);
    }
}

/// Round trip, told of the key itself: a key whose modifiers are in the
/// parser's order and that can be written, once written and parsed again,
/// is the same key.
pub proof fn lemma_round_trip_of_key(key: Key, line: u32, column: u32)
    requires
        is_normal(key),
        can_be_written(base_key(key), held_modifiers(key)),
    ensures
        parse_keys_spec(key_text(key), line, column) == Ok::<Seq<Key>, crate::errors::ErrorView>(
            seq![key],
        ),
{
    lemma_round_trip(base_key(key), held_modifiers(key), line, column);
}

/// A key that is put under modifiers is in the parser's order.
pub proof fn lemma_constructed_is_normal(base: Key, modifiers: ConstructorKeys)
    requires
        is_special(base) || base is Char,
    ensures
        base_key(constructed(base, modifiers)) == base,
        held_modifiers(constructed(base, modifiers)) == modifiers,
        is_normal(constructed(base, modifiers)),
{
    reveal_with_fuel(base_key, 4);
    reveal_with_fuel(held_modifiers, 4);
}

/// Every key that the parser gives has its modifiers in the one order:
/// Control outside Alt outside Shift, whatever the order in the text.
pub proof fn lemma_parsed_key_is_normal(input: Seq<char>, line: u32, column: u32)
    ensures
        parse_key_spec(input, line, column) matches Ok((key, _)) ==> is_normal(key),
{
    if parse_key_spec(input, line, column) is Ok {
        if input.len() > 0 && input[0] == '<' {
            let inner = input.subrange(1, position_of(input, '>', 1));
            let end = inner.skip(modifiers_len(inner));
            lemma_special_key_of(inner);
            lemma_special_key_of(end);
            if special_key_of(inner) is Some {
                lemma_constructed_is_normal(
                    special_key_of(inner)->Some_0,
                    ConstructorKeys { alt: false, control: false, shift: false },
                );
            }
            if special_key_of(end) is Some {
                lemma_constructed_is_normal(special_key_of(end)->Some_0, modifiers(inner));
            } else if end.len() == 1 {
                lemma_constructed_is_normal(Key::Char(end[0]), modifiers(inner));
            }
        }
    }
}

/// Every key of a parsed word has its modifiers in the one order.
pub proof fn lemma_parsed_keys_are_normal(input: Seq<char>, line: u32, column: u32)
    ensures
        parse_keys_spec(input, line, column) matches Ok(keys) ==> forall|i: int|
            0 <= i < keys.len() ==> is_normal(#[trigger] keys[i]),
    decreases input.len(),
{
    if input.len() > 0 {
        lemma_parsed_key_is_normal(input, line, column);
        crate::key::lemma_parse_key_size(input, line, column);
        if let Ok((key, size)) = parse_key_spec(input, line, column) {
            lemma_parsed_keys_are_normal(input.skip(size), line, shift(column, size));
        }
    }
}

/// Modifier order: the key that a bracketed text stands for depends on
/// which modifiers are written before the name, not on their order, nor on
/// how often each is written.
pub proof fn lemma_modifier_order(first: Seq<char>, second: Seq<char>, line: u32, column: u32)
    requires
        modifiers(first) == modifiers(second),
        first.skip(modifiers_len(first)) == second.skip(modifiers_len(second)),
    ensures
        match (
            bracketed_key_spec(first, line, column),
            bracketed_key_spec(second, line, column),
        ) {
            (Ok((first_key, _)), Ok((second_key, _))) => first_key == second_key,
            (Err(_), Err(_)) => true,
            _ => false,
        },
{
    lemma_modifiers_len(first);
    lemma_modifiers_len(second);
    if modifiers_len(first) == 0 {
        assert(first.skip(0) == first);
    }
    if modifiers_len(second) == 0 {
        assert(second.skip(0) == second);
    }
}

} // verus!
