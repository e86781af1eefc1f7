//! Characters and runs of characters: the kinds of characters that the
//! scanner goes by, and the passage between strings and their characters.
//!
//! What kind a character is, and what its upper and lower case are, is
//! asked of `char`. Nothing of it is proved here: each answer has a name,
//! and the rest of the library is proved for whatever the answers are.

use vstd::prelude::*;

verus! {

/// Whether a character is white space: what `char::is_whitespace` answers.
pub uninterp spec fn is_whitespace(c: char) -> bool;

/// Whether a character is a letter: what `char::is_alphabetic` answers.
pub uninterp spec fn is_alphabetic(c: char) -> bool;

/// Whether a character is a letter or a number: what `char::is_alphanumeric`
/// answers.
pub uninterp spec fn is_alphanumeric(c: char) -> bool;

/// Whether a character is a number: what `char::is_numeric` answers.
pub uninterp spec fn is_numeric(c: char) -> bool;

/// Whether a character is an upper-case letter: what `char::is_uppercase`
/// answers.
pub uninterp spec fn is_uppercase(c: char) -> bool;

/// A character in upper case: the characters that `char::to_uppercase`
/// gives, which may be several.
pub uninterp spec fn uppercase(c: char) -> Seq<char>;

/// A character in lower case: the characters that `char::to_lowercase`
/// gives, which may be several.
pub uninterp spec fn lowercase(c: char) -> Seq<char>;

/// Calls `char::is_whitespace`. Nothing is proved of the answer: it is
/// given the name `is_whitespace`.
#[verifier::external_body]
pub(crate) fn char_is_whitespace(c: char) -> (b: bool)
    ensures
        b == is_whitespace(c),
{
    c.is_whitespace()
}

/// Calls `char::is_alphabetic`. Nothing is proved of the answer: it is
/// given the name `is_alphabetic`.
#[verifier::external_body]
pub(crate) fn char_is_alphabetic(c: char) -> (b: bool)
    ensures
        b == is_alphabetic(c),
{
    c.is_alphabetic()
}

/// Calls `char::is_alphanumeric`. Nothing is proved of the answer: it is
/// given the name `is_alphanumeric`.
#[verifier::external_body]
pub(crate) fn char_is_alphanumeric(c: char) -> (b: bool)
    ensures
        b == is_alphanumeric(c),
{
    c.is_alphanumeric()
}

/// Calls `char::is_numeric`. Nothing is proved of the answer: it is given
/// the name `is_numeric`.
#[verifier::external_body]
pub(crate) fn char_is_numeric(c: char) -> (b: bool)
    ensures
        b == is_numeric(c),
{
    c.is_numeric()
}

/// Calls `char::is_uppercase`. Nothing is proved of the answer: it is
/// given the name `is_uppercase`.
#[verifier::external_body]
pub(crate) fn char_is_uppercase(c: char) -> (b: bool)
    ensures
        b == is_uppercase(c),
{
    c.is_uppercase()
}

/// Calls `char::to_uppercase` and collects the characters that it gives
/// into a string. Nothing is proved of them: they are given the name
/// `uppercase`.
#[verifier::external_body]
pub(crate) fn char_to_uppercase(c: char) -> (s: String)
    ensures
        s@ == uppercase(c),
{
    c.to_uppercase().collect()
}

/// Calls `char::to_lowercase` and collects the characters that it gives
/// into a string. Nothing is proved of them: they are given the name
/// `lowercase`.
#[verifier::external_body]
pub(crate) fn char_to_lowercase(c: char) -> (s: String)
    ensures
        s@ == lowercase(c),
{
    c.to_lowercase().collect()
}

/// `String::push` puts one character at the end of the string, and leaves
/// the characters before it as they are.
pub assume_specification[ String::push ](s: &mut String, c: char)
    ensures
        final(s)@ == old(s)@.push(c),
;

/// A decimal digit, `0` to `9`.
pub open spec fn is_digit(c: char) -> bool {
    '0' <= c <= '9'
}

/// A letter of the ASCII alphabet.
pub open spec fn is_ascii_letter(c: char) -> bool {
    ('A' <= c <= 'Z') || ('a' <= c <= 'z')
}

/// Whether a character is a decimal digit.
pub fn char_is_digit(c: char) -> (b: bool)
    ensures
        b == is_digit(c),
{
    '0' <= c && c <= '9'
}

/// Whether a character is a letter of the ASCII alphabet.
pub fn char_is_ascii_letter(c: char) -> (b: bool)
    ensures
        b == is_ascii_letter(c),
{
    ('A' <= c && c <= 'Z') || ('a' <= c && c <= 'z')
}

/// The characters of a string, in order.
pub fn to_chars(s: &str) -> (v: Vec<char>)
    ensures
        v@ == s@,
{
    let mut v: Vec<char> = Vec::new();
    for c in it: s.chars()
        invariant
            v@ == it.seq().take(it.index() as int),
            it.seq() == s@,
    {
        v.push(c);
    }
    v
}

/// What a list of texts holds.
pub open spec fn string_views(strings: Seq<String>) -> Seq<Seq<char>> {
    strings.map_values(|string: String| string@)
}

/// The string made of the given characters.
pub fn string_of(chars: &[char]) -> (s: String)
    ensures
        s@ == chars@,
{
    let mut s = String::new();
    let mut i: usize = 0;
    while i < chars.len()
        invariant
            i <= chars.len(),
            s@ == chars@.take(i as int),
        decreases chars.len() - i,
    {
        s.push(chars[i]);
        i += 1;
    }
    s
}

/// Whether two runs of characters are the same.
pub fn same_chars(a: &[char], b: &[char]) -> (same: bool)
    ensures
        same == (a@ == b@),
{
    if a.len() != b.len() {
        return false;
    }
    let mut i: usize = 0;
    while i < a.len()
        invariant
            i <= a.len(),
            a.len() == b.len(),
            a@.take(i as int) == b@.take(i as int),
        decreases a.len() - i,
    {
        if a[i] != b[i] {
            assert(a@[i as int] != b@[i as int]);
            return false;
        }
        assert(a@.take(i + 1) == a@.take(i as int).push(a@[i as int]));
        assert(b@.take(i + 1) == b@.take(i as int).push(b@[i as int]));
        i += 1;
    }
    assert(a@ == a@.take(a.len() as int));
    assert(b@ == b@.take(b.len() as int));
    true
}

/// Whether a run of characters spells the given text.
pub fn spells(chars: &[char], text: &str) -> (same: bool)
    ensures
        same == (chars@ == text@),
{
    let other = to_chars(text);
    same_chars(chars, other.as_slice())
}

/// The character that writes a digit's value.
pub open spec fn digit_char(d: nat) -> char
    recommends
        d < 10,
{
    ((48 + d) as u8) as char
}

/// A number written in decimal, without sign or leading zeros.
pub open spec fn decimal(n: nat) -> Seq<char>
    decreases n,
{
    if n < 10 {
        seq![digit_char(n)]
    } else {
        decimal(n / 10).push(digit_char(n % 10))
    }
}

/// Writes a number in decimal at the end of a string.
pub fn push_decimal(s: &mut String, n: u64)
    ensures
        final(s)@ == old(s)@ + decimal(n as nat),
    decreases n,
{
    if n >= 10 {
        push_decimal(s, n / 10);
    }
    let d: u8 = (n % 10) as u8;
    s.push((48u8 + d) as char);
    assert(s@ =~= old(s)@ + decimal(n as nat));
}

} // verus!
