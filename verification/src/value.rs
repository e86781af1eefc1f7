//! The values of options, and how the text of a value is classified.

use vstd::prelude::*;
use vstd::slice::slice_subrange;
use crate::chars::{char_is_digit, is_digit, spells, string_of};
use crate::errors::{new_syntax_error, syntax_error, ErrorView, Result};
use crate::key::position_of;
use crate::string::{trim, trimmed};

verus! {

/// What a `Value` holds.
pub enum ValueView {
    Bool(bool),
    Float(Seq<char>),
    Int(i64),
    Str(Seq<char>),
}

/// The value of an option, with its type.
#[derive(Debug, PartialEq)]
pub enum Value {
    /// Boolean value.
    Bool(bool),
    /// Floating-point value, held as the decimal text that was read: digits
    /// with at most one point among them.
    Float(String),
    /// Integer value.
    Int(i64),
    /// String value.
    Str(String),
}

impl View for Value {
    type V = ValueView;

    open spec fn view(&self) -> ValueView {
        match *self {
            Value::Bool(value) => ValueView::Bool(value),
            Value::Float(text) => ValueView::Float(text@),
            Value::Int(value) => ValueView::Int(value),
            Value::Str(text) => ValueView::Str(text@),
        }
    }
}

impl ValueView {
    /// Whether a value is one that the parser gives: the text of a
    /// floating-point number writes a decimal number.
    pub open spec fn well_formed(self) -> bool {
        self matches ValueView::Float(text) ==> is_decimal(text)
    }

    /// The name of the type of a value.
    pub open spec fn kind(self) -> Seq<char> {
        match self {
            ValueView::Bool(_) => "bool"@,
            ValueView::Float(_) => "float"@,
            ValueView::Int(_) => "int"@,
            ValueView::Str(_) => "string"@,
        }
    }
}

impl Value {
    /// The name of the type of the value.
    pub fn to_type(&self) -> (name: &'static str)
        ensures
            name@ == self@.kind(),
    {
        match *self {
            Value::Bool(_) => "bool",
            Value::Float(_) => "float",
            Value::Int(_) => "int",
            Value::Str(_) => "string",
        }
    }
}

/// Whether a text is made of decimal digits only.
pub open spec fn all_digits(text: Seq<char>) -> bool {
    forall|i: int| 0 <= i < text.len() ==> is_digit(#[trigger] text[i])
}

/// Whether a text is made of decimal digits and points only.
pub open spec fn all_digits_or_points(text: Seq<char>) -> bool {
    forall|i: int| 0 <= i < text.len() ==> is_digit(#[trigger] text[i]) || text[i] == '.'
}

/// The number of points in a text.
pub open spec fn points(text: Seq<char>) -> nat
    decreases text.len(),
{
    if text.len() == 0 {
        0
    } else {
        points(text.drop_last()) + if text.last() == '.' {
            1nat
        } else {
            0nat
        }
    }
}

/// The number that a text of decimal digits writes.
pub open spec fn digits_value(text: Seq<char>) -> nat
    decreases text.len(),
{
    if text.len() == 0 {
        0
    } else {
        digits_value(text.drop_last()) * 10 + (text.last() as nat - 48) as nat
    }
}

/// Whether a text writes a decimal number: digits and at most one point,
/// with one digit at least.
pub open spec fn is_decimal(text: Seq<char>) -> bool {
    all_digits_or_points(text) && points(text) <= 1 && points(text) < text.len()
}

/// The value that a text which is not empty stands for. `true` and `false`
/// are booleans; digits alone are an integer, if the number fits; digits
/// with at most one point are a floating-point number, and so are digits
/// alone that are too many for an integer; anything else is a string.
pub open spec fn classify(text: Seq<char>) -> ValueView {
    if text == "true"@ {
        ValueView::Bool(true)
    } else if text == "false"@ {
        ValueView::Bool(false)
    } else if all_digits(text) && digits_value(text) <= i64::MAX {
        ValueView::Int(digits_value(text) as i64)
    } else if is_decimal(text) {
        ValueView::Float(text)
    } else {
        ValueView::Str(text)
    }
}

/// The part of a text before its comment: before the first `#`.
pub open spec fn before_comment(text: Seq<char>) -> Seq<char> {
    text.take(position_of(text, '#', 0))
}

/// What `value` answers: what the text before the comment stands for, once
/// the white space round it is cut; an error at `column` if nothing is
/// left.
pub open spec fn value_spec(input: Seq<char>, line: u32, column: u32) -> core::result::Result<
    ValueView,
    ErrorView,
> {
    let text = trimmed(before_comment(input));
    if text.len() == 0 {
        Err(syntax_error("<end of line>"@, "value"@, line, column))
    } else {
        Ok(classify(text))
    }
}

/// What a value, or an error, holds.
pub open spec fn value_result_view(result: Result<Value>) -> core::result::Result<
    ValueView,
    ErrorView,
> {
    match result {
        Ok(value) => Ok(value@),
        Err(error) => Err(error@),
    }
}

/// What was seen of a text that may write a number: whether it is made of
/// digits alone, whether it writes a decimal number, and the integer that
/// it writes, if it writes one that fits.
pub struct Digits {
    pub all_digits: bool,
    pub decimal: bool,
    pub value: Option<i64>,
}

/// Reads a text as a number.
pub fn read_digits(text: &[char]) -> (digits: Digits)
    ensures
        digits.all_digits == all_digits(text@),
        digits.decimal == is_decimal(text@),
        digits.value is Some <==> all_digits(text@) && digits_value(text@) <= i64::MAX,
        digits.value matches Some(value) ==> value == digits_value(text@),
{
    let mut all_digits = true;
    let mut plain = true;
    let mut point_count: usize = 0;
    let mut value: Option<i64> = Some(0);
    let mut i: usize = 0;
    proof {
        assert(text@.take(0) =~= Seq::<char>::empty());
    }
    while i < text.len()
        invariant
            i <= text.len(),
            all_digits == crate::value::all_digits(text@.take(i as int)),
            plain == all_digits_or_points(text@.take(i as int)),
            point_count == points(text@.take(i as int)),
            point_count <= i,
            value is Some <==> all_digits && digits_value(text@.take(i as int)) <= i64::MAX,
            value matches Some(number) ==> number == digits_value(text@.take(i as int)),
        decreases text.len() - i,
    {
        let character = text[i];
        let ghost before = text@.take(i as int);
        let ghost after = text@.take(i + 1);
        proof {
            assert(after.drop_last() == before);
            assert(after.last() == character);
            assert(forall|j: int| 0 <= j < i ==> after[j] == before[j]);
            if crate::value::all_digits(after) {
                assert forall|j: int| 0 <= j < before.len() implies is_digit(
                    #[trigger] before[j],
                ) by {
                    assert(is_digit(after[j]));
                }
            }
            if all_digits_or_points(after) {
                assert forall|j: int| 0 <= j < before.len() implies is_digit(#[trigger] before[j])
                    || before[j] == '.' by {
                    assert(is_digit(after[j]) || after[j] == '.');
                }
            }
            if !is_digit(character) {
                assert(!is_digit(after[i as int]));
            }
            if !is_digit(character) && character != '.' {
                assert(!(is_digit(after[i as int]) || after[i as int] == '.'));
            }
        }
        if char_is_digit(character) {
            let digit: i64 = (character as u32 - 48) as i64;
            value =
            match value {
                Some(number) => {
                    if number <= (i64::MAX - digit) / 10 {
                        Some(number * 10 + digit)
                    } else {
                        None
                    }
                },
                None => None,
            };
            proof {
                lemma_digits_grow(before, character);
            }
        } else {
            all_digits = false;
            value = None;
            if character == '.' {
                point_count += 1;
            } else {
                plain = false;
            }
        }
        i += 1;
    }
    proof {
        assert(text@.take(text.len() as int) == text@);
    }
    Digits { all_digits, decimal: plain && point_count <= 1 && point_count < text.len(), value }
}

/// One more digit makes a number ten times as large at least.
proof fn lemma_digits_grow(before: Seq<char>, digit: char)
    requires
        is_digit(digit),
    ensures
        digits_value(before.push(digit)) == digits_value(before) * 10 + (digit as nat - 48),
        digits_value(before.push(digit)) >= digits_value(before),
{
    assert(before.push(digit).drop_last() == before);
    assert(before.push(digit).last() == digit);
}

/// Parses a value: the text of a `set` line behind `=`. `column` is the
/// column of the first character of the text.
pub fn value(input: &[char], line: u32, column: u32) -> (result: Result<Value>)
    ensures
        value_result_view(result) == value_spec(input@, line, column),
{
    let mut end: usize = 0;
    while end < input.len() && input[end] != '#'
        invariant
            end <= input.len(),
            position_of(input@, '#', 0) == position_of(input@, '#', end as int),
        decreases input.len() - end,
    {
        end += 1;
    }
    let text = trim(slice_subrange(input, 0, end));
    proof {
        assert(input@.subrange(0, end as int) == before_comment(input@));
    }
    if text.len() == 0 {
        return Err(
            new_syntax_error(
                crate::chars::to_chars("<end of line>").as_slice(),
                "value",
                line,
                column,
            ),
        );
    }
    Ok(classified(text))
}

/// Tells what a text stands for: a boolean, an integer, a floating-point
/// number or a string.
pub fn classified(text: &[char]) -> (value: Value)
    ensures
        value@ == classify(text@),
        value@.well_formed(),
{
    if spells(text, "true") {
        return Value::Bool(true);
    }
    if spells(text, "false") {
        return Value::Bool(false);
    }
    let digits = read_digits(text);
    match digits.value {
        Some(number) => Value::Int(number),
        None => {
            if digits.decimal {
                Value::Float(string_of(text))
            } else {
                Value::Str(string_of(text))
            }
        },
    }
}

} // verus!
