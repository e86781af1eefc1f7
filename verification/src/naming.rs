//! The names of commands and settings: from the names in the program to
//! the names in a configuration.

use vstd::prelude::*;
use vstd::string::StringExecFns;
use crate::chars::{
    char_is_uppercase,
    char_to_lowercase,
    char_to_uppercase,
    is_uppercase,
    lowercase,
    string_views,
    to_chars,
    uppercase,
};
use crate::string::{capitalized, replace_first};

verus! {

/// Each character of a text in upper case.
pub open spec fn uppercases(text: Seq<char>) -> Seq<Seq<char>> {
    text.map_values(|character: char| uppercase(character))
}

/// Each character of a text in lower case.
pub open spec fn lowercases(text: Seq<char>) -> Seq<Seq<char>> {
    text.map_values(|character: char| lowercase(character))
}

/// Which characters of a text are upper-case letters.
pub open spec fn capitals(text: Seq<char>) -> Seq<bool> {
    text.map_values(|character: char| is_uppercase(character))
}

/// Puts each character of a text in upper case.
pub fn uppercases_of(text: &[char]) -> (upper: Vec<String>)
    ensures
        upper@.len() == text@.len(),
        string_views(upper@) == uppercases(text@),
{
    let mut upper: Vec<String> = Vec::new();
    let mut i: usize = 0;
    while i < text.len()
        invariant
            i <= text.len(),
            upper@.len() == i,
            forall|j: int| 0 <= j < i ==> (#[trigger] upper@[j])@ == uppercase(text@[j]),
        decreases text.len() - i,
    {
        upper.push(char_to_uppercase(text[i]));
        i += 1;
    }
    assert(string_views(upper@) =~= uppercases(text@));
    upper
}

/// Puts each character of a text in lower case.
pub fn lowercases_of(text: &[char]) -> (lower: Vec<String>)
    ensures
        lower@.len() == text@.len(),
        string_views(lower@) == lowercases(text@),
{
    let mut lower: Vec<String> = Vec::new();
    let mut i: usize = 0;
    while i < text.len()
        invariant
            i <= text.len(),
            lower@.len() == i,
            forall|j: int| 0 <= j < i ==> (#[trigger] lower@[j])@ == lowercase(text@[j]),
        decreases text.len() - i,
    {
        lower.push(char_to_lowercase(text[i]));
        i += 1;
    }
    assert(string_views(lower@) =~= lowercases(text@));
    lower
}

/// Tells of each character of a text whether it is an upper-case letter.
pub fn capitals_of(text: &[char]) -> (marks: Vec<bool>)
    ensures
        marks@ == capitals(text@),
{
    let mut marks: Vec<bool> = Vec::new();
    let mut i: usize = 0;
    while i < text.len()
        invariant
            i <= text.len(),
            marks@ == capitals(text@.take(i as int)),
        decreases text.len() - i,
    {
        marks.push(char_is_uppercase(text[i]));
        assert(marks@ =~= capitals(text@.take(i + 1)));
        i += 1;
    }
    assert(text@.take(text.len() as int) == text@);
    marks
}

/// A text without its underscores, from the place `index` on, where each
/// character that follows an underscore is replaced by its upper case.
/// `underscore` says whether an underscore came just before.
pub open spec fn camel_by(
    text: Seq<char>,
    upper: Seq<Seq<char>>,
    index: int,
    underscore: bool,
) -> Seq<char>
    decreases text.len() - index,
{
    if index < 0 || index >= text.len() {
        Seq::empty()
    } else if text[index] == '_' {
        camel_by(text, upper, index + 1, true)
    } else {
        (if underscore {
            upper[index]
        } else {
            seq![text[index]]
        }) + camel_by(text, upper, index + 1, false)
    }
}

/// Takes the underscores out of a text, and writes each character that
/// follows one in upper case, as `upper` gives it.
pub fn camel_case(text: &[char], upper: &Vec<String>) -> (camel: String)
    requires
        upper@.len() == text@.len(),
    ensures
        camel@ == camel_by(text@, string_views(upper@), 0, false),
{
    let mut camel = String::new();
    let mut underscore = false;
    let mut i: usize = 0;
    let ghost uppers = string_views(upper@);
    proof {
        assert(camel@ + camel_by(text@, uppers, 0, false) =~= camel_by(text@, uppers, 0, false));
    }
    while i < text.len()
        invariant
            i <= text.len(),
            upper@.len() == text@.len(),
            uppers == string_views(upper@),
            camel_by(text@, uppers, 0, false) == camel@ + camel_by(
                text@,
                uppers,
                i as int,
                underscore,
            ),
        decreases text.len() - i,
    {
        let character = text[i];
        let ghost before = camel@;
        let ghost was = underscore;
        if character == '_' {
            underscore = true;
        } else {
            if underscore {
                camel.append(upper[i].as_str());
            } else {
                camel.push(character);
            }
            underscore = false;
            proof {
                let piece = if was {
                    uppers[i as int]
                } else {
                    seq![character]
                };
                let rest = camel_by(text@, uppers, i + 1, false);
                assert(camel@ =~= before + piece);
                assert(before + (piece + rest) =~= camel@ + rest);
            }
        }
        i += 1;
    }
    proof {
        assert(camel@ + Seq::<char>::empty() =~= camel@);
    }
    camel
}

/// What `snake_to_camel` answers: the text with its first character in
/// upper case, and with each underscore gone and the character behind it
/// in upper case.
pub open spec fn snake_to_camel_spec(text: Seq<char>) -> Seq<char> {
    camel_by(capitalized(text), uppercases(capitalized(text)), 0, false)
}

/// Converts a snake case name to camel case: `win_open` to `WinOpen`.
pub fn snake_to_camel(string: &str) -> (camel: String)
    ensures
        camel@ == snake_to_camel_spec(string@),
{
    let chars = to_chars(string);
    let capital = if chars.len() > 0 {
        let first = char_to_uppercase(chars[0]);
        replace_first(chars.as_slice(), first.as_str())
    } else {
        Vec::new()
    };
    assert(capital@ =~= capitalized(string@));
    let upper = uppercases_of(capital.as_slice());
    camel_case(capital.as_slice(), &upper)
}

/// The characters of a name from `index` on, each replaced by its lower
/// case, with a dash before each that is marked as upper case, but for the
/// first of the name.
pub open spec fn dashed_by(lower: Seq<Seq<char>>, capital: Seq<bool>, index: int) -> Seq<char>
    decreases lower.len() - index,
{
    if index < 0 || index >= lower.len() {
        Seq::empty()
    } else {
        (if capital[index] && index > 0 {
            seq!['-']
        } else {
            Seq::empty()
        }) + lower[index] + dashed_by(lower, capital, index + 1)
    }
}

/// Writes a name in lower case, as `lower` gives each of its characters,
/// with a dash before each character that `capital` marks, but for the
/// first.
pub fn dash_case(lower: &Vec<String>, capital: &[bool]) -> (result: String)
    requires
        lower@.len() == capital@.len(),
    ensures
        result@ == dashed_by(string_views(lower@), capital@, 0),
{
    let mut result = String::new();
    let mut index: usize = 0;
    let ghost lowers = string_views(lower@);
    proof {
        assert(result@ + dashed_by(lowers, capital@, 0) =~= dashed_by(lowers, capital@, 0));
    }
    while index < lower.len()
        invariant
            index <= lower.len(),
            lower@.len() == capital@.len(),
            lowers == string_views(lower@),
            dashed_by(lowers, capital@, 0) == result@ + dashed_by(lowers, capital@, index as int),
        decreases lower.len() - index,
    {
        let ghost before = result@;
        if capital[index] && index > 0 {
            result.push('-');
        }
        result.append(lower[index].as_str());
        proof {
            let dash = if capital@[index as int] && index > 0 {
                seq!['-']
            } else {
                Seq::<char>::empty()
            };
            let rest = dashed_by(lowers, capital@, index + 1);
            assert(result@ =~= before + dash + lowers[index as int]);
            assert(before + (dash + lowers[index as int] + rest) =~= result@ + rest);
        }
        index += 1;
    }
    proof {
        assert(result@ + Seq::<char>::empty() =~= result@);
    }
    result
}

/// What `to_dash_name` answers: the name in lower case, with a dash before
/// each character that was in upper case, but for the first.
pub open spec fn to_dash_name_spec(name: Seq<char>) -> Seq<char> {
    dashed_by(lowercases(name), capitals(name), 0)
}

/// Transforms a camel case name to its dashed version: `WinOpen` to
/// `win-open`.
pub fn to_dash_name(name: &str) -> (result: String)
    ensures
        result@ == to_dash_name_spec(name@),
{
    let chars = to_chars(name);
    let lower = lowercases_of(chars.as_slice());
    let capital = capitals_of(chars.as_slice());
    dash_case(&lower, capital.as_slice())
}

} // verus!
