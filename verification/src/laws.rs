//! What holds of the parser on every input.

use vstd::prelude::*;
use vstd::utf8::{
    decode_utf8,
    encode_scalar,
    encode_utf8,
    has_width_1_encoding,
    has_width_2_encoding,
    has_width_3_encoding,
    last_continuation_byte,
    leading_byte_width_1,
    leading_byte_width_2,
    leading_byte_width_3,
    leading_byte_width_4,
    second_last_continuation_byte,
    third_last_continuation_byte,
    valid_utf8,
};
use crate::{CommandView, ConfigView, EnumFromStr, ParseResultView};
use crate::chars::is_digit;
use crate::errors::{syntax_error, ErrorView};
use crate::grammar::{keyword_of, line_spec, no_command, nothing, LineOutcome};
use crate::position::{saturate, shift};
use crate::stream::{
    followed,
    lemma_line_end,
    line_end,
    lines_from,
    lines_of,
    lookup,
    parse_file,
    parse_line_spec,
    parse_lines,
    parse_one,
    parse_spec,
    Outcome,
    ParserView,
};
use crate::string::{first_word, is_identifier, trimmed, words_spec};
use crate::value::{
    all_digits,
    all_digits_or_points,
    before_comment,
    classify,
    digits_value,
    points,
    ValueView,
};

verus! {

/// A line that holds no command: it is blank, or its first word starts
/// with `#`.
pub open spec fn is_silent(text: Seq<char>) -> bool {
    match first_word(text) {
        None => true,
        Some(word) => word.word[0] == '#',
    }
}

/// A blank line and a comment give nothing: no command, no error, no
/// file to read.
pub proof fn lemma_silent_line<T: EnumFromStr>(
    config: ConfigView,
    text: Seq<char>,
    line: u32,
    prefix: Option<u32>,
)
    requires
        is_silent(text),
    ensures
        line_spec::<T>(config, text, line, prefix) == nothing::<T>(),
{
    if first_word(text) is Some {
        crate::string::lemma_skip_whitespace(text, 0);
        crate::string::lemma_skip_word(text, crate::string::skip_whitespace(text, 0));
    }
}

/// Merging with nothing changes nothing.
pub proof fn lemma_merged_empty<T>(result: ParseResultView<T>)
    ensures
        result.merged(ParseResultView::empty()) == result,
        ParseResultView::<T>::empty().merged(result) == result,
{
    assert(result.commands + Seq::<CommandView<T>>::empty() =~= result.commands);
    assert(result.errors + Seq::<ErrorView>::empty() =~= result.errors);
    assert(Seq::<CommandView<T>>::empty() + result.commands =~= result.commands);
    assert(Seq::<ErrorView>::empty() + result.errors =~= result.errors);
}

/// Merging three results gives the same whichever two are merged first.
pub proof fn lemma_merged_merged<T>(
    first: ParseResultView<T>,
    second: ParseResultView<T>,
    third: ParseResultView<T>,
)
    ensures
        first.merged(second).merged(third) == first.merged(second.merged(third)),
{
    assert((first.commands + second.commands) + third.commands =~= first.commands + (
    second.commands + third.commands));
    assert((first.errors + second.errors) + third.errors =~= first.errors + (second.errors
        + third.errors));
}

/// An input of blank lines and comments gives nothing under `parse`, and
/// leaves the parser on its last line.
pub proof fn lemma_silent_lines<T: EnumFromStr>(
    parser: ParserView,
    lines: Seq<Seq<u8>>,
    number: int,
    prefix: Option<u32>,
    depth: nat,
    line: u32,
)
    requires
        forall|i: int|
            0 <= i < lines.len() ==> valid_utf8(#[trigger] lines[i]) && is_silent(
                decode_utf8(lines[i]),
            ),
    ensures
        parse_lines::<T>(parser, lines, number, prefix, depth, line).result
            == ParseResultView::<T>::empty(),
        parse_lines::<T>(parser, lines, number, prefix, depth, line).line == if lines.len() == 0 {
            line
        } else {
            saturate(number + lines.len() - 1)
        },
    decreases lines.len(),
{
    if lines.len() > 0 {
        lemma_silent_line::<T>(parser.config, decode_utf8(lines[0]), saturate(number), prefix);
        assert forall|i: int| 0 <= i < lines.drop_first().len() implies valid_utf8(
            #[trigger] lines.drop_first()[i],
        ) && is_silent(decode_utf8(lines.drop_first()[i])) by {
            assert(lines.drop_first()[i] == lines[i + 1]);
        }
        lemma_silent_lines::<T>(
            parser,
            lines.drop_first(),
            number + 1,
            prefix,
            depth,
            saturate(number),
        );
        lemma_merged_empty(ParseResultView::<T>::empty());
        assert(valid_utf8(lines[0]));
        let one = parse_one::<T>(parser, lines[0], saturate(number), prefix, depth);
        assert(one == Outcome::<T> { result: ParseResultView::empty(), line: saturate(number) });
        assert(parse_lines::<T>(parser, lines, number, prefix, depth, line) == followed(
            one.result,
            parse_lines::<T>(parser, lines.drop_first(), number + 1, prefix, depth, one.line),
        ));
    }
}

/// A valid `set` line: its first word is `set`, the next is an identifier,
/// the third is `=`, and something stands behind it before any comment.
/// Such a line gives exactly one command, which sets the option of that
/// name to what the text behind `=` stands for, and no error.
pub proof fn lemma_set_line<T: EnumFromStr>(
    config: ConfigView,
    text: Seq<char>,
    line: u32,
    prefix: Option<u32>,
)
    requires
        first_word(text) matches Some(word) && word.word == "set"@ && text.len() > word.index + 4,
        words_spec(text.skip(first_word(text)->Some_0.index + 4), 2) matches Some(words)
            && is_identifier(words[0].word) && words[1].word == "="@ && trimmed(
            before_comment(
                text.skip(first_word(text)->Some_0.index + 4).skip(words[1].index + 1),
            ),
        ).len() > 0,
    ensures
        ({
            let rest = text.skip(first_word(text)->Some_0.index + 4);
            let words = words_spec(rest, 2)->Some_0;
            let value = classify(trimmed(before_comment(rest.skip(words[1].index + 1))));
            line_spec::<T>(config, text, line, prefix) == (LineOutcome::<T> {
                result: ParseResultView {
                    commands: seq![CommandView::Setting(words[0].word, value)],
                    errors: Seq::empty(),
                },
                file: None,
            })
        }),
{
    reveal_strlit("set");
    reveal_strlit("include");
    let word = first_word(text)->Some_0;
    assert(word.word.len() == 3);
    assert(keyword_of(word.word, config.mapping_modes) is Assign);
}

/// A `set` line whose second word is no identifier gives no command, and
/// one error at that word.
pub proof fn lemma_set_line_without_identifier<T: EnumFromStr>(
    config: ConfigView,
    text: Seq<char>,
    line: u32,
    prefix: Option<u32>,
)
    requires
        first_word(text) matches Some(word) && word.word == "set"@ && text.len() > word.index + 4,
        words_spec(text.skip(first_word(text)->Some_0.index + 4), 2) matches Some(words)
            && !is_identifier(words[0].word),
    ensures
        ({
            let start = first_word(text)->Some_0.index + 4;
            let name = words_spec(text.skip(start), 2)->Some_0[0];
            line_spec::<T>(config, text, line, prefix) == (LineOutcome::<T> {
                result: ParseResultView {
                    commands: Seq::empty(),
                    errors: seq![
                        syntax_error(
                            name.word,
                            "identifier"@,
                            line,
                            shift(saturate(start + 1), name.index),
                        ),
                    ],
                },
                file: None,
            })
        }),
{
    reveal_strlit("set");
    reveal_strlit("include");
    let word = first_word(text)->Some_0;
    assert(word.word.len() == 3);
    assert(keyword_of(word.word, config.mapping_modes) is Assign);
}

/// Parsing lines one after the other is parsing them all at once: the
/// commands and errors of the first lines come first, and the lines
/// behind them keep their numbers.
pub proof fn lemma_parse_lines_concat<T: EnumFromStr>(
    parser: ParserView,
    first: Seq<Seq<u8>>,
    second: Seq<Seq<u8>>,
    number: int,
    prefix: Option<u32>,
    depth: nat,
    line: u32,
)
    ensures
        ({
            let head = parse_lines::<T>(parser, first, number, prefix, depth, line);
            parse_lines::<T>(parser, first + second, number, prefix, depth, line) == followed(
                head.result,
                parse_lines::<T>(parser, second, number + first.len(), prefix, depth, head.line),
            )
        }),
    decreases first.len(),
{
    let head = parse_lines::<T>(parser, first, number, prefix, depth, line);
    let tail = parse_lines::<T>(parser, second, number + first.len(), prefix, depth, head.line);
    if first.len() == 0 {
        assert(first + second =~= second);
        lemma_merged_empty(tail.result);
    } else {
        let one = parse_one::<T>(parser, first[0], saturate(number), prefix, depth);
        assert((first + second)[0] == first[0]);
        assert((first + second).drop_first() =~= first.drop_first() + second);
        lemma_parse_lines_concat::<T>(
            parser,
            first.drop_first(),
            second,
            number + 1,
            prefix,
            depth,
            one.line,
        );
        let rest = parse_lines::<T>(parser, first.drop_first(), number + 1, prefix, depth, one.line);
        lemma_merged_merged(one.result, rest.result, tail.result);
    }
}

/// Merging of files: a configuration with a line that names a file gives
/// what the lines before that line give, then the errors of the line
/// itself, then what the file gives, then what the lines behind give, each
/// in its own order. The file is one that the parser was given, and fewer
/// files are open than may be.
pub proof fn lemma_include_merges<T: EnumFromStr>(
    parser: ParserView,
    before: Seq<Seq<u8>>,
    naming: Seq<u8>,
    after: Seq<Seq<u8>>,
    name: Seq<char>,
    content: Seq<u8>,
    prefix: Option<u32>,
    depth: nat,
    line: u32,
)
    requires
        valid_utf8(naming),
        line_spec::<T>(
            parser.config,
            decode_utf8(naming),
            saturate(before.len() as int + 1),
            prefix,
        ).file == Some(name),
        lookup(parser.files, name) == Some(Ok::<Seq<u8>, Seq<char>>(content)),
        depth > 0,
    ensures
        ({
            let number = saturate(before.len() as int + 1);
            let head = parse_lines::<T>(parser, before, 1, prefix, depth, line);
            let own = line_spec::<T>(parser.config, decode_utf8(naming), number, prefix).result;
            let file = parse_lines::<T>(
                parser,
                lines_of(content),
                1,
                None,
                (depth - 1) as nat,
                number,
            );
            let tail = parse_lines::<T>(
                parser,
                after,
                before.len() as int + 2,
                prefix,
                depth,
                file.line,
            );
            parse_lines::<T>(parser, before + seq![naming] + after, 1, prefix, depth, line)
                == followed(head.result.merged(own).merged(file.result), tail)
        }),
{
    let number = saturate(before.len() as int + 1);
    let head = parse_lines::<T>(parser, before, 1, prefix, depth, line);
    let own = line_spec::<T>(parser.config, decode_utf8(naming), number, prefix).result;
    let file = parse_lines::<T>(parser, lines_of(content), 1, None, (depth - 1) as nat, number);
    let tail = parse_lines::<T>(parser, after, before.len() as int + 2, prefix, depth, file.line);
    let rest = seq![naming] + after;
    assert(before + seq![naming] + after =~= before + rest);
    lemma_parse_lines_concat::<T>(parser, before, rest, 1, prefix, depth, line);
    assert(rest[0] == naming);
    assert(rest.drop_first() =~= after);
    let one = parse_one::<T>(parser, naming, number, prefix, depth);
    assert(one == followed(own, parse_file::<T>(parser, name, depth, number)));
    assert(parse_file::<T>(parser, name, depth, number) == file);
    assert(parse_lines::<T>(parser, rest, before.len() as int + 1, prefix, depth, head.line) == followed(
        one.result,
        tail,
    ));
    lemma_merged_merged(head.result, own.merged(file.result), tail.result);
    lemma_merged_merged(head.result, own, file.result);
}

/// Digits alone, as many as fit an integer, are an integer: the number
/// that they write.
pub proof fn lemma_classify_integer(text: Seq<char>)
    requires
        text.len() > 0,
        all_digits(text),
        digits_value(text) <= i64::MAX,
    ensures
        classify(text) == ValueView::Int(digits_value(text) as i64),
{
    reveal_strlit("true");
    reveal_strlit("false");
    assert(is_digit(text[0]));
}

/// Digits with one point among them are a floating-point number, kept as
/// they are written.
pub proof fn lemma_classify_float(text: Seq<char>)
    requires
        all_digits_or_points(text),
        points(text) == 1,
        text.len() > 1,
    ensures
        classify(text) == ValueView::Float(text),
{
    reveal_strlit("true");
    reveal_strlit("false");
    assert(is_digit(text[0]) || text[0] == '.');
    lemma_points_found(text);
}

/// A text with a point is not made of digits alone.
proof fn lemma_points_found(text: Seq<char>)
    requires
        points(text) > 0,
    ensures
        !all_digits(text),
    decreases text.len(),
{
    if text.len() > 0 {
        if text.last() == '.' {
            assert(!is_digit(text[text.len() - 1]));
        } else {
            lemma_points_found(text.drop_last());
            let i = choose|i: int| 0 <= i < text.drop_last().len() && !is_digit(text.drop_last()[i]);
            assert(text[i] == text.drop_last()[i]);
        }
    }
}

/// Any other text is a string, kept as it is: a text that is neither
/// `true` nor `false`, and that holds two points, or a character that is
/// neither a digit nor a point.
pub proof fn lemma_classify_string(text: Seq<char>)
    requires
        text != "true"@,
        text != "false"@,
        points(text) >= 2 || !all_digits_or_points(text),
    ensures
        classify(text) == ValueView::Str(text),
{
    if points(text) >= 2 {
        lemma_points_found(text);
    } else {
        let i = choose|i: int| 0 <= i < text.len() && !(is_digit(#[trigger] text[i]) || text[i] == '.');
        assert(!is_digit(text[i]));
    }
}

/// The one byte of a character below 128 is the character's number.
proof fn lemma_one_byte(scalar: u32)
    by (bit_vector)
    requires
        has_width_1_encoding(scalar),
    ensures
        leading_byte_width_1(scalar) == scalar,
{
}

/// The bytes of a character of 128 or more are 128 or more each.
proof fn lemma_high_bytes(scalar: u32)
    by (bit_vector)
    ensures
        leading_byte_width_2(scalar) >= 128,
        leading_byte_width_3(scalar) >= 128,
        leading_byte_width_4(scalar) >= 128,
        last_continuation_byte(scalar) >= 128,
        second_last_continuation_byte(scalar) >= 128,
        third_last_continuation_byte(scalar) >= 128,
{
}

/// A text without a line feed is encoded without the byte of a line feed.
pub proof fn lemma_encoded_without_line_feed(text: Seq<char>)
    requires
        !text.contains('\n'),
    ensures
        !encode_utf8(text).contains(10),
    decreases text.len(),
{
    if text.len() > 0 {
        let scalar = text[0] as u32;
        let first = encode_scalar(scalar);
        let rest = encode_utf8(text.drop_first());
        assert(text.contains(text[0]));
        assert forall|i: int| 0 <= i < text.drop_first().len() implies text.drop_first()[i]
            != '\n' by {
            assert(text.contains(text[i + 1]));
        }
        lemma_encoded_without_line_feed(text.drop_first());
        if has_width_1_encoding(scalar) {
            lemma_one_byte(scalar);
        }
        lemma_high_bytes(scalar);
        vstd::utf8::char_is_scalar(text[0]);
        assert(text[0] != '\n');
        assert(scalar != 10) by {
            vstd::utf8::char_u32_cast(text[0], scalar);
            vstd::utf8::char_u32_cast('\n', 10);
        }
        assert forall|i: int| 0 <= i < first.len() implies first[i] != 10 by {
            if has_width_1_encoding(scalar) {
                assert(first[0] == leading_byte_width_1(scalar));
            } else if has_width_2_encoding(scalar) {
                assert(first[0] == leading_byte_width_2(scalar));
                assert(first[1] == last_continuation_byte(scalar));
            } else if has_width_3_encoding(scalar) {
                assert(first[0] == leading_byte_width_3(scalar));
                assert(first[1] == second_last_continuation_byte(scalar));
                assert(first[2] == last_continuation_byte(scalar));
            } else {
                assert(first[0] == leading_byte_width_4(scalar));
                assert(first[1] == third_last_continuation_byte(scalar));
                assert(first[2] == second_last_continuation_byte(scalar));
                assert(first[3] == last_continuation_byte(scalar));
            }
        }
        assert forall|i: int| 0 <= i < (first + rest).len() implies (first + rest)[i] != 10 by {
            if i >= first.len() {
                assert(rest.contains(rest[i - first.len()]));
            }
        }
    }
}

/// An input without a line feed is one line, if it is not empty.
pub proof fn lemma_single_line(bytes: Seq<u8>)
    requires
        !bytes.contains(10),
    ensures
        lines_of(bytes) == if bytes.len() == 0 {
            Seq::<Seq<u8>>::empty()
        } else {
            seq![bytes]
        },
{
    if bytes.len() > 0 {
        lemma_line_end(bytes, 0);
        let end = line_end(bytes, 0);
        if end < bytes.len() {
            assert(bytes.contains(bytes[end]));
        }
        assert(bytes.subrange(0, bytes.len() as int) =~= bytes);
        assert(lines_from(bytes, bytes.len() as int) =~= Seq::<Seq<u8>>::empty());
        assert(seq![bytes] + Seq::<Seq<u8>>::empty() =~= seq![bytes]);
    }
}

/// A blank line and a comment, alone, are an error under `parse_line`:
/// that of a line without a command, and nothing else. The error is at
/// line 1, or, for the empty text, at the line that the parser read last.
pub proof fn lemma_silent_line_is_no_command<T: EnumFromStr>(
    parser: ParserView,
    text: Seq<char>,
    prefix: Option<u32>,
)
    requires
        is_silent(text),
        !text.contains('\n'),
    ensures
        parse_spec::<T>(parser, encode_utf8(text), prefix).result == ParseResultView::<T>::empty(),
        parse_line_spec::<T>(parser, text, prefix).result == (ParseResultView::<T> {
            commands: Seq::empty(),
            errors: seq![
                no_command(
                    if text.len() == 0 {
                        parser.line
                    } else {
                        1
                    },
                ),
            ],
        }),
{
    let bytes = encode_utf8(text);
    lemma_encoded_without_line_feed(text);
    lemma_single_line(bytes);
    vstd::utf8::encode_utf8_valid_utf8(text);
    vstd::utf8::encode_utf8_decode_utf8(text);
    if text.len() > 0 {
        vstd::utf8::encode_utf8_first_scalar(text);
        assert(bytes.len() > 0);
    }
    lemma_silent_lines::<T>(parser, lines_of(bytes), 1, prefix, parser.files.len(), parser.line);
}

/// Whether lines can be parsed with `depth` files open below them at
/// most: no file that they name, or that a file of theirs names, is
/// refused for being nested too deep.
pub open spec fn fits<T: EnumFromStr>(
    parser: ParserView,
    lines: Seq<Seq<u8>>,
    number: int,
    prefix: Option<u32>,
    depth: nat,
) -> bool
    decreases depth, lines.len() + 2,
{
    lines.len() == 0 || (fits_one::<T>(parser, lines[0], saturate(number), prefix, depth)
        && fits::<T>(parser, lines.drop_first(), number + 1, prefix, depth))
}

/// Whether one line can be parsed with `depth` files open below it at
/// most.
pub open spec fn fits_one<T: EnumFromStr>(
    parser: ParserView,
    bytes: Seq<u8>,
    line: u32,
    prefix: Option<u32>,
    depth: nat,
) -> bool
    decreases depth, 1nat,
{
    valid_utf8(bytes) ==> match line_spec::<T>(parser.config, decode_utf8(bytes), line, prefix).file {
        None => true,
        Some(name) => fits_file::<T>(parser, name, depth),
    }
}

/// Whether the file of a name can be parsed with `depth` files open at
/// most, itself among them.
pub open spec fn fits_file<T: EnumFromStr>(parser: ParserView, name: Seq<char>, depth: nat) -> bool
    decreases depth, 0nat,
{
    match lookup(parser.files, name) {
        Some(Ok(content)) => depth > 0 && fits::<T>(
            parser,
            lines_of(content),
            1,
            None,
            (depth - 1) as nat,
        ),
        _ => true,
    }
}

/// What lines give does not depend on how many files may be open, as long
/// as they may all be opened.
pub proof fn lemma_depth<T: EnumFromStr>(
    parser: ParserView,
    lines: Seq<Seq<u8>>,
    number: int,
    prefix: Option<u32>,
    depth: nat,
    more: nat,
    line: u32,
)
    requires
        fits::<T>(parser, lines, number, prefix, depth),
        depth <= more,
    ensures
        parse_lines::<T>(parser, lines, number, prefix, more, line) == parse_lines::<T>(
            parser,
            lines,
            number,
            prefix,
            depth,
            line,
        ),
    decreases depth, lines.len() + 2,
{
    if lines.len() > 0 {
        lemma_depth_one::<T>(parser, lines[0], saturate(number), prefix, depth, more);
        let one = parse_one::<T>(parser, lines[0], saturate(number), prefix, depth);
        lemma_depth::<T>(parser, lines.drop_first(), number + 1, prefix, depth, more, one.line);
    }
}

/// What one line gives does not depend on how many files may be open, as
/// long as its files may all be opened.
pub proof fn lemma_depth_one<T: EnumFromStr>(
    parser: ParserView,
    bytes: Seq<u8>,
    line: u32,
    prefix: Option<u32>,
    depth: nat,
    more: nat,
)
    requires
        fits_one::<T>(parser, bytes, line, prefix, depth),
        depth <= more,
    ensures
        parse_one::<T>(parser, bytes, line, prefix, more) == parse_one::<T>(
            parser,
            bytes,
            line,
            prefix,
            depth,
        ),
    decreases depth, 1nat,
{
    if valid_utf8(bytes) {
        match line_spec::<T>(parser.config, decode_utf8(bytes), line, prefix).file {
            None => {},
            Some(name) => {
                match lookup(parser.files, name) {
                    Some(Ok(content)) => {
                        lemma_depth::<T>(
                            parser,
                            lines_of(content),
                            1,
                            None,
                            (depth - 1) as nat,
                            (more - 1) as nat,
                            line,
                        );
                    },
                    _ => {},
                }
            },
        }
    }
}

/// The commands and errors that lines give do not depend on the line that
/// the parser read last before them.
pub proof fn lemma_line_before<T: EnumFromStr>(
    parser: ParserView,
    lines: Seq<Seq<u8>>,
    number: int,
    prefix: Option<u32>,
    depth: nat,
    line: u32,
    other: u32,
)
    ensures
        parse_lines::<T>(parser, lines, number, prefix, depth, line).result == parse_lines::<T>(
            parser,
            lines,
            number,
            prefix,
            depth,
            other,
        ).result,
{
}

/// Merging of files that are not nested too deep: a configuration with a
/// line that names a file gives what the lines before that line give,
/// then the errors of the line itself, then what the file gives when it
/// is parsed on its own, then what the lines behind give.
pub proof fn lemma_include_is_concatenation<T: EnumFromStr>(
    parser: ParserView,
    before: Seq<Seq<u8>>,
    naming: Seq<u8>,
    after: Seq<Seq<u8>>,
    name: Seq<char>,
    content: Seq<u8>,
    prefix: Option<u32>,
    line: u32,
)
    requires
        valid_utf8(naming),
        line_spec::<T>(
            parser.config,
            decode_utf8(naming),
            saturate(before.len() as int + 1),
            prefix,
        ).file == Some(name),
        lookup(parser.files, name) == Some(Ok::<Seq<u8>, Seq<char>>(content)),
        parser.files.len() > 0,
        fits::<T>(parser, lines_of(content), 1, None, (parser.files.len() - 1) as nat),
    ensures
        ({
            let depth = parser.files.len();
            let number = saturate(before.len() as int + 1);
            let head = parse_lines::<T>(parser, before, 1, prefix, depth, line);
            let own = line_spec::<T>(parser.config, decode_utf8(naming), number, prefix).result;
            let file = parse_spec::<T>(parser, content, None);
            let nested = parse_lines::<T>(
                parser,
                lines_of(content),
                1,
                None,
                (depth - 1) as nat,
                number,
            );
            let tail = parse_lines::<T>(
                parser,
                after,
                before.len() as int + 2,
                prefix,
                depth,
                nested.line,
            );
            parse_lines::<T>(parser, before + seq![naming] + after, 1, prefix, depth, line).result
                == head.result.merged(own).merged(file.result).merged(tail.result)
        }),
{
    let depth = parser.files.len();
    let number = saturate(before.len() as int + 1);
    lemma_include_merges::<T>(parser, before, naming, after, name, content, prefix, depth, line);
    lemma_depth::<T>(
        parser,
        lines_of(content),
        1,
        None,
        (depth - 1) as nat,
        depth,
        parser.line,
    );
    lemma_line_before::<T>(
        parser,
        lines_of(content),
        1,
        None,
        (depth - 1) as nat,
        parser.line,
        number,
    );
}

/// A line gives one command and no error, or no command and one error at
/// most; only a line without a command asks for a file.
pub proof fn lemma_line_shape<T: EnumFromStr>(
    config: ConfigView,
    text: Seq<char>,
    line: u32,
    prefix: Option<u32>,
)
    ensures
        ({
            let outcome = line_spec::<T>(config, text, line, prefix);
            &&& outcome.result.commands.len() + outcome.result.errors.len() <= 1
            &&& outcome.file is Some ==> outcome.result.commands.len() == 0
        }),
{
}

/// A line that fails takes nothing away: the commands and errors of the
/// lines before it stand as they were, before what the line gives.
pub proof fn lemma_lines_before_stand<T: EnumFromStr>(
    parser: ParserView,
    before: Seq<Seq<u8>>,
    last: Seq<u8>,
    prefix: Option<u32>,
    depth: nat,
    line: u32,
)
    ensures
        ({
            let head = parse_lines::<T>(parser, before, 1, prefix, depth, line);
            let whole = parse_lines::<T>(parser, before.push(last), 1, prefix, depth, line);
            &&& head.result.commands.is_prefix_of(whole.result.commands)
            &&& head.result.errors.is_prefix_of(whole.result.errors)
            &&& whole.result == head.result.merged(
                parse_one::<T>(parser, last, saturate(before.len() as int + 1), prefix, depth).result,
            )
        }),
{
    lemma_parse_lines_concat::<T>(parser, before, seq![last], 1, prefix, depth, line);
    assert(before + seq![last] =~= before.push(last));
    let head = parse_lines::<T>(parser, before, 1, prefix, depth, line);
    let one = parse_one::<T>(parser, last, saturate(before.len() as int + 1), prefix, depth);
    assert(seq![last].drop_first() =~= Seq::<Seq<u8>>::empty());
    lemma_merged_empty(one.result);
    assert(parse_lines::<T>(parser, seq![last], before.len() as int + 1, prefix, depth, head.line)
        == followed(
        one.result,
        parse_lines::<T>(
            parser,
            Seq::<Seq<u8>>::empty(),
            before.len() as int + 2,
            prefix,
            depth,
            one.line,
        ),
    ));
}

/// What holds of every command that the parser gives under a
/// configuration: an application command is one of the configuration's; a
/// mapping has an action, one key at least, and a mode of the
/// configuration; the keys of a mapping have their modifiers in the one
/// order; an option has an identifier for its name, and a floating-point
/// value that writes a decimal number.
pub open spec fn command_well_formed<T>(config: ConfigView, command: CommandView<T>) -> bool {
    match command {
        CommandView::App(name) => config.application_commands.contains(name),
        CommandView::Custom(_) => true,
        CommandView::Mapping { action, keys, mode } => {
            &&& action.len() > 0
            &&& keys.len() > 0
            &&& config.mapping_modes.contains(mode)
            &&& forall|i: int| 0 <= i < keys.len() ==> crate::key_laws::is_normal(#[trigger] keys[i])
        },
        CommandView::Setting(name, value) => is_identifier(name) && value.well_formed(),
        CommandView::Unmap { keys, mode } => {
            &&& keys.len() > 0
            &&& config.mapping_modes.contains(mode)
            &&& forall|i: int| 0 <= i < keys.len() ==> crate::key_laws::is_normal(#[trigger] keys[i])
        },
    }
}

/// Whether every command of a list is as the parser gives them.
pub open spec fn commands_well_formed<T>(config: ConfigView, commands: Seq<CommandView<T>>) -> bool {
    forall|i: int| 0 <= i < commands.len() ==> command_well_formed(config, #[trigger] commands[i])
}

/// A word that is not empty spells one key at least.
proof fn lemma_keys_of_word(word: Seq<char>, line: u32, column: u32)
    requires
        word.len() > 0,
    ensures
        crate::key::parse_keys_spec(word, line, column) matches Ok(keys) ==> keys.len() > 0,
{
}

/// The command of a line is as the parser gives them.
pub proof fn lemma_line_command_well_formed<T: EnumFromStr>(
    config: ConfigView,
    text: Seq<char>,
    line: u32,
    prefix: Option<u32>,
)
    ensures
        commands_well_formed(config, line_spec::<T>(config, text, line, prefix).result.commands),
{
    let outcome = line_spec::<T>(config, text, line, prefix);
    if outcome.result.commands.len() > 0 {
        let word = first_word(text)->Some_0;
        let start = word.index + word.word.len() + 1;
        let column = saturate(start + 1);
        let rest = text.skip(start);
        crate::string::lemma_skip_whitespace(text, 0);
        crate::string::lemma_skip_word(text, crate::string::skip_whitespace(text, 0));
        match keyword_of(word.word, config.mapping_modes) {
            crate::grammar::KeywordView::Mapping(mode) => {
                let keys_word = first_word(rest)->Some_0;
                crate::string::lemma_skip_whitespace(rest, 0);
                crate::string::lemma_skip_word(rest, crate::string::skip_whitespace(rest, 0));
                crate::key_laws::lemma_parsed_keys_are_normal(
                    keys_word.word,
                    line,
                    shift(column, keys_word.index),
                );
                lemma_keys_of_word(keys_word.word, line, shift(column, keys_word.index));
            },
            crate::grammar::KeywordView::Unmapping(mode) => {
                let keys_word = first_word(rest)->Some_0;
                crate::string::lemma_skip_whitespace(rest, 0);
                crate::string::lemma_skip_word(rest, crate::string::skip_whitespace(rest, 0));
                crate::key_laws::lemma_parsed_keys_are_normal(
                    keys_word.word,
                    line,
                    shift(column, keys_word.index),
                );
                lemma_keys_of_word(keys_word.word, line, shift(column, keys_word.index));
            },
            _ => {},
        }
    }
}

/// Every command that parsing gives is as the parser gives them: those of
/// the lines, and those of the files that the lines name.
pub proof fn lemma_commands_well_formed<T: EnumFromStr>(
    parser: ParserView,
    lines: Seq<Seq<u8>>,
    number: int,
    prefix: Option<u32>,
    depth: nat,
    line: u32,
)
    ensures
        commands_well_formed(
            parser.config,
            parse_lines::<T>(parser, lines, number, prefix, depth, line).result.commands,
        ),
    decreases depth, lines.len() + 2,
{
    if lines.len() > 0 {
        lemma_one_well_formed::<T>(parser, lines[0], saturate(number), prefix, depth);
        let one = parse_one::<T>(parser, lines[0], saturate(number), prefix, depth);
        lemma_commands_well_formed::<T>(
            parser,
            lines.drop_first(),
            number + 1,
            prefix,
            depth,
            one.line,
        );
    }
}

/// Every command that one line gives, with the file that it names, is as
/// the parser gives them.
pub proof fn lemma_one_well_formed<T: EnumFromStr>(
    parser: ParserView,
    bytes: Seq<u8>,
    line: u32,
    prefix: Option<u32>,
    depth: nat,
)
    ensures
        commands_well_formed(
            parser.config,
            parse_one::<T>(parser, bytes, line, prefix, depth).result.commands,
        ),
    decreases depth, 1nat,
{
    if valid_utf8(bytes) {
        let this = line_spec::<T>(parser.config, decode_utf8(bytes), line, prefix);
        lemma_line_command_well_formed::<T>(parser.config, decode_utf8(bytes), line, prefix);
        match this.file {
            None => {},
            Some(name) => {
                match lookup(parser.files, name) {
                    Some(Ok(content)) => {
                        if depth > 0 {
                            lemma_commands_well_formed::<T>(
                                parser,
                                lines_of(content),
                                1,
                                None,
                                (depth - 1) as nat,
                                line,
                            );
                        }
                    },
                    _ => {},
                }
            },
        }
    }
}

} // verus!
