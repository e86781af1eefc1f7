//! A configuration as a whole: its lines, the files that it names, and
//! what parsing all of it gives.

use vstd::prelude::*;
use vstd::slice::slice_subrange;
use vstd::utf8::{decode_utf8, valid_utf8};
use crate::{ConfigView, EnumFromStr, ParseResultView};
use crate::errors::ErrorView;
use crate::grammar::{included_name, line_spec, no_command};
use crate::position::saturate;

verus! {

/// The place of the first line feed at or after `from`; the length of the
/// input if there is none.
pub open spec fn line_end(bytes: Seq<u8>, from: int) -> int
    decreases bytes.len() - from,
{
    if from < 0 || from >= bytes.len() {
        bytes.len() as int
    } else if bytes[from] == 10 {
        from
    } else {
        line_end(bytes, from + 1)
    }
}

/// `line_end` gives the end of the line that starts at `from`.
pub proof fn lemma_line_end(bytes: Seq<u8>, from: int)
    requires
        0 <= from <= bytes.len(),
    ensures
        from <= line_end(bytes, from) <= bytes.len(),
        line_end(bytes, from) < bytes.len() ==> bytes[line_end(bytes, from)] == 10,
        forall|i: int| from <= i < line_end(bytes, from) ==> bytes[i] != 10,
    decreases bytes.len() - from,
{
    if from < bytes.len() && bytes[from] != 10 {
        lemma_line_end(bytes, from + 1);
    }
}

/// A line without the carriage return at its end, if it has one.
pub open spec fn without_return(line: Seq<u8>) -> Seq<u8> {
    if line.len() > 0 && line.last() == 13 {
        line.drop_last()
    } else {
        line
    }
}

/// The place where the line behind the one at `from` starts.
pub open spec fn next_line_start(bytes: Seq<u8>, from: int) -> int {
    if line_end(bytes, from) < bytes.len() {
        line_end(bytes, from) + 1
    } else {
        bytes.len() as int
    }
}

/// The line that starts at `from`: the bytes up to the next line feed,
/// without it and without a carriage return before it. A last line that no
/// line feed ends is taken as it is.
pub open spec fn line_at(bytes: Seq<u8>, from: int) -> Seq<u8> {
    let end = line_end(bytes, from);
    if end < bytes.len() {
        without_return(bytes.subrange(from, end))
    } else {
        bytes.subrange(from, end)
    }
}

/// The lines of an input that start at or after `from`.
pub open spec fn lines_from(bytes: Seq<u8>, from: int) -> Seq<Seq<u8>>
    decreases bytes.len() - from,
    via lines_from_decreases
{
    if from < 0 || from >= bytes.len() {
        Seq::empty()
    } else {
        seq![line_at(bytes, from)] + lines_from(bytes, next_line_start(bytes, from))
    }
}

#[via_fn]
proof fn lines_from_decreases(bytes: Seq<u8>, from: int) {
    if 0 <= from < bytes.len() {
        lemma_line_end(bytes, from);
    }
}

/// The lines of an input. An input that ends with a line feed has no empty
/// line behind it.
pub open spec fn lines_of(bytes: Seq<u8>) -> Seq<Seq<u8>> {
    lines_from(bytes, 0)
}

/// Takes the line that starts at `from`, and says where the next starts.
pub fn next_line(input: &[u8], from: usize) -> (found: (&[u8], usize))
    requires
        from < input@.len(),
    ensures
        found.0@ == line_at(input@, from as int),
        found.1 == next_line_start(input@, from as int),
        from < found.1 <= input@.len(),
{
    let mut end: usize = from;
    while end < input.len() && input[end] != 10
        invariant
            from <= end <= input.len(),
            line_end(input@, from as int) == line_end(input@, end as int),
        decreases input.len() - end,
    {
        end += 1;
    }
    if end < input.len() {
        if end > from && input[end - 1] == 13 {
            let line = slice_subrange(input, from, end - 1);
            assert(line@ =~= without_return(input@.subrange(from as int, end as int)));
            (line, end + 1)
        } else {
            (slice_subrange(input, from, end), end + 1)
        }
    } else {
        (slice_subrange(input, from, end), end)
    }
}

/// What a file that a configuration may name holds: its name as it is
/// written behind `include`, and what opening it gave.
pub struct IncludeFileView {
    pub name: Seq<char>,
    pub content: Result<Seq<u8>, Seq<char>>,
}

/// What opening the file of a name gives: what the first file of that
/// name holds, if there is one.
pub open spec fn lookup(files: Seq<IncludeFileView>, name: Seq<char>) -> Option<
    Result<Seq<u8>, Seq<char>>,
>
    decreases files.len(),
{
    if files.len() == 0 {
        None
    } else if files[0].name == name {
        Some(files[0].content)
    } else {
        lookup(files.drop_first(), name)
    }
}

/// What a `Parser` holds: its configuration, the directory of the files to
/// read, the files that it was given, and the number of the line that it
/// read last.
pub struct ParserView {
    pub config: ConfigView,
    pub include_path: Seq<char>,
    pub files: Seq<IncludeFileView>,
    pub line: u32,
}

/// What parsing gives: the commands and errors, and the number of the line
/// that was read last.
pub struct Outcome<T> {
    pub result: ParseResultView<T>,
    pub line: u32,
}

/// The commands and errors found so far, followed by what follows.
pub open spec fn followed<T>(result: ParseResultView<T>, by: Outcome<T>) -> Outcome<T> {
    Outcome { result: result.merged(by.result), line: by.line }
}

/// The error of a line that is no text.
pub open spec fn invalid_line() -> ErrorView {
    ErrorView::Msg("stream did not contain valid UTF-8"@)
}

/// The error of a file that could not be opened, with the reason.
pub open spec fn open_failure(name: Seq<char>, reason: Seq<char>) -> ErrorView {
    ErrorView::Msg("failed to open included file `"@ + name + "`: "@ + reason)
}

/// What the lines of an input give, one after the other. `number` is the
/// number of the first of them, `line` the number of the line that was
/// read last before them, and `depth` says how many files may be open
/// below this one, each named in the one before.
pub open spec fn parse_lines<T: EnumFromStr>(
    parser: ParserView,
    lines: Seq<Seq<u8>>,
    number: int,
    prefix: Option<u32>,
    depth: nat,
    line: u32,
) -> Outcome<T>
    decreases depth, lines.len() + 2,
{
    if lines.len() == 0 {
        Outcome { result: ParseResultView::empty(), line }
    } else {
        let first = parse_one::<T>(parser, lines[0], saturate(number), prefix, depth);
        followed(
            first.result,
            parse_lines(parser, lines.drop_first(), number + 1, prefix, depth, first.line),
        )
    }
}

/// What one line of an input gives, with the file that it names. A line
/// that is no text is an error.
pub open spec fn parse_one<T: EnumFromStr>(
    parser: ParserView,
    bytes: Seq<u8>,
    line: u32,
    prefix: Option<u32>,
    depth: nat,
) -> Outcome<T>
    decreases depth, 1nat,
{
    if !valid_utf8(bytes) {
        Outcome {
            result: ParseResultView { commands: Seq::empty(), errors: seq![invalid_line()] },
            line,
        }
    } else {
        let this = line_spec::<T>(parser.config, decode_utf8(bytes), line, prefix);
        match this.file {
            None => Outcome { result: this.result, line },
            Some(name) => followed(this.result, parse_file(parser, name, depth, line)),
        }
    }
}

/// What the file of a name gives: an error if the parser was given no
/// file of that name, if the file could not be opened, or if `depth` files
/// are open already; else what its lines give. The count that goes before
/// a command is not handed on to the file.
pub open spec fn parse_file<T: EnumFromStr>(
    parser: ParserView,
    name: Seq<char>,
    depth: nat,
    line: u32,
) -> Outcome<T>
    decreases depth, 0nat,
{
    match lookup(parser.files, name) {
        None => Outcome {
            result: ParseResultView {
                commands: Seq::empty(),
                errors: seq![open_failure(name, "no such file"@)],
            },
            line,
        },
        Some(Err(message)) => Outcome {
            result: ParseResultView {
                commands: Seq::empty(),
                errors: seq![ErrorView::Msg(message)],
            },
            line,
        },
        Some(Ok(content)) => if depth == 0 {
            Outcome {
                result: ParseResultView {
                    commands: Seq::empty(),
                    errors: seq![open_failure(name, "too many nested files"@)],
                },
                line,
            }
        } else {
            parse_lines(parser, lines_of(content), 1, None, (depth - 1) as nat, line)
        },
    }
}

/// What `parse` gives for an input: what its lines give, numbered from
/// one. As many files may be open at a time as the parser was given.
pub open spec fn parse_spec<T: EnumFromStr>(
    parser: ParserView,
    input: Seq<u8>,
    prefix: Option<u32>,
) -> Outcome<T> {
    parse_lines(parser, lines_of(input), 1, prefix, parser.files.len(), parser.line)
}

/// What `parse_line` gives for a text: what `parse` gives for its bytes
/// and, where that is nothing at all, the error of a line without a
/// command, at the line that was read last.
pub open spec fn parse_line_spec<T: EnumFromStr>(
    parser: ParserView,
    text: Seq<char>,
    prefix: Option<u32>,
) -> Outcome<T> {
    let parsed = parse_spec::<T>(parser, vstd::utf8::encode_utf8(text), prefix);
    if parsed.result.commands.len() == 0 && parsed.result.errors.len() == 0 {
        Outcome {
            result: ParseResultView {
                commands: Seq::empty(),
                errors: seq![no_command(parsed.line)],
            },
            line: parsed.line,
        }
    } else {
        parsed
    }
}

/// The names of the files that the lines from `index` on ask to read, in
/// their order. A line that is no text asks for none.
pub open spec fn included_names_from(lines: Seq<Seq<u8>>, index: int) -> Seq<Seq<char>>
    decreases lines.len() - index,
{
    if index < 0 || index >= lines.len() {
        Seq::empty()
    } else {
        (if valid_utf8(lines[index]) {
            match included_name(decode_utf8(lines[index])) {
                Some(name) => seq![name],
                None => Seq::empty(),
            }
        } else {
            Seq::empty()
        }) + included_names_from(lines, index + 1)
    }
}

/// The names of the files that an input asks to read.
pub open spec fn included_names(input: Seq<u8>) -> Seq<Seq<char>> {
    included_names_from(lines_of(input), 0)
}

} // verus!
