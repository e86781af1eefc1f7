//! Places in a text.

use vstd::prelude::*;
use vstd::string::StringExecFns;
use crate::chars::{decimal, push_decimal};

verus! {

/// The line or column number that stands for a count: the count itself as
/// long as it fits, the largest number otherwise.
pub open spec fn saturate(n: int) -> u32 {
    if n <= 0 {
        0
    } else if n >= u32::MAX {
        u32::MAX
    } else {
        n as u32
    }
}

/// A column moved to the right by a number of characters.
pub open spec fn shift(column: u32, by: int) -> u32 {
    saturate(column + by)
}

/// Moving to the right twice is moving once by the sum.
pub proof fn lemma_shift_shift(column: u32, a: int, b: int)
    requires
        0 <= a,
        0 <= b,
    ensures
        shift(shift(column, a), b) == shift(column, a + b),
{
}

/// The number that stands for a count.
pub fn saturated(n: usize) -> (r: u32)
    ensures
        r == saturate(n as int),
{
    if n >= u32::MAX as usize {
        u32::MAX
    } else {
        n as u32
    }
}

/// Moves a column to the right.
pub fn shifted(column: u32, by: usize) -> (r: u32)
    ensures
        r == shift(column, by as int),
{
    let by32 = saturated(by);
    if by32 >= u32::MAX - column {
        u32::MAX
    } else {
        column + by32
    }
}

/// A place in a text: a line and a column, both counted from one.
#[derive(Clone, Copy, Debug, PartialEq, Eq)]
pub struct Pos {
    pub column: u32,
    pub line: u32,
}

impl Pos {
    pub fn new(line: u32, column: u32) -> (pos: Pos)
        ensures
            pos == (Pos { column, line }),
    {
        Pos { column, line }
    }

    /// Goes to the start of the next line. The line number stays where it
    /// is once it has reached the largest number.
    pub fn newline(&mut self)
        ensures
            final(self).line == saturate(old(self).line + 1),
            final(self).column == 1,
    {
        if self.line < u32::MAX {
            self.line += 1;
        }
        self.column = 1;
    }

    /// How a place is written in a message.
    pub open spec fn text(self) -> Seq<char> {
        "line "@ + decimal(self.line as nat) + ", column "@ + decimal(self.column as nat)
    }

    /// The place as it is written in a message: `line 3, column 14`.
    pub fn to_string(&self) -> (s: String)
        ensures
            s@ == self.text(),
    {
        let mut s = String::new();
        s.append("line ");
        push_decimal(&mut s, self.line as u64);
        s.append(", column ");
        push_decimal(&mut s, self.column as u64);
        assert(s@ =~= self.text());
        s
    }
}

/// A value with the place where it was found.
#[derive(Debug)]
pub struct WithPos<T> {
    pub node: T,
    pub pos: Pos,
}

impl<T> WithPos<T> {
    pub fn new(node: T, pos: Pos) -> (with_pos: WithPos<T>)
        ensures
            with_pos.node == node,
            with_pos.pos == pos,
    {
        WithPos { node, pos }
    }
}

} // verus!
