//! The scanner: a cursor over the characters of a template that knows the
//! line and column it stands at.

use crate::text::{push_decimal, decimal_digits};
use vstd::prelude::*;

verus! {

/// A place in a text: the line, counted from 1, and the number of
/// characters that precede the place in its line.
#[derive(Debug, Clone, Copy, PartialEq, Eq)]
pub struct Position {
    pub line: usize,
    pub column: usize,
}

/// The place after the character `c`, which stood at `(line, column)`.
pub open spec fn position_after(position: (nat, nat), c: char) -> (nat, nat) {
    if c == '\n' {
        ((position.0 + 1) as nat, 0)
    } else {
        (position.0, (position.1 + 1) as nat)
    }
}

/// The place of the character with index `index` in `text`.
pub open spec fn position_at(text: Seq<char>, index: int) -> (nat, nat)
    decreases index,
{
    if index <= 0 || index > text.len() {
        (1, 0)
    } else {
        position_after(position_at(text, index - 1), text[index - 1])
    }
}

/// A place is never further than the characters before it allow.
pub proof fn lemma_position_bound(text: Seq<char>, index: int)
    requires
        0 <= index <= text.len(),
    ensures
        1 <= position_at(text, index).0,
        position_at(text, index).0 + position_at(text, index).1 <= index + 1,
    decreases index,
{
    if index > 0 {
        lemma_position_bound(text, index - 1);
    }
}

impl View for Position {
    type V = (nat, nat);

    open spec fn view(&self) -> (nat, nat) {
        (self.line as nat, self.column as nat)
    }
}

impl Default for Position {
    /// The beginning of a text: line 1, column 0.
    fn default() -> (position: Position)
        ensures
            position@ == (1nat, 0nat),
    {
        Position { line: 1, column: 0 }
    }
}

impl Position {
    /// Moves over the character `c`: a line feed leads to the beginning of
    /// the next line, every other character one column on.
    pub fn step(&mut self, c: char)
        requires
            old(self).line < usize::MAX,
            old(self).column < usize::MAX,
        ensures
            final(self)@ == position_after(old(self)@, c),
    {
        if c == '\n' {
            self.column = 0;
            self.line += 1;
        } else {
            self.column += 1;
        }
    }

    /// The text of a place: line and column with a colon between them.
    pub open spec fn text(position: (nat, nat)) -> Seq<char> {
        decimal_digits(position.0) + seq![':'] + decimal_digits(position.1)
    }

    /// The place as text, `line:column`.
    pub fn to_string(&self) -> (s: String)
        ensures
            s@ == Self::text(self@),
    {
        let mut s = String::new();
        push_decimal(&mut s, self.line);
        s.push(':');
        push_decimal(&mut s, self.column);
        assert(s@ =~= Self::text(self@));
        s
    }
}

/// A cursor over a text.
#[derive(Debug, Clone, Copy)]
pub(crate) struct Source<'a> {
    pub text: &'a Vec<char>,
    pub index: usize,
    pub position: Position,
}

impl<'a> Source<'a> {
    /// The cursor stands inside its text, at a place that can be counted up
    /// to, and knows that place.
    pub(crate) open spec fn wf(&self) -> bool {
        &&& self.index <= self.text@.len() < usize::MAX
        &&& self.position@ == position_at(self.text@, self.index as int)
    }

    /// The cursor at the beginning of `text`.
    pub(crate) fn new(text: &'a Vec<char>) -> (source: Self)
        requires
            text@.len() < usize::MAX,
        ensures
            source.wf(),
            source.text == text,
            source.index == 0,
    {
        Source { text, index: 0, position: Position::default() }
    }

    /// The character under the cursor, if the text has not ended.
    pub(crate) fn peek(&self) -> (c: Option<char>)
        requires
            self.wf(),
        ensures
            c == if self.index < self.text@.len() {
                Some(self.text@[self.index as int])
            } else {
                None::<char>
            },
    {
        if self.index < self.text.len() {
            Some(self.text[self.index])
        } else {
            None
        }
    }

    /// Hands out the character under the cursor and moves over it.
    pub(crate) fn next(&mut self) -> (c: Option<char>)
        requires
            old(self).wf(),
        ensures
            final(self).wf(),
            final(self).text == old(self).text,
            c == if old(self).index < old(self).text@.len() {
                Some(old(self).text@[old(self).index as int])
            } else {
                None::<char>
            },
            final(self).index == if old(self).index < old(self).text@.len() {
                old(self).index + 1
            } else {
                old(self).index as int
            },
    {
        if self.index < self.text.len() {
            let c = self.text[self.index];
            proof {
                lemma_position_bound(self.text@, self.index as int);
            }
            self.position.step(c);
            self.index += 1;
            Some(c)
        } else {
            None
        }
    }

    /// Moves on to the place `index`, character by character.
    pub(crate) fn advance_to(&mut self, index: usize)
        requires
            old(self).wf(),
            old(self).index <= index <= old(self).text@.len(),
        ensures
            final(self).wf(),
            final(self).text == old(self).text,
            final(self).index == index,
    {
        while self.index < index
            invariant
                self.wf(),
                self.text == old(self).text,
                self.index <= index <= self.text@.len(),
            decreases index - self.index,
        {
            let _ = self.next();
        }
    }
}

} // verus!
