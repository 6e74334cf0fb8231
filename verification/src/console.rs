//! The rules of the console: what an answer to a yes-or-no question means,
//! how a logged message is laid out, and how much of the log is shown.

use crate::text::{char_is_whitespace, chars_of, is_whitespace, same_text, string_of};
use vstd::prelude::*;

verus! {

/// How much of the log is shown.
#[derive(Debug, Clone, Copy, PartialEq, Eq, Structural)]
pub enum Verbosity {
    /// Nothing.
    Off,
    /// Everything down to messages for debugging.
    Debug,
    /// Everything down to information.
    Info,
}

/// How much of the log is shown: nothing where quiet is asked for, else
/// debugging messages too where verbose is asked for.
pub fn verbosity(quiet: bool, verbose: bool) -> (level: Verbosity)
    ensures
        level == if quiet {
            Verbosity::Off
        } else if verbose {
            Verbosity::Debug
        } else {
            Verbosity::Info
        },
{
    if quiet {
        Verbosity::Off
    } else if verbose {
        Verbosity::Debug
    } else {
        Verbosity::Info
    }
}

/// The number of whitespace characters at the beginning of `text`.
pub open spec fn leading_whitespace(text: Seq<char>) -> nat
    decreases text.len(),
{
    if text.len() > 0 && char_is_whitespace(text[0]) {
        1 + leading_whitespace(text.drop_first())
    } else {
        0
    }
}

/// The number of whitespace characters at the end of `text`.
pub open spec fn trailing_whitespace(text: Seq<char>) -> nat
    decreases text.len(),
{
    if text.len() > 0 && char_is_whitespace(text.last()) {
        1 + trailing_whitespace(text.drop_last())
    } else {
        0
    }
}

/// `text` without the whitespace at its beginning and at its end.
pub open spec fn trimmed(text: Seq<char>) -> Seq<char> {
    let start = leading_whitespace(text);
    if start == text.len() {
        Seq::empty()
    } else {
        text.subrange(start as int, text.len() - trailing_whitespace(text))
    }
}

/// Computes [`trimmed`].
pub fn trim(text: &str) -> (result: String)
    ensures
        result@ == trimmed(text@),
{
    let chars = chars_of(text);
    let mut start: usize = 0;
    assert(chars@.subrange(0, chars@.len() as int) =~= chars@);
    while start < chars.len() && is_whitespace(chars[start])
        invariant
            start <= chars@.len(),
            leading_whitespace(chars@) == start + leading_whitespace(
                chars@.subrange(start as int, chars@.len() as int),
            ),
        decreases chars.len() - start,
    {
        let ghost rest = chars@.subrange(start as int, chars@.len() as int);
        assert(rest[0] == chars@[start as int]);
        assert(rest.drop_first() =~= chars@.subrange(start + 1, chars@.len() as int));
        start += 1;
    }
    proof {
        let rest = chars@.subrange(start as int, chars@.len() as int);
        if start < chars@.len() {
            assert(rest[0] == chars@[start as int]);
        }
    }
    if start == chars.len() {
        return String::new();
    }
    let mut end: usize = chars.len();
    assert(leading_whitespace(chars@) == start);
    while end > start && is_whitespace(chars[end - 1])
        invariant
            start < chars@.len(),
            start < end <= chars@.len(),
            leading_whitespace(chars@) == start,
            !char_is_whitespace(chars@[start as int]),
            trailing_whitespace(chars@) == (chars@.len() - end) + trailing_whitespace(
                chars@.subrange(0, end as int),
            ),
        decreases end,
    {
        let ghost head = chars@.subrange(0, end as int);
        assert(head.last() == chars@[end - 1]);
        assert(head.drop_last() =~= chars@.subrange(0, end - 1));
        end -= 1;
    }
    proof {
        let head = chars@.subrange(0, end as int);
        if end > 0 {
            assert(head.last() == chars@[end - 1]);
        }
    }
    string_of(&chars, start, end)
}

/// What a trimmed answer means: `y` is yes and `n` is no, in either case of
/// the letter; nothing is the default where there is one. Everything else
/// is no answer, and the question is asked again.
pub open spec fn answer_of(answer: Seq<char>, default: Option<bool>) -> Option<bool> {
    if answer == "y"@ || answer == "Y"@ {
        Some(true)
    } else if answer == "n"@ || answer == "N"@ {
        Some(false)
    } else if answer == ""@ {
        default
    } else {
        None
    }
}

/// Decides [`answer_of`].
pub fn read_answer(answer: &str, default: Option<bool>) -> (decision: Option<bool>)
    ensures
        decision == answer_of(answer@, default),
{
    if same_text(answer, "y") || same_text(answer, "Y") {
        Some(true)
    } else if same_text(answer, "n") || same_text(answer, "N") {
        Some(false)
    } else if same_text(answer, "") {
        default
    } else {
        None
    }
}

/// What the line `response` means as the answer to a yes-or-no question
/// with the default `default`.
pub fn prompt(response: &str, default: Option<bool>) -> (decision: Option<bool>)
    ensures
        decision == answer_of(trimmed(response@), default),
{
    read_answer(trim(response).as_str(), default)
}

/// The number of characters from `at` up to the next line feed or the end.
pub open spec fn line_length(text: Seq<char>, at: int) -> nat
    decreases text.len() - at,
{
    if 0 <= at < text.len() && text[at] != '\n' {
        1 + line_length(text, at + 1)
    } else {
        0
    }
}

/// The line of `length` characters at `at`. Where a line feed ends it, a
/// carriage return before the line feed is no part of the line.
pub open spec fn line_at(text: Seq<char>, at: int, length: nat) -> Seq<char> {
    if at + length < text.len() && length > 0 && text[at + length - 1] == '\r' {
        text.subrange(at, at + length - 1)
    } else {
        text.subrange(at, at + length)
    }
}

/// The lines of `text` from `at` on. A line ends with a line feed or with
/// the text; nothing after the last line feed is no line.
pub open spec fn lines_from(text: Seq<char>, at: int) -> Seq<Seq<char>>
    decreases text.len() - at,
{
    if at < 0 || at >= text.len() {
        Seq::empty()
    } else {
        let length = line_length(text, at);
        seq![line_at(text, at, length)] + if at + length < text.len() {
            lines_from(text, at + length + 1)
        } else {
            Seq::empty()
        }
    }
}

/// `width` blanks.
pub open spec fn blanks(width: nat) -> Seq<char> {
    Seq::new(width, |i: int| ' ')
}

/// Each of `lines` after `width` blanks and before a line feed.
pub open spec fn indented(lines: Seq<Seq<char>>, width: nat) -> Seq<char>
    decreases lines.len(),
{
    if lines.len() == 0 {
        Seq::empty()
    } else {
        indented(lines.drop_last(), width) + blanks(width) + lines.last() + seq!['\n']
    }
}

/// A message as it is logged after a tag of `tag_width` characters and a
/// separator of three: its first line, then the other lines under it.
pub open spec fn log_text(message: Seq<char>, tag_width: nat) -> Seq<char> {
    let lines = lines_from(message, 0);
    if lines.len() == 0 {
        seq!['\n']
    } else {
        lines[0] + seq!['\n'] + indented(lines.drop_first(), tag_width + 3)
    }
}

/// Computes [`lines_from`] for the whole of `text`.
pub fn lines(text: &str) -> (found: Vec<String>)
    ensures
        crate::text::texts(found@) == lines_from(text@, 0),
{
    let chars = chars_of(text);
    let mut found: Vec<String> = Vec::new();
    let mut at: usize = 0;
    assert(crate::text::texts(found@) + lines_from(chars@, 0) =~= lines_from(chars@, 0));
    while at < chars.len()
        invariant
            at <= chars@.len(),
            chars@ == text@,
            crate::text::texts(found@) + lines_from(chars@, at as int) == lines_from(chars@, 0),
        decreases chars.len() - at,
    {
        let mut end = at;
        while end < chars.len() && chars[end] != '\n'
            invariant
                at <= end <= chars@.len(),
                line_length(chars@, at as int) == (end - at) + line_length(chars@, end as int),
            decreases chars.len() - end,
        {
            end += 1;
        }
        let ghost before = crate::text::texts(found@);
        let ghost rest = if end < chars@.len() {
            lines_from(chars@, end + 1)
        } else {
            Seq::<Seq<char>>::empty()
        };
        let stop = if end < chars.len() && end > at && chars[end - 1] == '\r' {
            end - 1
        } else {
            end
        };
        let line = string_of(&chars, at, stop);
        assert(line@ == line_at(chars@, at as int, (end - at) as nat));
        found.push(line);
        proof {
            let this = line_at(chars@, at as int, (end - at) as nat);
            assert(crate::text::texts(found@) =~= before + seq![this]);
            assert(crate::text::texts(found@) + rest =~= before + (seq![this] + rest));
        }
        if end < chars.len() {
            at = end + 1;
        } else {
            at = end;
        }
    }
    assert(crate::text::texts(found@) + Seq::<Seq<char>>::empty() =~= crate::text::texts(found@));
    found
}

fn push_blanks(buf: &mut String, width: usize)
    ensures
        final(buf)@ == old(buf)@ + blanks(width as nat),
{
    let mut i: usize = 0;
    assert(buf@ =~= old(buf)@ + blanks(0));
    while i < width
        invariant
            i <= width,
            buf@ == old(buf)@ + blanks(i as nat),
        decreases width - i,
    {
        buf.push(' ');
        i += 1;
        assert(buf@ =~= old(buf)@ + blanks(i as nat));
    }
}

/// Computes [`log_text`].
pub fn log(message: &str, tag_width: usize) -> (text: String)
    ensures
        text@ == log_text(message@, tag_width as nat),
{
    let found = lines(message);
    let mut text = String::new();
    if found.len() == 0 {
        text.push('\n');
        assert(text@ =~= seq!['\n']);
        return text;
    }
    let ghost all = crate::text::texts(found@);
    text.append(found[0].as_str());
    text.push('\n');
    let ghost head = text@;
    assert(head =~= all[0] + seq!['\n']);
    let ghost others = all.drop_first();
    let mut i: usize = 1;
    assert(text@ =~= head + indented(others.subrange(0, 0), (tag_width + 3) as nat));
    while i < found.len()
        invariant
            1 <= i <= found@.len(),
            all == crate::text::texts(found@),
            others == all.drop_first(),
            text@ == head + indented(others.subrange(0, i - 1), (tag_width + 3) as nat),
        decreases found.len() - i,
    {
        let ghost before = text@;
        push_blanks(&mut text, tag_width);
        push_blanks(&mut text, 3);
        assert(blanks(tag_width as nat) + blanks(3) =~= blanks((tag_width + 3) as nat));
        text.append(found[i].as_str());
        text.push('\n');
        i += 1;
        proof {
            let upto = others.subrange(0, i - 1);
            assert(upto.drop_last() =~= others.subrange(0, i - 2));
            assert(upto.last() == found@[i - 1]@);
            assert(text@ =~= head + indented(upto, (tag_width + 3) as nat));
        }
    }
    assert(others.subrange(0, i - 1) =~= others);
    text
}

} // verus!
