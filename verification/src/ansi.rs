//! Coloured samples for the terminal, as escape sequences.

use crate::color::Color;
use crate::text::{decimal_digits, push_decimal};
use vstd::prelude::*;

verus! {

/// The three channels of a colour as they stand in an escape sequence.
pub open spec fn channels(color: Color) -> Seq<char> {
    decimal_digits(color.r as nat) + seq![';'] + decimal_digits(color.g as nat) + seq![';']
        + decimal_digits(color.b as nat)
}

/// Three blanks on the background `color`.
pub open spec fn square(color: Color) -> Seq<char> {
    "\x1b[48;2;"@ + channels(color) + "m   \x1b[0m"@
}

/// `text` between two blanks, in the colour `fg` on the background `bg`.
pub open spec fn sample(text: Seq<char>, bg: Color, fg: Color) -> Seq<char> {
    "\x1b[48;2;"@ + channels(bg) + "m\x1b[38;2;"@ + channels(fg) + "m "@ + text + " \x1b[0m"@
}

fn push_channels(buf: &mut String, color: Color)
    ensures
        final(buf)@ == old(buf)@ + channels(color),
{
    push_decimal(buf, color.r as usize);
    buf.push(';');
    push_decimal(buf, color.g as usize);
    buf.push(';');
    push_decimal(buf, color.b as usize);
    assert(buf@ =~= old(buf)@ + channels(color));
}

/// Appends [`square`] of `color` to `buf`.
pub fn push_square(buf: &mut String, color: Color)
    ensures
        final(buf)@ == old(buf)@ + square(color),
{
    buf.append("\x1b[48;2;");
    push_channels(buf, color);
    buf.append("m   \x1b[0m");
    assert(buf@ =~= old(buf)@ + square(color));
}

/// Appends [`sample`] to `buf`.
pub fn push_sample(buf: &mut String, text: &str, bg: Color, fg: Color)
    ensures
        final(buf)@ == old(buf)@ + sample(text@, bg, fg),
{
    buf.append("\x1b[48;2;");
    push_channels(buf, bg);
    buf.append("m\x1b[38;2;");
    push_channels(buf, fg);
    buf.append("m ");
    buf.append(text);
    buf.append(" \x1b[0m");
    assert(buf@ =~= old(buf)@ + sample(text@, bg, fg));
}

/// Three blanks on the background `color`.
pub fn colored_square(color: Color) -> (s: String)
    ensures
        s@ == square(color),
{
    let mut s = String::new();
    push_square(&mut s, color);
    assert(s@ =~= square(color));
    s
}

/// `text` in the colour `fg_col` on the background `bg_col`.
pub fn color_display(text: &str, bg_col: Color, fg_col: Color) -> (s: String)
    ensures
        s@ == sample(text@, bg_col, fg_col),
{
    let mut s = String::new();
    push_sample(&mut s, text, bg_col, fg_col);
    assert(s@ =~= sample(text@, bg_col, fg_col));
    s
}

} // verus!
