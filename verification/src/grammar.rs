//! The grammar of templates, as functions from a text and a place in it to
//! what stands there.
//!
//! ```text
//! Template    := (Instruction | Token)*
//! Token       := Section | Insert | Text
//! Section     := Start ('#' | '^') Name End Token* Start '/' Name End
//! Insert      := Start Name End
//! Instruction := Start '=' NewStart NewEnd '=' End
//! Name        := '.' | Ident ('.' Ident)*
//! Ident       := [A-Za-z0-9_-]+
//! Text        := the characters up to the next Start
//! ```
//!
//! `Start` and `End` are the delimiters in force, `{{` and `}}` until an
//! instruction replaces them. Whitespace may stand around the parts of a tag.
//! At each place the alternatives are tried in the order instruction,
//! section, insert, text.

use crate::template::{TokenView, name_text};
use crate::text::{char_is_whitespace, holds_at};
use vstd::prelude::*;

verus! {

/// The pair of delimiters in force.
pub struct Delimiters {
    pub start: Seq<char>,
    pub end: Seq<char>,
}

/// The delimiters at the beginning of every template.
pub open spec fn default_delimiters() -> Delimiters {
    Delimiters { start: seq!['{', '{'], end: seq!['}', '}'] }
}

/// What went wrong, as mathematics.
pub enum ErrorKindView {
    ExpectedIdent,
    ExpectedClosingDelim(Seq<char>),
    ExpectedName,
    MismatchedSectionEnd(Seq<char>, Seq<char>),
    MissingSectionEnd(Seq<char>),
    MissingStartDelimiterDef,
    MissingEndDelimiterDef,
}

/// What stands at a place of the text, for one production of the grammar.
pub enum Parsed<T> {
    /// The production applies, yields `value` and ends before `next`.
    Match { value: T, next: int },
    /// The production does not apply here.
    Skip,
    /// The production applies but the text is wrong at `at`.
    Fail { kind: ErrorKindView, at: int },
}

/// Whether `c` may stand in an identifier.
pub open spec fn is_ident_char(c: char) -> bool {
    ('A' <= c <= 'Z') || ('a' <= c <= 'z') || ('0' <= c <= '9') || c == '_' || c == '-'
}

/// Whether `c` may stand in the definition of a delimiter.
pub open spec fn is_delimiter_char(c: char) -> bool {
    !char_is_whitespace(c) && c != '='
}

/// The number of characters from `at` on that all satisfy `member`.
pub open spec fn run_length(text: Seq<char>, at: int, member: spec_fn(char) -> bool) -> nat
    decreases text.len() - at,
{
    if 0 <= at < text.len() && member(text[at]) {
        1 + run_length(text, at + 1, member)
    } else {
        0
    }
}

/// The first place from `at` on that holds no whitespace.
pub open spec fn after_whitespace(text: Seq<char>, at: int) -> int {
    at + run_length(text, at, |c: char| char_is_whitespace(c))
}

/// The length of the identifier at `at`.
pub open spec fn ident_length(text: Seq<char>, at: int) -> nat {
    run_length(text, at, |c: char| is_ident_char(c))
}

/// The length of the delimiter definition at `at`.
pub open spec fn definition_length(text: Seq<char>, at: int) -> nat {
    run_length(text, at, |c: char| is_delimiter_char(c))
}

/// The number of characters from `at` up to the next occurrence of `start`,
/// or up to the end of the text.
pub open spec fn text_length(text: Seq<char>, at: int, start: Seq<char>) -> nat
    decreases text.len() - at,
{
    if 0 <= at < text.len() && !holds_at(text, at, start) {
        1 + text_length(text, at + 1, start)
    } else {
        0
    }
}

/// The segments of a dotted name that begins at `at`.
pub open spec fn segments(text: Seq<char>, at: int) -> Parsed<Seq<Seq<char>>>
    decreases text.len() - at,
{
    let end = at + ident_length(text, at);
    if end == at {
        Parsed::Fail { kind: ErrorKindView::ExpectedIdent, at }
    } else if 0 <= end < text.len() && text[end] == '.' {
        match segments(text, end + 1) {
            Parsed::Match { value, next } => Parsed::Match {
                value: seq![text.subrange(at, end)] + value,
                next,
            },
            other => other,
        }
    } else {
        Parsed::Match { value: seq![text.subrange(at, end)], next: end }
    }
}

/// The name at `at`: a single dot for the empty path, else dotted segments.
pub open spec fn name(text: Seq<char>, at: int) -> Parsed<Seq<Seq<char>>> {
    if 0 <= at < text.len() && text[at] == '.' {
        Parsed::Match { value: Seq::empty(), next: at + 1 }
    } else {
        segments(text, at)
    }
}

/// The rest of a tag from its name on: the name, then the end delimiter.
pub open spec fn tag_name(text: Seq<char>, at: int, delimiters: Delimiters) -> Parsed<
    Seq<Seq<char>>,
> {
    let begin = after_whitespace(text, at);
    match name(text, begin) {
        Parsed::Match { value, next } => {
            let close = after_whitespace(text, next);
            if holds_at(text, close, delimiters.end) {
                Parsed::Match { value, next: close + delimiters.end.len() }
            } else {
                Parsed::Fail {
                    kind: ErrorKindView::ExpectedClosingDelim(delimiters.end),
                    at: close,
                }
            }
        },
        Parsed::Skip => Parsed::Fail { kind: ErrorKindView::ExpectedName, at: begin },
        Parsed::Fail { kind, at } => Parsed::Fail { kind, at },
    }
}

/// The tag at `at` that carries `operator` before its name, or none.
pub open spec fn tag(text: Seq<char>, at: int, delimiters: Delimiters, operator: Option<char>)
    -> Parsed<Seq<Seq<char>>> {
    if !holds_at(text, at, delimiters.start) {
        Parsed::Skip
    } else {
        let inside = after_whitespace(text, at + delimiters.start.len());
        match operator {
            Some(op) => if 0 <= inside < text.len() && text[inside] == op {
                tag_name(text, inside + 1, delimiters)
            } else {
                Parsed::Skip
            },
            None => tag_name(text, inside, delimiters),
        }
    }
}

/// The instruction at `at`, which defines new delimiters.
pub open spec fn instruction(text: Seq<char>, at: int, delimiters: Delimiters) -> Parsed<
    Delimiters,
> {
    let open = delimiters.start + seq!['='];
    let close = seq!['='] + delimiters.end;
    if !holds_at(text, at, open) {
        Parsed::Skip
    } else {
        let first = after_whitespace(text, at + open.len());
        let first_end = first + definition_length(text, first);
        let second = after_whitespace(text, first_end);
        let second_end = second + definition_length(text, second);
        let end = after_whitespace(text, second_end);
        if first_end == first {
            Parsed::Fail { kind: ErrorKindView::MissingStartDelimiterDef, at: first }
        } else if second_end == second {
            Parsed::Fail { kind: ErrorKindView::MissingEndDelimiterDef, at: second }
        } else if !holds_at(text, end, close) {
            Parsed::Fail { kind: ErrorKindView::ExpectedClosingDelim(close), at: end }
        } else {
            Parsed::Match {
                value: Delimiters {
                    start: text.subrange(first, first_end),
                    end: text.subrange(second, second_end),
                },
                next: end + close.len(),
            }
        }
    }
}

/// The literal text at `at`.
pub open spec fn literal(text: Seq<char>, at: int, delimiters: Delimiters) -> Parsed<Seq<char>> {
    let length = text_length(text, at, delimiters.start);
    if length == 0 {
        Parsed::Skip
    } else {
        Parsed::Match { value: text.subrange(at, at + length), next: at + length }
    }
}

/// A parsed item together with the delimiters that are in force after it.
pub struct With<T> {
    pub item: T,
    pub delimiters: Delimiters,
}

/// The token or the instruction at `at`. An instruction yields no token.
pub open spec fn token_or_instruction(text: Seq<char>, at: int, delimiters: Delimiters) -> Parsed<
    With<Option<TokenView>>,
>
    decreases text.len() - at, 3nat,
{
    match instruction(text, at, delimiters) {
        Parsed::Match { value, next } => Parsed::Match {
            value: With { item: None, delimiters: value },
            next,
        },
        Parsed::Fail { kind, at } => Parsed::Fail { kind, at },
        Parsed::Skip => match token(text, at, delimiters) {
            Parsed::Match { value, next } => Parsed::Match {
                value: With { item: Some(value.item), delimiters: value.delimiters },
                next,
            },
            Parsed::Skip => Parsed::Skip,
            Parsed::Fail { kind, at } => Parsed::Fail { kind, at },
        },
    }
}

/// The token at `at`: a section, else an insert, else literal text.
pub open spec fn token(text: Seq<char>, at: int, delimiters: Delimiters) -> Parsed<
    With<TokenView>,
>
    decreases text.len() - at, 2nat,
{
    match section(text, at, delimiters) {
        Parsed::Match { value, next } => Parsed::Match { value, next },
        Parsed::Fail { kind, at } => Parsed::Fail { kind, at },
        Parsed::Skip => match tag(text, at, delimiters, None) {
            Parsed::Match { value, next } => Parsed::Match {
                value: With { item: TokenView::Insert { name: value, format: None }, delimiters },
                next,
            },
            Parsed::Fail { kind, at } => Parsed::Fail { kind, at },
            Parsed::Skip => match literal(text, at, delimiters) {
                Parsed::Match { value, next } => Parsed::Match {
                    value: With { item: TokenView::Text(value), delimiters },
                    next,
                },
                Parsed::Skip => Parsed::Skip,
                Parsed::Fail { kind, at } => Parsed::Fail { kind, at },
            },
        },
    }
}

/// The section at `at`: an opening tag with `#`, or with `^` for an inverted
/// section, then the content up to the closing tag of the same name.
pub open spec fn section(text: Seq<char>, at: int, delimiters: Delimiters) -> Parsed<
    With<TokenView>,
>
    decreases text.len() - at, 1nat,
{
    match tag(text, at, delimiters, Some('#')) {
        Parsed::Match { value, next } => section_from(text, at, next, delimiters, value, false),
        Parsed::Fail { kind, at } => Parsed::Fail { kind, at },
        Parsed::Skip => match tag(text, at, delimiters, Some('^')) {
            Parsed::Match { value, next } => section_from(text, at, next, delimiters, value, true),
            Parsed::Fail { kind, at } => Parsed::Fail { kind, at },
            Parsed::Skip => Parsed::Skip,
        },
    }
}

/// The section whose opening tag stands at `at` and ends before `next`.
pub open spec fn section_from(
    text: Seq<char>,
    at: int,
    next: int,
    delimiters: Delimiters,
    name: Seq<Seq<char>>,
    inverted: bool,
) -> Parsed<With<TokenView>>
    decreases text.len() - at, 0nat,
{
    if at < next <= text.len() {
        match section_content(text, next, delimiters, name) {
            Parsed::Match { value, next } => Parsed::Match {
                value: With {
                    item: TokenView::Section { name, inverted, content: value.item },
                    delimiters: value.delimiters,
                },
                next,
            },
            Parsed::Fail { kind, at } => Parsed::Fail { kind, at },
            Parsed::Skip => Parsed::Skip,
        }
    } else {
        Parsed::Skip
    }
}

/// The content of the section `name` from `at` on, up to and with its
/// closing tag. A closing tag of another name is an error at the place where
/// that tag begins; the end of the text is an error there.
pub open spec fn section_content(
    text: Seq<char>,
    at: int,
    delimiters: Delimiters,
    name: Seq<Seq<char>>,
) -> Parsed<With<Seq<TokenView>>>
    decreases text.len() - at, 4nat,
{
    match tag(text, at, delimiters, Some('/')) {
        Parsed::Match { value, next } => if value == name {
            Parsed::Match { value: With { item: Seq::empty(), delimiters }, next }
        } else {
            Parsed::Fail {
                kind: ErrorKindView::MismatchedSectionEnd(name_text(value), name_text(name)),
                at,
            }
        },
        Parsed::Fail { kind, at } => Parsed::Fail { kind, at },
        Parsed::Skip => match token_or_instruction(text, at, delimiters) {
            Parsed::Skip => Parsed::Fail {
                kind: ErrorKindView::MissingSectionEnd(name_text(name)),
                at,
            },
            Parsed::Fail { kind, at } => Parsed::Fail { kind, at },
            Parsed::Match { value, next } => if at < next <= text.len() {
                match section_content(text, next, value.delimiters, name) {
                    Parsed::Match { value: rest, next } => Parsed::Match {
                        value: With {
                            item: with_token(value.item, rest.item),
                            delimiters: rest.delimiters,
                        },
                        next,
                    },
                    other => other,
                }
            } else {
                Parsed::Skip
            },
        },
    }
}

/// `rest` with the token `first` before it, if there is one.
pub open spec fn with_token(first: Option<TokenView>, rest: Seq<TokenView>) -> Seq<TokenView> {
    match first {
        Some(token) => seq![token] + rest,
        None => rest,
    }
}

/// The tokens of a template from `at` on, up to the place where neither an
/// instruction nor a token stands.
pub open spec fn template(text: Seq<char>, at: int, delimiters: Delimiters) -> Parsed<
    Seq<TokenView>,
>
    decreases text.len() - at, 5nat,
{
    match token_or_instruction(text, at, delimiters) {
        Parsed::Skip => Parsed::Match { value: Seq::empty(), next: at },
        Parsed::Fail { kind, at } => Parsed::Fail { kind, at },
        Parsed::Match { value, next } => if at < next <= text.len() {
            match template(text, next, value.delimiters) {
                Parsed::Match { value: rest, next } => Parsed::Match {
                    value: with_token(value.item, rest),
                    next,
                },
                other => other,
            }
        } else {
            Parsed::Skip
        },
    }
}

/// Skipping whitespace, one character at a time.
pub proof fn lemma_after_whitespace(text: Seq<char>, at: int)
    ensures
        after_whitespace(text, at) == if 0 <= at < text.len() && char_is_whitespace(text[at]) {
            after_whitespace(text, at + 1)
        } else {
            at
        },
        at <= after_whitespace(text, at),
        0 <= at <= text.len() ==> after_whitespace(text, at) <= text.len(),
    decreases text.len() - at,
{
    if 0 <= at < text.len() && char_is_whitespace(text[at]) {
        lemma_after_whitespace(text, at + 1);
    }
}

/// The length of an identifier, one character at a time.
pub proof fn lemma_ident_length(text: Seq<char>, at: int)
    ensures
        ident_length(text, at) == if 0 <= at < text.len() && is_ident_char(text[at]) {
            1 + ident_length(text, at + 1)
        } else {
            0
        },
        0 <= at <= text.len() ==> at + ident_length(text, at) <= text.len(),
    decreases text.len() - at,
{
    if 0 <= at < text.len() && is_ident_char(text[at]) {
        lemma_ident_length(text, at + 1);
    }
}

/// The length of a delimiter definition, one character at a time.
pub proof fn lemma_definition_length(text: Seq<char>, at: int)
    ensures
        definition_length(text, at) == if 0 <= at < text.len() && is_delimiter_char(text[at]) {
            1 + definition_length(text, at + 1)
        } else {
            0
        },
        0 <= at <= text.len() ==> at + definition_length(text, at) <= text.len(),
    decreases text.len() - at,
{
    if 0 <= at < text.len() && is_delimiter_char(text[at]) {
        lemma_definition_length(text, at + 1);
    }
}

/// Literal text ends inside the text.
pub proof fn lemma_text_length(text: Seq<char>, at: int, start: Seq<char>)
    ensures
        0 <= at <= text.len() ==> at + text_length(text, at, start) <= text.len(),
    decreases text.len() - at,
{
    if 0 <= at < text.len() && !holds_at(text, at, start) {
        lemma_text_length(text, at + 1, start);
    }
}

} // verus!
