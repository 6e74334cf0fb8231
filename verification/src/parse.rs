//! The parser: from the text of a template to its token tree.

use crate::grammar::{
    Delimiters, ErrorKindView, Parsed, With, after_whitespace, default_delimiters,
    definition_length, ident_length, instruction, is_ident_char, lemma_after_whitespace,
    lemma_definition_length, lemma_ident_length, literal, name, section, section_content,
    section_from, segments, tag, template, text_length, token, token_or_instruction, with_token,
};
use crate::scanner::{Position, Source, position_at};
use crate::template::{
    Insert, Name, Section, Template, Token, TokenView, lemma_section_view, tokens_view,
};
use crate::text::{chars_of, holds_at, is_whitespace, starts_with_at, string_of};
use vstd::prelude::*;

verus! {

/// What is wrong with the text of a template.
#[derive(Debug, Clone, PartialEq, Eq)]
pub enum ParseErrorKind {
    /// An identifier should stand here.
    ExpectedIdent,
    /// The closing delimiter given should stand here.
    ExpectedClosingDelim(String),
    /// A name should stand here.
    ExpectedName,
    /// A section is closed under the first name but was opened under the
    /// second.
    MismatchedSectionEnd(String, String),
    /// The section of this name is never closed.
    MissingSectionEnd(String),
    /// An instruction defines no start delimiter.
    MissingStartDelimiterDef,
    /// An instruction defines no end delimiter.
    MissingEndDelimiterDef,
}

impl View for ParseErrorKind {
    type V = ErrorKindView;

    open spec fn view(&self) -> ErrorKindView {
        match self {
            ParseErrorKind::ExpectedIdent => ErrorKindView::ExpectedIdent,
            ParseErrorKind::ExpectedClosingDelim(d) => ErrorKindView::ExpectedClosingDelim(d@),
            ParseErrorKind::ExpectedName => ErrorKindView::ExpectedName,
            ParseErrorKind::MismatchedSectionEnd(found, expected) => {
                ErrorKindView::MismatchedSectionEnd(found@, expected@)
            },
            ParseErrorKind::MissingSectionEnd(name) => ErrorKindView::MissingSectionEnd(name@),
            ParseErrorKind::MissingStartDelimiterDef => ErrorKindView::MissingStartDelimiterDef,
            ParseErrorKind::MissingEndDelimiterDef => ErrorKindView::MissingEndDelimiterDef,
        }
    }
}

impl ParseErrorKind {
    /// The text of a kind of error.
    pub open spec fn spec_message(kind: ErrorKindView) -> Seq<char> {
        match kind {
            ErrorKindView::ExpectedIdent => "Expected an identifier"@,
            ErrorKindView::ExpectedClosingDelim(delimiter) => "Expected closing delimiter \""@
                + delimiter + seq!['"'],
            ErrorKindView::ExpectedName => "Expected a name"@,
            ErrorKindView::MismatchedSectionEnd(found, expected) => {
                "Mismatched section end: expected \"/"@ + expected + "\", found \"/"@ + found
                    + seq!['"']
            },
            ErrorKindView::MissingSectionEnd(name) => "Section \""@ + name
                + "\" was never closed"@,
            ErrorKindView::MissingStartDelimiterDef => {
                "Missing a definition for the start delimiter"@
            },
            ErrorKindView::MissingEndDelimiterDef => "Missing a definition for the end delimiter"@,
        }
    }

    /// The text of the kind of error.
    pub fn message(&self) -> (s: String)
        ensures
            s@ == Self::spec_message(self@),
    {
        let mut s = String::new();
        match self {
            ParseErrorKind::ExpectedIdent => {
                s.append("Expected an identifier");
            },
            ParseErrorKind::ExpectedClosingDelim(delimiter) => {
                s.append("Expected closing delimiter \"");
                s.append(delimiter.as_str());
                s.push('"');
            },
            ParseErrorKind::ExpectedName => {
                s.append("Expected a name");
            },
            ParseErrorKind::MismatchedSectionEnd(found, expected) => {
                s.append("Mismatched section end: expected \"/");
                s.append(expected.as_str());
                s.append("\", found \"/");
                s.append(found.as_str());
                s.push('"');
            },
            ParseErrorKind::MissingSectionEnd(name) => {
                s.append("Section \"");
                s.append(name.as_str());
                s.append("\" was never closed");
            },
            ParseErrorKind::MissingStartDelimiterDef => {
                s.append("Missing a definition for the start delimiter");
            },
            ParseErrorKind::MissingEndDelimiterDef => {
                s.append("Missing a definition for the end delimiter");
            },
        }
        assert(s@ =~= Self::spec_message(self@));
        s
    }
}

/// The first error in the text of a template, with the place where it was
/// found.
#[derive(Debug, Clone, PartialEq, Eq)]
pub struct ParseError {
    position: Position,
    kind: ParseErrorKind,
}

/// The mathematical content of a [`ParseError`].
pub struct ParseErrorView {
    pub kind: ErrorKindView,
    pub position: (nat, nat),
}

impl View for ParseError {
    type V = ParseErrorView;

    closed spec fn view(&self) -> ParseErrorView {
        ParseErrorView { kind: self.kind@, position: self.position@ }
    }
}

impl ParseError {
    pub(crate) fn new(kind: ParseErrorKind, position: Position) -> (error: Self)
        ensures
            error@ == (ParseErrorView { kind: kind@, position: position@ }),
    {
        ParseError { kind, position }
    }

    /// What is wrong.
    pub fn kind(&self) -> (kind: &ParseErrorKind)
        ensures
            kind@ == self@.kind,
    {
        &self.kind
    }

    /// Where it is wrong.
    pub fn position(&self) -> (position: Position)
        ensures
            position@ == self@.position,
    {
        self.position
    }

    /// The text of an error: what is wrong and, in parentheses, where.
    pub open spec fn spec_text(error: ParseErrorView) -> Seq<char> {
        ParseErrorKind::spec_message(error.kind) + " ("@ + Position::text(error.position)
            + seq![')']
    }

    /// The text of the error: what is wrong and, in parentheses, the line
    /// and the column.
    pub fn to_string(&self) -> (s: String)
        ensures
            s@ == Self::spec_text(self@),
    {
        let mut s = self.kind.message();
        s.append(" (");
        s.append(self.position.to_string().as_str());
        s.push(')');
        s
    }
}

/// The delimiters in force while a template is parsed.
pub struct State {
    pub start_delimiter: Vec<char>,
    pub end_delimiter: Vec<char>,
}

impl View for State {
    type V = Delimiters;

    open spec fn view(&self) -> Delimiters {
        Delimiters { start: self.start_delimiter@, end: self.end_delimiter@ }
    }
}

impl Default for State {
    fn default() -> (state: State)
        ensures
            state@ == default_delimiters(),
    {
        let mut start_delimiter: Vec<char> = Vec::new();
        start_delimiter.push('{');
        start_delimiter.push('{');
        let mut end_delimiter: Vec<char> = Vec::new();
        end_delimiter.push('}');
        end_delimiter.push('}');
        assert(start_delimiter@ =~= seq!['{', '{']);
        assert(end_delimiter@ =~= seq!['}', '}']);
        State { start_delimiter, end_delimiter }
    }
}

/// The error of kind `kind` at the place `at` of `text`.
pub open spec fn error_at(text: Seq<char>, kind: ErrorKindView, at: int) -> ParseErrorView {
    ParseErrorView { kind, position: position_at(text, at) }
}

/// Moves over the whitespace under the cursor.
fn skip_whitespace(source: &mut Source)
    requires
        old(source).wf(),
    ensures
        final(source).wf(),
        final(source).text == old(source).text,
        final(source).index == after_whitespace(old(source).text@, old(source).index as int),
{
    let ghost text = source.text@;
    let ghost start = source.index as int;
    loop
        invariant
            source.wf(),
            source.text == old(source).text,
            text == source.text@,
            start == old(source).index,
            after_whitespace(text, start) == after_whitespace(text, source.index as int),
        decreases source.text@.len() - source.index,
    {
        proof {
            lemma_after_whitespace(text, source.index as int);
        }
        match source.peek() {
            Some(c) => {
                if is_whitespace(c) {
                    let _ = source.next();
                } else {
                    return ;
                }
            },
            None => {
                return ;
            },
        }
    }
}

/// Moves over `delimiter` if it stands under the cursor, and says whether it
/// did.
fn has_delimiter(source: &mut Source, delimiter: &Vec<char>) -> (found: bool)
    requires
        old(source).wf(),
    ensures
        final(source).wf(),
        final(source).text == old(source).text,
        found == holds_at(old(source).text@, old(source).index as int, delimiter@),
        final(source).index == if found {
            old(source).index + delimiter@.len()
        } else {
            old(source).index as int
        },
        !found ==> *final(source) == *old(source),
{
    if starts_with_at(source.text, source.index, delimiter) {
        source.advance_to(source.index + delimiter.len());
        true
    } else {
        false
    }
}

/// The identifier under the cursor, if there is one; the cursor moves over
/// it.
fn parse_ident(source: &mut Source) -> (result: Result<Option<String>, ParseError>)
    requires
        old(source).wf(),
    ensures
        final(source).wf(),
        final(source).text == old(source).text,
        final(source).index == old(source).index + ident_length(
            old(source).text@,
            old(source).index as int,
        ),
        match result {
            Ok(Some(ident)) => {
                &&& ident_length(old(source).text@, old(source).index as int) > 0
                &&& ident@ == old(source).text@.subrange(
                    old(source).index as int,
                    final(source).index as int,
                )
            },
            Ok(None) => ident_length(old(source).text@, old(source).index as int) == 0,
            Err(_) => false,
        },
{
    let ghost text = source.text@;
    let start = source.index;
    let mut end = start;
    proof {
        lemma_ident_length(text, end as int);
    }
    while end < source.text.len() && ident_char(source.text[end])
        invariant
            source.wf(),
            *source == *old(source),
            text == source.text@,
            start == source.index,
            start <= end <= text.len(),
            ident_length(text, start as int) == (end - start) + ident_length(text, end as int),
            ident_length(text, end as int) == if end < text.len() && is_ident_char(
                text[end as int],
            ) {
                1 + ident_length(text, end + 1)
            } else {
                0
            },
        decreases text.len() - end,
    {
        end += 1;
        proof {
            lemma_ident_length(text, end as int);
        }
    }
    if end == start {
        return Ok(None);
    }
    let ident = string_of(source.text, start, end);
    source.advance_to(end);
    Ok(Some(ident))
}

/// Decides [`is_ident_char`].
fn ident_char(c: char) -> (b: bool)
    ensures
        b == is_ident_char(c),
{
    ('A' <= c && c <= 'Z') || ('a' <= c && c <= 'z') || ('0' <= c && c <= '9') || c == '_' || c
        == '-'
}

/// The definition of a delimiter under the cursor, if there is one: the
/// characters up to the next whitespace or `=`. The cursor moves over it.
fn parse_delimiter_definition(source: &mut Source) -> (result: Result<
    Option<Vec<char>>,
    ParseError,
>)
    requires
        old(source).wf(),
    ensures
        final(source).wf(),
        final(source).text == old(source).text,
        final(source).index == old(source).index + definition_length(
            old(source).text@,
            old(source).index as int,
        ),
        match result {
            Ok(Some(delimiter)) => {
                &&& definition_length(old(source).text@, old(source).index as int) > 0
                &&& delimiter@ == old(source).text@.subrange(
                    old(source).index as int,
                    final(source).index as int,
                )
            },
            Ok(None) => definition_length(old(source).text@, old(source).index as int) == 0,
            Err(_) => false,
        },
{
    let ghost text = source.text@;
    let ghost start = source.index as int;
    let mut delimiter: Vec<char> = Vec::new();
    loop
        invariant
            source.wf(),
            source.text == old(source).text,
            text == source.text@,
            start == old(source).index,
            start <= source.index,
            definition_length(text, start) == (source.index - start) + definition_length(
                text,
                source.index as int,
            ),
            delimiter@ == text.subrange(start, source.index as int),
        decreases text.len() - source.index,
    {
        proof {
            lemma_definition_length(text, source.index as int);
        }
        let stop = match source.peek() {
            Some(c) => is_whitespace(c) || c == '=',
            None => true,
        };
        if stop {
            return if delimiter.len() == 0 {
                Ok(None)
            } else {
                Ok(Some(delimiter))
            };
        }
        delimiter.push(source.text[source.index]);
        let _ = source.next();
        assert(delimiter@ =~= text.subrange(start, source.index as int));
    }
}


/// `rest` with the segments `prefix` before its own.
pub open spec fn after_segments(prefix: Seq<Seq<char>>, rest: Parsed<Seq<Seq<char>>>) -> Parsed<
    Seq<Seq<char>>,
> {
    match rest {
        Parsed::Match { value, next } => Parsed::Match { value: prefix + value, next },
        other => other,
    }
}

/// The name under the cursor; the cursor moves over it.
fn parse_name(source: &mut Source) -> (result: Result<Option<Name>, ParseError>)
    requires
        old(source).wf(),
    ensures
        final(source).wf(),
        final(source).text == old(source).text,
        match name(old(source).text@, old(source).index as int) {
            Parsed::Match { value, next } => {
                &&& result matches Ok(Some(parsed))
                &&& parsed@ == value
                &&& final(source).index == next
                &&& next > old(source).index
            },
            Parsed::Skip => result is Ok && result->Ok_0 is None && *final(source) == *old(source),
            Parsed::Fail { kind, at } => {
                &&& result matches Err(e)
                &&& e@ == error_at(old(source).text@, kind, at)
                &&& *final(source) == *old(source)
            },
        },
{
    let ghost text = source.text@;
    let ghost start = source.index as int;
    let dot = match source.peek() {
        Some(c) => c == '.',
        None => false,
    };
    if dot {
        let _ = source.next();
        let empty = Name(Vec::new());
        assert(empty@ =~= Seq::<Seq<char>>::empty());
        return Ok(Some(empty));
    }
    let mut src = *source;
    let mut parts: Vec<String> = Vec::new();
    assert(Name(parts)@ =~= Seq::<Seq<char>>::empty());
    assert(after_segments(Name(parts)@, segments(text, start)) == segments(text, start)) by {
        match segments(text, start) {
            Parsed::Match { value, next } => {
                assert(Name(parts)@ + value =~= value);
            },
            _ => {},
        }
    }
    loop
        invariant
            src.wf(),
            source.wf(),
            src.text == source.text,
            *source == *old(source),
            text == source.text@,
            start == source.index,
            start <= src.index,
            name(text, start) == segments(text, start),
            segments(text, start) == after_segments(Name(parts)@, segments(text, src.index as int)),
        decreases text.len() - src.index,
    {
        let ghost at = src.index as int;
        let ghost before = Name(parts)@;
        proof {
            lemma_ident_length(text, at);
        }
        match parse_ident(&mut src) {
            Ok(Some(segment)) => {
                let ghost end = src.index as int;
                parts.push(segment);
                assert(Name(parts)@ =~= before + seq![text.subrange(at, end)]);
                let more = match src.peek() {
                    Some(c) => c == '.',
                    None => false,
                };
                if more {
                    let _ = src.next();
                    proof {
                        match segments(text, end + 1) {
                            Parsed::Match { value, next } => {
                                assert(before + (seq![text.subrange(at, end)] + value) =~= (before
                                    + seq![text.subrange(at, end)]) + value);
                            },
                            _ => {},
                        }
                    }
                } else {
                    *source = src;
                    return Ok(Some(Name(parts)));
                }
            },
            Ok(None) => {
                return Err(ParseError::new(ParseErrorKind::ExpectedIdent, src.position));
            },
            Err(e) => {
                return Err(e);
            },
        }
    }
}

/// The tag under the cursor that carries `operator` before its name (or,
/// without an operator, nothing); the cursor moves over it.
fn parse_tag(source: &mut Source, state: &State, operator: Option<char>) -> (result: Result<
    Option<Name>,
    ParseError,
>)
    requires
        old(source).wf(),
    ensures
        final(source).wf(),
        final(source).text == old(source).text,
        match tag(old(source).text@, old(source).index as int, state@, operator) {
            Parsed::Match { value, next } => {
                &&& result matches Ok(Some(parsed))
                &&& parsed@ == value
                &&& final(source).index == next
                &&& next > old(source).index
            },
            Parsed::Skip => result is Ok && result->Ok_0 is None && *final(source) == *old(source),
            Parsed::Fail { kind, at } => {
                &&& result matches Err(e)
                &&& e@ == error_at(old(source).text@, kind, at)
                &&& *final(source) == *old(source)
            },
        },
{
    let ghost text = source.text@;
    let mut src = *source;
    if !has_delimiter(&mut src, &state.start_delimiter) {
        return Ok(None);
    }
    proof {
        lemma_after_whitespace(text, src.index as int);
    }
    skip_whitespace(&mut src);
    match operator {
        Some(op) => {
            let found = match src.peek() {
                Some(c) => c == op,
                None => false,
            };
            if !found {
                return Ok(None);
            }
            let _ = src.next();
        },
        None => {},
    }
    proof {
        lemma_after_whitespace(text, src.index as int);
    }
    skip_whitespace(&mut src);
    let parsed = match parse_name(&mut src) {
        Ok(Some(parsed)) => parsed,
        Ok(None) => {
            return Err(ParseError::new(ParseErrorKind::ExpectedName, src.position));
        },
        Err(e) => {
            return Err(e);
        },
    };
    proof {
        lemma_after_whitespace(text, src.index as int);
    }
    skip_whitespace(&mut src);
    if !has_delimiter(&mut src, &state.end_delimiter) {
        let expected = string_of(&state.end_delimiter, 0, state.end_delimiter.len());
        assert(expected@ =~= state.end_delimiter@);
        return Err(ParseError::new(ParseErrorKind::ExpectedClosingDelim(expected), src.position));
    }
    *source = src;
    Ok(Some(parsed))
}

/// The insert under the cursor: a tag without operator.
fn parse_value(source: &mut Source, state: &State) -> (result: Result<Option<Name>, ParseError>)
    requires
        old(source).wf(),
    ensures
        final(source).wf(),
        final(source).text == old(source).text,
        match tag(old(source).text@, old(source).index as int, state@, None) {
            Parsed::Match { value, next } => {
                &&& result matches Ok(Some(parsed))
                &&& parsed@ == value
                &&& final(source).index == next
                &&& next > old(source).index
            },
            Parsed::Skip => result is Ok && result->Ok_0 is None && *final(source) == *old(source),
            Parsed::Fail { kind, at } => {
                &&& result matches Err(e)
                &&& e@ == error_at(old(source).text@, kind, at)
                &&& *final(source) == *old(source)
            },
        },
{
    parse_tag(source, state, None)
}

/// `first` and then `second`.
fn joined(first: &Vec<char>, second: &Vec<char>) -> (both: Vec<char>)
    ensures
        both@ == first@ + second@,
{
    let mut both: Vec<char> = Vec::new();
    let mut i: usize = 0;
    while i < first.len()
        invariant
            i <= first@.len(),
            both@ == first@.subrange(0, i as int),
        decreases first.len() - i,
    {
        both.push(first[i]);
        i += 1;
        assert(both@ =~= first@.subrange(0, i as int));
    }
    assert(first@.subrange(0, i as int) =~= first@);
    let mut j: usize = 0;
    while j < second.len()
        invariant
            j <= second@.len(),
            both@ == first@ + second@.subrange(0, j as int),
        decreases second.len() - j,
    {
        both.push(second[j]);
        j += 1;
        assert(both@ =~= first@ + second@.subrange(0, j as int));
    }
    assert(second@.subrange(0, j as int) =~= second@);
    both
}

/// The instruction under the cursor, which replaces the delimiters in
/// `state`; the cursor moves over it.
fn parse_instruction(source: &mut Source, state: &mut State) -> (result: Result<
    Option<()>,
    ParseError,
>)
    requires
        old(source).wf(),
    ensures
        final(source).wf(),
        final(source).text == old(source).text,
        match instruction(old(source).text@, old(source).index as int, old(state)@) {
            Parsed::Match { value, next } => {
                &&& result is Ok
                &&& result->Ok_0 is Some
                &&& final(state)@ == value
                &&& final(source).index == next
                &&& next > old(source).index
            },
            Parsed::Skip => {
                &&& result is Ok
                &&& result->Ok_0 is None
                &&& *final(source) == *old(source)
                &&& final(state)@ == old(state)@
            },
            Parsed::Fail { kind, at } => {
                &&& result matches Err(e)
                &&& e@ == error_at(old(source).text@, kind, at)
                &&& *final(source) == *old(source)
                &&& final(state)@ == old(state)@
            },
        },
{
    let ghost text = source.text@;
    let mut src = *source;
    let mut equals: Vec<char> = Vec::new();
    equals.push('=');
    assert(equals@ =~= seq!['=']);
    let open = joined(&state.start_delimiter, &equals);
    let close = joined(&equals, &state.end_delimiter);
    if !has_delimiter(&mut src, &open) {
        return Ok(None);
    }
    proof {
        lemma_after_whitespace(text, src.index as int);
    }
    skip_whitespace(&mut src);
    proof {
        lemma_after_whitespace(text, src.index as int);
        lemma_after_whitespace(text, src.index + 1);
    }
    let start = match parse_delimiter_definition(&mut src) {
        Ok(Some(start)) => start,
        Ok(None) => {
            return Err(ParseError::new(ParseErrorKind::MissingStartDelimiterDef, src.position));
        },
        Err(e) => {
            return Err(e);
        },
    };
    proof {
        lemma_after_whitespace(text, src.index as int);
    }
    skip_whitespace(&mut src);
    let end = match parse_delimiter_definition(&mut src) {
        Ok(Some(end)) => end,
        Ok(None) => {
            return Err(ParseError::new(ParseErrorKind::MissingEndDelimiterDef, src.position));
        },
        Err(e) => {
            return Err(e);
        },
    };
    proof {
        lemma_after_whitespace(text, src.index as int);
    }
    skip_whitespace(&mut src);
    if !has_delimiter(&mut src, &close) {
        let expected = string_of(&close, 0, close.len());
        assert(expected@ =~= close@);
        return Err(ParseError::new(ParseErrorKind::ExpectedClosingDelim(expected), src.position));
    }
    *source = src;
    state.start_delimiter = start;
    state.end_delimiter = end;
    Ok(Some(()))
}

/// The literal text under the cursor, up to the next start delimiter; the
/// cursor moves over it.
fn parse_string(source: &mut Source, state: &State) -> (result: Result<
    Option<String>,
    ParseError,
>)
    requires
        old(source).wf(),
    ensures
        final(source).wf(),
        final(source).text == old(source).text,
        match literal(old(source).text@, old(source).index as int, state@) {
            Parsed::Match { value, next } => {
                &&& result matches Ok(Some(parsed))
                &&& parsed@ == value
                &&& final(source).index == next
                &&& next > old(source).index
            },
            Parsed::Skip => result is Ok && result->Ok_0 is None && *final(source) == *old(source),
            Parsed::Fail { kind, at } => false,
        },
{
    let ghost text = source.text@;
    let start = source.index;
    let mut end = start;
    while end < source.text.len() && !starts_with_at(source.text, end, &state.start_delimiter)
        invariant
            source.wf(),
            *source == *old(source),
            text == source.text@,
            start == source.index,
            start <= end <= text.len(),
            text_length(text, start as int, state@.start) == (end - start) + text_length(
                text,
                end as int,
                state@.start,
            ),
        decreases text.len() - end,
    {
        end += 1;
    }
    if end == start {
        return Ok(None);
    }
    let parsed = string_of(source.text, start, end);
    source.advance_to(end);
    Ok(Some(parsed))
}


/// `rest` with the tokens `prefix` before its own.
pub open spec fn after_tokens(prefix: Seq<TokenView>, rest: Parsed<With<Seq<TokenView>>>) -> Parsed<
    With<Seq<TokenView>>,
> {
    match rest {
        Parsed::Match { value, next } => Parsed::Match {
            value: With { item: prefix + value.item, delimiters: value.delimiters },
            next,
        },
        other => other,
    }
}

/// `rest` with the tokens `prefix` before its own.
pub open spec fn after_parsed(prefix: Seq<TokenView>, rest: Parsed<Seq<TokenView>>) -> Parsed<
    Seq<TokenView>,
> {
    match rest {
        Parsed::Match { value, next } => Parsed::Match { value: prefix + value, next },
        other => other,
    }
}

/// The view of a list with one more token.
proof fn lemma_tokens_pushed(tokens: Seq<Token>, token: Token)
    ensures
        tokens_view(tokens.push(token)) == tokens_view(tokens).push(token@),
{
    assert(tokens_view(tokens.push(token)) =~= tokens_view(tokens).push(token@));
}

/// One step of the content of a section: what was parsed joins what was
/// seen, and the rest is parsed with the delimiters that are then in force.
proof fn lemma_content_step(
    text: Seq<char>,
    at: int,
    here: Delimiters,
    opened: Seq<Seq<char>>,
    seen: Seq<TokenView>,
)
    requires
        tag(text, at, here, Some('/')) is Skip,
        token_or_instruction(text, at, here) is Match,
        at < token_or_instruction(text, at, here)->Match_next <= text.len(),
    ensures
        after_tokens(seen, section_content(text, at, here, opened)) == after_tokens(
            seen + with_token(token_or_instruction(text, at, here)->Match_value.item, Seq::empty()),
            section_content(
                text,
                token_or_instruction(text, at, here)->Match_next,
                token_or_instruction(text, at, here)->Match_value.delimiters,
                opened,
            ),
        ),
{
    let found = token_or_instruction(text, at, here)->Match_value;
    let next = token_or_instruction(text, at, here)->Match_next;
    match section_content(text, next, found.delimiters, opened) {
        Parsed::Match { value, next } => {
            assert(seen + with_token(found.item, value.item) =~= (seen + with_token(
                found.item,
                Seq::empty(),
            )) + value.item);
        },
        _ => {},
    }
}

/// One step of a template, in the same way.
proof fn lemma_template_step(text: Seq<char>, at: int, here: Delimiters, seen: Seq<TokenView>)
    requires
        token_or_instruction(text, at, here) is Match,
        at < token_or_instruction(text, at, here)->Match_next <= text.len(),
    ensures
        after_parsed(seen, template(text, at, here)) == after_parsed(
            seen + with_token(token_or_instruction(text, at, here)->Match_value.item, Seq::empty()),
            template(
                text,
                token_or_instruction(text, at, here)->Match_next,
                token_or_instruction(text, at, here)->Match_value.delimiters,
            ),
        ),
{
    let found = token_or_instruction(text, at, here)->Match_value;
    let next = token_or_instruction(text, at, here)->Match_next;
    match template(text, next, found.delimiters) {
        Parsed::Match { value, next } => {
            assert(seen + with_token(found.item, value) =~= (seen + with_token(
                found.item,
                Seq::empty(),
            )) + value);
        },
        _ => {},
    }
}

/// What was seen, with what was parsed: a token more, or nothing more
/// after an instruction.
proof fn lemma_token_added(seen: Seq<TokenView>, found: Option<TokenView>)
    ensures
        seen + with_token(found, Seq::empty()) == match found {
            Some(token) => seen.push(token),
            None => seen,
        },
{
    match found {
        Some(token) => {
            assert(seen + with_token(found, Seq::empty()) =~= seen.push(token));
        },
        None => {
            assert(seen + with_token(found, Seq::empty()) =~= seen);
        },
    }
}

/// The section under the cursor; the cursor moves over it and `state` takes
/// the delimiters that are in force after it.
fn parse_section(source: &mut Source, state: &mut State) -> (result: Result<
    Option<Section>,
    ParseError,
>)
    requires
        old(source).wf(),
    ensures
        final(source).wf(),
        final(source).text == old(source).text,
        match section(old(source).text@, old(source).index as int, old(state)@) {
            Parsed::Match { value, next } => {
                &&& result matches Ok(Some(parsed))
                &&& Token::Section(parsed)@ == value.item
                &&& final(state)@ == value.delimiters
                &&& final(source).index == next
                &&& next > old(source).index
            },
            Parsed::Skip => {
                &&& result is Ok
                &&& result->Ok_0 is None
                &&& *final(source) == *old(source)
                &&& final(state)@ == old(state)@
            },
            Parsed::Fail { kind, at } => {
                &&& result matches Err(e)
                &&& e@ == error_at(old(source).text@, kind, at)
                &&& *final(source) == *old(source)
            },
        },
    decreases old(source).text@.len() - old(source).index, 1nat,
{
    let ghost text = source.text@;
    let ghost begin = source.index as int;
    let mut src = *source;
    let mut inverted = false;
    let opened = match parse_tag(&mut src, state, Some('#')) {
        Ok(Some(opened)) => opened,
        Ok(None) => {
            inverted = true;
            match parse_tag(&mut src, state, Some('^')) {
                Ok(Some(opened)) => opened,
                Ok(None) => {
                    return Ok(None);
                },
                Err(e) => {
                    return Err(e);
                },
            }
        },
        Err(e) => {
            return Err(e);
        },
    };
    assert(section(text, begin, state@) == section_from(
        text,
        begin,
        src.index as int,
        state@,
        opened@,
        inverted,
    ));
    match parse_section_content(&mut src, state, &opened) {
        Ok(content) => {
            *source = src;
            let parsed = Section { name: opened, inverted, content };
            proof {
                lemma_section_view(parsed);
            }
            Ok(Some(parsed))
        },
        Err(e) => Err(e),
    }
}

/// The content of the section `opened` from the cursor on, up to and with
/// its closing tag.
fn parse_section_content(source: &mut Source, state: &mut State, opened: &Name) -> (result: Result<
    Vec<Token>,
    ParseError,
>)
    requires
        old(source).wf(),
    ensures
        final(source).wf(),
        final(source).text == old(source).text,
        match section_content(
            old(source).text@,
            old(source).index as int,
            old(state)@,
            opened@,
        ) {
            Parsed::Match { value, next } => {
                &&& result matches Ok(parsed)
                &&& tokens_view(parsed@) == value.item
                &&& final(state)@ == value.delimiters
                &&& final(source).index == next
                &&& next > old(source).index
            },
            Parsed::Skip => false,
            Parsed::Fail { kind, at } => {
                &&& result matches Err(e)
                &&& e@ == error_at(old(source).text@, kind, at)
            },
        },
    decreases old(source).text@.len() - old(source).index, 4nat,
{
    let ghost text = source.text@;
    let ghost begin = source.index as int;
    let ghost whole = section_content(text, begin, state@, opened@);
    let mut content: Vec<Token> = Vec::new();
    assert(tokens_view(content@) =~= Seq::<TokenView>::empty());
    assert(after_tokens(tokens_view(content@), whole) == whole) by {
        match whole {
            Parsed::Match { value, next } => {
                assert(tokens_view(content@) + value.item =~= value.item);
            },
            _ => {},
        }
    }
    loop
        invariant
            source.wf(),
            source.text == old(source).text,
            text == source.text@,
            begin == old(source).index,
            begin <= source.index,
            whole == section_content(text, begin, old(state)@, opened@),
            whole == after_tokens(
                tokens_view(content@),
                section_content(text, source.index as int, state@, opened@),
            ),
        decreases text.len() - source.index,
    {
        let ghost at = source.index as int;
        let ghost here = state@;
        let ghost seen = tokens_view(content@);
        let place = source.position;
        match parse_tag(source, state, Some('/')) {
            Err(e) => {
                return Err(e);
            },
            Ok(Some(closed)) => {
                if !closed.same_as(opened) {
                    return Err(
                        ParseError::new(
                            ParseErrorKind::MismatchedSectionEnd(
                                closed.to_string(),
                                opened.to_string(),
                            ),
                            place,
                        ),
                    );
                }
                assert(seen + Seq::<TokenView>::empty() =~= seen);
                return Ok(content);
            },
            Ok(None) => {},
        }
        match parse_token_or_instruction(source, state) {
            Err(e) => {
                return Err(e);
            },
            Ok(None) => {
                return Err(
                    ParseError::new(
                        ParseErrorKind::MissingSectionEnd(opened.to_string()),
                        source.position,
                    ),
                );
            },
            Ok(Some(item)) => {
                proof {
                    lemma_content_step(text, at, here, opened@, seen);
                    lemma_token_added(seen, token_or_instruction(text, at, here)->Match_value.item);
                }
                match item {
                    Some(parsed) => {
                        proof {
                            lemma_tokens_pushed(content@, parsed);
                        }
                        content.push(parsed);
                    },
                    None => {},
                }
            },
        }
    }
}

/// The token or the instruction under the cursor. An instruction changes
/// `state` and yields no token.
fn parse_token_or_instruction(source: &mut Source, state: &mut State) -> (result: Result<
    Option<Option<Token>>,
    ParseError,
>)
    requires
        old(source).wf(),
    ensures
        final(source).wf(),
        final(source).text == old(source).text,
        match token_or_instruction(old(source).text@, old(source).index as int, old(state)@) {
            Parsed::Match { value, next } => {
                &&& result matches Ok(Some(parsed))
                &&& match parsed {
                    Some(t) => value.item == Some(t@),
                    None => value.item is None,
                }
                &&& final(state)@ == value.delimiters
                &&& final(source).index == next
                &&& next > old(source).index
            },
            Parsed::Skip => {
                &&& result is Ok
                &&& result->Ok_0 is None
                &&& *final(source) == *old(source)
                &&& final(state)@ == old(state)@
            },
            Parsed::Fail { kind, at } => {
                &&& result matches Err(e)
                &&& e@ == error_at(old(source).text@, kind, at)
                &&& *final(source) == *old(source)
            },
        },
    decreases old(source).text@.len() - old(source).index, 3nat,
{
    match parse_instruction(source, state) {
        Ok(Some(())) => {
            return Ok(Some(None));
        },
        Ok(None) => {},
        Err(e) => {
            return Err(e);
        },
    }
    match parse_token(source, state) {
        Ok(Some(parsed)) => Ok(Some(Some(parsed))),
        Ok(None) => Ok(None),
        Err(e) => Err(e),
    }
}

/// The token under the cursor: a section, else an insert, else literal
/// text.
fn parse_token(source: &mut Source, state: &mut State) -> (result: Result<
    Option<Token>,
    ParseError,
>)
    requires
        old(source).wf(),
    ensures
        final(source).wf(),
        final(source).text == old(source).text,
        match token(old(source).text@, old(source).index as int, old(state)@) {
            Parsed::Match { value, next } => {
                &&& result matches Ok(Some(parsed))
                &&& parsed@ == value.item
                &&& final(state)@ == value.delimiters
                &&& final(source).index == next
                &&& next > old(source).index
            },
            Parsed::Skip => {
                &&& result is Ok
                &&& result->Ok_0 is None
                &&& *final(source) == *old(source)
                &&& final(state)@ == old(state)@
            },
            Parsed::Fail { kind, at } => {
                &&& result matches Err(e)
                &&& e@ == error_at(old(source).text@, kind, at)
                &&& *final(source) == *old(source)
            },
        },
    decreases old(source).text@.len() - old(source).index, 2nat,
{
    match parse_section(source, state) {
        Ok(Some(parsed)) => {
            return Ok(Some(Token::Section(parsed)));
        },
        Ok(None) => {},
        Err(e) => {
            return Err(e);
        },
    }
    match parse_value(source, state) {
        Ok(Some(parsed)) => {
            return Ok(Some(Token::Insert(Insert { name: parsed, format: None })));
        },
        Ok(None) => {},
        Err(e) => {
            return Err(e);
        },
    }
    match parse_string(source, state) {
        Ok(Some(parsed)) => Ok(Some(Token::String(parsed))),
        Ok(None) => Ok(None),
        Err(e) => Err(e),
    }
}

/// The tokens of the template from the cursor on.
fn parse_template(source: &mut Source, state: &mut State) -> (result: Result<
    Option<Vec<Token>>,
    ParseError,
>)
    requires
        old(source).wf(),
    ensures
        final(source).wf(),
        final(source).text == old(source).text,
        match template(old(source).text@, old(source).index as int, old(state)@) {
            Parsed::Match { value, next } => {
                &&& result matches Ok(Some(parsed))
                &&& tokens_view(parsed@) == value
                &&& final(source).index == next
            },
            Parsed::Skip => false,
            Parsed::Fail { kind, at } => {
                &&& result matches Err(e)
                &&& e@ == error_at(old(source).text@, kind, at)
            },
        },
{
    let ghost text = source.text@;
    let ghost begin = source.index as int;
    let ghost whole = template(text, begin, state@);
    let mut tokens: Vec<Token> = Vec::new();
    assert(tokens_view(tokens@) =~= Seq::<TokenView>::empty());
    assert(after_parsed(tokens_view(tokens@), whole) == whole) by {
        match whole {
            Parsed::Match { value, next } => {
                assert(tokens_view(tokens@) + value =~= value);
            },
            _ => {},
        }
    }
    loop
        invariant
            source.wf(),
            source.text == old(source).text,
            text == source.text@,
            begin == old(source).index,
            whole == template(text, begin, old(state)@),
            whole == after_parsed(
                tokens_view(tokens@),
                template(text, source.index as int, state@),
            ),
        decreases text.len() - source.index,
    {
        let ghost at = source.index as int;
        let ghost here = state@;
        let ghost seen = tokens_view(tokens@);
        match parse_token_or_instruction(source, state) {
            Err(e) => {
                return Err(e);
            },
            Ok(None) => {
                assert(seen + Seq::<TokenView>::empty() =~= seen);
                return Ok(Some(tokens));
            },
            Ok(Some(item)) => {
                proof {
                    lemma_template_step(text, at, here, seen);
                    lemma_token_added(seen, token_or_instruction(text, at, here)->Match_value.item);
                }
                match item {
                    Some(parsed) => {
                        proof {
                            lemma_tokens_pushed(tokens@, parsed);
                        }
                        tokens.push(parsed);
                    },
                    None => {},
                }
            },
        }
    }
}

/// What the text of a template means: its tokens, or its first error.
pub open spec fn spec_parse(text: Seq<char>) -> Result<Seq<TokenView>, ParseErrorView> {
    match template(text, 0, default_delimiters()) {
        Parsed::Match { value, next } => Ok(value),
        Parsed::Skip => Ok(Seq::empty()),
        Parsed::Fail { kind, at } => Err(error_at(text, kind, at)),
    }
}

/// Parses the text of a template.
///
/// The text is read from its beginning with the delimiters `{{` and `}}`.
/// The first error ends parsing; its place is the line and column of the
/// character at which the text stopped being a template.
pub fn parse(source: &str) -> (result: Result<Template, ParseError>)
    ensures
        match spec_parse(source@) {
            Ok(tokens) => {
                &&& result matches Ok(parsed)
                &&& parsed.content() == tokens
                &&& parsed.formats() == Map::<Seq<char>, Seq<char>>::empty()
            },
            Err(error) => result matches Err(e) && e@ == error,
        },
{
    let mut text = chars_of(source);
    // The vector takes one more character, so its length is below the
    // largest index and every place in it can be counted.
    text.push(' ');
    let spare = text.len();
    let _ = text.pop();
    assert(text@ =~= source@);
    let mut cursor = Source::new(&text);
    let mut state = State::default();
    match parse_template(&mut cursor, &mut state) {
        Ok(Some(tokens)) => Ok(Template::new(tokens)),
        Ok(None) => Ok(Template::new(Vec::new())),
        Err(e) => Err(e),
    }
}

/// A template is parsed from its text as [`parse`] says.
impl std::str::FromStr for Template {
    type Err = ParseError;

    /// The template that `source` is the text of, or the first error in it.
    fn from_str(source: &str) -> (result: Result<Template, ParseError>)
        ensures
            match spec_parse(source@) {
                Ok(tokens) => {
                    &&& result matches Ok(parsed)
                    &&& parsed.content() == tokens
                    &&& parsed.formats() == Map::<Seq<char>, Seq<char>>::empty()
                },
                Err(error) => result matches Err(e) && e@ == error,
            },
    {
        parse(source)
    }
}

} // verus!
