//! What holds of parsing and rendering together, for every template and
//! every value.

use crate::fmt::FormatView;
use crate::grammar::{
    Delimiters, Parsed, With, after_whitespace, default_delimiters, definition_length,
    ident_length, instruction, lemma_after_whitespace, lemma_definition_length,
    lemma_ident_length, lemma_text_length, literal, name, section, section_content, segments,
    tag, tag_name, template, text_length, token, token_or_instruction, with_token,
};
use crate::parse::{ParseErrorView, spec_parse};
use crate::render::{
    RenderErrorView, Rendered, effective_format, render_each, render_insert, render_token,
    render_tokens, resolve,
};
use crate::template::TokenView;
use crate::text::holds_at;
use crate::value::{ValueView, dict_get};
use vstd::prelude::*;

verus! {

/// Whether `literal` occurs nowhere in `text`.
pub open spec fn free_of(text: Seq<char>, literal: Seq<char>) -> bool {
    forall|at: int| 0 <= at < text.len() ==> !holds_at(text, at, literal)
}

proof fn lemma_longer_literal(text: Seq<char>, at: int, first: Seq<char>, second: Seq<char>)
    requires
        holds_at(text, at, first + second),
    ensures
        holds_at(text, at, first),
{
    let both = first + second;
    assert(text.subrange(at, at + first.len()) =~= first) by {
        let whole = text.subrange(at, at + both.len());
        assert forall|k: int| 0 <= k < first.len() implies text.subrange(at, at + first.len())[k]
            == first[k] by {
            assert(whole[k] == both[k]);
        }
    }
}

proof fn lemma_all_literal(text: Seq<char>, at: int, start: Seq<char>)
    requires
        0 <= at <= text.len(),
        free_of(text, start),
    ensures
        text_length(text, at, start) == text.len() - at,
    decreases text.len() - at,
{
    if at < text.len() {
        lemma_all_literal(text, at + 1, start);
    }
}

/// Where no start delimiter stands, nothing but literal text can.
proof fn lemma_only_literal(text: Seq<char>, at: int, delimiters: Delimiters)
    requires
        0 <= at <= text.len(),
        !holds_at(text, at, delimiters.start),
    ensures
        token_or_instruction(text, at, delimiters) == match literal(text, at, delimiters) {
            Parsed::Match { value, next } => Parsed::Match {
                value: With { item: Some(TokenView::Text(value)), delimiters },
                next,
            },
            _ => Parsed::<With<Option<TokenView>>>::Skip,
        },
{
    if holds_at(text, at, delimiters.start + seq!['=']) {
        lemma_longer_literal(text, at, delimiters.start, seq!['=']);
    }
    assert(instruction(text, at, delimiters) is Skip);
    assert(tag(text, at, delimiters, Some('#')) is Skip);
    assert(tag(text, at, delimiters, Some('^')) is Skip);
    assert(tag(text, at, delimiters, None) is Skip);
    assert(section(text, at, delimiters) is Skip);
}

/// A text in which the start delimiter `{{` occurs nowhere is the template
/// of that text alone, and is rendered as itself against every value,
/// whatever formats are registered; none is registered by it.
pub proof fn lemma_literal_text_round_trip(
    text: Seq<char>,
    value: ValueView,
    formats: Map<Seq<char>, Seq<char>>,
)
    requires
        free_of(text, default_delimiters().start),
    ensures
        spec_parse(text) is Ok,
        render_tokens(spec_parse(text)->Ok_0, seq![value], formats) == (Rendered {
            result: Ok(text),
            formats,
        }),
{
    let d = default_delimiters();
    let ctx = seq![value];
    lemma_all_literal(text, 0, d.start);
    lemma_all_literal(text, text.len() as int, d.start);
    if text.len() == 0 {
        lemma_only_literal(text, 0, d);
        assert(template(text, 0, d) == Parsed::Match { value: Seq::<TokenView>::empty(), next: 0 });
        assert(text =~= Seq::<char>::empty());
        assert(spec_parse(text) == Ok::<Seq<TokenView>, ParseErrorView>(
            Seq::<TokenView>::empty(),
        ));
        assert(render_tokens(Seq::<TokenView>::empty(), ctx, formats) == (Rendered {
            result: Ok(Seq::empty()),
            formats,
        }));
    } else {
        assert(!holds_at(text, 0, d.start));
        assert(!holds_at(text, text.len() as int, d.start));
        lemma_only_literal(text, 0, d);
        lemma_only_literal(text, text.len() as int, d);
        assert(text.subrange(0, text.len() as int) =~= text);
        assert(template(text, text.len() as int, d) == Parsed::Match {
            value: Seq::<TokenView>::empty(),
            next: text.len() as int,
        });
        let tokens = seq![TokenView::Text(text)];
        assert(with_token(Some(TokenView::Text(text)), Seq::empty()) =~= tokens);
        assert(template(text, 0, d) == Parsed::Match { value: tokens, next: text.len() as int });
        assert(spec_parse(text) == Ok::<Seq<TokenView>, ParseErrorView>(tokens));
        assert(tokens[0] == TokenView::Text(text));
        assert(tokens.drop_first() =~= Seq::<TokenView>::empty());
        assert(render_token(tokens[0], ctx, formats) == (Rendered { result: Ok(text), formats }));
        assert(render_tokens(tokens.drop_first(), ctx, formats) == (Rendered {
            result: Ok(Seq::empty()),
            formats,
        }));
        assert(text + Seq::<char>::empty() =~= text);
        assert(render_tokens(tokens, ctx, formats) == (Rendered { result: Ok(text), formats }));
    }
}

/// Where neither an instruction nor a token stands, the text has ended.
proof fn lemma_skip_at_end(text: Seq<char>, at: int, delimiters: Delimiters)
    requires
        0 <= at <= text.len(),
        token_or_instruction(text, at, delimiters) is Skip,
    ensures
        at == text.len(),
{
    if holds_at(text, at, delimiters.start) {
        assert(!(tag(text, at, delimiters, None) is Skip)) by {
            let inside = after_whitespace(text, at + delimiters.start.len());
            let begin = after_whitespace(text, inside);
            assert(!(name(text, begin) is Skip)) by {
                lemma_segments_never_skip(text, begin);
            }
        }
    }
}

proof fn lemma_segments_never_skip(text: Seq<char>, at: int)
    ensures
        !(segments(text, at) is Skip),
        segments(text, at) matches Parsed::Fail { kind, at } ==> kind is ExpectedIdent,
    decreases text.len() - at,
{
    let end = at + ident_length(text, at);
    if end != at && 0 <= end < text.len() && text[end] == '.' {
        lemma_segments_never_skip(text, end + 1);
    }
}

/// A template is parsed to the end of its text: where parsing succeeds,
/// nothing of the text is left over.
pub proof fn lemma_parsed_to_the_end(text: Seq<char>, at: int, delimiters: Delimiters)
    requires
        0 <= at <= text.len(),
    ensures
        !(template(text, at, delimiters) is Skip),
        template(text, at, delimiters) matches Parsed::Match { value, next } ==> next
            == text.len(),
    decreases text.len() - at,
{
    match token_or_instruction(text, at, delimiters) {
        Parsed::Skip => {
            lemma_skip_at_end(text, at, delimiters);
        },
        Parsed::Fail { .. } => {},
        Parsed::Match { value, next } => {
            lemma_progress(text, at, delimiters);
            lemma_parsed_to_the_end(text, next, value.delimiters);
        },
    }
}

/// Where a name should stand, a name is found or an identifier is missing:
/// no tag is refused for want of a name as such.
pub proof fn lemma_a_name_is_never_missing(
    text: Seq<char>,
    at: int,
    delimiters: Delimiters,
    operator: Option<char>,
)
    ensures
        !(tag(text, at, delimiters, operator) matches Parsed::Fail { kind, at }
            && kind is ExpectedName),
{
    let inside = after_whitespace(text, at + delimiters.start.len());
    lemma_segments_never_skip(text, after_whitespace(text, inside));
    lemma_segments_never_skip(text, after_whitespace(text, inside + 1));
}

/// Every name takes at least one character and ends inside the text.
proof fn lemma_name_progress(text: Seq<char>, at: int)
    requires
        0 <= at <= text.len(),
    ensures
        name(text, at) matches Parsed::Match { value, next } ==> at < next <= text.len(),
{
    lemma_segments_progress(text, at);
}

proof fn lemma_segments_progress(text: Seq<char>, at: int)
    requires
        0 <= at <= text.len(),
    ensures
        segments(text, at) matches Parsed::Match { value, next } ==> at < next <= text.len(),
    decreases text.len() - at,
{
    lemma_ident_length(text, at);
    let end = at + ident_length(text, at);
    if end != at && 0 <= end < text.len() && text[end] == '.' {
        lemma_segments_progress(text, end + 1);
    }
}

proof fn lemma_tag_name_progress(text: Seq<char>, at: int, delimiters: Delimiters)
    requires
        0 <= at <= text.len(),
    ensures
        tag_name(text, at, delimiters) matches Parsed::Match { value, next } ==> at < next
            <= text.len(),
{
    lemma_after_whitespace(text, at);
    let begin = after_whitespace(text, at);
    lemma_name_progress(text, begin);
    match name(text, begin) {
        Parsed::Match { value, next } => {
            lemma_after_whitespace(text, next);
        },
        _ => {},
    }
}

/// Every tag takes at least one character and ends inside the text.
pub proof fn lemma_tag_progress(
    text: Seq<char>,
    at: int,
    delimiters: Delimiters,
    operator: Option<char>,
)
    requires
        0 <= at <= text.len(),
    ensures
        tag(text, at, delimiters, operator) matches Parsed::Match { value, next } ==> at < next
            <= text.len(),
{
    if holds_at(text, at, delimiters.start) {
        lemma_after_whitespace(text, at + delimiters.start.len());
        let inside = after_whitespace(text, at + delimiters.start.len());
        match operator {
            Some(op) => {
                if 0 <= inside < text.len() && text[inside] == op {
                    lemma_tag_name_progress(text, inside + 1, delimiters);
                }
            },
            None => {
                lemma_tag_name_progress(text, inside, delimiters);
            },
        }
    }
}

/// Every instruction takes at least one character and ends inside the text.
pub proof fn lemma_instruction_progress(text: Seq<char>, at: int, delimiters: Delimiters)
    requires
        0 <= at <= text.len(),
    ensures
        instruction(text, at, delimiters) matches Parsed::Match { value, next } ==> at < next
            <= text.len(),
{
    let open = delimiters.start + seq!['='];
    if holds_at(text, at, open) {
        lemma_after_whitespace(text, at + open.len());
        let first = after_whitespace(text, at + open.len());
        lemma_definition_length(text, first);
        let first_end = first + definition_length(text, first);
        lemma_after_whitespace(text, first_end);
        let second = after_whitespace(text, first_end);
        lemma_definition_length(text, second);
        let second_end = second + definition_length(text, second);
        lemma_after_whitespace(text, second_end);
    }
}

/// Whatever is parsed takes at least one character and ends inside the
/// text.
pub proof fn lemma_progress(text: Seq<char>, at: int, delimiters: Delimiters)
    requires
        0 <= at <= text.len(),
    ensures
        token_or_instruction(text, at, delimiters) matches Parsed::Match { value, next } ==> at
            < next <= text.len(),
        token(text, at, delimiters) matches Parsed::Match { value, next } ==> at < next
            <= text.len(),
        section(text, at, delimiters) matches Parsed::Match { value, next } ==> at < next
            <= text.len(),
    decreases text.len() - at, 3nat,
{
    lemma_instruction_progress(text, at, delimiters);
    lemma_tag_progress(text, at, delimiters, None);
    lemma_tag_progress(text, at, delimiters, Some('#'));
    lemma_tag_progress(text, at, delimiters, Some('^'));
    lemma_text_length(text, at, delimiters.start);
    match tag(text, at, delimiters, Some('#')) {
        Parsed::Match { value, next } => {
            lemma_content_progress(text, next, delimiters, value);
        },
        Parsed::Skip => match tag(text, at, delimiters, Some('^')) {
            Parsed::Match { value, next } => {
                lemma_content_progress(text, next, delimiters, value);
            },
            _ => {},
        },
        _ => {},
    }
}

proof fn lemma_content_progress(
    text: Seq<char>,
    at: int,
    delimiters: Delimiters,
    opened: Seq<Seq<char>>,
)
    requires
        0 <= at <= text.len(),
    ensures
        section_content(text, at, delimiters, opened) matches Parsed::Match { value, next } ==> at
            < next <= text.len(),
    decreases text.len() - at, 4nat,
{
    lemma_tag_progress(text, at, delimiters, Some('/'));
    match tag(text, at, delimiters, Some('/')) {
        Parsed::Skip => {
            lemma_progress(text, at, delimiters);
            match token_or_instruction(text, at, delimiters) {
                Parsed::Match { value, next } => {
                    lemma_content_progress(text, next, value.delimiters, opened);
                },
                _ => {},
            }
        },
        _ => {},
    }
}

/// An instruction takes effect at once: the template that begins with an
/// instruction is the template that follows it, parsed with the delimiters
/// that the instruction defines. They stay in force up to the next
/// instruction.
pub proof fn lemma_instruction_takes_effect(text: Seq<char>, at: int, delimiters: Delimiters)
    requires
        0 <= at <= text.len(),
        instruction(text, at, delimiters) is Match,
    ensures
        template(text, at, delimiters) == template(
            text,
            instruction(text, at, delimiters)->Match_next,
            instruction(text, at, delimiters)->Match_value,
        ),
{
    let next = instruction(text, at, delimiters)->Match_next;
    let defined = instruction(text, at, delimiters)->Match_value;
    lemma_instruction_progress(text, at, delimiters);
    match template(text, next, defined) {
        Parsed::Match { value, next } => {
            assert(with_token(None, value) == value);
        },
        _ => {},
    }
}

/// The same holds inside a section.
pub proof fn lemma_instruction_takes_effect_in_section(
    text: Seq<char>,
    at: int,
    delimiters: Delimiters,
    opened: Seq<Seq<char>>,
)
    requires
        0 <= at <= text.len(),
        instruction(text, at, delimiters) is Match,
    ensures
        section_content(text, at, delimiters, opened) == section_content(
            text,
            instruction(text, at, delimiters)->Match_next,
            instruction(text, at, delimiters)->Match_value,
            opened,
        ),
{
    let next = instruction(text, at, delimiters)->Match_next;
    let defined = instruction(text, at, delimiters)->Match_value;
    let open = delimiters.start + seq!['='];
    lemma_instruction_progress(text, at, delimiters);
    lemma_longer_literal(text, at, delimiters.start, seq!['=']);
    let inside = at + delimiters.start.len();
    assert(text[inside] == '=') by {
        assert(text.subrange(at, at + open.len())[delimiters.start.len() as int] == open[
            delimiters.start.len() as int
        ]);
    }
    lemma_after_whitespace(text, inside);
    assert(tag(text, at, delimiters, Some('/')) is Skip);
    assert(token_or_instruction(text, at, delimiters) == Parsed::Match {
        value: With { item: None::<TokenView>, delimiters: defined },
        next,
    });
    match section_content(text, next, defined, opened) {
        Parsed::Match { value, next } => {
            assert(with_token(None, value.item) == value.item);
        },
        _ => {},
    }
}

/// A section on a boolean is rendered once or not at all, and the inverted
/// section exactly when the plain one is not.
pub proof fn lemma_boolean_section(
    name: Seq<Seq<char>>,
    content: Seq<TokenView>,
    ctx: Seq<ValueView>,
    formats: Map<Seq<char>, Seq<char>>,
    flag: bool,
    inverted: bool,
)
    requires
        resolve(name, ctx) == Ok::<ValueView, RenderErrorView>(ValueView::Bool(flag)),
    ensures
        render_token(TokenView::Section { name, inverted, content }, ctx, formats) == if flag
            != inverted {
            render_tokens(content, seq![ValueView::Bool(flag)] + ctx, formats)
        } else {
            Rendered { result: Ok(Seq::empty()), formats }
        },
        render_token(TokenView::Section { name, inverted: true, content }, ctx, formats)
            == render_token(
            TokenView::Section { name, inverted: false, content },
            ctx,
            formats,
        ) <==> render_tokens(content, seq![ValueView::Bool(flag)] + ctx, formats) == (Rendered {
            result: Ok(Seq::empty()),
            formats,
        }),
{
}

/// A section on a list is rendered once for each item: in the order of the
/// list, or in its reverse where the section is inverted.
pub proof fn lemma_list_section(
    name: Seq<Seq<char>>,
    content: Seq<TokenView>,
    ctx: Seq<ValueView>,
    formats: Map<Seq<char>, Seq<char>>,
    items: Seq<ValueView>,
)
    requires
        resolve(name, ctx) == Ok::<ValueView, RenderErrorView>(ValueView::List(items)),
    ensures
        render_token(TokenView::Section { name, inverted: false, content }, ctx, formats)
            == render_each(content, items, ctx, formats),
        render_token(TokenView::Section { name, inverted: true, content }, ctx, formats)
            == render_each(content, items.reverse(), ctx, formats),
{
}

/// The texts of `items`, one after the other.
pub open spec fn concatenated(items: Seq<Seq<char>>) -> Seq<char>
    decreases items.len(),
{
    if items.len() == 0 {
        Seq::empty()
    } else {
        items[0] + concatenated(items.drop_first())
    }
}

/// Inserting each item of a list of strings gives the strings in the order
/// of the list.
pub proof fn lemma_items_in_order(
    items: Seq<Seq<char>>,
    ctx: Seq<ValueView>,
    formats: Map<Seq<char>, Seq<char>>,
)
    ensures
        render_each(
            seq![TokenView::Insert { name: Seq::empty(), format: None }],
            items.map_values(|s: Seq<char>| ValueView::Str(s)),
            ctx,
            formats,
        ) == (Rendered { result: Ok(concatenated(items)), formats }),
    decreases items.len(),
{
    let content = seq![TokenView::Insert { name: Seq::empty(), format: None }];
    let values = items.map_values(|s: Seq<char>| ValueView::Str(s));
    if items.len() > 0 {
        let inner = seq![values[0]] + ctx;
        assert(values[0] == ValueView::Str(items[0]));
        assert(inner[0] == values[0]);
        assert(resolve(Seq::empty(), inner) == Ok::<ValueView, RenderErrorView>(values[0]));
        assert(render_insert(Seq::empty(), None, inner, formats) == Ok::<
            Seq<char>,
            RenderErrorView,
        >(items[0]));
        assert(content[0] == TokenView::Insert { name: Seq::empty(), format: None });
        assert(render_token(content[0], inner, formats) == (Rendered {
            result: Ok(items[0]),
            formats,
        }));
        assert(content.drop_first() =~= Seq::<TokenView>::empty());
        let first = render_tokens(content, inner, formats);
        assert(render_tokens(content.drop_first(), inner, formats) == (Rendered {
            result: Ok(Seq::empty()),
            formats,
        }));
        assert(items[0] + Seq::<char>::empty() =~= items[0]);
        assert(first == (Rendered { result: Ok(items[0]), formats }));
        assert(values.drop_first() =~= items.drop_first().map_values(
            |s: Seq<char>| ValueView::Str(s),
        ));
        lemma_items_in_order(items.drop_first(), ctx, formats);
    }
}

/// A list or a dictionary is never inserted: the insertion is an error,
/// whatever format is written or registered.
pub proof fn lemma_collections_are_not_inserted(
    name: Seq<Seq<char>>,
    format: Option<Seq<char>>,
    ctx: Seq<ValueView>,
    formats: Map<Seq<char>, Seq<char>>,
)
    requires
        resolve(name, ctx) matches Ok(value) && (value is List || value is Dict),
    ensures
        render_insert(name, format, ctx, formats) == Err::<Seq<char>, RenderErrorView>(
            RenderErrorView::CannotInsertCollection,
        ),
        render_tokens(seq![TokenView::Insert { name, format }], ctx, formats).result == Err::<
            Seq<char>,
            RenderErrorView,
        >(RenderErrorView::CannotInsertCollection),
{
    let tokens = seq![TokenView::Insert { name, format }];
    assert(tokens[0] == TokenView::Insert { name, format });
    assert(render_token(tokens[0], ctx, formats).result == Err::<Seq<char>, RenderErrorView>(
        RenderErrorView::CannotInsertCollection,
    ));
}

/// The format written at an insertion overrides the registered one, which
/// overrides the value's own.
pub proof fn lemma_format_precedence(
    inline: Seq<char>,
    registered: Seq<char>,
    formats: Map<Seq<char>, Seq<char>>,
    value: FormatView,
)
    ensures
        effective_format(Some(inline), formats, value) == inline,
        effective_format(None, formats.insert(value.typename, registered), value) == registered,
        !formats.contains_key(value.typename) ==> effective_format(None, formats, value)
            == value.default_fmtstr,
{
}

/// A name that the innermost value cannot answer is passed on to the next
/// outer value: from a dictionary without the key and from every value that
/// is neither a list nor a dictionary.
pub proof fn lemma_scope_chain(path: Seq<Seq<char>>, ctx: Seq<ValueView>)
    requires
        path.len() > 0,
        ctx.len() > 0,
        match ctx[0] {
            ValueView::List(_) => false,
            ValueView::Dict(entries) => dict_get(entries, path[0]) is None,
            _ => true,
        },
    ensures
        resolve(path, ctx) == resolve(path, ctx.drop_first()),
{
}

/// A key that the innermost dictionary has is looked up there, and the rest
/// of the path in what was found.
pub proof fn lemma_dotted_lookup(
    path: Seq<Seq<char>>,
    ctx: Seq<ValueView>,
    entries: Seq<(Seq<char>, ValueView)>,
    found: ValueView,
)
    requires
        path.len() > 0,
        ctx.len() > 0,
        ctx[0] == ValueView::Dict(entries),
        dict_get(entries, path[0]) == Some(found),
    ensures
        resolve(path, ctx) == resolve(path.drop_first(), seq![found] + ctx.drop_first()),
        path.len() == 1 ==> resolve(path, ctx) == Ok::<ValueView, RenderErrorView>(found),
{
    assert(path.len() == 1 ==> path.drop_first().len() == 0);
}

} // verus!
