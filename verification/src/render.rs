//! Rendering: walking a token tree against a stack of values.

use crate::fmt::{FmtError, FmtErrorView, Format, FormatExt, FormatView, strfmt_expansion};
use crate::formats::FormatTable;
use crate::template::{
    Insert, Name, Section, Template, Token, TokenView, lemma_section_view, tokens_view,
};
use crate::text::{decimal_digits, push_decimal};
use crate::value::{
    Value, ValueView, dict_get, lemma_dict_view, lemma_list_view, lookup, parse_index,
    spec_parse_index,
};
use vstd::prelude::*;

verus! {

/// Why a template could not be rendered.
#[derive(Debug, Clone, PartialEq, Eq)]
pub enum RenderError {
    /// A path segment that should index a list is no index.
    InvalidIndex(String),
    /// An index (first) that is not below the length of its list (second).
    IndexOutOfBounds(usize, usize),
    /// A list or a dictionary was to be inserted as text.
    CannotInsertCollection,
    /// An inverted section was opened on a string, a dictionary or a
    /// formattable value.
    CannotInvertSection,
    /// A format string names a placeholder (second) that the type (first)
    /// does not have.
    UnknownPlaceholder(String, String),
    /// The format string applied to a value of the type (first) is
    /// malformed; the second field says how.
    InvalidFormat(String, String),
    /// The format string applied to a value of the type (first) asks for
    /// what the placeholder's value cannot give; the second field says what.
    FormatType(String, String),
}

/// The mathematical content of a [`RenderError`].
pub enum RenderErrorView {
    InvalidIndex(Seq<char>),
    IndexOutOfBounds(nat, nat),
    CannotInsertCollection,
    CannotInvertSection,
    UnknownPlaceholder(Seq<char>, Seq<char>),
    InvalidFormat(Seq<char>, Seq<char>),
    FormatType(Seq<char>, Seq<char>),
}

impl View for RenderError {
    type V = RenderErrorView;

    open spec fn view(&self) -> RenderErrorView {
        match self {
            RenderError::InvalidIndex(s) => RenderErrorView::InvalidIndex(s@),
            RenderError::IndexOutOfBounds(i, n) => RenderErrorView::IndexOutOfBounds(
                *i as nat,
                *n as nat,
            ),
            RenderError::CannotInsertCollection => RenderErrorView::CannotInsertCollection,
            RenderError::CannotInvertSection => RenderErrorView::CannotInvertSection,
            RenderError::UnknownPlaceholder(t, k) => RenderErrorView::UnknownPlaceholder(t@, k@),
            RenderError::InvalidFormat(t, m) => RenderErrorView::InvalidFormat(t@, m@),
            RenderError::FormatType(t, m) => RenderErrorView::FormatType(t@, m@),
        }
    }
}

impl RenderError {
    /// The text of an error.
    pub open spec fn spec_message(error: RenderErrorView) -> Seq<char> {
        match error {
            RenderErrorView::InvalidIndex(segment) => seq!['"'] + segment
                + "\" is not a valid array index"@,
            RenderErrorView::IndexOutOfBounds(index, len) => "Index "@ + decimal_digits(index)
                + " is out of bounds for array of length "@ + decimal_digits(len),
            RenderErrorView::CannotInsertCollection => "Cannot directly insert a collection value"@,
            RenderErrorView::CannotInvertSection => "Cannot create an inverted section from this value"@,
            RenderErrorView::UnknownPlaceholder(typename, key) => "Failed to format "@ + typename
                + ": unknown placeholder \""@ + key + seq!['"'],
            RenderErrorView::InvalidFormat(typename, message) => "Failed to format "@ + typename
                + ": invalid format string: "@ + message,
            RenderErrorView::FormatType(typename, message) => "Failed to format "@ + typename
                + ": "@ + message,
        }
    }

    /// The text of the error.
    pub fn message(&self) -> (s: String)
        ensures
            s@ == Self::spec_message(self@),
    {
        let mut s = String::new();
        match self {
            RenderError::InvalidIndex(segment) => {
                s.push('"');
                s.append(segment.as_str());
                s.append("\" is not a valid array index");
            },
            RenderError::IndexOutOfBounds(index, len) => {
                s.append("Index ");
                push_decimal(&mut s, *index);
                s.append(" is out of bounds for array of length ");
                push_decimal(&mut s, *len);
            },
            RenderError::CannotInsertCollection => {
                s.append("Cannot directly insert a collection value");
            },
            RenderError::CannotInvertSection => {
                s.append("Cannot create an inverted section from this value");
            },
            RenderError::UnknownPlaceholder(typename, key) => {
                s.append("Failed to format ");
                s.append(typename.as_str());
                s.append(": unknown placeholder \"");
                s.append(key.as_str());
                s.push('"');
            },
            RenderError::InvalidFormat(typename, message) => {
                s.append("Failed to format ");
                s.append(typename.as_str());
                s.append(": invalid format string: ");
                s.append(message.as_str());
            },
            RenderError::FormatType(typename, message) => {
                s.append("Failed to format ");
                s.append(typename.as_str());
                s.append(": ");
                s.append(message.as_str());
            },
        }
        assert(s@ =~= Self::spec_message(self@));
        s
    }
}

/// The render error that a formatting error of a value of type `typename`
/// becomes.
pub open spec fn format_failure(typename: Seq<char>, error: FmtErrorView) -> RenderErrorView {
    match error {
        FmtErrorView::Invalid(m) => RenderErrorView::InvalidFormat(typename, m),
        FmtErrorView::UnknownPlaceholder(key) => RenderErrorView::UnknownPlaceholder(typename, key),
        FmtErrorView::Type(m) => RenderErrorView::FormatType(typename, m),
    }
}

/// The value that `path` denotes in the context stack `ctx`, innermost value
/// first.
///
/// With no context there is only nil. The empty path denotes the innermost
/// value. Otherwise a list is indexed by the first segment and a dictionary
/// is asked for it, and the rest of the path is resolved with what was found
/// in place of the innermost value. A dictionary without that key and every
/// other kind of value pass the whole path on to the next outer value.
pub open spec fn resolve(path: Seq<Seq<char>>, ctx: Seq<ValueView>) -> Result<
    ValueView,
    RenderErrorView,
>
    decreases path.len() + ctx.len(),
{
    if ctx.len() == 0 {
        Ok(ValueView::Nil)
    } else if path.len() == 0 {
        Ok(ctx[0])
    } else {
        match ctx[0] {
            ValueView::List(items) => match spec_parse_index(path[0]) {
                None => Err(RenderErrorView::InvalidIndex(path[0])),
                Some(index) => if index >= items.len() {
                    Err(RenderErrorView::IndexOutOfBounds(index, items.len()))
                } else {
                    resolve(path.drop_first(), seq![items[index as int]] + ctx.drop_first())
                },
            },
            ValueView::Dict(entries) => match dict_get(entries, path[0]) {
                Some(found) => resolve(path.drop_first(), seq![found] + ctx.drop_first()),
                None => resolve(path, ctx.drop_first()),
            },
            _ => resolve(path, ctx.drop_first()),
        }
    }
}

/// The format string that applies to an insertion of `value`: the one
/// written at the insertion, else the one registered for the value's type,
/// else the value's own default.
pub open spec fn effective_format(
    inline: Option<Seq<char>>,
    formats: Map<Seq<char>, Seq<char>>,
    value: FormatView,
) -> Seq<char> {
    match inline {
        Some(f) => f,
        None => if formats.contains_key(value.typename) {
            formats[value.typename]
        } else {
            value.default_fmtstr
        },
    }
}

/// The text that an insertion of `name` produces.
pub open spec fn render_insert(
    name: Seq<Seq<char>>,
    format: Option<Seq<char>>,
    ctx: Seq<ValueView>,
    formats: Map<Seq<char>, Seq<char>>,
) -> Result<Seq<char>, RenderErrorView> {
    match resolve(name, ctx) {
        Err(e) => Err(e),
        Ok(value) => match value {
            ValueView::Nil => Ok(Seq::empty()),
            ValueView::Bool(b) => Ok(
                if b {
                    "true"@
                } else {
                    "false"@
                },
            ),
            ValueView::Str(s) => Ok(s),
            ValueView::List(_) => Err(RenderErrorView::CannotInsertCollection),
            ValueView::Dict(_) => Err(RenderErrorView::CannotInsertCollection),
            ValueView::Fmt(f) => match strfmt_expansion(
                effective_format(format, formats, f),
                f.placeholders,
            ) {
                Ok(text) => Ok(text),
                Err(e) => Err(format_failure(f.typename, e)),
            },
        },
    }
}

/// What rendering comes to: the text or the error, and the format overrides
/// as they stand afterwards (at the error, where there is one).
pub struct Rendered {
    pub result: Result<Seq<char>, RenderErrorView>,
    pub formats: Map<Seq<char>, Seq<char>>,
}

/// `then` after the text `first`.
pub open spec fn after(first: Seq<char>, then: Rendered) -> Rendered {
    Rendered {
        result: match then.result {
            Ok(text) => Ok(first + text),
            Err(e) => Err(e),
        },
        formats: then.formats,
    }
}

/// Rendering of a list of tokens, one after the other; the first error ends
/// it.
pub open spec fn render_tokens(
    tokens: Seq<TokenView>,
    ctx: Seq<ValueView>,
    formats: Map<Seq<char>, Seq<char>>,
) -> Rendered
    decreases tokens, 0nat, 0nat,
{
    if tokens.len() == 0 {
        Rendered { result: Ok(Seq::empty()), formats }
    } else {
        let first = render_token(tokens[0], ctx, formats);
        match first.result {
            Err(_) => first,
            Ok(text) => after(text, render_tokens(tokens.drop_first(), ctx, first.formats)),
        }
    }
}

/// Rendering of one token.
///
/// A section is rendered according to the value its name resolves to: once
/// for a string, a dictionary or a formattable value (inverting these is an
/// error); for a boolean once if it differs from `inverted`; for nil once if
/// inverted; for a list once per item, in order, or in reverse order if
/// inverted. Each time the value (for a list: the item) becomes the
/// innermost context.
pub open spec fn render_token(
    token: TokenView,
    ctx: Seq<ValueView>,
    formats: Map<Seq<char>, Seq<char>>,
) -> Rendered
    decreases token, 0nat, 0nat,
{
    match token {
        TokenView::Text(text) => Rendered { result: Ok(text), formats },
        TokenView::Insert { name, format } => Rendered {
            result: render_insert(name, format, ctx, formats),
            formats,
        },
        TokenView::SetFmt { typename, format } => Rendered {
            result: Ok(Seq::empty()),
            formats: formats.insert(typename, format),
        },
        TokenView::Section { name, inverted, content } => match resolve(name, ctx) {
            Err(e) => Rendered { result: Err(e), formats },
            Ok(value) => match value {
                ValueView::Nil => if inverted {
                    render_tokens(content, seq![value] + ctx, formats)
                } else {
                    Rendered { result: Ok(Seq::empty()), formats }
                },
                ValueView::Bool(b) => if b != inverted {
                    render_tokens(content, seq![value] + ctx, formats)
                } else {
                    Rendered { result: Ok(Seq::empty()), formats }
                },
                ValueView::List(items) => render_each(
                    content,
                    if inverted {
                        items.reverse()
                    } else {
                        items
                    },
                    ctx,
                    formats,
                ),
                _ => if inverted {
                    Rendered { result: Err(RenderErrorView::CannotInvertSection), formats }
                } else {
                    render_tokens(content, seq![value] + ctx, formats)
                },
            },
        },
    }
}

/// Rendering of `content` once for each of `items`, each as the innermost
/// context in its turn.
pub open spec fn render_each(
    content: Seq<TokenView>,
    items: Seq<ValueView>,
    ctx: Seq<ValueView>,
    formats: Map<Seq<char>, Seq<char>>,
) -> Rendered
    decreases content, 1nat, items.len(),
{
    if items.len() == 0 {
        Rendered { result: Ok(Seq::empty()), formats }
    } else {
        let first = render_tokens(content, seq![items[0]] + ctx, formats);
        match first.result {
            Err(_) => first,
            Ok(text) => after(text, render_each(content, items.drop_first(), ctx, first.formats)),
        }
    }
}

/// Whether a section is refused before any of its content is rendered:
/// its name does not resolve, or it is inverted on a string, a dictionary or
/// a formattable value.
pub open spec fn section_refused(name: Seq<Seq<char>>, inverted: bool, ctx: Seq<ValueView>) -> bool {
    match resolve(name, ctx) {
        Err(_) => true,
        Ok(value) => inverted && (value is Str || value is Dict || value is Fmt),
    }
}

/// The views of the values of a context stack.
pub open spec fn context_view(context: Seq<&Value>) -> Seq<ValueView> {
    Seq::new(context.len(), |i: int| context[i]@)
}


/// The context stack with `value` as its new innermost entry.
fn entered<'a>(value: &'a Value, context: &Vec<&'a Value>) -> (inner: Vec<&'a Value>)
    ensures
        context_view(inner@) == seq![value@] + context_view(context@),
{
    let mut inner: Vec<&'a Value> = Vec::new();
    inner.push(value);
    let mut i: usize = 0;
    while i < context.len()
        invariant
            i <= context@.len(),
            inner@.len() == i + 1,
            inner@[0] == value,
            forall|j: int| 0 <= j < i ==> inner@[j + 1] == context@[j],
        decreases context.len() - i,
    {
        inner.push(context[i]);
        i += 1;
    }
    assert(context_view(inner@) =~= seq![value@] + context_view(context@));
    inner
}

/// The render error that `error` becomes for a value of the type `typename`.
fn format_error(typename: &str, error: FmtError) -> (e: RenderError)
    ensures
        e@ == format_failure(typename@, error@),
{
    match error {
        FmtError::Invalid(m) => RenderError::InvalidFormat(typename.to_owned(), m),
        FmtError::UnknownPlaceholder(key) => RenderError::UnknownPlaceholder(
            typename.to_owned(),
            key,
        ),
        FmtError::Type(m) => RenderError::FormatType(typename.to_owned(), m),
    }
}

impl Template {
    /// The template made of `tokens`, with no format override.
    pub fn new(tokens: Vec<Token>) -> (template: Self)
        ensures
            template.content() == tokens_view(tokens@),
            template.formats() == Map::<Seq<char>, Seq<char>>::empty(),
    {
        Template { fmt: FormatTable::new(), tokens }
    }

    /// The tokens of the template.
    pub closed spec fn content(&self) -> Seq<TokenView> {
        tokens_view(self.tokens@)
    }

    /// The format overrides registered so far.
    pub closed spec fn formats(&self) -> Map<Seq<char>, Seq<char>> {
        self.fmt@
    }

    /// Registers `format` for values of the type `typename`, in place of
    /// what was registered for it before.
    pub fn set_format(&mut self, typename: String, format: String)
        ensures
            final(self).content() == old(self).content(),
            final(self).formats() == old(self).formats().insert(typename@, format@),
    {
        self.fmt.insert(typename, format);
    }

    /// Renders the template against `value`.
    ///
    /// The format overrides that the template sets while it is rendered stay
    /// registered afterwards, also where rendering ends in an error.
    pub fn render(&mut self, value: &Value) -> (result: Result<String, RenderError>)
        ensures
            final(self).content() == old(self).content(),
            final(self).formats() == render_tokens(
                old(self).content(),
                seq![value@],
                old(self).formats(),
            ).formats,
            match result {
                Ok(text) => render_tokens(
                    old(self).content(),
                    seq![value@],
                    old(self).formats(),
                ).result == Ok::<Seq<char>, RenderErrorView>(text@),
                Err(e) => render_tokens(
                    old(self).content(),
                    seq![value@],
                    old(self).formats(),
                ).result == Err::<Seq<char>, RenderErrorView>(e@),
            },
    {
        let mut buf = String::new();
        let mut context: Vec<&Value> = Vec::new();
        context.push(value);
        assert(context_view(context@) =~= seq![value@]);
        match Self::render_tokens(&mut buf, &self.tokens, &context, &mut self.fmt) {
            Ok(()) => {
                assert(buf@ =~= render_tokens(
                    old(self).content(),
                    seq![value@],
                    old(self).formats(),
                ).result->Ok_0);
                Ok(buf)
            },
            Err(e) => Err(e),
        }
    }

    /// Appends to `buf` what `tokens` render to in `context`.
    fn render_tokens(
        buf: &mut String,
        tokens: &Vec<Token>,
        context: &Vec<&Value>,
        fmt: &mut FormatTable,
    ) -> (result: Result<(), RenderError>)
        ensures
            final(fmt)@ == render_tokens(
                tokens_view(tokens@),
                context_view(context@),
                old(fmt)@,
            ).formats,
            match result {
                Ok(()) => {
                    let rendered = render_tokens(
                        tokens_view(tokens@),
                        context_view(context@),
                        old(fmt)@,
                    );
                    rendered.result is Ok && final(buf)@ == old(buf)@ + rendered.result->Ok_0
                },
                Err(e) => render_tokens(
                    tokens_view(tokens@),
                    context_view(context@),
                    old(fmt)@,
                ).result == Err::<Seq<char>, RenderErrorView>(e@),
            },
        decreases tokens, 0nat,
    {
        let ghost all = tokens_view(tokens@);
        let ghost ctx = context_view(context@);
        let ghost whole = render_tokens(all, ctx, fmt@);
        let ghost done: Seq<char> = Seq::empty();
        let mut i: usize = 0;
        assert(all.subrange(0, all.len() as int) =~= all);
        assert(after(done, whole) == whole) by {
            if whole.result is Ok {
                assert(done + whole.result->Ok_0 =~= whole.result->Ok_0);
            }
        }
        while i < tokens.len()
            invariant
                i <= tokens@.len(),
                all == tokens_view(tokens@),
                all.len() == tokens@.len(),
                ctx == context_view(context@),
                buf@ == old(buf)@ + done,
                whole == render_tokens(all, ctx, old(fmt)@),
                whole == after(done, render_tokens(all.subrange(i as int, all.len() as int), ctx, fmt@)),
            decreases tokens.len() - i,
        {
            let ghost rest = all.subrange(i as int, all.len() as int);
            let ghost before = fmt@;
            let ghost first = render_token(rest[0], ctx, before);
            assert(rest[0] == tokens@[i as int]@);
            assert(rest.drop_first() =~= all.subrange(i + 1, all.len() as int));
            let ghost text_before = buf@;
            let step = match &tokens[i] {
                Token::String(string) => {
                    buf.append(string.as_str());
                    Ok(())
                },
                Token::Insert(insert) => Self::render_insert(buf, insert, context, fmt),
                Token::Section(section) => {
                    proof {
                        lemma_section_view(*section);
                    }
                    Self::render_section(buf, section, context, fmt)
                },
                Token::SetFmt(set) => {
                    fmt.insert(set.typename.clone(), set.format.clone());
                    assert(buf@ =~= text_before + Seq::<char>::empty());
                    Ok(())
                },
            };
            match step {
                Err(e) => {
                    assert(first.result == Err::<Seq<char>, RenderErrorView>(e@));
                    assert(first.formats == fmt@);
                    return Err(e);
                },
                Ok(()) => {
                    assert(first.result is Ok);
                    assert(first.formats == fmt@);
                    assert(buf@ == text_before + first.result->Ok_0);
                    proof {
                        let head = first.result->Ok_0;
                        let tail = render_tokens(rest.drop_first(), ctx, fmt@);
                        assert(after(done, after(head, tail)) == after(done + head, tail)) by {
                            if tail.result is Ok {
                                assert(done + (head + tail.result->Ok_0) =~= (done + head)
                                    + tail.result->Ok_0);
                            }
                        }
                        assert(buf@ =~= old(buf)@ + (done + head));
                        done = done + head;
                    }
                },
            }
            i += 1;
        }
        assert(all.subrange(i as int, all.len() as int) =~= Seq::<TokenView>::empty());
        assert(done + Seq::<char>::empty() =~= done);
        Ok(())
    }

    /// Appends to `buf` what `section` renders to in `context`.
    fn render_section(
        buf: &mut String,
        section: &Section,
        context: &Vec<&Value>,
        fmt: &mut FormatTable,
    ) -> (result: Result<(), RenderError>)
        ensures
            final(fmt)@ == render_token(
                Token::Section(*section)@,
                context_view(context@),
                old(fmt)@,
            ).formats,
            match result {
                Ok(()) => {
                    let rendered = render_token(
                        Token::Section(*section)@,
                        context_view(context@),
                        old(fmt)@,
                    );
                    rendered.result is Ok && final(buf)@ == old(buf)@ + rendered.result->Ok_0
                },
                Err(e) => render_token(
                    Token::Section(*section)@,
                    context_view(context@),
                    old(fmt)@,
                ).result == Err::<Seq<char>, RenderErrorView>(e@),
            },
            section_refused(section.name@, section.inverted, context_view(context@)) ==> {
                &&& result is Err
                &&& final(buf)@ == old(buf)@
                &&& final(fmt)@ == old(fmt)@
            },
        decreases section, 0nat,
    {
        proof {
            lemma_section_view(*section);
        }
        let ghost ctx = context_view(context@);
        let resolved = match Self::get_named_value(&section.name, context) {
            Ok(v) => v,
            Err(e) => {
                return Err(e);
            },
        };
        let nil = Value::Nil;
        let value: &Value = match resolved {
            Some(v) => v,
            None => &nil,
        };
        match value {
            Value::Nil => {
                if section.inverted {
                    let inner = entered(value, context);
                    Self::render_tokens(buf, &section.content, &inner, fmt)
                } else {
                    assert(buf@ =~= old(buf)@ + Seq::<char>::empty());
                    Ok(())
                }
            },
            Value::Bool(b) => {
                if *b != section.inverted {
                    let inner = entered(value, context);
                    Self::render_tokens(buf, &section.content, &inner, fmt)
                } else {
                    assert(buf@ =~= old(buf)@ + Seq::<char>::empty());
                    Ok(())
                }
            },
            Value::Vec(items) => Self::render_items(
                buf,
                &section.content,
                items,
                section.inverted,
                context,
                fmt,
            ),
            _ => {
                if section.inverted {
                    Err(RenderError::CannotInvertSection)
                } else {
                    let inner = entered(value, context);
                    Self::render_tokens(buf, &section.content, &inner, fmt)
                }
            },
        }
    }

    /// Appends to `buf` what `content` renders to for each of `items`: in
    /// their order, or in the reverse order where `inverted` is set.
    fn render_items(
        buf: &mut String,
        content: &Vec<Token>,
        items: &Vec<Value>,
        inverted: bool,
        context: &Vec<&Value>,
        fmt: &mut FormatTable,
    ) -> (result: Result<(), RenderError>)
        ensures
            ({
                let list = Value::Vec(*items)@->List_0;
                let rendered = render_each(
                    tokens_view(content@),
                    if inverted {
                        list.reverse()
                    } else {
                        list
                    },
                    context_view(context@),
                    old(fmt)@,
                );
                &&& final(fmt)@ == rendered.formats
                &&& match result {
                    Ok(()) => rendered.result is Ok && final(buf)@ == old(buf)@
                        + rendered.result->Ok_0,
                    Err(e) => rendered.result == Err::<Seq<char>, RenderErrorView>(e@),
                }
            }),
        decreases content, 1nat,
    {
        proof {
            lemma_list_view(*items);
        }
        let ghost list = Value::Vec(*items)@->List_0;
        let ghost order = if inverted {
            list.reverse()
        } else {
            list
        };
        let ghost all = tokens_view(content@);
        let ghost ctx = context_view(context@);
        let ghost whole = render_each(all, order, ctx, fmt@);
        let ghost done: Seq<char> = Seq::empty();
        let n = items.len();
        let mut k: usize = 0;
        assert(order.subrange(0, n as int) =~= order);
        assert(after(done, whole) == whole) by {
            if whole.result is Ok {
                assert(done + whole.result->Ok_0 =~= whole.result->Ok_0);
            }
        }
        while k < n
            invariant
                k <= n,
                n == items@.len(),
                order.len() == n,
                list == Value::Vec(*items)@->List_0,
                list.len() == n,
                forall|j: int| 0 <= j < n ==> (#[trigger] list[j]) == items@[j]@,
                order == if inverted {
                    list.reverse()
                } else {
                    list
                },
                all == tokens_view(content@),
                ctx == context_view(context@),
                buf@ == old(buf)@ + done,
                whole == render_each(all, order, ctx, old(fmt)@),
                whole == after(done, render_each(all, order.subrange(k as int, n as int), ctx, fmt@)),
            decreases n - k,
        {
            let ghost rest = order.subrange(k as int, n as int);
            assert(rest.drop_first() =~= order.subrange(k + 1, n as int));
            let at = if inverted {
                n - 1 - k
            } else {
                k
            };
            let item = &items[at];
            assert(rest[0] == item@);
            let ghost before = fmt@;
            let ghost first = render_tokens(all, seq![rest[0]] + ctx, before);
            let ghost text_before = buf@;
            let inner = entered(item, context);
            match Self::render_tokens(buf, content, &inner, fmt) {
                Err(e) => {
                    assert(first.result == Err::<Seq<char>, RenderErrorView>(e@));
                    assert(first.formats == fmt@);
                    assert(render_each(all, rest, ctx, before) == first);
                    return Err(e);
                },
                Ok(()) => {
                    proof {
                        let head = first.result->Ok_0;
                        let tail = render_each(all, rest.drop_first(), ctx, fmt@);
                        assert(after(done, after(head, tail)) == after(done + head, tail)) by {
                            if tail.result is Ok {
                                assert(done + (head + tail.result->Ok_0) =~= (done + head)
                                    + tail.result->Ok_0);
                            }
                        }
                        assert(buf@ =~= old(buf)@ + (done + head));
                        done = done + head;
                    }
                },
            }
            k += 1;
        }
        assert(order.subrange(k as int, n as int) =~= Seq::<ValueView>::empty());
        assert(done + Seq::<char>::empty() =~= done);
        Ok(())
    }

    /// Appends to `buf` the text of the value that `insert` names.
    fn render_insert(
        buf: &mut String,
        insert: &Insert,
        context: &Vec<&Value>,
        fmt: &FormatTable,
    ) -> (result: Result<(), RenderError>)
        ensures
            match result {
                Ok(()) => {
                    let text = render_insert(
                        insert.name@,
                        Token::Insert(*insert)@->Insert_format,
                        context_view(context@),
                        fmt@,
                    );
                    text is Ok && final(buf)@ == old(buf)@ + text->Ok_0
                },
                Err(e) => render_insert(
                    insert.name@,
                    Token::Insert(*insert)@->Insert_format,
                    context_view(context@),
                    fmt@,
                ) == Err::<Seq<char>, RenderErrorView>(e@),
            },
            result is Err ==> final(buf)@ == old(buf)@,
    {
        let resolved = match Self::get_named_value(&insert.name, context) {
            Ok(v) => v,
            Err(e) => {
                return Err(e);
            },
        };
        match resolved {
            None => {
                assert(buf@ =~= old(buf)@ + Seq::<char>::empty());
                Ok(())
            },
            Some(Value::Nil) => {
                assert(buf@ =~= old(buf)@ + Seq::<char>::empty());
                Ok(())
            },
            Some(Value::Vec(items)) => {
                proof {
                    lemma_list_view(*items);
                }
                Err(RenderError::CannotInsertCollection)
            },
            Some(Value::Dict(entries)) => {
                proof {
                    lemma_dict_view(*entries);
                }
                Err(RenderError::CannotInsertCollection)
            },
            Some(Value::Bool(b)) => {
                if *b {
                    buf.append("true");
                } else {
                    buf.append("false");
                }
                Ok(())
            },
            Some(Value::String(string)) => {
                buf.append(string.as_str());
                Ok(())
            },
            Some(Value::Fmt(value)) => {
                let formatted = match &insert.format {
                    Some(inline) => value.format(Some(inline.as_str())),
                    None => {
                        let key = value.typename().to_owned();
                        match fmt.get(&key) {
                            Some(registered) => value.format(Some(registered.as_str())),
                            None => value.format(None),
                        }
                    },
                };
                match formatted {
                    Ok(text) => {
                        buf.append(text.as_str());
                        Ok(())
                    },
                    Err(e) => Err(format_error(value.typename(), e)),
                }
            },
        }
    }

    /// The value that `name` denotes in `context`; none stands for nil.
    fn get_named_value<'a>(name: &Name, context: &Vec<&'a Value>) -> (result: Result<
        Option<&'a Value>,
        RenderError,
    >)
        ensures
            match result {
                Ok(Some(value)) => resolve(name@, context_view(context@)) == Ok::<
                    ValueView,
                    RenderErrorView,
                >(value@),
                Ok(None) => resolve(name@, context_view(context@)) == Ok::<
                    ValueView,
                    RenderErrorView,
                >(ValueView::Nil),
                Err(e) => resolve(name@, context_view(context@)) == Err::<
                    ValueView,
                    RenderErrorView,
                >(e@),
            },
    {
        let ghost path = name@;
        let ghost ctx = context_view(context@);
        if context.len() == 0 {
            return Ok(None);
        }
        let mut head: &'a Value = context[0];
        let mut outer: usize = 1;
        let mut at: usize = 0;
        assert(path.subrange(0, path.len() as int) =~= path);
        assert(seq![head@] + ctx.subrange(1, ctx.len() as int) =~= ctx);
        loop
            invariant
                at <= name.0@.len(),
                path == name@,
                path.len() == name.0@.len(),
                ctx == context_view(context@),
                1 <= outer <= context@.len(),
                resolve(path, ctx) == resolve(
                    path.subrange(at as int, path.len() as int),
                    seq![head@] + ctx.subrange(outer as int, ctx.len() as int),
                ),
            decreases (name.0@.len() - at) + (context@.len() - outer),
        {
            let ghost here = path.subrange(at as int, path.len() as int);
            let ghost stack = seq![head@] + ctx.subrange(outer as int, ctx.len() as int);
            assert(stack[0] == head@);
            assert(stack.drop_first() =~= ctx.subrange(outer as int, ctx.len() as int));
            if at == name.0.len() {
                return Ok(Some(head));
            }
            assert(here[0] == name.0@[at as int]@);
            assert(here.drop_first() =~= path.subrange(at + 1, path.len() as int));
            let mut leave = false;
            match head {
                Value::Vec(items) => {
                    proof {
                        lemma_list_view(*items);
                    }
                    match parse_index(name.0[at].as_str()) {
                        None => {
                            return Err(RenderError::InvalidIndex(name.0[at].clone()));
                        },
                        Some(index) => {
                            if index >= items.len() {
                                return Err(RenderError::IndexOutOfBounds(index, items.len()));
                            }
                            head = &items[index];
                            at += 1;
                        },
                    }
                },
                Value::Dict(entries) => {
                    proof {
                        lemma_dict_view(*entries);
                    }
                    match lookup(entries, &name.0[at]) {
                        Some(found) => {
                            head = found;
                            at += 1;
                        },
                        None => {
                            assert(resolve(here, stack) == resolve(here, stack.drop_first()));
                            leave = true;
                        },
                    }
                },
                _ => {
                    assert(resolve(here, stack) == resolve(here, stack.drop_first()));
                    leave = true;
                },
            }
            if leave {
                if outer == context.len() {
                    assert(stack.drop_first() =~= Seq::<ValueView>::empty());
                    assert(resolve(here, Seq::<ValueView>::empty()) == Ok::<
                        ValueView,
                        RenderErrorView,
                    >(ValueView::Nil));
                    return Ok(None);
                }
                assert(stack.drop_first() =~= seq![ctx[outer as int]] + ctx.subrange(
                    outer + 1,
                    ctx.len() as int,
                ));
                head = context[outer];
                outer += 1;
            }
        }
    }
}

} // verus!
