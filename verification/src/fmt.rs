//! Formattable values: objects whose text is produced from a format string
//! with `{placeholder}` fields.

use vstd::prelude::*;

verus! {

/// What a placeholder of a formattable value resolves to.
#[derive(Debug, Clone, PartialEq, Eq)]
pub enum FmtValue {
    String(String),
    Int(i64),
}

/// The mathematical content of a [`FmtValue`].
pub enum FmtValueView {
    Str(Seq<char>),
    Int(int),
}

impl View for FmtValue {
    type V = FmtValueView;

    open spec fn view(&self) -> FmtValueView {
        match self {
            FmtValue::String(s) => FmtValueView::Str(s@),
            FmtValue::Int(i) => FmtValueView::Int(*i as int),
        }
    }
}

impl From<i8> for FmtValue {
    fn from(value: i8) -> (converted: FmtValue) {
        FmtValue::Int(value as i64)
    }
}

impl vstd::std_specs::convert::FromSpecImpl<i8> for FmtValue {
    open spec fn obeys_from_spec() -> bool {
        true
    }

    open spec fn from_spec(value: i8) -> FmtValue {
        FmtValue::Int(value as i64)
    }
}

impl From<u8> for FmtValue {
    fn from(value: u8) -> (converted: FmtValue) {
        FmtValue::Int(value as i64)
    }
}

impl vstd::std_specs::convert::FromSpecImpl<u8> for FmtValue {
    open spec fn obeys_from_spec() -> bool {
        true
    }

    open spec fn from_spec(value: u8) -> FmtValue {
        FmtValue::Int(value as i64)
    }
}

impl From<i16> for FmtValue {
    fn from(value: i16) -> (converted: FmtValue) {
        FmtValue::Int(value as i64)
    }
}

impl vstd::std_specs::convert::FromSpecImpl<i16> for FmtValue {
    open spec fn obeys_from_spec() -> bool {
        true
    }

    open spec fn from_spec(value: i16) -> FmtValue {
        FmtValue::Int(value as i64)
    }
}

impl From<u16> for FmtValue {
    fn from(value: u16) -> (converted: FmtValue) {
        FmtValue::Int(value as i64)
    }
}

impl vstd::std_specs::convert::FromSpecImpl<u16> for FmtValue {
    open spec fn obeys_from_spec() -> bool {
        true
    }

    open spec fn from_spec(value: u16) -> FmtValue {
        FmtValue::Int(value as i64)
    }
}

impl From<i32> for FmtValue {
    fn from(value: i32) -> (converted: FmtValue) {
        FmtValue::Int(value as i64)
    }
}

impl vstd::std_specs::convert::FromSpecImpl<i32> for FmtValue {
    open spec fn obeys_from_spec() -> bool {
        true
    }

    open spec fn from_spec(value: i32) -> FmtValue {
        FmtValue::Int(value as i64)
    }
}

impl From<u32> for FmtValue {
    fn from(value: u32) -> (converted: FmtValue) {
        FmtValue::Int(value as i64)
    }
}

impl vstd::std_specs::convert::FromSpecImpl<u32> for FmtValue {
    open spec fn obeys_from_spec() -> bool {
        true
    }

    open spec fn from_spec(value: u32) -> FmtValue {
        FmtValue::Int(value as i64)
    }
}

impl From<i64> for FmtValue {
    fn from(value: i64) -> (converted: FmtValue) {
        FmtValue::Int(value)
    }
}

impl vstd::std_specs::convert::FromSpecImpl<i64> for FmtValue {
    open spec fn obeys_from_spec() -> bool {
        true
    }

    open spec fn from_spec(value: i64) -> FmtValue {
        FmtValue::Int(value)
    }
}

impl From<u64> for FmtValue {
    fn from(value: u64) -> (converted: FmtValue) {
        FmtValue::Int(#[verifier::truncate] (value as i64))
    }
}

impl vstd::std_specs::convert::FromSpecImpl<u64> for FmtValue {
    open spec fn obeys_from_spec() -> bool {
        true
    }

    open spec fn from_spec(value: u64) -> FmtValue {
        FmtValue::Int(value as i64)
    }
}

impl From<String> for FmtValue {
    fn from(value: String) -> (converted: FmtValue) {
        FmtValue::String(value)
    }
}

impl vstd::std_specs::convert::FromSpecImpl<String> for FmtValue {
    open spec fn obeys_from_spec() -> bool {
        true
    }

    open spec fn from_spec(value: String) -> FmtValue {
        FmtValue::String(value)
    }
}

/// Why a format string could not be applied.
#[derive(Debug, Clone, PartialEq, Eq)]
pub enum FmtError {
    /// The format string is malformed.
    Invalid(String),
    /// The format string names a placeholder that the value does not have.
    UnknownPlaceholder(String),
    /// A format option does not fit the kind of value it is applied to.
    Type(String),
}

/// The mathematical content of a [`FmtError`].
pub enum FmtErrorView {
    Invalid(Seq<char>),
    UnknownPlaceholder(Seq<char>),
    Type(Seq<char>),
}

impl View for FmtError {
    type V = FmtErrorView;

    open spec fn view(&self) -> FmtErrorView {
        match self {
            FmtError::Invalid(s) => FmtErrorView::Invalid(s@),
            FmtError::UnknownPlaceholder(s) => FmtErrorView::UnknownPlaceholder(s@),
            FmtError::Type(s) => FmtErrorView::Type(s@),
        }
    }
}

impl FmtError {
    /// The text of the error.
    pub open spec fn spec_message(self) -> Seq<char> {
        match self {
            FmtError::Invalid(m) => "Invalid format string: "@ + m@,
            FmtError::UnknownPlaceholder(key) => "Unknown placeholder: "@ + key@,
            FmtError::Type(m) => "Invalid format type: "@ + m@,
        }
    }

    /// The text of the error.
    pub fn message(&self) -> (s: String)
        ensures
            s@ == self.spec_message(),
    {
        match self {
            FmtError::Invalid(m) => {
                let mut s = "Invalid format string: ".to_owned();
                s.append(m.as_str());
                s
            },
            FmtError::UnknownPlaceholder(key) => {
                let mut s = "Unknown placeholder: ".to_owned();
                s.append(key.as_str());
                s
            },
            FmtError::Type(m) => {
                let mut s = "Invalid format type: ".to_owned();
                s.append(m.as_str());
                s
            },
        }
    }
}

/// The view of the outcome of formatting.
pub open spec fn outcome_view(r: Result<String, FmtError>) -> Result<Seq<char>, FmtErrorView> {
    match r {
        Ok(s) => Ok(s@),
        Err(e) => Err(e@),
    }
}

/// All that rendering reads of a formattable value.
pub struct FormatView {
    /// The name under which format overrides are registered.
    pub typename: Seq<char>,
    /// The format string used when nothing overrides it.
    pub default_fmtstr: Seq<char>,
    /// The placeholders that resolve, each with its value.
    pub placeholders: Map<Seq<char>, FmtValueView>,
}

/// The capability of being inserted through a format string.
///
/// The three specification functions say what a value answers. A verified
/// implementation defines them and is held to them; for an implementation
/// that is compiled without being verified they stay open, and the engine
/// takes the contracts of the three methods on trust.
pub trait Format {
    /// The name under which format overrides are registered for this type.
    open spec fn spec_typename(&self) -> Seq<char> {
        arbitrary()
    }

    /// The format string used when nothing overrides it.
    open spec fn spec_default_fmtstr(&self) -> Seq<char> {
        arbitrary()
    }

    /// The placeholders that resolve, each with its value.
    open spec fn spec_placeholders(&self) -> Map<Seq<char>, FmtValueView> {
        arbitrary()
    }

    /// The name under which format overrides are registered for this type.
    fn typename(&self) -> (name: &'static str)
        ensures
            name@ == self.spec_typename(),
    ;

    /// The format string used when nothing overrides it.
    fn default_fmtstr(&self) -> (fmtstr: &'static str)
        ensures
            fmtstr@ == self.spec_default_fmtstr(),
    ;

    /// What the placeholder `name` resolves to, if the value has it.
    fn get_placeholder(&self, name: &str) -> (value: Option<FmtValue>)
        ensures
            match value {
                Some(v) => self.spec_placeholders().contains_key(name@)
                    && self.spec_placeholders()[name@] == v@,
                None => !self.spec_placeholders().contains_key(name@),
            },
    ;
}

/// What `strfmt::strfmt_map` makes of the format string `fmtstr` when each
/// placeholder is filled from `placeholders`: the expanded text, or the
/// first error met from left to right.
pub uninterp spec fn strfmt_expansion(
    fmtstr: Seq<char>,
    placeholders: Map<Seq<char>, FmtValueView>,
) -> Result<Seq<char>, FmtErrorView>;

/// `strfmt::strfmt_map` on `fmtstr`. For each field of the format string it
/// asks `value` for the placeholder of that key and hands the answer to the
/// field's formatter: a string to `Formatter::str`, an integer to
/// `Formatter::i64`. A key that `value` does not have ends the expansion
/// with `KeyError` carrying that key; nothing else in `strfmt_map` makes a
/// `KeyError`. The three kinds of `strfmt::FmtError` become the three of
/// [`FmtError`], each with its text.
#[verifier::external_body]
fn expand<T: Format + ?Sized>(value: &T, fmtstr: &str) -> (r: Result<String, FmtError>)
    ensures
        outcome_view(r) == strfmt_expansion(fmtstr@, value.spec_placeholders()),
        r matches Err(FmtError::UnknownPlaceholder(key)) ==> !value.spec_placeholders().contains_key(
            key@,
        ),
{
    let filled = strfmt::strfmt_map(fmtstr, |mut f| match value.get_placeholder(f.key) {
        Some(FmtValue::String(s)) => f.str(s.as_str()),
        Some(FmtValue::Int(i)) => f.i64(i),
        None => Err(strfmt::FmtError::KeyError(f.key.to_string())),
    });
    match filled {
        Ok(s) => Ok(s),
        Err(strfmt::FmtError::Invalid(m)) => Err(FmtError::Invalid(m)),
        Err(strfmt::FmtError::KeyError(key)) => Err(FmtError::UnknownPlaceholder(key)),
        Err(strfmt::FmtError::TypeError(m)) => Err(FmtError::Type(m)),
    }
}

/// Formatting, for every [`Format`].
pub trait FormatExt: Format {
    /// Expands `fmtstr`, or the value's default format string where none is
    /// given, with the placeholders of `self`.
    fn format(&self, fmtstr: Option<&str>) -> (r: Result<String, FmtError>)
        ensures
            outcome_view(r) == strfmt_expansion(
                match fmtstr {
                    Some(f) => f@,
                    None => self.spec_default_fmtstr(),
                },
                self.spec_placeholders(),
            ),
            r matches Err(FmtError::UnknownPlaceholder(key)) ==> !self.spec_placeholders().contains_key(
                key@,
            ),
    ;

    /// Expands the value's default format string.
    fn display(&self) -> (r: Result<String, FmtError>)
        ensures
            outcome_view(r) == strfmt_expansion(
                self.spec_default_fmtstr(),
                self.spec_placeholders(),
            ),
            r matches Err(FmtError::UnknownPlaceholder(key)) ==> !self.spec_placeholders().contains_key(
                key@,
            ),
    ;
}

impl<T: Format + ?Sized> FormatExt for T {
    fn format(&self, fmtstr: Option<&str>) -> (r: Result<String, FmtError>) {
        match fmtstr {
            Some(f) => expand(self, f),
            None => expand(self, self.default_fmtstr()),
        }
    }

    fn display(&self) -> (r: Result<String, FmtError>) {
        self.format(Some(self.default_fmtstr()))
    }
}

} // verus!
