//! The values a template is rendered against.

use crate::fmt::{Format, FormatView};
use crate::text::{all_decimal, decimal_value};
use vstd::prelude::*;

verus! {

/// Everything a template can address.
///
/// A `Dict` is read as a mapping: a key is looked up in the first entry that
/// carries it.
pub enum Value {
    Nil,
    Bool(bool),
    String(String),
    Vec(Vec<Value>),
    Dict(Vec<(String, Value)>),
    Fmt(Box<dyn Format>),
}

/// The mathematical content of a [`Value`].
pub enum ValueView {
    Nil,
    Bool(bool),
    Str(Seq<char>),
    List(Seq<ValueView>),
    Dict(Seq<(Seq<char>, ValueView)>),
    Fmt(FormatView),
}

impl View for Value {
    type V = ValueView;

    open spec fn view(&self) -> ValueView {
        value_view(self)
    }
}

/// The mathematical content of `value`.
pub open spec fn value_view(value: &Value) -> ValueView
    decreases value,
{
    {
        match value {
            Value::Nil => ValueView::Nil,
            Value::Bool(b) => ValueView::Bool(*b),
            Value::String(s) => ValueView::Str(s@),
            Value::Vec(items) => ValueView::List(
                Seq::new(
                    items@.len(),
                    |i: int|
                        if 0 <= i < items@.len() {
                            value_view(&items@[i])
                        } else {
                            ValueView::Nil
                        },
                ),
            ),
            Value::Dict(entries) => ValueView::Dict(
                Seq::new(
                    entries@.len(),
                    |i: int|
                        if 0 <= i < entries@.len() {
                            (entries@[i].0@, value_view(&entries@[i].1))
                        } else {
                            (Seq::empty(), ValueView::Nil)
                        },
                ),
            ),
            Value::Fmt(f) => ValueView::Fmt(
                FormatView {
                    typename: f.spec_typename(),
                    default_fmtstr: f.spec_default_fmtstr(),
                    placeholders: f.spec_placeholders(),
                },
            ),
        }
    }
}

/// The view of a list, item by item.
pub proof fn lemma_list_view(items: Vec<Value>)
    ensures
        Value::Vec(items)@ is List,
        Value::Vec(items)@->List_0.len() == items@.len(),
        forall|i: int|
            0 <= i < items@.len() ==> (#[trigger] Value::Vec(items)@->List_0[i]) == items@[i]@,
{
}

/// The view of a dictionary, entry by entry.
pub proof fn lemma_dict_view(entries: Vec<(String, Value)>)
    ensures
        Value::Dict(entries)@ is Dict,
        Value::Dict(entries)@->Dict_0.len() == entries@.len(),
        forall|i: int|
            0 <= i < entries@.len() ==> (#[trigger] Value::Dict(entries)@->Dict_0[i]) == (
                entries@[i].0@,
                entries@[i].1@,
            ),
{
}

/// The index of the first entry of `entries` whose key is `key`, or the
/// number of entries where there is none.
pub open spec fn first_entry(entries: Seq<(Seq<char>, ValueView)>, key: Seq<char>) -> int
    decreases entries.len(),
{
    if entries.len() == 0 {
        0
    } else if entries[0].0 == key {
        0
    } else {
        1 + first_entry(entries.drop_first(), key)
    }
}

/// What `key` is mapped to by `entries`.
pub open spec fn dict_get(entries: Seq<(Seq<char>, ValueView)>, key: Seq<char>) -> Option<
    ValueView,
> {
    let i = first_entry(entries, key);
    if i < entries.len() {
        Some(entries[i].1)
    } else {
        None
    }
}

/// `first_entry` is the least index that carries the key.
pub proof fn lemma_first_entry(entries: Seq<(Seq<char>, ValueView)>, key: Seq<char>)
    ensures
        0 <= first_entry(entries, key) <= entries.len(),
        first_entry(entries, key) < entries.len() ==> entries[first_entry(entries, key)].0 == key,
        forall|j: int| 0 <= j < first_entry(entries, key) ==> (#[trigger] entries[j]).0 != key,
    decreases entries.len(),
{
    if entries.len() > 0 && entries[0].0 != key {
        let rest = entries.drop_first();
        lemma_first_entry(rest, key);
        assert forall|j: int| 0 <= j < first_entry(entries, key) implies (#[trigger] entries[j]).0
            != key by {
            if j > 0 {
                assert(entries[j] == rest[j - 1]);
            }
        }
    }
}

/// An index that carries the key and has none before it is `first_entry`.
pub proof fn lemma_first_entry_is(entries: Seq<(Seq<char>, ValueView)>, key: Seq<char>, i: int)
    requires
        0 <= i <= entries.len(),
        i < entries.len() ==> entries[i].0 == key,
        forall|j: int| 0 <= j < i ==> (#[trigger] entries[j]).0 != key,
    ensures
        first_entry(entries, key) == i,
{
    lemma_first_entry(entries, key);
    let f = first_entry(entries, key);
    if f < i {
        assert(entries[f].0 != key);
    }
}

/// The entry of a dictionary that carries `key`, if there is one.
pub fn lookup<'a>(entries: &'a Vec<(String, Value)>, key: &String) -> (found: Option<&'a Value>)
    ensures
        match found {
            Some(v) => dict_get(Value::Dict(*entries)@->Dict_0, key@) == Some(v@),
            None => dict_get(Value::Dict(*entries)@->Dict_0, key@) is None,
        },
{
    let ghost view = Value::Dict(*entries)@->Dict_0;
    proof {
        lemma_dict_view(*entries);
    }
    let mut i: usize = 0;
    while i < entries.len()
        invariant
            i <= entries.len(),
            view == Value::Dict(*entries)@->Dict_0,
            view.len() == entries@.len(),
            forall|j: int| 0 <= j < view.len() ==> (#[trigger] view[j]) == (entries@[j].0@, entries@[j].1@),
            forall|j: int| 0 <= j < i ==> (#[trigger] view[j]).0 != key@,
        decreases entries.len() - i,
    {
        if entries[i].0 == *key {
            proof {
                lemma_first_entry_is(view, key@, i as int);
            }
            return Some(&entries[i].1);
        }
        i += 1;
    }
    proof {
        lemma_first_entry_is(view, key@, i as int);
    }
    None
}

/// The list index that a path segment denotes: an optional `+` and then
/// decimal digits only, with a value that fits the machine word.
pub open spec fn spec_parse_index(segment: Seq<char>) -> Option<nat> {
    let digits = index_digits(segment);
    if digits.len() > 0 && all_decimal(digits) && decimal_value(digits) <= usize::MAX {
        Some(decimal_value(digits))
    } else {
        None
    }
}

/// The digits of a path segment: all of it but a leading `+`.
pub open spec fn index_digits(segment: Seq<char>) -> Seq<char> {
    if segment.len() > 0 && segment[0] == '+' {
        segment.drop_first()
    } else {
        segment
    }
}

proof fn lemma_decimal_value_grows(digits: Seq<char>, n: int)
    requires
        0 <= n <= digits.len(),
        all_decimal(digits),
    ensures
        decimal_value(digits.subrange(0, n)) <= decimal_value(digits),
    decreases digits.len() - n,
{
    if n < digits.len() {
        let next = digits.subrange(0, n + 1);
        assert(next.drop_last() =~= digits.subrange(0, n));
        assert('0' <= next.last() <= '9');
        lemma_decimal_value_grows(digits, n + 1);
    } else {
        assert(digits.subrange(0, n) =~= digits);
    }
}

/// Decides [`spec_parse_index`].
pub fn parse_index(segment: &str) -> (index: Option<usize>)
    ensures
        match index {
            Some(i) => spec_parse_index(segment@) == Some(i as nat),
            None => spec_parse_index(segment@) is None,
        },
{
    let chars = crate::text::chars_of(segment);
    let start: usize = if chars.len() > 0 && chars[0] == '+' {
        1
    } else {
        0
    };
    let ghost digits = chars@.subrange(start as int, chars.len() as int);
    assert(digits =~= index_digits(segment@));
    if start == chars.len() {
        return None;
    }
    let mut value: usize = 0;
    let mut i: usize = start;
    while i < chars.len()
        invariant
            start <= i <= chars.len(),
            digits == chars@.subrange(start as int, chars.len() as int),
            digits == index_digits(segment@),
            all_decimal(digits.subrange(0, i - start)),
            value == decimal_value(digits.subrange(0, i - start)),
        decreases chars.len() - i,
    {
        let c = chars[i];
        if c < '0' || c > '9' {
            assert(digits[i - start] == c);
            return None;
        }
        let d: usize = (c as u32 - '0' as u32) as usize;
        let ghost next = digits.subrange(0, i - start + 1);
        proof {
            assert(next.drop_last() =~= digits.subrange(0, i - start));
            assert(next.last() == c);
            assert(all_decimal(next)) by {
                assert forall|k: int| 0 <= k < next.len() implies '0' <= #[trigger] next[k]
                    <= '9' by {
                    if k < next.len() - 1 {
                        assert(next[k] == digits.subrange(0, i - start)[k]);
                    }
                }
            }
            assert(decimal_value(next) == value * 10 + d);
        }
        let grown = match value.checked_mul(10) {
            Some(tens) => tens.checked_add(d),
            None => None,
        };
        match grown {
            Some(v) => {
                value = v;
            },
            None => {
                proof {
                    assert(decimal_value(next) > usize::MAX);
                    if all_decimal(digits) {
                        lemma_decimal_value_grows(digits, i - start + 1);
                    }
                }
                return None;
            },
        }
        i += 1;
    }
    assert(digits.subrange(0, i - start) =~= digits);
    Some(value)
}

} // verus!
