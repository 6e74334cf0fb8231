//! Characters and strings: the small vocabulary that the scanner, the
//! renderer and the colour code share.

use vstd::prelude::*;
use vstd::std_specs::iter::IteratorSpec;

verus! {

broadcast use vstd::string::group_string_axioms;

/// Whether `c` is whitespace: a character with the property `White_Space`
/// of the Unicode character database.
pub open spec fn char_is_whitespace(c: char) -> bool {
    ||| '\u{9}' <= c <= '\u{d}'
    ||| c == ' '
    ||| c == '\u{85}'
    ||| c == '\u{a0}'
    ||| c == '\u{1680}'
    ||| '\u{2000}' <= c <= '\u{200a}'
    ||| c == '\u{2028}'
    ||| c == '\u{2029}'
    ||| c == '\u{202f}'
    ||| c == '\u{205f}'
    ||| c == '\u{3000}'
}

/// Decides [`char_is_whitespace`].
pub fn is_whitespace(c: char) -> (b: bool)
    ensures
        b == char_is_whitespace(c),
{
    ('\u{9}' <= c && c <= '\u{d}') || c == ' ' || c == '\u{85}' || c == '\u{a0}' || c
        == '\u{1680}' || ('\u{2000}' <= c && c <= '\u{200a}') || c == '\u{2028}' || c
        == '\u{2029}' || c == '\u{202f}' || c == '\u{205f}' || c == '\u{3000}'
}

/// `String::push` of the standard library appends one character.
pub assume_specification[ std::string::String::push ](s: &mut std::string::String, c: char)
    ensures
        final(s)@ == old(s)@.push(c),
;

/// The characters of `s`, in order.
pub fn chars_of(s: &str) -> (v: Vec<char>)
    ensures
        v@ == s@,
{
    let mut v: Vec<char> = Vec::new();
    let mut rest = s.chars();
    loop
        invariant
            v@ + rest.remaining() == s@,
            rest.obeys_prophetic_iter_laws(),
            rest.decrease() is Some,
        decreases rest.decrease().unwrap(),
    {
        match rest.next() {
            Some(c) => {
                v.push(c);
                assert(v@ + rest.remaining() =~= s@);
            },
            None => {
                assert(v@ + rest.remaining() =~= v@);
                return v;
            },
        }
    }
}

/// The texts of a list of strings.
pub open spec fn texts(strings: Seq<String>) -> Seq<Seq<char>> {
    Seq::new(strings.len(), |i: int| strings[i]@)
}

/// Whether two texts are the same.
pub fn same_text(a: &str, b: &str) -> (same: bool)
    ensures
        same == (a@ == b@),
{
    a.to_owned() == b.to_owned()
}

/// The string made of `text[from..to]`.
pub(crate) fn string_of(text: &Vec<char>, from: usize, to: usize) -> (s: String)
    requires
        from <= to <= text.len(),
    ensures
        s@ == text@.subrange(from as int, to as int),
{
    let mut s = String::new();
    let mut i: usize = from;
    while i < to
        invariant
            from <= i <= to <= text.len(),
            s@ == text@.subrange(from as int, i as int),
        decreases to - i,
    {
        s.push(text[i]);
        i += 1;
        assert(s@ =~= text@.subrange(from as int, i as int));
    }
    s
}

/// Whether `text` holds `literal` at `at`.
pub open spec fn holds_at(text: Seq<char>, at: int, literal: Seq<char>) -> bool {
    &&& 0 <= at
    &&& at + literal.len() <= text.len()
    &&& text.subrange(at, at + literal.len()) == literal
}

/// Decides [`holds_at`].
pub(crate) fn starts_with_at(text: &Vec<char>, at: usize, literal: &Vec<char>) -> (b: bool)
    requires
        at <= text.len(),
    ensures
        b == holds_at(text@, at as int, literal@),
{
    if literal.len() > text.len() - at {
        return false;
    }
    let mut i: usize = 0;
    while i < literal.len()
        invariant
            at + literal.len() <= text.len(),
            i <= literal.len(),
            text@.subrange(at as int, at + i) == literal@.subrange(0, i as int),
        decreases literal.len() - i,
    {
        if text[at + i] != literal[i] {
            proof {
                let whole = text@.subrange(at as int, at + literal.len());
                assert(whole[i as int] == text@[at + i]);
            }
            return false;
        }
        i += 1;
        assert(text@.subrange(at as int, at + i) =~= literal@.subrange(0, i as int)) by {
            let a = text@.subrange(at as int, at + i);
            let b = literal@.subrange(0, i as int);
            let a0 = text@.subrange(at as int, at + i - 1);
            let b0 = literal@.subrange(0, i - 1);
            assert(a0 == b0);
            assert forall|k: int| 0 <= k < i implies a[k] == b[k] by {
                if k < i - 1 {
                    assert(a[k] == a0[k]);
                    assert(b[k] == b0[k]);
                }
            }
        }
    }
    assert(literal@.subrange(0, literal.len() as int) =~= literal@);
    true
}

/// The value of a run of decimal digits, most significant first.
pub open spec fn decimal_value(digits: Seq<char>) -> nat
    decreases digits.len(),
{
    if digits.len() == 0 {
        0
    } else {
        (decimal_value(digits.drop_last()) * 10 + (digits.last() as nat - '0' as nat)) as nat
    }
}

/// Whether every character of `s` is a decimal digit.
pub open spec fn all_decimal(s: Seq<char>) -> bool {
    forall|i: int| 0 <= i < s.len() ==> '0' <= #[trigger] s[i] <= '9'
}

/// The decimal numeral of `n`, without sign or leading zeros.
pub open spec fn decimal_digits(n: nat) -> Seq<char>
    decreases n,
{
    if n < 10 {
        seq![digit_char(n)]
    } else {
        decimal_digits(n / 10).push(digit_char(n % 10))
    }
}

/// The character of a single decimal digit.
pub open spec fn digit_char(d: nat) -> char {
    if d == 0 {
        '0'
    } else if d == 1 {
        '1'
    } else if d == 2 {
        '2'
    } else if d == 3 {
        '3'
    } else if d == 4 {
        '4'
    } else if d == 5 {
        '5'
    } else if d == 6 {
        '6'
    } else if d == 7 {
        '7'
    } else if d == 8 {
        '8'
    } else {
        '9'
    }
}

fn digit_of(d: usize) -> (c: char)
    requires
        d < 10,
    ensures
        c == digit_char(d as nat),
{
    if d == 0 {
        '0'
    } else if d == 1 {
        '1'
    } else if d == 2 {
        '2'
    } else if d == 3 {
        '3'
    } else if d == 4 {
        '4'
    } else if d == 5 {
        '5'
    } else if d == 6 {
        '6'
    } else if d == 7 {
        '7'
    } else if d == 8 {
        '8'
    } else {
        '9'
    }
}

/// Appends the decimal numeral of `n` to `buf`.
pub fn push_decimal_u64(buf: &mut String, n: u64)
    ensures
        final(buf)@ == old(buf)@ + decimal_digits(n as nat),
    decreases n,
{
    if n >= 10 {
        push_decimal_u64(buf, n / 10);
    }
    buf.push(digit_of((n % 10) as usize));
    assert(buf@ =~= old(buf)@ + decimal_digits(n as nat));
}

/// Appends the decimal numeral of `n` to `buf`.
pub fn push_decimal(buf: &mut String, n: usize)
    ensures
        final(buf)@ == old(buf)@ + decimal_digits(n as nat),
{
    push_decimal_u64(buf, n as u64);
}

} // verus!
