//! Colours with 8 bits for each of red, green, blue and alpha.

use crate::fmt::{FmtValue, FmtValueView, Format};
use crate::text::{chars_of, same_text};
use vstd::prelude::*;

verus! {

/// A colour. As a number it reads `0xRRGGBBAA`.
#[derive(Debug, Clone, Copy, PartialEq, Eq, Structural)]
pub struct Color {
    pub a: u8,
    pub b: u8,
    pub g: u8,
    pub r: u8,
}

/// Why a text is no colour.
#[derive(Debug, Clone, Copy, PartialEq, Eq, Structural)]
pub enum ColorError {
    /// The text does not begin with `#`.
    MissingHash,
    /// What follows the `#` is no hexadecimal number of 32 bits.
    InvalidHex,
    /// The number has this many digits, which is not 3, 6 or 8.
    WrongLength(usize),
}

/// The number `0xRRGGBBAA` of a colour.
pub open spec fn color_number(color: Color) -> int {
    color.r * 0x100_0000 + color.g * 0x1_0000 + color.b * 0x100 + color.a
}

/// The colour of the number `0xRRGGBBAA`.
pub open spec fn color_of(number: int) -> Color {
    Color {
        r: (number / 0x100_0000 % 0x100) as u8,
        g: (number / 0x1_0000 % 0x100) as u8,
        b: (number / 0x100 % 0x100) as u8,
        a: (number % 0x100) as u8,
    }
}

/// The character of a hexadecimal digit, in lower case.
pub open spec fn hex_char(d: int) -> char {
    if d == 0 {
        '0'
    } else if d == 1 {
        '1'
    } else if d == 2 {
        '2'
    } else if d == 3 {
        '3'
    } else if d == 4 {
        '4'
    } else if d == 5 {
        '5'
    } else if d == 6 {
        '6'
    } else if d == 7 {
        '7'
    } else if d == 8 {
        '8'
    } else if d == 9 {
        '9'
    } else if d == 10 {
        'a'
    } else if d == 11 {
        'b'
    } else if d == 12 {
        'c'
    } else if d == 13 {
        'd'
    } else if d == 14 {
        'e'
    } else {
        'f'
    }
}

/// The two hexadecimal digits of a byte.
pub open spec fn hex_pair(byte: u8) -> Seq<char> {
    seq![hex_char(byte as int / 16), hex_char(byte as int % 16)]
}

/// The text of a colour: `#` and the eight hexadecimal digits of its number.
pub open spec fn color_text(color: Color) -> Seq<char> {
    seq!['#'] + hex_pair(color.r) + hex_pair(color.g) + hex_pair(color.b) + hex_pair(color.a)
}

/// The value of a hexadecimal digit, if `c` is one.
pub open spec fn hex_digit(c: char) -> Option<int> {
    if '0' <= c <= '9' {
        Some(c as int - '0' as int)
    } else if 'a' <= c <= 'f' {
        Some(c as int - 'a' as int + 10)
    } else if 'A' <= c <= 'F' {
        Some(c as int - 'A' as int + 10)
    } else {
        None
    }
}

/// Whether every character of `s` is a hexadecimal digit.
pub open spec fn all_hex(s: Seq<char>) -> bool {
    forall|i: int| 0 <= i < s.len() ==> (#[trigger] hex_digit(s[i])) is Some
}

/// The value of a run of hexadecimal digits, most significant first.
pub open spec fn hex_value(digits: Seq<char>) -> int
    decreases digits.len(),
{
    if digits.len() == 0 {
        0
    } else {
        hex_value(digits.drop_last()) * 16 + match hex_digit(digits.last()) {
            Some(d) => d,
            None => 0,
        }
    }
}

/// The digits of a hexadecimal numeral: all of it but a leading `+`.
pub open spec fn hex_digits(numeral: Seq<char>) -> Seq<char> {
    if numeral.len() > 0 && numeral[0] == '+' {
        numeral.drop_first()
    } else {
        numeral
    }
}

/// The number that a hexadecimal numeral denotes: an optional `+` and then
/// hexadecimal digits only, with a value of at most 32 bits.
pub open spec fn hex_number(numeral: Seq<char>) -> Option<int> {
    let digits = hex_digits(numeral);
    if digits.len() > 0 && all_hex(digits) && hex_value(digits) <= u32::MAX {
        Some(hex_value(digits))
    } else {
        None
    }
}

/// The colour that a text denotes.
///
/// After the `#` stands a hexadecimal numeral of 3, 6 or 8 characters. Eight
/// give the number of the colour. Six give red, green and blue; the colour
/// is opaque. Three, of value `n`, give the number `n * 0x100100 + 0xff`.
pub open spec fn spec_parse_color(text: Seq<char>) -> Result<Color, ColorError> {
    if text.len() == 0 || text[0] != '#' {
        Err(ColorError::MissingHash)
    } else {
        let numeral = text.drop_first();
        match hex_number(numeral) {
            None => Err(ColorError::InvalidHex),
            Some(n) => if numeral.len() == 3 {
                Ok(color_of(n * 0x10_0100 + 0xff))
            } else if numeral.len() == 6 {
                Ok(color_of(n * 0x100 + 0xff))
            } else if numeral.len() == 8 {
                Ok(color_of(n))
            } else {
                Err(ColorError::WrongLength(numeral.len() as usize))
            },
        }
    }
}

fn hex_of(d: u8) -> (c: char)
    requires
        d < 16,
    ensures
        c == hex_char(d as int),
{
    if d == 0 {
        '0'
    } else if d == 1 {
        '1'
    } else if d == 2 {
        '2'
    } else if d == 3 {
        '3'
    } else if d == 4 {
        '4'
    } else if d == 5 {
        '5'
    } else if d == 6 {
        '6'
    } else if d == 7 {
        '7'
    } else if d == 8 {
        '8'
    } else if d == 9 {
        '9'
    } else if d == 10 {
        'a'
    } else if d == 11 {
        'b'
    } else if d == 12 {
        'c'
    } else if d == 13 {
        'd'
    } else if d == 14 {
        'e'
    } else {
        'f'
    }
}

/// Appends the two hexadecimal digits of `byte` to `buf`.
pub fn push_hex_pair(buf: &mut String, byte: u8)
    ensures
        final(buf)@ == old(buf)@ + hex_pair(byte),
{
    buf.push(hex_of(byte / 16));
    buf.push(hex_of(byte % 16));
    assert(buf@ =~= old(buf)@ + hex_pair(byte));
}

fn digit_value(c: char) -> (d: Option<u32>)
    ensures
        match d {
            Some(v) => hex_digit(c) == Some(v as int) && v < 16,
            None => hex_digit(c) is None,
        },
{
    if '0' <= c && c <= '9' {
        Some(c as u32 - '0' as u32)
    } else if 'a' <= c && c <= 'f' {
        Some(c as u32 - 'a' as u32 + 10)
    } else if 'A' <= c && c <= 'F' {
        Some(c as u32 - 'A' as u32 + 10)
    } else {
        None
    }
}

proof fn lemma_hex_value_grows(digits: Seq<char>, n: int)
    requires
        0 <= n <= digits.len(),
    ensures
        0 <= hex_value(digits.subrange(0, n)) <= hex_value(digits),
    decreases digits.len() - n,
{
    lemma_hex_value_nonnegative(digits.subrange(0, n));
    if n < digits.len() {
        let next = digits.subrange(0, n + 1);
        assert(next.drop_last() =~= digits.subrange(0, n));
        lemma_hex_value_grows(digits, n + 1);
    } else {
        assert(digits.subrange(0, n) =~= digits);
    }
}

proof fn lemma_hex_value_nonnegative(digits: Seq<char>)
    ensures
        0 <= hex_value(digits),
    decreases digits.len(),
{
    if digits.len() > 0 {
        lemma_hex_value_nonnegative(digits.drop_last());
    }
}

/// 16 to the power of `n`.
pub open spec fn sixteen_to(n: nat) -> int
    decreases n,
{
    if n == 0 {
        1
    } else {
        16 * sixteen_to((n - 1) as nat)
    }
}

/// A run of hexadecimal digits is worth less than 16 to the power of its
/// length.
proof fn lemma_hex_value_bound(digits: Seq<char>)
    requires
        all_hex(digits),
    ensures
        0 <= hex_value(digits) < sixteen_to(digits.len()),
    decreases digits.len(),
{
    if digits.len() > 0 {
        let front = digits.drop_last();
        assert forall|i: int| 0 <= i < front.len() implies (#[trigger] hex_digit(front[i]))
            is Some by {
            assert(front[i] == digits[i]);
        }
        lemma_hex_value_bound(front);
        assert(hex_digit(digits[digits.len() - 1]) is Some);
    }
}

/// Decides [`hex_number`].
pub fn parse_hex(numeral: &Vec<char>) -> (number: Option<u32>)
    ensures
        match number {
            Some(n) => hex_number(numeral@) == Some(n as int),
            None => hex_number(numeral@) is None,
        },
{
    let start: usize = if numeral.len() > 0 && numeral[0] == '+' {
        1
    } else {
        0
    };
    let ghost digits = numeral@.subrange(start as int, numeral.len() as int);
    assert(digits =~= hex_digits(numeral@));
    if start == numeral.len() {
        return None;
    }
    let mut value: u32 = 0;
    let mut i: usize = start;
    while i < numeral.len()
        invariant
            start <= i <= numeral.len(),
            digits == numeral@.subrange(start as int, numeral.len() as int),
            digits == hex_digits(numeral@),
            all_hex(digits.subrange(0, i - start)),
            value == hex_value(digits.subrange(0, i - start)),
        decreases numeral.len() - i,
    {
        let ghost seen = digits.subrange(0, i - start);
        let ghost next = digits.subrange(0, i - start + 1);
        assert(next.drop_last() =~= seen);
        assert(next.last() == numeral@[i as int]);
        let d = match digit_value(numeral[i]) {
            Some(d) => d,
            None => {
                assert(hex_digit(digits[i - start]) is None);
                return None;
            },
        };
        proof {
            assert(all_hex(next)) by {
                assert forall|k: int| 0 <= k < next.len() implies (#[trigger] hex_digit(next[k]))
                    is Some by {
                    if k < next.len() - 1 {
                        assert(next[k] == seen[k]);
                    }
                }
            }
            assert(hex_value(next) == value * 16 + d);
        }
        let grown = match value.checked_mul(16) {
            Some(sixteens) => sixteens.checked_add(d),
            None => None,
        };
        match grown {
            Some(v) => {
                value = v;
            },
            None => {
                proof {
                    assert(hex_value(next) > u32::MAX);
                    lemma_hex_value_grows(digits, i - start + 1);
                }
                return None;
            },
        }
        i += 1;
    }
    assert(digits.subrange(0, i - start) =~= digits);
    Some(value)
}

impl Color {
    pub fn new_rgba(r: u8, g: u8, b: u8, a: u8) -> (color: Self)
        ensures
            color == (Color { a, b, g, r }),
    {
        Color { a, b, g, r }
    }

    /// The colour of the number `0xRRGGBBAA`.
    pub fn from_u32(number: u32) -> (color: Self)
        ensures
            color == color_of(number as int),
            color_number(color) == number,
    {
        let r = number >> 24;
        let g = (number >> 16) & 0xff;
        let b = (number >> 8) & 0xff;
        let a = number & 0xff;
        assert(r == number / 0x100_0000 % 0x100 && r < 0x100) by (bit_vector)
            requires
                r == number >> 24,
        ;
        assert(g == number / 0x1_0000 % 0x100 && g < 0x100) by (bit_vector)
            requires
                g == (number >> 16) & 0xff,
        ;
        assert(b == number / 0x100 % 0x100 && b < 0x100) by (bit_vector)
            requires
                b == (number >> 8) & 0xff,
        ;
        assert(a == number % 0x100 && a < 0x100) by (bit_vector)
            requires
                a == number & 0xff,
        ;
        assert(r * 0x100_0000 + g * 0x1_0000 + b * 0x100 + a == number) by (bit_vector)
            requires
                r == number >> 24,
                g == (number >> 16) & 0xff,
                b == (number >> 8) & 0xff,
                a == number & 0xff,
        ;
        Color { r: r as u8, g: g as u8, b: b as u8, a: a as u8 }
    }

    /// The number `0xRRGGBBAA` of the colour.
    pub fn to_u32(self) -> (number: u32)
        ensures
            number == color_number(self),
            color_of(number as int) == self,
    {
        let r = self.r as u32;
        let g = self.g as u32;
        let b = self.b as u32;
        let a = self.a as u32;
        let number = r * 0x100_0000 + g * 0x1_0000 + b * 0x100 + a;
        assert(number / 0x100_0000 % 0x100 == r && number / 0x1_0000 % 0x100 == g && number / 0x100
            % 0x100 == b && number % 0x100 == a) by (bit_vector)
            requires
                r < 0x100,
                g < 0x100,
                b < 0x100,
                a < 0x100,
                number == r * 0x100_0000 + g * 0x1_0000 + b * 0x100 + a,
        ;
        number
    }

    /// The text of the colour: `#` and eight hexadecimal digits.
    pub fn to_string(&self) -> (s: String)
        ensures
            s@ == color_text(*self),
    {
        let mut s = String::new();
        s.push('#');
        push_hex_pair(&mut s, self.r);
        push_hex_pair(&mut s, self.g);
        push_hex_pair(&mut s, self.b);
        push_hex_pair(&mut s, self.a);
        assert(s@ =~= color_text(*self));
        s
    }

    /// The colour that `text` denotes.
    pub fn from_str(text: &str) -> (result: Result<Color, ColorError>)
        ensures
            result == spec_parse_color(text@),
    {
        let chars = chars_of(text);
        if chars.len() == 0 || chars[0] != '#' {
            return Err(ColorError::MissingHash);
        }
        let mut numeral: Vec<char> = Vec::new();
        let mut i: usize = 1;
        while i < chars.len()
            invariant
                1 <= i <= chars@.len(),
                numeral@ == chars@.subrange(1, i as int),
            decreases chars.len() - i,
        {
            numeral.push(chars[i]);
            i += 1;
            assert(numeral@ =~= chars@.subrange(1, i as int));
        }
        assert(numeral@ =~= text@.drop_first());
        let n = match parse_hex(&numeral) {
            Some(n) => n,
            None => {
                return Err(ColorError::InvalidHex);
            },
        };
        proof {
            let digits = hex_digits(numeral@);
            lemma_hex_value_bound(digits);
            reveal_with_fuel(sixteen_to, 7);
            assert(sixteen_to(3) == 0x1000 && sixteen_to(2) == 0x100);
            assert(sixteen_to(6) == 0x100_0000 && sixteen_to(5) == 0x10_0000);
        }
        if numeral.len() == 3 {
            assert(n < 0x1000);
            Ok(Color::from_u32(n * 0x10_0100 + 0xff))
        } else if numeral.len() == 6 {
            assert(n < 0x100_0000);
            Ok(Color::from_u32(n * 0x100 + 0xff))
        } else if numeral.len() == 8 {
            Ok(Color::from_u32(n))
        } else {
            Err(ColorError::WrongLength(numeral.len()))
        }
    }
}

impl Default for Color {
    /// Opaque black.
    fn default() -> (color: Color)
        ensures
            color == (Color { r: 0, g: 0, b: 0, a: 0xff }),
    {
        Color { r: 0, g: 0, b: 0, a: 0xff }
    }
}


impl From<u32> for Color {
    fn from(number: u32) -> (color: Color) {
        Color::from_u32(number)
    }
}

impl vstd::std_specs::convert::FromSpecImpl<u32> for Color {
    open spec fn obeys_from_spec() -> bool {
        true
    }

    open spec fn from_spec(number: u32) -> Color {
        color_of(number as int)
    }
}

impl From<Color> for u32 {
    fn from(color: Color) -> (number: u32) {
        color.to_u32()
    }
}

impl vstd::std_specs::convert::FromSpecImpl<Color> for u32 {
    open spec fn obeys_from_spec() -> bool {
        true
    }

    open spec fn from_spec(color: Color) -> u32 {
        color_number(color) as u32
    }
}

/// What the placeholder `name` of a colour resolves to: `r`, `g`, `b` and
/// `a` to the channels as integers, `rx`, `gx`, `bx` and `ax` to their two
/// hexadecimal digits.
pub open spec fn color_placeholder(color: Color, name: Seq<char>) -> Option<FmtValueView> {
    if name == "r"@ {
        Some(FmtValueView::Int(color.r as int))
    } else if name == "g"@ {
        Some(FmtValueView::Int(color.g as int))
    } else if name == "b"@ {
        Some(FmtValueView::Int(color.b as int))
    } else if name == "a"@ {
        Some(FmtValueView::Int(color.a as int))
    } else if name == "rx"@ {
        Some(FmtValueView::Str(hex_pair(color.r)))
    } else if name == "gx"@ {
        Some(FmtValueView::Str(hex_pair(color.g)))
    } else if name == "bx"@ {
        Some(FmtValueView::Str(hex_pair(color.b)))
    } else if name == "ax"@ {
        Some(FmtValueView::Str(hex_pair(color.a)))
    } else {
        None
    }
}

fn hex_text(byte: u8) -> (value: FmtValue)
    ensures
        value@ == FmtValueView::Str(hex_pair(byte)),
{
    let mut s = String::new();
    push_hex_pair(&mut s, byte);
    assert(s@ =~= hex_pair(byte));
    FmtValue::String(s)
}

impl Format for Color {
    open spec fn spec_typename(&self) -> Seq<char> {
        "color"@
    }

    open spec fn spec_default_fmtstr(&self) -> Seq<char> {
        "#{rx}{gx}{bx}{ax}"@
    }

    open spec fn spec_placeholders(&self) -> Map<Seq<char>, FmtValueView> {
        Map::new(
            |name: Seq<char>| color_placeholder(*self, name) is Some,
            |name: Seq<char>| color_placeholder(*self, name).unwrap(),
        )
    }

    fn typename(&self) -> (name: &'static str) {
        "color"
    }

    fn default_fmtstr(&self) -> (fmtstr: &'static str) {
        "#{rx}{gx}{bx}{ax}"
    }

    fn get_placeholder(&self, name: &str) -> (value: Option<FmtValue>) {
        if same_text(name, "r") {
            Some(FmtValue::Int(self.r as i64))
        } else if same_text(name, "g") {
            Some(FmtValue::Int(self.g as i64))
        } else if same_text(name, "b") {
            Some(FmtValue::Int(self.b as i64))
        } else if same_text(name, "a") {
            Some(FmtValue::Int(self.a as i64))
        } else if same_text(name, "rx") {
            Some(hex_text(self.r))
        } else if same_text(name, "gx") {
            Some(hex_text(self.g))
        } else if same_text(name, "bx") {
            Some(hex_text(self.b))
        } else if same_text(name, "ax") {
            Some(hex_text(self.a))
        } else {
            None
        }
    }
}

/// A hexadecimal digit's character is worth the digit.
proof fn lemma_hex_char(d: int)
    requires
        0 <= d < 16,
    ensures
        hex_digit(hex_char(d)) == Some(d),
        hex_char(d) != '+',
{
}

/// The value of digits with one more digit after them.
proof fn lemma_hex_value_push(digits: Seq<char>, d: int)
    requires
        0 <= d < 16,
    ensures
        hex_value(digits.push(hex_char(d))) == hex_value(digits) * 16 + d,
{
    lemma_hex_char(d);
    assert(digits.push(hex_char(d)).drop_last() =~= digits);
}

/// The text of a colour denotes the colour.
pub proof fn lemma_color_text_parses_back(color: Color)
    ensures
        spec_parse_color(color_text(color)) == Ok::<Color, ColorError>(color),
{
    let text = color_text(color);
    let numeral = text.drop_first();
    let r = color.r as int;
    let g = color.g as int;
    let b = color.b as int;
    let a = color.a as int;
    let d0 = Seq::<char>::empty();
    let d1 = d0.push(hex_char(r / 16));
    let d2 = d1.push(hex_char(r % 16));
    let d3 = d2.push(hex_char(g / 16));
    let d4 = d3.push(hex_char(g % 16));
    let d5 = d4.push(hex_char(b / 16));
    let d6 = d5.push(hex_char(b % 16));
    let d7 = d6.push(hex_char(a / 16));
    let d8 = d7.push(hex_char(a % 16));
    assert(numeral =~= d8);
    lemma_hex_value_push(d0, r / 16);
    lemma_hex_value_push(d1, r % 16);
    lemma_hex_value_push(d2, g / 16);
    lemma_hex_value_push(d3, g % 16);
    lemma_hex_value_push(d4, b / 16);
    lemma_hex_value_push(d5, b % 16);
    lemma_hex_value_push(d6, a / 16);
    lemma_hex_value_push(d7, a % 16);
    lemma_hex_char(r / 16);
    lemma_hex_char(r % 16);
    lemma_hex_char(g / 16);
    lemma_hex_char(g % 16);
    lemma_hex_char(b / 16);
    lemma_hex_char(b % 16);
    lemma_hex_char(a / 16);
    lemma_hex_char(a % 16);
    assert(hex_value(d8) == color_number(color));
    assert(all_hex(d8)) by {
        assert forall|i: int| 0 <= i < d8.len() implies (#[trigger] hex_digit(d8[i])) is Some by {
            if i == 0 {
            } else if i == 1 {
            } else if i == 2 {
            } else if i == 3 {
            } else if i == 4 {
            } else if i == 5 {
            } else if i == 6 {
            } else {
            }
        }
    }
    assert(hex_digits(numeral) == numeral);
    assert(hex_number(numeral) == Some(color_number(color)));
    let n = color_number(color);
    assert(color_of(n) == color) by {
        assert(n / 0x100_0000 % 0x100 == r && n / 0x1_0000 % 0x100 == g && n / 0x100 % 0x100 == b
            && n % 0x100 == a) by (nonlinear_arith)
            requires
                n == r * 0x100_0000 + g * 0x1_0000 + b * 0x100 + a,
                0 <= r < 0x100,
                0 <= g < 0x100,
                0 <= b < 0x100,
                0 <= a < 0x100,
        ;
    }
}

} // verus!
