//! Text building blocks: decimal formatting and percent-escaping.
use vstd::prelude::*;
use vstd::string::StringExecFns;

verus! {

/// The character of a decimal digit.
pub open spec fn digit_char(d: nat) -> char
    recommends
        d < 10,
{
    ((d + 48) as u8) as char
}

/// Decimal digits of a natural number, most significant first, no leading zeros.
pub open spec fn decimal_nat(n: nat) -> Seq<char>
    decreases n,
{
    if n < 10 {
        seq![digit_char(n)]
    } else {
        decimal_nat(n / 10).push(digit_char(n % 10))
    }
}

/// Decimal text of an integer, with a leading `-` when negative.
pub open spec fn decimal(i: int) -> Seq<char> {
    if i < 0 {
        seq!['-'] + decimal_nat((-i) as nat)
    } else {
        decimal_nat(i as nat)
    }
}

/// Relies on `String::push`: appends one character.
#[verifier::external_body]
pub(crate) fn push_char(s: &mut String, c: char)
    ensures
        final(s)@ == old(s)@.push(c),
{
    s.push(c)
}

/// Appends the decimal digits of `n`.
pub fn push_decimal(s: &mut String, n: u64)
    ensures
        final(s)@ == old(s)@ + decimal_nat(n as nat),
    decreases n,
{
    if n >= 10 {
        push_decimal(s, n / 10);
    }
    let d = (n % 10) as u8;
    push_char(s, (d + 48) as char);
    proof {
        if n >= 10 {
            assert(decimal_nat(n as nat) == decimal_nat((n / 10) as nat).push(digit_char((n % 10) as nat)));
        }
    }
    assert(final(s)@ =~= old(s)@ + decimal_nat(n as nat));
}

/// Appends the decimal text of `i`.
pub fn push_signed(s: &mut String, i: i64)
    ensures
        final(s)@ == old(s)@ + decimal(i as int),
{
    if i < 0 {
        push_char(s, '-');
        let m: u64 = if i == i64::MIN { 9223372036854775808u64 } else { (-i) as u64 };
        push_decimal(s, m);
        assert(final(s)@ =~= old(s)@ + decimal(i as int));
    } else {
        push_decimal(s, i as u64);
    }
}

/// Decimal text of a 32-bit integer.
pub fn i32_to_string(integer: i32) -> (r: String)
    ensures
        r@ == decimal(integer as int),
{
    let mut s = String::new();
    push_signed(&mut s, integer as i64);
    assert(s@ =~= decimal(integer as int));
    s
}

/// Which bytes a percent-escaping leaves as they are, and the case of its hex digits.
#[derive(Clone, Copy, Debug, PartialEq, Eq, Structural)]
pub enum EscapeStyle {
    /// Keeps ASCII letters and digits only; lower-case hex.
    Component,
    /// Keeps letters, digits, `-`, `.` and `_`; upper-case hex.
    ImagePath,
    /// Keeps letters, digits and the URI punctuation `;,/?:@&=+$-_.!~*'()#`; upper-case hex.
    Uri,
}

pub open spec fn is_alnum(b: u8) -> bool {
    (48 <= b <= 57) || (65 <= b <= 90) || (97 <= b <= 122)
}

pub open spec fn is_uri_mark(b: u8) -> bool {
    b == 59 || b == 44 || b == 47 || b == 63 || b == 58 || b == 64 || b == 38 || b == 61
        || b == 43 || b == 36 || b == 45 || b == 95 || b == 46 || b == 33 || b == 126
        || b == 42 || b == 39 || b == 40 || b == 41 || b == 35
}

/// Whether `style` leaves byte `b` unescaped.
pub open spec fn keeps(style: EscapeStyle, b: u8) -> bool {
    match style {
        EscapeStyle::Component => is_alnum(b),
        EscapeStyle::ImagePath => is_alnum(b) || b == 45 || b == 46 || b == 95,
        EscapeStyle::Uri => is_alnum(b) || is_uri_mark(b),
    }
}

pub open spec fn upper_hex(style: EscapeStyle) -> bool {
    style != EscapeStyle::Component
}

/// The hex digit for `d < 16`.
pub open spec fn hex_char(d: u8, upper: bool) -> char {
    if d < 10 {
        (d + 48) as char
    } else if upper {
        (d + 55) as char
    } else {
        (d + 87) as char
    }
}

/// What one byte becomes: itself, or `%` and two hex digits.
pub open spec fn escaped(style: EscapeStyle, b: u8) -> Seq<char> {
    if keeps(style, b) {
        seq![b as char]
    } else {
        seq!['%', hex_char(b / 16, upper_hex(style)), hex_char(b % 16, upper_hex(style))]
    }
}

/// Every byte of `bytes` escaped in turn.
pub open spec fn percent_encoded(style: EscapeStyle, bytes: Seq<u8>) -> Seq<char>
    decreases bytes.len(),
{
    if bytes.len() == 0 {
        Seq::empty()
    } else {
        percent_encoded(style, bytes.drop_last()) + escaped(style, bytes.last())
    }
}

fn keeps_byte(style: EscapeStyle, b: u8) -> (r: bool)
    ensures
        r == keeps(style, b),
{
    let alnum = (48 <= b && b <= 57) || (65 <= b && b <= 90) || (97 <= b && b <= 122);
    match style {
        EscapeStyle::Component => alnum,
        EscapeStyle::ImagePath => alnum || b == 45 || b == 46 || b == 95,
        EscapeStyle::Uri => alnum || b == 59 || b == 44 || b == 47 || b == 63 || b == 58 || b == 64
            || b == 38 || b == 61 || b == 43 || b == 36 || b == 45 || b == 95 || b == 46 || b == 33
            || b == 126 || b == 42 || b == 39 || b == 40 || b == 41 || b == 35,
    }
}

fn hex_digit(d: u8, upper: bool) -> (r: char)
    requires
        d < 16,
    ensures
        r == hex_char(d, upper),
{
    if d < 10 {
        (d + 48) as char
    } else if upper {
        (d + 55) as char
    } else {
        (d + 87) as char
    }
}

/// Escapes each byte of `bytes` as `style` asks.
pub fn percent_encode(bytes: &[u8], style: EscapeStyle) -> (r: String)
    ensures
        r@ == percent_encoded(style, bytes@),
{
    let mut out = String::new();
    let upper = style != EscapeStyle::Component;
    let mut i: usize = 0;
    while i < bytes.len()
        invariant
            0 <= i <= bytes@.len(),
            upper == upper_hex(style),
            out@ == percent_encoded(style, bytes@.subrange(0, i as int)),
        decreases bytes@.len() - i,
    {
        let b = bytes[i];
        if keeps_byte(style, b) {
            push_char(&mut out, b as char);
        } else {
            push_char(&mut out, '%');
            push_char(&mut out, hex_digit(b / 16, upper));
            push_char(&mut out, hex_digit(b % 16, upper));
        }
        assert(bytes@.subrange(0, i + 1).drop_last() =~= bytes@.subrange(0, i as int));
        i = i + 1;
        assert(out@ =~= percent_encoded(style, bytes@.subrange(0, i as int)));
    }
    assert(bytes@.subrange(0, i as int) =~= bytes@);
    out
}

} // verus!
