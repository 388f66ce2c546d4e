//! Building human-readable messages with exact, checkable contents.

use vstd::prelude::*;
use vstd::string::StrSliceExecFns;

verus! {

/// Decimal digits of a natural number, most significant first.
pub open spec fn decimal_text(n: nat) -> Seq<char>
    decreases n,
{
    if n < 10 {
        seq![digit_char(n)]
    } else {
        decimal_text(n / 10).push(digit_char(n % 10))
    }
}

pub open spec fn digit_char(d: nat) -> char {
    if d == 0 { '0' }
    else if d == 1 { '1' }
    else if d == 2 { '2' }
    else if d == 3 { '3' }
    else if d == 4 { '4' }
    else if d == 5 { '5' }
    else if d == 6 { '6' }
    else if d == 7 { '7' }
    else if d == 8 { '8' }
    else { '9' }
}

/// Decimal text of a signed integer, with a leading minus for negatives.
pub open spec fn signed_text(n: int) -> Seq<char> {
    if n < 0 {
        seq!['-'] + decimal_text((-n) as nat)
    } else {
        decimal_text(n as nat)
    }
}

fn digit(d: u64) -> (c: char)
    requires
        d < 10,
    ensures
        c == digit_char(d as nat),
{
    if d == 0 { '0' }
    else if d == 1 { '1' }
    else if d == 2 { '2' }
    else if d == 3 { '3' }
    else if d == 4 { '4' }
    else if d == 5 { '5' }
    else if d == 6 { '6' }
    else if d == 7 { '7' }
    else if d == 8 { '8' }
    else { '9' }
}

/// Renders `n` in base ten.
pub fn decimal(n: u64) -> (s: String)
    ensures
        s@ == decimal_text(n as nat),
    decreases n,
{
    if n < 10 {
        let mut s = String::new();
        push_char(&mut s, digit(n));
        s
    } else {
        let mut s = decimal(n / 10);
        push_char(&mut s, digit(n % 10));
        s
    }
}

/// Renders a 128-bit `n` in base ten.
pub fn decimal_wide(n: u128) -> (s: String)
    ensures
        s@ == decimal_text(n as nat),
    decreases n,
{
    if n < 10 {
        let mut s = String::new();
        push_char(&mut s, digit((n % 10) as u64));
        s
    } else {
        let mut s = decimal_wide(n / 10);
        push_char(&mut s, digit((n % 10) as u64));
        s
    }
}

/// Upper-case hexadecimal digits of `n`, most significant first.
pub open spec fn hex_text(n: nat) -> Seq<char>
    decreases n,
{
    if n < 16 {
        seq![hex_char(n)]
    } else {
        hex_text(n / 16).push(hex_char(n % 16))
    }
}

pub open spec fn hex_char(d: nat) -> char {
    if d < 10 { digit_char(d) }
    else if d == 10 { 'A' }
    else if d == 11 { 'B' }
    else if d == 12 { 'C' }
    else if d == 13 { 'D' }
    else if d == 14 { 'E' }
    else { 'F' }
}

/// `hex_text(n)` left-padded with zeros to at least `width` digits.
pub open spec fn padded_hex_text(n: nat, width: nat) -> Seq<char> {
    let digits = hex_text(n);
    if digits.len() >= width {
        digits
    } else {
        Seq::new((width - digits.len()) as nat, |i: int| '0') + digits
    }
}

fn hex_digit(d: u32) -> (c: char)
    requires
        d < 16,
    ensures
        c == hex_char(d as nat),
{
    if d < 10 { digit(d as u64) }
    else if d == 10 { 'A' }
    else if d == 11 { 'B' }
    else if d == 12 { 'C' }
    else if d == 13 { 'D' }
    else if d == 14 { 'E' }
    else { 'F' }
}

/// Renders `n` in upper-case base sixteen.
pub fn hex_upper(n: u32) -> (s: String)
    ensures
        s@ == hex_text(n as nat),
    decreases n,
{
    if n < 16 {
        let mut s = String::new();
        push_char(&mut s, hex_digit(n));
        s
    } else {
        let mut s = hex_upper(n / 16);
        push_char(&mut s, hex_digit(n % 16));
        s
    }
}

/// Renders `n` in upper-case base sixteen with at least `width` digits.
pub fn padded_hex_upper(n: u32, width: usize) -> (s: String)
    ensures
        s@ == padded_hex_text(n as nat, width as nat),
{
    let digits = hex_upper(n);
    let len = digits.unicode_len();
    if len >= width {
        return digits;
    }
    let mut s = String::new();
    let mut i: usize = 0;
    while i < width - len
        invariant
            len == digits@.len(),
            len < width,
            i <= width - len,
            s@ == Seq::new(i as nat, |k: int| '0'),
        decreases width - len - i,
    {
        push_char(&mut s, '0');
        proof { assert(s@ =~= Seq::new((i + 1) as nat, |k: int| '0')); }
        i = i + 1;
    }
    s.append(digits.as_str());
    s
}

/// Renders a signed value in base ten.
pub fn signed_decimal(n: i64) -> (s: String)
    ensures
        s@ == signed_text(n as int),
{
    if n < 0 {
        let magnitude: u64 = if n == i64::MIN {
            9223372036854775808u64
        } else {
            (-n) as u64
        };
        proof { reveal_strlit("-"); }
        let mut s = String::from_str("-");
        let digits = decimal(magnitude);
        s.append(digits.as_str());
        s
    } else {
        decimal(n as u64)
    }
}

/// Appends one character.
#[verifier::external_body]
pub(crate) fn push_char(s: &mut String, c: char)
    ensures
        final(s)@ == old(s)@.push(c),
{
    s.push(c);
}

/// Whether two strings hold the same characters.
pub fn str_eq(a: &str, b: &str) -> (r: bool)
    ensures
        r == (a@ == b@),
{
    let x = String::from_str(a);
    let y = String::from_str(b);
    x == y
}

/// `a` followed by `b`.
pub fn cat(a: &str, b: &str) -> (s: String)
    ensures
        s@ == a@ + b@,
{
    let mut s = String::from_str(a);
    s.append(b);
    s
}

/// `a`, `b` and `c` in order.
pub fn cat3(a: &str, b: &str, c: &str) -> (s: String)
    ensures
        s@ == a@ + b@ + c@,
{
    let mut s = String::from_str(a);
    s.append(b);
    s.append(c);
    s
}

} // verus!
