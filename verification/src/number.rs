//! Decimal numbers, held as the text that the decimal backend prints for them.
//!
//! The arithmetic itself is done by the `decimal` crate, on its 128-bit
//! decimal type `d128`. A [`Number`] keeps the text that `d128` prints; every
//! operation reads its operands back with `d128::from_str`, lets `d128`
//! compute, and keeps the text of the result. What `d128` computes is not
//! restated here: each of its operations has a name, and the contracts below
//! say which name a result carries. `d128` works in one fixed context (34
//! digits, rounding half to even, no traps), so the same operands give the
//! same result.
use decimal::d128;
use std::ops::{Add, Div, Mul, Rem, Sub};
use std::str::FromStr;
use vstd::prelude::*;
use vstd::std_specs::ops::{AddSpecImpl, DivSpecImpl, MulSpecImpl, RemSpecImpl, SubSpecImpl};

verus! {

/// The text that the backend prints for the number it reads from `s`.
pub uninterp spec fn decimal_text(s: Seq<char>) -> Seq<char>;

/// The text of the backend's sum of the numbers it reads from `a` and `b`.
pub uninterp spec fn decimal_sum(a: Seq<char>, b: Seq<char>) -> Seq<char>;

/// The text of the backend's difference `a - b`.
pub uninterp spec fn decimal_difference(a: Seq<char>, b: Seq<char>) -> Seq<char>;

/// The text of the backend's product of `a` and `b`.
pub uninterp spec fn decimal_product(a: Seq<char>, b: Seq<char>) -> Seq<char>;

/// The text of the backend's quotient `a / b`.
pub uninterp spec fn decimal_quotient(a: Seq<char>, b: Seq<char>) -> Seq<char>;

/// The text of the backend's remainder `a % b`.
pub uninterp spec fn decimal_remainder(a: Seq<char>, b: Seq<char>) -> Seq<char>;

/// The 32-bit integer that the backend converts the number read from `a` to.
pub uninterp spec fn decimal_integer(a: Seq<char>) -> int;

/// Whether the backend finds the numbers read from `a` and `b` equal.
pub uninterp spec fn decimal_equal(a: Seq<char>, b: Seq<char>) -> bool;

/// Whether the backend finds the number read from `a` less than that from `b`.
pub uninterp spec fn decimal_less(a: Seq<char>, b: Seq<char>) -> bool;

/// Whether the backend finds the number read from `a` greater than that from `b`.
pub uninterp spec fn decimal_greater(a: Seq<char>, b: Seq<char>) -> bool;

/// Calls `d128::from_str` and prints what it read with `d128`'s `Display`.
/// `d128::from_str` reports no error: text that is no number reads as NaN.
/// Claimed: the result is the backend's text for `s`, the same on every call.
#[verifier::external_body]
fn string_to_backend_number(s: &str) -> (r: String)
    ensures
        r@ == decimal_text(s@),
{
    d128::from_str(s).unwrap_or_default().to_string()
}

/// Reads `a` with `d128::from_str` and calls `d128`'s conversion into
/// `i32`, which rounds half to even.
/// Claimed: the result is the backend's integer for `a`.
#[verifier::external_body]
fn backend_number_to_i32(a: &str) -> (r: i32)
    ensures
        r as int == decimal_integer(a@),
{
    d128::from_str(a).unwrap_or_default().into()
}

/// Reads `a` and `b` with `d128::from_str`, calls `d128`'s `+` and prints
/// the result with `d128`'s `Display`.
/// Claimed: the result is the backend's text for the sum.
#[verifier::external_body]
fn backend_add(a: &str, b: &str) -> (r: String)
    ensures
        r@ == decimal_sum(a@, b@),
{
    let x = d128::from_str(a).unwrap_or_default();
    let y = d128::from_str(b).unwrap_or_default();
    (x + y).to_string()
}

/// Reads `a` and `b` with `d128::from_str`, calls `d128`'s `-` and prints
/// the result with `d128`'s `Display`.
/// Claimed: the result is the backend's text for `a - b`.
#[verifier::external_body]
fn backend_sub(a: &str, b: &str) -> (r: String)
    ensures
        r@ == decimal_difference(a@, b@),
{
    let x = d128::from_str(a).unwrap_or_default();
    let y = d128::from_str(b).unwrap_or_default();
    (x - y).to_string()
}

/// Reads `a` and `b` with `d128::from_str`, calls `d128`'s `*` and prints
/// the result with `d128`'s `Display`.
/// Claimed: the result is the backend's text for the product.
#[verifier::external_body]
fn backend_mul(a: &str, b: &str) -> (r: String)
    ensures
        r@ == decimal_product(a@, b@),
{
    let x = d128::from_str(a).unwrap_or_default();
    let y = d128::from_str(b).unwrap_or_default();
    (x * y).to_string()
}

/// Reads `a` and `b` with `d128::from_str`, calls `d128`'s `/` and prints
/// the result with `d128`'s `Display`. The backend answers a division by
/// zero with a value of its own, not with a panic.
/// Claimed: the result is the backend's text for `a / b`.
#[verifier::external_body]
fn backend_div(a: &str, b: &str) -> (r: String)
    ensures
        r@ == decimal_quotient(a@, b@),
{
    let x = d128::from_str(a).unwrap_or_default();
    let y = d128::from_str(b).unwrap_or_default();
    (x / y).to_string()
}

/// Reads `a` and `b` with `d128::from_str`, calls `d128`'s `%` and prints
/// the result with `d128`'s `Display`.
/// Claimed: the result is the backend's text for `a % b`.
#[verifier::external_body]
fn backend_rem(a: &str, b: &str) -> (r: String)
    ensures
        r@ == decimal_remainder(a@, b@),
{
    let x = d128::from_str(a).unwrap_or_default();
    let y = d128::from_str(b).unwrap_or_default();
    (x % y).to_string()
}

/// Reads `a` and `b` with `d128::from_str` and calls `d128`'s `==`.
/// Claimed: the result is the backend's verdict.
#[verifier::external_body]
fn backend_eq(a: &str, b: &str) -> (r: bool)
    ensures
        r == decimal_equal(a@, b@),
{
    let x = d128::from_str(a).unwrap_or_default();
    let y = d128::from_str(b).unwrap_or_default();
    x == y
}

/// Reads `a` and `b` with `d128::from_str` and calls `d128`'s `<`.
/// Claimed: the result is the backend's verdict.
#[verifier::external_body]
fn backend_lt(a: &str, b: &str) -> (r: bool)
    ensures
        r == decimal_less(a@, b@),
{
    let x = d128::from_str(a).unwrap_or_default();
    let y = d128::from_str(b).unwrap_or_default();
    x < y
}

/// Reads `a` and `b` with `d128::from_str` and calls `d128`'s `>`.
/// Claimed: the result is the backend's verdict.
#[verifier::external_body]
fn backend_gt(a: &str, b: &str) -> (r: bool)
    ensures
        r == decimal_greater(a@, b@),
{
    let x = d128::from_str(a).unwrap_or_default();
    let y = d128::from_str(b).unwrap_or_default();
    x > y
}

/// Calls `char::from_u32`, which gives the character with the given code.
/// Claimed, as documented: there is one exactly for the codes up to
/// `0x10FFFF` that are no surrogates.
#[verifier::external_body]
fn char_from_code(code: u32) -> (r: Option<char>)
    ensures
        r.is_some() == is_scalar(code as int),
        r.is_some() ==> r.unwrap() as int == code as int,
{
    char::from_u32(code)
}

/// Calls `String::push`. Claimed, as documented: the string afterwards is
/// the string before with the character at its end.
#[verifier::external_body]
pub(crate) fn push_char(s: &mut String, c: char)
    ensures
        final(s)@ == old(s)@.push(c),
{
    s.push(c)
}

/// The decimal digits of `n`, most significant first; `"0"` for zero.
pub open spec fn decimal_digits(n: nat) -> Seq<char>
    decreases n,
{
    if n < 10 {
        seq![digit_char(n)]
    } else {
        decimal_digits(n / 10).push(digit_char(n % 10))
    }
}

/// The character of one decimal digit.
pub open spec fn digit_char(d: nat) -> char {
    if d == 0 {
        '0'
    } else if d == 1 {
        '1'
    } else if d == 2 {
        '2'
    } else if d == 3 {
        '3'
    } else if d == 4 {
        '4'
    } else if d == 5 {
        '5'
    } else if d == 6 {
        '6'
    } else if d == 7 {
        '7'
    } else if d == 8 {
        '8'
    } else {
        '9'
    }
}

/// The position that an integer of the backend stands for: itself where it
/// is not negative, else wrapped around the top of `usize`.
pub open spec fn position_of_integer(v: int) -> int {
    if v >= 0 {
        v
    } else {
        usize::MAX + 1 + v
    }
}

/// Whether an integer is the code of a character.
pub open spec fn is_scalar(v: int) -> bool {
    0 <= v <= 0xD7FF || 0xE000 <= v <= 0x10FFFF
}

/// The character that an integer of the backend stands for: the one with
/// that code, or, where no character has that code, the one whose code is
/// the integer's lowest byte.
pub open spec fn char_of_integer(v: int) -> char {
    if is_scalar(v) {
        v as char
    } else {
        (v % 256) as u8 as char
    }
}

fn digit_of(d: u32) -> (c: char)
    requires
        d < 10,
    ensures
        c == digit_char(d as nat),
{
    if d == 0 {
        '0'
    } else if d == 1 {
        '1'
    } else if d == 2 {
        '2'
    } else if d == 3 {
        '3'
    } else if d == 4 {
        '4'
    } else if d == 5 {
        '5'
    } else if d == 6 {
        '6'
    } else if d == 7 {
        '7'
    } else if d == 8 {
        '8'
    } else {
        '9'
    }
}

/// Writes `n` in decimal digits.
pub fn digits_of(n: u32) -> (r: String)
    ensures
        r@ == decimal_digits(n as nat),
    decreases n,
{
    if n < 10 {
        let mut s = String::new();
        push_char(&mut s, digit_of(n));
        s
    } else {
        let mut s = digits_of(n / 10);
        push_char(&mut s, digit_of(n % 10));
        s
    }
}

/// A decimal number. Its view is the text that the backend prints for it.
#[derive(Debug)]
pub struct Number {
    text: String,
}

impl View for Number {
    type V = Seq<char>;

    closed spec fn view(&self) -> Seq<char> {
        self.text@
    }
}

impl Clone for Number {
    fn clone(&self) -> (r: Self)
        ensures
            r@ == self@,
    {
        Number { text: self.text.clone() }
    }
}

impl Number {
    /// Reads a number from text.
    pub fn from_str(s: &str) -> (r: Self)
        ensures
            r@ == decimal_text(s@),
    {
        Number { text: string_to_backend_number(s) }
    }

    /// The number that stands for the character `c`: its code, read by the backend.
    pub fn from_char(c: char) -> (r: Self)
        ensures
            r@ == decimal_text(decimal_digits(c as nat)),
    {
        let digits = digits_of(c as u32);
        Number::from_str(digits.as_str())
    }

    /// The backend's 32-bit integer for this number.
    pub fn to_i32(&self) -> (r: i32)
        ensures
            r as int == decimal_integer(self@),
    {
        backend_number_to_i32(self.text.as_str())
    }

    /// The position that this number stands for.
    pub fn to_usize(&self) -> (r: usize)
        ensures
            r as int == position_of_integer(decimal_integer(self@)),
    {
        let v: i32 = self.to_i32();
        if v >= 0 {
            v as usize
        } else {
            let below: i32 = -(v + 1);
            usize::MAX - (below as usize)
        }
    }

    /// The character that this number stands for.
    pub fn to_char(&self) -> (c: char)
        ensures
            c == char_of_integer(decimal_integer(self@)),
    {
        let v: i32 = self.to_i32();
        if v >= 0 {
            match char_from_code(v as u32) {
                Some(c) => {
                    return c;
                },
                None => {},
            }
        }
        let low: i32 = v & 0xff;
        assert(low as int == (v as int) % 256 && 0 <= low < 256) by (bit_vector)
            requires
                low == v & 0xff,
        ;
        let byte: u8 = low as u8;
        byte as char
    }

    /// The backend's integer for this number, wrapped around the top of `u128`
    /// where it is negative.
    pub fn to_u128(&self) -> (r: u128)
        ensures
            r as int == (if decimal_integer(self@) >= 0 {
                decimal_integer(self@)
            } else {
                u128::MAX + 1 + decimal_integer(self@)
            }),
    {
        let v: i32 = self.to_i32();
        if v >= 0 {
            v as u128
        } else {
            let below: i32 = -(v + 1);
            u128::MAX - (below as u128)
        }
    }

    /// The same number again.
    pub fn unwrap(&self) -> (r: Self)
        ensures
            r@ == self@,
    {
        self.clone()
    }

    /// The text of this number.
    pub fn to_text(&self) -> (r: String)
        ensures
            r@ == self@,
    {
        self.text.clone()
    }

    /// Whether the backend finds the two numbers equal.
    pub fn equals(&self, other: &Number) -> (r: bool)
        ensures
            r == decimal_equal(self@, other@),
    {
        backend_eq(self.text.as_str(), other.text.as_str())
    }

    /// Whether the backend finds this number less than the other.
    pub fn less_than(&self, other: &Number) -> (r: bool)
        ensures
            r == decimal_less(self@, other@),
    {
        backend_lt(self.text.as_str(), other.text.as_str())
    }

    /// Whether the backend finds this number greater than the other.
    pub fn greater_than(&self, other: &Number) -> (r: bool)
        ensures
            r == decimal_greater(self@, other@),
    {
        backend_gt(self.text.as_str(), other.text.as_str())
    }
}

impl Add for Number {
    type Output = Number;

    fn add(self, rhs: Number) -> (r: Number)
        ensures
            r@ == decimal_sum(self@, rhs@),
    {
        Number { text: backend_add(self.text.as_str(), rhs.text.as_str()) }
    }
}

/// What `add` returns is stated in its contract, over the texts of the
/// numbers; nothing is claimed of the operator inside specifications.
impl AddSpecImpl for Number {
    open spec fn obeys_add_spec() -> bool {
        false
    }

    open spec fn add_req(self, rhs: Number) -> bool {
        true
    }

    open spec fn add_spec(self, rhs: Number) -> Number {
        self
    }
}

impl Sub for Number {
    type Output = Number;

    fn sub(self, rhs: Number) -> (r: Number)
        ensures
            r@ == decimal_difference(self@, rhs@),
    {
        Number { text: backend_sub(self.text.as_str(), rhs.text.as_str()) }
    }
}

/// What `sub` returns is stated in its contract, over the texts of the
/// numbers; nothing is claimed of the operator inside specifications.
impl SubSpecImpl for Number {
    open spec fn obeys_sub_spec() -> bool {
        false
    }

    open spec fn sub_req(self, rhs: Number) -> bool {
        true
    }

    open spec fn sub_spec(self, rhs: Number) -> Number {
        self
    }
}

impl Mul for Number {
    type Output = Number;

    fn mul(self, rhs: Number) -> (r: Number)
        ensures
            r@ == decimal_product(self@, rhs@),
    {
        Number { text: backend_mul(self.text.as_str(), rhs.text.as_str()) }
    }
}

/// What `mul` returns is stated in its contract, over the texts of the
/// numbers; nothing is claimed of the operator inside specifications.
impl MulSpecImpl for Number {
    open spec fn obeys_mul_spec() -> bool {
        false
    }

    open spec fn mul_req(self, rhs: Number) -> bool {
        true
    }

    open spec fn mul_spec(self, rhs: Number) -> Number {
        self
    }
}

impl Div for Number {
    type Output = Number;

    fn div(self, rhs: Number) -> (r: Number)
        ensures
            r@ == decimal_quotient(self@, rhs@),
    {
        Number { text: backend_div(self.text.as_str(), rhs.text.as_str()) }
    }
}

/// What `div` returns is stated in its contract, over the texts of the
/// numbers; nothing is claimed of the operator inside specifications.
impl DivSpecImpl for Number {
    open spec fn obeys_div_spec() -> bool {
        false
    }

    open spec fn div_req(self, rhs: Number) -> bool {
        true
    }

    open spec fn div_spec(self, rhs: Number) -> Number {
        self
    }
}

impl Rem for Number {
    type Output = Number;

    fn rem(self, rhs: Number) -> (r: Number)
        ensures
            r@ == decimal_remainder(self@, rhs@),
    {
        Number { text: backend_rem(self.text.as_str(), rhs.text.as_str()) }
    }
}

/// What `rem` returns is stated in its contract, over the texts of the
/// numbers; nothing is claimed of the operator inside specifications.
impl RemSpecImpl for Number {
    open spec fn obeys_rem_spec() -> bool {
        false
    }

    open spec fn rem_req(self, rhs: Number) -> bool {
        true
    }

    open spec fn rem_spec(self, rhs: Number) -> Number {
        self
    }
}

} // verus!
