//! Numbers in text: writing them, reading them, and padding columns.

use vstd::prelude::*;

use crate::text::{chars_of, owned};

verus! {

// ---------------------------------------------------------------------------
// Writing.
// ---------------------------------------------------------------------------
/// The character of a digit below sixteen.
pub open spec fn digit(d: nat) -> char {
    if d < 10 {
        ('0' as u32 + d) as char
    } else {
        ('a' as u32 + d - 10) as char
    }
}

/// A number in base `base`, without leading zeros.
pub open spec fn in_base(n: nat, base: nat) -> Seq<char>
    decreases n,
{
    if base < 2 || n < base {
        seq![digit(n)]
    } else {
        proof {
            assert(n / base < n) by (nonlinear_arith)
                requires
                    2 <= base <= n,
            ;
        }
        in_base(n / base, base).push(digit(n % base))
    }
}

/// A number in decimal.
pub open spec fn dec(n: nat) -> Seq<char> {
    in_base(n, 10)
}

/// A signed number in decimal.
pub open spec fn dec_signed(n: int) -> Seq<char> {
    if n < 0 {
        seq!['-'] + dec((-n) as nat)
    } else {
        dec(n as nat)
    }
}

fn digit_char(d: u64) -> (c: char)
    requires
        d < 16,
    ensures
        c == digit(d as nat),
{
    if d < 10 {
        (48 + d as u8) as char
    } else {
        (87 + d as u8) as char
    }
}

fn write_base(n: u64, base: u64) -> (r: String)
    requires
        base == 10 || base == 16,
    ensures
        r@ == in_base(n as nat, base as nat),
    decreases n,
{
    if n < base {
        let mut r = String::new();
        r.push(digit_char(n));
        assert(r@ =~= seq![digit(n as nat)]);
        r
    } else {
        let mut r = write_base(n / base, base);
        r.push(digit_char(n % base));
        r
    }
}

/// A number in decimal.
pub fn decimal(n: u64) -> (r: String)
    ensures
        r@ == dec(n as nat),
{
    write_base(n, 10)
}

/// A number in hexadecimal.
pub fn hexadecimal(n: u64) -> (r: String)
    ensures
        r@ == in_base(n as nat, 16),
{
    write_base(n, 16)
}

/// A signed number in decimal.
pub fn decimal_signed(n: i32) -> (r: String)
    ensures
        r@ == dec_signed(n as int),
{
    if n < 0 {
        let mut r = String::new();
        r.push('-');
        r.append(decimal((-(n as i64)) as u64).as_str());
        assert(r@ =~= seq!['-'] + dec((-n) as nat));
        r
    } else {
        decimal(n as u64)
    }
}

/// `true` or `false`.
pub open spec fn bool_text(b: bool) -> Seq<char> {
    if b {
        "true"@
    } else {
        "false"@
    }
}

/// `true` or `false`.
pub fn bool_str(b: bool) -> (r: &'static str)
    ensures
        r@ == bool_text(b),
{
    if b {
        "true"
    } else {
        "false"
    }
}

// ---------------------------------------------------------------------------
// Reading.
// ---------------------------------------------------------------------------
/// Why a text is not a number that fits.
#[derive(Debug, Clone, Copy, PartialEq, Eq, Structural)]
pub enum NumberError {
    /// There was nothing to read.
    Empty,
    /// A character is no decimal digit.
    InvalidDigit,
    /// The number is larger than the type can hold.
    TooLarge,
}

/// What a number error says to the user.
pub open spec fn number_error_text(e: NumberError) -> Seq<char> {
    match e {
        NumberError::Empty => "cannot parse integer from empty string"@,
        NumberError::InvalidDigit => "invalid digit found in string"@,
        NumberError::TooLarge => "number too large to fit in target type"@,
    }
}

impl NumberError {
    /// What the error says to the user.
    pub fn message(&self) -> (r: String)
        ensures
            r@ == number_error_text(*self),
    {
        match self {
            NumberError::Empty => owned("cannot parse integer from empty string"),
            NumberError::InvalidDigit => owned("invalid digit found in string"),
            NumberError::TooLarge => owned("number too large to fit in target type"),
        }
    }
}

pub open spec fn is_digit(c: char) -> bool {
    '0' <= c && c <= '9'
}

/// The digits of `s` read from the left after `acc`; the first character that
/// is no digit, or takes the number past `max`, decides the error.
pub open spec fn digits_value(s: Seq<char>, acc: nat, max: nat) -> Result<nat, NumberError>
    decreases s.len(),
{
    if s.len() == 0 {
        Ok(acc)
    } else if !is_digit(s[0]) {
        Err(NumberError::InvalidDigit)
    } else {
        let next = (acc * 10 + (s[0] as u32 - '0' as u32)) as nat;
        if next > max {
            Err(NumberError::TooLarge)
        } else {
            digits_value(s.skip(1), next, max)
        }
    }
}

/// The number that a text stands for: decimal digits, with an optional plus.
pub open spec fn number_value(s: Seq<char>, max: nat) -> Result<nat, NumberError> {
    if s.len() == 0 {
        Err(NumberError::Empty)
    } else if s[0] == '+' && s.len() > 1 {
        digits_value(s.skip(1), 0, max)
    } else {
        digits_value(s, 0, max)
    }
}

fn read_number(s: &str, max: u64) -> (r: Result<u64, NumberError>)
    ensures
        match r {
            Ok(n) => number_value(s@, max as nat) == Ok::<nat, NumberError>(n as nat) && n <= max,
            Err(e) => number_value(s@, max as nat) == Err::<nat, NumberError>(e),
        },
{
    let chars = chars_of(s);
    if chars.len() == 0 {
        return Err(NumberError::Empty);
    }
    let mut i: usize = if chars[0] == '+' && chars.len() > 1 {
        1
    } else {
        0
    };
    let mut acc: u64 = 0;
    assert(chars@.skip(0) =~= chars@);
    while i < chars.len()
        invariant
            i <= chars@.len(),
            chars@ == s@,
            acc <= max,
            number_value(s@, max as nat) == digits_value(chars@.skip(i as int), acc as nat, max as nat),
        decreases chars@.len() - i,
    {
        let c = chars[i];
        let ghost rest = chars@.skip(i as int);
        assert(rest[0] == c);
        if !('0' <= c && c <= '9') {
            return Err(NumberError::InvalidDigit);
        }
        let d: u64 = (c as u32 - 48) as u64;
        let next: u128 = acc as u128 * 10 + d as u128;
        if next > max as u128 {
            return Err(NumberError::TooLarge);
        }
        assert(rest.skip(1) =~= chars@.skip(i + 1));
        acc = next as u64;
        i = i + 1;
    }
    Ok(acc)
}

/// The 32-bit number that a text stands for.
pub open spec fn u32_value(s: Seq<char>) -> Result<u32, NumberError> {
    match number_value(s, u32::MAX as nat) {
        Ok(n) => Ok(n as u32),
        Err(e) => Err(e),
    }
}

/// The 64-bit number that a text stands for.
pub open spec fn u64_value(s: Seq<char>) -> Result<u64, NumberError> {
    match number_value(s, u64::MAX as nat) {
        Ok(n) => Ok(n as u64),
        Err(e) => Err(e),
    }
}

/// The 32-bit number that a text stands for.
pub fn parse_u32(s: &str) -> (r: Result<u32, NumberError>)
    ensures
        r == u32_value(s@),
{
    match read_number(s, u32::MAX as u64) {
        Ok(n) => Ok(n as u32),
        Err(e) => Err(e),
    }
}

/// The 64-bit number that a text stands for.
pub fn parse_u64(s: &str) -> (r: Result<u64, NumberError>)
    ensures
        r == u64_value(s@),
{
    read_number(s, u64::MAX)
}

proof fn lemma_digits_append(s: Seq<char>, c: char, acc: nat, max: nat)
    requires
        is_digit(c),
        digits_value(s, acc, max) is Ok,
    ensures
        ({
            let next = (digits_value(s, acc, max)->Ok_0 * 10 + (c as u32 - '0' as u32)) as nat;
            next <= max ==> digits_value(s.push(c), acc, max) == Ok::<nat, NumberError>(next)
        }),
    decreases s.len(),
{
    let t = s.push(c);
    if s.len() == 0 {
        assert(t.skip(1) =~= Seq::empty());
        assert(t[0] == c);
        reveal_with_fuel(digits_value, 2);
    } else {
        assert(t.skip(1) =~= s.skip(1).push(c));
        assert(t[0] == s[0]);
        let next = (acc * 10 + (s[0] as u32 - '0' as u32)) as nat;
        lemma_digits_append(s.skip(1), c, next, max);
    }
}

proof fn lemma_dec_digits(n: nat, max: nat)
    requires
        n <= max,
    ensures
        digits_value(dec(n), 0, max) == Ok::<nat, NumberError>(n),
        dec(n).len() > 0,
        forall|i: int| 0 <= i < dec(n).len() ==> is_digit(#[trigger] dec(n)[i]),
    decreases n,
{
    if n < 10 {
        assert(dec(n) =~= seq![digit(n)]);
        assert(dec(n).skip(1) =~= Seq::empty());
        reveal_with_fuel(digits_value, 2);
    } else {
        let head = dec(n / 10);
        lemma_dec_digits(n / 10, max);
        lemma_digits_append(head, digit(n % 10), 0, max);
        assert(dec(n) == head.push(digit(n % 10)));
        assert forall|i: int| 0 <= i < dec(n).len() implies is_digit(#[trigger] dec(n)[i]) by {
            if i < head.len() {
                assert(dec(n)[i] == head[i]);
            }
        }
    }
}

/// A decimal text consists of digits and is not empty.
pub proof fn decimal_is_digits(n: nat)
    ensures
        dec(n).len() > 0,
        forall|i: int| 0 <= i < dec(n).len() ==> is_digit(#[trigger] dec(n)[i]),
{
    lemma_dec_digits(n, n);
}

/// Reading what was written gives the number back.
pub proof fn decimal_reads_back(n: u32)
    ensures
        u32_value(dec(n as nat)) == Ok::<u32, NumberError>(n),
{
    lemma_dec_digits(n as nat, u32::MAX as nat);
    assert(is_digit(dec(n as nat)[0]));
}

// ---------------------------------------------------------------------------
// Columns.
// ---------------------------------------------------------------------------
/// `n` spaces.
pub open spec fn spaces(n: nat) -> Seq<char> {
    Seq::new(n, |i: int| ' ')
}

/// The text filled up with spaces on the right to `width` characters.
pub open spec fn padded_right(s: Seq<char>, width: nat) -> Seq<char> {
    if s.len() < width {
        s + spaces((width - s.len()) as nat)
    } else {
        s
    }
}

/// The text filled up with spaces on the left to `width` characters.
pub open spec fn padded_left(s: Seq<char>, width: nat) -> Seq<char> {
    if s.len() < width {
        spaces((width - s.len()) as nat) + s
    } else {
        s
    }
}

fn blank(n: usize) -> (r: String)
    ensures
        r@ == spaces(n as nat),
{
    let mut r = String::new();
    let mut i: usize = 0;
    while i < n
        invariant
            i <= n,
            r@ == spaces(i as nat),
        decreases n - i,
    {
        r.push(' ');
        i = i + 1;
        assert(r@ =~= spaces(i as nat));
    }
    assert(r@ =~= spaces(n as nat));
    r
}

/// The text filled up with spaces on the right to `width` characters.
pub fn pad_right(s: &str, width: usize) -> (r: String)
    ensures
        r@ == padded_right(s@, width as nat),
{
    let n: usize = chars_of(s).len();
    let mut r = owned(s);
    if n < width {
        r.append(blank(width - n).as_str());
    }
    r
}

/// The text filled up with spaces on the left to `width` characters.
pub fn pad_left(s: &str, width: usize) -> (r: String)
    ensures
        r@ == padded_left(s@, width as nat),
{
    let n: usize = chars_of(s).len();
    if n < width {
        let mut r = blank(width - n);
        r.append(s);
        r
    } else {
        owned(s)
    }
}

} // verus!
