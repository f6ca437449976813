//! Hexadecimal digits, numbers and bytes.

use crate::text::chars_of;
use vstd::prelude::*;

verus! {

/// The value of a hexadecimal digit, in either case.
pub open spec fn digit_value(c: char) -> Option<int> {
    if '0' <= c <= '9' {
        Some(c as int - '0' as int)
    } else if 'A' <= c <= 'F' {
        Some(c as int - 'A' as int + 10)
    } else if 'a' <= c <= 'f' {
        Some(c as int - 'a' as int + 10)
    } else {
        None
    }
}

/// The value of a hexadecimal digit, in either case.
pub fn hex_digit(c: char) -> (r: Option<u8>)
    ensures
        match r {
            Some(d) => digit_value(c) == Some(d as int) && d < 16,
            None => digit_value(c) is None,
        },
{
    if '0' <= c && c <= '9' {
        Some((c as u8) - 48)
    } else if 'A' <= c && c <= 'F' {
        Some((c as u8) - 65 + 10)
    } else if 'a' <= c && c <= 'f' {
        Some((c as u8) - 97 + 10)
    } else {
        None
    }
}

/// Every character of `s` is a hexadecimal digit.
pub open spec fn all_digits(s: Seq<char>) -> bool {
    forall|i: int| 0 <= i < s.len() ==> digit_value(#[trigger] s[i]) is Some
}

/// The number that the hexadecimal digits `s` write.
pub open spec fn digits_value(s: Seq<char>) -> int
    decreases s.len(),
{
    if s.len() == 0 {
        0
    } else {
        16 * digits_value(s.drop_last()) + digit_value(s.last()).unwrap_or(0)
    }
}

/// What `s` holds after its sign, for an integer type with or without
/// negative values.
pub open spec fn unsigned_part(s: Seq<char>, negatives: bool) -> Seq<char> {
    if s.len() > 0 && (s[0] == '+' || (negatives && s[0] == '-')) {
        s.drop_first()
    } else {
        s
    }
}

/// The integer in `lo..=hi` that `s` writes in base 16: an optional sign (a
/// minus sign only where the range has negative values), then one or more
/// digits. `None` for any other text and for a number out of range.
pub open spec fn hex_number(s: Seq<char>, lo: int, hi: int) -> Option<int> {
    let digits = unsigned_part(s, lo < 0);
    let value = if lo < 0 && s.len() > 0 && s[0] == '-' {
        -digits_value(digits)
    } else {
        digits_value(digits)
    };
    if digits.len() > 0 && all_digits(digits) && lo <= value <= hi {
        Some(value)
    } else {
        None
    }
}

proof fn digits_value_grows(s: Seq<char>, k: int)
    requires
        0 <= k <= s.len(),
    ensures
        0 <= digits_value(s.take(k)) <= digits_value(s),
    decreases s.len(),
{
    if k == s.len() {
        assert(s.take(k) == s);
        if k > 0 {
            digits_value_grows(s.drop_last(), k - 1);
        }
    } else {
        assert(s.drop_last().take(k) == s.take(k));
        digits_value_grows(s.drop_last(), k);
    }
}

/// The integer in `-below..=above` that `s` writes in base 16.
fn hex_integer(s: &str, below: u64, above: u64) -> (r: Option<i64>)
    requires
        0 < below <= 0x8000_0000_0000_0000,
        above < 0x8000_0000_0000_0000,
    ensures
        match r {
            Some(v) => hex_number(s@, -(below as int), above as int) == Some(v as int),
            None => hex_number(s@, -(below as int), above as int) is None,
        },
{
    let all = chars_of(s);
    let negative = all.len() > 0 && all[0] == '-';
    let start: usize = if all.len() > 0 && (all[0] == '+' || all[0] == '-') { 1 } else { 0 };
    let limit: u64 = if negative { below } else { above };
    let ghost digits = unsigned_part(s@, true);
    if all.len() == start {
        return None;
    }
    let mut value: u128 = 0;
    let mut i: usize = start;
    while i < all.len()
        invariant
            start <= 1,
            start <= i <= all.len(),
            all@ == s@,
            digits == all@.skip(start as int),
            value == digits_value(digits.take(i - start)),
            value <= limit,
            limit == (if negative { below } else { above }),
            negative == (s@.len() > 0 && s@[0] == '-'),
            digits == unsigned_part(s@, true),
            forall|k: int| 0 <= k < i - start ==> digit_value(#[trigger] digits[k]) is Some,
        decreases all.len() - i,
    {
        let ghost k = i - start;
        assert(digits[k] == all@[i as int]);
        match hex_digit(all[i]) {
            None => {
                assert(digit_value(digits[k]) is None);
                return None;
            },
            Some(d) => {
                assert(digits.take(k + 1).drop_last() == digits.take(k));
                let next: u128 = value * 16 + d as u128;
                if next > limit as u128 {
                    proof {
                        digits_value_grows(digits, k + 1);
                    }
                    return None;
                }
                value = next;
            },
        }
        i = i + 1;
    }
    assert(digits.take(digits.len() as int) == digits);
    if negative {
        if value == 0x8000_0000_0000_0000 {
            Some(i64::MIN)
        } else {
            Some(-(value as i64))
        }
    } else {
        Some(value as i64)
    }
}

/// The `i64` that `s` writes in base 16.
pub fn parse_i64(s: &str) -> (r: Option<i64>)
    ensures
        match r {
            Some(v) => hex_number(s@, i64::MIN as int, i64::MAX as int) == Some(v as int),
            None => hex_number(s@, i64::MIN as int, i64::MAX as int) is None,
        },
{
    hex_integer(s, 0x8000_0000_0000_0000, 0x7FFF_FFFF_FFFF_FFFF)
}

/// The `i32` that `s` writes in base 16.
pub fn parse_i32(s: &str) -> (r: Option<i32>)
    ensures
        match r {
            Some(v) => hex_number(s@, i32::MIN as int, i32::MAX as int) == Some(v as int),
            None => hex_number(s@, i32::MIN as int, i32::MAX as int) is None,
        },
{
    match hex_integer(s, 0x8000_0000, 0x7FFF_FFFF) {
        Some(v) => Some(v as i32),
        None => None,
    }
}

/// Why a text is no byte in base 16.
#[derive(Debug, Clone, Copy, PartialEq, Eq, Structural)]
pub enum HexError {
    Empty,
    InvalidDigit,
    TooLarge,
}

impl HexError {
    /// The error in words.
    pub open spec fn text(self) -> Seq<char> {
        match self {
            HexError::Empty => "cannot parse integer from empty string"@,
            HexError::InvalidDigit => "invalid digit found in string"@,
            HexError::TooLarge => "number too large to fit in target type"@,
        }
    }

    /// The error in words.
    pub fn message(self) -> (r: &'static str)
        ensures
            r@ == self.text(),
    {
        match self {
            HexError::Empty => "cannot parse integer from empty string",
            HexError::InvalidDigit => "invalid digit found in string",
            HexError::TooLarge => "number too large to fit in target type",
        }
    }
}

/// The byte that the digits `s` write, or what is wrong with the first
/// character that rules a byte out.
pub open spec fn byte_digits(s: Seq<char>) -> Result<u8, HexError>
    decreases s.len(),
{
    if s.len() == 0 {
        Ok(0)
    } else {
        match byte_digits(s.drop_last()) {
            Err(e) => Err(e),
            Ok(v) => match digit_value(s.last()) {
                None => Err(HexError::InvalidDigit),
                Some(d) => if 16 * v + d > 255 {
                    Err(HexError::TooLarge)
                } else {
                    Ok((16 * v + d) as u8)
                },
            },
        }
    }
}

/// The byte that `s` writes in base 16: an optional plus sign, then one or
/// more digits.
pub open spec fn hex_byte(s: Seq<char>) -> Result<u8, HexError> {
    let digits = unsigned_part(s, false);
    if s.len() == 0 {
        Err(HexError::Empty)
    } else if digits.len() == 0 {
        Err(HexError::InvalidDigit)
    } else {
        byte_digits(digits)
    }
}

proof fn byte_digits_error_stays(s: Seq<char>, k: int)
    requires
        0 <= k <= s.len(),
        byte_digits(s.take(k)) is Err,
    ensures
        byte_digits(s) == byte_digits(s.take(k)),
    decreases s.len(),
{
    if k == s.len() {
        assert(s.take(k) == s);
    } else {
        assert(s.drop_last().take(k) == s.take(k));
        byte_digits_error_stays(s.drop_last(), k);
    }
}

/// The byte that `s` writes in base 16.
pub fn parse_u8(s: &str) -> (r: Result<u8, HexError>)
    ensures
        r == hex_byte(s@),
{
    let all = chars_of(s);
    if all.len() == 0 {
        return Err(HexError::Empty);
    }
    let start: usize = if all[0] == '+' { 1 } else { 0 };
    if all.len() == start {
        return Err(HexError::InvalidDigit);
    }
    let ghost digits = unsigned_part(s@, false);
    let mut value: u8 = 0;
    let mut i: usize = start;
    while i < all.len()
        invariant
            start <= 1,
            start <= i <= all.len(),
            digits == all@.skip(start as int),
            byte_digits(digits.take(i - start)) == Ok::<u8, HexError>(value),
            hex_byte(s@) == byte_digits(digits),
        decreases all.len() - i,
    {
        let ghost k = i - start;
        assert(digits[k] == all@[i as int]);
        assert(digits.take(k + 1).drop_last() == digits.take(k));
        match hex_digit(all[i]) {
            None => {
                proof {
                    byte_digits_error_stays(digits, k + 1);
                }
                return Err(HexError::InvalidDigit);
            },
            Some(d) => {
                let next: u32 = value as u32 * 16 + d as u32;
                if next > 255 {
                    proof {
                        byte_digits_error_stays(digits, k + 1);
                    }
                    return Err(HexError::TooLarge);
                }
                value = next as u8;
            },
        }
        i = i + 1;
    }
    assert(digits.take(digits.len() as int) == digits);
    Ok(value)
}

/// The upper-case hexadecimal digit for a value below 16.
pub open spec fn digit_of(n: int) -> char {
    if n == 0 { '0' } else if n == 1 { '1' } else if n == 2 { '2' } else if n == 3 { '3' }
    else if n == 4 { '4' } else if n == 5 { '5' } else if n == 6 { '6' } else if n == 7 { '7' }
    else if n == 8 { '8' } else if n == 9 { '9' } else if n == 10 { 'A' } else if n == 11 { 'B' }
    else if n == 12 { 'C' } else if n == 13 { 'D' } else if n == 14 { 'E' } else { 'F' }
}

/// The upper-case hexadecimal digit for a value below 16.
pub fn hex_char(n: u8) -> (c: char)
    requires
        n < 16,
    ensures
        c == digit_of(n as int),
{
    match n {
        0 => '0',
        1 => '1',
        2 => '2',
        3 => '3',
        4 => '4',
        5 => '5',
        6 => '6',
        7 => '7',
        8 => '8',
        9 => '9',
        10 => 'A',
        11 => 'B',
        12 => 'C',
        13 => 'D',
        14 => 'E',
        _ => 'F',
    }
}

/// A byte as two upper-case hexadecimal digits.
pub open spec fn byte_text(b: u8) -> Seq<char> {
    seq![digit_of(b as int / 16), digit_of(b as int % 16)]
}

/// A number below 65536 as four upper-case hexadecimal digits.
pub open spec fn word_text(n: int) -> Seq<char> {
    seq![
        digit_of(n / 4096),
        digit_of(n / 256 % 16),
        digit_of(n / 16 % 16),
        digit_of(n % 16),
    ]
}

/// Appends a byte as two upper-case hexadecimal digits.
pub fn push_byte_text(out: &mut String, b: u8)
    ensures
        final(out)@ == old(out)@ + byte_text(b),
{
    out.push(hex_char(b / 16));
    out.push(hex_char(b % 16));
}

/// A number as four upper-case hexadecimal digits.
pub fn word_hex(n: u16) -> (r: String)
    ensures
        r@ == word_text(n as int),
{
    let mut out = String::new();
    out.push(hex_char((n / 4096) as u8));
    out.push(hex_char((n / 256 % 16) as u8));
    out.push(hex_char((n / 16 % 16) as u8));
    out.push(hex_char((n % 16) as u8));
    out
}

/// A byte's two digits read back as that byte.
pub proof fn byte_text_reads_back(b: u8)
    ensures
        hex_byte(byte_text(b)) == Ok::<u8, HexError>(b),
{
    let s = byte_text(b);
    reveal_with_fuel(byte_digits, 3);
    assert(s.drop_last().drop_last() == Seq::<char>::empty());
    assert(s.drop_last().last() == s[0]);
    assert(s.last() == s[1]);
}

/// A text that is a byte is also that number in every wider range.
pub proof fn byte_is_number(s: Seq<char>)
    requires
        hex_byte(s) is Ok,
    ensures
        hex_number(s, i32::MIN as int, i32::MAX as int) == Some(hex_byte(s)->Ok_0 as int),
{
    assert(s[0] != '-') by {
        if s[0] == '-' {
            assert(s.take(1).drop_last() == Seq::<char>::empty());
            assert(s.take(1).last() == '-');
            byte_digits_error_stays(s, 1);
        }
    }
    byte_digits_is_value(unsigned_part(s, false));
}

proof fn byte_digits_is_value(s: Seq<char>)
    requires
        byte_digits(s) is Ok,
    ensures
        all_digits(s),
        digits_value(s) == byte_digits(s)->Ok_0,
    decreases s.len(),
{
    if s.len() > 0 {
        byte_digits_is_value(s.drop_last());
        assert forall|i: int| 0 <= i < s.len() implies digit_value(#[trigger] s[i]) is Some by {
            if i < s.len() - 1 {
                assert(s.drop_last()[i] == s[i]);
            }
        }
    }
}

} // verus!
