//! Decimal integers in text.

use vstd::prelude::*;

verus! {

/// The value of a decimal digit.
pub open spec fn ten_digit(c: char) -> Option<int> {
    if '0' <= c <= '9' {
        Some(c as int - '0' as int)
    } else {
        None
    }
}

/// The number that the decimal digits `s` write.
pub open spec fn ten_value(s: Seq<char>) -> int
    decreases s.len(),
{
    if s.len() == 0 {
        0
    } else {
        10 * ten_value(s.drop_last()) + ten_digit(s.last()).unwrap_or(0)
    }
}

/// What `s` holds after its sign.
pub open spec fn after_sign(s: Seq<char>) -> Seq<char> {
    if s.len() > 0 && (s[0] == '+' || s[0] == '-') {
        s.drop_first()
    } else {
        s
    }
}

/// The `i64` that `s` writes: an optional sign, then one or more digits.
/// `None` for any other text and for a number out of range.
pub open spec fn decimal_number(s: Seq<char>) -> Option<int> {
    let digits = after_sign(s);
    let value = if s.len() > 0 && s[0] == '-' {
        -ten_value(digits)
    } else {
        ten_value(digits)
    };
    if digits.len() > 0 && (forall|i: int|
        0 <= i < digits.len() ==> ten_digit(#[trigger] digits[i]) is Some) && i64::MIN <= value
        <= i64::MAX {
        Some(value)
    } else {
        None
    }
}

proof fn ten_value_grows(s: Seq<char>, k: int)
    requires
        0 <= k <= s.len(),
    ensures
        0 <= ten_value(s.take(k)) <= ten_value(s),
    decreases s.len(),
{
    if k == s.len() {
        assert(s.take(k) =~= s);
        if k > 0 {
            ten_value_grows(s.drop_last(), k - 1);
        }
    } else {
        assert(s.drop_last().take(k) =~= s.take(k));
        ten_value_grows(s.drop_last(), k);
    }
}

/// The `i64` that the characters write.
pub fn parse_decimal(chars: &[char]) -> (r: Option<i64>)
    ensures
        match r {
            Some(v) => decimal_number(chars@) == Some(v as int),
            None => decimal_number(chars@) is None,
        },
{
    let negative = chars.len() > 0 && chars[0] == '-';
    let start: usize = if chars.len() > 0 && (chars[0] == '+' || chars[0] == '-') { 1 } else { 0 };
    if chars.len() == start {
        return None;
    }
    let limit: u128 = if negative { 0x8000_0000_0000_0000 } else { 0x7FFF_FFFF_FFFF_FFFF };
    let ghost digits = after_sign(chars@);
    let mut value: u128 = 0;
    let mut i: usize = start;
    while i < chars.len()
        invariant
            start <= 1,
            start <= i <= chars@.len(),
            digits == chars@.skip(start as int),
            digits == after_sign(chars@),
            value == ten_value(digits.take(i - start)),
            value <= limit <= 0x8000_0000_0000_0000,
            limit == (if negative { 0x8000_0000_0000_0000u128 } else { 0x7FFF_FFFF_FFFF_FFFFu128 }),
            negative == (chars@.len() > 0 && chars@[0] == '-'),
            forall|k: int| 0 <= k < i - start ==> ten_digit(#[trigger] digits[k]) is Some,
        decreases chars@.len() - i,
    {
        let ghost k = i - start;
        let c = chars[i];
        assert(digits[k] == c);
        if !('0' <= c && c <= '9') {
            assert(ten_digit(digits[k]) is None);
            return None;
        }
        assert(digits.take(k + 1).drop_last() =~= digits.take(k));
        let next: u128 = value * 10 + ((c as u8) - 48) as u128;
        if next > limit {
            proof {
                ten_value_grows(digits, k + 1);
            }
            return None;
        }
        value = next;
        i = i + 1;
    }
    assert(digits.take(digits.len() as int) =~= digits);
    if negative {
        if value == 0x8000_0000_0000_0000 {
            Some(i64::MIN)
        } else {
            Some(-(value as i64))
        }
    } else {
        Some(value as i64)
    }
}

/// An integer in decimal reads back as that integer.
pub proof fn decimal_reads_back(n: int)
    requires
        i64::MIN <= n <= i64::MAX,
    ensures
        decimal_number(crate::text::int_text(n)) == Some(n),
{
    let magnitude = if n < 0 { (-n) as nat } else { n as nat };
    digits_read_back(magnitude);
    let digits = crate::text::nat_text(magnitude);
    if n < 0 {
        assert(crate::text::int_text(n).drop_first() =~= digits);
    } else {
        assert(ten_digit(digits[0]) is Some);
    }
}

proof fn digits_read_back(n: nat)
    ensures
        crate::text::nat_text(n).len() > 0,
        ten_value(crate::text::nat_text(n)) == n,
        forall|i: int|
            0 <= i < crate::text::nat_text(n).len() ==> ten_digit(
                #[trigger] crate::text::nat_text(n)[i],
            ) is Some,
    decreases n,
{
    let s = crate::text::nat_text(n);
    if n < 10 {
        assert(s.drop_last() =~= Seq::<char>::empty());
        assert(ten_value(s.drop_last()) == 0);
        assert(s.last() == s[0]);
    } else {
        digits_read_back(n / 10);
        let front = crate::text::nat_text(n / 10);
        assert(s.drop_last() =~= front);
        assert forall|i: int| 0 <= i < s.len() implies ten_digit(#[trigger] s[i]) is Some by {
            if i < front.len() {
                assert(s[i] == front[i]);
            }
        }
    }
}

} // verus!
