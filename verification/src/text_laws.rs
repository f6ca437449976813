//! What the readers and writers of text do, character by character.

use crate::decimal::{after_sign, decimal_number, ten_digit, ten_value};
use crate::columns::number_list;
use crate::hex::{byte_digits, digit_value, digits_value, hex_byte, hex_number, unsigned_part, HexError};
use crate::lines::{cut_at, cuts_at, lines_of, newline_at, utf8_len, utf8_len_strict, without_return};
use crate::observation_mode::plain_lines;
use crate::table::{doubled, field_text, is_quoted, line_text, lines_text, needs_quotes};
use crate::text::{
    ends_ignoring_case, has_part, int_text, is_white, joined, nat_text, same_ignoring_case, trimmed,
    upper,
};
use vstd::prelude::*;

verus! {

/// A number in decimal: its last digit stands last, behind the digits of its
/// tenth; a negative one has a minus sign in front.
pub proof fn decimals_grow_by_digits(n: nat)
    ensures
        nat_text(n).last() == "0123456789"@[(n % 10) as int],
        n < 10 ==> nat_text(n).len() == 1,
        n >= 10 ==> nat_text(n).drop_last() == nat_text(n / 10),
        int_text(n as int) == nat_text(n),
        n > 0 ==> int_text(-(n as int)) == seq!['-'] + nat_text(n),
{
    reveal_strlit("0123456789");
    if n >= 10 {
        assert(nat_text(n).drop_last() =~= nat_text(n / 10));
    }
}

/// A decimal number is read digit by digit: one more digit makes it ten times
/// as large, plus that digit.
pub proof fn decimals_are_read_by_digits(s: Seq<char>, d: int)
    requires
        0 <= d < 10,
    ensures
        ten_value(Seq::empty()) == 0,
        ten_value(s.push("0123456789"@[d])) == 10 * ten_value(s) + d,
        ten_digit("0123456789"@[d]) == Some(d),
{
    reveal_strlit("0123456789");
    assert(s.push("0123456789"@[d]).drop_last() =~= s);
}

/// What is no decimal number: an empty text, a sign alone, and any text with a
/// character behind its sign that is no digit.
pub proof fn texts_that_are_no_decimals(s: Seq<char>, i: int)
    ensures
        decimal_number(Seq::empty()) is None,
        s.len() == 1 && (s[0] == '+' || s[0] == '-') ==> decimal_number(s) is None,
        0 < i < s.len() && !('0' <= s[i] <= '9') ==> decimal_number(s) is None,
        s.len() > 0 && !('0' <= s[0] <= '9') && s[0] != '+' && s[0] != '-' ==> decimal_number(
            s,
        ) is None,
{
    let digits = after_sign(s);
    if 0 < i < s.len() && !('0' <= s[i] <= '9') {
        if s[0] == '+' || s[0] == '-' {
            assert(digits[i - 1] == s[i]);
            assert(ten_digit(digits[i - 1]) is None);
        } else {
            assert(ten_digit(digits[i]) is None);
        }
    }
    if s.len() > 0 && !('0' <= s[0] <= '9') && s[0] != '+' && s[0] != '-' {
        assert(ten_digit(digits[0]) is None);
    }
}

/// A sign in front of digits: a minus sign makes the number negative, a plus
/// sign changes nothing.
pub proof fn signs_of_decimals(digits: Seq<char>)
    requires
        digits.len() > 0,
        '0' <= digits[0] <= '9',
        decimal_number(digits) is Some,
    ensures
        decimal_number(seq!['+'] + digits) == decimal_number(digits),
        decimal_number(seq!['-'] + digits) == Some(-decimal_number(digits)->0),
        decimal_number(digits)->0 == ten_value(digits),
{
    assert((seq!['+'] + digits).drop_first() =~= digits);
    assert((seq!['-'] + digits).drop_first() =~= digits);
    ten_value_nonnegative(digits);
}

proof fn ten_value_nonnegative(s: Seq<char>)
    ensures
        0 <= ten_value(s),
    decreases s.len(),
{
    if s.len() > 0 {
        ten_value_nonnegative(s.drop_last());
    }
}

/// A hexadecimal number is read digit by digit, in either case.
pub proof fn hex_digits_are_read_in_order(s: Seq<char>, d: int)
    requires
        0 <= d < 16,
    ensures
        digits_value(Seq::empty()) == 0,
        digits_value(s.push("0123456789ABCDEF"@[d])) == 16 * digits_value(s) + d,
        digits_value(s.push("0123456789abcdef"@[d])) == 16 * digits_value(s) + d,
{
    reveal_strlit("0123456789ABCDEF");
    reveal_strlit("0123456789abcdef");
    assert(s.push("0123456789ABCDEF"@[d]).drop_last() =~= s);
    assert(s.push("0123456789abcdef"@[d]).drop_last() =~= s);
}

/// No text but digits behind at most one sign is a hexadecimal number.
pub proof fn texts_that_are_no_hex_numbers(s: Seq<char>, i: int, lo: int, hi: int)
    ensures
        hex_number(Seq::empty(), lo, hi) is None,
        0 < i < s.len() && !('0' <= s[i] <= '9' || 'A' <= s[i] <= 'F' || 'a' <= s[i] <= 'f')
            ==> hex_number(s, lo, hi) is None,
{
    if 0 < i < s.len() && !('0' <= s[i] <= '9' || 'A' <= s[i] <= 'F' || 'a' <= s[i] <= 'f') {
        let digits = unsigned_part(s, lo < 0);
        if digits.len() == s.len() {
            assert(digit_value(digits[i]) is None);
        } else {
            assert(digits[i - 1] == s[i]);
            assert(digit_value(digits[i - 1]) is None);
        }
    }
}

/// Trimming takes away whitespace at the two ends and nothing else.
#[verifier::spinoff_prover]
#[verifier::rlimit(60)]
pub proof fn trimming_keeps_the_middle(before: Seq<char>, middle: Seq<char>, after: Seq<char>)
    requires
        forall|i: int| 0 <= i < before.len() ==> is_white(#[trigger] before[i]),
        forall|i: int| 0 <= i < after.len() ==> is_white(#[trigger] after[i]),
        middle.len() > 0,
        !is_white(middle[0]),
        !is_white(middle.last()),
    ensures
        trimmed(before + middle + after) == middle,
        trimmed(before) == Seq::<char>::empty(),
    decreases before.len() + after.len(),
{
    white_is_trimmed(before);
    let s = before + middle + after;
    if before.len() > 0 {
        assert(is_white(before[0]));
        assert(s[0] == before[0]);
        let rest = before.drop_first();
        assert forall|i: int| 0 <= i < rest.len() implies is_white(#[trigger] rest[i]) by {
            assert(rest[i] == before[i + 1]);
        }
        trimming_keeps_the_middle(rest, middle, after);
        assert(s.drop_first() =~= rest + middle + after);
    } else if after.len() > 0 {
        assert(s[0] == middle[0]);
        assert(is_white(after[after.len() - 1]));
        assert(s.last() == after.last());
        let rest = after.drop_last();
        assert forall|i: int| 0 <= i < rest.len() implies is_white(#[trigger] rest[i]) by {
            assert(rest[i] == after[i]);
        }
        trimming_keeps_the_middle(before, middle, rest);
        assert(s.drop_last() =~= before + middle + rest);
    } else {
        assert(s =~= middle);
    }
}

proof fn white_is_trimmed(s: Seq<char>)
    requires
        forall|i: int| 0 <= i < s.len() ==> is_white(#[trigger] s[i]),
    ensures
        trimmed(s) == Seq::<char>::empty(),
    decreases s.len(),
{
    if s.len() > 0 {
        assert(is_white(s[0]));
        let rest = s.drop_first();
        assert forall|i: int| 0 <= i < rest.len() implies is_white(#[trigger] rest[i]) by {
            assert(rest[i] == s[i + 1]);
        }
        white_is_trimmed(rest);
    } else {
        assert(s =~= Seq::<char>::empty());
    }
}

/// The case of a letter: small letters turn into the large ones, and nothing
/// else changes.
pub proof fn letters_and_their_case(i: int, c: char)
    requires
        0 <= i < 26,
    ensures
        upper("abcdefghijklmnopqrstuvwxyz"@[i]) == "ABCDEFGHIJKLMNOPQRSTUVWXYZ"@[i],
        upper("ABCDEFGHIJKLMNOPQRSTUVWXYZ"@[i]) == "ABCDEFGHIJKLMNOPQRSTUVWXYZ"@[i],
        !('a' <= c <= 'z') ==> upper(c) == c,
{
    reveal_strlit("abcdefghijklmnopqrstuvwxyz");
    reveal_strlit("ABCDEFGHIJKLMNOPQRSTUVWXYZ");
}

/// Texts of equal length are the same up to case where their characters are;
/// the comparison goes both ways.
pub proof fn comparing_goes_both_ways(a: Seq<char>, b: Seq<char>)
    ensures
        same_ignoring_case(a, a),
        same_ignoring_case(a, b) == same_ignoring_case(b, a),
        a.len() != b.len() ==> !same_ignoring_case(a, b),
{
    if same_ignoring_case(a, b) {
        assert forall|i: int| 0 <= i < b.len() implies upper(#[trigger] b[i]) == upper(a[i]) by {
            assert(upper(a[i]) == upper(b[i]));
        }
    }
    if same_ignoring_case(b, a) {
        assert forall|i: int| 0 <= i < a.len() implies upper(#[trigger] a[i]) == upper(b[i]) by {
            assert(upper(b[i]) == upper(a[i]));
        }
    }
}

/// Parts are joined in their order, with the separator between two of them.
pub proof fn joining_in_order(parts: Seq<Seq<char>>, last: Seq<char>, separator: Seq<char>)
    ensures
        joined(Seq::empty(), separator).len() == 0,
        joined(seq![last], separator) == last,
        parts.len() > 0 ==> joined(parts.push(last), separator) == joined(parts, separator)
            + separator + last,
{
    assert(parts.push(last).drop_last() =~= parts);
}

proof fn newline_behind(line: Seq<char>, rest: Seq<char>)
    requires
        forall|i: int| 0 <= i < line.len() ==> #[trigger] line[i] != '\n',
        rest.len() == 0 || rest[0] == '\n',
    ensures
        newline_at(line + rest) == line.len(),
    decreases line.len(),
{
    let s = line + rest;
    if line.len() == 0 {
        assert(s =~= rest);
    } else {
        assert(s[0] == line[0]);
        let shorter = line.drop_first();
        assert forall|i: int| 0 <= i < shorter.len() implies #[trigger] shorter[i] != '\n' by {
            assert(shorter[i] == line[i + 1]);
        }
        assert(s.drop_first() =~= shorter + rest);
        newline_behind(shorter, rest);
    }
}

/// A line ends in a line feed, with or without a carriage return before it,
/// and the next one follows; the last line may lack its end.
#[verifier::spinoff_prover]
#[verifier::rlimit(60)]
pub proof fn lines_follow_one_another(line: Seq<char>, rest: Seq<char>)
    requires
        forall|i: int| 0 <= i < line.len() ==> #[trigger] line[i] != '\n',
    ensures
        lines_of(Seq::empty()).len() == 0,
        line.len() > 0 ==> lines_of(line) == seq![line],
        line.len() == 0 || line.last() != '\r' ==> lines_of(line + seq!['\n'] + rest) == seq![line]
            + lines_of(rest),
        lines_of(line + seq!['\r', '\n'] + rest) == seq![line] + lines_of(rest),
{
    newline_behind(line, Seq::empty());
    assert(line + Seq::<char>::empty() =~= line);
    let s = line + seq!['\n'] + rest;
    newline_behind(line, seq!['\n'] + rest);
    assert(s =~= line + (seq!['\n'] + rest));
    let n = line.len() as int;
    assert(s.take(n) =~= line);
    assert(s.skip(n + 1) =~= rest);
    let longer = line + seq!['\r'];
    assert forall|i: int| 0 <= i < longer.len() implies #[trigger] longer[i] != '\n' by {
        if i < n {
            assert(longer[i] == line[i]);
        }
    }
    let t = line + seq!['\r', '\n'] + rest;
    newline_behind(longer, seq!['\n'] + rest);
    assert(t =~= longer + (seq!['\n'] + rest));
    assert(t.take(n + 1) =~= longer);
    assert(without_return(longer) =~= line);
    assert(t.skip(n + 2) =~= rest);
}

/// The length of a text in UTF-8: one byte for each character up to 127, two up
/// to 2047, three up to 65535, and four beyond.
pub proof fn lengths_in_utf8(s: Seq<char>, c: char)
    ensures
        utf8_len(Seq::empty()) == 0,
        utf8_len(s.push(c)) == utf8_len(s) + (if c as int <= 127 {
            1int
        } else if c as int <= 2047 {
            2
        } else if c as int <= 65535 {
            3
        } else {
            4
        }),
{
    assert(s.push(c).drop_last() =~= s);
}

/// A text that can be cut at a length is cut there: what comes before is its
/// beginning and has that length. There is only one such cut.
pub proof fn cuts_are_exact(s: Seq<char>, bytes: int, k: int)
    requires
        cuts_at(s, bytes),
        0 <= k <= s.len(),
    ensures
        utf8_len(cut_at(s, bytes)) == bytes,
        cut_at(s, bytes).is_prefix_of(s),
        utf8_len(s.take(k)) == bytes ==> cut_at(s, bytes) == s.take(k),
{
    let c = choose|j: int| 0 <= j <= s.len() && utf8_len(#[trigger] s.take(j)) == bytes;
    assert(cut_at(s, bytes) =~= s.take(c));
    assert(s.take(c) =~= s.subrange(0, c));
    if utf8_len(s.take(k)) == bytes {
        if c < k {
            utf8_len_strict(s, c, k);
        } else if k < c {
            utf8_len_strict(s, k, c);
        }
    }
}

/// The fields of a table: a value without comma, quotation mark or line feed
/// stands as it is, any other in quotation marks, with its own doubled.
pub proof fn fields_of_tables(s: Seq<char>)
    ensures
        is_quoted(s) == (exists|i: int| 0 <= i < s.len() && (#[trigger] s[i] == ',' || s[i] == '"'
            || s[i] == '\n')),
        !is_quoted(s) ==> field_text(s) == s,
        is_quoted(s) ==> field_text(s) == seq!['"'] + doubled(s) + seq!['"'],
        s.len() > 0 && s[0] == '"' ==> doubled(s) == seq!['"', '"'] + doubled(s.drop_first()),
        s.len() > 0 && s[0] != '"' ==> doubled(s) == seq![s[0]] + doubled(s.drop_first()),
{
    if is_quoted(s) {
        let i = choose|i: int| 0 <= i < s.len() && needs_quotes(#[trigger] s[i]);
        assert(s[i] == ',' || s[i] == '"' || s[i] == '\n');
    }
    if exists|i: int| 0 <= i < s.len() && (#[trigger] s[i] == ',' || s[i] == '"' || s[i] == '\n') {
        let i = choose|i: int|
            0 <= i < s.len() && (#[trigger] s[i] == ',' || s[i] == '"' || s[i] == '\n');
        assert(needs_quotes(s[i]));
    }
}

/// The rows of a table follow one another, each a line of its fields.
pub proof fn rows_follow_one_another(rows: Seq<Seq<Seq<char>>>, row: Seq<Seq<char>>, cell: Seq<char>)
    ensures
        lines_text(Seq::empty()).len() == 0,
        lines_text(rows.push(row)) == lines_text(rows) + line_text(row) + "\n"@,
        line_text(seq![cell]) == field_text(cell),
        row.len() > 0 ==> line_text(row.push(cell)) == line_text(row) + ","@ + field_text(cell),
{
    assert(rows.push(row).drop_last() =~= rows);
    let field = |c: Seq<char>| field_text(c);
    assert(seq![cell].map_values(field) =~= seq![field_text(cell)]);
    assert(row.push(cell).map_values(field) =~= row.map_values(field).push(field_text(cell)));
    joining_in_order(row.map_values(field), field_text(cell), ","@);
}

/// A byte is written with digits whose value is at most 255; more is too large.
pub proof fn bytes_are_read_by_digits(s: Seq<char>)
    requires
        s.len() > 0,
        forall|i: int| 0 <= i < s.len() ==> digit_value(#[trigger] s[i]) is Some,
    ensures
        hex_byte(s) == (if digits_value(s) <= 255 {
            Ok::<u8, HexError>(digits_value(s) as u8)
        } else {
            Err(HexError::TooLarge)
        }),
        hex_byte(seq!['+'] + s) == hex_byte(s),
{
    assert(digit_value(s[0]) is Some);
    byte_digits_value(s);
    assert((seq!['+'] + s).drop_first() =~= s);
}

proof fn byte_digits_value(s: Seq<char>)
    requires
        forall|i: int| 0 <= i < s.len() ==> digit_value(#[trigger] s[i]) is Some,
    ensures
        0 <= digits_value(s),
        byte_digits(s) == (if digits_value(s) <= 255 {
            Ok::<u8, HexError>(digits_value(s) as u8)
        } else {
            Err(HexError::TooLarge)
        }),
    decreases s.len(),
{
    if s.len() > 0 {
        let front = s.drop_last();
        assert forall|i: int| 0 <= i < front.len() implies digit_value(#[trigger] front[i]) is Some by {
            assert(front[i] == s[i]);
        }
        assert(digit_value(s[s.len() - 1]) is Some);
        byte_digits_value(front);
    }
}

/// What is no byte: nothing, a sign alone, and a text of two characters one of
/// which is no digit; and how the errors read.
pub proof fn texts_that_are_no_bytes(a: char, b: char)
    ensures
        hex_byte(Seq::empty()) == Err::<u8, HexError>(HexError::Empty),
        hex_byte(seq!['+']) == Err::<u8, HexError>(HexError::InvalidDigit),
        hex_byte(seq!['-']) == Err::<u8, HexError>(HexError::InvalidDigit),
        digit_value(a) is None && a != '+' ==> hex_byte(seq![a, b]) == Err::<u8, HexError>(
            HexError::InvalidDigit,
        ),
        digit_value(b) is None ==> hex_byte(seq![a, b]) == Err::<u8, HexError>(
            HexError::InvalidDigit,
        ),
        HexError::Empty.text() == "cannot parse integer from empty string"@,
        HexError::InvalidDigit.text() == "invalid digit found in string"@,
        HexError::TooLarge.text() == "number too large to fit in target type"@,
{
    reveal_with_fuel(byte_digits, 3);
    assert(seq!['+'].drop_first() =~= Seq::<char>::empty());
    assert(seq!['-'].drop_last() =~= Seq::<char>::empty());
    let s = seq![a, b];
    assert(s.drop_last() =~= seq![a]);
    assert(s.drop_last().drop_last() =~= Seq::<char>::empty());
    assert(s.drop_first() =~= seq![b]);
    assert(s.drop_first().drop_last() =~= Seq::<char>::empty());
}

/// The values of the digits.
pub proof fn values_of_digits(c: char)
    ensures
        match digit_value(c) {
            Some(d) => 0 <= d < 16 && (c == "0123456789ABCDEF"@[d] || c == "0123456789abcdef"@[d]),
            None => forall|d: int|
                0 <= d < 16 ==> c != #[trigger] "0123456789ABCDEF"@[d] && c
                    != "0123456789abcdef"@[d],
        },
{
    reveal_strlit("0123456789ABCDEF");
    reveal_strlit("0123456789abcdef");
}

/// The characters that count as whitespace: those of Unicode.
pub proof fn white_characters(c: char)
    ensures
        is_white(c) == seq![
            9int,
            10,
            11,
            12,
            13,
            32,
            133,
            160,
            5760,
            8192,
            8193,
            8194,
            8195,
            8196,
            8197,
            8198,
            8199,
            8200,
            8201,
            8202,
            8232,
            8233,
            8239,
            8287,
            12288,
        ].contains(c as int),
{
    let all = seq![
        9int,
        10,
        11,
        12,
        13,
        32,
        133,
        160,
        5760,
        8192,
        8193,
        8194,
        8195,
        8196,
        8197,
        8198,
        8199,
        8200,
        8201,
        8202,
        8232,
        8233,
        8239,
        8287,
        12288,
    ];
    let n = c as int;
    if is_white(c) {
        let i = if n <= 13 {
            n - 9
        } else if n == 32 {
            5
        } else if n == 133 {
            6
        } else if n == 160 {
            7
        } else if n == 5760 {
            8
        } else if n <= 8202 {
            n - 8192 + 9
        } else if n == 8232 {
            20
        } else if n == 8233 {
            21
        } else if n == 8239 {
            22
        } else if n == 8287 {
            23
        } else {
            24
        };
        assert(all[i] == n);
    }
}

/// Numbers in a cell stand in their order, with a comma and a space between
/// them.
pub proof fn numbers_in_order(values: Seq<i32>, v: i32)
    ensures
        number_list(Seq::empty()).len() == 0,
        number_list(seq![v]) == int_text(v as int),
        values.len() > 0 ==> number_list(values.push(v)) == number_list(values) + ", "@ + int_text(
            v as int,
        ),
{
    let text = |n: i32| int_text(n as int);
    assert(seq![v].map_values(text) =~= seq![int_text(v as int)]);
    assert(values.push(v).map_values(text) =~= values.map_values(text).push(int_text(v as int)));
    assert(Seq::<i32>::empty().map_values(text) =~= Seq::<Seq<char>>::empty());
    joining_in_order(values.map_values(text), int_text(v as int), ", "@);
}

/// The rows of a plain table follow one another, each a line of its cells with
/// commas between them.
pub proof fn plain_rows_in_order(rows: Seq<Seq<Seq<char>>>, row: Seq<Seq<char>>)
    ensures
        plain_lines(Seq::empty()).len() == 0,
        plain_lines(rows.push(row)) == plain_lines(rows) + joined(row, ","@) + "\n"@,
{
    assert(rows.push(row).drop_last() =~= rows);
}

/// A text holds every part of it, and no part that is longer than it.
pub proof fn texts_hold_their_parts(before: Seq<char>, part: Seq<char>, after: Seq<char>)
    ensures
        has_part(before + part + after, part),
        part.len() > before.len() ==> !has_part(before, part),
{
    let s = before + part + after;
    let n = before.len() as int;
    assert(s.skip(n).subrange(0, part.len() as int) =~= part);
    assert(part.is_prefix_of(s.skip(n)));
}

/// A text ends with another where its last characters are those, up to case.
pub proof fn texts_and_their_ends(front: Seq<char>, back: Seq<char>, suffix: Seq<char>)
    requires
        back.len() == suffix.len(),
    ensures
        ends_ignoring_case(front + back, suffix) == same_ignoring_case(back, suffix),
{
    let s = front + back;
    assert(s.skip(s.len() - suffix.len()) =~= back);
}

} // verus!
