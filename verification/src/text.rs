//! Characters, decimal numbers and the small string operations that the
//! decoders and table builders share.

use vstd::prelude::*;
use vstd::string::StringExecFns;

verus! {

/// `String::push` appends one character at the end of the string.
pub assume_specification[ String::push ](s: &mut String, c: char)
    ensures
        final(s)@ == old(s)@.push(c),
;

/// The characters of `s`, in order.
pub fn chars_of(s: &str) -> (r: Vec<char>)
    ensures
        r@ == s@,
{
    let mut r: Vec<char> = Vec::new();
    for c in it: s.chars()
        invariant
            r@ == it.seq().take(it.index()),
            it.seq() == s@,
    {
        r.push(c);
    }
    r
}

/// The string made of `chars`.
pub fn text_of(chars: &[char]) -> (r: String)
    ensures
        r@ == chars@,
{
    let mut r = String::new();
    for i in 0..chars.len()
        invariant
            r@ == chars@.take(i as int),
    {
        r.push(chars[i]);
    }
    assert(chars@.take(chars@.len() as int) == chars@);
    r
}

/// The decimal digit `d` as a character.
pub open spec fn digit_char(d: int) -> char {
    if d == 0 { '0' } else if d == 1 { '1' } else if d == 2 { '2' } else if d == 3 { '3' }
    else if d == 4 { '4' } else if d == 5 { '5' } else if d == 6 { '6' } else if d == 7 { '7' }
    else if d == 8 { '8' } else { '9' }
}

/// `n` in decimal, without leading zeros.
pub open spec fn nat_text(n: nat) -> Seq<char>
    decreases n,
{
    if n < 10 {
        seq![digit_char(n as int)]
    } else {
        nat_text(n / 10).push(digit_char((n % 10) as int))
    }
}

/// `n` in decimal, with a minus sign where it is negative.
pub open spec fn int_text(n: int) -> Seq<char> {
    if n < 0 {
        seq!['-'] + nat_text((-n) as nat)
    } else {
        nat_text(n as nat)
    }
}

fn digit_char_exec(d: u64) -> (c: char)
    requires
        d < 10,
    ensures
        c == digit_char(d as int),
{
    match d {
        0 => '0',
        1 => '1',
        2 => '2',
        3 => '3',
        4 => '4',
        5 => '5',
        6 => '6',
        7 => '7',
        8 => '8',
        _ => '9',
    }
}

fn push_digits(out: &mut String, n: u64)
    ensures
        final(out)@ == old(out)@ + nat_text(n as nat),
    decreases n,
{
    if n < 10 {
        out.push(digit_char_exec(n));
    } else {
        push_digits(out, n / 10);
        out.push(digit_char_exec(n % 10));
    }
}

/// `n` in decimal.
pub fn decimal(n: i64) -> (r: String)
    ensures
        r@ == int_text(n as int),
{
    let mut out = String::new();
    if n < 0 {
        out.push('-');
        let magnitude: u64 = (-(n + 1)) as u64 + 1;
        push_digits(&mut out, magnitude);
    } else {
        push_digits(&mut out, n as u64);
    }
    out
}

/// `n` in decimal.
pub fn natural(n: u64) -> (r: String)
    ensures
        r@ == int_text(n as int),
{
    let mut out = String::new();
    push_digits(&mut out, n);
    out
}

/// Two texts, one after the other.
pub fn concat2(a: &str, b: &str) -> (r: String)
    ensures
        r@ == a@ + b@,
{
    let mut out = String::from_str(a);
    out.append(b);
    out
}

/// The text holds `part` somewhere.
pub open spec fn has_part(s: Seq<char>, part: Seq<char>) -> bool {
    exists|i: int| 0 <= i <= s.len() && part.is_prefix_of(#[trigger] s.skip(i))
}

/// Whether the text holds `part` somewhere.
pub fn contains(s: &str, part: &str) -> (r: bool)
    ensures
        r == has_part(s@, part@),
{
    let x = chars_of(s);
    let y = chars_of(part);
    if y.len() == 0 {
        assert(part@.is_prefix_of(s@.skip(0)));
        return true;
    }
    for i in 0..x.len()
        invariant
            x@ == s@,
            y@ == part@,
            y@.len() > 0,
            forall|k: int| 0 <= k < i ==> !part@.is_prefix_of(#[trigger] s@.skip(k)),
    {
        let ghost rest = s@.skip(i as int);
        let fits = x.len() - i >= y.len();
        let mut same = fits;
        for j in 0..y.len()
            invariant
                i < x.len(),
                x@ == s@,
                y@ == part@,
                rest == s@.skip(i as int),
                fits == (x.len() - i >= y.len()),
                same == (fits && forall|k: int| 0 <= k < j ==> part@[k] == #[trigger] rest[k]),
        {
            if same && x[i + j] != y[j] {
                same = false;
                assert(rest[j as int] != part@[j as int]);
            }
        }
        proof {
            if same {
                assert(part@ =~= rest.take(part@.len() as int));
            } else if part@.is_prefix_of(rest) {
                assert(forall|k: int| 0 <= k < part@.len() ==> part@[k] == #[trigger] rest[k]);
            }
        }
        if same {
            return true;
        }
    }
    assert(s@.skip(s@.len() as int).len() == 0);
    false
}

/// Three texts, one after the other.
pub fn concat3(a: &str, b: &str, c: &str) -> (r: String)
    ensures
        r@ == a@ + b@ + c@,
{
    let mut out = concat2(a, b);
    out.append(c);
    out
}

/// The texts that a sequence of strings holds.
pub open spec fn views(strings: Seq<String>) -> Seq<Seq<char>> {
    strings.map_values(|s: String| s@)
}

/// A string at the end of a sequence adds its text at the end of the texts.
pub proof fn views_push(strings: Seq<String>, last: String)
    ensures
        views(strings.push(last)) == views(strings).push(last@),
{
}

/// Unicode's White_Space property.
pub open spec fn is_white(c: char) -> bool {
    let n = c as u32;
    ||| 0x9 <= n <= 0xD
    ||| n == 0x20
    ||| n == 0x85
    ||| n == 0xA0
    ||| n == 0x1680
    ||| 0x2000 <= n <= 0x200A
    ||| n == 0x2028
    ||| n == 0x2029
    ||| n == 0x202F
    ||| n == 0x205F
    ||| n == 0x3000
}

/// Whether `c` is whitespace.
pub fn is_whitespace(c: char) -> (r: bool)
    ensures
        r == is_white(c),
{
    let n: u32 = c as u32;
    (n >= 0x9 && n <= 0xD) || n == 0x20 || n == 0x85 || n == 0xA0 || n == 0x1680
        || (n >= 0x2000 && n <= 0x200A) || n == 0x2028 || n == 0x2029 || n == 0x202F
        || n == 0x205F || n == 0x3000
}

/// `s` without its whitespace characters.
pub open spec fn without_white(s: Seq<char>) -> Seq<char> {
    s.filter(|c: char| !is_white(c))
}

/// The characters of `s` that are not whitespace, in order.
pub fn strip_whitespace(s: &str) -> (r: Vec<char>)
    ensures
        r@ == without_white(s@),
{
    let all = chars_of(s);
    let mut kept: Vec<char> = Vec::new();
    for i in 0..all.len()
        invariant
            all@ == s@,
            kept@ == without_white(all@.take(i as int)),
    {
        let ghost keep = |c: char| !is_white(c);
        proof {
            assert(all@.take(i + 1).drop_last() == all@.take(i as int));
            reveal(Seq::filter);
        }
        if !is_whitespace(all[i]) {
            kept.push(all[i]);
        }
    }
    assert(all@.take(all@.len() as int) == all@);
    kept
}

/// `s` without the whitespace at its two ends.
pub open spec fn trimmed(s: Seq<char>) -> Seq<char>
    decreases s.len(),
{
    if s.len() == 0 {
        s
    } else if is_white(s[0]) {
        trimmed(s.drop_first())
    } else if is_white(s.last()) {
        trimmed(s.drop_last())
    } else {
        s
    }
}

/// `s` without the whitespace at its two ends.
pub fn trim(s: &str) -> (r: Vec<char>)
    ensures
        r@ == trimmed(s@),
{
    let all = chars_of(s);
    let mut start: usize = 0;
    let mut end: usize = all.len();
    assert(all@.subrange(0, all@.len() as int) == all@);
    while start < end && is_whitespace(all[start])
        invariant
            start <= end == all@.len(),
            all@ == s@,
            trimmed(all@.subrange(start as int, end as int)) == trimmed(s@),
        decreases end - start,
    {
        assert(all@.subrange(start as int, end as int).drop_first() == all@.subrange(
            start + 1,
            end as int,
        ));
        start = start + 1;
    }
    while start < end && is_whitespace(all[end - 1])
        invariant
            start <= end <= all@.len(),
            start < end ==> !is_white(all@[start as int]),
            trimmed(all@.subrange(start as int, end as int)) == trimmed(s@),
        decreases end - start,
    {
        assert(all@.subrange(start as int, end as int).drop_last() == all@.subrange(
            start as int,
            end - 1,
        ));
        end = end - 1;
    }
    let mut r: Vec<char> = Vec::new();
    let mut i: usize = start;
    while i < end
        invariant
            start <= i <= end <= all@.len(),
            r@ == all@.subrange(start as int, i as int),
        decreases end - i,
    {
        r.push(all[i]);
        i = i + 1;
    }
    r
}

/// `c` in upper case where it is an ASCII letter, else `c` itself.
pub open spec fn upper(c: char) -> char {
    if 'a' <= c <= 'z' {
        (c as u32 - 32) as char
    } else {
        c
    }
}

/// `c` in upper case where it is an ASCII letter, else `c` itself.
pub fn ascii_upper(c: char) -> (r: char)
    ensures
        r == upper(c),
{
    if 'a' <= c && c <= 'z' {
        ((c as u8) - 32) as char
    } else {
        c
    }
}

/// Whether two texts are equal up to the case of their ASCII letters.
pub open spec fn same_ignoring_case(a: Seq<char>, b: Seq<char>) -> bool {
    &&& a.len() == b.len()
    &&& forall|i: int| 0 <= i < a.len() ==> upper(#[trigger] a[i]) == upper(b[i])
}

/// Whether two texts are equal up to the case of their ASCII letters.
pub fn eq_ignore_case(a: &str, b: &str) -> (r: bool)
    ensures
        r == same_ignoring_case(a@, b@),
{
    let x = chars_of(a);
    let y = chars_of(b);
    if x.len() != y.len() {
        return false;
    }
    for i in 0..x.len()
        invariant
            x@ == a@,
            y@ == b@,
            x.len() == y.len(),
            forall|k: int| 0 <= k < i ==> upper(#[trigger] x@[k]) == upper(y@[k]),
    {
        if ascii_upper(x[i]) != ascii_upper(y[i]) {
            return false;
        }
    }
    true
}

/// Whether two texts are equal.
pub fn same_text(a: &str, b: &str) -> (r: bool)
    ensures
        r == (a@ == b@),
{
    let x = chars_of(a);
    let y = chars_of(b);
    if x.len() != y.len() {
        return false;
    }
    for i in 0..x.len()
        invariant
            x@ == a@,
            y@ == b@,
            x.len() == y.len(),
            x@.take(i as int) == y@.take(i as int),
    {
        if x[i] != y[i] {
            assert(a@[i as int] != b@[i as int]);
            return false;
        }
        assert(x@.take(i + 1) == x@.take(i as int).push(x@[i as int]));
        assert(y@.take(i + 1) == y@.take(i as int).push(y@[i as int]));
    }
    assert(x@.take(x@.len() as int) == x@);
    assert(y@.take(y@.len() as int) == y@);
    true
}

/// Whether `s` begins with `prefix`.
pub fn starts_with(s: &str, prefix: &str) -> (r: bool)
    ensures
        r == prefix@.is_prefix_of(s@),
{
    let x = chars_of(s);
    let y = chars_of(prefix);
    if x.len() < y.len() {
        return false;
    }
    for i in 0..y.len()
        invariant
            x@ == s@,
            y@ == prefix@,
            x.len() >= y.len(),
            forall|k: int| 0 <= k < i ==> x@[k] == y@[k],
    {
        if x[i] != y[i] {
            assert(s@.subrange(0, prefix@.len() as int)[i as int] != prefix@[i as int]);
            return false;
        }
    }
    assert(s@.subrange(0, prefix@.len() as int) == prefix@);
    true
}

/// Whether `s` ends with `suffix` up to the case of the ASCII letters.
pub open spec fn ends_ignoring_case(s: Seq<char>, suffix: Seq<char>) -> bool {
    &&& suffix.len() <= s.len()
    &&& same_ignoring_case(s.skip(s.len() - suffix.len()), suffix)
}

/// Whether `s` ends with `suffix` up to the case of the ASCII letters.
pub fn ends_with_ignore_case(s: &str, suffix: &str) -> (r: bool)
    ensures
        r == ends_ignoring_case(s@, suffix@),
{
    let x = chars_of(s);
    let y = chars_of(suffix);
    if x.len() < y.len() {
        return false;
    }
    let gap: usize = x.len() - y.len();
    for i in 0..y.len()
        invariant
            x@ == s@,
            y@ == suffix@,
            gap == x.len() - y.len(),
            forall|k: int|
                0 <= k < i ==> upper(#[trigger] s@.skip(gap as int)[k]) == upper(y@[k]),
    {
        assert(s@.skip(gap as int)[i as int] == x@[gap + i]);
        if ascii_upper(x[gap + i]) != ascii_upper(y[i]) {
            return false;
        }
    }
    true
}

/// `parts` one after the other, with `separator` between neighbours.
pub open spec fn joined(parts: Seq<Seq<char>>, separator: Seq<char>) -> Seq<char>
    decreases parts.len(),
{
    if parts.len() == 0 {
        Seq::empty()
    } else if parts.len() == 1 {
        parts[0]
    } else {
        joined(parts.drop_last(), separator) + separator + parts.last()
    }
}

/// The first part, the separator, then the other parts joined.
pub proof fn joined_front(parts: Seq<Seq<char>>, separator: Seq<char>)
    requires
        parts.len() >= 2,
    ensures
        joined(parts, separator) == parts[0] + separator + joined(parts.drop_first(), separator),
    decreases parts.len(),
{
    let front = parts.drop_last();
    let rest = parts.drop_first();
    if parts.len() == 2 {
        assert(joined(front, separator) == parts[0]);
        assert(joined(rest, separator) == parts[1]);
        assert(parts.last() == parts[1]);
    } else {
        joined_front(front, separator);
        assert(front.drop_first() =~= rest.drop_last());
        assert(rest.last() == parts.last());
        assert(parts[0] + separator + (joined(rest.drop_last(), separator) + separator
            + rest.last()) =~= parts[0] + separator + joined(rest.drop_last(), separator)
            + separator + rest.last());
    }
}

/// `parts` one after the other, with `separator` between neighbours.
pub fn join(parts: &[String], separator: &str) -> (r: String)
    ensures
        r@ == joined(views(parts@), separator@),
{
    let mut out = String::new();
    for i in 0..parts.len()
        invariant
            out@ == joined(views(parts@.take(i as int)), separator@),
    {
        proof {
            assert(views(parts@.take(i + 1)).drop_last() == views(parts@.take(i as int)));
        }
        if i > 0 {
            out.append(separator);
        }
        out.append(parts[i].as_str());
    }
    assert(parts@.take(parts@.len() as int) == parts@);
    out
}

} // verus!
