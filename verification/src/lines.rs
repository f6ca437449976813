//! Lines of a text and lengths in UTF-8.

use crate::text::{chars_of, text_of, views, views_push};
use vstd::prelude::*;

verus! {

/// The position of the first line feed, or the text's length.
pub open spec fn newline_at(s: Seq<char>) -> int
    decreases s.len(),
{
    if s.len() == 0 || s[0] == '\n' {
        0
    } else {
        1 + newline_at(s.drop_first())
    }
}

/// A line that ended in a line feed, without a carriage return before it.
pub open spec fn without_return(line: Seq<char>) -> Seq<char> {
    if line.len() > 0 && line.last() == '\r' {
        line.drop_last()
    } else {
        line
    }
}

proof fn newline_in_range(s: Seq<char>)
    ensures
        0 <= newline_at(s) <= s.len(),
        newline_at(s) < s.len() ==> s[newline_at(s)] == '\n',
        forall|i: int| 0 <= i < newline_at(s) ==> s[i] != '\n',
    decreases s.len(),
{
    if s.len() > 0 && s[0] != '\n' {
        newline_in_range(s.drop_first());
        assert forall|i: int| 0 <= i < newline_at(s) implies s[i] != '\n' by {
            if i > 0 {
                assert(s.drop_first()[i - 1] == s[i]);
            }
        }
    }
}

/// The lines of a text. They end in a line feed, or in a carriage return and a
/// line feed; the last one may lack it.
pub open spec fn lines_of(s: Seq<char>) -> Seq<Seq<char>>
    decreases s.len(),
    via lines_of_shrinks
{
    if s.len() == 0 {
        Seq::empty()
    } else if newline_at(s) < s.len() {
        seq![without_return(s.take(newline_at(s)))] + lines_of(s.skip(newline_at(s) + 1))
    } else {
        seq![s]
    }
}

#[via_fn]
proof fn lines_of_shrinks(s: Seq<char>) {
    newline_in_range(s);
}

/// The lines of a text.
pub fn split_lines(text: &str) -> (r: Vec<String>)
    ensures
        views(r@) == lines_of(text@),
{
    let all = chars_of(text);
    let mut out: Vec<String> = Vec::new();
    let mut start: usize = 0;
    assert(all@.skip(0) == all@);
    assert(views(out@) + lines_of(all@) == lines_of(all@));
    while start < all.len()
        invariant
            all@ == text@,
            start <= all@.len(),
            views(out@) + lines_of(all@.skip(start as int)) == lines_of(text@),
        decreases all@.len() - start,
    {
        let ghost rest = all@.skip(start as int);
        proof {
            newline_in_range(rest);
        }
        let mut end: usize = start;
        assert(rest.skip(0) == rest);
        while end < all.len() && all[end] != '\n'
            invariant
                start <= end <= all@.len(),
                rest == all@.skip(start as int),
                newline_at(rest) == (end - start) + newline_at(rest.skip(end - start)),
            decreases all@.len() - end,
        {
            assert(rest.skip(end - start)[0] == all@[end as int]);
            assert(rest.skip(end - start).drop_first() == rest.skip(end + 1 - start));
            end = end + 1;
        }
        proof {
            if end < all@.len() {
                assert(rest.skip(end - start)[0] == all@[end as int]);
            }
            assert(newline_at(rest) == end - start);
            assert(all@.subrange(start as int, end as int) == rest.take(end - start));
        }
        let ghost before = views(out@);
        if end < all.len() {
            let stop: usize = if end > start && all[end - 1] == '\r' { end - 1 } else { end };
            let line = text_of(&all.as_slice()[start..stop]);
            proof {
                assert(line@ == without_return(rest.take(newline_at(rest))));
                views_push(out@, line);
                assert(rest.skip(newline_at(rest) + 1) == all@.skip(end + 1));
                assert(before + (seq![line@] + lines_of(all@.skip(end + 1))) == before.push(line@)
                    + lines_of(all@.skip(end + 1)));
            }
            out.push(line);
            start = end + 1;
        } else {
            let line = text_of(&all.as_slice()[start..end]);
            proof {
                assert(line@ == rest);
                views_push(out@, line);
                assert(lines_of(all@.skip(end as int)) == Seq::<Seq<char>>::empty());
                assert(before + seq![line@] == before.push(line@) + Seq::<Seq<char>>::empty());
            }
            out.push(line);
            start = end;
        }
    }
    assert(views(out@) + lines_of(all@.skip(start as int)) == views(out@));
    out
}

/// The bytes of a character in UTF-8.
pub open spec fn utf8_width(c: char) -> int {
    if c as u32 <= 0x7F {
        1
    } else if c as u32 <= 0x7FF {
        2
    } else if c as u32 <= 0xFFFF {
        3
    } else {
        4
    }
}

/// The bytes of a text in UTF-8.
pub open spec fn utf8_len(s: Seq<char>) -> int
    decreases s.len(),
{
    if s.len() == 0 {
        0
    } else {
        utf8_len(s.drop_last()) + utf8_width(s.last())
    }
}

/// A byte length at which a text can be cut between two characters.
pub open spec fn cuts_at(s: Seq<char>, bytes: int) -> bool {
    exists|k: int| 0 <= k <= s.len() && utf8_len(#[trigger] s.take(k)) == bytes
}

/// The characters before the cut at a byte length.
pub open spec fn cut_at(s: Seq<char>, bytes: int) -> Seq<char> {
    s.take(choose|k: int| 0 <= k <= s.len() && utf8_len(#[trigger] s.take(k)) == bytes)
}

/// The bytes of a character in UTF-8.
pub fn char_width(c: char) -> (r: usize)
    ensures
        r == utf8_width(c),
{
    let n: u32 = c as u32;
    if n <= 0x7F {
        1
    } else if n <= 0x7FF {
        2
    } else if n <= 0xFFFF {
        3
    } else {
        4
    }
}

/// A longer beginning of a text is also longer in bytes.
pub proof fn utf8_len_strict(s: Seq<char>, i: int, j: int)
    requires
        0 <= i <= j <= s.len(),
    ensures
        0 <= utf8_len(s.take(i)),
        utf8_len(s.take(i)) + (j - i) <= utf8_len(s.take(j)),
        utf8_len(s.take(j)) <= utf8_len(s.take(i)) + 4 * (j - i),
    decreases j,
{
    if i < j {
        utf8_len_strict(s, i, j - 1);
        assert(s.take(j).drop_last() == s.take(j - 1));
    } else if i > 0 {
        utf8_len_strict(s, i - 1, i - 1);
        assert(s.take(i).drop_last() == s.take(i - 1));
    }
}

/// The bytes of a text in UTF-8.
pub fn byte_len(chars: &[char]) -> (r: i64)
    requires
        utf8_len(chars@) <= i64::MAX,
    ensures
        r == utf8_len(chars@),
{
    let mut total: i64 = 0;
    assert(chars@.take(chars@.len() as int) == chars@);
    for i in 0..chars.len()
        invariant
            utf8_len(chars@) <= i64::MAX,
            chars@.take(chars@.len() as int) == chars@,
            total == utf8_len(chars@.take(i as int)),
            0 <= total,
    {
        proof {
            assert(chars@.take(i + 1).drop_last() == chars@.take(i as int));
            utf8_len_strict(chars@, i + 1, chars@.len() as int);
        }
        total = total + char_width(chars[i]) as i64;
    }
    total
}

/// How many characters stand before the cut at a byte length.
pub fn cut_chars(chars: &[char], bytes: i64) -> (r: usize)
    requires
        0 <= bytes <= i64::MAX - 4,
        cuts_at(chars@, bytes as int),
    ensures
        r <= chars@.len(),
        chars@.take(r as int) == cut_at(chars@, bytes as int),
        utf8_len(chars@.take(r as int)) == bytes,
{
    let ghost k = choose|k: int|
        0 <= k <= chars@.len() && utf8_len(#[trigger] chars@.take(k)) == bytes;
    let mut n: usize = 0;
    let mut total: i64 = 0;
    while total < bytes
        invariant
            0 <= n <= k <= chars@.len(),
            total == utf8_len(chars@.take(n as int)),
            utf8_len(chars@.take(k)) == bytes,
            0 <= total <= bytes <= i64::MAX - 4,
        decreases bytes - total,
    {
        proof {
            if n == k {
                assert(false);
            }
            assert(chars@.take(n + 1).drop_last() == chars@.take(n as int));
            utf8_len_strict(chars@, n + 1, k);
        }
        total = total + char_width(chars[n]) as i64;
        n = n + 1;
    }
    proof {
        utf8_len_strict(chars@, n as int, k);
    }
    n
}

} // verus!
