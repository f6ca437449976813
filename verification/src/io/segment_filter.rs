//! Segments of fixed length from hexadecimal text files.

use crate::io::regex_patterns::E225_HEADER;
use crate::text::{
    chars_of, strip_whitespace, text_of, views, views_push, without_white,
};
use vstd::prelude::*;

verus! {

/// An upper-case hexadecimal digit.
pub open spec fn is_upper_digit(c: char) -> bool {
    '0' <= c <= '9' || 'A' <= c <= 'F'
}

/// The synchronisation code and a digit after it stand at `i`.
pub open spec fn run_at(s: Seq<char>, i: int) -> bool {
    &&& 0 <= i
    &&& i + 5 <= s.len()
    &&& s[i] == 'E'
    &&& s[i + 1] == '2'
    &&& s[i + 2] == '2'
    &&& s[i + 3] == '5'
    &&& is_upper_digit(s[i + 4])
}

/// The first character at `i` or later that is no upper-case digit, or the
/// end.
pub open spec fn digits_end(s: Seq<char>, i: int) -> int
    decreases s.len() - i,
{
    if i < s.len() && is_upper_digit(s[i]) {
        digits_end(s, i + 1)
    } else {
        i
    }
}

/// Where the first run at `from` or later begins.
pub open spec fn first_run(s: Seq<char>, from: int) -> Option<int>
    decreases s.len() - from,
{
    if from >= s.len() {
        None
    } else if run_at(s, from) {
        Some(from)
    } else {
        first_run(s, from + 1)
    }
}

proof fn first_run_found(s: Seq<char>, from: int)
    requires
        0 <= from,
    ensures
        first_run(s, from) matches Some(i) ==> from <= i && run_at(s, i),
    decreases s.len() - from,
{
    if from < s.len() && !run_at(s, from) {
        first_run_found(s, from + 1);
    }
}

proof fn digits_end_bounds(s: Seq<char>, i: int)
    requires
        0 <= i <= s.len(),
    ensures
        i <= digits_end(s, i) <= s.len(),
    decreases s.len() - i,
{
    if i < s.len() && is_upper_digit(s[i]) {
        digits_end_bounds(s, i + 1);
    }
}

/// The runs of a text: each begins with a synchronisation code and goes on as
/// long as upper-case digits follow, at least one; the next is searched behind
/// it.
pub open spec fn header_runs(s: Seq<char>) -> Seq<Seq<char>>
    decreases s.len(),
    via header_runs_shrink
{
    match first_run(s, 0) {
        Some(i) => seq![s.subrange(i, digits_end(s, i + 4))] + header_runs(
            s.skip(digits_end(s, i + 4)),
        ),
        None => Seq::empty(),
    }
}

#[via_fn]
proof fn header_runs_shrink(s: Seq<char>) {
    first_run_found(s, 0);
    if first_run(s, 0) is Some {
        digits_end_bounds(s, first_run(s, 0)->0 + 4);
    }
}

/// `regex::Regex::find_iter`: the successive matches of a pattern that do not
/// overlap, each the leftmost and, as `+` is greedy, the longest from there.
/// Stated for the pattern of the synchronisation code and the upper-case
/// digits behind it: the matches are the runs of the text.
#[verifier::external_body]
fn find_matches(pattern: &str, text: &str) -> (r: Vec<String>)
    requires
        pattern@ == E225_HEADER@,
    ensures
        views(r@) == header_runs(text@),
{
    regex::Regex::new(pattern).unwrap().find_iter(text).map(|m| m.as_str().to_string()).collect()
}

/// A text in pieces of `len` characters; what is left over is dropped.
pub open spec fn full_pieces(s: Seq<char>, len: nat) -> Seq<Seq<char>>
    decreases s.len(),
{
    if len == 0 || s.len() < len {
        Seq::empty()
    } else {
        seq![s.take(len as int)] + full_pieces(s.skip(len as int), len)
    }
}

/// The full pieces of every run, in order.
pub open spec fn pieces_of_runs(runs: Seq<Seq<char>>, len: nat) -> Seq<Seq<char>>
    decreases runs.len(),
{
    if runs.len() == 0 {
        Seq::empty()
    } else {
        pieces_of_runs(runs.drop_last(), len) + full_pieces(runs.last(), len)
    }
}

/// The segments of a file: the full pieces of the runs of its text without
/// whitespace.
pub open spec fn file_segments(content: Seq<char>, len: nat) -> Seq<Seq<char>> {
    pieces_of_runs(header_runs(without_white(content)), len)
}

/// The segments of several files, in order.
pub open spec fn files_segments(contents: Seq<Seq<char>>, len: nat) -> Seq<Seq<char>>
    decreases contents.len(),
{
    if contents.len() == 0 {
        Seq::empty()
    } else {
        files_segments(contents.drop_last(), len) + file_segments(contents.last(), len)
    }
}

/// None of the files holds a run.
pub open spec fn no_runs(contents: Seq<Seq<char>>) -> bool {
    forall|i: int|
        0 <= i < contents.len() ==> header_runs(without_white(#[trigger] contents[i])).len() == 0
}

fn push_pieces(out: &mut Vec<String>, run: &str, len: usize)
    requires
        len > 0,
    ensures
        views(final(out)@) == views(old(out)@) + full_pieces(run@, len as nat),
{
    let chars = chars_of(run);
    let mut at: usize = 0;
    let ghost start = views(out@);
    assert(chars@.skip(0) =~= run@);
    while chars.len() - at >= len
        invariant
            len > 0,
            at <= chars@.len(),
            chars@ == run@,
            start + full_pieces(run@, len as nat) == views(out@) + full_pieces(
                chars@.skip(at as int),
                len as nat,
            ),
        decreases chars@.len() - at,
    {
        let piece = text_of(&chars.as_slice()[at..at + len]);
        proof {
            let rest = chars@.skip(at as int);
            assert(piece@ =~= rest.take(len as int));
            assert(rest.skip(len as int) =~= chars@.skip(at + len));
            views_push(out@, piece);
            assert(views(out@) + (seq![piece@] + full_pieces(chars@.skip(at + len), len as nat))
                =~= views(out@).push(piece@) + full_pieces(chars@.skip(at + len), len as nat));
        }
        out.push(piece);
        at = at + len;
    }
    assert(views(out@) + Seq::<Seq<char>>::empty() =~= views(out@));
}

/// The segments of `chunk_hex_len` characters that several files hold.
pub fn filter_e225_segments_from_files(contents: &[String], chunk_hex_len: usize) -> (r: Vec<String>)
    requires
        chunk_hex_len > 0 || no_runs(views(contents@)),
    ensures
        views(r@) == files_segments(views(contents@), chunk_hex_len as nat),
{
    let ghost files = views(contents@);
    let ghost len = chunk_hex_len as nat;
    let mut segments: Vec<String> = Vec::new();
    assert(files.take(0) =~= Seq::<Seq<char>>::empty());
    assert(views(segments@) =~= Seq::<Seq<char>>::empty());
    for i in 0..contents.len()
        invariant
            chunk_hex_len > 0 || no_runs(files),
            len == chunk_hex_len,
            files == views(contents@),
            views(segments@) == files_segments(files.take(i as int), len),
    {
        let stripped = strip_whitespace(contents[i].as_str());
        let cleaned = text_of(stripped.as_slice());
        let runs = find_matches(E225_HEADER, cleaned.as_str());
        let ghost before = views(segments@);
        let ghost all = views(runs@);
        assert(files[i as int] == contents@[i as int]@);
        assert(all.len() == runs@.len());
        assert(all.take(0) =~= Seq::<Seq<char>>::empty());
        assert(before + Seq::<Seq<char>>::empty() =~= before);
        for k in 0..runs.len()
            invariant
                chunk_hex_len > 0 || runs@.len() == 0,
                len == chunk_hex_len,
                all == views(runs@),
                views(segments@) == before + pieces_of_runs(all.take(k as int), len),
        {
            push_pieces(&mut segments, runs[k].as_str(), chunk_hex_len);
            proof {
                assert(all.take(k + 1).drop_last() =~= all.take(k as int));
                assert(all[k as int] == runs@[k as int]@);
                assert((before + pieces_of_runs(all.take(k as int), len)) + full_pieces(
                    all[k as int],
                    len,
                ) =~= before + pieces_of_runs(all.take(k + 1), len));
            }
        }
        proof {
            assert(all.take(all.len() as int) =~= all);
            assert(files.take(i + 1).drop_last() =~= files.take(i as int));
            assert(files[i as int] == contents@[i as int]@);
        }
    }
    assert(files.take(files.len() as int) =~= files);
    segments
}

/// Every segment has exactly the length asked for.
pub proof fn segments_have_length(contents: Seq<Seq<char>>, len: nat)
    ensures
        forall|k: int|
            0 <= k < files_segments(contents, len).len() ==> (#[trigger] files_segments(
                contents,
                len,
            )[k]).len() == len,
    decreases contents.len(),
{
    if contents.len() > 0 {
        segments_have_length(contents.drop_last(), len);
        runs_have_length(header_runs(without_white(contents.last())), len);
        let before = files_segments(contents.drop_last(), len);
        let last = file_segments(contents.last(), len);
        assert forall|k: int| 0 <= k < files_segments(contents, len).len() implies (
        #[trigger] files_segments(contents, len)[k]).len() == len by {
            if k < before.len() {
                assert(files_segments(contents, len)[k] == before[k]);
            } else {
                assert(files_segments(contents, len)[k] == last[k - before.len()]);
            }
        }
    }
}

proof fn runs_have_length(runs: Seq<Seq<char>>, len: nat)
    ensures
        forall|k: int|
            0 <= k < pieces_of_runs(runs, len).len() ==> (#[trigger] pieces_of_runs(
                runs,
                len,
            )[k]).len() == len,
    decreases runs.len(),
{
    if runs.len() > 0 {
        runs_have_length(runs.drop_last(), len);
        pieces_have_length(runs.last(), len);
        let before = pieces_of_runs(runs.drop_last(), len);
        let last = full_pieces(runs.last(), len);
        assert forall|k: int| 0 <= k < pieces_of_runs(runs, len).len() implies (
        #[trigger] pieces_of_runs(runs, len)[k]).len() == len by {
            if k < before.len() {
                assert(pieces_of_runs(runs, len)[k] == before[k]);
            } else {
                assert(pieces_of_runs(runs, len)[k] == last[k - before.len()]);
            }
        }
    }
}

proof fn pieces_have_length(s: Seq<char>, len: nat)
    ensures
        forall|k: int|
            0 <= k < full_pieces(s, len).len() ==> (#[trigger] full_pieces(s, len)[k]).len() == len,
    decreases s.len(),
{
    if len > 0 && s.len() >= len {
        pieces_have_length(s.skip(len as int), len);
        let rest = full_pieces(s.skip(len as int), len);
        assert forall|k: int| 0 <= k < full_pieces(s, len).len() implies (#[trigger] full_pieces(
            s,
            len,
        )[k]).len() == len by {
            if k > 0 {
                assert(full_pieces(s, len)[k] == rest[k - 1]);
            }
        }
    }
}

} // verus!
