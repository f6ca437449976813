//! What the readers of files make of their contents.

use crate::io::baseline_file_service::{
    all_samples, all_samples_count, channels, digit_byte, first_sync, hex_digits, next_segment,
    recording_samples, sample, samples, segments, sync_at,
};
use crate::io::excel::{baseline_titles, cell_at, row_of, BaselineCells};
use crate::io::file_helper::{
    combined, first_present, output_folder, possible_places, save_place, workbook_name,
};
use crate::io::header_validator::{first_bad_line, first_line, line_ok, refused, validation};
use crate::io::segment_filter::{
    digits_end, file_segments, files_segments, first_run, full_pieces, header_runs, is_upper_digit,
    pieces_of_runs, run_at,
};
use crate::observation::frame::nibble_of;
use crate::text::{int_text, is_white, same_ignoring_case, trimmed, upper, without_white};
use crate::wire::{digit_reads_back, wire_bytes, wire_digit, word};
use vstd::prelude::*;

verus! {

proof fn digits_are_bytes(bytes: Seq<u8>, i: int)
    requires
        0 <= i < bytes.len(),
    ensures
        digit_byte(wire_bytes(bytes), 2 * i) == bytes[i],
        nibble_of(wire_bytes(bytes)[2 * i]) == Some((bytes[i] / 16) as u8),
        nibble_of(wire_bytes(bytes)[2 * i + 1]) == Some((bytes[i] % 16) as u8),
{
    let b = bytes[i] as int;
    digit_reads_back(b / 16);
    digit_reads_back(b % 16);
    assert(wire_bytes(bytes)[2 * i] == wire_digit(b / 16) as u8);
    assert((2 * i + 1) / 2 == i);
    assert(wire_bytes(bytes)[2 * i + 1] == wire_digit(b % 16) as u8);
}

/// A layer of a sample holds the sixteen words from byte `start` on.
pub open spec fn words_from(layer: Seq<i32>, bytes: Seq<u8>, start: int) -> bool {
    &&& layer.len() == 16
    &&& forall|channel: int|
        0 <= channel < 16 ==> #[trigger] layer[channel] == word(bytes, start + 2 * channel)
}

/// Sample `i` of a segment of 2064 bytes: the packet number is in bytes 16 and
/// 17, and the channels of L1, L2, L6 and L7 are in the sixteen words from
/// bytes 18, 50, 978 and 1010 plus 64 times `i` on.
pub proof fn sample_fields(bytes: Seq<u8>, i: int)
    requires
        bytes.len() == 2064,
        0 <= i < 15,
    ensures
        ({
            let s = sample(wire_bytes(bytes), i);
            &&& samples(wire_bytes(bytes)).len() == 15
            &&& samples(wire_bytes(bytes))[i] == s
            &&& s.packet == word(bytes, 16)
            &&& s.number == i + 1
            &&& words_from(s.l1, bytes, 18 + 64 * i)
            &&& words_from(s.l2, bytes, 50 + 64 * i)
            &&& words_from(s.l6, bytes, 978 + 64 * i)
            &&& words_from(s.l7, bytes, 1010 + 64 * i)
        }),
{
    digits_are_bytes(bytes, 16);
    digits_are_bytes(bytes, 17);
    layer_words(bytes, 18 + 64 * i);
    layer_words(bytes, 50 + 64 * i);
    layer_words(bytes, 978 + 64 * i);
    layer_words(bytes, 1010 + 64 * i);
}

proof fn layer_words(bytes: Seq<u8>, start: int)
    requires
        0 <= start,
        start + 32 <= bytes.len(),
    ensures
        words_from(
            channels(wire_bytes(bytes), 2 * start),
            bytes,
            start,
        ),
{
    let layer = channels(wire_bytes(bytes), 2 * start);
    assert forall|channel: int| 0 <= channel < 16 implies #[trigger] layer[channel] == word(
        bytes,
        start + 2 * channel,
    ) by {
        digits_are_bytes(bytes, start + 2 * channel);
        digits_are_bytes(bytes, start + 2 * channel + 1);
    }
}

/// A segment at the front of a recording gives its samples first; those of the
/// rest of the recording follow.
#[verifier::spinoff_prover]
#[verifier::rlimit(60)]
pub proof fn segments_come_in_order(bytes: Seq<u8>, rest: Seq<u8>)
    requires
        bytes.len() == 2064,
        bytes[0] == 0xE2,
        bytes[1] == 0x25,
    ensures
        recording_samples(wire_bytes(bytes) + rest) == samples(wire_bytes(bytes))
            + recording_samples(rest),
{
    let text = wire_bytes(bytes);
    let is_digit = |b: u8| nibble_of(b) is Some;
    all_are_digits(bytes);
    Seq::filter_distributes_over_add(text, rest, is_digit);
    kept_whole(text);
    let digits = text + hex_digits(rest);
    assert(hex_digits(text + rest) == digits);
    digits_are_bytes(bytes, 0);
    digits_are_bytes(bytes, 1);
    assert(digits[0] == text[0] && digits[1] == text[1] && digits[2] == text[2] && digits[3]
        == text[3]);
    assert(sync_at(digits, 0));
    assert(first_sync(digits, 0) == Some(0int));
    assert(next_segment(digits) == Some(0int));
    assert(digits.subrange(0, 4128) =~= text);
    assert(digits.skip(4128) =~= hex_digits(rest));
    let all = segments(digits);
    assert(all[0] == text);
    assert(all.drop_first() =~= segments(hex_digits(rest)));
}

proof fn all_are_digits(bytes: Seq<u8>)
    ensures
        forall|k: int|
            0 <= k < wire_bytes(bytes).len() ==> nibble_of(#[trigger] wire_bytes(bytes)[k]) is Some,
{
    assert forall|k: int| 0 <= k < wire_bytes(bytes).len() implies nibble_of(
        #[trigger] wire_bytes(bytes)[k],
    ) is Some by {
        digits_are_bytes(bytes, k / 2);
        assert(k == 2 * (k / 2) || k == 2 * (k / 2) + 1);
    }
}

proof fn kept_whole(text: Seq<u8>)
    requires
        forall|k: int| 0 <= k < text.len() ==> nibble_of(#[trigger] text[k]) is Some,
    ensures
        hex_digits(text) == text,
    decreases text.len(),
{
    reveal(Seq::filter);
    if text.len() > 0 {
        let front = text.drop_last();
        assert forall|k: int| 0 <= k < front.len() implies nibble_of(#[trigger] front[k]) is Some by {
            assert(front[k] == text[k]);
        }
        assert(nibble_of(text[text.len() - 1]) is Some);
        kept_whole(front);
        assert(front.push(text.last()) =~= text);
    } else {
        assert(hex_digits(text) =~= text);
    }
}

proof fn dropped_whole(text: Seq<u8>)
    requires
        forall|k: int| 0 <= k < text.len() ==> nibble_of(#[trigger] text[k]) is None,
    ensures
        hex_digits(text) == Seq::<u8>::empty(),
    decreases text.len(),
{
    reveal(Seq::filter);
    if text.len() > 0 {
        let front = text.drop_last();
        assert forall|k: int| 0 <= k < front.len() implies nibble_of(#[trigger] front[k]) is None by {
            assert(front[k] == text[k]);
        }
        assert(nibble_of(text[text.len() - 1]) is None);
        dropped_whole(front);
    } else {
        assert(hex_digits(text) =~= text);
    }
}

/// Characters that are no digits make no difference to a recording, wherever
/// they stand.
pub proof fn other_characters_are_passed_over(before: Seq<u8>, noise: Seq<u8>, after: Seq<u8>)
    requires
        forall|k: int| 0 <= k < noise.len() ==> nibble_of(#[trigger] noise[k]) is None,
    ensures
        recording_samples(before + noise + after) == recording_samples(before + after),
{
    let is_digit = |b: u8| nibble_of(b) is Some;
    Seq::filter_distributes_over_add(before + noise, after, is_digit);
    Seq::filter_distributes_over_add(before, noise, is_digit);
    Seq::filter_distributes_over_add(before, after, is_digit);
    dropped_whole(noise);
    assert(hex_digits(before + noise + after) =~= hex_digits(before + after));
}

/// Digits in front of the first synchronisation code are passed over, and what
/// is shorter than a segment gives no samples.
pub proof fn digits_before_the_code_are_passed_over(digits: Seq<u8>)
    ensures
        digits.len() > 0 && !sync_at(digits, 0) ==> segments(digits) == segments(
            digits.drop_first(),
        ),
        digits.len() < 4128 ==> segments(digits).len() == 0,
{
    if digits.len() > 0 && !sync_at(digits, 0) {
        let rest = digits.drop_first();
        sync_moves(digits, 1);
        sync_in_range(rest, 0);
        match first_sync(rest, 0) {
            Some(i) => {
                if i + 4128 <= rest.len() {
                    assert(digits.subrange(i + 1, i + 1 + 4128) =~= rest.subrange(i, i + 4128));
                    assert(digits.skip(i + 1 + 4128) =~= rest.skip(i + 4128));
                }
            },
            None => {},
        }
    }
    if digits.len() < 4128 {
        sync_in_range(digits, 0);
    }
}

proof fn sync_in_range(digits: Seq<u8>, from: int)
    requires
        0 <= from,
    ensures
        match first_sync(digits, from) {
            Some(i) => from <= i < digits.len(),
            None => true,
        },
    decreases digits.len() - from,
{
    if from < digits.len() && !sync_at(digits, from) {
        sync_in_range(digits, from + 1);
    }
}

proof fn sync_moves(digits: Seq<u8>, from: int)
    requires
        1 <= from,
        digits.len() > 0,
    ensures
        match first_sync(digits.drop_first(), from - 1) {
            Some(i) => first_sync(digits, from) == Some(i + 1),
            None => first_sync(digits, from) is None,
        },
    decreases digits.len() - from,
{
    let rest = digits.drop_first();
    if from < digits.len() {
        assert(sync_at(rest, from - 1) == sync_at(digits, from));
        if !sync_at(digits, from) {
            sync_moves(digits, from + 1);
        }
    }
}

/// Every segment gives its fifteen samples, in order.
pub proof fn samples_stand_in_order(list: Seq<Seq<u8>>, k: int, i: int)
    requires
        0 <= k < list.len(),
        0 <= i < 15,
    ensures
        all_samples(list).len() == 15 * list.len(),
        all_samples(list)[15 * k + i] == sample(list[k], i),
    decreases list.len(),
{
    all_samples_count(list);
    let rest = list.drop_first();
    all_samples_count(rest);
    if k == 0 {
        assert(all_samples(list)[i] == samples(list[0])[i]);
    } else {
        samples_stand_in_order(rest, k - 1, i);
        assert(rest[k - 1] == list[k]);
        assert(all_samples(list)[15 * k + i] == all_samples(rest)[15 * (k - 1) + i]);
    }
}

/// The worksheet: the packet and sample numbers in the first two columns, then
/// sixteen columns for each of L1, L2, L6 and L7, under titles that name them.
pub proof fn worksheet_columns<T>(cells: BaselineCells<T>, channel: int)
    requires
        0 <= channel < 16,
    ensures
        row_of(cells).len() == 66,
        row_of(cells)[0] == cells.packet,
        row_of(cells)[1] == cells.number,
        row_of(cells)[2 + channel] == cells.l1@[channel],
        row_of(cells)[18 + channel] == cells.l2@[channel],
        row_of(cells)[34 + channel] == cells.l6@[channel],
        row_of(cells)[50 + channel] == cells.l7@[channel],
        baseline_titles().len() == 66,
        baseline_titles()[0] == "Sampling Packet No."@,
        baseline_titles()[1] == "Sampling No."@,
        baseline_titles()[2 + channel] == "L1"@ + " CH"@ + int_text(channel + 1),
        baseline_titles()[18 + channel] == "L2"@ + " CH"@ + int_text(channel + 1),
        baseline_titles()[34 + channel] == "L6"@ + " CH"@ + int_text(channel + 1),
        baseline_titles()[50 + channel] == "L7"@ + " CH"@ + int_text(channel + 1),
{
}

/// A run of the code and upper-case digits behind it is found whole, and the
/// search goes on behind it.
pub proof fn run_at_the_front(run: Seq<char>, rest: Seq<char>)
    requires
        run.len() >= 5,
        run[0] == 'E' && run[1] == '2' && run[2] == '2' && run[3] == '5',
        forall|k: int| 4 <= k < run.len() ==> '0' <= #[trigger] run[k] <= '9' || 'A' <= run[k]
            <= 'F',
        rest.len() > 0 ==> !('0' <= rest[0] <= '9' || 'A' <= rest[0] <= 'F'),
    ensures
        header_runs(run + rest) == seq![run] + header_runs(rest),
{
    let s = run + rest;
    assert(s[0] == run[0] && s[1] == run[1] && s[2] == run[2] && s[3] == run[3] && s[4] == run[4]);
    assert(run_at(s, 0));
    assert(first_run(s, 0) == Some(0int));
    run_goes_to_its_end(run, rest, 4);
    assert(s.subrange(0, run.len() as int) =~= run);
    assert(s.skip(run.len() as int) =~= rest);
}

proof fn run_goes_to_its_end(run: Seq<char>, rest: Seq<char>, i: int)
    requires
        4 <= i <= run.len(),
        forall|k: int| 4 <= k < run.len() ==> '0' <= #[trigger] run[k] <= '9' || 'A' <= run[k]
            <= 'F',
        rest.len() > 0 ==> !('0' <= rest[0] <= '9' || 'A' <= rest[0] <= 'F'),
    ensures
        digits_end(run + rest, i) == run.len(),
    decreases run.len() - i,
{
    let s = run + rest;
    if i < run.len() {
        assert(s[i] == run[i]);
        run_goes_to_its_end(run, rest, i + 1);
    } else if rest.len() > 0 {
        assert(s[i] == rest[0]);
    }
}

/// A character at which no run begins is passed over, and a text shorter than
/// five characters has no run.
#[verifier::spinoff_prover]
#[verifier::rlimit(60)]
pub proof fn text_before_runs_is_passed_over(s: Seq<char>)
    ensures
        s.len() > 0 && !(s.len() >= 5 && s[0] == 'E' && s[1] == '2' && s[2] == '2' && s[3] == '5'
            && ('0' <= s[4] <= '9' || 'A' <= s[4] <= 'F')) ==> header_runs(s) == header_runs(
            s.drop_first(),
        ),
        s.len() < 5 ==> header_runs(s).len() == 0,
    decreases s.len(),
{
    if s.len() > 0 && !run_at(s, 0) {
        let rest = s.drop_first();
        run_moves(s, 1);
        match first_run(rest, 0) {
            Some(i) => {
                run_in_range(rest, 0);
                end_moves(s, i + 5);
                assert(s.subrange(i + 1, digits_end(s, i + 5)) =~= rest.subrange(
                    i,
                    digits_end(rest, i + 4),
                ));
                assert(s.skip(digits_end(s, i + 5)) =~= rest.skip(digits_end(rest, i + 4)));
            },
            None => {},
        }
    }
    if s.len() < 5 {
        run_in_range(s, 0);
    }
}

proof fn run_in_range(s: Seq<char>, from: int)
    requires
        0 <= from,
    ensures
        match first_run(s, from) {
            Some(i) => from <= i && i + 5 <= s.len(),
            None => true,
        },
    decreases s.len() - from,
{
    if from < s.len() && !run_at(s, from) {
        run_in_range(s, from + 1);
    }
}

proof fn run_moves(s: Seq<char>, from: int)
    requires
        1 <= from,
        s.len() > 0,
    ensures
        match first_run(s.drop_first(), from - 1) {
            Some(i) => first_run(s, from) == Some(i + 1),
            None => first_run(s, from) is None,
        },
    decreases s.len() - from,
{
    if from < s.len() {
        assert(run_at(s.drop_first(), from - 1) == run_at(s, from));
        if !run_at(s, from) {
            run_moves(s, from + 1);
        }
    }
}

proof fn end_moves(s: Seq<char>, i: int)
    requires
        1 <= i <= s.len(),
    ensures
        digits_end(s, i) == digits_end(s.drop_first(), i - 1) + 1,
        i <= digits_end(s, i) <= s.len(),
    decreases s.len() - i,
{
    if i < s.len() {
        assert(s.drop_first()[i - 1] == s[i]);
        if is_upper_digit(s[i]) {
            end_moves(s, i + 1);
        }
    }
}

/// A run is cut into pieces of the length asked for, one behind the other; what
/// is left over is dropped.
#[verifier::spinoff_prover]
#[verifier::rlimit(60)]
pub proof fn pieces_stand_in_order(run: Seq<char>, len: nat, k: int)
    requires
        len > 0,
    ensures
        full_pieces(run, len).len() * len <= run.len() < (full_pieces(run, len).len() + 1) * len,
        0 <= k < full_pieces(run, len).len() ==> (k + 1) * len <= run.len() && full_pieces(
            run,
            len,
        )[k] == run.subrange(k * len, (k + 1) * len),
    decreases run.len(),
{
    if run.len() >= len {
        let rest = run.skip(len as int);
        pieces_stand_in_order(rest, len, k - 1);
        let n = full_pieces(rest, len).len();
        assert(full_pieces(run, len).len() == n + 1);
        assert((n + 1) * len == n * len + len && (n + 2) * len == (n + 1) * len + len)
            by (nonlinear_arith);
        if k == 0 {
            assert(0 * len == 0 && 1 * len == len) by (nonlinear_arith);
            assert(run.take(len as int) =~= run.subrange(0, len as int));
        } else if 0 < k < n + 1 {
            assert(k * len == (k - 1) * len + len && (k + 1) * len == k * len + len)
                by (nonlinear_arith);
            assert(0 <= (k - 1) * len) by (nonlinear_arith)
                requires
                    k >= 1,
            ;
            assert(full_pieces(run, len)[k] == full_pieces(rest, len)[k - 1]);
            assert(rest.subrange((k - 1) * len, k * len) =~= run.subrange(k * len, (k + 1) * len));
        }
    } else {
        assert(0 * len == 0 && 1 * len == len) by (nonlinear_arith);
    }
}

/// The segments of several files follow one another in the order of the files.
pub proof fn files_come_in_order(contents: Seq<Seq<char>>, content: Seq<char>, len: nat)
    ensures
        files_segments(Seq::empty(), len).len() == 0,
        files_segments(contents.push(content), len) == files_segments(contents, len)
            + files_segments(seq![content], len),
        files_segments(seq![content], len) == file_segments(content, len),
{
    assert(contents.push(content).drop_last() =~= contents);
    assert(seq![content].drop_last() =~= Seq::<Seq<char>>::empty());
    reveal_with_fuel(files_segments, 2);
    assert(Seq::<Seq<char>>::empty() + file_segments(content, len) =~= file_segments(content, len));
}

/// Whitespace within the lines of a file makes no difference, nor does the
/// order in which it is taken out of the parts.
pub proof fn white_space_is_passed_over(a: Seq<char>, c: char, b: Seq<char>)
    ensures
        without_white(a + seq![c] + b) == (if is_white(c) {
            without_white(a) + without_white(b)
        } else {
            without_white(a) + seq![c] + without_white(b)
        }),
{
    let keep = |x: char| !is_white(x);
    Seq::filter_distributes_over_add(a + seq![c], b, keep);
    Seq::filter_distributes_over_add(a, seq![c], keep);
    reveal(Seq::filter);
    assert(seq![c].drop_last() =~= Seq::<char>::empty());
    assert(Seq::<char>::empty().filter(keep) =~= Seq::<char>::empty());
    assert(seq![c].filter(keep) =~= if is_white(c) { Seq::<char>::empty() } else { seq![c] });
    assert(without_white(a) + Seq::<char>::empty() =~= without_white(a));
}

/// A line is in order where it is empty or begins with E, 2, 2 and 5.
pub proof fn lines_in_order(line: Seq<char>)
    ensures
        line_ok(line) == (line.len() == 0 || (line.len() >= 4 && line[0] == 'E' && line[1] == '2'
            && line[2] == '2' && line[3] == '5')),
{
    reveal_strlit("E225");
    let code = "E225"@;
    if line.len() >= 4 {
        if code.is_prefix_of(line) {
            assert(line.subrange(0, 4) == code);
            assert(line[0] == line.subrange(0, 4)[0] && line[1] == line.subrange(0, 4)[1] && line[2]
                == line.subrange(0, 4)[2] && line[3] == line.subrange(0, 4)[3]);
        }
        if line[0] == 'E' && line[1] == '2' && line[2] == '2' && line[3] == '5' {
            assert(line.subrange(0, 4) =~= code);
        }
    }
}

proof fn first_bad_is_first(lines: Seq<Seq<char>>)
    ensures
        match first_bad_line(lines) {
            Some(i) => 0 <= i < lines.len() && !line_ok(lines[i]) && (forall|j: int|
                0 <= j < i ==> line_ok(#[trigger] lines[j])),
            None => forall|j: int| 0 <= j < lines.len() ==> line_ok(#[trigger] lines[j]),
        },
    decreases lines.len(),
{
    if lines.len() > 0 {
        first_bad_is_first(lines.drop_last());
        assert forall|j: int| 0 <= j < lines.len() - 1 implies #[trigger] lines[j]
            == lines.drop_last()[j] by {}
    }
}

proof fn first_line_is_first(lines: Seq<Seq<char>>)
    ensures
        match first_line(lines) {
            Some(line) => exists|i: int|
                0 <= i < lines.len() && #[trigger] lines[i] == line && line.len() > 0 && (forall|
                    j: int,
                |
                    0 <= j < i ==> (#[trigger] lines[j]).len() == 0),
            None => forall|j: int| 0 <= j < lines.len() ==> (#[trigger] lines[j]).len() == 0,
        },
    decreases lines.len(),
{
    if lines.len() > 0 {
        let front = lines.drop_last();
        first_line_is_first(front);
        assert forall|j: int| 0 <= j < lines.len() - 1 implies #[trigger] lines[j] == front[j] by {}
        if first_line(front) is Some {
            let i = choose|i: int|
                0 <= i < front.len() && #[trigger] front[i] == first_line(front)->0 && first_line(
                    front,
                )->0.len() > 0 && (forall|j: int| 0 <= j < i ==> (#[trigger] front[j]).len() == 0);
            assert(lines[i] == first_line(front)->0);
        } else if lines.last().len() > 0 {
            assert(lines[lines.len() - 1] == lines.last());
        }
    }
}

/// The outcome of a header check names the first line that is out of order: by
/// its number, counted from one, and its text. Where there is none, an error in
/// reading comes next, then a file without lines; a valid file shows its first
/// line that is not empty.
#[verifier::spinoff_prover]
#[verifier::rlimit(60)]
pub proof fn header_checks(
    lines: Seq<Seq<char>>,
    file_path: Seq<char>,
    read_error: Option<Seq<char>>,
)
    ensures
        ({
            let outcome = validation(lines, file_path, read_error);
            let in_order = forall|j: int| 0 <= j < lines.len() ==> line_ok(#[trigger] lines[j]);
            &&& outcome.is_valid == (in_order && read_error is None && lines.len() > 0)
            &&& outcome.is_valid == (outcome.error_message is None)
            &&& !in_order ==> {
                let line = outcome.error_line;
                &&& 1 <= line <= lines.len()
                &&& !line_ok(lines[line - 1])
                &&& forall|j: int| 0 <= j < line - 1 ==> line_ok(#[trigger] lines[j])
                &&& outcome.error_content == Some(lines[line - 1])
                &&& outcome.error_message == Some("Header INCORRECT at line "@ + int_text(line))
                &&& outcome.filtered_file_path == Some(file_path)
                &&& outcome.first_header_content is None
            }
            &&& in_order ==> outcome.error_line == 0 && outcome.error_content is None
            &&& in_order && read_error is Some ==> outcome.error_message == Some(
                "Error reading file: "@ + read_error->0,
            ) && outcome.filtered_file_path == Some(file_path) && outcome.first_header_content is None
            &&& in_order && read_error is None && lines.len() == 0 ==> outcome.error_message == Some(
                "File is empty."@,
            ) && outcome.filtered_file_path is None && outcome.first_header_content is None
            &&& outcome.is_valid ==> outcome.filtered_file_path is None
            &&& outcome.is_valid ==> match outcome.first_header_content {
                Some(line) => exists|i: int|
                    0 <= i < lines.len() && #[trigger] lines[i] == line && line.len() > 0 && (
                    forall|j: int| 0 <= j < i ==> (#[trigger] lines[j]).len() == 0),
                None => forall|j: int| 0 <= j < lines.len() ==> (#[trigger] lines[j]).len() == 0,
            }
        }),
{
    first_bad_is_first(lines);
    first_line_is_first(lines);
}

/// Files are combined in their order, byte by byte.
pub proof fn combined_in_order(contents: Seq<Vec<u8>>, content: Vec<u8>)
    ensures
        combined(Seq::empty()).len() == 0,
        combined(contents.push(content)) == combined(contents) + content@,
{
    assert(contents.push(content).drop_last() =~= contents);
}

/// The places of files: output stands below "DSSD_Analysis", a workbook below
/// its folder or "Source", and one that is looked for in the folder of its
/// name, in "Source", or beside it, the first that is there.
#[verifier::spinoff_prover]
#[verifier::rlimit(60)]
pub proof fn places_of_files(name: Seq<char>, folder: Seq<char>, present: Seq<bool>)
    requires
        present.len() == 3,
    ensures
        folder.len() == 0 ==> output_folder(folder) == seq!["DSSD_Analysis"@],
        folder.len() > 0 ==> output_folder(folder) == seq!["DSSD_Analysis"@, folder],
        save_place(name, folder) == (if trimmed(folder).len() == 0 {
            seq!["DSSD_Analysis"@, "Source"@, workbook_name(name)]
        } else {
            seq!["DSSD_Analysis"@, folder, workbook_name(name)]
        }),
        first_present(possible_places(name), present) == (if present[0] {
            Some(seq!["DSSD_Analysis"@, name, name + "_ParticleData.xlsx"@])
        } else if present[1] {
            Some(seq!["DSSD_Analysis"@, "Source"@, name + ".xlsx"@])
        } else if present[2] {
            Some(seq!["DSSD_Analysis"@, name + ".xlsx"@])
        } else {
            None
        }),
{
    reveal_strlit("Source");
    reveal_with_fuel(first_present, 4);
    let all = possible_places(name);
    assert(all.drop_first()[0] == all[1]);
    assert(all.drop_first().drop_first()[0] == all[2]);
    assert(present.drop_first()[0] == present[1]);
    assert(present.drop_first().drop_first()[0] == present[2]);
    if trimmed(folder).len() == 0 {
        assert(save_place(name, folder) =~= seq!["DSSD_Analysis"@, "Source"@, workbook_name(name)]);
    } else {
        nothing_to_trim(folder);
        assert(save_place(name, folder) =~= seq!["DSSD_Analysis"@, folder, workbook_name(name)]);
    }
}

proof fn nothing_to_trim(s: Seq<char>)
    ensures
        s.len() == 0 ==> trimmed(s).len() == 0,
{
}

/// A workbook's name ends in ".xlsx" in either case, and nothing else about a
/// name is changed.
#[verifier::spinoff_prover]
#[verifier::rlimit(60)]
pub proof fn workbooks_have_their_ending(name: Seq<char>)
    ensures
        ({
            let full = workbook_name(name);
            let n = full.len() as int;
            &&& n >= 5
            &&& full[n - 5] == '.'
            &&& full[n - 4] == 'x' || full[n - 4] == 'X'
            &&& full[n - 3] == 'l' || full[n - 3] == 'L'
            &&& full[n - 2] == 's' || full[n - 2] == 'S'
            &&& full[n - 1] == 'x' || full[n - 1] == 'X'
            &&& full == name || full == name + ".xlsx"@
            &&& workbook_name(full) == full
        }),
{
    reveal_strlit(".xlsx");
    let full = workbook_name(name);
    let ending = ".xlsx"@;
    let n = full.len() as int;
    if full == name + ending {
        assert(full.skip(n - 5) =~= ending);
    }
    let last = full.skip(n - 5);
    assert(same_ignoring_case(last, ending));
    assert(upper(last[0]) == upper(ending[0]));
    assert(upper(last[1]) == upper(ending[1]));
    assert(upper(last[2]) == upper(ending[2]));
    assert(upper(last[3]) == upper(ending[3]));
    assert(upper(last[4]) == upper(ending[4]));
    assert(last[0] == full[n - 5] && last[1] == full[n - 4] && last[2] == full[n - 3] && last[3]
        == full[n - 2] && last[4] == full[n - 1]);
}

/// The pieces of several runs follow one another in the order of the runs.
pub proof fn runs_come_in_order(runs: Seq<Seq<char>>, run: Seq<char>, len: nat)
    ensures
        pieces_of_runs(Seq::empty(), len).len() == 0,
        pieces_of_runs(runs.push(run), len) == pieces_of_runs(runs, len) + full_pieces(run, len),
{
    assert(runs.push(run).drop_last() =~= runs);
}

/// A file is cut after its whitespace is taken out.
pub proof fn files_are_cut_without_white_space(content: Seq<char>, len: nat)
    ensures
        file_segments(content, len) == pieces_of_runs(header_runs(without_white(content)), len),
{
}

/// A file that is refused outright: no line is named, and no path.
pub proof fn files_refused(message: Seq<char>)
    ensures
        !refused(message).is_valid,
        refused(message).error_message == Some(message),
        refused(message).error_line == 0,
        refused(message).error_content is None,
        refused(message).first_header_content is None,
        refused(message).filtered_file_path is None,
{
}

/// The cells of a worksheet row that is too short are missing, the others are
/// those of the row.
pub proof fn short_rows<T>(row: Seq<T>, c: int, missing: T)
    ensures
        0 <= c < row.len() ==> cell_at(row, c, missing) == row[c],
        c < 0 || c >= row.len() ==> cell_at(row, c, missing) == missing,
{
}

} // verus!
