//! Segments of a baseline recording.
//!
//! A recording is hexadecimal text with other characters in between. A
//! segment is 4128 digits from the synchronisation code on and holds fifteen
//! samples. The recording is read in pieces, and a segment may span several of
//! them.

use crate::io::file_helper::combined;
use crate::models::baseline::{baseline_views, baseline_views_push, BaselineData, BaselineView};
use crate::observation::frame::{hex_nibble, nibble_of};
use vstd::prelude::*;

verus! {

/// Digits of one segment.
pub const CHUNK_SIZE: usize = 4128;

/// Samples of one segment.
pub const SAMPLES_PER_SEGMENT: usize = 15;

/// The hexadecimal digits of a piece of a recording.
pub open spec fn hex_digits(content: Seq<u8>) -> Seq<u8> {
    content.filter(|b: u8| nibble_of(b) is Some)
}

/// The synchronisation code stands at `i`, in either case.
pub open spec fn sync_at(digits: Seq<u8>, i: int) -> bool {
    &&& 0 <= i
    &&& i + 4 <= digits.len()
    &&& nibble_of(digits[i]) == Some(0xEu8)
    &&& nibble_of(digits[i + 1]) == Some(0x2u8)
    &&& nibble_of(digits[i + 2]) == Some(0x2u8)
    &&& nibble_of(digits[i + 3]) == Some(0x5u8)
}

/// The first synchronisation code at `from` or later.
pub open spec fn first_sync(digits: Seq<u8>, from: int) -> Option<int>
    decreases digits.len() - from,
{
    if from >= digits.len() {
        None
    } else if sync_at(digits, from) {
        Some(from)
    } else {
        first_sync(digits, from + 1)
    }
}

/// The next segment that is complete begins there.
pub open spec fn next_segment(digits: Seq<u8>) -> Option<int> {
    match first_sync(digits, 0) {
        Some(i) => if i + 4128 <= digits.len() {
            Some(i)
        } else {
            None
        },
        None => None,
    }
}

proof fn first_sync_found(digits: Seq<u8>, from: int)
    requires
        0 <= from,
    ensures
        match first_sync(digits, from) {
            Some(i) => from <= i && sync_at(digits, i) && (forall|j: int|
                from <= j < i ==> !#[trigger] sync_at(digits, j)),
            None => forall|j: int| from <= j ==> !#[trigger] sync_at(digits, j),
        },
    decreases digits.len() - from,
{
    if from < digits.len() && !sync_at(digits, from) {
        first_sync_found(digits, from + 1);
    }
}

/// The complete segments of a run of digits: from the first synchronisation
/// code on, then from the first one after that segment, and so on.
pub open spec fn segments(digits: Seq<u8>) -> Seq<Seq<u8>>
    decreases digits.len(),
    via segments_shrink
{
    match next_segment(digits) {
        Some(i) => seq![digits.subrange(i, i + 4128)] + segments(digits.skip(i + 4128)),
        None => Seq::empty(),
    }
}

#[via_fn]
proof fn segments_shrink(digits: Seq<u8>) {
    first_sync_found(digits, 0);
}

/// The digits after the last complete segment.
pub open spec fn leftover(digits: Seq<u8>) -> Seq<u8>
    decreases digits.len(),
    via leftover_shrinks
{
    match next_segment(digits) {
        Some(i) => leftover(digits.skip(i + 4128)),
        None => digits,
    }
}

#[via_fn]
proof fn leftover_shrinks(digits: Seq<u8>) {
    first_sync_found(digits, 0);
}

/// The byte in the digits `i` and `i + 1`.
pub open spec fn digit_byte(segment: Seq<u8>, i: int) -> int {
    16 * nibble_of(segment[i])->0 + nibble_of(segment[i + 1])->0
}

/// The number in the four digits from `i` on.
pub open spec fn digit_word(segment: Seq<u8>, i: int) -> int {
    256 * digit_byte(segment, i) + digit_byte(segment, i + 2)
}

/// The sixteen channel values in the 64 digits from `start` on.
pub open spec fn channels(segment: Seq<u8>, start: int) -> Seq<i32> {
    Seq::new(16, |j: int| digit_word(segment, start + 4 * j) as i32)
}

/// Sample `i` of a segment.
pub open spec fn sample(segment: Seq<u8>, i: int) -> BaselineView {
    BaselineView {
        packet: digit_word(segment, 32),
        number: i + 1,
        l1: channels(segment, 36 + 128 * i),
        l2: channels(segment, 36 + 128 * i + 64),
        l6: channels(segment, 1956 + 128 * i),
        l7: channels(segment, 1956 + 128 * i + 64),
    }
}

/// The fifteen samples of a segment.
pub open spec fn samples(segment: Seq<u8>) -> Seq<BaselineView> {
    Seq::new(15, |i: int| sample(segment, i))
}

/// The samples of all segments, in order.
pub open spec fn all_samples(segments: Seq<Seq<u8>>) -> Seq<BaselineView>
    decreases segments.len(),
{
    if segments.len() == 0 {
        Seq::empty()
    } else {
        samples(segments[0]) + all_samples(segments.drop_first())
    }
}

/// The samples of a recording.
pub open spec fn recording_samples(content: Seq<u8>) -> Seq<BaselineView> {
    all_samples(segments(hex_digits(content)))
}

/// All characters are hexadecimal digits.
pub open spec fn only_digits(digits: Seq<u8>) -> bool {
    forall|i: int| 0 <= i < digits.len() ==> nibble_of(#[trigger] digits[i]) is Some
}

fn digit(b: u8) -> (r: i32)
    requires
        nibble_of(b) is Some,
    ensures
        r == nibble_of(b)->0,
        0 <= r < 16,
{
    match hex_nibble(b) {
        Some(d) => d as i32,
        None => 0,
    }
}

fn find_sync(digits: &[u8], from: usize) -> (r: Option<usize>)
    ensures
        match r {
            Some(i) => first_sync(digits@, from as int) == Some(i as int),
            None => first_sync(digits@, from as int) is None,
        },
{
    let mut i: usize = from;
    while i < digits.len()
        invariant
            from <= i,
            first_sync(digits@, from as int) == first_sync(digits@, i as int),
        decreases digits@.len() - i,
    {
        if digits.len() - i >= 4 {
            let here = (digits[i] == 0x45 || digits[i] == 0x65) && digits[i + 1] == 0x32
                && digits[i + 2] == 0x32 && digits[i + 3] == 0x35;
            assert(here == sync_at(digits@, i as int));
            if here {
                return Some(i);
            }
        }
        i = i + 1;
    }
    None
}

fn read_word(segment: &[u8], i: usize) -> (r: i32)
    requires
        i + 4 <= segment@.len(),
        only_digits(segment@),
    ensures
        r == digit_word(segment@, i as int),
        0 <= r < 65536,
{
    let high: i32 = digit(segment[i]) * 16 + digit(segment[i + 1]);
    let low: i32 = digit(segment[i + 2]) * 16 + digit(segment[i + 3]);
    high * 256 + low
}

fn read_channels(segment: &[u8], start: usize) -> (r: [i32; 16])
    requires
        start + 64 <= segment@.len(),
        only_digits(segment@),
    ensures
        r@ == channels(segment@, start as int),
{
    let mut values: [i32; 16] = [0; 16];
    for j in 0..16usize
        invariant
            start + 64 <= segment.len(),
            only_digits(segment@),
            forall|k: int|
                0 <= k < j ==> #[trigger] values@[k] == digit_word(segment@, start + 4 * k) as i32,
    {
        values[j] = read_word(segment, start + 4 * j);
    }
    assert(values@ =~= channels(segment@, start as int));
    values
}

fn push_samples(results: &mut Vec<BaselineData>, segment: &[u8])
    requires
        segment@.len() == 4128,
        only_digits(segment@),
    ensures
        baseline_views(final(results)@) == baseline_views(old(results)@) + samples(segment@),
{
    let sampling_packet_no: i32 = read_word(segment, 32);
    let ghost start = baseline_views(results@);
    assert(start + samples(segment@).take(0) =~= start);
    for i in 0..SAMPLES_PER_SEGMENT
        invariant
            segment@.len() == 4128,
            only_digits(segment@),
            sampling_packet_no == digit_word(segment@, 32),
            baseline_views(results@) == start + samples(segment@).take(i as int),
    {
        let data = BaselineData {
            sampling_packet_no,
            sampling_no: (i + 1) as i32,
            l1: read_channels(segment, 36 + 128 * i),
            l2: read_channels(segment, 36 + 128 * i + 64),
            l6: read_channels(segment, 1956 + 128 * i),
            l7: read_channels(segment, 1956 + 128 * i + 64),
        };
        proof {
            baseline_views_push(results@, data);
            assert(data@ == samples(segment@)[i as int]);
            assert(samples(segment@).take(i + 1) == samples(segment@).take(i as int).push(data@));
            assert(start + samples(segment@).take(i + 1) =~= (start + samples(segment@).take(
                i as int,
            )).push(data@));
        }
        results.push(data);
    }
    assert(samples(segment@).take(15) =~= samples(segment@));
}

/// Reads a recording piece by piece.
#[derive(Debug, Clone)]
pub struct SegmentStream {
    /// Digits that belong to no complete segment yet.
    pub pending: Vec<u8>,
    /// The samples so far.
    pub results: Vec<BaselineData>,
}

impl SegmentStream {
    /// The pending digits are digits.
    pub open spec fn wf(self) -> bool {
        only_digits(self.pending@)
    }

    /// Nothing read yet.
    pub fn new() -> (r: SegmentStream)
        ensures
            r.wf(),
            r.pending@ == Seq::<u8>::empty(),
            baseline_views(r.results@) == Seq::<BaselineView>::empty(),
    {
        let r = SegmentStream { pending: Vec::new(), results: Vec::new() };
        assert(baseline_views(r.results@) =~= Seq::<BaselineView>::empty());
        r
    }

    /// Reads the next piece: its digits follow the pending ones, and the
    /// complete segments give their samples.
    pub fn feed(&mut self, piece: &[u8])
        requires
            old(self).wf(),
        ensures
            final(self).wf(),
            final(self).pending@ == leftover(old(self).pending@ + hex_digits(piece@)),
            baseline_views(final(self).results@) == baseline_views(old(self).results@) + all_samples(
                segments(old(self).pending@ + hex_digits(piece@)),
            ),
    {
        let ghost before = self.pending@;
        push_digits(&mut self.pending, piece);
        let ghost digits = before + hex_digits(piece@);
        let ghost start = baseline_views(self.results@);
        let mut at: usize = 0;
        assert(digits.skip(0) =~= digits);
        loop
            invariant
                self.pending@ == digits,
                only_digits(digits),
                at <= digits.len(),
                leftover(digits) == leftover(digits.skip(at as int)),
                start + all_samples(segments(digits)) == baseline_views(self.results@) + all_samples(
                    segments(digits.skip(at as int)),
                ),
            ensures
                self.pending@ == digits,
                at <= digits.len(),
                leftover(digits) == digits.skip(at as int),
                start + all_samples(segments(digits)) == baseline_views(self.results@),
            decreases digits.len() - at,
        {
            let ghost rest = digits.skip(at as int);
            proof {
                shift_sync(digits, at as int, 0);
                first_sync_found(rest, 0);
            }
            let found = find_sync(self.pending.as_slice(), at);
            match found {
                Some(i) => {
                    if self.pending.len() - i >= CHUNK_SIZE {
                        let segment = &self.pending.as_slice()[i..i + CHUNK_SIZE];
                        proof {
                            assert(segment@ =~= rest.subrange(i - at, i - at + 4128));
                            assert(only_digits(segment@));
                            assert(rest.skip(i - at + 4128) =~= digits.skip(i + 4128));
                            let all = segments(rest);
                            assert(all[0] == segment@);
                            assert(all.drop_first() =~= segments(digits.skip(i + 4128)));
                            assert(baseline_views(self.results@) + (samples(segment@) + all_samples(
                                segments(digits.skip(i + 4128)),
                            )) =~= (baseline_views(self.results@) + samples(segment@))
                                + all_samples(segments(digits.skip(i + 4128))));
                        }
                        push_samples(&mut self.results, segment);
                        at = i + CHUNK_SIZE;
                    } else {
                        proof {
                            assert(next_segment(rest) is None);
                            assert(baseline_views(self.results@) + Seq::<BaselineView>::empty()
                                =~= baseline_views(self.results@));
                        }
                        break;
                    }
                },
                None => {
                    proof {
                        assert(next_segment(rest) is None);
                        assert(baseline_views(self.results@) + Seq::<BaselineView>::empty()
                            =~= baseline_views(self.results@));
                    }
                    break;
                },
            }
        }
        let rest = copy_from(self.pending.as_slice(), at);
        self.pending = rest;
    }

    /// Whether progress is due to be shown: after every thousand samples.
    pub fn reports_progress(&self) -> (r: bool)
        ensures
            r == (self.results@.len() % 1000 == 0),
    {
        self.results.len() % 1000 == 0
    }

    /// The recording has ended; what is pending is dropped.
    pub fn finish(self) -> (r: Vec<BaselineData>)
        ensures
            r == self.results,
    {
        self.results
    }
}

fn copy_from(digits: &[u8], at: usize) -> (r: Vec<u8>)
    requires
        at <= digits@.len(),
    ensures
        r@ == digits@.skip(at as int),
{
    let mut rest: Vec<u8> = Vec::new();
    let mut i: usize = at;
    while i < digits.len()
        invariant
            at <= i <= digits@.len(),
            rest@ == digits@.subrange(at as int, i as int),
        decreases digits@.len() - i,
    {
        rest.push(digits[i]);
        i = i + 1;
    }
    rest
}

fn push_digits(digits: &mut Vec<u8>, piece: &[u8])
    requires
        only_digits(old(digits)@),
    ensures
        final(digits)@ == old(digits)@ + hex_digits(piece@),
        only_digits(final(digits)@),
{
    let ghost start = digits@;
    assert(start + hex_digits(piece@.take(0)) =~= start) by {
        reveal(Seq::filter);
    }
    for i in 0..piece.len()
        invariant
            digits@ == start + hex_digits(piece@.take(i as int)),
            only_digits(digits@),
    {
        proof {
            assert(piece@.take(i + 1).drop_last() == piece@.take(i as int));
            reveal(Seq::filter);
        }
        match hex_nibble(piece[i]) {
            Some(_) => {
                digits.push(piece[i]);
            },
            None => {},
        }
        assert(digits@ =~= start + hex_digits(piece@.take(i + 1)));
    }
    assert(piece@.take(piece@.len() as int) =~= piece@);
}

proof fn shift_sync(digits: Seq<u8>, at: int, from: int)
    requires
        0 <= at <= digits.len(),
        0 <= from,
    ensures
        match first_sync(digits.skip(at), from) {
            Some(i) => first_sync(digits, at + from) == Some(at + i),
            None => first_sync(digits, at + from) is None,
        },
    decreases digits.len() - at - from,
{
    if at + from < digits.len() {
        assert(sync_at(digits.skip(at), from) == sync_at(digits, at + from));
        if !sync_at(digits, at + from) {
            shift_sync(digits, at, from + 1);
        }
    }
}

proof fn sync_in_front(digits: Seq<u8>, more: Seq<u8>)
    requires
        next_segment(digits) is Some,
    ensures
        next_segment(digits + more) == next_segment(digits),
{
    let whole = digits + more;
    first_sync_found(digits, 0);
    first_sync_found(whole, 0);
    let i = first_sync(digits, 0)->0;
    assert(sync_at(whole, i)) by {
        assert(whole[i] == digits[i] && whole[i + 1] == digits[i + 1] && whole[i + 2] == digits[i
            + 2] && whole[i + 3] == digits[i + 3]);
    }
    let j = first_sync(whole, 0)->0;
    if j < i {
        assert(whole[j] == digits[j] && whole[j + 1] == digits[j + 1] && whole[j + 2] == digits[j
            + 2] && whole[j + 3] == digits[j + 3]);
        assert(sync_at(digits, j));
    }
}

/// Where a run of digits is cut makes no difference: the segments of the whole
/// are those of the first part, then those that the leftover of the first part
/// and the second part give.
pub proof fn segments_of_parts(digits: Seq<u8>, more: Seq<u8>)
    ensures
        segments(digits + more) == segments(digits) + segments(leftover(digits) + more),
        leftover(digits + more) == leftover(leftover(digits) + more),
    decreases digits.len(),
{
    match next_segment(digits) {
        Some(i) => {
            first_sync_found(digits, 0);
            sync_in_front(digits, more);
            let rest = digits.skip(i + 4128);
            segments_of_parts(rest, more);
            assert((digits + more).skip(i + 4128) =~= rest + more);
            assert((digits + more).subrange(i, i + 4128) =~= digits.subrange(i, i + 4128));
            let first = seq![digits.subrange(i, i + 4128)];
            assert(first + (segments(rest) + segments(leftover(rest) + more)) =~= (first + segments(
                rest,
            )) + segments(leftover(rest) + more));
        },
        None => {
            assert(Seq::<Seq<u8>>::empty() + segments(digits + more) =~= segments(digits + more));
        },
    }
}

/// The samples of two lists of segments, one after the other.
pub proof fn all_samples_concat(a: Seq<Seq<u8>>, b: Seq<Seq<u8>>)
    ensures
        all_samples(a + b) == all_samples(a) + all_samples(b),
    decreases a.len(),
{
    if a.len() == 0 {
        assert(a + b =~= b);
        assert(Seq::<BaselineView>::empty() + all_samples(b) =~= all_samples(b));
    } else {
        all_samples_concat(a.drop_first(), b);
        assert((a + b).drop_first() =~= a.drop_first() + b);
        assert((a + b)[0] == a[0]);
        assert(samples(a[0]) + (all_samples(a.drop_first()) + all_samples(b)) =~= (samples(a[0])
            + all_samples(a.drop_first())) + all_samples(b));
    }
}

/// Every segment has fifteen samples.
pub proof fn all_samples_count(segments: Seq<Seq<u8>>)
    ensures
        all_samples(segments).len() == 15 * segments.len(),
    decreases segments.len(),
{
    if segments.len() > 0 {
        all_samples_count(segments.drop_first());
    }
}

/// Every segment has its 4128 digits and begins with the synchronisation code.
pub proof fn segments_are_whole(digits: Seq<u8>)
    ensures
        forall|k: int|
            0 <= k < segments(digits).len() ==> (#[trigger] segments(digits)[k]).len() == 4128
                && sync_at(segments(digits)[k], 0),
    decreases digits.len(),
{
    match next_segment(digits) {
        Some(i) => {
            first_sync_found(digits, 0);
            segments_are_whole(digits.skip(i + 4128));
            let first = digits.subrange(i, i + 4128);
            assert(first[0] == digits[i] && first[1] == digits[i + 1] && first[2] == digits[i + 2]
                && first[3] == digits[i + 3]);
            let rest = segments(digits.skip(i + 4128));
            assert forall|k: int| 0 <= k < segments(digits).len() implies (
            #[trigger] segments(digits)[k]).len() == 4128 && sync_at(segments(digits)[k], 0) by {
                if k > 0 {
                    assert(segments(digits)[k] == rest[k - 1]);
                }
            }
        },
        None => {},
    }
}

/// The samples of a recording that is read in pieces. They do not depend on
/// where it is cut.
pub fn process_file_stream(pieces: &[Vec<u8>]) -> (r: Vec<BaselineData>)
    ensures
        baseline_views(r@) == recording_samples(combined(pieces@)),
{
    let mut stream = SegmentStream::new();
    proof {
        assert(pieces@.take(0) =~= Seq::<Vec<u8>>::empty());
        let none = hex_digits(Seq::<u8>::empty());
        assert(none =~= Seq::<u8>::empty()) by {
            reveal(Seq::filter);
        }
        first_sync_found(none, 0);
    }
    for k in 0..pieces.len()
        invariant
            stream.wf(),
            stream.pending@ == leftover(hex_digits(combined(pieces@.take(k as int)))),
            baseline_views(stream.results@) == recording_samples(
                combined(pieces@.take(k as int)),
            ),
    {
        let ghost before = hex_digits(combined(pieces@.take(k as int)));
        let ghost next = hex_digits(pieces@[k as int]@);
        stream.feed(pieces[k].as_slice());
        proof {
            assert(pieces@.take(k + 1).drop_last() =~= pieces@.take(k as int));
            Seq::filter_distributes_over_add(
                combined(pieces@.take(k as int)),
                pieces@[k as int]@,
                |b: u8| nibble_of(b) is Some,
            );
            segments_of_parts(before, next);
            all_samples_concat(segments(before), segments(leftover(before) + next));
        }
    }
    assert(pieces@.take(pieces@.len() as int) =~= pieces@);
    stream.finish()
}

} // verus!
