//! Progress through the bytes of several recordings.

use crate::observation::data_processor::{
    contents_views, files_frames, total_length, ObservationDataProcessor, ProcessorView,
};
use crate::observation::histogram::{all_entries, HistogramSet};
use vstd::prelude::*;

verus! {

/// Bytes that are read at a time.
pub const READ_CHUNK: usize = 65536;

/// Bytes read so far, of all.
#[derive(Debug, Clone, Copy, PartialEq, Eq, Structural)]
pub struct ByteProgress {
    pub processed: u64,
    pub total: u64,
}

impl ByteProgress {
    /// Nothing read yet.
    pub fn new(total: u64) -> (r: ByteProgress)
        ensures
            r.processed == 0,
            r.total == total,
    {
        ByteProgress { processed: 0, total }
    }

    /// `read` more bytes were read; the numbers to report.
    pub fn advance(&mut self, read: usize) -> (r: (u64, u64))
        requires
            old(self).processed + read <= u64::MAX,
        ensures
            final(self).processed == old(self).processed + read,
            final(self).total == old(self).total,
            r == (final(self).processed, final(self).total),
    {
        self.processed = self.processed + read as u64;
        (self.processed, self.total)
    }

    /// All recordings are done; the numbers to report.
    pub fn finish(&self) -> (r: (u64, u64))
        ensures
            r == (self.total, self.total),
    {
        (self.total, self.total)
    }
}

/// The reports while `len` bytes are read, `base` bytes having been read
/// before.
pub open spec fn chunk_reports(base: int, len: int, total: int) -> Seq<(u64, u64)>
    decreases len,
{
    if len <= 0 {
        Seq::empty()
    } else {
        let step = if len < READ_CHUNK { len } else { READ_CHUNK as int };
        seq![((base + step) as u64, total as u64)] + chunk_reports(base + step, len - step, total)
    }
}

/// The reports while recordings are read one after the other.
pub open spec fn file_reports(contents: Seq<Seq<u8>>, total: int) -> Seq<(u64, u64)>
    decreases contents.len(),
{
    if contents.len() == 0 {
        Seq::empty()
    } else {
        file_reports(contents.drop_last(), total) + chunk_reports(
            total_length(contents.drop_last()) as int,
            contents.last().len() as int,
            total,
        )
    }
}

/// All reports: one at the start, one after each chunk, one at the end.
pub open spec fn progress_reports(contents: Seq<Seq<u8>>) -> Seq<(u64, u64)> {
    let total = total_length(contents) as int;
    seq![(0u64, total as u64)] + file_reports(contents, total) + seq![(total as u64, total as u64)]
}

proof fn total_length_grows(contents: Seq<Seq<u8>>, k: int)
    requires
        0 <= k <= contents.len(),
    ensures
        total_length(contents.take(k)) <= total_length(contents),
    decreases contents.len(),
{
    if k == contents.len() {
        assert(contents.take(k) == contents);
    } else {
        assert(contents.drop_last().take(k) == contents.take(k));
        total_length_grows(contents.drop_last(), k);
    }
}

fn read_reports(progress: &mut ByteProgress, len: usize, reports: &mut Vec<(u64, u64)>)
    requires
        old(progress).processed + len <= u64::MAX,
    ensures
        final(progress).processed == old(progress).processed + len,
        final(progress).total == old(progress).total,
        final(reports)@ == old(reports)@ + chunk_reports(
            old(progress).processed as int,
            len as int,
            old(progress).total as int,
        ),
{
    let mut left: usize = len;
    let ghost start = progress.processed as int;
    let ghost before = reports@;
    let ghost whole = chunk_reports(start, len as int, progress.total as int);
    assert(before + whole == reports@ + whole);
    while left > 0
        invariant
            left <= len,
            progress.processed == start + (len - left),
            start + len <= u64::MAX,
            progress.total == old(progress).total,
            before + whole == reports@ + chunk_reports(
                progress.processed as int,
                left as int,
                progress.total as int,
            ),
        decreases left,
    {
        let step: usize = if left < READ_CHUNK { left } else { READ_CHUNK };
        let report = progress.advance(step);
        let ghost rest = chunk_reports(
            progress.processed as int,
            left - step,
            progress.total as int,
        );
        assert(reports@ + (seq![report] + rest) == reports@.push(report) + rest);
        reports.push(report);
        left = left - step;
    }
    assert(before + whole == reports@);
}

/// The bytes of several recordings together.
pub fn count_bytes(contents: &[Vec<u8>]) -> (r: u64)
    requires
        total_length(contents_views(contents@)) <= u64::MAX,
    ensures
        r == total_length(contents_views(contents@)),
{
    let ghost all = contents_views(contents@);
    let mut total: u64 = 0;
    assert(all.take(0) == Seq::<Seq<u8>>::empty());
    for i in 0..contents.len()
        invariant
            all == contents_views(contents@),
            total_length(all) <= u64::MAX,
            total == total_length(all.take(i as int)),
    {
        proof {
            assert(all.take(i + 1).drop_last() == all.take(i as int));
            assert(all[i as int] == contents@[i as int]@);
            total_length_grows(all, i + 1);
        }
        total = total + contents[i].len() as u64;
    }
    assert(all.take(all.len() as int) == all);
    total
}

impl ObservationDataProcessor {
    /// Collects the particles of several recordings, as `process_files` does,
    /// and lists the numbers to report while they are read.
    pub fn process_files_with_progress(&mut self, contents: &[Vec<u8>]) -> (r: (
        HistogramSet,
        Vec<(u64, u64)>,
    ))
        requires
            5 * (total_length(contents_views(contents@)) / 512) <= i32::MAX,
        ensures
            final(self)@ == ProcessorView::empty().add_frames(files_frames(contents_views(contents@))),
            final(self)@.wf(),
            r.0@ == all_entries(final(self)@.signals, false),
            r.1@ == progress_reports(contents_views(contents@)),
    {
        let ghost all = contents_views(contents@);
        let total: u64 = count_bytes(contents);
        let mut progress = ByteProgress::new(total);
        let mut reports: Vec<(u64, u64)> = Vec::new();
        reports.push((0, total));
        assert(all.take(0) == Seq::<Seq<u8>>::empty());
        for i in 0..contents.len()
            invariant
                all == contents_views(contents@),
                total == total_length(all),
                progress.total == total,
                progress.processed == total_length(all.take(i as int)),
                reports@ == seq![(0u64, total)] + file_reports(all.take(i as int), total as int),
        {
            proof {
                assert(all.take(i + 1).drop_last() == all.take(i as int));
                assert(all[i as int] == contents@[i as int]@);
                total_length_grows(all, i + 1);
            }
            read_reports(&mut progress, contents[i].len(), &mut reports);
            assert(reports@ =~= seq![(0u64, total)] + file_reports(all.take(i + 1), total as int));
        }
        assert(all.take(all.len() as int) == all);
        reports.push(progress.finish());
        let histograms = self.process_files(contents);
        (histograms, reports)
    }
}

/// The reported numbers never go down and never exceed the total.
pub open spec fn ascending(reports: Seq<(u64, u64)>, total: int) -> bool {
    &&& forall|i: int| 0 <= i < reports.len() ==> (#[trigger] reports[i]).0 <= total
        && reports[i].1 == total
    &&& forall|i: int, j: int|
        0 <= i <= j < reports.len() ==> (#[trigger] reports[i]).0 <= (#[trigger] reports[j]).0
}

/// The reports lie between `low` and `high`.
spec fn between(reports: Seq<(u64, u64)>, low: int, high: int) -> bool {
    forall|i: int| 0 <= i < reports.len() ==> low <= (#[trigger] reports[i]).0 <= high
}

proof fn chunk_reports_ascend(base: int, len: int, total: int)
    requires
        0 <= base,
        0 <= len,
        base + len <= total <= u64::MAX,
    ensures
        ascending(chunk_reports(base, len, total), total),
        between(chunk_reports(base, len, total), base, base + len),
    decreases len,
{
    if len > 0 {
        let step = if len < READ_CHUNK { len } else { READ_CHUNK as int };
        chunk_reports_ascend(base + step, len - step, total);
    }
}

proof fn file_reports_ascend(contents: Seq<Seq<u8>>, total: int)
    requires
        total_length(contents) <= total <= u64::MAX,
    ensures
        ascending(file_reports(contents, total), total),
        between(file_reports(contents, total), 0, total_length(contents) as int),
    decreases contents.len(),
{
    if contents.len() > 0 {
        file_reports_ascend(contents.drop_last(), total);
        chunk_reports_ascend(
            total_length(contents.drop_last()) as int,
            contents.last().len() as int,
            total,
        );
    }
}

/// The reported number of bytes never goes down, and the last report is that
/// all bytes are read.
pub proof fn progress_reaches_total(contents: Seq<Seq<u8>>)
    requires
        total_length(contents) <= u64::MAX,
    ensures
        ascending(progress_reports(contents), total_length(contents) as int),
        progress_reports(contents).last() == (
            total_length(contents) as u64,
            total_length(contents) as u64,
        ),
{
    file_reports_ascend(contents, total_length(contents) as int);
}

} // verus!
