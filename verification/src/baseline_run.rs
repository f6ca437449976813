//! The course of a baseline run: what its worker sends, in which order.

use crate::baseline_session::{missing_workbook_report, process_report, read_report};
use crate::panel::{failure, full_progress, note_views, status, Note, NoteView, Progress, StatusColor};
use crate::text::{concat2, int_text};
use vstd::prelude::*;
use vstd::string::StringExecFns;

verus! {

/// Channels of a layer.
pub const RUN_CHANNELS: usize = 16;

/// How far a run has come.
#[derive(Debug, Clone)]
pub enum RunState {
    /// The folder of the day could not be made.
    NoFolder(String),
    /// There is no workbook at the path.
    NoWorkbook(String),
    /// The workbook is about to be read.
    Reading,
    /// The workbook could not be read.
    Unreadable(String),
    /// The workbook gave so many samples. With none the run is over.
    Loaded(usize),
    /// So many samples were processed, channel by channel.
    Processed { count: usize, start: String, stop: String, millis: i64 },
}

/// How far a run has come.
pub enum RunStateView {
    NoFolder(Seq<char>),
    NoWorkbook(Seq<char>),
    Reading,
    Unreadable(Seq<char>),
    Loaded(int),
    Processed { count: int, start: Seq<char>, stop: Seq<char>, millis: int },
}

impl View for RunState {
    type V = RunStateView;

    open spec fn view(&self) -> RunStateView {
        match *self {
            RunState::NoFolder(e) => RunStateView::NoFolder(e@),
            RunState::NoWorkbook(path) => RunStateView::NoWorkbook(path@),
            RunState::Reading => RunStateView::Reading,
            RunState::Unreadable(e) => RunStateView::Unreadable(e@),
            RunState::Loaded(count) => RunStateView::Loaded(count as int),
            RunState::Processed { count, start, stop, millis } => RunStateView::Processed {
                count: count as int,
                start: start@,
                stop: stop@,
                millis: millis as int,
            },
        }
    }
}

/// One thing that the worker of a run sends.
#[derive(Debug, Clone)]
pub enum RunStep {
    Note(Note),
    /// The samples of the workbook.
    Loaded,
    /// The histogram and the fits of a channel.
    Channel(usize),
}

/// One thing that the worker of a run sends.
pub enum RunStepView {
    Note(NoteView),
    Loaded,
    Channel(int),
}

impl View for RunStep {
    type V = RunStepView;

    open spec fn view(&self) -> RunStepView {
        match *self {
            RunStep::Note(note) => RunStepView::Note(note@),
            RunStep::Loaded => RunStepView::Loaded,
            RunStep::Channel(index) => RunStepView::Channel(index as int),
        }
    }
}

/// What a list of steps is.
pub open spec fn step_views(steps: Seq<RunStep>) -> Seq<RunStepView> {
    steps.map_values(|s: RunStep| s@)
}

/// The end of a run that failed.
pub open spec fn failed(text: Seq<char>) -> Seq<RunStepView> {
    seq![
        RunStepView::Note(NoteView::Error(text)),
        RunStepView::Note(NoteView::Busy(false)),
    ]
}

/// The step before the workbook is read.
pub open spec fn opening() -> Seq<RunStepView> {
    seq![RunStepView::Note(NoteView::Status("Reading Excel..."@, StatusColor::Orange))]
}

/// The steps up to the samples.
pub open spec fn loading() -> Seq<RunStepView> {
    opening() + seq![
        RunStepView::Loaded,
        RunStepView::Note(NoteView::Progress(Progress { done: 1, total: 2 })),
    ]
}

/// The marks of the first `n` channels, in order.
pub open spec fn channel_marks(n: nat) -> Seq<RunStepView> {
    Seq::new(n, |i: int| RunStepView::Channel(i))
}

/// Everything that the worker of a run has sent when the run has come so far.
pub open spec fn run(state: RunStateView) -> Seq<RunStepView> {
    match state {
        RunStateView::NoFolder(e) => failed(e),
        RunStateView::NoWorkbook(path) => failed(
            "Expected input file not found: "@ + path
                + ". Please run 'Pre-Process to Excel' first."@,
        ),
        RunStateView::Reading => opening(),
        RunStateView::Unreadable(e) => opening() + failed("Read Error: "@ + e),
        RunStateView::Loaded(count) => if count == 0 {
            loading().push(RunStepView::Note(NoteView::Busy(false)))
        } else {
            loading()
        },
        RunStateView::Processed { count, start, stop, millis } => loading() + channel_marks(16)
            + seq![
            RunStepView::Note(
                NoteView::Timing { start, stop, duration: int_text(millis) + " ms"@ },
            ),
            RunStepView::Note(
                NoteView::Status(
                    "Processed "@ + int_text(count) + " events."@,
                    StatusColor::Green,
                ),
            ),
            RunStepView::Note(NoteView::Progress(full_progress())),
            RunStepView::Note(NoteView::Busy(false)),
        ],
    }
}

/// Reports as steps of a run.
pub open spec fn note_steps(notes: Seq<NoteView>) -> Seq<RunStepView> {
    notes.map_values(|n: NoteView| RunStepView::Note(n))
}

fn push_step(steps: &mut Vec<RunStep>, step: RunStep)
    ensures
        step_views(final(steps)@) == step_views(old(steps)@).push(step@),
{
    assert(step_views(steps@.push(step)) =~= step_views(steps@).push(step@));
    steps.push(step);
}

fn push_notes(steps: &mut Vec<RunStep>, notes: Vec<Note>)
    ensures
        step_views(final(steps)@) == step_views(old(steps)@) + note_steps(note_views(notes@)),
{
    let ghost start = step_views(steps@);
    let ghost all = note_steps(note_views(notes@));
    assert(start + all.take(0) =~= start);
    for note in it: notes
        invariant
            it.seq() == notes@,
            all == note_steps(note_views(notes@)),
            step_views(steps@) == start + all.take(it.index() as int),
    {
        push_step(steps, RunStep::Note(note));
        proof {
            let at = it.index() as int;
            assert(RunStepView::Note(note@) == all[at]);
            assert(start + all.take(at + 1) =~= (start + all.take(at)).push(all[at]));
        }
    }
    assert(all.take(all.len() as int) =~= all);
}

fn push_channels(steps: &mut Vec<RunStep>)
    ensures
        step_views(final(steps)@) == step_views(old(steps)@) + channel_marks(16),
{
    let ghost start = step_views(steps@);
    assert(start + channel_marks(0) =~= start);
    for index in 0..RUN_CHANNELS
        invariant
            step_views(steps@) == start + channel_marks(index as nat),
    {
        push_step(steps, RunStep::Channel(index));
        assert(start + channel_marks((index + 1) as nat) =~= (start + channel_marks(
            index as nat,
        )).push(RunStepView::Channel(index as int)));
    }
}

/// Everything that the worker of a run has to have sent when the run has come
/// so far, in order.
pub fn run_steps(state: &RunState) -> (r: Vec<RunStep>)
    ensures
        step_views(r@) == run(state@),
{
    let mut steps: Vec<RunStep> = Vec::new();
    match state {
        RunState::NoFolder(e) => {
            push_notes(&mut steps, failure(e.clone()));
        },
        RunState::NoWorkbook(path) => {
            push_notes(&mut steps, missing_workbook_report(path.as_str()));
        },
        RunState::Reading => {
            push_opening(&mut steps);
        },
        RunState::Unreadable(e) => {
            push_opening(&mut steps);
            push_notes(&mut steps, failure(concat2("Read Error: ", e.as_str())));
        },
        RunState::Loaded(count) => {
            push_opening(&mut steps);
            push_step(&mut steps, RunStep::Loaded);
            push_notes(&mut steps, read_report(*count));
        },
        RunState::Processed { count, start, stop, millis } => {
            push_opening(&mut steps);
            push_step(&mut steps, RunStep::Loaded);
            push_notes(&mut steps, read_report(1));
            push_channels(&mut steps);
            push_notes(
                &mut steps,
                process_report(*count, start.as_str(), stop.as_str(), *millis),
            );
        },
    }
    assert(step_views(steps@) =~= run(state@));
    steps
}

fn push_opening(steps: &mut Vec<RunStep>)
    ensures
        step_views(final(steps)@) == step_views(old(steps)@) + opening(),
{
    push_step(steps, RunStep::Note(status("Reading Excel...", StatusColor::Orange)));
    assert(step_views(steps@) =~= step_views(old(steps)@) + opening());
}

/// The run is over: it has failed, has found no samples, or has processed them.
pub open spec fn is_over(state: RunStateView) -> bool {
    match state {
        RunStateView::Reading => false,
        RunStateView::Loaded(count) => count == 0,
        _ => true,
    }
}

/// The run has failed.
pub open spec fn has_failed(state: RunStateView) -> bool {
    state is NoFolder || state is NoWorkbook || state is Unreadable
}

/// The step says that the work goes on or has ended.
pub open spec fn is_busy_step(step: RunStepView) -> bool {
    step matches RunStepView::Note(note) && note is Busy
}

/// The step is an error.
pub open spec fn is_error_step(step: RunStepView) -> bool {
    step matches RunStepView::Note(note) && note is Error
}

/// The step is the timing of the run.
pub open spec fn is_timing_step(step: RunStepView) -> bool {
    step matches RunStepView::Note(note) && note is Timing
}

/// A run says exactly once that its work has ended, and says so last; a run
/// that is not over has not said so.
pub proof fn run_ends_once(state: RunStateView)
    ensures
        is_over(state) ==> run(state).len() > 0 && run(state).last() == RunStepView::Note(
            NoteView::Busy(false),
        ),
        forall|i: int|
            0 <= i < run(state).len() && is_busy_step(#[trigger] run(state)[i]) ==> is_over(state)
                && i == run(state).len() - 1,
{
}

/// A run that has failed sends exactly one error, right before its end; any
/// other run sends none.
pub proof fn one_error_where_failed(state: RunStateView)
    ensures
        has_failed(state) ==> run(state).len() >= 2 && is_error_step(
            run(state)[run(state).len() - 2],
        ),
        forall|i: int|
            0 <= i < run(state).len() && is_error_step(#[trigger] run(state)[i]) ==> has_failed(
                state,
            ) && i == run(state).len() - 2,
{
}

/// A run that has processed its samples sends them, then the sixteen channels
/// in order, then the timing; each of these once.
pub proof fn channels_stand_between(state: RunStateView)
    requires
        state is Processed,
    ensures
        ({
            let steps = run(state);
            &&& forall|i: int|
                0 <= i < steps.len() ==> (#[trigger] steps[i] is Loaded <==> i == 1)
            &&& forall|i: int|
                0 <= i < steps.len() ==> (#[trigger] steps[i] is Channel <==> 3 <= i < 19)
            &&& forall|c: int| 0 <= c < 16 ==> #[trigger] steps[c + 3] == RunStepView::Channel(c)
            &&& forall|i: int|
                0 <= i < steps.len() ==> (is_timing_step(#[trigger] steps[i]) <==> i == 19)
        }),
{
}

/// Only a run that has processed its samples sends channels.
pub proof fn no_channels_before(state: RunStateView, i: int)
    requires
        !(state is Processed),
        0 <= i < run(state).len(),
    ensures
        !(run(state)[i] is Channel),
{
}

/// A run takes nothing back: what it has sent when it begins to read, and when
/// it has samples, comes first in all that it sends later.
pub proof fn run_goes_on(
    error: Seq<char>,
    count: int,
    start: Seq<char>,
    stop: Seq<char>,
    millis: int,
)
    requires
        count != 0,
    ensures
        run(RunStateView::Reading).is_prefix_of(run(RunStateView::Unreadable(error))),
        run(RunStateView::Reading).is_prefix_of(run(RunStateView::Loaded(0))),
        run(RunStateView::Reading).is_prefix_of(run(RunStateView::Loaded(count))),
        run(RunStateView::Loaded(count)).is_prefix_of(
            run((RunStateView::Processed { count, start, stop, millis })),
        ),
{
}

} // verus!
