use vstd::prelude::*;

use crate::progress::{
    Band, ProtocolTracker, polled_percent, polled_percent_of, scale_into_band, scaled,
    tracker_step, FULL, PROTOCOL_CAP,
};
use crate::tail::{failure_message, failure_text};
use crate::text::{decimal, format_u64};

verus! {

/// What a job does.
#[derive(Clone, Copy, Debug, PartialEq, Eq, Structural)]
pub enum JobKind {
    /// Extract the frames of a video.
    Extract,
    /// Extract, interpolate and encode: the full pipeline.
    Smooth,
    /// Encode a video from frames extracted earlier, with the original audio.
    Reencode,
    /// Interpolate frames extracted earlier.
    Interpolate,
}

/// One step of a job, run by one external tool.
#[derive(Clone, Copy, Debug, PartialEq, Eq, Structural)]
pub enum Stage {
    Extract,
    Interpolate,
    Encode,
}

#[derive(Clone, Copy, Debug, PartialEq, Eq, Structural)]
pub enum JobStatus {
    Running,
    Succeeded,
    Failed,
}

/// A notification to the listener of a job.
#[derive(Clone, Debug, PartialEq, Eq)]
pub enum Event {
    Log(String),
    StageChanged(String),
    /// The overall percentage, in hundredths of a percent.
    Progress(u32),
    Done { ok: bool, message: String, frames_dir: String, frame_pattern: String },
}

pub enum EventView {
    Log(Seq<char>),
    StageChanged(Seq<char>),
    Progress(int),
    Done { ok: bool, message: Seq<char>, frames_dir: Seq<char>, frame_pattern: Seq<char> },
}

impl View for Event {
    type V = EventView;

    open spec fn view(&self) -> EventView {
        match self {
            Event::Log(s) => EventView::Log(s@),
            Event::StageChanged(s) => EventView::StageChanged(s@),
            Event::Progress(p) => EventView::Progress(*p as int),
            Event::Done { ok, message, frames_dir, frame_pattern } => EventView::Done {
                ok: *ok,
                message: message@,
                frames_dir: frames_dir@,
                frame_pattern: frame_pattern@,
            },
        }
    }
}

pub open spec fn events_view(v: Seq<Event>) -> Seq<EventView> {
    v.map_values(|e: Event| e@)
}

/// How a stage's tool run ended, as the runner saw it.
pub enum StageOutcome {
    /// The tool could not be started.
    SpawnFailed { error: String },
    /// Waiting for the tool failed.
    WaitFailed { error: String },
    /// The tool ran and exited; `output_files` is the number of files in the
    /// stage's output folder afterwards.
    Exited { success: bool, status: String, stderr_tail: String, output_files: u64 },
}

pub enum OutcomeView {
    SpawnFailed { error: Seq<char> },
    WaitFailed { error: Seq<char> },
    Exited { success: bool, status: Seq<char>, stderr_tail: Seq<char>, output_files: nat },
}

impl View for StageOutcome {
    type V = OutcomeView;

    open spec fn view(&self) -> OutcomeView {
        match self {
            StageOutcome::SpawnFailed { error } => OutcomeView::SpawnFailed { error: error@ },
            StageOutcome::WaitFailed { error } => OutcomeView::WaitFailed { error: error@ },
            StageOutcome::Exited { success, status, stderr_tail, output_files } => OutcomeView::Exited {
                success: *success,
                status: status@,
                stderr_tail: stderr_tail@,
                output_files: *output_files as nat,
            },
        }
    }
}

/// How many stages a job of this kind runs.
pub open spec fn stage_count(kind: JobKind) -> int {
    match kind {
        JobKind::Smooth => 3,
        _ => 1,
    }
}

/// The `i`-th stage of a job of this kind.
pub open spec fn stage_at(kind: JobKind, i: int) -> Stage {
    match kind {
        JobKind::Extract => Stage::Extract,
        JobKind::Smooth => if i == 0 {
            Stage::Extract
        } else if i == 1 {
            Stage::Interpolate
        } else {
            Stage::Encode
        },
        JobKind::Reencode => Stage::Encode,
        JobKind::Interpolate => Stage::Interpolate,
    }
}

/// The part of the overall percentage that the `i`-th stage reports into:
/// thirds for the full pipeline, the whole range for a single stage.
pub open spec fn band_at(kind: JobKind, i: int) -> Band {
    match kind {
        JobKind::Smooth => if i == 0 {
            Band { low: 0, high: 3300 }
        } else if i == 1 {
            Band { low: 3300, high: 6600 }
        } else {
            Band { low: 6600, high: 10000 }
        },
        _ => Band { low: 0, high: 10000 },
    }
}

/// The label announced when the `i`-th stage starts, where there is one.
pub open spec fn stage_label(kind: JobKind, i: int) -> Option<Seq<char>> {
    match kind {
        JobKind::Smooth => if i == 0 {
            Some("Extracting frames… (step 1/3)"@)
        } else if i == 1 {
            Some("Interpolating (RIFE)… (step 2/3)"@)
        } else {
            Some("Encoding video… (step 3/3)"@)
        },
        _ => None,
    }
}

/// The note logged when a job of this kind starts, where there is one.
pub open spec fn start_note(kind: JobKind, id: Seq<char>) -> Option<Seq<char>> {
    match kind {
        JobKind::Smooth => Some("Smooth Video job: "@ + id),
        JobKind::Reencode => Some("Re-encode only: starting ffmpeg…"@),
        _ => None,
    }
}

/// What a failure to start the `i`-th stage's tool is reported with, before
/// the error text.
pub open spec fn spawn_failure_prefix(kind: JobKind, i: int) -> Seq<char> {
    match kind {
        JobKind::Extract => "Failed to start ffmpeg: "@,
        JobKind::Smooth => if i == 0 {
            "FFmpeg failed to start: "@
        } else if i == 1 {
            "RIFE failed to start: "@
        } else {
            "Encode failed to start: "@
        },
        JobKind::Reencode => "ffmpeg failed to start: "@,
        JobKind::Interpolate => "RIFE failed to start: "@,
    }
}

/// What a failure to wait for a stage's tool is reported with, before the
/// error text.
pub open spec fn wait_failure_prefix(stage: Stage) -> Seq<char> {
    match stage {
        Stage::Interpolate => "Failed waiting for RIFE: "@,
        _ => "Failed waiting for ffmpeg: "@,
    }
}

/// The stage's own message for a tool that exited unsuccessfully with the
/// exit status `status`.
pub open spec fn exit_failure_text(kind: JobKind, i: int, status: Seq<char>) -> Seq<char> {
    match kind {
        JobKind::Extract => "ffmpeg exited with "@ + status,
        JobKind::Smooth => if i == 0 {
            "Frame extraction failed"@
        } else if i == 1 {
            "RIFE failed"@
        } else {
            "Encoding failed"@
        },
        JobKind::Reencode => "Re-encode failed"@,
        JobKind::Interpolate => "RIFE exited with "@ + status,
    }
}

/// The message of a tool that exited unsuccessfully, given the error lines it
/// left: for an extraction job its exit status, then those lines; for the
/// others those lines, or the stage's own message where there are none.
pub open spec fn exit_failure_message(kind: JobKind, i: int, status: Seq<char>, tail: Seq<char>) -> Seq<char> {
    match kind {
        JobKind::Extract => if tail.len() == 0 {
            exit_failure_text(kind, i, status)
        } else {
            exit_failure_text(kind, i, status) + "\n"@ + tail
        },
        _ => failure_text(tail, exit_failure_text(kind, i, status)),
    }
}

/// The message of a job that succeeded.
pub open spec fn success_text(kind: JobKind, output_files: nat, output: Seq<char>) -> Seq<char> {
    match kind {
        JobKind::Extract => "Frames extracted: "@ + decimal(output_files),
        JobKind::Interpolate => "ok"@,
        _ => "Done: "@ + output,
    }
}

/// The message of an extraction that produced no frames.
pub open spec fn no_output_text() -> Seq<char> {
    "No frames were extracted"@
}

/// The message of a cancelled job.
pub open spec fn cancelled_text() -> Seq<char> {
    "Cancelled"@
}

/// Whether a job reports progress 0 as it starts: the full pipeline and a
/// re-encode do.
pub open spec fn reports_start(kind: JobKind) -> bool {
    kind == JobKind::Smooth || kind == JobKind::Reencode
}

/// The events that announce a job: the first stage's label where it has one,
/// progress 0 where the kind reports it, and the start note where there is
/// one.
pub open spec fn start_events(kind: JobKind, id: Seq<char>) -> Seq<EventView> {
    let label = match stage_label(kind, 0) {
        Some(l) => seq![EventView::StageChanged(l)],
        None => Seq::empty(),
    };
    let start = if reports_start(kind) {
        seq![EventView::Progress(0)]
    } else {
        Seq::empty()
    };
    let note = match start_note(kind, id) {
        Some(n) => seq![EventView::Log(n)],
        None => Seq::empty(),
    };
    label + start + note
}

/// Every progress value in `h` is at least every earlier one.
pub open spec fn progress_monotone(h: Seq<EventView>) -> bool {
    forall|i: int, j: int|
        0 <= i < j < h.len() && #[trigger] h[i] is Progress && #[trigger] h[j] is Progress
            ==> h[i]->Progress_0 <= h[j]->Progress_0
}

/// `h` holds no `Done` event.
pub open spec fn no_done(h: Seq<EventView>) -> bool {
    forall|i: int| 0 <= i < h.len() ==> !(#[trigger] h[i] is Done)
}

/// `h` holds exactly one `Done` event, and it is the last one.
pub open spec fn done_once_at_end(h: Seq<EventView>) -> bool {
    &&& h.len() > 0
    &&& h.last() is Done
    &&& no_done(h.drop_last())
}

/// The last progress value in `h` is 100 %: one such event exists and every
/// later progress event is 100 % too.
pub open spec fn ends_at_full(h: Seq<EventView>) -> bool {
    exists|k: int|
        0 <= k < h.len() && h[k] == EventView::Progress(FULL as int) && forall|j: int|
            k < j < h.len() && #[trigger] h[j] is Progress ==> h[j]->Progress_0 == FULL as int
}

/// What a job is: its kind and stage, its status, and every event it has
/// emitted so far.
pub struct JobView {
    pub kind: JobKind,
    pub stage: int,
    pub status: JobStatus,
    pub last_progress: int,
    pub input_frames: int,
    pub tracker: ProtocolTracker,
    pub output: Seq<char>,
    pub frames_dir: Seq<char>,
    pub frame_pattern: Seq<char>,
    pub events: Seq<EventView>,
}

impl JobView {
    pub open spec fn wf(self) -> bool {
        &&& 0 <= self.stage < stage_count(self.kind)
        &&& 0 <= self.last_progress <= FULL
        &&& forall|i: int|
            0 <= i < self.events.len() && #[trigger] self.events[i] is Progress
                ==> 0 <= self.events[i]->Progress_0 <= self.last_progress
        &&& progress_monotone(self.events)
        &&& (self.status == JobStatus::Running <==> no_done(self.events))
        &&& self.status != JobStatus::Running ==> done_once_at_end(self.events) && (
        self.events.last()->Done_ok <==> self.status == JobStatus::Succeeded)
        &&& self.status == JobStatus::Succeeded ==> self.last_progress == FULL && exists|k: int|
            0 <= k < self.events.len() && self.events[k] == EventView::Progress(FULL as int)
    }
}

/// `v` after reporting overall progress `p`: reported only where it is not
/// below what was reported before.
pub open spec fn with_progress(v: JobView, p: int) -> JobView {
    if p >= v.last_progress {
        JobView { last_progress: p, events: v.events.push(EventView::Progress(p)), ..v }
    } else {
        v
    }
}

/// `v` ended, with its `Done` event.
pub open spec fn finished(v: JobView, ok: bool, message: Seq<char>) -> JobView {
    JobView {
        status: if ok {
            JobStatus::Succeeded
        } else {
            JobStatus::Failed
        },
        events: v.events.push(
            EventView::Done {
                ok,
                message,
                frames_dir: v.frames_dir,
                frame_pattern: v.frame_pattern,
            },
        ),
        ..v
    }
}

/// `v` moved on to its next stage at `now_ms`, after a stage that left
/// `output_files` files: extracted frames become the interpolation input.
pub open spec fn advanced(v: JobView, output_files: nat, now_ms: u64) -> JobView {
    let next = v.stage + 1;
    JobView {
        stage: next,
        input_frames: if stage_at(v.kind, v.stage) == Stage::Extract {
            output_files as int
        } else {
            v.input_frames
        },
        tracker: ProtocolTracker { frame: 0, total: v.tracker.total, last_report_ms: now_ms },
        events: match stage_label(v.kind, next) {
            Some(l) => v.events.push(EventView::StageChanged(l)),
            None => v.events,
        },
        ..v
    }
}

/// A running job after one line of the structured progress protocol, read at
/// `now_ms`; an ended job does not change.
pub open spec fn line_step(v: JobView, line: Seq<char>, now_ms: u64) -> JobView {
    if v.status != JobStatus::Running {
        v
    } else {
        let step = tracker_step(v.tracker, line, now_ms);
        let w = JobView { tracker: step.0, ..v };
        let band = band_at(v.kind, v.stage);
        match step.1 {
            Some(local) => with_progress(w, scaled(band.low as int, band.high as int, local)),
            None => w,
        }
    }
}

/// A running job after its interpolation output folder was found to hold
/// `count` files; any other job does not change.
pub open spec fn count_step(v: JobView, count: nat) -> JobView {
    if v.status == JobStatus::Running && stage_at(v.kind, v.stage) == Stage::Interpolate {
        let band = band_at(v.kind, v.stage);
        with_progress(
            v,
            scaled(band.low as int, band.high as int, polled_percent(count as int, v.input_frames)),
        )
    } else {
        v
    }
}

/// A running job after its current stage's tool run ended as `o`, at
/// `now_ms`: a failure ends the job; a success moves on to the next stage, or
/// after the last one reports 100 % and ends the job. An ended job does not
/// change.
pub open spec fn end_step(v: JobView, o: OutcomeView, now_ms: u64) -> JobView {
    if v.status != JobStatus::Running {
        v
    } else {
        match o {
            OutcomeView::SpawnFailed { error } => finished(
                v,
                false,
                spawn_failure_prefix(v.kind, v.stage) + error,
            ),
            OutcomeView::WaitFailed { error } => finished(
                v,
                false,
                wait_failure_prefix(stage_at(v.kind, v.stage)) + error,
            ),
            OutcomeView::Exited { success, status, stderr_tail, output_files } => {
                if !success {
                    finished(v, false, exit_failure_message(v.kind, v.stage, status, stderr_tail))
                } else if v.kind == JobKind::Extract && output_files == 0 {
                    finished(v, false, no_output_text())
                } else if v.stage + 1 == stage_count(v.kind) {
                    finished(
                        with_progress(v, FULL as int),
                        true,
                        success_text(v.kind, output_files, v.output),
                    )
                } else {
                    advanced(v, output_files, now_ms)
                }
            },
        }
    }
}

/// A running job after it was cancelled: it fails; an ended job does not
/// change.
pub open spec fn cancel_step(v: JobView) -> JobView {
    if v.status != JobStatus::Running {
        v
    } else {
        finished(v, false, cancelled_text())
    }
}

/// Within a job the progress reported never decreases, and a job that ended
/// with a successful `Done` has reported 100 % last, before that event.
pub proof fn lemma_progress_never_decreases(v: JobView)
    requires
        v.wf(),
    ensures
        progress_monotone(v.events),
        v.status != JobStatus::Running && v.events.last()->Done_ok ==> ends_at_full(
            v.events.drop_last(),
        ),
{
    if v.status != JobStatus::Running && v.events.last()->Done_ok {
        let h = v.events.drop_last();
        let k = choose|k: int|
            0 <= k < v.events.len() && v.events[k] == EventView::Progress(FULL as int);
        assert(k < h.len());
        assert(h[k] == EventView::Progress(FULL as int));
        assert forall|j: int| k < j < h.len() && #[trigger] h[j] is Progress implies h[j]->Progress_0
            == FULL as int by {
            assert(h[j] == v.events[j]);
            assert(v.events[k] is Progress);
            assert(v.events[j] is Progress);
        }
    }
}

/// A job emits no `Done` event while it runs, and once it has ended exactly
/// one, as its last event.
pub proof fn lemma_done_exactly_once(v: JobView)
    requires
        v.wf(),
    ensures
        v.status == JobStatus::Running ==> no_done(v.events),
        v.status != JobStatus::Running ==> done_once_at_end(v.events),
{
}

proof fn lemma_with_progress_wf(v: JobView, p: int)
    requires
        v.wf(),
        v.status == JobStatus::Running,
        0 <= p <= FULL,
    ensures
        with_progress(v, p).wf(),
        with_progress(v, p).status == JobStatus::Running,
{
    if p >= v.last_progress {
        let w = with_progress(v, p);
        assert forall|i: int| 0 <= i < w.events.len() implies !(#[trigger] w.events[i] is Done) by {
            if i < v.events.len() {
                assert(w.events[i] == v.events[i]);
            }
        }
    }
}

proof fn lemma_finished_wf(v: JobView, ok: bool, message: Seq<char>)
    requires
        v.wf(),
        v.status == JobStatus::Running,
        ok ==> v.last_progress == FULL && exists|k: int|
            0 <= k < v.events.len() && v.events[k] == EventView::Progress(FULL as int),
    ensures
        finished(v, ok, message).wf(),
{
    let w = finished(v, ok, message);
    assert(w.events.drop_last() =~= v.events);
    assert(w.events[v.events.len() as int] is Done);
    if ok {
        let k = choose|k: int| 0 <= k < v.events.len() && v.events[k] == EventView::Progress(FULL as int);
        assert(w.events[k] == EventView::Progress(FULL as int));
    }
}

/// Every step of a job keeps it well formed, so the laws above hold of a job
/// after any sequence of steps.
pub proof fn lemma_steps_keep_wf(v: JobView, line: Seq<char>, now_ms: u64, count: nat, o: OutcomeView)
    requires
        v.wf(),
    ensures
        line_step(v, line, now_ms).wf(),
        count_step(v, count).wf(),
        end_step(v, o, now_ms).wf(),
        cancel_step(v).wf(),
{
    if v.status == JobStatus::Running {
        let band = band_at(v.kind, v.stage);
        let step = tracker_step(v.tracker, line, now_ms);
        let w = JobView { tracker: step.0, ..v };
        if let Some(local) = step.1 {
            crate::progress::lemma_protocol_percent_bounds(step.0.frame as int, v.tracker.total as int);
            crate::progress::lemma_scaled_in_band(band.low as int, band.high as int, local);
            lemma_with_progress_wf(w, scaled(band.low as int, band.high as int, local));
        }
        if stage_at(v.kind, v.stage) == Stage::Interpolate {
            crate::progress::lemma_polled_percent_bounds(count as int, v.input_frames);
            crate::progress::lemma_scaled_in_band(band.low as int, band.high as int, polled_percent(count as int, v.input_frames));
            lemma_with_progress_wf(v, scaled(band.low as int, band.high as int, polled_percent(count as int, v.input_frames)));
        }
        lemma_finished_wf(v, false, cancelled_text());
        match o {
            OutcomeView::SpawnFailed { error } => {
                lemma_finished_wf(v, false, spawn_failure_prefix(v.kind, v.stage) + error);
            },
            OutcomeView::WaitFailed { error } => {
                lemma_finished_wf(v, false, wait_failure_prefix(stage_at(v.kind, v.stage)) + error);
            },
            OutcomeView::Exited { success, status, stderr_tail, output_files } => {
                if !success {
                    lemma_finished_wf(v, false, exit_failure_message(v.kind, v.stage, status, stderr_tail));
                } else if v.kind == JobKind::Extract && output_files == 0 {
                    lemma_finished_wf(v, false, no_output_text());
                } else if v.stage + 1 == stage_count(v.kind) {
                    lemma_with_progress_wf(v, FULL as int);
                    let u = with_progress(v, FULL as int);
                    assert(u.events[u.events.len() - 1] == EventView::Progress(FULL as int));
                    lemma_finished_wf(u, true, success_text(v.kind, output_files, v.output));
                } else {
                    let a = advanced(v, output_files, now_ms);
                    assert forall|i: int| 0 <= i < a.events.len() implies !(#[trigger] a.events[i] is Done) by {
                        if i < v.events.len() {
                            assert(a.events[i] == v.events[i]);
                        }
                    }
                }
            },
        }
    }
}

/// A re-encode reports at most `PROTOCOL_CAP` (99.9 %) while it runs: its
/// 100 % comes only with the step that ends it, and polling does not touch it.
pub proof fn lemma_reencode_below_full_while_running(
    v: JobView,
    line: Seq<char>,
    now_ms: u64,
    count: nat,
    o: OutcomeView,
)
    requires
        v.wf(),
        v.kind == JobKind::Reencode,
        v.status == JobStatus::Running,
        v.last_progress <= PROTOCOL_CAP,
    ensures
        line_step(v, line, now_ms).status == JobStatus::Running,
        line_step(v, line, now_ms).last_progress <= PROTOCOL_CAP,
        count_step(v, count) == v,
        end_step(v, o, now_ms).status != JobStatus::Running,
{
    let step = tracker_step(v.tracker, line, now_ms);
    if let Some(local) = step.1 {
        crate::progress::lemma_protocol_percent_bounds(step.0.frame as int, v.tracker.total as int);
        assert(scaled(0, 10000, local) == local) by (nonlinear_arith)
            requires
                0 <= local,
        ;
    }
}

/// One job: the stages it runs, where it stands, and the events it emits.
/// Its runner starts each stage's tool, hands back what the tool reports, and
/// passes on the events returned.
pub struct Job {
    kind: JobKind,
    stage: usize,
    status: JobStatus,
    last_progress: u32,
    input_frames: u64,
    tracker: ProtocolTracker,
    output: String,
    frames_dir: String,
    frame_pattern: String,
    events: Ghost<Seq<EventView>>,
}

impl View for Job {
    type V = JobView;

    closed spec fn view(&self) -> JobView {
        JobView {
            kind: self.kind,
            stage: self.stage as int,
            status: self.status,
            last_progress: self.last_progress as int,
            input_frames: self.input_frames as int,
            tracker: self.tracker,
            output: self.output@,
            frames_dir: self.frames_dir@,
            frame_pattern: self.frame_pattern@,
            events: self.events@,
        }
    }
}

fn stage_count_of(kind: JobKind) -> (r: usize)
    ensures
        r == stage_count(kind),
{
    match kind {
        JobKind::Smooth => 3,
        _ => 1,
    }
}

fn stage_of(kind: JobKind, i: usize) -> (r: Stage)
    ensures
        r == stage_at(kind, i as int),
{
    match kind {
        JobKind::Extract => Stage::Extract,
        JobKind::Smooth => if i == 0 {
            Stage::Extract
        } else if i == 1 {
            Stage::Interpolate
        } else {
            Stage::Encode
        },
        JobKind::Reencode => Stage::Encode,
        JobKind::Interpolate => Stage::Interpolate,
    }
}

fn band_of(kind: JobKind, i: usize) -> (r: Band)
    ensures
        r == band_at(kind, i as int),
        r.wf(),
{
    match kind {
        JobKind::Smooth => if i == 0 {
            Band { low: 0, high: 3300 }
        } else if i == 1 {
            Band { low: 3300, high: 6600 }
        } else {
            Band { low: 6600, high: 10000 }
        },
        _ => Band { low: 0, high: 10000 },
    }
}

fn label_of(kind: JobKind, i: usize) -> (r: Option<&'static str>)
    ensures
        r matches Some(s) ==> stage_label(kind, i as int) == Some(s@),
        r is None <==> stage_label(kind, i as int) is None,
{
    match kind {
        JobKind::Smooth => if i == 0 {
            Some("Extracting frames… (step 1/3)")
        } else if i == 1 {
            Some("Interpolating (RIFE)… (step 2/3)")
        } else {
            Some("Encoding video… (step 3/3)")
        },
        _ => None,
    }
}

fn spawn_prefix_of(kind: JobKind, i: usize) -> (r: &'static str)
    ensures
        r@ == spawn_failure_prefix(kind, i as int),
{
    match kind {
        JobKind::Extract => "Failed to start ffmpeg: ",
        JobKind::Smooth => if i == 0 {
            "FFmpeg failed to start: "
        } else if i == 1 {
            "RIFE failed to start: "
        } else {
            "Encode failed to start: "
        },
        JobKind::Reencode => "ffmpeg failed to start: ",
        JobKind::Interpolate => "RIFE failed to start: ",
    }
}

fn wait_prefix_of(stage: Stage) -> (r: &'static str)
    ensures
        r@ == wait_failure_prefix(stage),
{
    match stage {
        Stage::Interpolate => "Failed waiting for RIFE: ",
        _ => "Failed waiting for ffmpeg: ",
    }
}

fn exit_failure_of(kind: JobKind, i: usize, status: &str) -> (r: String)
    ensures
        r@ == exit_failure_text(kind, i as int, status@),
{
    match kind {
        JobKind::Extract => String::from_str("ffmpeg exited with ").concat(status),
        JobKind::Smooth => if i == 0 {
            String::from_str("Frame extraction failed")
        } else if i == 1 {
            String::from_str("RIFE failed")
        } else {
            String::from_str("Encoding failed")
        },
        JobKind::Reencode => String::from_str("Re-encode failed"),
        JobKind::Interpolate => String::from_str("RIFE exited with ").concat(status),
    }
}

fn success_of(kind: JobKind, output_files: u64, output: &str) -> (r: String)
    ensures
        r@ == success_text(kind, output_files as nat, output@),
{
    match kind {
        JobKind::Extract => {
            let n = format_u64(output_files);
            String::from_str("Frames extracted: ").concat(n.as_str())
        },
        JobKind::Interpolate => String::from_str("ok"),
        _ => String::from_str("Done: ").concat(output),
    }
}

impl Job {
    pub open spec fn wf(&self) -> bool {
        self@.wf()
    }

    /// A job of the given kind, started at `now_ms`, with the events that
    /// announce it. `total_frames` is the estimated frame count that the
    /// structured protocol is measured against (0 when unknown);
    /// `input_frames` is the number of frames that go into interpolation,
    /// where the job does not extract them itself.
    pub fn new(
        kind: JobKind,
        id: &str,
        output: String,
        frames_dir: String,
        frame_pattern: String,
        total_frames: u64,
        input_frames: u64,
        now_ms: u64,
    ) -> (r: (Job, Vec<Event>))
        ensures
            r.0.wf(),
            r.0@.kind == kind,
            r.0@.stage == 0,
            r.0@.status == JobStatus::Running,
            r.0@.last_progress == 0,
            r.0@.input_frames == input_frames,
            r.0@.tracker == (ProtocolTracker { frame: 0, total: total_frames, last_report_ms: now_ms }),
            r.0@.output == output@,
            r.0@.frames_dir == frames_dir@,
            r.0@.frame_pattern == frame_pattern@,
            r.0@.events == events_view(r.1@),
            events_view(r.1@) == start_events(kind, id@),
    {
        let mut out: Vec<Event> = Vec::new();
        match label_of(kind, 0) {
            Some(l) => {
                out.push(Event::StageChanged(String::from_str(l)));
            },
            None => {},
        }
        if kind == JobKind::Smooth || kind == JobKind::Reencode {
            out.push(Event::Progress(0));
        }
        match kind {
            JobKind::Smooth => {
                out.push(Event::Log(String::from_str("Smooth Video job: ").concat(id)));
            },
            JobKind::Reencode => {
                out.push(Event::Log(String::from_str("Re-encode only: starting ffmpeg…")));
            },
            _ => {},
        }
        let ghost h = events_view(out@);
        assert(h =~= start_events(kind, id@));
        let job = Job {
            kind,
            stage: 0,
            status: JobStatus::Running,
            last_progress: 0,
            input_frames,
            tracker: ProtocolTracker::new(total_frames, now_ms),
            output,
            frames_dir,
            frame_pattern,
            events: Ghost(h),
        };
        assert(no_done(h));
        (job, out)
    }

    pub fn kind(&self) -> (r: JobKind)
        ensures
            r == self@.kind,
    {
        self.kind
    }

    pub fn status(&self) -> (r: JobStatus)
        ensures
            r == self@.status,
    {
        self.status
    }

    /// The stage whose tool should run now; none once the job has ended.
    pub fn current_stage(&self) -> (r: Option<Stage>)
        requires
            self.wf(),
        ensures
            self@.status == JobStatus::Running ==> r == Some(stage_at(self@.kind, self@.stage)),
            self@.status != JobStatus::Running ==> (r is None),
    {
        if self.status == JobStatus::Running {
            Some(stage_of(self.kind, self.stage))
        } else {
            None
        }
    }

    /// The band that the current stage reports into.
    pub fn current_band(&self) -> (r: Band)
        ensures
            r == band_at(self@.kind, self@.stage),
    {
        band_of(self.kind, self.stage)
    }

    /// Reports overall progress `p`, unless it is below what was reported
    /// before.
    fn report(&mut self, p: u32, out: &mut Vec<Event>)
        requires
            old(self).wf(),
            old(self)@.status == JobStatus::Running,
            p <= FULL,
        ensures
            final(self).wf(),
            final(self)@ == with_progress(old(self)@, p as int),
            final(self)@.events == old(self)@.events + events_view(final(out)@).subrange(
                old(out)@.len() as int,
                final(out)@.len() as int,
            ),
            final(out)@.subrange(0, old(out)@.len() as int) == old(out)@,
            p >= old(self)@.last_progress ==> final(out)@ == old(out)@.push(Event::Progress(p)),
            p < old(self)@.last_progress ==> final(out)@ == old(out)@,
    {
        let ghost out0 = out@;
        if p >= self.last_progress {
            self.last_progress = p;
            let ghost h = self.events@;
            self.events = Ghost(h.push(EventView::Progress(p as int)));
            out.push(Event::Progress(p));
            assert(events_view(out@).subrange(out0.len() as int, out@.len() as int) =~= seq![
                EventView::Progress(p as int),
            ]);
            assert(no_done(self.events@) == no_done(h)) by {
                if no_done(h) {
                    assert forall|i: int| 0 <= i < self.events@.len() implies !(
                    #[trigger] self.events@[i] is Done) by {
                        if i < h.len() {
                            assert(self.events@[i] == h[i]);
                        }
                    }
                }
            }
            assert(out@.subrange(0, out0.len() as int) =~= out0);
        } else {
            assert(events_view(out@).subrange(out0.len() as int, out@.len() as int) =~= seq![]);
            assert(self.events@ =~= self.events@ + seq![]);
            assert(out@.subrange(0, out0.len() as int) =~= out0);
        }
    }

    /// Ends the job with its one `Done` event.
    fn finish(&mut self, ok: bool, message: String, out: &mut Vec<Event>)
        requires
            old(self).wf(),
            old(self)@.status == JobStatus::Running,
            ok ==> old(self)@.last_progress == FULL && exists|k: int|
                0 <= k < old(self)@.events.len() && old(self)@.events[k] == EventView::Progress(
                    FULL as int,
                ),
        ensures
            final(self).wf(),
            final(self)@ == finished(old(self)@, ok, message@),
            final(out)@.len() == old(out)@.len() + 1,
            final(out)@.subrange(0, old(out)@.len() as int) == old(out)@,
            final(out)@.last()@ == (EventView::Done {
                ok,
                message: message@,
                frames_dir: old(self)@.frames_dir,
                frame_pattern: old(self)@.frame_pattern,
            }),
            final(self)@.events == old(self)@.events + events_view(final(out)@).subrange(
                old(out)@.len() as int,
                final(out)@.len() as int,
            ),
    {
        let ghost out0 = out@;
        let ghost h = self.events@;
        let e = Event::Done {
            ok,
            message,
            frames_dir: self.frames_dir.clone(),
            frame_pattern: self.frame_pattern.clone(),
        };
        let ghost ev = e@;
        out.push(e);
        self.events = Ghost(h.push(ev));
        self.status = if ok {
            JobStatus::Succeeded
        } else {
            JobStatus::Failed
        };
        assert(self.events@.drop_last() =~= h);
        assert(events_view(out@).subrange(out0.len() as int, out@.len() as int) =~= seq![ev]);
        assert(out@.subrange(0, out0.len() as int) =~= out0);
        assert(!no_done(self.events@)) by {
            assert(self.events@[h.len() as int] is Done);
        }
        proof {
            if ok {
                let k = choose|k: int| 0 <= k < h.len() && h[k] == EventView::Progress(FULL as int);
                assert(self.events@[k] == EventView::Progress(FULL as int));
            }
        }
    }

    /// Takes one line of the structured progress protocol of the current
    /// stage's tool, read at `now_ms`; returns the events to pass on.
    pub fn on_progress_line(&mut self, line: &str, now_ms: u64) -> (r: Vec<Event>)
        requires
            old(self).wf(),
        ensures
            final(self).wf(),
            final(self)@ == line_step(old(self)@, line@, now_ms),
            final(self)@.events == old(self)@.events + events_view(r@),
    {
        let mut out: Vec<Event> = Vec::new();
        let ghost e0 = self.events@;
        if self.status != JobStatus::Running {
            assert(self.events@ =~= e0 + events_view(out@));
            return out;
        }
        let local = self.tracker.on_line(line, now_ms);
        match local {
            Some(l) => {
                let band = band_of(self.kind, self.stage);
                let p = scale_into_band(band, l);
                self.report(p, &mut out);
                assert(events_view(out@) =~= events_view(out@).subrange(0, out@.len() as int));
            },
            None => {},
        }
        assert(self.events@ =~= e0 + events_view(out@));
        out
    }

    /// Takes the number of files found in the interpolation output folder
    /// while the interpolator runs; returns the events to pass on.
    pub fn on_output_count(&mut self, count: u64) -> (r: Vec<Event>)
        requires
            old(self).wf(),
        ensures
            final(self).wf(),
            final(self)@ == count_step(old(self)@, count as nat),
            final(self)@.events == old(self)@.events + events_view(r@),
    {
        let mut out: Vec<Event> = Vec::new();
        let ghost e0 = self.events@;
        if self.status == JobStatus::Running && stage_of(self.kind, self.stage) == Stage::Interpolate {
            let band = band_of(self.kind, self.stage);
            let local = polled_percent_of(count, self.input_frames);
            let p = scale_into_band(band, local);
            self.report(p, &mut out);
            assert(events_view(out@) =~= events_view(out@).subrange(0, out@.len() as int));
        }
        assert(self.events@ =~= e0 + events_view(out@));
        out
    }

    /// Takes how the current stage's tool run ended, at `now_ms`; returns the
    /// events to pass on.
    pub fn on_stage_end(&mut self, outcome: StageOutcome, now_ms: u64) -> (r: Vec<Event>)
        requires
            old(self).wf(),
        ensures
            final(self).wf(),
            final(self)@ == end_step(old(self)@, outcome@, now_ms),
            final(self)@.events == old(self)@.events + events_view(r@),
    {
        let mut out: Vec<Event> = Vec::new();
        let ghost e0 = self.events@;
        let ghost o = outcome@;
        if self.status != JobStatus::Running {
            assert(self.events@ =~= e0 + events_view(out@));
            return out;
        }
        match outcome {
            StageOutcome::SpawnFailed { error } => {
                let msg = String::from_str(spawn_prefix_of(self.kind, self.stage)).concat(
                    error.as_str(),
                );
                self.finish(false, msg, &mut out);
            },
            StageOutcome::WaitFailed { error } => {
                let stage = stage_of(self.kind, self.stage);
                let msg = String::from_str(wait_prefix_of(stage)).concat(error.as_str());
                self.finish(false, msg, &mut out);
            },
            StageOutcome::Exited { success, status, stderr_tail, output_files } => {
                if !success {
                    let fallback = exit_failure_of(self.kind, self.stage, status.as_str());
                    let msg = if self.kind == JobKind::Extract {
                        if stderr_tail.unicode_len() == 0 {
                            fallback
                        } else {
                            let mut m = fallback;
                            m.append("\n");
                            m.append(stderr_tail.as_str());
                            m
                        }
                    } else {
                        failure_message(stderr_tail.as_str(), fallback.as_str())
                    };
                    self.finish(false, msg, &mut out);
                } else if self.kind == JobKind::Extract && output_files == 0 {
                    self.finish(false, String::from_str("No frames were extracted"), &mut out);
                } else if self.stage + 1 == stage_count_of(self.kind) {
                    let ghost out0 = out@;
                    self.report(FULL, &mut out);
                    let ghost out1 = out@;
                    let msg = success_of(self.kind, output_files, self.output.as_str());
                    self.finish(true, msg, &mut out);
                    assert(events_view(out@) =~= events_view(out1) + events_view(out@).subrange(
                        out1.len() as int,
                        out@.len() as int,
                    ));
                } else {
                    if stage_of(self.kind, self.stage) == Stage::Extract {
                        self.input_frames = output_files;
                    }
                    self.stage = self.stage + 1;
                    self.tracker = ProtocolTracker::new(self.tracker.total, now_ms);
                    match label_of(self.kind, self.stage) {
                        Some(l) => {
                            let e = Event::StageChanged(String::from_str(l));
                            let ghost h = self.events@;
                            self.events = Ghost(h.push(e@));
                            out.push(e);
                            assert(no_done(self.events@) == no_done(h)) by {
                                if no_done(h) {
                                    assert forall|i: int| 0 <= i < self.events@.len() implies !(
                                    #[trigger] self.events@[i] is Done) by {
                                        if i < h.len() {
                                            assert(self.events@[i] == h[i]);
                                        }
                                    }
                                }
                            }
                        },
                        None => {},
                    }
                }
            },
        }
        assert(self.events@ =~= e0 + events_view(out@));
        out
    }

    /// Cancels the job: a running job fails with the cancelled message and its
    /// `Done` event; an ended job does not change.
    pub fn cancel(&mut self) -> (r: Vec<Event>)
        requires
            old(self).wf(),
        ensures
            final(self).wf(),
            final(self)@ == cancel_step(old(self)@),
            final(self)@.events == old(self)@.events + events_view(r@),
    {
        let mut out: Vec<Event> = Vec::new();
        let ghost e0 = self.events@;
        if self.status == JobStatus::Running {
            self.finish(false, String::from_str("Cancelled"), &mut out);
        }
        assert(self.events@ =~= e0 + events_view(out@));
        out
    }
}

} // verus!
