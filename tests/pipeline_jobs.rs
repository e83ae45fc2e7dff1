use rife_interpolator::pipeline::{Event, Job, JobKind, JobStatus, Stage, StageOutcome};
use rife_interpolator::progress::{
    polled_percent_of, protocol_percent_of, scale_into_band, Band, ProtocolTracker,
};
use rife_interpolator::tail::{failure_message, StderrTail};

fn s(x: &str) -> String {
    x.to_string()
}

fn new_job(kind: JobKind, total: u64, inputs: u64) -> (Job, Vec<Event>) {
    Job::new(kind, "job-1", s("/out.mp4"), s("/tmp/f"), s("/tmp/f/%08d.png"), total, inputs, 0)
}

fn exited(success: bool, files: u64) -> StageOutcome {
    StageOutcome::Exited { success, status: s("exit status: 1"), stderr_tail: s(""), output_files: files }
}

fn progress_values(events: &[Event]) -> Vec<u32> {
    events.iter().filter_map(|e| if let Event::Progress(p) = e { Some(*p) } else { None }).collect()
}

fn done_count(events: &[Event]) -> usize {
    events.iter().filter(|e| matches!(e, Event::Done { .. })).count()
}

#[test]
fn band_scaling_and_percentages() {
    assert_eq!(scale_into_band(Band { low: 3300, high: 6600 }, 5000), 4950);
    assert_eq!(scale_into_band(Band { low: 0, high: 10000 }, 10000), 10000);
    assert_eq!(protocol_percent_of(50, 100), Some(5000));
    assert_eq!(protocol_percent_of(200, 100), Some(9990));
    assert_eq!(protocol_percent_of(0, 100), None);
    assert_eq!(protocol_percent_of(5, 0), None);
    assert_eq!(protocol_percent_of(-3, 100), None);
    assert_eq!(protocol_percent_of(1, 20000), None);
    assert_eq!(protocol_percent_of(2, 20000), Some(1));
    assert_eq!(polled_percent_of(100, 100), 5000);
    assert_eq!(polled_percent_of(1000, 100), 10000);
    assert_eq!(polled_percent_of(1, 0), 5000);
}

#[test]
fn protocol_reports_are_throttled() {
    let mut t = ProtocolTracker::new(100, 1000);
    assert_eq!(t.on_line("frame=10", 1100), None);
    assert_eq!(t.frame, 10);
    assert_eq!(t.on_line("frame=20", 1250), Some(2000));
    assert_eq!(t.last_report_ms, 1250);
    assert_eq!(t.on_line("fps=30", 1300), None);
    assert_eq!(t.on_line("frame=oops", 1600), Some(2000));
    assert_eq!(t.on_line("garbage", 2000), None);
    assert_eq!(t.last_report_ms, 1600);
}

#[test]
fn stderr_tail_keeps_the_last_lines() {
    let mut t = StderrTail::new();
    for i in 0..70 {
        t.push(&format!("  line {i} "));
        t.push("   ");
    }
    let lines = t.lines();
    assert_eq!(lines.len(), 64);
    assert_eq!(lines[0], "line 6");
    assert_eq!(lines[63], "line 69");
    let expected: Vec<String> = (62..70).map(|i| format!("line {i}")).collect();
    assert_eq!(t.message(), expected.join("\n"));
    assert_eq!(StderrTail::new().message(), "");
    assert_eq!(failure_message("", "RIFE failed"), "RIFE failed");
    assert_eq!(failure_message("bad model", "RIFE failed"), "bad model");
}

#[test]
fn smooth_job_runs_three_stages_and_ends_at_full() {
    let (mut job, mut all) = new_job(JobKind::Smooth, 0, 0);
    assert_eq!(all[0], Event::StageChanged(s("Extracting frames… (step 1/3)")));
    assert_eq!(all[1], Event::Progress(0));
    assert_eq!(all[2], Event::Log(s("Smooth Video job: job-1")));
    assert_eq!(job.current_stage(), Some(Stage::Extract));
    all.extend(job.on_stage_end(exited(true, 100), 10));
    assert_eq!(all.last(), Some(&Event::StageChanged(s("Interpolating (RIFE)… (step 2/3)"))));
    assert_eq!(job.current_stage(), Some(Stage::Interpolate));
    all.extend(job.on_output_count(50));
    all.extend(job.on_output_count(100));
    all.extend(job.on_output_count(20));
    all.extend(job.on_output_count(10_000));
    all.extend(job.on_stage_end(exited(true, 200), 20));
    assert_eq!(job.current_stage(), Some(Stage::Encode));
    all.extend(job.on_stage_end(exited(true, 0), 30));
    assert_eq!(job.status(), JobStatus::Succeeded);
    assert_eq!(job.current_stage(), None);
    let p = progress_values(&all);
    assert_eq!(p, vec![0, 4125, 4950, 6600, 10000]);
    assert!(p.windows(2).all(|w| w[0] <= w[1]));
    assert_eq!(done_count(&all), 1);
    assert_eq!(
        all.last(),
        Some(&Event::Done { ok: true, message: s("Done: /out.mp4"), frames_dir: s("/tmp/f"), frame_pattern: s("/tmp/f/%08d.png") })
    );
}

#[test]
fn interpolation_progress_stays_in_its_band() {
    let (mut job, _) = new_job(JobKind::Smooth, 0, 0);
    job.on_stage_end(exited(true, 10), 0);
    let band = job.current_band();
    assert_eq!(band, Band { low: 3300, high: 6600 });
    let first = job.on_output_count(0);
    assert_eq!(first, vec![Event::Progress(3300)]);
    let over = job.on_output_count(1_000_000);
    assert_eq!(over, vec![Event::Progress(6600)]);
    for count in [0u64, 5, 19, 20, 21, 500] {
        for e in job.on_output_count(count) {
            if let Event::Progress(p) = e {
                assert!(3300 <= p && p <= 6600);
            }
        }
    }
}

#[test]
fn progress_never_decreases_within_a_job() {
    let (mut job, mut all) = new_job(JobKind::Extract, 100, 0);
    for (i, f) in [10, 50, 30, 80, 20, 90].iter().enumerate() {
        all.extend(job.on_progress_line(&format!("frame={f}"), 300 * (i as u64 + 1)));
    }
    all.extend(job.on_stage_end(exited(true, 90), 5000));
    let p = progress_values(&all);
    assert!(p.windows(2).all(|w| w[0] <= w[1]));
    assert_eq!(*p.last().unwrap(), 10000);
    assert_eq!(p, vec![1000, 5000, 8000, 9000, 10000]);
    assert!(matches!(all.last(), Some(Event::Done { ok: true, .. })));
    if let Some(Event::Done { message, .. }) = all.last() {
        assert_eq!(message, "Frames extracted: 90");
    }
}

#[test]
fn exactly_one_done_and_it_is_last() {
    let (mut job, mut all) = new_job(JobKind::Reencode, 10, 0);
    assert_eq!(all[1], Event::Log(s("Re-encode only: starting ffmpeg…")));
    all.extend(job.on_stage_end(StageOutcome::SpawnFailed { error: s("No such file") }, 1));
    all.extend(job.on_stage_end(exited(true, 5), 2));
    all.extend(job.on_progress_line("frame=5", 3000));
    all.extend(job.on_output_count(3));
    all.extend(job.cancel());
    assert_eq!(done_count(&all), 1);
    assert_eq!(job.status(), JobStatus::Failed);
    assert_eq!(
        all.last(),
        Some(&Event::Done { ok: false, message: s("ffmpeg failed to start: No such file"), frames_dir: s("/tmp/f"), frame_pattern: s("/tmp/f/%08d.png") })
    );
}

#[test]
fn failures_prefer_the_captured_error_lines() {
    let (mut job, _) = new_job(JobKind::Smooth, 0, 0);
    job.on_stage_end(exited(true, 10), 0);
    let ev = job.on_stage_end(
        StageOutcome::Exited { success: false, status: s("exit status: 255"), stderr_tail: s("vkCreateInstance failed\nno GPU"), output_files: 0 },
        1,
    );
    assert_eq!(ev.len(), 1);
    assert!(matches!(&ev[0], Event::Done { ok: false, message, .. } if message == "vkCreateInstance failed\nno GPU"));
    let (mut job, _) = new_job(JobKind::Smooth, 0, 0);
    let ev = job.on_stage_end(exited(false, 0), 1);
    assert!(matches!(&ev[0], Event::Done { ok: false, message, .. } if message == "Frame extraction failed"));
    let (mut job, _) = new_job(JobKind::Extract, 0, 0);
    let ev = job.on_stage_end(exited(false, 0), 1);
    assert!(matches!(&ev[0], Event::Done { ok: false, message, .. } if message == "ffmpeg exited with exit status: 1"));
    let (mut job, _) = new_job(JobKind::Extract, 0, 0);
    let ev = job.on_stage_end(
        StageOutcome::Exited { success: false, status: s("exit status: 1"), stderr_tail: s("No such file\nInvalid input"), output_files: 0 },
        1,
    );
    assert!(matches!(&ev[0], Event::Done { ok: false, message, .. } if message == "ffmpeg exited with exit status: 1\nNo such file\nInvalid input"));
    let (mut job, _) = new_job(JobKind::Reencode, 0, 0);
    let ev = job.on_stage_end(exited(false, 0), 1);
    assert!(matches!(&ev[0], Event::Done { ok: false, message, .. } if message == "Re-encode failed"));
}

#[test]
fn extraction_without_frames_fails() {
    let (mut job, _) = new_job(JobKind::Extract, 0, 0);
    let ev = job.on_stage_end(exited(true, 0), 1);
    assert_eq!(ev.len(), 1);
    assert!(matches!(&ev[0], Event::Done { ok: false, message, .. } if message == "No frames were extracted"));
}

#[test]
fn cancelling_a_running_job_fails_it_once() {
    let (mut job, _) = new_job(JobKind::Interpolate, 0, 40);
    let first = job.on_output_count(40);
    assert_eq!(first, vec![Event::Progress(5000)]);
    let ev = job.cancel();
    assert!(matches!(&ev[0], Event::Done { ok: false, message, .. } if message == "Cancelled"));
    assert!(job.cancel().is_empty());
    assert!(job.on_stage_end(exited(true, 1), 1).is_empty());
    let (mut raw, _) = new_job(JobKind::Interpolate, 0, 40);
    let ev = raw.on_stage_end(StageOutcome::WaitFailed { error: s("interrupted") }, 1);
    assert!(matches!(&ev[0], Event::Done { ok: false, message, .. } if message == "Failed waiting for RIFE: interrupted"));
    let (mut ok, _) = new_job(JobKind::Interpolate, 0, 40);
    let ev = ok.on_stage_end(exited(true, 80), 1);
    assert_eq!(ev[0], Event::Progress(10000));
    assert!(matches!(&ev[1], Event::Done { ok: true, message, .. } if message == "ok"));
}

#[test]
fn extraction_never_reports_zero() {
    let (mut job, start) = new_job(JobKind::Extract, 20000, 0);
    assert!(progress_values(&start).is_empty());
    assert!(job.on_progress_line("frame=1", 1000).is_empty());
    assert_eq!(job.on_progress_line("frame=4", 2000), vec![Event::Progress(2)]);
}
