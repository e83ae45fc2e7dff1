use vstd::prelude::*;

use crate::progress_line::{parse_ffmpeg_progress_line, progress_pair_of};
use crate::text::{i64_text, parse_i64};

verus! {

/// Percentages are counted in hundredths of a percent: `FULL` is 100 %.
pub const FULL: u32 = 10000;

/// The highest value the structured protocol reports before its stage has
/// finished (99.9 %).
pub const PROTOCOL_CAP: u32 = 9990;

/// The least time between two reports drawn from the structured protocol.
pub const THROTTLE_MS: u64 = 250;

/// The part of a job's overall percentage that one stage reports into.
#[derive(Clone, Copy, Debug, PartialEq, Eq, Structural)]
pub struct Band {
    pub low: u32,
    pub high: u32,
}

impl Band {
    pub open spec fn wf(self) -> bool {
        self.low <= self.high <= FULL
    }
}

pub open spec fn min_int(a: int, b: int) -> int {
    if a <= b {
        a
    } else {
        b
    }
}

/// A stage-local percentage `local` placed into the band `[low, high]`.
pub open spec fn scaled(low: int, high: int, local: int) -> int {
    low + local * (high - low) / (FULL as int)
}

/// The percentage that the structured protocol gives for `frame` frames done
/// out of an estimated `total`, kept under `PROTOCOL_CAP`; none where either
/// is not positive or the share rounds down to nothing.
pub open spec fn protocol_percent(frame: int, total: int) -> Option<int> {
    if total > 0 && frame > 0 && frame * (FULL as int) / total > 0 {
        Some(min_int(frame * (FULL as int) / total, PROTOCOL_CAP as int))
    } else {
        None
    }
}

/// The percentage that polling the interpolator's output folder gives: files
/// found over twice the input frames (at least one), at most `FULL`.
pub open spec fn polled_percent(count: int, input_frames: int) -> int {
    let inputs = if input_frames < 1 {
        1
    } else {
        input_frames
    };
    min_int(count * (FULL as int) / (2 * inputs), FULL as int)
}

pub proof fn lemma_scaled_in_band(low: int, high: int, local: int)
    requires
        0 <= low <= high,
        0 <= local <= FULL,
    ensures
        low <= scaled(low, high, local) <= high,
{
    let w = high - low;
    assert(0 <= local * w <= (FULL as int) * w) by (nonlinear_arith)
        requires
            0 <= local <= FULL,
            w >= 0,
    ;
    assert(local * w / (FULL as int) <= w) by (nonlinear_arith)
        requires
            0 <= local * w <= (FULL as int) * w,
    ;
    assert(0 <= local * w / (FULL as int)) by (nonlinear_arith)
        requires
            0 <= local * w,
    ;
}

pub proof fn lemma_protocol_percent_bounds(frame: int, total: int)
    ensures
        protocol_percent(frame, total) matches Some(p) ==> 0 < p <= PROTOCOL_CAP,
{
    if total > 0 && frame > 0 {
        assert(frame * (FULL as int) / total >= 0) by (nonlinear_arith)
            requires
                frame > 0,
                total > 0,
        ;
    }
}

pub proof fn lemma_polled_percent_bounds(count: int, input_frames: int)
    requires
        count >= 0,
    ensures
        0 <= polled_percent(count, input_frames) <= FULL,
{
    let inputs = if input_frames < 1 {
        1
    } else {
        input_frames
    };
    assert(count * (FULL as int) / (2 * inputs) >= 0) by (nonlinear_arith)
        requires
            count >= 0,
            inputs >= 1,
    ;
}

/// Polling progress stays inside its band, whatever the number of files
/// found, even more than expected.
pub proof fn lemma_polled_within_band(band: Band, count: nat, input_frames: nat)
    requires
        band.wf(),
    ensures
        band.low <= scaled(band.low as int, band.high as int, polled_percent(count as int, input_frames as int)),
        scaled(band.low as int, band.high as int, polled_percent(count as int, input_frames as int))
            <= band.high,
{
    let inputs: int = if input_frames < 1 {
        1
    } else {
        input_frames as int
    };
    assert(0 <= (count as int) * (FULL as int) / (2 * inputs)) by (nonlinear_arith)
        requires
            inputs >= 1,
            count >= 0,
    ;
    lemma_scaled_in_band(band.low as int, band.high as int, polled_percent(count as int, input_frames as int));
}

/// Places a stage-local percentage into a band.
pub fn scale_into_band(band: Band, local: u32) -> (r: u32)
    requires
        band.wf(),
        local <= FULL,
    ensures
        r == scaled(band.low as int, band.high as int, local as int),
        band.low <= r <= band.high,
{
    proof {
        lemma_scaled_in_band(band.low as int, band.high as int, local as int);
    }
    let w: u64 = (band.high - band.low) as u64;
    assert((local as u64) * w <= 10000 * 10000) by (nonlinear_arith)
        requires
            local <= 10000,
            w <= 10000,
    ;
    let add = ((local as u64) * w / (FULL as u64)) as u32;
    band.low + add
}

/// The structured protocol's percentage for `frame` frames out of `total`.
pub fn protocol_percent_of(frame: i64, total: u64) -> (r: Option<u32>)
    ensures
        r matches Some(p) ==> protocol_percent(frame as int, total as int) == Some(p as int),
        r is None <==> protocol_percent(frame as int, total as int) is None,
        r matches Some(p) ==> 0 < p <= PROTOCOL_CAP,
{
    if total == 0 || frame <= 0 {
        return None;
    }
    let f: u128 = frame as u128;
    let t: u128 = total as u128;
    assert(f * 10000 <= 0x8000_0000_0000_0000u128 * 10000) by (nonlinear_arith)
        requires
            f < 0x8000_0000_0000_0000u128,
    ;
    let q: u128 = f * (FULL as u128) / t;
    if q == 0 {
        return None;
    }
    if q >= PROTOCOL_CAP as u128 {
        Some(PROTOCOL_CAP)
    } else {
        Some(q as u32)
    }
}

/// The percentage that polling gives for `count` files found, with
/// `input_frames` frames going in.
pub fn polled_percent_of(count: u64, input_frames: u64) -> (r: u32)
    ensures
        r == polled_percent(count as int, input_frames as int),
        r <= FULL,
{
    let inputs: u128 = if input_frames < 1 {
        1
    } else {
        input_frames as u128
    };
    let c: u128 = count as u128;
    assert(c * 10000 <= 0x1_0000_0000_0000_0000u128 * 10000) by (nonlinear_arith)
        requires
            c < 0x1_0000_0000_0000_0000u128,
    ;
    let q: u128 = c * (FULL as u128) / (2 * inputs);
    if q >= FULL as u128 {
        FULL
    } else {
        q as u32
    }
}

/// The frame counter after a `key=value` pair: the parsed value of a `frame`
/// key where it parses, else the counter unchanged.
pub open spec fn frame_after(frame: i64, pair: Option<(Seq<char>, Seq<char>)>) -> i64 {
    match pair {
        Some(kv) => if kv.0 == "frame"@ {
            match i64_text(kv.1) {
                Some(v) => v,
                None => frame,
            }
        } else {
            frame
        },
        None => frame,
    }
}

/// Whether a report is due at `now_ms` after one at `last_ms`.
pub open spec fn report_due(last_ms: u64, now_ms: u64) -> bool {
    now_ms >= last_ms && now_ms - last_ms >= THROTTLE_MS
}

/// A tracker after one line of the protocol, read at `now_ms`, and the
/// stage-local percentage it reports, if one is due and known.
pub open spec fn tracker_step(t: ProtocolTracker, line: Seq<char>, now_ms: u64) -> (
    ProtocolTracker,
    Option<int>,
) {
    let pair = progress_pair_of(line);
    let frame = frame_after(t.frame, pair);
    let due = pair is Some && report_due(t.last_report_ms, now_ms);
    let next = ProtocolTracker {
        frame,
        total: t.total,
        last_report_ms: if due {
            now_ms
        } else {
            t.last_report_ms
        },
    };
    (next, if due {
        protocol_percent(frame as int, t.total as int)
    } else {
        None
    })
}

/// Follows the structured progress protocol of one tool run: the frame
/// counter, the estimated total and the time of the last report.
#[derive(Clone, Copy, Debug, PartialEq, Eq, Structural)]
pub struct ProtocolTracker {
    pub frame: i64,
    pub total: u64,
    pub last_report_ms: u64,
}

impl ProtocolTracker {
    /// A tracker for a run that started at `now_ms`, with an estimated total of
    /// `total` frames (0 when unknown).
    pub fn new(total: u64, now_ms: u64) -> (r: ProtocolTracker)
        ensures
            r == (ProtocolTracker { frame: 0, total, last_report_ms: now_ms }),
    {
        ProtocolTracker { frame: 0, total, last_report_ms: now_ms }
    }

    /// Takes one line of the protocol, read at `now_ms`. Returns the stage-local
    /// percentage to report, if one is due and known.
    pub fn on_line(&mut self, line: &str, now_ms: u64) -> (r: Option<u32>)
        ensures
            *final(self) == tracker_step(*old(self), line@, now_ms).0,
            r matches Some(p) ==> tracker_step(*old(self), line@, now_ms).1 == Some(p as int),
            r is None <==> tracker_step(*old(self), line@, now_ms).1 is None,
            r matches Some(p) ==> p <= PROTOCOL_CAP,
    {
        let parsed = parse_ffmpeg_progress_line(line);
        match parsed {
            Some(kv) => {
                let (k, v) = kv;
                let key = String::from_str("frame");
                if k == key {
                    match parse_i64(v.as_str()) {
                        Some(f) => {
                            self.frame = f;
                        },
                        None => {},
                    }
                }
                if now_ms >= self.last_report_ms && now_ms - self.last_report_ms >= THROTTLE_MS {
                    self.last_report_ms = now_ms;
                    protocol_percent_of(self.frame, self.total)
                } else {
                    None
                }
            },
            None => None,
        }
    }
}

} // verus!
