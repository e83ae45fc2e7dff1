use vstd::prelude::*;

use crate::text::{decimal, format_i64, format_u64, signed_decimal};

verus! {

/// The job id written from a time since the Unix epoch in whole seconds and
/// the nanoseconds past them: `job-<secs>-<nanos>`.
pub open spec fn job_id_text(secs: nat, nanos: nat) -> Seq<char> {
    "job-"@ + decimal(secs) + "-"@ + decimal(nanos)
}

/// The job id written from a time since the Unix epoch in milliseconds:
/// `job-<millis>`.
pub open spec fn millis_job_id_text(millis: int) -> Seq<char> {
    "job-"@ + signed_decimal(millis)
}

/// A time since the Unix epoch in whole seconds and nanoseconds past them, in
/// whole milliseconds.
pub open spec fn millis_of(secs: nat, nanos: nat) -> int {
    (secs * 1000 + nanos / 1_000_000) as int
}

/// Relies on `SystemTime::now` and `SystemTime::duration_since(UNIX_EPOCH)`:
/// whole seconds and the nanoseconds past them, which `Duration::subsec_nanos`
/// documents as less than one billion; a clock before the epoch reads as zero.
#[verifier::external_body]
fn seconds_since_epoch() -> (r: (u64, u32))
    ensures
        r.1 < 1_000_000_000,
{
    let now = std::time::SystemTime::now().duration_since(std::time::UNIX_EPOCH).unwrap_or_default();
    (now.as_secs(), now.subsec_nanos())
}

/// The latest time, in seconds since the Unix epoch, up to which a job id in
/// milliseconds is always written (about the year 255,000).
pub const MILLIS_ID_LIMIT: u64 = 8_000_000_000_000;

/// Relies on chrono's `DateTime::<Utc>::from_timestamp`, which gives none
/// only where the time is out of its range (dates up to the year 262142), and
/// `DateTime::timestamp_millis`, which is the whole seconds times 1000 plus
/// the milliseconds of the nanoseconds.
#[verifier::external_body]
fn utc_millis_at(secs: i64, nanos: u32) -> (r: Option<i64>)
    requires
        nanos < 1_000_000_000,
    ensures
        r matches Some(m) ==> m == secs * 1000 + nanos / 1_000_000,
        0 <= secs < MILLIS_ID_LIMIT ==> r is Some,
{
    match chrono::DateTime::<chrono::Utc>::from_timestamp(secs, nanos) {
        Some(t) => Some(t.timestamp_millis()),
        None => None,
    }
}

/// Writes the id of a job created at `secs` seconds and `nanos` nanoseconds
/// after the Unix epoch.
pub fn job_id_from(secs: u64, nanos: u32) -> (r: String)
    ensures
        r@ == job_id_text(secs as nat, nanos as nat),
{
    let mut s = String::from_str("job-");
    let a = format_u64(secs);
    s.append(a.as_str());
    s.append("-");
    let b = format_u64(nanos as u64);
    s.append(b.as_str());
    assert(s@ =~= job_id_text(secs as nat, nanos as nat));
    s
}

/// Writes the id of a job created `millis` milliseconds after the Unix epoch.
pub fn millis_job_id(millis: i64) -> (r: String)
    ensures
        r@ == millis_job_id_text(millis as int),
{
    let mut s = String::from_str("job-");
    let a = format_i64(millis);
    s.append(a.as_str());
    assert(s@ =~= millis_job_id_text(millis as int));
    s
}

/// A fresh job id from the clock, in seconds and nanoseconds.
pub fn make_job_id() -> (r: String)
    ensures
        exists|secs: nat, nanos: nat| nanos < 1_000_000_000 && r@ == job_id_text(secs, nanos),
{
    let (secs, nanos) = seconds_since_epoch();
    let r = job_id_from(secs, nanos);
    assert(r@ == job_id_text(secs as nat, nanos as nat));
    r
}

/// The id, in milliseconds, of a job created `secs` seconds and `nanos`
/// nanoseconds after the Unix epoch; none for a time beyond what chrono
/// represents.
pub fn millis_job_id_at(secs: u64, nanos: u32) -> (r: Option<String>)
    requires
        nanos < 1_000_000_000,
    ensures
        r matches Some(id) ==> id@ == millis_job_id_text(millis_of(secs as nat, nanos as nat)),
        secs < MILLIS_ID_LIMIT ==> r is Some,
        secs > i64::MAX ==> r is None,
{
    if secs > 9_223_372_036_854_775_807u64 {
        return None;
    }
    match utc_millis_at(secs as i64, nanos) {
        Some(millis) => Some(millis_job_id(millis)),
        None => None,
    }
}

/// A fresh job id from the clock, in milliseconds; none where the clock
/// reads a time that chrono cannot represent.
pub fn make_millis_job_id() -> (r: Option<String>)
    ensures
        r matches Some(id) ==> exists|secs: nat, nanos: nat|
            nanos < 1_000_000_000 && id@ == millis_job_id_text(#[trigger] millis_of(secs, nanos)),
{
    let (secs, nanos) = seconds_since_epoch();
    let r = millis_job_id_at(secs, nanos);
    proof {
        if r is Some {
            assert(r->Some_0@ == millis_job_id_text(millis_of(secs as nat, nanos as nat)));
        }
    }
    r
}

} // verus!
