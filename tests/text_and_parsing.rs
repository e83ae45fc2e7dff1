use rife_interpolator::job_id::{job_id_from, make_job_id, make_millis_job_id, millis_job_id, millis_job_id_at};
use rife_interpolator::locate::{ffmpeg_candidates, preferred_ffmpeg_path};
use rife_interpolator::probe::{
    estimate_total_frames, output_rate_text, parse_number, parse_frame_rate, parse_probe_output,
    Ratio,
};
use rife_interpolator::progress_line::parse_ffmpeg_progress_line;
use rife_interpolator::text::{format_i64, format_u64, limit_log_line, parse_i64};

fn pair(k: &str, v: &str) -> Option<(String, String)> {
    Some((k.to_string(), v.to_string()))
}

#[test]
fn progress_line_splits_at_first_equals_and_trims() {
    assert_eq!(parse_ffmpeg_progress_line("frame=42"), pair("frame", "42"));
    assert_eq!(parse_ffmpeg_progress_line("  out_time = 00:00:01.5 "), pair("out_time", "00:00:01.5"));
    assert_eq!(parse_ffmpeg_progress_line("a=b=c"), pair("a", "b=c"));
    assert_eq!(parse_ffmpeg_progress_line("progress="), pair("progress", ""));
}

#[test]
fn progress_line_without_key_or_equals_is_none() {
    assert_eq!(parse_ffmpeg_progress_line("=5"), None);
    assert_eq!(parse_ffmpeg_progress_line("   =5"), None);
    assert_eq!(parse_ffmpeg_progress_line("no separator"), None);
    assert_eq!(parse_ffmpeg_progress_line(""), None);
}

#[test]
fn integers_parse_like_str_parse() {
    assert_eq!(parse_i64("42"), Some(42));
    assert_eq!(parse_i64("-7"), Some(-7));
    assert_eq!(parse_i64("+3"), Some(3));
    assert_eq!(parse_i64("007"), Some(7));
    assert_eq!(parse_i64("9223372036854775807"), Some(i64::MAX));
    assert_eq!(parse_i64("-9223372036854775808"), Some(i64::MIN));
    assert_eq!(parse_i64("9223372036854775808"), None);
    assert_eq!(parse_i64(""), None);
    assert_eq!(parse_i64("-"), None);
    assert_eq!(parse_i64("12a"), None);
    assert_eq!(parse_i64(" 1"), None);
    for s in ["0", "123456789", "-55", "+0", "x", "1.5"] {
        assert_eq!(parse_i64(s), s.parse::<i64>().ok());
    }
}

#[test]
fn numbers_format_in_decimal() {
    assert_eq!(format_u64(0), "0");
    assert_eq!(format_u64(1234), "1234");
    assert_eq!(format_u64(u64::MAX), u64::MAX.to_string());
    assert_eq!(format_i64(-45), "-45");
    assert_eq!(format_i64(i64::MIN), i64::MIN.to_string());
}

#[test]
fn log_lines_are_trimmed_and_cut() {
    assert_eq!(limit_log_line("  hello  "), Some("hello".to_string()));
    assert_eq!(limit_log_line(" \t \n"), None);
    assert_eq!(limit_log_line(""), None);
    assert_eq!(limit_log_line("\u{3000}\u{a0}wide\u{2003}"), Some("wide".to_string()));
    let exact = "é".repeat(400);
    assert_eq!(limit_log_line(&exact), Some(exact.clone()));
    let long = "a".repeat(401);
    let cut = limit_log_line(&long).unwrap();
    assert_eq!(cut, format!("{}…", "a".repeat(400)));
    assert_eq!(cut.chars().count(), 401);
}

#[test]
fn job_ids_are_written_from_the_time() {
    assert_eq!(job_id_from(12, 34), "job-12-34");
    assert_eq!(millis_job_id(1_700_000_000_123), "job-1700000000123");
    assert_eq!(millis_job_id_at(1_700_000_000, 123_456_789), Some("job-1700000000123".to_string()));
    assert_eq!(millis_job_id_at(0, 999_999), Some("job-0".to_string()));
    assert_eq!(millis_job_id_at(u64::MAX, 0), None);
    let id = make_job_id();
    let parts: Vec<&str> = id.split('-').collect();
    assert_eq!(parts.len(), 3);
    assert_eq!(parts[0], "job");
    assert!(parts[1].parse::<u64>().unwrap() > 0);
    assert!(parts[2].parse::<u32>().unwrap() < 1_000_000_000);
    let m = make_millis_job_id().unwrap();
    assert!(m.starts_with("job-"));
    assert!(m["job-".len()..].parse::<i64>().unwrap() > 1_600_000_000_000);
}

#[test]
fn preferred_ffmpeg_is_the_first_present_candidate() {
    let c = ffmpeg_candidates();
    assert_eq!(c.len(), 4);
    assert_eq!(c[0], "/opt/homebrew/opt/ffmpeg-full/bin/ffmpeg");
    assert_eq!(c[3], "/usr/bin/ffmpeg");
    assert_eq!(preferred_ffmpeg_path(&vec![false, true, true, false]), Some("/opt/homebrew/bin/ffmpeg".to_string()));
    assert_eq!(preferred_ffmpeg_path(&vec![false, false, false, true]), Some("/usr/bin/ffmpeg".to_string()));
    assert_eq!(preferred_ffmpeg_path(&vec![false; 4]), None);
    assert_eq!(preferred_ffmpeg_path(&vec![]), None);
}

#[test]
fn probe_output_parses_duration_and_rational_rate() {
    let p = parse_probe_output("12.500000\n", "24/1\n").unwrap();
    assert_eq!(p.0, Ratio { num: 12_500_000, den: 1_000_000 });
    assert_eq!(p.1, Ratio { num: 24, den: 1 });
    assert_eq!(estimate_total_frames(Some(p)), 300);
    let q = parse_probe_output("10.0", "30000/1001").unwrap();
    assert_eq!(estimate_total_frames(Some(q)), 300);
}

#[test]
fn probe_failures_and_unknown_rates() {
    assert_eq!(parse_probe_output("N/A", "24/1"), None);
    assert_eq!(parse_probe_output("", "24/1"), None);
    assert_eq!(parse_probe_output("5", "x/1"), None);
    assert_eq!(parse_frame_rate("abc"), Some(Ratio { num: 0, den: 1 }));
    assert_eq!(parse_frame_rate("25"), Some(Ratio { num: 25, den: 1 }));
    assert_eq!(parse_frame_rate("0/0"), Some(Ratio { num: 0, den: 0 }));
    assert_eq!(parse_frame_rate("29.97/1"), Some(Ratio { num: 2997, den: 100 }));
    assert_eq!(parse_frame_rate("30000/1001.0"), Some(Ratio { num: 300000, den: 10010 }));
    assert_eq!(parse_frame_rate("1/x"), None);
    assert_eq!(parse_frame_rate("9999999999999999999/0.5"), None);
    assert_eq!(parse_number("1."), Some(Ratio { num: 1, den: 1 }));
    assert_eq!(parse_number(".5"), Some(Ratio { num: 5, den: 10 }));
    assert_eq!(parse_number("."), None);
    assert_eq!(parse_number("1.2.3"), None);
    assert_eq!(parse_number("1234567890123456789"), Some(Ratio { num: 1_234_567_890_123_456_780, den: 1 }));
    let zero_rate = parse_probe_output("10", "0/0");
    assert_eq!(estimate_total_frames(zero_rate), 0);
    assert_eq!(estimate_total_frames(None), 0);
}

#[test]
fn frame_estimate_rounds_halves_up_and_saturates() {
    let half = Some((Ratio { num: 5, den: 10 }, Ratio { num: 3, den: 1 }));
    assert_eq!(estimate_total_frames(half), 2);
    let huge = Some((Ratio { num: u64::MAX, den: 1 }, Ratio { num: u64::MAX, den: 1 }));
    assert_eq!(estimate_total_frames(huge), i64::MAX as u64);
}

#[test]
fn reencode_rate_doubles_a_probed_rate_of_24() {
    assert_eq!(output_rate_text(Some(Ratio { num: 24, den: 1 })), "48.000000");
}

#[test]
fn reencode_rate_defaults_and_floor() {
    assert_eq!(output_rate_text(None), "60.000000");
    assert_eq!(output_rate_text(Some(Ratio { num: 30000, den: 1001 })), "59.940060");
    assert_eq!(output_rate_text(Some(Ratio { num: 0, den: 0 })), "1.000000");
    assert_eq!(output_rate_text(Some(Ratio { num: 1, den: 4 })), "1.000000");
    assert_eq!(output_rate_text(Some(Ratio { num: 2997, den: 100 })), "59.940000");
}

#[test]
fn number_text_reads_like_float_text() {
    assert_eq!(parse_number("1e2"), Some(Ratio { num: 100, den: 1 }));
    assert_eq!(parse_number("+25"), Some(Ratio { num: 25, den: 1 }));
    assert_eq!(parse_number("2.5E1"), Some(Ratio { num: 25, den: 1 }));
    assert_eq!(parse_number("1.e+1"), Some(Ratio { num: 10, den: 1 }));
    assert_eq!(parse_number("1e-3"), Some(Ratio { num: 1, den: 1000 }));
    assert_eq!(parse_number("-5"), Some(Ratio { num: 0, den: 1 }));
    assert_eq!(parse_number("1e30"), Some(Ratio { num: u64::MAX, den: 1 }));
    assert_eq!(parse_number("1e99999999999999999999"), Some(Ratio { num: u64::MAX, den: 1 }));
    assert_eq!(parse_number("5e-40"), Some(Ratio { num: 0, den: 10_000_000_000_000_000_000 }));
    assert_eq!(parse_number("0.1234567890123456789"), Some(Ratio { num: 12_345_678_901_234_567, den: 100_000_000_000_000_000 }));
    assert_eq!(parse_number("1e"), None);
    assert_eq!(parse_number("e5"), None);
    assert_eq!(parse_number("1e5e3"), None);
    assert_eq!(parse_number("-"), None);
    for t in ["1e2", "+25", "2.5E1", "0.125", "3"] {
        let q = parse_number(t).unwrap();
        assert_eq!(q.num as f64 / q.den as f64, t.parse::<f64>().unwrap());
    }
    let p = parse_probe_output("1e2", "24/1");
    assert_eq!(estimate_total_frames(p), 2400);
}
