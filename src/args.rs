use vstd::prelude::*;

use crate::text::{format_i64, signed_decimal};

verus! {

/// What `Path::extension` gives for a path.
pub uninterp spec fn extension_of(p: Seq<char>) -> Option<Seq<char>>;

/// Relies on `Path::extension`: the part of the file name after its last `.`,
/// if there is one.
#[verifier::external_body]
fn path_extension(p: &str) -> (r: Option<String>)
    ensures
        r matches Some(e) ==> extension_of(p@) == Some(e@),
        r is None <==> extension_of(p@) is None,
{
    match std::path::Path::new(p).extension() {
        Some(e) => Some(e.to_string_lossy().into_owned()),
        None => None,
    }
}

/// The views of a list of arguments.
pub open spec fn arg_views(v: Seq<String>) -> Seq<Seq<char>> {
    v.map_values(|s: String| s@)
}

fn push_arg(v: &mut Vec<String>, a: &str)
    ensures
        arg_views(final(v)@) == arg_views(old(v)@).push(a@),
{
    v.push(String::from_str(a));
    assert(arg_views(v@) =~= arg_views(old(v)@).push(a@));
}

/// The arguments that run the interpolator on a folder of frames.
pub open spec fn rife_args_text(input: Seq<char>, output: Seq<char>, model_arg: Seq<char>, threads: Seq<char>) -> Seq<Seq<char>> {
    seq!["-v"@, "-i"@, input, "-o"@, output, "-m"@, model_arg, "-f"@, "%08d.png"@, "-j"@, threads]
}

/// The arguments that run the interpolator from `input` frames to `output`.
pub fn rife_args(input: &str, output: &str, model_arg: &str, threads: &str) -> (r: Vec<String>)
    ensures
        arg_views(r@) == rife_args_text(input@, output@, model_arg@, threads@),
{
    let mut v: Vec<String> = Vec::new();
    push_arg(&mut v, "-v");
    push_arg(&mut v, "-i");
    push_arg(&mut v, input);
    push_arg(&mut v, "-o");
    push_arg(&mut v, output);
    push_arg(&mut v, "-m");
    push_arg(&mut v, model_arg);
    push_arg(&mut v, "-f");
    push_arg(&mut v, "%08d.png");
    push_arg(&mut v, "-j");
    push_arg(&mut v, threads);
    assert(arg_views(v@) =~= rife_args_text(input@, output@, model_arg@, threads@));
    v
}

/// The arguments that extract the frames of `input` as JPEG files named by
/// `pattern`, reporting progress on standard output, with hardware decoding
/// `hwaccel` where the platform has one.
pub open spec fn extract_args_text(input: Seq<char>, pattern: Seq<char>, hwaccel: Option<Seq<char>>) -> Seq<Seq<char>> {
    let head = seq![
        "-hide_banner"@,
        "-y"@,
        "-nostdin"@,
        "-loglevel"@,
        "error"@,
        "-stats_period"@,
        "0.5"@,
        "-i"@,
        input,
        "-fps_mode"@,
        "passthrough"@,
        "-progress"@,
        "pipe:1"@,
    ];
    let hw = match hwaccel {
        Some(h) => seq!["-hwaccel"@, h],
        None => Seq::empty(),
    };
    head + hw + seq!["-threads"@, "0"@, "-c:v"@, "mjpeg"@, "-q:v"@, "2"@, pattern]
}

/// The arguments of a frame extraction job.
pub fn extract_args(input: &str, pattern: &str, hwaccel: Option<&str>) -> (r: Vec<String>)
    ensures
        arg_views(r@) == extract_args_text(
            input@,
            pattern@,
            match hwaccel {
                Some(h) => Some(h@),
                None => None,
            },
        ),
{
    let mut v: Vec<String> = Vec::new();
    push_arg(&mut v, "-hide_banner");
    push_arg(&mut v, "-y");
    push_arg(&mut v, "-nostdin");
    push_arg(&mut v, "-loglevel");
    push_arg(&mut v, "error");
    push_arg(&mut v, "-stats_period");
    push_arg(&mut v, "0.5");
    push_arg(&mut v, "-i");
    push_arg(&mut v, input);
    push_arg(&mut v, "-fps_mode");
    push_arg(&mut v, "passthrough");
    push_arg(&mut v, "-progress");
    push_arg(&mut v, "pipe:1");
    let ghost mid = arg_views(v@);
    match hwaccel {
        Some(h) => {
            push_arg(&mut v, "-hwaccel");
            push_arg(&mut v, h);
        },
        None => {},
    }
    let ghost after_hw = arg_views(v@);
    push_arg(&mut v, "-threads");
    push_arg(&mut v, "0");
    push_arg(&mut v, "-c:v");
    push_arg(&mut v, "mjpeg");
    push_arg(&mut v, "-q:v");
    push_arg(&mut v, "2");
    push_arg(&mut v, pattern);
    assert(arg_views(v@) =~= extract_args_text(
        input@,
        pattern@,
        match hwaccel {
            Some(h) => Some(h@),
            None => None,
        },
    ));
    v
}

/// The arguments of the full pipeline's extraction into PNG frames.
pub open spec fn smooth_extract_args_text(input: Seq<char>, pattern: Seq<char>) -> Seq<Seq<char>> {
    seq!["-hide_banner"@, "-y"@, "-i"@, input, "-vsync"@, "0"@, pattern]
}

/// The arguments of the full pipeline's extraction into PNG frames.
pub fn smooth_extract_args(input: &str, pattern: &str) -> (r: Vec<String>)
    ensures
        arg_views(r@) == smooth_extract_args_text(input@, pattern@),
{
    let mut v: Vec<String> = Vec::new();
    push_arg(&mut v, "-hide_banner");
    push_arg(&mut v, "-y");
    push_arg(&mut v, "-i");
    push_arg(&mut v, input);
    push_arg(&mut v, "-vsync");
    push_arg(&mut v, "0");
    push_arg(&mut v, pattern);
    assert(arg_views(v@) =~= smooth_extract_args_text(input@, pattern@));
    v
}

/// The arguments of the full pipeline's encoding of interpolated frames.
pub open spec fn smooth_encode_args_text(pattern: Seq<char>, output: Seq<char>) -> Seq<Seq<char>> {
    seq![
        "-hide_banner"@,
        "-y"@,
        "-framerate"@,
        "30"@,
        "-i"@,
        pattern,
        "-c:v"@,
        "libx264"@,
        "-pix_fmt"@,
        "yuv420p"@,
        output,
    ]
}

/// The arguments of the full pipeline's encoding of interpolated frames.
pub fn smooth_encode_args(pattern: &str, output: &str) -> (r: Vec<String>)
    ensures
        arg_views(r@) == smooth_encode_args_text(pattern@, output@),
{
    let mut v: Vec<String> = Vec::new();
    push_arg(&mut v, "-hide_banner");
    push_arg(&mut v, "-y");
    push_arg(&mut v, "-framerate");
    push_arg(&mut v, "30");
    push_arg(&mut v, "-i");
    push_arg(&mut v, pattern);
    push_arg(&mut v, "-c:v");
    push_arg(&mut v, "libx264");
    push_arg(&mut v, "-pix_fmt");
    push_arg(&mut v, "yuv420p");
    push_arg(&mut v, output);
    assert(arg_views(v@) =~= smooth_encode_args_text(pattern@, output@));
    v
}

/// The code of a character with ASCII upper case letters lowered.
pub open spec fn lower_code(c: char) -> u32 {
    if 'A' <= c && c <= 'Z' {
        ((c as u32) + 32) as u32
    } else {
        c as u32
    }
}

/// Whether `s` equals `t` up to ASCII case; `t` is lower case.
pub open spec fn equals_ignoring_case(s: Seq<char>, t: Seq<char>) -> bool {
    s.len() == t.len() && forall|i: int| 0 <= i < s.len() ==> lower_code(#[trigger] s[i]) == t[i] as u32
}

fn equals_ignoring_case_of(s: &str, t: &str) -> (r: bool)
    ensures
        r == equals_ignoring_case(s@, t@),
{
    let n = s.unicode_len();
    if n != t.unicode_len() {
        return false;
    }
    let mut i: usize = 0;
    while i < n
        invariant
            i <= n,
            n == s@.len(),
            n == t@.len(),
            forall|j: int| 0 <= j < i ==> lower_code(#[trigger] s@[j]) == t@[j] as u32,
        decreases n - i,
    {
        let c = s.get_char(i);
        let l: u32 = if 'A' <= c && c <= 'Z' {
            (c as u32) + 32
        } else {
            c as u32
        };
        if l != (t.get_char(i) as u32) {
            return false;
        }
        i = i + 1;
    }
    true
}

/// Whether an output container takes AAC audio best, so that the original
/// audio is re-encoded rather than copied: `mp4`, `mov` or `m4v` in any ASCII
/// case.
pub open spec fn needs_aac(ext: Option<Seq<char>>) -> bool {
    match ext {
        Some(e) => equals_ignoring_case(e, "mp4"@) || equals_ignoring_case(e, "mov"@)
            || equals_ignoring_case(e, "m4v"@),
        None => false,
    }
}

/// The arguments of a re-encode from frames named by `pattern` at frame rate
/// `fps`, with the audio of `input`, into `output`; `threads` limits ffmpeg
/// where it is positive.
pub open spec fn reencode_args_text(
    pattern: Seq<char>,
    input: Seq<char>,
    output: Seq<char>,
    fps: Seq<char>,
    threads: i32,
) -> Seq<Seq<char>> {
    let threads_part = if threads > 0 {
        seq!["-threads"@, signed_decimal(threads as int)]
    } else {
        Seq::empty()
    };
    let audio = if needs_aac(extension_of(output)) {
        seq!["-c:a"@, "aac"@, "-b:a"@, "192k"@]
    } else {
        seq!["-c:a"@, "copy"@]
    };
    seq!["-hide_banner"@, "-y"@] + threads_part + seq![
        "-progress"@,
        "pipe:1"@,
        "-nostats"@,
        "-framerate"@,
        fps,
        "-i"@,
        pattern,
        "-i"@,
        input,
        "-map"@,
        "0:v:0"@,
        "-map"@,
        "1:a:0?"@,
        "-c:v"@,
        "libx264"@,
        "-preset"@,
        "ultrafast"@,
        "-crf"@,
        "18"@,
    ] + audio + seq!["-shortest"@, output]
}

/// The arguments of a re-encode.
pub fn reencode_args(pattern: &str, input: &str, output: &str, fps: &str, threads: i32) -> (r: Vec<String>)
    ensures
        arg_views(r@) == reencode_args_text(pattern@, input@, output@, fps@, threads),
{
    let mut v: Vec<String> = Vec::new();
    push_arg(&mut v, "-hide_banner");
    push_arg(&mut v, "-y");
    if threads > 0 {
        push_arg(&mut v, "-threads");
        let t = format_i64(threads as i64);
        push_arg(&mut v, t.as_str());
    }
    let ghost a = arg_views(v@);
    push_arg(&mut v, "-progress");
    push_arg(&mut v, "pipe:1");
    push_arg(&mut v, "-nostats");
    push_arg(&mut v, "-framerate");
    push_arg(&mut v, fps);
    push_arg(&mut v, "-i");
    push_arg(&mut v, pattern);
    push_arg(&mut v, "-i");
    push_arg(&mut v, input);
    push_arg(&mut v, "-map");
    push_arg(&mut v, "0:v:0");
    push_arg(&mut v, "-map");
    push_arg(&mut v, "1:a:0?");
    push_arg(&mut v, "-c:v");
    push_arg(&mut v, "libx264");
    push_arg(&mut v, "-preset");
    push_arg(&mut v, "ultrafast");
    push_arg(&mut v, "-crf");
    push_arg(&mut v, "18");
    let ghost b = arg_views(v@);
    let ext = path_extension(output);
    let aac = match &ext {
        Some(e) => equals_ignoring_case_of(e.as_str(), "mp4") || equals_ignoring_case_of(
            e.as_str(),
            "mov",
        ) || equals_ignoring_case_of(e.as_str(), "m4v"),
        None => false,
    };
    if aac {
        push_arg(&mut v, "-c:a");
        push_arg(&mut v, "aac");
        push_arg(&mut v, "-b:a");
        push_arg(&mut v, "192k");
    } else {
        push_arg(&mut v, "-c:a");
        push_arg(&mut v, "copy");
    }
    push_arg(&mut v, "-shortest");
    push_arg(&mut v, output);
    assert(arg_views(v@) =~= reencode_args_text(pattern@, input@, output@, fps@, threads));
    v
}

} // verus!
