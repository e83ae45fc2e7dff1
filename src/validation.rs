use vstd::prelude::*;

use crate::text::{starts_with_text, trim_of, trim_text};

verus! {

/// The result of checking one installed tool.
#[derive(Clone, Debug, PartialEq, Eq)]
pub struct ToolValidation {
    pub ok: bool,
    pub path: Option<String>,
    pub output: String,
}

/// How running a tool with a diagnostic flag went.
pub enum RunResult {
    /// The tool ran; its exit status and its two output streams.
    Ran { success: bool, stdout: String, stderr: String },
    /// The tool could not be run.
    Failed { error: String },
}

/// A tool's output: its standard output, then its error output on a new
/// line, trimmed.
pub open spec fn combined_text(stdout: Seq<char>, stderr: Seq<char>) -> Seq<char> {
    let t = if stderr.len() > 0 {
        if stdout.len() > 0 {
            stdout + "\n"@ + stderr
        } else {
            stderr
        }
    } else {
        stdout
    };
    trim_of(t)
}

/// Whether `p` occurs in `s`.
pub open spec fn contains_text(s: Seq<char>, p: Seq<char>) -> bool {
    exists|i: int| 0 <= i && i + p.len() <= s.len() && #[trigger] s.subrange(i, i + p.len()) == p
}

/// Whether `p` occurs in `s`.
pub fn contains(s: &str, p: &str) -> (r: bool)
    ensures
        r == contains_text(s@, p@),
{
    let n = s.unicode_len();
    let m = p.unicode_len();
    if m > n {
        return false;
    }
    if m == 0 {
        assert(s@.subrange(0int, 0int + p@.len()) =~= p@);
        return true;
    }
    let mut i: usize = 0;
    while i <= n - m
        invariant
            1 <= m <= n,
            n == s@.len(),
            m == p@.len(),
            forall|j: int| 0 <= j < i ==> #[trigger] s@.subrange(j, j + m) != p@,
        decreases n - m + 1 - i,
    {
        let rest = s.substring_char(i, n);
        assert(rest@.subrange(0, m as int) =~= s@.subrange(i as int, i + m));
        if starts_with_text(rest, p) {
            assert(s@.subrange(i as int, i + p@.len()) == p@);
            return true;
        }
        i = i + 1;
    }
    false
}

/// What running a tool with a diagnostic flag shows: its exit status and
/// combined output, or why it could not be run.
pub fn run_and_capture(run: &RunResult) -> (r: ToolValidation)
    ensures
        r.path is None,
        match run {
            RunResult::Ran { success, stdout, stderr } => r.ok == *success && r.output@ == combined_text(
                stdout@,
                stderr@,
            ),
            RunResult::Failed { error } => !r.ok && r.output@ == "Failed to run: "@ + error@,
        },
{
    match run {
        RunResult::Ran { success, stdout, stderr } => {
            let mut text = String::new();
            if stdout.as_str().unicode_len() > 0 {
                text.append(stdout.as_str());
            }
            if stderr.as_str().unicode_len() > 0 {
                if text.as_str().unicode_len() > 0 {
                    text.append("\n");
                }
                text.append(stderr.as_str());
            }
            proof {
                assert(Seq::<char>::empty() + stdout@ =~= stdout@);
                assert(Seq::<char>::empty() + stderr@ =~= stderr@);
            }
            let output = trim_text(text.as_str());
            ToolValidation { ok: *success, path: None, output }
        },
        RunResult::Failed { error } => ToolValidation {
            ok: false,
            path: None,
            output: String::from_str("Failed to run: ").concat(error.as_str()),
        },
    }
}

/// The note that starts the interpolator's check output.
pub open spec fn models_note(models: Option<String>) -> Seq<char> {
    match models {
        Some(m) => "Models: "@ + m@,
        None => "Models: NOT FOUND (expected a folder like 'rife-v2.3', 'rife-v4', etc. next to the RIFE binary)"@,
    }
}

/// Checks the installed ffmpeg: `found` holds its path and how running it with
/// `-version` went, or nothing where none is installed.
pub fn validate_ffmpeg_install(found: &Option<(String, RunResult)>) -> (r: ToolValidation)
    ensures
        match found {
            Some((p, run)) => r.path == Some(*p) && match run {
                RunResult::Ran { success, stdout, stderr } => r.ok == *success && r.output@
                    == combined_text(stdout@, stderr@),
                RunResult::Failed { error } => !r.ok && r.output@ == "Failed to run: "@ + error@,
            },
            None => !r.ok && r.path is None && r.output@
                == "ffmpeg not installed (no binary found in app-managed bin/ffmpeg)"@,
        },
{
    match found {
        Some((p, run)) => {
            let tv = run_and_capture(run);
            ToolValidation { ok: tv.ok, path: Some(p.clone()), output: tv.output }
        },
        None => ToolValidation {
            ok: false,
            path: None,
            output: String::from_str("ffmpeg not installed (no binary found in app-managed bin/ffmpeg)"),
        },
    }
}

/// Checks the installed interpolator: `found` holds its path and how running
/// it with `-h` went, or nothing where none is installed; `models` is its
/// models folder, if one was found. It counts as valid where its models were
/// found and it either exited successfully or its own output holds usage
/// text, as some builds exit unsuccessfully on `-h`.
pub fn validate_rife_install(found: &Option<(String, RunResult)>, models: &Option<String>) -> (r: ToolValidation)
    ensures
        match found {
            Some((p, run)) => {
                let shown = match run {
                    RunResult::Ran { stdout, stderr, .. } => combined_text(stdout@, stderr@),
                    RunResult::Failed { error } => "Failed to run: "@ + error@,
                };
                let ran_ok = match run {
                    RunResult::Ran { success, .. } => *success,
                    RunResult::Failed { .. } => false,
                };
                &&& r.path == Some(*p)
                &&& r.output@ == if shown.len() > 0 {
                    models_note(*models) + "\n\n"@ + shown
                } else {
                    models_note(*models)
                }
                &&& r.ok == (models is Some && (ran_ok || contains_text(shown, "Usage:"@)))
            },
            None => !r.ok && r.path is None && r.output@
                == "RIFE not installed (no 'rife*' binary found in app-managed bin/rife)"@,
        },
{
    match found {
        Some((p, run)) => {
            let tv = run_and_capture(run);
            let note = match models {
                Some(m) => String::from_str("Models: ").concat(m.as_str()),
                None => String::from_str(
                    "Models: NOT FOUND (expected a folder like 'rife-v2.3', 'rife-v4', etc. next to the RIFE binary)",
                ),
            };
            let output = if tv.output.as_str().unicode_len() > 0 {
                let mut o = note;
                o.append("\n\n");
                o.append(tv.output.as_str());
                o
            } else {
                note
            };
            let usage_like = contains(tv.output.as_str(), "Usage:");
            let ok = models.is_some() && (tv.ok || usage_like);
            ToolValidation { ok, path: Some(p.clone()), output }
        },
        None => ToolValidation {
            ok: false,
            path: None,
            output: String::from_str("RIFE not installed (no 'rife*' binary found in app-managed bin/rife)"),
        },
    }
}

} // verus!
