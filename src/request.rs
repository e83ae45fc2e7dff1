use vstd::prelude::*;

use crate::rife_args::{rife_threads_arg, rife_threads_text};
use crate::text::{trim_of, trim_text};

verus! {

/// What `Path::join` gives for a base path and a further part.
pub uninterp spec fn joined(base: Seq<char>, part: Seq<char>) -> Seq<char>;

/// Relies on `Path::join`: `part` added to `base` with the platform's
/// separator (or in its place, where `part` is absolute).
#[verifier::external_body]
fn join_path(base: &str, part: &str) -> (r: String)
    ensures
        r@ == joined(base@, part@),
{
    std::path::Path::new(base).join(part).to_string_lossy().into_owned()
}

/// The pattern of the numbered frame files in a folder: eight digits with
/// leading zeros, then the extension `ext`.
pub open spec fn frame_pattern_text(dir: Seq<char>, ext: Seq<char>) -> Seq<char> {
    joined(dir, "%08d."@ + ext)
}

/// The pattern of the numbered frame files in a folder, for one extension.
pub fn frame_pattern(dir: &str, ext: &str) -> (r: String)
    ensures
        r@ == frame_pattern_text(dir@, ext@),
{
    let name = String::from_str("%08d.").concat(ext);
    join_path(dir, name.as_str())
}

#[derive(Clone, Copy, Debug, PartialEq, Eq, Structural)]
pub enum Tool {
    Ffmpeg,
    Rife,
}

/// Which path of a request was found missing.
#[derive(Clone, Copy, Debug, PartialEq, Eq, Structural)]
pub enum PathRole {
    InputVideo,
    FramesFolder,
    Model,
    InputFrames,
}

/// Which field of a request was left empty.
#[derive(Clone, Copy, Debug, PartialEq, Eq, Structural)]
pub enum Field {
    OutputPath,
    FramesFolder,
}

/// Why a request was refused before any work started.
#[derive(Clone, Debug, PartialEq, Eq)]
pub enum RequestError {
    ToolNotInstalled(Tool),
    ModelNotFound,
    InvalidInputPath { role: PathRole, path: String },
    EmptyRequiredField(Field),
}

/// The message of a refused request.
pub open spec fn error_text(e: RequestError) -> Seq<char> {
    match e {
        RequestError::ToolNotInstalled(Tool::Ffmpeg) => "ffmpeg not installed (install ffmpeg first)"@,
        RequestError::ToolNotInstalled(Tool::Rife) => "rife not installed (install rife first)"@,
        RequestError::ModelNotFound => "RIFE models folder not found (install rife first)"@,
        RequestError::InvalidInputPath { role, path } => match role {
            PathRole::InputVideo => "Input video does not exist"@,
            PathRole::FramesFolder => "Frames folder does not exist"@,
            PathRole::Model => "Model path does not exist: "@ + path@,
            PathRole::InputFrames => "Input frames dir does not exist: "@ + path@,
        },
        RequestError::EmptyRequiredField(Field::OutputPath) => "Output path is required"@,
        RequestError::EmptyRequiredField(Field::FramesFolder) => "Frames folder is required for re-encode only"@,
    }
}

impl RequestError {
    /// The message shown for this refusal.
    pub fn message(&self) -> (r: String)
        ensures
            r@ == error_text(*self),
    {
        match self {
            RequestError::ToolNotInstalled(Tool::Ffmpeg) => String::from_str(
                "ffmpeg not installed (install ffmpeg first)",
            ),
            RequestError::ToolNotInstalled(Tool::Rife) => String::from_str(
                "rife not installed (install rife first)",
            ),
            RequestError::ModelNotFound => String::from_str(
                "RIFE models folder not found (install rife first)",
            ),
            RequestError::InvalidInputPath { role, path } => match role {
                PathRole::InputVideo => String::from_str("Input video does not exist"),
                PathRole::FramesFolder => String::from_str("Frames folder does not exist"),
                PathRole::Model => String::from_str("Model path does not exist: ").concat(
                    path.as_str(),
                ),
                PathRole::InputFrames => String::from_str("Input frames dir does not exist: ").concat(
                    path.as_str(),
                ),
            },
            RequestError::EmptyRequiredField(Field::OutputPath) => String::from_str(
                "Output path is required",
            ),
            RequestError::EmptyRequiredField(Field::FramesFolder) => String::from_str(
                "Frames folder is required for re-encode only",
            ),
        }
    }
}

/// The ffmpeg a job uses: a system-wide one where found, else the installed one.
pub open spec fn chosen_ffmpeg(preferred: Option<String>, installed: Option<String>) -> Option<String> {
    match preferred {
        Some(p) => Some(p),
        None => installed,
    }
}

/// A frame extraction request that passed its checks.
#[derive(Clone, Debug, PartialEq, Eq)]
pub struct ExtractPlan {
    pub ffmpeg: String,
    pub input: String,
}

/// Checks a frame extraction request. `input_exists` tells whether the
/// trimmed `video_path` exists.
pub fn validate_extract(
    preferred_ffmpeg: Option<String>,
    installed_ffmpeg: Option<String>,
    video_path: &str,
    input_exists: bool,
) -> (r: Result<ExtractPlan, RequestError>)
    ensures
        chosen_ffmpeg(preferred_ffmpeg, installed_ffmpeg) is None ==> r matches Err(
            RequestError::ToolNotInstalled(Tool::Ffmpeg),
        ),
        chosen_ffmpeg(preferred_ffmpeg, installed_ffmpeg) is Some && !input_exists ==> (r matches Err(
            RequestError::InvalidInputPath { role: PathRole::InputVideo, .. },
        )),
        r matches Ok(p) ==> {
            &&& chosen_ffmpeg(preferred_ffmpeg, installed_ffmpeg) == Some(p.ffmpeg)
            &&& input_exists
            &&& p.input@ == trim_of(video_path@)
        },
        chosen_ffmpeg(preferred_ffmpeg, installed_ffmpeg) is Some && input_exists ==> (r is Ok),
{
    let ffmpeg = match preferred_ffmpeg {
        Some(p) => p,
        None => match installed_ffmpeg {
            Some(p) => p,
            None => return Err(RequestError::ToolNotInstalled(Tool::Ffmpeg)),
        },
    };
    let input = trim_text(video_path);
    if !input_exists {
        return Err(RequestError::InvalidInputPath { role: PathRole::InputVideo, path: input });
    }
    Ok(ExtractPlan { ffmpeg, input })
}

/// A full pipeline request that passed its checks.
#[derive(Clone, Debug, PartialEq, Eq)]
pub struct SmoothPlan {
    pub ffmpeg: String,
    pub rife: String,
    pub model_dir: String,
    pub input: String,
    pub output: String,
    pub threads: String,
}

/// Checks a full pipeline request, in order: ffmpeg, the interpolator and its
/// models installed, the input video present, an output path given.
/// `input_exists` tells whether the trimmed `video_path` exists.
pub fn validate_smooth(
    preferred_ffmpeg: Option<String>,
    installed_ffmpeg: Option<String>,
    rife: Option<String>,
    rife_models: Option<String>,
    video_path: &str,
    input_exists: bool,
    output_path: &str,
    max_threads: Option<i32>,
) -> (r: Result<SmoothPlan, RequestError>)
    ensures
        chosen_ffmpeg(preferred_ffmpeg, installed_ffmpeg) is None ==> r matches Err(
            RequestError::ToolNotInstalled(Tool::Ffmpeg),
        ),
        chosen_ffmpeg(preferred_ffmpeg, installed_ffmpeg) is Some && rife is None ==> r matches Err(
            RequestError::ToolNotInstalled(Tool::Rife),
        ),
        chosen_ffmpeg(preferred_ffmpeg, installed_ffmpeg) is Some && rife is Some && rife_models is None
            ==> (r matches Err(RequestError::ModelNotFound)),
        chosen_ffmpeg(preferred_ffmpeg, installed_ffmpeg) is Some && rife is Some && rife_models is Some
            && !input_exists ==> (r matches Err(
            RequestError::InvalidInputPath { role: PathRole::InputVideo, .. },
        )),
        chosen_ffmpeg(preferred_ffmpeg, installed_ffmpeg) is Some && rife is Some && rife_models is Some
            && input_exists && trim_of(output_path@).len() == 0 ==> (r matches Err(
            RequestError::EmptyRequiredField(Field::OutputPath),
        )),
        chosen_ffmpeg(preferred_ffmpeg, installed_ffmpeg) is Some && rife is Some && rife_models is Some
            && input_exists && trim_of(output_path@).len() > 0 ==> (r is Ok),
        r matches Ok(p) ==> {
            &&& chosen_ffmpeg(preferred_ffmpeg, installed_ffmpeg) == Some(p.ffmpeg)
            &&& rife == Some(p.rife)
            &&& rife_models == Some(p.model_dir)
            &&& p.input@ == trim_of(video_path@)
            &&& p.output@ == trim_of(output_path@)
            &&& p.threads@ == rife_threads_text(max_threads)
        },
{
    let ffmpeg = match preferred_ffmpeg {
        Some(p) => p,
        None => match installed_ffmpeg {
            Some(p) => p,
            None => return Err(RequestError::ToolNotInstalled(Tool::Ffmpeg)),
        },
    };
    let rife = match rife {
        Some(p) => p,
        None => return Err(RequestError::ToolNotInstalled(Tool::Rife)),
    };
    let model_dir = match rife_models {
        Some(p) => p,
        None => return Err(RequestError::ModelNotFound),
    };
    let input = trim_text(video_path);
    if !input_exists {
        return Err(RequestError::InvalidInputPath { role: PathRole::InputVideo, path: input });
    }
    let output = trim_text(output_path);
    if output.as_str().unicode_len() == 0 {
        return Err(RequestError::EmptyRequiredField(Field::OutputPath));
    }
    let threads = rife_threads_arg(max_threads);
    Ok(SmoothPlan { ffmpeg, rife, model_dir, input, output, threads })
}

/// A re-encode request that passed its checks.
#[derive(Clone, Debug, PartialEq, Eq)]
pub struct ReencodePlan {
    pub ffmpeg: String,
    pub input: String,
    pub output: String,
    pub frames_dir: String,
    pub frame_pattern: String,
}

/// The frames folder a re-encode request names: trimmed, empty where absent.
pub open spec fn frames_dir_text(frames_dir: Option<String>) -> Seq<char> {
    match frames_dir {
        Some(d) => trim_of(d@),
        None => Seq::empty(),
    }
}

/// Checks a re-encode request, in order: ffmpeg found, the input video
/// present, an output path given, a frames folder given and present.
/// `input_exists` and `frames_dir_exists` tell whether the trimmed
/// `video_path` and frames folder exist.
pub fn validate_reencode(
    preferred_ffmpeg: Option<String>,
    installed_ffmpeg: Option<String>,
    video_path: &str,
    input_exists: bool,
    output_path: &str,
    frames_dir: Option<String>,
    frames_dir_exists: bool,
) -> (r: Result<ReencodePlan, RequestError>)
    ensures
        chosen_ffmpeg(preferred_ffmpeg, installed_ffmpeg) is None ==> r matches Err(
            RequestError::ToolNotInstalled(Tool::Ffmpeg),
        ),
        chosen_ffmpeg(preferred_ffmpeg, installed_ffmpeg) is Some && !input_exists ==> (r matches Err(
            RequestError::InvalidInputPath { role: PathRole::InputVideo, .. },
        )),
        chosen_ffmpeg(preferred_ffmpeg, installed_ffmpeg) is Some && input_exists && trim_of(
            output_path@,
        ).len() == 0 ==> (r matches Err(RequestError::EmptyRequiredField(Field::OutputPath))),
        chosen_ffmpeg(preferred_ffmpeg, installed_ffmpeg) is Some && input_exists && trim_of(
            output_path@,
        ).len() > 0 && frames_dir_text(frames_dir).len() == 0 ==> (r matches Err(
            RequestError::EmptyRequiredField(Field::FramesFolder),
        )),
        chosen_ffmpeg(preferred_ffmpeg, installed_ffmpeg) is Some && input_exists && trim_of(
            output_path@,
        ).len() > 0 && frames_dir_text(frames_dir).len() > 0 && !frames_dir_exists ==> (r matches Err(
            RequestError::InvalidInputPath { role: PathRole::FramesFolder, .. },
        )),
        r matches Ok(p) ==> {
            &&& chosen_ffmpeg(preferred_ffmpeg, installed_ffmpeg) == Some(p.ffmpeg)
            &&& input_exists
            &&& frames_dir_exists
            &&& p.input@ == trim_of(video_path@)
            &&& p.output@ == trim_of(output_path@)
            &&& p.output@.len() > 0
            &&& p.frames_dir@ == frames_dir_text(frames_dir)
            &&& p.frames_dir@.len() > 0
            &&& p.frame_pattern@ == frame_pattern_text(p.frames_dir@, "png"@)
        },
        chosen_ffmpeg(preferred_ffmpeg, installed_ffmpeg) is Some && input_exists && trim_of(
            output_path@,
        ).len() > 0 && frames_dir_text(frames_dir).len() > 0 && frames_dir_exists ==> (r is Ok),
{
    let ffmpeg = match preferred_ffmpeg {
        Some(p) => p,
        None => match installed_ffmpeg {
            Some(p) => p,
            None => return Err(RequestError::ToolNotInstalled(Tool::Ffmpeg)),
        },
    };
    let input = trim_text(video_path);
    if !input_exists {
        return Err(RequestError::InvalidInputPath { role: PathRole::InputVideo, path: input });
    }
    let output = trim_text(output_path);
    if output.as_str().unicode_len() == 0 {
        return Err(RequestError::EmptyRequiredField(Field::OutputPath));
    }
    let dir = match frames_dir {
        Some(d) => trim_text(d.as_str()),
        None => String::new(),
    };
    if dir.as_str().unicode_len() == 0 {
        return Err(RequestError::EmptyRequiredField(Field::FramesFolder));
    }
    if !frames_dir_exists {
        return Err(RequestError::InvalidInputPath { role: PathRole::FramesFolder, path: dir });
    }
    let pattern = frame_pattern(dir.as_str(), "png");
    Ok(ReencodePlan { ffmpeg, input, output, frames_dir: dir, frame_pattern: pattern })
}

/// An interpolation request that passed its checks.
#[derive(Clone, Debug, PartialEq, Eq)]
pub struct InterpolatePlan {
    pub rife: String,
    pub model: String,
    pub input_frames: String,
    pub output_frames: String,
}

/// Checks an interpolation request, in order: the interpolator installed, the
/// resolved model folder `model` present, the input frames folder present.
/// `model_exists` and `input_exists` tell whether `model` and the trimmed
/// `input_frames` exist.
pub fn validate_interpolate(
    rife: Option<String>,
    model: &str,
    model_exists: bool,
    input_frames: &str,
    input_exists: bool,
    output_frames: &str,
) -> (r: Result<InterpolatePlan, RequestError>)
    ensures
        rife is None ==> r matches Err(RequestError::ToolNotInstalled(Tool::Rife)),
        rife is Some && !model_exists ==> (r matches Err(
            RequestError::InvalidInputPath { role: PathRole::Model, .. },
        )),
        rife is Some && model_exists && !input_exists ==> (r matches Err(
            RequestError::InvalidInputPath { role: PathRole::InputFrames, .. },
        )),
        r matches Err(RequestError::InvalidInputPath { role: PathRole::Model, path }) ==> path@ == model@,
        r matches Err(RequestError::InvalidInputPath { role: PathRole::InputFrames, path }) ==> path@
            == trim_of(input_frames@),
        r matches Ok(p) ==> {
            &&& rife == Some(p.rife)
            &&& p.model@ == model@
            &&& p.input_frames@ == trim_of(input_frames@)
            &&& p.output_frames@ == trim_of(output_frames@)
        },
        rife is Some && model_exists && input_exists ==> (r is Ok),
{
    let rife = match rife {
        Some(p) => p,
        None => return Err(RequestError::ToolNotInstalled(Tool::Rife)),
    };
    if !model_exists {
        return Err(RequestError::InvalidInputPath { role: PathRole::Model, path: String::from_str(model) });
    }
    let input = trim_text(input_frames);
    if !input_exists {
        return Err(RequestError::InvalidInputPath { role: PathRole::InputFrames, path: input });
    }
    let output = trim_text(output_frames);
    Ok(InterpolatePlan { rife, model: String::from_str(model), input_frames: input, output_frames: output })
}

} // verus!
