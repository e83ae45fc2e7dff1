use rife_interpolator::args::{extract_args, reencode_args, rife_args, smooth_encode_args, smooth_extract_args};
use rife_interpolator::registry::{
    find_ffmpeg_in_version_dir, find_installed_tool_paths, find_models_dir, find_rife_in_version_dir,
    has_rife_executable, resolve_rife_model_path, tool_status, EntryInfo, ToolStatus, VersionDir,
};
use rife_interpolator::request::{
    frame_pattern, validate_extract, validate_interpolate, validate_reencode, validate_smooth, Field,
    PathRole, RequestError, Tool,
};
use rife_interpolator::rife_args::{add_verbatim_prefix, compute_rife_cwd_and_model_arg, rife_threads_arg, triple_threads};
use rife_interpolator::validation::{
    contains, run_and_capture, validate_ffmpeg_install, validate_rife_install, RunResult,
};

fn entry(dir: &str, name: &str, is_dir: bool) -> EntryInfo {
    EntryInfo { path: format!("{dir}/{name}"), name: name.to_string(), is_dir, is_file: !is_dir }
}

fn s(x: &str) -> String {
    x.to_string()
}

#[test]
fn ffmpeg_binary_is_the_first_file() {
    let es = vec![entry("/v", "doc", true), entry("/v", "ffmpeg", false), entry("/v", "ffprobe", false)];
    assert_eq!(find_ffmpeg_in_version_dir(&es), Some(s("/v/ffmpeg")));
    assert_eq!(find_ffmpeg_in_version_dir(&vec![entry("/v", "doc", true)]), None);
}

#[test]
fn rife_binary_starts_with_rife_in_any_case() {
    let es = vec![entry("/v", "README", false), entry("/v", "rife-v4", true), entry("/v", "RIFE-ncnn-vulkan", false)];
    assert_eq!(find_rife_in_version_dir(&es), Some(s("/v/RIFE-ncnn-vulkan")));
    assert!(has_rife_executable(&es));
    assert!(!has_rife_executable(&vec![entry("/v", "rif", false), entry("/v", "rife-v4", true)]));
}

#[test]
fn models_folder_prefers_models_then_default_then_least_name() {
    let with_models = vec![entry("/v", "rife-v2.3", true), entry("/v", "models", true)];
    assert_eq!(find_models_dir(&with_models), Some(s("/v/models")));
    let with_default = vec![entry("/v", "rife-v4", true), entry("/v", "rife-v2.3", true)];
    assert_eq!(find_models_dir(&with_default), Some(s("/v/rife-v2.3")));
    let others = vec![entry("/v", "rife-v4.6", true), entry("/v", "rife-anime", true), entry("/v", "rife-UHD", true), entry("/v", "rife-x", false)];
    assert_eq!(find_models_dir(&others), Some(s("/v/rife-UHD")));
    let none = vec![entry("/v", "models", false), entry("/v", "weights", true)];
    assert_eq!(find_models_dir(&none), None);
}

#[test]
fn model_resolution_follows_the_listing() {
    let weights = vec![entry("/m", "rife-v2.3", true), entry("/m", "flownet.bin", false)];
    assert_eq!(resolve_rife_model_path("/m", &weights), "/m");
    let param = vec![entry("/m", "model.param", false)];
    assert_eq!(resolve_rife_model_path("/m", &param), "/m");
    let preferred = vec![entry("/m", "other", true), entry("/m", "rife-v2.3", true)];
    assert_eq!(resolve_rife_model_path("/m", &preferred), "/m/rife-v2.3");
    let first_dir = vec![entry("/m", "notes.txt", false), entry("/m", "rife-v4", true), entry("/m", "rife-v3", true)];
    assert_eq!(resolve_rife_model_path("/m", &first_dir), "/m/rife-v4");
    let nothing = vec![entry("/m", "notes.txt", false)];
    assert_eq!(resolve_rife_model_path("/m", &nothing), "/m");
    assert_eq!(resolve_rife_model_path("/m", &first_dir), resolve_rife_model_path("/m", &first_dir.clone()));
}

#[test]
fn installed_tools_come_from_the_first_usable_version() {
    let ff = vec![
        VersionDir { path: s("/b/ffmpeg/readme"), is_dir: false, entries: vec![] },
        VersionDir { path: s("/b/ffmpeg/6.0"), is_dir: true, entries: vec![] },
        VersionDir { path: s("/b/ffmpeg/7.0"), is_dir: true, entries: vec![entry("/b/ffmpeg/7.0", "ffmpeg", false)] },
    ];
    let rife = vec![
        VersionDir { path: s("/b/rife/old"), is_dir: true, entries: vec![entry("/b/rife/old", "notes", false)] },
        VersionDir {
            path: s("/b/rife/v4"),
            is_dir: true,
            entries: vec![entry("/b/rife/v4", "rife-ncnn-vulkan", false), entry("/b/rife/v4", "rife-v4.6", true)],
        },
    ];
    let t = find_installed_tool_paths(&ff, &rife);
    assert_eq!(t.ffmpeg, Some(s("/b/ffmpeg/7.0/ffmpeg")));
    assert_eq!(t.rife, Some(s("/b/rife/v4/rife-ncnn-vulkan")));
    assert_eq!(t.rife_models, Some(s("/b/rife/v4/rife-v4.6")));
    let none = find_installed_tool_paths(&vec![], &vec![]);
    assert_eq!((none.ffmpeg, none.rife, none.rife_models), (None, None, None));
}

#[test]
fn tool_status_reports_installed_or_missing() {
    let ff = vec![VersionDir { path: s("/b/ffmpeg/7"), is_dir: true, entries: vec![entry("/b/ffmpeg/7", "ffmpeg", false)] }];
    assert_eq!(tool_status("ffmpeg", true, &ff), ToolStatus::Installed);
    assert_eq!(tool_status("ffmpeg", false, &ff), ToolStatus::Missing);
    assert_eq!(tool_status("rife", true, &ff), ToolStatus::Missing);
    assert_eq!(ToolStatus::Installed.as_str(), "installed");
    assert_eq!(ToolStatus::Missing.as_str(), "missing");
}

#[test]
fn model_beside_binary_runs_in_its_folder_by_name() {
    let (cwd, arg) = compute_rife_cwd_and_model_arg("/opt/rife/rife-ncnn-vulkan", "/opt/rife/rife-v4.6", false);
    assert_eq!(cwd, Some(s("/opt/rife")));
    assert_eq!(arg, "rife-v4.6");
    let (cwd, arg) = compute_rife_cwd_and_model_arg("rife-ncnn-vulkan", "rife-v4.6", false);
    assert_eq!(cwd, Some(s("")));
    assert_eq!(arg, "rife-v4.6");
    let (cwd, arg) = compute_rife_cwd_and_model_arg("/opt/rife/rife-ncnn-vulkan", "/opt/rife//rife-v4.6", true);
    assert_eq!(cwd, Some(s("/opt/rife")));
    assert_eq!(arg, "rife-v4.6");
}

#[test]
fn model_elsewhere_is_passed_whole() {
    let (cwd, arg) = compute_rife_cwd_and_model_arg("/opt/rife/rife", "/models/rife-v4", false);
    assert_eq!(cwd, Some(s("/opt/rife")));
    assert_eq!(arg, "/models/rife-v4");
    let (_, arg) = compute_rife_cwd_and_model_arg("/opt/rife/rife", "/models/rife-v4", true);
    assert_eq!(arg, "\\\\?\\/models/rife-v4");
}

#[test]
fn verbatim_prefix_is_not_doubled() {
    assert_eq!(add_verbatim_prefix("C:\\m\\rife-v4"), "\\\\?\\C:\\m\\rife-v4");
    assert_eq!(add_verbatim_prefix("\\\\?\\C:\\m"), "\\\\?\\C:\\m");
}

#[test]
fn thread_hint_zero_gets_default() {
    assert_eq!(rife_threads_arg(Some(0)), "2:2:2");
}

#[test]
fn thread_hint_twenty_is_clamped_to_twelve() {
    assert_eq!(rife_threads_arg(Some(20)), "12:12:12");
}

#[test]
fn thread_hints_in_range_and_absent() {
    assert_eq!(rife_threads_arg(None), "2:2:2");
    assert_eq!(rife_threads_arg(Some(-3)), "2:2:2");
    assert_eq!(rife_threads_arg(Some(1)), "1:1:1");
    assert_eq!(rife_threads_arg(Some(12)), "12:12:12");
    assert_eq!(triple_threads(8), "8:8:8");
}

#[test]
fn reencode_rejects_missing_frames_folder() {
    let r = validate_reencode(Some(s("/usr/bin/ffmpeg")), None, "/v.mp4", true, "/out.mp4", Some(s("/frames")), false);
    assert!(matches!(r, Err(RequestError::InvalidInputPath { role: PathRole::FramesFolder, .. })));
    assert_eq!(r.unwrap_err().message(), "Frames folder does not exist");
}

#[test]
fn reencode_rejects_empty_output_path() {
    let r = validate_reencode(Some(s("/usr/bin/ffmpeg")), None, "/v.mp4", true, "   ", Some(s("/frames")), true);
    assert_eq!(r, Err(RequestError::EmptyRequiredField(Field::OutputPath)));
    assert_eq!(r.unwrap_err().message(), "Output path is required");
}

#[test]
fn reencode_other_refusals_and_plan() {
    let no_ffmpeg = validate_reencode(None, None, "/v.mp4", true, "/o.mp4", Some(s("/f")), true);
    assert_eq!(no_ffmpeg.clone(), Err(RequestError::ToolNotInstalled(Tool::Ffmpeg)));
    assert_eq!(no_ffmpeg.unwrap_err().message(), "ffmpeg not installed (install ffmpeg first)");
    let no_input = validate_reencode(None, Some(s("/b/ffmpeg")), "/v.mp4", false, "/o.mp4", Some(s("/f")), true);
    assert_eq!(no_input.unwrap_err().message(), "Input video does not exist");
    let no_frames = validate_reencode(None, Some(s("/b/ffmpeg")), "/v.mp4", true, "/o.mp4", Some(s("  ")), true);
    assert_eq!(no_frames.clone(), Err(RequestError::EmptyRequiredField(Field::FramesFolder)));
    assert_eq!(no_frames.unwrap_err().message(), "Frames folder is required for re-encode only");
    let absent = validate_reencode(None, Some(s("/b/ffmpeg")), "/v.mp4", true, "/o.mp4", None, true);
    assert_eq!(absent, Err(RequestError::EmptyRequiredField(Field::FramesFolder)));
    let plan = validate_reencode(None, Some(s("/b/ffmpeg")), " /v.mp4 ", true, " /o.mp4 ", Some(s(" /tmp/f ")), true).unwrap();
    assert_eq!(plan.ffmpeg, "/b/ffmpeg");
    assert_eq!(plan.input, "/v.mp4");
    assert_eq!(plan.output, "/o.mp4");
    assert_eq!(plan.frames_dir, "/tmp/f");
    assert_eq!(plan.frame_pattern, "/tmp/f/%08d.png");
}

#[test]
fn frame_pattern_joins_folder_and_numbered_name() {
    assert_eq!(frame_pattern("/tmp/job", "jpg"), "/tmp/job/%08d.jpg");
    assert_eq!(frame_pattern("/tmp/job/", "png"), "/tmp/job/%08d.png");
}

#[test]
fn smooth_and_extract_and_interpolate_requests() {
    let ok = validate_smooth(Some(s("/f")), None, Some(s("/r")), Some(s("/m")), "/v", true, "/o", Some(20)).unwrap();
    assert_eq!(ok.threads, "12:12:12");
    assert_eq!(ok.ffmpeg, "/f");
    let r = validate_smooth(Some(s("/f")), None, None, Some(s("/m")), "/v", true, "/o", None);
    assert_eq!(r.clone(), Err(RequestError::ToolNotInstalled(Tool::Rife)));
    assert_eq!(r.unwrap_err().message(), "rife not installed (install rife first)");
    let m = validate_smooth(Some(s("/f")), None, Some(s("/r")), None, "/v", true, "/o", None);
    assert_eq!(m.clone(), Err(RequestError::ModelNotFound));
    assert_eq!(m.unwrap_err().message(), "RIFE models folder not found (install rife first)");
    let o = validate_smooth(Some(s("/f")), None, Some(s("/r")), Some(s("/m")), "/v", true, "", None);
    assert_eq!(o, Err(RequestError::EmptyRequiredField(Field::OutputPath)));
    let e = validate_extract(None, Some(s("/f")), " /v ", true).unwrap();
    assert_eq!(e.input, "/v");
    assert!(validate_extract(None, Some(s("/f")), "/v", false).is_err());
    let i = validate_interpolate(Some(s("/r")), "/m", false, "/in", true, "/out");
    assert_eq!(i.unwrap_err().message(), "Model path does not exist: /m");
    let j = validate_interpolate(Some(s("/r")), "/m", true, " /in ", false, "/out");
    assert_eq!(j.unwrap_err().message(), "Input frames dir does not exist: /in");
    let k = validate_interpolate(Some(s("/r")), "/m", true, "/in", true, " /out ").unwrap();
    assert_eq!(k.output_frames, "/out");
}

#[test]
fn capture_combines_streams() {
    let v = run_and_capture(&RunResult::Ran { success: true, stdout: s("ffmpeg version 7\n"), stderr: s("") });
    assert!(v.ok);
    assert_eq!(v.output, "ffmpeg version 7");
    let w = run_and_capture(&RunResult::Ran { success: false, stdout: s("a"), stderr: s("b\n") });
    assert!(!w.ok);
    assert_eq!(w.output, "a\nb");
    let f = run_and_capture(&RunResult::Failed { error: s("not found") });
    assert_eq!(f.output, "Failed to run: not found");
    let missing = validate_ffmpeg_install(&None);
    assert!(!missing.ok);
    let found = validate_ffmpeg_install(&Some((s("/b/ffmpeg"), RunResult::Ran { success: true, stdout: s("v"), stderr: s("") })));
    assert!(found.ok);
    assert_eq!(found.path, Some(s("/b/ffmpeg")));
}

#[test]
fn rife_help_with_usage_counts_despite_exit_status() {
    let run = RunResult::Ran { success: false, stdout: s(""), stderr: s("Usage: rife-ncnn-vulkan -0 infile") };
    let v = validate_rife_install(&Some((s("/r/rife"), run)), &Some(s("/r/rife-v4")));
    assert!(v.ok);
    assert_eq!(v.output, "Models: /r/rife-v4\n\nUsage: rife-ncnn-vulkan -0 infile");
    let run = RunResult::Ran { success: false, stdout: s(""), stderr: s("Usage: x") };
    let no_models = validate_rife_install(&Some((s("/r/rife"), run)), &None);
    assert!(!no_models.ok);
    let run = RunResult::Ran { success: false, stdout: s(""), stderr: s("crash") };
    assert!(!validate_rife_install(&Some((s("/r/rife"), run)), &Some(s("/m"))).ok);
    let silent = RunResult::Ran { success: false, stdout: s(""), stderr: s("") };
    let odd_path = validate_rife_install(&Some((s("/r/rife"), silent)), &Some(s("/Usage:/rife-v4")));
    assert!(!odd_path.ok);
    assert_eq!(odd_path.output, "Models: /Usage:/rife-v4");
    assert!(contains("abc Usage: x", "Usage:"));
    assert!(!contains("usage", "Usage:"));
    assert!(contains("x", ""));
}

#[test]
fn reencode_audio_codec_follows_container() {
    let mp4 = reencode_args("/f/%08d.png", "/in.mkv", "/out.MP4", "48.000000", 4);
    assert!(mp4.windows(2).any(|w| w[0] == "-threads" && w[1] == "4"));
    assert!(mp4.windows(2).any(|w| w[0] == "-c:a" && w[1] == "aac"));
    let mkv = reencode_args("/f/%08d.png", "/in.mkv", "/out.mkv", "48.000000", 0);
    assert!(mkv.windows(2).any(|w| w[0] == "-c:a" && w[1] == "copy"));
    assert!(!mkv.iter().any(|a| a == "-threads"));
    assert_eq!(mkv.last().unwrap(), "/out.mkv");
    let no_ext = reencode_args("/f/%08d.png", "/in.mkv", "/out", "1.000000", 0);
    assert!(no_ext.windows(2).any(|w| w[0] == "-c:a" && w[1] == "copy"));
}

#[test]
fn other_command_lines() {
    assert_eq!(rife_args("/in", "/out", "rife-v4", "2:2:2"), vec!["-v", "-i", "/in", "-o", "/out", "-m", "rife-v4", "-f", "%08d.png", "-j", "2:2:2"]);
    let e = extract_args("/v.mp4", "/f/%08d.jpg", Some("videotoolbox"));
    assert_eq!(e[8], "/v.mp4");
    assert!(e.windows(2).any(|w| w[0] == "-hwaccel" && w[1] == "videotoolbox"));
    assert_eq!(e.last().unwrap(), "/f/%08d.jpg");
    assert_eq!(extract_args("/v", "/p", None).len(), 20);
    assert_eq!(smooth_extract_args("/v", "/p"), vec!["-hide_banner", "-y", "-i", "/v", "-vsync", "0", "/p"]);
    assert_eq!(smooth_encode_args("/p", "/o.mp4")[3], "30");
}
