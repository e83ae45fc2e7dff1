use vstd::prelude::*;

use crate::text::{decimal, format_u64, has_prefix, starts_with_text};

verus! {

/// What `Path::parent` gives for a path.
pub uninterp spec fn parent_of(p: Seq<char>) -> Option<Seq<char>>;

/// What `Path::file_name` gives for a path.
pub uninterp spec fn file_name_of(p: Seq<char>) -> Option<Seq<char>>;

/// Whether `Path`'s `==` holds of two paths (it compares their components).
pub uninterp spec fn same_path(a: Seq<char>, b: Seq<char>) -> bool;

/// Relies on `Path::parent`: the path without its last component, if any.
#[verifier::external_body]
fn path_parent(p: &str) -> (r: Option<String>)
    ensures
        r matches Some(q) ==> parent_of(p@) == Some(q@),
        r is None <==> parent_of(p@) is None,
{
    match std::path::Path::new(p).parent() {
        Some(q) => Some(q.to_string_lossy().into_owned()),
        None => None,
    }
}

/// Relies on `Path::file_name`: the last component of a path, if it is a
/// normal one.
#[verifier::external_body]
fn path_file_name(p: &str) -> (r: Option<String>)
    ensures
        r matches Some(q) ==> file_name_of(p@) == Some(q@),
        r is None <==> file_name_of(p@) is None,
{
    match std::path::Path::new(p).file_name() {
        Some(q) => Some(q.to_string_lossy().into_owned()),
        None => None,
    }
}

/// Relies on `Path`'s `==`, which compares two paths component by component,
/// so that a path equals itself.
#[verifier::external_body]
fn paths_equal(a: &str, b: &str) -> (r: bool)
    ensures
        r == same_path(a@, b@),
        a@ == b@ ==> r,
{
    std::path::Path::new(a) == std::path::Path::new(b)
}

/// The prefix that marks a verbatim path on Windows: `\\?\`.
pub open spec fn verbatim_prefix() -> Seq<char> {
    seq!['\\', '\\', '?', '\\']
}

/// A model path with the verbatim prefix, unless it already has one.
pub open spec fn with_verbatim_prefix(p: Seq<char>) -> Seq<char> {
    if has_prefix(p, verbatim_prefix()) {
        p
    } else {
        verbatim_prefix() + p
    }
}

/// The working folder and model argument for the interpolator: where the
/// model folder sits beside the binary (their parents are the same path), run in the binary's folder and name
/// the model folder alone; else run in the binary's folder, where it has one,
/// and pass the model path whole, with the verbatim prefix where `verbatim`.
pub open spec fn rife_invocation(bin: Seq<char>, model: Seq<char>, verbatim: bool) -> (
    Option<Seq<char>>,
    Seq<char>,
) {
    let dir = parent_of(bin);
    let fallback = (dir, if verbatim {
        with_verbatim_prefix(model)
    } else {
        model
    });
    match dir {
        Some(d) => match parent_of(model) {
            Some(mp) => if same_path(mp, d) {
                match file_name_of(model) {
                    Some(name) => (Some(d), name),
                    None => fallback,
                }
            } else {
                fallback
            },
            None => fallback,
        },
        None => fallback,
    }
}

/// Adds the verbatim prefix to a path that lacks it.
pub fn add_verbatim_prefix(p: &str) -> (r: String)
    ensures
        r@ == with_verbatim_prefix(p@),
{
    let prefix = "\\\\?\\";
    proof {
        reveal_strlit("\\\\?\\");
    }
    assert(prefix@ =~= verbatim_prefix());
    if starts_with_text(p, prefix) {
        String::from_str(p)
    } else {
        String::from_str(prefix).concat(p)
    }
}

/// Chooses the working folder and model argument for running the
/// interpolator binary `rife_bin` with the model folder `model_path`.
/// `verbatim` asks for the verbatim prefix on a whole path, as Windows needs.
pub fn compute_rife_cwd_and_model_arg(rife_bin: &str, model_path: &str, verbatim: bool) -> (r: (
    Option<String>,
    String,
))
    ensures
        ({
            let (cwd, arg) = rife_invocation(rife_bin@, model_path@, verbatim);
            &&& r.0 matches Some(d) ==> cwd == Some(d@)
            &&& r.0 is None <==> cwd is None
            &&& r.1@ == arg
        }),
{
    let dir = path_parent(rife_bin);
    if let Some(d) = &dir {
        if let Some(mp) = path_parent(model_path) {
            if paths_equal(mp.as_str(), d.as_str()) {
                if let Some(name) = path_file_name(model_path) {
                    return (Some(d.clone()), name);
                }
            }
        }
    }
    let arg = if verbatim {
        add_verbatim_prefix(model_path)
    } else {
        String::from_str(model_path)
    };
    (dir, arg)
}

/// The thread setting the interpolator gets where no usable hint was given.
pub open spec fn default_threads_text() -> Seq<char> {
    "2:2:2"@
}

/// The most threads the interpolator is given per step.
pub const MAX_RIFE_THREADS: i32 = 12;

/// A thread count for each of the interpolator's three steps: `n:n:n`.
pub open spec fn triple_text(n: nat) -> Seq<char> {
    decimal(n) + ":"@ + decimal(n) + ":"@ + decimal(n)
}

/// The interpolator's thread setting for a hint: the default where the hint is
/// absent or not positive, else the hint kept within 1 to `MAX_RIFE_THREADS`.
pub open spec fn rife_threads_text(hint: Option<i32>) -> Seq<char> {
    let t = match hint {
        Some(t) => t as int,
        None => 0,
    };
    if t <= 0 {
        default_threads_text()
    } else if t > MAX_RIFE_THREADS {
        triple_text(MAX_RIFE_THREADS as nat)
    } else {
        triple_text(t as nat)
    }
}

/// Writes `n:n:n`.
pub fn triple_threads(n: u64) -> (r: String)
    ensures
        r@ == triple_text(n as nat),
{
    let d = format_u64(n);
    let mut s = String::from_str(d.as_str());
    s.append(":");
    s.append(d.as_str());
    s.append(":");
    s.append(d.as_str());
    assert(s@ =~= triple_text(n as nat));
    s
}

/// The interpolator's thread setting for a hint.
pub fn rife_threads_arg(hint: Option<i32>) -> (r: String)
    ensures
        r@ == rife_threads_text(hint),
{
    let t: i32 = match hint {
        Some(t) => t,
        None => 0,
    };
    if t <= 0 {
        String::from_str("2:2:2")
    } else if t > MAX_RIFE_THREADS {
        triple_threads(MAX_RIFE_THREADS as u64)
    } else {
        triple_threads(t as u64)
    }
}

} // verus!
