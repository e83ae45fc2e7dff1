use vstd::prelude::*;

verus! {

/// How many places are searched for a system-wide ffmpeg.
pub const FFMPEG_CANDIDATE_COUNT: usize = 4;

/// The places searched for a system-wide ffmpeg, in order of preference.
pub open spec fn ffmpeg_candidate(i: int) -> Seq<char> {
    if i == 0 {
        "/opt/homebrew/opt/ffmpeg-full/bin/ffmpeg"@
    } else if i == 1 {
        "/opt/homebrew/bin/ffmpeg"@
    } else if i == 2 {
        "/usr/local/bin/ffmpeg"@
    } else {
        "/usr/bin/ffmpeg"@
    }
}

/// The places searched for a system-wide ffmpeg, in order of preference.
pub fn ffmpeg_candidates() -> (r: Vec<String>)
    ensures
        r@.len() == FFMPEG_CANDIDATE_COUNT,
        forall|i: int| 0 <= i < r@.len() ==> #[trigger] r@[i]@ == ffmpeg_candidate(i),
{
    let mut r: Vec<String> = Vec::new();
    r.push(String::from_str("/opt/homebrew/opt/ffmpeg-full/bin/ffmpeg"));
    r.push(String::from_str("/opt/homebrew/bin/ffmpeg"));
    r.push(String::from_str("/usr/local/bin/ffmpeg"));
    r.push(String::from_str("/usr/bin/ffmpeg"));
    r
}

/// The preferred system-wide ffmpeg: the first candidate that exists, where
/// `present[i]` tells whether candidate `i` exists (a missing entry counts as
/// absent).
pub fn preferred_ffmpeg_path(present: &Vec<bool>) -> (r: Option<String>)
    ensures
        r matches Some(p) ==> exists|i: int|
            0 <= i < FFMPEG_CANDIDATE_COUNT && i < present@.len() && present@[i] && (forall|j: int|
                0 <= j < i ==> !present@[j]) && p@ == ffmpeg_candidate(i),
        r is None ==> forall|i: int|
            0 <= i < FFMPEG_CANDIDATE_COUNT && i < present@.len() ==> !present@[i],
{
    let candidates = ffmpeg_candidates();
    let mut i: usize = 0;
    while i < FFMPEG_CANDIDATE_COUNT && i < present.len()
        invariant
            i <= FFMPEG_CANDIDATE_COUNT,
            candidates@.len() == FFMPEG_CANDIDATE_COUNT,
            forall|k: int| 0 <= k < candidates@.len() ==> #[trigger] candidates@[k]@ == ffmpeg_candidate(k),
            forall|j: int| 0 <= j < i && j < present@.len() ==> !present@[j],
        decreases FFMPEG_CANDIDATE_COUNT - i,
    {
        if present[i] {
            let p = candidates[i].clone();
            assert(candidates@[i as int]@ == ffmpeg_candidate(i as int));
            return Some(p);
        }
        i = i + 1;
    }
    None
}

} // verus!
