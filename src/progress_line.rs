use vstd::prelude::*;

use crate::text::{find_char, first_index_of, trim_of, trim_text};

verus! {

/// The key and value of one line of the structured progress protocol: the
/// text before and after the first `=`, each trimmed, where the key is not
/// empty.
pub open spec fn progress_pair_of(line: Seq<char>) -> Option<(Seq<char>, Seq<char>)> {
    match first_index_of(line, '=') {
        Some(i) => {
            let k = trim_of(line.subrange(0, i));
            let v = trim_of(line.subrange(i + 1, line.len() as int));
            if k.len() == 0 {
                None
            } else {
                Some((k, v))
            }
        },
        None => None,
    }
}

/// Splits a `key=value` line of the structured progress protocol.
pub fn parse_ffmpeg_progress_line(line: &str) -> (r: Option<(String, String)>)
    ensures
        r matches Some(kv) ==> progress_pair_of(line@) == Some((kv.0@, kv.1@)),
        r is None <==> progress_pair_of(line@) is None,
{
    match find_char(line, '=') {
        Some(i) => {
            let n = line.unicode_len();
            let k = trim_text(line.substring_char(0, i));
            let v = trim_text(line.substring_char(i + 1, n));
            if k.as_str().unicode_len() == 0 {
                None
            } else {
                Some((k, v))
            }
        },
        None => None,
    }
}

} // verus!
