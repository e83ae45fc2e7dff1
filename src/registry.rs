use vstd::prelude::*;

use crate::text::{has_prefix, lemma_lex_refl, lemma_lex_total, lemma_lex_trans, lex_le, starts_with_text, text_le};

verus! {

/// One entry of a directory listing: its full path, its file name, and what
/// it is (a link counts as what it points to).
#[derive(Clone, Debug, PartialEq, Eq)]
pub struct EntryInfo {
    pub path: String,
    pub name: String,
    pub is_dir: bool,
    pub is_file: bool,
}

/// One version folder of an installed tool, as listed under the tool's folder,
/// with its own listing (empty where it could not be read).
#[derive(Clone, Debug, PartialEq, Eq)]
pub struct VersionDir {
    pub path: String,
    pub is_dir: bool,
    pub entries: Vec<EntryInfo>,
}

/// The first position in `s` whose item satisfies `p`.
pub open spec fn first_where<A>(s: Seq<A>, p: spec_fn(A) -> bool) -> Option<int> {
    if exists|i: int| 0 <= i < s.len() && p(s[i]) {
        Some(choose|i: int| 0 <= i < s.len() && p(s[i]) && forall|j: int| 0 <= j < i ==> !p(s[j]))
    } else {
        None
    }
}

proof fn lemma_first_where_at<A>(s: Seq<A>, p: spec_fn(A) -> bool, i: int)
    requires
        0 <= i < s.len(),
        p(s[i]),
        forall|j: int| 0 <= j < i ==> !p(s[j]),
    ensures
        first_where(s, p) == Some(i),
{
    let w = choose|k: int| 0 <= k < s.len() && p(s[k]) && forall|j: int| 0 <= j < k ==> !p(s[j]);
    if w < i {
        assert(!p(s[w]));
    } else if w > i {
        assert(!p(s[i]));
    }
}

proof fn lemma_first_where_none<A>(s: Seq<A>, p: spec_fn(A) -> bool)
    requires
        forall|j: int| 0 <= j < s.len() ==> !p(s[j]),
    ensures
        first_where(s, p) is None,
{
}

/// Finds the first entry that is a file.
fn first_file(entries: &Vec<EntryInfo>) -> (r: Option<usize>)
    ensures
        r matches Some(i) ==> i < entries@.len() && first_where(entries@, |e: EntryInfo| e.is_file)
            == Some(i as int),
        r is None ==> first_where(entries@, |e: EntryInfo| e.is_file) is None,
{
    let ghost p = |e: EntryInfo| e.is_file;
    let mut i: usize = 0;
    while i < entries.len()
        invariant
            i <= entries@.len(),
            p == (|e: EntryInfo| e.is_file),
            forall|j: int| 0 <= j < i ==> !p(entries@[j]),
        decreases entries@.len() - i,
    {
        if entries[i].is_file {
            proof {
                lemma_first_where_at(entries@, p, i as int);
            }
            return Some(i);
        }
        i = i + 1;
    }
    proof {
        lemma_first_where_none(entries@, p);
    }
    None
}

/// The path of the binary in an ffmpeg version folder: its first file.
pub fn find_ffmpeg_in_version_dir(entries: &Vec<EntryInfo>) -> (r: Option<String>)
    ensures
        match first_where(entries@, |e: EntryInfo| e.is_file) {
            Some(i) => r matches Some(p) && p@ == entries@[i].path@,
            None => r is None,
        },
{
    match first_file(entries) {
        Some(i) => Some(entries[i].path.clone()),
        None => None,
    }
}

pub open spec fn ascii_lower(c: char) -> char {
    if 'A' <= c && c <= 'Z' {
        ((c as u32) + 32) as char
    } else {
        c
    }
}

/// Whether a file name marks the interpolator's binary: it starts with `rife`
/// in any mix of ASCII case.
pub open spec fn is_rife_name(name: Seq<char>) -> bool {
    &&& name.len() >= 4
    &&& ascii_lower(name[0]) == 'r'
    &&& ascii_lower(name[1]) == 'i'
    &&& ascii_lower(name[2]) == 'f'
    &&& ascii_lower(name[3]) == 'e'
}

fn is_rife_name_of(name: &str) -> (r: bool)
    ensures
        r == is_rife_name(name@),
{
    if name.unicode_len() < 4 {
        return false;
    }
    let a = name.get_char(0);
    let b = name.get_char(1);
    let c = name.get_char(2);
    let d = name.get_char(3);
    (a == 'r' || a == 'R') && (b == 'i' || b == 'I') && (c == 'f' || c == 'F') && (d == 'e' || d
        == 'E')
}

pub open spec fn is_rife_binary(e: EntryInfo) -> bool {
    e.is_file && is_rife_name(e.name@)
}

/// The path of the binary in an interpolator version folder: its first file
/// whose name starts with `rife`, in any ASCII case.
pub fn find_rife_in_version_dir(entries: &Vec<EntryInfo>) -> (r: Option<String>)
    ensures
        match first_where(entries@, |e: EntryInfo| is_rife_binary(e)) {
            Some(i) => r matches Some(p) && p@ == entries@[i].path@,
            None => r is None,
        },
{
    let ghost p = |e: EntryInfo| is_rife_binary(e);
    let mut i: usize = 0;
    while i < entries.len()
        invariant
            i <= entries@.len(),
            p == (|e: EntryInfo| is_rife_binary(e)),
            forall|j: int| 0 <= j < i ==> !p(entries@[j]),
        decreases entries@.len() - i,
    {
        if entries[i].is_file && is_rife_name_of(entries[i].name.as_str()) {
            proof {
                lemma_first_where_at(entries@, p, i as int);
            }
            return Some(entries[i].path.clone());
        }
        i = i + 1;
    }
    proof {
        lemma_first_where_none(entries@, p);
    }
    None
}

/// Whether an interpolator version folder holds its binary.
pub fn has_rife_executable(entries: &Vec<EntryInfo>) -> (r: bool)
    ensures
        r == (exists|i: int| 0 <= i < entries@.len() && is_rife_binary(entries@[i])),
{
    let found = find_rife_in_version_dir(entries);
    proof {
        let p = |e: EntryInfo| is_rife_binary(e);
        if exists|i: int| 0 <= i < entries@.len() && is_rife_binary(entries@[i]) {
            let i = choose|i: int| 0 <= i < entries@.len() && is_rife_binary(entries@[i]);
            assert(p(entries@[i]));
        }
    }
    found.is_some()
}


/// Whether an entry is named `name`, and, where `dirs_only`, is a folder.
pub open spec fn named(e: EntryInfo, name: Seq<char>, dirs_only: bool) -> bool {
    e.name@ == name && (dirs_only ==> e.is_dir)
}

fn first_named(entries: &Vec<EntryInfo>, name: &str, dirs_only: bool) -> (r: Option<usize>)
    ensures
        r matches Some(i) ==> i < entries@.len() && first_where(
            entries@,
            |e: EntryInfo| named(e, name@, dirs_only),
        ) == Some(i as int),
        r is None ==> first_where(entries@, |e: EntryInfo| named(e, name@, dirs_only)) is None,
{
    let ghost p = |e: EntryInfo| named(e, name@, dirs_only);
    let target = String::from_str(name);
    let mut i: usize = 0;
    while i < entries.len()
        invariant
            i <= entries@.len(),
            target@ == name@,
            p == (|e: EntryInfo| named(e, name@, dirs_only)),
            forall|j: int| 0 <= j < i ==> !p(entries@[j]),
        decreases entries@.len() - i,
    {
        if entries[i].name == target && (!dirs_only || entries[i].is_dir) {
            proof {
                lemma_first_where_at(entries@, p, i as int);
            }
            return Some(i);
        }
        i = i + 1;
    }
    proof {
        lemma_first_where_none(entries@, p);
    }
    None
}

/// Whether an entry is a model folder named in the interpolator's own way.
pub open spec fn is_rife_folder(e: EntryInfo) -> bool {
    e.is_dir && has_prefix(e.name@, "rife-"@)
}

/// Position `i` holds the model folder that comes first by name, the earliest
/// such entry where names repeat.
pub open spec fn is_least_rife_folder(s: Seq<EntryInfo>, i: int) -> bool {
    &&& 0 <= i < s.len()
    &&& is_rife_folder(s[i])
    &&& forall|j: int| 0 <= j < s.len() && is_rife_folder(#[trigger] s[j]) ==> lex_le(s[i].name@, s[j].name@)
    &&& forall|j: int| 0 <= j < i && is_rife_folder(#[trigger] s[j]) ==> !lex_le(s[j].name@, s[i].name@)
}

/// The model folder that comes first by name.
pub open spec fn least_rife_folder(s: Seq<EntryInfo>) -> Option<int> {
    if exists|i: int| is_least_rife_folder(s, i) {
        Some(choose|i: int| is_least_rife_folder(s, i))
    } else {
        None
    }
}

proof fn lemma_least_unique(s: Seq<EntryInfo>, i: int)
    requires
        is_least_rife_folder(s, i),
    ensures
        least_rife_folder(s) == Some(i),
{
    let w = choose|k: int| is_least_rife_folder(s, k);
    if w < i {
        assert(is_rife_folder(s[w]));
        assert(lex_le(s[w].name@, s[i].name@));
    } else if w > i {
        assert(is_rife_folder(s[i]));
        assert(lex_le(s[i].name@, s[w].name@));
    }
}

fn least_rife_folder_of(entries: &Vec<EntryInfo>) -> (r: Option<usize>)
    ensures
        r matches Some(i) ==> i < entries@.len() && least_rife_folder(entries@) == Some(i as int),
        r is None ==> least_rife_folder(entries@) is None,
{
    let ghost s = entries@;
    let mut best: Option<usize> = None;
    let mut i: usize = 0;
    while i < entries.len()
        invariant
            i <= s.len(),
            s == entries@,
            best is None ==> forall|j: int| 0 <= j < i ==> !is_rife_folder(#[trigger] s[j]),
            best matches Some(b) ==> {
                &&& b < i
                &&& is_rife_folder(s[b as int])
                &&& forall|j: int| 0 <= j < i && is_rife_folder(#[trigger] s[j]) ==> lex_le(s[b as int].name@, s[j].name@)
                &&& forall|j: int| 0 <= j < b && is_rife_folder(#[trigger] s[j]) ==> !lex_le(s[j].name@, s[b as int].name@)
            },
        decreases s.len() - i,
    {
        let e = &entries[i];
        if e.is_dir && starts_with_text(e.name.as_str(), "rife-") {
            match best {
                None => {
                    proof {
                        lemma_lex_refl(s[i as int].name@);
                    }
                    best = Some(i);
                },
                Some(b) => {
                    if !text_le(entries[b].name.as_str(), e.name.as_str()) {
                        proof {
                            let nb = s[b as int].name@;
                            let ni = s[i as int].name@;
                            lemma_lex_total(nb, ni);
                            lemma_lex_refl(ni);
                            assert forall|j: int| 0 <= j < i + 1 && is_rife_folder(#[trigger] s[j]) implies lex_le(ni, s[j].name@) by {
                                if j < i {
                                    lemma_lex_trans(ni, nb, s[j].name@);
                                }
                            }
                            assert forall|j: int| 0 <= j < i && is_rife_folder(#[trigger] s[j]) implies !lex_le(s[j].name@, ni) by {
                                if lex_le(s[j].name@, ni) {
                                    if j < b {
                                        lemma_lex_trans(s[j].name@, ni, nb);
                                    } else if j > b {
                                        lemma_lex_trans(nb, s[j].name@, ni);
                                    }
                                }
                            }
                        }
                        best = Some(i);
                    }
                },
            }
        }
        i = i + 1;
    }
    match best {
        Some(b) => {
            proof {
                lemma_least_unique(s, b as int);
            }
            Some(b)
        },
        None => {
            assert forall|k: int| !is_least_rife_folder(s, k) by {
                if 0 <= k < s.len() {
                    assert(!is_rife_folder(s[k]));
                }
            }
            None
        },
    }
}

/// Which entry of an interpolator version folder holds its models: a `models`
/// folder, else the preferred `rife-v2.3` folder, else the `rife-` folder that
/// comes first by name.
pub open spec fn models_dir_of(s: Seq<EntryInfo>) -> Option<int> {
    match first_where(s, |e: EntryInfo| named(e, "models"@, true)) {
        Some(i) => Some(i),
        None => match first_where(s, |e: EntryInfo| named(e, "rife-v2.3"@, true)) {
            Some(i) => Some(i),
            None => least_rife_folder(s),
        },
    }
}

/// The models folder of an interpolator version folder, from its listing.
pub fn find_models_dir(entries: &Vec<EntryInfo>) -> (r: Option<String>)
    ensures
        match models_dir_of(entries@) {
            Some(i) => r matches Some(p) && p@ == entries@[i].path@,
            None => r is None,
        },
{
    let ghost s = entries@;
    if let Some(i) = first_named(entries, "models", true) {
        return Some(entries[i].path.clone());
    }
    if let Some(i) = first_named(entries, "rife-v2.3", true) {
        return Some(entries[i].path.clone());
    }
    match least_rife_folder_of(entries) {
        Some(i) => Some(entries[i].path.clone()),
        None => None,
    }
}

/// Whether a listing holds one of the interpolator's known weight files.
pub open spec fn has_weight_file(s: Seq<EntryInfo>) -> bool {
    exists|i: int| 0 <= i < s.len() && (s[i].name@ == "flownet.bin"@ || s[i].name@ == "model.param"@)
}

/// The model folder that a user's choice `path` resolves to, given its
/// listing `s`: `path` itself where it holds a weight file; else its
/// `rife-v2.3` entry; else its first folder; else `path` unchanged.
pub open spec fn resolved_model_path(path: Seq<char>, s: Seq<EntryInfo>) -> Seq<char> {
    if has_weight_file(s) {
        path
    } else {
        match first_where(s, |e: EntryInfo| named(e, "rife-v2.3"@, false)) {
            Some(i) => s[i].path@,
            None => match first_where(s, |e: EntryInfo| e.is_dir) {
                Some(i) => s[i].path@,
                None => path,
            },
        }
    }
}

fn first_dir(entries: &Vec<EntryInfo>) -> (r: Option<usize>)
    ensures
        r matches Some(i) ==> i < entries@.len() && first_where(entries@, |e: EntryInfo| e.is_dir)
            == Some(i as int),
        r is None ==> first_where(entries@, |e: EntryInfo| e.is_dir) is None,
{
    let ghost p = |e: EntryInfo| e.is_dir;
    let mut i: usize = 0;
    while i < entries.len()
        invariant
            i <= entries@.len(),
            p == (|e: EntryInfo| e.is_dir),
            forall|j: int| 0 <= j < i ==> !p(entries@[j]),
        decreases entries@.len() - i,
    {
        if entries[i].is_dir {
            proof {
                lemma_first_where_at(entries@, p, i as int);
            }
            return Some(i);
        }
        i = i + 1;
    }
    proof {
        lemma_first_where_none(entries@, p);
    }
    None
}

/// Resolves a user's model folder choice `path` from its listing `entries`.
pub fn resolve_rife_model_path(path: &str, entries: &Vec<EntryInfo>) -> (r: String)
    ensures
        r@ == resolved_model_path(path@, entries@),
{
    let a = first_named(entries, "flownet.bin", false);
    let b = first_named(entries, "model.param", false);
    proof {
        let pa = |e: EntryInfo| named(e, "flownet.bin"@, false);
        let pb = |e: EntryInfo| named(e, "model.param"@, false);
        if has_weight_file(entries@) {
            let i = choose|i: int| 0 <= i < entries@.len() && (entries@[i].name@ == "flownet.bin"@ || entries@[i].name@ == "model.param"@);
            assert(pa(entries@[i]) || pb(entries@[i]));
        }
    }
    if a.is_some() || b.is_some() {
        return String::from_str(path);
    }
    if let Some(i) = first_named(entries, "rife-v2.3", false) {
        return entries[i].path.clone();
    }
    match first_dir(entries) {
        Some(i) => entries[i].path.clone(),
        None => String::from_str(path),
    }
}


proof fn lemma_first_exists<A>(s: Seq<A>, p: spec_fn(A) -> bool, k: int)
    requires
        0 <= k < s.len(),
        p(s[k]),
    ensures
        first_where(s, p) matches Some(i) && 0 <= i < s.len() && p(s[i]) && forall|j: int|
            0 <= j < i ==> !p(s[j]),
    decreases k,
{
    if exists|j: int| 0 <= j < k && p(s[j]) {
        let j = choose|j: int| 0 <= j < k && p(s[j]);
        lemma_first_exists(s, p, j);
    } else {
        lemma_first_where_at(s, p, k);
    }
}

proof fn lemma_first_where_congruent<A>(s1: Seq<A>, s2: Seq<A>, p: spec_fn(A) -> bool)
    requires
        s1.len() == s2.len(),
        forall|i: int| 0 <= i < s1.len() ==> p(s1[i]) == p(s2[i]),
    ensures
        first_where(s1, p) == first_where(s2, p),
{
    if exists|k: int| 0 <= k < s1.len() && p(s1[k]) {
        let k = choose|k: int| 0 <= k < s1.len() && p(s1[k]);
        lemma_first_exists(s1, p, k);
        let i = first_where(s1, p)->Some_0;
        assert forall|j: int| 0 <= j < i implies !p(s2[j]) by {
            assert(!p(s1[j]));
        }
        lemma_first_where_at(s2, p, i);
    } else {
        assert forall|j: int| 0 <= j < s2.len() implies !p(s2[j]) by {
            assert(!p(s1[j]));
        }
    }
}

/// Two listings that hold the same entries, in the same order.
pub open spec fn same_listing(s1: Seq<EntryInfo>, s2: Seq<EntryInfo>) -> bool {
    &&& s1.len() == s2.len()
    &&& forall|i: int|
        0 <= i < s1.len() ==> {
            &&& (#[trigger] s1[i]).path@ == s2[i].path@
            &&& s1[i].name@ == s2[i].name@
            &&& s1[i].is_dir == s2[i].is_dir
            &&& s1[i].is_file == s2[i].is_file
        }
}

/// Model resolution reads the listing alone: a folder holding a weight file
/// resolves to itself; else one holding the preferred `rife-v2.3` entry
/// resolves to that entry; else one holding a folder resolves to the first
/// folder listed; else the choice stays unchanged. Equal listings resolve
/// alike.
pub proof fn lemma_model_resolution(path: Seq<char>, s: Seq<EntryInfo>, t: Seq<EntryInfo>)
    requires
        same_listing(s, t),
    ensures
        has_weight_file(s) ==> resolved_model_path(path, s) == path,
        !has_weight_file(s) && (exists|i: int| 0 <= i < s.len() && s[i].name@ == "rife-v2.3"@)
            ==> exists|i: int|
            0 <= i < s.len() && s[i].name@ == "rife-v2.3"@ && resolved_model_path(path, s)
                == s[i].path@,
        !has_weight_file(s) && (forall|i: int| 0 <= i < s.len() ==> s[i].name@ != "rife-v2.3"@) && (
        exists|i: int| 0 <= i < s.len() && s[i].is_dir) ==> exists|i: int|
            0 <= i < s.len() && s[i].is_dir && (forall|j: int| 0 <= j < i ==> !s[j].is_dir)
                && resolved_model_path(path, s) == s[i].path@,
        !has_weight_file(s) && (forall|i: int| 0 <= i < s.len() ==> s[i].name@ != "rife-v2.3"@) && (
        forall|i: int| 0 <= i < s.len() ==> !s[i].is_dir) ==> resolved_model_path(path, s) == path,
        resolved_model_path(path, s) == resolved_model_path(path, t),
{
    let pp = |e: EntryInfo| named(e, "rife-v2.3"@, false);
    let pd = |e: EntryInfo| e.is_dir;
    if !has_weight_file(s) {
        if exists|i: int| 0 <= i < s.len() && s[i].name@ == "rife-v2.3"@ {
            let k = choose|i: int| 0 <= i < s.len() && s[i].name@ == "rife-v2.3"@;
            lemma_first_exists(s, pp, k);
        } else if exists|i: int| 0 <= i < s.len() && s[i].is_dir {
            let k = choose|i: int| 0 <= i < s.len() && s[i].is_dir;
            assert forall|j: int| 0 <= j < s.len() implies !pp(s[j]) by {}
            lemma_first_where_none(s, pp);
            lemma_first_exists(s, pd, k);
        } else {
            lemma_first_where_none(s, pp);
            lemma_first_where_none(s, pd);
        }
    }
    lemma_first_where_congruent(s, t, pp);
    lemma_first_where_congruent(s, t, pd);
    if has_weight_file(s) {
        let i = choose|i: int|
            0 <= i < s.len() && (s[i].name@ == "flownet.bin"@ || s[i].name@ == "model.param"@);
        assert(t[i].name@ == s[i].name@);
    }
    if has_weight_file(t) {
        let i = choose|i: int|
            0 <= i < t.len() && (t[i].name@ == "flownet.bin"@ || t[i].name@ == "model.param"@);
        assert(t[i].name@ == s[i].name@);
    }
}

/// A version folder that holds an ffmpeg binary.
pub open spec fn holds_ffmpeg(v: VersionDir) -> bool {
    v.is_dir && first_where(v.entries@, |e: EntryInfo| e.is_file) is Some
}

/// A version folder that holds an interpolator binary.
pub open spec fn holds_rife(v: VersionDir) -> bool {
    v.is_dir && first_where(v.entries@, |e: EntryInfo| is_rife_binary(e)) is Some
}

/// The tools found installed: each binary, and the interpolator's models.
#[derive(Clone, Debug, PartialEq, Eq)]
pub struct InstalledTools {
    pub ffmpeg: Option<String>,
    pub rife: Option<String>,
    pub rife_models: Option<String>,
}

/// The view of an optional string.
pub open spec fn opt_view(o: Option<String>) -> Option<Seq<char>> {
    match o {
        Some(s) => Some(s@),
        None => None,
    }
}

/// The ffmpeg binary found among version folders: the first file of the
/// first version folder that holds one.
pub open spec fn ffmpeg_found(vs: Seq<VersionDir>) -> Option<Seq<char>> {
    match first_where(vs, |v: VersionDir| holds_ffmpeg(v)) {
        Some(i) => {
            let es = vs[i].entries@;
            Some(es[first_where(es, |e: EntryInfo| e.is_file)->Some_0].path@)
        },
        None => None,
    }
}

/// The interpolator binary found among version folders: the `rife` file of
/// the first version folder that holds one.
pub open spec fn rife_found(vs: Seq<VersionDir>) -> Option<Seq<char>> {
    match first_where(vs, |v: VersionDir| holds_rife(v)) {
        Some(i) => {
            let es = vs[i].entries@;
            Some(es[first_where(es, |e: EntryInfo| is_rife_binary(e))->Some_0].path@)
        },
        None => None,
    }
}

/// The interpolator's models found among version folders: looked for in the
/// version folder whose binary was found.
pub open spec fn rife_models_found(vs: Seq<VersionDir>) -> Option<Seq<char>> {
    match first_where(vs, |v: VersionDir| holds_rife(v)) {
        Some(i) => {
            let es = vs[i].entries@;
            match models_dir_of(es) {
                Some(m) => Some(es[m].path@),
                None => None,
            }
        },
        None => None,
    }
}

fn first_ffmpeg(versions: &Vec<VersionDir>) -> (r: Option<String>)
    ensures
        opt_view(r) == ffmpeg_found(versions@),
{
    let ghost pf = |v: VersionDir| holds_ffmpeg(v);
    let mut i: usize = 0;
    while i < versions.len()
        invariant
            i <= versions@.len(),
            pf == (|v: VersionDir| holds_ffmpeg(v)),
            forall|j: int| 0 <= j < i ==> !pf(versions@[j]),
        decreases versions@.len() - i,
    {
        if versions[i].is_dir {
            if let Some(bin) = find_ffmpeg_in_version_dir(&versions[i].entries) {
                proof {
                    lemma_first_where_at(versions@, pf, i as int);
                }
                return Some(bin);
            }
        }
        i = i + 1;
    }
    proof {
        lemma_first_where_none(versions@, pf);
    }
    None
}

fn first_rife(versions: &Vec<VersionDir>) -> (r: (Option<String>, Option<String>))
    ensures
        opt_view(r.0) == rife_found(versions@),
        opt_view(r.1) == rife_models_found(versions@),
{
    let ghost pr = |v: VersionDir| holds_rife(v);
    let mut k: usize = 0;
    while k < versions.len()
        invariant
            k <= versions@.len(),
            pr == (|v: VersionDir| holds_rife(v)),
            forall|j: int| 0 <= j < k ==> !pr(versions@[j]),
        decreases versions@.len() - k,
    {
        if versions[k].is_dir {
            if let Some(bin) = find_rife_in_version_dir(&versions[k].entries) {
                proof {
                    lemma_first_where_at(versions@, pr, k as int);
                }
                let models = find_models_dir(&versions[k].entries);
                return (Some(bin), models);
            }
        }
        k = k + 1;
    }
    proof {
        lemma_first_where_none(versions@, pr);
    }
    (None, None)
}

/// Finds the installed tools from the listings of their version folders: for
/// each tool the first version folder that holds its binary wins, and the
/// interpolator's models are looked for in that same folder.
pub fn find_installed_tool_paths(
    ffmpeg_versions: &Vec<VersionDir>,
    rife_versions: &Vec<VersionDir>,
) -> (r: InstalledTools)
    ensures
        opt_view(r.ffmpeg) == ffmpeg_found(ffmpeg_versions@),
        opt_view(r.rife) == rife_found(rife_versions@),
        opt_view(r.rife_models) == rife_models_found(rife_versions@),
{
    let ffmpeg = first_ffmpeg(ffmpeg_versions);
    let (rife, rife_models) = first_rife(rife_versions);
    InstalledTools { ffmpeg, rife, rife_models }
}

/// Whether a tool counts as installed.
#[derive(Clone, Copy, Debug, PartialEq, Eq, Structural)]
pub enum ToolStatus {
    Installed,
    Missing,
}

impl ToolStatus {
    pub fn as_str(&self) -> (r: &'static str)
        ensures
            r@ == (match self {
                ToolStatus::Installed => "installed"@,
                ToolStatus::Missing => "missing"@,
            }),
    {
        match self {
            ToolStatus::Installed => "installed",
            ToolStatus::Missing => "missing",
        }
    }
}

/// Whether a version folder counts toward a tool being installed: for the
/// interpolator it holds its binary, for any other tool any file.
pub open spec fn counts_as_installed(is_rife: bool, v: VersionDir) -> bool {
    v.is_dir && if is_rife {
        exists|i: int| 0 <= i < v.entries@.len() && is_rife_binary(v.entries@[i])
    } else {
        exists|i: int| 0 <= i < v.entries@.len() && v.entries@[i].is_file
    }
}

fn has_any_file(entries: &Vec<EntryInfo>) -> (r: bool)
    ensures
        r == (exists|i: int| 0 <= i < entries@.len() && entries@[i].is_file),
{
    let mut i: usize = 0;
    while i < entries.len()
        invariant
            i <= entries@.len(),
            forall|j: int| 0 <= j < i ==> !entries@[j].is_file,
        decreases entries@.len() - i,
    {
        if entries[i].is_file {
            return true;
        }
        i = i + 1;
    }
    false
}

/// Whether the tool named `tool` is installed, given whether its folder
/// exists and the listings of its version folders.
pub fn tool_status(tool: &str, tool_dir_exists: bool, versions: &Vec<VersionDir>) -> (r: ToolStatus)
    ensures
        r == ToolStatus::Installed <==> tool_dir_exists && exists|i: int|
            0 <= i < versions@.len() && counts_as_installed(tool@ == "rife"@, #[trigger] versions@[i]),
{
    if !tool_dir_exists {
        return ToolStatus::Missing;
    }
    let is_rife = String::from_str(tool) == String::from_str("rife");
    let mut i: usize = 0;
    while i < versions.len()
        invariant
            i <= versions@.len(),
            is_rife == (tool@ == "rife"@),
            tool_dir_exists,
            forall|j: int| 0 <= j < i ==> !counts_as_installed(is_rife, #[trigger] versions@[j]),
        decreases versions@.len() - i,
    {
        let v = &versions[i];
        if v.is_dir {
            if is_rife {
                if has_rife_executable(&v.entries) {
                    assert(counts_as_installed(is_rife, versions@[i as int]));
                    return ToolStatus::Installed;
                }
            } else {
                if has_any_file(&v.entries) {
                    assert(counts_as_installed(is_rife, versions@[i as int]));
                    return ToolStatus::Installed;
                }
            }
        }
        i = i + 1;
    }
    ToolStatus::Missing
}

} // verus!
