//! Finding ffmpeg: where to look, and what its version output says. The
//! file checks and running `ffmpeg -version` are left to the caller.

use vstd::prelude::*;
use crate::json_formatter::{segments, strip_cr, text_lines};
use crate::text::{chars_of, string_of};
use crate::video_concat::texts;

verus! {

/// What was found out about ffmpeg.
pub struct FfmpegInfo {
    /// Whether a working ffmpeg was found.
    pub available: bool,
    /// Its path (empty when none was found).
    pub path: String,
    /// The first line of its `-version` output (empty when unknown).
    pub version: String,
}

/// The path `dir.join(name)` names (`Path::join`).
pub uninterp spec fn joined_path(dir: Seq<char>, name: Seq<char>) -> Seq<char>;

/// `Path::new(dir).join(name)`, as text.
#[verifier::external_body]
pub(crate) fn join_path(dir: &str, name: &str) -> (r: String)
    ensures
        r@ == joined_path(dir@, name@),
{
    std::path::Path::new(dir).join(name).to_string_lossy().to_string()
}

/// The name of the ffmpeg executable.
pub open spec fn exe_name_text(windows: bool) -> Seq<char> {
    if windows {
        "ffmpeg.exe"@
    } else {
        "ffmpeg"@
    }
}

/// The name of the ffmpeg executable on this platform.
pub fn exe_name(windows: bool) -> (r: &'static str)
    ensures
        r@ == exe_name_text(windows),
{
    if windows {
        "ffmpeg.exe"
    } else {
        "ffmpeg"
    }
}

/// `name` inside each directory, in order.
pub open spec fn in_each(dirs: Seq<Seq<char>>, name: Seq<char>) -> Seq<Seq<char>>
    decreases dirs.len(),
{
    if dirs.len() == 0 {
        Seq::empty()
    } else {
        in_each(dirs.drop_last(), name).push(joined_path(dirs.last(), name))
    }
}

/// Where ffmpeg is looked for, in order: `$FFMPEG_PATH` as a file, then as
/// a directory holding the executable; then each directory of `$PATH`;
/// then, on Windows, two usual install places.
pub open spec fn candidate_paths(env_path: Option<Seq<char>>, path_dirs: Seq<Seq<char>>, windows: bool) -> Seq<Seq<char>> {
    let from_env = match env_path {
        Some(p) => seq![p, joined_path(p, exe_name_text(windows))],
        None => Seq::empty(),
    };
    let fixed = if windows {
        seq!["C:\\ffmpeg\\bin\\ffmpeg.exe"@, "C:\\Program Files\\ffmpeg\\bin\\ffmpeg.exe"@]
    } else {
        Seq::empty()
    };
    from_env + in_each(path_dirs, exe_name_text(windows)) + fixed
}

/// An optional string as an optional text.
pub open spec fn opt_text(o: Option<String>) -> Option<Seq<char>> {
    match o {
        Some(s) => Some(s@),
        None => None,
    }
}

/// The places to look for ffmpeg (see [`candidate_paths`]).
pub fn ffmpeg_candidates(env_path: Option<String>, path_dirs: &Vec<String>, windows: bool) -> (r: Vec<String>)
    ensures
        texts(r@) == candidate_paths(opt_text(env_path), texts(path_dirs@), windows),
{
    let exe = exe_name(windows);
    let ghost env_v = opt_text(env_path);
    let ghost from_env = match env_v {
        Some(p) => seq![p, joined_path(p, exe_name_text(windows))],
        None => Seq::<Seq<char>>::empty(),
    };
    let mut r: Vec<String> = Vec::new();
    if let Some(p) = &env_path {
        r.push(p.clone());
        r.push(join_path(p.as_str(), exe));
        assert(texts(r@) =~= from_env);
    } else {
        assert(texts(r@) =~= from_env);
    }
    let ghost head = texts(r@);
    let mut i: usize = 0;
    while i < path_dirs.len()
        invariant
            i <= path_dirs@.len(),
            exe@ == exe_name_text(windows),
            texts(r@) == head + in_each(texts(path_dirs@).take(i as int), exe@),
        decreases path_dirs.len() - i,
    {
        let ghost before = texts(r@);
        r.push(join_path(path_dirs[i].as_str(), exe));
        assert(texts(path_dirs@).take(i + 1).drop_last() =~= texts(path_dirs@).take(i as int));
        assert(texts(r@) =~= before.push(joined_path(path_dirs@[i as int]@, exe@)));
        i = i + 1;
    }
    assert(texts(path_dirs@).take(path_dirs@.len() as int) =~= texts(path_dirs@));
    let ghost mid = texts(r@);
    if windows {
        r.push(String::from_str("C:\\ffmpeg\\bin\\ffmpeg.exe"));
        r.push(String::from_str("C:\\Program Files\\ffmpeg\\bin\\ffmpeg.exe"));
        assert(texts(r@) =~= mid + seq!["C:\\ffmpeg\\bin\\ffmpeg.exe"@, "C:\\Program Files\\ffmpeg\\bin\\ffmpeg.exe"@]);
    } else {
        assert(texts(r@) =~= mid + Seq::<Seq<char>>::empty());
    }
    assert(texts(r@) =~= candidate_paths(env_v, texts(path_dirs@), windows));
    r
}

/// The first candidate that is a file.
pub fn first_existing(candidates: Vec<String>, is_file: &Vec<bool>) -> (r: Option<String>)
    requires
        candidates@.len() == is_file@.len(),
    ensures
        r matches Some(p) ==> exists|k: int| 0 <= k < is_file@.len() && is_file@[k] && candidates@[k] == p && forall|j: int| 0 <= j < k ==> !is_file@[j],
        r is None ==> forall|j: int| 0 <= j < is_file@.len() ==> !is_file@[j],
{
    let mut i: usize = 0;
    while i < candidates.len()
        invariant
            i <= candidates@.len(),
            candidates@.len() == is_file@.len(),
            forall|j: int| 0 <= j < i ==> !is_file@[j],
        decreases candidates.len() - i,
    {
        if is_file[i] {
            return Some(candidates[i].clone());
        }
        i = i + 1;
    }
    None
}

/// The index of the first `\n` of `s`, or its length.
pub open spec fn first_newline(s: Seq<char>) -> int {
    if exists|i: int| 0 <= i < s.len() && s[i] == '\n' {
        choose|i: int| 0 <= i < s.len() && s[i] == '\n' && forall|j: int| 0 <= j < i ==> s[j] != '\n'
    } else {
        s.len() as int
    }
}

proof fn lemma_first_segment(s: Seq<char>, k: int)
    requires
        0 <= k <= s.len(),
        forall|j: int| 0 <= j < k ==> s[j] != '\n',
        k < s.len() ==> s[k] == '\n',
    ensures
        segments(s).len() >= 1,
        segments(s)[0] == s.take(k),
        (k == s.len()) == (segments(s).len() == 1),
    decreases s.len(),
{
    if s.len() == 0 {
        assert(s.take(k) =~= Seq::<char>::empty());
    } else {
        let t = s.drop_last();
        if k == s.len() {
            assert forall|j: int| 0 <= j < k - 1 implies t[j] != '\n' by {}
            lemma_first_segment(t, k - 1);
            assert(t.take(k - 1).push(s.last()) =~= s.take(k));
        } else if k == s.len() - 1 {
            lemma_first_segment(t, k);
            assert(t.take(k) =~= s.take(k));
        } else {
            lemma_first_segment(t, k);
            assert(t.take(k) =~= s.take(k));
        }
    }
}

/// The first line of ffmpeg's `-version` output (`lines().next()`).
pub fn version_line(stdout: &str) -> (r: Option<String>)
    ensures
        text_lines(stdout@).len() > 0 ==> (r matches Some(l) && l@ == text_lines(stdout@)[0]),
        text_lines(stdout@).len() == 0 ==> r is None,
{
    let cs = chars_of(stdout);
    if cs.len() == 0 {
        return None;
    }
    let mut k: usize = 0;
    while k < cs.len() && cs[k] != '\n'
        invariant
            k <= cs@.len(),
            forall|j: int| 0 <= j < k ==> cs@[j] != '\n',
        decreases cs.len() - k,
    {
        k = k + 1;
    }
    proof {
        lemma_first_segment(cs@, k as int);
    }
    let end = if k < cs.len() && k > 0 && cs[k - 1] == '\r' { k - 1 } else { k };
    let mut line: Vec<char> = Vec::new();
    let mut i: usize = 0;
    while i < end
        invariant
            i <= end,
            end <= k,
            k <= cs@.len(),
            line@ == cs@.take(i as int),
        decreases end - i,
    {
        line.push(cs[i]);
        i = i + 1;
        assert(line@ =~= cs@.take(i as int));
    }
    if k < cs.len() {
        assert(line@ =~= strip_cr(cs@.take(k as int)));
    } else {
        assert(line@ =~= cs@.take(k as int));
    }
    Some(string_of(&line))
}

/// What was found out about ffmpeg, from the path found (if any) and the
/// output of `ffmpeg -version` there (if it ran and succeeded).
pub fn detect_ffmpeg(path: Option<String>, version_output: Option<String>) -> (r: FfmpegInfo)
    ensures
        path is None ==> !r.available && r.path@.len() == 0 && r.version@.len() == 0,
        path matches Some(p) ==> {
            &&& r.path@ == p@
            &&& r.available == (version_output matches Some(o) && text_lines(o@).len() > 0)
            &&& r.available ==> r.version@ == text_lines(version_output->Some_0@)[0]
            &&& !r.available ==> r.version@.len() == 0
        },
{
    match path {
        None => FfmpegInfo { available: false, path: String::new(), version: String::new() },
        Some(p) => {
            let version = match &version_output {
                Some(o) => version_line(o.as_str()),
                None => None,
            };
            match version {
                Some(v) => FfmpegInfo { available: true, path: p, version: v },
                None => FfmpegInfo { available: false, path: p, version: String::new() },
            }
        },
    }
}

} // verus!
