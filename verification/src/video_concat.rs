//! The `video-concat` tool's logic: checking the request, choosing the
//! strategy, writing the ffmpeg command lines, and reading ffmpeg's
//! progress lines. Running ffmpeg and touching files is left to the caller.

use vstd::prelude::*;
use crate::category::ToolCategory;
use crate::error::{ToolError, is_invalid_input};
use crate::text::{chars_of, decimal_u64, nat_digits, push_char, push_str, str_equal, string_of, to_lowercase_unicode, unicode_lowercase};
use crate::text_stats::{split_words, words, words_view};
use crate::timestamp::{all_digits, decimal_value, lemma_decimal_monotone};
use crate::tool::Tool;

verus! {

/// The extension of the last component of a path (`Path::extension`), if
/// it has one.
pub uninterp spec fn path_extension(p: Seq<char>) -> Option<Seq<char>>;

/// `Path::new(p).extension()` as text (a `&str` path has UTF-8 components).
#[verifier::external_body]
fn extension_of(p: &str) -> (r: Option<String>)
    ensures
        r matches Some(e) ==> path_extension(p@) == Some(e@),
        r is None <==> path_extension(p@) is None,
{
    match std::path::Path::new(p).extension() {
        Some(e) => Some(e.to_string_lossy().to_string()),
        None => None,
    }
}

/// The lower-cased extension of a path, or empty when it has none.
pub open spec fn container_of(p: Seq<char>) -> Seq<char> {
    match path_extension(p) {
        Some(e) => unicode_lowercase(e),
        None => unicode_lowercase(""@),
    }
}

/// Every file has the container of the first (trivially so for one file).
pub open spec fn same_container(files: Seq<Seq<char>>) -> bool {
    files.len() <= 1 || forall|i: int| 1 <= i < files.len() ==> container_of(#[trigger] files[i]) == container_of(files[0])
}

/// A list of strings as plain texts.
pub open spec fn texts(v: Seq<String>) -> Seq<Seq<char>> {
    v.map_values(|s: String| s@)
}

/// The lower-cased extension of a path, or empty when it has none.
fn container(p: &str) -> (r: String)
    ensures
        r@ == container_of(p@),
{
    match extension_of(p) {
        Some(e) => to_lowercase_unicode(e.as_str()),
        None => to_lowercase_unicode(""),
    }
}

/// Whether all files share the container format (extension, ignoring case)
/// of the first one.
pub fn all_same_container(files: &Vec<String>) -> (r: bool)
    ensures
        r == same_container(texts(files@)),
{
    if files.len() <= 1 {
        return true;
    }
    let first = container(files[0].as_str());
    let mut i: usize = 1;
    while i < files.len()
        invariant
            1 <= i <= files@.len(),
            first@ == container_of(files@[0]@),
            forall|j: int| 1 <= j < i ==> container_of(#[trigger] texts(files@)[j]) == container_of(texts(files@)[0]),
        decreases files.len() - i,
    {
        let c = container(files[i].as_str());
        if !str_equal(c.as_str(), first.as_str()) {
            assert(texts(files@)[i as int] == files@[i as int]@);
            return false;
        }
        i = i + 1;
    }
    true
}

/// The concat strategy: stream copy when all containers agree, else
/// re-encoding.
pub fn strategy_name(all_same: bool) -> (r: &'static str)
    ensures
        all_same ==> r@ == "stream-copy"@,
        !all_same ==> r@ == "re-encode"@,
{
    if all_same {
        "stream-copy"
    } else {
        "re-encode"
    }
}

/// The x264 CRF of a quality name: `low` 28, `high` 18, anything else 23.
pub open spec fn crf_of(q: Seq<char>) -> u32 {
    if q == "low"@ {
        28
    } else if q == "high"@ {
        18
    } else {
        23
    }
}

/// The x264 CRF of a quality name.
pub fn quality_crf(q: &str) -> (r: u32)
    ensures
        r == crf_of(q@),
{
    if str_equal(q, "low") {
        28
    } else if str_equal(q, "high") {
        18
    } else {
        23
    }
}

/// The quality a request asks for (default `medium`).
pub fn parse_quality(quality: &Option<String>) -> (r: String)
    ensures
        quality matches Some(q) ==> r@ == q@,
        quality is None ==> r@ == "medium"@,
{
    match quality {
        Some(q) => q.clone(),
        None => String::from_str("medium"),
    }
}

/// One entry of the `files` list of a request.
pub struct FileArg {
    /// The entry, when it is a string.
    pub path: Option<String>,
    /// Whether a file exists at that path.
    pub exists: bool,
}

/// The error `parse_files` reports, if any, for a `files` list.
pub open spec fn files_error(files: Option<Seq<FileArg>>) -> Option<Seq<char>> {
    match files {
        None => Some("缺少 files 字段，请提供视频文件路径列表"@),
        Some(fs) => if fs.len() == 0 {
            Some("files 列表不能为空"@)
        } else if fs.len() > 200 {
            Some("文件数量过多（"@ + nat_digits(fs.len()) + "个），建议不超过 200 个"@)
        } else if exists|i: int| 0 <= i < fs.len() && (#[trigger] fs[i]).path is None {
            Some("files 列表中的项目必须是字符串（文件路径）"@)
        } else if exists|i: int| 0 <= i < fs.len() && !(#[trigger] fs[i]).exists {
            let k = choose|k: int| 0 <= k < fs.len() && !fs[k].exists && forall|j: int| 0 <= j < k ==> fs[j].exists;
            Some("文件不存在: "@ + fs[k].path->Some_0@)
        } else {
            None
        },
    }
}

/// The `files` list as plain values.
pub open spec fn files_view(files: Option<Vec<FileArg>>) -> Option<Seq<FileArg>> {
    match files {
        Some(v) => Some(v@),
        None => None,
    }
}

/// The paths of a list whose entries are all strings.
pub open spec fn file_paths(fs: Seq<FileArg>) -> Seq<Seq<char>> {
    fs.map_values(|f: FileArg| f.path->Some_0@)
}

/// Checks the `files` list of a request (`None` when the field is not an
/// array): not empty, at most 200 entries, all strings, all existing files.
pub fn parse_files(files: Option<Vec<FileArg>>) -> (r: Result<Vec<String>, ToolError>)
    ensures
        files_error(files_view(files)) matches Some(m) ==> (r matches Err(e) && is_invalid_input(e, m)),
        files_error(files_view(files)) is None ==> (r matches Ok(ps) && texts(ps@) == file_paths(files->Some_0@)),
{
    let fs = match files {
        Some(fs) => fs,
        None => {
            return Err(ToolError::InvalidInput(String::from_str("缺少 files 字段，请提供视频文件路径列表")));
        },
    };
    if fs.len() == 0 {
        return Err(ToolError::InvalidInput(String::from_str("files 列表不能为空")));
    }
    if fs.len() > 200 {
        let mut msg = String::from_str("文件数量过多（");
        let n = decimal_u64(fs.len() as u64);
        push_str(&mut msg, n.as_str());
        push_str(&mut msg, "个），建议不超过 200 个");
        return Err(ToolError::InvalidInput(msg));
    }
    let mut i: usize = 0;
    while i < fs.len()
        invariant
            i <= fs@.len(),
            files_view(files) == Some(fs@),
            0 < fs@.len() <= 200,
            forall|j: int| 0 <= j < i ==> (#[trigger] fs@[j]).path is Some,
        decreases fs.len() - i,
    {
        if fs[i].path.is_none() {
            assert(fs@[i as int].path is None);
            return Err(ToolError::InvalidInput(String::from_str("files 列表中的项目必须是字符串（文件路径）")));
        }
        i = i + 1;
    }
    let mut paths: Vec<String> = Vec::new();
    let mut k: usize = 0;
    while k < fs.len()
        invariant
            k <= fs@.len(),
            files_view(files) == Some(fs@),
            0 < fs@.len() <= 200,
            forall|j: int| 0 <= j < fs@.len() ==> (#[trigger] fs@[j]).path is Some,
            forall|j: int| 0 <= j < k ==> (#[trigger] fs@[j]).exists,
            texts(paths@) == file_paths(fs@.take(k as int)),
        decreases fs.len() - k,
    {
        let p = match &fs[k].path {
            Some(p) => p.clone(),
            None => String::new(),
        };
        if !fs[k].exists {
            assert(!fs@[k as int].exists);
            let mut msg = String::from_str("文件不存在: ");
            push_str(&mut msg, p.as_str());
            proof {
                let kk = choose|kk: int| 0 <= kk < fs@.len() && !fs@[kk].exists && forall|j: int| 0 <= j < kk ==> fs@[j].exists;
                assert(kk == k as int) by {
                    if kk < k {
                        assert(fs@[kk].exists);
                    }
                    if kk > k {
                        assert(fs@[k as int].exists);
                    }
                }
            }
            return Err(ToolError::InvalidInput(msg));
        }
        let ghost before = paths@;
        assert(p@ == fs@[k as int].path->Some_0@);
        paths.push(p);
        assert(texts(paths@) =~= texts(before).push(p@));
        assert(file_paths(fs@.take(k + 1)) =~= file_paths(fs@.take(k as int)).push(fs@[k as int].path->Some_0@));
        assert(texts(paths@) =~= file_paths(fs@.take(k + 1)));
        k = k + 1;
    }
    assert(fs@.take(fs@.len() as int) =~= fs@);
    Ok(paths)
}

/// A path with each `'` written as `'\''`, for a single-quoted entry of
/// ffmpeg's concat list.
pub open spec fn quote_escaped(f: Seq<char>) -> Seq<char>
    decreases f.len(),
{
    if f.len() == 0 {
        Seq::empty()
    } else {
        quote_escaped(f.drop_last()) + if f.last() == '\'' {
            seq!['\'', '\\', '\'', '\'']
        } else {
            seq![f.last()]
        }
    }
}

/// The concat list line of one file: `file '<path>'` and a newline.
pub open spec fn list_line(f: Seq<char>) -> Seq<char> {
    "file '"@ + quote_escaped(f) + "'\n"@
}

/// The concat list of files, one line each, in order.
pub open spec fn concat_list(files: Seq<Seq<char>>) -> Seq<char>
    decreases files.len(),
{
    if files.len() == 0 {
        Seq::empty()
    } else {
        concat_list(files.drop_last()) + list_line(files.last())
    }
}

/// The concat-demuxer list file's contents for `files`.
pub fn concat_list_content(files: &Vec<String>) -> (r: String)
    ensures
        r@ == concat_list(texts(files@)),
{
    let mut out = String::new();
    let mut i: usize = 0;
    while i < files.len()
        invariant
            i <= files@.len(),
            out@ == concat_list(texts(files@).take(i as int)),
        decreases files.len() - i,
    {
        let cs = chars_of(files[i].as_str());
        let ghost start = out@;
        push_str(&mut out, "file '");
        let ghost head = out@;
        let mut j: usize = 0;
        while j < cs.len()
            invariant
                j <= cs@.len(),
                out@ == head + quote_escaped(cs@.take(j as int)),
            decreases cs.len() - j,
        {
            assert(cs@.take(j + 1).drop_last() =~= cs@.take(j as int));
            if cs[j] == '\'' {
                push_char(&mut out, '\'');
                push_char(&mut out, '\\');
                push_char(&mut out, '\'');
                push_char(&mut out, '\'');
            } else {
                push_char(&mut out, cs[j]);
            }
            j = j + 1;
            assert(out@ =~= head + quote_escaped(cs@.take(j as int)));
        }
        push_str(&mut out, "'\n");
        assert(cs@.take(cs@.len() as int) =~= cs@);
        assert(texts(files@).take(i + 1).drop_last() =~= texts(files@).take(i as int));
        assert(texts(files@)[i as int] == cs@);
        assert(out@ =~= start + list_line(cs@));
        i = i + 1;
    }
    assert(texts(files@).take(files@.len() as int) =~= texts(files@));
    out
}

/// The ffmpeg arguments that join the files listed in `list_path` by
/// stream copy into `output`.
pub open spec fn demuxer_args(list_path: Seq<char>, output: Seq<char>) -> Seq<Seq<char>> {
    seq!["-f"@, "concat"@, "-safe"@, "0"@, "-i"@, list_path, "-c"@, "copy"@, "-y"@, output]
}

/// The ffmpeg arguments for the concat demuxer (stream copy).
pub fn concat_demuxer_args(list_path: &str, output: &str) -> (r: Vec<String>)
    ensures
        texts(r@) == demuxer_args(list_path@, output@),
{
    let mut v: Vec<String> = Vec::new();
    v.push(String::from_str("-f"));
    v.push(String::from_str("concat"));
    v.push(String::from_str("-safe"));
    v.push(String::from_str("0"));
    v.push(String::from_str("-i"));
    v.push(String::from_str(list_path));
    v.push(String::from_str("-c"));
    v.push(String::from_str("copy"));
    v.push(String::from_str("-y"));
    v.push(String::from_str(output));
    assert(texts(v@) =~= demuxer_args(list_path@, output@));
    v
}

/// The stream labels of input `i`: `[i:v][i:a]`.
pub open spec fn input_labels(i: nat) -> Seq<char> {
    "["@ + nat_digits(i) + ":v]["@ + nat_digits(i) + ":a]"@
}

/// The labels of inputs `0..n`, in order.
pub open spec fn all_labels(n: nat) -> Seq<char>
    decreases n,
{
    if n == 0 {
        Seq::empty()
    } else {
        all_labels((n - 1) as nat) + input_labels((n - 1) as nat)
    }
}

/// The filter graph joining `n` inputs' video and audio.
pub open spec fn concat_filter(n: nat) -> Seq<char> {
    all_labels(n) + "concat=n="@ + nat_digits(n) + ":v=1:a=1"@
}

/// `-i <file>` for each file, in order.
pub open spec fn input_args(files: Seq<Seq<char>>) -> Seq<Seq<char>>
    decreases files.len(),
{
    if files.len() == 0 {
        Seq::empty()
    } else {
        input_args(files.drop_last()) + seq!["-i"@, files.last()]
    }
}

/// The ffmpeg arguments that re-encode and join `files` into `output`.
pub open spec fn filter_args(files: Seq<Seq<char>>, output: Seq<char>, crf: u32) -> Seq<Seq<char>> {
    input_args(files) + seq![
        "-filter_complex"@,
        concat_filter(files.len()),
        "-c:v"@,
        "libx264"@,
        "-crf"@,
        nat_digits(crf as nat),
        "-preset"@,
        "medium"@,
        "-c:a"@,
        "aac"@,
        "-b:a"@,
        "192k"@,
        "-y"@,
        output,
    ]
}

/// The filter graph joining `n` inputs.
pub fn concat_filter_graph(n: usize) -> (r: String)
    ensures
        r@ == concat_filter(n as nat),
{
    let mut out = String::new();
    let mut i: usize = 0;
    while i < n
        invariant
            i <= n,
            out@ == all_labels(i as nat),
        decreases n - i,
    {
        let d = decimal_u64(i as u64);
        let ghost start = out@;
        push_str(&mut out, "[");
        push_str(&mut out, d.as_str());
        push_str(&mut out, ":v][");
        push_str(&mut out, d.as_str());
        push_str(&mut out, ":a]");
        assert(out@ =~= start + input_labels(i as nat));
        i = i + 1;
    }
    let ghost labels = out@;
    let nd = decimal_u64(n as u64);
    push_str(&mut out, "concat=n=");
    push_str(&mut out, nd.as_str());
    push_str(&mut out, ":v=1:a=1");
    assert(out@ =~= concat_filter(n as nat));
    out
}

/// The ffmpeg arguments for the concat filter (re-encode to H.264/AAC).
pub fn concat_filter_args(files: &Vec<String>, output: &str, crf: u32) -> (r: Vec<String>)
    ensures
        texts(r@) == filter_args(texts(files@), output@, crf),
{
    let mut v: Vec<String> = Vec::new();
    let mut i: usize = 0;
    while i < files.len()
        invariant
            i <= files@.len(),
            texts(v@) == input_args(texts(files@).take(i as int)),
        decreases files.len() - i,
    {
        let ghost before = v@;
        v.push(String::from_str("-i"));
        v.push(files[i].clone());
        assert(texts(files@).take(i + 1).drop_last() =~= texts(files@).take(i as int));
        assert(texts(v@) =~= texts(before) + seq!["-i"@, files@[i as int]@]);
        i = i + 1;
    }
    assert(texts(files@).take(files@.len() as int) =~= texts(files@));
    let ghost inputs = v@;
    v.push(String::from_str("-filter_complex"));
    v.push(concat_filter_graph(files.len()));
    v.push(String::from_str("-c:v"));
    v.push(String::from_str("libx264"));
    v.push(String::from_str("-crf"));
    v.push(decimal_u64(crf as u64));
    v.push(String::from_str("-preset"));
    v.push(String::from_str("medium"));
    v.push(String::from_str("-c:a"));
    v.push(String::from_str("aac"));
    v.push(String::from_str("-b:a"));
    v.push(String::from_str("192k"));
    v.push(String::from_str("-y"));
    v.push(String::from_str(output));
    assert(texts(v@) =~= filter_args(texts(files@), output@, crf));
    v
}

/// `key` occurs in `line` at position `i`.
pub open spec fn occurs_at(line: Seq<char>, key: Seq<char>, i: int) -> bool {
    0 <= i && i + key.len() <= line.len() && line.subrange(i, i + key.len()) == key
}

/// The position of the first occurrence of `key` in `line` (`str::find`).
pub open spec fn find_key(line: Seq<char>, key: Seq<char>) -> Option<int> {
    if exists|i: int| occurs_at(line, key, i) {
        Some(choose|i: int| occurs_at(line, key, i) && forall|j: int| 0 <= j < i ==> !occurs_at(line, key, j))
    } else {
        None
    }
}

/// What follows the first occurrence of `key` in `line`.
pub open spec fn after_key(line: Seq<char>, key: Seq<char>) -> Option<Seq<char>> {
    match find_key(line, key) {
        Some(i) => Some(line.skip(i + key.len())),
        None => None,
    }
}

/// The number of ASCII digits at the start of `s`.
pub open spec fn digit_run(s: Seq<char>) -> nat
    decreases s.len(),
{
    if s.len() > 0 && '0' <= s[0] <= '9' {
        digit_run(s.drop_first()) + 1
    } else {
        0
    }
}

/// The number of spaces at the start of `s`.
pub open spec fn space_run(s: Seq<char>) -> nat
    decreases s.len(),
{
    if s.len() > 0 && s[0] == ' ' {
        space_run(s.drop_first()) + 1
    } else {
        0
    }
}

/// The number after `key` in `line`, past any spaces that pad it (ffmpeg
/// writes `frame=  123`); 0 when `key` is absent, no digit follows, or the
/// number does not fit in a `u64`.
pub open spec fn number_after(line: Seq<char>, key: Seq<char>) -> u64 {
    match after_key(line, key) {
        Some(after) => {
            let rest = after.skip(space_run(after) as int);
            let d = rest.take(digit_run(rest) as int);
            if d.len() > 0 && decimal_value(d) <= u64::MAX {
                decimal_value(d) as u64
            } else {
                0
            }
        },
        None => 0,
    }
}

/// The first whitespace-separated word right after `key` in `line`; empty
/// when `key` is absent or nothing follows it.
pub open spec fn word_after(line: Seq<char>, key: Seq<char>) -> Seq<char> {
    match after_key(line, key) {
        Some(rest) => if words(rest).len() > 0 {
            words(rest)[0]
        } else {
            Seq::empty()
        },
        None => Seq::empty(),
    }
}

/// Whether `key` occurs in `cs` at `i`.
fn occurs(cs: &Vec<char>, key: &Vec<char>, i: usize) -> (r: bool)
    requires
        i + key@.len() <= cs@.len(),
    ensures
        r == occurs_at(cs@, key@, i as int),
{
    let n = cs.len();
    let mut j: usize = 0;
    while j < key.len()
        invariant
            n == cs@.len(),
            j <= key@.len(),
            i + key@.len() <= cs@.len(),
            forall|m: int| 0 <= m < j ==> cs@[i + m] == key@[m],
        decreases key.len() - j,
    {
        assert(i + j < cs@.len());
        if cs[i + j] != key[j] {
            assert(cs@.subrange(i as int, i + key@.len())[j as int] != key@[j as int]);
            return false;
        }
        j = j + 1;
    }
    assert(cs@.subrange(i as int, i + key@.len()) =~= key@);
    true
}

/// The position of the first occurrence of `key` in `cs`.
fn first_occurrence(cs: &Vec<char>, k: &Vec<char>) -> (r: Option<usize>)
    ensures
        r matches Some(i) ==> occurs_at(cs@, k@, i as int) && forall|j: int| 0 <= j < i ==> !occurs_at(cs@, k@, j),
        r is None ==> forall|j: int| !occurs_at(cs@, k@, j),
{
    let n = cs.len();
    let m = k.len();
    let mut i: usize = 0;
    while i <= n && m <= n - i
        invariant
            n == cs@.len(),
            m == k@.len(),
            i <= n + 1,
            m == 0 ==> i == 0,
            forall|j: int| 0 <= j < i ==> !occurs_at(cs@, k@, j),
        decreases n + 1 - i,
    {
        if m == 0 {
            assert(cs@.subrange(i as int, i as int) =~= k@);
        }
        if occurs(cs, k, i) {
            return Some(i);
        }
        i = i + 1;
    }
    assert forall|j: int| !occurs_at(cs@, k@, j) by {
        if occurs_at(cs@, k@, j) {
            assert(j < i);
        }
    }
    None
}

/// `cs` from position `start` on.
fn suffix_from(cs: &Vec<char>, start: usize) -> (r: Vec<char>)
    requires
        start <= cs@.len(),
    ensures
        r@ == cs@.skip(start as int),
{
    let mut rest: Vec<char> = Vec::new();
    let mut m = start;
    while m < cs.len()
        invariant
            start <= m <= cs@.len(),
            rest@ == cs@.subrange(start as int, m as int),
        decreases cs.len() - m,
    {
        rest.push(cs[m]);
        m = m + 1;
        assert(rest@ =~= cs@.subrange(start as int, m as int));
    }
    assert(rest@ =~= cs@.skip(start as int));
    rest
}

/// What follows the first occurrence of `key` in `cs`.
fn rest_after(cs: &Vec<char>, key: &str) -> (r: Option<Vec<char>>)
    ensures
        after_key(cs@, key@) matches Some(t) ==> (r matches Some(v) && v@ == t),
        after_key(cs@, key@) is None ==> r is None,
{
    let k = chars_of(key);
    match first_occurrence(cs, &k) {
        Some(i) => {
            proof {
                let c = choose|c: int| occurs_at(cs@, key@, c) && forall|j: int| 0 <= j < c ==> !occurs_at(cs@, key@, j);
                assert(occurs_at(cs@, key@, c) && forall|j: int| 0 <= j < c ==> !occurs_at(cs@, key@, j));
                assert(c == i as int) by {
                    if c > i {
                        assert(!occurs_at(cs@, key@, i as int));
                    }
                }
            }
            let n = cs.len();
            Some(suffix_from(cs, i + k.len()))
        },
        None => None,
    }
}

proof fn lemma_digit_run(s: Seq<char>, n: int)
    requires
        0 <= n <= s.len(),
        forall|j: int| 0 <= j < n ==> '0' <= #[trigger] s[j] <= '9',
        !(n < s.len() && '0' <= s[n] <= '9'),
    ensures
        digit_run(s) == n,
    decreases n,
{
    if n > 0 {
        let t = s.drop_first();
        assert forall|j: int| 0 <= j < n - 1 implies '0' <= #[trigger] t[j] <= '9' by {
            assert(t[j] == s[j + 1]);
        }
        lemma_digit_run(t, n - 1);
    }
}

proof fn lemma_space_run(s: Seq<char>, n: int)
    requires
        0 <= n <= s.len(),
        forall|j: int| 0 <= j < n ==> #[trigger] s[j] == ' ',
        !(n < s.len() && s[n] == ' '),
    ensures
        space_run(s) == n,
    decreases n,
{
    if n > 0 {
        let t = s.drop_first();
        assert forall|j: int| 0 <= j < n - 1 implies #[trigger] t[j] == ' ' by {
            assert(t[j] == s[j + 1]);
        }
        lemma_space_run(t, n - 1);
    }
}

/// The number after `key` in `line`, past padding spaces (see
/// [`number_after`]).
pub fn extract_u64(line: &str, key: &str) -> (r: u64)
    ensures
        r == number_after(line@, key@),
{
    let cs = chars_of(line);
    let after = match rest_after(&cs, key) {
        Some(after) => after,
        None => {
            return 0;
        },
    };
    let mut p: usize = 0;
    while p < after.len() && after[p] == ' '
        invariant
            p <= after@.len(),
            forall|j: int| 0 <= j < p ==> #[trigger] after@[j] == ' ',
        decreases after.len() - p,
    {
        p = p + 1;
    }
    proof {
        lemma_space_run(after@, p as int);
    }
    let rest = suffix_from(&after, p);
    let n = rest.len();
    let mut i: usize = 0;
    let mut v: u128 = 0;
    let mut overflow = false;
    while i < n && '0' <= rest[i] && rest[i] <= '9'
        invariant
            i <= n,
            n == rest@.len(),
            forall|j: int| 0 <= j < i ==> '0' <= #[trigger] rest@[j] <= '9',
            all_digits(rest@.take(i as int)),
            !overflow ==> v == decimal_value(rest@.take(i as int)),
            !overflow ==> v <= u64::MAX,
            overflow ==> decimal_value(rest@.take(i as int)) > u64::MAX,
        decreases n - i,
    {
        let c = rest[i];
        assert(rest@.take(i + 1).drop_last() =~= rest@.take(i as int));
        assert(all_digits(rest@.take(i + 1)));
        if !overflow {
            v = v * 10 + ((c as u32) - 48) as u128;
            if v > 18446744073709551615 {
                overflow = true;
            }
        } else {
            proof {
                lemma_decimal_monotone(rest@.take(i + 1), i as int);
                assert(rest@.take(i + 1).take(i as int) =~= rest@.take(i as int));
            }
        }
        i = i + 1;
    }
    proof {
        lemma_digit_run(rest@, i as int);
    }
    if i == 0 || overflow {
        0
    } else {
        v as u64
    }
}

/// The first word right after `key` in `line` (see [`word_after`]).
pub fn extract_string(line: &str, key: &str) -> (r: String)
    ensures
        r@ == word_after(line@, key@),
{
    let cs = chars_of(line);
    match rest_after(&cs, key) {
        Some(rest) => {
            let ws = split_words(&rest);
            if ws.len() > 0 {
                assert(words_view(ws@)[0] == ws@[0]@);
                string_of(&ws[0])
            } else {
                String::new()
            }
        },
        None => String::new(),
    }
}

/// What ffmpeg reports on one progress line.
pub struct ProgressUpdate {
    /// The `frame=` number.
    pub frame: u64,
    /// The `time=` value, such as `00:01:23.45`.
    pub time: String,
    /// The `speed=` value, such as `1.5x`.
    pub speed: String,
}

/// The progress a line of ffmpeg's output reports: only lines starting with
/// `frame=` do.
pub open spec fn line_progress(line: Seq<char>) -> Option<(u64, Seq<char>, Seq<char>)> {
    if line.len() >= 6 && line.take(6) == "frame="@ {
        Some((number_after(line, "frame="@), word_after(line, "time="@), word_after(line, "speed="@)))
    } else {
        None
    }
}

/// The progress reported by a line of ffmpeg's output, if any.
pub fn progress_from_line(line: &str) -> (r: Option<ProgressUpdate>)
    ensures
        line_progress(line@) is None <==> r is None,
        line_progress(line@) matches Some(p) ==> (r matches Some(u) && u.frame == p.0 && u.time@ == p.1 && u.speed@ == p.2),
{
    let cs = chars_of(line);
    let key = chars_of("frame=");
    proof {
        reveal_strlit("frame=");
    }
    if cs.len() < 6 || !occurs(&cs, &key, 0) {
        proof {
            if cs@.len() >= 6 {
                assert(cs@.take(6) =~= cs@.subrange(0, 6));
            }
        }
        return None;
    }
    assert(cs@.take(6) =~= cs@.subrange(0, 6));
    Some(ProgressUpdate {
        frame: extract_u64(line, "frame="),
        time: extract_string(line, "time="),
        speed: extract_string(line, "speed="),
    })
}

/// The default output file name for a start time (Unix seconds):
/// `video_concat_<secs>.mp4`.
pub open spec fn default_output_name_text(secs: u64) -> Seq<char> {
    "video_concat_"@ + nat_digits(secs as nat) + ".mp4"@
}

/// The default output file name for a start time (Unix seconds).
pub fn default_output_name(secs: u64) -> (r: String)
    ensures
        r@ == default_output_name_text(secs),
{
    let mut r = String::from_str("video_concat_");
    let d = decimal_u64(secs);
    push_str(&mut r, d.as_str());
    push_str(&mut r, ".mp4");
    r
}

/// The error when no usable ffmpeg was found.
pub open spec fn ffmpeg_missing_text() -> Seq<char> {
    "未找到 ffmpeg。请先安装 ffmpeg：\n  macOS: brew install ffmpeg\n  Ubuntu/Debian: sudo apt install ffmpeg\n  Windows: choco install ffmpeg\n也可通过设置 FFMPEG_PATH 环境变量指定自定义路径。"@
}

/// The `video-concat` tool's request.
pub struct VideoConcatInput {
    /// The `files` field, when it is an array.
    pub files: Option<Vec<FileArg>>,
    /// The `output` field, when it is a string.
    pub output: Option<String>,
    /// The `quality` field, when it is a string (default `medium`).
    pub quality: Option<String>,
    /// The output path used when `output` is missing or empty.
    pub default_output: String,
}

/// How the files are joined.
pub enum ConcatStrategy {
    /// Same container: the concat demuxer copies the streams; this is the
    /// list file's content.
    StreamCopy { list: String },
    /// Different containers: the concat filter re-encodes; these are
    /// ffmpeg's arguments.
    ReEncode { args: Vec<String> },
}

/// What the tool will run.
pub struct ConcatPlan {
    /// The input files, in order.
    pub files: Vec<String>,
    /// The output path.
    pub output: String,
    /// The x264 CRF used when re-encoding.
    pub crf: u32,
    pub strategy: ConcatStrategy,
}

/// The output path a request asks for.
pub open spec fn chosen_output(req: VideoConcatInput) -> Seq<char> {
    match req.output {
        Some(o) => if o@.len() > 0 {
            o@
        } else {
            req.default_output@
        },
        None => req.default_output@,
    }
}

/// The quality a request asks for.
pub open spec fn chosen_quality(q: Option<String>) -> Seq<char> {
    match q {
        Some(s) => s@,
        None => "medium"@,
    }
}

/// The plan for a request whose files are `files`.
pub open spec fn plan_matches(p: ConcatPlan, req: VideoConcatInput, files: Seq<Seq<char>>) -> bool {
    &&& texts(p.files@) == files
    &&& p.output@ == chosen_output(req)
    &&& p.crf == crf_of(chosen_quality(req.quality))
    &&& (same_container(files) <==> p.strategy is StreamCopy)
    &&& (p.strategy matches ConcatStrategy::StreamCopy { list } ==> list@ == concat_list(files))
    &&& (p.strategy matches ConcatStrategy::ReEncode { args } ==> texts(args@) == filter_args(
        files,
        chosen_output(req),
        p.crf,
    ))
}

/// The `video-concat` tool.
#[derive(Clone, Copy)]
pub struct VideoConcat;

impl Tool for VideoConcat {
    open spec fn spec_id(&self) -> Seq<char> {
        "video-concat"@
    }

    open spec fn spec_name(&self) -> Seq<char> {
        "视频拼接"@
    }

    open spec fn spec_description(&self) -> Seq<char> {
        "将多个视频文件拼接成一个视频文件。自动检测 ffmpeg 并选择最优策略：同格式流拷贝（无损、极快），不同格式 H.264 重编码。"@
    }

    open spec fn spec_category(&self) -> ToolCategory {
        ToolCategory::Media
    }

    open spec fn spec_cpu_intensive(&self) -> bool {
        true
    }

    fn id(&self) -> &'static str {
        "video-concat"
    }

    fn name(&self) -> &'static str {
        "视频拼接"
    }

    fn description(&self) -> &'static str {
        "将多个视频文件拼接成一个视频文件。自动检测 ffmpeg 并选择最优策略：同格式流拷贝（无损、极快），不同格式 H.264 重编码。"
    }

    fn category(&self) -> ToolCategory {
        ToolCategory::Media
    }

    fn is_cpu_intensive(&self) -> bool {
        true
    }
}

impl VideoConcat {
    /// Checks a request and decides how to join its files: the files must
    /// be valid (see [`parse_files`]) and ffmpeg must be available.
    pub fn plan(&self, req: VideoConcatInput, ffmpeg_available: bool) -> (r: Result<ConcatPlan, ToolError>)
        ensures
            files_error(files_view(req.files)) matches Some(m) ==> (r matches Err(e) && is_invalid_input(e, m)),
            files_error(files_view(req.files)) is None && !ffmpeg_available ==> (r matches Err(e) && e matches ToolError::ExecutionError(m) && m@ == ffmpeg_missing_text()),
            files_error(files_view(req.files)) is None && ffmpeg_available ==> (r matches Ok(p) && plan_matches(p, req, file_paths(req.files->Some_0@))),
    {
        let ghost req0 = req;
        let files = parse_files(req.files)?;
        let output = match req.output {
            Some(o) => if !o.as_str().is_empty() {
                o
            } else {
                req.default_output
            },
            None => req.default_output,
        };
        let quality = parse_quality(&req.quality);
        let crf = quality_crf(quality.as_str());
        if !ffmpeg_available {
            proof {
                reveal_strlit("未找到 ffmpeg。请先安装 ffmpeg：\n  macOS: brew install ffmpeg\n  Ubuntu/Debian: sudo apt install ffmpeg\n  Windows: choco install ffmpeg\n也可通过设置 FFMPEG_PATH 环境变量指定自定义路径。");
            }
            return Err(ToolError::ExecutionError(String::from_str("未找到 ffmpeg。请先安装 ffmpeg：\n  macOS: brew install ffmpeg\n  Ubuntu/Debian: sudo apt install ffmpeg\n  Windows: choco install ffmpeg\n也可通过设置 FFMPEG_PATH 环境变量指定自定义路径。")));
        }
        let strategy = if all_same_container(&files) {
            ConcatStrategy::StreamCopy { list: concat_list_content(&files) }
        } else {
            ConcatStrategy::ReEncode { args: concat_filter_args(&files, output.as_str(), crf) }
        };
        Ok(ConcatPlan { files, output, crf, strategy })
    }
}

/// The message of an answer to a cancelled request.
pub fn cancelled_message() -> (r: &'static str)
    ensures
        r@ == "用户取消了拼接操作"@,
{
    "用户取消了拼接操作"
}

/// One file, or none, is trivially of one container.
pub proof fn law_single_file_same_container(files: Seq<Seq<char>>)
    requires
        files.len() <= 1,
    ensures
        same_container(files),
{
}

/// Each input adds `-i` and its path before the 14 fixed arguments.
pub proof fn law_filter_args_len(files: Seq<Seq<char>>, output: Seq<char>, crf: u32)
    ensures
        filter_args(files, output, crf).len() == 2 * files.len() + 14,
        input_args(files).len() == 2 * files.len(),
    decreases files.len(),
{
    if files.len() > 0 {
        law_filter_args_len(files.drop_last(), output, crf);
    }
}

/// Files share one container exactly when any two of them have the same
/// container (lower-cased extension); one differing file anywhere in the
/// list is enough to rule stream copy out.
pub proof fn law_same_container_pairwise(files: Seq<Seq<char>>)
    ensures
        same_container(files) <==> forall|i: int, j: int|
            0 <= i < files.len() && 0 <= j < files.len() ==> #[trigger] container_of(files[i]) == #[trigger] container_of(files[j]),
{
    if same_container(files) && files.len() > 1 {
        assert forall|i: int, j: int| 0 <= i < files.len() && 0 <= j < files.len() implies #[trigger] container_of(files[i])
            == #[trigger] container_of(files[j]) by {
            if i >= 1 {
                assert(container_of(files[i]) == container_of(files[0]));
            }
            if j >= 1 {
                assert(container_of(files[j]) == container_of(files[0]));
            }
        }
    }
    if forall|i: int, j: int| 0 <= i < files.len() && 0 <= j < files.len() ==> #[trigger] container_of(files[i])
        == #[trigger] container_of(files[j]) {
        assert forall|i: int| 1 <= i < files.len() implies container_of(#[trigger] files[i]) == container_of(files[0]) by {
            assert(container_of(files[i]) == container_of(files[0]));
        }
    }
}

/// Adding a file keeps the files in one container exactly when they were
/// and the new file has the first file's container.
pub proof fn law_same_container_push(files: Seq<Seq<char>>, f: Seq<char>)
    requires
        files.len() >= 1,
    ensures
        same_container(files.push(f)) <==> (same_container(files) && container_of(f) == container_of(files[0])),
{
    let g = files.push(f);
    assert(g[0] == files[0]);
    assert(g[files.len() as int] == f);
    if same_container(g) {
        assert forall|i: int| 1 <= i < files.len() implies container_of(#[trigger] files[i]) == container_of(files[0]) by {
            assert(g[i] == files[i]);
        }
    }
    if same_container(files) && container_of(f) == container_of(files[0]) {
        assert forall|i: int| 1 <= i < g.len() implies container_of(#[trigger] g[i]) == container_of(g[0]) by {
            if i < files.len() {
                assert(g[i] == files[i]);
            }
        }
    }
}

} // verus!
