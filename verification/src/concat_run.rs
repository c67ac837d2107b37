//! Running a `video-concat` plan: the decisions between ffmpeg's steps.
//! The caller starts ffmpeg, reads its output, watches the cancel flag and
//! the clock, and hands each event here; what to do next, and what the run
//! and the request come to, is decided here.

use vstd::prelude::*;
use crate::error::ToolError;
use crate::ffmpeg_detector::{join_path, joined_path, opt_text};
use crate::text::{decimal_u64, nat_digits, push_str};
use crate::video_concat::{
    ProgressUpdate, default_output_name, default_output_name_text, line_progress, progress_from_line, texts,
};

verus! {

/// The name of the list file that a stream-copy run of process `pid` writes.
pub open spec fn list_file_name_text(pid: u32) -> Seq<char> {
    "trove_concat_"@ + nat_digits(pid as nat) + ".txt"@
}

/// The name of the list file that a stream-copy run of process `pid` writes.
pub fn list_file_name(pid: u32) -> (r: String)
    ensures
        r@ == list_file_name_text(pid),
{
    let mut r = String::from_str("trove_concat_");
    let d = decimal_u64(pid as u64);
    push_str(&mut r, d.as_str());
    push_str(&mut r, ".txt");
    r
}

/// The directory a default output goes to: the downloads directory, else
/// the home directory, else the current one.
pub open spec fn output_dir_text(download: Option<Seq<char>>, home: Option<Seq<char>>) -> Seq<char> {
    match download {
        Some(d) => d,
        None => match home {
            Some(h) => h,
            None => "."@,
        },
    }
}

/// The output path of a request without one, started at `secs` (Unix
/// time): `video_concat_<secs>.mp4` in the chosen directory.
pub fn default_output_path(download_dir: Option<String>, home_dir: Option<String>, secs: u64) -> (r: String)
    ensures
        r@ == joined_path(
            output_dir_text(opt_text(download_dir), opt_text(home_dir)),
            default_output_name_text(secs),
        ),
{
    let dir = match download_dir {
        Some(d) => d,
        None => match home_dir {
            Some(h) => h,
            None => String::from_str("."),
        },
    };
    let name = default_output_name(secs);
    join_path(dir.as_str(), name.as_str())
}

/// The step of a run that failed on the system's side.
pub enum RunStep {
    /// Writing the list file of a stream-copy run.
    WriteList,
    /// Running ffmpeg for a stream copy.
    RunCopy,
    /// Starting ffmpeg for a re-encode.
    StartEncode,
    /// Reading ffmpeg's progress output.
    ReadOutput,
    /// Waiting for ffmpeg to exit.
    Wait,
}

/// The start of the message of a failed step.
pub open spec fn step_prefix(step: RunStep) -> Seq<char> {
    match step {
        RunStep::WriteList => "无法创建临时文件列表: "@,
        RunStep::RunCopy => "ffmpeg 执行失败: "@,
        RunStep::StartEncode => "无法启动 ffmpeg: "@,
        RunStep::ReadOutput => "读取 ffmpeg 输出失败: "@,
        RunStep::Wait => "ffmpeg 进程异常: "@,
    }
}

/// The error for a step that failed, with the system's account of why.
pub fn step_failure(step: RunStep, detail: &str) -> (r: ToolError)
    ensures
        r matches ToolError::ExecutionError(m) && m@ == step_prefix(step) + detail@,
{
    let mut m = match step {
        RunStep::WriteList => String::from_str("无法创建临时文件列表: "),
        RunStep::RunCopy => String::from_str("ffmpeg 执行失败: "),
        RunStep::StartEncode => String::from_str("无法启动 ffmpeg: "),
        RunStep::ReadOutput => String::from_str("读取 ffmpeg 输出失败: "),
        RunStep::Wait => String::from_str("ffmpeg 进程异常: "),
    };
    push_str(&mut m, detail);
    ToolError::ExecutionError(m)
}

/// The message when ffmpeg exits with a failure.
pub open spec fn run_failed_text(reencode: bool) -> Seq<char> {
    if reencode {
        "ffmpeg 拼接失败（重编码模式），请检查输入文件是否有效。"@
    } else {
        "ffmpeg 拼接失败（流拷贝模式），请检查输入文件是否损坏或格式是否真的一致。"@
    }
}

/// The result of an ffmpeg run that exited: a cancelled run brings no error
/// of its own (the request is answered as cancelled);
/// otherwise ffmpeg's exit status decides.
pub fn run_result(reencode: bool, cancelled: bool, exit_success: bool) -> (r: Result<(), ToolError>)
    ensures
        r is Ok <==> (cancelled || exit_success),
        r matches Err(e) ==> (e matches ToolError::ExecutionError(m) && m@ == run_failed_text(reencode)),
{
    if cancelled || exit_success {
        Ok(())
    } else if reencode {
        Err(ToolError::ExecutionError(String::from_str("ffmpeg 拼接失败（重编码模式），请检查输入文件是否有效。")))
    } else {
        Err(ToolError::ExecutionError(String::from_str("ffmpeg 拼接失败（流拷贝模式），请检查输入文件是否损坏或格式是否真的一致。")))
    }
}

/// What happens while a re-encode runs.
pub enum EncodeEvent {
    /// ffmpeg wrote this line to its error output.
    Line(String),
    /// ffmpeg's error output ended.
    End,
    /// Reading ffmpeg's output failed, for this reason.
    ReadFailed(String),
    /// Half a second passed without a line.
    Tick,
}

/// What to do next while a re-encode runs.
pub enum EncodeAction {
    /// Pass this progress on, and keep reading.
    Report(ProgressUpdate),
    /// Keep reading.
    Continue,
    /// Stop reading and wait for ffmpeg to exit.
    AwaitExit,
    /// Give up with this error.
    Fail(ToolError),
    /// Kill ffmpeg: the request was cancelled.
    Stop,
}

/// The next step of a re-encode after `event`, given whether the request
/// has been cancelled by then: once cancelled, the run stops at the next
/// event, whatever it is; otherwise progress lines are reported, other
/// lines and ticks are passed over, the end of the output waits for ffmpeg
/// to exit, and a read failure ends the run with its error.
pub fn encode_step(event: EncodeEvent, cancelled: bool) -> (r: EncodeAction)
    ensures
        cancelled ==> r is Stop,
        !cancelled ==> (event matches EncodeEvent::Line(l) ==> match line_progress(l@) {
            Some(p) => r matches EncodeAction::Report(u) && u.frame == p.0 && u.time@ == p.1 && u.speed@ == p.2,
            None => r is Continue,
        }),
        !cancelled && event is End ==> r is AwaitExit,
        !cancelled ==> (event matches EncodeEvent::ReadFailed(d) ==> (r matches EncodeAction::Fail(e)
            && e matches ToolError::ExecutionError(m) && m@ == step_prefix(RunStep::ReadOutput) + d@)),
        !cancelled && event is Tick ==> r is Continue,
{
    if cancelled {
        return EncodeAction::Stop;
    }
    match event {
        EncodeEvent::Line(l) => match progress_from_line(l.as_str()) {
            Some(u) => EncodeAction::Report(u),
            None => EncodeAction::Continue,
        },
        EncodeEvent::End => EncodeAction::AwaitExit,
        EncodeEvent::ReadFailed(d) => EncodeAction::Fail(step_failure(RunStep::ReadOutput, d.as_str())),
        EncodeEvent::Tick => EncodeAction::Continue,
    }
}

/// Whether a finished re-encode reports full progress: when it was not
/// cancelled and ffmpeg exited successfully.
pub fn completion_due(cancelled: bool, exit_success: bool) -> (r: bool)
    ensures
        r == (!cancelled && exit_success),
{
    !cancelled && exit_success
}

/// How a request that ran ends, when it does not end in an error.
pub enum ConcatOutcome {
    /// The output was written.
    Done,
    /// The request was cancelled and its partial output is to be removed.
    Cancelled,
}

/// What a request comes to after its run: a cancelled request is reported
/// as cancelled (its partial output is to be removed), whatever the run
/// gave; otherwise a run that ended well is done, and a failure is the
/// answer.
pub fn concat_outcome(run: Result<(), ToolError>, cancelled: bool) -> (r: Result<ConcatOutcome, ToolError>)
    ensures
        cancelled ==> r matches Ok(ConcatOutcome::Cancelled),
        !cancelled && run is Ok ==> r matches Ok(ConcatOutcome::Done),
        !cancelled ==> (run matches Err(e) ==> (r matches Err(f) && f == e)),
{
    if cancelled {
        return Ok(ConcatOutcome::Cancelled);
    }
    match run {
        Ok(()) => Ok(ConcatOutcome::Done),
        Err(e) => Err(e),
    }
}

/// What the tool answers a request that ran without error.
pub enum ConcatReport {
    /// The output was written.
    Done {
        output_path: String,
        input_count: usize,
        output_size_bytes: u64,
        /// The size in MiB with two decimals (as `{:.2} MB`), written by the
        /// caller, which computes it in floating point.
        output_size_mb: String,
        /// `stream-copy` or `re-encode`.
        strategy: &'static str,
        ffmpeg_version: String,
        ffmpeg_path: String,
    },
    /// The request was cancelled.
    Cancelled,
}

/// The parent directory of a path (`Path::parent`), if it has one.
pub uninterp spec fn path_parent(p: Seq<char>) -> Option<Seq<char>>;

/// `Path::new(p).parent()` as text (the parent of a `&str` path is UTF-8).
#[verifier::external_body]
fn parent_of(p: &str) -> (r: Option<String>)
    ensures
        r matches Some(d) ==> path_parent(p@) == Some(d@),
        r is None <==> path_parent(p@) is None,
{
    std::path::Path::new(p).parent().map(|d| d.to_string_lossy().to_string())
}

/// The name of the ffprobe executable.
pub open spec fn ffprobe_name_text(windows: bool) -> Seq<char> {
    if windows {
        "ffprobe.exe"@
    } else {
        "ffprobe"@
    }
}

/// Where ffprobe is expected: beside ffmpeg.
pub fn ffprobe_path(ffmpeg_path: &str, windows: bool) -> (r: Option<String>)
    ensures
        match path_parent(ffmpeg_path@) {
            Some(d) => r matches Some(p) && p@ == joined_path(d, ffprobe_name_text(windows)),
            None => r is None,
        },
{
    match parent_of(ffmpeg_path) {
        Some(d) => {
            let name = if windows {
                "ffprobe.exe"
            } else {
                "ffprobe"
            };
            Some(join_path(d.as_str(), name))
        },
        None => None,
    }
}

/// ffprobe's arguments to print a media file's duration in seconds.
pub fn ffprobe_args(media: &str) -> (r: Vec<String>)
    ensures
        texts(r@) == seq!["-v"@, "error"@, "-show_entries"@, "format=duration"@, "-of"@, "csv=p=0"@, media@],
{
    let mut r: Vec<String> = Vec::new();
    r.push(String::from_str("-v"));
    r.push(String::from_str("error"));
    r.push(String::from_str("-show_entries"));
    r.push(String::from_str("format=duration"));
    r.push(String::from_str("-of"));
    r.push(String::from_str("csv=p=0"));
    r.push(media.to_string());
    assert(texts(r@) =~= seq!["-v"@, "error"@, "-show_entries"@, "format=duration"@, "-of"@, "csv=p=0"@, media@]);
    r
}

} // verus!
