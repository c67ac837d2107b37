use trove::error::ToolError;
use trove::ffmpeg_detector::{detect_ffmpeg, exe_name, ffmpeg_candidates, first_existing, version_line};
use trove::timestamp::{
    date_to_timestamp, decimal_of, parse_i64, try_timestamp_to_date, DateToTimestamp, DateToTsInput,
    TimestampToDate, TsToDateInput,
};
use trove::uuid_gen::{UuidGen, UuidGenInput};
use trove::video_concat::{
    all_same_container, cancelled_message, concat_demuxer_args, concat_filter_args, concat_filter_graph,
    concat_list_content, default_output_name, extract_string, extract_u64, parse_files, parse_quality,
    progress_from_line, quality_crf, ConcatStrategy, FileArg, VideoConcat, VideoConcatInput,
};

fn ts_text(t: &str) -> TsToDateInput {
    TsToDateInput { timestamp_text: Some(t.to_string()), timestamp_int: None, format: None }
}

fn invalid<T>(r: Result<T, ToolError>) -> String {
    match r {
        Err(ToolError::InvalidInput(m)) => m,
        _ => panic!("expected InvalidInput"),
    }
}

#[test]
fn parse_i64_like_str_parse() {
    assert_eq!(parse_i64("0"), Some(0));
    assert_eq!(parse_i64("+5"), Some(5));
    assert_eq!(parse_i64("-0"), Some(0));
    assert_eq!(parse_i64("-42"), Some(-42));
    assert_eq!(parse_i64("9223372036854775807"), Some(i64::MAX));
    assert_eq!(parse_i64("-9223372036854775808"), Some(i64::MIN));
    assert_eq!(parse_i64("9223372036854775808"), None);
    assert_eq!(parse_i64(""), None);
    assert_eq!(parse_i64("-"), None);
    assert_eq!(parse_i64("12a"), None);
    assert_eq!(parse_i64(" 1"), None);
    assert_eq!(parse_i64("007"), Some(7));
}

#[test]
fn decimal_of_round_trips() {
    for n in [0i64, 7, -7, 1700000000000, i64::MAX, i64::MIN] {
        assert_eq!(decimal_of(n), n.to_string());
        assert_eq!(parse_i64(&decimal_of(n)), Some(n));
    }
}

#[test]
fn seconds_to_date() {
    let out = try_timestamp_to_date(&ts_text("0")).unwrap().unwrap();
    assert_eq!(out.result, "1970-01-01 00:00:00");
    assert_eq!(out.iso_8601, "1970-01-01T00:00:00+00:00");
    assert_eq!(out.timestamp_secs, 0);
    assert_eq!(out.timestamp_ms, 0);
    let out = try_timestamp_to_date(&ts_text("-1")).unwrap().unwrap();
    assert_eq!(out.result, "1969-12-31 23:59:59");
    let out = try_timestamp_to_date(&ts_text("1000000000000")).unwrap().unwrap();
    assert_eq!(out.timestamp_secs, 1000000000000);
}

#[test]
fn milliseconds_to_date() {
    let req = TsToDateInput { timestamp_text: None, timestamp_int: Some(1700000000000), format: None };
    let out = TimestampToDate.execute(req).unwrap().unwrap();
    assert_eq!(out.result, "2023-11-14 22:13:20");
    assert_eq!(out.timestamp_secs, 1700000000);
    assert_eq!(out.timestamp_ms, 1700000000000);
    let out = try_timestamp_to_date(&ts_text("1700000000123")).unwrap().unwrap();
    assert_eq!(out.iso_8601, "2023-11-14T22:13:20.123+00:00");
    assert_eq!(out.timestamp_secs, 1700000000);
}

#[test]
fn custom_format() {
    let req = TsToDateInput { timestamp_text: Some("86400".to_string()), timestamp_int: None, format: Some("%Y/%m/%d".to_string()) };
    assert_eq!(try_timestamp_to_date(&req).unwrap().unwrap().result, "1970/01/02");
}

#[test]
fn timestamp_errors() {
    assert_eq!(invalid(try_timestamp_to_date(&ts_text("abc")).unwrap()), "无效的时间戳: abc");
    let none = TsToDateInput { timestamp_text: None, timestamp_int: None, format: None };
    assert_eq!(invalid(try_timestamp_to_date(&none).unwrap()), "无效的时间戳: ");
    assert_eq!(invalid(try_timestamp_to_date(&ts_text("9223372036854775807")).unwrap()), "时间戳超出范围");
}

#[test]
fn dates_to_timestamps() {
    let out = date_to_timestamp("2024-01-01").unwrap();
    assert_eq!((out.timestamp_secs, out.timestamp_ms), (1704067200, 1704067200000));
    let out = date_to_timestamp("2024-01-01T00:00:00Z").unwrap();
    assert_eq!(out.timestamp_secs, 1704067200);
    let out = date_to_timestamp("2024-01-01 08:00:00").unwrap();
    assert_eq!(out.timestamp_secs, 1704096000);
    let out = date_to_timestamp("2024-01-01T08:00:00").unwrap();
    assert_eq!(out.timestamp_secs, 1704096000);
    let out = date_to_timestamp("2024-01-01T00:00:00+08:00").unwrap();
    assert_eq!(out.timestamp_secs, 1704038400);
    let out = date_to_timestamp("2024-01-01T00:00:00.250Z").unwrap();
    assert_eq!(out.timestamp_ms, 1704067200250);
    assert_eq!(invalid(date_to_timestamp("nope")), "无法解析日期: nope");
    assert_eq!(invalid(DateToTimestamp.execute(DateToTsInput { date: None })), "缺少 date 字段");
    let out = DateToTimestamp.execute(DateToTsInput { date: Some("1970-01-02".to_string()) }).unwrap();
    assert_eq!(out.timestamp_secs, 86400);
}

#[test]
fn date_and_timestamp_agree() {
    let out = date_to_timestamp("2023-11-14 22:13:20").unwrap();
    let back = try_timestamp_to_date(&TsToDateInput {
        timestamp_text: None,
        timestamp_int: Some(out.timestamp_secs),
        format: None,
    })
    .unwrap()
    .unwrap();
    assert_eq!(back.result, "2023-11-14 22:13:20");
}

fn is_v4(s: &str, upper: bool) -> bool {
    let b = s.as_bytes();
    s.len() == 36
        && [8, 13, 18, 23].iter().all(|&i| b[i] == b'-')
        && b[14] == b'4'
        && b.iter().enumerate().all(|(i, c)| {
            [8, 13, 18, 23].contains(&i)
                || c.is_ascii_digit()
                || (if upper { (b'A'..=b'F').contains(c) } else { (b'a'..=b'f').contains(c) })
        })
}

#[test]
fn uuid_counts_and_case() {
    let out = UuidGen.execute(UuidGenInput { count: None, uppercase: None });
    assert_eq!(out.count, 1);
    assert_eq!(out.uuids.len(), 1);
    assert_eq!(out.result, out.uuids[0]);
    assert!(is_v4(&out.result, false));
    let out = UuidGen.execute(UuidGenInput { count: Some(3), uppercase: Some(true) });
    assert_eq!(out.count, 3);
    assert_eq!(out.result, out.uuids.join("\n"));
    assert!(out.uuids.iter().all(|u| is_v4(u, true)));
    assert_eq!(UuidGen.execute(UuidGenInput { count: Some(0), uppercase: None }).count, 1);
    assert_eq!(UuidGen.execute(UuidGenInput { count: Some(-9), uppercase: None }).count, 1);
    assert_eq!(UuidGen.execute(UuidGenInput { count: Some(1000), uppercase: None }).uuids.len(), 100);
}

#[test]
fn container_checks() {
    let v = |xs: &[&str]| xs.iter().map(|s| s.to_string()).collect::<Vec<String>>();
    assert!(all_same_container(&v(&[])));
    assert!(all_same_container(&v(&["a.mkv"])));
    assert!(all_same_container(&v(&["a.MP4", "dir/b.mp4"])));
    assert!(!all_same_container(&v(&["a.mp4", "b.mkv"])));
    assert!(all_same_container(&v(&["a", "b"])));
    assert!(!all_same_container(&v(&["x/.mp4", "y.mp4"])));
}

#[test]
fn quality_and_crf() {
    assert_eq!(parse_quality(&None), "medium");
    assert_eq!(parse_quality(&Some("high".to_string())), "high");
    assert_eq!(quality_crf("low"), 28);
    assert_eq!(quality_crf("medium"), 23);
    assert_eq!(quality_crf("high"), 18);
    assert_eq!(quality_crf("ultra"), 23);
}

fn file(p: &str, exists: bool) -> FileArg {
    FileArg { path: Some(p.to_string()), exists }
}

#[test]
fn file_list_errors() {
    assert_eq!(invalid(parse_files(None)), "缺少 files 字段，请提供视频文件路径列表");
    assert_eq!(invalid(parse_files(Some(vec![]))), "files 列表不能为空");
    let many: Vec<FileArg> = (0..201).map(|i| file(&format!("{}.mp4", i), true)).collect();
    assert_eq!(invalid(parse_files(Some(many))), "文件数量过多（201个），建议不超过 200 个");
    let mixed = vec![file("a.mp4", true), FileArg { path: None, exists: false }];
    assert_eq!(invalid(parse_files(Some(mixed))), "files 列表中的项目必须是字符串（文件路径）");
    let gone = vec![file("a.mp4", true), file("b.mp4", false)];
    assert_eq!(invalid(parse_files(Some(gone))), "文件不存在: b.mp4");
    let ok = vec![file("a.mp4", true), file("b.mp4", true)];
    assert_eq!(parse_files(Some(ok)).unwrap(), vec!["a.mp4".to_string(), "b.mp4".to_string()]);
    let two_hundred: Vec<FileArg> = (0..200).map(|i| file(&format!("{}.mp4", i), true)).collect();
    assert_eq!(parse_files(Some(two_hundred)).unwrap().len(), 200);
}

#[test]
fn ffmpeg_arguments() {
    let files = vec!["a.mp4".to_string(), "it's.mp4".to_string()];
    assert_eq!(concat_list_content(&files), "file 'a.mp4'\nfile 'it'\\''s.mp4'\n");
    assert_eq!(
        concat_demuxer_args("/tmp/l.txt", "out.mp4"),
        vec!["-f", "concat", "-safe", "0", "-i", "/tmp/l.txt", "-c", "copy", "-y", "out.mp4"]
    );
    assert_eq!(concat_filter_graph(2), "[0:v][0:a][1:v][1:a]concat=n=2:v=1:a=1");
    assert_eq!(concat_filter_graph(0), "concat=n=0:v=1:a=1");
    let files = vec!["a.mp4".to_string(), "b.mkv".to_string()];
    assert_eq!(
        concat_filter_args(&files, "o.mp4", 23),
        vec![
            "-i", "a.mp4", "-i", "b.mkv", "-filter_complex", "[0:v][0:a][1:v][1:a]concat=n=2:v=1:a=1", "-c:v",
            "libx264", "-crf", "23", "-preset", "medium", "-c:a", "aac", "-b:a", "192k", "-y", "o.mp4",
        ]
    );
}

#[test]
fn progress_lines() {
    let p = progress_from_line("frame=123 fps=30 time=00:00:04.10 speed=1.5x").unwrap();
    assert_eq!(p.frame, 123);
    assert_eq!(p.time, "00:00:04.10");
    assert_eq!(p.speed, "1.5x");
    let p = progress_from_line("frame=  123 fps=30").unwrap();
    assert_eq!(p.frame, 123);
    assert_eq!(p.time, "");
    let p = progress_from_line("frame=  123 fps=30 time=00:00:04.10 speed=1.5x").unwrap();
    assert_eq!((p.frame, p.time.as_str(), p.speed.as_str()), (123, "00:00:04.10", "1.5x"));
    assert_eq!(extract_u64("frame=   ", "frame="), 0);
    assert_eq!(extract_u64("frame= x1", "frame="), 0);
    assert!(progress_from_line("size=   1kB time=00:00:01.00").is_none());
    assert!(progress_from_line("fram").is_none());
    assert_eq!(extract_u64("x frame=99999999999999999999 y", "frame="), 0);
    assert_eq!(extract_u64("n=42k", "n="), 42);
    assert_eq!(extract_u64("none", "n="), 0);
    assert_eq!(extract_string("a time=  00:01 b", "time="), "00:01");
    assert_eq!(extract_string("a time=", "time="), "");
    assert_eq!(extract_string("nothing", "time="), "");
}

#[test]
fn output_names_and_messages() {
    assert_eq!(default_output_name(1700000000), "video_concat_1700000000.mp4");
    assert_eq!(default_output_name(0), "video_concat_0.mp4");
    assert_eq!(cancelled_message(), "用户取消了拼接操作");
}

fn concat_request(files: Vec<FileArg>, output: Option<&str>, quality: Option<&str>) -> VideoConcatInput {
    VideoConcatInput {
        files: Some(files),
        output: output.map(|s| s.to_string()),
        quality: quality.map(|s| s.to_string()),
        default_output: "/home/u/Downloads/video_concat_1.mp4".to_string(),
    }
}

#[test]
fn concat_plans() {
    let plan = VideoConcat
        .plan(concat_request(vec![file("a.mp4", true), file("b.MP4", true)], Some("o.mp4"), None), true)
        .unwrap();
    assert_eq!(plan.output, "o.mp4");
    assert_eq!(plan.crf, 23);
    match plan.strategy {
        ConcatStrategy::StreamCopy { list } => assert_eq!(list, "file 'a.mp4'\nfile 'b.MP4'\n"),
        _ => panic!("expected stream copy"),
    }
    let plan = VideoConcat
        .plan(concat_request(vec![file("a.mp4", true), file("b.mkv", true)], Some(""), Some("low")), true)
        .unwrap();
    assert_eq!(plan.output, "/home/u/Downloads/video_concat_1.mp4");
    assert_eq!(plan.crf, 28);
    match plan.strategy {
        ConcatStrategy::ReEncode { args } => {
            assert_eq!(args[5], "[0:v][0:a][1:v][1:a]concat=n=2:v=1:a=1");
            assert_eq!(args[9], "28");
            assert_eq!(args.last().unwrap(), "/home/u/Downloads/video_concat_1.mp4");
        }
        _ => panic!("expected re-encoding"),
    }
}

#[test]
fn concat_plan_errors() {
    match VideoConcat.plan(concat_request(vec![file("a.mp4", true)], None, None), false) {
        Err(ToolError::ExecutionError(m)) => assert!(m.starts_with("未找到 ffmpeg。请先安装 ffmpeg：\n")),
        _ => panic!("expected a missing ffmpeg error"),
    }
    let req = concat_request(vec![file("a.mp4", false)], None, None);
    assert_eq!(invalid(VideoConcat.plan(req, false)), "文件不存在: a.mp4");
}

#[test]
fn ffmpeg_search_order() {
    assert_eq!(exe_name(false), "ffmpeg");
    assert_eq!(exe_name(true), "ffmpeg.exe");
    let dirs = vec!["/usr/bin".to_string(), "/bin".to_string()];
    assert_eq!(
        ffmpeg_candidates(Some("/opt/ff".to_string()), &dirs, false),
        vec!["/opt/ff", "/opt/ff/ffmpeg", "/usr/bin/ffmpeg", "/bin/ffmpeg"]
    );
    let c = ffmpeg_candidates(None, &vec![], true);
    assert_eq!(c, vec!["C:\\ffmpeg\\bin\\ffmpeg.exe", "C:\\Program Files\\ffmpeg\\bin\\ffmpeg.exe"]);
    let cands = vec!["a".to_string(), "b".to_string(), "c".to_string()];
    assert_eq!(first_existing(cands.clone(), &vec![false, true, true]), Some("b".to_string()));
    assert_eq!(first_existing(cands, &vec![false, false, false]), None);
}

#[test]
fn ffmpeg_version_and_detection() {
    assert_eq!(version_line("ffmpeg version 6.1.1 Copyright\nbuilt with gcc\n").unwrap(), "ffmpeg version 6.1.1 Copyright");
    assert_eq!(version_line("v7\r\nrest").unwrap(), "v7");
    assert_eq!(version_line("v7\r").unwrap(), "v7\r");
    assert_eq!(version_line("\n").unwrap(), "");
    assert!(version_line("").is_none());
    let info = detect_ffmpeg(Some("/usr/bin/ffmpeg".to_string()), Some("ffmpeg version 7\n".to_string()));
    assert!(info.available);
    assert_eq!(info.path, "/usr/bin/ffmpeg");
    assert_eq!(info.version, "ffmpeg version 7");
    let info = detect_ffmpeg(Some("/usr/bin/ffmpeg".to_string()), None);
    assert!(!info.available);
    assert_eq!(info.path, "/usr/bin/ffmpeg");
    assert_eq!(info.version, "");
    let info = detect_ffmpeg(None, None);
    assert!(!info.available);
    assert_eq!(info.path, "");
}
