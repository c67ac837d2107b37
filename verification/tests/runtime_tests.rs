use trove::base64_codec::Decoded;
use trove::builtin::{register_all, BuiltinTool};
use trove::category::ToolCategory;
use trove::concat_run::{
    completion_due, concat_outcome, default_output_path, encode_step, ffprobe_args, ffprobe_path, list_file_name, run_result,
    step_failure, ConcatOutcome, ConcatReport, EncodeAction, EncodeEvent, RunStep,
};
use trove::context::CancelToken;
use trove::error::ToolError;
use trove::hash_tool::HashOutput;
use trove::json_validator::JsonValidation;
use trove::registry::ToolRegistry;
use trove::report::{case_label_of, format_output, list_output, ToolOutput};
use trove::static_files::{find_static_dir, static_dir_candidate_list};
use trove::string_case::StringCaseOutput;
use trove::text_stats::{TextStatsOutput, WordCount};
use trove::timestamp::{DateToTsOutput, TsToDateOutput};
use trove::tool::ToolMetadata;
use trove::uuid_gen::UuidGenOutput;
use trove::ws_protocol::{ws_action, ws_result_reply, CancelTable, WsAction, WsReply, WsRequest};

#[test]
fn static_dir_is_first_with_index() {
    assert_eq!(static_dir_candidate_list(), vec!["gui/dist", "../gui/dist", "dist", "../Resources/dist"]);
    assert_eq!(find_static_dir(&vec![false, true, true, false]), Some("../gui/dist".to_string()));
    assert_eq!(find_static_dir(&vec![false, false, false, true]), Some("../Resources/dist".to_string()));
    assert_eq!(find_static_dir(&vec![false, false, false, false]), None);
    assert_eq!(find_static_dir(&vec![true]), Some("gui/dist".to_string()));
    assert_eq!(find_static_dir(&vec![]), None);
}

#[test]
fn run_names_and_paths() {
    assert_eq!(list_file_name(4242), "trove_concat_4242.txt");
    assert_eq!(
        default_output_path(Some("/home/u/Downloads".to_string()), Some("/home/u".to_string()), 17),
        "/home/u/Downloads/video_concat_17.mp4"
    );
    assert_eq!(default_output_path(None, Some("/home/u".to_string()), 5), "/home/u/video_concat_5.mp4");
    assert_eq!(default_output_path(None, None, 5), "./video_concat_5.mp4");
    assert_eq!(ffprobe_path("/usr/bin/ffmpeg", false), Some("/usr/bin/ffprobe".to_string()));
    assert_eq!(ffprobe_path("/usr/bin/ffmpeg", true), Some("/usr/bin/ffprobe.exe".to_string()));
    assert_eq!(ffprobe_path("ffmpeg", false), Some("ffprobe".to_string()));
    assert_eq!(ffprobe_path("/", false), None);
    assert_eq!(ffprobe_args("o.mp4"), vec!["-v", "error", "-show_entries", "format=duration", "-of", "csv=p=0", "o.mp4"]);
}

fn execution_message(e: ToolError) -> String {
    match e {
        ToolError::ExecutionError(m) => m,
        _ => panic!("expected ExecutionError"),
    }
}

#[test]
fn run_results() {
    assert!(run_result(false, false, true).is_ok());
    assert!(run_result(true, true, false).is_ok());
    assert_eq!(
        execution_message(run_result(false, false, false).unwrap_err()),
        "ffmpeg 拼接失败（流拷贝模式），请检查输入文件是否损坏或格式是否真的一致。"
    );
    assert_eq!(
        execution_message(run_result(true, false, false).unwrap_err()),
        "ffmpeg 拼接失败（重编码模式），请检查输入文件是否有效。"
    );
    assert_eq!(execution_message(step_failure(RunStep::WriteList, "disk full")), "无法创建临时文件列表: disk full");
    assert_eq!(execution_message(step_failure(RunStep::StartEncode, "no such file")), "无法启动 ffmpeg: no such file");
    assert_eq!(execution_message(step_failure(RunStep::Wait, "x")), "ffmpeg 进程异常: x");
}

#[test]
fn encode_steps() {
    match encode_step(EncodeEvent::Line("frame=12 fps=1 time=00:00:01.00 speed=2x".to_string()), false) {
        EncodeAction::Report(u) => {
            assert_eq!(u.frame, 12);
            assert_eq!(u.time, "00:00:01.00");
            assert_eq!(u.speed, "2x");
        }
        _ => panic!("expected a progress report"),
    }
    assert!(matches!(encode_step(EncodeEvent::Line("Stream #0".to_string()), false), EncodeAction::Continue));
    assert!(matches!(encode_step(EncodeEvent::End, false), EncodeAction::AwaitExit));
    assert!(matches!(encode_step(EncodeEvent::Tick, false), EncodeAction::Continue));
    // Once cancelled, any event stops the run.
    assert!(matches!(encode_step(EncodeEvent::Tick, true), EncodeAction::Stop));
    assert!(matches!(encode_step(EncodeEvent::Line("frame=1".to_string()), true), EncodeAction::Stop));
    assert!(matches!(encode_step(EncodeEvent::End, true), EncodeAction::Stop));
    assert!(matches!(encode_step(EncodeEvent::ReadFailed("x".to_string()), true), EncodeAction::Stop));
    assert!(completion_due(false, true));
    assert!(!completion_due(true, true));
    assert!(!completion_due(false, false));
    match encode_step(EncodeEvent::ReadFailed("broken pipe".to_string()), false) {
        EncodeAction::Fail(e) => assert_eq!(execution_message(e), "读取 ffmpeg 输出失败: broken pipe"),
        _ => panic!("expected a failure"),
    }
}

#[test]
fn outcomes_of_a_run() {
    assert!(matches!(concat_outcome(Ok(()), false), Ok(ConcatOutcome::Done)));
    assert!(matches!(concat_outcome(Ok(()), true), Ok(ConcatOutcome::Cancelled)));
    assert!(matches!(concat_outcome(run_result(false, true, true), true), Ok(ConcatOutcome::Cancelled)));
    assert!(matches!(concat_outcome(Err(ToolError::ExecutionError("x".to_string())), true), Ok(ConcatOutcome::Cancelled)));
    assert!(matches!(
        concat_outcome(Err(ToolError::ExecutionError("x".to_string())), false),
        Err(ToolError::ExecutionError(m)) if m == "x"
    ));
}

#[test]
fn ws_actions_and_replies() {
    let a: WsAction<u32, u32> = ws_action(Ok(WsRequest::Execute { id: "hash".to_string(), input: 7 }));
    assert!(matches!(a, WsAction::Run { id, input } if id == "hash" && input == 7));
    let a: WsAction<u32, u32> = ws_action(Ok(WsRequest::Cancel { id: "hash".to_string() }));
    assert!(matches!(a, WsAction::Cancel { id } if id == "hash"));
    let a: WsAction<u32, u32> = ws_action(Ok(WsRequest::Ping));
    assert!(matches!(a, WsAction::Send(WsReply::Pong)));
    let a: WsAction<u32, u32> = ws_action(Err("expected value".to_string()));
    match a {
        WsAction::Send(WsReply::Error { id, error, code }) => {
            assert_eq!(id, "parse");
            assert_eq!(error, "消息解析失败: expected value");
            assert_eq!(code, 400);
        }
        _ => panic!("expected a parse error reply"),
    }
    assert!(matches!(ws_result_reply("a".to_string(), Ok(5u32)), WsReply::Result { id, data } if id == "a" && data == 5));
    match ws_result_reply::<u32>("a".to_string(), Err(ToolError::NotFound("a".to_string()))) {
        WsReply::Error { id, error, code } => {
            assert_eq!(id, "a");
            assert_eq!(error, "工具 'a' 未找到");
            assert_eq!(code, 404);
        }
        _ => panic!("expected an error reply"),
    }
}

#[test]
fn cancel_table_behaves_as_a_map() {
    let mut table = CancelTable::new();
    assert!(table.get("a").is_none());
    let first = CancelToken::new();
    table.insert("a".to_string(), first.clone());
    let second = CancelToken::new();
    table.insert("b".to_string(), second.clone());
    table.get("a").unwrap().cancel();
    assert!(first.is_cancelled());
    assert!(!second.is_cancelled());
    let third = CancelToken::new();
    table.insert("a".to_string(), third.clone());
    table.get("a").unwrap().cancel();
    assert!(third.is_cancelled());
    table.remove("a");
    assert!(table.get("a").is_none());
    assert!(table.get("b").is_some());
    table.remove("zzz");
    assert!(table.get("b").is_some());
}

#[test]
fn report_of_simple_answers() {
    assert_eq!(format_output(&ToolOutput::JsonFormat("{}".to_string())), "\n  \x1b[1m\x1b[36m{}\x1b[0m\n\n");
    assert_eq!(
        format_output(&ToolOutput::Base64Encode("YQ==".to_string())),
        "\n  \x1b[1m🔐 Base64 编码结果\x1b[0m\n\n  \x1b[36mYQ==\x1b[0m\n"
    );
    assert_eq!(
        format_output(&ToolOutput::Base64Decode(Decoded::Hex("ff".to_string()))),
        "\n  \x1b[1m🔓 Base64 解码（十六进制）\x1b[0m\n\n  ff\n"
    );
    assert_eq!(
        format_output(&ToolOutput::UrlDecode("a b".to_string())),
        "\n  \x1b[1m🔗 URL 解码\x1b[0m\n\n  \x1b[36ma b\x1b[0m\n"
    );
    let v = JsonValidation::Valid { size: 2, depth: 1, value_type: "object" };
    assert_eq!(
        format_output(&ToolOutput::JsonValidate(v)),
        "\n  \x1b[32m✔  JSON 校验通过\x1b[0m\n\n  \x1b[2m▪ 类型 \x1b[0m object\n  \x1b[2m▪ 深度 \x1b[0m 1\n  \x1b[2m▪ 大小 \x1b[0m 2 bytes\n"
    );
    let v = JsonValidation::Invalid { error: "bad".to_string(), line: 1, column: 2 };
    assert_eq!(
        format_output(&ToolOutput::JsonValidate(v)),
        "\n  \x1b[31m✘  JSON 校验失败\x1b[0m\n\n  \x1b[31m错误:\x1b[0m bad\n  \x1b[2m▪ 行 \x1b[0m 1\n  \x1b[2m▪ 列 \x1b[0m 2\n"
    );
}

#[test]
fn report_of_dates_and_hashes() {
    let out = TsToDateOutput {
        result: "1969-12-31 23:59:59".to_string(),
        iso_8601: "1969-12-31T23:59:59+00:00".to_string(),
        timestamp_secs: -1,
        timestamp_ms: -1,
    };
    assert_eq!(
        format_output(&ToolOutput::TsToDate(out)),
        "\n  \x1b[1m📅 时间戳 → 日期\x1b[0m\n\n  \x1b[32m日期时间:\x1b[0m 1969-12-31 23:59:59\n  \x1b[2m▪ ISO 8601 \x1b[0m 1969-12-31T23:59:59+00:00\n  \x1b[2m▪ 秒级时间戳 \x1b[0m 0\n"
    );
    let out = DateToTsOutput { timestamp_secs: 86400, timestamp_ms: 86400000 };
    assert_eq!(
        format_output(&ToolOutput::DateToTs(out)),
        "\n  \x1b[1m📅 日期 → 时间戳\x1b[0m\n\n  \x1b[2m▪ 秒级时间戳 \x1b[0m 86400\n  \x1b[2m▪ 毫秒时间戳 \x1b[0m 86400000\n"
    );
    let out = HashOutput { result: "ab".to_string(), algorithm: "BLAKE3".to_string(), input_length: 3 };
    assert_eq!(
        format_output(&ToolOutput::Hash(out)),
        "\n  \x1b[1m🔑 BLAKE3 哈希值\x1b[0m\n\n  \x1b[36mab\x1b[0m\n  \x1b[2m▪ 输入长度 \x1b[0m 3 字符\n"
    );
}

#[test]
fn report_of_lists() {
    let out = UuidGenOutput { result: "a\nb".to_string(), uuids: vec!["a".to_string(), "b".to_string()], count: 2 };
    assert_eq!(
        format_output(&ToolOutput::UuidGen(out)),
        "\n  \x1b[1m🆔 已生成 2 个 UUID\x1b[0m\n\n  \x1b[2m1.\x1b[0m a\n  \x1b[2m2.\x1b[0m b\n"
    );
    let out = TextStatsOutput {
        char_count: 5,
        char_count_no_space: 4,
        word_count: 2,
        line_count: 1,
        byte_count: 5,
        letter_count: 4,
        digit_count: 0,
        space_count: 1,
        punctuation_count: 0,
        cjk_char_count: 0,
        word_frequency: Some(vec![WordCount { word: "ab".to_string(), count: 2 }]),
    };
    assert_eq!(
        format_output(&ToolOutput::TextStats(out)),
        "\n  \x1b[1m📊 文本统计\x1b[0m\n\n  \x1b[2m▪ 字符数 \x1b[0m 5\n  \x1b[2m▪ 单词数 \x1b[0m 2\n  \x1b[2m▪ 行数 \x1b[0m 1\n  \x1b[2m▪ 字节数 \x1b[0m 5\n  \x1b[2m▪ CJK 字符 \x1b[0m 0\n\n  \x1b[2m词频:\x1b[0m\n    ab           ▇▇ 2\n"
    );
}

#[test]
fn report_of_case_conversion() {
    assert_eq!(case_label_of("snake_case"), "蛇形命名 snake_case");
    assert_eq!(case_label_of("other"), "other");
    let out = StringCaseOutput { result: "A".to_string(), original: "a".to_string(), to_case: "uppercase".to_string() };
    assert_eq!(
        format_output(&ToolOutput::StringCase(out)),
        "\n  \x1b[1m🔤 字符串格式转换 → \x1b[36m全大写\x1b[0m\n\n  \x1b[2m原文本:\x1b[0m a\n  \x1b[36m转换后:\x1b[0m A\n"
    );
}

#[test]
fn report_of_video_runs() {
    let done = ConcatReport::Done {
        output_path: "o.mp4".to_string(),
        input_count: 2,
        output_size_bytes: 2097152,
        output_size_mb: "2.00 MB".to_string(),
        strategy: "stream-copy",
        ffmpeg_version: "ffmpeg version 7".to_string(),
        ffmpeg_path: "/usr/bin/ffmpeg".to_string(),
    };
    assert_eq!(
        format_output(&ToolOutput::VideoConcat(done)),
        "\n  \x1b[1m🎬 视频拼接完成\x1b[0m\n\n  \x1b[32m输出文件:\x1b[0m o.mp4\n  \x1b[2m▪ 输入文件数 \x1b[0m 2\n  \x1b[2m▪ 拼接策略 \x1b[0m stream-copy\n  \x1b[2m▪ 输出大小 \x1b[0m 2.00 MB\n  \x1b[2m▪ ffmpeg 版本 \x1b[0m ffmpeg version 7\n  \x1b[2m▪ ffmpeg 路径 \x1b[0m /usr/bin/ffmpeg\n"
    );
    let small = ConcatReport::Done {
        output_path: "o.mp4".to_string(),
        input_count: 1,
        output_size_bytes: 1048576,
        output_size_mb: "1.00 MB".to_string(),
        strategy: "re-encode",
        ffmpeg_version: String::new(),
        ffmpeg_path: String::new(),
    };
    assert!(format_output(&ToolOutput::VideoConcat(small)).contains("\x1b[2m▪ 输出大小 \x1b[0m 1048576 bytes\n"));
    assert_eq!(
        format_output(&ToolOutput::VideoConcat(ConcatReport::Cancelled)),
        "\n  \x1b[33m⏹  视频拼接已取消\x1b[0m\n\n  \x1b[2m▪ 信息 \x1b[0m 用户取消了拼接操作\n"
    );
}

#[test]
fn list_command_output() {
    assert_eq!(list_output(&vec![]), "暂无可用工具\n");
    let mut registry: ToolRegistry<BuiltinTool> = ToolRegistry::new();
    register_all(&mut registry);
    let text = list_output(&registry.list_metadata());
    assert!(text.starts_with("\n  \x1b[1m🛠  可用工具 (13)\x1b[0m\n\n  \x1b[33m[JSON]\x1b[0m\n    \x1b[36mjson-format           \x1b[0m JSON 格式化\n"));
    assert_eq!(text.matches("\x1b[33m[").count(), 7);
    assert!(text.contains("  \x1b[33m[媒体]\x1b[0m\n    \x1b[36mvideo-concat          \x1b[0m 视频拼接\n"));
    assert!(text.ends_with("uuid-gen              \x1b[0m UUID 生成\n\n"));
    let m = ToolMetadata {
        id: "a-very-long-tool-identifier",
        name: "n",
        description: "d",
        category: ToolCategory::Color,
        is_cpu_intensive: false,
    };
    assert_eq!(
        list_output(&vec![m]),
        "\n  \x1b[1m🛠  可用工具 (1)\x1b[0m\n\n  \x1b[33m[颜色]\x1b[0m\n    \x1b[36ma-very-long-tool-identifier\x1b[0m n\n\n"
    );
}
