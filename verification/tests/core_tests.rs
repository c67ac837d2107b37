use std::sync::Arc;

use trove::builtin::{register_all, BuiltinTool};
use trove::category::ToolCategory;
use trove::config::AppConfig;
use trove::context::CancelToken;
use trove::engine::{settle, time_limit, ExecuteEngine, RunOutcome, DEFAULT_MAX_INPUT_SIZE};
use trove::error::{ErrorResponse, ToolError};
use trove::hash_tool::HashTool;
use trove::registry::{ToolListResponse, ToolRegistry};
use trove::tool::Tool;
use trove::url_codec::UrlEncode;

fn builtin_registry() -> ToolRegistry<BuiltinTool> {
    let mut registry = ToolRegistry::new();
    register_all(&mut registry);
    registry
}

#[test]
fn category_labels_and_orders() {
    assert_eq!(ToolCategory::Json.label(), "JSON");
    assert_eq!(ToolCategory::Crypto.label(), "加密/编码");
    assert_eq!(ToolCategory::Productivity.label(), "生产力");
    assert_eq!(ToolCategory::Json.order(), 1);
    assert_eq!(ToolCategory::Media.order(), 8);
    assert_eq!(ToolCategory::Productivity.order(), 10);
    let all = [
        ToolCategory::Json,
        ToolCategory::Text,
        ToolCategory::Crypto,
        ToolCategory::DateTime,
        ToolCategory::Network,
        ToolCategory::Color,
        ToolCategory::Image,
        ToolCategory::Media,
        ToolCategory::Utility,
        ToolCategory::Productivity,
    ];
    for (i, a) in all.iter().enumerate() {
        for (j, b) in all.iter().enumerate() {
            assert_eq!(a.order() == b.order(), i == j);
        }
    }
}

#[test]
fn status_codes_of_each_error() {
    assert_eq!(ToolError::NotFound("x".to_string()).status_code(), 404);
    assert_eq!(ToolError::InvalidInput("x".to_string()).status_code(), 400);
    assert_eq!(ToolError::Timeout(3).status_code(), 408);
    assert_eq!(ToolError::InputTooLarge(5, 4).status_code(), 413);
    assert_eq!(ToolError::ExecutionError("x".to_string()).status_code(), 500);
    assert_eq!(ToolError::InternalError("x".to_string()).status_code(), 500);
    let json_err = serde_json::from_str::<serde_json::Value>("{").unwrap_err();
    assert_eq!(ToolError::JsonError(json_err).status_code(), 400);
}

#[test]
fn error_response_carries_code_and_message() {
    let err = ToolError::Timeout(30);
    let r = ErrorResponse::for_error(&err);
    assert_eq!(r.code, 408);
    assert_eq!(r.error, "工具执行超时 (限制: 30s)");
    let r = ErrorResponse::for_error(&ToolError::NotFound("x".to_string()));
    assert_eq!((r.code, r.error.as_str()), (404, "工具 'x' 未找到"));
}

#[test]
fn error_messages() {
    assert_eq!(ToolError::InvalidInput("bad".to_string()).message(), "输入参数错误: bad");
    assert_eq!(ToolError::InputTooLarge(11, 10).message(), "输入大小 (11 bytes) 超过限制 (10 bytes)");
    assert_eq!(ToolError::ExecutionError("e".to_string()).message(), "执行错误: e");
    assert_eq!(ToolError::InternalError("i".to_string()).message(), "内部错误: i");
    let json_err = serde_json::from_str::<serde_json::Value>("{").unwrap_err();
    let text = json_err.to_string();
    assert_eq!(ToolError::JsonError(json_err).message(), format!("JSON 错误: {}", text));
}

#[test]
fn registry_holds_the_builtin_tools() {
    let registry = builtin_registry();
    assert_eq!(registry.len(), 13);
    assert!(!registry.is_empty());
    assert_eq!(registry.get("hash").unwrap().id(), "hash");
    assert_eq!(registry.get("url-decode").unwrap().name(), "URL 解码");
    assert_eq!(registry.get("video-concat").unwrap().id(), "video-concat");
    match registry.get("nope") {
        Err(ToolError::NotFound(id)) => assert_eq!(id, "nope"),
        _ => panic!("expected NotFound"),
    }
}

#[test]
fn empty_registry() {
    let registry: ToolRegistry<BuiltinTool> = ToolRegistry::new();
    assert!(registry.is_empty());
    assert_eq!(registry.len(), 0);
    assert!(registry.list_metadata().is_empty());
}

#[test]
fn listing_is_by_category_then_id() {
    let registry = builtin_registry();
    let ids: Vec<&str> = registry.list_metadata().iter().map(|m| m.id).collect();
    assert_eq!(
        ids,
        vec![
            "json-format",
            "json-validate",
            "string-case",
            "text-stats",
            "base64-decode",
            "base64-encode",
            "hash",
            "date-to-ts",
            "ts-to-date",
            "url-decode",
            "url-encode",
            "video-concat",
            "uuid-gen",
        ]
    );
    let response = ToolListResponse::from_registry(&registry);
    assert_eq!(response.total, 13);
    assert_eq!(response.tools.len(), 13);
    assert!(response.tools[6].is_cpu_intensive);
    assert_eq!(response.tools[6].category, ToolCategory::Crypto);
}

#[test]
fn first_registration_of_an_id_wins() {
    let mut registry: ToolRegistry<BuiltinTool> = ToolRegistry::new();
    registry
        .register(BuiltinTool::HashTool(HashTool))
        .register(BuiltinTool::UrlEncode(UrlEncode))
        .register(BuiltinTool::HashTool(HashTool));
    assert_eq!(registry.len(), 3);
    assert!(matches!(registry.get("hash"), Ok(BuiltinTool::HashTool(_))));
    assert!(matches!(registry.get("url-encode"), Ok(BuiltinTool::UrlEncode(_))));
    let listed: Vec<&str> = registry.list_metadata().iter().map(|m| m.id).collect();
    assert_eq!(listed, vec!["hash", "hash", "url-encode"]);
}

#[test]
fn register_all_in_one_call() {
    let mut registry: ToolRegistry<BuiltinTool> = ToolRegistry::new();
    registry.register_all(vec![BuiltinTool::UrlEncode(UrlEncode), BuiltinTool::HashTool(HashTool)]);
    assert_eq!(registry.len(), 2);
    assert_eq!(registry.list_metadata()[0].id, "hash");
}

#[test]
fn engine_checks_tool_then_size() {
    let engine = ExecuteEngine::new(Arc::new(builtin_registry()));
    assert_eq!(DEFAULT_MAX_INPUT_SIZE, 10 * 1024 * 1024);
    assert!(matches!(engine.accept("missing", 0), Err(ToolError::NotFound(_))));
    assert!(matches!(engine.accept("missing", usize::MAX), Err(ToolError::NotFound(_))));
    assert!(engine.accept("hash", DEFAULT_MAX_INPUT_SIZE).is_ok());
    match engine.accept("hash", DEFAULT_MAX_INPUT_SIZE + 1) {
        Err(ToolError::InputTooLarge(size, max)) => {
            assert_eq!(size, DEFAULT_MAX_INPUT_SIZE + 1);
            assert_eq!(max, DEFAULT_MAX_INPUT_SIZE);
        },
        _ => panic!("expected InputTooLarge"),
    }
    let small = engine.with_max_input_size(10);
    assert!(matches!(small.accept("hash", 11), Err(ToolError::InputTooLarge(11, 10))));
    assert!(small.accept("hash", 10).is_ok());
    assert_eq!(small.registry().len(), 13);
}

#[test]
fn run_outcomes_become_results() {
    assert_eq!(time_limit(0), None);
    assert_eq!(time_limit(30), Some(30));
    let ok: Result<u32, ToolError> = settle(RunOutcome::Finished(Ok(7)), 30);
    assert_eq!(ok.unwrap(), 7);
    match settle::<u32>(RunOutcome::Panicked("boom".to_string()), 30) {
        Err(ToolError::InternalError(m)) => assert_eq!(m, "任务 panicked: boom"),
        _ => panic!("expected InternalError"),
    }
    assert!(matches!(settle::<u32>(RunOutcome::TimedOut, 30), Err(ToolError::Timeout(30))));
}

#[test]
fn cancel_token_is_shared_by_clones() {
    let token = CancelToken::new();
    let other = token.clone();
    assert!(!token.is_cancelled());
    other.cancel();
    assert!(token.is_cancelled());
    assert!(other.is_cancelled());
}

#[test]
fn default_config() {
    let c = AppConfig::default();
    assert_eq!(c.port, 8080);
    assert_eq!(c.theme, "light");
    assert_eq!(c.language, "zh-CN");
    let d = AppConfig::with_port(9000);
    assert_eq!(d.port, 9000);
    assert_eq!(d.theme, "light");
}

#[test]
fn metadata_of_a_tool() {
    let m = HashTool.metadata();
    assert_eq!(m.id, "hash");
    assert_eq!(m.name, "Hash 计算");
    assert_eq!(m.category, ToolCategory::Crypto);
    assert!(m.is_cpu_intensive);
}
