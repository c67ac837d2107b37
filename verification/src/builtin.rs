//! The built-in tools, and registering them.

use vstd::prelude::*;
use crate::category::ToolCategory;
use crate::registry::{ToolListResponse, ToolRegistry};
use crate::tool::Tool;
use crate::json_formatter::{JsonFormatter};
use crate::json_validator::{JsonValidator};
use crate::base64_codec::{Base64Encode, Base64Decode};
use crate::timestamp::{TimestampToDate, DateToTimestamp};
use crate::uuid_gen::{UuidGen};
use crate::url_codec::{UrlEncode, UrlDecode};
use crate::text_stats::{TextStats};
use crate::string_case::{StringCase};
use crate::hash_tool::{HashTool};
use crate::video_concat::{VideoConcat};

verus! {

/// One of the built-in tools.
#[derive(Clone, Copy)]
pub enum BuiltinTool {
    JsonFormatter(JsonFormatter),
    JsonValidator(JsonValidator),
    Base64Encode(Base64Encode),
    Base64Decode(Base64Decode),
    TimestampToDate(TimestampToDate),
    DateToTimestamp(DateToTimestamp),
    UuidGen(UuidGen),
    UrlEncode(UrlEncode),
    UrlDecode(UrlDecode),
    TextStats(TextStats),
    StringCase(StringCase),
    HashTool(HashTool),
    VideoConcat(VideoConcat),
}

impl Tool for BuiltinTool {
    open spec fn spec_id(&self) -> Seq<char> {
        match self {
            BuiltinTool::JsonFormatter(t) => t.spec_id(),
            BuiltinTool::JsonValidator(t) => t.spec_id(),
            BuiltinTool::Base64Encode(t) => t.spec_id(),
            BuiltinTool::Base64Decode(t) => t.spec_id(),
            BuiltinTool::TimestampToDate(t) => t.spec_id(),
            BuiltinTool::DateToTimestamp(t) => t.spec_id(),
            BuiltinTool::UuidGen(t) => t.spec_id(),
            BuiltinTool::UrlEncode(t) => t.spec_id(),
            BuiltinTool::UrlDecode(t) => t.spec_id(),
            BuiltinTool::TextStats(t) => t.spec_id(),
            BuiltinTool::StringCase(t) => t.spec_id(),
            BuiltinTool::HashTool(t) => t.spec_id(),
            BuiltinTool::VideoConcat(t) => t.spec_id(),
        }
    }

    open spec fn spec_name(&self) -> Seq<char> {
        match self {
            BuiltinTool::JsonFormatter(t) => t.spec_name(),
            BuiltinTool::JsonValidator(t) => t.spec_name(),
            BuiltinTool::Base64Encode(t) => t.spec_name(),
            BuiltinTool::Base64Decode(t) => t.spec_name(),
            BuiltinTool::TimestampToDate(t) => t.spec_name(),
            BuiltinTool::DateToTimestamp(t) => t.spec_name(),
            BuiltinTool::UuidGen(t) => t.spec_name(),
            BuiltinTool::UrlEncode(t) => t.spec_name(),
            BuiltinTool::UrlDecode(t) => t.spec_name(),
            BuiltinTool::TextStats(t) => t.spec_name(),
            BuiltinTool::StringCase(t) => t.spec_name(),
            BuiltinTool::HashTool(t) => t.spec_name(),
            BuiltinTool::VideoConcat(t) => t.spec_name(),
        }
    }

    open spec fn spec_description(&self) -> Seq<char> {
        match self {
            BuiltinTool::JsonFormatter(t) => t.spec_description(),
            BuiltinTool::JsonValidator(t) => t.spec_description(),
            BuiltinTool::Base64Encode(t) => t.spec_description(),
            BuiltinTool::Base64Decode(t) => t.spec_description(),
            BuiltinTool::TimestampToDate(t) => t.spec_description(),
            BuiltinTool::DateToTimestamp(t) => t.spec_description(),
            BuiltinTool::UuidGen(t) => t.spec_description(),
            BuiltinTool::UrlEncode(t) => t.spec_description(),
            BuiltinTool::UrlDecode(t) => t.spec_description(),
            BuiltinTool::TextStats(t) => t.spec_description(),
            BuiltinTool::StringCase(t) => t.spec_description(),
            BuiltinTool::HashTool(t) => t.spec_description(),
            BuiltinTool::VideoConcat(t) => t.spec_description(),
        }
    }

    open spec fn spec_category(&self) -> ToolCategory {
        match self {
            BuiltinTool::JsonFormatter(t) => t.spec_category(),
            BuiltinTool::JsonValidator(t) => t.spec_category(),
            BuiltinTool::Base64Encode(t) => t.spec_category(),
            BuiltinTool::Base64Decode(t) => t.spec_category(),
            BuiltinTool::TimestampToDate(t) => t.spec_category(),
            BuiltinTool::DateToTimestamp(t) => t.spec_category(),
            BuiltinTool::UuidGen(t) => t.spec_category(),
            BuiltinTool::UrlEncode(t) => t.spec_category(),
            BuiltinTool::UrlDecode(t) => t.spec_category(),
            BuiltinTool::TextStats(t) => t.spec_category(),
            BuiltinTool::StringCase(t) => t.spec_category(),
            BuiltinTool::HashTool(t) => t.spec_category(),
            BuiltinTool::VideoConcat(t) => t.spec_category(),
        }
    }

    open spec fn spec_cpu_intensive(&self) -> bool {
        match self {
            BuiltinTool::JsonFormatter(t) => t.spec_cpu_intensive(),
            BuiltinTool::JsonValidator(t) => t.spec_cpu_intensive(),
            BuiltinTool::Base64Encode(t) => t.spec_cpu_intensive(),
            BuiltinTool::Base64Decode(t) => t.spec_cpu_intensive(),
            BuiltinTool::TimestampToDate(t) => t.spec_cpu_intensive(),
            BuiltinTool::DateToTimestamp(t) => t.spec_cpu_intensive(),
            BuiltinTool::UuidGen(t) => t.spec_cpu_intensive(),
            BuiltinTool::UrlEncode(t) => t.spec_cpu_intensive(),
            BuiltinTool::UrlDecode(t) => t.spec_cpu_intensive(),
            BuiltinTool::TextStats(t) => t.spec_cpu_intensive(),
            BuiltinTool::StringCase(t) => t.spec_cpu_intensive(),
            BuiltinTool::HashTool(t) => t.spec_cpu_intensive(),
            BuiltinTool::VideoConcat(t) => t.spec_cpu_intensive(),
        }
    }

    fn id(&self) -> &'static str {
        match self {
            BuiltinTool::JsonFormatter(t) => t.id(),
            BuiltinTool::JsonValidator(t) => t.id(),
            BuiltinTool::Base64Encode(t) => t.id(),
            BuiltinTool::Base64Decode(t) => t.id(),
            BuiltinTool::TimestampToDate(t) => t.id(),
            BuiltinTool::DateToTimestamp(t) => t.id(),
            BuiltinTool::UuidGen(t) => t.id(),
            BuiltinTool::UrlEncode(t) => t.id(),
            BuiltinTool::UrlDecode(t) => t.id(),
            BuiltinTool::TextStats(t) => t.id(),
            BuiltinTool::StringCase(t) => t.id(),
            BuiltinTool::HashTool(t) => t.id(),
            BuiltinTool::VideoConcat(t) => t.id(),
        }
    }

    fn name(&self) -> &'static str {
        match self {
            BuiltinTool::JsonFormatter(t) => t.name(),
            BuiltinTool::JsonValidator(t) => t.name(),
            BuiltinTool::Base64Encode(t) => t.name(),
            BuiltinTool::Base64Decode(t) => t.name(),
            BuiltinTool::TimestampToDate(t) => t.name(),
            BuiltinTool::DateToTimestamp(t) => t.name(),
            BuiltinTool::UuidGen(t) => t.name(),
            BuiltinTool::UrlEncode(t) => t.name(),
            BuiltinTool::UrlDecode(t) => t.name(),
            BuiltinTool::TextStats(t) => t.name(),
            BuiltinTool::StringCase(t) => t.name(),
            BuiltinTool::HashTool(t) => t.name(),
            BuiltinTool::VideoConcat(t) => t.name(),
        }
    }

    fn description(&self) -> &'static str {
        match self {
            BuiltinTool::JsonFormatter(t) => t.description(),
            BuiltinTool::JsonValidator(t) => t.description(),
            BuiltinTool::Base64Encode(t) => t.description(),
            BuiltinTool::Base64Decode(t) => t.description(),
            BuiltinTool::TimestampToDate(t) => t.description(),
            BuiltinTool::DateToTimestamp(t) => t.description(),
            BuiltinTool::UuidGen(t) => t.description(),
            BuiltinTool::UrlEncode(t) => t.description(),
            BuiltinTool::UrlDecode(t) => t.description(),
            BuiltinTool::TextStats(t) => t.description(),
            BuiltinTool::StringCase(t) => t.description(),
            BuiltinTool::HashTool(t) => t.description(),
            BuiltinTool::VideoConcat(t) => t.description(),
        }
    }

    fn category(&self) -> ToolCategory {
        match self {
            BuiltinTool::JsonFormatter(t) => t.category(),
            BuiltinTool::JsonValidator(t) => t.category(),
            BuiltinTool::Base64Encode(t) => t.category(),
            BuiltinTool::Base64Decode(t) => t.category(),
            BuiltinTool::TimestampToDate(t) => t.category(),
            BuiltinTool::DateToTimestamp(t) => t.category(),
            BuiltinTool::UuidGen(t) => t.category(),
            BuiltinTool::UrlEncode(t) => t.category(),
            BuiltinTool::UrlDecode(t) => t.category(),
            BuiltinTool::TextStats(t) => t.category(),
            BuiltinTool::StringCase(t) => t.category(),
            BuiltinTool::HashTool(t) => t.category(),
            BuiltinTool::VideoConcat(t) => t.category(),
        }
    }

    fn is_cpu_intensive(&self) -> bool {
        match self {
            BuiltinTool::JsonFormatter(t) => t.is_cpu_intensive(),
            BuiltinTool::JsonValidator(t) => t.is_cpu_intensive(),
            BuiltinTool::Base64Encode(t) => t.is_cpu_intensive(),
            BuiltinTool::Base64Decode(t) => t.is_cpu_intensive(),
            BuiltinTool::TimestampToDate(t) => t.is_cpu_intensive(),
            BuiltinTool::DateToTimestamp(t) => t.is_cpu_intensive(),
            BuiltinTool::UuidGen(t) => t.is_cpu_intensive(),
            BuiltinTool::UrlEncode(t) => t.is_cpu_intensive(),
            BuiltinTool::UrlDecode(t) => t.is_cpu_intensive(),
            BuiltinTool::TextStats(t) => t.is_cpu_intensive(),
            BuiltinTool::StringCase(t) => t.is_cpu_intensive(),
            BuiltinTool::HashTool(t) => t.is_cpu_intensive(),
            BuiltinTool::VideoConcat(t) => t.is_cpu_intensive(),
        }
    }
}

/// The tools `register_all` registers, in order.
pub open spec fn builtin_tools() -> Seq<BuiltinTool> {
    seq![
        BuiltinTool::JsonFormatter(JsonFormatter),
        BuiltinTool::JsonValidator(JsonValidator),
        BuiltinTool::Base64Encode(Base64Encode),
        BuiltinTool::Base64Decode(Base64Decode),
        BuiltinTool::TimestampToDate(TimestampToDate),
        BuiltinTool::DateToTimestamp(DateToTimestamp),
        BuiltinTool::UuidGen(UuidGen),
        BuiltinTool::UrlEncode(UrlEncode),
        BuiltinTool::UrlDecode(UrlDecode),
        BuiltinTool::TextStats(TextStats),
        BuiltinTool::StringCase(StringCase),
        BuiltinTool::HashTool(HashTool),
        BuiltinTool::VideoConcat(VideoConcat),
    ]
}

/// Registers the built-in tools, in the order of [`builtin_tools`].
pub fn register_all(registry: &mut ToolRegistry<BuiltinTool>)
    ensures
        final(registry).entries() == old(registry).entries() + builtin_tools(),
{
    registry.register(BuiltinTool::JsonFormatter(JsonFormatter));
    registry.register(BuiltinTool::JsonValidator(JsonValidator));
    registry.register(BuiltinTool::Base64Encode(Base64Encode));
    registry.register(BuiltinTool::Base64Decode(Base64Decode));
    registry.register(BuiltinTool::TimestampToDate(TimestampToDate));
    registry.register(BuiltinTool::DateToTimestamp(DateToTimestamp));
    registry.register(BuiltinTool::UuidGen(UuidGen));
    registry.register(BuiltinTool::UrlEncode(UrlEncode));
    registry.register(BuiltinTool::UrlDecode(UrlDecode));
    registry.register(BuiltinTool::TextStats(TextStats));
    registry.register(BuiltinTool::StringCase(StringCase));
    registry.register(BuiltinTool::HashTool(HashTool));
    registry.register(BuiltinTool::VideoConcat(VideoConcat));
    assert(registry.entries() =~= old(registry).entries() + builtin_tools());
}

} // verus!
