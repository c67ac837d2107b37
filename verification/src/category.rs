use vstd::prelude::*;

verus! {

/// The group a tool is listed under.
#[derive(Debug, Clone, Copy, PartialEq, Eq, Structural)]
pub enum ToolCategory {
    /// JSON (formatting, validation, compaction)
    Json,
    /// Text and string processing
    Text,
    /// Encodings and digests (Base64, hashes)
    Crypto,
    /// Dates and times
    DateTime,
    /// Network and URL helpers
    Network,
    /// Colour conversion
    Color,
    /// Image processing
    Image,
    /// Audio and video processing
    Media,
    /// General purpose
    Utility,
    /// Productivity tools
    Productivity,
}

/// The position of a category when tools are listed, counted from 1.
pub open spec fn category_rank(c: ToolCategory) -> u32 {
    match c {
        ToolCategory::Json => 1,
        ToolCategory::Text => 2,
        ToolCategory::Crypto => 3,
        ToolCategory::DateTime => 4,
        ToolCategory::Network => 5,
        ToolCategory::Color => 6,
        ToolCategory::Image => 7,
        ToolCategory::Media => 8,
        ToolCategory::Utility => 9,
        ToolCategory::Productivity => 10,
    }
}

/// The human-readable label of a category.
pub open spec fn category_label(c: ToolCategory) -> Seq<char> {
    match c {
        ToolCategory::Json => "JSON"@,
        ToolCategory::Text => "文本"@,
        ToolCategory::Crypto => "加密/编码"@,
        ToolCategory::DateTime => "日期/时间"@,
        ToolCategory::Network => "网络"@,
        ToolCategory::Color => "颜色"@,
        ToolCategory::Image => "图片"@,
        ToolCategory::Media => "媒体"@,
        ToolCategory::Utility => "通用"@,
        ToolCategory::Productivity => "生产力"@,
    }
}

impl ToolCategory {
    /// The label shown for this category.
    pub fn label(&self) -> (r: &'static str)
        ensures
            r@ == category_label(*self),
    {
        match self {
            ToolCategory::Json => "JSON",
            ToolCategory::Text => "文本",
            ToolCategory::Crypto => "加密/编码",
            ToolCategory::DateTime => "日期/时间",
            ToolCategory::Network => "网络",
            ToolCategory::Color => "颜色",
            ToolCategory::Image => "图片",
            ToolCategory::Media => "媒体",
            ToolCategory::Utility => "通用",
            ToolCategory::Productivity => "生产力",
        }
    }

    /// The sort key of this category in tool listings.
    pub fn order(&self) -> (r: u32)
        ensures
            r == category_rank(*self),
    {
        match self {
            ToolCategory::Json => 1,
            ToolCategory::Text => 2,
            ToolCategory::Crypto => 3,
            ToolCategory::DateTime => 4,
            ToolCategory::Network => 5,
            ToolCategory::Color => 6,
            ToolCategory::Image => 7,
            ToolCategory::Media => 8,
            ToolCategory::Utility => 9,
            ToolCategory::Productivity => 10,
        }
    }
}

/// Categories are ranked from 1 to 10, and no two categories share a rank,
/// so sorting by rank keeps the tools of one category together.
pub proof fn lemma_rank_identifies_category(a: ToolCategory, b: ToolCategory)
    ensures
        1 <= category_rank(a) <= 10,
        category_rank(a) == category_rank(b) <==> a == b,
{
}

} // verus!
