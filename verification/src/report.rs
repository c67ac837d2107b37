//! What the command line prints: a tool's answer, laid out for a terminal
//! (with ANSI colours), and the list of tools by category.

use vstd::prelude::*;
use crate::base64_codec::Decoded;
use crate::category::category_label;
use crate::concat_run::ConcatReport;
use crate::hash_tool::HashOutput;
use crate::json_validator::JsonValidation;
use crate::string_case::StringCaseOutput;
use crate::text::{chars_of, decimal_u64, nat_digits, push_char, push_str, str_equal};
use crate::text_stats::{TextStatsOutput, WordCount};
use crate::timestamp::{DateToTsOutput, TsToDateOutput};
use crate::tool::ToolMetadata;
use crate::uuid_gen::UuidGenOutput;

verus! {

/// A built-in tool's answer.
pub enum ToolOutput {
    JsonFormat(String),
    JsonValidate(JsonValidation),
    Base64Encode(String),
    Base64Decode(Decoded),
    TsToDate(TsToDateOutput),
    DateToTs(DateToTsOutput),
    UrlEncode(String),
    UrlDecode(String),
    UuidGen(UuidGenOutput),
    TextStats(TextStatsOutput),
    StringCase(StringCaseOutput),
    Hash(HashOutput),
    VideoConcat(ConcatReport),
}

/// A number as the answer's JSON reads back as unsigned: negatives as 0.
pub open spec fn unsigned_or_zero(n: i64) -> nat {
    if n < 0 {
        0
    } else {
        n as nat
    }
}

/// A labelled detail line: `  ▪ label  value` (label dimmed).
pub open spec fn info_line(label: Seq<char>, value: Seq<char>) -> Seq<char> {
    "  \x1b[2m▪ "@ + label + " \x1b[0m "@ + value + "\n"@
}

/// `s` padded with spaces on the right to `width` characters.
pub open spec fn padded(s: Seq<char>, width: nat) -> Seq<char> {
    if s.len() >= width {
        s
    } else {
        s + Seq::new((width - s.len()) as nat, |i: int| ' ')
    }
}

/// A bar of `n` blocks.
pub open spec fn bar(n: nat) -> Seq<char> {
    Seq::new(n, |i: int| '▇')
}

/// The heading line of a tool's answer (bold).
pub open spec fn heading(title: Seq<char>) -> Seq<char> {
    "\n  \x1b[1m"@ + title + "\x1b[0m\n\n"@
}

/// The label the command line shows for a case name.
pub open spec fn case_label(to_case: Seq<char>) -> Seq<char> {
    if to_case == "lowercase"@ {
        "全小写"@
    } else if to_case == "uppercase"@ {
        "全大写"@
    } else if to_case == "capitalize"@ {
        "首字母大写"@
    } else if to_case == "camelCase"@ {
        "驼峰命名 camelCase"@
    } else if to_case == "snake_case"@ {
        "蛇形命名 snake_case"@
    } else if to_case == "PascalCase"@ {
        "帕斯卡命名 PascalCase"@
    } else if to_case == "kebab-case"@ {
        "短横线命名 kebab-case"@
    } else if to_case == "CONSTANT_CASE"@ {
        "常量命名 CONSTANT_CASE"@
    } else {
        to_case
    }
}

/// The numbered lines of a list of UUIDs.
pub open spec fn uuid_lines(us: Seq<Seq<char>>) -> Seq<char>
    decreases us.len(),
{
    if us.len() == 0 {
        Seq::empty()
    } else {
        uuid_lines(us.drop_last()) + "  \x1b[2m"@ + nat_digits(us.len()) + ".\x1b[0m "@ + us.last() + "\n"@
    }
}

/// The lines of word frequencies: word, bar, count.
pub open spec fn frequency_lines(ws: Seq<WordCount>) -> Seq<char>
    decreases ws.len(),
{
    if ws.len() == 0 {
        Seq::empty()
    } else {
        frequency_lines(ws.drop_last()) + "    "@ + padded(ws.last().word@, 12) + " "@ + bar(ws.last().count as nat)
            + " "@ + nat_digits(ws.last().count as nat) + "\n"@
    }
}

/// The word frequency part of a text statistics answer: the first ten, if
/// there are any.
pub open spec fn frequency_part(f: Option<Vec<WordCount>>) -> Seq<char> {
    match f {
        Some(v) => if v@.len() > 0 {
            "\n  \x1b[2m词频:\x1b[0m\n"@ + frequency_lines(
                v@.take(
                    if v@.len() < 10 {
                        v@.len() as int
                    } else {
                        10
                    },
                ),
            )
        } else {
            Seq::empty()
        },
        None => Seq::empty(),
    }
}

/// How a video-concat answer is printed.
pub open spec fn concat_report_text(r: ConcatReport) -> Seq<char> {
    match r {
        ConcatReport::Done { output_path, input_count, output_size_bytes, output_size_mb, strategy, ffmpeg_version, ffmpeg_path } => {
            heading("🎬 视频拼接完成"@) + "  \x1b[32m输出文件:\x1b[0m "@ + output_path@ + "\n"@ + info_line(
                "输入文件数"@,
                nat_digits(input_count as nat),
            ) + info_line("拼接策略"@, strategy@) + info_line(
                "输出大小"@,
                if output_size_bytes > 1048576 {
                    output_size_mb@
                } else {
                    nat_digits(output_size_bytes as nat) + " bytes"@
                },
            ) + info_line("ffmpeg 版本"@, ffmpeg_version@) + info_line("ffmpeg 路径"@, ffmpeg_path@)
        },
        ConcatReport::Cancelled => "\n  \x1b[33m⏹  视频拼接已取消\x1b[0m\n\n"@ + info_line("信息"@, "用户取消了拼接操作"@),
    }
}

/// How a tool's answer is printed.
pub open spec fn output_text(o: ToolOutput) -> Seq<char> {
    match o {
        ToolOutput::JsonFormat(t) => "\n  \x1b[1m\x1b[36m"@ + t@ + "\x1b[0m\n\n"@,
        ToolOutput::JsonValidate(v) => match v {
            JsonValidation::Valid { size, depth, value_type } => "\n  \x1b[32m✔  JSON 校验通过\x1b[0m\n\n"@ + info_line(
                "类型"@,
                value_type@,
            ) + info_line("深度"@, nat_digits(depth as nat)) + info_line("大小"@, nat_digits(size as nat) + " bytes"@),
            JsonValidation::Invalid { error, line, column } => "\n  \x1b[31m✘  JSON 校验失败\x1b[0m\n\n"@
                + "  \x1b[31m错误:\x1b[0m "@ + error@ + "\n"@ + info_line("行"@, nat_digits(line as nat)) + info_line(
                "列"@,
                nat_digits(column as nat),
            ),
        },
        ToolOutput::Base64Encode(t) => heading("🔐 Base64 编码结果"@) + "  \x1b[36m"@ + t@ + "\x1b[0m\n"@,
        ToolOutput::Base64Decode(d) => match d {
            Decoded::Hex(h) => heading("🔓 Base64 解码（十六进制）"@) + "  "@ + h@ + "\n"@,
            Decoded::Text(t) => heading("🔓 Base64 解码结果"@) + "  \x1b[36m"@ + t@ + "\x1b[0m\n"@,
        },
        ToolOutput::TsToDate(out) => heading("📅 时间戳 → 日期"@) + "  \x1b[32m日期时间:\x1b[0m "@ + out.result@ + "\n"@
            + info_line("ISO 8601"@, out.iso_8601@) + info_line(
            "秒级时间戳"@,
            nat_digits(unsigned_or_zero(out.timestamp_secs)),
        ),
        ToolOutput::DateToTs(out) => heading("📅 日期 → 时间戳"@) + info_line(
            "秒级时间戳"@,
            nat_digits(unsigned_or_zero(out.timestamp_secs)),
        ) + info_line("毫秒时间戳"@, nat_digits(unsigned_or_zero(out.timestamp_ms))),
        ToolOutput::UrlEncode(t) => heading("🔗 URL 编码"@) + "  \x1b[36m"@ + t@ + "\x1b[0m\n"@,
        ToolOutput::UrlDecode(t) => heading("🔗 URL 解码"@) + "  \x1b[36m"@ + t@ + "\x1b[0m\n"@,
        ToolOutput::UuidGen(out) => heading("🆔 已生成 "@ + nat_digits(out.count as nat) + " 个 UUID"@) + uuid_lines(
            out.uuids@.map_values(|u: String| u@),
        ),
        ToolOutput::TextStats(out) => heading("📊 文本统计"@) + info_line("字符数"@, nat_digits(out.char_count as nat))
            + info_line("单词数"@, nat_digits(out.word_count as nat)) + info_line(
            "行数"@,
            nat_digits(out.line_count as nat),
        ) + info_line("字节数"@, nat_digits(out.byte_count as nat)) + info_line(
            "CJK 字符"@,
            nat_digits(out.cjk_char_count as nat),
        ) + frequency_part(out.word_frequency),
        ToolOutput::StringCase(out) => "\n  \x1b[1m🔤 字符串格式转换 → \x1b[36m"@ + case_label(out.to_case@)
            + "\x1b[0m\n\n"@ + "  \x1b[2m原文本:\x1b[0m "@ + out.original@ + "\n"@ + "  \x1b[36m转换后:\x1b[0m "@
            + out.result@ + "\n"@,
        ToolOutput::Hash(out) => heading("🔑 "@ + out.algorithm@ + " 哈希值"@) + "  \x1b[36m"@ + out.result@
            + "\x1b[0m\n"@ + info_line("输入长度"@, nat_digits(out.input_length as nat) + " 字符"@),
        ToolOutput::VideoConcat(r) => concat_report_text(r),
    }
}

/// The text of the tool list: a header, then each tool under its category's
/// label (printed when the label changes).
pub open spec fn list_body(ms: Seq<ToolMetadata>) -> Seq<char>
    decreases ms.len(),
{
    if ms.len() == 0 {
        Seq::empty()
    } else {
        let last = ms.last();
        let header = if ms.len() == 1 || category_label(ms[ms.len() - 2].category) != category_label(last.category) {
            "  \x1b[33m["@ + category_label(last.category) + "]\x1b[0m\n"@
        } else {
            Seq::empty()
        };
        list_body(ms.drop_last()) + header + "    \x1b[36m"@ + padded(last.id@, 22) + "\x1b[0m "@ + last.name@ + "\n"@
    }
}

/// What the `list` command prints.
pub open spec fn list_text(ms: Seq<ToolMetadata>) -> Seq<char> {
    if ms.len() == 0 {
        "暂无可用工具\n"@
    } else {
        "\n  \x1b[1m🛠  可用工具 ("@ + nat_digits(ms.len()) + ")\x1b[0m\n\n"@ + list_body(ms) + "\n"@
    }
}

fn push_info_line(r: &mut String, label: &str, value: &str)
    ensures
        final(r)@ == old(r)@ + info_line(label@, value@),
{
    push_str(r, "  \x1b[2m▪ ");
    push_str(r, label);
    push_str(r, " \x1b[0m ");
    push_str(r, value);
    push_str(r, "\n");
    assert(final(r)@ =~= old(r)@ + info_line(label@, value@));
}

fn push_heading(r: &mut String, title: &str)
    ensures
        final(r)@ == old(r)@ + heading(title@),
{
    push_str(r, "\n  \x1b[1m");
    push_str(r, title);
    push_str(r, "\x1b[0m\n\n");
    assert(final(r)@ =~= old(r)@ + heading(title@));
}

fn push_padded(r: &mut String, s: &str, width: usize)
    ensures
        final(r)@ == old(r)@ + padded(s@, width as nat),
{
    let ghost start = r@;
    push_str(r, s);
    let n = chars_of(s).len();
    if n < width {
        let mut k: usize = n;
        while k < width
            invariant
                n == s@.len(),
                n <= k <= width,
                r@ == start + s@ + Seq::new((k - n) as nat, |i: int| ' '),
            decreases width - k,
        {
            push_char(r, ' ');
            k = k + 1;
            assert(r@ =~= start + s@ + Seq::new((k - n) as nat, |i: int| ' '));
        }
        assert(r@ =~= start + padded(s@, width as nat));
    } else {
        assert(r@ =~= start + padded(s@, width as nat));
    }
}

fn push_number(r: &mut String, n: u64)
    ensures
        final(r)@ == old(r)@ + nat_digits(n as nat),
{
    let d = decimal_u64(n);
    push_str(r, d.as_str());
}

fn push_number_line(r: &mut String, label: &str, n: u64)
    ensures
        final(r)@ == old(r)@ + info_line(label@, nat_digits(n as nat)),
{
    let d = decimal_u64(n);
    push_info_line(r, label, d.as_str());
}

fn unsigned_or_zero_u64(n: i64) -> (r: u64)
    ensures
        r as nat == unsigned_or_zero(n),
{
    if n < 0 {
        0
    } else {
        n as u64
    }
}

/// The label the command line shows for a case name.
pub fn case_label_of(to_case: &str) -> (r: &str)
    ensures
        r@ == case_label(to_case@),
{
    if str_equal(to_case, "lowercase") {
        "全小写"
    } else if str_equal(to_case, "uppercase") {
        "全大写"
    } else if str_equal(to_case, "capitalize") {
        "首字母大写"
    } else if str_equal(to_case, "camelCase") {
        "驼峰命名 camelCase"
    } else if str_equal(to_case, "snake_case") {
        "蛇形命名 snake_case"
    } else if str_equal(to_case, "PascalCase") {
        "帕斯卡命名 PascalCase"
    } else if str_equal(to_case, "kebab-case") {
        "短横线命名 kebab-case"
    } else if str_equal(to_case, "CONSTANT_CASE") {
        "常量命名 CONSTANT_CASE"
    } else {
        to_case
    }
}

fn push_uuid_lines(r: &mut String, us: &Vec<String>)
    ensures
        final(r)@ == old(r)@ + uuid_lines(us@.map_values(|u: String| u@)),
{
    let ghost start = r@;
    let ghost all = us@.map_values(|u: String| u@);
    let mut i: usize = 0;
    while i < us.len()
        invariant
            i <= us@.len(),
            all == us@.map_values(|u: String| u@),
            r@ == start + uuid_lines(all.take(i as int)),
        decreases us.len() - i,
    {
        let ghost before = r@;
        assert(all.take(i + 1).drop_last() =~= all.take(i as int));
        assert(all.take(i + 1).last() == us@[i as int]@);
        push_str(r, "  \x1b[2m");
        push_number(r, (i + 1) as u64);
        push_str(r, ".\x1b[0m ");
        push_str(r, us[i].as_str());
        push_str(r, "\n");
        assert(r@ =~= start + uuid_lines(all.take(i + 1)));
        i = i + 1;
    }
    assert(all.take(us@.len() as int) =~= all);
}

fn push_frequency_lines(r: &mut String, ws: &Vec<WordCount>, n: usize)
    requires
        n <= ws@.len(),
    ensures
        final(r)@ == old(r)@ + frequency_lines(ws@.take(n as int)),
{
    let ghost start = r@;
    let mut i: usize = 0;
    while i < n
        invariant
            i <= n <= ws@.len(),
            r@ == start + frequency_lines(ws@.take(i as int)),
        decreases n - i,
    {
        assert(ws@.take(i + 1).drop_last() =~= ws@.take(i as int));
        assert(ws@.take(i + 1).last() == ws@[i as int]);
        let w = &ws[i];
        push_str(r, "    ");
        push_padded(r, w.word.as_str(), 12);
        push_str(r, " ");
        let ghost mid = r@;
        let mut k: usize = 0;
        while k < w.count
            invariant
                k <= w.count,
                r@ == mid + bar(k as nat),
            decreases w.count - k,
        {
            push_char(r, '▇');
            k = k + 1;
            assert(r@ =~= mid + bar(k as nat));
        }
        push_str(r, " ");
        push_number(r, w.count as u64);
        push_str(r, "\n");
        assert(r@ =~= start + frequency_lines(ws@.take(i + 1)));
        i = i + 1;
    }
}

fn push_concat_report(r: &mut String, rep: &ConcatReport)
    ensures
        final(r)@ == old(r)@ + concat_report_text(*rep),
{
    let ghost start = r@;
    match rep {
        ConcatReport::Done { output_path, input_count, output_size_bytes, output_size_mb, strategy, ffmpeg_version, ffmpeg_path } => {
            push_heading(r, "🎬 视频拼接完成");
            push_str(r, "  \x1b[32m输出文件:\x1b[0m ");
            push_str(r, output_path.as_str());
            push_str(r, "\n");
            push_number_line(r, "输入文件数", *input_count as u64);
            push_info_line(r, "拼接策略", strategy);
            if *output_size_bytes > 1048576 {
                push_info_line(r, "输出大小", output_size_mb.as_str());
            } else {
                let mut size = decimal_u64(*output_size_bytes);
                push_str(&mut size, " bytes");
                push_info_line(r, "输出大小", size.as_str());
            }
            push_info_line(r, "ffmpeg 版本", ffmpeg_version.as_str());
            push_info_line(r, "ffmpeg 路径", ffmpeg_path.as_str());
        },
        ConcatReport::Cancelled => {
            push_str(r, "\n  \x1b[33m⏹  视频拼接已取消\x1b[0m\n\n");
            push_info_line(r, "信息", "用户取消了拼接操作");
        },
    }
    assert(r@ =~= start + concat_report_text(*rep));
}

/// The text the command line prints for a tool's answer.
pub fn format_output(output: &ToolOutput) -> (r: String)
    ensures
        r@ == output_text(*output),
{
    let mut r = String::new();
    let ghost start = r@;
    match output {
        ToolOutput::JsonFormat(t) => {
            push_str(&mut r, "\n  \x1b[1m\x1b[36m");
            push_str(&mut r, t.as_str());
            push_str(&mut r, "\x1b[0m\n\n");
        },
        ToolOutput::JsonValidate(v) => match v {
            JsonValidation::Valid { size, depth, value_type } => {
                push_str(&mut r, "\n  \x1b[32m✔  JSON 校验通过\x1b[0m\n\n");
                push_info_line(&mut r, "类型", value_type);
                push_number_line(&mut r, "深度", *depth as u64);
                let mut sz = decimal_u64(*size as u64);
                push_str(&mut sz, " bytes");
                push_info_line(&mut r, "大小", sz.as_str());
            },
            JsonValidation::Invalid { error, line, column } => {
                push_str(&mut r, "\n  \x1b[31m✘  JSON 校验失败\x1b[0m\n\n");
                push_str(&mut r, "  \x1b[31m错误:\x1b[0m ");
                push_str(&mut r, error.as_str());
                push_str(&mut r, "\n");
                push_number_line(&mut r, "行", *line as u64);
                push_number_line(&mut r, "列", *column as u64);
            },
        },
        ToolOutput::Base64Encode(t) => {
            push_heading(&mut r, "🔐 Base64 编码结果");
            push_str(&mut r, "  \x1b[36m");
            push_str(&mut r, t.as_str());
            push_str(&mut r, "\x1b[0m\n");
        },
        ToolOutput::Base64Decode(d) => match d {
            Decoded::Hex(h) => {
                push_heading(&mut r, "🔓 Base64 解码（十六进制）");
                push_str(&mut r, "  ");
                push_str(&mut r, h.as_str());
                push_str(&mut r, "\n");
            },
            Decoded::Text(t) => {
                push_heading(&mut r, "🔓 Base64 解码结果");
                push_str(&mut r, "  \x1b[36m");
                push_str(&mut r, t.as_str());
                push_str(&mut r, "\x1b[0m\n");
            },
        },
        ToolOutput::TsToDate(out) => {
            push_heading(&mut r, "📅 时间戳 → 日期");
            push_str(&mut r, "  \x1b[32m日期时间:\x1b[0m ");
            push_str(&mut r, out.result.as_str());
            push_str(&mut r, "\n");
            push_info_line(&mut r, "ISO 8601", out.iso_8601.as_str());
            push_number_line(&mut r, "秒级时间戳", unsigned_or_zero_u64(out.timestamp_secs));
        },
        ToolOutput::DateToTs(out) => {
            push_heading(&mut r, "📅 日期 → 时间戳");
            push_number_line(&mut r, "秒级时间戳", unsigned_or_zero_u64(out.timestamp_secs));
            push_number_line(&mut r, "毫秒时间戳", unsigned_or_zero_u64(out.timestamp_ms));
        },
        ToolOutput::UrlEncode(t) => {
            push_heading(&mut r, "🔗 URL 编码");
            push_str(&mut r, "  \x1b[36m");
            push_str(&mut r, t.as_str());
            push_str(&mut r, "\x1b[0m\n");
        },
        ToolOutput::UrlDecode(t) => {
            push_heading(&mut r, "🔗 URL 解码");
            push_str(&mut r, "  \x1b[36m");
            push_str(&mut r, t.as_str());
            push_str(&mut r, "\x1b[0m\n");
        },
        ToolOutput::UuidGen(out) => {
            let mut title = String::from_str("🆔 已生成 ");
            push_number(&mut title, out.count as u64);
            push_str(&mut title, " 个 UUID");
            push_heading(&mut r, title.as_str());
            push_uuid_lines(&mut r, &out.uuids);
        },
        ToolOutput::TextStats(out) => {
            push_heading(&mut r, "📊 文本统计");
            push_number_line(&mut r, "字符数", out.char_count as u64);
            push_number_line(&mut r, "单词数", out.word_count as u64);
            push_number_line(&mut r, "行数", out.line_count as u64);
            push_number_line(&mut r, "字节数", out.byte_count as u64);
            push_number_line(&mut r, "CJK 字符", out.cjk_char_count as u64);
            match &out.word_frequency {
                Some(f) => if f.len() > 0 {
                    push_str(&mut r, "\n  \x1b[2m词频:\x1b[0m\n");
                    let n = if f.len() < 10 {
                        f.len()
                    } else {
                        10
                    };
                    push_frequency_lines(&mut r, f, n);
                },
                None => {},
            }
        },
        ToolOutput::StringCase(out) => {
            push_str(&mut r, "\n  \x1b[1m🔤 字符串格式转换 → \x1b[36m");
            push_str(&mut r, case_label_of(out.to_case.as_str()));
            push_str(&mut r, "\x1b[0m\n\n");
            push_str(&mut r, "  \x1b[2m原文本:\x1b[0m ");
            push_str(&mut r, out.original.as_str());
            push_str(&mut r, "\n");
            push_str(&mut r, "  \x1b[36m转换后:\x1b[0m ");
            push_str(&mut r, out.result.as_str());
            push_str(&mut r, "\n");
        },
        ToolOutput::Hash(out) => {
            let mut title = String::from_str("🔑 ");
            push_str(&mut title, out.algorithm.as_str());
            push_str(&mut title, " 哈希值");
            push_heading(&mut r, title.as_str());
            push_str(&mut r, "  \x1b[36m");
            push_str(&mut r, out.result.as_str());
            push_str(&mut r, "\x1b[0m\n");
            let mut len = decimal_u64(out.input_length as u64);
            push_str(&mut len, " 字符");
            push_info_line(&mut r, "输入长度", len.as_str());
        },
        ToolOutput::VideoConcat(rep) => {
            push_concat_report(&mut r, rep);
        },
    }
    assert(r@ =~= output_text(*output));
    r
}

/// The text the `list` command prints for the tools' listing.
pub fn list_output(ms: &Vec<ToolMetadata>) -> (r: String)
    ensures
        r@ == list_text(ms@),
{
    if ms.len() == 0 {
        return String::from_str("暂无可用工具\n");
    }
    let mut r = String::from_str("\n  \x1b[1m🛠  可用工具 (");
    push_number(&mut r, ms.len() as u64);
    push_str(&mut r, ")\x1b[0m\n\n");
    let ghost start = r@;
    let mut i: usize = 0;
    while i < ms.len()
        invariant
            i <= ms@.len(),
            r@ == start + list_body(ms@.take(i as int)),
        decreases ms.len() - i,
    {
        let ghost before = r@;
        let m = ms[i];
        assert(ms@.take(i + 1).drop_last() =~= ms@.take(i as int));
        assert(ms@.take(i + 1).last() == m);
        let label = m.category.label();
        let new_group = if i == 0 {
            true
        } else {
            assert(ms@.take(i + 1)[i - 1] == ms@[i - 1]);
            !str_equal(ms[i - 1].category.label(), label)
        };
        if new_group {
            push_str(&mut r, "  \x1b[33m[");
            push_str(&mut r, label);
            push_str(&mut r, "]\x1b[0m\n");
        }
        push_str(&mut r, "    \x1b[36m");
        push_padded(&mut r, m.id, 22);
        push_str(&mut r, "\x1b[0m ");
        push_str(&mut r, m.name);
        push_str(&mut r, "\n");
        assert(r@ =~= start + list_body(ms@.take(i + 1)));
        i = i + 1;
    }
    assert(ms@.take(ms@.len() as int) =~= ms@);
    push_str(&mut r, "\n");
    r
}

} // verus!
