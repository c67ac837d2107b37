//! The `json-format` tool: JSON pretty-printed with a chosen indent.

use vstd::prelude::*;
use crate::category::ToolCategory;
use crate::error::{ExJsonError, ToolError, is_invalid_input, json_error_text};
use crate::request::{missing_input_message, require_input};
use crate::text::{chars_of, push_str, string_of};
use crate::json_validator::json_read;
use crate::tool::Tool;

verus! {

/// Whether `serde_json::from_str::<serde_json::Value>` accepts `text`.
pub open spec fn json_parses(text: Seq<char>) -> bool {
    json_read(text) is Ok
}

/// `serde_json::to_string_pretty` of the value that `text` holds (two-space
/// indent, one member or element per line).
pub uninterp spec fn json_pretty(text: Seq<char>) -> Seq<char>;

/// Why pretty-printing failed.
pub enum JsonFailure {
    /// The text is not JSON.
    Parse(serde_json::Error),
    /// The parsed value could not be written back.
    Serialize(serde_json::Error),
}

/// `serde_json::from_str::<Value>` followed by `serde_json::to_string_pretty`;
/// writing a `Value` back cannot fail (its map keys are strings).
#[verifier::external_body]
fn parse_and_pretty_print(text: &str) -> (r: Result<String, JsonFailure>)
    ensures
        r is Ok <==> json_parses(text@),
        r matches Err(JsonFailure::Parse(_)) <==> !json_parses(text@),
        r matches Ok(s) ==> s@ == json_pretty(text@),
{
    match serde_json::from_str::<serde_json::Value>(text) {
        Ok(v) => match serde_json::to_string_pretty(&v) {
            Ok(s) => Ok(s),
            Err(e) => Err(JsonFailure::Serialize(e)),
        },
        Err(e) => Err(JsonFailure::Parse(e)),
    }
}

/// The pieces of `s` between `\n` characters (one more than there are `\n`).
pub open spec fn segments(s: Seq<char>) -> Seq<Seq<char>>
    decreases s.len(),
{
    if s.len() == 0 {
        seq![Seq::empty()]
    } else {
        let prev = segments(s.drop_last());
        if s.last() == '\n' {
            prev.push(Seq::empty())
        } else {
            prev.update(prev.len() - 1, prev.last().push(s.last()))
        }
    }
}

/// A line without its trailing `\r`.
pub open spec fn strip_cr(l: Seq<char>) -> Seq<char> {
    if l.len() > 0 && l.last() == '\r' {
        l.drop_last()
    } else {
        l
    }
}

/// The lines of `s` (`str::lines`): split at `\n`, a final `\n` ends the
/// last line rather than starting an empty one, and a `\r` just before a
/// `\n` is dropped (a `\r` ending an unterminated last line stays).
pub open spec fn text_lines(s: Seq<char>) -> Seq<Seq<char>> {
    if s.len() == 0 {
        Seq::empty()
    } else {
        let segs = segments(s);
        let ended = segs.take(segs.len() - 1).map_values(|l: Seq<char>| strip_cr(l));
        if s.last() == '\n' {
            ended
        } else {
            ended.push(segs.last())
        }
    }
}

proof fn lemma_segments_nonempty(s: Seq<char>)
    ensures
        segments(s).len() >= 1,
    decreases s.len(),
{
    if s.len() > 0 {
        lemma_segments_nonempty(s.drop_last());
    }
}

/// The number of leading two-space pairs of a line.
pub open spec fn space_pairs(l: Seq<char>) -> nat
    decreases l.len(),
{
    if l.len() >= 2 && l[0] == ' ' && l[1] == ' ' {
        space_pairs(l.skip(2)) + 1
    } else {
        0
    }
}

/// `n` spaces.
pub open spec fn spaces(n: nat) -> Seq<char> {
    Seq::new(n, |i: int| ' ')
}

/// A line with each leading two-space pair replaced by `indent` spaces.
pub open spec fn reindent_line(l: Seq<char>, indent: nat) -> Seq<char> {
    spaces(space_pairs(l) * indent) + l.skip(2 * space_pairs(l) as int)
}

/// Lines joined with `\n` between them.
pub open spec fn join_lines(ls: Seq<Seq<char>>) -> Seq<char>
    decreases ls.len(),
{
    if ls.len() == 0 {
        Seq::empty()
    } else if ls.len() == 1 {
        ls[0]
    } else {
        join_lines(ls.drop_last()) + seq!['\n'] + ls.last()
    }
}

/// Pretty-printed JSON re-indented: each line's leading two-space pairs
/// become `indent` spaces each.
pub open spec fn reindented(s: Seq<char>, indent: nat) -> Seq<char> {
    join_lines(text_lines(s).map_values(|l: Seq<char>| reindent_line(l, indent)))
}

/// The indent a request asks for: `indent` clamped to 0..=8, 2 by default.
pub open spec fn requested_indent(indent: Option<i64>) -> nat {
    match indent {
        Some(n) => if n < 0 {
            0
        } else if n > 8 {
            8
        } else {
            n as nat
        },
        None => 2,
    }
}

/// The text the tool answers for JSON `text` and an indent.
pub open spec fn formatted_json(text: Seq<char>, indent: nat) -> Seq<char> {
    if indent == 2 {
        json_pretty(text)
    } else {
        reindented(json_pretty(text), indent)
    }
}

/// The segments of `s` between `\n` characters.
fn split_segments(cs: &Vec<char>) -> (r: Vec<Vec<char>>)
    ensures
        r@.map_values(|l: Vec<char>| l@) == segments(cs@),
{
    let mut segs: Vec<Vec<char>> = Vec::new();
    segs.push(Vec::new());
    assert(segs@.map_values(|l: Vec<char>| l@) =~= segments(cs@.take(0)));
    let mut i: usize = 0;
    while i < cs.len()
        invariant
            i <= cs@.len(),
            segs@.map_values(|l: Vec<char>| l@) == segments(cs@.take(i as int)),
            segs@.len() > 0,
        decreases cs.len() - i,
    {
        let c = cs[i];
        let ghost before = segs@;
        assert(cs@.take(i + 1).drop_last() =~= cs@.take(i as int));
        if c == '\n' {
            segs.push(Vec::new());
            assert(segs@.map_values(|l: Vec<char>| l@) =~= before.map_values(|l: Vec<char>| l@).push(
                Seq::empty(),
            ));
        } else {
            let mut last = segs.pop().unwrap();
            last.push(c);
            segs.push(last);
            let ghost bv = before.map_values(|l: Vec<char>| l@);
            assert(segs@.map_values(|l: Vec<char>| l@) =~= bv.update(bv.len() - 1, bv.last().push(c)));
        }
        i = i + 1;
    }
    assert(cs@.take(cs@.len() as int) =~= cs@);
    segs
}

proof fn lemma_space_pairs(l: Seq<char>, p: int)
    requires
        0 <= p,
        2 * p <= l.len(),
        forall|j: int| 0 <= j < 2 * p ==> #[trigger] l[j] == ' ',
        !(2 * p + 2 <= l.len() && l[2 * p] == ' ' && l[2 * p + 1] == ' '),
    ensures
        space_pairs(l) == p,
    decreases p,
{
    if p > 0 {
        let t = l.skip(2);
        assert forall|j: int| 0 <= j < 2 * (p - 1) implies #[trigger] t[j] == ' ' by {
            assert(t[j] == l[j + 2]);
        }
        assert(l[0] == ' ' && l[1] == ' ');
        lemma_space_pairs(t, p - 1);
    }
}

/// A line with each leading two-space pair replaced by `indent` spaces.
fn reindent_one(l: &Vec<char>, indent: usize) -> (r: Vec<char>)
    ensures
        r@ == reindent_line(l@, indent as nat),
{
    let n = l.len();
    let mut p: usize = 0;
    while n - p >= 2 && l[p] == ' ' && l[p + 1] == ' '
        invariant
            p % 2 == 0,
            p <= n,
            n == l@.len(),
            forall|j: int| 0 <= j < p ==> #[trigger] l@[j] == ' ',
        decreases n - p,
    {
        p = p + 2;
    }
    proof {
        lemma_space_pairs(l@, (p / 2) as int);
    }
    let mut out: Vec<char> = Vec::new();
    let mut j: usize = 0;
    while j < p / 2
        invariant
            j <= p / 2,
            out@ == spaces((j * indent) as nat),
        decreases p / 2 - j,
    {
        let mut m: usize = 0;
        while m < indent
            invariant
                m <= indent,
                out@ == spaces((j * indent + m) as nat),
            decreases indent - m,
        {
            out.push(' ');
            m = m + 1;
            assert(out@ =~= spaces((j * indent + m) as nat));
        }
        assert((j + 1) * indent == j * indent + indent) by (nonlinear_arith);
        j = j + 1;
    }
    let mut k = p;
    while k < n
        invariant
            p <= k <= n,
            n == l@.len(),
            out@ == spaces(((p / 2) * indent) as nat) + l@.subrange(p as int, k as int),
        decreases n - k,
    {
        out.push(l[k]);
        k = k + 1;
        assert(out@ =~= spaces(((p / 2) * indent) as nat) + l@.subrange(p as int, k as int));
    }
    assert(l@.subrange(p as int, n as int) =~= l@.skip(2 * space_pairs(l@) as int));
    assert(space_pairs(l@) * (indent as nat) == (p / 2) * indent);
    out
}

/// Re-indents pretty-printed JSON (see [`reindented`]).
pub fn reindent(s: &str, indent: usize) -> (r: String)
    ensures
        r@ == reindented(s@, indent as nat),
{
    let cs = chars_of(s);
    let mut segs = split_segments(&cs);
    let ghost sv = segs@.map_values(|l: Vec<char>| l@);
    if cs.len() == 0 {
        segs = Vec::new();
    } else if cs[cs.len() - 1] == '\n' {
        segs.pop();
    }
    let open_end = cs.len() > 0 && cs[cs.len() - 1] != '\n';
    let ghost lines = text_lines(cs@);
    proof {
        lemma_segments_nonempty(cs@);
        assert(lines.len() == segs@.len());
        assert forall|j: int| 0 <= j < segs@.len() implies #[trigger] lines[j] == (if open_end && j == segs@.len() - 1 {
            segs@[j]@
        } else {
            strip_cr(segs@[j]@)
        }) by {
            if open_end && j == segs@.len() - 1 {
            } else {
                assert(j < sv.len() - 1);
            }
        }
    }
    let ghost target = lines.map_values(|l: Seq<char>| reindent_line(l, indent as nat));
    let mut out: Vec<char> = Vec::new();
    let mut k: usize = 0;
    while k < segs.len()
        invariant
            k <= segs@.len(),
            lines.len() == segs@.len(),
            target == lines.map_values(|l: Seq<char>| reindent_line(l, indent as nat)),
            forall|j: int| 0 <= j < segs@.len() ==> #[trigger] lines[j] == (if open_end && j == segs@.len() - 1 {
                segs@[j]@
            } else {
                strip_cr(segs@[j]@)
            }),
            out@ == join_lines(target.take(k as int)),
        decreases segs.len() - k,
    {
        let seg = &segs[k];
        let mut line: Vec<char> = Vec::new();
        let len = seg.len();
        let last_open = open_end && k + 1 == segs.len();
        let keep = if !last_open && len > 0 && seg[len - 1] == '\r' { len - 1 } else { len };
        let mut m: usize = 0;
        while m < keep
            invariant
                m <= keep,
                keep <= len,
                len == seg@.len(),
                line@ == seg@.take(m as int),
            decreases keep - m,
        {
            line.push(seg[m]);
            m = m + 1;
            assert(line@ =~= seg@.take(m as int));
        }
        if last_open {
            assert(line@ =~= seg@);
        } else {
            assert(line@ =~= strip_cr(seg@));
        }
        assert(line@ == lines[k as int]);
        let piece = reindent_one(&line, indent);
        assert(target.take(k + 1).drop_last() =~= target.take(k as int));
        if k > 0 {
            out.push('\n');
        }
        let mut q: usize = 0;
        let ghost base = out@;
        while q < piece.len()
            invariant
                q <= piece@.len(),
                out@ == base + piece@.take(q as int),
            decreases piece.len() - q,
        {
            out.push(piece[q]);
            q = q + 1;
            assert(out@ =~= base + piece@.take(q as int));
        }
        assert(piece@.take(piece@.len() as int) =~= piece@);
        proof {
            if k == 0 {
                assert(base =~= Seq::<char>::empty());
            }
        }
        k = k + 1;
    }
    assert(target.take(segs@.len() as int) =~= target);
    string_of(&out)
}

/// The `json-format` tool's request.
pub struct JsonFormatInput {
    /// The `input` field, when it is a string.
    pub input: Option<String>,
    /// The `indent` field, when it is an integer (default 2).
    pub indent: Option<i64>,
}

/// The `json-format` tool.
#[derive(Clone, Copy)]
pub struct JsonFormatter;

impl Tool for JsonFormatter {
    open spec fn spec_id(&self) -> Seq<char> {
        "json-format"@
    }

    open spec fn spec_name(&self) -> Seq<char> {
        "JSON 格式化"@
    }

    open spec fn spec_description(&self) -> Seq<char> {
        "将 JSON 字符串格式化为缩进良好的可读形式"@
    }

    open spec fn spec_category(&self) -> ToolCategory {
        ToolCategory::Json
    }

    open spec fn spec_cpu_intensive(&self) -> bool {
        true
    }

    fn id(&self) -> &'static str {
        "json-format"
    }

    fn name(&self) -> &'static str {
        "JSON 格式化"
    }

    fn description(&self) -> &'static str {
        "将 JSON 字符串格式化为缩进良好的可读形式"
    }

    fn category(&self) -> ToolCategory {
        ToolCategory::Json
    }

    fn is_cpu_intensive(&self) -> bool {
        true
    }
}

/// The start of the message for text that is not JSON (the parser's
/// reason follows).
pub open spec fn parse_failure_prefix() -> Seq<char> {
    "JSON 解析失败: "@
}

/// The indent a request asks for.
pub fn indent_of(indent: Option<i64>) -> (r: usize)
    ensures
        r == requested_indent(indent),
        r <= 8,
{
    match indent {
        Some(n) => if n < 0 {
            0
        } else if n > 8 {
            8
        } else {
            n as usize
        },
        None => 2,
    }
}

impl JsonFormatter {
    /// Pretty-prints the request's `input` with the requested indent; the
    /// answer's `result`.
    pub fn execute(&self, req: JsonFormatInput) -> (r: Result<String, ToolError>)
        ensures
            req.input is None ==> (r matches Err(e) && is_invalid_input(e, missing_input_message())),
            req.input matches Some(s) ==> (r is Ok <==> json_parses(s@)),
            req.input matches Some(s) ==> (r matches Ok(out) ==> out@ == formatted_json(s@, requested_indent(req.indent))),
            req.input is Some ==> (r matches Err(e) ==> e matches ToolError::InvalidInput(m) && m@.take(
                parse_failure_prefix().len() as int,
            ) == parse_failure_prefix()),
    {
        let input = require_input(req.input)?;
        let indent = indent_of(req.indent);
        match parse_and_pretty_print(input.as_str()) {
            Ok(pretty) => {
                if indent != 2 {
                    Ok(reindent(pretty.as_str(), indent))
                } else {
                    Ok(pretty)
                }
            },
            Err(JsonFailure::Parse(e)) => {
                let mut msg = String::from_str("JSON 解析失败: ");
                let ghost head = msg@;
                let detail = json_error_text(&e);
                push_str(&mut msg, detail.as_str());
                assert(msg@.take(head.len() as int) =~= head);
                Err(ToolError::InvalidInput(msg))
            },
            Err(JsonFailure::Serialize(e)) => {
                let mut msg = String::from_str("序列化失败: ");
                let detail = json_error_text(&e);
                push_str(&mut msg, detail.as_str());
                Err(ToolError::ExecutionError(msg))
            },
        }
    }
}

} // verus!
