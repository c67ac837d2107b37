//! The `ts-to-date` and `date-to-ts` tools: Unix timestamps and UTC dates.

use std::fmt::Write;
use vstd::prelude::*;
use crate::category::ToolCategory;
use crate::error::{ToolError, is_invalid_input};
use crate::text::{chars_of, decimal_u64, digit_char, nat_digits, push_str, string_of};
use crate::tool::Tool;

verus! {

/// The value of a decimal digit.
pub open spec fn digit_value(c: char) -> int {
    (c as u32) - 48
}

/// All characters are ASCII digits.
pub open spec fn all_digits(d: Seq<char>) -> bool {
    forall|i: int| 0 <= i < d.len() ==> '0' <= #[trigger] d[i] <= '9'
}

/// The number a string of decimal digits denotes.
pub open spec fn decimal_value(d: Seq<char>) -> int
    decreases d.len(),
{
    if d.len() == 0 {
        0
    } else {
        10 * decimal_value(d.drop_last()) + digit_value(d.last())
    }
}

/// `str::parse::<i64>`: an optional `+` or `-`, then one or more ASCII
/// digits, denoting a number in the range of `i64`.
pub open spec fn parse_i64_text(s: Seq<char>) -> Option<i64> {
    let negative = s.len() > 0 && s[0] == '-';
    let digits = if s.len() > 0 && (s[0] == '+' || s[0] == '-') {
        s.drop_first()
    } else {
        s
    };
    let v = if negative {
        -decimal_value(digits)
    } else {
        decimal_value(digits)
    };
    if digits.len() > 0 && all_digits(digits) && i64::MIN <= v <= i64::MAX {
        Some(v as i64)
    } else {
        None
    }
}

/// The decimal text of an integer (`to_string`).
pub open spec fn decimal_text(n: int) -> Seq<char> {
    if n < 0 {
        seq!['-'] + nat_digits((-n) as nat)
    } else {
        nat_digits(n as nat)
    }
}

pub(crate) proof fn lemma_decimal_monotone(d: Seq<char>, k: int)
    requires
        0 <= k <= d.len(),
        all_digits(d),
    ensures
        decimal_value(d.take(k)) <= decimal_value(d),
        decimal_value(d) >= 0,
    decreases d.len(),
{
    if d.len() > 0 {
        let p = d.drop_last();
        assert(all_digits(p));
        if k < d.len() {
            assert(p.take(k) =~= d.take(k));
            lemma_decimal_monotone(p, k);
        } else {
            assert(d.take(k) =~= d);
            lemma_decimal_monotone(p, 0);
        }
    } else {
        assert(d.take(k) =~= d);
    }
}

/// Parses a decimal `i64` the way `str::parse::<i64>` does.
#[verifier::rlimit(40)]
pub fn parse_i64(s: &str) -> (r: Option<i64>)
    ensures
        r == parse_i64_text(s@),
{
    let cs = chars_of(s);
    let n = cs.len();
    if n == 0 {
        return None;
    }
    let negative = cs[0] == '-';
    let start: usize = if cs[0] == '+' || cs[0] == '-' { 1 } else { 0 };
    let ghost digits = cs@.skip(start as int);
    assert(digits =~= if cs@[0] == '+' || cs@[0] == '-' { cs@.drop_first() } else { cs@ });
    if start == n {
        return None;
    }
    let limit: i128 = 9223372036854775808;
    let mut v: i128 = 0;
    let mut i = start;
    while i < n
        invariant
            start <= i <= n,
            n == cs@.len(),
            digits == cs@.skip(start as int),
            digits == if cs@[0] == '+' || cs@[0] == '-' { cs@.drop_first() } else { cs@ },
            cs@ == s@,
            n > 0,
            negative == (cs@[0] == '-'),
            all_digits(digits.take(i - start)),
            v == decimal_value(digits.take(i - start)),
            0 <= v <= limit,
            limit == 9223372036854775808,
        decreases n - i,
    {
        let c = cs[i];
        assert(digits.take(i - start + 1).drop_last() =~= digits.take(i - start));
        assert(digits[i - start] == c);
        if c < '0' || c > '9' {
            assert(!all_digits(digits));
            assert(parse_i64_text(cs@) is None);
            return None;
        }
        v = v * 10 + ((c as u32) - 48) as i128;
        i = i + 1;
        assert(all_digits(digits.take(i - start)));
        if v > limit {
            proof {
                if all_digits(digits) {
                    lemma_decimal_monotone(digits, i - start);
                    assert(decimal_value(digits) > limit);
                }
            }
            return None;
        }
    }
    assert(digits.take(n - start) =~= digits);
    if negative {
        Some((0 - v) as i64)
    } else if v <= 9223372036854775807 {
        Some(v as i64)
    } else {
        None
    }
}

/// The decimal text of an `i64` (`to_string`).
pub fn decimal_of(n: i64) -> (r: String)
    ensures
        r@ == decimal_text(n as int),
{
    if n < 0 {
        let m: u64 = (0 - (n as i128)) as u64;
        let digits = decimal_u64(m);
        let mut r = String::from_str("-");
        push_str(&mut r, digits.as_str());
        proof {
            reveal_strlit("-");
        }
        r
    } else {
        decimal_u64(n as u64)
    }
}

/// Whether `chrono::DateTime::<Utc>::from_timestamp(secs, nsecs)` gives a
/// date (the instant is within chrono's date range).
pub uninterp spec fn utc_in_range(secs: i64, nsecs: u32) -> bool;

/// The text that `format(fmt)` writes for that UTC date, or `None` when
/// writing fails (an unknown `%` directive).
pub uninterp spec fn utc_strftime(secs: i64, nsecs: u32, fmt: Seq<char>) -> Option<Seq<char>>;

/// `to_rfc3339()` of that UTC date.
pub uninterp spec fn utc_rfc3339(secs: i64, nsecs: u32) -> Seq<char>;

/// The Unix time (seconds, milliseconds) of an RFC 3339 date-time
/// (`DateTime::parse_from_rfc3339`), if `s` is one.
pub uninterp spec fn rfc3339_timestamp(s: Seq<char>) -> Option<(i64, i64)>;

/// The Unix time (seconds, milliseconds) of the date-time `s` in format
/// `fmt`, taken as UTC (`NaiveDateTime::parse_from_str`), if it parses.
pub uninterp spec fn naive_datetime_timestamp(s: Seq<char>, fmt: Seq<char>) -> Option<(i64, i64)>;

/// The Unix time (seconds, milliseconds) of midnight UTC on the date `s` in
/// format `fmt` (`NaiveDate::parse_from_str`), if it parses.
pub uninterp spec fn naive_date_timestamp(s: Seq<char>, fmt: Seq<char>) -> Option<(i64, i64)>;

/// `DateTime::from_timestamp(secs, nsecs).is_some()`.
#[verifier::external_body]
fn utc_valid(secs: i64, nsecs: u32) -> (r: bool)
    ensures
        r == utc_in_range(secs, nsecs),
{
    chrono::DateTime::from_timestamp(secs, nsecs).is_some()
}

/// Writes `DateTime::from_timestamp(secs, nsecs)` with `format(fmt)`;
/// `None` when the formatter reports an error.
#[verifier::external_body]
fn utc_format(secs: i64, nsecs: u32, fmt: &str) -> (r: Option<String>)
    requires
        utc_in_range(secs, nsecs),
    ensures
        r is Some <==> utc_strftime(secs, nsecs, fmt@) is Some,
        r matches Some(t) ==> utc_strftime(secs, nsecs, fmt@) == Some(t@),
{
    let dt = chrono::DateTime::from_timestamp(secs, nsecs).unwrap();
    let mut out = String::new();
    match write!(out, "{}", dt.format(fmt)) {
        Ok(()) => Some(out),
        Err(_) => None,
    }
}

/// `DateTime::from_timestamp(secs, nsecs).to_rfc3339()`.
#[verifier::external_body]
fn utc_rfc3339_text(secs: i64, nsecs: u32) -> (r: String)
    requires
        utc_in_range(secs, nsecs),
    ensures
        r@ == utc_rfc3339(secs, nsecs),
{
    chrono::DateTime::from_timestamp(secs, nsecs).unwrap().to_rfc3339()
}

/// `DateTime::parse_from_rfc3339(s)`, as (`timestamp()`, `timestamp_millis()`).
#[verifier::external_body]
fn parse_rfc3339(s: &str) -> (r: Option<(i64, i64)>)
    ensures
        r == rfc3339_timestamp(s@),
{
    match chrono::DateTime::parse_from_rfc3339(s) {
        Ok(dt) => Some((dt.timestamp(), dt.timestamp_millis())),
        Err(_) => None,
    }
}

/// `NaiveDateTime::parse_from_str(s, fmt)` taken as UTC, as (`timestamp()`,
/// `timestamp_millis()`).
#[verifier::external_body]
fn parse_naive_datetime(s: &str, fmt: &str) -> (r: Option<(i64, i64)>)
    ensures
        r == naive_datetime_timestamp(s@, fmt@),
{
    match chrono::NaiveDateTime::parse_from_str(s, fmt) {
        Ok(dt) => Some((dt.and_utc().timestamp(), dt.and_utc().timestamp_millis())),
        Err(_) => None,
    }
}

/// `NaiveDate::parse_from_str(s, fmt)` at 00:00:00 UTC, as (`timestamp()`,
/// `timestamp_millis()`).
#[verifier::external_body]
fn parse_naive_date(s: &str, fmt: &str) -> (r: Option<(i64, i64)>)
    ensures
        r == naive_date_timestamp(s@, fmt@),
{
    match chrono::NaiveDate::parse_from_str(s, fmt) {
        Ok(d) => match d.and_hms_opt(0, 0, 0) {
            Some(dt) => Some((dt.and_utc().timestamp(), dt.and_utc().timestamp_millis())),
            None => None,
        },
        Err(_) => None,
    }
}

/// The `ts-to-date` tool's request.
pub struct TsToDateInput {
    /// The `timestamp` field, when it is a string.
    pub timestamp_text: Option<String>,
    /// The `timestamp` field, when it is an integer.
    pub timestamp_int: Option<i64>,
    /// The `format` field, when it is a string (default `%Y-%m-%d %H:%M:%S`).
    pub format: Option<String>,
}

/// The `ts-to-date` tool's answer.
pub struct TsToDateOutput {
    /// The date written with the requested format.
    pub result: String,
    /// The date in RFC 3339.
    pub iso_8601: String,
    /// The timestamp in seconds.
    pub timestamp_secs: i64,
    /// The timestamp as given.
    pub timestamp_ms: i64,
}

/// The timestamp text of a request: the string, else the integer written
/// in decimal, else empty.
pub open spec fn timestamp_source(req: TsToDateInput) -> Seq<char> {
    match req.timestamp_text {
        Some(t) => t@,
        None => match req.timestamp_int {
            Some(n) => decimal_text(n as int),
            None => Seq::empty(),
        },
    }
}

/// The format of a request.
pub open spec fn date_format(req: TsToDateInput) -> Seq<char> {
    match req.format {
        Some(f) => f@,
        None => "%Y-%m-%d %H:%M:%S"@,
    }
}

/// A timestamp above 10^12 is in milliseconds, else in seconds: the
/// (seconds, nanoseconds) it denotes.
pub open spec fn split_timestamp(ts: i64) -> (i64, u32) {
    if ts > 1_000_000_000_000 {
        ((ts / 1000) as i64, ((ts % 1000) * 1_000_000) as u32)
    } else {
        (ts, 0)
    }
}

/// The request's date can be written in its format (chrono's formatter
/// fails on a format it cannot write, and writing it to a string then
/// panics).
pub open spec fn ts_format_renders(req: TsToDateInput) -> bool {
    match parse_i64_text(timestamp_source(req)) {
        Some(ts) => {
            let (secs, nsecs) = split_timestamp(ts);
            utc_in_range(secs, nsecs) ==> utc_strftime(secs, nsecs, date_format(req)) is Some
        },
        None => true,
    }
}

/// What `ts-to-date` answers a request.
pub open spec fn ts_to_date_answer(req: TsToDateInput, r: Result<TsToDateOutput, ToolError>) -> bool {
    let text = timestamp_source(req);
    match parse_i64_text(text) {
        None => r matches Err(e) && is_invalid_input(e, "无效的时间戳: "@ + text),
        Some(ts) => {
            let (secs, nsecs) = split_timestamp(ts);
            if !utc_in_range(secs, nsecs) {
                r matches Err(e) && is_invalid_input(e, "时间戳超出范围"@)
            } else {
                r matches Ok(out) && {
                    &&& Some(out.result@) == utc_strftime(secs, nsecs, date_format(req))
                    &&& out.iso_8601@ == utc_rfc3339(secs, nsecs)
                    &&& out.timestamp_secs == secs
                    &&& out.timestamp_ms == ts
                }
            }
        },
    }
}

fn split_ts(ts: i64) -> (r: (i64, u32))
    ensures
        r == split_timestamp(ts),
{
    if ts > 1_000_000_000_000 {
        (ts / 1000, ((ts % 1000) * 1_000_000) as u32)
    } else {
        (ts, 0)
    }
}

fn timestamp_text_of(req: &TsToDateInput) -> (r: String)
    ensures
        r@ == timestamp_source(*req),
{
    match &req.timestamp_text {
        Some(t) => t.clone(),
        None => match req.timestamp_int {
            Some(n) => decimal_of(n),
            None => String::new(),
        },
    }
}

fn format_of(req: &TsToDateInput) -> (r: String)
    ensures
        r@ == date_format(*req),
{
    match &req.format {
        Some(f) => f.clone(),
        None => String::from_str("%Y-%m-%d %H:%M:%S"),
    }
}

/// Converts a Unix timestamp (seconds, or milliseconds above 10^12) to a
/// UTC date written in the requested format and in RFC 3339.
pub fn timestamp_to_date(req: &TsToDateInput) -> (r: Result<TsToDateOutput, ToolError>)
    requires
        ts_format_renders(*req),
    ensures
        ts_to_date_answer(*req, r),
{
    let text = timestamp_text_of(req);
    let ts = match parse_i64(text.as_str()) {
        Some(ts) => ts,
        None => {
            let mut msg = String::from_str("无效的时间戳: ");
            push_str(&mut msg, text.as_str());
            return Err(ToolError::InvalidInput(msg));
        },
    };
    let fmt = format_of(req);
    let (secs, nsecs) = split_ts(ts);
    if !utc_valid(secs, nsecs) {
        return Err(ToolError::InvalidInput(String::from_str("时间戳超出范围")));
    }
    let result = match utc_format(secs, nsecs, fmt.as_str()) {
        Some(t) => t,
        None => {
            return Err(ToolError::InternalError(String::new()));
        },
    };
    let iso = utc_rfc3339_text(secs, nsecs);
    Ok(TsToDateOutput { result, iso_8601: iso, timestamp_secs: secs, timestamp_ms: ts })
}

/// [`timestamp_to_date`] for any request: `None` when the date cannot be
/// written in the requested format.
pub fn try_timestamp_to_date(req: &TsToDateInput) -> (r: Option<Result<TsToDateOutput, ToolError>>)
    ensures
        r is None <==> !ts_format_renders(*req),
        r matches Some(a) ==> ts_to_date_answer(*req, a),
{
    let text = timestamp_text_of(req);
    if let Some(ts) = parse_i64(text.as_str()) {
        let (secs, nsecs) = split_ts(ts);
        if utc_valid(secs, nsecs) {
            let fmt = format_of(req);
            if utc_format(secs, nsecs, fmt.as_str()).is_none() {
                return None;
            }
        }
    }
    Some(timestamp_to_date(req))
}

/// The `date-to-ts` tool's request.
pub struct DateToTsInput {
    /// The `date` field, when it is a string.
    pub date: Option<String>,
}

/// The `date-to-ts` tool's answer.
pub struct DateToTsOutput {
    pub timestamp_secs: i64,
    pub timestamp_ms: i64,
}

/// The Unix time of a date text, trying in turn RFC 3339,
/// `%Y-%m-%d %H:%M:%S`, `%Y-%m-%dT%H:%M:%S` (both UTC) and `%Y-%m-%d`
/// (midnight UTC).
pub open spec fn date_timestamp(s: Seq<char>) -> Option<(i64, i64)> {
    if rfc3339_timestamp(s) is Some {
        rfc3339_timestamp(s)
    } else if naive_datetime_timestamp(s, "%Y-%m-%d %H:%M:%S"@) is Some {
        naive_datetime_timestamp(s, "%Y-%m-%d %H:%M:%S"@)
    } else if naive_datetime_timestamp(s, "%Y-%m-%dT%H:%M:%S"@) is Some {
        naive_datetime_timestamp(s, "%Y-%m-%dT%H:%M:%S"@)
    } else {
        naive_date_timestamp(s, "%Y-%m-%d"@)
    }
}

/// The Unix time of a date text (see [`date_timestamp`]).
pub fn date_to_timestamp(s: &str) -> (r: Result<DateToTsOutput, ToolError>)
    ensures
        date_timestamp(s@) matches Some(p) ==> r matches Ok(out) && out.timestamp_secs == p.0 && out.timestamp_ms == p.1,
        date_timestamp(s@) is None ==> (r matches Err(e) && is_invalid_input(e, "无法解析日期: "@ + s@)),
{
    let found = match parse_rfc3339(s) {
        Some(p) => Some(p),
        None => match parse_naive_datetime(s, "%Y-%m-%d %H:%M:%S") {
            Some(p) => Some(p),
            None => match parse_naive_datetime(s, "%Y-%m-%dT%H:%M:%S") {
                Some(p) => Some(p),
                None => parse_naive_date(s, "%Y-%m-%d"),
            },
        },
    };
    match found {
        Some((secs, ms)) => Ok(DateToTsOutput { timestamp_secs: secs, timestamp_ms: ms }),
        None => {
            let mut msg = String::from_str("无法解析日期: ");
            push_str(&mut msg, s);
            Err(ToolError::InvalidInput(msg))
        },
    }
}

/// The `ts-to-date` tool.
#[derive(Clone, Copy)]
pub struct TimestampToDate;

/// The `date-to-ts` tool.
#[derive(Clone, Copy)]
pub struct DateToTimestamp;

impl Tool for TimestampToDate {
    open spec fn spec_id(&self) -> Seq<char> {
        "ts-to-date"@
    }

    open spec fn spec_name(&self) -> Seq<char> {
        "时间戳 → 日期"@
    }

    open spec fn spec_description(&self) -> Seq<char> {
        "将 Unix 时间戳转换为可读的日期时间字符串"@
    }

    open spec fn spec_category(&self) -> ToolCategory {
        ToolCategory::DateTime
    }

    open spec fn spec_cpu_intensive(&self) -> bool {
        false
    }

    fn id(&self) -> &'static str {
        "ts-to-date"
    }

    fn name(&self) -> &'static str {
        "时间戳 → 日期"
    }

    fn description(&self) -> &'static str {
        "将 Unix 时间戳转换为可读的日期时间字符串"
    }

    fn category(&self) -> ToolCategory {
        ToolCategory::DateTime
    }

    fn is_cpu_intensive(&self) -> bool {
        false
    }
}

impl Tool for DateToTimestamp {
    open spec fn spec_id(&self) -> Seq<char> {
        "date-to-ts"@
    }

    open spec fn spec_name(&self) -> Seq<char> {
        "日期 → 时间戳"@
    }

    open spec fn spec_description(&self) -> Seq<char> {
        "将日期时间字符串转换为 Unix 时间戳"@
    }

    open spec fn spec_category(&self) -> ToolCategory {
        ToolCategory::DateTime
    }

    open spec fn spec_cpu_intensive(&self) -> bool {
        false
    }

    fn id(&self) -> &'static str {
        "date-to-ts"
    }

    fn name(&self) -> &'static str {
        "日期 → 时间戳"
    }

    fn description(&self) -> &'static str {
        "将日期时间字符串转换为 Unix 时间戳"
    }

    fn category(&self) -> ToolCategory {
        ToolCategory::DateTime
    }

    fn is_cpu_intensive(&self) -> bool {
        false
    }
}

impl TimestampToDate {
    /// Converts the request's timestamp; `None` when the date cannot be
    /// written in the requested format.
    pub fn execute(&self, req: TsToDateInput) -> (r: Option<Result<TsToDateOutput, ToolError>>)
        ensures
            r is None <==> !ts_format_renders(req),
            r matches Some(a) ==> ts_to_date_answer(req, a),
    {
        try_timestamp_to_date(&req)
    }
}

impl DateToTimestamp {
    /// The Unix time of the request's `date`.
    pub fn execute(&self, req: DateToTsInput) -> (r: Result<DateToTsOutput, ToolError>)
        ensures
            req.date is None ==> (r matches Err(e) && is_invalid_input(e, "缺少 date 字段"@)),
            req.date matches Some(s) ==> (date_timestamp(s@) matches Some(p) ==> r matches Ok(out)
                && out.timestamp_secs == p.0 && out.timestamp_ms == p.1),
            req.date matches Some(s) ==> (date_timestamp(s@) is None ==> (r matches Err(e)
                && is_invalid_input(e, "无法解析日期: "@ + s@))),
    {
        match req.date {
            Some(s) => date_to_timestamp(s.as_str()),
            None => Err(ToolError::InvalidInput(String::from_str("缺少 date 字段"))),
        }
    }
}

/// A timestamp written in decimal reads back as itself.
pub proof fn law_decimal_roundtrip(n: i64)
    ensures
        parse_i64_text(decimal_text(n as int)) == Some(n),
{
    lemma_nat_digits((if n < 0 { -n } else { n as int }) as nat);
    let s = decimal_text(n as int);
    if n < 0 {
        assert(s.drop_first() =~= nat_digits((-n) as nat));
    }
}

proof fn lemma_nat_digits(m: nat)
    ensures
        nat_digits(m).len() > 0,
        nat_digits(m)[0] != '-' && nat_digits(m)[0] != '+',
        all_digits(nat_digits(m)),
        decimal_value(nat_digits(m)) == m,
    decreases m,
{
    let k = (m % 10) as int;
    assert(digit_char(k) as u32 == 48 + k);
    if m >= 10 {
        lemma_nat_digits(m / 10);
        let d = nat_digits(m);
        assert(d.drop_last() =~= nat_digits(m / 10));
        assert forall|i: int| 0 <= i < d.len() implies '0' <= #[trigger] d[i] <= '9' by {
            if i < d.len() - 1 {
                assert(d[i] == nat_digits(m / 10)[i]);
            }
        }
        assert(d.last() == digit_char(k));
        assert(digit_value(d.last()) == k);
        assert(decimal_value(d) == 10 * decimal_value(nat_digits(m / 10)) + k);
        assert(10 * (m / 10) + k == m);
    } else {
        let d = nat_digits(m);
        assert(d.drop_last() =~= Seq::<char>::empty());
        assert(decimal_value(d) == 10 * decimal_value(d.drop_last()) + digit_value(d.last()));
    }
}

/// A timestamp above 10^12 is read as milliseconds: its seconds and
/// nanoseconds add back up to it; any other is read as whole seconds.
pub proof fn law_millisecond_timestamps(ts: i64)
    ensures
        ts > 1_000_000_000_000 ==> {
            let (secs, nsecs) = split_timestamp(ts);
            &&& secs * 1000 + nsecs / 1_000_000 == ts
            &&& nsecs < 1_000_000_000
        },
        ts <= 1_000_000_000_000 ==> split_timestamp(ts) == (ts, 0u32),
{
}

} // verus!
