//! The `uuid-gen` tool: random (version 4) UUIDs.

use vstd::prelude::*;
use crate::category::ToolCategory;
use crate::text::{push_str, to_uppercase_unicode, unicode_uppercase};
use crate::tool::Tool;

verus! {

/// A lower-case hexadecimal digit.
pub open spec fn is_lower_hex(c: char) -> bool {
    ('0' <= c <= '9') || ('a' <= c <= 'f')
}

/// A version 4 UUID in its hyphenated lower-case form: 36 characters,
/// hyphens at 8, 13, 18 and 23, lower-case hex elsewhere, version digit `4`
/// at 14 and variant digit `8`, `9`, `a` or `b` at 19.
pub open spec fn is_v4_text(s: Seq<char>) -> bool {
    &&& s.len() == 36
    &&& forall|i: int| 0 <= i < 36 ==> (if i == 8 || i == 13 || i == 18 || i == 23 {
        #[trigger] s[i] == '-'
    } else {
        is_lower_hex(s[i])
    })
    &&& s[14] == '4'
    &&& (s[19] == '8' || s[19] == '9' || s[19] == 'a' || s[19] == 'b')
}

/// `uuid::Uuid::new_v4().to_string()`: a fresh random UUID; every outcome
/// is a hyphenated lower-case version 4 UUID (which one is left to chance).
#[verifier::external_body]
fn random_uuid_v4() -> (r: String)
    ensures
        is_v4_text(r@),
{
    uuid::Uuid::new_v4().to_string()
}

/// The `uuid-gen` tool's request.
pub struct UuidGenInput {
    /// The `count` field, when it is an integer (default 1).
    pub count: Option<i64>,
    /// The `uppercase` field, when it is a boolean (default `false`).
    pub uppercase: Option<bool>,
}

/// The `uuid-gen` tool's answer.
pub struct UuidGenOutput {
    /// The UUIDs, one per line.
    pub result: String,
    /// The UUIDs.
    pub uuids: Vec<String>,
    /// How many there are.
    pub count: usize,
}

/// The number of UUIDs a request asks for: `count` clamped to 1..=100.
pub open spec fn requested_count(count: Option<i64>) -> nat {
    match count {
        Some(n) => if n < 1 {
            1
        } else if n > 100 {
            100
        } else {
            n as nat
        },
        None => 1,
    }
}

/// `u` is a UUID as the request asks for it.
pub open spec fn uuid_as_asked(u: Seq<char>, uppercase: bool) -> bool {
    if uppercase {
        exists|t: Seq<char>| is_v4_text(t) && u == unicode_uppercase(t)
    } else {
        is_v4_text(u)
    }
}

/// Texts joined with `\n` between them.
pub open spec fn joined(ts: Seq<Seq<char>>) -> Seq<char>
    decreases ts.len(),
{
    if ts.len() == 0 {
        Seq::empty()
    } else if ts.len() == 1 {
        ts[0]
    } else {
        joined(ts.drop_last()) + seq!['\n'] + ts.last()
    }
}

/// The `uuid-gen` tool.
#[derive(Clone, Copy)]
pub struct UuidGen;

impl Tool for UuidGen {
    open spec fn spec_id(&self) -> Seq<char> {
        "uuid-gen"@
    }

    open spec fn spec_name(&self) -> Seq<char> {
        "UUID 生成"@
    }

    open spec fn spec_description(&self) -> Seq<char> {
        "生成 UUID v4 标识符，支持批量生成"@
    }

    open spec fn spec_category(&self) -> ToolCategory {
        ToolCategory::Utility
    }

    open spec fn spec_cpu_intensive(&self) -> bool {
        false
    }

    fn id(&self) -> &'static str {
        "uuid-gen"
    }

    fn name(&self) -> &'static str {
        "UUID 生成"
    }

    fn description(&self) -> &'static str {
        "生成 UUID v4 标识符，支持批量生成"
    }

    fn category(&self) -> ToolCategory {
        ToolCategory::Utility
    }

    fn is_cpu_intensive(&self) -> bool {
        false
    }
}

impl UuidGen {
    /// Generates 1 to 100 random UUIDs (as asked, in upper case if asked).
    pub fn execute(&self, req: UuidGenInput) -> (r: UuidGenOutput)
        ensures
            r.count == requested_count(req.count),
            r.uuids@.len() == r.count,
            forall|i: int| 0 <= i < r.uuids@.len() ==> uuid_as_asked(#[trigger] r.uuids@[i]@, req.uppercase == Some(true)),
            r.result@ == joined(r.uuids@.map_values(|u: String| u@)),
    {
        let count: usize = match req.count {
            Some(n) => if n < 1 {
                1
            } else if n > 100 {
                100
            } else {
                n as usize
            },
            None => 1,
        };
        let uppercase = match req.uppercase {
            Some(b) => b,
            None => false,
        };
        let mut uuids: Vec<String> = Vec::new();
        let mut result = String::new();
        let mut i: usize = 0;
        while i < count
            invariant
                i <= count,
                uuids@.len() == i,
                forall|j: int| 0 <= j < i ==> uuid_as_asked(#[trigger] uuids@[j]@, uppercase),
                result@ == joined(uuids@.map_values(|u: String| u@)),
            decreases count - i,
        {
            let raw = random_uuid_v4();
            let u = if uppercase {
                to_uppercase_unicode(raw.as_str())
            } else {
                raw
            };
            let ghost before = uuids@;
            if i > 0 {
                push_str(&mut result, "\n");
            }
            push_str(&mut result, u.as_str());
            uuids.push(u);
            proof {
                reveal_strlit("\n");
                let vs = uuids@.map_values(|u: String| u@);
                assert(vs.drop_last() =~= before.map_values(|u: String| u@));
                if i == 0 {
                    assert(result@ =~= vs[0]);
                } else {
                    assert(result@ =~= joined(vs.drop_last()) + seq!['\n'] + vs.last());
                }
            }
            i = i + 1;
        }
        UuidGenOutput { result, uuids, count }
    }
}

} // verus!
