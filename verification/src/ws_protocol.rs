//! The WebSocket protocol's decisions: what each client message asks for,
//! what a finished run is answered with, and the per-connection table of
//! cancel tokens. Reading and writing the socket, and running tools, is the
//! caller's part.

use vstd::prelude::*;
use crate::context::CancelToken;
use crate::error::{ToolError, ToolResult, error_status, error_text};
use crate::text::{push_str, str_equal};

verus! {

/// A client message, once parsed; `I` is a tool input, carried as it came.
pub enum WsRequest<I> {
    /// Run the tool `id` on `input`.
    Execute { id: String, input: I },
    /// Cancel the running tool `id`.
    Cancel { id: String },
    /// Ask for a `Pong`.
    Ping,
}

/// A message to the client (progress messages are sent as they come, by
/// the caller); `D` is a tool's answer.
pub enum WsReply<D> {
    /// Tool `id` answered `data`.
    Result { id: String, data: D },
    /// Tool `id` (or `parse`, for a message that could not be read) failed.
    Error { id: String, error: String, code: u16 },
    /// The answer to a `Ping`.
    Pong,
}

/// What to do with a client message.
pub enum WsAction<I, D> {
    /// Run tool `id` on `input` (with a fresh cancel token, no time limit).
    Run { id: String, input: I },
    /// Cancel the run of tool `id`, if there is one.
    Cancel { id: String },
    /// Send this message.
    Send(WsReply<D>),
}

/// The action for a client message, or for one that failed to parse
/// (`Err` with the parser's reason).
pub fn ws_action<I, D>(msg: Result<WsRequest<I>, String>) -> (r: WsAction<I, D>)
    ensures
        msg matches Ok(WsRequest::Execute { id, input }) ==> (r matches WsAction::Run { id: rid, input: rinput } && rid
            == id && rinput == input),
        msg matches Ok(WsRequest::Cancel { id }) ==> (r matches WsAction::Cancel { id: rid } && rid == id),
        msg matches Ok(WsRequest::Ping) ==> r matches WsAction::Send(WsReply::Pong),
        msg matches Err(d) ==> (r matches WsAction::Send(WsReply::Error { id, error, code }) && id@ == "parse"@ && error@
            == "消息解析失败: "@ + d@ && code == 400),
{
    match msg {
        Ok(WsRequest::Execute { id, input }) => WsAction::Run { id, input },
        Ok(WsRequest::Cancel { id }) => WsAction::Cancel { id },
        Ok(WsRequest::Ping) => WsAction::Send(WsReply::Pong),
        Err(d) => {
            let mut error = String::from_str("消息解析失败: ");
            push_str(&mut error, d.as_str());
            WsAction::Send(WsReply::Error { id: String::from_str("parse"), error, code: 400 })
        },
    }
}

/// The message that answers the run of tool `id`.
pub fn ws_result_reply<D>(id: String, result: ToolResult<D>) -> (r: WsReply<D>)
    ensures
        result matches Ok(d) ==> (r matches WsReply::Result { id: rid, data } && rid == id && data == d),
        result matches Err(e) ==> (r matches WsReply::Error { id: rid, error, code } && rid == id && code == error_status(e)
            && (!(e is JsonError) ==> error@ == error_text(e))),
{
    match result {
        Ok(data) => WsReply::Result { id, data },
        Err(e) => WsReply::Error { id, error: e.message(), code: e.status_code() },
    }
}

/// The token of `id` in a table, if any: its last entry.
pub open spec fn token_of(entries: Seq<(String, CancelToken)>, id: Seq<char>) -> Option<CancelToken>
    decreases entries.len(),
{
    if entries.len() == 0 {
        None
    } else if entries.last().0@ == id {
        Some(entries.last().1)
    } else {
        token_of(entries.drop_last(), id)
    }
}

/// The cancel tokens of the runs of one connection, by tool id.
pub struct CancelTable {
    entries: Vec<(String, CancelToken)>,
}

impl CancelTable {
    /// The token of `id`, if any.
    pub closed spec fn lookup(&self, id: Seq<char>) -> Option<CancelToken> {
        token_of(self.entries@, id)
    }

    /// An empty table.
    pub fn new() -> (r: Self)
        ensures
            forall|id: Seq<char>| r.lookup(id) is None,
    {
        CancelTable { entries: Vec::new() }
    }

    /// Forgets the token of `id`.
    pub fn remove(&mut self, id: &str)
        ensures
            final(self).lookup(id@) is None,
            forall|k: Seq<char>| k != id@ ==> final(self).lookup(k) == old(self).lookup(k),
    {
        let mut rest: Vec<(String, CancelToken)> = Vec::new();
        std::mem::swap(&mut rest, &mut self.entries);
        let ghost all = rest@;
        let ghost mut i: int = 0;
        let mut kept: Vec<(String, CancelToken)> = Vec::new();
        while rest.len() > 0
            invariant
                0 <= i <= all.len(),
                rest@ == all.skip(i),
                forall|k: Seq<char>| #[trigger] token_of(kept@, k) == if k == id@ {
                    None
                } else {
                    token_of(all.take(i), k)
                },
            decreases rest.len(),
        {
            let ghost before = kept@;
            let entry = rest.remove(0);
            let ghost e = entry;
            proof {
                assert(e == all[i]);
                assert(rest@ =~= all.skip(i + 1));
            }
            let keep = !str_equal(entry.0.as_str(), id);
            if keep {
                kept.push(entry);
            }
            proof {
                assert forall|k: Seq<char>| #[trigger] token_of(kept@, k) == (if k == id@ {
                    None
                } else {
                    token_of(all.take(i + 1), k)
                }) by {
                    assert(all.take(i + 1).drop_last() =~= all.take(i));
                    assert(all.take(i + 1).last() == e);
                    assert(keep == (e.0@ != id@));
                    assert(token_of(before, k) == (if k == id@ {
                        None
                    } else {
                        token_of(all.take(i), k)
                    }));
                    if keep {
                        assert(kept@.drop_last() =~= before);
                        assert(kept@.last() == e);
                    } else {
                        assert(kept@ == before);
                    }
                }
                i = i + 1;
            }
        }
        assert(all.take(all.len() as int) =~= all);
        self.entries = kept;
    }

    /// Records `token` as the token of `id`, in place of any other.
    pub fn insert(&mut self, id: String, token: CancelToken)
        ensures
            final(self).lookup(id@) == Some(token),
            forall|k: Seq<char>| k != id@ ==> final(self).lookup(k) == old(self).lookup(k),
    {
        self.remove(id.as_str());
        let ghost before = self.entries@;
        self.entries.push((id, token));
        assert(self.entries@.drop_last() =~= before);
    }

    /// The token of `id`, if any.
    pub fn get(&self, id: &str) -> (r: Option<&CancelToken>)
        ensures
            match self.lookup(id@) {
                Some(t) => r matches Some(u) && *u == t,
                None => r is None,
            },
    {
        let mut i: usize = self.entries.len();
        assert(self.entries@.take(i as int) =~= self.entries@);
        while i > 0
            invariant
                i <= self.entries@.len(),
                token_of(self.entries@, id@) == token_of(self.entries@.take(i as int), id@),
            decreases i,
        {
            assert(self.entries@.take(i as int).drop_last() =~= self.entries@.take(i - 1));
            if str_equal(self.entries[i - 1].0.as_str(), id) {
                return Some(&self.entries[i - 1].1);
            }
            i = i - 1;
        }
        None
    }
}

} // verus!
