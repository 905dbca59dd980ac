//! Request/response CDP client over a browser's pipe.
//!
//! Correlates each command to its reply by `id`, skipping protocol events and
//! unrelated replies. Used by profile inject/capture in the exclusive window
//! after Chrome is ready and before the session pipe is handed to the bridge,
//! so no client traffic is interleaved.

use crate::chrome::pipe;
use crate::chrome::pipe::PipeError;
use crate::json;
use crate::json::{Json, JsonView, Member};
use crate::text;
use vstd::prelude::*;

verus! {

/// Error from a single CDP command.
#[derive(Debug)]
pub enum CdpError {
    /// Transport failure, or the browser closed the pipe.
    Pipe(PipeError),
    /// The browser returned a CDP error response for the command.
    Protocol {
        /// The command that failed.
        method: String,
        /// CDP error code.
        code: i64,
        /// CDP error message.
        message: String,
    },
}

impl CdpError {
    /// What the error says.
    pub open spec fn says(self) -> Seq<char> {
        match self {
            CdpError::Pipe(e) => e.says(),
            CdpError::Protocol { method, code, message } => "CDP command "@ + method@ + " failed: "@
                + message@ + " (code "@ + text::signed_decimal_of(code as int) + ")"@,
        }
    }

    /// The error as text.
    pub fn message(&self) -> (r: String)
        ensures
            r@ == self.says(),
    {
        match self {
            CdpError::Pipe(e) => e.message(),
            CdpError::Protocol { method, code, message } => {
                let mut s = "CDP command ".to_owned();
                s.append(method.as_str());
                s.append(" failed: ");
                s.append(message.as_str());
                s.append(" (code ");
                s.append(text::signed_decimal(*code).as_str());
                s.append(")");
                s
            },
        }
    }
}

/// The message that carries a command.
pub open spec fn envelope_of(
    id: u64,
    method: Seq<char>,
    params: JsonView,
    session_id: Option<Seq<char>>,
) -> JsonView {
    let common = seq![
        ("id"@, JsonView::UInt(id)),
        ("method"@, JsonView::Str(method)),
        ("params"@, params),
    ];
    JsonView::Object(
        match session_id {
            None => common,
            Some(sid) => common.push(("sessionId"@, JsonView::Str(sid))),
        },
    )
}

/// What goes over the pipe for a message.
pub open spec fn wire_of(message: JsonView) -> Seq<u8> {
    json::json_bytes(json::keyed(message)).push(0)
}

/// What a received message means to the command with this id.
pub enum ReplyView {
    /// An event, or the reply to another command.
    Unrelated,
    /// The browser refused the command.
    Refused(i64, Seq<char>),
    /// The command's result.
    Result(JsonView),
}

/// What a received message means to the command with this id.
pub open spec fn reply_of(msg: JsonView, id: u64) -> ReplyView {
    let theirs = match msg.get("id"@) {
        Some(v) => v.natural(),
        None => None,
    };
    if theirs != Some(id) {
        ReplyView::Unrelated
    } else {
        match msg.get("error"@) {
            Some(err) => ReplyView::Refused(
                match err.at("code"@).integer() {
                    Some(code) => code,
                    None => 0,
                },
                match err.at("message"@).chars() {
                    Some(m) => m,
                    None => "unknown"@,
                },
            ),
            None => ReplyView::Result(msg.at("result"@)),
        }
    }
}

/// A request/response CDP client: it numbers commands and tells their replies.
#[derive(Debug)]
pub struct CdpClient {
    /// The id of the next command.
    pub next_id: u64,
}

impl CdpClient {
    /// A client that has sent nothing.
    pub fn new() -> (r: CdpClient)
        ensures
            r.next_id == 1,
    {
        CdpClient { next_id: 1 }
    }

    /// The message of one CDP command, and its `id`. `session_id` routes the
    /// command to an attached target in flat mode; `None` is a browser-level
    /// command.
    pub fn envelope(&mut self, method: &str, params: Json, session_id: Option<&str>) -> (r: (
        u64,
        Json,
    ))
        requires
            old(self).next_id < u64::MAX,
        ensures
            r.0 == old(self).next_id,
            final(self).next_id == old(self).next_id + 1,
            r.1@ == envelope_of(r.0, method@, params@, text::opt_str(session_id)),
    {
        let id: u64 = self.next_id;
        self.next_id = id + 1;
        let mut members: Vec<Member> = Vec::new();
        members.push(json::member("id", Json::UInt(id)));
        members.push(json::member("method", Json::string(method)));
        members.push(json::member("params", params));
        if let Some(sid) = session_id {
            members.push(json::member("sessionId", Json::string(sid)));
        }
        let ghost want = envelope_of(id, method@, params@, text::opt_str(session_id));
        assert(json::members_view(members@) =~= want->Object_0);
        (id, Json::object(members))
    }

    /// What goes over the pipe for one CDP command, and its `id`.
    pub fn send(&mut self, method: &str, params: Json, session_id: Option<&str>) -> (r: (
        u64,
        Vec<u8>,
    ))
        requires
            old(self).next_id < u64::MAX,
        ensures
            r.0 == old(self).next_id,
            final(self).next_id == old(self).next_id + 1,
            r.1@ == wire_of(envelope_of(r.0, method@, params@, text::opt_str(session_id))),
            forall|i: int| 0 <= i < r.1@.len() - 1 ==> #[trigger] r.1@[i] != 0,
            json::plain(params@, 99) ==> json::json_parsed(r.1@.drop_last()) == Some(
                json::keyed(envelope_of(r.0, method@, params@, text::opt_str(session_id))),
            ),
    {
        let (id, message) = self.envelope(method, params, session_id);
        proof {
            if json::plain(params@, 99) {
                let members = message@->Object_0;
                assert forall|i: int| 0 <= i < members.len() implies json::plain(
                    (#[trigger] members[i]).1,
                    99,
                ) by {
                    assert(json::plain(JsonView::UInt(id), 99));
                    assert(json::plain(JsonView::Str(method@), 99));
                }
                reveal_strlit("$serde_json::private::RawValue");
                reveal_strlit("id");
                reveal_strlit("method");
                reveal_strlit("params");
                reveal_strlit("sessionId");
                assert forall|i: int| 0 <= i < members.len() implies (#[trigger] members[i]).0
                    != json::raw_key() by {
                    assert(members[i].0.len() < json::raw_key().len());
                }
                assert(json::plain(message@, 100));
            }
        }
        (id, pipe::frame_message(&message))
    }

    /// What a received message means to the command `method` with this id: its
    /// result or error, or nothing if it is an event or another reply.
    pub fn reply(id: u64, method: &str, msg: &Json) -> (r: Option<Result<Json, CdpError>>)
        ensures
            match reply_of(msg@, id) {
                ReplyView::Unrelated => r is None,
                ReplyView::Refused(code, message) => r matches Some(
                    Err(CdpError::Protocol { method: m, code: c, message: t }),
                ) && m@ == method@ && c == code && t@ == message,
                ReplyView::Result(v) => r matches Some(Ok(j)) && j@ == v,
            },
    {
        let theirs = match msg.get("id") {
            Some(v) => v.as_u64(),
            None => None,
        };
        let ours = match theirs {
            Some(n) => n == id,
            None => false,
        };
        if !ours {
            return None;
        }
        if let Some(err) = msg.get("error") {
            let code: i64 = match err.get("code") {
                Some(v) => match v.as_i64() {
                    Some(code) => code,
                    None => 0,
                },
                None => 0,
            };
            let message = match err.get("message") {
                Some(v) => match v.as_str() {
                    Some(m) => m.to_owned(),
                    None => "unknown".to_owned(),
                },
                None => "unknown".to_owned(),
            };
            return Some(Err(CdpError::Protocol { method: method.to_owned(), code, message }));
        }
        Some(
            Ok(
                match msg.get("result") {
                    Some(v) => v.copy(),
                    None => Json::Null,
                },
            ),
        )
    }
}

/// What is written for a command names its id, its method, its parameters and
/// its target.
pub proof fn commands_are_readable(
    id: u64,
    method: Seq<char>,
    params: JsonView,
    session_id: Option<Seq<char>>,
)
    ensures
        ({
            let written = json::keyed(envelope_of(id, method, params, session_id));
            &&& written.get("id"@) == Some(JsonView::UInt(id))
            &&& written.get("method"@) == Some(JsonView::Str(method))
            &&& written.get("params"@) == Some(json::keyed(params))
            &&& written.get("sessionId"@) == (match session_id {
                Some(sid) => Some(JsonView::Str(sid)),
                None => None,
            })
        }),
{
    reveal_strlit("id");
    reveal_strlit("method");
    reveal_strlit("params");
    reveal_strlit("sessionId");
    let m = envelope_of(id, method, params, session_id)->Object_0;
    assert("id"@.len() == 2 && "method"@.len() == 6 && "params"@.len() == 6 && "sessionId"@.len()
        == 9);
    assert("method"@[0] != "params"@[0]);
    assert(json::distinct_keys(m));
    reveal_with_fuel(json::member_of, 5);
    assert(m.skip(1)[0] == m[1]);
    assert(m.skip(1).skip(1)[0] == m[2]);
    assert(m.skip(1).skip(1).skip(1).len() == m.len() - 3);
    json::written_object_keeps_its_members(m, "id"@);
    json::written_object_keeps_its_members(m, "method"@);
    json::written_object_keeps_its_members(m, "params"@);
    json::written_object_keeps_its_members(m, "sessionId"@);
}

/// The reply to one command is never taken for that of another.
pub proof fn replies_do_not_mix(msg: JsonView, a: u64, b: u64)
    requires
        a != b,
        !(reply_of(msg, a) is Unrelated),
    ensures
        reply_of(msg, b) is Unrelated,
{
}

/// Events, which have no id, are skipped.
pub proof fn events_are_skipped(msg: JsonView, id: u64)
    requires
        msg.get("id"@) is None,
    ensures
        reply_of(msg, id) is Unrelated,
{
}

} // verus!
