//! The gateway's RPC decisions: which handler a method goes to, which requests are refused and
//! with which code, and how the agent's events are forwarded to connected clients. Reading the
//! JSON parameters and running the handlers happen elsewhere.

use vstd::prelude::*;
use crate::queue::OutputEvent;
use crate::runtime::AgentEvent;
use crate::text::push_str;
use crate::json::{json_str_at, json_str_at_exec, keys_view, opt_text};
use crate::types::RpcResponse;

verus! {

broadcast use vstd::string::group_string_axioms;

/// The RPC methods the gateway serves.
#[derive(Clone, Copy, Debug, PartialEq, Eq, Structural)]
pub enum RpcMethod {
    ChatSend,
    ChatHistory,
    ChatAbort,
    SessionsList,
    SessionsUsage,
    SessionsDelete,
    CtxRead,
    Health,
    ToolsList,
    Echo,
}

/// The method a name calls, if any.
pub open spec fn method_of(name: Seq<char>) -> Option<RpcMethod> {
    if name == "chat.send"@ {
        Some(RpcMethod::ChatSend)
    } else if name == "chat.history"@ {
        Some(RpcMethod::ChatHistory)
    } else if name == "chat.abort"@ {
        Some(RpcMethod::ChatAbort)
    } else if name == "sessions.list"@ {
        Some(RpcMethod::SessionsList)
    } else if name == "sessions.usage"@ {
        Some(RpcMethod::SessionsUsage)
    } else if name == "sessions.delete"@ {
        Some(RpcMethod::SessionsDelete)
    } else if name == "ctx.read"@ {
        Some(RpcMethod::CtxRead)
    } else if name == "health"@ {
        Some(RpcMethod::Health)
    } else if name == "tools.list"@ {
        Some(RpcMethod::ToolsList)
    } else if name == "echo"@ {
        Some(RpcMethod::Echo)
    } else {
        None
    }
}

/// The name a client calls a method by.
pub open spec fn method_name(m: RpcMethod) -> Seq<char> {
    match m {
        RpcMethod::ChatSend => "chat.send"@,
        RpcMethod::ChatHistory => "chat.history"@,
        RpcMethod::ChatAbort => "chat.abort"@,
        RpcMethod::SessionsList => "sessions.list"@,
        RpcMethod::SessionsUsage => "sessions.usage"@,
        RpcMethod::SessionsDelete => "sessions.delete"@,
        RpcMethod::CtxRead => "ctx.read"@,
        RpcMethod::Health => "health"@,
        RpcMethod::ToolsList => "tools.list"@,
        RpcMethod::Echo => "echo"@,
    }
}

/// Each method is reached by its own name and by no other: an authenticated call of a
/// method's name routes to that method, and a name that routes to a method is that method's
/// name (so two different names never reach the same handler).
pub proof fn lemma_each_name_routes_to_its_own_method(m: RpcMethod, name: Seq<char>)
    ensures
        method_of(method_name(m)) == Some(m),
        method_of(name) == Some(m) ==> name == method_name(m),
{
    reveal_strlit("chat.send");
    reveal_strlit("chat.history");
    reveal_strlit("chat.abort");
    reveal_strlit("sessions.list");
    reveal_strlit("sessions.usage");
    reveal_strlit("sessions.delete");
    reveal_strlit("ctx.read");
    reveal_strlit("health");
    reveal_strlit("tools.list");
    reveal_strlit("echo");
    assert("chat.send"@.len() == 9);
    assert("chat.history"@.len() == 12);
    assert("chat.abort"@.len() == 10);
    assert("sessions.list"@.len() == 13);
    assert("sessions.usage"@.len() == 14);
    assert("sessions.delete"@.len() == 15);
    assert("ctx.read"@.len() == 8);
    assert("health"@.len() == 6);
    assert("tools.list"@.len() == 10);
    assert("echo"@.len() == 4);
    assert("chat.abort"@[0] != "tools.list"@[0]);
}

/// The JSON-RPC error of an unauthenticated connection.
pub const NOT_AUTHENTICATED: i32 = -32000;

/// The JSON-RPC error of an unknown session.
pub const SESSION_NOT_FOUND: i32 = -32001;

/// The JSON-RPC error of a method that does not exist.
pub const METHOD_NOT_FOUND: i32 = -32601;

/// The JSON-RPC error of a missing parameter.
pub const INVALID_PARAMS: i32 = -32602;

/// Whether `a` equals the literal `b`.
fn same_text(a: &str, b: &str) -> (r: bool)
    ensures
        r == (a@ == b@),
{
    crate::text::chars_eq(crate::text::chars_of(a).as_slice(), crate::text::chars_of(b).as_slice())
}

/// Where a method call goes: an unauthenticated connection may call nothing but `auth`; a known
/// method goes to its handler; anything else is an unknown method.
pub fn route(method: &str, authenticated: bool) -> (r: Result<RpcMethod, (i32, String)>)
    ensures
        !authenticated && method@ != "auth"@ ==> (r matches Err(e) && e.0 == NOT_AUTHENTICATED
            && e.1@ == "Not authenticated"@),
        (authenticated || method@ == "auth"@) ==> match method_of(method@) {
            Some(m) => r matches Ok(x) && x == m,
            None => r matches Err(e) && e.0 == METHOD_NOT_FOUND && e.1@ == "Method not found: "@
                + method@,
        },
        r matches Ok(x) ==> method@ == method_name(x),
{
    proof {
        if let Some(m) = method_of(method@) {
            lemma_each_name_routes_to_its_own_method(m, method@);
        }
    }
    if !authenticated && !same_text(method, "auth") {
        return Err((NOT_AUTHENTICATED, "Not authenticated".to_owned()));
    }
    if same_text(method, "chat.send") {
        Ok(RpcMethod::ChatSend)
    } else if same_text(method, "chat.history") {
        Ok(RpcMethod::ChatHistory)
    } else if same_text(method, "chat.abort") {
        Ok(RpcMethod::ChatAbort)
    } else if same_text(method, "sessions.list") {
        Ok(RpcMethod::SessionsList)
    } else if same_text(method, "sessions.usage") {
        Ok(RpcMethod::SessionsUsage)
    } else if same_text(method, "sessions.delete") {
        Ok(RpcMethod::SessionsDelete)
    } else if same_text(method, "ctx.read") {
        Ok(RpcMethod::CtxRead)
    } else if same_text(method, "health") {
        Ok(RpcMethod::Health)
    } else if same_text(method, "tools.list") {
        Ok(RpcMethod::ToolsList)
    } else if same_text(method, "echo") {
        Ok(RpcMethod::Echo)
    } else {
        let mut m = String::new();
        push_str(&mut m, "Method not found: ");
        push_str(&mut m, method);
        Err((METHOD_NOT_FOUND, m))
    }
}

/// A required parameter: its value, or the invalid-parameters error naming it.
pub fn required_param(value: Option<String>, name: &str) -> (r: Result<String, (i32, String)>)
    ensures
        value matches Some(v) ==> (r matches Ok(s) && s@ == v@),
        value is None ==> (r matches Err(e) && e.0 == INVALID_PARAMS && e.1@
            == "Missing required param: "@ + name@),
{
    match value {
        Some(v) => Ok(v),
        None => {
            let mut m = String::new();
            push_str(&mut m, "Missing required param: ");
            push_str(&mut m, name);
            Err((INVALID_PARAMS, m))
        },
    }
}

/// The error of a session that does not exist, with the given code.
pub fn session_not_found(code: i32, session: &str) -> (e: (i32, String))
    ensures
        e.0 == code,
        e.1@ == "Session not found: "@ + session@,
{
    let mut m = String::new();
    push_str(&mut m, "Session not found: ");
    push_str(&mut m, session);
    (code, m)
}

/// What becomes of an agent event on its way to the clients.
pub enum Forward {
    /// Send this output event.
    Send(OutputEvent),
    /// The turn is done: send `Done`, then the session's updated `.ctx` text.
    TurnDone,
    /// Not forwarded.
    Skip,
}

/// How an agent event of session `session` is forwarded: text, thinking, tool calls, tool
/// execution and results, sleep and errors go out as the matching output events; the end of the
/// turn is reported with the session's `.ctx` text; the loop's own bookkeeping is not
/// forwarded.
pub fn forward_event(session: &str, event: AgentEvent) -> (f: Forward)
    ensures
        match event {
            AgentEvent::Text(t) => f matches Forward::Send(OutputEvent::Delta { session: s, content })
                && s@ == session@ && content@ == t@,
            AgentEvent::Thinking(t) => f matches Forward::Send(
                OutputEvent::Thinking { session: s, content },
            ) && s@ == session@ && content@ == t@,
            AgentEvent::ToolCallStart { id, name } => f matches Forward::Send(
                OutputEvent::ToolCall { session: s, id: i, name: n },
            ) && s@ == session@ && i@ == id@ && n@ == name@,
            AgentEvent::ToolCallDelta { id, arguments } => f matches Forward::Send(
                OutputEvent::ToolCallDelta { session: s, id: i, arguments: a },
            ) && s@ == session@ && i@ == id@ && a@ == arguments@,
            AgentEvent::ToolExecuting { id, name } => f matches Forward::Send(
                OutputEvent::ToolExecuting { session: s, id: i, name: n },
            ) && s@ == session@ && i@ == id@ && n@ == name@,
            AgentEvent::ToolResult { id, name, result, is_error } => f matches Forward::Send(
                OutputEvent::ToolResult { session: s, id: i, name: n, result: r, is_error: e },
            ) && s@ == session@ && i@ == id@ && n@ == name@ && r@ == result@ && e == is_error,
            AgentEvent::Sleep { token_count } => f matches Forward::Send(
                OutputEvent::Sleep { session: s, token_count: c },
            ) && s@ == session@ && c == token_count,
            AgentEvent::Error(m) => f matches Forward::Send(
                OutputEvent::Error { session: s, message },
            ) && s@ == session@ && message@ == m@,
            AgentEvent::Done { .. } => f is TurnDone,
            _ => f is Skip,
        },
{
    let s = session.to_owned();
    match event {
        AgentEvent::Text(t) => Forward::Send(OutputEvent::Delta { session: s, content: t }),
        AgentEvent::Thinking(t) => Forward::Send(OutputEvent::Thinking { session: s, content: t }),
        AgentEvent::ToolCallStart { id, name } => Forward::Send(
            OutputEvent::ToolCall { session: s, id, name },
        ),
        AgentEvent::ToolCallDelta { id, arguments } => Forward::Send(
            OutputEvent::ToolCallDelta { session: s, id, arguments },
        ),
        AgentEvent::ToolExecuting { id, name } => Forward::Send(
            OutputEvent::ToolExecuting { session: s, id, name },
        ),
        AgentEvent::ToolResult { id, name, result, is_error } => Forward::Send(
            OutputEvent::ToolResult { session: s, id, name, result, is_error },
        ),
        AgentEvent::Sleep { token_count } => Forward::Send(OutputEvent::Sleep { session: s, token_count }),
        AgentEvent::Error(m) => Forward::Send(OutputEvent::Error { session: s, message: m }),
        AgentEvent::Done { .. } => Forward::TurnDone,
        _ => Forward::Skip,
    }
}


/// The response to an RPC outcome: its value, or its code and message.
pub fn to_response(id: &str, result: Result<serde_json::Value, (i32, String)>) -> (r: RpcResponse)
    ensures
        r.id@ == id@,
        match result {
            Ok(v) => r.result == Some(v) && r.error is None,
            Err((code, m)) => r.result is None && (r.error matches Some(e) && e.code == code
                && e.message@ == m@),
        },
{
    match result {
        Ok(v) => RpcResponse::ok(id, v),
        Err((code, m)) => RpcResponse::err(id, code, m.as_str()),
    }
}


/// What a `chat.send` request asks for.
pub struct ChatSend {
    pub session: String,
    pub message: String,
    pub model: Option<String>,
}

/// Reads the parameters of `chat.send` from their JSON text: `session` and `message` are
/// required strings (the first one missing is reported), `model` is optional.
pub fn chat_send_params(params: &str) -> (r: Result<ChatSend, (i32, String)>)
    ensures
        json_str_at(params@, seq!["session"@]) is None ==> (r matches Err(e) && e.0
            == INVALID_PARAMS && e.1@ == "Missing required param: "@ + "session"@),
        json_str_at(params@, seq!["session"@]) is Some && json_str_at(params@, seq!["message"@])
            is None ==> (r matches Err(e) && e.0 == INVALID_PARAMS && e.1@
            == "Missing required param: "@ + "message"@),
        r matches Ok(c) ==> {
            &&& json_str_at(params@, seq!["session"@]) == Some(c.session@)
            &&& json_str_at(params@, seq!["message"@]) == Some(c.message@)
            &&& json_str_at(params@, seq!["model"@]) == opt_text(c.model)
        },
        json_str_at(params@, seq!["session"@]) is Some && json_str_at(params@, seq!["message"@])
            is Some ==> r is Ok,
{
    let ks = ["session"];
    let km = ["message"];
    let kmodel = ["model"];
    assert(keys_view(ks@) =~= seq!["session"@]);
    assert(keys_view(km@) =~= seq!["message"@]);
    assert(keys_view(kmodel@) =~= seq!["model"@]);
    let session = match required_param(json_str_at_exec(params, ks.as_slice()), "session") {
        Ok(s) => s,
        Err(e) => {
            return Err(e);
        },
    };
    let message = match required_param(json_str_at_exec(params, km.as_slice()), "message") {
        Ok(m) => m,
        Err(e) => {
            return Err(e);
        },
    };
    Ok(ChatSend { session, message, model: json_str_at_exec(params, kmodel.as_slice()) })
}


/// The id and method of an RPC request.
pub struct RpcCall {
    pub id: String,
    pub method: String,
}

/// Reads the id and method of an RPC request from its JSON text; none unless both are strings.
pub fn rpc_call_of(request: &str) -> (r: Option<RpcCall>)
    ensures
        r is Some <==> (json_str_at(request@, seq!["id"@]) is Some && json_str_at(
            request@,
            seq!["method"@],
        ) is Some),
        r matches Some(c) ==> json_str_at(request@, seq!["id"@]) == Some(c.id@) && json_str_at(
            request@,
            seq!["method"@],
        ) == Some(c.method@),
{
    let ki = ["id"];
    let km = ["method"];
    assert(keys_view(ki@) =~= seq!["id"@]);
    assert(keys_view(km@) =~= seq!["method"@]);
    match (json_str_at_exec(request, ki.as_slice()), json_str_at_exec(request, km.as_slice())) {
        (Some(id), Some(method)) => Some(RpcCall { id, method }),
        _ => None,
    }
}

} // verus!
