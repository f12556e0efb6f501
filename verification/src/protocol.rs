//! The WebSocket protocol: the current JSON-RPC messages and events, the legacy tagged
//! messages, and what a connection answers to each incoming message. Turning these values into
//! JSON text and back is left to the program around the library.

use vstd::prelude::*;
use crate::auth::{refusal_reason, token_check, ResolvedAuth};
use crate::json::{flag_object, json_field_str, json_flag_object, opt_text, value_str_field};
use crate::queue::OutputEvent;
use crate::rpc::ChatSend;
use crate::types::RpcResponse;

verus! {

broadcast use vstd::string::group_string_axioms;

/// A scalar value of an event's data object.
pub enum JsonScalar {
    Str(String),
    Bool(bool),
    Count(usize),
    Null,
}

/// What a scalar stands for.
pub enum Scalar {
    Text(Seq<char>),
    Flag(bool),
    Number(nat),
    Nothing,
}

/// The value a scalar stands for.
pub open spec fn scalar_view(j: JsonScalar) -> Scalar {
    match j {
        JsonScalar::Str(s) => Scalar::Text(s@),
        JsonScalar::Bool(b) => Scalar::Flag(b),
        JsonScalar::Count(n) => Scalar::Number(n as nat),
        JsonScalar::Null => Scalar::Nothing,
    }
}

/// The fields of a data object, by key text and value.
pub open spec fn fields_view(fields: Seq<(String, JsonScalar)>) -> Seq<(Seq<char>, Scalar)> {
    fields.map_values(|f: (String, JsonScalar)| (f.0@, scalar_view(f.1)))
}

/// A pushed event: its name and the fields of its data object, in insertion order (a later
/// field replaces an earlier one of the same key).
pub struct EventMessage {
    pub event: String,
    pub data: Vec<(String, JsonScalar)>,
}

/// What an event stands for.
pub struct EventView {
    pub event: Seq<char>,
    pub data: Seq<(Seq<char>, Scalar)>,
}

impl View for EventMessage {
    type V = EventView;

    open spec fn view(&self) -> EventView {
        EventView { event: self.event@, data: fields_view(self.data@) }
    }
}

/// A text field.
pub open spec fn text_field(key: Seq<char>, value: Seq<char>) -> (Seq<char>, Scalar) {
    (key, Scalar::Text(value))
}

/// A text field, or null.
pub open spec fn opt_field(key: Seq<char>, value: Option<Seq<char>>) -> (Seq<char>, Scalar) {
    match value {
        Some(v) => (key, Scalar::Text(v)),
        None => (key, Scalar::Nothing),
    }
}

/// The data of a chat event: the session, the event type, then the given fields.
pub open spec fn chat_data(session: Seq<char>, event_type: Seq<char>, fields: Seq<(Seq<char>, Scalar)>) -> Seq<(Seq<char>, Scalar)> {
    seq![text_field("session"@, session), text_field("type"@, event_type)] + fields
}

fn text_scalar(key: &str, value: &str) -> (f: (String, JsonScalar))
    ensures
        (f.0@, scalar_view(f.1)) == text_field(key@, value@),
{
    (key.to_owned(), JsonScalar::Str(value.to_owned()))
}

fn opt_scalar(key: &str, value: Option<&str>) -> (f: (String, JsonScalar))
    ensures
        (f.0@, scalar_view(f.1)) == opt_field(
            key@,
            match value {
                Some(v) => Some(v@),
                None => None,
            },
        ),
{
    match value {
        Some(v) => (key.to_owned(), JsonScalar::Str(v.to_owned())),
        None => (key.to_owned(), JsonScalar::Null),
    }
}

impl EventMessage {
    /// An event with the given name and data fields.
    pub fn new(event: &str, data: Vec<(String, JsonScalar)>) -> (m: Self)
        ensures
            m.event@ == event@,
            m.data@ == data@,
    {
        EventMessage { event: event.to_owned(), data }
    }

    /// A chat event: named "chat", with the session and the event type before the given fields.
    pub fn chat(session: &str, event_type: &str, data: Vec<(String, JsonScalar)>) -> (m: Self)
        ensures
            m@.event == "chat"@,
            m@.data == chat_data(session@, event_type@, fields_view(data@)),
    {
        let mut fields: Vec<(String, JsonScalar)> = Vec::new();
        fields.push(text_scalar("session", session));
        fields.push(text_scalar("type", event_type));
        let mut rest = data;
        fields.append(&mut rest);
        let m = EventMessage { event: "chat".to_owned(), data: fields };
        assert(fields_view(m.data@) =~= chat_data(session@, event_type@, fields_view(data@)));
        m
    }

    /// A piece of the answer's text.
    pub fn chat_delta(session: &str, content: &str) -> (m: Self)
        ensures
            m@.event == "chat"@,
            m@.data == chat_data(session@, "delta"@, seq![text_field("content"@, content@)]),
    {
        let data = vec![text_scalar("content", content)];
        assert(fields_view(data@) =~= seq![text_field("content"@, content@)]);
        Self::chat(session, "delta", data)
    }

    /// A piece of the model's thinking.
    pub fn chat_thinking(session: &str, content: &str) -> (m: Self)
        ensures
            m@.event == "chat"@,
            m@.data == chat_data(session@, "thinking"@, seq![text_field("content"@, content@)]),
    {
        let data = vec![text_scalar("content", content)];
        assert(fields_view(data@) =~= seq![text_field("content"@, content@)]);
        Self::chat(session, "thinking", data)
    }

    /// A tool call begins.
    pub fn chat_tool_call(session: &str, id: &str, name: &str) -> (m: Self)
        ensures
            m@.event == "chat"@,
            m@.data == chat_data(
                session@,
                "tool_call"@,
                seq![text_field("id"@, id@), text_field("name"@, name@)],
            ),
    {
        let data = vec![text_scalar("id", id), text_scalar("name", name)];
        assert(fields_view(data@) =~= seq![text_field("id"@, id@), text_field("name"@, name@)]);
        Self::chat(session, "tool_call", data)
    }

    /// A piece of a tool call's arguments.
    pub fn chat_tool_call_delta(session: &str, id: &str, arguments: &str) -> (m: Self)
        ensures
            m@.event == "chat"@,
            m@.data == chat_data(
                session@,
                "tool_call_delta"@,
                seq![text_field("id"@, id@), text_field("arguments"@, arguments@)],
            ),
    {
        let data = vec![text_scalar("id", id), text_scalar("arguments", arguments)];
        assert(fields_view(data@) =~= seq![
            text_field("id"@, id@),
            text_field("arguments"@, arguments@),
        ]);
        Self::chat(session, "tool_call_delta", data)
    }

    /// A tool's result.
    pub fn chat_tool_result(session: &str, id: &str, name: &str, result: &str, is_error: bool) -> (m: Self)
        ensures
            m@.event == "chat"@,
            m@.data == chat_data(
                session@,
                "tool_result"@,
                seq![
                    text_field("id"@, id@),
                    text_field("name"@, name@),
                    text_field("content"@, result@),
                    ("is_error"@, Scalar::Flag(is_error)),
                ],
            ),
    {
        let data = vec![
            text_scalar("id", id),
            text_scalar("name", name),
            text_scalar("content", result),
            ("is_error".to_owned(), JsonScalar::Bool(is_error)),
        ];
        assert(fields_view(data@) =~= seq![
            text_field("id"@, id@),
            text_field("name"@, name@),
            text_field("content"@, result@),
            ("is_error"@, Scalar::Flag(is_error)),
        ]);
        Self::chat(session, "tool_result", data)
    }

    /// The turn is done.
    pub fn chat_done(session: &str) -> (m: Self)
        ensures
            m@.event == "chat"@,
            m@.data == chat_data(session@, "done"@, seq![]),
    {
        let data: Vec<(String, JsonScalar)> = Vec::new();
        assert(fields_view(data@) =~= seq![]);
        Self::chat(session, "done", data)
    }

    /// The turn failed.
    pub fn chat_error(session: &str, message: &str) -> (m: Self)
        ensures
            m@.event == "chat"@,
            m@.data == chat_data(session@, "error"@, seq![text_field("message"@, message@)]),
    {
        let data = vec![text_scalar("message", message)];
        assert(fields_view(data@) =~= seq![text_field("message"@, message@)]);
        Self::chat(session, "error", data)
    }

    /// The answer to a shorthand authentication: whether it passed, and why not.
    pub fn auth_result(ok: bool, error: Option<&str>) -> (m: Self)
        ensures
            m@.event == "auth"@,
            m@.data == seq![
                ("ok"@, Scalar::Flag(ok)),
                opt_field(
                    "error"@,
                    match error {
                        Some(e) => Some(e@),
                        None => None,
                    },
                ),
            ],
    {
        let data = vec![("ok".to_owned(), JsonScalar::Bool(ok)), opt_scalar("error", error)];
        let m = EventMessage { event: "auth".to_owned(), data };
        assert(m@.data =~= seq![
            ("ok"@, Scalar::Flag(ok)),
            opt_field(
                "error"@,
                match error {
                    Some(e) => Some(e@),
                    None => None,
                },
            ),
        ]);
        m
    }

    /// The greeting sent on connection: the version and the layer, if any.
    pub fn info(version: &str, layer: Option<&str>) -> (m: Self)
        ensures
            m@.event == "info"@,
            m@.data == seq![
                text_field("version"@, version@),
                opt_field(
                    "layer"@,
                    match layer {
                        Some(l) => Some(l@),
                        None => None,
                    },
                ),
            ],
    {
        let data = vec![text_scalar("version", version), opt_scalar("layer", layer)];
        let m = EventMessage { event: "info".to_owned(), data };
        assert(m@.data =~= seq![
            text_field("version"@, version@),
            opt_field(
                "layer"@,
                match layer {
                    Some(l) => Some(l@),
                    None => None,
                },
            ),
        ]);
        m
    }

    /// A tool was parked.
    pub fn tool_parked(session: &str, id: &str, name: &str) -> (m: Self)
        ensures
            m@.event == "chat"@,
            m@.data == chat_data(
                session@,
                "tool_parked"@,
                seq![text_field("id"@, id@), text_field("name"@, name@)],
            ),
    {
        let data = vec![text_scalar("id", id), text_scalar("name", name)];
        assert(fields_view(data@) =~= seq![text_field("id"@, id@), text_field("name"@, name@)]);
        Self::chat(session, "tool_parked", data)
    }

    /// The answer to a ping.
    pub fn pong() -> (m: Self)
        ensures
            m@.event == "pong"@,
            m@.data == Seq::<(Seq<char>, Scalar)>::empty(),
    {
        let m = EventMessage { event: "pong".to_owned(), data: Vec::new() };
        assert(m@.data =~= Seq::<(Seq<char>, Scalar)>::empty());
        m
    }
}

/// The data fields of an output event's chat message, after the session and the type.
pub open spec fn output_event_fields(event: OutputEvent) -> Seq<(Seq<char>, Scalar)> {
    match event {
        OutputEvent::Delta { content, .. } => seq![text_field("content"@, content@)],
        OutputEvent::Thinking { content, .. } => seq![text_field("content"@, content@)],
        OutputEvent::ToolCall { id, name, .. } => seq![text_field("id"@, id@), text_field("name"@, name@)],
        OutputEvent::ToolCallDelta { id, arguments, .. } => seq![
            text_field("id"@, id@),
            text_field("arguments"@, arguments@),
        ],
        OutputEvent::ToolExecuting { id, name, .. } => seq![
            text_field("id"@, id@),
            text_field("name"@, name@),
        ],
        OutputEvent::ToolResult { id, name, result, is_error, .. } => seq![
            text_field("id"@, id@),
            text_field("name"@, name@),
            text_field("content"@, result@),
            ("is_error"@, Scalar::Flag(is_error)),
        ],
        OutputEvent::ToolParked { id, name, .. } => seq![text_field("id"@, id@), text_field("name"@, name@)],
        OutputEvent::Done { .. } => seq![],
        OutputEvent::Error { message, .. } => seq![text_field("message"@, message@)],
        OutputEvent::Sleep { token_count, .. } => seq![("token_count"@, Scalar::Number(token_count as nat))],
        OutputEvent::CtxUpdate { content, .. } => seq![text_field("content"@, content@)],
    }
}

/// The wire type of an output event.
pub open spec fn output_event_type(event: OutputEvent) -> Seq<char> {
    match event {
        OutputEvent::Delta { .. } => "delta"@,
        OutputEvent::Thinking { .. } => "thinking"@,
        OutputEvent::ToolCall { .. } => "tool_call"@,
        OutputEvent::ToolCallDelta { .. } => "tool_call_delta"@,
        OutputEvent::ToolExecuting { .. } => "tool_executing"@,
        OutputEvent::ToolResult { .. } => "tool_result"@,
        OutputEvent::ToolParked { .. } => "tool_parked"@,
        OutputEvent::Done { .. } => "done"@,
        OutputEvent::Error { .. } => "error"@,
        OutputEvent::Sleep { .. } => "sleep"@,
        OutputEvent::CtxUpdate { .. } => "ctx_update"@,
    }
}

/// The session an output event belongs to.
pub open spec fn output_event_session(event: OutputEvent) -> Seq<char> {
    match event {
        OutputEvent::Delta { session, .. } => session@,
        OutputEvent::Thinking { session, .. } => session@,
        OutputEvent::ToolCall { session, .. } => session@,
        OutputEvent::ToolCallDelta { session, .. } => session@,
        OutputEvent::ToolExecuting { session, .. } => session@,
        OutputEvent::ToolResult { session, .. } => session@,
        OutputEvent::ToolParked { session, .. } => session@,
        OutputEvent::Done { session } => session@,
        OutputEvent::Error { session, .. } => session@,
        OutputEvent::Sleep { session, .. } => session@,
        OutputEvent::CtxUpdate { session, .. } => session@,
    }
}

/// The chat event an output event is sent to clients as: named "chat", with the event's
/// session, its wire type and its fields.
pub fn output_event_to_message(event: &OutputEvent) -> (m: EventMessage)
    ensures
        m@.event == "chat"@,
        m@.data == chat_data(
            output_event_session(*event),
            output_event_type(*event),
            output_event_fields(*event),
        ),
{
    match event {
        OutputEvent::Delta { session, content } => EventMessage::chat_delta(session, content),
        OutputEvent::Thinking { session, content } => EventMessage::chat_thinking(session, content),
        OutputEvent::ToolCall { session, id, name } => EventMessage::chat_tool_call(session, id, name),
        OutputEvent::ToolCallDelta { session, id, arguments } => EventMessage::chat_tool_call_delta(
            session,
            id,
            arguments,
        ),
        OutputEvent::ToolExecuting { session, id, name } => {
            let data = vec![text_scalar("id", id), text_scalar("name", name)];
            assert(fields_view(data@) =~= seq![text_field("id"@, id@), text_field("name"@, name@)]);
            EventMessage::chat(session, "tool_executing", data)
        },
        OutputEvent::ToolResult { session, id, name, result, is_error } => EventMessage::chat_tool_result(
            session,
            id,
            name,
            result,
            *is_error,
        ),
        OutputEvent::ToolParked { session, id, name } => EventMessage::tool_parked(session, id, name),
        OutputEvent::Done { session } => EventMessage::chat_done(session),
        OutputEvent::Error { session, message } => EventMessage::chat_error(session, message),
        OutputEvent::Sleep { session, token_count } => {
            let data = vec![("token_count".to_owned(), JsonScalar::Count(*token_count))];
            assert(fields_view(data@) =~= seq![("token_count"@, Scalar::Number(*token_count as nat))]);
            EventMessage::chat(session, "sleep", data)
        },
        OutputEvent::CtxUpdate { session, content } => {
            let data = vec![text_scalar("content", content)];
            assert(fields_view(data@) =~= seq![text_field("content"@, content@)]);
            EventMessage::chat(session, "ctx_update", data)
        },
    }
}

/// A message of the legacy protocol, server to client.
pub enum ServerMessage {
    AuthResult { ok: bool, error: Option<String> },
    Delta { session: String, content: String },
    Thinking { session: String, content: String },
    ToolCall { session: String, id: String, name: String },
    ToolCallDelta { session: String, id: String, arguments: String },
    Done { session: String },
    Error { session: String, message: String },
    Result { id: String, result: Option<serde_json::Value>, error: Option<String> },
    Pong,
    Info { version: String, layer: Option<String> },
}

impl ServerMessage {
    /// Authentication passed.
    pub fn auth_ok() -> (m: Self)
        ensures
            m matches ServerMessage::AuthResult { ok, error } && ok && error is None,
    {
        ServerMessage::AuthResult { ok: true, error: None }
    }

    /// Authentication failed, for the given reason.
    pub fn auth_failed(reason: &str) -> (m: Self)
        ensures
            m matches ServerMessage::AuthResult { ok, error } && !ok && opt_text(error) == Some(
                reason@,
            ),
    {
        ServerMessage::AuthResult { ok: false, error: Some(reason.to_owned()) }
    }

    /// A piece of the answer's text.
    pub fn delta(session: &str, content: &str) -> (m: Self)
        ensures
            m matches ServerMessage::Delta { session: s, content: c } && s@ == session@ && c@
                == content@,
    {
        ServerMessage::Delta { session: session.to_owned(), content: content.to_owned() }
    }

    /// The turn is done.
    pub fn done(session: &str) -> (m: Self)
        ensures
            m matches ServerMessage::Done { session: s } && s@ == session@,
    {
        ServerMessage::Done { session: session.to_owned() }
    }

    /// The turn failed.
    pub fn error(session: &str, message: &str) -> (m: Self)
        ensures
            m matches ServerMessage::Error { session: s, message: x } && s@ == session@ && x@
                == message@,
    {
        ServerMessage::Error { session: session.to_owned(), message: message.to_owned() }
    }

    /// A call's result.
    pub fn result_ok(id: &str, result: serde_json::Value) -> (m: Self)
        ensures
            m matches ServerMessage::Result { id: i, result: r, error } && i@ == id@ && r == Some(
                result,
            ) && error is None,
    {
        ServerMessage::Result { id: id.to_owned(), result: Some(result), error: None }
    }

    /// A call's failure.
    pub fn result_error(id: &str, error: &str) -> (m: Self)
        ensures
            m matches ServerMessage::Result { id: i, result, error: e } && i@ == id@ && result is None
                && opt_text(e) == Some(error@),
    {
        ServerMessage::Result { id: id.to_owned(), result: None, error: Some(error.to_owned()) }
    }
}

/// A JSON-RPC request: its id, its method and its parameters.
pub struct RpcRequest {
    pub id: String,
    pub method: String,
    pub params: serde_json::Value,
}

/// A message of the current protocol, client to server: a request, or the authentication
/// shorthand.
pub enum IncomingMessage {
    Rpc(RpcRequest),
    Auth { token: Option<String> },
}

/// A message of the legacy protocol, client to server.
pub enum ClientMessage {
    Auth { token: Option<String> },
    Chat { session: String, message: String, model: Option<String> },
    Abort { session: String },
    Call { id: String, method: String, params: serde_json::Value },
    Ping,
}

/// A text message as read from a connection: in the current protocol, else in the legacy one,
/// else neither.
pub enum Incoming {
    Current(IncomingMessage),
    Legacy(ClientMessage),
    Unreadable,
}

/// What a connection does with a message.
pub enum Reply {
    /// Send this response.
    Respond(RpcResponse),
    /// Send this event.
    Event(EventMessage),
    /// Send this legacy message.
    Legacy(ServerMessage),
    /// Route the request to its handler and send the handler's response.
    RouteRpc(RpcRequest),
    /// Send the message to the session as `chat.send` would; nothing is answered directly.
    RouteChat(ChatSend),
    /// Abort the session's turn, if the session exists; nothing is answered.
    AbortSession(String),
    /// Route the legacy call to its handler and answer with its result (see
    /// `legacy_call_reply`).
    CallRpc(RpcRequest),
    /// Nothing is done or sent.
    Ignore,
}

/// Why a presented token is refused under `auth`, if it is.
pub open spec fn refusal_of(auth: ResolvedAuth, token: Option<Seq<char>>) -> Option<crate::auth::AuthRefusal> {
    token_check(auth.mode, opt_text(auth.token), token)
}

/// The message of a refused authentication.
pub open spec fn refusal_message(why: crate::auth::AuthRefusal) -> Seq<char> {
    "authentication failed: "@ + refusal_reason(why)
}

fn check_token(auth: &ResolvedAuth, token: &Option<String>) -> (r: Result<(), String>)
    ensures
        match refusal_of(*auth, opt_text(*token)) {
            None => r is Ok,
            Some(why) => r matches Err(m) && m@ == refusal_message(why),
        },
{
    let given: Option<&str> = match token {
        Some(t) => Some(t.as_str()),
        None => None,
    };
    match auth.verify_token(given) {
        Ok(()) => Ok(()),
        Err(e) => {
            proof {
                assert(e is AuthFailed);
            }
            Err(e.to_string())
        },
    }
}

/// What a connection answers to one text message, and whether it is authenticated afterwards.
///
/// Current protocol: the `auth` request checks `params.token`; on success the connection is
/// authenticated and the answer is `{"ok": true}`, else the answer is an authentication error
/// (code -32000) with the reason. Any other request is routed. The shorthand checks its token
/// the same way and answers with an `auth` event. Legacy protocol: `auth` answers with an
/// `auth_result`; `chat` and `call` on an unauthenticated connection are refused with "not
/// authenticated"; otherwise `chat` is routed as `chat.send`, `call` is routed and answered
/// with its result; `abort` aborts the session; `ping` answers `pong`. An unreadable message is
/// ignored.
pub fn connection_step(authenticated: bool, msg: Incoming, auth: &ResolvedAuth) -> (r: (bool, Reply))
    ensures
        match msg {
            Incoming::Current(IncomingMessage::Rpc(req)) => if req.method@ == "auth"@ {
                match refusal_of(*auth, json_field_str(req.params, "token"@)) {
                    None => {
                        &&& r.0
                        &&& r.1 matches Reply::Respond(resp)
                        &&& resp.id@ == req.id@
                        &&& resp.result == Some(json_flag_object("ok"@, true))
                        &&& resp.error is None
                    },
                    Some(why) => {
                        &&& r.0 == authenticated
                        &&& r.1 matches Reply::Respond(resp)
                        &&& resp.id@ == req.id@
                        &&& resp.result is None
                        &&& resp.error matches Some(e)
                        &&& e.code == -32000
                        &&& e.message@ == refusal_message(why)
                    },
                }
            } else {
                &&& r.0 == authenticated
                &&& r.1 matches Reply::RouteRpc(q)
                &&& q == req
            },
            Incoming::Current(IncomingMessage::Auth { token }) => match refusal_of(
                *auth,
                opt_text(token),
            ) {
                None => {
                    &&& r.0
                    &&& r.1 matches Reply::Event(m)
                    &&& m@.event == "auth"@
                    &&& m@.data == seq![("ok"@, Scalar::Flag(true)), ("error"@, Scalar::Nothing)]
                },
                Some(why) => {
                    &&& r.0 == authenticated
                    &&& r.1 matches Reply::Event(m)
                    &&& m@.event == "auth"@
                    &&& m@.data == seq![
                        ("ok"@, Scalar::Flag(false)),
                        text_field("error"@, refusal_message(why)),
                    ]
                },
            },
            Incoming::Legacy(ClientMessage::Auth { token }) => match refusal_of(*auth, opt_text(token)) {
                None => {
                    &&& r.0
                    &&& r.1 matches Reply::Legacy(ServerMessage::AuthResult { ok, error })
                    &&& ok
                    &&& error is None
                },
                Some(why) => {
                    &&& r.0 == authenticated
                    &&& r.1 matches Reply::Legacy(ServerMessage::AuthResult { ok, error })
                    &&& !ok
                    &&& opt_text(error) == Some(refusal_message(why))
                },
            },
            Incoming::Legacy(ClientMessage::Chat { session, message, model }) => if authenticated {
                &&& r.0
                &&& r.1 matches Reply::RouteChat(c)
                &&& c.session@ == session@
                &&& c.message@ == message@
                &&& opt_text(c.model) == opt_text(model)
            } else {
                &&& !r.0
                &&& r.1 matches Reply::Legacy(ServerMessage::AuthResult { ok, error })
                &&& !ok
                &&& opt_text(error) == Some("not authenticated"@)
            },
            Incoming::Legacy(ClientMessage::Abort { session }) => {
                &&& r.0 == authenticated
                &&& r.1 matches Reply::AbortSession(s)
                &&& s@ == session@
            },
            Incoming::Legacy(ClientMessage::Call { id, method, params }) => if authenticated {
                &&& r.0
                &&& r.1 matches Reply::CallRpc(q)
                &&& q.id@ == id@
                &&& q.method@ == method@
                &&& q.params == params
            } else {
                &&& !r.0
                &&& r.1 matches Reply::Legacy(ServerMessage::Result { id: i, result, error })
                &&& i@ == id@
                &&& result is None
                &&& opt_text(error) == Some("not authenticated"@)
            },
            Incoming::Legacy(ClientMessage::Ping) => {
                &&& r.0 == authenticated
                &&& r.1 matches Reply::Legacy(ServerMessage::Pong)
            },
            Incoming::Unreadable => r.0 == authenticated && r.1 is Ignore,
        },
{
    match msg {
        Incoming::Current(IncomingMessage::Rpc(req)) => {
            if crate::text::str_eq(req.method.as_str(), "auth") {
                let token = value_str_field(&req.params, "token");
                match check_token(auth, &token) {
                    Ok(()) => (true, Reply::Respond(RpcResponse::ok(req.id.as_str(), flag_object("ok", true)))),
                    Err(m) => (authenticated, Reply::Respond(RpcResponse::auth_error(req.id.as_str(), m.as_str()))),
                }
            } else {
                (authenticated, Reply::RouteRpc(req))
            }
        },
        Incoming::Current(IncomingMessage::Auth { token }) => match check_token(auth, &token) {
            Ok(()) => {
                let m = EventMessage::auth_result(true, None);
                (true, Reply::Event(m))
            },
            Err(e) => {
                let m = EventMessage::auth_result(false, Some(e.as_str()));
                (authenticated, Reply::Event(m))
            },
        },
        Incoming::Legacy(ClientMessage::Auth { token }) => match check_token(auth, &token) {
            Ok(()) => (true, Reply::Legacy(ServerMessage::auth_ok())),
            Err(e) => (authenticated, Reply::Legacy(ServerMessage::auth_failed(e.as_str()))),
        },
        Incoming::Legacy(ClientMessage::Chat { session, message, model }) => {
            if !authenticated {
                (false, Reply::Legacy(ServerMessage::auth_failed("not authenticated")))
            } else {
                (true, Reply::RouteChat(ChatSend { session, message, model }))
            }
        },
        Incoming::Legacy(ClientMessage::Abort { session }) => (authenticated, Reply::AbortSession(session)),
        Incoming::Legacy(ClientMessage::Call { id, method, params }) => {
            if !authenticated {
                (false, Reply::Legacy(ServerMessage::result_error(id.as_str(), "not authenticated")))
            } else {
                (true, Reply::CallRpc(RpcRequest { id, method, params }))
            }
        },
        Incoming::Legacy(ClientMessage::Ping) => (authenticated, Reply::Legacy(ServerMessage::Pong)),
        Incoming::Unreadable => (authenticated, Reply::Ignore),
    }
}

/// The legacy answer to a routed call: its result, or its error message.
pub fn legacy_call_reply(id: &str, result: Result<serde_json::Value, (i32, String)>) -> (m: ServerMessage)
    ensures
        match result {
            Ok(v) => m matches ServerMessage::Result { id: i, result: r, error } && i@ == id@ && r
                == Some(v) && error is None,
            Err((_, e)) => m matches ServerMessage::Result { id: i, result: r, error } && i@ == id@
                && r is None && opt_text(error) == Some(e@),
        },
{
    match result {
        Ok(v) => ServerMessage::result_ok(id, v),
        Err((_, e)) => ServerMessage::result_error(id, e.as_str()),
    }
}

} // verus!
