//! Core types: session keys, chat messages, gateway and authentication settings.

use vstd::prelude::*;

verus! {

/// Session identifier.
#[derive(Clone, Debug, Hash, Eq)]
pub struct SessionKey(String);

impl PartialEq for SessionKey {
    fn eq(&self, other: &Self) -> (r: bool) {
        self.0 == other.0
    }
}

impl vstd::std_specs::cmp::PartialEqSpecImpl for SessionKey {
    open spec fn obeys_eq_spec() -> bool {
        true
    }

    open spec fn eq_spec(&self, other: &Self) -> bool {
        self@ == other@
    }
}

impl View for SessionKey {
    type V = Seq<char>;

    closed spec fn view(&self) -> Seq<char> {
        self.0@
    }
}

impl SessionKey {
    /// A key holding exactly the given text.
    pub fn new(s: &str) -> (k: Self)
        ensures
            k@ == s@,
    {
        SessionKey(s.to_owned())
    }

    /// The key's text.
    pub fn as_str(&self) -> (r: &str)
        ensures
            r@ == self@,
    {
        self.0.as_str()
    }

    /// The key's text as an owned string (what the key displays as).
    pub fn to_string(&self) -> (r: String)
        ensures
            r@ == self@,
    {
        self.0.as_str().to_owned()
    }
}

impl From<&str> for SessionKey {
    fn from(s: &str) -> (k: Self)
        ensures
            k@ == s@,
    {
        SessionKey::new(s)
    }
}

impl vstd::std_specs::convert::FromSpecImpl<&str> for SessionKey {
    open spec fn obeys_from_spec() -> bool {
        false
    }

    open spec fn from_spec(s: &str) -> Self {
        session_key_of(s@)
    }
}

impl From<String> for SessionKey {
    fn from(s: String) -> (k: Self)
        ensures
            k@ == s@,
    {
        SessionKey(s)
    }
}

impl vstd::std_specs::convert::FromSpecImpl<String> for SessionKey {
    open spec fn obeys_from_spec() -> bool {
        false
    }

    open spec fn from_spec(s: String) -> Self {
        session_key_of(s@)
    }
}

/// A session key whose text is `s` (the conversions state their result by its text, in their
/// own `ensures`).
pub closed spec fn session_key_of(s: Seq<char>) -> SessionKey {
    choose|k: SessionKey| k@ == s
}

/// Message role.
#[derive(Clone, Copy, Debug, PartialEq, Eq, Structural)]
pub enum Role {
    System,
    User,
    Assistant,
    Tool,
}

/// A tool call from the assistant.
#[derive(Clone, Debug)]
pub struct ToolCall {
    pub id: String,
    pub name: String,
    pub arguments: String,
}

/// A message in a conversation.
#[derive(Clone, Debug)]
pub struct Message {
    pub role: Role,
    pub content: String,
    pub tool_calls: Option<Vec<ToolCall>>,
    pub tool_call_id: Option<String>,
}

impl Message {
    /// A system message with the given content.
    pub fn system(content: &str) -> (m: Self)
        ensures
            m.role == Role::System,
            m.content@ == content@,
            m.tool_calls is None,
            m.tool_call_id is None,
    {
        Message { role: Role::System, content: content.to_owned(), tool_calls: None, tool_call_id: None }
    }

    /// A user message with the given content.
    pub fn user(content: &str) -> (m: Self)
        ensures
            m.role == Role::User,
            m.content@ == content@,
            m.tool_calls is None,
            m.tool_call_id is None,
    {
        Message { role: Role::User, content: content.to_owned(), tool_calls: None, tool_call_id: None }
    }

    /// An assistant message with the given content.
    pub fn assistant(content: &str) -> (m: Self)
        ensures
            m.role == Role::Assistant,
            m.content@ == content@,
            m.tool_calls is None,
            m.tool_call_id is None,
    {
        Message {
            role: Role::Assistant,
            content: content.to_owned(),
            tool_calls: None,
            tool_call_id: None,
        }
    }

    /// A tool-result message answering the tool call `tool_call_id`.
    pub fn tool_result(tool_call_id: &str, content: &str) -> (m: Self)
        ensures
            m.role == Role::Tool,
            m.content@ == content@,
            m.tool_calls is None,
            m.tool_call_id matches Some(id) && id@ == tool_call_id@,
    {
        Message {
            role: Role::Tool,
            content: content.to_owned(),
            tool_calls: None,
            tool_call_id: Some(tool_call_id.to_owned()),
        }
    }
}

/// Streaming delta from the model, as the gateway forwards it.
#[derive(Clone, Debug)]
pub enum StreamDelta {
    Text(String),
    Thinking(String),
    ToolCallStart { id: String, name: String },
    ToolCallDelta { id: String, arguments: String },
    ToolCallEnd { id: String },
    Done,
    Error(String),
}

/// The gateway's default port.
pub open spec fn spec_default_port() -> u16 {
    18789
}

/// The gateway's default port.
pub fn default_port() -> (p: u16)
    ensures
        p == spec_default_port(),
{
    18789
}

/// Bind mode for the gateway.
#[derive(Clone, Copy, Debug, PartialEq, Eq, Structural)]
pub enum BindMode {
    Loopback,
    Lan,
}

impl BindMode {
    /// The listening address of the bind mode.
    pub fn to_addr(&self) -> (a: &str)
        ensures
            *self == BindMode::Loopback ==> a@ == "127.0.0.1"@,
            *self == BindMode::Lan ==> a@ == "0.0.0.0"@,
    {
        match self {
            BindMode::Loopback => "127.0.0.1",
            BindMode::Lan => "0.0.0.0",
        }
    }
}

impl Default for BindMode {
    fn default() -> (b: Self)
        ensures
            b == BindMode::Lan,
    {
        BindMode::Lan
    }
}

/// Authentication mode.
#[derive(Clone, Copy, Debug, PartialEq, Eq, Structural)]
pub enum AuthMode {
    Token,
    Disabled,
}

impl Default for AuthMode {
    fn default() -> (m: Self)
        ensures
            m == AuthMode::Token,
    {
        AuthMode::Token
    }
}

/// Authentication configuration.
#[derive(Clone, Debug)]
pub struct AuthConfig {
    pub mode: AuthMode,
    pub token: Option<String>,
}

impl Default for AuthConfig {
    fn default() -> (c: Self)
        ensures
            c.mode == AuthMode::Token,
            c.token is None,
    {
        AuthConfig { mode: AuthMode::Token, token: None }
    }
}

/// Gateway configuration.
#[derive(Clone, Debug)]
pub struct GatewayConfig {
    pub port: u16,
    pub bind: BindMode,
    pub auth: AuthConfig,
}

impl Default for GatewayConfig {
    fn default() -> (c: Self)
        ensures
            c.port == spec_default_port(),
            c.bind == BindMode::Lan,
            c.auth.mode == AuthMode::Token,
            c.auth.token is None,
    {
        GatewayConfig { port: default_port(), bind: BindMode::Lan, auth: AuthConfig::default() }
    }
}

/// The errors of the gateway and its agents.
#[derive(Debug, Clone)]
pub enum Error {
    AuthFailed { reason: String },
    ConnectionClosed(String),
    InvalidMessage(String),
    SessionNotFound(String),
    MethodNotFound(String),
    LlmError { provider: String, message: String },
    ToolError { name: String, message: String },
    ConfigError(String),
    /// An I/O failure, by its message.
    IoError(String),
    /// A JSON failure, by its message.
    JsonError(String),
    Internal(String),
}

impl Error {
    /// An authentication failure for the given reason.
    pub fn auth_failed(reason: &str) -> (e: Self)
        ensures
            e matches Error::AuthFailed { reason: r } && r@ == reason@,
    {
        Error::AuthFailed { reason: reason.to_owned() }
    }

    /// A model provider's failure.
    pub fn llm_error(provider: &str, message: &str) -> (e: Self)
        ensures
            e matches Error::LlmError { provider: p, message: m } && p@ == provider@ && m@
                == message@,
    {
        Error::LlmError { provider: provider.to_owned(), message: message.to_owned() }
    }

    /// A tool's failure.
    pub fn tool_error(name: &str, message: &str) -> (e: Self)
        ensures
            e matches Error::ToolError { name: n, message: m } && n@ == name@ && m@ == message@,
    {
        Error::ToolError { name: name.to_owned(), message: message.to_owned() }
    }

    /// The error as it is shown (see `error_text`).
    pub fn to_string(&self) -> (r: String)
        ensures
            r@ == error_text(*self),
    {
        let mut out = String::new();
        match self {
            Error::AuthFailed { reason } => {
                crate::text::push_str(&mut out, "authentication failed: ");
                crate::text::push_str(&mut out, reason.as_str());
            },
            Error::ConnectionClosed(m) => {
                crate::text::push_str(&mut out, "connection closed: ");
                crate::text::push_str(&mut out, m.as_str());
            },
            Error::InvalidMessage(m) => {
                crate::text::push_str(&mut out, "invalid message: ");
                crate::text::push_str(&mut out, m.as_str());
            },
            Error::SessionNotFound(m) => {
                crate::text::push_str(&mut out, "session not found: ");
                crate::text::push_str(&mut out, m.as_str());
            },
            Error::MethodNotFound(m) => {
                crate::text::push_str(&mut out, "method not found: ");
                crate::text::push_str(&mut out, m.as_str());
            },
            Error::LlmError { provider, message } => {
                crate::text::push_str(&mut out, "llm error: ");
                crate::text::push_str(&mut out, provider.as_str());
                crate::text::push_str(&mut out, " - ");
                crate::text::push_str(&mut out, message.as_str());
            },
            Error::ToolError { name, message } => {
                crate::text::push_str(&mut out, "tool error: ");
                crate::text::push_str(&mut out, name.as_str());
                crate::text::push_str(&mut out, " - ");
                crate::text::push_str(&mut out, message.as_str());
            },
            Error::ConfigError(m) => {
                crate::text::push_str(&mut out, "config error: ");
                crate::text::push_str(&mut out, m.as_str());
            },
            Error::IoError(m) => {
                crate::text::push_str(&mut out, "io error: ");
                crate::text::push_str(&mut out, m.as_str());
            },
            Error::JsonError(m) => {
                crate::text::push_str(&mut out, "json error: ");
                crate::text::push_str(&mut out, m.as_str());
            },
            Error::Internal(m) => {
                crate::text::push_str(&mut out, "internal error: ");
                crate::text::push_str(&mut out, m.as_str());
            },
        }
        out
    }
}

/// How an error is shown.
pub open spec fn error_text(e: Error) -> Seq<char> {
    match e {
        Error::AuthFailed { reason } => "authentication failed: "@ + reason@,
        Error::ConnectionClosed(m) => "connection closed: "@ + m@,
        Error::InvalidMessage(m) => "invalid message: "@ + m@,
        Error::SessionNotFound(m) => "session not found: "@ + m@,
        Error::MethodNotFound(m) => "method not found: "@ + m@,
        Error::LlmError { provider, message } => "llm error: "@ + provider@ + " - "@ + message@,
        Error::ToolError { name, message } => "tool error: "@ + name@ + " - "@ + message@,
        Error::ConfigError(m) => "config error: "@ + m@,
        Error::IoError(m) => "io error: "@ + m@,
        Error::JsonError(m) => "json error: "@ + m@,
        Error::Internal(m) => "internal error: "@ + m@,
    }
}

/// Everything a gateway is started with: its network and authentication settings, the model
/// provider's key when configured, the workspace and an optional system prompt.
#[derive(Debug, Clone)]
pub struct ExtendedConfig {
    pub gateway: GatewayConfig,
    pub anthropic_api_key: Option<String>,
    pub workspace_root: String,
    pub system_prompt: Option<String>,
}

impl ExtendedConfig {
    /// The default settings for a gateway working in `workspace_root` (by default the current
    /// directory).
    pub fn with_workspace(workspace_root: String) -> (c: Self)
        ensures
            c.gateway.port == 18789,
            c.gateway.bind == BindMode::Lan,
            c.gateway.auth.mode == AuthMode::Token,
            c.gateway.auth.token is None,
            c.anthropic_api_key is None,
            c.workspace_root@ == workspace_root@,
            c.system_prompt is None,
    {
        ExtendedConfig {
            gateway: GatewayConfig::default(),
            anthropic_api_key: None,
            workspace_root,
            system_prompt: None,
        }
    }

    /// The provider key in force: the configured one, else the one from the environment; a
    /// gateway without one does not start.
    pub fn api_key(&self, env_key: Option<String>) -> (r: Result<String, Error>)
        ensures
            match self.anthropic_api_key {
                Some(k) => r matches Ok(x) && x@ == k@,
                None => match env_key {
                    Some(k) => r matches Ok(x) && x@ == k@,
                    None => r matches Err(Error::ConfigError(m)) && m@
                        == "ANTHROPIC_API_KEY not set"@,
                },
            },
    {
        match &self.anthropic_api_key {
            Some(k) => Ok(k.clone()),
            None => match env_key {
                Some(k) => Ok(k),
                None => Err(Error::ConfigError("ANTHROPIC_API_KEY not set".to_owned())),
            },
        }
    }
}

/// RPC error detail: a numeric code and a message.
#[derive(Clone, Debug)]
pub struct RpcError {
    pub code: i32,
    pub message: String,
}


#[verifier::external_type_specification]
#[verifier::external_body]
pub struct ExJsonValue(serde_json::Value);

/// An RPC response: the request's id and either a result value or an error.
#[derive(Clone, Debug)]
pub struct RpcResponse {
    pub id: String,
    pub result: Option<serde_json::Value>,
    pub error: Option<RpcError>,
}

impl RpcResponse {
    /// A successful response carrying `result`.
    pub fn ok(id: &str, result: serde_json::Value) -> (r: Self)
        ensures
            r.id@ == id@,
            r.result == Some(result),
            r.error is None,
    {
        RpcResponse { id: id.to_owned(), result: Some(result), error: None }
    }

    /// An error response with `code` and `message`.
    pub fn err(id: &str, code: i32, message: &str) -> (r: Self)
        ensures
            r.id@ == id@,
            r.result is None,
            r.error matches Some(e) && e.code == code && e.message@ == message@,
    {
        RpcResponse {
            id: id.to_owned(),
            result: None,
            error: Some(RpcError { code, message: message.to_owned() }),
        }
    }

    /// The error for an unknown method: code -32601, "Method not found: " and the method.
    pub fn method_not_found(id: &str, method: &str) -> (r: Self)
        ensures
            r.id@ == id@,
            r.result is None,
            r.error matches Some(e) && e.code == -32601 && e.message@ == "Method not found: "@
                + method@,
    {
        let mut m = String::new();
        crate::text::push_str(&mut m, "Method not found: ");
        crate::text::push_str(&mut m, method);
        RpcResponse { id: id.to_owned(), result: None, error: Some(RpcError { code: -32601, message: m }) }
    }

    /// An internal error: code -32603.
    pub fn internal_error(id: &str, message: &str) -> (r: Self)
        ensures
            r.id@ == id@,
            r.result is None,
            r.error matches Some(e) && e.code == -32603 && e.message@ == message@,
    {
        Self::err(id, -32603, message)
    }

    /// An authentication error: code -32000.
    pub fn auth_error(id: &str, message: &str) -> (r: Self)
        ensures
            r.id@ == id@,
            r.result is None,
            r.error matches Some(e) && e.code == -32000 && e.message@ == message@,
    {
        Self::err(id, -32000, message)
    }
}

} // verus!
