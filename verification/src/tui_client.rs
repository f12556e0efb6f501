//! The terminal client's reading of the gateway's pushed events: what each event adds to the
//! output pane, whether it ends the running turn, and what it says of the model.

use vstd::prelude::*;
use crate::text::{
    byte_cut, byte_cut_chars, byte_len, chars_of, decimal, decimal_string, has_byte_cut, lemma_byte_len,
    push_str, str_eq, string_from_chars,
};
use crate::tui::{fed, App, AppView};
use crate::json::{json_bool_at, json_bool_at_exec, json_str_at, json_str_at_exec, opt_text};
use crate::llm::{parse_json, valid_json};

verus! {

broadcast use vstd::string::group_string_axioms;

/// A pushed event as the client reads it: the event name, and the fields of its data that the
/// client looks at (each present only when it is a string, or a boolean for `is_error`).
#[derive(Clone, Debug)]
pub struct GatewayEvent {
    pub event: String,
    /// The data's `type`, empty when absent.
    pub kind: String,
    pub content: Option<String>,
    pub name: Option<String>,
    pub is_error: Option<bool>,
    pub message: Option<String>,
    pub version: Option<String>,
}

/// The text of an optional field, or `default` when it is absent.
pub open spec fn or_text(o: Option<String>, default: Seq<char>) -> Seq<char> {
    match o {
        Some(s) => s@,
        None => default,
    }
}

/// Whether the event reports a failed tool call.
pub open spec fn failed_result(ev: GatewayEvent) -> bool {
    ev.event@ == "chat"@ && ev.kind@ == "tool_result"@ && ev.is_error == Some(true)
}

/// The text a chat event adds to the output pane, if any: a delta's content, a tool call's
/// name in brackets, a tool result's error (its first 200 bytes) or size, a line feed at the
/// end of the turn, or the error message.
pub open spec fn chat_output(ev: GatewayEvent) -> Option<Seq<char>> {
    let k = ev.kind@;
    if k == "delta"@ {
        match ev.content {
            Some(c) => Some(c@),
            None => None,
        }
    } else if k == "tool_call"@ {
        Some("\n[tool:"@ + or_text(ev.name, "?"@) + "]\n"@)
    } else if k == "tool_result"@ {
        let c = or_text(ev.content, Seq::empty());
        if ev.is_error == Some(true) {
            Some("  error: "@ + (if byte_len(c) > 200 {
                byte_cut(c, 200)
            } else {
                c
            }) + "\n"@)
        } else {
            Some("  done ("@ + decimal(byte_len(c)) + " chars)\n"@)
        }
    } else if k == "done"@ {
        Some("\n"@)
    } else if k == "error"@ {
        Some("\nError: "@ + or_text(ev.message, "unknown error"@) + "\n"@)
    } else {
        None
    }
}

/// The client after an event: chat events add their output and, at the end of the turn or on
/// an error, mark the agent as no longer running; an info event with a version names the model
/// after the gateway; anything else changes nothing.
pub open spec fn after_event(a: AppView, ev: GatewayEvent) -> AppView {
    if ev.event@ == "chat"@ {
        let a1 = match chat_output(ev) {
            Some(t) => AppView { output: fed(a.output, t), scroll: fed(a.output, t).len(), ..a },
            None => a,
        };
        if ev.kind@ == "done"@ || ev.kind@ == "error"@ {
            AppView { agent_running: false, ..a1 }
        } else {
            a1
        }
    } else if ev.event@ == "info"@ {
        match ev.version {
            Some(v) => AppView { model: "gateway v"@ + v@, ..a },
            None => a,
        }
    } else {
        a
    }
}

/// The text a chat event adds to the output pane.
fn chat_text(ev: &GatewayEvent) -> (r: Option<String>)
    requires
        failed_result(*ev) ==> (ev.content matches Some(c) ==> byte_len(c@) <= 200 || has_byte_cut(
            c@,
            200,
        )),
        ev.event@ == "chat"@,
    ensures
        match r {
            Some(t) => chat_output(*ev) == Some(t@),
            None => chat_output(*ev) is None,
        },
{
    let k = ev.kind.as_str();
    if str_eq(k, "delta") {
        match &ev.content {
            Some(c) => Some(c.clone()),
            None => None,
        }
    } else if str_eq(k, "tool_call") {
        let mut t = String::new();
        push_str(&mut t, "\n[tool:");
        match &ev.name {
            Some(n) => push_str(&mut t, n.as_str()),
            None => push_str(&mut t, "?"),
        }
        push_str(&mut t, "]\n");
        Some(t)
    } else if str_eq(k, "tool_result") {
        let c: &str = match &ev.content {
            Some(c) => c.as_str(),
            None => "",
        };
        let mut t = String::new();
        proof {
            lemma_byte_len(c@);
        }
        let failed = match ev.is_error {
            Some(b) => b,
            None => false,
        };
        proof {
            reveal_strlit("");
        }
        assert(c@ == or_text(ev.content, Seq::empty()));
        if failed {
            push_str(&mut t, "  error: ");
            if c.as_bytes().len() > 200 {
                let cut = byte_cut_chars(chars_of(c).as_slice(), 200);
                push_str(&mut t, string_from_chars(cut.as_slice()).as_str());
            } else {
                push_str(&mut t, c);
            }
            push_str(&mut t, "\n");
        } else {
            push_str(&mut t, "  done (");
            push_str(&mut t, decimal_string(c.as_bytes().len()).as_str());
            push_str(&mut t, " chars)\n");
        }
        Some(t)
    } else if str_eq(k, "done") {
        Some("\n".to_owned())
    } else if str_eq(k, "error") {
        let mut t = String::new();
        push_str(&mut t, "\nError: ");
        match &ev.message {
            Some(m) => push_str(&mut t, m.as_str()),
            None => push_str(&mut t, "unknown error"),
        }
        push_str(&mut t, "\n");
        Some(t)
    } else {
        None
    }
}

impl App {
    /// Applies one event pushed by the gateway (an error result's content must be cut at 200
    /// bytes between characters when it is longer).
    pub fn apply_gateway_event(&mut self, ev: &GatewayEvent)
        requires
            failed_result(*ev) ==> (ev.content matches Some(c) ==> byte_len(c@) <= 200
                || has_byte_cut(c@, 200)),
        ensures
            final(self)@ == after_event(old(self)@, *ev),
    {
        if str_eq(ev.event.as_str(), "chat") {
            match chat_text(ev) {
                Some(t) => self.push_output(t.as_str()),
                None => {},
            }
            let k = ev.kind.as_str();
            if str_eq(k, "done") || str_eq(k, "error") {
                self.agent_running = false;
            }
        } else if str_eq(ev.event.as_str(), "info") {
            match &ev.version {
                Some(v) => {
                    let mut m = String::new();
                    push_str(&mut m, "gateway v");
                    push_str(&mut m, v.as_str());
                    self.model = m;
                },
                None => {},
            }
        }
    }
}


/// A text field of a pushed event, empty when absent.
pub open spec fn text_or_empty(o: Option<Seq<char>>) -> Seq<char> {
    match o {
        Some(t) => t,
        None => Seq::empty(),
    }
}

/// Reads a pushed event from the gateway's JSON text: none when the text is not JSON; otherwise
/// its `event` (empty when absent), and the `type`, `content`, `name`, `is_error`, `message` and
/// `version` of its `data`.
pub fn gateway_event_of(text: &str) -> (r: Option<GatewayEvent>)
    ensures
        r is Some <==> valid_json(text@),
        r matches Some(e) ==> {
            &&& e.event@ == text_or_empty(json_str_at(text@, seq!["event"@]))
            &&& e.kind@ == text_or_empty(json_str_at(text@, seq!["data"@, "type"@]))
            &&& opt_text(e.content) == json_str_at(text@, seq!["data"@, "content"@])
            &&& opt_text(e.name) == json_str_at(text@, seq!["data"@, "name"@])
            &&& e.is_error == json_bool_at(text@, seq!["data"@, "is_error"@])
            &&& opt_text(e.message) == json_str_at(text@, seq!["data"@, "message"@])
            &&& opt_text(e.version) == json_str_at(text@, seq!["data"@, "version"@])
        },
{
    if parse_json(text).is_err() {
        return None;
    }
    let ev = ["event"];
    let kind = ["data", "type"];
    let content = ["data", "content"];
    let name = ["data", "name"];
    let is_error = ["data", "is_error"];
    let message = ["data", "message"];
    let version = ["data", "version"];
    assert(keys_view_of(ev@) =~= seq!["event"@]);
    assert(keys_view_of(kind@) =~= seq!["data"@, "type"@]);
    assert(keys_view_of(content@) =~= seq!["data"@, "content"@]);
    assert(keys_view_of(name@) =~= seq!["data"@, "name"@]);
    assert(keys_view_of(is_error@) =~= seq!["data"@, "is_error"@]);
    assert(keys_view_of(message@) =~= seq!["data"@, "message"@]);
    assert(keys_view_of(version@) =~= seq!["data"@, "version"@]);
    let event = match json_str_at_exec(text, ev.as_slice()) {
        Some(s) => s,
        None => String::new(),
    };
    let kind_text = match json_str_at_exec(text, kind.as_slice()) {
        Some(s) => s,
        None => String::new(),
    };
    Some(GatewayEvent {
        event,
        kind: kind_text,
        content: json_str_at_exec(text, content.as_slice()),
        name: json_str_at_exec(text, name.as_slice()),
        is_error: json_bool_at_exec(text, is_error.as_slice()),
        message: json_str_at_exec(text, message.as_slice()),
        version: json_str_at_exec(text, version.as_slice()),
    })
}

/// The texts of a list of keys.
pub open spec fn keys_view_of(path: Seq<&str>) -> Seq<Seq<char>> {
    crate::json::keys_view(path)
}

/// The client's reading of the gateway's reply to its token: an `auth` event whose `data.ok`
/// is not `true` refuses the connection with "Authentication failed: " and `data.error`
/// ("unknown" when absent); any other reply lets it go on.
pub fn auth_verdict(reply: &str) -> (r: Result<(), String>)
    ensures
        (json_str_at(reply@, seq!["event"@]) == Some("auth"@) && json_bool_at(
            reply@,
            seq!["data"@, "ok"@],
        ) != Some(true)) <==> r is Err,
        r matches Err(m) ==> m@ == "Authentication failed: "@ + match json_str_at(
            reply@,
            seq!["data"@, "error"@],
        ) {
            Some(e) => e,
            None => "unknown"@,
        },
{
    let ev = ["event"];
    let ok = ["data", "ok"];
    let err = ["data", "error"];
    assert(keys_view_of(ev@) =~= seq!["event"@]);
    assert(keys_view_of(ok@) =~= seq!["data"@, "ok"@]);
    assert(keys_view_of(err@) =~= seq!["data"@, "error"@]);
    let is_auth = match json_str_at_exec(reply, ev.as_slice()) {
        Some(e) => str_eq(e.as_str(), "auth"),
        None => false,
    };
    let passed = match json_bool_at_exec(reply, ok.as_slice()) {
        Some(b) => b,
        None => false,
    };
    if is_auth && !passed {
        let mut m = String::new();
        push_str(&mut m, "Authentication failed: ");
        match json_str_at_exec(reply, err.as_slice()) {
            Some(e) => push_str(&mut m, e.as_str()),
            None => push_str(&mut m, "unknown"),
        }
        Err(m)
    } else {
        Ok(())
    }
}

/// Whether the gateway's first message is its `info` event (the auth reply then follows).
pub fn is_info_event(text: &str) -> (b: bool)
    ensures
        b == (json_str_at(text@, seq!["event"@]) == Some("info"@)),
{
    let ev = ["event"];
    assert(keys_view_of(ev@) =~= seq!["event"@]);
    match json_str_at_exec(text, ev.as_slice()) {
        Some(e) => str_eq(e.as_str(), "info"),
        None => false,
    }
}

} // verus!
