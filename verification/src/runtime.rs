//! The agent loop's own logic: the events it reports, the steering and follow-up queues, the
//! accumulation of a streamed model answer, and the truncation of long tool output.

use vstd::prelude::*;
use crate::llm::{AccumulatedToolCall, StreamDelta, Usage};
use crate::types::SessionKey;
use crate::context::{sleep_due, sleep_due_spec};
use crate::text::{
    append_chars, byte_cut, byte_cut_chars, byte_len, chars_of, decimal, decimal_string,
    has_byte_cut, lemma_byte_len, push_str, string_from_chars,
};

verus! {

broadcast use vstd::string::group_string_axioms;

/// What the agent loop reports while it runs.
#[derive(Clone, Debug)]
pub enum AgentEvent {
    AgentStart,
    TurnStart { turn: usize },
    Text(String),
    Thinking(String),
    ToolCallStart { id: String, name: String },
    ToolCallDelta { id: String, arguments: String },
    ToolExecuting { id: String, name: String },
    ToolResult { id: String, name: String, result: String, is_error: bool },
    ToolSkipped { id: String, name: String },
    SteeringInjected { message_count: usize },
    FollowUpInjected { message_count: usize },
    /// The layer reached its context limit and should sleep.
    Sleep { token_count: usize },
    TurnEnd { turn: usize, stop_reason: String, has_tool_calls: bool },
    Done { stop_reason: String },
    Error(String),
    Aborted,
}

/// Messages queued by a human while the agent runs: steering messages interrupt now (the
/// remaining tools are skipped), follow-ups wait until the agent would stop.
pub struct MessageQueues {
    pub steering: Vec<String>,
    pub follow_up: Vec<String>,
}

impl MessageQueues {
    /// Empty queues.
    pub fn new() -> (q: Self)
        ensures
            q.steering@.len() == 0,
            q.follow_up@.len() == 0,
    {
        MessageQueues { steering: Vec::new(), follow_up: Vec::new() }
    }

    /// Takes all steering messages, in arrival order, leaving none.
    pub fn drain_steering(&mut self) -> (taken: Vec<String>)
        ensures
            taken@ == old(self).steering@,
            final(self).steering@.len() == 0,
            final(self).follow_up@ == old(self).follow_up@,
    {
        let mut taken: Vec<String> = Vec::new();
        std::mem::swap(&mut taken, &mut self.steering);
        taken
    }

    /// Takes all follow-up messages, in arrival order, leaving none.
    pub fn drain_follow_up(&mut self) -> (taken: Vec<String>)
        ensures
            taken@ == old(self).follow_up@,
            final(self).follow_up@.len() == 0,
            final(self).steering@ == old(self).steering@,
    {
        let mut taken: Vec<String> = Vec::new();
        std::mem::swap(&mut taken, &mut self.follow_up);
        taken
    }

    /// Whether a steering message waits.
    pub fn has_steering(&self) -> (b: bool)
        ensures
            b == (self.steering@.len() > 0),
    {
        self.steering.len() > 0
    }

    /// Whether a follow-up message waits.
    pub fn has_follow_up(&self) -> (b: bool)
        ensures
            b == (self.follow_up@.len() > 0),
    {
        self.follow_up.len() > 0
    }

    /// Whether any message waits.
    pub fn has_any(&self) -> (b: bool)
        ensures
            b == (self.steering@.len() > 0 || self.follow_up@.len() > 0),
    {
        self.has_steering() || self.has_follow_up()
    }
}

/// What a tool call holds: its id, name and argument text.
pub open spec fn call_view(c: AccumulatedToolCall) -> (Seq<char>, Seq<char>, Seq<char>) {
    (c.id@, c.name@, c.arguments@)
}

/// The views of a list of tool calls.
pub open spec fn calls_view(cs: Seq<AccumulatedToolCall>) -> Seq<(Seq<char>, Seq<char>, Seq<char>)> {
    cs.map_values(|c: AccumulatedToolCall| call_view(c))
}

/// A model answer being received: the text so far, the finished tool calls, the tool call in
/// progress and the stop reason.
pub struct StreamAccumulator {
    pub text: String,
    pub tool_calls: Vec<AccumulatedToolCall>,
    pub current: Option<AccumulatedToolCall>,
    pub stop_reason: String,
}

/// The view of the tool call in progress.
pub open spec fn current_view(c: Option<AccumulatedToolCall>) -> Option<
    (Seq<char>, Seq<char>, Seq<char>),
> {
    match c {
        Some(t) => Some(call_view(t)),
        None => None,
    }
}

impl StreamAccumulator {
    /// Nothing received yet; the stop reason is "end_turn" until the stream says otherwise.
    pub fn new() -> (a: Self)
        ensures
            a.text@ == Seq::<char>::empty(),
            a.tool_calls@.len() == 0,
            a.current is None,
            a.stop_reason@ == "end_turn"@,
    {
        StreamAccumulator {
            text: String::new(),
            tool_calls: Vec::new(),
            current: None,
            stop_reason: "end_turn".to_owned(),
        }
    }

    /// Takes in one streamed delta: text is appended; a tool call start opens a new call with
    /// no arguments; argument deltas extend the open call; a tool call end moves the open call
    /// to the finished ones; the final delta may set the stop reason. Thinking and errors only
    /// pass through.
    pub fn apply(&mut self, delta: &StreamDelta)
        ensures
            ({
                let o = *old(self);
                let f = *final(self);
                match delta {
                    StreamDelta::Text(t) => f.text@ == o.text@ + t@ && calls_view(f.tool_calls@)
                        == calls_view(o.tool_calls@) && current_view(f.current) == current_view(
                        o.current,
                    ) && f.stop_reason@ == o.stop_reason@,
                    StreamDelta::ToolCallStart { id, name } => f.text@ == o.text@ && calls_view(
                        f.tool_calls@,
                    ) == calls_view(o.tool_calls@) && current_view(f.current) == Some(
                        (id@, name@, Seq::<char>::empty()),
                    ) && f.stop_reason@ == o.stop_reason@,
                    StreamDelta::ToolCallDelta { arguments, .. } => f.text@ == o.text@
                        && calls_view(f.tool_calls@) == calls_view(o.tool_calls@) && current_view(
                        f.current,
                    ) == (match current_view(o.current) {
                        Some(c) => Some((c.0, c.1, c.2 + arguments@)),
                        None => None,
                    }) && f.stop_reason@ == o.stop_reason@,
                    StreamDelta::ToolCallEnd { .. } => f.text@ == o.text@ && (match current_view(
                        o.current,
                    ) {
                        Some(c) => calls_view(f.tool_calls@) == calls_view(o.tool_calls@).push(c),
                        None => calls_view(f.tool_calls@) == calls_view(o.tool_calls@),
                    }) && f.current is None && f.stop_reason@ == o.stop_reason@,
                    StreamDelta::Done { stop_reason, .. } => f.text@ == o.text@ && calls_view(
                        f.tool_calls@,
                    ) == calls_view(o.tool_calls@) && current_view(f.current) == current_view(
                        o.current,
                    ) && f.stop_reason@ == (match stop_reason {
                        Some(r) => r@,
                        None => o.stop_reason@,
                    }),
                    _ => f.text@ == o.text@ && calls_view(f.tool_calls@) == calls_view(
                        o.tool_calls@,
                    ) && current_view(f.current) == current_view(o.current) && f.stop_reason@
                        == o.stop_reason@,
                }
            }),
    {
        match delta {
            StreamDelta::Text(t) => {
                push_str(&mut self.text, t.as_str());
            },
            StreamDelta::ToolCallStart { id, name } => {
                self.current = Some(
                    AccumulatedToolCall { id: id.clone(), name: name.clone(), arguments: String::new() },
                );
            },
            StreamDelta::ToolCallDelta { arguments, .. } => {
                match self.current.take() {
                    Some(mut c) => {
                        push_str(&mut c.arguments, arguments.as_str());
                        self.current = Some(c);
                    },
                    None => {},
                }
            },
            StreamDelta::ToolCallEnd { .. } => {
                match self.current.take() {
                    Some(c) => {
                        let ghost before = self.tool_calls@;
                        self.tool_calls.push(c);
                        assert(calls_view(self.tool_calls@) =~= calls_view(before).push(
                            call_view(c),
                        ));
                    },
                    None => {},
                }
            },
            StreamDelta::Done { stop_reason, .. } => {
                match stop_reason {
                    Some(r) => {
                        self.stop_reason = r.clone();
                    },
                    None => {},
                }
            },
            _ => {},
        }
    }

    /// The text of the answer, if there was any.
    pub fn text_if_any(&self) -> (t: Option<String>)
        ensures
            self.text@.len() == 0 ==> t is None,
            self.text@.len() > 0 ==> t is Some && t->0@ == self.text@,
    {
        if self.text.as_str().is_empty() {
            None
        } else {
            Some(self.text.clone())
        }
    }
}

/// The byte length past which tool output is cut.
pub const TOOL_OUTPUT_LIMIT: usize = 50000;

/// Tool output of `s`: itself when within the limit, otherwise the characters of its first
/// `TOOL_OUTPUT_LIMIT` bytes, "...", a line break and `note`.
pub open spec fn cut_output(s: Seq<char>, note: Seq<char>) -> Seq<char> {
    if byte_len(s) <= TOOL_OUTPUT_LIMIT {
        s
    } else {
        byte_cut(s, TOOL_OUTPUT_LIMIT as nat) + "...\n"@ + note
    }
}

/// Whether the limit falls on a character boundary of `s` (or `s` is within it).
pub open spec fn cuttable(s: Seq<char>) -> bool {
    byte_len(s) <= TOOL_OUTPUT_LIMIT || has_byte_cut(s, TOOL_OUTPUT_LIMIT as nat)
}

/// Cuts tool output that is over the limit and appends `note`.
fn cut_with_note(result: &str, note: Vec<char>) -> (r: String)
    requires
        cuttable(result@),
        byte_len(result@) > TOOL_OUTPUT_LIMIT,
    ensures
        r@ == byte_cut(result@, TOOL_OUTPUT_LIMIT as nat) + "...\n"@ + note@,
{
    let v = chars_of(result);
    let mut out = byte_cut_chars(v.as_slice(), TOOL_OUTPUT_LIMIT);
    let dots = chars_of("...\n");
    append_chars(&mut out, dots.as_slice());
    append_chars(&mut out, note.as_slice());
    string_from_chars(out.as_slice())
}

/// Tool output as it is stored and reported: output over 50000 bytes is cut there and noted
/// with its total byte count.
pub fn truncate_tool_output(result: &str) -> (r: String)
    requires
        cuttable(result@),
    ensures
        r@ == cut_output(result@, "[truncated, "@ + decimal(byte_len(result@)) + " total chars]"@),
{
    proof {
        lemma_byte_len(result@);
    }
    let n = result.as_bytes().len();
    if n <= TOOL_OUTPUT_LIMIT {
        return result.to_owned();
    }
    let mut note: Vec<char> = chars_of("[truncated, ");
    let digits = chars_of(decimal_string(n).as_str());
    let mut i: usize = 0;
    let ghost head = note@;
    while i < digits.len()
        invariant
            i <= digits@.len(),
            note@ == head + digits@.take(i as int),
        decreases digits.len() - i,
    {
        note.push(digits[i]);
        assert(digits@.take(i + 1) =~= digits@.take(i as int).push(digits@[i as int]));
        i = i + 1;
    }
    assert(digits@.take(digits@.len() as int) =~= digits@);
    let tail = chars_of(" total chars]");
    let mut j: usize = 0;
    let ghost mid = note@;
    while j < tail.len()
        invariant
            j <= tail@.len(),
            note@ == mid + tail@.take(j as int),
        decreases tail.len() - j,
    {
        note.push(tail[j]);
        assert(tail@.take(j + 1) =~= tail@.take(j as int).push(tail@[j as int]));
        j = j + 1;
    }
    assert(tail@.take(tail@.len() as int) =~= tail@);
    assert(note@ =~= "[truncated, "@ + decimal(byte_len(result@)) + " total chars]"@);
    cut_with_note(result, note)
}

/// Output of a child agent's tool as it is stored: output over 50000 bytes is cut there and
/// noted as truncated.
pub fn truncate_child_output(result: &str) -> (r: String)
    requires
        cuttable(result@),
    ensures
        r@ == cut_output(result@, "[truncated]"@),
{
    proof {
        lemma_byte_len(result@);
    }
    let n = result.as_bytes().len();
    if n <= TOOL_OUTPUT_LIMIT {
        return result.to_owned();
    }
    cut_with_note(result, chars_of("[truncated]"))
}

/// How a run begins once the user's message is added.
pub enum TurnStart {
    /// The session is past its sleep threshold: report sleep with its token count and stop
    /// before any model call.
    Sleep { token_count: usize },
    /// Start the agent loop.
    Start,
}

/// The decision made at the start of a run, on the session's token total after the user's
/// message: sleep exactly when the total is past the threshold (a share of the context window
/// in thousandths), else start.
pub fn turn_start(total: usize, threshold_permille: u32, max_context: usize) -> (s: TurnStart)
    ensures
        sleep_due_spec(total as nat, threshold_permille as nat, max_context as nat) ==> (s matches TurnStart::Sleep {
            token_count,
        } && token_count == total),
        !sleep_due_spec(total as nat, threshold_permille as nat, max_context as nat) ==> s is Start,
{
    if sleep_due(total, threshold_permille, max_context) {
        TurnStart::Sleep { token_count: total }
    } else {
        TurnStart::Start
    }
}

/// Where the agent loop stands within one run: the turn count, whether the last answer called
/// tools (or more input is waiting), and the steering messages still to inject.
pub struct TurnLoop {
    pub turn: usize,
    pub max_tool_iterations: usize,
    pub has_more_tool_calls: bool,
    pub pending_steering: Vec<String>,
}

/// The next step of the inner loop.
pub enum InnerStep {
    /// No tool calls and no steering: the agent would stop.
    Finished,
    /// The turn limit is passed: the run reports this error and stops.
    Exceeded { error: String },
    /// Ask the model for turn `turn`, after adding the steering messages `inject`.
    Run { turn: usize, inject: Vec<String> },
}

/// The texts of a list of messages.
pub open spec fn texts(v: Seq<String>) -> Seq<Seq<char>> {
    v.map_values(|s: String| s@)
}

impl TurnLoop {
    /// A run that starts with the steering messages that arrived meanwhile.
    pub fn new(max_tool_iterations: usize, steering: Vec<String>) -> (l: Self)
        ensures
            l.turn == 0,
            l.max_tool_iterations == max_tool_iterations,
            l.has_more_tool_calls,
            l.pending_steering@ == steering@,
    {
        TurnLoop { turn: 0, max_tool_iterations, has_more_tool_calls: true, pending_steering: steering }
    }

    /// The next step: the agent stops when the last answer called no tools and no steering
    /// waits; otherwise the turn count goes up, and past the limit the run is over with the
    /// error "Max tool iterations exceeded", else the
    /// waiting steering messages are injected before the next model call.
    pub fn next_step(&mut self) -> (s: InnerStep)
        requires
            old(self).turn < usize::MAX,
        ensures
            !(old(self).has_more_tool_calls || old(self).pending_steering@.len() > 0) ==> (s
                is Finished && *final(self) == *old(self)),
            (old(self).has_more_tool_calls || old(self).pending_steering@.len() > 0) ==> {
                &&& final(self).turn == old(self).turn + 1
                &&& final(self).max_tool_iterations == old(self).max_tool_iterations
                &&& final(self).has_more_tool_calls == old(self).has_more_tool_calls
                &&& (old(self).turn + 1 > old(self).max_tool_iterations ==> (s matches InnerStep::Exceeded {
                    error,
                } && error@ == "Max tool iterations exceeded"@ && final(self).pending_steering@
                    == old(self).pending_steering@))
                &&& (old(self).turn + 1 <= old(self).max_tool_iterations ==> (s matches InnerStep::Run {
                    turn,
                    inject,
                } && turn == old(self).turn + 1 && inject@ == old(self).pending_steering@
                    && final(self).pending_steering@.len() == 0))
            },
    {
        if !(self.has_more_tool_calls || self.pending_steering.len() > 0) {
            return InnerStep::Finished;
        }
        self.turn = self.turn + 1;
        if self.turn > self.max_tool_iterations {
            return InnerStep::Exceeded { error: "Max tool iterations exceeded".to_owned() };
        }
        let mut inject: Vec<String> = Vec::new();
        std::mem::swap(&mut inject, &mut self.pending_steering);
        InnerStep::Run { turn: self.turn, inject }
    }

    /// After an answer: more turns follow when it called tools or more input is waiting; the
    /// steering that arrived meanwhile is injected next.
    pub fn after_answer(&mut self, tool_calls: usize, pending_input: bool, steering: Vec<String>)
        ensures
            final(self).turn == old(self).turn,
            final(self).max_tool_iterations == old(self).max_tool_iterations,
            final(self).has_more_tool_calls == (tool_calls > 0 || pending_input),
            final(self).pending_steering@ == steering@,
    {
        self.has_more_tool_calls = tool_calls > 0 || pending_input;
        self.pending_steering = steering;
    }

    /// When the agent would stop: it goes on when follow-up messages were queued or more input
    /// is waiting, with the steering that arrived meanwhile.
    pub fn after_stop(&mut self, follow_ups: usize, pending_input: bool, steering: Vec<String>) -> (go_on:
        bool)
        ensures
            go_on == (follow_ups > 0 || pending_input),
            final(self).turn == old(self).turn,
            final(self).max_tool_iterations == old(self).max_tool_iterations,
            go_on ==> final(self).has_more_tool_calls && final(self).pending_steering@ == steering@,
            !go_on ==> *final(self) == *old(self),
    {
        if follow_ups > 0 || pending_input {
            self.has_more_tool_calls = true;
            self.pending_steering = steering;
            true
        } else {
            false
        }
    }
}

/// The result recorded for a tool skipped because a human message arrived.
pub fn skipped_tool_result() -> (r: &'static str)
    ensures
        r@ == "Skipped due to queued user message."@,
{
    "Skipped due to queued user message."
}

/// Running the tool calls of one answer: once steering messages arrive, the remaining tools are
/// skipped.
pub struct ToolRun {
    pub interrupted: Option<Vec<String>>,
}

impl ToolRun {
    /// No steering yet.
    pub fn new() -> (r: Self)
        ensures
            r.interrupted is None,
    {
        ToolRun { interrupted: None }
    }

    /// Whether the next tool runs: only while no steering has arrived.
    pub fn runs_next(&self) -> (b: bool)
        ensures
            b == self.interrupted is None,
    {
        self.interrupted.is_none()
    }

    /// After tool `index` of `count`: the steering queue is looked at after every tool but the
    /// last.
    pub fn checks_steering(index: usize, count: usize) -> (b: bool)
        ensures
            b == (index + 1 < count),
    {
        index < count && count - index > 1
    }

    /// Steering messages taken after a tool: any interrupt the run.
    pub fn after_tool(&mut self, queued: Vec<String>)
        requires
            old(self).interrupted is None,
        ensures
            queued@.len() == 0 ==> final(self).interrupted is None,
            queued@.len() > 0 ==> (final(self).interrupted matches Some(q) && q@ == queued@),
    {
        if queued.len() > 0 {
            self.interrupted = Some(queued);
        }
    }
}

/// The session of a child agent run for a knowledge-graph node.
pub fn child_session_key(session_id: &str) -> (k: SessionKey)
    ensures
        k@ == "kg-child:"@ + session_id@,
{
    let mut s = String::new();
    push_str(&mut s, "kg-child:");
    push_str(&mut s, session_id);
    SessionKey::new(s.as_str())
}

/// What a child run produced: its text, and a token estimate of a quarter of each text piece's
/// bytes.
pub struct ChildOutput {
    pub output: String,
    pub token_estimate: usize,
}

impl ChildOutput {
    /// Nothing yet.
    pub fn new() -> (c: Self)
        ensures
            c.output@ == Seq::<char>::empty(),
            c.token_estimate == 0,
    {
        ChildOutput { output: String::new(), token_estimate: 0 }
    }

    /// Takes in one event of the child run: text is collected and counted; other events leave
    /// the output as it is.
    pub fn absorb(&mut self, event: &AgentEvent)
        requires
            event matches AgentEvent::Text(t) ==> old(self).token_estimate + byte_len(t@) / 4
                <= usize::MAX,
        ensures
            match event {
                AgentEvent::Text(t) => final(self).output@ == old(self).output@ + t@
                    && final(self).token_estimate == old(self).token_estimate + byte_len(t@) / 4,
                _ => final(self).output@ == old(self).output@ && final(self).token_estimate
                    == old(self).token_estimate,
            },
    {
        if let AgentEvent::Text(t) = event {
            proof {
                lemma_byte_len(t@);
            }
            let n = t.as_str().as_bytes().len();
            push_str(&mut self.output, t.as_str());
            self.token_estimate = self.token_estimate + n / 4;
        }
    }
}

} // verus!
