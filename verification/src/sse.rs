//! Server-sent events of a streamed model reply: the buffered text is cut into complete event
//! blocks (each ended by a blank line), a block gives its event type and data line, and each
//! event moves the decoder's state (the tool call in progress) and yields at most one delta.
//! Reading the JSON of an event's data is the caller's; it hands the decoder what it found.

use vstd::prelude::*;
use crate::llm::StreamDelta;
use crate::text::{
    chars_of, chars_start_with, join_seq, lines, lines_of, split_chars, split_seq, str_eq,
    starts_with, string_from_chars, views,
};

verus! {

/// The separator that ends an event block.
pub open spec fn blank_line() -> Seq<char> {
    seq!['\n', '\n']
}

/// The complete event blocks at the front of `s`, in order: the pieces before each blank line.
pub open spec fn event_blocks(s: Seq<char>) -> Seq<Seq<char>> {
    split_seq(s, blank_line()).drop_last()
}

/// What stays buffered after the complete blocks are cut off.
pub open spec fn buffered_rest(s: Seq<char>) -> Seq<char> {
    split_seq(s, blank_line()).last()
}

/// The texts of a list of strings.
pub open spec fn strings_view(v: Seq<String>) -> Seq<Seq<char>> {
    v.map_values(|s: String| s@)
}

/// Cuts the complete event blocks off the front of `buffer`: the blocks in order, and what
/// stays buffered.
pub fn drain_events(buffer: &str) -> (r: (Vec<String>, String))
    ensures
        strings_view(r.0@) == event_blocks(buffer@),
        r.1@ == buffered_rest(buffer@),
{
    let sep = vec!['\n', '\n'];
    assert(sep@ =~= blank_line());
    let pieces = split_chars(chars_of(buffer).as_slice(), sep.as_slice());
    proof {
        crate::text::lemma_split_nonempty(buffer@, blank_line());
    }
    let ghost all = split_seq(buffer@, blank_line());
    let n = pieces.len() - 1;
    let mut blocks: Vec<String> = Vec::new();
    let mut i: usize = 0;
    while i < n
        invariant
            n + 1 == pieces@.len() == all.len(),
            forall|k: int| 0 <= k < pieces@.len() ==> #[trigger] pieces@[k]@ == all[k],
            i <= n,
            blocks@.len() == i,
            forall|k: int| 0 <= k < i ==> #[trigger] blocks@[k]@ == all[k],
        decreases n - i,
    {
        blocks.push(string_from_chars(pieces[i].as_slice()));
        i = i + 1;
    }
    let rest = string_from_chars(pieces[n].as_slice());
    assert(strings_view(blocks@) =~= event_blocks(buffer@));
    (blocks, rest)
}

/// Cutting events off a buffer loses nothing: the blocks, each followed by a blank line, and
/// then what stays buffered, give back the buffer.
pub proof fn lemma_drain_keeps_text(s: Seq<char>)
    ensures
        join_seq(event_blocks(s).push(buffered_rest(s)), blank_line()) == s,
{
    crate::text::lemma_split_nonempty(s, blank_line());
    crate::text::lemma_split_join(s, blank_line());
    let parts = split_seq(s, blank_line());
    assert(parts.drop_last().push(parts.last()) =~= parts);
}

/// The rest of the last line of `ls` that begins with `prefix` (empty when none does).
pub open spec fn field_of(ls: Seq<Seq<char>>, prefix: Seq<char>) -> Seq<char>
    decreases ls.len(),
{
    if ls.len() == 0 {
        Seq::empty()
    } else if starts_with(ls.last(), prefix) {
        ls.last().skip(prefix.len() as int)
    } else {
        field_of(ls.drop_last(), prefix)
    }
}

/// The rest of the last line that begins with `prefix`.
fn last_field(ls: &Vec<Vec<char>>, prefix: &str) -> (r: Vec<char>)
    ensures
        r@ == field_of(views(ls@), prefix@),
{
    let p = chars_of(prefix);
    let mut i: usize = ls.len();
    assert(views(ls@).take(i as int) =~= views(ls@));
    while i > 0
        invariant
            i <= ls@.len(),
            p@ == prefix@,
            field_of(views(ls@), prefix@) == field_of(views(ls@).take(i as int), prefix@),
        decreases i,
    {
        let ghost t = views(ls@).take(i as int);
        assert(t.drop_last() =~= views(ls@).take(i - 1));
        assert(t.last() == ls@[i - 1]@);
        if chars_start_with(&ls[i - 1], prefix) {
            let line = &ls[i - 1];
            let mut out: Vec<char> = Vec::new();
            let mut j: usize = p.len();
            while j < line.len()
                invariant
                    p@.len() <= j <= line@.len(),
                    out@ == line@.subrange(p@.len() as int, j as int),
                decreases line@.len() - j,
            {
                out.push(line[j]);
                assert(line@.subrange(p@.len() as int, j + 1) =~= out@);
                j = j + 1;
            }
            assert(out@ =~= line@.skip(prefix@.len() as int));
            return out;
        }
        i = i - 1;
    }
    assert(views(ls@).take(0) =~= Seq::<Seq<char>>::empty());
    Vec::new()
}

/// The event type of a block: the rest of its last "event: " line.
pub open spec fn event_type_of(block: Seq<char>) -> Seq<char> {
    field_of(lines_of(block), "event: "@)
}

/// The data of a block: the rest of its last "data: " line.
pub open spec fn event_data_of(block: Seq<char>) -> Seq<char> {
    field_of(lines_of(block), "data: "@)
}

/// The event type and data of a block; none when the block carries no data, as such an
/// event is passed over.
pub fn event_fields(block: &str) -> (r: Option<(String, String)>)
    ensures
        r is None <==> event_data_of(block@).len() == 0,
        r matches Some((t, d)) ==> t@ == event_type_of(block@) && d@ == event_data_of(block@),
{
    let ls = lines(block);
    let t = last_field(&ls, "event: ");
    let d = last_field(&ls, "data: ");
    if d.len() == 0 {
        return None;
    }
    Some((string_from_chars(t.as_slice()), string_from_chars(d.as_slice())))
}

/// What the caller found in an event's JSON data.
#[derive(Clone, Debug)]
pub enum SsePayload {
    /// A content block starting a tool call.
    ToolUseStart { id: String, name: String },
    /// A content block starting text.
    TextStart,
    TextDelta(String),
    ThinkingDelta(String),
    /// A piece of the arguments of the tool call in progress.
    InputJsonDelta(String),
    /// The message of an error event.
    ErrorMessage(String),
    /// Data that did not read as what the event type calls for, or that the decoder does not
    /// need.
    Other,
}

/// What one event yields.
pub enum SseOut {
    Nothing,
    Text(Seq<char>),
    Thinking(Seq<char>),
    ToolStart(Seq<char>, Seq<char>),
    ToolArgs(Seq<char>, Seq<char>),
    ToolEnd(Seq<char>),
    /// The reply is done, with its stop reason and whether usage is absent.
    Done(Option<Seq<char>>, bool),
    /// A delta that reports an error.
    DeltaError(Seq<char>),
    /// The stream failed with this message.
    Failed(Seq<char>),
}

/// What an event's outcome shows.
pub open spec fn out_view(o: Option<Result<StreamDelta, String>>) -> SseOut {
    match o {
        None => SseOut::Nothing,
        Some(Err(m)) => SseOut::Failed(m@),
        Some(Ok(d)) => match d {
            StreamDelta::Text(t) => SseOut::Text(t@),
            StreamDelta::Thinking(t) => SseOut::Thinking(t@),
            StreamDelta::ToolCallStart { id, name } => SseOut::ToolStart(id@, name@),
            StreamDelta::ToolCallDelta { id, arguments } => SseOut::ToolArgs(id@, arguments@),
            StreamDelta::ToolCallEnd { id } => SseOut::ToolEnd(id@),
            StreamDelta::Done { stop_reason, usage } => SseOut::Done(
                match stop_reason {
                    Some(r) => Some(r@),
                    None => None,
                },
                usage is None,
            ),
            StreamDelta::Error(m) => SseOut::DeltaError(m@),
        },
    }
}

/// The tool call in progress after an event, and what the event yields: a tool-use block start
/// begins a call; text, thinking and argument deltas are passed on (arguments only while a call
/// is in progress, under its id); a block stop ends the call in progress; a message stop ends
/// the reply; an error event fails the stream; anything else yields nothing.
pub open spec fn decode(tool: Option<Seq<char>>, event_type: Seq<char>, p: SsePayload) -> (
    Option<Seq<char>>,
    SseOut,
) {
    if event_type == "content_block_start"@ {
        match p {
            SsePayload::ToolUseStart { id, name } => (Some(id@), SseOut::ToolStart(id@, name@)),
            _ => (tool, SseOut::Nothing),
        }
    } else if event_type == "content_block_delta"@ {
        match p {
            SsePayload::TextDelta(t) => (tool, SseOut::Text(t@)),
            SsePayload::ThinkingDelta(t) => (tool, SseOut::Thinking(t@)),
            SsePayload::InputJsonDelta(a) => (
                tool,
                match tool {
                    Some(id) => SseOut::ToolArgs(id, a@),
                    None => SseOut::Nothing,
                },
            ),
            _ => (tool, SseOut::Nothing),
        }
    } else if event_type == "content_block_stop"@ {
        (
            None,
            match tool {
                Some(id) => SseOut::ToolEnd(id),
                None => SseOut::Nothing,
            },
        )
    } else if event_type == "message_stop"@ {
        (tool, SseOut::Done(Some("end_turn"@), true))
    } else if event_type == "error"@ {
        match p {
            SsePayload::ErrorMessage(m) => (tool, SseOut::Failed(m@)),
            _ => (tool, SseOut::Nothing),
        }
    } else {
        (tool, SseOut::Nothing)
    }
}

/// The decoding state of one streamed reply.
pub struct SseDecoder {
    /// The id of the tool call whose arguments are streaming, if any.
    pub current_tool_id: Option<String>,
}

/// The text of an optional id.
pub open spec fn opt_id(o: Option<String>) -> Option<Seq<char>> {
    match o {
        Some(s) => Some(s@),
        None => None,
    }
}

impl SseDecoder {
    /// A decoder with no tool call in progress.
    pub fn new() -> (d: Self)
        ensures
            d.current_tool_id is None,
    {
        SseDecoder { current_tool_id: None }
    }

    /// Takes one event with a non-empty data line: its type and what its data held.
    pub fn on_event(&mut self, event_type: &str, payload: SsePayload) -> (out: Option<
        Result<StreamDelta, String>,
    >)
        ensures
            (opt_id(final(self).current_tool_id), out_view(out)) == decode(
                opt_id(old(self).current_tool_id),
                event_type@,
                payload,
            ),
    {
        if str_eq(event_type, "content_block_start") {
            match payload {
                SsePayload::ToolUseStart { id, name } => {
                    self.current_tool_id = Some(id.clone());
                    Some(Ok(StreamDelta::ToolCallStart { id, name }))
                },
                _ => None,
            }
        } else if str_eq(event_type, "content_block_delta") {
            match payload {
                SsePayload::TextDelta(t) => Some(Ok(StreamDelta::Text(t))),
                SsePayload::ThinkingDelta(t) => Some(Ok(StreamDelta::Thinking(t))),
                SsePayload::InputJsonDelta(a) => match &self.current_tool_id {
                    Some(id) => Some(Ok(StreamDelta::ToolCallDelta { id: id.clone(), arguments: a })),
                    None => None,
                },
                _ => None,
            }
        } else if str_eq(event_type, "content_block_stop") {
            match self.current_tool_id.take() {
                Some(id) => Some(Ok(StreamDelta::ToolCallEnd { id })),
                None => None,
            }
        } else if str_eq(event_type, "message_stop") {
            Some(Ok(StreamDelta::Done { stop_reason: Some("end_turn".to_owned()), usage: None }))
        } else if str_eq(event_type, "error") {
            match payload {
                SsePayload::ErrorMessage(m) => Some(Err(m)),
                _ => None,
            }
        } else {
            None
        }
    }
}

} // verus!
