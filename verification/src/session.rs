//! What a session does to its conversation: the system prompt built from the preloaded context
//! files, the assistant message that calls tools, tool results gathered into one user message
//! per turn, and the messages of a session resumed from its `.ctx` file.

use vstd::prelude::*;
use crate::llm::{
    blocks_view, messages_view, BlockView, ContentBlock, ContentView, LlmContent, LlmMessage,
    MessageView,
};
use crate::text::{chars_of, join_seq, push_str, str_eq, string_from_chars, trim_chars, trim_ws};
use crate::json::{json_first_field, json_first_field_exec};

verus! {

broadcast use vstd::string::group_string_axioms;

/// The texts of a list of strings.
pub open spec fn texts(v: Seq<String>) -> Seq<Seq<char>> {
    v.map_values(|s: String| s@)
}

/// The system prompt of a new session: none but the given one when nothing was preloaded;
/// otherwise the preloaded files' texts separated by blank lines, then the given prompt after
/// one more blank line.
pub open spec fn combined_system(preload: Seq<Seq<char>>, system_prompt: Option<Seq<char>>) -> Option<
    Seq<char>,
> {
    if preload.len() == 0 {
        system_prompt
    } else {
        Some(
            join_seq(preload, "\n\n"@) + match system_prompt {
                Some(x) => "\n\n"@ + x,
                None => Seq::empty(),
            },
        )
    }
}

/// The system prompt of a new session (see `combined_system`).
pub fn combined_system_prompt(preload: &Vec<String>, system_prompt: Option<&str>) -> (r: Option<String>)
    ensures
        (match r {
            Some(s) => Some(s@),
            None => None,
        }) == combined_system(
            texts(preload@),
            match system_prompt {
                Some(x) => Some(x@),
                None => None,
            },
        ),
{
    if preload.len() == 0 {
        return match system_prompt {
            Some(x) => Some(x.to_owned()),
            None => None,
        };
    }
    let mut sys = String::new();
    push_str(&mut sys, preload[0].as_str());
    let mut i: usize = 1;
    proof {
        assert(texts(preload@).take(1) =~= seq![preload@[0]@]);
    }
    while i < preload.len()
        invariant
            1 <= i <= preload@.len(),
            sys@ == join_seq(texts(preload@).take(i as int), "\n\n"@),
        decreases preload@.len() - i,
    {
        push_str(&mut sys, "\n\n");
        push_str(&mut sys, preload[i].as_str());
        proof {
            let t = texts(preload@).take(i + 1);
            assert(t.drop_last() =~= texts(preload@).take(i as int));
            assert(t.last() == preload@[i as int]@);
        }
        i = i + 1;
    }
    assert(texts(preload@).take(i as int) =~= texts(preload@));
    match system_prompt {
        Some(extra) => {
            push_str(&mut sys, "\n\n");
            push_str(&mut sys, extra);
        },
        None => {},
    }
    Some(sys)
}

/// Whether a list of blocks holds a tool result.
pub open spec fn has_tool_result(bs: Seq<BlockView>) -> bool {
    exists|i: int| 0 <= i < bs.len() && bs[i] is ToolResult
}

/// A conversation after a tool result arrives: the results of one turn travel together, so the
/// result joins the last message when that is a user message already holding tool results;
/// otherwise it starts a new user message.
pub open spec fn with_tool_result(ms: Seq<MessageView>, b: BlockView) -> Seq<MessageView> {
    if ms.len() > 0 && ms.last().role == "user"@ && ms.last().content is Blocks && has_tool_result(
        ms.last().content->Blocks_0,
    ) {
        ms.drop_last().push(
            MessageView {
                role: ms.last().role,
                content: ContentView::Blocks(ms.last().content->Blocks_0.push(b)),
            },
        )
    } else {
        ms.push(MessageView { role: "user"@, content: ContentView::Blocks(seq![b]) })
    }
}

/// The block of a tool result (its error flag present only when set).
pub open spec fn result_block(id: Seq<char>, content: Seq<char>, is_error: bool) -> BlockView {
    BlockView::ToolResult(id, content, if is_error { Some(true) } else { None })
}

/// Whether a list of blocks holds a tool result.
fn holds_tool_result(bs: &Vec<ContentBlock>) -> (b: bool)
    ensures
        b == has_tool_result(blocks_view(bs@)),
{
    let mut i: usize = 0;
    while i < bs.len()
        invariant
            i <= bs@.len(),
            forall|j: int| 0 <= j < i ==> !(#[trigger] blocks_view(bs@)[j] is ToolResult),
        decreases bs@.len() - i,
    {
        match &bs[i] {
            ContentBlock::ToolResult { .. } => {
                assert(blocks_view(bs@)[i as int] is ToolResult);
                return true;
            },
            _ => {},
        }
        i = i + 1;
    }
    false
}

/// Adds a tool result to the conversation (see `with_tool_result`).
pub fn push_tool_result(messages: &mut Vec<LlmMessage>, tool_use_id: &str, content: &str, is_error: bool)
    ensures
        messages_view(final(messages)@) == with_tool_result(
            messages_view(old(messages)@),
            result_block(tool_use_id@, content@, is_error),
        ),
{
    let block = ContentBlock::ToolResult {
        tool_use_id: tool_use_id.to_owned(),
        content: content.to_owned(),
        is_error: if is_error {
            Some(true)
        } else {
            None
        },
    };
    let ghost before = messages_view(messages@);
    let ghost b = result_block(tool_use_id@, content@, is_error);
    match messages.pop() {
        Some(last) => {
            proof {
                assert(messages_view(messages@) =~= before.drop_last());
            }
            let LlmMessage { role, content: last_content } = last;
            let is_user = str_eq(role.as_str(), "user");
            match last_content {
                LlmContent::Blocks(mut bs) => {
                    if is_user && holds_tool_result(&bs) {
                        let ghost old_bs = blocks_view(bs@);
                        bs.push(block);
                        assert(blocks_view(bs@) =~= old_bs.push(b));
                        messages.push(LlmMessage { role, content: LlmContent::Blocks(bs) });
                        assert(messages_view(messages@) =~= with_tool_result(before, b));
                    } else {
                        messages.push(LlmMessage { role, content: LlmContent::Blocks(bs) });
                        assert(messages_view(messages@) =~= before);
                        let mut nb: Vec<ContentBlock> = Vec::new();
                        nb.push(block);
                        assert(blocks_view(nb@) =~= seq![b]);
                        messages.push(LlmMessage { role: "user".to_owned(), content: LlmContent::Blocks(nb) });
                        assert(messages_view(messages@) =~= with_tool_result(before, b));
                    }
                },
                LlmContent::Text(t) => {
                    messages.push(LlmMessage { role, content: LlmContent::Text(t) });
                    assert(messages_view(messages@) =~= before);
                    let mut nb: Vec<ContentBlock> = Vec::new();
                    nb.push(block);
                    assert(blocks_view(nb@) =~= seq![b]);
                    messages.push(LlmMessage { role: "user".to_owned(), content: LlmContent::Blocks(nb) });
                    assert(messages_view(messages@) =~= with_tool_result(before, b));
                },
            }
        },
        None => {
            let mut nb: Vec<ContentBlock> = Vec::new();
            nb.push(block);
            assert(blocks_view(nb@) =~= seq![b]);
            messages.push(LlmMessage { role: "user".to_owned(), content: LlmContent::Blocks(nb) });
            assert(messages_view(messages@) =~= with_tool_result(before, b));
        },
    }
}

/// Tool results that arrive one after another share one user message: after the first, each
/// further result joins it, and the conversation does not grow.
pub proof fn lemma_results_share_one_message(
    ms: Seq<MessageView>,
    id1: Seq<char>,
    c1: Seq<char>,
    e1: bool,
    id2: Seq<char>,
    c2: Seq<char>,
    e2: bool,
)
    ensures
        ({
            let once = with_tool_result(ms, result_block(id1, c1, e1));
            let twice = with_tool_result(once, result_block(id2, c2, e2));
            &&& twice.len() == once.len()
            &&& twice.drop_last() == once.drop_last()
            &&& twice.last().content == ContentView::Blocks(
                once.last().content->Blocks_0.push(result_block(id2, c2, e2)),
            )
        }),
{
    let b1 = result_block(id1, c1, e1);
    let once = with_tool_result(ms, b1);
    let bs = once.last().content->Blocks_0;
    assert(bs.last() == b1);
    assert(bs[bs.len() - 1] is ToolResult);
    assert(has_tool_result(bs));
}

/// The assistant's message that calls tools: its text as a first block when there is some,
/// then the tool calls in order.
pub fn assistant_with_tools(text: Option<&str>, tool_calls: Vec<ContentBlock>) -> (m: LlmMessage)
    ensures
        m@.role == "assistant"@,
        m@.content == ContentView::Blocks(
            match text {
                Some(t) => if t@.len() > 0 {
                    seq![BlockView::Text(t@)]
                } else {
                    Seq::empty()
                },
                None => Seq::empty(),
            } + blocks_view(tool_calls@),
        ),
{
    let mut blocks: Vec<ContentBlock> = Vec::new();
    match text {
        Some(t) => {
            if !t.is_empty() {
                blocks.push(ContentBlock::Text { text: t.to_owned() });
                assert(blocks_view(blocks@) =~= seq![BlockView::Text(t@)]);
            } else {
                assert(blocks_view(blocks@) =~= Seq::<BlockView>::empty());
            }
        },
        None => {
            assert(blocks_view(blocks@) =~= Seq::<BlockView>::empty());
        },
    }
    let ghost first = blocks_view(blocks@);
    let mut calls = tool_calls;
    let ghost all = blocks_view(calls@);
    let mut rest: Vec<ContentBlock> = Vec::new();
    // Take the calls out back to front, then put them in order.
    while calls.len() > 0
        invariant
            blocks_view(calls@) + blocks_view(rest@).reverse() == all,
            blocks_view(blocks@) == first,
        decreases calls@.len(),
    {
        let ghost c0 = blocks_view(calls@);
        let ghost r0 = blocks_view(rest@);
        let c = calls.pop().unwrap();
        rest.push(c);
        proof {
            assert(blocks_view(calls@) =~= c0.drop_last());
            assert(blocks_view(rest@) =~= r0.push(c0.last()));
            assert(blocks_view(rest@).reverse() =~= seq![c0.last()] + r0.reverse());
            assert(blocks_view(calls@) + blocks_view(rest@).reverse() =~= c0 + r0.reverse());
        }
    }
    assert(blocks_view(rest@).reverse() =~= all);
    while rest.len() > 0
        invariant
            blocks_view(blocks@) + blocks_view(rest@).reverse() == first + all,
        decreases rest@.len(),
    {
        let ghost b0 = blocks_view(blocks@);
        let ghost r0 = blocks_view(rest@);
        let c = rest.pop().unwrap();
        blocks.push(c);
        proof {
            assert(blocks_view(blocks@) =~= b0.push(r0.last()));
            assert(r0.reverse() =~= seq![r0.last()] + r0.drop_last().reverse());
            assert(blocks_view(rest@) =~= r0.drop_last());
            assert(blocks_view(blocks@) + blocks_view(rest@).reverse() =~= b0 + r0.reverse());
        }
    }
    assert(blocks_view(blocks@) =~= first + all);
    LlmMessage { role: "assistant".to_owned(), content: LlmContent::Blocks(blocks) }
}

/// The messages of a resumed session: each (role, text) pair read from its `.ctx` file as a
/// plain text message, in order.
pub fn resumed_messages(pairs: &Vec<(String, String)>) -> (ms: Vec<LlmMessage>)
    ensures
        ms@.len() == pairs@.len(),
        forall|i: int|
            0 <= i < pairs@.len() ==> (#[trigger] ms@[i])@ == (MessageView {
                role: pairs@[i].0@,
                content: ContentView::Text(pairs@[i].1@),
            }),
{
    let mut ms: Vec<LlmMessage> = Vec::new();
    let mut i: usize = 0;
    while i < pairs.len()
        invariant
            i <= pairs@.len(),
            ms@.len() == i,
            forall|j: int|
                0 <= j < i ==> (#[trigger] ms@[j])@ == (MessageView {
                    role: pairs@[j].0@,
                    content: ContentView::Text(pairs@[j].1@),
                }),
        decreases pairs@.len() - i,
    {
        let (role, text) = &pairs[i];
        ms.push(LlmMessage { role: role.clone(), content: LlmContent::Text(text.clone()) });
        i = i + 1;
    }
    ms
}


/// The summary of a tool call's input in a session file: its first field as `key=value`, the
/// value written as the string itself when it is a string and as its JSON text otherwise;
/// empty when it has none.
pub open spec fn input_summary(input: Seq<char>) -> Seq<char> {
    match json_first_field(input) {
        Some((k, text, json)) => k + "="@ + match text {
            Some(t) => t,
            None => json,
        },
        None => Seq::empty(),
    }
}

/// One line per tool call among `bs`: `[tool:<name>] <summary>`.
pub open spec fn tool_lines(bs: Seq<BlockView>) -> Seq<char>
    decreases bs.len(),
{
    if bs.len() == 0 {
        Seq::empty()
    } else {
        let r = tool_lines(bs.drop_last());
        match bs.last() {
            BlockView::ToolUse(_, name, input) => r + "[tool:"@ + name + "] "@ + input_summary(input)
                + "\n"@,
            _ => r,
        }
    }
}

/// What a session file records of an assistant message that calls tools: its text on a line
/// (when there is text), then a line per tool call, white space trimmed from both ends.
pub open spec fn assistant_ctx_text_of(text: Option<Seq<char>>, calls: Seq<BlockView>) -> Seq<char> {
    trim_ws(
        match text {
            Some(t) => if t.len() > 0 {
                t + "\n"@
            } else {
                Seq::empty()
            },
            None => Seq::empty(),
        } + tool_lines(calls),
    )
}

/// The session-file text of an assistant message that calls tools (see
/// `assistant_ctx_text_of`).
pub fn assistant_ctx_text(text: Option<&str>, tool_calls: &Vec<ContentBlock>) -> (r: String)
    ensures
        r@ == assistant_ctx_text_of(
            match text {
                Some(t) => Some(t@),
                None => None,
            },
            blocks_view(tool_calls@),
        ),
{
    let mut out = String::new();
    match text {
        Some(t) => {
            if !t.is_empty() {
                push_str(&mut out, t);
                push_str(&mut out, "\n");
            }
        },
        None => {},
    }
    let ghost head = out@;
    let mut i: usize = 0;
    assert(blocks_view(tool_calls@).take(0) =~= Seq::<BlockView>::empty());
    assert(head + tool_lines(Seq::<BlockView>::empty()) =~= head);
    while i < tool_calls.len()
        invariant
            i <= tool_calls@.len(),
            out@ == head + tool_lines(blocks_view(tool_calls@).take(i as int)),
        decreases tool_calls@.len() - i,
    {
        let ghost pre = blocks_view(tool_calls@).take(i + 1);
        assert(pre.drop_last() =~= blocks_view(tool_calls@).take(i as int));
        assert(pre.last() == tool_calls@[i as int]@);
        match &tool_calls[i] {
            ContentBlock::ToolUse { name, input, .. } => {
                let ghost before = out@;
                push_str(&mut out, "[tool:");
                push_str(&mut out, name.as_str());
                push_str(&mut out, "] ");
                match json_first_field_exec(input.as_str()) {
                    Some((k, text, json)) => {
                        push_str(&mut out, k.as_str());
                        push_str(&mut out, "=");
                        match text {
                            Some(t) => push_str(&mut out, t.as_str()),
                            None => push_str(&mut out, json.as_str()),
                        }
                    },
                    None => {},
                }
                push_str(&mut out, "\n");
                assert(out@ =~= before + ("[tool:"@ + name@ + "] "@ + input_summary(input@) + "\n"@));
            },
            _ => {},
        }
        i = i + 1;
    }
    assert(blocks_view(tool_calls@).take(tool_calls@.len() as int) =~= blocks_view(tool_calls@));
    let trimmed = trim_chars(chars_of(out.as_str()).as_slice());
    string_from_chars(trimmed.as_slice())
}

} // verus!
