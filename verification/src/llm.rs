//! Messages exchanged with the model, streaming deltas, and the repair of a message history
//! before it is sent (every tool call answered, no tool result repeated).

use vstd::prelude::*;

verus! {

broadcast use vstd::string::group_string_axioms;

/// One block of structured message content.
#[derive(Debug)]
pub enum ContentBlock {
    Text { text: String },
    /// A tool call; `input` is the JSON text of the call's arguments.
    ToolUse { id: String, name: String, input: String },
    ToolResult { tool_use_id: String, content: String, is_error: Option<bool> },
}

/// Message content: plain text or a list of blocks.
#[derive(Debug)]
pub enum LlmContent {
    Text(String),
    Blocks(Vec<ContentBlock>),
}

impl From<&str> for LlmContent {
    fn from(s: &str) -> (c: Self)
        ensures
            c matches LlmContent::Text(t) && t@ == s@,
    {
        LlmContent::Text(s.to_owned())
    }
}

impl vstd::std_specs::convert::FromSpecImpl<&str> for LlmContent {
    open spec fn obeys_from_spec() -> bool {
        false
    }

    open spec fn from_spec(s: &str) -> Self {
        text_content_of(s@)
    }
}

impl From<String> for LlmContent {
    fn from(s: String) -> (c: Self)
        ensures
            c matches LlmContent::Text(t) && t@ == s@,
    {
        LlmContent::Text(s)
    }
}

impl vstd::std_specs::convert::FromSpecImpl<String> for LlmContent {
    open spec fn obeys_from_spec() -> bool {
        false
    }

    open spec fn from_spec(s: String) -> Self {
        text_content_of(s@)
    }
}

/// Plain text content holding `s` (the conversions state their result by its text, in their
/// own `ensures`).
pub closed spec fn text_content_of(s: Seq<char>) -> LlmContent {
    choose|c: LlmContent| #[trigger] content_text(c) == Some(s)
}

/// The text of plain text content.
pub open spec fn content_text(c: LlmContent) -> Option<Seq<char>> {
    match c {
        LlmContent::Text(t) => Some(t@),
        _ => None,
    }
}

/// A message of a conversation with the model.
#[derive(Debug)]
pub struct LlmMessage {
    pub role: String,
    pub content: LlmContent,
}

/// What a content block holds.
pub enum BlockView {
    Text(Seq<char>),
    ToolUse(Seq<char>, Seq<char>, Seq<char>),
    ToolResult(Seq<char>, Seq<char>, Option<bool>),
}

/// What message content holds.
pub enum ContentView {
    Text(Seq<char>),
    Blocks(Seq<BlockView>),
}

/// What a message holds: its role and its content.
pub struct MessageView {
    pub role: Seq<char>,
    pub content: ContentView,
}

impl View for ContentBlock {
    type V = BlockView;

    open spec fn view(&self) -> BlockView {
        match self {
            ContentBlock::Text { text } => BlockView::Text(text@),
            ContentBlock::ToolUse { id, name, input } => BlockView::ToolUse(id@, name@, input@),
            ContentBlock::ToolResult { tool_use_id, content, is_error } => BlockView::ToolResult(
                tool_use_id@,
                content@,
                *is_error,
            ),
        }
    }
}

/// The views of a list of blocks.
pub open spec fn blocks_view(b: Seq<ContentBlock>) -> Seq<BlockView> {
    b.map_values(|x: ContentBlock| x@)
}

impl View for LlmContent {
    type V = ContentView;

    open spec fn view(&self) -> ContentView {
        match self {
            LlmContent::Text(s) => ContentView::Text(s@),
            LlmContent::Blocks(b) => ContentView::Blocks(blocks_view(b@)),
        }
    }
}

impl View for LlmMessage {
    type V = MessageView;

    open spec fn view(&self) -> MessageView {
        MessageView { role: self.role@, content: self.content@ }
    }
}

/// The views of a list of messages.
pub open spec fn messages_view(m: Seq<LlmMessage>) -> Seq<MessageView> {
    m.map_values(|x: LlmMessage| x@)
}

/// Streaming delta from the model.
#[derive(Clone, Debug)]
pub enum StreamDelta {
    Text(String),
    Thinking(String),
    ToolCallStart { id: String, name: String },
    ToolCallDelta { id: String, arguments: String },
    ToolCallEnd { id: String },
    Done { stop_reason: Option<String>, usage: Option<Usage> },
    Error(String),
}

/// Token usage of one model call.
#[derive(Clone, Copy, Debug)]
pub struct Usage {
    pub input_tokens: u32,
    pub output_tokens: u32,
}

impl Default for Usage {
    fn default() -> (u: Self)
        ensures
            u.input_tokens == 0,
            u.output_tokens == 0,
    {
        Usage { input_tokens: 0, output_tokens: 0 }
    }
}

/// A tool call accumulated from streaming deltas.
#[derive(Clone, Debug)]
pub struct AccumulatedToolCall {
    pub id: String,
    pub name: String,
    pub arguments: String,
}

impl Default for AccumulatedToolCall {
    fn default() -> (c: Self)
        ensures
            c.id@ == Seq::<char>::empty(),
            c.name@ == Seq::<char>::empty(),
            c.arguments@ == Seq::<char>::empty(),
    {
        AccumulatedToolCall { id: String::new(), name: String::new(), arguments: String::new() }
    }
}

/// Whether a text is one JSON value, as `serde_json` reads it.
pub uninterp spec fn valid_json(s: Seq<char>) -> bool;

/// The JSON value `serde_json` reads from a text that is JSON.
pub uninterp spec fn json_value_of(s: Seq<char>) -> serde_json::Value;

/// The compact JSON text of a value, as `serde_json` writes it.
pub uninterp spec fn json_text(v: serde_json::Value) -> Seq<char>;

/// `serde_json::from_str` into a `serde_json::Value`, its error shown as text: it succeeds
/// exactly when the text holds one JSON value (white space around it allowed, nesting at most 128
/// deep), and the value read depends on the text alone (the name `json_value_of`; the crate is
/// built without `preserve_order`, so objects are kept by key). What JSON accepts is the name
/// `valid_json`; the error's wording is left unsaid.
#[verifier::external_body]
pub(crate) fn parse_json(s: &str) -> (r: Result<serde_json::Value, String>)
    ensures
        r is Ok <==> valid_json(s@),
        r matches Ok(v) ==> v == json_value_of(s@),
{
    match serde_json::from_str::<serde_json::Value>(s) {
        Ok(v) => Ok(v),
        Err(e) => Err(e.to_string()),
    }
}

/// `Value::to_string` (its `Display`): the value's compact JSON text, the name `json_text`.
#[verifier::external_body]
fn json_to_text(v: &serde_json::Value) -> (t: String)
    ensures
        t@ == json_text(*v),
{
    v.to_string()
}

/// The input of a tool call's block, as JSON text: the call's arguments read as JSON and
/// written back compactly, `null` when they are not JSON.
pub open spec fn tool_input_of(arguments: Seq<char>) -> Seq<char> {
    if valid_json(arguments) {
        json_text(json_value_of(arguments))
    } else {
        "null"@
    }
}

impl AccumulatedToolCall {
    /// The call's arguments read as JSON; an error (its text) when they are not JSON.
    pub fn parse_arguments(&self) -> (r: Result<serde_json::Value, String>)
        ensures
            r is Ok <==> valid_json(self.arguments@),
            r matches Ok(v) ==> v == json_value_of(self.arguments@),
    {
        parse_json(self.arguments.as_str())
    }

    /// The tool call as a content block (see `tool_input_of`).
    pub fn to_block(&self) -> (b: ContentBlock)
        ensures
            b matches ContentBlock::ToolUse { id, name, input } && id@ == self.id@ && name@
                == self.name@ && input@ == tool_input_of(self.arguments@),
    {
        let input = match parse_json(self.arguments.as_str()) {
            Ok(v) => json_to_text(&v),
            Err(_) => "null".to_owned(),
        };
        ContentBlock::ToolUse { id: self.id.clone(), name: self.name.clone(), input }
    }
}

/// The blocks of an assistant message that calls tools: one tool use block per call, in order.
pub fn tool_use_blocks(calls: &Vec<AccumulatedToolCall>) -> (bs: Vec<ContentBlock>)
    ensures
        bs@.len() == calls@.len(),
        forall|i: int|
            0 <= i < calls@.len() ==> (#[trigger] bs@[i] matches ContentBlock::ToolUse { id, name, input }
                && id@ == calls@[i].id@ && name@ == calls@[i].name@ && input@ == tool_input_of(
                calls@[i].arguments@,
            )),
{
    let mut bs: Vec<ContentBlock> = Vec::new();
    let mut i: usize = 0;
    while i < calls.len()
        invariant
            i <= calls@.len(),
            bs@.len() == i,
            forall|k: int|
                0 <= k < i ==> (#[trigger] bs@[k] matches ContentBlock::ToolUse { id, name, input }
                    && id@ == calls@[k].id@ && name@ == calls@[k].name@ && input@ == tool_input_of(
                    calls@[k].arguments@,
                )),
        decreases calls@.len() - i,
    {
        bs.push(calls[i].to_block());
        i = i + 1;
    }
    bs
}

} // verus!

verus! {

/// The ids of the tool calls among `b`, in order.
pub open spec fn use_ids_of(b: Seq<BlockView>) -> Seq<Seq<char>>
    decreases b.len(),
{
    if b.len() == 0 {
        Seq::empty()
    } else {
        let r = use_ids_of(b.drop_last());
        match b.last() {
            BlockView::ToolUse(id, _, _) => r.push(id),
            _ => r,
        }
    }
}

/// The tool-call ids that the tool results among `b` answer, in order.
pub open spec fn result_ids_of(b: Seq<BlockView>) -> Seq<Seq<char>>
    decreases b.len(),
{
    if b.len() == 0 {
        Seq::empty()
    } else {
        let r = result_ids_of(b.drop_last());
        match b.last() {
            BlockView::ToolResult(id, _, _) => r.push(id),
            _ => r,
        }
    }
}

/// The tool-call ids of message content (none for plain text).
pub open spec fn tool_use_ids(c: ContentView) -> Seq<Seq<char>> {
    match c {
        ContentView::Blocks(b) => use_ids_of(b),
        ContentView::Text(_) => Seq::empty(),
    }
}

/// The ids answered by the tool results of message content (none for plain text).
pub open spec fn tool_result_ids(c: ContentView) -> Seq<Seq<char>> {
    match c {
        ContentView::Blocks(b) => result_ids_of(b),
        ContentView::Text(_) => Seq::empty(),
    }
}

/// `b` without the tool results whose id an earlier tool result already answers.
pub open spec fn dedup_results(b: Seq<BlockView>) -> Seq<BlockView>
    decreases b.len(),
{
    if b.len() == 0 {
        Seq::empty()
    } else {
        let r = dedup_results(b.drop_last());
        match b.last() {
            BlockView::ToolResult(id, _, _) => if result_ids_of(b.drop_last()).contains(id) {
                r
            } else {
                r.push(b.last())
            },
            _ => r.push(b.last()),
        }
    }
}

/// A message with repeated tool results removed (only block content has any).
pub open spec fn dedup_message(m: MessageView) -> MessageView {
    match m.content {
        ContentView::Blocks(b) => MessageView { role: m.role, content: ContentView::Blocks(dedup_results(b)) },
        ContentView::Text(_) => m,
    }
}

/// The entries of `uses` that `existing` does not hold, in order, each once.
pub open spec fn missing_ids(uses: Seq<Seq<char>>, existing: Seq<Seq<char>>) -> Seq<Seq<char>>
    decreases uses.len(),
{
    if uses.len() == 0 {
        Seq::empty()
    } else {
        let r = missing_ids(uses.drop_last(), existing);
        if existing.contains(uses.last()) || r.contains(uses.last()) {
            r
        } else {
            r.push(uses.last())
        }
    }
}

/// The error result that stands in for a tool call that was never answered.
pub open spec fn cancelled_result(id: Seq<char>) -> BlockView {
    BlockView::ToolResult(id, "[cancelled] Tool execution was interrupted."@, Some(true))
}

/// The cancelled results for the given ids, in order.
pub open spec fn cancelled_results(ids: Seq<Seq<char>>) -> Seq<BlockView>
    decreases ids.len(),
{
    if ids.len() == 0 {
        Seq::empty()
    } else {
        cancelled_results(ids.drop_last()).push(cancelled_result(ids.last()))
    }
}

/// The blocks of message content (plain text as a single text block).
pub open spec fn blocks_of(c: ContentView) -> Seq<BlockView> {
    match c {
        ContentView::Blocks(b) => b,
        ContentView::Text(t) => seq![BlockView::Text(t)],
    }
}

/// A user message made of the given blocks.
pub open spec fn user_blocks(b: Seq<BlockView>) -> MessageView {
    MessageView { role: "user"@, content: ContentView::Blocks(b) }
}

/// Whether message `i + 1` exists and is a user message.
pub open spec fn next_is_user(m: Seq<MessageView>, i: int) -> bool {
    i + 1 < m.len() && m[i + 1].role == "user"@
}

/// The healed history from message `i` on: user messages lose repeated tool results; an
/// assistant message whose tool calls are not all answered by the next message gets one
/// cancelled result per missing call, appended to the next message (its repeated results
/// dropped) when it is a user message, or in a user message of their own inserted after it.
pub open spec fn heal_from(m: Seq<MessageView>, i: int) -> Seq<MessageView>
    decreases m.len() - i,
{
    if i < 0 || i >= m.len() {
        Seq::empty()
    } else {
        let msg = m[i];
        let cleaned = if msg.role == "user"@ {
            dedup_message(msg)
        } else {
            msg
        };
        let uses = tool_use_ids(msg.content);
        let existing = if next_is_user(m, i) {
            tool_result_ids(m[i + 1].content)
        } else {
            Seq::empty()
        };
        let missing = missing_ids(uses, existing);
        if msg.role == "assistant"@ && uses.len() > 0 && missing.len() > 0 {
            let answers = cancelled_results(missing);
            if next_is_user(m, i) {
                seq![cleaned, user_blocks(dedup_results(blocks_of(m[i + 1].content)) + answers)]
                    + heal_from(
                    m,
                    i + 2,
                )
            } else {
                seq![cleaned, user_blocks(answers)] + heal_from(m, i + 1)
            }
        } else {
            seq![cleaned] + heal_from(m, i + 1)
        }
    }
}

/// The healed history.
pub open spec fn healed(m: Seq<MessageView>) -> Seq<MessageView> {
    heal_from(m, 0)
}

/// Every assistant message with tool calls is followed by a user message that answers each of
/// its calls.
pub open spec fn all_calls_answered(h: Seq<MessageView>) -> bool {
    forall|k: int|
        0 <= k < h.len() && (#[trigger] h[k]).role == "assistant"@ && tool_use_ids(h[k].content).len()
            > 0 ==> {
            &&& k + 1 < h.len()
            &&& h[k + 1].role == "user"@
            &&& forall|id: Seq<char>|
                tool_use_ids(h[k].content).contains(id) ==> #[trigger] tool_result_ids(
                    h[k + 1].content,
                ).contains(id)
        }
}

proof fn lemma_result_ids_concat(a: Seq<BlockView>, b: Seq<BlockView>)
    ensures
        result_ids_of(a + b) == result_ids_of(a) + result_ids_of(b),
    decreases b.len(),
{
    if b.len() == 0 {
        assert(a + b =~= a);
        assert(result_ids_of(a) + result_ids_of(b) =~= result_ids_of(a));
    } else {
        lemma_result_ids_concat(a, b.drop_last());
        assert((a + b).drop_last() =~= a + b.drop_last());
        assert((a + b).last() == b.last());
        match b.last() {
            BlockView::ToolResult(id, _, _) => {
                assert(result_ids_of(a) + result_ids_of(b) =~= (result_ids_of(a) + result_ids_of(
                    b.drop_last(),
                )).push(id));
            },
            _ => {
                assert(result_ids_of(a) + result_ids_of(b) =~= result_ids_of(a) + result_ids_of(
                    b.drop_last(),
                ));
            },
        }
    }
}

proof fn lemma_cancelled_ids(ids: Seq<Seq<char>>)
    ensures
        result_ids_of(cancelled_results(ids)) == ids,
    decreases ids.len(),
{
    if ids.len() > 0 {
        lemma_cancelled_ids(ids.drop_last());
        assert(cancelled_results(ids).drop_last() =~= cancelled_results(ids.drop_last()));
        assert(ids.drop_last().push(ids.last()) =~= ids);
    }
}

proof fn lemma_missing_ids(uses: Seq<Seq<char>>, existing: Seq<Seq<char>>, id: Seq<char>)
    requires
        uses.contains(id),
    ensures
        existing.contains(id) || missing_ids(uses, existing).contains(id),
    decreases uses.len(),
{
    let r0 = missing_ids(uses.drop_last(), existing);
    if uses.last() == id {
        if !existing.contains(id) && !r0.contains(id) {
            assert(missing_ids(uses, existing).last() == id);
        } else if r0.contains(id) {
            let j = choose|j: int| 0 <= j < r0.len() && r0[j] == id;
            if !existing.contains(uses.last()) && !r0.contains(uses.last()) {
                assert(r0.push(uses.last())[j] == id);
            }
        }
    } else {
        let k = choose|k: int| 0 <= k < uses.len() && uses[k] == id;
        assert(uses.drop_last()[k] == id);
        lemma_missing_ids(uses.drop_last(), existing, id);
        if missing_ids(uses.drop_last(), existing).contains(id) {
            let j = choose|j: int|
                0 <= j < missing_ids(uses.drop_last(), existing).len() && missing_ids(
                    uses.drop_last(),
                    existing,
                )[j] == id;
            let r = missing_ids(uses.drop_last(), existing);
            if !existing.contains(uses.last()) && !r.contains(uses.last()) {
                assert(r.push(uses.last())[j] == id);
            }
        }
    }
}

proof fn lemma_dedup_keeps_ids(b: Seq<BlockView>, id: Seq<char>)
    requires
        result_ids_of(b).contains(id),
    ensures
        result_ids_of(dedup_results(b)).contains(id),
    decreases b.len(),
{
    let r = dedup_results(b.drop_last());
    let prev = result_ids_of(b.drop_last());
    match b.last() {
        BlockView::ToolResult(x, c, e) => {
            if x == id {
                if prev.contains(id) {
                    lemma_dedup_keeps_ids(b.drop_last(), id);
                } else {
                    assert(dedup_results(b) == r.push(b.last()));
                    assert(result_ids_of(r.push(b.last())).last() == id);
                }
            } else {
                assert(result_ids_of(b) == prev.push(x));
                let k = choose|k: int| 0 <= k < result_ids_of(b).len() && result_ids_of(b)[k] == id;
                assert(prev[k] == id);
                lemma_dedup_keeps_ids(b.drop_last(), id);
                let j = choose|j: int| 0 <= j < result_ids_of(r).len() && result_ids_of(r)[j] == id;
                if !prev.contains(x) {
                    assert(result_ids_of(r.push(b.last())).drop_last() =~= result_ids_of(r)) by {
                        assert(r.push(b.last()).drop_last() =~= r);
                    }
                    assert(result_ids_of(r.push(b.last()))[j] == id);
                }
            }
        },
        _ => {
            assert(result_ids_of(b) == prev);
            lemma_dedup_keeps_ids(b.drop_last(), id);
            assert(r.push(b.last()).drop_last() =~= r);
            assert(result_ids_of(r.push(b.last())) == result_ids_of(r));
        },
    }
}

/// Removing repeated results answers no new call.
proof fn lemma_dedup_ids_subset(b: Seq<BlockView>, id: Seq<char>)
    requires
        result_ids_of(dedup_results(b)).contains(id),
    ensures
        result_ids_of(b).contains(id),
    decreases b.len(),
{
    let r = dedup_results(b.drop_last());
    let prev = result_ids_of(b.drop_last());
    assert(r.push(b.last()).drop_last() =~= r);
    let k = choose|k: int| 0 <= k < result_ids_of(dedup_results(b)).len() && result_ids_of(
        dedup_results(b),
    )[k] == id;
    match b.last() {
        BlockView::ToolResult(x, _, _) => {
            if x == id {
                assert(result_ids_of(b).last() == id);
            } else {
                if !prev.contains(x) {
                    assert(result_ids_of(r.push(b.last())) == result_ids_of(r).push(x));
                    assert(result_ids_of(r)[k] == id);
                }
                lemma_dedup_ids_subset(b.drop_last(), id);
                let j = choose|j: int| 0 <= j < prev.len() && prev[j] == id;
                assert(result_ids_of(b) == prev.push(x));
                assert(result_ids_of(b)[j] == id);
            }
        },
        _ => {
            assert(result_ids_of(r.push(b.last())) == result_ids_of(r));
            lemma_dedup_ids_subset(b.drop_last(), id);
        },
    }
}

/// Removing repeated tool results leaves exactly one result per answered call: the ids the
/// results answer are the same as before, each once.
pub proof fn lemma_dedup_one_result_per_call(b: Seq<BlockView>)
    ensures
        result_ids_of(dedup_results(b)).no_duplicates(),
        forall|id: Seq<char>|
            #[trigger] result_ids_of(b).contains(id) <==> result_ids_of(dedup_results(b)).contains(
                id,
            ),
    decreases b.len(),
{
    assert forall|id: Seq<char>|
        #[trigger] result_ids_of(b).contains(id) <==> result_ids_of(dedup_results(b)).contains(
            id,
        ) by {
        if result_ids_of(b).contains(id) {
            lemma_dedup_keeps_ids(b, id);
        }
        if result_ids_of(dedup_results(b)).contains(id) {
            lemma_dedup_ids_subset(b, id);
        }
    }
    if b.len() > 0 {
        lemma_dedup_one_result_per_call(b.drop_last());
        let r = dedup_results(b.drop_last());
        let prev = result_ids_of(b.drop_last());
        assert(r.push(b.last()).drop_last() =~= r);
        match b.last() {
            BlockView::ToolResult(x, _, _) => {
                if !prev.contains(x) {
                    let ids = result_ids_of(r);
                    assert(result_ids_of(r.push(b.last())) == ids.push(x));
                    assert(!ids.contains(x));
                    assert forall|p: int, q: int|
                        0 <= p < ids.push(x).len() && 0 <= q < ids.push(x).len() && p != q implies ids.push(
                        x,
                    )[p] != ids.push(x)[q] by {
                        if p == ids.len() {
                            assert(ids[q] != x);
                        } else if q == ids.len() {
                            assert(ids[p] != x);
                        }
                    }
                }
            },
            _ => {
                assert(result_ids_of(r.push(b.last())) == result_ids_of(r));
            },
        }
    }
}

/// The first message of the healed history from `i` on is message `i`, cleaned.
proof fn lemma_heal_first(m: Seq<MessageView>, i: int)
    requires
        0 <= i < m.len(),
    ensures
        heal_from(m, i).len() > 0,
        heal_from(m, i)[0] == (if m[i].role == "user"@ {
            dedup_message(m[i])
        } else {
            m[i]
        }),
{
}

/// The user and assistant roles differ.
pub proof fn lemma_roles_distinct()
    ensures
        "user"@ != "assistant"@,
{
    reveal_strlit("user");
    reveal_strlit("assistant");
    assert("user"@.len() == 4);
    assert("assistant"@.len() == 9);
}

proof fn lemma_blocks_of_ids(c: ContentView)
    ensures
        result_ids_of(blocks_of(c)) == tool_result_ids(c),
{
    match c {
        ContentView::Text(t) => {
            assert(seq![BlockView::Text(t)].drop_last() =~= Seq::<BlockView>::empty());
            assert(result_ids_of(Seq::<BlockView>::empty()) == Seq::<Seq<char>>::empty());
        },
        ContentView::Blocks(_) => {},
    }
}

/// `h` answers every call when its head answers the calls of its first message and the rest
/// answers its own.
proof fn lemma_answered_cons(h: Seq<MessageView>, head: Seq<MessageView>, rest: Seq<MessageView>)
    requires
        h == head + rest,
        1 <= head.len() <= 2,
        all_calls_answered(rest),
        head.len() == 2 ==> head[1].role == "user"@,
        head[0].role == "assistant"@ && tool_use_ids(head[0].content).len() > 0 ==> {
            &&& 1 < h.len()
            &&& h[1].role == "user"@
            &&& forall|id: Seq<char>|
                tool_use_ids(h[0].content).contains(id) ==> #[trigger] tool_result_ids(
                    h[1].content,
                ).contains(id)
        },
    ensures
        all_calls_answered(h),
{
    lemma_roles_distinct();
    assert forall|k: int|
        0 <= k < h.len() && (#[trigger] h[k]).role == "assistant"@ && tool_use_ids(h[k].content).len()
            > 0 implies {
        &&& k + 1 < h.len()
        &&& h[k + 1].role == "user"@
        &&& forall|id: Seq<char>|
            tool_use_ids(h[k].content).contains(id) ==> #[trigger] tool_result_ids(
                h[k + 1].content,
            ).contains(id)
    } by {
        if k >= head.len() {
            assert(h[k] == rest[k - head.len()]);
            assert(h[k + 1] == rest[k + 1 - head.len()]);
        } else if k == 1 {
            assert("user"@ != "assistant"@);
        }
    }
}

proof fn lemma_heal_answers_appended(m: Seq<MessageView>, i: int)
    requires
        0 <= i < m.len(),
        m[i].role == "assistant"@,
        next_is_user(m, i),
        missing_ids(tool_use_ids(m[i].content), tool_result_ids(m[i + 1].content)).len() > 0,
        all_calls_answered(heal_from(m, i + 2)),
    ensures
        all_calls_answered(heal_from(m, i)),
{
    lemma_roles_distinct();
    let uses = tool_use_ids(m[i].content);
    let existing = tool_result_ids(m[i + 1].content);
    let missing = missing_ids(uses, existing);
    let answers = cancelled_results(missing);
    let nb = dedup_results(blocks_of(m[i + 1].content));
    let head = seq![m[i], user_blocks(nb + answers)];
    let h = heal_from(m, i);
    lemma_cancelled_ids(missing);
    lemma_result_ids_concat(nb, answers);
    lemma_blocks_of_ids(m[i + 1].content);
    let kept = result_ids_of(nb);
    assert(uses.len() > 0) by {
        if uses.len() == 0 {
            assert(missing =~= Seq::<Seq<char>>::empty());
        }
    }
    assert(h == head + heal_from(m, i + 2));
    assert forall|id: Seq<char>| uses.contains(id) implies #[trigger] tool_result_ids(
        h[1].content,
    ).contains(id) by {
        lemma_missing_ids(uses, existing, id);
        assert(tool_result_ids(h[1].content) == kept + missing);
        if existing.contains(id) {
            lemma_dedup_keeps_ids(blocks_of(m[i + 1].content), id);
            let j = choose|j: int| 0 <= j < kept.len() && kept[j] == id;
            assert((kept + missing)[j] == id);
        } else {
            let j = choose|j: int| 0 <= j < missing.len() && missing[j] == id;
            assert((kept + missing)[kept.len() + j] == id);
        }
    }
    lemma_answered_cons(h, head, heal_from(m, i + 2));
}

proof fn lemma_heal_answers_inserted(m: Seq<MessageView>, i: int)
    requires
        0 <= i < m.len(),
        m[i].role == "assistant"@,
        !next_is_user(m, i),
        missing_ids(tool_use_ids(m[i].content), Seq::empty()).len() > 0,
        all_calls_answered(heal_from(m, i + 1)),
    ensures
        all_calls_answered(heal_from(m, i)),
{
    lemma_roles_distinct();
    let uses = tool_use_ids(m[i].content);
    let existing = Seq::<Seq<char>>::empty();
    let missing = missing_ids(uses, existing);
    let answers = cancelled_results(missing);
    let head = seq![m[i], user_blocks(answers)];
    let h = heal_from(m, i);
    lemma_cancelled_ids(missing);
    assert(uses.len() > 0) by {
        if uses.len() == 0 {
            assert(missing =~= Seq::<Seq<char>>::empty());
        }
    }
    assert(h == head + heal_from(m, i + 1));
    assert forall|id: Seq<char>| uses.contains(id) implies #[trigger] tool_result_ids(
        h[1].content,
    ).contains(id) by {
        lemma_missing_ids(uses, existing, id);
    }
    lemma_answered_cons(h, head, heal_from(m, i + 1));
}

proof fn lemma_heal_answers_kept(m: Seq<MessageView>, i: int)
    requires
        0 <= i < m.len(),
        !(m[i].role == "assistant"@ && tool_use_ids(m[i].content).len() > 0 && missing_ids(
            tool_use_ids(m[i].content),
            if next_is_user(m, i) {
                tool_result_ids(m[i + 1].content)
            } else {
                Seq::empty()
            },
        ).len() > 0),
        all_calls_answered(heal_from(m, i + 1)),
    ensures
        all_calls_answered(heal_from(m, i)),
{
    lemma_roles_distinct();
    let msg = m[i];
    let cleaned = if msg.role == "user"@ {
        dedup_message(msg)
    } else {
        msg
    };
    let uses = tool_use_ids(msg.content);
    let existing = if next_is_user(m, i) {
        tool_result_ids(m[i + 1].content)
    } else {
        Seq::empty()
    };
    let h = heal_from(m, i);
    let head = seq![cleaned];
    assert(h == head + heal_from(m, i + 1));
    if msg.role == "assistant"@ && uses.len() > 0 {
        assert(next_is_user(m, i)) by {
            assert(uses[0] == uses[0]);
            lemma_missing_ids(uses, existing, uses[0]);
            if !next_is_user(m, i) {
                assert(!existing.contains(uses[0]));
            }
        }
        assert forall|id: Seq<char>| uses.contains(id) implies #[trigger] tool_result_ids(
            h[1].content,
        ).contains(id) by {
            lemma_missing_ids(uses, existing, id);
            lemma_heal_first(m, i + 1);
            match m[i + 1].content {
                ContentView::Blocks(b) => {
                    lemma_dedup_keeps_ids(b, id);
                },
                ContentView::Text(_) => {},
            }
        }
        lemma_heal_first(m, i + 1);
    }
    lemma_answered_cons(h, head, heal_from(m, i + 1));
}

/// Healing answers every tool call: in the healed history from `i` on, each assistant message
/// with tool calls is followed by a user message with a result for each call.
proof fn lemma_heal_answers(m: Seq<MessageView>, i: int)
    requires
        0 <= i,
    ensures
        all_calls_answered(heal_from(m, i)),
    decreases m.len() - i,
{
    if i >= m.len() {
        return;
    }
    let uses = tool_use_ids(m[i].content);
    let existing = if next_is_user(m, i) {
        tool_result_ids(m[i + 1].content)
    } else {
        Seq::empty()
    };
    let missing = missing_ids(uses, existing);
    if m[i].role == "assistant"@ && uses.len() > 0 && missing.len() > 0 {
        if next_is_user(m, i) {
            lemma_heal_answers(m, i + 2);
            lemma_heal_answers_appended(m, i);
        } else {
            lemma_heal_answers(m, i + 1);
            lemma_heal_answers_inserted(m, i);
        }
    } else {
        lemma_heal_answers(m, i + 1);
        lemma_heal_answers_kept(m, i);
    }
}

/// No call is answered twice: each assistant message with tool calls that some message follows
/// is followed by one whose tool results answer distinct calls.
pub open spec fn answers_unique(h: Seq<MessageView>) -> bool {
    forall|k: int|
        0 <= k && k + 1 < h.len() && (#[trigger] h[k]).role == "assistant"@ && tool_use_ids(
            h[k].content,
        ).len() > 0 ==> tool_result_ids(h[k + 1].content).no_duplicates()
}

proof fn lemma_missing_not_existing(uses: Seq<Seq<char>>, existing: Seq<Seq<char>>, x: Seq<char>)
    requires
        missing_ids(uses, existing).contains(x),
    ensures
        !existing.contains(x),
    decreases uses.len(),
{
    let r = missing_ids(uses.drop_last(), existing);
    let j = choose|j: int| 0 <= j < missing_ids(uses, existing).len() && missing_ids(uses, existing)[j] == x;
    if !existing.contains(uses.last()) && !r.contains(uses.last()) && j == r.len() {
    } else {
        assert(r[j] == x);
        lemma_missing_not_existing(uses.drop_last(), existing, x);
    }
}

/// The missing calls are listed once each.
proof fn lemma_missing_distinct(uses: Seq<Seq<char>>, existing: Seq<Seq<char>>)
    ensures
        missing_ids(uses, existing).no_duplicates(),
    decreases uses.len(),
{
    if uses.len() > 0 {
        lemma_missing_distinct(uses.drop_last(), existing);
        let r = missing_ids(uses.drop_last(), existing);
        if !existing.contains(uses.last()) && !r.contains(uses.last()) {
            let x = uses.last();
            assert forall|p: int, q: int|
                0 <= p < r.push(x).len() && 0 <= q < r.push(x).len() && p != q implies r.push(x)[p]
                != r.push(x)[q] by {
                if p == r.len() {
                    assert(r[q] != x);
                } else if q == r.len() {
                    assert(r[p] != x);
                }
            }
        }
    }
}

proof fn lemma_no_dup_concat(a: Seq<Seq<char>>, b: Seq<Seq<char>>)
    requires
        a.no_duplicates(),
        b.no_duplicates(),
        forall|x: Seq<char>| #[trigger] b.contains(x) ==> !a.contains(x),
    ensures
        (a + b).no_duplicates(),
{
    assert forall|p: int, q: int| 0 <= p < (a + b).len() && 0 <= q < (a + b).len() && p != q implies (a
        + b)[p] != (a + b)[q] by {
        if p < a.len() && q >= a.len() {
            assert(b.contains(b[q - a.len()]));
        } else if q < a.len() && p >= a.len() {
            assert(b.contains(b[p - a.len()]));
        }
    }
}

/// `h` answers no call twice when its head does so for its first message and the rest
/// answers no call twice.
proof fn lemma_unique_cons(h: Seq<MessageView>, head: Seq<MessageView>, rest: Seq<MessageView>)
    requires
        h == head + rest,
        1 <= head.len() <= 2,
        answers_unique(rest),
        head.len() == 2 ==> head[1].role == "user"@,
        head[0].role == "assistant"@ && tool_use_ids(head[0].content).len() > 0 && 1 < h.len()
            ==> tool_result_ids(h[1].content).no_duplicates(),
    ensures
        answers_unique(h),
{
    lemma_roles_distinct();
    assert forall|k: int|
        0 <= k && k + 1 < h.len() && (#[trigger] h[k]).role == "assistant"@ && tool_use_ids(
            h[k].content,
        ).len() > 0 implies tool_result_ids(h[k + 1].content).no_duplicates() by {
        if k >= head.len() {
            assert(h[k] == rest[k - head.len()]);
            assert(h[k + 1] == rest[k + 1 - head.len()]);
        }
    }
}

proof fn lemma_heal_unique(m: Seq<MessageView>, i: int)
    requires
        0 <= i,
    ensures
        answers_unique(heal_from(m, i)),
    decreases m.len() - i,
{
    if i >= m.len() {
        return;
    }
    lemma_roles_distinct();
    let msg = m[i];
    let cleaned = if msg.role == "user"@ {
        dedup_message(msg)
    } else {
        msg
    };
    let uses = tool_use_ids(msg.content);
    let existing = if next_is_user(m, i) {
        tool_result_ids(m[i + 1].content)
    } else {
        Seq::empty()
    };
    let missing = missing_ids(uses, existing);
    let h = heal_from(m, i);
    if msg.role == "assistant"@ && uses.len() > 0 && missing.len() > 0 {
        let answers = cancelled_results(missing);
        lemma_cancelled_ids(missing);
        lemma_missing_distinct(uses, existing);
        if next_is_user(m, i) {
            let raw = blocks_of(m[i + 1].content);
            let nb = dedup_results(raw);
            lemma_result_ids_concat(nb, answers);
            lemma_blocks_of_ids(m[i + 1].content);
            lemma_dedup_one_result_per_call(raw);
            assert forall|x: Seq<char>| #[trigger] missing.contains(x) implies !result_ids_of(
                nb,
            ).contains(x) by {
                lemma_missing_not_existing(uses, existing, x);
            }
            lemma_no_dup_concat(result_ids_of(nb), missing);
            lemma_heal_unique(m, i + 2);
            let head = seq![cleaned, user_blocks(nb + answers)];
            assert(h == head + heal_from(m, i + 2));
            lemma_unique_cons(h, head, heal_from(m, i + 2));
        } else {
            lemma_heal_unique(m, i + 1);
            let head = seq![cleaned, user_blocks(answers)];
            assert(h == head + heal_from(m, i + 1));
            lemma_unique_cons(h, head, heal_from(m, i + 1));
        }
    } else {
        lemma_heal_unique(m, i + 1);
        let head = seq![cleaned];
        assert(h == head + heal_from(m, i + 1));
        if msg.role == "assistant"@ && uses.len() > 0 && 1 < h.len() {
            assert(next_is_user(m, i)) by {
                lemma_missing_ids(uses, existing, uses[0]);
                if !next_is_user(m, i) {
                    assert(!existing.contains(uses[0]));
                }
            }
            lemma_heal_first(m, i + 1);
            match m[i + 1].content {
                ContentView::Blocks(b) => {
                    lemma_dedup_one_result_per_call(b);
                },
                ContentView::Text(_) => {},
            }
        }
        lemma_unique_cons(h, head, heal_from(m, i + 1));
    }
}

/// Healing answers each tool call once: with every call answered (see
/// `lemma_healed_answers_all_calls`), no call is answered twice.
pub proof fn lemma_healed_answers_each_call_once(m: Seq<MessageView>)
    ensures
        answers_unique(healed(m)),
{
    lemma_heal_unique(m, 0);
}

/// Every user message answers each call at most once.
pub open spec fn user_results_unique(h: Seq<MessageView>) -> bool {
    forall|k: int|
        0 <= k < h.len() && (#[trigger] h[k]).role == "user"@ ==> tool_result_ids(
            h[k].content,
        ).no_duplicates()
}

proof fn lemma_user_unique_cons(h: Seq<MessageView>, head: Seq<MessageView>, rest: Seq<MessageView>)
    requires
        h == head + rest,
        user_results_unique(rest),
        forall|k: int|
            0 <= k < head.len() && (#[trigger] head[k]).role == "user"@ ==> tool_result_ids(
                head[k].content,
            ).no_duplicates(),
    ensures
        user_results_unique(h),
{
    assert forall|k: int| 0 <= k < h.len() && (#[trigger] h[k]).role == "user"@ implies tool_result_ids(
        h[k].content,
    ).no_duplicates() by {
        if k >= head.len() {
            assert(h[k] == rest[k - head.len()]);
        } else {
            assert(h[k] == head[k]);
        }
    }
}

proof fn lemma_dedup_message_unique(msg: MessageView)
    ensures
        tool_result_ids(dedup_message(msg).content).no_duplicates(),
{
    match msg.content {
        ContentView::Blocks(b) => {
            lemma_dedup_one_result_per_call(b);
        },
        ContentView::Text(_) => {},
    }
}

/// In the healed history, every user message answers each call at most once.
proof fn lemma_heal_user_unique(m: Seq<MessageView>, i: int)
    requires
        0 <= i,
    ensures
        user_results_unique(heal_from(m, i)),
    decreases m.len() - i,
{
    if i >= m.len() {
        return;
    }
    lemma_roles_distinct();
    let msg = m[i];
    let cleaned = if msg.role == "user"@ {
        dedup_message(msg)
    } else {
        msg
    };
    if msg.role == "user"@ {
        lemma_dedup_message_unique(msg);
    }
    let uses = tool_use_ids(msg.content);
    let existing = if next_is_user(m, i) {
        tool_result_ids(m[i + 1].content)
    } else {
        Seq::empty()
    };
    let missing = missing_ids(uses, existing);
    let h = heal_from(m, i);
    if msg.role == "assistant"@ && uses.len() > 0 && missing.len() > 0 {
        let answers = cancelled_results(missing);
        lemma_cancelled_ids(missing);
        lemma_missing_distinct(uses, existing);
        if next_is_user(m, i) {
            let raw = blocks_of(m[i + 1].content);
            let nb = dedup_results(raw);
            lemma_result_ids_concat(nb, answers);
            lemma_blocks_of_ids(m[i + 1].content);
            lemma_dedup_one_result_per_call(raw);
            assert forall|x: Seq<char>| #[trigger] missing.contains(x) implies !result_ids_of(
                nb,
            ).contains(x) by {
                lemma_missing_not_existing(uses, existing, x);
            }
            lemma_no_dup_concat(result_ids_of(nb), missing);
            lemma_heal_user_unique(m, i + 2);
            let head = seq![cleaned, user_blocks(nb + answers)];
            assert(h == head + heal_from(m, i + 2));
            lemma_user_unique_cons(h, head, heal_from(m, i + 2));
        } else {
            lemma_heal_user_unique(m, i + 1);
            let head = seq![cleaned, user_blocks(answers)];
            assert(h == head + heal_from(m, i + 1));
            lemma_user_unique_cons(h, head, heal_from(m, i + 1));
        }
    } else {
        lemma_heal_user_unique(m, i + 1);
        let head = seq![cleaned];
        assert(h == head + heal_from(m, i + 1));
        lemma_user_unique_cons(h, head, heal_from(m, i + 1));
    }
}

/// Blocks whose results answer distinct calls lose nothing to deduplication.
proof fn lemma_dedup_identity(b: Seq<BlockView>)
    requires
        result_ids_of(b).no_duplicates(),
    ensures
        dedup_results(b) == b,
    decreases b.len(),
{
    if b.len() > 0 {
        let prev = result_ids_of(b.drop_last());
        assert(prev.no_duplicates()) by {
            match b.last() {
                BlockView::ToolResult(x, _, _) => {
                    assert(result_ids_of(b) == prev.push(x));
                    assert forall|p: int, q: int| 0 <= p < prev.len() && 0 <= q < prev.len() && p != q implies prev[p] != prev[q] by {
                        assert(result_ids_of(b)[p] == prev[p]);
                        assert(result_ids_of(b)[q] == prev[q]);
                    }
                },
                _ => {
                    assert(result_ids_of(b) == prev);
                },
            }
        }
        lemma_dedup_identity(b.drop_last());
        match b.last() {
            BlockView::ToolResult(x, _, _) => {
                if prev.contains(x) {
                    let j = choose|j: int| 0 <= j < prev.len() && prev[j] == x;
                    assert(result_ids_of(b) == prev.push(x));
                    assert(result_ids_of(b)[j] == result_ids_of(b)[prev.len() as int]);
                }
            },
            _ => {},
        }
        assert(b.drop_last().push(b.last()) =~= b);
    }
}

/// Nothing is missing when every call is answered.
proof fn lemma_nothing_missing(uses: Seq<Seq<char>>, existing: Seq<Seq<char>>)
    requires
        forall|id: Seq<char>| uses.contains(id) ==> #[trigger] existing.contains(id),
    ensures
        missing_ids(uses, existing).len() == 0,
    decreases uses.len(),
{
    if uses.len() > 0 {
        assert forall|id: Seq<char>| uses.drop_last().contains(id) implies #[trigger] existing.contains(id) by {
            let j = choose|j: int| 0 <= j < uses.drop_last().len() && uses.drop_last()[j] == id;
            assert(uses[j] == id);
        }
        lemma_nothing_missing(uses.drop_last(), existing);
        assert(uses.contains(uses.last())) by {
            assert(uses[uses.len() - 1] == uses.last());
        }
    }
}

/// A history in which every call is answered and no user message answers a call twice is left
/// as it is from message `i` on.
proof fn lemma_heal_fixed(h: Seq<MessageView>, i: int)
    requires
        0 <= i <= h.len(),
        all_calls_answered(h),
        user_results_unique(h),
    ensures
        heal_from(h, i) == h.skip(i),
    decreases h.len() - i,
{
    if i == h.len() {
        assert(h.skip(i) =~= Seq::<MessageView>::empty());
        return;
    }
    lemma_roles_distinct();
    lemma_heal_fixed(h, i + 1);
    let msg = h[i];
    if msg.role == "user"@ {
        assert(tool_result_ids(msg.content).no_duplicates());
        match msg.content {
            ContentView::Blocks(b) => {
                lemma_dedup_identity(b);
            },
            ContentView::Text(_) => {},
        }
    }
    let uses = tool_use_ids(msg.content);
    if msg.role == "assistant"@ && uses.len() > 0 {
        assert(next_is_user(h, i));
        lemma_nothing_missing(uses, tool_result_ids(h[i + 1].content));
    }
    assert(h.skip(i) =~= seq![h[i]] + h.skip(i + 1));
}

/// Healing is idempotent: a healed history needs no further repair.
pub proof fn lemma_healing_is_idempotent(m: Seq<MessageView>)
    ensures
        healed(healed(m)) == healed(m),
{
    let h = healed(m);
    lemma_heal_answers(m, 0);
    lemma_heal_user_unique(m, 0);
    lemma_heal_fixed(h, 0);
    assert(h.skip(0) =~= h);
}

/// Healing answers every tool call of the history.
pub proof fn lemma_healed_answers_all_calls(m: Seq<MessageView>)
    ensures
        all_calls_answered(healed(m)),
{
    lemma_heal_answers(m, 0);
}

} // verus!

verus! {

impl Clone for ContentBlock {
    fn clone(&self) -> (r: Self)
        ensures
            r@ == self@,
    {
        match self {
            ContentBlock::Text { text } => ContentBlock::Text { text: text.clone() },
            ContentBlock::ToolUse { id, name, input } => ContentBlock::ToolUse {
                id: id.clone(),
                name: name.clone(),
                input: input.clone(),
            },
            ContentBlock::ToolResult { tool_use_id, content, is_error } => ContentBlock::ToolResult {
                tool_use_id: tool_use_id.clone(),
                content: content.clone(),
                is_error: *is_error,
            },
        }
    }
}

/// A copy of a list of blocks.
fn copy_blocks(b: &Vec<ContentBlock>) -> (r: Vec<ContentBlock>)
    ensures
        blocks_view(r@) == blocks_view(b@),
{
    let mut r: Vec<ContentBlock> = Vec::new();
    let mut i: usize = 0;
    while i < b.len()
        invariant
            i <= b@.len(),
            blocks_view(r@) == blocks_view(b@).take(i as int),
        decreases b.len() - i,
    {
        let c = b[i].clone();
        let ghost prev = r@;
        r.push(c);
        assert(c@ == b@[i as int]@);
        assert(r@ == prev.push(c));
        assert(blocks_view(r@) =~= blocks_view(prev).push(c@));
        assert(blocks_view(r@) =~= blocks_view(b@).take(i + 1));
        i = i + 1;
    }
    assert(blocks_view(b@).take(b@.len() as int) =~= blocks_view(b@));
    r
}

impl Clone for LlmContent {
    fn clone(&self) -> (r: Self)
        ensures
            r@ == self@,
    {
        match self {
            LlmContent::Text(t) => LlmContent::Text(t.clone()),
            LlmContent::Blocks(b) => LlmContent::Blocks(copy_blocks(b)),
        }
    }
}

impl Clone for LlmMessage {
    fn clone(&self) -> (r: Self)
        ensures
            r@ == self@,
    {
        LlmMessage { role: self.role.clone(), content: self.content.clone() }
    }
}

/// The texts of a list of strings.
pub open spec fn strings_view(v: Seq<String>) -> Seq<Seq<char>> {
    v.map_values(|s: String| s@)
}

/// Whether the message has the given role.
fn has_role(m: &LlmMessage, role: &str) -> (b: bool)
    ensures
        b == (m.role@ == role@),
{
    let r = role.to_owned();
    m.role == r
}

/// The ids of the tool calls of message content.
fn tool_use_ids_exec(c: &LlmContent) -> (ids: Vec<String>)
    ensures
        strings_view(ids@) == tool_use_ids(c@),
{
    let mut ids: Vec<String> = Vec::new();
    match c {
        LlmContent::Text(_) => {
            assert(strings_view(ids@) =~= Seq::<Seq<char>>::empty());
        },
        LlmContent::Blocks(b) => {
            let mut i: usize = 0;
            assert(blocks_view(b@).take(0) =~= Seq::<BlockView>::empty());
            assert(strings_view(ids@) =~= Seq::<Seq<char>>::empty());
            while i < b.len()
                invariant
                    i <= b@.len(),
                    strings_view(ids@) == use_ids_of(blocks_view(b@).take(i as int)),
                decreases b.len() - i,
            {
                let ghost pre = blocks_view(b@).take(i + 1);
                assert(pre.drop_last() =~= blocks_view(b@).take(i as int));
                assert(pre.last() == b@[i as int]@);
                match &b[i] {
                    ContentBlock::ToolUse { id, .. } => {
                        ids.push(id.clone());
                        assert(strings_view(ids@) =~= use_ids_of(pre));
                    },
                    _ => {},
                }
                i = i + 1;
            }
            assert(blocks_view(b@).take(b@.len() as int) =~= blocks_view(b@));
        },
    }
    ids
}

/// The ids answered by the tool results of message content.
fn tool_result_ids_exec(c: &LlmContent) -> (ids: Vec<String>)
    ensures
        strings_view(ids@) == tool_result_ids(c@),
{
    let mut ids: Vec<String> = Vec::new();
    match c {
        LlmContent::Text(_) => {
            assert(strings_view(ids@) =~= Seq::<Seq<char>>::empty());
        },
        LlmContent::Blocks(b) => {
            let mut i: usize = 0;
            assert(blocks_view(b@).take(0) =~= Seq::<BlockView>::empty());
            assert(strings_view(ids@) =~= Seq::<Seq<char>>::empty());
            while i < b.len()
                invariant
                    i <= b@.len(),
                    strings_view(ids@) == result_ids_of(blocks_view(b@).take(i as int)),
                decreases b.len() - i,
            {
                let ghost pre = blocks_view(b@).take(i + 1);
                assert(pre.drop_last() =~= blocks_view(b@).take(i as int));
                assert(pre.last() == b@[i as int]@);
                match &b[i] {
                    ContentBlock::ToolResult { tool_use_id, .. } => {
                        ids.push(tool_use_id.clone());
                        assert(strings_view(ids@) =~= result_ids_of(pre));
                    },
                    _ => {},
                }
                i = i + 1;
            }
            assert(blocks_view(b@).take(b@.len() as int) =~= blocks_view(b@));
        },
    }
    ids
}

/// Whether `v` holds a string with the text of `id`.
fn contains_id(v: &Vec<String>, id: &String) -> (b: bool)
    ensures
        b == strings_view(v@).contains(id@),
{
    let mut i: usize = 0;
    while i < v.len()
        invariant
            i <= v@.len(),
            forall|k: int| 0 <= k < i ==> v@[k]@ != id@,
        decreases v.len() - i,
    {
        if v[i] == *id {
            assert(strings_view(v@)[i as int] == id@);
            return true;
        }
        i = i + 1;
    }
    proof {
        if strings_view(v@).contains(id@) {
            let k = choose|k: int| 0 <= k < v@.len() && strings_view(v@)[k] == id@;
            assert(v@[k]@ == id@);
        }
    }
    false
}

/// The message with repeated tool results removed: of the results answering one call, the
/// first stays.
fn dedup_tool_results(msg: &LlmMessage) -> (r: LlmMessage)
    ensures
        r@ == dedup_message(msg@),
{
    match &msg.content {
        LlmContent::Blocks(b) => {
            let kept = dedup_blocks(b);
            LlmMessage { role: msg.role.clone(), content: LlmContent::Blocks(kept) }
        },
        LlmContent::Text(_) => msg.clone(),
    }
}

/// `b` without the tool results whose call an earlier result already answers.
fn dedup_blocks(b: &Vec<ContentBlock>) -> (kept: Vec<ContentBlock>)
    ensures
        blocks_view(kept@) == dedup_results(blocks_view(b@)),
{
    {
        {
            let mut seen: Vec<String> = Vec::new();
            let mut kept: Vec<ContentBlock> = Vec::new();
            let mut i: usize = 0;
            assert(blocks_view(b@).take(0) =~= Seq::<BlockView>::empty());
            assert(strings_view(seen@) =~= Seq::<Seq<char>>::empty());
            assert(blocks_view(kept@) =~= Seq::<BlockView>::empty());
            while i < b.len()
                invariant
                    i <= b@.len(),
                    strings_view(seen@) == result_ids_of(blocks_view(b@).take(i as int)),
                    blocks_view(kept@) == dedup_results(blocks_view(b@).take(i as int)),
                decreases b.len() - i,
            {
                let ghost pre = blocks_view(b@).take(i + 1);
                assert(pre.drop_last() =~= blocks_view(b@).take(i as int));
                assert(pre.last() == b@[i as int]@);
                match &b[i] {
                    ContentBlock::ToolResult { tool_use_id, .. } => {
                        if !contains_id(&seen, tool_use_id) {
                            kept.push(b[i].clone());
                            assert(blocks_view(kept@) =~= dedup_results(pre));
                        }
                        seen.push(tool_use_id.clone());
                        assert(strings_view(seen@) =~= result_ids_of(pre));
                    },
                    _ => {
                        kept.push(b[i].clone());
                        assert(blocks_view(kept@) =~= dedup_results(pre));
                    },
                }
                i = i + 1;
            }
            assert(blocks_view(b@).take(b@.len() as int) =~= blocks_view(b@));
            kept
        }
    }
}

/// The entries of `uses` that `existing` does not hold, in order, each once.
fn missing_ids_exec(uses: &Vec<String>, existing: &Vec<String>) -> (r: Vec<String>)
    ensures
        strings_view(r@) == missing_ids(strings_view(uses@), strings_view(existing@)),
{
    let mut r: Vec<String> = Vec::new();
    let mut i: usize = 0;
    assert(strings_view(uses@).take(0) =~= Seq::<Seq<char>>::empty());
    assert(strings_view(r@) =~= Seq::<Seq<char>>::empty());
    while i < uses.len()
        invariant
            i <= uses@.len(),
            strings_view(r@) == missing_ids(strings_view(uses@).take(i as int), strings_view(existing@)),
        decreases uses.len() - i,
    {
        let ghost pre = strings_view(uses@).take(i + 1);
        assert(pre.drop_last() =~= strings_view(uses@).take(i as int));
        assert(pre.last() == uses@[i as int]@);
        if !contains_id(existing, &uses[i]) && !contains_id(&r, &uses[i]) {
            r.push(uses[i].clone());
            assert(strings_view(r@) =~= missing_ids(pre, strings_view(existing@)));
        }
        i = i + 1;
    }
    assert(strings_view(uses@).take(uses@.len() as int) =~= strings_view(uses@));
    r
}

/// Appends a cancelled result for each of `ids` to `blocks`.
fn push_cancelled(blocks: &mut Vec<ContentBlock>, ids: &Vec<String>)
    ensures
        blocks_view(final(blocks)@) == blocks_view(old(blocks)@) + cancelled_results(strings_view(ids@)),
{
    let mut i: usize = 0;
    let ghost start = blocks_view(blocks@);
    assert(strings_view(ids@).take(0) =~= Seq::<Seq<char>>::empty());
    assert(start + cancelled_results(Seq::<Seq<char>>::empty()) =~= start);
    while i < ids.len()
        invariant
            i <= ids@.len(),
            blocks_view(blocks@) == start + cancelled_results(strings_view(ids@).take(i as int)),
        decreases ids.len() - i,
    {
        let ghost pre = strings_view(ids@).take(i + 1);
        assert(pre.drop_last() =~= strings_view(ids@).take(i as int));
        assert(pre.last() == ids@[i as int]@);
        let content = "[cancelled] Tool execution was interrupted.".to_owned();
        let block = ContentBlock::ToolResult {
            tool_use_id: ids[i].clone(),
            content: content,
            is_error: Some(true),
        };
        assert(block@ == cancelled_result(ids@[i as int]@));
        let ghost prev = blocks@;
        blocks.push(block);
        assert(blocks_view(blocks@) =~= blocks_view(prev).push(block@));
        assert(cancelled_results(pre) == cancelled_results(strings_view(ids@).take(i as int)).push(
            block@,
        ));
        assert(blocks_view(blocks@) =~= start + cancelled_results(pre));
        i = i + 1;
    }
    assert(strings_view(ids@).take(ids@.len() as int) =~= strings_view(ids@));
}

/// The blocks of message content (plain text as a single text block).
fn blocks_of_exec(c: &LlmContent) -> (r: Vec<ContentBlock>)
    ensures
        blocks_view(r@) == blocks_of(c@),
{
    match c {
        LlmContent::Blocks(b) => copy_blocks(b),
        LlmContent::Text(t) => {
            let mut r: Vec<ContentBlock> = Vec::new();
            r.push(ContentBlock::Text { text: t.clone() });
            assert(blocks_view(r@) =~= seq![BlockView::Text(t@)]);
            r
        },
    }
}

/// Repairs a message history before it is sent: repeated tool results in user messages are
/// dropped (the first stays), and every tool call of an assistant message that the next
/// message does not answer gets one cancelled error result, appended to the next message when
/// it is a user message, or in a new user message inserted after the assistant message. Every
/// tool call of the repaired history is then answered exactly once by the message after it,
/// and the repaired history needs no further repair.
pub fn validate_and_heal_messages(messages: &[LlmMessage]) -> (out: Vec<LlmMessage>)
    ensures
        messages_view(out@) == healed(messages_view(messages@)),
        all_calls_answered(messages_view(out@)),
        answers_unique(messages_view(out@)),
        healed(messages_view(out@)) == messages_view(out@),
{
    proof {
        lemma_healed_answers_all_calls(messages_view(messages@));
        lemma_healed_answers_each_call_once(messages_view(messages@));
        lemma_healing_is_idempotent(messages_view(messages@));
    }
    let ghost mv = messages_view(messages@);
    let mut out: Vec<LlmMessage> = Vec::new();
    let mut i: usize = 0;
    assert(messages_view(out@) + heal_from(mv, 0) =~= heal_from(mv, 0));
    while i < messages.len()
        invariant
            i <= messages@.len(),
            mv == messages_view(messages@),
            messages_view(out@) + heal_from(mv, i as int) == heal_from(mv, 0),
        decreases messages.len() - i,
    {
        let msg = &messages[i];
        assert(mv[i as int] == msg@);
        let is_user = has_role(msg, "user");
        let cleaned = if is_user {
            dedup_tool_results(msg)
        } else {
            msg.clone()
        };
        let is_assistant = has_role(msg, "assistant");
        let uses = tool_use_ids_exec(&msg.content);
        let next_user = i + 1 < messages.len() && has_role(&messages[i + 1], "user");
        proof {
            if i + 1 < messages.len() {
                assert(mv[i + 1] == messages@[i + 1]@);
            }
        }
        let existing = if next_user {
            tool_result_ids_exec(&messages[i + 1].content)
        } else {
            Vec::new()
        };
        assert(next_user ==> strings_view(existing@) == tool_result_ids(mv[i + 1].content));
        assert(!next_user ==> strings_view(existing@) =~= Seq::<Seq<char>>::empty());
        let missing = missing_ids_exec(&uses, &existing);
        let ghost prev = messages_view(out@);
        proof {
            lemma_roles_distinct();
        }
        if is_assistant && uses.len() > 0 && missing.len() > 0 {
            out.push(cleaned);
            if next_user {
                let raw = blocks_of_exec(&messages[i + 1].content);
                let mut blocks = dedup_blocks(&raw);
                push_cancelled(&mut blocks, &missing);
                out.push(LlmMessage { role: "user".to_owned(), content: LlmContent::Blocks(blocks) });
                proof {
                    assert(heal_from(mv, i as int) == seq![mv[i as int], user_blocks(
                        dedup_results(blocks_of(mv[i + 1].content)) + cancelled_results(strings_view(missing@)),
                    )] + heal_from(mv, i + 2));
                    assert(messages_view(out@) =~= prev + seq![mv[i as int], user_blocks(
                        dedup_results(blocks_of(mv[i + 1].content)) + cancelled_results(strings_view(missing@)),
                    )]);
                }
                i = i + 2;
            } else {
                let mut blocks: Vec<ContentBlock> = Vec::new();
                push_cancelled(&mut blocks, &missing);
                out.push(LlmMessage { role: "user".to_owned(), content: LlmContent::Blocks(blocks) });
                proof {
                    assert(blocks_view(blocks@) =~= cancelled_results(strings_view(missing@)));
                    assert(heal_from(mv, i as int) == seq![mv[i as int], user_blocks(
                        cancelled_results(strings_view(missing@)),
                    )] + heal_from(mv, i + 1));
                    assert(messages_view(out@) =~= prev + seq![mv[i as int], user_blocks(
                        cancelled_results(strings_view(missing@)),
                    )]);
                }
                i = i + 1;
            }
        } else {
            out.push(cleaned);
            proof {
                assert(messages_view(out@) =~= prev + seq![cleaned@]);
            }
            i = i + 1;
        }
    }
    assert(heal_from(mv, i as int) =~= Seq::<MessageView>::empty());
    assert(messages_view(out@) =~= heal_from(mv, 0));
    out
}

/// Why a model call failed.
pub enum LlmError {
    RequestFailed(String),
    AuthFailed(String),
    RateLimited { retry_after_ms: u64 },
    ContextOverflow(String),
    InvalidResponse(String),
    StreamError(String),
    Cancelled,
}

/// The failure a provider reports for an HTTP status: none for a success (200 to 299); 401 is
/// an authentication failure carrying the response text; 429 is a rate limit to retry after a
/// minute; any other status fails the request with the status as shown (`status_text`, such as
/// "500 Internal Server Error"), a colon and the response text.
pub fn status_error(status: u16, status_text: &str, body: &str) -> (e: Option<LlmError>)
    ensures
        200 <= status <= 299 ==> e is None,
        status == 401 ==> (e matches Some(LlmError::AuthFailed(t)) && t@ == body@),
        status == 429 ==> (e matches Some(LlmError::RateLimited { retry_after_ms })
            && retry_after_ms == 60000),
        !(200 <= status <= 299) && status != 401 && status != 429 ==> (e matches Some(
            LlmError::RequestFailed(t),
        ) && t@ == status_text@ + ": "@ + body@),
{
    if 200 <= status && status <= 299 {
        None
    } else if status == 401 {
        Some(LlmError::AuthFailed(body.to_owned()))
    } else if status == 429 {
        Some(LlmError::RateLimited { retry_after_ms: 60000 })
    } else {
        let mut t = String::new();
        crate::text::push_str(&mut t, status_text);
        crate::text::push_str(&mut t, ": ");
        crate::text::push_str(&mut t, body);
        Some(LlmError::RequestFailed(t))
    }
}

/// What a provider sends for a streamed model call: the model, the healed history, the token
/// limit, that the answer is streamed, and the system prompt.
pub struct ProviderRequest {
    pub model: String,
    pub messages: Vec<LlmMessage>,
    pub max_tokens: u32,
    pub stream: bool,
    pub system: Option<String>,
}

/// The request sent for a streamed call: the history healed first (every tool call answered,
/// each once), at most `max_tokens` tokens or 8192 when none is given, streamed.
pub fn provider_request(model: &str, messages: &[LlmMessage], max_tokens: Option<u32>, system: Option<String>) -> (r: ProviderRequest)
    ensures
        r.model@ == model@,
        messages_view(r.messages@) == healed(messages_view(messages@)),
        r.max_tokens == match max_tokens {
            Some(n) => n,
            None => 8192u32,
        },
        r.stream,
        r.system == system,
{
    let healed_messages = validate_and_heal_messages(messages);
    let limit = match max_tokens {
        Some(n) => n,
        None => 8192,
    };
    ProviderRequest { model: model.to_owned(), messages: healed_messages, max_tokens: limit, stream: true, system }
}

} // verus!
