//! Context window management: token estimates for texts and messages, and compaction of a
//! history that outgrows the window.

use vstd::prelude::*;
use crate::llm::{
    blocks_view, messages_view, BlockView, ContentBlock, ContentView, LlmContent, LlmMessage,
    MessageView,
};
use crate::text::{byte_len, lemma_byte_len};
use vstd::string::StringSliceAdditionalSpecFns;

verus! {

broadcast use vstd::string::group_string_axioms;

/// The tokens estimated for `bytes` bytes of text: four bytes a token, rounded up.
pub open spec fn tokens_for_bytes(bytes: nat) -> nat {
    (bytes + 3) / 4
}

/// The tokens estimated for a text.
pub open spec fn text_tokens(s: Seq<char>) -> nat {
    tokens_for_bytes(byte_len(s))
}

/// The tokens estimated for a content block: its text, the tool name and input of a call, or
/// the content of a result.
pub open spec fn block_tokens(b: BlockView) -> nat {
    match b {
        BlockView::Text(t) => text_tokens(t),
        BlockView::ToolUse(_, name, input) => text_tokens(name) + text_tokens(input),
        BlockView::ToolResult(_, content, _) => text_tokens(content),
    }
}

/// The tokens estimated for a list of blocks.
pub open spec fn blocks_tokens(b: Seq<BlockView>) -> nat
    decreases b.len(),
{
    if b.len() == 0 {
        0
    } else {
        blocks_tokens(b.drop_last()) + block_tokens(b.last())
    }
}

/// The tokens estimated for a message: its content plus ten for the message itself.
pub open spec fn message_tokens_of(m: MessageView) -> nat {
    (match m.content {
        ContentView::Text(s) => text_tokens(s),
        ContentView::Blocks(b) => blocks_tokens(b),
    }) + 10
}

/// The tokens estimated for a list of messages.
pub open spec fn messages_tokens(ms: Seq<MessageView>) -> nat
    decreases ms.len(),
{
    if ms.len() == 0 {
        0
    } else {
        messages_tokens(ms.drop_last()) + message_tokens_of(ms.last())
    }
}

/// The history left by compaction: while it has more than two messages and is over `target`
/// tokens (with `system` tokens for the system prompt), its second message goes.
pub open spec fn drop_until_fits(ms: Seq<MessageView>, system: nat, target: nat) -> Seq<MessageView>
    decreases ms.len(),
{
    if ms.len() > 2 && system + messages_tokens(ms) > target {
        drop_until_fits(ms.remove(1), system, target)
    } else {
        ms
    }
}

/// The history after compaction against a window of `max` tokens: unchanged when empty or
/// within the window; otherwise cut down towards three quarters of the window.
pub open spec fn compacted(ms: Seq<MessageView>, system: nat, max: nat) -> Seq<MessageView> {
    if ms.len() == 0 || system + messages_tokens(ms) <= max {
        ms
    } else {
        drop_until_fits(ms, system, max * 3 / 4)
    }
}

/// Token accounting for one context window.
pub struct ContextManager {
    max_tokens: usize,
    system_tokens: usize,
}

impl ContextManager {
    /// The size of the window in tokens.
    pub closed spec fn window(&self) -> nat {
        self.max_tokens as nat
    }

    /// The tokens of the system prompt.
    pub closed spec fn system(&self) -> nat {
        self.system_tokens as nat
    }

    /// A manager for a window of `max_tokens` tokens, with no system prompt yet.
    pub fn new(max_tokens: usize) -> (c: Self)
        ensures
            c.window() == max_tokens,
            c.system() == 0,
    {
        ContextManager { max_tokens, system_tokens: 0 }
    }

    /// The tokens estimated for a text: its byte length over four, rounded up.
    pub fn estimate_tokens(text: &str) -> (r: usize)
        ensures
            r == text_tokens(text@),
    {
        proof {
            lemma_byte_len(text@);
        }
        let n = text.as_bytes().len();
        assert(n == byte_len(text@));
        let r = n / 4 + if n % 4 != 0 {
            1
        } else {
            0
        };
        assert(r == (n + 3) / 4) by (nonlinear_arith)
            requires
                r == n / 4 + if n % 4 != 0 {
                    1int
                } else {
                    0int
                },
        ;
        r
    }

    /// The tokens estimated for a message.
    pub fn message_tokens(message: &LlmMessage) -> (r: usize)
        requires
            message_tokens_of(message@) <= usize::MAX,
        ensures
            r == message_tokens_of(message@),
    {
        let content_tokens: usize = match &message.content {
            LlmContent::Text(s) => Self::estimate_tokens(s.as_str()),
            LlmContent::Blocks(blocks) => {
                let mut sum: usize = 0;
                let mut i: usize = 0;
                assert(blocks_view(blocks@).take(0) =~= Seq::<BlockView>::empty());
                while i < blocks.len()
                    invariant
                        i <= blocks@.len(),
                        sum == blocks_tokens(blocks_view(blocks@).take(i as int)),
                        blocks_tokens(blocks_view(blocks@)) + 10 <= usize::MAX,
                    decreases blocks.len() - i,
                {
                    let ghost pre = blocks_view(blocks@).take(i + 1);
                    proof {
                        assert(pre.drop_last() =~= blocks_view(blocks@).take(i as int));
                        assert(pre.last() == blocks@[i as int]@);
                        lemma_blocks_tokens_prefix(blocks_view(blocks@), i + 1);
                    }
                    let t = match &blocks[i] {
                        ContentBlock::Text { text } => Self::estimate_tokens(text.as_str()),
                        ContentBlock::ToolUse { name, input, .. } => Self::estimate_tokens(
                            name.as_str(),
                        ) + Self::estimate_tokens(input.as_str()),
                        ContentBlock::ToolResult { content, .. } => Self::estimate_tokens(
                            content.as_str(),
                        ),
                    };
                    sum = sum + t;
                    i = i + 1;
                }
                assert(blocks_view(blocks@).take(blocks@.len() as int) =~= blocks_view(blocks@));
                sum
            },
        };
        content_tokens + 10
    }

    /// Records the system prompt.
    pub fn set_system(&mut self, system: &str)
        ensures
            final(self).window() == old(self).window(),
            final(self).system() == text_tokens(system@),
    {
        self.system_tokens = Self::estimate_tokens(system);
    }

    /// The tokens of the system prompt and all the messages.
    pub fn calculate_total(&self, messages: &[LlmMessage]) -> (r: usize)
        requires
            self.system() + messages_tokens(messages_view(messages@)) <= usize::MAX,
        ensures
            r == self.system() + messages_tokens(messages_view(messages@)),
            r == total_of(*self, messages_view(messages@)),
    {
        let ghost mv = messages_view(messages@);
        let mut sum: usize = 0;
        let mut i: usize = 0;
        assert(mv.take(0) =~= Seq::<MessageView>::empty());
        while i < messages.len()
            invariant
                i <= messages@.len(),
                mv == messages_view(messages@),
                sum == messages_tokens(mv.take(i as int)),
                self.system() + messages_tokens(mv) <= usize::MAX,
            decreases messages.len() - i,
        {
            let ghost pre = mv.take(i + 1);
            proof {
                assert(pre.drop_last() =~= mv.take(i as int));
                assert(pre.last() == messages@[i as int]@);
                lemma_messages_tokens_prefix(mv, i + 1);
            }
            let t = Self::message_tokens(&messages[i]);
            sum = sum + t;
            i = i + 1;
        }
        assert(mv.take(messages@.len() as int) =~= mv);
        self.system_tokens + sum
    }

    /// Compacts a history that is over the window: while it has more than two messages and is
    /// over three quarters of the window, its second message is dropped (the first, usually
    /// the task, and the latest messages stay). A history within the window is left alone.
    pub fn compact(&self, messages: &mut Vec<LlmMessage>)
        requires
            self.system() + messages_tokens(messages_view(old(messages)@)) <= usize::MAX,
        ensures
            messages_view(final(messages)@) == compacted(
                messages_view(old(messages)@),
                self.system(),
                self.window(),
            ),
    {
        if messages.len() == 0 {
            return;
        }
        let total = self.calculate_total(messages.as_slice());
        if total <= self.max_tokens {
            return;
        }
        let target = self.max_tokens / 4 * 3 + self.max_tokens % 4 * 3 / 4;
        assert(target == self.max_tokens * 3 / 4) by (nonlinear_arith)
            requires
                target == self.max_tokens / 4 * 3 + self.max_tokens % 4 * 3 / 4,
        ;
        let ghost goal = drop_until_fits(messages_view(messages@), self.system(), target as nat);
        loop
            invariant
                drop_until_fits(messages_view(messages@), self.system(), target as nat) == goal,
                self.system() + messages_tokens(messages_view(messages@)) <= usize::MAX,
            ensures
                messages_view(messages@) == goal,
            decreases messages@.len(),
        {
            if messages.len() <= 2 {
                break;
            }
            let t = self.calculate_total(messages.as_slice());
            if t <= target {
                break;
            }
            let ghost before = messages_view(messages@);
            messages.remove(1);
            proof {
                assert(messages_view(messages@) =~= before.remove(1));
                lemma_remove_second_tokens(before);
            }
        }
    }
}

proof fn lemma_blocks_tokens_prefix(b: Seq<BlockView>, k: int)
    requires
        0 <= k <= b.len(),
    ensures
        blocks_tokens(b.take(k)) <= blocks_tokens(b),
    decreases b.len() - k,
{
    if k < b.len() {
        lemma_blocks_tokens_prefix(b, k + 1);
        assert(b.take(k + 1).drop_last() =~= b.take(k));
    } else {
        assert(b.take(k) =~= b);
    }
}

proof fn lemma_messages_tokens_prefix(m: Seq<MessageView>, k: int)
    requires
        0 <= k <= m.len(),
    ensures
        messages_tokens(m.take(k)) <= messages_tokens(m),
    decreases m.len() - k,
{
    if k < m.len() {
        lemma_messages_tokens_prefix(m, k + 1);
        assert(m.take(k + 1).drop_last() =~= m.take(k));
    } else {
        assert(m.take(k) =~= m);
    }
}

proof fn lemma_messages_tokens_concat(a: Seq<MessageView>, b: Seq<MessageView>)
    ensures
        messages_tokens(a + b) == messages_tokens(a) + messages_tokens(b),
    decreases b.len(),
{
    if b.len() == 0 {
        assert(a + b =~= a);
    } else {
        lemma_messages_tokens_concat(a, b.drop_last());
        assert((a + b).drop_last() =~= a + b.drop_last());
        assert((a + b).last() == b.last());
    }
}

/// Dropping the second message never raises the token count.
proof fn lemma_remove_second_tokens(m: Seq<MessageView>)
    requires
        m.len() > 2,
    ensures
        messages_tokens(m.remove(1)) <= messages_tokens(m),
{
    lemma_messages_tokens_concat(m.take(1), m.skip(2));
    lemma_messages_tokens_concat(m.take(2), m.skip(2));
    assert(m.remove(1) =~= m.take(1) + m.skip(2));
    assert(m =~= m.take(2) + m.skip(2));
    lemma_messages_tokens_prefix(m.take(2), 1);
    assert(m.take(2).take(1) =~= m.take(1));
}

/// Compaction keeps the first message and the last one, and leaves either at most two
/// messages or a history within three quarters of the window.
pub proof fn lemma_compaction_keeps_ends(ms: Seq<MessageView>, system: nat, max: nat)
    requires
        ms.len() > 0,
    ensures
        compacted(ms, system, max).len() > 0,
        compacted(ms, system, max)[0] == ms[0],
        compacted(ms, system, max).last() == ms.last(),
        compacted(ms, system, max).len() <= ms.len(),
        compacted(ms, system, max) != ms ==> compacted(ms, system, max).len() <= 2 || system
            + messages_tokens(compacted(ms, system, max)) <= max * 3 / 4,
{
    if !(ms.len() == 0 || system + messages_tokens(ms) <= max) {
        lemma_drop_until_fits(ms, system, max * 3 / 4);
    }
}

proof fn lemma_drop_until_fits(ms: Seq<MessageView>, system: nat, target: nat)
    requires
        ms.len() > 0,
    ensures
        drop_until_fits(ms, system, target).len() > 0,
        drop_until_fits(ms, system, target)[0] == ms[0],
        drop_until_fits(ms, system, target).last() == ms.last(),
        drop_until_fits(ms, system, target).len() <= ms.len(),
        drop_until_fits(ms, system, target).len() <= 2 || system + messages_tokens(
            drop_until_fits(ms, system, target),
        ) <= target,
    decreases ms.len(),
{
    if ms.len() > 2 && system + messages_tokens(ms) > target {
        lemma_drop_until_fits(ms.remove(1), system, target);
    }
}


/// Whether a session holding `total` tokens should sleep: its total is past the threshold, a
/// share of the context window given in thousandths (550 for the default 55%).
pub open spec fn sleep_due_spec(total: nat, threshold_permille: nat, max_context: nat) -> bool {
    total > threshold_permille * max_context / 1000
}

/// The sleep check made after each user message (the share in thousandths).
pub fn sleep_due(total: usize, threshold_permille: u32, max_context: usize) -> (b: bool)
    ensures
        b == sleep_due_spec(total as nat, threshold_permille as nat, max_context as nat),
{
    let t: u128 = threshold_permille as u128;
    let m: u128 = max_context as u128;
    assert(t * m <= 0xffff_ffff * 0xffff_ffff_ffff_ffff) by (nonlinear_arith)
        requires
            t <= 0xffff_ffff,
            m <= 0xffff_ffff_ffff_ffff,
    ;
    let product: u128 = t * m;
    (total as u128) > product / 1000
}


/// The total a manager counts for a history: its system prompt's tokens and the messages'.
pub open spec fn total_of(cm: ContextManager, ms: Seq<MessageView>) -> nat {
    cm.system() + messages_tokens(ms)
}

/// Setting the system prompt replaces its count: whatever was set before, the total is then the
/// new prompt's estimate plus the messages' tokens.
pub proof fn lemma_set_system_replaces(
    before: ContextManager,
    after: ContextManager,
    system: Seq<char>,
    ms: Seq<MessageView>,
)
    requires
        after.window() == before.window(),
        after.system() == text_tokens(system),
    ensures
        total_of(after, ms) == text_tokens(system) + messages_tokens(ms),
        after.window() == before.window(),
{
}

} // verus!
