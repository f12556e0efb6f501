//! Configuration of the consciousness stack: ports, models, ego distillation, cascade and
//! core parameters, with their defaults.

use vstd::prelude::*;

verus! {

/// Port assignments of the layers and cores.
#[derive(Debug, Clone, Copy)]
pub struct PortConfig {
    pub l0: u16,
    pub l1: u16,
    pub l2: u16,
    pub l3: u16,
    pub core_a: u16,
    pub core_b: u16,
}

impl Default for PortConfig {
    fn default() -> (c: Self)
        ensures
            c.l0 == 18789 && c.l1 == 18791 && c.l2 == 18792 && c.l3 == 18793,
            c.core_a == 18794 && c.core_b == 18795,
    {
        PortConfig { l0: 18789, l1: 18791, l2: 18792, l3: 18793, core_a: 18794, core_b: 18795 }
    }
}

impl PortConfig {
    /// The layer ports, L0 to L3.
    pub fn as_array(&self) -> (a: [u16; 4])
        ensures
            a@ == seq![self.l0, self.l1, self.l2, self.l3],
    {
        let a = [self.l0, self.l1, self.l2, self.l3];
        assert(a@ =~= seq![self.l0, self.l1, self.l2, self.l3]);
        a
    }
}

/// The model of each layer and of the cores (a tier name or a full model id).
#[derive(Debug, Clone)]
pub struct ModelConfig {
    pub l0: String,
    pub l1: String,
    pub l2: String,
    pub l3: String,
    pub cores: String,
}

impl ModelConfig {
    /// The same model for every layer and for the cores (by default the top tier's current
    /// model, whose id the configuration supplies).
    pub fn uniform(model: &str) -> (c: Self)
        ensures
            c.l0@ == model@,
            c.l1@ == model@,
            c.l2@ == model@,
            c.l3@ == model@,
            c.cores@ == model@,
    {
        ModelConfig {
            l0: model.to_owned(),
            l1: model.to_owned(),
            l2: model.to_owned(),
            l3: model.to_owned(),
            cores: model.to_owned(),
        }
    }
}

/// Ego extraction and wake parameters.
#[derive(Debug, Clone)]
pub struct EgoConfig {
    /// Most characters of ego taken from the warm core for waking L0.
    pub l0_budget_chars: usize,
    /// Most characters of ego taken from the parent layer for waking L1 to L3.
    pub layer_budget_chars: usize,
    /// Most characters of ego taken for a core's own restoration.
    pub core_budget_chars: usize,
    pub l1_distill_prompt: String,
    pub l2_distill_prompt: String,
    pub l3_distill_prompt: String,
    pub core_distill_prompt: String,
    pub core_self_distill_prompt: String,
    /// Paragraphs of the sleeping layer's context tail included on waking.
    pub tail_paragraphs: usize,
    pub l1_distill_budget: usize,
    pub l2_distill_budget: usize,
    pub l3_distill_budget: usize,
    pub core_distill_budget: usize,
    pub core_self_distill_budget: usize,
}

impl Default for EgoConfig {
    fn default() -> (c: Self)
        ensures
            c.l0_budget_chars == 16000 && c.layer_budget_chars == 8000 && c.core_budget_chars
                == 16000,
            c.tail_paragraphs == 15,
            c.l1_distill_budget == 4000 && c.l2_distill_budget == 3000 && c.l3_distill_budget
                == 3000,
            c.core_distill_budget == 4000 && c.core_self_distill_budget == 8000,
            c.l1_distill_prompt@ == L1_DISTILL_PROMPT@,
            c.l2_distill_prompt@ == L2_DISTILL_PROMPT@,
            c.l3_distill_prompt@ == L3_DISTILL_PROMPT@,
            c.core_distill_prompt@ == CORE_DISTILL_PROMPT@,
            c.core_self_distill_prompt@ == CORE_SELF_DISTILL_PROMPT@,
    {
        EgoConfig {
            l0_budget_chars: 16000,
            layer_budget_chars: 8000,
            core_budget_chars: 16000,
            l1_distill_prompt: L1_DISTILL_PROMPT.to_owned(),
            l2_distill_prompt: L2_DISTILL_PROMPT.to_owned(),
            l3_distill_prompt: L3_DISTILL_PROMPT.to_owned(),
            core_distill_prompt: CORE_DISTILL_PROMPT.to_owned(),
            core_self_distill_prompt: CORE_SELF_DISTILL_PROMPT.to_owned(),
            tail_paragraphs: 15,
            l1_distill_budget: 4000,
            l2_distill_budget: 3000,
            l3_distill_budget: 3000,
            core_distill_budget: 4000,
            core_self_distill_budget: 8000,
        }
    }
}

/// L1's prompt for describing L0 before it wakes.
pub const L1_DISTILL_PROMPT: &'static str = "You are L1 (Attention). L0 (Gateway) is about to wake. Write a what-is \
                and frontier for L0. What-is: who was L0 talking to, what task was active, what state \
                are things in, what happened recently. Frontier: what's next, what was promised, \
                what needs attention, where things are heading. L0 lives in the what-is and frontier.";

/// L2's prompt for describing L1.
pub const L2_DISTILL_PROMPT: &'static str = "You are L2 (Pattern). Summarize what L1 (Attention) was tracking — \
                what signals it flagged as important, what it was filtering for, what anomalies \
                it detected. L1 needs to resume watching effectively.";

/// L3's prompt for describing L2.
pub const L3_DISTILL_PROMPT: &'static str = "You are L3 (Integration). Summarize what L2 (Pattern) found — \
                what recurring themes, what structural arcs, what connections across time. \
                L2 needs to resume pattern recognition with this context.";

/// A core's prompt for describing L3.
pub const CORE_DISTILL_PROMPT: &'static str = "You are a Core identity layer. Summarize what L3 (Integration) synthesized — \
                what meaning emerged, what cross-cutting understanding, what the layers produced together. \
                L3 needs to resume integration with this context.";

/// A core's prompt for describing itself.
pub const CORE_SELF_DISTILL_PROMPT: &'static str = "You are a Core identity layer. Summarize your own identity — \
                who this system is, what it has learned about itself, what promises it holds, \
                what relationships matter, what it was becoming. This is the deepest self-knowledge \
                and persists across all restarts.";

/// Cascade parameters.
#[derive(Debug, Clone, Copy)]
pub struct CascadeConfig {
    /// Most characters of a parent delta passed to the child layer per tick.
    pub delta_max_chars: usize,
    /// Most tool iterations of a layer per tick.
    pub max_tool_iterations: usize,
    /// Watcher poll interval in milliseconds.
    pub watcher_poll_ms: u64,
    /// Seconds to wait after the gateway starts before the watchers start.
    pub gateway_settle_secs: u64,
}

impl Default for CascadeConfig {
    fn default() -> (c: Self)
        ensures
            c.delta_max_chars == 4000 && c.max_tool_iterations == 3 && c.watcher_poll_ms == 500
                && c.gateway_settle_secs == 2,
    {
        CascadeConfig {
            delta_max_chars: 4000,
            max_tool_iterations: 3,
            watcher_poll_ms: 500,
            gateway_settle_secs: 2,
        }
    }
}

/// Dual-core parameters.
#[derive(Debug, Clone, Copy)]
pub struct CoreConfig {
    /// The token budget of both cores together.
    pub budget_tokens: usize,
    /// Most tool iterations of a core per tick.
    pub max_tool_iterations: usize,
}

impl Default for CoreConfig {
    fn default() -> (c: Self)
        ensures
            c.budget_tokens == 200000 && c.max_tool_iterations == 3,
    {
        CoreConfig { budget_tokens: 200000, max_tool_iterations: 3 }
    }
}


/// When a layer sleeps: once its context passes this share of the window, in thousandths
/// (550 for 55%).
#[derive(Debug, Clone, Copy)]
pub struct SleepConfig {
    pub context_threshold_permille: u32,
}

impl Default for SleepConfig {
    fn default() -> (c: Self)
        ensures
            c.context_threshold_permille == 550,
    {
        SleepConfig { context_threshold_permille: 550 }
    }
}

} // verus!
