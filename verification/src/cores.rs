//! The dual-core phase machine: two cores alternate between growing and compacting, so that
//! one of them holds deep context while the other recovers.

use vstd::prelude::*;
use crate::stack::{byte_tail, lemma_byte_tail_bound};
use crate::text::byte_len;

verus! {

/// Ports for Core-A and Core-B.
pub const CORE_PORTS: [u16; 2] = [18794, 18795];

/// Display names of the two cores.
pub const CORE_NAMES: [&'static str; 2] = ["Core-A", "Core-B"];

/// One of the two cores.
#[derive(Debug, Clone, Copy, PartialEq, Eq, Structural)]
pub enum CoreId {
    A,
    B,
}

impl CoreId {
    /// The other core.
    pub open spec fn spec_other(self) -> CoreId {
        match self {
            CoreId::A => CoreId::B,
            CoreId::B => CoreId::A,
        }
    }

    /// The core's index: 0 for A, 1 for B.
    pub open spec fn spec_index(self) -> nat {
        match self {
            CoreId::A => 0,
            CoreId::B => 1,
        }
    }

    /// The other core.
    pub fn other(self) -> (r: Self)
        ensures
            r == self.spec_other(),
            r != self,
    {
        match self {
            CoreId::A => CoreId::B,
            CoreId::B => CoreId::A,
        }
    }

    /// The core's index: 0 for A, 1 for B.
    pub fn index(self) -> (r: usize)
        ensures
            r == self.spec_index(),
    {
        match self {
            CoreId::A => 0,
            CoreId::B => 1,
        }
    }

    /// The core's workspace directory name.
    pub fn dir_name(self) -> (r: &'static str)
        ensures
            self == CoreId::A ==> r@ == "core-a"@,
            self == CoreId::B ==> r@ == "core-b"@,
    {
        match self {
            CoreId::A => "core-a",
            CoreId::B => "core-b",
        }
    }

    /// The core with the given index: 0 is A, anything else B.
    pub fn from_index(i: usize) -> (r: Self)
        ensures
            i == 0 ==> r == CoreId::A,
            i != 0 ==> r == CoreId::B,
    {
        match i {
            0 => CoreId::A,
            _ => CoreId::B,
        }
    }
}

/// Taking the other core twice gives back the core itself, and the two cores differ in index.
pub proof fn lemma_other_involutive(c: CoreId)
    ensures
        c.spec_other().spec_other() == c,
        c.spec_other().spec_index() != c.spec_index(),
        c.spec_index() < 2,
{
}

/// Index and core correspond one to one: `from_index` undoes `index`.
pub proof fn lemma_index_roundtrip(c: CoreId)
    ensures
        (c.spec_index() == 0) == (c == CoreId::A),
{
}

/// The phase of one core.
#[derive(Debug, Clone, Copy, PartialEq, Eq, Structural)]
pub enum CorePhase {
    Growing,
    Ready,
    Compacting,
    Infant,
    Seeded,
}

/// The state of one core.
#[derive(Debug, Clone, Copy, PartialEq, Eq, Structural)]
pub struct SingleCoreState {
    pub phase: CorePhase,
    pub estimated_tokens: usize,
    pub samples: usize,
    pub skip_counter: usize,
}

/// The state of both cores.
#[derive(Debug, Clone)]
pub struct CoreState {
    pub version: u32,
    pub core_a: SingleCoreState,
    pub core_b: SingleCoreState,
    pub budget_tokens: usize,
    pub last_compaction_core: Option<CoreId>,
    pub last_compaction_time: Option<String>,
}

impl CoreState {
    /// The state of core `id`.
    pub open spec fn spec_core(&self, id: CoreId) -> SingleCoreState {
        match id {
            CoreId::A => self.core_a,
            CoreId::B => self.core_b,
        }
    }

    /// A fresh state: Core-A growing, Core-B an infant, both empty.
    pub fn new(budget_tokens: usize) -> (s: Self)
        ensures
            s.version == 2,
            s.core_a == (SingleCoreState {
                phase: CorePhase::Growing,
                estimated_tokens: 0,
                samples: 0,
                skip_counter: 0,
            }),
            s.core_b == (SingleCoreState {
                phase: CorePhase::Infant,
                estimated_tokens: 0,
                samples: 0,
                skip_counter: 0,
            }),
            s.budget_tokens == budget_tokens,
            s.last_compaction_core is None,
            s.last_compaction_time is None,
    {
        CoreState {
            version: 2,
            core_a: SingleCoreState {
                phase: CorePhase::Growing,
                estimated_tokens: 0,
                samples: 0,
                skip_counter: 0,
            },
            core_b: SingleCoreState {
                phase: CorePhase::Infant,
                estimated_tokens: 0,
                samples: 0,
                skip_counter: 0,
            },
            budget_tokens,
            last_compaction_core: None,
            last_compaction_time: None,
        }
    }

    /// The state of core `id`.
    pub fn get_core(&self, id: CoreId) -> (r: &SingleCoreState)
        ensures
            *r == self.spec_core(id),
    {
        match id {
            CoreId::A => &self.core_a,
            CoreId::B => &self.core_b,
        }
    }

    /// Mutable access to the state of core `id`; the other core is left as it was.
    pub fn core_mut(&mut self, id: CoreId) -> (r: &mut SingleCoreState)
        ensures
            *r == old(self).spec_core(id),
            id == CoreId::A ==> *final(self) == (CoreState { core_a: *final(r), ..*old(self) }),
            id == CoreId::B ==> *final(self) == (CoreState { core_b: *final(r), ..*old(self) }),
    {
        match id {
            CoreId::A => &mut self.core_a,
            CoreId::B => &mut self.core_b,
        }
    }
}

/// Tokens estimated from text: a quarter of its byte length, rounded down.
pub fn estimate_tokens(text: &str) -> (r: usize)
    ensures
        r == text.len() / 4,
{
    text.len() / 4
}

} // verus!

verus! {

/// `state` with core `id` replaced by `c`.
pub open spec fn with_core(state: CoreState, id: CoreId, c: SingleCoreState) -> CoreState {
    match id {
        CoreId::A => CoreState { core_a: c, ..state },
        CoreId::B => CoreState { core_b: c, ..state },
    }
}

/// Whether a delta from L3 is routed to core `id`: only growing or freshly seeded cores take
/// deltas.
pub open spec fn spec_accepts_delta(state: CoreState, id: CoreId) -> bool {
    state.spec_core(id).phase == CorePhase::Growing || state.spec_core(id).phase
        == CorePhase::Seeded
}

/// Whether a delta from L3 is routed to core `id`.
pub fn accepts_delta(state: &CoreState, id: CoreId) -> (b: bool)
    ensures
        b == spec_accepts_delta(*state, id),
{
    match state.get_core(id).phase {
        CorePhase::Growing => true,
        CorePhase::Seeded => true,
        _ => false,
    }
}

/// Phase-locked growth: the smaller core counts the deltas it sees and samples every other
/// one; the larger (or equal) core samples every delta. Gives the new state and whether to
/// sample.
pub open spec fn spec_sample(state: CoreState, id: CoreId) -> (CoreState, bool) {
    let me = state.spec_core(id);
    let other = state.spec_core(id.spec_other());
    if me.estimated_tokens < other.estimated_tokens {
        let counted = (me.skip_counter + 1) as usize;
        (
            with_core(state, id, SingleCoreState { skip_counter: counted, ..me }),
            counted % 2 == 0,
        )
    } else {
        (state, true)
    }
}

/// Decides whether core `id` samples the current delta, counting the delta for a smaller core.
pub fn sample_gate(state: &mut CoreState, id: CoreId) -> (b: bool)
    requires
        old(state).spec_core(id).skip_counter < usize::MAX,
    ensures
        (*final(state), b) == spec_sample(*old(state), id),
{
    let other_tokens = state.get_core(id.other()).estimated_tokens;
    let my_tokens = state.get_core(id).estimated_tokens;
    if my_tokens < other_tokens {
        let core = state.core_mut(id);
        core.skip_counter = core.skip_counter + 1;
        core.skip_counter % 2 == 0
    } else {
        true
    }
}

/// The smaller core samples exactly one of any two consecutive deltas.
pub proof fn lemma_small_core_samples_half(state: CoreState, id: CoreId)
    requires
        state.spec_core(id).estimated_tokens < state.spec_core(id.spec_other()).estimated_tokens,
        state.spec_core(id).skip_counter + 2 <= usize::MAX,
    ensures
        ({
            let (s1, b1) = spec_sample(state, id);
            let (s2, b2) = spec_sample(s1, id);
            b1 != b2 && s2.spec_core(id).skip_counter == state.spec_core(id).skip_counter + 2
        }),
{
}

/// A core at least as big as its peer samples every delta; its state stays as it is.
pub proof fn lemma_large_core_always_samples(state: CoreState, id: CoreId)
    requires
        state.spec_core(id).estimated_tokens >= state.spec_core(id.spec_other()).estimated_tokens,
    ensures
        spec_sample(state, id) == (state, true),
{
}

/// What one recorded core output led to.
#[derive(Debug, Clone, Copy, PartialEq, Eq, Structural)]
pub struct OutputStep {
    /// The core reached half the budget and entered Ready.
    pub became_ready: bool,
    /// The core that compacted, if a compaction took place; its peer received the seed.
    pub compactor: Option<CoreId>,
    /// Token budget of the seed handed to the peer: a tenth of half the budget.
    pub seed_budget: usize,
}

/// An emptied core: Infant with all counters at zero.
pub open spec fn emptied() -> SingleCoreState {
    SingleCoreState { phase: CorePhase::Infant, estimated_tokens: 0, samples: 0, skip_counter: 0 }
}

/// The core state after `id` produced `tokens` tokens of output, before any compaction:
/// a seeded core starts growing, the tokens and the sample are counted, and a growing core at
/// half the budget becomes Ready.
pub open spec fn spec_counted(state: CoreState, id: CoreId, tokens: nat) -> CoreState {
    let me0 = state.spec_core(id);
    let phase1 = if me0.phase == CorePhase::Seeded {
        CorePhase::Growing
    } else {
        me0.phase
    };
    let toks = (me0.estimated_tokens + tokens) as usize;
    let phase2 = if toks >= state.budget_tokens / 2 && phase1 == CorePhase::Growing {
        CorePhase::Ready
    } else {
        phase1
    };
    with_core(
        state,
        id,
        SingleCoreState {
            phase: phase2,
            estimated_tokens: toks,
            samples: (me0.samples + 1) as usize,
            ..me0
        },
    )
}

/// The compactor chosen by the handshake or the tie-breaker, if any: a Ready core whose peer is
/// growing compacts (the peer approves); when both are Ready the one with fewer samples (Core-A
/// on a tie) compacts.
pub open spec fn spec_compactor(counted: CoreState, id: CoreId) -> Option<CoreId> {
    if counted.spec_core(id).phase == CorePhase::Ready && counted.spec_core(
        id.spec_other(),
    ).phase == CorePhase::Growing {
        Some(id)
    } else if counted.core_a.phase == CorePhase::Ready && counted.core_b.phase
        == CorePhase::Ready {
        if counted.core_a.samples <= counted.core_b.samples {
            Some(CoreId::A)
        } else {
            Some(CoreId::B)
        }
    } else {
        None
    }
}

/// Whether recording the output made core `id` enter Ready.
pub open spec fn spec_became_ready(state: CoreState, id: CoreId, tokens: nat) -> bool {
    (state.spec_core(id).phase == CorePhase::Growing || state.spec_core(id).phase
        == CorePhase::Seeded) && spec_counted(state, id, tokens).spec_core(id).phase
        == CorePhase::Ready
}

/// What recording an output of `tokens` tokens by core `id` does (see `record_core_output`):
/// the step reports whether the core became Ready, the compactor chosen and the seed budget; with
/// no compactor the state is the counted one, otherwise the compactor is emptied, its peer
/// grows, and the compaction is stamped with the core and `now`.
pub open spec fn output_recorded(
    before: CoreState,
    after: CoreState,
    id: CoreId,
    tokens: nat,
    now: Seq<char>,
    step: OutputStep,
) -> bool {
    let counted = spec_counted(before, id, tokens);
    &&& step.became_ready == spec_became_ready(before, id, tokens)
    &&& step.compactor == spec_compactor(counted, id)
    &&& step.seed_budget == before.budget_tokens / 2 / 10
    &&& match step.compactor {
        None => after == counted,
        Some(c) => {
            &&& after.spec_core(c) == emptied()
            &&& after.spec_core(c.spec_other()) == (SingleCoreState {
                phase: CorePhase::Growing,
                ..counted.spec_core(c.spec_other())
            })
            &&& after.version == counted.version
            &&& after.budget_tokens == counted.budget_tokens
            &&& after.last_compaction_core == Some(c)
            &&& after.last_compaction_time matches Some(t) && t@ == now
        },
    }
}

/// Records that core `id` produced `tokens` tokens of output, then runs the compaction
/// handshake (a Ready core whose peer is growing compacts) or the tie-breaker (both Ready: the
/// one with fewer samples compacts). The compactor is emptied, its peer keeps or resumes
/// growing, and the compaction is stamped with `now`.
pub fn record_core_output(state: &mut CoreState, id: CoreId, tokens: usize, now: &str) -> (step:
    OutputStep)
    requires
        old(state).spec_core(id).estimated_tokens + tokens <= usize::MAX,
        old(state).spec_core(id).samples < usize::MAX,
    ensures
        output_recorded(*old(state), *final(state), id, tokens as nat, now@, step),
{
    let ghost old_state = *state;
    {
        let core = state.core_mut(id);
        if core.phase == CorePhase::Seeded {
            core.phase = CorePhase::Growing;
        }
        core.estimated_tokens = core.estimated_tokens + tokens;
        core.samples = core.samples + 1;
    }
    let budget_half = state.budget_tokens / 2;
    let mut became_ready = false;
    {
        let core = state.core_mut(id);
        if core.estimated_tokens >= budget_half && core.phase == CorePhase::Growing {
            core.phase = CorePhase::Ready;
            became_ready = true;
        }
    }
    proof {
        assert(*state == spec_counted(old_state, id, tokens as nat));
    }
    let ghost counted = *state;
    let mut compactor: Option<CoreId> = None;
    if state.get_core(id).phase == CorePhase::Ready {
        let peer = id.other();
        if state.get_core(peer).phase == CorePhase::Growing {
            compactor = Some(id);
        }
    }
    if compactor.is_none() && state.core_a.phase == CorePhase::Ready && state.core_b.phase
        == CorePhase::Ready {
        if state.core_a.samples <= state.core_b.samples {
            compactor = Some(CoreId::A);
        } else {
            compactor = Some(CoreId::B);
        }
    }
    if let Some(c) = compactor {
        let approver = c.other();
        {
            let peer = state.core_mut(approver);
            peer.phase = CorePhase::Growing;
        }
        {
            let core = state.core_mut(c);
            core.phase = CorePhase::Infant;
            core.estimated_tokens = 0;
            core.samples = 0;
            core.skip_counter = 0;
        }
        state.last_compaction_core = Some(c);
        state.last_compaction_time = Some(now.to_owned());
    }
    OutputStep { became_ready, compactor, seed_budget: budget_half / 10 }
}

/// No core rests in the Compacting phase: a compaction empties the compactor within the step.
pub open spec fn no_core_compacting(state: CoreState) -> bool {
    state.core_a.phase != CorePhase::Compacting && state.core_b.phase != CorePhase::Compacting
}

/// Recording an output keeps every core out of the Compacting phase, and after a compaction the
/// compactor is an empty Infant while its peer is growing.
pub proof fn lemma_record_keeps_phases(state: CoreState, id: CoreId, tokens: nat)
    requires
        no_core_compacting(state),
        state.spec_core(id).estimated_tokens + tokens <= usize::MAX,
    ensures
        no_core_compacting(spec_counted(state, id, tokens)),
        spec_compactor(spec_counted(state, id, tokens), id) matches Some(c) ==> {
            &&& spec_counted(state, id, tokens).spec_core(c).phase == CorePhase::Ready
            &&& c == id || spec_counted(state, id, tokens).spec_core(c.spec_other()).phase
                == CorePhase::Ready
        },
{
}

/// The compaction handshake always fires for a core that is Ready once its output is counted
/// (it was Ready, or it was Growing or Seeded and its tokens reach half the budget) while its
/// peer is Growing: that core compacts, ends an empty Infant, and its peer keeps growing with
/// its own counters.
pub proof fn lemma_ready_core_with_growing_peer_compacts(
    before: CoreState,
    after: CoreState,
    id: CoreId,
    tokens: nat,
    now: Seq<char>,
    step: OutputStep,
)
    requires
        before.spec_core(id).estimated_tokens + tokens <= usize::MAX,
        output_recorded(before, after, id, tokens, now, step),
        before.spec_core(id.spec_other()).phase == CorePhase::Growing,
        before.spec_core(id).phase == CorePhase::Ready || ((before.spec_core(id).phase
            == CorePhase::Growing || before.spec_core(id).phase == CorePhase::Seeded)
            && before.spec_core(id).estimated_tokens + tokens >= before.budget_tokens / 2),
    ensures
        step.compactor == Some(id),
        after.spec_core(id) == emptied(),
        after.spec_core(id.spec_other()) == before.spec_core(id.spec_other()),
        after.last_compaction_core == Some(id),
        after.budget_tokens == before.budget_tokens,
{
}

/// With neither core Ready after counting (the producing core short of half the budget),
/// nothing compacts: the output's tokens and one sample are added to the producing core, and
/// its peer is untouched.
pub proof fn lemma_no_ready_core_no_compaction(
    before: CoreState,
    after: CoreState,
    id: CoreId,
    tokens: nat,
    now: Seq<char>,
    step: OutputStep,
)
    requires
        before.spec_core(id).estimated_tokens + tokens <= usize::MAX,
        output_recorded(before, after, id, tokens, now, step),
        before.spec_core(id.spec_other()).phase != CorePhase::Ready,
        before.spec_core(id).phase != CorePhase::Ready,
        before.spec_core(id).samples < usize::MAX,
        before.spec_core(id).estimated_tokens + tokens < before.budget_tokens / 2,
    ensures
        step.compactor is None,
        after.spec_core(id).estimated_tokens == before.spec_core(id).estimated_tokens + tokens,
        after.spec_core(id).samples == before.spec_core(id).samples + 1,
        after.spec_core(id.spec_other()) == before.spec_core(id.spec_other()),
{
}

/// When both cores are Ready once the output is counted, the one with fewer samples (counting
/// the producing core's new sample) compacts, Core-A on a tie; the step reports Ready only for
/// a core that crossed half the budget in this step, and the seed budget is a twentieth of the
/// budget, rounded down.
pub proof fn lemma_both_ready_fewer_samples_compacts(
    before: CoreState,
    after: CoreState,
    id: CoreId,
    tokens: nat,
    now: Seq<char>,
    step: OutputStep,
)
    requires
        before.spec_core(id).estimated_tokens + tokens <= usize::MAX,
        before.spec_core(id).samples < usize::MAX,
        output_recorded(before, after, id, tokens, now, step),
        before.core_a.phase == CorePhase::Ready,
        before.core_b.phase == CorePhase::Ready,
    ensures
        ({
            let a = before.core_a.samples + if id == CoreId::A { 1int } else { 0int };
            let b = before.core_b.samples + if id == CoreId::B { 1int } else { 0int };
            step.compactor == Some(if a <= b { CoreId::A } else { CoreId::B })
        }),
        !step.became_ready,
        step.seed_budget * 20 <= before.budget_tokens < step.seed_budget * 20 + 20,
{
}

/// A step reports that the producing core became Ready exactly when it was Growing or Seeded
/// and its tokens, with this output, reach half the budget.
pub proof fn lemma_became_ready_at_half_budget(
    before: CoreState,
    after: CoreState,
    id: CoreId,
    tokens: nat,
    now: Seq<char>,
    step: OutputStep,
)
    requires
        before.spec_core(id).estimated_tokens + tokens <= usize::MAX,
        output_recorded(before, after, id, tokens, now, step),
    ensures
        step.became_ready <==> ((before.spec_core(id).phase == CorePhase::Growing
            || before.spec_core(id).phase == CorePhase::Seeded) && before.spec_core(
            id,
        ).estimated_tokens + tokens >= before.budget_tokens / 2),
{
}

/// Deltas reach only cores that are Growing or Seeded: an Infant, Ready or Compacting core gets
/// none.
pub proof fn lemma_deltas_reach_growing_cores(state: CoreState, id: CoreId)
    ensures
        state.spec_core(id).phase == CorePhase::Growing ==> spec_accepts_delta(state, id),
        state.spec_core(id).phase == CorePhase::Seeded ==> spec_accepts_delta(state, id),
        state.spec_core(id).phase == CorePhase::Infant ==> !spec_accepts_delta(state, id),
        state.spec_core(id).phase == CorePhase::Ready ==> !spec_accepts_delta(state, id),
        state.spec_core(id).phase == CorePhase::Compacting ==> !spec_accepts_delta(state, id),
{
}

/// An infant core that finds a seed absorbs it: it becomes Seeded with the seed's token
/// estimate. Other phases are left alone.
pub fn absorb_seed(state: &mut CoreState, id: CoreId, seed_tokens: usize) -> (absorbed: bool)
    ensures
        absorbed == (old(state).spec_core(id).phase == CorePhase::Infant),
        absorbed ==> *final(state) == with_core(
            *old(state),
            id,
            SingleCoreState {
                phase: CorePhase::Seeded,
                estimated_tokens: seed_tokens,
                ..old(state).spec_core(id)
            },
        ),
        !absorbed ==> *final(state) == *old(state),
{
    let core = state.core_mut(id);
    if core.phase == CorePhase::Infant {
        core.phase = CorePhase::Seeded;
        core.estimated_tokens = seed_tokens;
        true
    } else {
        false
    }
}

/// A core that stayed Ready too long falls back to Growing; other phases are left alone.
pub fn revert_ready(state: &mut CoreState, id: CoreId) -> (reverted: bool)
    ensures
        reverted == (old(state).spec_core(id).phase == CorePhase::Ready),
        reverted ==> *final(state) == with_core(
            *old(state),
            id,
            SingleCoreState { phase: CorePhase::Growing, ..old(state).spec_core(id) },
        ),
        !reverted ==> *final(state) == *old(state),
{
    let core = state.core_mut(id);
    if core.phase == CorePhase::Ready {
        core.phase = CorePhase::Growing;
        true
    } else {
        false
    }
}


/// Whether core `id` is prompted with a delta: it takes deltas (Growing or Seeded) and its
/// sample gate lets this one through.
pub open spec fn core_prompted(state: CoreState, id: CoreId) -> bool {
    spec_accepts_delta(state, id) && spec_sample(state, id).1
}

/// One delta handled by core `id`, from routing to the recorded output: starting from a state
/// where no core is compacting, sampling keeps that true; a core is handed the delta only in
/// phase Growing or Seeded, and then at most its last 4000 bytes (a suffix of at most 4003 bytes, since only
/// whole characters are kept); recording the answer (on the state as it then is, also without a
/// compacting core) leaves no core compacting, and a core that compacted ends empty (Infant,
/// no tokens, samples or skipped deltas) and is named as the last compaction. A later seed
/// makes it Seeded and keeps its counters at zero.
pub proof fn lemma_one_delta(
    routed: CoreState,
    id: CoreId,
    delta: Seq<char>,
    current: CoreState,
    tokens: nat,
    now: Seq<char>,
    step: OutputStep,
    recorded: CoreState,
    seed_tokens: usize,
)
    requires
        no_core_compacting(routed),
        no_core_compacting(current),
        current.spec_core(id).estimated_tokens + tokens <= usize::MAX,
        output_recorded(current, recorded, id, tokens, now, step),
    ensures
        no_core_compacting(spec_sample(routed, id).0),
        core_prompted(routed, id) ==> (routed.spec_core(id).phase == CorePhase::Growing
            || routed.spec_core(id).phase == CorePhase::Seeded),
        byte_len(byte_tail(delta, 4000)) <= 4003,
        exists|k: int| 0 <= k <= delta.len() && byte_tail(delta, 4000) == delta.skip(k),
        no_core_compacting(recorded),
        step.compactor matches Some(c) ==> recorded.spec_core(c) == emptied()
            && recorded.last_compaction_core == Some(c),
        step.compactor matches Some(c) ==> ({
            let seeded = with_core(
                recorded,
                c,
                SingleCoreState {
                    phase: CorePhase::Seeded,
                    estimated_tokens: seed_tokens,
                    ..recorded.spec_core(c)
                },
            );
            &&& no_core_compacting(seeded)
            &&& seeded.spec_core(c).samples == 0
            &&& seeded.spec_core(c).skip_counter == 0
        }),
{
    lemma_byte_tail_bound(delta, 4000);
    lemma_record_keeps_phases(current, id, tokens);
}

} // verus!
