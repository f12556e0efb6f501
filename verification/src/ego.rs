//! Ego distillation: what a watcher is asked and with which context, and how a distilled ego
//! becomes a wake context. Each layer's ego is distilled by the layer that watches it (L1
//! distills L0, L2 distills L1, L3 distills L2, the warm core distills L3), and the warm core
//! distills its own. The model calls and the files are handled elsewhere.

use vstd::prelude::*;
use crate::json::{json_str_at, json_str_at_exec, keys_view};
use crate::llm::{parse_json, valid_json};
use crate::config::{EgoConfig, ModelConfig};
use crate::stack::{byte_tail, tail_within};
use crate::text::{chars_of, join_path, path_join, push_str, trim_chars, trim_ws};

verus! {

broadcast use vstd::string::group_string_axioms;

/// The layer directories, in order.
pub open spec fn layer_dir_names() -> Seq<Seq<char>> {
    seq!["L0"@, "L1"@, "L2"@, "L3"@]
}

/// The directory of a layer, for layers 0 to 3.
pub fn layer_dir(layer: usize) -> (r: Option<&'static str>)
    ensures
        layer < 4 ==> (r matches Some(d) && d@ == layer_dir_names()[layer as int]),
        layer >= 4 ==> r is None,
{
    if layer == 0 {
        Some("L0")
    } else if layer == 1 {
        Some("L1")
    } else if layer == 2 {
        Some("L2")
    } else if layer == 3 {
        Some("L3")
    } else {
        None
    }
}

/// The sessions directory of a layer or core directory `dir` of the workspace.
pub open spec fn sessions_of(workspace: Seq<char>, dir: Seq<char>) -> Seq<char> {
    join_path(join_path(join_path(workspace, dir), ".agenticlaw"@), "sessions"@)
}

/// The sessions directory of a layer or core directory (see `sessions_of`).
pub fn layer_sessions_dir(workspace: &str, dir: &str) -> (r: String)
    ensures
        r@ == sessions_of(workspace@, dir@),
{
    let a = path_join(workspace, dir);
    let b = path_join(a.as_str(), ".agenticlaw");
    path_join(b.as_str(), "sessions")
}

/// The ego file of a layer or core directory.
pub fn ego_file_path(workspace: &str, dir: &str) -> (r: String)
    ensures
        r@ == join_path(join_path(workspace@, dir@), "ego.md"@),
{
    let a = path_join(workspace, dir);
    path_join(a.as_str(), "ego.md")
}

/// An ego file's text counts only when it holds more than white space.
pub fn ego_from_file(content: &str) -> (r: Option<String>)
    ensures
        trim_ws(content@).len() == 0 ==> r is None,
        trim_ws(content@).len() > 0 ==> (r matches Some(e) && e@ == content@),
{
    if trim_chars(chars_of(content).as_slice()).len() == 0 {
        None
    } else {
        Some(content.to_owned())
    }
}

/// The core that is warm: core A when its phase is `Growing`, else core B when its phase is,
/// else core A.
pub fn warm_core_name(core_a_phase: Option<&str>, core_b_phase: Option<&str>) -> (r: &'static str)
    ensures
        (core_a_phase matches Some(p) && p@ == "Growing"@) ==> r@ == "core-a"@,
        !(core_a_phase matches Some(p) && p@ == "Growing"@) && (core_b_phase matches Some(p)
            && p@ == "Growing"@) ==> r@ == "core-b"@,
        !(core_a_phase matches Some(p) && p@ == "Growing"@) && !(core_b_phase matches Some(p)
            && p@ == "Growing"@) ==> r@ == "core-a"@,
{
    let a_growing = match core_a_phase {
        Some(p) => crate::text::chars_eq(chars_of(p).as_slice(), chars_of("Growing").as_slice()),
        None => false,
    };
    let b_growing = match core_b_phase {
        Some(p) => crate::text::chars_eq(chars_of(p).as_slice(), chars_of("Growing").as_slice()),
        None => false,
    };
    if a_growing {
        "core-a"
    } else if b_growing {
        "core-b"
    } else {
        "core-a"
    }
}

/// Who distills an ego: a layer, or the warm core.
#[derive(Clone, Copy, Debug, PartialEq, Eq, Structural)]
pub enum Watcher {
    Layer(usize),
    WarmCore,
}

/// How an ego is distilled: whose transcript is read, with which prompt and model, how many
/// bytes of the transcript's tail go along, and how many tokens the answer may take.
pub struct DistillPlan {
    pub watcher: Watcher,
    pub model: String,
    pub prompt: String,
    pub context_budget: usize,
    pub max_tokens: usize,
}

/// How the ego of a layer that goes to sleep is distilled: L0 by L1, L1 by L2, L2 by L3, L3 by
/// the warm core; none for other layers.
pub fn layer_distill_plan(ego: &EgoConfig, models: &ModelConfig, layer: usize) -> (r: Option<
    DistillPlan,
>)
    ensures
        layer >= 4 ==> r is None,
        layer == 0 ==> (r matches Some(p) && p.watcher == Watcher::Layer(1) && p.model@
            == models.l1@ && p.prompt@ == ego.l1_distill_prompt@ && p.context_budget
            == ego.layer_budget_chars && p.max_tokens == ego.l1_distill_budget),
        layer == 1 ==> (r matches Some(p) && p.watcher == Watcher::Layer(2) && p.model@
            == models.l2@ && p.prompt@ == ego.l2_distill_prompt@ && p.context_budget
            == ego.layer_budget_chars && p.max_tokens == ego.l2_distill_budget),
        layer == 2 ==> (r matches Some(p) && p.watcher == Watcher::Layer(3) && p.model@
            == models.l3@ && p.prompt@ == ego.l3_distill_prompt@ && p.context_budget
            == ego.layer_budget_chars && p.max_tokens == ego.l3_distill_budget),
        layer == 3 ==> (r matches Some(p) && p.watcher == Watcher::WarmCore && p.model@
            == models.cores@ && p.prompt@ == ego.core_distill_prompt@ && p.context_budget
            == ego.core_budget_chars && p.max_tokens == ego.core_distill_budget),
{
    if layer == 0 {
        Some(
            DistillPlan {
                watcher: Watcher::Layer(1),
                model: models.l1.clone(),
                prompt: ego.l1_distill_prompt.clone(),
                context_budget: ego.layer_budget_chars,
                max_tokens: ego.l1_distill_budget,
            },
        )
    } else if layer == 1 {
        Some(
            DistillPlan {
                watcher: Watcher::Layer(2),
                model: models.l2.clone(),
                prompt: ego.l2_distill_prompt.clone(),
                context_budget: ego.layer_budget_chars,
                max_tokens: ego.l2_distill_budget,
            },
        )
    } else if layer == 2 {
        Some(
            DistillPlan {
                watcher: Watcher::Layer(3),
                model: models.l3.clone(),
                prompt: ego.l3_distill_prompt.clone(),
                context_budget: ego.layer_budget_chars,
                max_tokens: ego.l3_distill_budget,
            },
        )
    } else if layer == 3 {
        Some(
            DistillPlan {
                watcher: Watcher::WarmCore,
                model: models.cores.clone(),
                prompt: ego.core_distill_prompt.clone(),
                context_budget: ego.core_budget_chars,
                max_tokens: ego.core_distill_budget,
            },
        )
    } else {
        None
    }
}

/// How the warm core distills its own ego.
pub fn core_distill_plan(ego: &EgoConfig, models: &ModelConfig) -> (p: DistillPlan)
    ensures
        p.watcher == Watcher::WarmCore,
        p.model@ == models.cores@,
        p.prompt@ == ego.core_self_distill_prompt@,
        p.context_budget == ego.core_budget_chars,
        p.max_tokens == ego.core_self_distill_budget,
{
    DistillPlan {
        watcher: Watcher::WarmCore,
        model: models.cores.clone(),
        prompt: ego.core_self_distill_prompt.clone(),
        context_budget: ego.core_budget_chars,
        max_tokens: ego.core_self_distill_budget,
    }
}

/// The watcher's transcript as distillation context: its tail within `budget` bytes; none for a
/// transcript with nothing but white space.
pub fn distill_context(content: &str, budget: usize) -> (r: Option<String>)
    ensures
        trim_ws(content@).len() == 0 ==> r is None,
        trim_ws(content@).len() > 0 ==> (r matches Some(c) && c@ == byte_tail(
            content@,
            budget as nat,
        )),
{
    if trim_chars(chars_of(content).as_slice()).len() == 0 {
        None
    } else {
        Some(tail_within(content, budget))
    }
}

/// The request of a distillation: the prompt, then the watcher's context.
pub open spec fn distill_request_of(prompt: Seq<char>, context: Seq<char>) -> Seq<char> {
    prompt + "\n\n--- Your context (what you've observed) ---\n\n"@ + context
}

/// The request of a distillation (see `distill_request_of`).
pub fn distill_request(prompt: &str, context: &str) -> (r: String)
    ensures
        r@ == distill_request_of(prompt@, context@),
{
    let mut out = String::new();
    push_str(&mut out, prompt);
    push_str(&mut out, "\n\n--- Your context (what you've observed) ---\n\n");
    push_str(&mut out, context);
    out
}

/// A distilled ego counts only when the answer holds more than white space.
pub fn distilled_ego(answer: &str) -> (r: Option<String>)
    ensures
        trim_ws(answer@).len() == 0 ==> r is None,
        trim_ws(answer@).len() > 0 ==> (r matches Some(e) && e@ == answer@),
{
    ego_from_file(answer)
}

/// A wake context: the ego alone when there is no tail, otherwise the trimmed ego, a note and
/// the tail of the sleeping layer's last session.
pub open spec fn wake_context_of(ego: Seq<char>, tail: Seq<char>) -> Seq<char> {
    if tail.len() == 0 {
        ego
    } else {
        trim_ws(ego) + "\n\n--- Recent context ---\n\n"@ + tail
    }
}

/// A wake context (see `wake_context_of`).
pub fn wake_context(ego: &str, tail: &str) -> (r: String)
    ensures
        r@ == wake_context_of(ego@, tail@),
{
    if chars_of(tail).len() == 0 {
        return ego.to_owned();
    }
    let mut out = crate::text::string_from_chars(trim_chars(chars_of(ego).as_slice()).as_slice());
    push_str(&mut out, "\n\n--- Recent context ---\n\n");
    push_str(&mut out, tail);
    out
}


/// The phase text of a core in the cores' state file.
pub open spec fn core_phase_in(state: Seq<char>, core: Seq<char>) -> Option<Seq<char>> {
    json_str_at(state, seq![core, "phase"@])
}

/// Whether an optional phase is `Growing`.
pub open spec fn is_growing(p: Option<Seq<char>>) -> bool {
    p == Some("Growing"@)
}

/// The warm core named by the cores' state file: none when the text is not JSON; otherwise
/// `core-a` when core A is growing, else `core-b` when core B is, else `core-a`.
pub fn warm_core_of_state(state: &str) -> (r: Option<&'static str>)
    ensures
        r is Some <==> valid_json(state@),
        r matches Some(d) ==> d@ == (if is_growing(core_phase_in(state@, "core_a"@)) {
            "core-a"@
        } else if is_growing(core_phase_in(state@, "core_b"@)) {
            "core-b"@
        } else {
            "core-a"@
        }),
{
    if parse_json(state).is_err() {
        return None;
    }
    let a = ["core_a", "phase"];
    let b = ["core_b", "phase"];
    assert(keys_view(a@) =~= seq!["core_a"@, "phase"@]);
    assert(keys_view(b@) =~= seq!["core_b"@, "phase"@]);
    let pa = json_str_at_exec(state, a.as_slice());
    let pb = json_str_at_exec(state, b.as_slice());
    let r = warm_core_name(
        match &pa {
            Some(p) => Some(p.as_str()),
            None => None,
        },
        match &pb {
            Some(p) => Some(p.as_str()),
            None => None,
        },
    );
    Some(r)
}

/// The directory of the warm core for waking: `core-b` when the cores' state file shows core B
/// growing, `core-a` otherwise (also when the text is not JSON).
pub fn warm_core_dir_of_state(state: &str) -> (r: &'static str)
    ensures
        r@ == (if is_growing(core_phase_in(state@, "core_b"@)) {
            "core-b"@
        } else {
            "core-a"@
        }),
{
    let b = ["core_b", "phase"];
    assert(keys_view(b@) =~= seq!["core_b"@, "phase"@]);
    match json_str_at_exec(state, b.as_slice()) {
        Some(p) => {
            if crate::text::str_eq(p.as_str(), "Growing") {
                "core-b"
            } else {
                "core-a"
            }
        },
        None => "core-a",
    }
}

} // verus!
