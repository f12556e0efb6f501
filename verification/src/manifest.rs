//! The manifest of a knowledge-graph run: the state of every node of the execution tree, the
//! run's outcome, and its totals. Times are milliseconds since the Unix epoch.

use vstd::prelude::*;
use crate::text::{
    append_chars, chars_of, decimal, lemma_text_less_irrefl, lemma_text_less_total, lemma_text_less_trans,
    string_from_chars, text_less, text_less_exec,
};

verus! {

broadcast use vstd::string::group_string_axioms;

/// The outcome of a run.
#[derive(Clone, Copy, Debug, PartialEq, Eq, Structural)]
pub enum Outcome {
    Pending,
    Success,
    Failure,
    Abandoned,
}

impl Outcome {
    /// The outcome as it is displayed and stored.
    pub fn label(&self) -> (s: &'static str)
        ensures
            *self == Outcome::Pending ==> s@ == "pending"@,
            *self == Outcome::Success ==> s@ == "success"@,
            *self == Outcome::Failure ==> s@ == "failure"@,
            *self == Outcome::Abandoned ==> s@ == "abandoned"@,
    {
        match self {
            Outcome::Pending => "pending",
            Outcome::Success => "success",
            Outcome::Failure => "failure",
            Outcome::Abandoned => "abandoned",
        }
    }
}

/// The state of a node of the execution tree.
#[derive(Clone, Copy, Debug, PartialEq, Eq, Structural)]
pub enum NodeState {
    Pending,
    Blocked,
    Spawned,
    Running,
    Success,
    Failed,
}

/// What the manifest records of a node.
#[derive(Clone, Debug)]
pub struct NodeStatus {
    pub status: NodeState,
    pub session_key: Option<String>,
    pub tokens: usize,
    pub wall_ms: u64,
    pub started_ms: Option<i64>,
    pub ended_ms: Option<i64>,
}

/// One more round of a node after feedback.
#[derive(Clone, Debug)]
pub struct Iteration {
    pub node: String,
    pub round: usize,
    pub feedback_summary: String,
    pub ts_ms: i64,
}

/// The manifest of one run.
pub struct RunManifest {
    pub run_id: String,
    pub purpose: String,
    pub graph_address: String,
    pub target: String,
    pub started_ms: i64,
    pub ended_ms: Option<i64>,
    pub outcome: Outcome,
    pub total_tokens: usize,
    pub total_wall_ms: u64,
    pub nodes: Vec<(String, NodeStatus)>,
    pub iterations: Vec<Iteration>,
}

/// The wall time from `start` to `end`, and zero when `end` comes first.
pub open spec fn elapsed_ms(start: i64, end: i64) -> u64 {
    if end >= start {
        (end - start) as u64
    } else {
        0
    }
}

/// The sum of the tokens of the nodes.
pub open spec fn tokens_sum(ns: Seq<(String, NodeStatus)>) -> nat
    decreases ns.len(),
{
    if ns.len() == 0 {
        0
    } else {
        tokens_sum(ns.drop_last()) + ns.last().1.tokens as nat
    }
}

fn elapsed(start: i64, end: i64) -> (ms: u64)
    ensures
        ms == elapsed_ms(start, end),
{
    if end >= start {
        let d = end as i128 - start as i128;
        assert(d <= u64::MAX);
        d as u64
    } else {
        0
    }
}

impl RunManifest {
    /// The recorded nodes, by address, in address order.
    pub open spec fn nodes(&self) -> Seq<(String, NodeStatus)> {
        self.nodes@
    }

    /// What is recorded of the node at `addr`, if anything.
    pub open spec fn node(&self, addr: Seq<char>) -> Option<NodeStatus> {
        if exists|i: int| 0 <= i < self.nodes().len() && self.nodes()[i].0@ == addr {
            Some(self.nodes()[choose|i: int| 0 <= i < self.nodes().len() && self.nodes()[i].0@ == addr].1)
        } else {
            None
        }
    }

    /// Each address is recorded once, and the nodes are kept in increasing address order.
    pub open spec fn wf(&self) -> bool {
        &&& forall|i: int, j: int|
            0 <= i < j < self.nodes().len() ==> self.nodes()[i].0@ != self.nodes()[j].0@
        &&& forall|i: int, j: int|
            0 <= i < j < self.nodes().len() ==> text_less(
                #[trigger] self.nodes()[i].0@,
                #[trigger] self.nodes()[j].0@,
            )
    }

    /// A pending run with no nodes yet, started at `started_ms`.
    pub fn new(run_id: &str, purpose: &str, graph_address: &str, target: &str, started_ms: i64) -> (m:
        Self)
        ensures
            m.wf(),
            m.run_id@ == run_id@ && m.purpose@ == purpose@ && m.graph_address@ == graph_address@
                && m.target@ == target@,
            m.started_ms == started_ms,
            m.ended_ms is None,
            m.outcome == Outcome::Pending,
            m.total_tokens == 0 && m.total_wall_ms == 0,
            m.nodes().len() == 0,
            m.iterations@.len() == 0,
    {
        RunManifest {
            run_id: run_id.to_owned(),
            purpose: purpose.to_owned(),
            graph_address: graph_address.to_owned(),
            target: target.to_owned(),
            started_ms,
            ended_ms: None,
            outcome: Outcome::Pending,
            total_tokens: 0,
            total_wall_ms: 0,
            nodes: Vec::new(),
            iterations: Vec::new(),
        }
    }

    fn find(&self, addr: &str) -> (i: Option<usize>)
        requires
            self.wf(),
        ensures
            i matches Some(k) ==> k < self.nodes().len() && self.nodes()[k as int].0@ == addr@,
            i is None ==> forall|k: int| 0 <= k < self.nodes().len() ==> self.nodes()[k].0@ != addr@,
    {
        let key = addr.to_owned();
        let mut k: usize = 0;
        while k < self.nodes.len()
            invariant
                k <= self.nodes@.len(),
                key@ == addr@,
                forall|j: int| 0 <= j < k ==> self.nodes@[j].0@ != addr@,
            decreases self.nodes@.len() - k,
        {
            if self.nodes[k].0 == key {
                return Some(k);
            }
            k = k + 1;
        }
        None
    }

    /// Records the node at `addr` in state `state`, with nothing else known of it yet (a node
    /// recorded before is replaced).
    pub fn add_node(&mut self, addr: &str, state: NodeState)
        requires
            old(self).wf(),
        ensures
            final(self).wf(),
            final(self).node(addr@) matches Some(n) && n.status == state && n.session_key is None
                && n.tokens == 0 && n.wall_ms == 0 && n.started_ms is None && n.ended_ms is None,
            forall|a: Seq<char>| a != addr@ ==> final(self).node(a) == old(self).node(a),
    {
        let status = NodeStatus {
            status: state,
            session_key: None,
            tokens: 0,
            wall_ms: 0,
            started_ms: None,
            ended_ms: None,
        };
        self.put(addr, status);
    }

    /// Where a node at `addr`, which is not recorded, goes to keep the nodes in address order:
    /// after the addresses that come before it, before the others.
    fn insertion_point(&self, addr: &str) -> (p: usize)
        requires
            self.wf(),
            forall|k: int| 0 <= k < self.nodes().len() ==> self.nodes()[k].0@ != addr@,
        ensures
            p <= self.nodes().len(),
            forall|k: int| 0 <= k < p ==> text_less(#[trigger] self.nodes()[k].0@, addr@),
            p < self.nodes().len() ==> text_less(addr@, self.nodes()[p as int].0@),
    {
        let key = chars_of(addr);
        let mut p: usize = 0;
        while p < self.nodes.len()
            invariant
                p <= self.nodes().len(),
                key@ == addr@,
                self.wf(),
                forall|k: int| 0 <= k < self.nodes().len() ==> self.nodes()[k].0@ != addr@,
                forall|k: int| 0 <= k < p ==> text_less(#[trigger] self.nodes()[k].0@, addr@),
            decreases self.nodes().len() - p,
        {
            let here = chars_of(self.nodes[p].0.as_str());
            if !text_less_exec(&here, &key) {
                proof {
                    lemma_text_less_total(self.nodes()[p as int].0@, addr@);
                }
                return p;
            }
            p = p + 1;
        }
        p
    }

    fn put(&mut self, addr: &str, status: NodeStatus)
        requires
            old(self).wf(),
        ensures
            final(self).wf(),
            final(self).node(addr@) == Some(status),
            forall|a: Seq<char>| a != addr@ ==> final(self).node(a) == old(self).node(a),
            final(self).run_id == old(self).run_id,
            final(self).started_ms == old(self).started_ms,
            final(self).ended_ms == old(self).ended_ms,
            final(self).outcome == old(self).outcome,
            final(self).total_tokens == old(self).total_tokens,
    {
        let key = addr.to_owned();
        match self.find(addr) {
            Some(k) => {
                self.nodes.set(k, (key, status));
                proof {
                    assert(self.nodes()[k as int].0@ == addr@);
                    assert forall|a: Seq<char>| a != addr@ implies self.node(a) == old(self).node(a) by {
                        if exists|i: int| 0 <= i < self.nodes().len() && self.nodes()[i].0@ == a {
                            let i = choose|i: int| 0 <= i < self.nodes().len() && self.nodes()[i].0@ == a;
                            assert(old(self).nodes()[i].0@ == a);
                        }
                        if exists|i: int| 0 <= i < old(self).nodes().len() && old(self).nodes()[i].0@ == a {
                            let i = choose|i: int| 0 <= i < old(self).nodes().len() && old(self).nodes()[i].0@ == a;
                            assert(self.nodes()[i].0@ == a);
                        }
                    }
                }
            },
            None => {
                let p = self.insertion_point(addr);
                let ghost before = self.nodes();
                self.nodes.insert(p, (key, status));
                proof {
                    assert(self.nodes() == before.insert(p as int, (key, status)));
                    assert(self.nodes()[p as int].0@ == addr@);
                    assert forall|i: int, j: int|
                        0 <= i < j < self.nodes().len() implies text_less(
                        #[trigger] self.nodes()[i].0@,
                        #[trigger] self.nodes()[j].0@,
                    ) by {
                        if j < p {
                        } else if j == p {
                        } else if i < p {
                            assert(self.nodes()[j].0@ == before[j - 1].0@);
                            if p < before.len() {
                                if j - 1 > p {
                                    assert(text_less(before[p as int].0@, before[j - 1].0@));
                                    lemma_text_less_trans(addr@, before[p as int].0@, before[j - 1].0@);
                                }
                                lemma_text_less_trans(before[i].0@, addr@, before[j - 1].0@);
                            }
                        } else if i == p {
                            if j - 1 > p {
                                assert(text_less(before[p as int].0@, before[j - 1].0@));
                                lemma_text_less_trans(addr@, before[p as int].0@, before[j - 1].0@);
                            }
                        } else {
                            assert(self.nodes()[i].0@ == before[i - 1].0@);
                            assert(self.nodes()[j].0@ == before[j - 1].0@);
                        }
                    }
                    assert forall|i: int, j: int|
                        0 <= i < j < self.nodes().len() implies self.nodes()[i].0@ != self.nodes()[j].0@ by {
                        lemma_text_less_irrefl(self.nodes()[i].0@);
                    }
                    assert forall|a: Seq<char>| a != addr@ implies self.node(a) == old(self).node(a) by {
                        if exists|i: int| 0 <= i < self.nodes().len() && self.nodes()[i].0@ == a {
                            let i = choose|i: int| 0 <= i < self.nodes().len() && self.nodes()[i].0@ == a;
                            if i < p {
                                assert(old(self).nodes()[i].0@ == a);
                            } else {
                                assert(old(self).nodes()[i - 1].0@ == a);
                            }
                        }
                        if exists|i: int| 0 <= i < old(self).nodes().len() && old(self).nodes()[i].0@ == a {
                            let i = choose|i: int| 0 <= i < old(self).nodes().len() && old(self).nodes()[i].0@ == a;
                            if i < p {
                                assert(self.nodes()[i].0@ == a);
                            } else {
                                assert(self.nodes()[i + 1].0@ == a);
                            }
                        }
                    }
                }
            },
        }
    }

    /// A copy of what is recorded of the node at `addr`.
    pub fn get_node(&self, addr: &str) -> (n: Option<NodeStatus>)
        requires
            self.wf(),
        ensures
            n matches Some(x) ==> self.node(addr@) matches Some(y) && x.status == y.status
                && x.tokens == y.tokens && x.wall_ms == y.wall_ms && x.started_ms == y.started_ms
                && x.ended_ms == y.ended_ms,
            n is None <==> self.node(addr@) is None,
    {
        match self.find(addr) {
            Some(k) => {
                let n = &self.nodes[k].1;
                Some(
                    NodeStatus {
                        status: n.status,
                        session_key: n.session_key.clone(),
                        tokens: n.tokens,
                        wall_ms: n.wall_ms,
                        started_ms: n.started_ms,
                        ended_ms: n.ended_ms,
                    },
                )
            },
            None => {
                proof {
                    if self.node(addr@) is Some {
                        let i = choose|i: int| 0 <= i < self.nodes().len() && self.nodes()[i].0@ == addr@;
                    }
                }
                None
            },
        }
    }

    /// Sets the state of a recorded node (nothing happens for an unknown address).
    pub fn update_node(&mut self, addr: &str, state: NodeState)
        requires
            old(self).wf(),
        ensures
            final(self).wf(),
            (match old(self).node(addr@) {
                Some(n) => final(self).node(addr@) == Some(NodeStatus { status: state, ..n }),
                None => final(self).node(addr@) is None,
            }),
            forall|a: Seq<char>| a != addr@ ==> final(self).node(a) == old(self).node(a),
    {
        match self.find(addr) {
            Some(k) => {
                let n = &self.nodes[k].1;
                let updated = NodeStatus {
                    status: state,
                    session_key: n.session_key.clone(),
                    tokens: n.tokens,
                    wall_ms: n.wall_ms,
                    started_ms: n.started_ms,
                    ended_ms: n.ended_ms,
                };
                proof {
                    assert(updated.session_key == n.session_key);
                }
                self.put(addr, updated);
            },
            None => {
                proof {
                    if old(self).node(addr@) is Some {
                        let i = choose|i: int| 0 <= i < self.nodes().len() && self.nodes()[i].0@ == addr@;
                    }
                }
            },
        }
    }

    /// Marks a recorded node as running since `now_ms`, under the given session.
    pub fn start_node(&mut self, addr: &str, session_key: Option<String>, now_ms: i64)
        requires
            old(self).wf(),
        ensures
            final(self).wf(),
            (match old(self).node(addr@) {
                Some(n) => final(self).node(addr@) == Some(
                    NodeStatus {
                        status: NodeState::Running,
                        session_key: session_key,
                        started_ms: Some(now_ms),
                        ..n
                    },
                ),
                None => final(self).node(addr@) is None,
            }),
            forall|a: Seq<char>| a != addr@ ==> final(self).node(a) == old(self).node(a),
    {
        match self.find(addr) {
            Some(k) => {
                let n = &self.nodes[k].1;
                let updated = NodeStatus {
                    status: NodeState::Running,
                    session_key,
                    tokens: n.tokens,
                    wall_ms: n.wall_ms,
                    started_ms: Some(now_ms),
                    ended_ms: n.ended_ms,
                };
                self.put(addr, updated);
            },
            None => {
                proof {
                    if old(self).node(addr@) is Some {
                        let i = choose|i: int| 0 <= i < self.nodes().len() && self.nodes()[i].0@ == addr@;
                    }
                }
            },
        }
    }

    /// Marks a recorded node as finished at `now_ms` in `state` with `tokens` tokens; its wall
    /// time is counted from its start, when it was started.
    pub fn finish_node(&mut self, addr: &str, state: NodeState, tokens: usize, now_ms: i64)
        requires
            old(self).wf(),
        ensures
            final(self).wf(),
            (match old(self).node(addr@) {
                Some(n) => final(self).node(addr@) == Some(
                    NodeStatus {
                        status: state,
                        tokens: tokens,
                        ended_ms: Some(now_ms),
                        wall_ms: match n.started_ms {
                            Some(s) => elapsed_ms(s, now_ms),
                            None => n.wall_ms,
                        },
                        ..n
                    },
                ),
                None => final(self).node(addr@) is None,
            }),
            forall|a: Seq<char>| a != addr@ ==> final(self).node(a) == old(self).node(a),
    {
        match self.find(addr) {
            Some(k) => {
                let n = &self.nodes[k].1;
                let wall = match n.started_ms {
                    Some(s) => elapsed(s, now_ms),
                    None => n.wall_ms,
                };
                let updated = NodeStatus {
                    status: state,
                    session_key: n.session_key.clone(),
                    tokens,
                    wall_ms: wall,
                    started_ms: n.started_ms,
                    ended_ms: Some(now_ms),
                };
                self.put(addr, updated);
            },
            None => {
                proof {
                    if old(self).node(addr@) is Some {
                        let i = choose|i: int| 0 <= i < self.nodes().len() && self.nodes()[i].0@ == addr@;
                    }
                }
            },
        }
    }

    /// Closes the run at `now_ms` with `outcome`: the tokens of all nodes are totalled and the
    /// wall time counted from the start.
    pub fn finalize(&mut self, outcome: Outcome, now_ms: i64)
        requires
            tokens_sum(old(self).nodes()) <= usize::MAX,
        ensures
            final(self).outcome == outcome,
            final(self).ended_ms == Some(now_ms),
            final(self).total_tokens == tokens_sum(old(self).nodes()),
            final(self).total_wall_ms == elapsed_ms(old(self).started_ms, now_ms),
            final(self).nodes() == old(self).nodes(),
    {
        self.outcome = outcome;
        self.ended_ms = Some(now_ms);
        let mut sum: usize = 0;
        let mut i: usize = 0;
        let ghost ns = self.nodes@;
        assert(ns.take(0) =~= Seq::<(String, NodeStatus)>::empty());
        while i < self.nodes.len()
            invariant
                i <= self.nodes@.len(),
                ns == self.nodes@,
                sum == tokens_sum(ns.take(i as int)),
                tokens_sum(ns) <= usize::MAX,
            decreases self.nodes@.len() - i,
        {
            proof {
                assert(ns.take(i + 1).drop_last() =~= ns.take(i as int));
                lemma_tokens_sum_prefix(ns, i + 1);
            }
            sum = sum + self.nodes[i].1.tokens;
            i = i + 1;
        }
        assert(ns.take(ns.len() as int) =~= ns);
        self.total_tokens = sum;
        self.total_wall_ms = elapsed(self.started_ms, now_ms);
    }

    /// The line of the run log: `| run | purpose | address | target | started | outcome |`,
    /// with the start time as given.
    pub fn run_log_line(&self, started: &str) -> (l: String)
        ensures
            l@ == "| "@ + self.run_id@ + " | "@ + self.purpose@ + " | "@ + self.graph_address@
                + " | "@ + self.target@ + " | "@ + started@ + " | "@ + outcome_text(self.outcome)
                + " |"@,
    {
        let sep = chars_of(" | ");
        let mut out = chars_of("| ");
        append_chars(&mut out, chars_of(self.run_id.as_str()).as_slice());
        append_chars(&mut out, sep.as_slice());
        append_chars(&mut out, chars_of(self.purpose.as_str()).as_slice());
        append_chars(&mut out, sep.as_slice());
        append_chars(&mut out, chars_of(self.graph_address.as_str()).as_slice());
        append_chars(&mut out, sep.as_slice());
        append_chars(&mut out, chars_of(self.target.as_str()).as_slice());
        append_chars(&mut out, sep.as_slice());
        append_chars(&mut out, chars_of(started).as_slice());
        append_chars(&mut out, sep.as_slice());
        append_chars(&mut out, chars_of(self.outcome.label()).as_slice());
        append_chars(&mut out, chars_of(" |").as_slice());
        string_from_chars(out.as_slice())
    }
}

/// The displayed text of an outcome.
pub open spec fn outcome_text(o: Outcome) -> Seq<char> {
    match o {
        Outcome::Pending => "pending"@,
        Outcome::Success => "success"@,
        Outcome::Failure => "failure"@,
        Outcome::Abandoned => "abandoned"@,
    }
}

proof fn lemma_tokens_sum_prefix(ns: Seq<(String, NodeStatus)>, k: int)
    requires
        0 <= k <= ns.len(),
    ensures
        tokens_sum(ns.take(k)) <= tokens_sum(ns),
    decreases ns.len() - k,
{
    if k < ns.len() {
        lemma_tokens_sum_prefix(ns, k + 1);
        assert(ns.take(k + 1).drop_last() =~= ns.take(k));
    } else {
        assert(ns.take(k) =~= ns);
    }
}

/// The icon of a node's state in a run report.
pub open spec fn state_icon(s: NodeState) -> Seq<char> {
    match s {
        NodeState::Success => "\u{2713}"@,
        NodeState::Failed => "\u{2717}"@,
        NodeState::Running => "\u{27F3}"@,
        NodeState::Pending => "\u{25CB}"@,
        NodeState::Blocked => "\u{25AA}"@,
        NodeState::Spawned => "\u{25CE}"@,
    }
}

/// The number of slashes in `s`.
pub open spec fn slash_count(s: Seq<char>) -> nat
    decreases s.len(),
{
    if s.len() == 0 {
        0
    } else {
        slash_count(s.drop_last()) + if s.last() == '/' {
            1nat
        } else {
            0nat
        }
    }
}

/// `n` indentation steps of two spaces.
pub open spec fn indentation(n: nat) -> Seq<char>
    decreases n,
{
    if n == 0 {
        Seq::empty()
    } else {
        indentation((n - 1) as nat) + "  "@
    }
}

/// A node's line in a run report: indented by its depth below the root, its state's icon, its
/// address, and its tokens and wall time.
pub open spec fn node_line(addr: Seq<char>, n: NodeStatus) -> Seq<char> {
    let depth = if slash_count(addr) >= 2 {
        (slash_count(addr) - 2) as nat
    } else {
        0
    };
    indentation(depth) + state_icon(n.status) + " "@ + addr + " ("@ + decimal(n.tokens as nat)
        + " tokens, "@ + decimal(n.wall_ms as nat) + "ms)\n"@
}

/// The lines of the nodes, in order.
pub open spec fn node_lines(ns: Seq<(String, NodeStatus)>) -> Seq<char>
    decreases ns.len(),
{
    if ns.len() == 0 {
        Seq::empty()
    } else {
        node_lines(ns.drop_last()) + node_line(ns.last().0@, ns.last().1)
    }
}

/// A run's report: its purpose, target and outcome, the node tree in address order, and the
/// totals.
pub open spec fn report_text(run_id: Seq<char>, m: RunManifest) -> Seq<char> {
    "# KG Run Report: "@ + run_id + "\n\n## Purpose\n"@ + m.purpose@ + "\n\n## Target\n"@
        + m.target@ + "\n\n## Outcome: "@ + outcome_text(m.outcome) + "\n\n"@
        + "## Node Tree\n"@ + node_lines(m.nodes()) + "\n## Totals\n- Tokens: "@ + decimal(
        m.total_tokens as nat,
    ) + "\n- Wall: "@ + decimal(m.total_wall_ms as nat) + "ms\n- Nodes: "@ + decimal(
        m.nodes().len(),
    ) + "\n"@
}

/// Appends a literal.
fn push_lit(out: &mut Vec<char>, s: &str)
    ensures
        final(out)@ == old(out)@ + s@,
{
    append_chars(out, chars_of(s).as_slice());
}

/// The number of slashes in a text (see `slash_count`).
fn slashes(v: &Vec<char>) -> (n: usize)
    ensures
        n == slash_count(v@),
{
    let mut n: usize = 0;
    let mut i: usize = 0;
    while i < v.len()
        invariant
            i <= v@.len(),
            n == slash_count(v@.take(i as int)),
            n <= i,
        decreases v@.len() - i,
    {
        assert(v@.take(i + 1).drop_last() =~= v@.take(i as int));
        if v[i] == '/' {
            n = n + 1;
        }
        i = i + 1;
    }
    assert(v@.take(v@.len() as int) =~= v@);
    n
}

/// Appends a node's report line (see `node_line`).
fn push_node_line(out: &mut Vec<char>, addr: &String, n: &NodeStatus)
    ensures
        final(out)@ == old(out)@ + node_line(addr@, *n),
{
    let a = chars_of(addr.as_str());
    let c = slashes(&a);
    let depth = if c >= 2 {
        c - 2
    } else {
        0
    };
    let ghost start = out@;
    let mut k: usize = 0;
    while k < depth
        invariant
            k <= depth,
            out@ == start + indentation(k as nat),
        decreases depth - k,
    {
        push_lit(out, "  ");
        k = k + 1;
    }
    let icon = match n.status {
        NodeState::Success => "\u{2713}",
        NodeState::Failed => "\u{2717}",
        NodeState::Running => "\u{27F3}",
        NodeState::Pending => "\u{25CB}",
        NodeState::Blocked => "\u{25AA}",
        NodeState::Spawned => "\u{25CE}",
    };
    push_lit(out, icon);
    push_lit(out, " ");
    append_chars(out, a.as_slice());
    push_lit(out, " (");
    crate::text::push_decimal(out, n.tokens);
    push_lit(out, " tokens, ");
    crate::text::push_decimal_u64(out, n.wall_ms);
    push_lit(out, "ms)\n");
    assert(out@ =~= start + node_line(addr@, *n));
}

/// A run's report (see `report_text`).
pub fn build_report(run_id: &str, manifest: &RunManifest) -> (r: String)
    ensures
        r@ == report_text(run_id@, *manifest),
{
    let mut out: Vec<char> = Vec::new();
    push_lit(&mut out, "# KG Run Report: ");
    push_lit(&mut out, run_id);
    push_lit(&mut out, "\n\n## Purpose\n");
    push_lit(&mut out, manifest.purpose.as_str());
    push_lit(&mut out, "\n\n## Target\n");
    push_lit(&mut out, manifest.target.as_str());
    push_lit(&mut out, "\n\n## Outcome: ");
    push_lit(&mut out, manifest.outcome.label());
    push_lit(&mut out, "\n\n");
    push_lit(&mut out, "## Node Tree\n");
    let ghost head = out@;
    let ns = &manifest.nodes;
    let mut i: usize = 0;
    assert(ns@.take(0) =~= Seq::<(String, NodeStatus)>::empty());
    while i < ns.len()
        invariant
            i <= ns@.len(),
            out@ == head + node_lines(ns@.take(i as int)),
        decreases ns@.len() - i,
    {
        push_node_line(&mut out, &ns[i].0, &ns[i].1);
        assert(ns@.take(i + 1).drop_last() =~= ns@.take(i as int));
        i = i + 1;
    }
    assert(ns@.take(ns@.len() as int) =~= ns@);
    push_lit(&mut out, "\n## Totals\n- Tokens: ");
    crate::text::push_decimal(&mut out, manifest.total_tokens);
    push_lit(&mut out, "\n- Wall: ");
    crate::text::push_decimal_u64(&mut out, manifest.total_wall_ms);
    push_lit(&mut out, "ms\n- Nodes: ");
    crate::text::push_decimal(&mut out, ns.len());
    push_lit(&mut out, "\n");
    string_from_chars(out.as_slice())
}

} // verus!
