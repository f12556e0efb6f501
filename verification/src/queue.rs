//! The event queue of a consciousness instance: every input enters one queue, and the consumer
//! takes the most urgent event first (human messages preempt tool work). Also the bookkeeping
//! of the consumer loop: which tools are running, which model call is current, and how many
//! tool rounds a turn has taken.

use vstd::prelude::*;
use crate::llm::AccumulatedToolCall;
use crate::types::SessionKey;
use crate::llm::strings_view;

verus! {

/// How urgent an event is; more urgent events are taken first.
#[derive(Debug, Clone, Copy, PartialEq, Eq, Structural, PartialOrd, Ord)]
pub enum Priority {
    /// Tool results, cascade deltas, injections.
    Normal,
    /// Human messages: always processed next.
    Human,
    /// System events (shutdown, sleep).
    System,
}

/// The rank of a priority: 0 for normal, 1 for human, 2 for system.
pub open spec fn rank(p: Priority) -> nat {
    match p {
        Priority::Normal => 0,
        Priority::Human => 1,
        Priority::System => 2,
    }
}

impl Priority {
    /// The numeric level of the priority: 0, 10 or 20.
    pub fn level(&self) -> (v: u8)
        ensures
            v == 10 * rank(*self),
    {
        match self {
            Priority::Normal => 0,
            Priority::Human => 10,
            Priority::System => 20,
        }
    }
}

/// Every event that can enter the queue.
#[derive(Debug)]
pub enum QueueEvent {
    /// A human typed a message.
    HumanMessage { session: SessionKey, content: String, priority: Priority },
    /// A tool finished.
    ToolResult { session: SessionKey, tool_use_id: String, name: String, result: String, is_error: bool },
    /// A delta from the parent layer's context file.
    CascadeDelta { from_layer: usize, delta: String, session: SessionKey },
    /// An injection from a lower layer.
    Injection { from: String, content: String },
    /// A model call finished; `request_id` tells stale answers apart.
    LlmComplete {
        session: SessionKey,
        text: Option<String>,
        tool_calls: Vec<AccumulatedToolCall>,
        stop_reason: String,
        request_id: String,
    },
    Sleep { session: SessionKey, token_count: usize },
    Wake { ego: String },
    Shutdown,
}

/// The priority of an event: its own for a human message, system for shutdown and sleep,
/// normal otherwise.
pub open spec fn event_priority(e: QueueEvent) -> Priority {
    match e {
        QueueEvent::HumanMessage { priority, .. } => priority,
        QueueEvent::Shutdown => Priority::System,
        QueueEvent::Sleep { .. } => Priority::System,
        _ => Priority::Normal,
    }
}

impl QueueEvent {
    /// The priority of this event.
    pub fn priority(&self) -> (p: Priority)
        ensures
            p == event_priority(*self),
    {
        match self {
            QueueEvent::HumanMessage { priority, .. } => *priority,
            QueueEvent::Shutdown => Priority::System,
            QueueEvent::Sleep { .. } => Priority::System,
            _ => Priority::Normal,
        }
    }
}

/// The events of `s` with priority `p`, in order.
pub open spec fn of_priority(s: Seq<QueueEvent>, p: Priority) -> Seq<QueueEvent>
    decreases s.len(),
{
    if s.len() == 0 {
        Seq::empty()
    } else if event_priority(s.last()) == p {
        of_priority(s.drop_last(), p).push(s.last())
    } else {
        of_priority(s.drop_last(), p)
    }
}

/// The events in processing order: by priority, most urgent first, and in arrival order
/// among equals (a stable sort).
pub open spec fn by_urgency(s: Seq<QueueEvent>) -> Seq<QueueEvent> {
    of_priority(s, Priority::System) + of_priority(s, Priority::Human) + of_priority(
        s,
        Priority::Normal,
    )
}

/// Takes the next event to process from the buffered events: the buffer is put in processing
/// order and its first event is removed and returned.
pub fn take_next_event(buffer: &mut Vec<QueueEvent>) -> (next: Option<QueueEvent>)
    ensures
        old(buffer)@.len() == 0 ==> next is None && final(buffer)@.len() == 0,
        old(buffer)@.len() > 0 ==> next == Some(by_urgency(old(buffer)@)[0])
            && final(buffer)@ == by_urgency(old(buffer)@).drop_first(),
{
    let ghost orig = buffer@;
    let n = buffer.len();
    let mut all: Vec<QueueEvent> = Vec::new();
    std::mem::swap(&mut all, buffer);
    let mut sys: Vec<QueueEvent> = Vec::new();
    let mut hum: Vec<QueueEvent> = Vec::new();
    let mut norm: Vec<QueueEvent> = Vec::new();
    let mut k: usize = 0;
    proof {
        assert(orig.take(0) =~= Seq::<QueueEvent>::empty());
        assert(orig.skip(0) =~= orig);
    }
    while all.len() > 0
        invariant
            k <= orig.len(),
            orig.len() == n,
            all@ == orig.skip(k as int),
            sys@ == of_priority(orig.take(k as int), Priority::System),
            hum@ == of_priority(orig.take(k as int), Priority::Human),
            norm@ == of_priority(orig.take(k as int), Priority::Normal),
        decreases all@.len(),
    {
        let e = all.remove(0);
        proof {
            assert(orig.take(k + 1).drop_last() =~= orig.take(k as int));
            assert(orig.take(k + 1).last() == e);
            assert(orig.skip(k + 1) =~= orig.skip(k as int).drop_first());
        }
        match e.priority() {
            Priority::System => sys.push(e),
            Priority::Human => hum.push(e),
            Priority::Normal => norm.push(e),
        }
        k = k + 1;
    }
    proof {
        assert(orig.take(k as int) =~= orig);
    }
    sys.append(&mut hum);
    sys.append(&mut norm);
    assert(sys@ =~= by_urgency(orig));
    if sys.len() == 0 {
        proof {
            lemma_urgency_len(orig);
        }
        *buffer = sys;
        return None;
    }
    let first = sys.remove(0);
    *buffer = sys;
    proof {
        lemma_urgency_len(orig);
    }
    Some(first)
}

proof fn lemma_of_priority_len(s: Seq<QueueEvent>)
    ensures
        of_priority(s, Priority::System).len() + of_priority(s, Priority::Human).len()
            + of_priority(s, Priority::Normal).len() == s.len(),
    decreases s.len(),
{
    if s.len() > 0 {
        lemma_of_priority_len(s.drop_last());
    }
}

proof fn lemma_urgency_len(s: Seq<QueueEvent>)
    ensures
        by_urgency(s).len() == s.len(),
{
    lemma_of_priority_len(s);
}

proof fn lemma_of_priority_members(s: Seq<QueueEvent>, p: Priority)
    ensures
        forall|k: int|
            0 <= k < of_priority(s, p).len() ==> event_priority(#[trigger] of_priority(s, p)[k])
                == p && s.contains(of_priority(s, p)[k]),
    decreases s.len(),
{
    if s.len() > 0 {
        lemma_of_priority_members(s.drop_last(), p);
        assert forall|k: int| 0 <= k < of_priority(s, p).len() implies event_priority(
            #[trigger] of_priority(s, p)[k],
        ) == p && s.contains(of_priority(s, p)[k]) by {
            let r = of_priority(s.drop_last(), p);
            if k < r.len() {
                assert(of_priority(s, p)[k] == r[k]);
                let j = choose|j: int| 0 <= j < s.drop_last().len() && s.drop_last()[j] == r[k];
                assert(s[j] == r[k]);
            } else {
                assert(of_priority(s, p)[k] == s.last());
                assert(s[s.len() - 1] == s.last());
            }
        }
    }
}

proof fn lemma_of_priority_first(s: Seq<QueueEvent>, p: Priority) -> (j: int)
    requires
        of_priority(s, p).len() > 0,
    ensures
        0 <= j < s.len(),
        s[j] == of_priority(s, p)[0],
        event_priority(s[j]) == p,
        forall|i: int| 0 <= i < j ==> event_priority(#[trigger] s[i]) != p,
    decreases s.len(),
{
    let r = of_priority(s.drop_last(), p);
    if r.len() > 0 {
        let j = lemma_of_priority_first(s.drop_last(), p);
        assert(s[j] == s.drop_last()[j]);
        assert forall|i: int| 0 <= i < j implies event_priority(#[trigger] s[i]) != p by {
            assert(s[i] == s.drop_last()[i]);
        }
        j
    } else {
        let j = s.len() - 1;
        assert(s[j] == s.last());
        assert forall|i: int| 0 <= i < j implies event_priority(#[trigger] s[i]) != p by {
            if event_priority(s[i]) == p {
                assert(s.drop_last()[i] == s[i]);
                lemma_of_priority_has(s.drop_last(), p, i);
            }
        }
        j
    }
}

proof fn lemma_of_priority_has(s: Seq<QueueEvent>, p: Priority, i: int)
    requires
        0 <= i < s.len(),
        event_priority(s[i]) == p,
    ensures
        of_priority(s, p).len() > 0,
    decreases s.len(),
{
    if i < s.len() - 1 {
        assert(s.drop_last()[i] == s[i]);
        lemma_of_priority_has(s.drop_last(), p, i);
    }
}

/// The most urgent event, and the earliest among the equally urgent.
pub open spec fn most_urgent_earliest(s: Seq<QueueEvent>, e: QueueEvent) -> bool {
    &&& forall|i: int| 0 <= i < s.len() ==> rank(event_priority(#[trigger] s[i])) <= rank(
        event_priority(e),
    )
    &&& exists|j: int|
        0 <= j < s.len() && s[j] == e && forall|i: int|
            0 <= i < j ==> rank(event_priority(#[trigger] s[i])) < rank(event_priority(e))
}

proof fn lemma_none_of(s: Seq<QueueEvent>, p: Priority)
    requires
        of_priority(s, p).len() == 0,
    ensures
        forall|i: int| 0 <= i < s.len() ==> event_priority(#[trigger] s[i]) != p,
{
    assert forall|i: int| 0 <= i < s.len() implies event_priority(#[trigger] s[i]) != p by {
        if event_priority(s[i]) == p {
            lemma_of_priority_has(s, p, i);
        }
    }
}

proof fn lemma_urgent_class(s: Seq<QueueEvent>, p: Priority)
    requires
        of_priority(s, p).len() > 0,
        forall|i: int| 0 <= i < s.len() ==> rank(event_priority(#[trigger] s[i])) <= rank(p),
    ensures
        most_urgent_earliest(s, of_priority(s, p)[0]),
{
    let j = lemma_of_priority_first(s, p);
    assert forall|i: int| 0 <= i < j implies rank(event_priority(#[trigger] s[i])) < rank(
        event_priority(of_priority(s, p)[0]),
    ) by {
        assert(rank(event_priority(s[i])) <= rank(p));
        assert(event_priority(s[i]) != p);
    }
}

/// The event taken next is the most urgent one, and the earliest among the equally urgent.
pub proof fn lemma_next_is_most_urgent_earliest(s: Seq<QueueEvent>)
    requires
        s.len() > 0,
    ensures
        most_urgent_earliest(s, by_urgency(s)[0]),
{
    let sy = of_priority(s, Priority::System);
    let hu = of_priority(s, Priority::Human);
    let no = of_priority(s, Priority::Normal);
    lemma_urgency_len(s);
    if sy.len() > 0 {
        assert(by_urgency(s)[0] == sy[0]);
        lemma_urgent_class(s, Priority::System);
    } else if hu.len() > 0 {
        assert(by_urgency(s)[0] == hu[0]);
        lemma_none_of(s, Priority::System);
        lemma_urgent_class(s, Priority::Human);
    } else {
        assert(by_urgency(s)[0] == no[0]);
        lemma_none_of(s, Priority::System);
        lemma_none_of(s, Priority::Human);
        lemma_urgent_class(s, Priority::Normal);
    }
}

/// Events emitted to all connected clients.
#[derive(Debug, Clone)]
pub enum OutputEvent {
    Delta { session: String, content: String },
    Thinking { session: String, content: String },
    ToolCall { session: String, id: String, name: String },
    ToolCallDelta { session: String, id: String, arguments: String },
    ToolExecuting { session: String, id: String, name: String },
    ToolResult { session: String, id: String, name: String, result: String, is_error: bool },
    ToolParked { session: String, id: String, name: String },
    Done { session: String },
    Error { session: String, message: String },
    Sleep { session: String, token_count: usize },
    CtxUpdate { session: String, content: String },
}

/// The state of a tool execution.
#[derive(Debug, Clone, Copy, PartialEq, Eq, Structural)]
pub enum ToolState {
    Running,
    Parked,
    Completed,
    Cancelled,
}

} // verus!

verus! {

/// What the consumer loop does once a tool result is recorded.
#[derive(Debug, Clone, Copy, PartialEq, Eq, Structural)]
pub enum AfterToolResult {
    /// Other tools are still running, or a model call is in flight: nothing yet.
    Wait,
    /// All tools are done: start the next model call.
    StartLlmCall,
    /// All tools are done but the turn has used up its tool rounds: report the error and end
    /// the turn.
    TooManyToolRounds,
}

/// The bookkeeping of the consumer loop: the running tools, the model call in flight and the
/// tool rounds of the current turn.
pub struct LoopState {
    active_tools: Vec<String>,
    current_request_id: Option<String>,
    tool_iterations: usize,
    max_tool_iterations: usize,
}

impl LoopState {
    /// The ids of the running tools, in launch order.
    pub closed spec fn active(&self) -> Seq<Seq<char>> {
        strings_view(self.active_tools@)
    }

    /// The id of the model call in flight, if any.
    pub closed spec fn in_flight(&self) -> Option<Seq<char>> {
        match self.current_request_id {
            Some(r) => Some(r@),
            None => None,
        }
    }

    /// The tool rounds of the current turn.
    pub closed spec fn iterations(&self) -> nat {
        self.tool_iterations as nat
    }

    /// The most tool rounds a turn may take.
    pub closed spec fn max_iterations(&self) -> nat {
        self.max_tool_iterations as nat
    }

    /// No tool id occurs twice.
    pub closed spec fn wf(&self) -> bool {
        forall|i: int, j: int|
            0 <= i < j < self.active_tools@.len() ==> self.active_tools@[i]@
                != self.active_tools@[j]@
    }

    /// A state with nothing running.
    pub fn new(max_tool_iterations: usize) -> (s: Self)
        ensures
            s.wf(),
            s.active().len() == 0,
            s.in_flight() is None,
            s.iterations() == 0,
            s.max_iterations() == max_tool_iterations,
    {
        LoopState {
            active_tools: Vec::new(),
            current_request_id: None,
            tool_iterations: 0,
            max_tool_iterations,
        }
    }

    /// A human message arrived: every running tool is parked (their ids are returned, in
    /// launch order), the model call in flight is dropped and the turn starts over.
    pub fn on_human_message(&mut self) -> (parked: Vec<String>)
        requires
            old(self).wf(),
        ensures
            final(self).wf(),
            strings_view(parked@) == old(self).active(),
            final(self).active().len() == 0,
            final(self).in_flight() is None,
            final(self).iterations() == 0,
            final(self).max_iterations() == old(self).max_iterations(),
    {
        let mut parked: Vec<String> = Vec::new();
        std::mem::swap(&mut parked, &mut self.active_tools);
        self.current_request_id = None;
        self.tool_iterations = 0;
        assert(strings_view(self.active_tools@) =~= Seq::<Seq<char>>::empty());
        parked
    }

    /// A model call was started with the given request id.
    pub fn on_llm_call_started(&mut self, request_id: String)
        requires
            old(self).wf(),
        ensures
            final(self).wf(),
            final(self).in_flight() == Some(request_id@),
            final(self).active() == old(self).active(),
            final(self).iterations() == old(self).iterations(),
            final(self).max_iterations() == old(self).max_iterations(),
    {
        self.current_request_id = Some(request_id);
    }

    /// A model call finished. Returns whether its answer is current; a stale answer (from a
    /// call that was dropped or superseded) changes nothing and is to be ignored.
    pub fn on_llm_complete(&mut self, request_id: &String) -> (current: bool)
        requires
            old(self).wf(),
        ensures
            final(self).wf(),
            current == (old(self).in_flight() == Some(request_id@)),
            current ==> final(self).in_flight() is None,
            !current ==> final(self).in_flight() == old(self).in_flight(),
            final(self).active() == old(self).active(),
            final(self).iterations() == old(self).iterations(),
            final(self).max_iterations() == old(self).max_iterations(),
    {
        let current = match &self.current_request_id {
            Some(r) => *r == *request_id,
            None => false,
        };
        if current {
            self.current_request_id = None;
        }
        current
    }

    /// A tool was launched; launching an id that is already running replaces it.
    pub fn on_tool_launched(&mut self, id: String)
        requires
            old(self).wf(),
        ensures
            final(self).wf(),
            old(self).active().contains(id@) ==> final(self).active() == old(self).active(),
            !old(self).active().contains(id@) ==> final(self).active() == old(self).active().push(
                id@,
            ),
            final(self).in_flight() == old(self).in_flight(),
            final(self).iterations() == old(self).iterations(),
            final(self).max_iterations() == old(self).max_iterations(),
    {
        let mut i: usize = 0;
        while i < self.active_tools.len()
            invariant
                i <= self.active_tools@.len(),
                self.wf(),
                self.active_tools@ == old(self).active_tools@,
                self.current_request_id == old(self).current_request_id,
                self.tool_iterations == old(self).tool_iterations,
                self.max_tool_iterations == old(self).max_tool_iterations,
                forall|k: int| 0 <= k < i ==> self.active_tools@[k]@ != id@,
            decreases self.active_tools@.len() - i,
        {
            if self.active_tools[i] == id {
                assert(strings_view(self.active_tools@)[i as int] == id@);
                return;
            }
            i = i + 1;
        }
        proof {
            if strings_view(self.active_tools@).contains(id@) {
                let k = choose|k: int|
                    0 <= k < strings_view(self.active_tools@).len() && strings_view(
                        self.active_tools@,
                    )[k] == id@;
                assert(self.active_tools@[k]@ == id@);
            }
        }
        let ghost before = self.active_tools@;
        self.active_tools.push(id);
        assert(strings_view(self.active_tools@) =~= strings_view(before).push(id@));
    }

    /// A tool result was recorded: the tool leaves the running set; once no tool runs and no
    /// model call is in flight, the turn takes another tool round, unless it has used them
    /// all.
    pub fn on_tool_result(&mut self, tool_use_id: &String) -> (next: AfterToolResult)
        requires
            old(self).wf(),
            old(self).iterations() < usize::MAX,
        ensures
            final(self).wf(),
            final(self).active() == remove_id(old(self).active(), tool_use_id@),
            final(self).in_flight() == old(self).in_flight(),
            final(self).max_iterations() == old(self).max_iterations(),
            ({
                let idle = final(self).active().len() == 0 && old(self).in_flight() is None;
                &&& idle ==> final(self).iterations() == old(self).iterations() + 1
                &&& !idle ==> final(self).iterations() == old(self).iterations()
                &&& next == if !idle {
                    AfterToolResult::Wait
                } else if final(self).iterations() > final(self).max_iterations() {
                    AfterToolResult::TooManyToolRounds
                } else {
                    AfterToolResult::StartLlmCall
                }
            }),
    {
        let ghost before = self.active_tools@;
        let mut kept: Vec<String> = Vec::new();
        let mut all: Vec<String> = Vec::new();
        std::mem::swap(&mut all, &mut self.active_tools);
        let mut i: usize = 0;
        let n = all.len();
        assert(strings_view(before).take(0) =~= Seq::<Seq<char>>::empty());
        while all.len() > 0
            invariant
                i <= n,
                n == before.len(),
                all@ == before.skip(i as int),
                strings_view(kept@) == remove_id(strings_view(before).take(i as int), tool_use_id@),
                forall|a: int, b: int|
                    0 <= a < b < before.len() ==> before[a]@ != before[b]@,
                forall|k: int|
                    0 <= k < kept@.len() ==> exists|m: int|
                        0 <= m < i && #[trigger] kept@[k]@ == before[m]@,
                forall|a: int, b: int| 0 <= a < b < kept@.len() ==> kept@[a]@ != kept@[b]@,
            decreases all@.len(),
        {
            let t = all.remove(0);
            proof {
                assert(before.skip(i + 1) =~= before.skip(i as int).drop_first());
                assert(strings_view(before).take(i + 1).drop_last() =~= strings_view(before).take(
                    i as int,
                ));
                assert(strings_view(before).take(i + 1).last() == t@);
            }
            if t != *tool_use_id {
                let ghost kb = kept@;
                kept.push(t);
                proof {
                    assert(strings_view(kept@) =~= strings_view(kb).push(t@));
                    assert forall|a: int, b: int| 0 <= a < b < kept@.len() implies kept@[a]@
                        != kept@[b]@ by {
                        if b == kept@.len() - 1 {
                            let m = choose|m: int| 0 <= m < i && #[trigger] kept@[a]@ == before[m]@;
                            assert(before[i as int] == t);
                        }
                    }
                    assert forall|k: int| 0 <= k < kept@.len() implies exists|m: int|
                        0 <= m < i + 1 && #[trigger] kept@[k]@ == before[m]@ by {
                        if k == kept@.len() - 1 {
                            assert(kept@[k]@ == before[i as int]@);
                        } else {
                            let m = choose|m: int| 0 <= m < i && #[trigger] kept@[k]@ == before[m]@;
                            assert(kept@[k]@ == before[m]@);
                        }
                    }
                }
            }
            i = i + 1;
        }
        assert(strings_view(before).take(n as int) =~= strings_view(before));
        self.active_tools = kept;
        if self.active_tools.len() == 0 && self.current_request_id.is_none() {
            self.tool_iterations = self.tool_iterations + 1;
            if self.tool_iterations > self.max_tool_iterations {
                return AfterToolResult::TooManyToolRounds;
            }
            return AfterToolResult::StartLlmCall;
        }
        AfterToolResult::Wait
    }
}

/// `ids` without `id`.
pub open spec fn remove_id(ids: Seq<Seq<char>>, id: Seq<char>) -> Seq<Seq<char>>
    decreases ids.len(),
{
    if ids.len() == 0 {
        Seq::empty()
    } else if ids.last() == id {
        remove_id(ids.drop_last(), id)
    } else {
        remove_id(ids.drop_last(), id).push(ids.last())
    }
}

} // verus!
