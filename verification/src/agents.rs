//! The subagent registry: every spawned child agent under its purpose-hash name, with its
//! lifecycle (pause, resume and kill reach its children too), its output and its family links.
//! The entries live in a concurrent map; times are milliseconds given by the caller.

use vstd::prelude::*;
use dashmap::DashMap;
use crate::subagent::{
    status_text, completion_output, failure_output, hash_name, kept_output, prefix_cuttable, purpose_hash_name,
    purpose_clock_hash,
    SubagentInfo, SubagentStatus,
};
use crate::text::{byte_len, has_byte_cut, push_str, starts_with, lowercase, to_lowercase, str_starts_with};

verus! {

broadcast use vstd::string::group_string_axioms;

#[verifier::external_type_specification]
#[verifier::external_body]
#[verifier::reject_recursive_types(K)]
#[verifier::reject_recursive_types(V)]
#[verifier::reject_recursive_types(S)]
pub struct ExDashMap<K, V, S>(DashMap<K, V, S>);

/// What the registry keeps of a subagent.
#[derive(Clone, Debug)]
pub struct SubagentEntry {
    /// The purpose-hash name (e.g. `fix-slider-css-a3f9b`).
    pub name: String,
    pub purpose: String,
    /// The runtime session of the subagent.
    pub session_id: String,
    pub status: SubagentStatus,
    /// Token estimate, set on completion.
    pub tokens: usize,
    pub started_ms: u64,
    pub ended_ms: Option<u64>,
    /// The last output (at most 500 bytes kept).
    pub last_output: String,
    pub parent: Option<String>,
    pub children: Vec<String>,
    /// The subagent should wait before its next model call.
    pub is_paused: bool,
    pub kill_requested: bool,
}

/// What an entry holds, with texts as character sequences.
pub struct EntryView {
    pub name: Seq<char>,
    pub purpose: Seq<char>,
    pub session_id: Seq<char>,
    pub status: SubagentStatus,
    pub tokens: nat,
    pub started_ms: nat,
    pub ended_ms: Option<nat>,
    pub last_output: Seq<char>,
    pub parent: Option<Seq<char>>,
    pub children: Seq<Seq<char>>,
    pub is_paused: bool,
    pub kill_requested: bool,
}

/// The texts of a list of names.
pub open spec fn names_view(v: Seq<String>) -> Seq<Seq<char>> {
    v.map_values(|s: String| s@)
}

/// What an entry holds.
pub open spec fn entry_view(e: SubagentEntry) -> EntryView {
    EntryView {
        name: e.name@,
        purpose: e.purpose@,
        session_id: e.session_id@,
        status: e.status,
        tokens: e.tokens as nat,
        started_ms: e.started_ms as nat,
        ended_ms: match e.ended_ms {
            Some(t) => Some(t as nat),
            None => None,
        },
        last_output: e.last_output@,
        parent: match e.parent {
            Some(p) => Some(p@),
            None => None,
        },
        children: names_view(e.children@),
        is_paused: e.is_paused,
        kill_requested: e.kill_requested,
    }
}

/// The entries of the registry's map, by key.
pub uninterp spec fn agents_of(m: DashMap<String, SubagentEntry>) -> Map<Seq<char>, EntryView>;

/// `DashMap::new`: a map with no entries.
#[verifier::external_body]
fn table_new() -> (fresh: DashMap<String, SubagentEntry>)
    ensures
        agents_of(fresh).dom().len() == 0,
        agents_of(fresh).dom().finite(),
{
    DashMap::new()
}

/// `DashMap::get`: a copy of the entry under `key`, if there is one.
#[verifier::external_body]
fn table_get(m: &DashMap<String, SubagentEntry>, key: &str) -> (r: Option<SubagentEntry>)
    ensures
        match r {
            Some(e) => agents_of(*m).contains_key(key@) && entry_view(e) == agents_of(*m)[key@],
            None => !agents_of(*m).contains_key(key@),
        },
{
    match m.get(key) {
        Some(e) => Some(e.value().clone()),
        None => None,
    }
}

/// `DashMap::insert`: the entry under `key` becomes `e`, replacing any entry there.
#[verifier::external_body]
fn table_insert(m: &mut DashMap<String, SubagentEntry>, key: String, e: SubagentEntry)
    ensures
        agents_of(*final(m)) == agents_of(*old(m)).insert(key@, entry_view(e)),
{
    m.insert(key, e);
}

/// `DashMap::remove`: no entry is left under `key`.
#[verifier::external_body]
fn table_remove(m: &mut DashMap<String, SubagentEntry>, key: &str)
    ensures
        agents_of(*final(m)) == agents_of(*old(m)).remove(key@),
{
    m.remove(key);
}

/// `DashMap::iter`: every key with a copy of its entry, each once, in an order the map's hashing
/// decides.
#[verifier::external_body]
fn table_entries(m: &DashMap<String, SubagentEntry>) -> (v: Vec<(String, SubagentEntry)>)
    ensures
        forall|i: int|
            0 <= i < v@.len() ==> agents_of(*m).contains_key(#[trigger] v@[i].0@) && entry_view(
                v@[i].1,
            ) == agents_of(*m)[v@[i].0@],
        forall|k: Seq<char>|
            agents_of(*m).contains_key(k) ==> exists|i: int| 0 <= i < v@.len() && #[trigger] v@[i].0@ == k,
        forall|i: int, j: int| 0 <= i < j < v@.len() ==> v@[i].0@ != v@[j].0@,
{
    m.iter().map(|r| (r.key().clone(), r.value().clone())).collect()
}

/// The tracked subagents.
pub struct SubagentRegistry {
    agents: DashMap<String, SubagentEntry>,
}

impl View for SubagentRegistry {
    type V = Map<Seq<char>, EntryView>;

    closed spec fn view(&self) -> Map<Seq<char>, EntryView> {
        agents_of(self.agents)
    }
}

/// A fresh entry for a subagent just registered.
pub open spec fn fresh_entry(
    name: Seq<char>,
    purpose: Seq<char>,
    session_id: Seq<char>,
    parent: Option<Seq<char>>,
    now: nat,
) -> EntryView {
    EntryView {
        name,
        purpose,
        session_id,
        status: SubagentStatus::Running,
        tokens: 0,
        started_ms: now,
        ended_ms: None,
        last_output: Seq::empty(),
        parent,
        children: Seq::empty(),
        is_paused: false,
        kill_requested: false,
    }
}

/// The "not found" error of a name.
pub open spec fn not_found_text(name: Seq<char>) -> Seq<char> {
    "Subagent '"@ + name + "' not found"@
}

/// The text of an optional name.
pub open spec fn opt_text(o: Option<&str>) -> Option<Seq<char>> {
    match o {
        Some(s) => Some(s@),
        None => None,
    }
}

impl SubagentRegistry {
    /// The map is finite and every entry is kept under its own name.
    pub open spec fn wf(&self) -> bool {
        &&& self@.dom().finite()
        &&& forall|k: Seq<char>| #[trigger] self@.contains_key(k) ==> self@[k].name == k
    }

    /// An empty registry.
    pub fn new() -> (r: Self)
        ensures
            r.wf(),
            r@ == Map::<Seq<char>, EntryView>::empty(),
    {
        SubagentRegistry { agents: table_new() }
    }

    /// Registers a new subagent for `purpose`, running since `now_ms`, and returns its
    /// purpose-hash name; the parent, when it is registered, lists the new name among its
    /// children.
    pub fn register(
        &mut self,
        purpose: &str,
        session_id: &str,
        parent: Option<&str>,
        now_ms: u64,
    ) -> (name: String)
        requires
            old(self).wf(),
            prefix_cuttable(purpose@),
        ensures
            final(self).wf(),
            exists|clock: Seq<u8>|
                clock.len() == 16 && name@ == hash_name(purpose@, purpose_clock_hash(purpose@, clock) as nat),
            ({
                let linked = match parent {
                    Some(p) => if old(self)@.contains_key(p@) {
                        old(self)@.insert(
                            p@,
                            EntryView {
                                children: old(self)@[p@].children.push(name@),
                                ..old(self)@[p@]
                            },
                        )
                    } else {
                        old(self)@
                    },
                    None => old(self)@,
                };
                final(self)@ == linked.insert(
                    name@,
                    fresh_entry(name@, purpose@, session_id@, opt_text(parent), now_ms as nat),
                )
            }),
    {
        let name = purpose_hash_name(purpose);
        let entry = SubagentEntry {
            name: name.clone(),
            purpose: purpose.to_owned(),
            session_id: session_id.to_owned(),
            status: SubagentStatus::Running,
            tokens: 0,
            started_ms: now_ms,
            ended_ms: None,
            last_output: String::new(),
            parent: match parent {
                Some(p) => Some(p.to_owned()),
                None => None,
            },
            children: Vec::new(),
            is_paused: false,
            kill_requested: false,
        };
        if let Some(p) = parent {
            if let Some(mut pe) = table_get(&self.agents, p) {
                let ghost before = pe.children@;
                pe.children.push(name.clone());
                assert(names_view(pe.children@) =~= names_view(before).push(name@));
                table_insert(&mut self.agents, p.to_owned(), pe);
            }
        }
        assert(names_view(entry.children@) =~= Seq::<Seq<char>>::empty());
        table_insert(&mut self.agents, name.clone(), entry);
        name
    }

    /// Marks a subagent complete at `now_ms` with its output (cut to 500 bytes) and token count;
    /// nothing happens for an unknown name.
    pub fn mark_complete(&mut self, name: &str, output: &str, tokens: usize, now_ms: u64)
        requires
            old(self).wf(),
            byte_len(output@) <= 500 || has_byte_cut(output@, 497),
        ensures
            final(self).wf(),
            old(self)@.contains_key(name@) ==> final(self)@ == old(self)@.insert(
                name@,
                EntryView {
                    status: SubagentStatus::Complete,
                    tokens: tokens as nat,
                    ended_ms: Some(now_ms as nat),
                    last_output: kept_output(output@),
                    ..old(self)@[name@]
                },
            ),
            !old(self)@.contains_key(name@) ==> final(self)@ == old(self)@,
    {
        if let Some(mut e) = table_get(&self.agents, name) {
            e.status = SubagentStatus::Complete;
            e.tokens = tokens;
            e.ended_ms = Some(now_ms);
            e.last_output = completion_output(output);
            table_insert(&mut self.agents, name.to_owned(), e);
        }
    }

    /// Marks a subagent failed at `now_ms`, keeping "ERROR: " and the error as its output;
    /// nothing happens for an unknown name.
    pub fn mark_failed(&mut self, name: &str, error: &str, now_ms: u64)
        requires
            old(self).wf(),
        ensures
            final(self).wf(),
            old(self)@.contains_key(name@) ==> final(self)@ == old(self)@.insert(
                name@,
                EntryView {
                    status: SubagentStatus::Failed,
                    ended_ms: Some(now_ms as nat),
                    last_output: "ERROR: "@ + error@,
                    ..old(self)@[name@]
                },
            ),
            !old(self)@.contains_key(name@) ==> final(self)@ == old(self)@,
    {
        if let Some(mut e) = table_get(&self.agents, name) {
            e.status = SubagentStatus::Failed;
            e.ended_ms = Some(now_ms);
            e.last_output = failure_output(error);
            table_insert(&mut self.agents, name.to_owned(), e);
        }
    }

    /// Whether a subagent should wait before its next model call (false for an unknown name).
    pub fn is_paused(&self, name: &str) -> (b: bool)
        ensures
            b == (self@.contains_key(name@) && self@[name@].is_paused),
    {
        match table_get(&self.agents, name) {
            Some(e) => e.is_paused,
            None => false,
        }
    }

    /// Whether a subagent has been killed (false for an unknown name).
    pub fn is_killed(&self, name: &str) -> (b: bool)
        ensures
            b == (self@.contains_key(name@) && self@[name@].kill_requested),
    {
        match table_get(&self.agents, name) {
            Some(e) => e.kill_requested,
            None => false,
        }
    }
}


/// The lifecycle controls that reach a subagent's children too.
#[derive(Clone, Copy, Debug, PartialEq, Eq, Structural)]
pub enum Control {
    Pause,
    Resume,
    Kill,
}

/// Whether a control applies to a subagent in state `s`: pause to a running one, resume to a
/// paused one, kill to one that has not ended.
pub open spec fn applies(c: Control, s: SubagentStatus) -> bool {
    match c {
        Control::Pause => s == SubagentStatus::Running,
        Control::Resume => s == SubagentStatus::Paused,
        Control::Kill => !(s == SubagentStatus::Complete || s == SubagentStatus::Failed || s
            == SubagentStatus::Killed),
    }
}

/// An entry after a control: paused (and told to wait), running again, or killed at `now`.
pub open spec fn controlled(c: Control, e: EntryView, now: nat) -> EntryView {
    match c {
        Control::Pause => EntryView { status: SubagentStatus::Paused, is_paused: true, ..e },
        Control::Resume => EntryView { status: SubagentStatus::Running, is_paused: false, ..e },
        Control::Kill => EntryView {
            status: SubagentStatus::Killed,
            kill_requested: true,
            ended_ms: Some(now),
            ..e
        },
    }
}

/// The error of a control that does not apply to a subagent in state `s`.
pub open spec fn refusal_text(c: Control, name: Seq<char>, s: SubagentStatus) -> Seq<char> {
    let label = status_text(s);
    match c {
        Control::Pause => "Subagent '"@ + name + "' is not running (status: "@ + label + ")"@,
        Control::Resume => "Subagent '"@ + name + "' is not paused (status: "@ + label + ")"@,
        Control::Kill => "Subagent '"@ + name + "' already terminated (status: "@ + label + ")"@,
    }
}


/// The subagents a control still applies to.
pub open spec fn applicable(c: Control, m: Map<Seq<char>, EntryView>) -> Set<Seq<char>> {
    m.dom().filter(|k: Seq<char>| applies(c, m[k].status))
}

/// Entry `k` differs between two maps.
pub open spec fn changed(a: Map<Seq<char>, EntryView>, b: Map<Seq<char>, EntryView>, k: Seq<char>) -> bool {
    a.contains_key(k) && b.contains_key(k) && a[k] != b[k]
}

/// What a control step may do to the map: the same names; an entry changes only from a state
/// the control applies to, into its controlled form.
pub open spec fn controls_only(c: Control, a: Map<Seq<char>, EntryView>, b: Map<Seq<char>, EntryView>, now: nat) -> bool {
    &&& a.dom() == b.dom()
    &&& forall|k: Seq<char>|
        #[trigger] changed(a, b, k) ==> applies(c, a[k].status) && b[k] == controlled(c, a[k], now)
}

/// The cascade is complete: the children of every entry that changed are ones the control no
/// longer applies to (or are not registered).
pub open spec fn cascade_closed(c: Control, a: Map<Seq<char>, EntryView>, b: Map<Seq<char>, EntryView>, except: Option<Seq<char>>) -> bool {
    forall|k: Seq<char>, x: Seq<char>|
        #[trigger] changed(a, b, k) && Some(k) != except && #[trigger] b[k].children.contains(x) && b.contains_key(x)
            ==> !applies(c, b[x].status)
}

/// `rank` orders the changes: every entry that changed, other than `root`, is a child of an
/// entry that changed with a lower rank.
pub open spec fn ranked_by(
    a: Map<Seq<char>, EntryView>,
    b: Map<Seq<char>, EntryView>,
    root: Seq<char>,
    rank: spec_fn(Seq<char>) -> nat,
) -> bool {
    forall|k: Seq<char>|
        #[trigger] changed(a, b, k) && k != root ==> exists|j: Seq<char>|
            #[trigger] changed(a, b, j) && b[j].children.contains(k) && rank(j) < rank(k)
}

/// Every entry that changed is reached from `root` through a chain of changed entries, each a
/// child of the one before.
pub open spec fn cascade_rooted(a: Map<Seq<char>, EntryView>, b: Map<Seq<char>, EntryView>, root: Seq<char>) -> bool {
    exists|rank: spec_fn(Seq<char>) -> nat| ranked_by(a, b, root, rank)
}

/// What a control does, by the map before (`a`) and after (`b`): an unknown name or a subagent
/// the control does not apply to is refused with its message and nothing changes; otherwise the
/// subagent takes its controlled form, every entry that changes is one the control applied to,
/// now in its controlled form, the children of every changed entry are left out of the
/// control's reach, and every changed entry but the named one is a child of a changed entry.
pub open spec fn control_done(
    c: Control,
    a: Map<Seq<char>, EntryView>,
    b: Map<Seq<char>, EntryView>,
    name: Seq<char>,
    r: Result<(), String>,
    now: nat,
) -> bool {
    &&& !a.contains_key(name) ==> (r matches Err(m) && m@ == not_found_text(name) && b == a)
    &&& a.contains_key(name) && !applies(c, a[name].status) ==> (r matches Err(m) && m@
        == refusal_text(c, name, a[name].status) && b == a)
    &&& a.contains_key(name) && applies(c, a[name].status) ==> (r is Ok && b[name] == controlled(
        c,
        a[name],
        now,
    ))
    &&& controls_only(c, a, b, now)
    &&& cascade_closed(c, a, b, None)
    &&& cascade_rooted(a, b, name)
}

proof fn lemma_controlled_done(c: Control, e: EntryView, now: nat)
    ensures
        !applies(c, controlled(c, e, now).status),
        controlled(c, e, now) != e || !applies(c, e.status),
        controlled(c, e, now).children == e.children,
        controlled(c, e, now).name == e.name,
{
}

/// Control steps never make a control apply to more subagents.
proof fn lemma_applicable_shrinks(c: Control, a: Map<Seq<char>, EntryView>, b: Map<Seq<char>, EntryView>, now: nat)
    requires
        a.dom().finite(),
        controls_only(c, a, b, now),
    ensures
        applicable(c, b).subset_of(applicable(c, a)),
        applicable(c, b).len() <= applicable(c, a).len(),
{
    assert forall|k: Seq<char>| applicable(c, b).contains(k) implies applicable(c, a).contains(k) by {
        if changed(a, b, k) {
            lemma_controlled_done(c, a[k], now);
        }
    }
    vstd::set_lib::lemma_len_subset(applicable(c, b), applicable(c, a));
}

/// The changes of two control steps in a row.
proof fn lemma_controls_compose(c: Control, a: Map<Seq<char>, EntryView>, b: Map<Seq<char>, EntryView>, d: Map<Seq<char>, EntryView>, now: nat)
    requires
        controls_only(c, a, b, now),
        controls_only(c, b, d, now),
    ensures
        controls_only(c, a, d, now),
        forall|k: Seq<char>| #[trigger] changed(a, d, k) ==> changed(a, b, k) || changed(b, d, k),
        forall|k: Seq<char>| #[trigger] changed(b, d, k) ==> b[k] == a[k],
{
    assert forall|k: Seq<char>| #[trigger] changed(b, d, k) implies b[k] == a[k] by {
        if changed(a, b, k) {
            lemma_controlled_done(c, a[k], now);
        }
    }
    assert forall|k: Seq<char>| #[trigger] changed(a, d, k) implies applies(c, a[k].status) && d[k] == controlled(c, a[k], now) by {
        assert(b.contains_key(k));
        lemma_controlled_done(c, a[k], now);
        if changed(a, b, k) {
            assert(!changed(b, d, k));
            assert(d[k] == b[k]);
        } else {
            assert(b[k] == a[k]);
            assert(changed(b, d, k));
        }
    }
}

/// A pause, resume or kill that applies to a subagent reaches each of its registered children
/// that it applies to: the child ends in its controlled form.
pub proof fn lemma_control_reaches_children(
    c: Control,
    a: Map<Seq<char>, EntryView>,
    b: Map<Seq<char>, EntryView>,
    name: Seq<char>,
    r: Result<(), String>,
    now: nat,
    child: Seq<char>,
)
    requires
        control_done(c, a, b, name, r, now),
        a.contains_key(name),
        applies(c, a[name].status),
        a[name].children.contains(child),
        a.contains_key(child),
        applies(c, a[child].status),
    ensures
        b[child] == controlled(c, a[child], now),
{
    lemma_controlled_done(c, a[name], now);
    assert(changed(a, b, name));
    assert(b[name].children.contains(child));
    if !changed(a, b, child) {
        assert(b[child] == a[child]);
    }
}

impl SubagentRegistry {
    /// Pauses, resumes or kills a subagent and, through it, its children: the control is
    /// refused for an unknown name or a subagent it does not apply to; otherwise the subagent
    /// changes, and each child is then controlled in turn (their refusals ignored).
    pub fn control(&mut self, c: Control, name: &str, now_ms: u64) -> (r: Result<(), String>)
        requires
            old(self).wf(),
        ensures
            final(self).wf(),
            control_done(c, old(self)@, final(self)@, name@, r, now_ms as nat),
        decreases applicable(c, old(self)@).len(),
    {
        let entry = match table_get(&self.agents, name) {
            Some(e) => e,
            None => {
                let mut m = String::new();
                push_str(&mut m, "Subagent '");
                push_str(&mut m, name);
                push_str(&mut m, "' not found");
                assert(ranked_by(self@, self@, name@, |k: Seq<char>| 0nat));
                return Err(m);
            },
        };
        let ghost orig = self@;
        let applies_now = match c {
            Control::Pause => entry.status == SubagentStatus::Running,
            Control::Resume => entry.status == SubagentStatus::Paused,
            Control::Kill => !entry.status.is_terminal(),
        };
        if !applies_now {
            let mut m = String::new();
            push_str(&mut m, "Subagent '");
            push_str(&mut m, name);
            match c {
                Control::Pause => push_str(&mut m, "' is not running (status: "),
                Control::Resume => push_str(&mut m, "' is not paused (status: "),
                Control::Kill => push_str(&mut m, "' already terminated (status: "),
            }
            push_str(&mut m, entry.status.label());
            push_str(&mut m, ")");
            assert(ranked_by(self@, self@, name@, |k: Seq<char>| 0nat));
            return Err(m);
        }
        let children = entry.children.clone();
        proof {
            assert forall|j: int| 0 <= j < children@.len() implies children@[j] == entry.children@[j] by {
                assert(cloned::<String>(entry.children[j], children[j]));
            }
            assert(names_view(children@) =~= names_view(entry.children@));
        }
        let mut updated = entry;
        match c {
            Control::Pause => {
                updated.is_paused = true;
                updated.status = SubagentStatus::Paused;
            },
            Control::Resume => {
                updated.is_paused = false;
                updated.status = SubagentStatus::Running;
            },
            Control::Kill => {
                updated.kill_requested = true;
                updated.status = SubagentStatus::Killed;
                updated.ended_ms = Some(now_ms);
            },
        }
        table_insert(&mut self.agents, name.to_owned(), updated);
        proof {
            lemma_controlled_done(c, orig[name@], now_ms as nat);
            assert(self@ =~= orig.insert(name@, controlled(c, orig[name@], now_ms as nat)));
            assert(self@.dom() =~= orig.dom());
            assert(applicable(c, self@) =~= applicable(c, orig).remove(name@));
            assert(ranked_by(orig, self@, name@, |k: Seq<char>| 0nat));
        }
        let mut i: usize = 0;
        while i < children.len()
            invariant
                self.wf(),
                orig == old(self)@,
                orig.dom().finite(),
                orig.contains_key(name@),
                applies(c, orig[name@].status),
                self@[name@] == controlled(c, orig[name@], now_ms as nat),
                names_view(children@) == orig[name@].children,
                i <= children@.len(),
                controls_only(c, orig, self@, now_ms as nat),
                cascade_closed(c, orig, self@, Some(name@)),
                cascade_rooted(orig, self@, name@),
                forall|j: int|
                    0 <= j < i && self@.contains_key(#[trigger] names_view(children@)[j]) ==> !applies(
                        c,
                        self@[names_view(children@)[j]].status,
                    ),
                applicable(c, self@).len() < applicable(c, orig).len(),
            decreases children@.len() - i,
        {
            let ghost before = self@;
            let child = children[i].as_str();
            proof {
                lemma_applicable_shrinks(c, orig, before, now_ms as nat);
            }
            let _ = self.control(c, child, now_ms);
            proof {
                let after = self@;
                lemma_controls_compose(c, orig, before, after, now_ms as nat);
                lemma_applicable_shrinks(c, before, after, now_ms as nat);
                assert(names_view(children@)[i as int] == child@);
                // The subagent itself stays as it was controlled.
                lemma_controlled_done(c, orig[name@], now_ms as nat);
                assert(!changed(before, after, name@));
                // Children controlled before stay out of reach of the control.
                assert forall|j: int|
                    0 <= j < i + 1 && after.contains_key(#[trigger] names_view(children@)[j]) implies !applies(
                    c,
                    after[names_view(children@)[j]].status,
                ) by {
                    let x = names_view(children@)[j];
                    if j < i {
                        assert(!changed(before, after, x));
                    }
                }
                assert forall|k: Seq<char>, x: Seq<char>|
                    #[trigger] changed(orig, after, k) && Some(k) != Some(name@) && #[trigger] after[k].children.contains(x)
                        && after.contains_key(x) implies !applies(c, after[x].status) by {
                    lemma_controlled_done(c, orig[k], now_ms as nat);
                    if changed(orig, before, k) {
                        assert(before[k].children.contains(x));
                        assert(!changed(before, after, x));
                    }
                }
                let rank1 = choose|r: spec_fn(Seq<char>) -> nat| ranked_by(orig, before, name@, r);
                let rank2 = choose|r: spec_fn(Seq<char>) -> nat| ranked_by(before, after, child@, r);
                let rank3 = |k: Seq<char>|
                    if changed(before, after, k) {
                        rank1(name@) + 1 + rank2(k)
                    } else {
                        rank1(k)
                    };
                assert forall|k: Seq<char>| #[trigger] changed(orig, after, k) && k != name@ implies exists|j: Seq<char>|
                    #[trigger] changed(orig, after, j) && after[j].children.contains(k) && rank3(j) < rank3(k) by {
                    if changed(orig, before, k) {
                        let j = choose|j: Seq<char>| #[trigger] changed(orig, before, j) && before[j].children.contains(k) && rank1(j) < rank1(k);
                        lemma_controlled_done(c, orig[j], now_ms as nat);
                        lemma_controlled_done(c, orig[k], now_ms as nat);
                        assert(after.contains_key(j));
                        assert(!changed(before, after, j));
                        assert(!changed(before, after, k));
                        assert(after[j] == before[j]);
                        assert(changed(orig, after, j));
                    } else if k == child@ {
                        assert(orig[name@].children.contains(k)) by {
                            assert(orig[name@].children[i as int] == k);
                        }
                        assert(before[k] == orig[k]);
                        assert(changed(before, after, k));
                        assert(changed(orig, after, name@));
                    } else {
                        assert(before[k] == orig[k]);
                        assert(changed(before, after, k));
                        let j = choose|j: Seq<char>| #[trigger] changed(before, after, j) && after[j].children.contains(k) && rank2(j) < rank2(k);
                        lemma_controlled_done(c, before[j], now_ms as nat);
                        lemma_controlled_done(c, orig[j], now_ms as nat);
                        if changed(orig, before, j) {
                            assert(!applies(c, before[j].status));
                        }
                        assert(before[j] == orig[j]);
                        assert(changed(orig, after, j));
                    }
                }
                assert(ranked_by(orig, after, name@, rank3));
            }
            i = i + 1;
        }
        proof {
            assert forall|k: Seq<char>, x: Seq<char>|
                #[trigger] changed(orig, self@, k) && Some(k) != None::<Seq<char>> && #[trigger] self@[k].children.contains(x)
                    && self@.contains_key(x) implies !applies(c, self@[x].status) by {
                if k == name@ {
                    lemma_controlled_done(c, orig[name@], now_ms as nat);
                    let j = choose|j: int| 0 <= j < self@[k].children.len() && self@[k].children[j] == x;
                    assert(names_view(children@)[j] == x);
                }
            }
        }
        Ok(())
    }
}



/// Milliseconds from `start` to `now`, 0 when `now` comes first.
pub open spec fn elapsed(now: nat, start: nat) -> nat {
    if now >= start {
        (now - start) as nat
    } else {
        0
    }
}

/// `info` shows entry `e` as seen at `now`.
pub open spec fn info_shows(info: SubagentInfo, e: EntryView, now: nat) -> bool {
    &&& info.name@ == e.name
    &&& info.purpose@ == e.purpose
    &&& info.status == e.status
    &&& info.tokens as nat == e.tokens
    &&& info.elapsed_ms as nat == elapsed(now, e.started_ms)
    &&& info.last_output@ == e.last_output
    &&& names_view(info.children@) == e.children
    &&& opt_string_text(info.parent) == e.parent
}

/// The text of an optional owned name.
pub open spec fn opt_string_text(o: Option<String>) -> Option<Seq<char>> {
    match o {
        Some(s) => Some(s@),
        None => None,
    }
}

/// A finished subagent (completed, failed or killed) that ended more than `max_age`
/// milliseconds before `now`.
pub open spec fn expired(e: EntryView, now: nat, max_age: nat) -> bool {
    &&& (e.status == SubagentStatus::Complete || e.status == SubagentStatus::Failed || e.status
        == SubagentStatus::Killed)
    &&& e.ended_ms matches Some(t) && elapsed(now, t) > max_age
}

/// A copy of a list of names.
fn copy_names(v: &Vec<String>) -> (r: Vec<String>)
    ensures
        names_view(r@) == names_view(v@),
{
    let r = v.clone();
    proof {
        assert forall|j: int| 0 <= j < r@.len() implies r@[j] == v@[j] by {
            assert(cloned::<String>(v[j], r[j]));
        }
        assert(names_view(r@) =~= names_view(v@));
    }
    r
}

/// The snapshot of an entry at `now_ms`.
fn info_of(e: &SubagentEntry, now_ms: u64) -> (info: SubagentInfo)
    ensures
        info_shows(info, entry_view(*e), now_ms as nat),
{
    SubagentInfo {
        name: e.name.clone(),
        purpose: e.purpose.clone(),
        status: e.status,
        tokens: e.tokens,
        elapsed_ms: if now_ms >= e.started_ms {
            now_ms - e.started_ms
        } else {
            0
        },
        last_output: e.last_output.clone(),
        children: copy_names(&e.children),
        parent: match &e.parent {
            Some(p) => Some(p.clone()),
            None => None,
        },
    }
}

impl SubagentRegistry {
    /// Pauses a running subagent and, through it, its running children.
    pub fn pause(&mut self, name: &str) -> (r: Result<(), String>)
        requires
            old(self).wf(),
        ensures
            final(self).wf(),
            control_done(Control::Pause, old(self)@, final(self)@, name@, r, 0),
    {
        self.control(Control::Pause, name, 0)
    }

    /// Resumes a paused subagent and, through it, its paused children.
    pub fn resume(&mut self, name: &str) -> (r: Result<(), String>)
        requires
            old(self).wf(),
        ensures
            final(self).wf(),
            control_done(Control::Resume, old(self)@, final(self)@, name@, r, 0),
    {
        self.control(Control::Resume, name, 0)
    }

    /// Kills a subagent that has not ended and, through it, its children, at `now_ms`.
    pub fn kill(&mut self, name: &str, now_ms: u64) -> (r: Result<(), String>)
        requires
            old(self).wf(),
        ensures
            final(self).wf(),
            control_done(Control::Kill, old(self)@, final(self)@, name@, r, now_ms as nat),
    {
        self.control(Control::Kill, name, now_ms)
    }

    /// A snapshot of one subagent at `now_ms`, or the "not found" error.
    pub fn query(&self, name: &str, now_ms: u64) -> (r: Result<SubagentInfo, String>)
        ensures
            self@.contains_key(name@) <==> r is Ok,
            r matches Ok(info) ==> info_shows(info, self@[name@], now_ms as nat),
            r matches Err(m) ==> m@ == not_found_text(name@),
    {
        match table_get(&self.agents, name) {
            Some(e) => Ok(info_of(&e, now_ms)),
            None => {
                let mut m = String::new();
                push_str(&mut m, "Subagent '");
                push_str(&mut m, name);
                push_str(&mut m, "' not found");
                Err(m)
            },
        }
    }

    /// Snapshots of all subagents at `now_ms`, each once, in no promised order.
    pub fn list(&self, now_ms: u64) -> (v: Vec<SubagentInfo>)
        requires
            self.wf(),
        ensures
            v@.len() == self@.dom().len(),
            forall|i: int|
                0 <= i < v@.len() ==> self@.contains_key(#[trigger] v@[i].name@) && info_shows(
                    v@[i],
                    self@[v@[i].name@],
                    now_ms as nat,
                ),
            forall|k: Seq<char>|
                #[trigger] self@.contains_key(k) ==> exists|i: int| 0 <= i < v@.len() && v@[i].name@ == k,
            forall|i: int, j: int| 0 <= i < j < v@.len() ==> v@[i].name@ != v@[j].name@,
    {
        let entries = table_entries(&self.agents);
        let mut v: Vec<SubagentInfo> = Vec::new();
        let mut i: usize = 0;
        while i < entries.len()
            invariant
                self.wf(),
                i <= entries@.len(),
                v@.len() == i,
                forall|j: int|
                    0 <= j < entries@.len() ==> self@.contains_key(#[trigger] entries@[j].0@)
                        && entry_view(entries@[j].1) == self@[entries@[j].0@],
                forall|j: int| 0 <= j < i ==> #[trigger] v@[j].name@ == entries@[j].0@,
                forall|j: int|
                    0 <= j < i ==> info_shows(#[trigger] v@[j], self@[entries@[j].0@], now_ms as nat),
            decreases entries@.len() - i,
        {
            let ghost k = entries@[i as int].0@;
            assert(self@.contains_key(k));
            v.push(info_of(&entries[i].1, now_ms));
            i = i + 1;
        }
        proof {
            let names = v@.map_values(|info: SubagentInfo| info.name@);
            assert forall|a: int, b: int| 0 <= a < b < v@.len() implies v@[a].name@ != v@[b].name@ by {
                assert(v@[a].name@ == entries@[a].0@);
                assert(v@[b].name@ == entries@[b].0@);
            }
            assert forall|k: Seq<char>| #[trigger] self@.contains_key(k) implies exists|j: int|
                0 <= j < v@.len() && v@[j].name@ == k by {
                let j = choose|j: int| 0 <= j < entries@.len() && #[trigger] entries@[j].0@ == k;
                assert(v@[j].name@ == k);
            }
            assert(names.no_duplicates()) by {
                assert forall|a: int, b: int| 0 <= a < names.len() && 0 <= b < names.len() && a != b implies names[a] != names[b] by {
                    if a < b {
                        assert(v@[a].name@ != v@[b].name@);
                    } else {
                        assert(v@[b].name@ != v@[a].name@);
                    }
                }
            }
            assert(names.to_set() =~= self@.dom()) by {
                assert forall|k: Seq<char>| names.to_set().contains(k) implies self@.dom().contains(k) by {
                    let j = choose|j: int| 0 <= j < names.len() && names[j] == k;
                    assert(v@[j].name@ == k);
                }
                assert forall|k: Seq<char>| self@.dom().contains(k) implies names.to_set().contains(k) by {
                    assert(self@.contains_key(k));
                    let j = choose|j: int| 0 <= j < v@.len() && v@[j].name@ == k;
                    assert(names[j] == k);
                }
            }
            names.unique_seq_to_set();
        }
        v
    }

    /// Removes the finished subagents that ended more than `max_age_ms` before `now_ms`.
    pub fn gc(&mut self, now_ms: u64, max_age_ms: u64)
        requires
            old(self).wf(),
        ensures
            final(self).wf(),
            final(self)@ == old(self)@.restrict(
                old(self)@.dom().filter(|k: Seq<char>| !expired(old(self)@[k], now_ms as nat, max_age_ms as nat)),
            ),
    {
        let ghost orig = self@;
        let entries = table_entries(&self.agents);
        let mut i: usize = 0;
        while i < entries.len()
            invariant
                self.wf(),
                orig == old(self)@,
                orig.dom().finite(),
                i <= entries@.len(),
                forall|j: int|
                    0 <= j < entries@.len() ==> orig.contains_key(#[trigger] entries@[j].0@)
                        && entry_view(entries@[j].1) == orig[entries@[j].0@],
                forall|k: Seq<char>|
                    orig.contains_key(k) ==> exists|j: int| 0 <= j < entries@.len() && #[trigger] entries@[j].0@ == k,
                forall|k: Seq<char>| #[trigger] self@.contains_key(k) ==> orig.contains_key(k) && self@[k] == orig[k],
                forall|k: Seq<char>|
                    #[trigger] orig.contains_key(k) ==> (self@.contains_key(k) <==> !(expired(
                        orig[k],
                        now_ms as nat,
                        max_age_ms as nat,
                    ) && exists|j: int| 0 <= j < i && #[trigger] entries@[j].0@ == k)),
            decreases entries@.len() - i,
        {
            let e = &entries[i].1;
            let done = match e.status {
                SubagentStatus::Complete | SubagentStatus::Failed | SubagentStatus::Killed => true,
                _ => false,
            };
            let old_enough = match e.ended_ms {
                Some(t) => {
                    let age: u64 = if now_ms >= t {
                        now_ms - t
                    } else {
                        0
                    };
                    age > max_age_ms
                },
                None => false,
            };
            let ghost before = self@;
            let ghost key = entries@[i as int].0@;
            if done && old_enough {
                table_remove(&mut self.agents, entries[i].0.as_str());
            }
            proof {
                assert(expired(orig[key], now_ms as nat, max_age_ms as nat) == (done && old_enough));
                assert forall|k: Seq<char>|
                    #[trigger] orig.contains_key(k) implies (self@.contains_key(k) <==> !(expired(
                        orig[k],
                        now_ms as nat,
                        max_age_ms as nat,
                    ) && exists|j: int| 0 <= j < i + 1 && #[trigger] entries@[j].0@ == k)) by {
                    if k == key {
                        assert(entries@[i as int].0@ == k);
                    } else {
                        if exists|j: int| 0 <= j < i + 1 && #[trigger] entries@[j].0@ == k {
                            let j = choose|j: int| 0 <= j < i + 1 && #[trigger] entries@[j].0@ == k;
                            assert(j < i);
                        }
                    }
                }
            }
            i = i + 1;
        }
        proof {
            let keep = orig.dom().filter(|k: Seq<char>| !expired(orig[k], now_ms as nat, max_age_ms as nat));
            assert forall|k: Seq<char>| #[trigger] orig.contains_key(k) implies (self@.contains_key(k) <==> !expired(orig[k], now_ms as nat, max_age_ms as nat)) by {
                let j = choose|j: int| 0 <= j < entries@.len() && #[trigger] entries@[j].0@ == k;
                assert(entries@[j].0@ == k);
            }
            assert(self@ =~= orig.restrict(keep));
        }
    }

    /// The name of a subagent whose name begins with `prefix` in lower case, if any (which one,
    /// when several do, is not promised).
    pub fn find_by_prefix(&self, prefix: &str) -> (r: Option<String>)
        requires
            self.wf(),
        ensures
            r matches Some(n) ==> self@.contains_key(n@) && starts_with(n@, lowercase(prefix@)),
            r is None ==> forall|k: Seq<char>|
                #[trigger] self@.contains_key(k) ==> !starts_with(k, lowercase(prefix@)),
    {
        let p = to_lowercase(prefix);
        let entries = table_entries(&self.agents);
        let mut i: usize = 0;
        while i < entries.len()
            invariant
                self.wf(),
                p@ == lowercase(prefix@),
                i <= entries@.len(),
                forall|j: int|
                    0 <= j < entries@.len() ==> self@.contains_key(#[trigger] entries@[j].0@)
                        && entry_view(entries@[j].1) == self@[entries@[j].0@],
                forall|k: Seq<char>|
                    self@.contains_key(k) ==> exists|j: int| 0 <= j < entries@.len() && #[trigger] entries@[j].0@ == k,
                forall|j: int| 0 <= j < i ==> !starts_with(#[trigger] entries@[j].0@, p@),
            decreases entries@.len() - i,
        {
            let e = &entries[i].1;
            assert(e.name@ == entries@[i as int].0@);
            if str_starts_with(e.name.as_str(), p.as_str()) {
                return Some(e.name.clone());
            }
            i = i + 1;
        }
        proof {
            assert forall|k: Seq<char>| #[trigger] self@.contains_key(k) implies !starts_with(k, lowercase(prefix@)) by {
                let j = choose|j: int| 0 <= j < entries@.len() && #[trigger] entries@[j].0@ == k;
                assert(!starts_with(entries@[j].0@, p@));
            }
        }
        None
    }
}

} // verus!
