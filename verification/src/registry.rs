//! Node types of the knowledge-graph executor: what each position of the execution tree is for
//! (purpose, constraints and prompt templates, role, tool budget, children), the registry that
//! resolves them, and the rendering of their templates.

use vstd::prelude::*;
use crate::text::{concat_str, owned_list, replace_all, replace_str};

verus! {

broadcast use vstd::string::group_string_axioms;

/// The container role an agent runs under (what tools, shell and network it gets).
#[derive(Clone, Copy, Debug, PartialEq, Eq, Hash, Structural)]
pub enum OperatorRole {
    Read,
    Write,
    Local,
    Poke,
    Probe,
    Agent,
    Operator,
}

impl OperatorRole {
    /// The role as it is displayed.
    pub fn label(&self) -> (s: &'static str)
        ensures
            *self == OperatorRole::Read ==> s@ == "READ"@,
            *self == OperatorRole::Write ==> s@ == "WRITE"@,
            *self == OperatorRole::Local ==> s@ == "LOCAL"@,
            *self == OperatorRole::Poke ==> s@ == "POKE"@,
            *self == OperatorRole::Probe ==> s@ == "PROBE"@,
            *self == OperatorRole::Agent ==> s@ == "AGENT"@,
            *self == OperatorRole::Operator ==> s@ == "OPERATOR"@,
    {
        match self {
            OperatorRole::Read => "READ",
            OperatorRole::Write => "WRITE",
            OperatorRole::Local => "LOCAL",
            OperatorRole::Poke => "POKE",
            OperatorRole::Probe => "PROBE",
            OperatorRole::Agent => "AGENT",
            OperatorRole::Operator => "OPERATOR",
        }
    }
}

/// A node type: a reusable position of the execution tree.
#[derive(Clone, Debug)]
pub struct NodeType {
    /// Unique identifier (e.g. "analysis").
    pub id: String,
    pub name: String,
    /// Where the type sits in the agent taxonomy.
    pub taxonomy_ref: Option<String>,
    /// Placeholders: {issue}, {repo}, {context}, {parent_output}, {branch}, {files}, {plan}.
    pub purpose_template: String,
    /// Hard constraints.
    pub fear_template: String,
    /// What the agent is asked.
    pub prompt_template: String,
    pub role: OperatorRole,
    /// A leaf runs an agent; a parent runs its children in order.
    pub is_leaf: bool,
    /// The ids of the children, in order (parents only).
    pub children: Vec<String>,
    /// What shows that a leaf succeeded.
    pub success_criterion: Option<String>,
    /// The most tool calls a leaf may make.
    pub max_tool_calls: u32,
}

/// The ids of a list of node types.
pub open spec fn type_ids(ts: Seq<NodeType>) -> Seq<Seq<char>> {
    ts.map_values(|t: NodeType| t.id@)
}

/// The ids of a list of node type references.
pub open spec fn ref_ids(ts: Seq<&NodeType>) -> Seq<Seq<char>> {
    ts.map_values(|t: &NodeType| t.id@)
}

/// The texts of a list of ids.
pub open spec fn names_of(v: Seq<String>) -> Seq<Seq<char>> {
    v.map_values(|c: String| c@)
}

/// The entries of `ids` registered in `ts`, in order.
pub open spec fn registered_ids(ts: Seq<NodeType>, ids: Seq<Seq<char>>) -> Seq<Seq<char>>
    decreases ids.len(),
{
    if ids.len() == 0 {
        Seq::empty()
    } else {
        let r = registered_ids(ts, ids.drop_last());
        if type_ids(ts).contains(ids.last()) {
            r.push(ids.last())
        } else {
            r
        }
    }
}

/// The registry of node types, each registered under its id.
pub struct NodeTypeRegistry {
    types: Vec<NodeType>,
}

impl NodeTypeRegistry {
    /// The registered types, in registration order.
    pub closed spec fn types(&self) -> Seq<NodeType> {
        self.types@
    }

    /// No id is registered twice.
    pub open spec fn wf(&self) -> bool {
        forall|i: int, j: int|
            0 <= i < j < self.types().len() ==> self.types()[i].id@ != self.types()[j].id@
    }

    /// Every child of every registered type is registered too.
    pub open spec fn closed_under_children(&self) -> bool {
        forall|i: int, c: int|
            0 <= i < self.types().len() && 0 <= c < self.types()[i].children@.len() ==> type_ids(
                self.types(),
            ).contains(#[trigger] self.types()[i].children@[c]@)
    }

    /// An empty registry.
    pub fn new() -> (r: Self)
        ensures
            r.wf(),
            r.types().len() == 0,
    {
        NodeTypeRegistry { types: Vec::new() }
    }

    /// The index of the type registered under `id`.
    fn position(&self, id: &str) -> (k: Option<usize>)
        requires
            self.wf(),
        ensures
            k matches Some(i) ==> i < self.types().len() && self.types()[i as int].id@ == id@,
            k is None ==> !type_ids(self.types()).contains(id@),
    {
        let key = id.to_owned();
        let mut i: usize = 0;
        while i < self.types.len()
            invariant
                i <= self.types@.len(),
                key@ == id@,
                forall|j: int| 0 <= j < i ==> self.types@[j].id@ != id@,
            decreases self.types@.len() - i,
        {
            if self.types[i].id == key {
                return Some(i);
            }
            i = i + 1;
        }
        proof {
            if type_ids(self.types()).contains(id@) {
                let j = choose|j: int| 0 <= j < type_ids(self.types()).len() && type_ids(self.types())[j] == id@;
                assert(self.types@[j].id@ == id@);
            }
        }
        None
    }

    /// Registers a node type under its id, replacing a type registered under the same id.
    pub fn register(&mut self, node_type: NodeType)
        requires
            old(self).wf(),
        ensures
            final(self).wf(),
            type_ids(old(self).types()).contains(node_type.id@) ==> exists|i: int|
                0 <= i < old(self).types().len() && old(self).types()[i].id@ == node_type.id@
                    && final(self).types() == old(self).types().update(i, node_type),
            !type_ids(old(self).types()).contains(node_type.id@) ==> final(self).types()
                == old(self).types().push(node_type),
    {
        let pos = self.position(node_type.id.as_str());
        let ghost nt = node_type;
        match pos {
            Some(i) => {
                self.types.set(i, node_type);
                assert(self.types@ == old(self).types@.update(i as int, nt));
                assert(type_ids(old(self).types())[i as int] == nt.id@);
                proof {
                    assert forall|a: int, b: int| 0 <= a < b < self.types@.len() implies self.types@[a].id@
                        != self.types@[b].id@ by {
                        if a != i && b != i {
                            assert(self.types@[a] == old(self).types@[a]);
                            assert(self.types@[b] == old(self).types@[b]);
                        }
                    }
                }
            },
            None => {
                self.types.push(node_type);
                assert(self.types@ == old(self).types@.push(nt));
                proof {
                    assert forall|a: int, b: int| 0 <= a < b < self.types@.len() implies self.types@[a].id@
                        != self.types@[b].id@ by {
                        if b == self.types@.len() - 1 {
                            assert(type_ids(old(self).types())[a] == self.types@[a].id@);
                        }
                    }
                }
            },
        }
    }

    /// The type registered under `id`.
    pub fn get(&self, id: &str) -> (t: Option<&NodeType>)
        requires
            self.wf(),
        ensures
            t matches Some(x) ==> exists|i: int|
                0 <= i < self.types().len() && self.types()[i] == *x && x.id@ == id@,
            t is None <==> !type_ids(self.types()).contains(id@),
    {
        match self.position(id) {
            Some(i) => {
                proof {
                    assert(type_ids(self.types())[i as int] == id@);
                }
                Some(&self.types[i])
            },
            None => None,
        }
    }

    /// The registered children of the type registered under `id`, in order (children that are
    /// not registered are left out; none when `id` is not registered).
    pub fn children_of(&self, id: &str) -> (cs: Vec<&NodeType>)
        requires
            self.wf(),
        ensures
            !type_ids(self.types()).contains(id@) ==> cs@.len() == 0,
            forall|i: int|
                0 <= i < self.types().len() && self.types()[i].id@ == id@ ==> ref_ids(cs@)
                    == registered_ids(self.types(), names_of(self.types()[i].children@)),
            forall|k: int|
                0 <= k < cs@.len() ==> exists|i: int|
                    0 <= i < self.types().len() && self.types()[i] == *#[trigger] cs@[k],
    {
        let mut cs: Vec<&NodeType> = Vec::new();
        match self.position(id) {
            Some(p) => {
                assert(type_ids(self.types())[p as int] == id@);
                let t = &self.types[p];
                let mut k: usize = 0;
                assert(names_of(t.children@).take(0) =~= Seq::<Seq<char>>::empty());
                assert(ref_ids(cs@) =~= Seq::<Seq<char>>::empty());
                while k < t.children.len()
                    invariant
                        self.wf(),
                        p < self.types@.len(),
                        *t == self.types@[p as int],
                        t.id@ == id@,
                        k <= t.children@.len(),
                        ref_ids(cs@) == registered_ids(self.types(), names_of(t.children@).take(k as int)),
                        forall|j: int|
                            0 <= j < cs@.len() ==> exists|i: int|
                                0 <= i < self.types().len() && self.types()[i] == *#[trigger] cs@[j],
                    decreases t.children@.len() - k,
                {
                    let ghost pre = names_of(t.children@).take(k + 1);
                    assert(pre.drop_last() =~= names_of(t.children@).take(k as int));
                    assert(pre.last() == t.children@[k as int]@);
                    match self.get(t.children[k].as_str()) {
                        Some(c) => {
                            proof {
                                let i = choose|i: int| 0 <= i < self.types().len() && self.types()[i] == *c && c.id@ == t.children@[k as int]@;
                                assert(type_ids(self.types())[i] == c.id@);
                            }
                            let ghost before = cs@;
                            cs.push(c);
                            assert(ref_ids(cs@) =~= ref_ids(before).push(c.id@));
                        },
                        None => {},
                    }
                    k = k + 1;
                }
                assert(names_of(t.children@).take(t.children@.len() as int) =~= names_of(t.children@));
                proof {
                    assert forall|i: int| 0 <= i < self.types().len() && self.types()[i].id@ == id@ implies i == p by {
                        if i < p {
                            assert(self.types()[i].id@ != self.types()[p as int].id@);
                        } else if i > p {
                            assert(self.types()[p as int].id@ != self.types()[i].id@);
                        }
                    }
                }
            },
            None => {
                proof {
                    assert forall|i: int| 0 <= i < self.types().len() implies self.types()[i].id@ != id@ by {
                        assert(type_ids(self.types())[i] == self.types()[i].id@);
                    }
                }
            },
        }
        cs
    }

    /// The registered ids, in registration order.
    pub fn all_ids(&self) -> (ids: Vec<&str>)
        ensures
            ids@.len() == self.types().len(),
            forall|k: int| 0 <= k < ids@.len() ==> #[trigger] ids@[k]@ == self.types()[k].id@,
    {
        let mut ids: Vec<&str> = Vec::new();
        let mut i: usize = 0;
        while i < self.types.len()
            invariant
                i <= self.types@.len(),
                ids@.len() == i,
                forall|k: int| 0 <= k < i ==> #[trigger] ids@[k]@ == self.types@[k].id@,
            decreases self.types@.len() - i,
        {
            ids.push(self.types[i].id.as_str());
            i = i + 1;
        }
        ids
    }

    /// The purpose of the type registered under `id`, rendered with `vars`.
    pub fn render_purpose(&self, id: &str, vars: &TemplateVars) -> (r: Option<String>)
        requires
            self.wf(),
        ensures
            r is None <==> !type_ids(self.types()).contains(id@),
            r matches Some(s) ==> exists|i: int|
                0 <= i < self.types().len() && self.types()[i].id@ == id@ && s@ == rendered(
                    self.types()[i].purpose_template@,
                    *vars,
                ),
    {
        match self.get(id) {
            Some(t) => Some(render_template(t.purpose_template.as_str(), vars)),
            None => None,
        }
    }

    /// The constraints of the type registered under `id`, rendered with `vars`.
    pub fn render_fear(&self, id: &str, vars: &TemplateVars) -> (r: Option<String>)
        requires
            self.wf(),
        ensures
            r is None <==> !type_ids(self.types()).contains(id@),
            r matches Some(s) ==> exists|i: int|
                0 <= i < self.types().len() && self.types()[i].id@ == id@ && s@ == rendered(
                    self.types()[i].fear_template@,
                    *vars,
                ),
    {
        match self.get(id) {
            Some(t) => Some(render_template(t.fear_template.as_str(), vars)),
            None => None,
        }
    }

    /// The prompt of the type registered under `id`, rendered with `vars`.
    pub fn render_prompt(&self, id: &str, vars: &TemplateVars) -> (r: Option<String>)
        requires
            self.wf(),
        ensures
            r is None <==> !type_ids(self.types()).contains(id@),
            r matches Some(s) ==> exists|i: int|
                0 <= i < self.types().len() && self.types()[i].id@ == id@ && s@ == rendered(
                    self.types()[i].prompt_template@,
                    *vars,
                ),
    {
        match self.get(id) {
            Some(t) => Some(render_template(t.prompt_template.as_str(), vars)),
            None => None,
        }
    }
}

/// The values a template is rendered with.
#[derive(Default, Clone, Debug)]
pub struct TemplateVars {
    pub issue: String,
    pub repo: String,
    pub context: String,
    pub parent_output: String,
    pub branch: String,
    pub files: String,
    pub plan: String,
    /// More placeholders, as (name, value), replaced in this order.
    pub extra: Vec<(String, String)>,
}

/// The placeholder for a name: the name in braces.
pub open spec fn placeholder(name: Seq<char>) -> Seq<char> {
    seq!['{'] + name + seq!['}']
}

/// `s` with the extra placeholders `extra[..k]` replaced, in order.
pub open spec fn replace_extra(s: Seq<char>, extra: Seq<(String, String)>) -> Seq<char>
    decreases extra.len(),
{
    if extra.len() == 0 {
        s
    } else {
        replace_all(
            replace_extra(s, extra.drop_last()),
            placeholder(extra.last().0@),
            extra.last().1@,
        )
    }
}

/// A template rendered with `vars`: {issue}, {repo}, {context}, {parent_output}, {branch},
/// {files} and {plan} replaced in this order, then the extra placeholders.
pub open spec fn rendered(template: Seq<char>, vars: TemplateVars) -> Seq<char> {
    let s1 = replace_all(template, "{issue}"@, vars.issue@);
    let s2 = replace_all(s1, "{repo}"@, vars.repo@);
    let s3 = replace_all(s2, "{context}"@, vars.context@);
    let s4 = replace_all(s3, "{parent_output}"@, vars.parent_output@);
    let s5 = replace_all(s4, "{branch}"@, vars.branch@);
    let s6 = replace_all(s5, "{files}"@, vars.files@);
    let s7 = replace_all(s6, "{plan}"@, vars.plan@);
    replace_extra(s7, vars.extra@)
}

/// Renders a template with `vars` (see `rendered`).
pub fn render_template(template: &str, vars: &TemplateVars) -> (r: String)
    ensures
        r@ == rendered(template@, *vars),
{
    proof {
        reveal_strlit("{issue}");
        reveal_strlit("{repo}");
        reveal_strlit("{context}");
        reveal_strlit("{parent_output}");
        reveal_strlit("{branch}");
        reveal_strlit("{files}");
        reveal_strlit("{plan}");
    }
    let s1 = replace_str(template, "{issue}", vars.issue.as_str());
    let s2 = replace_str(s1.as_str(), "{repo}", vars.repo.as_str());
    let s3 = replace_str(s2.as_str(), "{context}", vars.context.as_str());
    let s4 = replace_str(s3.as_str(), "{parent_output}", vars.parent_output.as_str());
    let s5 = replace_str(s4.as_str(), "{branch}", vars.branch.as_str());
    let s6 = replace_str(s5.as_str(), "{files}", vars.files.as_str());
    let mut s = replace_str(s6.as_str(), "{plan}", vars.plan.as_str());
    let mut i: usize = 0;
    let ghost s7 = s@;
    assert(vars.extra@.take(0) =~= Seq::<(String, String)>::empty());
    while i < vars.extra.len()
        invariant
            i <= vars.extra@.len(),
            s@ == replace_extra(s7, vars.extra@.take(i as int)),
        decreases vars.extra@.len() - i,
    {
        let (k, v) = &vars.extra[i];
        let open_brace = "{".to_owned();
        let key = concat_str(concat_str(open_brace.as_str(), k.as_str()).as_str(), "}");
        proof {
            reveal_strlit("{");
            reveal_strlit("}");
            assert(key@ =~= placeholder(k@));
            assert(vars.extra@.take(i + 1).drop_last() =~= vars.extra@.take(i as int));
        }
        s = replace_str(s.as_str(), key.as_str(), v.as_str());
        i = i + 1;
    }
    assert(vars.extra@.take(vars.extra@.len() as int) =~= vars.extra@);
    s
}

/// Renders a template with `vars` (see `rendered`).
pub fn render_template_pub(template: &str, vars: &TemplateVars) -> (r: String)
    ensures
        r@ == rendered(template@, *vars),
{
    render_template(template, vars)
}

/// The root constraints every node of the tree inherits.
pub const AGENTIMOLT_ROOT_FEAR: &'static str = "\
CONFIGURATION IS THE ONLY STATE. VIOLATING THIS IS IMMEDIATE FAILURE.\n\
\n\
1. ALL config comes from a SINGLE source per environment (AWS Secrets Manager → config/{env}.yaml → Flux ${var} substitution).\n\
2. NEVER hardcode: credentials, passwords, API keys, secret names, region strings, registry URLs, service URLs, port numbers, cluster names, or ANY value that differs between environments.\n\
3. NEVER create environment variables to hold config. Environment variables are SET by the deployment system FROM the single config source. Code reads them — code never defines them.\n\
4. If you need a value, it MUST trace back to config/{env}.yaml or defs.py constants that read from environment. No exceptions.\n\
5. If you see a hardcoded value in existing code, THAT IS A BUG. Do not copy it. Do not reference it. Fix it or flag it.\n\
6. CI test fixtures (like postgres service containers) define their values ONCE at job level, never scattered across steps.\n\
\n\
The pattern: AWS SM secret → ExternalSecret → K8s Secret → Flux postBuild.substitute → ${variable} in manifests → env var in pod → code reads os.environ.\n\
\n\
There is ONE path. There are ZERO alternatives.\n\
\n\
EVERY TOKEN IS PRODUCTION CODE. NO EXCEPTIONS.\n\
\n\
7. Never create placeholder data, lorem ipsum, fake content, or mock values that pretend to be real.\n\
8. If something is a placeholder, it MUST say 'Placeholder' and MUST specify exactly what real resource replaces it and where that resource comes from.\n\
9. Every string, every value, every piece of content is real, professional, production software. If it's not ready, leave it empty or gated — never fake.";

/// The ids of the default issue registry, in registration order.
pub open spec fn default_ids() -> Seq<Seq<char>> {
    seq!["issue"@, "analysis"@, "read-issue"@, "trace-entrypoints"@, "identify-files"@, "check-conflicts"@, "synthesize-plan"@, "impl"@, "create-branch"@, "apply-changes"@, "write-tests"@, "run-tests"@, "pr"@, "fill-template"@, "push-and-create"@, "verify-ci"@]
}


/// The ids of the default registry differ pairwise (by length or first character).
proof fn lemma_default_ids_distinct(i: int, j: int)
    requires
        0 <= i < j < default_ids().len(),
    ensures
        default_ids()[i] != default_ids()[j],
{
    reveal_strlit("issue");
    reveal_strlit("analysis");
    reveal_strlit("read-issue");
    reveal_strlit("trace-entrypoints");
    reveal_strlit("identify-files");
    reveal_strlit("check-conflicts");
    reveal_strlit("synthesize-plan");
    reveal_strlit("impl");
    reveal_strlit("create-branch");
    reveal_strlit("apply-changes");
    reveal_strlit("write-tests");
    reveal_strlit("run-tests");
    reveal_strlit("pr");
    reveal_strlit("fill-template");
    reveal_strlit("push-and-create");
    reveal_strlit("verify-ci");
    assert("issue"@.len() == 5 && "issue"@[0] == 'i');
    assert("analysis"@.len() == 8 && "analysis"@[0] == 'a');
    assert("read-issue"@.len() == 10 && "read-issue"@[0] == 'r');
    assert("trace-entrypoints"@.len() == 17 && "trace-entrypoints"@[0] == 't');
    assert("identify-files"@.len() == 14 && "identify-files"@[0] == 'i');
    assert("check-conflicts"@.len() == 15 && "check-conflicts"@[0] == 'c');
    assert("synthesize-plan"@.len() == 15 && "synthesize-plan"@[0] == 's');
    assert("impl"@.len() == 4 && "impl"@[0] == 'i');
    assert("create-branch"@.len() == 13 && "create-branch"@[0] == 'c');
    assert("apply-changes"@.len() == 13 && "apply-changes"@[0] == 'a');
    assert("write-tests"@.len() == 11 && "write-tests"@[0] == 'w');
    assert("run-tests"@.len() == 9 && "run-tests"@[0] == 'r');
    assert("pr"@.len() == 2 && "pr"@[0] == 'p');
    assert("fill-template"@.len() == 13 && "fill-template"@[0] == 'f');
    assert("push-and-create"@.len() == 15 && "push-and-create"@[0] == 'p');
    assert("verify-ci"@.len() == 9 && "verify-ci"@[0] == 'v');
    let ids = default_ids();
    assert(ids[i].len() != ids[j].len() || ids[i][0] != ids[j][0]);
}

/// Whether each node type of a list is a leaf.
pub open spec fn leaf_flags(ts: Seq<NodeType>) -> Seq<bool> {
    ts.map_values(|t: NodeType| t.is_leaf)
}

/// The number of children of each node type of a list.
pub open spec fn child_counts(ts: Seq<NodeType>) -> Seq<nat> {
    ts.map_values(|t: NodeType| t.children@.len())
}

/// What a node type holds, with texts as character sequences.
pub struct NodeView {
    pub id: Seq<char>,
    pub name: Seq<char>,
    pub taxonomy_ref: Option<Seq<char>>,
    pub purpose: Seq<char>,
    pub fear: Seq<char>,
    pub prompt: Seq<char>,
    pub role: OperatorRole,
    pub is_leaf: bool,
    pub children: Seq<Seq<char>>,
    pub success: Option<Seq<char>>,
    pub max_tool_calls: u32,
}

/// The text of an optional string.
pub open spec fn opt_str(o: Option<String>) -> Option<Seq<char>> {
    match o {
        Some(s) => Some(s@),
        None => None,
    }
}

/// What a node type holds.
pub open spec fn node_view(t: NodeType) -> NodeView {
    NodeView {
        id: t.id@,
        name: t.name@,
        taxonomy_ref: opt_str(t.taxonomy_ref),
        purpose: t.purpose_template@,
        fear: t.fear_template@,
        prompt: t.prompt_template@,
        role: t.role,
        is_leaf: t.is_leaf,
        children: t.children@.map_values(|c: String| c@),
        success: opt_str(t.success_criterion),
        max_tool_calls: t.max_tool_calls,
    }
}

/// What a list of node types holds.
pub open spec fn node_views(ts: Seq<NodeType>) -> Seq<NodeView> {
    ts.map_values(|t: NodeType| node_view(t))
}

/// The node types of the issue workflow, in registration order: the root `issue` runs
/// `analysis`, `impl` and `pr` in turn, and each phase runs its leaves.
pub open spec fn default_nodes() -> Seq<NodeView> {
    seq![
        NodeView {
            id: "issue"@,
            name: "Issue Root"@,
            taxonomy_ref: None,
            purpose: "Resolve issue #{issue} in {repo}: analyze, implement, and PR."@,
            fear: AGENTIMOLT_ROOT_FEAR@ + "\n\nEvery child must succeed for this to succeed. If any child fails, stop and report which one and why."@,
            prompt: ""@,
            role: OperatorRole::Read,
            is_leaf: false,
            children: seq!["analysis"@, "impl"@, "pr"@],
            success: Some("All children succeed: analysis produced plan, impl produced passing code, PR is created and CI green."@),
            max_tool_calls: 3u32,
        },
        NodeView {
            id: "analysis"@,
            name: "Analysis Phase"@,
            taxonomy_ref: Some("1.10"@),
            purpose: "Understand issue #{issue} deeply enough to produce a precise implementation plan."@,
            fear: "Do NOT implement anything. Do NOT modify any files. Only read, trace, and plan. \
                        Output must be a NUMBERED LIST of exact changes (file, function, what changes). \
                        Max 12 tool calls — be surgical, not exhaustive."@,
            prompt: ""@,
            role: OperatorRole::Read,
            is_leaf: false,
            children: seq!["read-issue"@, "trace-entrypoints"@, "identify-files"@, "check-conflicts"@, "synthesize-plan"@],
            success: Some("A numbered, falsifiable implementation plan exists."@),
            max_tool_calls: 3u32,
        },
        NodeView {
            id: "read-issue"@,
            name: "Parse Issue"@,
            taxonomy_ref: Some("9.1.1"@),
            purpose: "Extract structured problem definition from issue #{issue}."@,
            fear: "Output ONLY the three sections below. Do not call any tools. \
                        The issue text is already provided. Parse it. \
                        If any section is unclear from the issue text, say 'UNCLEAR: <what's missing>'."@,
            prompt: "From the issue text provided, extract:\n\n\
                         ## PROBLEM\n<what's broken>\n\n\
                         ## EXPECTED\n<what should happen>\n\n\
                         ## REPRODUCTION\n<steps to reproduce, or UNCLEAR if not specified>"@,
            role: OperatorRole::Read,
            is_leaf: true,
            children: Seq::empty(),
            success: Some("Output contains ## PROBLEM, ## EXPECTED, and ## REPRODUCTION sections."@),
            max_tool_calls: 0u32,
        },
        NodeView {
            id: "trace-entrypoints"@,
            name: "Trace Entrypoints"@,
            taxonomy_ref: Some("1.10.3"@),
            purpose: "Trace the execution path from app entrypoint to the code affected by issue #{issue}."@,
            fear: "You have 3 file reads. Use them: 1) app entrypoint/router, 2) intermediate, 3) target component. \
                        Output the path: `file → file → file`. If 3 reads aren't enough, the issue description \
                        is too vague — report what you found and stop."@,
            prompt: "Trace the execution path to the affected code.\n\n\
                         1. Read the app entrypoint or router to find where the affected area is mounted\n\
                         2. Follow the import chain to the affected component/function\n\
                         3. Output: `entrypoint.tsx:L# → Router.tsx:L# → Target.tsx:L#`"@,
            role: OperatorRole::Read,
            is_leaf: true,
            children: Seq::empty(),
            success: Some("Output contains at least one traced path from entrypoint to affected code."@),
            max_tool_calls: 3u32,
        },
        NodeView {
            id: "identify-files"@,
            name: "Identify Files to Change"@,
            taxonomy_ref: Some("1.10.2"@),
            purpose: "Identify exactly which files need editing to fix issue #{issue}."@,
            fear: "Read up to 3 files from the execution trace. For each, state WHAT needs to change \
                        (one sentence, not HOW). Only list files that get EDITED. Context-only files are irrelevant."@,
            prompt: "Read the target files from the execution trace and determine which need modification.\n\n\
                         Output a numbered list:\n\
                         1. `path/to/file.tsx` — WHAT needs to change (one sentence)\n\n\
                         Only files that will be EDITED."@,
            role: OperatorRole::Read,
            is_leaf: true,
            children: Seq::empty(),
            success: Some("Output is a numbered list of file paths with change descriptions."@),
            max_tool_calls: 3u32,
        },
        NodeView {
            id: "check-conflicts"@,
            name: "Check Open PR Conflicts"@,
            taxonomy_ref: Some("10.1"@),
            purpose: "Check if any open PRs touch the same files we plan to modify."@,
            fear: "If there are conflicts, report them but do NOT stop. The plan will note conflicts \
                        and the implementation will handle them (rebase, coordinate). \
                        Only check files we plan to modify — not the whole repo."@,
            prompt: "Files we plan to modify:\n{parent_output}\n\n\
                         Check for conflicts with open PRs:\n\
                         1. `gh pr list --repo {repo} --state open --json number,title,files`\n\
                         2. For each open PR, check if it touches any of our target files\n\
                         3. Output:\n\
                            ## CONFLICTS\n\
                            - PR #N (title) touches `file.tsx` — we also modify this\n\n\
                            ## NO CONFLICTS\n\
                            (if none found)"@,
            role: OperatorRole::Poke,
            is_leaf: true,
            children: Seq::empty(),
            success: Some("Output contains either ## CONFLICTS or ## NO CONFLICTS section."@),
            max_tool_calls: 3u32,
        },
        NodeView {
            id: "synthesize-plan"@,
            name: "Synthesize Implementation Plan"@,
            taxonomy_ref: Some("1.11.1"@),
            purpose: "Synthesize a precise, falsifiable implementation plan for issue #{issue}."@,
            fear: "No tools. No exploration. The universe is complete — synthesize it. \
                        Every plan item must be concrete: file, function, exact change. \
                        A different agent will implement this plan with ONLY this text. No ambiguity."@,
            prompt: "Synthesize the implementation plan.\n\n\
                         Output format:\n\
                         ## IMPLEMENTATION PLAN for #{issue}\n\n\
                         ### Changes\n\
                         1. **`path/file.tsx`** — `FunctionName`: <exact change>\n\n\
                         ### Tests\n\
                         1. <test to add and what it verifies>\n\n\
                         ### Conflicts\n\
                         <from conflict check, or 'None'>\n\n\
                         ### Branch\n\
                         `fix-{issue}-<short-description>`"@,
            role: OperatorRole::Read,
            is_leaf: true,
            children: Seq::empty(),
            success: Some("Output contains ## IMPLEMENTATION PLAN with numbered changes and tests."@),
            max_tool_calls: 0u32,
        },
        NodeView {
            id: "impl"@,
            name: "Implementation Phase"@,
            taxonomy_ref: Some("1.1"@),
            purpose: "Implement the approved plan for issue #{issue}."@,
            fear: "Only modify files identified in the plan. All PRs target main. Run tests. \
                        Do NOT add unrelated changes. Do NOT touch CI/CD or config without explicit authorization."@,
            prompt: ""@,
            role: OperatorRole::Agent,
            is_leaf: false,
            children: seq!["create-branch"@, "apply-changes"@, "write-tests"@, "run-tests"@],
            success: Some("All changes applied, tests written, tests pass."@),
            max_tool_calls: 3u32,
        },
        NodeView {
            id: "create-branch"@,
            name: "Create Branch"@,
            taxonomy_ref: Some("10.1.1"@),
            purpose: "Create a feature branch from main for issue #{issue}."@,
            fear: "Always branch from latest main. Pull first. Branch name from the plan. \
                        If branch already exists, check it out and verify it's based on latest main."@,
            prompt: "Create the implementation branch:\n\n\
                         1. `git checkout main && git pull origin main`\n\
                         2. `git checkout -b {branch}`\n\
                         3. Verify: `git log --oneline -3`\n\n\
                         Output the branch name and the HEAD commit."@,
            role: OperatorRole::Local,
            is_leaf: true,
            children: Seq::empty(),
            success: Some("Branch exists, based on latest main."@),
            max_tool_calls: 3u32,
        },
        NodeView {
            id: "apply-changes"@,
            name: "Apply Code Changes"@,
            taxonomy_ref: Some("1.2"@),
            purpose: "Apply the implementation plan changes to the codebase."@,
            fear: "Follow the plan EXACTLY. Do not add 'improvements' not in the plan. \
                        Do not modify files not in the plan. Read each file before modifying to confirm current state. \
                        Commit after each logical change with a descriptive message."@,
            prompt: "Apply these changes from the approved plan:\n\n{plan}\n\n\
                         For each change:\n\
                         1. Read the file\n\
                         2. Make the change\n\
                         3. Verify the change looks correct\n\
                         4. `git add <file> && git commit -m '<descriptive message>'`\n\n\
                         Output what you changed and the commit hashes."@,
            role: OperatorRole::Agent,
            is_leaf: true,
            children: Seq::empty(),
            success: Some("All plan changes applied with commits."@),
            max_tool_calls: 3u32,
        },
        NodeView {
            id: "write-tests"@,
            name: "Write Tests"@,
            taxonomy_ref: Some("1.7"@),
            purpose: "Write or update tests for the changes made to fix issue #{issue}."@,
            fear: "Tests must cover the SPECIFIC behavior changed. Not general tests. \
                        Each test has a clear name describing what it verifies. \
                        Use existing test patterns in the codebase. Do not introduce new test frameworks."@,
            prompt: "Write tests for the implementation:\n\n{plan}\n\n\
                         1. Find existing test files near the changed code\n\
                         2. Add tests that verify the fix works\n\
                         3. Add tests that verify the old bug doesn't regress\n\
                         4. `git add <test files> && git commit -m 'test: add tests for #{issue}'`\n\n\
                         Output the test file paths and test names."@,
            role: OperatorRole::Agent,
            is_leaf: true,
            children: Seq::empty(),
            success: Some("New test files/cases committed that cover the change."@),
            max_tool_calls: 3u32,
        },
        NodeView {
            id: "run-tests"@,
            name: "Run Tests"@,
            taxonomy_ref: Some("1.7"@),
            purpose: "Run the test suite and verify all tests pass."@,
            fear: "Run the FULL test suite, not just new tests. If tests fail, report EXACTLY which \
                        tests and the error output. Do NOT fix failing tests — report them for iteration."@,
            prompt: "Run the test suite:\n\n\
                         1. `npm test` (or whatever the project uses)\n\
                         2. If tests pass: output 'TESTS PASS: <count> tests'\n\
                         3. If tests fail: output 'TESTS FAIL:' followed by each failing test name and error\n\n\
                         Do NOT fix failures. Just report them."@,
            role: OperatorRole::Local,
            is_leaf: true,
            children: Seq::empty(),
            success: Some("Output contains 'TESTS PASS' with count."@),
            max_tool_calls: 3u32,
        },
        NodeView {
            id: "pr"@,
            name: "PR Creation Phase"@,
            taxonomy_ref: None,
            purpose: "Create a clean PR for issue #{issue} with full template compliance."@,
            fear: "Target main ONLY. Fill EVERY section of .github/PULL_REQUEST_TEMPLATE.md. \
                        If this touches CI/CD or config, add **** POTENTIALLY CATASTROPHIC UPDATE **** header."@,
            prompt: ""@,
            role: OperatorRole::Agent,
            is_leaf: false,
            children: seq!["fill-template"@, "push-and-create"@, "verify-ci"@],
            success: Some("PR created targeting main, template filled, CI green."@),
            max_tool_calls: 3u32,
        },
        NodeView {
            id: "fill-template"@,
            name: "Fill PR Template"@,
            taxonomy_ref: Some("1.13"@),
            purpose: "Fill out .github/PULL_REQUEST_TEMPLATE.md for issue #{issue}."@,
            fear: "Read the template (1 tool call), then fill every section from the provided context. \
                        No 'N/A' unless truly not applicable. Include 'Closes #{issue}'. \
                        If changes touch CI/CD, add **** POTENTIALLY CATASTROPHIC UPDATE **** header."@,
            prompt: "1. Read `.github/PULL_REQUEST_TEMPLATE.md`\n\
                         2. Fill every section using the implementation context provided\n\
                         3. Output the complete filled PR body text"@,
            role: OperatorRole::Read,
            is_leaf: true,
            children: Seq::empty(),
            success: Some("PR body text exists with all template sections filled."@),
            max_tool_calls: 1u32,
        },
        NodeView {
            id: "push-and-create"@,
            name: "Push and Create PR"@,
            taxonomy_ref: Some("10.1.1"@),
            purpose: "Push the branch and create the PR on GitHub."@,
            fear: "Target MUST be main. Double-check before pushing. Use the prepared PR body. \
                        If `gh pr create` fails, report the error — do NOT retry with different target."@,
            prompt: "Push and create the PR:\n\n\
                         1. `git push origin {branch}`\n\
                         2. `gh pr create --base main --title '<title>' --body-file <template-file> --repo {repo}`\n\
                         3. Output the PR URL."@,
            role: OperatorRole::Agent,
            is_leaf: true,
            children: Seq::empty(),
            success: Some("PR URL output from gh pr create."@),
            max_tool_calls: 3u32,
        },
        NodeView {
            id: "verify-ci"@,
            name: "Verify CI Status"@,
            taxonomy_ref: Some("2.5.1"@),
            purpose: "Watch CI and report pass/fail status."@,
            fear: "Wait up to 5 minutes for CI. Check every 30 seconds. \
                        If CI fails, report the failing job and log output. Do NOT attempt to fix — report only."@,
            prompt: "Monitor CI for the newly created PR:\n\n\
                         1. `gh pr checks {branch} --repo {repo} --watch`\n\
                         2. If all checks pass: output 'CI PASS'\n\
                         3. If any check fails: output 'CI FAIL: <check-name>: <error summary>'"@,
            role: OperatorRole::Poke,
            is_leaf: true,
            children: Seq::empty(),
            success: Some("Output contains 'CI PASS' or 'CI FAIL' with details."@),
            max_tool_calls: 3u32,
        },
    ]
}

/// The registry of the issue workflow: the root `issue`, its phases `analysis`, `impl` and
/// `pr`, and their leaves.
pub fn default_issue_registry() -> (reg: NodeTypeRegistry)
    ensures
        node_views(reg.types()) == default_nodes(),
        reg.wf(),
        reg.closed_under_children(),
        type_ids(reg.types()) == default_ids(),
        forall|i: int|
            0 <= i < reg.types().len() ==> ((#[trigger] reg.types()[i]).is_leaf <==> reg.types()[i].children@.len() == 0),
{
    let mut types: Vec<NodeType> = Vec::new();
    assert(node_views(types@) =~= default_nodes().take(0));
    types.push(
        NodeType {
            id: "issue".to_owned(),
            name: "Issue Root".to_owned(),
            taxonomy_ref: None,
            purpose_template: "Resolve issue #{issue} in {repo}: analyze, implement, and PR.".to_owned(),
            fear_template: concat_str(AGENTIMOLT_ROOT_FEAR, "\n\nEvery child must succeed for this to succeed. If any child fails, stop and report which one and why."),
            prompt_template: "".to_owned(),
            role: OperatorRole::Read,
            is_leaf: false,
            children: owned_list(&["analysis", "impl", "pr"]),
            success_criterion: Some("All children succeed: analysis produced plan, impl produced passing code, PR is created and CI green.".to_owned()),
            max_tool_calls: 3,
        },
    );
    proof {
        assert(types@[0].children@.map_values(|c: String| c@) =~= default_nodes()[0].children);
        assert(node_view(types@[0]) == default_nodes()[0]);
        assert(node_views(types@) =~= default_nodes().take(1));
    }
    types.push(
        NodeType {
            id: "analysis".to_owned(),
            name: "Analysis Phase".to_owned(),
            taxonomy_ref: Some("1.10".to_owned()),
            purpose_template: "Understand issue #{issue} deeply enough to produce a precise implementation plan.".to_owned(),
            fear_template: "Do NOT implement anything. Do NOT modify any files. Only read, trace, and plan. \
                        Output must be a NUMBERED LIST of exact changes (file, function, what changes). \
                        Max 12 tool calls — be surgical, not exhaustive.".to_owned(),
            prompt_template: "".to_owned(),
            role: OperatorRole::Read,
            is_leaf: false,
            children: owned_list(&["read-issue", "trace-entrypoints", "identify-files", "check-conflicts", "synthesize-plan"]),
            success_criterion: Some("A numbered, falsifiable implementation plan exists.".to_owned()),
            max_tool_calls: 3,
        },
    );
    proof {
        assert(types@[1].children@.map_values(|c: String| c@) =~= default_nodes()[1].children);
        assert(node_view(types@[1]) == default_nodes()[1]);
        assert(node_views(types@) =~= default_nodes().take(2));
    }
    types.push(
        NodeType {
            id: "read-issue".to_owned(),
            name: "Parse Issue".to_owned(),
            taxonomy_ref: Some("9.1.1".to_owned()),
            purpose_template: "Extract structured problem definition from issue #{issue}.".to_owned(),
            fear_template: "Output ONLY the three sections below. Do not call any tools. \
                        The issue text is already provided. Parse it. \
                        If any section is unclear from the issue text, say 'UNCLEAR: <what's missing>'.".to_owned(),
            prompt_template: "From the issue text provided, extract:\n\n\
                         ## PROBLEM\n<what's broken>\n\n\
                         ## EXPECTED\n<what should happen>\n\n\
                         ## REPRODUCTION\n<steps to reproduce, or UNCLEAR if not specified>".to_owned(),
            role: OperatorRole::Read,
            is_leaf: true,
            children: owned_list(&[]),
            success_criterion: Some("Output contains ## PROBLEM, ## EXPECTED, and ## REPRODUCTION sections.".to_owned()),
            max_tool_calls: 0,
        },
    );
    proof {
        assert(types@[2].children@.map_values(|c: String| c@) =~= default_nodes()[2].children);
        assert(node_view(types@[2]) == default_nodes()[2]);
        assert(node_views(types@) =~= default_nodes().take(3));
    }
    types.push(
        NodeType {
            id: "trace-entrypoints".to_owned(),
            name: "Trace Entrypoints".to_owned(),
            taxonomy_ref: Some("1.10.3".to_owned()),
            purpose_template: "Trace the execution path from app entrypoint to the code affected by issue #{issue}.".to_owned(),
            fear_template: "You have 3 file reads. Use them: 1) app entrypoint/router, 2) intermediate, 3) target component. \
                        Output the path: `file → file → file`. If 3 reads aren't enough, the issue description \
                        is too vague — report what you found and stop.".to_owned(),
            prompt_template: "Trace the execution path to the affected code.\n\n\
                         1. Read the app entrypoint or router to find where the affected area is mounted\n\
                         2. Follow the import chain to the affected component/function\n\
                         3. Output: `entrypoint.tsx:L# → Router.tsx:L# → Target.tsx:L#`".to_owned(),
            role: OperatorRole::Read,
            is_leaf: true,
            children: owned_list(&[]),
            success_criterion: Some("Output contains at least one traced path from entrypoint to affected code.".to_owned()),
            max_tool_calls: 3,
        },
    );
    proof {
        assert(types@[3].children@.map_values(|c: String| c@) =~= default_nodes()[3].children);
        assert(node_view(types@[3]) == default_nodes()[3]);
        assert(node_views(types@) =~= default_nodes().take(4));
    }
    types.push(
        NodeType {
            id: "identify-files".to_owned(),
            name: "Identify Files to Change".to_owned(),
            taxonomy_ref: Some("1.10.2".to_owned()),
            purpose_template: "Identify exactly which files need editing to fix issue #{issue}.".to_owned(),
            fear_template: "Read up to 3 files from the execution trace. For each, state WHAT needs to change \
                        (one sentence, not HOW). Only list files that get EDITED. Context-only files are irrelevant.".to_owned(),
            prompt_template: "Read the target files from the execution trace and determine which need modification.\n\n\
                         Output a numbered list:\n\
                         1. `path/to/file.tsx` — WHAT needs to change (one sentence)\n\n\
                         Only files that will be EDITED.".to_owned(),
            role: OperatorRole::Read,
            is_leaf: true,
            children: owned_list(&[]),
            success_criterion: Some("Output is a numbered list of file paths with change descriptions.".to_owned()),
            max_tool_calls: 3,
        },
    );
    proof {
        assert(types@[4].children@.map_values(|c: String| c@) =~= default_nodes()[4].children);
        assert(node_view(types@[4]) == default_nodes()[4]);
        assert(node_views(types@) =~= default_nodes().take(5));
    }
    types.push(
        NodeType {
            id: "check-conflicts".to_owned(),
            name: "Check Open PR Conflicts".to_owned(),
            taxonomy_ref: Some("10.1".to_owned()),
            purpose_template: "Check if any open PRs touch the same files we plan to modify.".to_owned(),
            fear_template: "If there are conflicts, report them but do NOT stop. The plan will note conflicts \
                        and the implementation will handle them (rebase, coordinate). \
                        Only check files we plan to modify — not the whole repo.".to_owned(),
            prompt_template: "Files we plan to modify:\n{parent_output}\n\n\
                         Check for conflicts with open PRs:\n\
                         1. `gh pr list --repo {repo} --state open --json number,title,files`\n\
                         2. For each open PR, check if it touches any of our target files\n\
                         3. Output:\n\
                            ## CONFLICTS\n\
                            - PR #N (title) touches `file.tsx` — we also modify this\n\n\
                            ## NO CONFLICTS\n\
                            (if none found)".to_owned(),
            role: OperatorRole::Poke,
            is_leaf: true,
            children: owned_list(&[]),
            success_criterion: Some("Output contains either ## CONFLICTS or ## NO CONFLICTS section.".to_owned()),
            max_tool_calls: 3,
        },
    );
    proof {
        assert(types@[5].children@.map_values(|c: String| c@) =~= default_nodes()[5].children);
        assert(node_view(types@[5]) == default_nodes()[5]);
        assert(node_views(types@) =~= default_nodes().take(6));
    }
    types.push(
        NodeType {
            id: "synthesize-plan".to_owned(),
            name: "Synthesize Implementation Plan".to_owned(),
            taxonomy_ref: Some("1.11.1".to_owned()),
            purpose_template: "Synthesize a precise, falsifiable implementation plan for issue #{issue}.".to_owned(),
            fear_template: "No tools. No exploration. The universe is complete — synthesize it. \
                        Every plan item must be concrete: file, function, exact change. \
                        A different agent will implement this plan with ONLY this text. No ambiguity.".to_owned(),
            prompt_template: "Synthesize the implementation plan.\n\n\
                         Output format:\n\
                         ## IMPLEMENTATION PLAN for #{issue}\n\n\
                         ### Changes\n\
                         1. **`path/file.tsx`** — `FunctionName`: <exact change>\n\n\
                         ### Tests\n\
                         1. <test to add and what it verifies>\n\n\
                         ### Conflicts\n\
                         <from conflict check, or 'None'>\n\n\
                         ### Branch\n\
                         `fix-{issue}-<short-description>`".to_owned(),
            role: OperatorRole::Read,
            is_leaf: true,
            children: owned_list(&[]),
            success_criterion: Some("Output contains ## IMPLEMENTATION PLAN with numbered changes and tests.".to_owned()),
            max_tool_calls: 0,
        },
    );
    proof {
        assert(types@[6].children@.map_values(|c: String| c@) =~= default_nodes()[6].children);
        assert(node_view(types@[6]) == default_nodes()[6]);
        assert(node_views(types@) =~= default_nodes().take(7));
    }
    types.push(
        NodeType {
            id: "impl".to_owned(),
            name: "Implementation Phase".to_owned(),
            taxonomy_ref: Some("1.1".to_owned()),
            purpose_template: "Implement the approved plan for issue #{issue}.".to_owned(),
            fear_template: "Only modify files identified in the plan. All PRs target main. Run tests. \
                        Do NOT add unrelated changes. Do NOT touch CI/CD or config without explicit authorization.".to_owned(),
            prompt_template: "".to_owned(),
            role: OperatorRole::Agent,
            is_leaf: false,
            children: owned_list(&["create-branch", "apply-changes", "write-tests", "run-tests"]),
            success_criterion: Some("All changes applied, tests written, tests pass.".to_owned()),
            max_tool_calls: 3,
        },
    );
    proof {
        assert(types@[7].children@.map_values(|c: String| c@) =~= default_nodes()[7].children);
        assert(node_view(types@[7]) == default_nodes()[7]);
        assert(node_views(types@) =~= default_nodes().take(8));
    }
    types.push(
        NodeType {
            id: "create-branch".to_owned(),
            name: "Create Branch".to_owned(),
            taxonomy_ref: Some("10.1.1".to_owned()),
            purpose_template: "Create a feature branch from main for issue #{issue}.".to_owned(),
            fear_template: "Always branch from latest main. Pull first. Branch name from the plan. \
                        If branch already exists, check it out and verify it's based on latest main.".to_owned(),
            prompt_template: "Create the implementation branch:\n\n\
                         1. `git checkout main && git pull origin main`\n\
                         2. `git checkout -b {branch}`\n\
                         3. Verify: `git log --oneline -3`\n\n\
                         Output the branch name and the HEAD commit.".to_owned(),
            role: OperatorRole::Local,
            is_leaf: true,
            children: owned_list(&[]),
            success_criterion: Some("Branch exists, based on latest main.".to_owned()),
            max_tool_calls: 3,
        },
    );
    proof {
        assert(types@[8].children@.map_values(|c: String| c@) =~= default_nodes()[8].children);
        assert(node_view(types@[8]) == default_nodes()[8]);
        assert(node_views(types@) =~= default_nodes().take(9));
    }
    types.push(
        NodeType {
            id: "apply-changes".to_owned(),
            name: "Apply Code Changes".to_owned(),
            taxonomy_ref: Some("1.2".to_owned()),
            purpose_template: "Apply the implementation plan changes to the codebase.".to_owned(),
            fear_template: "Follow the plan EXACTLY. Do not add 'improvements' not in the plan. \
                        Do not modify files not in the plan. Read each file before modifying to confirm current state. \
                        Commit after each logical change with a descriptive message.".to_owned(),
            prompt_template: "Apply these changes from the approved plan:\n\n{plan}\n\n\
                         For each change:\n\
                         1. Read the file\n\
                         2. Make the change\n\
                         3. Verify the change looks correct\n\
                         4. `git add <file> && git commit -m '<descriptive message>'`\n\n\
                         Output what you changed and the commit hashes.".to_owned(),
            role: OperatorRole::Agent,
            is_leaf: true,
            children: owned_list(&[]),
            success_criterion: Some("All plan changes applied with commits.".to_owned()),
            max_tool_calls: 3,
        },
    );
    proof {
        assert(types@[9].children@.map_values(|c: String| c@) =~= default_nodes()[9].children);
        assert(node_view(types@[9]) == default_nodes()[9]);
        assert(node_views(types@) =~= default_nodes().take(10));
    }
    types.push(
        NodeType {
            id: "write-tests".to_owned(),
            name: "Write Tests".to_owned(),
            taxonomy_ref: Some("1.7".to_owned()),
            purpose_template: "Write or update tests for the changes made to fix issue #{issue}.".to_owned(),
            fear_template: "Tests must cover the SPECIFIC behavior changed. Not general tests. \
                        Each test has a clear name describing what it verifies. \
                        Use existing test patterns in the codebase. Do not introduce new test frameworks.".to_owned(),
            prompt_template: "Write tests for the implementation:\n\n{plan}\n\n\
                         1. Find existing test files near the changed code\n\
                         2. Add tests that verify the fix works\n\
                         3. Add tests that verify the old bug doesn't regress\n\
                         4. `git add <test files> && git commit -m 'test: add tests for #{issue}'`\n\n\
                         Output the test file paths and test names.".to_owned(),
            role: OperatorRole::Agent,
            is_leaf: true,
            children: owned_list(&[]),
            success_criterion: Some("New test files/cases committed that cover the change.".to_owned()),
            max_tool_calls: 3,
        },
    );
    proof {
        assert(types@[10].children@.map_values(|c: String| c@) =~= default_nodes()[10].children);
        assert(node_view(types@[10]) == default_nodes()[10]);
        assert(node_views(types@) =~= default_nodes().take(11));
    }
    types.push(
        NodeType {
            id: "run-tests".to_owned(),
            name: "Run Tests".to_owned(),
            taxonomy_ref: Some("1.7".to_owned()),
            purpose_template: "Run the test suite and verify all tests pass.".to_owned(),
            fear_template: "Run the FULL test suite, not just new tests. If tests fail, report EXACTLY which \
                        tests and the error output. Do NOT fix failing tests — report them for iteration.".to_owned(),
            prompt_template: "Run the test suite:\n\n\
                         1. `npm test` (or whatever the project uses)\n\
                         2. If tests pass: output 'TESTS PASS: <count> tests'\n\
                         3. If tests fail: output 'TESTS FAIL:' followed by each failing test name and error\n\n\
                         Do NOT fix failures. Just report them.".to_owned(),
            role: OperatorRole::Local,
            is_leaf: true,
            children: owned_list(&[]),
            success_criterion: Some("Output contains 'TESTS PASS' with count.".to_owned()),
            max_tool_calls: 3,
        },
    );
    proof {
        assert(types@[11].children@.map_values(|c: String| c@) =~= default_nodes()[11].children);
        assert(node_view(types@[11]) == default_nodes()[11]);
        assert(node_views(types@) =~= default_nodes().take(12));
    }
    types.push(
        NodeType {
            id: "pr".to_owned(),
            name: "PR Creation Phase".to_owned(),
            taxonomy_ref: None,
            purpose_template: "Create a clean PR for issue #{issue} with full template compliance.".to_owned(),
            fear_template: "Target main ONLY. Fill EVERY section of .github/PULL_REQUEST_TEMPLATE.md. \
                        If this touches CI/CD or config, add **** POTENTIALLY CATASTROPHIC UPDATE **** header.".to_owned(),
            prompt_template: "".to_owned(),
            role: OperatorRole::Agent,
            is_leaf: false,
            children: owned_list(&["fill-template", "push-and-create", "verify-ci"]),
            success_criterion: Some("PR created targeting main, template filled, CI green.".to_owned()),
            max_tool_calls: 3,
        },
    );
    proof {
        assert(types@[12].children@.map_values(|c: String| c@) =~= default_nodes()[12].children);
        assert(node_view(types@[12]) == default_nodes()[12]);
        assert(node_views(types@) =~= default_nodes().take(13));
    }
    types.push(
        NodeType {
            id: "fill-template".to_owned(),
            name: "Fill PR Template".to_owned(),
            taxonomy_ref: Some("1.13".to_owned()),
            purpose_template: "Fill out .github/PULL_REQUEST_TEMPLATE.md for issue #{issue}.".to_owned(),
            fear_template: "Read the template (1 tool call), then fill every section from the provided context. \
                        No 'N/A' unless truly not applicable. Include 'Closes #{issue}'. \
                        If changes touch CI/CD, add **** POTENTIALLY CATASTROPHIC UPDATE **** header.".to_owned(),
            prompt_template: "1. Read `.github/PULL_REQUEST_TEMPLATE.md`\n\
                         2. Fill every section using the implementation context provided\n\
                         3. Output the complete filled PR body text".to_owned(),
            role: OperatorRole::Read,
            is_leaf: true,
            children: owned_list(&[]),
            success_criterion: Some("PR body text exists with all template sections filled.".to_owned()),
            max_tool_calls: 1,
        },
    );
    proof {
        assert(types@[13].children@.map_values(|c: String| c@) =~= default_nodes()[13].children);
        assert(node_view(types@[13]) == default_nodes()[13]);
        assert(node_views(types@) =~= default_nodes().take(14));
    }
    types.push(
        NodeType {
            id: "push-and-create".to_owned(),
            name: "Push and Create PR".to_owned(),
            taxonomy_ref: Some("10.1.1".to_owned()),
            purpose_template: "Push the branch and create the PR on GitHub.".to_owned(),
            fear_template: "Target MUST be main. Double-check before pushing. Use the prepared PR body. \
                        If `gh pr create` fails, report the error — do NOT retry with different target.".to_owned(),
            prompt_template: "Push and create the PR:\n\n\
                         1. `git push origin {branch}`\n\
                         2. `gh pr create --base main --title '<title>' --body-file <template-file> --repo {repo}`\n\
                         3. Output the PR URL.".to_owned(),
            role: OperatorRole::Agent,
            is_leaf: true,
            children: owned_list(&[]),
            success_criterion: Some("PR URL output from gh pr create.".to_owned()),
            max_tool_calls: 3,
        },
    );
    proof {
        assert(types@[14].children@.map_values(|c: String| c@) =~= default_nodes()[14].children);
        assert(node_view(types@[14]) == default_nodes()[14]);
        assert(node_views(types@) =~= default_nodes().take(15));
    }
    types.push(
        NodeType {
            id: "verify-ci".to_owned(),
            name: "Verify CI Status".to_owned(),
            taxonomy_ref: Some("2.5.1".to_owned()),
            purpose_template: "Watch CI and report pass/fail status.".to_owned(),
            fear_template: "Wait up to 5 minutes for CI. Check every 30 seconds. \
                        If CI fails, report the failing job and log output. Do NOT attempt to fix — report only.".to_owned(),
            prompt_template: "Monitor CI for the newly created PR:\n\n\
                         1. `gh pr checks {branch} --repo {repo} --watch`\n\
                         2. If all checks pass: output 'CI PASS'\n\
                         3. If any check fails: output 'CI FAIL: <check-name>: <error summary>'".to_owned(),
            role: OperatorRole::Poke,
            is_leaf: true,
            children: owned_list(&[]),
            success_criterion: Some("Output contains 'CI PASS' or 'CI FAIL' with details.".to_owned()),
            max_tool_calls: 3,
        },
    );
    proof {
        assert(types@[15].children@.map_values(|c: String| c@) =~= default_nodes()[15].children);
        assert(node_view(types@[15]) == default_nodes()[15]);
        assert(node_views(types@) =~= default_nodes().take(16));
    }

    proof {
        reveal_strlit("issue");
        reveal_strlit("analysis");
        reveal_strlit("read-issue");
        reveal_strlit("trace-entrypoints");
        reveal_strlit("identify-files");
        reveal_strlit("check-conflicts");
        reveal_strlit("synthesize-plan");
        reveal_strlit("impl");
        reveal_strlit("create-branch");
        reveal_strlit("apply-changes");
        reveal_strlit("write-tests");
        reveal_strlit("run-tests");
        reveal_strlit("pr");
        reveal_strlit("fill-template");
        reveal_strlit("push-and-create");
        reveal_strlit("verify-ci");
        assert(default_nodes().take(16) =~= default_nodes());
        assert(type_ids(types@) =~= default_ids()) by {
            assert forall|i: int| 0 <= i < 16 implies type_ids(types@)[i] == default_ids()[i] by {
                assert(node_views(types@)[i] == default_nodes()[i]);
            }
        }
        assert(leaf_flags(types@) =~= seq![false, false, true, true, true, true, true, false, true, true, true, true, false, true, true, true]);
        assert(child_counts(types@) =~= seq![3nat, 5nat, 0nat, 0nat, 0nat, 0nat, 0nat, 4nat, 0nat, 0nat, 0nat, 0nat, 3nat, 0nat, 0nat, 0nat]);
        assert forall|i: int| 0 <= i < types@.len() implies ((#[trigger] types@[i]).is_leaf <==> types@[i].children@.len() == 0) by {
            assert(leaf_flags(types@)[i] == types@[i].is_leaf);
            assert(child_counts(types@)[i] == types@[i].children@.len());
        }
        assert forall|i: int, j: int| 0 <= i < j < types@.len() implies types@[i].id@ != types@[j].id@ by {
            assert(type_ids(types@)[i] == types@[i].id@);
            assert(type_ids(types@)[j] == types@[j].id@);
            lemma_default_ids_distinct(i, j);
        }
    }
    NodeTypeRegistry { types }
}

} // verus!
