//! Addresses in the execution tree of a knowledge-graph run, the artifacts written at each
//! address, and where the local file-system backend keeps them.

use vstd::prelude::*;
use crate::text::{
    append_chars, chars_of, join_path, path_join, starts_with, string_from_chars,
};

verus! {

broadcast use vstd::string::group_string_axioms;

/// An address in the execution tree, e.g. `/root/issue/183/analysis`.
#[derive(Clone, Debug)]
pub struct GraphAddress(pub String);

impl GraphAddress {
    /// The root address, `/root`.
    pub fn root() -> (a: Self)
        ensures
            a.0@ == "/root"@,
    {
        GraphAddress("/root".to_owned())
    }

    /// The address of a child: this address, `/`, and the segment.
    pub fn child(&self, segment: &str) -> (a: Self)
        ensures
            a.0@ == self.0@ + seq!['/'] + segment@,
    {
        let mut out = chars_of(self.0.as_str());
        out.push('/');
        append_chars(&mut out, chars_of(segment).as_slice());
        GraphAddress(string_from_chars(out.as_slice()))
    }

    /// The address's text.
    pub fn as_str(&self) -> (s: &str)
        ensures
            s@ == self.0@,
    {
        self.0.as_str()
    }

    /// The address's text, as it is displayed.
    pub fn to_string(&self) -> (s: String)
        ensures
            s@ == self.0@,
    {
        self.0.clone()
    }
}

/// The artifacts the executor writes at an address.
#[derive(Debug, Clone, Copy, PartialEq, Eq, Structural)]
pub enum Artifact {
    /// The task given to the agent.
    Prompt,
    /// Constraints.
    Fear,
    /// The context snapshot.
    Ego,
    /// Files read for scoping.
    Context,
    /// The agent's result.
    Output,
    /// The session transcript.
    Transcript,
    /// A gate's decision.
    Decision,
    /// Tokens, wall time and outcome.
    Metrics,
    /// Run metadata.
    Manifest,
    /// The final summary.
    Report,
}

/// The file name of an artifact.
pub open spec fn artifact_file(a: Artifact) -> Seq<char> {
    match a {
        Artifact::Prompt => "prompt.md"@,
        Artifact::Fear => "fear.md"@,
        Artifact::Ego => "ego.md"@,
        Artifact::Context => "context.md"@,
        Artifact::Output => "output.md"@,
        Artifact::Transcript => "ctx.jsonl"@,
        Artifact::Decision => "decision.md"@,
        Artifact::Metrics => "metrics.yaml"@,
        Artifact::Manifest => "manifest.yaml"@,
        Artifact::Report => "report.md"@,
    }
}

impl Artifact {
    /// The file the artifact is written to.
    pub fn filename(&self) -> (f: &'static str)
        ensures
            f@ == artifact_file(*self),
    {
        match self {
            Artifact::Prompt => "prompt.md",
            Artifact::Fear => "fear.md",
            Artifact::Ego => "ego.md",
            Artifact::Context => "context.md",
            Artifact::Output => "output.md",
            Artifact::Transcript => "ctx.jsonl",
            Artifact::Decision => "decision.md",
            Artifact::Metrics => "metrics.yaml",
            Artifact::Manifest => "manifest.yaml",
            Artifact::Report => "report.md",
        }
    }
}

/// `s` without every leading copy of `p` (std's `trim_start_matches` with a string).
pub open spec fn trim_prefix_all(s: Seq<char>, p: Seq<char>) -> Seq<char>
    decreases s.len(),
{
    if p.len() > 0 && starts_with(s, p) {
        trim_prefix_all(s.skip(p.len() as int), p)
    } else {
        s
    }
}

/// `s` with leading copies of the non-empty `p` removed.
pub fn trim_prefix_chars(s: Vec<char>, p: &Vec<char>) -> (r: Vec<char>)
    requires
        p@.len() > 0,
    ensures
        r@ == trim_prefix_all(s@, p@),
{
    let mut start: usize = 0;
    let n = s.len();
    assert(s@.skip(0) =~= s@);
    while p.len() <= n - start && crate::text::matches_at_exec(s.as_slice(), p.as_slice(), start)
        invariant
            start <= n,
            n == s@.len(),
            p@.len() > 0,
            trim_prefix_all(s@.skip(start as int), p@) == trim_prefix_all(s@, p@),
        decreases n - start,
    {
        proof {
            let rest = s@.skip(start as int);
            assert(rest.take(p@.len() as int) =~= s@.subrange(start as int, start + p@.len()));
            assert(rest.skip(p@.len() as int) =~= s@.skip(start + p@.len()));
        }
        start = start + p.len();
    }
    proof {
        let rest = s@.skip(start as int);
        if p@.len() <= rest.len() {
            assert(rest.take(p@.len() as int) =~= s@.subrange(start as int, start + p@.len()));
        }
    }
    let mut r: Vec<char> = Vec::new();
    let mut i: usize = start;
    while i < n
        invariant
            start <= i <= n,
            n == s@.len(),
            r@ == s@.subrange(start as int, i as int),
        decreases n - i,
    {
        r.push(s[i]);
        assert(s@.subrange(start as int, i + 1) =~= s@.subrange(start as int, i as int).push(s@[i as int]));
        i = i + 1;
    }
    assert(s@.subrange(start as int, n as int) =~= s@.skip(start as int));
    r
}

/// The directory of an address under a run: the address without its leading `/root` and
/// slashes, or `root` for the root itself.
pub open spec fn address_dir(addr: Seq<char>) -> Seq<char> {
    let rel = trim_prefix_all(trim_prefix_all(addr, "/root"@), seq!['/']);
    if rel.len() == 0 {
        "root"@
    } else {
        rel
    }
}

/// Keeps a run's artifacts on the local file system, under a base directory.
pub struct LocalFsDriver {
    base_dir: String,
}

impl LocalFsDriver {
    /// The base directory.
    pub closed spec fn base(&self) -> Seq<char> {
        self.base_dir@
    }

    /// A driver writing under `base_dir`.
    pub fn new(base_dir: &str) -> (d: Self)
        ensures
            d.base() == base_dir@,
    {
        LocalFsDriver { base_dir: base_dir.to_owned() }
    }

    /// Where an artifact of an address is kept: the base directory, the run, the address's
    /// directory, and the artifact's file name.
    pub fn artifact_path(&self, run_id: &str, addr: &GraphAddress, artifact: Artifact) -> (p:
        String)
        ensures
            p@ == join_path(
                join_path(join_path(self.base(), run_id@), address_dir(addr.0@)),
                artifact_file(artifact),
            ),
    {
        let root = chars_of("/root");
        proof {
            reveal_strlit("/root");
        }
        let slash = vec!['/'];
        assert(slash@ =~= seq!['/']);
        let rel1 = trim_prefix_chars(chars_of(addr.0.as_str()), &root);
        let rel = trim_prefix_chars(rel1, &slash);
        let dir = if rel.len() == 0 {
            "root".to_owned()
        } else {
            string_from_chars(rel.as_slice())
        };
        let run_dir = path_join(self.base_dir.as_str(), run_id);
        let node_dir = path_join(run_dir.as_str(), dir.as_str());
        path_join(node_dir.as_str(), artifact.filename())
    }

    /// Where a run's artifacts are kept.
    pub fn run_location(&self, run_id: &str) -> (p: String)
        ensures
            p@ == join_path(self.base(), run_id@),
    {
        path_join(self.base_dir.as_str(), run_id)
    }
}

} // verus!
