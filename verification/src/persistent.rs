//! Persistent issue and pull-request nodes: one long-lived agent per issue or pull request,
//! under a stable session key whose context file survives across runs.

use vstd::prelude::*;
use crate::text::{
    append_chars, chars_of, decimal, decimal_string_u64, join_path, path_join, replace_all,
    replace_str, string_from_chars,
};
use crate::types::SessionKey;

verus! {

broadcast use vstd::string::group_string_axioms;

/// The stable session key of a node: the prefix, the repository with `/` turned into `-`, a
/// hyphen, and the number.
pub open spec fn node_key(prefix: Seq<char>, repo: Seq<char>, number: nat) -> Seq<char> {
    prefix + replace_all(repo, seq!['/'], seq!['-']) + seq!['-'] + decimal(number)
}

/// The context file of a node: `<workspace>/.ctx/<key>.ctx`.
pub open spec fn node_ctx_path(workspace: Seq<char>, key: Seq<char>) -> Seq<char> {
    join_path(join_path(workspace, ".ctx"@), key + ".ctx"@)
}

fn make_key(prefix: &str, repo: &str, number: u64) -> (k: String)
    ensures
        k@ == node_key(prefix@, repo@, number as nat),
{
    let slash = "/".to_owned();
    proof {
        reveal_strlit("/");
        reveal_strlit("-");
        assert(slash@ =~= seq!['/']);
    }
    let flat = replace_str(repo, slash.as_str(), "-");
    assert("-"@ =~= seq!['-']);
    let mut out = chars_of(prefix);
    append_chars(&mut out, chars_of(flat.as_str()).as_slice());
    out.push('-');
    append_chars(&mut out, chars_of(decimal_string_u64(number).as_str()).as_slice());
    string_from_chars(out.as_slice())
}

fn ctx_path_of(workspace: &str, key: &SessionKey) -> (p: String)
    ensures
        p@ == node_ctx_path(workspace@, key@),
{
    let dir = path_join(workspace, ".ctx");
    let mut name = chars_of(key.as_str());
    append_chars(&mut name, chars_of(".ctx").as_slice());
    let file = string_from_chars(name.as_slice());
    path_join(dir.as_str(), file.as_str())
}

/// A persistent issue node: session key `kg-issue-<repo>-<number>`.
pub struct IssueNode {
    pub issue: u64,
    pub repo: String,
    pub session_key: SessionKey,
    pub workspace: String,
}

impl IssueNode {
    /// The node of issue `issue` of `repo`, keeping its context under `workspace`.
    pub fn new(repo: &str, issue: u64, workspace: &str) -> (n: Self)
        ensures
            n.issue == issue,
            n.repo@ == repo@,
            n.session_key@ == node_key("kg-issue-"@, repo@, issue as nat),
            n.workspace@ == workspace@,
    {
        let key = make_key("kg-issue-", repo, issue);
        IssueNode {
            issue,
            repo: repo.to_owned(),
            session_key: SessionKey::from(key),
            workspace: workspace.to_owned(),
        }
    }

    /// The node's context file.
    pub fn ctx_path(&self) -> (p: String)
        ensures
            p@ == node_ctx_path(self.workspace@, self.session_key@),
    {
        ctx_path_of(self.workspace.as_str(), &self.session_key)
    }
}

/// A persistent pull-request node: session key `kg-pr-<repo>-<number>`.
pub struct PrNode {
    pub pr: u64,
    pub repo: String,
    pub session_key: SessionKey,
    pub workspace: String,
}

impl PrNode {
    /// The node of pull request `pr` of `repo`, keeping its context under `workspace`.
    pub fn new(repo: &str, pr: u64, workspace: &str) -> (n: Self)
        ensures
            n.pr == pr,
            n.repo@ == repo@,
            n.session_key@ == node_key("kg-pr-"@, repo@, pr as nat),
            n.workspace@ == workspace@,
    {
        let key = make_key("kg-pr-", repo, pr);
        PrNode {
            pr,
            repo: repo.to_owned(),
            session_key: SessionKey::from(key),
            workspace: workspace.to_owned(),
        }
    }

    /// The node's context file.
    pub fn ctx_path(&self) -> (p: String)
        ensures
            p@ == node_ctx_path(self.workspace@, self.session_key@),
    {
        ctx_path_of(self.workspace.as_str(), &self.session_key)
    }
}

/// Two nodes of the same kind get the same key exactly when they are for the same repository
/// text and number.
pub proof fn lemma_node_key_injective_number(prefix: Seq<char>, repo: Seq<char>, a: nat, b: nat)
    requires
        node_key(prefix, repo, a) == node_key(prefix, repo, b),
    ensures
        a == b,
{
    let head = prefix + replace_all(repo, seq!['/'], seq!['-']) + seq!['-'];
    assert(node_key(prefix, repo, a) == head + decimal(a));
    assert(node_key(prefix, repo, b) == head + decimal(b));
    assert(decimal(a) =~= node_key(prefix, repo, a).skip(head.len() as int));
    assert(decimal(b) =~= node_key(prefix, repo, b).skip(head.len() as int));
    crate::text::lemma_decimal_injective(a, b);
}

} // verus!
