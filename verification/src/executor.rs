//! The code side of the knowledge-graph executor: what a leaf agent is given (purpose,
//! constraints, context), how a parent hands its children the outputs of earlier siblings, how
//! outputs are aggregated, and how a leaf's output is judged against its success criterion.

use vstd::prelude::*;
use crate::resource::{trim_prefix_all, trim_prefix_chars};
use crate::registry::{rendered, render_template, NodeType, TemplateVars, AGENTIMOLT_ROOT_FEAR};
use crate::text::{
    append_chars, chars_of, contains_seq, decimal, decimal_string, join_seq, lines, lines_of,
    split_chars, split_seq, starts_with, str_contains, str_starts_with, string_from_chars,
    trim_chars, trim_ws, views, byte_len, utf8_len, contains_chars_at_any, is_ws, trim_start_ws, trim_end_ws,
};

verus! {

broadcast use vstd::string::group_string_axioms;

/// What code prepares for every agent: why it exists, what it sees, what it must not do.
#[derive(Clone, Debug)]
pub struct NodePrep {
    pub purpose: String,
    pub ego: String,
    pub fear: String,
}

/// The configuration of one run.
pub struct RunConfig {
    pub purpose: String,
    /// The target resource, e.g. `github.com/owner/repo/issues/183`.
    pub target: String,
    pub issue: u64,
    pub system_prompt: String,
    pub analysis_prompt: String,
    pub context_summary: String,
    pub max_iterations: usize,
}

/// The result of a node.
#[derive(Clone, Debug)]
pub struct NodeResult {
    pub output: String,
    pub tokens: usize,
    pub wall_ms: u64,
    pub success: bool,
    /// For parents: (child id, output) in order.
    pub child_outputs: Vec<(String, String)>,
}

/// The constraints a leaf is given: the root constraints, a rule, and its own.
pub open spec fn leaf_fear(t: NodeType, vars: TemplateVars) -> Seq<char> {
    AGENTIMOLT_ROOT_FEAR@ + "\n\n---\n\n"@ + rendered(t.fear_template@, vars)
}

/// Prepares a leaf: its purpose and constraints rendered, the parent's output as what it sees;
/// and its prompt.
pub fn prepare_leaf(node_type: &NodeType, vars: &TemplateVars) -> (r: (NodePrep, String))
    ensures
        r.0.purpose@ == rendered(node_type.purpose_template@, *vars),
        r.0.fear@ == leaf_fear(*node_type, *vars),
        r.0.ego@ == vars.parent_output@,
        r.1@ == rendered(node_type.prompt_template@, *vars),
{
    let purpose = render_template(node_type.purpose_template.as_str(), vars);
    let node_fear = render_template(node_type.fear_template.as_str(), vars);
    let prompt = render_template(node_type.prompt_template.as_str(), vars);
    let mut fear = chars_of(AGENTIMOLT_ROOT_FEAR);
    append_chars(&mut fear, chars_of("\n\n---\n\n").as_slice());
    append_chars(&mut fear, chars_of(node_fear.as_str()).as_slice());
    let prep = NodePrep {
        purpose,
        ego: vars.parent_output.clone(),
        fear: string_from_chars(fear.as_slice()),
    };
    (prep, prompt)
}

/// The system prompt of a leaf: its purpose, its constraints and its tool budget.
pub open spec fn leaf_system(purpose: Seq<char>, fear: Seq<char>, max_tool_calls: nat) -> Seq<char> {
    "PURPOSE: "@ + purpose + "\n\nFEAR (violating these is failure):\n"@ + fear
        + "\n\nYou have "@ + decimal(max_tool_calls) + " tool calls. No more. Execute precisely."@
}

/// The system prompt of a leaf (see `leaf_system`).
pub fn leaf_system_prompt(prep: &NodePrep, max_tool_calls: u32) -> (s: String)
    ensures
        s@ == leaf_system(prep.purpose@, prep.fear@, max_tool_calls as nat),
{
    let mut out = chars_of("PURPOSE: ");
    append_chars(&mut out, chars_of(prep.purpose.as_str()).as_slice());
    append_chars(&mut out, chars_of("\n\nFEAR (violating these is failure):\n").as_slice());
    append_chars(&mut out, chars_of(prep.fear.as_str()).as_slice());
    append_chars(&mut out, chars_of("\n\nYou have ").as_slice());
    append_chars(&mut out, chars_of(decimal_string(max_tool_calls as usize).as_str()).as_slice());
    append_chars(&mut out, chars_of(" tool calls. No more. Execute precisely.").as_slice());
    string_from_chars(out.as_slice())
}

/// The message a leaf receives: the prompt, after what the parent prepared when there is any.
pub fn leaf_user_message(ego: &str, prompt: &str) -> (m: String)
    ensures
        ego@.len() == 0 ==> m@ == prompt@,
        ego@.len() > 0 ==> m@ == ego@ + "\n\n---\n\n"@ + prompt@,
{
    if ego.is_empty() {
        return prompt.to_owned();
    }
    let mut out = chars_of(ego);
    append_chars(&mut out, chars_of("\n\n---\n\n").as_slice());
    append_chars(&mut out, chars_of(prompt).as_slice());
    string_from_chars(out.as_slice())
}

/// The text of (id, output) pairs.
pub open spec fn outputs_view(o: Seq<(String, String)>) -> Seq<(Seq<char>, Seq<char>)> {
    o.map_values(|p: (String, String)| (p.0@, p.1@))
}

/// Each output headed `### <id> output:`.
pub open spec fn sibling_blocks(o: Seq<(Seq<char>, Seq<char>)>) -> Seq<Seq<char>> {
    o.map_values(|p: (Seq<char>, Seq<char>)| "### "@ + p.0 + " output:\n"@ + p.1)
}

/// Each output headed `## <id>`.
pub open spec fn aggregate_blocks(o: Seq<(Seq<char>, Seq<char>)>) -> Seq<Seq<char>> {
    o.map_values(|p: (Seq<char>, Seq<char>)| "## "@ + p.0 + "\n"@ + p.1)
}

/// Joins the given blocks, each built from an (id, output) pair by `head`, `mid` and the
/// output, with `sep` between them.
fn join_blocks(outputs: &Vec<(String, String)>, head: &str, mid: &str, sep: &str) -> (r: String)
    ensures
        r@ == join_seq(
            outputs_view(outputs@).map_values(|p: (Seq<char>, Seq<char>)| head@ + p.0 + mid@ + p.1),
            sep@,
        ),
{
    let ghost blocks = outputs_view(outputs@).map_values(
        |p: (Seq<char>, Seq<char>)| head@ + p.0 + mid@ + p.1,
    );
    let mut out: Vec<char> = Vec::new();
    let mut i: usize = 0;
    assert(blocks.take(0) =~= Seq::<Seq<char>>::empty());
    while i < outputs.len()
        invariant
            i <= outputs@.len(),
            blocks == outputs_view(outputs@).map_values(
                |p: (Seq<char>, Seq<char>)| head@ + p.0 + mid@ + p.1,
            ),
            out@ == join_seq(blocks.take(i as int), sep@),
        decreases outputs.len() - i,
    {
        let ghost before = out@;
        if i > 0 {
            append_chars(&mut out, chars_of(sep).as_slice());
        }
        append_chars(&mut out, chars_of(head).as_slice());
        append_chars(&mut out, chars_of(outputs[i].0.as_str()).as_slice());
        append_chars(&mut out, chars_of(mid).as_slice());
        append_chars(&mut out, chars_of(outputs[i].1.as_str()).as_slice());
        proof {
            let pre = blocks.take(i + 1);
            assert(pre.drop_last() =~= blocks.take(i as int));
            assert(pre.last() == head@ + outputs@[i as int].0@ + mid@ + outputs@[i as int].1@);
            if i == 0 {
                assert(pre =~= seq![pre.last()]);
                assert(out@ =~= join_seq(pre, sep@));
            } else {
                assert(out@ =~= join_seq(pre, sep@));
            }
        }
        i = i + 1;
    }
    assert(blocks.take(outputs@.len() as int) =~= blocks);
    string_from_chars(out.as_slice())
}

/// The outputs of the earlier siblings as a child sees them: each headed `### <id> output:`,
/// separated by blank lines.
pub fn sibling_context(outputs: &Vec<(String, String)>) -> (r: String)
    ensures
        r@ == join_seq(
            outputs_view(outputs@).map_values(
                |p: (Seq<char>, Seq<char>)| "### "@ + p.0 + " output:\n"@ + p.1,
            ),
            "\n\n"@,
        ),
{
    join_blocks(outputs, "### ", " output:\n", "\n\n")
}

/// A parent's output: each child's output headed `## <id>`, separated by rules.
pub fn aggregate_outputs(outputs: &Vec<(String, String)>) -> (r: String)
    ensures
        r@ == join_seq(
            outputs_view(outputs@).map_values(|p: (Seq<char>, Seq<char>)| "## "@ + p.0 + "\n"@ + p.1),
            "\n\n---\n\n"@,
        ),
{
    join_blocks(outputs, "## ", "\n", "\n\n---\n\n")
}

/// The output of the first entry with the given id.
pub open spec fn first_output(o: Seq<(Seq<char>, Seq<char>)>, id: Seq<char>) -> Option<Seq<char>>
    decreases o.len(),
{
    if o.len() == 0 {
        None
    } else if o[0].0 == id {
        Some(o[0].1)
    } else {
        first_output(o.drop_first(), id)
    }
}

/// The output of the first entry with the given id.
pub fn find_output(outputs: &Vec<(String, String)>, id: &str) -> (r: Option<String>)
    ensures
        (match r {
            Some(s) => Some(s@),
            None => None,
        }) == first_output(outputs_view(outputs@), id@),
{
    let key = id.to_owned();
    let mut i: usize = 0;
    let ghost ov = outputs_view(outputs@);
    assert(ov.skip(0) =~= ov);
    while i < outputs.len()
        invariant
            i <= outputs@.len(),
            key@ == id@,
            ov == outputs_view(outputs@),
            first_output(ov.skip(i as int), id@) == first_output(ov, id@),
        decreases outputs.len() - i,
    {
        assert(ov.skip(i as int)[0] == (outputs@[i as int].0@, outputs@[i as int].1@));
        if outputs[i].0 == key {
            return Some(outputs[i].1.clone());
        }
        assert(ov.skip(i as int).drop_first() =~= ov.skip(i + 1));
        i = i + 1;
    }
    assert(ov.skip(i as int) =~= Seq::<(Seq<char>, Seq<char>)>::empty());
    None
}

/// Whether a line names a branch: it starts with `fix-`, `feat-` or `issue-`.
pub open spec fn is_branch_line(l: Seq<char>) -> bool {
    starts_with(l, "fix-"@) || starts_with(l, "feat-"@) || starts_with(l, "issue-"@)
}

/// The first line of `ls`, trimmed, that names a branch.
pub open spec fn first_branch(ls: Seq<Seq<char>>) -> Option<Seq<char>>
    decreases ls.len(),
{
    if ls.len() == 0 {
        None
    } else if is_branch_line(trim_ws(ls[0])) {
        Some(trim_ws(ls[0]))
    } else {
        first_branch(ls.drop_first())
    }
}

/// The branch named in the output of the branch-creating child.
pub fn branch_from_output(text: &str) -> (b: Option<String>)
    ensures
        (match b {
            Some(s) => Some(s@),
            None => None,
        }) == first_branch(lines_of(text@)),
{
    let ls = lines(text);
    let ghost lv = views(ls@);
    let mut i: usize = 0;
    assert(lv.skip(0) =~= lv);
    while i < ls.len()
        invariant
            i <= ls@.len(),
            lv == views(ls@),
            lv == lines_of(text@),
            first_branch(lv.skip(i as int)) == first_branch(lv),
        decreases ls.len() - i,
    {
        let t = string_from_chars(trim_chars(ls[i].as_slice()).as_slice());
        assert(lv.skip(i as int)[0] == ls@[i as int]@);
        if str_starts_with(t.as_str(), "fix-") || str_starts_with(t.as_str(), "feat-")
            || str_starts_with(t.as_str(), "issue-") {
            return Some(t);
        }
        assert(lv.skip(i as int).drop_first() =~= lv.skip(i + 1));
        i = i + 1;
    }
    assert(lv.skip(i as int) =~= Seq::<Seq<char>>::empty());
    None
}

/// The branch a child is told: the one the branch-creating child named, else the parent's,
/// else `fix-<issue>-auto`.
pub open spec fn child_branch(vars: TemplateVars, o: Seq<(Seq<char>, Seq<char>)>) -> Seq<char> {
    let named = match first_output(o, "create-branch"@) {
        Some(t) => first_branch(lines_of(t)),
        None => None,
    };
    let b = match named {
        Some(n) => n,
        None => vars.branch@,
    };
    if b.len() == 0 {
        "fix-"@ + vars.issue@ + "-auto"@
    } else {
        b
    }
}

/// The template values for the next child of a parent, given the (id, output) pairs so far:
/// the siblings' outputs as the parent output, the plan from the plan-synthesizing child, and
/// the branch (see `child_branch`).
pub fn child_vars(vars: &TemplateVars, outputs: &Vec<(String, String)>) -> (v: TemplateVars)
    ensures
        v.issue == vars.issue && v.repo == vars.repo && v.context == vars.context,
        v.files == vars.files && outputs_view(v.extra@) == outputs_view(vars.extra@),
        v.parent_output@ == join_seq(
            outputs_view(outputs@).map_values(
                |p: (Seq<char>, Seq<char>)| "### "@ + p.0 + " output:\n"@ + p.1,
            ),
            "\n\n"@,
        ),
        v.plan@ == match first_output(outputs_view(outputs@), "synthesize-plan"@) {
            Some(p) => p,
            None => vars.plan@,
        },
        v.branch@ == child_branch(*vars, outputs_view(outputs@)),
{
    let parent_output = sibling_context(outputs);
    let plan = match find_output(outputs, "synthesize-plan") {
        Some(p) => p,
        None => vars.plan.clone(),
    };
    let named = match find_output(outputs, "create-branch") {
        Some(t) => branch_from_output(t.as_str()),
        None => None,
    };
    let b = match named {
        Some(n) => n,
        None => vars.branch.clone(),
    };
    let branch = if b.as_str().is_empty() {
        let mut out = chars_of("fix-");
        append_chars(&mut out, chars_of(vars.issue.as_str()).as_slice());
        append_chars(&mut out, chars_of("-auto").as_slice());
        string_from_chars(out.as_slice())
    } else {
        b
    };
    TemplateVars {
        issue: vars.issue.clone(),
        repo: vars.repo.clone(),
        context: vars.context.clone(),
        parent_output,
        branch,
        files: vars.files.clone(),
        plan,
        extra: copy_pairs(&vars.extra),
    }
}

/// A copy of a list of string pairs.
pub fn copy_pairs(v: &Vec<(String, String)>) -> (r: Vec<(String, String)>)
    ensures
        outputs_view(r@) == outputs_view(v@),
{
    let mut r: Vec<(String, String)> = Vec::new();
    let mut i: usize = 0;
    while i < v.len()
        invariant
            i <= v@.len(),
            outputs_view(r@) == outputs_view(v@).take(i as int),
        decreases v.len() - i,
    {
        let ghost before = r@;
        let a = v[i].0.clone();
        let b = v[i].1.clone();
        r.push((a, b));
        assert(r@ == before.push((a, b)));
        assert(outputs_view(r@) =~= outputs_view(before).push((a@, b@)));
        assert(outputs_view(r@) =~= outputs_view(v@).take(i + 1));
        i = i + 1;
    }
    assert(outputs_view(v@).take(v@.len() as int) =~= outputs_view(v@));
    r
}

/// `s` split at every character that `seps` holds (std's `split` with a set of characters).
pub open spec fn split_any(s: Seq<char>, seps: Seq<char>) -> Seq<Seq<char>>
    decreases s.len(),
{
    if s.len() == 0 {
        seq![Seq::empty()]
    } else if seps.contains(s[0]) {
        seq![Seq::<char>::empty()] + split_any(s.drop_first(), seps)
    } else {
        let r = split_any(s.drop_first(), seps);
        r.update(0, seq![s[0]] + r[0])
    }
}

proof fn lemma_split_any_nonempty(s: Seq<char>, seps: Seq<char>)
    ensures
        split_any(s, seps).len() >= 1,
    decreases s.len(),
{
    if s.len() > 0 {
        lemma_split_any_nonempty(s.drop_first(), seps);
    }
}

/// Splits `v` at every character that `seps` holds.
fn split_any_chars(v: &[char], seps: &[char]) -> (parts: Vec<Vec<char>>)
    ensures
        views(parts@) == split_any(v@, seps@),
{
    let mut parts: Vec<Vec<char>> = Vec::new();
    let mut cur: Vec<char> = Vec::new();
    let mut i: usize = v.len();
    // Built from the end: `cur` is the piece in progress, `parts` the pieces after it.
    let mut tail: Vec<Vec<char>> = Vec::new();
    assert(v@.skip(v@.len() as int) =~= Seq::<char>::empty());
    assert(views(tail@) =~= Seq::<Seq<char>>::empty());
    while i > 0
        invariant
            i <= v@.len(),
            seq![cur@] + views(tail@).reverse() == split_any(v@.skip(i as int), seps@),
        decreases i,
    {
        i = i - 1;
        let c = v[i];
        let ghost rest = v@.skip(i + 1);
        let ghost here = v@.skip(i as int);
        proof {
            assert(here.drop_first() =~= rest);
            assert(here[0] == c);
            lemma_split_any_nonempty(rest, seps@);
        }
        let mut is_sep = false;
        let mut k: usize = 0;
        while k < seps.len()
            invariant
                k <= seps@.len(),
                is_sep <==> exists|j: int| 0 <= j < k && seps@[j] == c,
            decreases seps.len() - k,
        {
            if seps[k] == c {
                is_sep = true;
            }
            k = k + 1;
        }
        proof {
            if seps@.contains(c) {
                let j = choose|j: int| 0 <= j < seps@.len() && seps@[j] == c;
            }
        }
        if is_sep {
            let ghost old_tail = views(tail@);
            let ghost old_cur = cur@;
            tail.push(cur);
            cur = Vec::new();
            proof {
                assert(views(tail@) =~= old_tail.push(old_cur));
                assert(views(tail@).reverse() =~= seq![old_cur] + old_tail.reverse());
                assert(seq![cur@] + views(tail@).reverse() =~= seq![Seq::<char>::empty()] + (seq![old_cur] + old_tail.reverse()));
            }
        } else {
            let ghost old_cur = cur@;
            let mut nc: Vec<char> = Vec::new();
            nc.push(c);
            append_chars(&mut nc, cur.as_slice());
            cur = nc;
            proof {
                let r = seq![old_cur] + views(tail@).reverse();
                assert(r[0] == old_cur);
                assert(seq![cur@] + views(tail@).reverse() =~= r.update(0, seq![c] + r[0]));
            }
        }
    }
    assert(v@.skip(0) =~= v@);
    let mut j: usize = tail.len();
    parts.push(cur);
    let ghost tv = views(tail@);
    while j > 0
        invariant
            j <= tail@.len(),
            tv == views(tail@),
            views(parts@).len() >= 1,
            views(parts@) + tv.take(j as int).reverse() == split_any(v@, seps@),
        decreases j,
    {
        j = j - 1;
        let piece = tail[j].clone();
        let ghost before = views(parts@);
        parts.push(piece);
        proof {
            assert(views(parts@) =~= before.push(tv[j as int]));
            assert(tv.take(j + 1).reverse() =~= seq![tv[j as int]] + tv.take(j as int).reverse());
            assert(views(parts@) + tv.take(j as int).reverse() =~= before + tv.take(j + 1).reverse());
        }
    }
    assert(tv.take(0).reverse() =~= Seq::<Seq<char>>::empty());
    assert(views(parts@) + tv.take(0).reverse() =~= views(parts@));
    parts
}

/// The entries of `s` at odd positions (the quoted parts of a text split at quotes).
pub open spec fn odd_entries(s: Seq<Seq<char>>) -> Seq<Seq<char>> {
    Seq::new(s.len() / 2, |k: int| s[2 * k + 1])
}

/// The section headers a criterion names: after each `##`, `## ` and the first word (up to a
/// comma, period or space), trimmed; headers of three bytes or fewer dropped.
pub open spec fn header_items(pieces: Seq<Seq<char>>) -> Seq<Seq<char>>
    decreases pieces.len(),
{
    if pieces.len() == 0 {
        Seq::empty()
    } else {
        let r = header_items(pieces.drop_last());
        let h = "## "@ + trim_ws(split_any(pieces.last(), seq![',', '.', ' '])[0]);
        if byte_len(h) > 3 {
            r.push(h)
        } else {
            r
        }
    }
}

/// Whether `output` holds every entry of `checks`.
pub open spec fn holds_all(output: Seq<char>, checks: Seq<Seq<char>>) -> bool {
    forall|k: int| 0 <= k < checks.len() ==> contains_seq(output, #[trigger] checks[k])
}

/// Whether a leaf's output meets its success criterion: no criterion always passes; a
/// criterion that says "contains" is checked for its quoted strings, or else for the section
/// headers it names; otherwise (or when it names neither) any non-blank output passes.
pub open spec fn meets_criterion(criterion: Option<Seq<char>>, output: Seq<char>) -> bool {
    match criterion {
        None => true,
        Some(c) => {
            let checks = odd_entries(split_any(c, seq!['\'', '"']));
            let headers = header_items(split_seq(c, "##"@).skip(1));
            if contains_seq(c, "contains"@) && checks.len() > 0 {
                holds_all(output, checks)
            } else if contains_seq(c, "contains"@) && headers.len() > 0 {
                holds_all(output, headers.map_values(|h: Seq<char>| trim_ws(h)))
            } else {
                trim_ws(output).len() > 0
            }
        },
    }
}

proof fn lemma_trim_start_empty(s: Seq<char>)
    ensures
        trim_start_ws(s).len() == 0 <==> (forall|i: int| 0 <= i < s.len() ==> is_ws(#[trigger] s[i])),
        trim_start_ws(s).len() > 0 ==> !is_ws(trim_start_ws(s)[0]),
    decreases s.len(),
{
    if s.len() > 0 && is_ws(s[0]) {
        lemma_trim_start_empty(s.drop_first());
        if forall|i: int| 0 <= i < s.drop_first().len() ==> is_ws(#[trigger] s.drop_first()[i]) {
            assert forall|i: int| 0 <= i < s.len() implies is_ws(#[trigger] s[i]) by {
                if i > 0 {
                    assert(s[i] == s.drop_first()[i - 1]);
                }
            }
        }
        if forall|i: int| 0 <= i < s.len() ==> is_ws(#[trigger] s[i]) {
            assert forall|i: int| 0 <= i < s.drop_first().len() implies is_ws(#[trigger] s.drop_first()[i]) by {
                assert(s.drop_first()[i] == s[i + 1]);
            }
        }
    } else if s.len() > 0 {
        assert(!is_ws(s[0]));
    }
}

proof fn lemma_trim_end_keeps_first(t: Seq<char>)
    requires
        t.len() > 0,
        !is_ws(t[0]),
    ensures
        trim_end_ws(t).len() > 0,
    decreases t.len(),
{
    if is_ws(t.last()) {
        assert(t.len() > 1);
        assert(t.drop_last()[0] == t[0]);
        lemma_trim_end_keeps_first(t.drop_last());
    }
}

proof fn lemma_blank_iff_all_ws(s: Seq<char>)
    ensures
        trim_ws(s).len() > 0 <==> exists|i: int| 0 <= i < s.len() && !is_ws(#[trigger] s[i]),
{
    lemma_trim_start_empty(s);
    let t = trim_start_ws(s);
    if t.len() > 0 {
        lemma_trim_end_keeps_first(t);
        assert(!(forall|i: int| 0 <= i < s.len() ==> is_ws(#[trigger] s[i])));
    } else {
        assert(t =~= Seq::<char>::empty());
        assert(trim_end_ws(t) =~= Seq::<char>::empty());
    }
}

/// A node type without a criterion accepts any output; a criterion that does not say
/// "contains" accepts exactly the outputs with a character that is not white space.
pub proof fn lemma_plain_criterion_needs_some_output(criterion: Seq<char>, output: Seq<char>)
    ensures
        meets_criterion(None, output),
        !contains_seq(criterion, "contains"@) ==> (meets_criterion(Some(criterion), output) <==> exists|i: int|
            0 <= i < output.len() && !is_ws(#[trigger] output[i])),
{
    if !contains_seq(criterion, "contains"@) {
        lemma_blank_iff_all_ws(output);
    }
}

/// A criterion cut at its quote characters (single or double).
pub open spec fn quote_pieces(criterion: Seq<char>) -> Seq<Seq<char>> {
    split_any(criterion, seq!['\'', '"'])
}

/// A criterion that says "contains" and quotes strings is met exactly when the output contains
/// every quoted string: split at quote characters (single or double), the criterion's pieces
/// alternate between outside and inside quotes, and every inside piece (odd position) must
/// occur in the output.
pub proof fn lemma_every_quoted_string_required(criterion: Seq<char>, output: Seq<char>)
    requires
        contains_seq(criterion, "contains"@),
        quote_pieces(criterion).len() >= 2,
    ensures
        meets_criterion(Some(criterion), output) <==> (forall|j: int|
            0 <= j < quote_pieces(criterion).len() && j % 2 == 1 ==> contains_seq(
                output,
                #[trigger] quote_pieces(criterion)[j],
            )),
{
    let pieces = split_any(criterion, seq!['\'', '"']);
    let checks = odd_entries(pieces);
    assert(checks.len() > 0);
    if holds_all(output, checks) {
        assert forall|j: int| 0 <= j < pieces.len() && j % 2 == 1 implies contains_seq(
            output,
            #[trigger] pieces[j],
        ) by {
            let k = (j - 1) / 2;
            assert(2 * k + 1 == j);
            assert(checks[k] == pieces[j]);
        }
    }
    if forall|j: int| 0 <= j < pieces.len() && j % 2 == 1 ==> contains_seq(output, #[trigger] pieces[j]) {
        assert forall|k: int| 0 <= k < checks.len() implies contains_seq(output, #[trigger] checks[k]) by {
            assert(checks[k] == pieces[2 * k + 1]);
            assert((2 * k + 1) % 2 == 1);
        }
    }
}

/// Whether `output` holds every entry of `checks`.
fn holds_all_exec(output: &Vec<char>, checks: &Vec<Vec<char>>) -> (b: bool)
    ensures
        b == holds_all(output@, views(checks@)),
{
    let mut i: usize = 0;
    while i < checks.len()
        invariant
            i <= checks@.len(),
            forall|k: int| 0 <= k < i ==> contains_seq(output@, #[trigger] views(checks@)[k]),
        decreases checks.len() - i,
    {
        assert(views(checks@)[i as int] == checks@[i as int]@);
        if !contains_chars_at_any(output.as_slice(), checks[i].as_slice()) {
            return false;
        }
        i = i + 1;
    }
    true
}

/// The quoted parts of a criterion.
fn quoted_parts(crit: &Vec<char>) -> (checks: Vec<Vec<char>>)
    ensures
        views(checks@) == odd_entries(split_any(crit@, seq!['\'', '"'])),
{
    let quotes = vec!['\'', '"'];
    assert(quotes@ =~= seq!['\'', '"']);
    let pieces = split_any_chars(crit.as_slice(), quotes.as_slice());
    let ghost pv = views(pieces@);
    let mut checks: Vec<Vec<char>> = Vec::new();
    let n = pieces.len();
    let half = n / 2;
    let mut j: usize = 0;
    while j < half
        invariant
            n == pieces@.len(),
            pv == views(pieces@),
            half == pieces@.len() / 2,
            j <= half,
            checks@.len() == j,
            forall|k: int| 0 <= k < j ==> #[trigger] checks@[k]@ == pv[2 * k + 1],
        decreases half - j,
    {
        assert(2 * j + 1 < pieces@.len()) by (nonlinear_arith)
            requires
                j < half,
                half == pieces@.len() / 2,
        ;
        assert(2 * j < pieces@.len());
        let idx = 2 * j + 1;
        assert(pv[idx as int] == pieces@[idx as int]@);
        checks.push(pieces[idx].clone());
        j = j + 1;
    }
    assert(views(checks@) =~= odd_entries(pv));
    checks
}

/// The section headers a criterion names (see `header_items`).
fn header_parts(crit: &Vec<char>) -> (hs: Vec<Vec<char>>)
    ensures
        views(hs@) == header_items(split_seq(crit@, "##"@).skip(1)),
{
    let marks = chars_of("##");
    proof {
        reveal_strlit("##");
    }
    let pieces = split_chars(crit.as_slice(), marks.as_slice());
    let ghost pv = split_seq(crit@, "##"@);
    assert(views(pieces@) =~= pv);
    let stops = vec![',', '.', ' '];
    assert(stops@ =~= seq![',', '.', ' ']);
    let mut hs: Vec<Vec<char>> = Vec::new();
    let mut i: usize = 1;
    proof {
        crate::text::lemma_split_nonempty(crit@, "##"@);
        assert(pv.skip(1).take(0) =~= Seq::<Seq<char>>::empty());
    }
    while i < pieces.len()
        invariant
            1 <= i <= pieces@.len(),
            pieces@.len() == pv.len(),
            forall|k: int| 0 <= k < pieces@.len() ==> #[trigger] pieces@[k]@ == pv[k],
            stops@ == seq![',', '.', ' '],
            views(hs@) == header_items(pv.skip(1).take(i - 1)),
        decreases pieces.len() - i,
    {
        let words = split_any_chars(pieces[i].as_slice(), stops.as_slice());
        proof {
            lemma_split_any_nonempty(pieces@[i as int]@, stops@);
        }
        let first = trim_chars(words[0].as_slice());
        let mut h = chars_of("## ");
        append_chars(&mut h, first.as_slice());
        proof {
            let pre = pv.skip(1).take(i as int);
            assert(pre.drop_last() =~= pv.skip(1).take(i - 1));
            assert(pre.last() == pv[i as int]);
            assert(views(words@)[0] == words@[0]@);
        }
        if utf8_len(h.as_slice()) > 3 {
            let ghost before = views(hs@);
            hs.push(h);
            assert(views(hs@) =~= before.push(hs@[hs@.len() - 1]@));
        }
        i = i + 1;
    }
    assert(pv.skip(1).take(pieces@.len() - 1) =~= pv.skip(1));
    hs
}

/// Judges a leaf's output against its success criterion (see `meets_criterion`).
pub fn evaluate_success(node_type: &NodeType, output: &str) -> (ok: bool)
    ensures
        ok == meets_criterion(
            match node_type.success_criterion {
                Some(c) => Some(c@),
                None => None,
            },
            output@,
        ),
{
    let criterion = match &node_type.success_criterion {
        Some(c) => c,
        None => {
            return true;
        },
    };
    let out = chars_of(output);
    let crit = chars_of(criterion.as_str());
    if str_contains(criterion.as_str(), "contains") {
        let checks = quoted_parts(&crit);
        if checks.len() > 0 {
            return holds_all_exec(&out, &checks);
        }
        let hs = header_parts(&crit);
        if hs.len() > 0 {
            let mut trimmed: Vec<Vec<char>> = Vec::new();
            let mut i: usize = 0;
            while i < hs.len()
                invariant
                    i <= hs@.len(),
                    trimmed@.len() == i,
                    forall|k: int| 0 <= k < i ==> #[trigger] trimmed@[k]@ == trim_ws(hs@[k]@),
                decreases hs.len() - i,
            {
                trimmed.push(trim_chars(hs[i].as_slice()));
                i = i + 1;
            }
            assert(views(trimmed@) =~= views(hs@).map_values(|h: Seq<char>| trim_ws(h)));
            return holds_all_exec(&out, &trimmed);
        }
    }
    trim_chars(out.as_slice()).len() > 0
}

/// The repository of a run's target: `owner/repo` from a `github.com/owner/repo/...` target;
/// otherwise the target's first two `/`-separated parts.
pub open spec fn repo_of(target: Seq<char>) -> Seq<char> {
    let parts = split_seq(target, seq!['/']);
    let fallback = join_seq(
        if parts.len() > 2 {
            parts.take(2)
        } else {
            parts
        },
        seq!['/'],
    );
    if contains_seq(target, "github.com/"@) {
        let gh = split_seq(trim_prefix_all(target, "github.com/"@), seq!['/']);
        if gh.len() >= 2 {
            gh[0] + seq!['/'] + gh[1]
        } else {
            fallback
        }
    } else {
        fallback
    }
}

/// The repository of a run's target (see `repo_of`).
pub fn repo_from_target(target: &str) -> (r: String)
    ensures
        r@ == repo_of(target@),
{
    let slash = vec!['/'];
    assert(slash@ =~= seq!['/']);
    let parts = split_chars(chars_of(target).as_slice(), slash.as_slice());
    assert(views(parts@) =~= split_seq(target@, seq!['/']));
    let mut firsts: Vec<Vec<char>> = Vec::new();
    let mut i: usize = 0;
    while i < parts.len() && i < 2
        invariant
            i <= parts@.len(),
            i <= 2,
            views(firsts@) == views(parts@).take(i as int),
        decreases 2 - i,
    {
        let ghost before = views(firsts@);
        let piece = parts[i].clone();
        assert(piece@ == parts@[i as int]@);
        firsts.push(piece);
        assert(views(firsts@) =~= before.push(parts@[i as int]@));
        assert(views(firsts@) =~= views(parts@).take(i + 1));
        i = i + 1;
    }
    proof {
        if parts@.len() <= 2 {
            assert(views(parts@).take(i as int) =~= views(parts@));
        }
    }
    let fallback = crate::text::join_from(&firsts, 0, slash.as_slice());
    assert(views(firsts@).skip(0) =~= views(firsts@));
    if str_contains(target, "github.com/") {
        let prefix = chars_of("github.com/");
        proof {
            reveal_strlit("github.com/");
        }
        let rest = trim_prefix_chars(chars_of(target), &prefix);
        let gh = split_chars(rest.as_slice(), slash.as_slice());
        if gh.len() >= 2 {
            let mut out = gh[0].clone();
            out.push('/');
            append_chars(&mut out, gh[1].as_slice());
            return string_from_chars(out.as_slice());
        }
    }
    string_from_chars(fallback.as_slice())
}

/// The children after position `failed` of a parent, which stay blocked when that child fails.
pub fn children_after(children: &Vec<String>, failed: usize) -> (rest: Vec<String>)
    ensures
        failed < children@.len() ==> rest@.len() == children@.len() - failed - 1 && forall|k: int|
            0 <= k < rest@.len() ==> #[trigger] rest@[k]@ == children@[failed + 1 + k]@,
        failed >= children@.len() ==> rest@.len() == 0,
{
    let mut rest: Vec<String> = Vec::new();
    if failed >= children.len() {
        return rest;
    }
    let mut i: usize = failed + 1;
    while i < children.len()
        invariant
            failed < children@.len(),
            failed + 1 <= i <= children@.len(),
            rest@.len() == i - failed - 1,
            forall|k: int| 0 <= k < rest@.len() ==> #[trigger] rest@[k]@ == children@[failed + 1 + k]@,
        decreases children.len() - i,
    {
        rest.push(children[i].clone());
        i = i + 1;
    }
    rest
}

} // verus!
