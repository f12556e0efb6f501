//! The Bee endpoints' decisions: the capabilities the runtime provides, the compatibility check
//! of a plan against them, the surface manifest and the self-test verdict.

use vstd::prelude::*;
use crate::json::opt_text;
use crate::text::{decimal, decimal_string, owned_list, push_str, str_eq};

verus! {

broadcast use vstd::string::group_string_axioms;

/// The capabilities the runtime provides, in the order they are listed.
pub open spec fn provides_list() -> Seq<Seq<char>> {
    seq![
        "runtime.agenticlaw"@,
        "runtime.gateway"@,
        "runtime.consciousness"@,
        "agent.chat"@,
        "agent.tools"@,
        "agent.sessions"@,
        "agent.spawn"@,
        "ws.json-rpc-v3"@,
        "ws.legacy-v2"@,
        "ctx.persistence"@,
        "consciousness.dual-core"@,
        "consciousness.ego-distill"@,
        "consciousness.injection"@,
        "consciousness.sleep-wake"@,
    ]
}

/// The texts of a list of strings.
pub open spec fn texts(v: Seq<String>) -> Seq<Seq<char>> {
    v.map_values(|s: String| s@)
}

/// The capabilities the runtime provides.
pub fn provides() -> (v: Vec<String>)
    ensures
        texts(v@) == provides_list(),
{
    let items = [
        "runtime.agenticlaw",
        "runtime.gateway",
        "runtime.consciousness",
        "agent.chat",
        "agent.tools",
        "agent.sessions",
        "agent.spawn",
        "ws.json-rpc-v3",
        "ws.legacy-v2",
        "ctx.persistence",
        "consciousness.dual-core",
        "consciousness.ego-distill",
        "consciousness.injection",
        "consciousness.sleep-wake",
    ];
    let v = owned_list(&items);
    assert(texts(v@) =~= provides_list());
    v
}

/// Whether the runtime provides the capability `name`.
pub fn provides_capability(name: &str) -> (b: bool)
    ensures
        b == provides_list().contains(name@),
{
    let all = provides();
    let mut i: usize = 0;
    while i < all.len()
        invariant
            i <= all@.len(),
            texts(all@) == provides_list(),
            forall|j: int| 0 <= j < i ==> provides_list()[j] != name@,
        decreases all@.len() - i,
    {
        assert(texts(all@)[i as int] == all@[i as int]@);
        if str_eq(all[i].as_str(), name) {
            assert(provides_list()[i as int] == name@);
            return true;
        }
        i = i + 1;
    }
    assert(!provides_list().contains(name@)) by {
        if provides_list().contains(name@) {
            let j = choose|j: int| 0 <= j < provides_list().len() && provides_list()[j] == name@;
            assert(provides_list()[j] == name@);
        }
    }
    false
}

/// The requested capabilities that the runtime does not provide, in request order.
pub open spec fn missing_of(requested: Seq<Seq<char>>) -> Seq<Seq<char>>
    decreases requested.len(),
{
    if requested.len() == 0 {
        Seq::empty()
    } else {
        let m = missing_of(requested.drop_last());
        if provides_list().contains(requested.last()) {
            m
        } else {
            m.push(requested.last())
        }
    }
}

/// The compatibility check of a plan: whether every requested capability is provided, and the
/// ones that are not, in request order.
pub fn plan_compatibility(requested: &Vec<String>) -> (r: (bool, Vec<String>))
    ensures
        texts(r.1@) == missing_of(texts(requested@)),
        r.0 == (r.1@.len() == 0),
{
    let mut missing: Vec<String> = Vec::new();
    let mut i: usize = 0;
    while i < requested.len()
        invariant
            i <= requested@.len(),
            texts(missing@) == missing_of(texts(requested@).take(i as int)),
        decreases requested@.len() - i,
    {
        let ghost pre = texts(requested@).take(i + 1);
        assert(pre.drop_last() =~= texts(requested@).take(i as int));
        assert(pre.last() == requested@[i as int]@);
        if !provides_capability(requested[i].as_str()) {
            missing.push(requested[i].clone());
            assert(texts(missing@) =~= missing_of(pre));
        }
        i = i + 1;
    }
    assert(texts(requested@).take(requested@.len() as int) =~= texts(requested@));
    let ok = missing.len() == 0;
    (ok, missing)
}

/// The strings of an optional list of optional strings, in order (the others skipped).
pub open spec fn present_items(items: Option<Seq<Option<Seq<char>>>>) -> Seq<Seq<char>> {
    match items {
        Some(xs) => present_of(xs),
        None => Seq::empty(),
    }
}

/// The present strings of a list, in order.
pub open spec fn present_of(xs: Seq<Option<Seq<char>>>) -> Seq<Seq<char>>
    decreases xs.len(),
{
    if xs.len() == 0 {
        Seq::empty()
    } else {
        let m = present_of(xs.drop_last());
        match xs.last() {
            Some(x) => m.push(x),
            None => m,
        }
    }
}

/// The array under `key` at the top of the JSON text `text`, each item as its string when it
/// is a string; none when the text is not JSON or the value is not an array.
pub uninterp spec fn json_str_items(text: Seq<char>, key: Seq<char>) -> Option<Seq<Option<Seq<char>>>>;

/// `serde_json::from_str` into a `serde_json::Value`, `Value::get` with the key,
/// `Value::as_array`, and `Value::as_str` of each item, copied out. The contract names the
/// result `json_str_items`.
#[verifier::external_body]
fn json_str_items_exec(text: &str, key: &str) -> (r: Option<Vec<Option<String>>>)
    ensures
        match r {
            Some(v) => json_str_items(text@, key@) == Some(v@.map_values(|o: Option<String>| opt_text(o))),
            None => json_str_items(text@, key@) is None,
        },
{
    let v: serde_json::Value = serde_json::from_str(text).ok()?;
    let items = v.get(key)?.as_array()?;
    Some(items.iter().map(|x| x.as_str().map(|s| s.to_owned())).collect())
}

/// The capabilities a plan's body requests: the strings of its `requires` array, in order,
/// other items skipped; none when there is no such array.
pub fn requested_capabilities(body: &str) -> (v: Vec<String>)
    ensures
        texts(v@) == present_items(json_str_items(body@, "requires"@)),
{
    let mut out: Vec<String> = Vec::new();
    match json_str_items_exec(body, "requires") {
        None => {
            assert(texts(out@) =~= Seq::<Seq<char>>::empty());
        },
        Some(items) => {
            let ghost xs = items@.map_values(|o: Option<String>| opt_text(o));
            let mut i: usize = 0;
            while i < items.len()
                invariant
                    i <= items@.len(),
                    xs == items@.map_values(|o: Option<String>| opt_text(o)),
                    texts(out@) == present_of(xs.take(i as int)),
                decreases items@.len() - i,
            {
                let ghost pre = xs.take(i + 1);
                assert(pre.drop_last() =~= xs.take(i as int));
                assert(pre.last() == opt_text(items@[i as int]));
                match &items[i] {
                    Some(s) => {
                        out.push(s.clone());
                        assert(texts(out@) =~= present_of(pre));
                    },
                    None => {},
                }
                i = i + 1;
            }
            assert(xs.take(items@.len() as int) =~= xs);
        },
    }
    out
}

/// One self-test: its name, whether it passed, and what it found.
pub struct SelfTest {
    pub test: String,
    pub pass: bool,
    pub detail: String,
}

/// The runtime's self-tests: the tool registry passes when a tool is loaded; the sessions test
/// always passes; the API-key test passes when the key is set.
pub fn self_tests(tool_count: usize, session_count: usize, has_key: bool) -> (v: Vec<SelfTest>)
    ensures
        v@.len() == 3,
        v@[0].test@ == "tool_registry"@,
        v@[0].pass == (tool_count > 0),
        v@[0].detail@ == decimal(tool_count as nat) + " tools loaded"@,
        v@[1].test@ == "sessions"@,
        v@[1].pass,
        v@[1].detail@ == decimal(session_count as nat) + " active sessions"@,
        v@[2].test@ == "api_key"@,
        v@[2].pass == has_key,
        v@[2].detail@ == if has_key {
            "ANTHROPIC_API_KEY set"@
        } else {
            "ANTHROPIC_API_KEY missing"@
        },
{
    let mut tools = decimal_string(tool_count);
    push_str(&mut tools, " tools loaded");
    let mut sessions = decimal_string(session_count);
    push_str(&mut sessions, " active sessions");
    let key = if has_key {
        "ANTHROPIC_API_KEY set".to_owned()
    } else {
        "ANTHROPIC_API_KEY missing".to_owned()
    };
    let mut v: Vec<SelfTest> = Vec::new();
    v.push(SelfTest { test: "tool_registry".to_owned(), pass: tool_count > 0, detail: tools });
    v.push(SelfTest { test: "sessions".to_owned(), pass: true, detail: sessions });
    v.push(SelfTest { test: "api_key".to_owned(), pass: has_key, detail: key });
    v
}

/// Whether every self-test passed.
pub fn all_pass(results: &Vec<SelfTest>) -> (b: bool)
    ensures
        b == (forall|i: int| 0 <= i < results@.len() ==> #[trigger] results@[i].pass),
{
    let mut i: usize = 0;
    while i < results.len()
        invariant
            i <= results@.len(),
            forall|j: int| 0 <= j < i ==> #[trigger] results@[j].pass,
        decreases results@.len() - i,
    {
        if !results[i].pass {
            return false;
        }
        i = i + 1;
    }
    true
}

/// The runtime's surface manifest: its name and kind, what it provides and requires, its
/// tools, and the paths of its Bee endpoints.
pub struct Surface {
    pub name: String,
    pub kind: String,
    pub provides: Vec<String>,
    pub needs: Vec<String>,
    pub tools: Vec<String>,
    pub sacred: Vec<(String, String)>,
}

/// The surface manifest with the given tool names.
pub fn surface(tools: Vec<String>) -> (s: Surface)
    ensures
        s.name@ == "agenticlaw"@,
        s.kind@ == "runtime"@,
        texts(s.provides@) == provides_list(),
        texts(s.needs@) == seq!["runtime.rust"@],
        s.tools@ == tools@,
        s.sacred@.map_values(|p: (String, String)| (p.0@, p.1@)) == seq![
            ("health"@, "/health"@),
            ("surface"@, "/surface"@),
            ("plan"@, "/plan"@),
            ("test"@, "/test"@),
            ("hints"@, "/hints"@),
        ],
{
    let needs = owned_list(&["runtime.rust"]);
    assert(texts(needs@) =~= seq!["runtime.rust"@]);
    let mut sacred: Vec<(String, String)> = Vec::new();
    sacred.push(("health".to_owned(), "/health".to_owned()));
    sacred.push(("surface".to_owned(), "/surface".to_owned()));
    sacred.push(("plan".to_owned(), "/plan".to_owned()));
    sacred.push(("test".to_owned(), "/test".to_owned()));
    sacred.push(("hints".to_owned(), "/hints".to_owned()));
    let s = Surface {
        name: "agenticlaw".to_owned(),
        kind: "runtime".to_owned(),
        provides: provides(),
        needs,
        tools,
        sacred,
    };
    assert(s.sacred@.map_values(|p: (String, String)| (p.0@, p.1@)) =~= seq![
        ("health"@, "/health"@),
        ("surface"@, "/surface"@),
        ("plan"@, "/plan"@),
        ("test"@, "/test"@),
        ("hints"@, "/hints"@),
    ]);
    s
}

} // verus!
