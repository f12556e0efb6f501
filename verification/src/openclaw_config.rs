//! The OpenClaw configuration (`~/.openclaw/openclaw.json`): its settings, what is derived from
//! them, and the system-prompt section built from the workspace's bootstrap files.

use vstd::prelude::*;
use crate::text::{
    append_chars, chars_of, join_path, path_join, split_chars, split_seq, starts_with,
    str_starts_with, string_from_chars, trim_chars, trim_ws, views,
};

verus! {

broadcast use vstd::string::group_string_axioms;

#[derive(Debug, Clone, Default)]
pub struct OpenclawConfig {
    pub gateway: OcGateway,
    pub agents: OcAgents,
    pub models: OcModels,
    pub tools: OcTools,
}

#[derive(Debug, Clone, Default)]
pub struct OcGateway {
    pub port: Option<u16>,
    pub mode: Option<String>,
    pub bind: Option<String>,
    pub auth: OcGatewayAuth,
}

#[derive(Debug, Clone, Default)]
pub struct OcGatewayAuth {
    pub mode: Option<String>,
    pub token: Option<String>,
}

#[derive(Debug, Clone, Default)]
pub struct OcAgents {
    pub defaults: OcAgentDefaults,
}

#[derive(Debug, Clone, Default)]
pub struct OcAgentDefaults {
    pub model: OcModelRef,
    pub workspace: Option<String>,
    pub context_tokens: Option<usize>,
    pub max_concurrent: Option<usize>,
}

#[derive(Debug, Clone, Default)]
pub struct OcModelRef {
    pub primary: Option<String>,
}

#[derive(Debug, Clone, Default)]
pub struct OcModels {
    pub providers: OcProviders,
}

#[derive(Debug, Clone, Default)]
pub struct OcProviders {
    pub anthropic: Option<OcAnthropicProvider>,
}

#[derive(Debug, Clone, Default)]
pub struct OcAnthropicProvider {
    pub base_url: Option<String>,
    pub models: Vec<OcModelEntry>,
}

#[derive(Debug, Clone, Default)]
pub struct OcModelEntry {
    pub id: String,
    pub name: Option<String>,
    pub context_window: Option<usize>,
    pub max_tokens: Option<usize>,
}

#[derive(Debug, Clone, Default)]
pub struct OcTools {
    pub web: OcWebTools,
}

#[derive(Debug, Clone, Default)]
pub struct OcWebTools {
    pub search: OcSearchConfig,
}

#[derive(Debug, Clone, Default)]
pub struct OcSearchConfig {
    pub api_key: Option<String>,
}

/// The files of a workspace loaded at session start into the system prompt.
pub const BOOTSTRAP_FILES: [&'static str; 7] = [
    "AGENTS.md",
    "SOUL.md",
    "TOOLS.md",
    "IDENTITY.md",
    "USER.md",
    "HEARTBEAT.md",
    "MEMORY.md",
];

/// The text of an optional string.
pub open spec fn opt_view(o: Option<String>) -> Option<Seq<char>> {
    match o {
        Some(s) => Some(s@),
        None => None,
    }
}

/// The part of a model reference after its last `/` (the whole reference when it has none).
pub open spec fn model_id(r: Seq<char>) -> Seq<char> {
    split_seq(r, seq!['/']).last()
}

/// A copy of an optional string.
fn copy_opt(o: &Option<String>) -> (r: Option<String>)
    ensures
        opt_view(r) == opt_view(*o),
{
    match o {
        Some(s) => Some(s.clone()),
        None => None,
    }
}

impl OpenclawConfig {
    /// The primary model, with any `provider/` prefix stripped.
    pub fn default_model(&self) -> (m: Option<String>)
        ensures
            m is None <==> self.agents.defaults.model.primary is None,
            m matches Some(id) ==> id@ == model_id(self.agents.defaults.model.primary->0@),
    {
        match &self.agents.defaults.model.primary {
            Some(p) => {
                let sep = vec!['/'];
                assert(sep@ =~= seq!['/']);
                let parts = split_chars(chars_of(p.as_str()).as_slice(), sep.as_slice());
                proof {
                    crate::text::lemma_split_nonempty(p@, seq!['/']);
                }
                let last = &parts[parts.len() - 1];
                Some(string_from_chars(last.as_slice()))
            },
            None => None,
        }
    }

    /// The gateway port.
    pub fn gateway_port(&self) -> (p: Option<u16>)
        ensures
            p == self.gateway.port,
    {
        self.gateway.port
    }

    /// The gateway bind setting.
    pub fn gateway_bind(&self) -> (b: Option<String>)
        ensures
            opt_view(b) == opt_view(self.gateway.bind),
    {
        copy_opt(&self.gateway.bind)
    }

    /// The gateway token.
    pub fn gateway_token(&self) -> (t: Option<String>)
        ensures
            opt_view(t) == opt_view(self.gateway.auth.token),
    {
        copy_opt(&self.gateway.auth.token)
    }

    /// The gateway authentication mode.
    pub fn gateway_auth_mode(&self) -> (m: Option<String>)
        ensures
            opt_view(m) == opt_view(self.gateway.auth.mode),
    {
        copy_opt(&self.gateway.auth.mode)
    }

    /// The base URL of the Anthropic provider, when it is configured with one.
    pub fn anthropic_base_url(&self) -> (u: Option<String>)
        ensures
            opt_view(u) == match self.models.providers.anthropic {
                Some(p) => opt_view(p.base_url),
                None => None,
            },
    {
        match &self.models.providers.anthropic {
            Some(p) => copy_opt(&p.base_url),
            None => None,
        }
    }

    /// The context window in tokens.
    pub fn context_tokens(&self) -> (t: Option<usize>)
        ensures
            t == self.agents.defaults.context_tokens,
    {
        self.agents.defaults.context_tokens
    }

    /// The workspace: the configured one with `~/` expanded, or `~/.openclaw/workspace`
    /// (`home` is the home directory, `/tmp` when unknown).
    pub fn workspace(&self, home: &Option<String>) -> (w: String)
        ensures
            w@ == match self.agents.defaults.workspace {
                Some(ws) => expanded_path(ws@, opt_view(*home)),
                None => join_path(
                    join_path(
                        match home {
                            Some(h) => h@,
                            None => "/tmp"@,
                        },
                        ".openclaw"@,
                    ),
                    "workspace"@,
                ),
            },
    {
        match &self.agents.defaults.workspace {
            Some(ws) => expand_tilde(ws.as_str(), home),
            None => {
                let base = match home {
                    Some(h) => h.clone(),
                    None => "/tmp".to_owned(),
                };
                let dir = path_join(base.as_str(), ".openclaw");
                path_join(dir.as_str(), "workspace")
            },
        }
    }
}

/// The path the configuration is read from: `~/.openclaw/openclaw.json` (`/tmp` standing for an
/// unknown home directory).
pub fn default_config_path(home: &Option<String>) -> (p: String)
    ensures
        p@ == join_path(
            join_path(
                match home {
                    Some(h) => h@,
                    None => "/tmp"@,
                },
                ".openclaw"@,
            ),
            "openclaw.json"@,
        ),
{
    let base = match home {
        Some(h) => h.clone(),
        None => "/tmp".to_owned(),
    };
    let dir = path_join(base.as_str(), ".openclaw");
    path_join(dir.as_str(), "openclaw.json")
}

/// `path` with a leading `~/` replaced by the home directory, when that is known.
pub open spec fn expanded_path(path: Seq<char>, home: Option<Seq<char>>) -> Seq<char> {
    if starts_with(path, "~/"@) && home is Some {
        join_path(home->0, path.skip(2))
    } else {
        path
    }
}

/// Expands a leading `~/` to the home directory, when that is known.
pub fn expand_tilde(path: &str, home: &Option<String>) -> (p: String)
    ensures
        p@ == expanded_path(path@, opt_view(*home)),
{
    if str_starts_with(path, "~/") {
        match home {
            Some(h) => {
                proof {
                    reveal_strlit("~/");
                }
                let v = chars_of(path);
                let mut rest: Vec<char> = Vec::new();
                let mut i: usize = 2;
                while i < v.len()
                    invariant
                        2 <= i <= v@.len(),
                        rest@ == v@.subrange(2, i as int),
                    decreases v.len() - i,
                {
                    rest.push(v[i]);
                    assert(v@.subrange(2, i + 1) =~= v@.subrange(2, i as int).push(v@[i as int]));
                    i = i + 1;
                }
                assert(v@.subrange(2, v@.len() as int) =~= path@.skip(2));
                let tail = string_from_chars(rest.as_slice());
                return path_join(h.as_str(), tail.as_str());
            },
            None => {},
        }
    }
    path.to_owned()
}

/// The system-prompt section for the bootstrap files (name, content): none without files;
/// otherwise a "Workspace Context" heading and, per file, a heading with its name and its
/// trimmed content.
pub open spec fn bootstrap_prompt(files: Seq<(Seq<char>, Seq<char>)>) -> Seq<char>
    decreases files.len(),
{
    if files.len() == 0 {
        "# Workspace Context\n\n"@
    } else {
        bootstrap_prompt(files.drop_last()) + "## "@ + files.last().0 + "\n\n"@ + trim_ws(
            files.last().1,
        ) + "\n\n"@
    }
}

/// Formats the bootstrap files into a system-prompt section (see `bootstrap_prompt`).
pub fn bootstrap_to_system_prompt(files: &[(String, String)]) -> (p: Option<String>)
    ensures
        files@.len() == 0 ==> p is None,
        files@.len() > 0 ==> (p matches Some(s) && s@ == bootstrap_prompt(
            files@.map_values(|f: (String, String)| (f.0@, f.1@)),
        )),
{
    if files.len() == 0 {
        return None;
    }
    let ghost fv = files@.map_values(|f: (String, String)| (f.0@, f.1@));
    let mut out = chars_of("# Workspace Context\n\n");
    let mut i: usize = 0;
    assert(fv.take(0) =~= Seq::<(Seq<char>, Seq<char>)>::empty());
    while i < files.len()
        invariant
            i <= files@.len(),
            fv == files@.map_values(|f: (String, String)| (f.0@, f.1@)),
            out@ == bootstrap_prompt(fv.take(i as int)),
        decreases files.len() - i,
    {
        let (name, content) = &files[i];
        append_chars(&mut out, chars_of("## ").as_slice());
        append_chars(&mut out, chars_of(name.as_str()).as_slice());
        append_chars(&mut out, chars_of("\n\n").as_slice());
        append_chars(&mut out, trim_chars(chars_of(content.as_str()).as_slice()).as_slice());
        append_chars(&mut out, chars_of("\n\n").as_slice());
        proof {
            let pre = fv.take(i + 1);
            assert(pre.drop_last() =~= fv.take(i as int));
            assert(pre.last() == (name@, content@));
        }
        i = i + 1;
    }
    assert(fv.take(files@.len() as int) =~= fv);
    Some(string_from_chars(out.as_slice()))
}

} // verus!
