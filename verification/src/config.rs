//! LLM configuration: the values read from `aa.json` and the environment,
//! and their resolution into the values a run uses.
//!
//! Priority, highest first: command-line values, `AA_*` variables, the
//! older `AA_LLM_*` variables, `aa.json`, built-in defaults.
use vstd::prelude::*;
use crate::mcp::{McpServerConfig, ServersJson, config_view, servers_from_json, servers_json_view};
use crate::table::{StringMap, lookup};
use crate::text::{clone_opt, is_first_of, opt_text, owned, same_text, split_first, split_once_char};

verus! {

/// One provider's settings in `aa.json`.
#[derive(Debug, Clone)]
pub struct ProviderConfig {
    pub api_key: Option<String>,
    pub base_url: Option<String>,
}

/// One MCP server in `aa.json`.
#[derive(Debug, Clone)]
pub struct McpServerDef {
    pub command: String,
    pub args: Vec<String>,
}

/// The MCP section of `aa.json`.
#[derive(Debug)]
pub struct McpConfig {
    pub servers: StringMap<McpServerDef>,
}

/// The `AA_MCP_SERVERS` variable, when it is set: its text, and that text
/// read as an MCP configuration object (`None` when it is not JSON).
pub struct EnvServers {
    pub text: String,
    pub parsed: Option<ServersJson>,
}

/// The whole of `aa.json`.
#[derive(Debug)]
pub struct Config {
    /// The model as `provider/model`, or a bare model name.
    pub model: Option<String>,
    /// Settings per provider name.
    pub provider: StringMap<ProviderConfig>,
    /// MCP servers.
    pub mcp: Option<McpConfig>,
}

/// The values a run uses, every one of them filled in.
#[derive(Debug, Clone)]
pub struct ResolvedConfig {
    /// Provider name, such as `"openai"` or `"ollama"`.
    pub provider: String,
    /// Model name, such as `"gpt-4o-mini"`.
    pub model: String,
    /// API key, possibly empty.
    pub api_key: String,
    /// API base URL.
    pub base_url: String,
}

/// The environment variables that resolution reads, as found (`None` when
/// unset).
#[derive(Debug, Clone)]
pub struct EnvOverrides {
    /// `AA_PROVIDER`
    pub provider: Option<String>,
    /// `AA_LLM_PROVIDER`
    pub llm_provider: Option<String>,
    /// `AA_MODEL`
    pub model: Option<String>,
    /// `AA_LLM_MODEL`
    pub llm_model: Option<String>,
    /// `AA_API_KEY`
    pub api_key: Option<String>,
    /// `AA_LLM_API_KEY`
    pub llm_api_key: Option<String>,
    /// `AA_BASE_URL`
    pub base_url: Option<String>,
    /// `AA_LLM_BASE_URL`
    pub llm_base_url: Option<String>,
}

impl EnvOverrides {
    /// No variable set.
    pub fn empty() -> (r: Self)
        ensures
            r.is_unset(),
    {
        EnvOverrides {
            provider: None,
            llm_provider: None,
            model: None,
            llm_model: None,
            api_key: None,
            llm_api_key: None,
            base_url: None,
            llm_base_url: None,
        }
    }

    /// Every variable is unset.
    pub open spec fn is_unset(&self) -> bool {
        &&& self.provider is None
        &&& self.llm_provider is None
        &&& self.model is None
        &&& self.llm_model is None
        &&& self.api_key is None
        &&& self.llm_api_key is None
        &&& self.base_url is None
        &&& self.llm_base_url is None
    }
}

/// An environment value counts only when it is not empty.
pub open spec fn nonempty(o: Option<Seq<char>>) -> Option<Seq<char>> {
    match o {
        Some(s) => if s.len() > 0 { Some(s) } else { None },
        None => None,
    }
}

/// The first present value, else `default`.
pub open spec fn pick_spec(
    a: Option<Seq<char>>,
    b: Option<Seq<char>>,
    c: Option<Seq<char>>,
    d: Option<Seq<char>>,
    default: Seq<char>,
) -> Seq<char> {
    match a {
        Some(x) => x,
        None => match b {
            Some(x) => x,
            None => match c {
                Some(x) => x,
                None => match d {
                    Some(x) => x,
                    None => default,
                },
            },
        },
    }
}

/// A borrowed optional string, as characters.
pub open spec fn opt_str(o: Option<&str>) -> Option<Seq<char>> {
    match o {
        Some(s) => Some(s@),
        None => None,
    }
}

/// The provider named before the first `/` of the configured model.
pub open spec fn model_provider_part(m: Option<Seq<char>>) -> Option<Seq<char>> {
    match m {
        Some(s) => match split_first(s, '/') {
            Some((p, _)) => Some(p),
            None => None,
        },
        None => None,
    }
}

/// The model named after the first `/` of the configured model, or the
/// whole of it when it has no `/`.
pub open spec fn model_name_part(m: Option<Seq<char>>) -> Option<Seq<char>> {
    match m {
        Some(s) => match split_first(s, '/') {
            Some((_, n)) => Some(n),
            None => Some(s),
        },
        None => None,
    }
}

/// The model used when nothing names one.
pub open spec fn default_model_for(provider: Seq<char>) -> Seq<char> {
    if provider == "ollama"@ { "gemma4:31b-cloud"@ } else { "gpt-4o-mini"@ }
}

/// The base URL used when nothing names one.
pub open spec fn default_base_url_for(provider: Seq<char>) -> Seq<char> {
    if provider == "ollama"@ { "http://localhost:11434"@ } else { "https://api.openai.com/v1"@ }
}

/// The resolved values, as characters.
pub struct ResolvedView {
    pub provider: Seq<char>,
    pub model: Seq<char>,
    pub api_key: Seq<char>,
    pub base_url: Seq<char>,
}

impl ResolvedConfig {
    pub open spec fn view(&self) -> ResolvedView {
        ResolvedView {
            provider: self.provider@,
            model: self.model@,
            api_key: self.api_key@,
            base_url: self.base_url@,
        }
    }
}

impl Config {
    /// The configured API key of `provider`, if any.
    pub open spec fn file_api_key(&self, provider: Seq<char>) -> Option<Seq<char>> {
        match lookup(self.provider.entries(), provider) {
            Some(p) => opt_text(p.api_key),
            None => None,
        }
    }

    /// The configured base URL of `provider`, if any.
    pub open spec fn file_base_url(&self, provider: Seq<char>) -> Option<Seq<char>> {
        match lookup(self.provider.entries(), provider) {
            Some(p) => opt_text(p.base_url),
            None => None,
        }
    }

    /// The provider a run uses.
    pub open spec fn resolved_provider(&self, env: EnvOverrides, cli: Option<Seq<char>>) -> Seq<char> {
        pick_spec(
            cli,
            nonempty(opt_text(env.provider)),
            nonempty(opt_text(env.llm_provider)),
            model_provider_part(opt_text(self.model)),
            "ollama"@,
        )
    }

    /// What `resolve` gives for these inputs.
    pub open spec fn resolved(
        &self,
        env: EnvOverrides,
        cli_provider: Option<Seq<char>>,
        cli_model: Option<Seq<char>>,
        cli_base_url: Option<Seq<char>>,
    ) -> ResolvedView {
        let provider = self.resolved_provider(env, cli_provider);
        ResolvedView {
            provider: provider,
            model: pick_spec(
                cli_model,
                nonempty(opt_text(env.model)),
                nonempty(opt_text(env.llm_model)),
                model_name_part(opt_text(self.model)),
                default_model_for(provider),
            ),
            api_key: pick_spec(
                nonempty(opt_text(env.api_key)),
                nonempty(opt_text(env.llm_api_key)),
                self.file_api_key(provider),
                None,
                ""@,
            ),
            base_url: pick_spec(
                cli_base_url,
                nonempty(opt_text(env.base_url)),
                nonempty(opt_text(env.llm_base_url)),
                self.file_base_url(provider),
                default_base_url_for(provider),
            ),
        }
    }

    /// An empty configuration, as when no `aa.json` is found.
    pub fn empty() -> (r: Self)
        ensures
            r.model is None,
            r.mcp is None,
            r.provider.entries().len() == 0,
    {
        Config { model: None, provider: StringMap::new(), mcp: None }
    }

    /// Resolves the configuration into the values a run uses.
    ///
    /// `env` holds the environment variables as read; the `cli_*` values
    /// come from the command line.
    pub fn resolve(
        &self,
        env: &EnvOverrides,
        cli_provider: Option<&str>,
        cli_model: Option<&str>,
        cli_base_url: Option<&str>,
    ) -> (r: ResolvedConfig)
        ensures
            r@ == self.resolved(*env, opt_str(cli_provider), opt_str(cli_model), opt_str(cli_base_url)),
    {
        let split = match &self.model {
            Some(m) => Some((m, split_once_char(m.as_str(), '/'))),
            None => None,
        };
        let from_model_provider: Option<String> = match &split {
            Some((_, Some((p, _)))) => Some(p.clone()),
            _ => None,
        };
        let from_model_name: Option<String> = match &split {
            Some((_, Some((_, n)))) => Some(n.clone()),
            Some((m, None)) => Some((*m).clone()),
            None => None,
        };
        let provider = pick(
            opt_owned(cli_provider),
            non_empty(&env.provider),
            non_empty(&env.llm_provider),
            from_model_provider,
            "ollama",
        );
        let is_ollama = same_text(provider.as_str(), "ollama");
        let default_model = if is_ollama { "gemma4:31b-cloud" } else { "gpt-4o-mini" };
        let model = pick(
            opt_owned(cli_model),
            non_empty(&env.model),
            non_empty(&env.llm_model),
            from_model_name,
            default_model,
        );
        let entry = self.provider.get(provider.as_str());
        let file_key: Option<String> = match entry {
            Some(p) => clone_opt(&p.api_key),
            None => None,
        };
        let file_url: Option<String> = match entry {
            Some(p) => clone_opt(&p.base_url),
            None => None,
        };
        let api_key = pick(non_empty(&env.api_key), non_empty(&env.llm_api_key), file_key, None, "");
        let default_base_url = if is_ollama { "http://localhost:11434" } else { "https://api.openai.com/v1" };
        let base_url = pick(
            opt_owned(cli_base_url),
            non_empty(&env.base_url),
            non_empty(&env.llm_base_url),
            file_url,
            default_base_url,
        );
        ResolvedConfig { provider, model, api_key, base_url }
    }
}

/// An owned copy of an optional borrowed string.
pub fn opt_owned(o: Option<&str>) -> (r: Option<String>)
    ensures
        opt_text(r) == opt_str(o),
{
    match o {
        Some(s) => Some(owned(s)),
        None => None,
    }
}

/// The value when it is set and not empty (how environment variables are
/// read).
pub fn non_empty(o: &Option<String>) -> (r: Option<String>)
    ensures
        opt_text(r) == nonempty(opt_text(*o)),
{
    match o {
        Some(s) => if !s.as_str().is_empty() { Some(s.clone()) } else { None },
        None => None,
    }
}

/// The first present value, else `default`.
pub fn pick(
    a: Option<String>,
    b: Option<String>,
    c: Option<String>,
    d: Option<String>,
    default: &str,
) -> (r: String)
    ensures
        r@ == pick_spec(opt_text(a), opt_text(b), opt_text(c), opt_text(d), default@),
{
    match a {
        Some(x) => x,
        None => match b {
            Some(x) => x,
            None => match c {
                Some(x) => x,
                None => match d {
                    Some(x) => x,
                    None => owned(default),
                },
            },
        },
    }
}

} // verus!

verus! {

/// Values given on the command line are used as they are, whatever the
/// environment and `aa.json` hold.
pub proof fn law_cli_values_win(
    cfg: Config,
    env: EnvOverrides,
    provider: Seq<char>,
    model: Seq<char>,
    base_url: Seq<char>,
)
    ensures
        cfg.resolved(env, Some(provider), Some(model), Some(base_url)).provider == provider,
        cfg.resolved(env, Some(provider), Some(model), Some(base_url)).model == model,
        cfg.resolved(env, Some(provider), Some(model), Some(base_url)).base_url == base_url,
{
}

/// With nothing configured anywhere, a run uses Ollama with its default
/// model and local URL, and no API key.
pub proof fn law_defaults(cfg: Config, env: EnvOverrides)
    requires
        cfg.model is None,
        cfg.provider.entries().len() == 0,
        env.is_unset(),
    ensures
        cfg.resolved(env, None, None, None).provider == "ollama"@,
        cfg.resolved(env, None, None, None).model == "gemma4:31b-cloud"@,
        cfg.resolved(env, None, None, None).api_key == ""@,
        cfg.resolved(env, None, None, None).base_url == "http://localhost:11434"@,
{
}

/// An environment variable set to the empty string counts as unset.
pub proof fn law_empty_env_is_unset(
    cfg: Config,
    env: EnvOverrides,
    cli_provider: Option<Seq<char>>,
    cli_model: Option<Seq<char>>,
    cli_base_url: Option<Seq<char>>,
)
    requires
        env.provider matches Some(s) && s@.len() == 0,
    ensures
        cfg.resolved(env, cli_provider, cli_model, cli_base_url) == cfg.resolved(
            (EnvOverrides { provider: None, ..env }),
            cli_provider,
            cli_model,
            cli_base_url,
        ),
{
}

/// Without a command-line provider, a non-empty `AA_PROVIDER` decides the
/// provider, whatever `aa.json` names.
pub proof fn law_env_beats_file(
    cfg: Config,
    env: EnvOverrides,
    cli_model: Option<Seq<char>>,
    cli_base_url: Option<Seq<char>>,
)
    requires
        env.provider matches Some(s) && s@.len() > 0,
    ensures
        cfg.resolved(env, None, cli_model, cli_base_url).provider == env.provider->0@,
{
}

/// Without command-line values, each non-empty `AA_*` variable decides its
/// value, whatever `aa.json` holds.
pub proof fn law_env_values_win(cfg: Config, env: EnvOverrides, p: String, m: String, k: String, u: String)
    requires
        env.provider == Some(p) && p@.len() > 0,
        env.model == Some(m) && m@.len() > 0,
        env.api_key == Some(k) && k@.len() > 0,
        env.base_url == Some(u) && u@.len() > 0,
    ensures
        cfg.resolved(env, None, None, None).provider == p@,
        cfg.resolved(env, None, None, None).model == m@,
        cfg.resolved(env, None, None, None).api_key == k@,
        cfg.resolved(env, None, None, None).base_url == u@,
{
}

/// The legacy `AA_LLM_*` variables stand in for unset (or empty) `AA_*`
/// ones, whatever `aa.json` holds.
pub proof fn law_legacy_env_fallback(cfg: Config, env: EnvOverrides, p: String, m: String, k: String, u: String)
    requires
        nonempty(opt_text(env.provider)) is None,
        nonempty(opt_text(env.model)) is None,
        nonempty(opt_text(env.api_key)) is None,
        nonempty(opt_text(env.base_url)) is None,
        env.llm_provider == Some(p) && p@.len() > 0,
        env.llm_model == Some(m) && m@.len() > 0,
        env.llm_api_key == Some(k) && k@.len() > 0,
        env.llm_base_url == Some(u) && u@.len() > 0,
    ensures
        cfg.resolved(env, None, None, None).provider == p@,
        cfg.resolved(env, None, None, None).model == m@,
        cfg.resolved(env, None, None, None).api_key == k@,
        cfg.resolved(env, None, None, None).base_url == u@,
{
}

/// With no command-line or environment value, the provider and model come
/// from `aa.json`'s `provider/model`, split at the first `/`.
pub proof fn law_model_string_split(cfg: Config, env: EnvOverrides, p: Seq<char>, m: Seq<char>)
    requires
        env.is_unset(),
        cfg.model matches Some(s) && s@ == p + seq!['/'] + m,
        !p.contains('/'),
    ensures
        cfg.resolved(env, None, None, None).provider == p,
        cfg.resolved(env, None, None, None).model == m,
{
    let s = cfg.model->0@;
    let i = p.len() as int;
    assert(s[i] == '/');
    assert forall|j: int| 0 <= j < i implies s[j] != '/' by {
        assert(s[j] == p[j]);
    }
    assert(is_first_of(s, '/', i));
    let k = choose|k: int| is_first_of(s, '/', k);
    crate::text::lemma_first_unique(s, '/', i, k);
    assert(s.subrange(0, i) =~= p);
    assert(s.subrange(i + 1, s.len() as int) =~= m);
}

/// `c` starts the server of the `aa.json` entry `e`.
pub open spec fn starts_server(e: (String, McpServerDef), c: McpServerConfig) -> bool {
    &&& c.name@ == e.0@
    &&& c.command@ == e.1.command@
    &&& c.args@.map_values(|a: String| a@) == e.1.args@.map_values(|a: String| a@)
}

/// `v` starts the servers of the entries `es`, rearranged (`p[i]` is the
/// entry of `v[i]`) into name order.
pub open spec fn servers_by_name(es: Seq<(String, McpServerDef)>, v: Seq<McpServerConfig>, p: Seq<int>) -> bool {
    &&& v.len() == es.len() && p.len() == es.len()
    &&& forall|i: int| 0 <= i < v.len() ==> 0 <= #[trigger] p[i] < es.len() && starts_server(es[p[i]], v[i])
    &&& forall|i: int, j: int| 0 <= i < j < v.len() ==> p[i] != p[j]
    &&& forall|i: int, j: int| 0 <= i < j < v.len() ==> crate::sort::lex_le(#[trigger] v[i].name@, #[trigger] v[j].name@)
}

fn copy_strings(v: &Vec<String>) -> (r: Vec<String>)
    ensures
        r@.map_values(|a: String| a@) == v@.map_values(|a: String| a@),
{
    let mut out: Vec<String> = Vec::new();
    let mut i: usize = 0;
    while i < v.len()
        invariant
            i <= v@.len(),
            out@.map_values(|a: String| a@) == v@.subrange(0, i as int).map_values(|a: String| a@),
        decreases v@.len() - i,
    {
        let ghost prev = out@;
        out.push(v[i].clone());
        assert(out@.map_values(|a: String| a@) =~= prev.map_values(|a: String| a@).push(v@[i as int]@));
        i = i + 1;
        assert(v@.subrange(0, i as int).map_values(|a: String| a@) =~= v@.subrange(0, i - 1).map_values(
            |a: String| a@,
        ).push(v@[i - 1]@));
    }
    assert(v@.subrange(0, i as int) =~= v@);
    out
}

/// The servers of `aa.json`'s entries, in name order.
fn sorted_servers(es: &[(String, McpServerDef)]) -> (v: Vec<McpServerConfig>)
    ensures
        exists|p: Seq<int>| #[trigger] servers_by_name(es@, v@, p),
{
        let mut keyed: Vec<(String, McpServerConfig)> = Vec::new();
        let mut i: usize = 0;
        while i < es.len()
            invariant
                i <= es@.len(),

                keyed@.len() == i,
                forall|k: int| 0 <= k < i ==> (#[trigger] keyed@[k]).0@ == es@[k].0@ && starts_server(es@[k], keyed@[k].1),
            decreases es@.len() - i,
        {
            let c = McpServerConfig {
                name: es[i].0.clone(),
                command: es[i].1.command.clone(),
                args: copy_strings(&es[i].1.args),
            };
            keyed.push((es[i].0.clone(), c));
            i = i + 1;
        }
        let ghost kv = keyed@;
        let sorted = crate::sort::stable_sort_by_key(keyed, false);
        let ghost p = choose|p: Seq<int>| crate::sort::stably_sorted(kv, sorted@, p, false);
        let mut out: Vec<McpServerConfig> = Vec::new();
        let mut rest = sorted;
        let ghost sv = rest@;
        let mut j: usize = 0;
        let n = rest.len();
        while rest.len() > 0
            invariant
                n == sv.len(),
                j + rest@.len() == n,
                rest@ == sv.subrange(j as int, n as int),
                out@ == sv.subrange(0, j as int).map_values(|e: (String, McpServerConfig)| e.1),
            decreases rest@.len(),
        {
            let (_, c) = rest.remove(0);
            out.push(c);
            j = j + 1;
            assert(rest@ =~= sv.subrange(j as int, n as int));
            assert(out@ =~= sv.subrange(0, j as int).map_values(|e: (String, McpServerConfig)| e.1));
        }
        proof {
            assert(sv.subrange(0, n as int) =~= sv);
            let esv = es@;
            assert forall|a: int, b: int| 0 <= a < b < out@.len() implies crate::sort::lex_le(
                #[trigger] out@[a].name@,
                #[trigger] out@[b].name@,
            ) by {
                assert(crate::sort::in_order(sv[a].0@, sv[b].0@, false));
                assert(sv[a] == kv[p[a]] && sv[b] == kv[p[b]]);
            }
            assert forall|a: int| 0 <= a < out@.len() implies 0 <= #[trigger] p[a] < esv.len() && starts_server(
                esv[p[a]],
                out@[a],
            ) by {
                assert(sv[a] == kv[p[a]]);
            }
            assert(servers_by_name(esv, out@, p));
        }
        out
}

impl Config {
    /// Whether `aa.json` lists MCP servers.
    pub open spec fn lists_servers(&self) -> bool {
        self.mcp matches Some(m) && m.servers.entries().len() > 0
    }

    /// The MCP servers to start: those of `aa.json`, by name, when it
    /// lists any; else those of the `AA_MCP_SERVERS` JSON (`env_servers`)
    /// when it is set, not empty, and parses; else none.
    pub fn mcp_servers(&self, env_servers: Option<EnvServers>) -> (r: Option<Vec<McpServerConfig>>)
        ensures
            self.lists_servers() ==> r is Some,
            self.lists_servers() ==> exists|p: Seq<int>|
                #[trigger] servers_by_name(self.mcp->0.servers.entries(), r->0@, p),
            !self.lists_servers() ==> (r is Some <==> (env_servers matches Some(e) && e.text@.len() > 0
                && e.parsed is Some)),
            !self.lists_servers() && r is Some ==> r->0@.map_values(|c: McpServerConfig| config_view(c))
                == servers_json_view(env_servers->0.parsed->0),
    {
        match &self.mcp {
            Some(m) => {
                if !m.servers.is_empty() {
                    let es = m.servers.entries_slice();
                    let v = sorted_servers(es);
                    let ghost p = choose|p: Seq<int>| servers_by_name(es@, v@, p);
                    assert(es@ == self.mcp->0.servers.entries());
                    assert(servers_by_name(self.mcp->0.servers.entries(), v@, p));
                    let r = Some(v);
                    assert(servers_by_name(self.mcp->0.servers.entries(), r->0@, p));
                    return r;
                }
            },
            None => {},
        }
        match env_servers {
            Some(e) => {
                if e.text.as_str().is_empty() {
                    return None;
                }
                match e.parsed {
                    Some(j) => Some(servers_from_json(j)),
                    None => None,
                }
            },
            None => None,
        }
    }
}

/// Where `aa.json` is looked for, in order: the working directory, then
/// `$HOME/.config/aa/aa.json` when `HOME` is set.
pub fn config_paths(home: Option<&str>) -> (r: Vec<String>)
    ensures
        r@.map_values(|p: String| p@) == match home {
            Some(h) => seq![
                "aa.json"@,
                crate::storage::join_path(crate::storage::join_path(crate::storage::join_path(h@, ".config"@), "aa"@), "aa.json"@),
            ],
            None => seq!["aa.json"@],
        },
{
    let mut v: Vec<String> = Vec::new();
    v.push(owned("aa.json"));
    match home {
        Some(h) => {
            let a = crate::storage::join(h, ".config");
            let b = crate::storage::join(a.as_str(), "aa");
            v.push(crate::storage::join(b.as_str(), "aa.json"));
        },
        None => {},
    }
    assert(v@.map_values(|p: String| p@) =~= match home {
        Some(h) => seq![
            "aa.json"@,
            crate::storage::join_path(crate::storage::join_path(crate::storage::join_path(h@, ".config"@), "aa"@), "aa.json"@),
        ],
        None => seq!["aa.json"@],
    });
    v
}

} // verus!
