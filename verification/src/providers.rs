//! Local inference runtimes: which ones there are, how to reach them, and
//! what to tell a user who wants a model on one.
//!
//! Talking to a runtime is I/O and happens in the application; this module
//! decides where to send a request and what to say when there is nothing to
//! send.

use vstd::prelude::*;
use crate::text::{chars_of, eq_str, lower_seq, lower_vec, remove_chars, remove_vec, trim, trim_vec, trim_start, trim_end, starts_with};
use crate::serve::trim_end_char;

verus! {

#[derive(Debug, Clone, Copy, PartialEq, Eq, Hash, Structural)]
pub enum RuntimeKind {
    Ollama,
    LlamaCpp,
    LmStudio,
    Vllm,
    DockerModelRunner,
    Mlx,
}

pub open spec fn runtime_label(k: RuntimeKind) -> Seq<char> {
    match k {
        RuntimeKind::Ollama => "Ollama"@,
        RuntimeKind::LlamaCpp => "llama.cpp"@,
        RuntimeKind::LmStudio => "LM Studio"@,
        RuntimeKind::Vllm => "vLLM"@,
        RuntimeKind::DockerModelRunner => "Docker Model Runner"@,
        RuntimeKind::Mlx => "MLX"@,
    }
}

/// Short lowercase identifier, as `--force-runtime` and JSON write it.
pub open spec fn runtime_slug(k: RuntimeKind) -> Seq<char> {
    match k {
        RuntimeKind::Ollama => "ollama"@,
        RuntimeKind::LlamaCpp => "llamacpp"@,
        RuntimeKind::LmStudio => "lmstudio"@,
        RuntimeKind::Vllm => "vllm"@,
        RuntimeKind::DockerModelRunner => "docker"@,
        RuntimeKind::Mlx => "mlx"@,
    }
}

/// The environment variable that overrides a runtime's address.
pub open spec fn env_var(k: RuntimeKind) -> Seq<char> {
    match k {
        RuntimeKind::Ollama => "OLLAMA_HOST"@,
        RuntimeKind::LlamaCpp => "LLAMA_CPP_HOST"@,
        RuntimeKind::LmStudio => "LMSTUDIO_HOST"@,
        RuntimeKind::Vllm => "VLLM_HOST"@,
        RuntimeKind::DockerModelRunner => "DOCKER_MODEL_HOST"@,
        RuntimeKind::Mlx => "MLX_HOST"@,
    }
}

/// Where a runtime listens by default. `127.0.0.1` rather than `localhost`:
/// on some systems `localhost` resolves to `::1` first, and probing a port
/// nothing is bound to there waits out the whole timeout.
pub open spec fn default_url(k: RuntimeKind) -> Seq<char> {
    match k {
        RuntimeKind::Ollama => "http://127.0.0.1:11434"@,
        RuntimeKind::LlamaCpp => "http://127.0.0.1:8080"@,
        RuntimeKind::LmStudio => "http://127.0.0.1:1234"@,
        RuntimeKind::Vllm => "http://127.0.0.1:8000"@,
        RuntimeKind::DockerModelRunner => "http://127.0.0.1:12434"@,
        RuntimeKind::Mlx => "http://127.0.0.1:8080"@,
    }
}

/// The command that installs a model on a runtime, up to the model's name.
pub open spec fn hint_prefix(k: RuntimeKind) -> Seq<char> {
    match k {
        RuntimeKind::Ollama => "ollama pull "@,
        RuntimeKind::LlamaCpp => "llama-server -hf "@,
        RuntimeKind::LmStudio => "lms get "@,
        RuntimeKind::Vllm => "vllm serve "@,
        RuntimeKind::DockerModelRunner => "docker model pull "@,
        RuntimeKind::Mlx => "mlx_lm.generate --model "@,
    }
}

/// The runtime a normalised spelling names.
pub open spec fn runtime_for_key(k: Seq<char>) -> Option<RuntimeKind> {
    if k == "ollama"@ {
        Some(RuntimeKind::Ollama)
    }     else if k == "llamacpp"@ || k == "llama"@ || k == "llamaserver"@ || k == "ggml"@ {
        Some(RuntimeKind::LlamaCpp)
    }     else if k == "lmstudio"@ || k == "lms"@ {
        Some(RuntimeKind::LmStudio)
    }     else if k == "vllm"@ {
        Some(RuntimeKind::Vllm)
    }     else if k == "docker"@ || k == "dmr"@ || k == "dockermodelrunner"@ {
        Some(RuntimeKind::DockerModelRunner)
    }     else if k == "mlx"@ || k == "mlxlm"@ {
        Some(RuntimeKind::Mlx)
    } else {
        None
    }
}

/// What `RuntimeKind::parse` reads: case, surrounding whitespace and the
/// separators `_`, `-`, `.` and space do not matter.
pub open spec fn parse_runtime(s: Seq<char>) -> Option<RuntimeKind> {
    runtime_for_key(remove_chars(lower_seq(trim(s)), seq!['_', '-', '.', ' ']))
}

/// The path that lists a runtime's local models.
pub open spec fn list_path_of(k: RuntimeKind) -> Seq<char> {
    match k {
        RuntimeKind::Ollama => "/api/tags"@,
        RuntimeKind::DockerModelRunner => "/engines/v1/models"@,
        _ => "/v1/models"@,
    }
}

/// The path a chat-completion request goes to.
pub open spec fn chat_path_of(k: RuntimeKind) -> Seq<char> {
    match k {
        RuntimeKind::Ollama => "/api/generate"@,
        RuntimeKind::DockerModelRunner => "/engines/v1/chat/completions"@,
        _ => "/v1/chat/completions"@,
    }
}

/// An address as a user may write it, made into a base URL: trimmed,
/// without trailing slashes, and with `http://` added when no scheme is given.
pub open spec fn normalized_url(raw: Seq<char>) -> Seq<char> {
    let t = trim_end_char(trim(raw), '/');
    if starts_with(t, "http://"@) || starts_with(t, "https://"@) {
        t
    } else {
        "http://"@ + t
    }
}

impl RuntimeKind {
    pub const ALL: [RuntimeKind; 6] = [
        RuntimeKind::Ollama,
        RuntimeKind::LlamaCpp,
        RuntimeKind::LmStudio,
        RuntimeKind::Vllm,
        RuntimeKind::DockerModelRunner,
        RuntimeKind::Mlx,
    ];

    pub fn label(self) -> (r: &'static str)
        ensures
            r@ == runtime_label(self),
    {
        match self {
            RuntimeKind::Ollama => "Ollama",
            RuntimeKind::LlamaCpp => "llama.cpp",
            RuntimeKind::LmStudio => "LM Studio",
            RuntimeKind::Vllm => "vLLM",
            RuntimeKind::DockerModelRunner => "Docker Model Runner",
            RuntimeKind::Mlx => "MLX",
        }
    }

    /// Short lowercase identifier used by `--force-runtime` and JSON output.
    pub fn slug(self) -> (r: &'static str)
        ensures
            r@ == runtime_slug(self),
    {
        match self {
            RuntimeKind::Ollama => "ollama",
            RuntimeKind::LlamaCpp => "llamacpp",
            RuntimeKind::LmStudio => "lmstudio",
            RuntimeKind::Vllm => "vllm",
            RuntimeKind::DockerModelRunner => "docker",
            RuntimeKind::Mlx => "mlx",
        }
    }

    /// The environment variable that overrides this runtime's address.
    pub fn env_var(self) -> (r: &'static str)
        ensures
            r@ == env_var(self),
    {
        match self {
            RuntimeKind::Ollama => "OLLAMA_HOST",
            RuntimeKind::LlamaCpp => "LLAMA_CPP_HOST",
            RuntimeKind::LmStudio => "LMSTUDIO_HOST",
            RuntimeKind::Vllm => "VLLM_HOST",
            RuntimeKind::DockerModelRunner => "DOCKER_MODEL_HOST",
            RuntimeKind::Mlx => "MLX_HOST",
        }
    }

    /// Where this runtime listens when nothing overrides it.
    pub fn default_url(self) -> (r: &'static str)
        ensures
            r@ == default_url(self),
    {
        match self {
            RuntimeKind::Ollama => "http://127.0.0.1:11434",
            RuntimeKind::LlamaCpp => "http://127.0.0.1:8080",
            RuntimeKind::LmStudio => "http://127.0.0.1:1234",
            RuntimeKind::Vllm => "http://127.0.0.1:8000",
            RuntimeKind::DockerModelRunner => "http://127.0.0.1:12434",
            RuntimeKind::Mlx => "http://127.0.0.1:8080",
        }
    }

    pub fn parse(s: &str) -> (r: Option<RuntimeKind>)
        ensures
            r == parse_runtime(s@),
    {
        let raw = chars_of(s);
        let t = trim_vec(raw.as_slice());
        let l = lower_vec(t.as_slice());
        let seps = ['_', '-', '.', ' '];
        let k = remove_vec(l.as_slice(), seps.as_slice());
        assert(seps@ =~= seq!['_', '-', '.', ' ']);
        let k = k.as_slice();
        if eq_str(k, "ollama") {
            Some(RuntimeKind::Ollama)
        }         else if eq_str(k, "llamacpp") || eq_str(k, "llama") || eq_str(k, "llamaserver") || eq_str(k, "ggml") {
            Some(RuntimeKind::LlamaCpp)
        }         else if eq_str(k, "lmstudio") || eq_str(k, "lms") {
            Some(RuntimeKind::LmStudio)
        }         else if eq_str(k, "vllm") {
            Some(RuntimeKind::Vllm)
        }         else if eq_str(k, "docker") || eq_str(k, "dmr") || eq_str(k, "dockermodelrunner") {
            Some(RuntimeKind::DockerModelRunner)
        }         else if eq_str(k, "mlx") || eq_str(k, "mlxlm") {
            Some(RuntimeKind::Mlx)
        } else {
            None
        }
    }

    /// Base URL: the configured address when there is one (the application
    /// reads it from `env_var`), else the default, normalised.
    pub fn base_url(self, configured: Option<&str>) -> (r: String)
        ensures
            r@ == normalized_url(match configured {
                Some(c) => c@,
                None => default_url(self),
            }),
    {
        match configured {
            Some(c) => normalize_url(c),
            None => normalize_url(self.default_url()),
        }
    }

    /// Path that lists the runtime's local models.
    pub fn list_path(self) -> (r: &'static str)
        ensures
            r@ == list_path_of(self),
    {
        match self {
            RuntimeKind::Ollama => "/api/tags",
            RuntimeKind::DockerModelRunner => "/engines/v1/models",
            _ => "/v1/models",
        }
    }

    /// Path used for a chat-completion request.
    pub fn chat_path(self) -> (r: &'static str)
        ensures
            r@ == chat_path_of(self),
    {
        match self {
            RuntimeKind::Ollama => "/api/generate",
            RuntimeKind::DockerModelRunner => "/engines/v1/chat/completions",
            _ => "/v1/chat/completions",
        }
    }

    /// GGUF runtimes can only run models with published GGUF builds; MLX and
    /// vLLM read the safetensors weights as published.
    pub fn needs_gguf(self) -> (r: bool)
        ensures
            r == !(self == RuntimeKind::Mlx || self == RuntimeKind::Vllm),
    {
        !(self == RuntimeKind::Mlx || self == RuntimeKind::Vllm)
    }

    /// Command that installs a model for this runtime.
    pub fn install_hint(self, model_ref: &str) -> (r: Option<String>)
        ensures
            r matches Some(c) && c@ == hint_prefix(self) + model_ref@,
    {
        let prefix: &str = match self {
            RuntimeKind::Ollama => "ollama pull ",
            RuntimeKind::LlamaCpp => "llama-server -hf ",
            RuntimeKind::LmStudio => "lms get ",
            RuntimeKind::Vllm => "vllm serve ",
            RuntimeKind::DockerModelRunner => "docker model pull ",
            RuntimeKind::Mlx => "mlx_lm.generate --model ",
        };
        let mut c = crate::text::owned(prefix);
        c.append(model_ref);
        Some(c)
    }
}

/// Turn a configured address into a base URL.
pub fn normalize_url(raw: &str) -> (r: String)
    ensures
        r@ == normalized_url(raw@),
{
    let v = chars_of(raw);
    let t = trim_vec(v.as_slice());
    let mut e = t.len();
    assert(t@.subrange(0, e as int) =~= t@);
    while e > 0 && t[e - 1] == '/'
        invariant
            e <= t.len(),
            trim_end_char(t@, '/') == trim_end_char(t@.subrange(0, e as int), '/'),
        decreases e,
    {
        assert(t@.subrange(0, e as int).drop_last() =~= t@.subrange(0, e - 1));
        e = e - 1;
    }
    proof {
        if e > 0 {
            assert(t@.subrange(0, e as int).last() == t@[e - 1]);
        }
        assert(t@.subrange(0, t@.len() as int) =~= t@);
    }
    let body = crate::text::string_of(vstd::slice::slice_subrange(t.as_slice(), 0, e));
    let bv = chars_of(body.as_str());
    if has_prefix(bv.as_slice(), "http://") || has_prefix(bv.as_slice(), "https://") {
        body
    } else {
        let mut r = crate::text::owned("http://");
        r.append(body.as_str());
        r
    }
}

fn has_prefix(v: &[char], p: &str) -> (r: bool)
    ensures
        r == starts_with(v@, p@),
{
    let pv = chars_of(p);
    if pv.len() > v.len() {
        return false;
    }
    let mut i: usize = 0;
    while i < pv.len()
        invariant
            i <= pv.len(),
            pv.len() <= v.len(),
            pv@ == p@,
            forall|j: int| 0 <= j < i ==> v@[j] == pv@[j],
        decreases pv.len() - i,
    {
        if v[i] != pv[i] {
            assert(v@.subrange(0, pv.len() as int)[i as int] != p@[i as int]);
            return false;
        }
        i = i + 1;
    }
    assert(v@.subrange(0, pv.len() as int) =~= p@);
    true
}

/// A model a local runtime reports as available.
#[derive(Debug, Clone)]
pub struct InstalledModel {
    pub name: String,
    pub provider: String,
    pub size_bytes: u64,
    pub modified_at: String,
}

/// A client for one local runtime.
#[derive(Debug, Clone)]
pub struct Runtime {
    pub kind: RuntimeKind,
    pub base_url: String,
}

impl Runtime {
    /// A client at the configured address, or the runtime's default.
    pub fn new(kind: RuntimeKind, configured: Option<&str>) -> (r: Runtime)
        ensures
            r.kind == kind,
            r.base_url@ == normalized_url(match configured {
                Some(c) => c@,
                None => default_url(kind),
            }),
    {
        Runtime { kind, base_url: kind.base_url(configured) }
    }

    pub fn with_url(kind: RuntimeKind, url: &str) -> (r: Runtime)
        ensures
            r.kind == kind,
            r.base_url@ == normalized_url(url@),
    {
        Runtime { kind, base_url: normalize_url(url) }
    }

    /// The full URL of an endpoint.
    pub fn url(&self, path: &str) -> (r: String)
        ensures
            r@ == self.base_url@ + path@,
    {
        let mut r = self.base_url.clone();
        r.append(path);
        r
    }

    /// Where to ask for the runtime's local models, once the application has
    /// checked whether anything listens on its port.
    pub fn list_models(&self, port_open: bool) -> (r: Result<String, String>)
        ensures
            port_open ==> (r matches Ok(u) && u@ == self.base_url@ + list_path_of(self.kind)),
            !port_open ==> (r matches Err(e) && e@ == "nothing listening at "@ + self.base_url@),
    {
        if !port_open {
            let mut e = crate::text::owned("nothing listening at ");
            e.append(self.base_url.as_str());
            return Err(e);
        }
        Ok(self.url(self.kind.list_path()))
    }

    /// Downloading a model: the endpoint to post the request to when the
    /// runtime has a pull API (Ollama), else what to run instead.
    pub fn pull(&self, model_ref: &str) -> (r: Result<String, String>)
        ensures
            self.kind == RuntimeKind::Ollama ==> (r matches Ok(u) && u@ == self.base_url@ + "/api/pull"@),
            self.kind != RuntimeKind::Ollama ==> (r matches Err(e) && e@ == runtime_label(self.kind)
                + " has no pull API — run: "@ + hint_prefix(self.kind) + model_ref@),
    {
        match self.kind {
            RuntimeKind::Ollama => Ok(self.url("/api/pull")),
            other => {
                let mut e = crate::text::owned(other.label());
                e.append(" has no pull API — run: ");
                match other.install_hint(model_ref) {
                    Some(cmd) => e.append(cmd.as_str()),
                    None => {},
                }
                Err(e)
            },
        }
    }
}

/// How long a discovery result stays fresh, in seconds.
pub const DISCOVERY_TTL: u64 = 300;

/// Whether something cached at `stamped` is still fresh at `now`.
pub fn is_fresh(now: u64, stamped: u64) -> (r: bool)
    ensures
        r == (now >= stamped && now - stamped < DISCOVERY_TTL) || (now < stamped),
{
    now.saturating_sub(stamped) < DISCOVERY_TTL
}


/// With nothing configured, each runtime is probed on the loopback address
/// at the port its server listens on by default: Ollama 11434, llama.cpp's
/// llama-server 8080, LM Studio 1234, vLLM 8000, Docker Model Runner 12434
/// and MLX 8080.
pub proof fn lemma_default_endpoints(k: RuntimeKind)
    ensures
        normalized_url(default_url(k)) == default_url(k),
        default_url(k) == match k {
            RuntimeKind::Ollama => "http://127.0.0.1:11434"@,
            RuntimeKind::LlamaCpp => "http://127.0.0.1:8080"@,
            RuntimeKind::LmStudio => "http://127.0.0.1:1234"@,
            RuntimeKind::Vllm => "http://127.0.0.1:8000"@,
            RuntimeKind::DockerModelRunner => "http://127.0.0.1:12434"@,
            RuntimeKind::Mlx => "http://127.0.0.1:8080"@,
        },
{
    reveal_strlit("http://127.0.0.1:11434");
    reveal_strlit("http://127.0.0.1:8080");
    reveal_strlit("http://127.0.0.1:1234");
    reveal_strlit("http://127.0.0.1:8000");
    reveal_strlit("http://127.0.0.1:12434");
    reveal_strlit("http://");
    let u = default_url(k);
    assert(u.len() > 0 && !crate::text::is_space(u[0]) && !crate::text::is_space(u.last()));
    assert(trim_start(u) == u);
    assert(trim_end(u) == u);
    assert(trim(u) == u);
    assert(u.last() != '/');
    assert(trim_end_char(u, '/') == u);
    assert(u.subrange(0, 7) =~= "http://"@);
    assert(starts_with(u, "http://"@));
}

/// Every runtime reads back from its slug and from its display name.
#[verifier::spinoff_prover]
#[verifier::rlimit(40)]
pub proof fn lemma_runtime_names_round_trip(k: RuntimeKind)
    ensures
        parse_runtime(runtime_slug(k)) == Some(k),
        parse_runtime(runtime_label(k)) == Some(k),
{
    reveal_strlit("llamaserver");
    reveal_strlit("dockermodelrunner");
    reveal_strlit("LM Studio");
    reveal_strlit("llamacpp");
    reveal_strlit("mlx");
    reveal_strlit("ollama");
    reveal_strlit("docker");
    reveal_strlit("mlxlm");
    reveal_strlit("MLX");
    reveal_strlit("Docker Model Runner");
    reveal_strlit("lms");
    reveal_strlit("dmr");
    reveal_strlit("Ollama");
    reveal_strlit("vllm");
    reveal_strlit("lmstudio");
    reveal_strlit("ggml");
    reveal_strlit("llama.cpp");
    reveal_strlit("vLLM");
    reveal_strlit("llama");
    reveal_with_fuel(Seq::filter, 20);
    let seps = seq!['_', '-', '.', ' '];
    assert("ollama"@ =~= seq!['o', 'l', 'l', 'a', 'm', 'a']);
    assert("llamacpp"@ =~= seq!['l', 'l', 'a', 'm', 'a', 'c', 'p', 'p']);
    assert("llama"@ =~= seq!['l', 'l', 'a', 'm', 'a']);
    assert("llamaserver"@ =~= seq!['l', 'l', 'a', 'm', 'a', 's', 'e', 'r', 'v', 'e', 'r']);
    assert("ggml"@ =~= seq!['g', 'g', 'm', 'l']);
    assert("lmstudio"@ =~= seq!['l', 'm', 's', 't', 'u', 'd', 'i', 'o']);
    assert("lms"@ =~= seq!['l', 'm', 's']);
    assert("vllm"@ =~= seq!['v', 'l', 'l', 'm']);
    assert("docker"@ =~= seq!['d', 'o', 'c', 'k', 'e', 'r']);
    assert("dmr"@ =~= seq!['d', 'm', 'r']);
    assert("dockermodelrunner"@ =~= seq!['d', 'o', 'c', 'k', 'e', 'r', 'm', 'o', 'd', 'e', 'l', 'r', 'u', 'n', 'n', 'e', 'r']);
    assert("mlx"@ =~= seq!['m', 'l', 'x']);
    assert("mlxlm"@ =~= seq!['m', 'l', 'x', 'l', 'm']);
    match k {
        RuntimeKind::Ollama => {
            assert("ollama"@ =~= seq!['o', 'l', 'l', 'a', 'm', 'a']);
            assert(trim_start(seq!['o', 'l', 'l', 'a', 'm', 'a']) =~= seq!['o', 'l', 'l', 'a', 'm', 'a']);
            assert(trim_end(seq!['o', 'l', 'l', 'a', 'm', 'a']) =~= seq!['o', 'l', 'l', 'a', 'm', 'a']);
            assert(lower_seq(seq!['o', 'l', 'l', 'a', 'm', 'a']) =~= seq!['o', 'l', 'l', 'a', 'm', 'a']);
            assert(remove_chars(seq!['o', 'l', 'l', 'a', 'm', 'a'], seps) =~= seq!['o', 'l', 'l', 'a', 'm', 'a']);
            assert("Ollama"@ =~= seq!['O', 'l', 'l', 'a', 'm', 'a']);
            assert(trim_start(seq!['O', 'l', 'l', 'a', 'm', 'a']) =~= seq!['O', 'l', 'l', 'a', 'm', 'a']);
            assert(trim_end(seq!['O', 'l', 'l', 'a', 'm', 'a']) =~= seq!['O', 'l', 'l', 'a', 'm', 'a']);
            assert(lower_seq(seq!['O', 'l', 'l', 'a', 'm', 'a']) =~= seq!['o', 'l', 'l', 'a', 'm', 'a']);
            assert(remove_chars(seq!['o', 'l', 'l', 'a', 'm', 'a'], seps) =~= seq!['o', 'l', 'l', 'a', 'm', 'a']);
        },
        RuntimeKind::LlamaCpp => {
            assert("llamacpp"@ =~= seq!['l', 'l', 'a', 'm', 'a', 'c', 'p', 'p']);
            assert(trim_start(seq!['l', 'l', 'a', 'm', 'a', 'c', 'p', 'p']) =~= seq!['l', 'l', 'a', 'm', 'a', 'c', 'p', 'p']);
            assert(trim_end(seq!['l', 'l', 'a', 'm', 'a', 'c', 'p', 'p']) =~= seq!['l', 'l', 'a', 'm', 'a', 'c', 'p', 'p']);
            assert(lower_seq(seq!['l', 'l', 'a', 'm', 'a', 'c', 'p', 'p']) =~= seq!['l', 'l', 'a', 'm', 'a', 'c', 'p', 'p']);
            assert(remove_chars(seq!['l', 'l', 'a', 'm', 'a', 'c', 'p', 'p'], seps) =~= seq!['l', 'l', 'a', 'm', 'a', 'c', 'p', 'p']);
            assert("llama.cpp"@ =~= seq!['l', 'l', 'a', 'm', 'a', '.', 'c', 'p', 'p']);
            assert(trim_start(seq!['l', 'l', 'a', 'm', 'a', '.', 'c', 'p', 'p']) =~= seq!['l', 'l', 'a', 'm', 'a', '.', 'c', 'p', 'p']);
            assert(trim_end(seq!['l', 'l', 'a', 'm', 'a', '.', 'c', 'p', 'p']) =~= seq!['l', 'l', 'a', 'm', 'a', '.', 'c', 'p', 'p']);
            assert(lower_seq(seq!['l', 'l', 'a', 'm', 'a', '.', 'c', 'p', 'p']) =~= seq!['l', 'l', 'a', 'm', 'a', '.', 'c', 'p', 'p']);
            assert(remove_chars(seq!['l', 'l', 'a', 'm', 'a', '.', 'c', 'p', 'p'], seps) =~= seq!['l', 'l', 'a', 'm', 'a', 'c', 'p', 'p']);
        },
        RuntimeKind::LmStudio => {
            assert("lmstudio"@ =~= seq!['l', 'm', 's', 't', 'u', 'd', 'i', 'o']);
            assert(trim_start(seq!['l', 'm', 's', 't', 'u', 'd', 'i', 'o']) =~= seq!['l', 'm', 's', 't', 'u', 'd', 'i', 'o']);
            assert(trim_end(seq!['l', 'm', 's', 't', 'u', 'd', 'i', 'o']) =~= seq!['l', 'm', 's', 't', 'u', 'd', 'i', 'o']);
            assert(lower_seq(seq!['l', 'm', 's', 't', 'u', 'd', 'i', 'o']) =~= seq!['l', 'm', 's', 't', 'u', 'd', 'i', 'o']);
            assert(remove_chars(seq!['l', 'm', 's', 't', 'u', 'd', 'i', 'o'], seps) =~= seq!['l', 'm', 's', 't', 'u', 'd', 'i', 'o']);
            assert("LM Studio"@ =~= seq!['L', 'M', ' ', 'S', 't', 'u', 'd', 'i', 'o']);
            assert(trim_start(seq!['L', 'M', ' ', 'S', 't', 'u', 'd', 'i', 'o']) =~= seq!['L', 'M', ' ', 'S', 't', 'u', 'd', 'i', 'o']);
            assert(trim_end(seq!['L', 'M', ' ', 'S', 't', 'u', 'd', 'i', 'o']) =~= seq!['L', 'M', ' ', 'S', 't', 'u', 'd', 'i', 'o']);
            assert(lower_seq(seq!['L', 'M', ' ', 'S', 't', 'u', 'd', 'i', 'o']) =~= seq!['l', 'm', ' ', 's', 't', 'u', 'd', 'i', 'o']);
            assert(remove_chars(seq!['l', 'm', ' ', 's', 't', 'u', 'd', 'i', 'o'], seps) =~= seq!['l', 'm', 's', 't', 'u', 'd', 'i', 'o']);
        },
        RuntimeKind::Vllm => {
            assert("vllm"@ =~= seq!['v', 'l', 'l', 'm']);
            assert(trim_start(seq!['v', 'l', 'l', 'm']) =~= seq!['v', 'l', 'l', 'm']);
            assert(trim_end(seq!['v', 'l', 'l', 'm']) =~= seq!['v', 'l', 'l', 'm']);
            assert(lower_seq(seq!['v', 'l', 'l', 'm']) =~= seq!['v', 'l', 'l', 'm']);
            assert(remove_chars(seq!['v', 'l', 'l', 'm'], seps) =~= seq!['v', 'l', 'l', 'm']);
            assert("vLLM"@ =~= seq!['v', 'L', 'L', 'M']);
            assert(trim_start(seq!['v', 'L', 'L', 'M']) =~= seq!['v', 'L', 'L', 'M']);
            assert(trim_end(seq!['v', 'L', 'L', 'M']) =~= seq!['v', 'L', 'L', 'M']);
            assert(lower_seq(seq!['v', 'L', 'L', 'M']) =~= seq!['v', 'l', 'l', 'm']);
            assert(remove_chars(seq!['v', 'l', 'l', 'm'], seps) =~= seq!['v', 'l', 'l', 'm']);
        },
        RuntimeKind::DockerModelRunner => {
            assert("docker"@ =~= seq!['d', 'o', 'c', 'k', 'e', 'r']);
            assert(trim_start(seq!['d', 'o', 'c', 'k', 'e', 'r']) =~= seq!['d', 'o', 'c', 'k', 'e', 'r']);
            assert(trim_end(seq!['d', 'o', 'c', 'k', 'e', 'r']) =~= seq!['d', 'o', 'c', 'k', 'e', 'r']);
            assert(lower_seq(seq!['d', 'o', 'c', 'k', 'e', 'r']) =~= seq!['d', 'o', 'c', 'k', 'e', 'r']);
            assert(remove_chars(seq!['d', 'o', 'c', 'k', 'e', 'r'], seps) =~= seq!['d', 'o', 'c', 'k', 'e', 'r']);
            assert("Docker Model Runner"@ =~= seq!['D', 'o', 'c', 'k', 'e', 'r', ' ', 'M', 'o', 'd', 'e', 'l', ' ', 'R', 'u', 'n', 'n', 'e', 'r']);
            assert(trim_start(seq!['D', 'o', 'c', 'k', 'e', 'r', ' ', 'M', 'o', 'd', 'e', 'l', ' ', 'R', 'u', 'n', 'n', 'e', 'r']) =~= seq!['D', 'o', 'c', 'k', 'e', 'r', ' ', 'M', 'o', 'd', 'e', 'l', ' ', 'R', 'u', 'n', 'n', 'e', 'r']);
            assert(trim_end(seq!['D', 'o', 'c', 'k', 'e', 'r', ' ', 'M', 'o', 'd', 'e', 'l', ' ', 'R', 'u', 'n', 'n', 'e', 'r']) =~= seq!['D', 'o', 'c', 'k', 'e', 'r', ' ', 'M', 'o', 'd', 'e', 'l', ' ', 'R', 'u', 'n', 'n', 'e', 'r']);
            assert(lower_seq(seq!['D', 'o', 'c', 'k', 'e', 'r', ' ', 'M', 'o', 'd', 'e', 'l', ' ', 'R', 'u', 'n', 'n', 'e', 'r']) =~= seq!['d', 'o', 'c', 'k', 'e', 'r', ' ', 'm', 'o', 'd', 'e', 'l', ' ', 'r', 'u', 'n', 'n', 'e', 'r']);
            assert(remove_chars(seq!['d', 'o', 'c', 'k', 'e', 'r', ' ', 'm', 'o', 'd', 'e', 'l', ' ', 'r', 'u', 'n', 'n', 'e', 'r'], seps) =~= seq!['d', 'o', 'c', 'k', 'e', 'r', 'm', 'o', 'd', 'e', 'l', 'r', 'u', 'n', 'n', 'e', 'r']);
        },
        RuntimeKind::Mlx => {
            assert("mlx"@ =~= seq!['m', 'l', 'x']);
            assert(trim_start(seq!['m', 'l', 'x']) =~= seq!['m', 'l', 'x']);
            assert(trim_end(seq!['m', 'l', 'x']) =~= seq!['m', 'l', 'x']);
            assert(lower_seq(seq!['m', 'l', 'x']) =~= seq!['m', 'l', 'x']);
            assert(remove_chars(seq!['m', 'l', 'x'], seps) =~= seq!['m', 'l', 'x']);
            assert("MLX"@ =~= seq!['M', 'L', 'X']);
            assert(trim_start(seq!['M', 'L', 'X']) =~= seq!['M', 'L', 'X']);
            assert(trim_end(seq!['M', 'L', 'X']) =~= seq!['M', 'L', 'X']);
            assert(lower_seq(seq!['M', 'L', 'X']) =~= seq!['m', 'l', 'x']);
            assert(remove_chars(seq!['m', 'l', 'x'], seps) =~= seq!['m', 'l', 'x']);
        },
    }
}


// ---------------------------------------------------------------------------
// Choosing a runtime
// ---------------------------------------------------------------------------

/// The runtime whose commands are suggested for a model: the one asked for,
/// else the first one running, else the one most likely to be installed for
/// it (Ollama when it has a tag, llama.cpp, which loads any GGUF, otherwise).
pub open spec fn suggestion(forced: Option<RuntimeKind>, first_running: Option<RuntimeKind>, has_tag: bool) -> RuntimeKind {
    match forced {
        Some(k) => k,
        None => match first_running {
            Some(k) => k,
            None => if has_tag { RuntimeKind::Ollama } else { RuntimeKind::LlamaCpp },
        },
    }
}

pub fn suggested_runtime(forced: Option<RuntimeKind>, first_running: Option<RuntimeKind>, has_tag: bool) -> (r: RuntimeKind)
    ensures
        r == suggestion(forced, first_running, has_tag),
{
    match forced {
        Some(k) => k,
        None => match first_running {
            Some(k) => k,
            None => if has_tag {
                RuntimeKind::Ollama
            } else {
                RuntimeKind::LlamaCpp
            },
        },
    }
}

/// The runtime a benchmark runs against, as a position in `running`: the
/// one asked for, which must be running, or else the first running one.
pub fn select_runtime(running: &[RuntimeKind], forced: Option<RuntimeKind>) -> (r: Result<usize, String>)
    ensures
        match forced {
            Some(k) => match r {
                Ok(i) => i < running.len() && running@[i as int] == k && forall|j: int| 0 <= j < i ==> running@[j] != k,
                Err(e) => !running@.contains(k) && e@ == runtime_label(k) + " is not running on this machine"@,
            },
            None => match r {
                Ok(i) => i == 0 && running.len() > 0,
                Err(e) => running.len() == 0 && e@
                    == "no local runtime is running (tried Ollama, llama.cpp, LM Studio, vLLM, Docker Model Runner)"@,
            },
        },
{
    match forced {
        Some(k) => {
            let mut i: usize = 0;
            while i < running.len()
                invariant
                    forced == Some(k),
                    i <= running.len(),
                    forall|j: int| 0 <= j < i ==> running@[j] != k,
                decreases running.len() - i,
            {
                if running[i] == k {
                    return Ok(i);
                }
                i = i + 1;
            }
            let mut e = crate::text::owned(k.label());
            e.append(" is not running on this machine");
            Err(e)
        },
        None => if running.len() > 0 {
            Ok(0)
        } else {
            Err(
                crate::text::owned(
                    "no local runtime is running (tried Ollama, llama.cpp, LM Studio, vLLM, Docker Model Runner)",
                ),
            )
        },
    }
}

/// The models a benchmark runs: the one named, unless every installed
/// model was asked for; otherwise the runtime's installed models, all of
/// them or just the first. `installed` is what the runtime lists, and is
/// read only when no model was named.
pub fn bench_targets(query: &str, all: bool, runtime: RuntimeKind, installed: &[String]) -> (r: Result<Vec<String>, String>)
    ensures
        match r {
            Ok(v) => if query@.len() > 0 && !all {
                v@.len() == 1 && v@[0]@ == query@
            } else {
                installed.len() > 0 && v@ == if all { installed@ } else { installed@.take(1) }
            },
            Err(e) => !(query@.len() > 0 && !all) && installed.len() == 0 && e@ == runtime_label(runtime)
                + " reports no installed models — name one explicitly"@,
        },
{
    if chars_of(query).len() > 0 && !all {
        return Ok(vec![crate::text::owned(query)]);
    }
    if installed.len() == 0 {
        let mut e = crate::text::owned(runtime.label());
        e.append(" reports no installed models — name one explicitly");
        return Err(e);
    }
    let n = if all { installed.len() } else { 1 };
    let mut out: Vec<String> = Vec::new();
    let mut i: usize = 0;
    while i < n
        invariant
            n <= installed.len(),
            i <= n,
            out@ == installed@.take(i as int),
        decreases n - i,
    {
        out.push(installed[i].clone());
        assert(out@ =~= installed@.take(i + 1));
        i = i + 1;
    }
    assert(installed@.take(installed.len() as int) =~= installed@);
    Ok(out)
}

/// Whether a runtime can load a model: GGUF loaders need a GGUF build; with
/// no runtime named, every model counts.
pub fn can_load(runtime: Option<RuntimeKind>, gguf: bool) -> (r: bool)
    ensures
        r == match runtime {
            Some(k) => k == RuntimeKind::Mlx || k == RuntimeKind::Vllm || gguf,
            None => true,
        },
{
    match runtime {
        Some(k) => !k.needs_gguf() || gguf,
        None => true,
    }
}

} // verus!
