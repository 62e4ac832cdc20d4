//! The Model Context Protocol server's protocol: which era a client speaks,
//! how each request is answered, the tools on offer and how their text
//! arguments are read.
//!
//! The protocol has two eras. A modern client (revision `2026-07-28`)
//! carries its version in every request's `_meta`; a legacy client opens
//! with an `initialize` handshake. The server answers both, and picks its
//! behaviour from how the client opens.
//!
//! Reading JSON-RPC on stdin, rendering replies and running the tools live
//! in the application; the argument schemas are given here as JSON text.

use vstd::prelude::*;
use crate::fit::{FitLevel, fit_hint, parse_fit};
use crate::models::{Quant, UseCase, parse_quant, parse_use_case, quant_hint, use_case_hint};
use crate::text::{chars_of, concat2, str_eq, trim, trim_vec, dec, dec_string};
use crate::json::{
    Json, JsonView, json_view, json_result, json_of, member, text_member, json_text, json_pretty, get, get_text,
    text, array1, object0, object1, object2, object3, object4, copy, read_json, to_text, to_pretty_text,
    lemma_views, views,
};

verus! {

#[derive(Debug, Clone, Copy, PartialEq, Eq, Structural)]
pub enum Tool {
    System,
    Runtimes,
    Fit,
    Model,
    Search,
    Plan,
    Verify,
}

pub open spec fn tool_name(t: Tool) -> Seq<char> {
    match t {
        Tool::System => "system"@,
        Tool::Runtimes => "runtimes"@,
        Tool::Fit => "fit"@,
        Tool::Model => "model"@,
        Tool::Search => "search"@,
        Tool::Plan => "plan"@,
        Tool::Verify => "verify"@,
    }
}

pub open spec fn tool_title(t: Tool) -> Seq<char> {
    match t {
        Tool::System => "Detected hardware"@,
        Tool::Runtimes => "Local runtimes"@,
        Tool::Fit => "Rank models for this machine"@,
        Tool::Model => "Analyse one model"@,
        Tool::Search => "Search the catalog"@,
        Tool::Plan => "Plan hardware for a model"@,
        Tool::Verify => "Check a model file on disk"@,
    }
}

pub open spec fn tool_description(t: Tool) -> Seq<char> {
    match t {
        Tool::System => "GPUs, VRAM, system RAM, CPU cores and the inference backend detected on this machine, with the memory bandwidth every throughput estimate is derived from."@,
        Tool::Runtimes => "Inference runtimes currently running locally (Ollama, llama.cpp, LM Studio, vLLM and others) and the models each one already has installed."@,
        Tool::Fit => "Rank the catalog by how well each model fits this machine. Returns the chosen quantization, placement, download size, context, estimated tokens/sec and an overall score. Answers \"what can I run\"."@,
        Tool::Model => "Everything known about one model plus its full analysis on this machine. Answers \"can I run this specific model, and how fast\"."@,
        Tool::Search => "Find models in the catalog by name, provider, parameter size or use case. Catalog lookup only — no hardware analysis."@,
        Tool::Plan => "What hardware a model needs, independent of this machine: VRAM for weights and KV cache at a given context and quantization, and — with target_tokens_per_sec — the memory bandwidth required and which GPUs clear it. Answers \"what would I have to buy\"."@,
        Tool::Verify => "Read a .gguf or .safetensors file's header and report whether it is                  structurally intact — the check for a download that stopped short.                  Reports the architecture, parameter count and quantization mix it                  actually contains. Reads the header only, not the weights."@,
    }
}

/// The `properties` of the tool's argument schema, as JSON text; none for a
/// tool that takes no arguments.
pub open spec fn tool_properties(t: Tool) -> Option<Seq<char>> {
    match t {
        Tool::System => None,
        Tool::Runtimes => None,
        Tool::Fit => Some("{\"include_unrunnable\":{\"description\":\"Include models this machine cannot load (default false).\",\"type\":\"boolean\"},\"limit\":{\"description\":\"Maximum models to return (default 10).\",\"minimum\":1,\"type\":\"integer\"},\"max_size_gb\":{\"description\":\"Only models whose download is at most this size.\",\"type\":\"number\"},\"min_fit\":{\"description\":\"Minimum fit level.\",\"enum\":[\"perfect\",\"good\",\"marginal\",\"too_tight\"],\"type\":\"string\"},\"min_tokens_per_sec\":{\"description\":\"Only models estimated to reach at least this speed.\",\"type\":\"number\"},\"provider\":{\"description\":\"Only models from this provider (substring match).\",\"type\":\"string\"},\"use_case\":{\"description\":\"Weight the scores for this use case. Defaults to the configured one.\",\"enum\":[\"general\",\"coding\",\"reasoning\",\"chat\",\"multimodal\",\"embedding\"],\"type\":\"string\"}}"@),
        Tool::Model => Some("{\"name\":{\"description\":\"Model name or id, e.g. \\\"Llama-3.1-8B\\\" or \\\"qwen2.5 7b\\\".\",\"type\":\"string\"},\"use_case\":{\"description\":\"Weight the scores for this use case.\",\"enum\":[\"general\",\"coding\",\"reasoning\",\"chat\",\"multimodal\",\"embedding\"],\"type\":\"string\"}}"@),
        Tool::Search => Some("{\"limit\":{\"description\":\"Maximum models to return (default 20).\",\"minimum\":1,\"type\":\"integer\"},\"query\":{\"description\":\"Free text matched against name, provider, size and use case.\",\"type\":\"string\"}}"@),
        Tool::Plan => Some("{\"context\":{\"description\":\"Context length in tokens. Defaults to the model's maximum.\",\"minimum\":1,\"type\":\"integer\"},\"model\":{\"description\":\"Model name or id.\",\"type\":\"string\"},\"quant\":{\"description\":\"Quantization to plan for (default q4_k_m).\",\"type\":\"string\"},\"target_tokens_per_sec\":{\"description\":\"Also report the bandwidth and the GPUs needed to reach this speed.\",\"type\":\"number\"}}"@),
        Tool::Verify => Some("{\"path\":{\"description\":\"Path to a .gguf or .safetensors file on this machine.\",\"type\":\"string\"}}"@),
    }
}

/// The one argument the tool cannot do without, if any.
pub open spec fn tool_required(t: Tool) -> Option<Seq<char>> {
    match t {
        Tool::System => None,
        Tool::Runtimes => None,
        Tool::Fit => None,
        Tool::Model => Some("name"@),
        Tool::Search => Some("query"@),
        Tool::Plan => Some("model"@),
        Tool::Verify => Some("path"@),
    }
}

/// The argument schema as `tools/list` sends it: an object schema that
/// refuses unknown arguments, with the tool's properties read as JSON.
pub open spec fn schema_members(t: Tool) -> Seq<(Seq<char>, JsonView)> {
    seq![("additionalProperties"@, JsonView::Bool(false))]
        + match tool_properties(t) {
            Some(p) => seq![("properties"@, match json_of(vstd::utf8::encode_utf8(p)) {
                Ok(v) => v,
                Err(_) => JsonView::Null,
            })],
            None => seq![],
        }
        + match tool_required(t) {
            Some(r) => seq![("required"@, JsonView::Array(seq![JsonView::Text(r)]))],
            None => seq![],
        }
        + seq![("type"@, JsonView::Text("object"@))]
}

pub open spec fn schema_value(t: Tool) -> JsonView {
    JsonView::Object(schema_members(t))
}

/// The tool a name calls for.
pub open spec fn tool_named(n: Seq<char>) -> Option<Tool> {
    if n == tool_name(Tool::System) {
        Some(Tool::System)
    }     else if n == tool_name(Tool::Runtimes) {
        Some(Tool::Runtimes)
    }     else if n == tool_name(Tool::Fit) {
        Some(Tool::Fit)
    }     else if n == tool_name(Tool::Model) {
        Some(Tool::Model)
    }     else if n == tool_name(Tool::Search) {
        Some(Tool::Search)
    }     else if n == tool_name(Tool::Plan) {
        Some(Tool::Plan)
    }     else if n == tool_name(Tool::Verify) {
        Some(Tool::Verify)
    } else {
        None
    }
}

impl Tool {
    pub const ALL: [Tool; 7] = [
        Tool::System,
        Tool::Runtimes,
        Tool::Fit,
        Tool::Model,
        Tool::Search,
        Tool::Plan,
        Tool::Verify,
    ];

    pub fn name(self) -> (r: &'static str)
        ensures
            r@ == tool_name(self),
    {
        match self {
            Tool::System => "system",
            Tool::Runtimes => "runtimes",
            Tool::Fit => "fit",
            Tool::Model => "model",
            Tool::Search => "search",
            Tool::Plan => "plan",
            Tool::Verify => "verify",
        }
    }

    pub fn title(self) -> (r: &'static str)
        ensures
            r@ == tool_title(self),
    {
        match self {
            Tool::System => "Detected hardware",
            Tool::Runtimes => "Local runtimes",
            Tool::Fit => "Rank models for this machine",
            Tool::Model => "Analyse one model",
            Tool::Search => "Search the catalog",
            Tool::Plan => "Plan hardware for a model",
            Tool::Verify => "Check a model file on disk",
        }
    }

    pub fn description(self) -> (r: &'static str)
        ensures
            r@ == tool_description(self),
    {
        match self {
            Tool::System => "GPUs, VRAM, system RAM, CPU cores and the inference backend detected on this machine, with the memory bandwidth every throughput estimate is derived from.",
            Tool::Runtimes => "Inference runtimes currently running locally (Ollama, llama.cpp, LM Studio, vLLM and others) and the models each one already has installed.",
            Tool::Fit => "Rank the catalog by how well each model fits this machine. Returns the chosen quantization, placement, download size, context, estimated tokens/sec and an overall score. Answers \"what can I run\".",
            Tool::Model => "Everything known about one model plus its full analysis on this machine. Answers \"can I run this specific model, and how fast\".",
            Tool::Search => "Find models in the catalog by name, provider, parameter size or use case. Catalog lookup only — no hardware analysis.",
            Tool::Plan => "What hardware a model needs, independent of this machine: VRAM for weights and KV cache at a given context and quantization, and — with target_tokens_per_sec — the memory bandwidth required and which GPUs clear it. Answers \"what would I have to buy\".",
            Tool::Verify => "Read a .gguf or .safetensors file's header and report whether it is                  structurally intact — the check for a download that stopped short.                  Reports the architecture, parameter count and quantization mix it                  actually contains. Reads the header only, not the weights.",
        }
    }

    /// The `properties` of the argument schema, as JSON text.
    pub fn properties(self) -> (r: Option<&'static str>)
        ensures
            match r {
                Some(p) => tool_properties(self) == Some(p@),
                None => tool_properties(self) is None,
            },
    {
        match self {
            Tool::System => None,
            Tool::Runtimes => None,
            Tool::Fit => Some("{\"include_unrunnable\":{\"description\":\"Include models this machine cannot load (default false).\",\"type\":\"boolean\"},\"limit\":{\"description\":\"Maximum models to return (default 10).\",\"minimum\":1,\"type\":\"integer\"},\"max_size_gb\":{\"description\":\"Only models whose download is at most this size.\",\"type\":\"number\"},\"min_fit\":{\"description\":\"Minimum fit level.\",\"enum\":[\"perfect\",\"good\",\"marginal\",\"too_tight\"],\"type\":\"string\"},\"min_tokens_per_sec\":{\"description\":\"Only models estimated to reach at least this speed.\",\"type\":\"number\"},\"provider\":{\"description\":\"Only models from this provider (substring match).\",\"type\":\"string\"},\"use_case\":{\"description\":\"Weight the scores for this use case. Defaults to the configured one.\",\"enum\":[\"general\",\"coding\",\"reasoning\",\"chat\",\"multimodal\",\"embedding\"],\"type\":\"string\"}}"),
            Tool::Model => Some("{\"name\":{\"description\":\"Model name or id, e.g. \\\"Llama-3.1-8B\\\" or \\\"qwen2.5 7b\\\".\",\"type\":\"string\"},\"use_case\":{\"description\":\"Weight the scores for this use case.\",\"enum\":[\"general\",\"coding\",\"reasoning\",\"chat\",\"multimodal\",\"embedding\"],\"type\":\"string\"}}"),
            Tool::Search => Some("{\"limit\":{\"description\":\"Maximum models to return (default 20).\",\"minimum\":1,\"type\":\"integer\"},\"query\":{\"description\":\"Free text matched against name, provider, size and use case.\",\"type\":\"string\"}}"),
            Tool::Plan => Some("{\"context\":{\"description\":\"Context length in tokens. Defaults to the model's maximum.\",\"minimum\":1,\"type\":\"integer\"},\"model\":{\"description\":\"Model name or id.\",\"type\":\"string\"},\"quant\":{\"description\":\"Quantization to plan for (default q4_k_m).\",\"type\":\"string\"},\"target_tokens_per_sec\":{\"description\":\"Also report the bandwidth and the GPUs needed to reach this speed.\",\"type\":\"number\"}}"),
            Tool::Verify => Some("{\"path\":{\"description\":\"Path to a .gguf or .safetensors file on this machine.\",\"type\":\"string\"}}"),
        }
    }

    /// The argument the tool requires, if any.
    pub fn required_argument(self) -> (r: Option<&'static str>)
        ensures
            match r {
                Some(p) => tool_required(self) == Some(p@),
                None => tool_required(self) is None,
            },
    {
        match self {
            Tool::System => None,
            Tool::Runtimes => None,
            Tool::Fit => None,
            Tool::Model => Some("name"),
            Tool::Search => Some("query"),
            Tool::Plan => Some("model"),
            Tool::Verify => Some("path"),
        }
    }

    /// The JSON schema of the tool's arguments.
    pub fn schema(self) -> (r: Json)
        ensures
            json_view(r) == schema_value(self),
    {
        let mut ms: Vec<(String, Json)> = Vec::new();
        ms.push(entry("additionalProperties", Json::Bool(false)));
        let ghost m1 = ms@;
        match self.properties() {
            Some(p) => {
                let props = match read_json(p) {
                    Ok(v) => v,
                    Err(_) => Json::Null,
                };
                ms.push(entry("properties", props));
            },
            None => {},
        }
        let ghost m2 = ms@;
        match self.required_argument() {
            Some(name) => {
                ms.push(entry("required", array1(text(name))));
            },
            None => {},
        }
        let ghost m3 = ms@;
        ms.push(entry("type", text("object")));
        proof {
            crate::json::lemma_member_views(ms@);
            assert(crate::json::member_views(ms@) =~= schema_members(self));
        }
        Json::Object(ms)
    }

    pub fn from_name(name: &str) -> (r: Option<Tool>)
        ensures
            r == tool_named(name@),
    {
        if str_eq(name, Tool::System.name()) {
            Some(Tool::System)
        }         else if str_eq(name, Tool::Runtimes.name()) {
            Some(Tool::Runtimes)
        }         else if str_eq(name, Tool::Fit.name()) {
            Some(Tool::Fit)
        }         else if str_eq(name, Tool::Model.name()) {
            Some(Tool::Model)
        }         else if str_eq(name, Tool::Search.name()) {
            Some(Tool::Search)
        }         else if str_eq(name, Tool::Plan.name()) {
            Some(Tool::Plan)
        }         else if str_eq(name, Tool::Verify.name()) {
            Some(Tool::Verify)
        } else {
            None
        }
    }
}

/// Every tool is found again by its own name.
pub proof fn lemma_tool_names_round_trip(t: Tool)
    ensures
        tool_named(tool_name(t)) == Some(t),
{
    reveal_strlit("system");
    reveal_strlit("runtimes");
    reveal_strlit("fit");
    reveal_strlit("model");
    reveal_strlit("search");
    reveal_strlit("plan");
    reveal_strlit("verify");
    assert("system"@ =~= seq!['s', 'y', 's', 't', 'e', 'm']);
    assert("runtimes"@ =~= seq!['r', 'u', 'n', 't', 'i', 'm', 'e', 's']);
    assert("fit"@ =~= seq!['f', 'i', 't']);
    assert("model"@ =~= seq!['m', 'o', 'd', 'e', 'l']);
    assert("search"@ =~= seq!['s', 'e', 'a', 'r', 'c', 'h']);
    assert("plan"@ =~= seq!['p', 'l', 'a', 'n']);
    assert("verify"@ =~= seq!['v', 'e', 'r', 'i', 'f', 'y']);
}


// ---------------------------------------------------------------------------
// Protocol
// ---------------------------------------------------------------------------

/// The modern revision this server speaks.
pub const MODERN_VERSION: &'static str = "2026-07-28";

/// JSON-RPC and MCP error codes.
pub const PARSE_ERROR: i64 = -32700;
pub const INVALID_REQUEST: i64 = -32600;
pub const METHOD_NOT_FOUND: i64 = -32601;
pub const INVALID_PARAMS: i64 = -32602;
pub const UNSUPPORTED_PROTOCOL_VERSION: i64 = -32022;

/// The legacy revisions accepted in an `initialize` handshake, newest first.
pub open spec fn legacy_versions() -> Seq<Seq<char>> {
    seq!["2025-11-25"@, "2025-06-18"@, "2025-03-26"@, "2024-11-05"@]
}

/// The version a legacy handshake settles on: the client's own when it is
/// one of ours, our newest otherwise.
pub open spec fn agreed_version(offered: Option<Seq<char>>) -> Seq<char> {
    match offered {
        Some(v) => if legacy_versions().contains(v) { v } else { legacy_versions()[0] },
        None => legacy_versions()[0],
    }
}

/// The legacy version to answer an `initialize` with.
pub fn negotiate(offered: Option<&str>) -> (r: &'static str)
    ensures
        r@ == agreed_version(match offered {
            Some(v) => Some(v@),
            None => None,
        }),
{
    let ghost vs = legacy_versions();
    match offered {
        None => "2025-11-25",
        Some(v) => {
            if str_eq(v, "2025-11-25") {
                assert(vs[0] == v@);
                "2025-11-25"
            } else if str_eq(v, "2025-06-18") {
                assert(vs[1] == v@);
                "2025-06-18"
            } else if str_eq(v, "2025-03-26") {
                assert(vs[2] == v@);
                "2025-03-26"
            } else if str_eq(v, "2024-11-05") {
                assert(vs[3] == v@);
                "2024-11-05"
            } else {
                assert(!vs.contains(v@)) by {
                    if vs.contains(v@) {
                        let i = choose|i: int| 0 <= i < vs.len() && vs[i] == v@;
                        assert(i == 0 || i == 1 || i == 2 || i == 3);
                    }
                }
                "2025-11-25"
            }
        },
    }
}

/// Which era the connected client opened with. It decides whether results
/// carry `resultType`, which the modern revision added.
#[derive(Debug, Clone, Copy, PartialEq, Eq, Structural)]
pub enum Era {
    Unknown,
    Modern,
    Legacy,
}

/// A JSON-RPC message, as far as answering it needs.
#[derive(Debug, Clone)]
pub struct Message {
    /// `method`, when it is a string.
    pub method: Option<String>,
    /// True when the message carries an `id`, of whatever value.
    pub has_id: bool,
    /// `params._meta["io.modelcontextprotocol/protocolVersion"]`, when a string.
    pub requested_version: Option<String>,
    /// `params.protocolVersion`, when a string.
    pub offered_version: Option<String>,
    /// `params.name`, when a string.
    pub tool: Option<String>,
}

/// How a message is answered.
#[derive(Debug, Clone)]
pub enum Reply {
    /// A notification: JSON-RPC forbids answering it.
    Silent,
    /// A JSON-RPC error with this code and message.
    Error(i64, String),
    /// The requested modern version is not ours; the reply lists ours and
    /// names the one requested.
    Unsupported(String),
    /// The modern announcement of versions and capabilities.
    Discover,
    /// The legacy handshake, settling on this version.
    Initialize(&'static str),
    Ping,
    /// The tool list.
    ToolsList,
    /// Run this tool; its failures travel in the result, not as errors.
    Call(Tool),
}

/// `Reply` as a value.
pub enum Answer {
    Silent,
    Error(i64, Seq<char>),
    Unsupported(Seq<char>),
    Discover,
    Initialize(Seq<char>),
    Ping,
    ToolsList,
    Call(Tool),
}

impl View for Reply {
    type V = Answer;

    open spec fn view(&self) -> Answer {
        match self {
            Reply::Silent => Answer::Silent,
            Reply::Error(code, m) => Answer::Error(*code, m@),
            Reply::Unsupported(v) => Answer::Unsupported(v@),
            Reply::Discover => Answer::Discover,
            Reply::Initialize(v) => Answer::Initialize(v@),
            Reply::Ping => Answer::Ping,
            Reply::ToolsList => Answer::ToolsList,
            Reply::Call(t) => Answer::Call(*t),
        }
    }
}

pub open spec fn text_of(o: Option<String>) -> Option<Seq<char>> {
    match o {
        Some(s) => Some(s@),
        None => None,
    }
}

/// A method, once the version check has passed.
pub open spec fn routed(era: Era, method: Seq<char>, m: Message) -> (Era, Answer) {
    if method == "server/discover"@ {
        (if era == Era::Unknown { Era::Modern } else { era }, Answer::Discover)
    } else if method == "initialize"@ {
        (Era::Legacy, Answer::Initialize(agreed_version(text_of(m.offered_version))))
    } else if method == "ping"@ {
        (era, Answer::Ping)
    } else if method == "tools/list"@ {
        (era, Answer::ToolsList)
    } else if method == "tools/call"@ {
        (
            era,
            match m.tool {
                None => Answer::Error(INVALID_PARAMS, "tools/call needs a tool name"@),
                Some(n) => match tool_named(n@) {
                    None => Answer::Error(INVALID_PARAMS, "unknown tool: "@ + n@),
                    Some(t) => Answer::Call(t),
                },
            },
        )
    } else {
        (era, Answer::Error(METHOD_NOT_FOUND, "unknown method '"@ + method + "'"@))
    }
}

/// How a message is answered, and the era after it. A request carrying
/// protocol metadata is a modern one, whatever it asks for, and that is
/// recorded before the version check, so that a refusal is still shaped for
/// the era that sent it.
pub open spec fn answer_step(era: Era, m: Message) -> (Era, Answer) {
    match m.method {
        None => (era, Answer::Error(INVALID_REQUEST, "request has no method"@)),
        Some(method) => if !m.has_id {
            (era, Answer::Silent)
        } else {
            match m.requested_version {
                Some(v) => if v@ != MODERN_VERSION@ {
                    (Era::Modern, Answer::Unsupported(v@))
                } else {
                    routed(Era::Modern, method@, m)
                },
                None => routed(era, method@, m),
            }
        },
    }
}

/// The protocol state of one connection.
#[derive(Debug)]
pub struct Protocol {
    pub era: Era,
}

impl Protocol {
    pub fn new() -> (p: Protocol)
        ensures
            p.era == Era::Unknown,
    {
        Protocol { era: Era::Unknown }
    }

    /// True when results are stamped with `resultType`, which only the
    /// modern revision defines.
    pub fn stamps_result_type(&self) -> (r: bool)
        ensures
            r == (self.era == Era::Modern),
    {
        self.era == Era::Modern
    }

    /// Decide how to answer one message.
    pub fn answer(&mut self, m: &Message) -> (r: Reply)
        ensures
            (final(self).era, r@) == answer_step(old(self).era, *m),
    {
        let method = match &m.method {
            None => {
                return Reply::Error(INVALID_REQUEST, crate::text::owned("request has no method"));
            },
            Some(method) => method.as_str(),
        };
        if !m.has_id {
            return Reply::Silent;
        }
        if let Some(v) = &m.requested_version {
            self.era = Era::Modern;
            if !str_eq(v.as_str(), MODERN_VERSION) {
                return Reply::Unsupported(crate::text::owned(v.as_str()));
            }
        }
        if str_eq(method, "server/discover") {
            if self.era == Era::Unknown {
                self.era = Era::Modern;
            }
            Reply::Discover
        } else if str_eq(method, "initialize") {
            self.era = Era::Legacy;
            let offered = match &m.offered_version {
                Some(v) => Some(v.as_str()),
                None => None,
            };
            Reply::Initialize(negotiate(offered))
        } else if str_eq(method, "ping") {
            Reply::Ping
        } else if str_eq(method, "tools/list") {
            Reply::ToolsList
        } else if str_eq(method, "tools/call") {
            match &m.tool {
                None => Reply::Error(INVALID_PARAMS, crate::text::owned("tools/call needs a tool name")),
                Some(n) => match Tool::from_name(n.as_str()) {
                    None => Reply::Error(INVALID_PARAMS, concat2("unknown tool: ", n.as_str())),
                    Some(t) => Reply::Call(t),
                },
            }
        } else {
            let mut message = concat2("unknown method '", method);
            message.append("'");
            Reply::Error(METHOD_NOT_FOUND, message)
        }
    }
}

// ---------------------------------------------------------------------------
// Tool arguments
// ---------------------------------------------------------------------------

/// A text argument, where a blank one counts as absent.
pub open spec fn text_argument(raw: Option<Seq<char>>) -> Option<Seq<char>> {
    match raw {
        Some(s) => if trim(s).len() > 0 { Some(s) } else { None },
        None => None,
    }
}

pub open spec fn view_str(raw: Option<&str>) -> Option<Seq<char>> {
    match raw {
        Some(s) => Some(s@),
        None => None,
    }
}

/// A text argument as given, or `None` when it is missing or blank.
pub fn argument<'a>(raw: Option<&'a str>) -> (r: Option<&'a str>)
    ensures
        view_str(r) == text_argument(view_str(raw)),
{
    match raw {
        None => None,
        Some(s) => {
            let v = chars_of(s);
            if trim_vec(v.as_slice()).len() > 0 {
                Some(s)
            } else {
                None
            }
        },
    }
}

/// A text argument the tool cannot run without.
pub fn required<'a>(key: &str, raw: Option<&'a str>) -> (r: Result<&'a str, String>)
    ensures
        match text_argument(view_str(raw)) {
            Some(v) => r matches Ok(s) && s@ == v,
            None => r matches Err(e) && e@ == "the '"@ + key@ + "' argument is required"@,
        },
{
    match argument(raw) {
        Some(s) => Ok(s),
        None => {
            let mut e = concat2("the '", key);
            e.append("' argument is required");
            Err(e)
        },
    }
}

/// The `use_case` argument, already read as text; the default when absent.
pub fn use_case_argument(raw: Option<&str>, fallback: UseCase) -> (r: Result<UseCase, String>)
    ensures
        match raw {
            None => r == Ok::<UseCase, String>(fallback),
            Some(s) => match parse_use_case(s@) {
                Some(u) => r == Ok::<UseCase, String>(u),
                None => r matches Err(e) && e@ == "unknown use case '"@ + s@ + "'. Try one of: "@ + use_case_hint(),
            },
        },
{
    match raw {
        None => Ok(fallback),
        Some(s) => match UseCase::parse(s) {
            Some(u) => Ok(u),
            None => {
                let mut e = concat2("unknown use case '", s);
                e.append("'. Try one of: ");
                e.append(UseCase::hint());
                Err(e)
            },
        },
    }
}

/// The `quant` argument of a plan; Q4_K_M when absent.
pub fn quant_argument(raw: Option<&str>) -> (r: Result<Quant, String>)
    ensures
        match raw {
            None => r == Ok::<Quant, String>(Quant::Q4KM),
            Some(s) => match parse_quant(s@) {
                Some(q) => r == Ok::<Quant, String>(q),
                None => r matches Err(e) && e@ == "unknown quantization '"@ + s@ + "'. Try one of: "@ + quant_hint(),
            },
        },
{
    match raw {
        None => Ok(Quant::Q4KM),
        Some(s) => match Quant::parse(s) {
            Some(q) => Ok(q),
            None => {
                let mut e = concat2("unknown quantization '", s);
                e.append("'. Try one of: ");
                let h = Quant::hint();
                e.append(h.as_str());
                Err(e)
            },
        },
    }
}

/// The `min_fit` argument of a ranking.
pub fn fit_argument(raw: Option<&str>) -> (r: Result<Option<FitLevel>, String>)
    ensures
        match raw {
            None => r == Ok::<Option<FitLevel>, String>(None),
            Some(s) => match parse_fit(s@) {
                Some(f) => r == Ok::<Option<FitLevel>, String>(Some(f)),
                None => r matches Err(e) && e@ == "unknown fit level '"@ + s@ + "'. Try one of: "@ + fit_hint(),
            },
        },
{
    match raw {
        None => Ok(None),
        Some(s) => match FitLevel::parse(s) {
            Some(f) => Ok(Some(f)),
            None => {
                let mut e = concat2("unknown fit level '", s);
                e.append("'. Try one of: ");
                e.append(FitLevel::hint());
                Err(e)
            },
        },
    }
}

/// The `context` argument of a plan, already read as a whole number; the
/// model's own context length when absent.
pub fn context_argument(n: Option<usize>, model_context: u32) -> (r: Result<u32, String>)
    ensures
        match n {
            None => r == Ok::<u32, String>(model_context),
            Some(k) => if k <= u32::MAX {
                r == Ok::<u32, String>(k as u32)
            } else {
                r matches Err(e) && e@ == "context "@ + crate::text::dec(k as nat) + " is out of range"@
            },
        },
{
    match n {
        None => Ok(model_context),
        Some(k) => if k <= u32::MAX as usize {
            Ok(k as u32)
        } else {
            let d = crate::text::dec_string(k as u64);
            let mut e = concat2("context ", d.as_str());
            e.append(" is out of range");
            Err(e)
        },
    }
}

// ---------------------------------------------------------------------------
// Laws
// ---------------------------------------------------------------------------

/// A notification (a message with a method and no id) is never answered,
/// and changes nothing.
pub proof fn lemma_notifications_are_never_answered(era: Era, m: Message)
    requires
        m.method is Some,
        !m.has_id,
    ensures
        answer_step(era, m) == (era, Answer::Silent),
{
}

/// Every tool the server lists is one `tools/call` runs, under its own name.
pub proof fn lemma_every_listed_tool_dispatches(era: Era, m: Message, t: Tool)
    requires
        text_of(m.method) == Some("tools/call"@),
        m.has_id,
        m.requested_version is None || m.requested_version.unwrap()@ == MODERN_VERSION@,
        m.tool is Some && m.tool.unwrap()@ == tool_name(t),
    ensures
        answer_step(era, m).1 == Answer::Call(t),
{
    lemma_tool_names_round_trip(t);
    reveal_strlit("tools/call");
    reveal_strlit("server/discover");
    reveal_strlit("initialize");
    reveal_strlit("ping");
    reveal_strlit("tools/list");
    assert("tools/call"@ != "server/discover"@) by {
        assert("tools/call"@.len() != "server/discover"@.len());
    }
    assert("tools/call"@ != "initialize"@) by {
        assert("tools/call"@[0] != "initialize"@[0]);
    }
    assert("tools/call"@ != "ping"@) by {
        assert("tools/call"@.len() != "ping"@.len());
    }
    assert("tools/call"@ != "tools/list"@) by {
        assert("tools/call"@[6] != "tools/list"@[6]);
    }
}

/// A legacy handshake always settles on a version this server speaks, and
/// on the client's own when it names one of them.
pub proof fn lemma_handshake_settles_on_a_known_version(offered: Option<Seq<char>>)
    ensures
        legacy_versions().contains(agreed_version(offered)),
        offered is Some && legacy_versions().contains(offered.unwrap()) ==> agreed_version(offered) == offered.unwrap(),
{
    assert(legacy_versions()[0] == "2025-11-25"@);
}

/// A request declaring a modern version other than ours is refused, with
/// the version it asked for, whatever the method; and the connection is
/// modern from then on.
pub proof fn lemma_foreign_versions_are_refused(era: Era, m: Message)
    requires
        m.method is Some,
        m.has_id,
        m.requested_version is Some,
        m.requested_version.unwrap()@ != MODERN_VERSION@,
    ensures
        answer_step(era, m) == (Era::Modern, Answer::Unsupported(m.requested_version.unwrap()@)),
{
}

/// The era is decided by how the client opens: only protocol metadata
/// makes a connection modern after it opened as legacy, and only an
/// `initialize` makes it legacy.
pub proof fn lemma_era_follows_the_opening(era: Era, m: Message)
    ensures
        era == Era::Legacy && m.requested_version is None ==> answer_step(era, m).0 == Era::Legacy,
        answer_step(era, m).0 == Era::Legacy ==> era == Era::Legacy || text_of(m.method) == Some("initialize"@),
{
}
/// Every tool is listed with an object schema that refuses arguments it
/// does not know.
pub proof fn lemma_every_schema_is_an_object_schema(t: Tool)
    ensures
        member(tool_value(t), "inputSchema"@) == Some(schema_value(t)),
        member(schema_value(t), "type"@) == Some(JsonView::Text("object"@)),
        member(schema_value(t), "additionalProperties"@) == Some(JsonView::Bool(false)),
{
    reveal_strlit("inputSchema");
    reveal_strlit("description");
    reveal_strlit("type");
    reveal_strlit("additionalProperties");
    reveal_strlit("properties");
    reveal_strlit("required");
    let tv = tool_value(t)->Object_0;
    assert(tv[0].0 != "inputSchema"@) by {
        assert(tv[0].0[0] != "inputSchema"@[0]);
    }
    crate::json::lemma_member_in(tv, "inputSchema"@, 1);
    let ms = schema_members(t);
    let last = ms.len() - 1;
    assert forall|j: int| 0 <= j < last implies ms[j].0 != "type"@ by {
        assert(ms[j].0.len() != "type"@.len());
    }
    crate::json::lemma_member_in(ms, "type"@, last);
    crate::json::lemma_member_in(ms, "additionalProperties"@, 0);
}
/// The refusal a client gets for a modern version other than ours, on the
/// wire: error -32022, the version it asked for and the one we support,
/// under the request's own id; the method is not run.
pub proof fn lemma_foreign_versions_are_refused_on_the_wire(era: Era, m: Message, v: JsonView, after: Era, o: Outcome)
    requires
        message_view(m) == message_spec(v),
        answered(era, m, v, after, o),
        message_spec(v).0 is Some,
        message_spec(v).1,
        message_spec(v).2 is Some,
        message_spec(v).2.unwrap() != MODERN_VERSION@,
    ensures
        after == Era::Modern,
        o matches Outcome::Send(s) && s@ == json_text(error_value(
            id_spec(v),
            JsonView::Object(seq![
                ("code"@, JsonView::Number("-32022"@)),
                ("data"@, JsonView::Object(seq![
                    ("requested"@, JsonView::Text(message_spec(v).2.unwrap())),
                    ("supported"@, JsonView::Array(seq![JsonView::Text("2026-07-28"@)])),
                ])),
                ("message"@, JsonView::Text("Unsupported protocol version"@)),
            ]),
        )),
{
    lemma_foreign_versions_are_refused(era, m);
    reveal_strlit("-");
    reveal_strlit("-32022");
    assert(dec(3nat) =~= seq!['3']);
    assert(dec(32nat) =~= seq!['3', '2']);
    assert(dec(320nat) =~= seq!['3', '2', '0']);
    assert(dec(3202nat) =~= seq!['3', '2', '0', '2']);
    assert(dec(32022nat) =~= seq!['3', '2', '0', '2', '2']);
    assert(int_text(-32022int) =~= "-32022"@);
}

// ---------------------------------------------------------------------------
// JSON-RPC on the wire
// ---------------------------------------------------------------------------

pub const SERVER_NAME: &'static str = "llmspec";

/// The version this server reports.
pub const SERVER_VERSION: &'static str = "0.1.0";

/// Shown to the model, so that it picks the right tool and reports
/// estimates as estimates.
pub const INSTRUCTIONS: &'static str = "llmspec ranks local LLMs against the hardware it is running on.\n\nUse `system` for what this machine has, `fit` for what it can run, `model` for\none model's full analysis, `search` to look a model up by name, `runtimes` for\nwhat is installed and running locally, and `plan` for the hardware a model\nwould need — including which GPUs reach a target tokens/sec.\n\nThroughput figures are estimates from memory bandwidth, not measurements. Say\nso when reporting them.";

/// `Message` as a value.
pub open spec fn message_view(m: Message) -> (Option<Seq<char>>, bool, Option<Seq<char>>, Option<Seq<char>>, Option<Seq<char>>) {
    (text_of(m.method), m.has_id, text_of(m.requested_version), text_of(m.offered_version), text_of(m.tool))
}

/// A request's `params`, `null` when it has none.
pub open spec fn params_of(v: JsonView) -> JsonView {
    match member(v, "params"@) {
        Some(p) => p,
        None => JsonView::Null,
    }
}

/// What answering a request reads of it: its method, whether it has an id,
/// the modern protocol version it declares, the legacy version it offers,
/// and the tool it names, each only when it is a string.
pub open spec fn message_spec(v: JsonView) -> (Option<Seq<char>>, bool, Option<Seq<char>>, Option<Seq<char>>, Option<Seq<char>>) {
    let p = params_of(v);
    (
        text_member(v, "method"@),
        member(v, "id"@) is Some,
        match member(p, "_meta"@) {
            Some(meta) => text_member(meta, "io.modelcontextprotocol/protocolVersion"@),
            None => None,
        },
        text_member(p, "protocolVersion"@),
        text_member(p, "name"@),
    )
}

/// The id a reply echoes: the request's own, `null` when it has none.
pub open spec fn id_spec(v: JsonView) -> JsonView {
    match member(v, "id"@) {
        Some(id) => id,
        None => JsonView::Null,
    }
}

/// The arguments a tool call passes; an empty object when there are none.
pub open spec fn arguments_spec(v: JsonView) -> JsonView {
    match member(params_of(v), "arguments"@) {
        Some(a) => a,
        None => JsonView::Object(seq![]),
    }
}

fn owned_text(s: Option<&String>) -> (r: Option<String>)
    ensures
        text_of(r) == match s {
            Some(x) => Some(x@),
            None => None,
        },
{
    match s {
        Some(x) => Some(x.clone()),
        None => None,
    }
}

/// The request a line of JSON is, or the parse error it is answered with.
pub fn message_of(j: &Result<Json, String>) -> (r: Result<Message, Reply>)
    ensures
        match json_result(*j) {
            Err(e) => r matches Err(rep) && rep@ == Answer::Error(PARSE_ERROR, "invalid JSON: "@ + e),
            Ok(v) => r matches Ok(m) && message_view(m) == message_spec(v),
        },
{
    match j {
        Err(e) => Err(Reply::Error(PARSE_ERROR, concat2("invalid JSON: ", e.as_str()))),
        Ok(v) => {
            let null = Json::Null;
            let p = match get(v, "params") {
                Some(p) => p,
                None => &null,
            };
            let requested = match get(p, "_meta") {
                Some(meta) => owned_text(get_text(meta, "io.modelcontextprotocol/protocolVersion")),
                None => None,
            };
            Ok(Message {
                method: owned_text(get_text(v, "method")),
                has_id: get(v, "id").is_some(),
                requested_version: requested,
                offered_version: owned_text(get_text(p, "protocolVersion")),
                tool: owned_text(get_text(p, "name")),
            })
        },
    }
}

/// An integer as JSON writes it.
pub open spec fn int_text(i: int) -> Seq<char> {
    if i < 0 {
        "-"@ + dec((-i) as nat)
    } else {
        dec(i as nat)
    }
}

fn int_json(i: i64) -> (r: Json)
    ensures
        json_view(r) == JsonView::Number(int_text(i as int)),
{
    if i < 0 {
        let m: u64 = (0i128 - (i as i128)) as u64;
        let mut t = crate::text::owned("-");
        t.append(dec_string(m).as_str());
        Json::Number(t)
    } else {
        Json::Number(dec_string(i as u64))
    }
}

pub open spec fn jtext(s: Seq<char>) -> JsonView {
    JsonView::Text(s)
}

/// A successful reply.
pub open spec fn success_value(id: JsonView, result: JsonView) -> JsonView {
    JsonView::Object(seq![("id"@, id), ("jsonrpc"@, jtext("2.0"@)), ("result"@, result)])
}

/// An error reply.
pub open spec fn error_value(id: JsonView, error: JsonView) -> JsonView {
    JsonView::Object(seq![("error"@, error), ("id"@, id), ("jsonrpc"@, jtext("2.0"@))])
}

/// A result's members, with `resultType` between them where the era
/// defines it.
pub open spec fn stamped(era: Era, before: Seq<(Seq<char>, JsonView)>, after: Seq<(Seq<char>, JsonView)>) -> JsonView {
    JsonView::Object(
        before + (if era == Era::Modern { seq![("resultType"@, jtext("complete"@))] } else { seq![] }) + after,
    )
}

pub open spec fn server_info() -> JsonView {
    JsonView::Object(seq![("name"@, jtext(SERVER_NAME@)), ("version"@, jtext(SERVER_VERSION@))])
}

/// A tool as `tools/list` describes it.
pub open spec fn tool_value(t: Tool) -> JsonView {
    JsonView::Object(
        seq![
            ("description"@, jtext(tool_description(t))),
            ("inputSchema"@, schema_value(t)),
            ("name"@, jtext(tool_name(t))),
            ("title"@, jtext(tool_title(t))),
        ],
    )
}

pub open spec fn all_tools() -> Seq<Tool> {
    seq![Tool::System, Tool::Runtimes, Tool::Fit, Tool::Model, Tool::Search, Tool::Plan, Tool::Verify]
}

/// The JSON a reply is sent as; `era` is the era after answering. Silent
/// replies and tool calls are not sent from here.
pub open spec fn reply_value(id: JsonView, era: Era, a: Answer) -> JsonView {
    match a {
        Answer::Error(code, m) => error_value(
            id,
            JsonView::Object(seq![("code"@, JsonView::Number(int_text(code as int))), ("message"@, jtext(m))]),
        ),
        Answer::Unsupported(v) => error_value(
            id,
            JsonView::Object(
                seq![
                    ("code"@, JsonView::Number(int_text(UNSUPPORTED_PROTOCOL_VERSION as int))),
                    ("data"@, JsonView::Object(
                        seq![("requested"@, jtext(v)), ("supported"@, JsonView::Array(seq![jtext(MODERN_VERSION@)]))],
                    )),
                    ("message"@, jtext("Unsupported protocol version"@)),
                ],
            ),
        ),
        Answer::Discover => success_value(
            id,
            stamped(
                era,
                seq![
                    ("_meta"@, JsonView::Object(seq![("io.modelcontextprotocol/serverInfo"@, server_info())])),
                    ("capabilities"@, JsonView::Object(seq![("tools"@, JsonView::Object(seq![]))])),
                    ("instructions"@, jtext(INSTRUCTIONS@)),
                ],
                seq![("supportedVersions"@, JsonView::Array(seq![jtext(MODERN_VERSION@)]))],
            ),
        ),
        Answer::Initialize(v) => success_value(
            id,
            JsonView::Object(
                seq![
                    ("capabilities"@, JsonView::Object(
                        seq![("tools"@, JsonView::Object(seq![("listChanged"@, JsonView::Bool(false))]))],
                    )),
                    ("instructions"@, jtext(INSTRUCTIONS@)),
                    ("protocolVersion"@, jtext(v)),
                    ("serverInfo"@, JsonView::Object(
                        seq![("name"@, jtext(SERVER_NAME@)), ("title"@, jtext("llmspec"@)), ("version"@, jtext(SERVER_VERSION@))],
                    )),
                ],
            ),
        ),
        Answer::Ping => success_value(id, stamped(era, seq![], seq![])),
        Answer::ToolsList => success_value(
            id,
            stamped(era, seq![], seq![("tools"@, JsonView::Array(all_tools().map_values(|t: Tool| tool_value(t))))]),
        ),
        _ => JsonView::Null,
    }
}

/// A tool's outcome as the result of its call: the answer as text and as
/// structure, or the error the model can correct on a retry.
pub open spec fn tool_result_value(era: Era, outcome: Result<JsonView, Seq<char>>) -> JsonView {
    match outcome {
        Ok(structured) => stamped(
            era,
            seq![
                ("content"@, JsonView::Array(
                    seq![JsonView::Object(seq![("text"@, jtext(json_pretty(structured))), ("type"@, jtext("text"@))])],
                )),
                ("isError"@, JsonView::Bool(false)),
            ],
            seq![("structuredContent"@, structured)],
        ),
        Err(m) => stamped(
            era,
            seq![
                ("content"@, JsonView::Array(
                    seq![JsonView::Object(seq![("text"@, jtext(m)), ("type"@, jtext("text"@))])],
                )),
                ("isError"@, JsonView::Bool(true)),
            ],
            seq![],
        ),
    }
}

fn success_json(id: &Json, result: Json) -> (r: Json)
    ensures
        json_view(r) == success_value(json_view(*id), json_view(result)),
{
    object3("id", copy(id), "jsonrpc", text("2.0"), "result", result)
}

fn error_json(id: &Json, error: Json) -> (r: Json)
    ensures
        json_view(r) == error_value(json_view(*id), json_view(error)),
{
    object3("error", error, "id", copy(id), "jsonrpc", text("2.0"))
}

fn stamped_json(era: Era, before: Vec<(String, Json)>, after: Vec<(String, Json)>) -> (r: Json)
    ensures
        json_view(r) == stamped(era, crate::json::member_views(before@), crate::json::member_views(after@)),
{
    let ghost b = crate::json::member_views(before@);
    let ghost a = crate::json::member_views(after@);
    proof {
        crate::json::lemma_member_views(before@);
        crate::json::lemma_member_views(after@);
    }
    let mut all = before;
    let ghost n0 = all@.len();
    if era == Era::Modern {
        all.push((crate::text::owned("resultType"), text("complete")));
    }
    let ghost n1 = all@.len();
    let mut rest = after;
    let ghost all0 = all@;
    let ghost after0 = rest@;
    all.append(&mut rest);
    proof {
        crate::json::lemma_member_views(all@);
        let want = b + (if era == Era::Modern { seq![("resultType"@, jtext("complete"@))] } else { seq![] }) + a;
        assert(crate::json::member_views(all@) =~= want);
    }
    Json::Object(all)
}

fn entry(k: &str, v: Json) -> (e: (String, Json))
    ensures
        e.0@ == k@,
        e.1 == v,
{
    (crate::text::owned(k), v)
}

fn tool_json(t: Tool) -> (r: Json)
    ensures
        json_view(r) == tool_value(t),
{
    let schema = t.schema();
    let d = text(t.description());
    let n = text(t.name());
    let ti = text(t.title());
    let r = object4("description", d, "inputSchema", schema, "name", n, "title", ti);
    assert(json_view(r)->Object_0 =~= tool_value(t)->Object_0);
    r
}

/// The JSON a reply is sent as.
pub fn reply_json(id: &Json, era: Era, r: &Reply) -> (j: Json)
    ensures
        json_view(j) == reply_value(json_view(*id), era, r@),
{
    match r {
        Reply::Error(code, m) => error_json(id, object2("code", int_json(*code), "message", text(m.as_str()))),
        Reply::Unsupported(v) => {
            let data = object2("requested", text(v.as_str()), "supported", array1(text(MODERN_VERSION)));
            error_json(
                id,
                object3("code", int_json(UNSUPPORTED_PROTOCOL_VERSION), "data", data, "message", text("Unsupported protocol version")),
            )
        },
        Reply::Discover => {
            let info = object2("name", text(SERVER_NAME), "version", text(SERVER_VERSION));
            let before = vec![
                entry("_meta", object1("io.modelcontextprotocol/serverInfo", info)),
                entry("capabilities", object1("tools", object0())),
                entry("instructions", text(INSTRUCTIONS)),
            ];
            let after = vec![entry("supportedVersions", array1(text(MODERN_VERSION)))];
            let ghost bv = before@;
            let ghost av = after@;
            proof {
                crate::json::lemma_member_views(bv);
                crate::json::lemma_member_views(av);
                assert(crate::json::member_views(bv) =~= seq![
                    ("_meta"@, JsonView::Object(seq![("io.modelcontextprotocol/serverInfo"@, server_info())])),
                    ("capabilities"@, JsonView::Object(seq![("tools"@, JsonView::Object(seq![]))])),
                    ("instructions"@, jtext(INSTRUCTIONS@)),
                ]);
                assert(crate::json::member_views(av) =~= seq![("supportedVersions"@, JsonView::Array(seq![jtext(MODERN_VERSION@)]))]);
            }
            success_json(id, stamped_json(era, before, after))
        },
        Reply::Initialize(v) => {
            let caps = object1("tools", object1("listChanged", Json::Bool(false)));
            let info = object3("name", text(SERVER_NAME), "title", text("llmspec"), "version", text(SERVER_VERSION));
            success_json(
                id,
                object4("capabilities", caps, "instructions", text(INSTRUCTIONS), "protocolVersion", text(v), "serverInfo", info),
            )
        },
        Reply::Ping => {
            let before: Vec<(String, Json)> = Vec::new();
            let after: Vec<(String, Json)> = Vec::new();
            proof {
                assert(crate::json::member_views(before@) =~= seq![]);
            }
            success_json(id, stamped_json(era, before, after))
        },
        Reply::ToolsList => {
            let mut defs: Vec<Json> = Vec::new();
            let mut i: usize = 0;
            while i < 7
                invariant
                    i <= 7,
                    defs@.len() == i,
                    forall|k: int| 0 <= k < i ==> json_view(#[trigger] defs@[k]) == tool_value(all_tools()[k]),
                decreases 7 - i,
            {
                let t = Tool::ALL[i];
                assert(t == all_tools()[i as int]);
                defs.push(tool_json(t));
                i = i + 1;
            }
            let ghost dv = defs@;
            proof {
                lemma_views(dv);
                assert(views(dv) =~= all_tools().map_values(|t: Tool| tool_value(t)));
            }
            let before: Vec<(String, Json)> = Vec::new();
            let after = vec![entry("tools", Json::Array(defs))];
            proof {
                assert(crate::json::member_views(before@) =~= seq![]);
                crate::json::lemma_member_views(after@);
                assert(crate::json::member_views(after@) =~= seq![("tools"@, JsonView::Array(all_tools().map_values(|t: Tool| tool_value(t))))]);
            }
            success_json(id, stamped_json(era, before, after))
        },
        _ => Json::Null,
    }
}

/// What a line on stdin comes to.
pub enum Outcome {
    /// A notification: nothing is sent.
    Silent,
    /// Send this line.
    Send(String),
    /// Run a tool, then answer with `tool_reply`.
    Call(Json, Tool, Json),
}

/// How a request is answered once its message has been read.
pub open spec fn answered(era0: Era, m: Message, v: JsonView, era1: Era, o: Outcome) -> bool {
    let (e, a) = answer_step(era0, m);
    &&& era1 == e
    &&& match a {
        Answer::Silent => o is Silent,
        Answer::Call(t) => (o matches Outcome::Call(id, tool, args) && tool == t && json_view(id) == id_spec(v)
            && json_view(args) == arguments_spec(v)),
        _ => (o matches Outcome::Send(s) && s@ == json_text(reply_value(id_spec(v), e, a))),
    }
}

impl Protocol {
    /// Answer one line of JSON-RPC.
    pub fn respond(&mut self, line: &str) -> (o: Outcome)
        ensures
            match json_of(vstd::utf8::encode_utf8(line@)) {
                Err(e) => final(self).era == old(self).era && (o matches Outcome::Send(s) && s@ == json_text(
                    reply_value(JsonView::Null, old(self).era, Answer::Error(PARSE_ERROR, "invalid JSON: "@ + e)),
                )),
                Ok(v) => exists|m: Message|
                    #![trigger message_view(m)]
                    message_view(m) == message_spec(v) && answered(old(self).era, m, v, final(self).era, o),
            },
    {
        let parsed = read_json(line);
        match message_of(&parsed) {
            Err(reply) => {
                let j = reply_json(&Json::Null, self.era, &reply);
                Outcome::Send(to_text(&j))
            },
            Ok(m) => {
                // `message_of` reads a message only out of a value.
                let v = match &parsed {
                    Ok(v) => v,
                    Err(_) => {
                        return Outcome::Silent;
                    },
                };
                let id = match get(v, "id") {
                    Some(x) => copy(x),
                    None => Json::Null,
                };
                let reply = self.answer(&m);
                proof {
                    assert(message_view(m) == message_spec(json_view(*v)));
                }
                match reply {
                    Reply::Silent => Outcome::Silent,
                    Reply::Call(t) => {
                        let null = Json::Null;
                        let p = match get(v, "params") {
                            Some(p) => p,
                            None => &null,
                        };
                        let args = match get(p, "arguments") {
                            Some(a) => copy(a),
                            None => object0(),
                        };
                        Outcome::Call(id, t, args)
                    },
                    _ => {
                        let j = reply_json(&id, self.era, &reply);
                        Outcome::Send(to_text(&j))
                    },
                }
            },
        }
    }

    /// The reply to a tool call, from what the tool came to: the structured
    /// answer, or the error it reports.
    pub fn tool_reply(&self, id: &Json, outcome: &Result<Json, String>) -> (s: String)
        ensures
            s@ == json_text(success_value(json_view(*id), tool_result_value(self.era, json_result(*outcome)))),
    {
        let result = match outcome {
            Ok(structured) => {
                let pretty = to_pretty_text(structured);
                let content = array1(object2("text", Json::Text(pretty), "type", text("text")));
                let ghost cv = json_view(content);
                let before = vec![entry("content", content), entry("isError", Json::Bool(false))];
                let after = vec![entry("structuredContent", copy(structured))];
                proof {
                    crate::json::lemma_member_views(before@);
                    crate::json::lemma_member_views(after@);
                    assert(crate::json::member_views(before@) =~= seq![("content"@, cv), ("isError"@, JsonView::Bool(false))]);
                    assert(crate::json::member_views(after@) =~= seq![("structuredContent"@, json_view(*structured))]);
                }
                stamped_json(self.era, before, after)
            },
            Err(m) => {
                let content = array1(object2("text", text(m.as_str()), "type", text("text")));
                let ghost cv = json_view(content);
                let before = vec![entry("content", content), entry("isError", Json::Bool(true))];
                let after: Vec<(String, Json)> = Vec::new();
                proof {
                    crate::json::lemma_member_views(before@);
                    assert(crate::json::member_views(before@) =~= seq![("content"@, cv), ("isError"@, JsonView::Bool(true))]);
                    assert(crate::json::member_views(after@) =~= seq![]);
                }
                stamped_json(self.era, before, after)
            },
        };
        let j = success_json(id, result);
        to_text(&j)
    }
}

} // verus!
