//! The model that answers: how it is reached, how a local one is started, and what it is sent.
use crate::backend::protocol::{message_views, ChatMessage, ChatMessageView};
use crate::backend::ratelimit::RateLimiter;
use crate::backend::stream::Dialect;
use crate::backend::wire::{
    all_sendable, anthropic_messages, merge_instructions, openai_messages,
    serialize_messages_anthropic, serialize_messages_openai, system_text, wire_views, WireMessage,
    WireMessageView,
};
use crate::config::{Config, ConfigView};
use crate::json::{get_member, get_number, member, number_member};
use crate::outside::{from_utf8_lossy, lossy_text};
use crate::text::{
    decimal, decimal_of, number, option_view, parse_number, same, trim, trimmed, views,
};
use crate::tui::mode::AppMode;
use vstd::prelude::*;
use vstd::string::*;

verus! {

/// A model that can be asked.
#[derive(Debug)]
pub struct Backend {
    pub base_url: String,
    pub api_provider: String,
    pub api_key: Option<String>,
    pub api_model: Option<String>,
    pub actual_ctx_size: usize,
    pub max_rpm: u32,
}

/// The contents of a `Backend`.
#[verifier::ext_equal]
pub struct BackendView {
    pub base_url: Seq<char>,
    pub api_provider: Seq<char>,
    pub api_key: Option<Seq<char>>,
    pub api_model: Option<Seq<char>>,
    pub actual_ctx_size: usize,
    pub max_rpm: u32,
}

impl View for Backend {
    type V = BackendView;

    open spec fn view(&self) -> BackendView {
        BackendView {
            base_url: self.base_url@,
            api_provider: self.api_provider@,
            api_key: option_view(self.api_key),
            api_model: option_view(self.api_model),
            actual_ctx_size: self.actual_ctx_size,
            max_rpm: self.max_rpm,
        }
    }
}

// ---------------------------------------------------------------------------------------------
// The start
// ---------------------------------------------------------------------------------------------

/// What is next on the way to a model.
#[derive(Debug)]
pub enum Start {
    /// The model can be asked.
    Ready(Backend),
    /// There is none.
    Refused(String),
    /// Find out whether a local server answers at this address.
    CheckHealth(String),
    /// Ask the local server for its properties at this address.
    FetchProps(String),
    /// Start a local server.
    Launch { program: String, args: Vec<String> },
}

/// The contents of a `Start`.
#[verifier::ext_equal]
pub enum StartView {
    Ready(BackendView),
    Refused(Seq<char>),
    CheckHealth(Seq<char>),
    FetchProps(Seq<char>),
    Launch { program: Seq<char>, args: Seq<Seq<char>> },
}

impl View for Start {
    type V = StartView;

    open spec fn view(&self) -> StartView {
        match *self {
            Start::Ready(b) => StartView::Ready(b@),
            Start::Refused(e) => StartView::Refused(e@),
            Start::CheckHealth(u) => StartView::CheckHealth(u@),
            Start::FetchProps(u) => StartView::FetchProps(u@),
            Start::Launch { program, args } => StartView::Launch {
                program: program@,
                args: views(args@),
            },
        }
    }
}

/// The address of a provider in the cloud.
pub open spec fn cloud_url(provider: Seq<char>) -> Option<Seq<char>> {
    if provider == "openai"@ {
        Some("https://api.openai.com"@)
    } else if provider == "gemini"@ {
        Some("https://generativelanguage.googleapis.com"@)
    } else if provider == "anthropic"@ {
        Some("https://api.anthropic.com"@)
    } else if provider == "openrouter"@ {
        Some("https://openrouter.ai/api"@)
    } else if provider == "nvidia"@ {
        Some("https://integrate.api.nvidia.com"@)
    } else {
        None
    }
}

/// How many tokens a provider in the cloud takes.
pub open spec fn cloud_ctx_size(provider: Seq<char>) -> usize {
    if provider == "gemini"@ {
        2000000
    } else if provider == "anthropic"@ {
        200000
    } else {
        128000
    }
}

/// The address of a local server.
pub open spec fn local_url(cfg: ConfigView) -> Seq<char> {
    "http://127.0.0.1:"@ + decimal(cfg.port as nat)
}

/// The first step: a provider in the cloud needs a key and a known name, and a local server is
/// looked for.
pub open spec fn first_step(cfg: ConfigView, key: Option<Seq<char>>) -> StartView {
    let provider = cfg.api_provider;
    if provider == "local"@ {
        StartView::CheckHealth(local_url(cfg) + "/health"@)
    } else if key is None {
        StartView::Refused(
            "API key required for provider '"@ + provider
                + "'. Set it in config.toml or via environment variable."@,
        )
    } else {
        match cloud_url(provider) {
            Some(url) => StartView::Ready(
                BackendView {
                    base_url: url,
                    api_provider: provider,
                    api_key: key,
                    api_model: cfg.api_model,
                    actual_ctx_size: cloud_ctx_size(provider),
                    max_rpm: 40,
                },
            ),
            None => StartView::Refused("Unknown API provider: "@ + provider),
        }
    }
}

/// How many layers of a model go to the graphics card: as many as are set, and 99 stands for what
/// its memory suggests.
pub open spec fn layers(set: u32, vram_gb: u64) -> u32 {
    if set != 99 {
        set
    } else if vram_gb >= 16 {
        99
    } else if vram_gb >= 8 {
        32
    } else if vram_gb > 0 {
        16
    } else {
        0
    }
}

/// The arguments that a local server is started with.
pub open spec fn launch_args(cfg: ConfigView, vram_gb: u64) -> Seq<Seq<char>> {
    seq![
        "-m"@,
        cfg.model_path,
        "--port"@,
        decimal(cfg.port as nat),
        "-ngl"@,
        decimal(layers(cfg.gpu_layers, vram_gb) as nat),
        "--ctx-size"@,
        decimal(cfg.ctx_size as nat),
        "--no-warmup"@,
    ]
}

/// The step after a local server has been looked for: one that answers is asked for its
/// properties, else it is started if its program is known and there.
pub open spec fn local_step(
    cfg: ConfigView,
    answers: bool,
    program_exists: bool,
    vram_gb: u64,
) -> StartView {
    if answers {
        StartView::FetchProps(local_url(cfg) + "/props"@)
    } else {
        match cfg.llama_server_path {
            Some(program) => if program_exists {
                StartView::Launch { program, args: launch_args(cfg, vram_gb) }
            } else {
                StartView::Refused(
                    "llama-server not found at: "@ + program
                        + ". Start it manually or fix llama_server_path in config."@,
                )
            },
            None => StartView::Refused(
                "llama-server not running on port "@ + decimal(cfg.port as nat)
                    + ". Either:\n  1. Start it manually: llama-server -m <model> --port "@
                    + decimal(cfg.port as nat)
                    + "\n  2. Set 'llama_server_path' in config.toml for auto-launch\n  3. Use a cloud provider: set api_provider to 'openai', 'gemini', 'anthropic', 'openrouter', or 'nvidia'"@,
            ),
        }
    }
}

/// The context size in the properties of a local server.
pub open spec fn props_ctx_size(props: Seq<char>) -> Option<u64> {
    match member(props, "default_generation_settings"@) {
        Some(s) => number_member(s, "n_ctx"@),
        None => None,
    }
}

/// The time that a local server has for its start, in nanoseconds.
pub const START_LIMIT: u128 = 60_000_000_000;

fn with_text(head: &str, middle: &str, tail: &str) -> (r: String)
    ensures
        r@ == head@ + middle@ + tail@,
{
    let mut s = String::from_str(head);
    s.append(middle);
    s.append(tail);
    s
}

/// The memory of the graphics card in gigabytes, from a report in megabytes; zero where it is no
/// number.
pub fn parse_vram(report: &str) -> (r: u64)
    ensures
        r == match number(trim(report@)) {
            Some(mb) => mb / 1024,
            None => 0,
        },
{
    let text = trimmed(report);
    match parse_number(text.as_str()) {
        Some(mb) => mb / 1024,
        None => 0,
    }
}

/// The memory of the graphics card in gigabytes, from what a program printed; zero where it
/// failed.
pub fn vram_gb(printed: Option<&[u8]>) -> (r: u64)
    ensures
        r == match printed {
            Some(bytes) => match number(trim(lossy_text(bytes@))) {
                Some(mb) => mb / 1024,
                None => 0,
            },
            None => 0,
        },
{
    match printed {
        Some(bytes) => {
            let report = from_utf8_lossy(bytes);
            parse_vram(report.as_str())
        },
        None => 0,
    }
}

/// How many layers of a model go to the graphics card.
pub fn gpu_layers(set: u32, vram_gb: u64) -> (r: u32)
    ensures
        r == layers(set, vram_gb),
{
    if set != 99 {
        set
    } else if vram_gb >= 16 {
        99
    } else if vram_gb >= 8 {
        32
    } else if vram_gb > 0 {
        16
    } else {
        0
    }
}

fn address(cfg: &Config) -> (r: String)
    ensures
        r@ == local_url(cfg@),
{
    let mut url = String::from_str("http://127.0.0.1:");
    let port = decimal_of(cfg.port as u64);
    url.append(port.as_str());
    url
}

fn local_address(cfg: &Config, path: &str) -> (r: String)
    ensures
        r@ == local_url(cfg@) + path@,
{
    let mut url = address(cfg);
    url.append(path);
    url
}

/// The context size in the properties of a local server.
pub fn fetch_ctx_size(props: &str) -> (r: Option<u64>)
    ensures
        r == props_ctx_size(props@),
{
    match get_member(props, "default_generation_settings") {
        Some(s) => get_number(s.as_str(), "n_ctx"),
        None => None,
    }
}

/// The context size that counts: the one that the server reports, else the one that is set.
pub fn effective_ctx_size(reported: Option<u64>, set: usize) -> (r: usize)
    ensures
        r == match reported {
            Some(n) => n as usize,
            None => set,
        },
{
    match reported {
        Some(n) => n as usize,
        None => set,
    }
}

/// Whether a local server has had too long for its start, and the complaint.
pub fn start_expired(waited: u128) -> (r: Option<String>)
    ensures
        match r {
            Some(e) => waited > START_LIMIT && e@
                == "llama-server failed to start within 60 seconds"@,
            None => waited <= START_LIMIT,
        },
{
    if waited > START_LIMIT {
        Some(String::from_str("llama-server failed to start within 60 seconds"))
    } else {
        None
    }
}

impl Backend {
    /// The first step on the way to a model.
    pub fn spawn(cfg: &Config, api_key: Option<String>) -> (r: Start)
        ensures
            r@ == first_step(cfg@, option_view(api_key)),
    {
        let provider = cfg.api_provider.as_str();
        if same(provider, "local") {
            return Start::CheckHealth(local_address(cfg, "/health"));
        }
        if api_key.is_none() {
            return Start::Refused(
                with_text(
                    "API key required for provider '",
                    provider,
                    "'. Set it in config.toml or via environment variable.",
                ),
            );
        }
        let url = if same(provider, "openai") {
            "https://api.openai.com"
        } else if same(provider, "gemini") {
            "https://generativelanguage.googleapis.com"
        } else if same(provider, "anthropic") {
            "https://api.anthropic.com"
        } else if same(provider, "openrouter") {
            "https://openrouter.ai/api"
        } else if same(provider, "nvidia") {
            "https://integrate.api.nvidia.com"
        } else {
            let mut text = String::from_str("Unknown API provider: ");
            text.append(provider);
            return Start::Refused(text);
        };
        let actual_ctx_size: usize = if same(provider, "gemini") {
            2000000
        } else if same(provider, "anthropic") {
            200000
        } else {
            128000
        };
        Start::Ready(
            Backend {
                base_url: String::from_str(url),
                api_provider: cfg.api_provider.clone(),
                api_key,
                api_model: cfg.api_model.clone(),
                actual_ctx_size,
                max_rpm: 40,
            },
        )
    }

    /// The step after a local server has been looked for.
    pub fn health_checked(cfg: &Config, answers: bool, program_exists: bool, vram_gb: u64) -> (r:
        Start)
        ensures
            r@ == local_step(cfg@, answers, program_exists, vram_gb),
    {
        if answers {
            return Start::FetchProps(local_address(cfg, "/props"));
        }
        match &cfg.llama_server_path {
            Some(program) => {
                if !program_exists {
                    return Start::Refused(
                        with_text(
                            "llama-server not found at: ",
                            program.as_str(),
                            ". Start it manually or fix llama_server_path in config.",
                        ),
                    );
                }
                let mut args: Vec<String> = Vec::new();
                args.push(String::from_str("-m"));
                args.push(cfg.model_path.clone());
                args.push(String::from_str("--port"));
                args.push(decimal_of(cfg.port as u64));
                args.push(String::from_str("-ngl"));
                args.push(decimal_of(gpu_layers(cfg.gpu_layers, vram_gb) as u64));
                args.push(String::from_str("--ctx-size"));
                args.push(decimal_of(cfg.ctx_size as u64));
                args.push(String::from_str("--no-warmup"));
                assert(views(args@) =~= launch_args(cfg@, vram_gb));
                Start::Launch { program: program.clone(), args }
            },
            None => {
                let port = decimal_of(cfg.port as u64);
                let mut text = String::from_str("llama-server not running on port ");
                text.append(port.as_str());
                text.append(". Either:\n  1. Start it manually: llama-server -m <model> --port ");
                text.append(port.as_str());
                text.append(
                    "\n  2. Set 'llama_server_path' in config.toml for auto-launch\n  3. Use a cloud provider: set api_provider to 'openai', 'gemini', 'anthropic', 'openrouter', or 'nvidia'",
                );
                Start::Refused(text)
            },
        }
    }

    /// The local model, once its server answers. `props` are its properties, as far as they could
    /// be had.
    pub fn local_ready(cfg: &Config, api_key: Option<String>, props: Option<&str>) -> (r: Backend)
        ensures
            r@ == (BackendView {
                base_url: local_url(cfg@),
                api_provider: cfg@.api_provider,
                api_key: option_view(api_key),
                api_model: cfg@.api_model,
                actual_ctx_size: match props {
                    Some(p) => match props_ctx_size(p@) {
                        Some(n) => n as usize,
                        None => cfg@.ctx_size,
                    },
                    None => cfg@.ctx_size,
                },
                max_rpm: 40,
            }),
    {
        let reported = match props {
            Some(p) => fetch_ctx_size(p),
            None => None,
        };
        Backend {
            base_url: address(cfg),
            api_provider: cfg.api_provider.clone(),
            api_key,
            api_model: cfg.api_model.clone(),
            actual_ctx_size: effective_ctx_size(reported, cfg.ctx_size),
            max_rpm: 40,
        }
    }

    /// The limiter of the requests to the model: as many a minute as it may be sent.
    pub fn limiter(&self) -> (r: RateLimiter)
        ensures
            r.well_formed(),
            r.limit() == self@.max_rpm,
            r.span() == 60_000_000_000,
            forall|p: Seq<char>| r.requests(p) == Seq::<u128>::empty(),
    {
        RateLimiter::new(self.max_rpm)
    }
}

// ---------------------------------------------------------------------------------------------
// Requests
// ---------------------------------------------------------------------------------------------

/// How a request shows who sends it.
#[derive(Debug)]
pub enum Credential {
    Absent,
    Bearer(String),
    ApiKey(String),
}

/// The contents of a `Credential`.
pub enum CredentialView {
    Absent,
    Bearer(Seq<char>),
    ApiKey(Seq<char>),
}

impl View for Credential {
    type V = CredentialView;

    open spec fn view(&self) -> CredentialView {
        match *self {
            Credential::Absent => CredentialView::Absent,
            Credential::Bearer(k) => CredentialView::Bearer(k@),
            Credential::ApiKey(k) => CredentialView::ApiKey(k@),
        }
    }
}

/// A request for an answer. `provider` is who it counts against, and `thinking` is set where the
/// model can be told whether to reason.
#[derive(Debug)]
pub struct Request {
    pub provider: String,
    pub url: String,
    pub model: String,
    pub credential: Credential,
    pub dialect: Dialect,
    pub system: Option<String>,
    pub messages: Vec<WireMessage>,
    pub thinking: Option<bool>,
    pub max_tokens: Option<u32>,
    pub mode: AppMode,
}

/// The contents of a `Request`.
#[verifier::ext_equal]
pub struct RequestView {
    pub provider: Seq<char>,
    pub url: Seq<char>,
    pub model: Seq<char>,
    pub credential: CredentialView,
    pub dialect: Dialect,
    pub system: Option<Seq<char>>,
    pub messages: Seq<WireMessageView>,
    pub thinking: Option<bool>,
    pub max_tokens: Option<u32>,
    pub mode: AppMode,
}

impl View for Request {
    type V = RequestView;

    open spec fn view(&self) -> RequestView {
        RequestView {
            provider: self.provider@,
            url: self.url@,
            model: self.model@,
            credential: self.credential@,
            dialect: self.dialect,
            system: option_view(self.system),
            messages: wire_views(self.messages@),
            thinking: self.thinking,
            max_tokens: self.max_tokens,
            mode: self.mode,
        }
    }
}

/// The model that is set, or the usual one.
pub open spec fn model_or(set: Option<Seq<char>>, usual: Seq<char>) -> Seq<char> {
    match set {
        Some(m) => m,
        None => usual,
    }
}

/// The credential of a key, if there is one.
pub open spec fn bearer(key: Option<Seq<char>>) -> CredentialView {
    match key {
        Some(k) => CredentialView::Bearer(k),
        None => CredentialView::Absent,
    }
}

/// A request in the form of OpenAI.
pub open spec fn openai_request(
    provider: Seq<char>,
    url: Seq<char>,
    model: Seq<char>,
    credential: CredentialView,
    m: Seq<ChatMessageView>,
    thinking: Option<bool>,
    mode: AppMode,
) -> RequestView {
    RequestView {
        provider,
        url,
        model,
        credential,
        dialect: Dialect::OpenAi,
        system: None,
        messages: openai_messages(m),
        thinking,
        max_tokens: None,
        mode,
    }
}

/// The request that is sent for an answer to `m`, or the complaint about the provider. `usual` is
/// the model that Anthropic is asked for where none is set.
pub open spec fn request_for(
    b: BackendView,
    m: Seq<ChatMessageView>,
    mode: AppMode,
    usual: Seq<char>,
) -> Result<RequestView, Seq<char>> {
    let p = b.api_provider;
    if p == "local"@ {
        Ok(
            openai_request(
                p,
                b.base_url + "/v1/chat/completions"@,
                "local"@,
                CredentialView::Absent,
                m,
                Some(mode == AppMode::Ultra),
                mode,
            ),
        )
    } else if p == "openai"@ || p == "openrouter"@ || p == "nvidia"@ {
        Ok(
            openai_request(
                p,
                b.base_url + "/v1/chat/completions"@,
                model_or(b.api_model, "gpt-4o"@),
                bearer(b.api_key),
                m,
                None,
                mode,
            ),
        )
    } else if p == "gemini"@ {
        Ok(
            openai_request(
                p,
                "https://generativelanguage.googleapis.com/v1beta/openai/chat/completions"@,
                model_or(b.api_model, "gemini-2.5-flash"@),
                bearer(b.api_key),
                m,
                None,
                mode,
            ),
        )
    } else if p == "anthropic"@ {
        Ok(
            RequestView {
                provider: p,
                url: b.base_url + "/v1/messages"@,
                model: model_or(b.api_model, usual),
                credential: CredentialView::ApiKey(model_or(b.api_key, ""@)),
                dialect: Dialect::Anthropic,
                system: if system_text(m).len() == 0 {
                    None
                } else {
                    Some(system_text(m))
                },
                messages: anthropic_messages(m),
                thinking: None,
                max_tokens: Some(8192),
                mode,
            },
        )
    } else {
        Err("Unknown API provider: "@ + p)
    }
}

/// The contents of a request or a complaint.
pub open spec fn request_result(r: Result<Request, String>) -> Result<RequestView, Seq<char>> {
    match r {
        Ok(q) => Ok(q@),
        Err(e) => Err(e@),
    }
}

fn text_or(set: &Option<String>, usual: &str) -> (r: String)
    ensures
        r@ == model_or(option_view(*set), usual@),
{
    match set {
        Some(m) => m.clone(),
        None => String::from_str(usual),
    }
}

impl Backend {
    fn bearer_key(&self) -> (r: Credential)
        ensures
            r@ == bearer(self@.api_key),
    {
        match &self.api_key {
            Some(k) => Credential::Bearer(k.clone()),
            None => Credential::Absent,
        }
    }

    fn send_local(&self, messages: &Vec<ChatMessage>, mode: AppMode) -> (r: Request)
        ensures
            r@ == openai_request(
                "local"@,
                self@.base_url + "/v1/chat/completions"@,
                "local"@,
                CredentialView::Absent,
                message_views(messages@),
                Some(mode == AppMode::Ultra),
                mode,
            ),
    {
        let mut url = self.base_url.clone();
        url.append("/v1/chat/completions");
        Request {
            provider: String::from_str("local"),
            url,
            model: String::from_str("local"),
            credential: Credential::Absent,
            dialect: Dialect::OpenAi,
            system: None,
            messages: serialize_messages_openai(messages),
            thinking: Some(mode.thinking_enabled()),
            max_tokens: None,
            mode,
        }
    }

    fn send_openai_compat(&self, messages: &Vec<ChatMessage>, mode: AppMode) -> (r: Request)
        ensures
            r@ == openai_request(
                self@.api_provider,
                self@.base_url + "/v1/chat/completions"@,
                model_or(self@.api_model, "gpt-4o"@),
                bearer(self@.api_key),
                message_views(messages@),
                None,
                mode,
            ),
    {
        let mut url = self.base_url.clone();
        url.append("/v1/chat/completions");
        Request {
            provider: self.api_provider.clone(),
            url,
            model: text_or(&self.api_model, "gpt-4o"),
            credential: self.bearer_key(),
            dialect: Dialect::OpenAi,
            system: None,
            messages: serialize_messages_openai(messages),
            thinking: None,
            max_tokens: None,
            mode,
        }
    }

    fn send_gemini(&self, messages: &Vec<ChatMessage>, mode: AppMode) -> (r: Request)
        ensures
            r@ == openai_request(
                "gemini"@,
                "https://generativelanguage.googleapis.com/v1beta/openai/chat/completions"@,
                model_or(self@.api_model, "gemini-2.5-flash"@),
                bearer(self@.api_key),
                message_views(messages@),
                None,
                mode,
            ),
    {
        Request {
            provider: String::from_str("gemini"),
            url: String::from_str(
                "https://generativelanguage.googleapis.com/v1beta/openai/chat/completions",
            ),
            model: text_or(&self.api_model, "gemini-2.5-flash"),
            credential: self.bearer_key(),
            dialect: Dialect::OpenAi,
            system: None,
            messages: serialize_messages_openai(messages),
            thinking: None,
            max_tokens: None,
            mode,
        }
    }

    fn send_anthropic(&self, messages: &Vec<ChatMessage>, mode: AppMode, usual: &str) -> (r:
        Request)
        requires
            all_sendable(message_views(messages@)),
        ensures
            ({
                let m = message_views(messages@);
                r@ == (RequestView {
                    provider: "anthropic"@,
                    url: self@.base_url + "/v1/messages"@,
                    model: model_or(self@.api_model, usual@),
                    credential: CredentialView::ApiKey(model_or(self@.api_key, ""@)),
                    dialect: Dialect::Anthropic,
                    system: if system_text(m).len() == 0 {
                        None
                    } else {
                        Some(system_text(m))
                    },
                    messages: anthropic_messages(m),
                    thinking: None,
                    max_tokens: Some(8192),
                    mode,
                })
            }),
    {
        let mut url = self.base_url.clone();
        url.append("/v1/messages");
        let text = merge_instructions(messages);
        let system = if text.as_str().is_empty() {
            None
        } else {
            Some(text)
        };
        Request {
            provider: String::from_str("anthropic"),
            url,
            model: text_or(&self.api_model, usual),
            credential: Credential::ApiKey(text_or(&self.api_key, "")),
            dialect: Dialect::Anthropic,
            system,
            messages: serialize_messages_anthropic(messages),
            thinking: None,
            max_tokens: Some(8192),
            mode,
        }
    }

    /// The request that is sent for an answer, or the complaint about the provider. `usual` is the
    /// model that Anthropic is asked for where none is set: the caller names it.
    pub fn send_generate(&self, messages: &Vec<ChatMessage>, mode: AppMode, usual: &str) -> (r:
        Result<Request, String>)
        requires
            self@.api_provider == "anthropic"@ ==> all_sendable(message_views(messages@)),
        ensures
            request_result(r) == request_for(self@, message_views(messages@), mode, usual@),
    {
        let p = self.api_provider.as_str();
        if same(p, "local") {
            Ok(self.send_local(messages, mode))
        } else if same(p, "openai") || same(p, "openrouter") || same(p, "nvidia") {
            Ok(self.send_openai_compat(messages, mode))
        } else if same(p, "gemini") {
            Ok(self.send_gemini(messages, mode))
        } else if same(p, "anthropic") {
            Ok(self.send_anthropic(messages, mode, usual))
        } else {
            let mut text = String::from_str("Unknown API provider: ");
            text.append(p);
            Err(text)
        }
    }
}

/// What can go wrong with a request that was sent.
pub enum Failure {
    /// It did not reach the server, or got no reply.
    Unsent(String),
    /// The server refused it: the status, and what it said.
    Status { status: String, body: String },
    /// The reply broke off.
    Broken(String),
}

/// What is said of a failure.
pub fn failure_message(dialect: Dialect, failure: &Failure) -> (r: String)
    ensures
        r@ == match *failure {
            Failure::Unsent(e) => match dialect {
                Dialect::OpenAi => "OpenAI API error: "@ + e@,
                Dialect::Anthropic => "Anthropic API error: "@ + e@,
            },
            Failure::Status { status, body } => "API error ("@ + status@ + "): "@ + body@,
            Failure::Broken(e) => match dialect {
                Dialect::OpenAi => "OpenAI streaming error: "@ + e@,
                Dialect::Anthropic => "Anthropic streaming error: "@ + e@,
            },
        },
{
    match failure {
        Failure::Unsent(e) => {
            let mut text = String::from_str(
                match dialect {
                    Dialect::OpenAi => "OpenAI API error: ",
                    Dialect::Anthropic => "Anthropic API error: ",
                },
            );
            text.append(e.as_str());
            text
        },
        Failure::Status { status, body } => {
            let mut text = with_text("API error (", status.as_str(), "): ");
            text.append(body.as_str());
            text
        },
        Failure::Broken(e) => {
            let mut text = String::from_str(
                match dialect {
                    Dialect::OpenAi => "OpenAI streaming error: ",
                    Dialect::Anthropic => "Anthropic streaming error: ",
                },
            );
            text.append(e.as_str());
            text
        },
    }
}

/// Whether the status of a reply counts as a failure: only for OpenAI streams, where it lies
/// outside 200 to 299.
pub fn status_fails(dialect: Dialect, status: u16) -> (r: bool)
    ensures
        r == (dialect == Dialect::OpenAi && !(200 <= status <= 299)),
{
    match dialect {
        Dialect::OpenAi => status < 200 || status > 299,
        Dialect::Anthropic => false,
    }
}

/// A model that is ready can be asked: whatever provider a start ends with is known to requests.
pub proof fn law_ready_models_can_be_asked(
    cfg: ConfigView,
    key: Option<Seq<char>>,
    m: Seq<ChatMessageView>,
    mode: AppMode,
    usual: Seq<char>,
)
    ensures
        first_step(cfg, key) matches StartView::Ready(b) ==> request_for(b, m, mode, usual) is Ok,
{
}

/// A model in the cloud is ready at once, without a server being started, exactly where there is a
/// key and the provider is known. It keeps the key and may be sent 40 requests a minute. A missing
/// key is told of before an unknown provider.
pub proof fn law_cloud_needs_a_key(cfg: ConfigView, key: Option<Seq<char>>)
    requires
        cfg.api_provider != "local"@,
    ensures
        first_step(cfg, key) is Ready <==> key is Some && cloud_url(cfg.api_provider) is Some,
        first_step(cfg, key) matches StartView::Ready(b) ==> {
            &&& b.api_key == key
            &&& b.api_provider == cfg.api_provider
            &&& b.api_model == cfg.api_model
            &&& b.actual_ctx_size == cloud_ctx_size(cfg.api_provider)
            &&& b.actual_ctx_size == (if cfg.api_provider == "gemini"@ {
                2_000_000usize
            } else if cfg.api_provider == "anthropic"@ {
                200_000usize
            } else {
                128_000usize
            })
            &&& b.max_rpm == 40
        },
        key is Some && cloud_url(cfg.api_provider) is None ==> first_step(cfg, key)
            == StartView::Refused("Unknown API provider: "@ + cfg.api_provider),
        first_step(cfg, key) is Ready || first_step(cfg, key) is Refused,
        key is None ==> first_step(cfg, key) == StartView::Refused(
            "API key required for provider '"@ + cfg.api_provider
                + "'. Set it in config.toml or via environment variable."@,
        ),
{
}

/// Every request carries the whole conversation in the form of its provider, and says who sends it, in
/// which mode, and which model is asked: the one that is set, except of a local server, which has but
/// one.
pub proof fn law_requests_carry_the_conversation(
    b: BackendView,
    m: Seq<ChatMessageView>,
    mode: AppMode,
    usual: Seq<char>,
)
    ensures
        ({
            let p = b.api_provider;
            let cloud = seq!["openai"@, "openrouter"@, "nvidia"@, "gemini"@];
            match request_for(b, m, mode, usual) {
                Ok(r) => {
                    &&& r.provider == p
                    &&& r.mode == mode
                    &&& p == "anthropic"@ ==> {
                        &&& r.dialect == Dialect::Anthropic
                        &&& r.url == b.base_url + "/v1/messages"@
                        &&& r.messages == anthropic_messages(m)
                        &&& system_text(m).len() > 0 ==> r.system == Some(system_text(m))
                        &&& system_text(m).len() == 0 ==> r.system is None
                        &&& b.api_key matches Some(k) ==> r.credential == CredentialView::ApiKey(k)
                        &&& r.max_tokens == Some(8192u32)
                        &&& r.thinking is None
                    }
                    &&& p != "anthropic"@ ==> {
                        &&& r.dialect == Dialect::OpenAi
                        &&& r.messages == openai_messages(m)
                        &&& r.system is None
                        &&& r.max_tokens is None
                        &&& p == "local"@ || cloud.contains(p)
                        &&& p != "gemini"@ ==> r.url == b.base_url + "/v1/chat/completions"@
                    }
                    &&& p == "local"@ ==> {
                        &&& r.model == "local"@
                        &&& r.credential == CredentialView::Absent
                        &&& r.thinking == Some(mode.thinks())
                    }
                    &&& p != "local"@ ==> {
                        &&& b.api_model matches Some(x) ==> r.model == x
                        &&& r.thinking is None
                    }
                    &&& cloud.contains(p) ==> {
                        &&& b.api_key matches Some(k) ==> r.credential == CredentialView::Bearer(k)
                        &&& b.api_key is None ==> r.credential == CredentialView::Absent
                        &&& b.api_model is None ==> r.model == (if p == "gemini"@ {
                            "gemini-2.5-flash"@
                        } else {
                            "gpt-4o"@
                        })
                    }
                },
                Err(e) => {
                    &&& e == "Unknown API provider: "@ + p
                    &&& p != "local"@ && p != "anthropic"@ && !cloud.contains(p)
                },
            }
        }),
{
    let p = b.api_provider;
    let cloud = seq!["openai"@, "openrouter"@, "nvidia"@, "gemini"@];
    reveal_strlit("local");
    reveal_strlit("anthropic");
    reveal_strlit("openai");
    reveal_strlit("openrouter");
    reveal_strlit("nvidia");
    reveal_strlit("gemini");
    assert("local"@.len() == 5 && "anthropic"@.len() == 9 && "openrouter"@.len() == 10);
    assert("openai"@[0] == 'o' && "nvidia"@[0] == 'n' && "gemini"@[0] == 'g');
    assert("openai"@.len() == 6 && "nvidia"@.len() == 6 && "gemini"@.len() == 6);
    assert(cloud[0] == "openai"@ && cloud[1] == "openrouter"@ && cloud[2] == "nvidia"@ && cloud[3]
        == "gemini"@);
    assert(cloud.contains(p) <==> p == "openai"@ || p == "openrouter"@ || p == "nvidia"@ || p
        == "gemini"@);
}

proof fn lemma_address(a: Seq<char>, b: Seq<char>, c: Seq<char>)
    requires
        a.len() + b.len() == c.len(),
        forall|i: int| 0 <= i < a.len() ==> a[i] == c[i],
        forall|i: int| 0 <= i < b.len() ==> b[i] == c[a.len() + i],
    ensures
        a + b == c,
{
    assert(a + b =~= c);
}

/// A request goes to the address of its provider: from the start of a model to the request, whatever
/// is said, each provider in the cloud has one address.
pub proof fn law_requests_go_to_their_provider(
    cfg: ConfigView,
    key: Seq<char>,
    m: Seq<ChatMessageView>,
    mode: AppMode,
    usual: Seq<char>,
)
    ensures
        first_step(cfg, Some(key)) matches StartView::Ready(b) ==> {
            &&& request_for(b, m, mode, usual) is Ok
            &&& request_for(b, m, mode, usual)->Ok_0.url == (if cfg.api_provider == "openai"@ {
                "https://api.openai.com/v1/chat/completions"@
            } else if cfg.api_provider == "anthropic"@ {
                "https://api.anthropic.com/v1/messages"@
            } else if cfg.api_provider == "openrouter"@ {
                "https://openrouter.ai/api/v1/chat/completions"@
            } else if cfg.api_provider == "nvidia"@ {
                "https://integrate.api.nvidia.com/v1/chat/completions"@
            } else {
                "https://generativelanguage.googleapis.com/v1beta/openai/chat/completions"@
            })
            &&& request_for(b, m, mode, usual)->Ok_0.credential == (if cfg.api_provider
                == "anthropic"@ {
                CredentialView::ApiKey(key)
            } else {
                CredentialView::Bearer(key)
            })
        },
{
    reveal_strlit("https://api.openai.com");
    reveal_strlit("https://api.openai.com/v1/chat/completions");
    reveal_strlit("https://api.anthropic.com");
    reveal_strlit("https://api.anthropic.com/v1/messages");
    reveal_strlit("https://openrouter.ai/api");
    reveal_strlit("https://openrouter.ai/api/v1/chat/completions");
    reveal_strlit("https://integrate.api.nvidia.com");
    reveal_strlit("https://integrate.api.nvidia.com/v1/chat/completions");
    reveal_strlit("/v1/chat/completions");
    reveal_strlit("/v1/messages");
    reveal_strlit("local");
    reveal_strlit("anthropic");
    reveal_strlit("openai");
    reveal_strlit("openrouter");
    reveal_strlit("nvidia");
    reveal_strlit("gemini");
    assert("local"@.len() == 5 && "anthropic"@.len() == 9 && "openrouter"@.len() == 10);
    assert("openai"@[0] == 'o' && "nvidia"@[0] == 'n' && "gemini"@[0] == 'g');
    assert("openai"@.len() == 6 && "nvidia"@.len() == 6 && "gemini"@.len() == 6);
    let v = "/v1/chat/completions"@;
    lemma_address(
        "https://api.openai.com"@,
        v,
        "https://api.openai.com/v1/chat/completions"@,
    );
    lemma_address(
        "https://api.anthropic.com"@,
        "/v1/messages"@,
        "https://api.anthropic.com/v1/messages"@,
    );
    lemma_address(
        "https://openrouter.ai/api"@,
        v,
        "https://openrouter.ai/api/v1/chat/completions"@,
    );
    lemma_address(
        "https://integrate.api.nvidia.com"@,
        v,
        "https://integrate.api.nvidia.com/v1/chat/completions"@,
    );
}

/// More memory never means fewer layers on the graphics card, and a number of layers that is set, other
/// than the one that leaves the choice open, is kept.
pub proof fn law_layers(set: u32, less: u64, more: u64)
    requires
        less <= more,
    ensures
        layers(set, less) <= layers(set, more),
        layers(99, 0) == 0,
        0 < less < 8 ==> layers(99, less) == 16,
        8 <= less < 16 ==> layers(99, less) == 32,
        16 <= less ==> layers(99, less) == 99,
        set != 99 ==> layers(set, less) == set,
{
}

/// A local server is started with the settings only where none answers and its program is there, and
/// it is looked for, and asked, at the port that is set.
pub proof fn law_local_server(
    cfg: ConfigView,
    key: Option<Seq<char>>,
    answers: bool,
    exists: bool,
    vram_gb: u64,
)
    requires
        cfg.api_provider == "local"@,
    ensures
        ({
            let address = "http://127.0.0.1:"@ + decimal(cfg.port as nat);
            let step = local_step(cfg, answers, exists, vram_gb);
            &&& first_step(cfg, key) == StartView::CheckHealth(address + "/health"@)
            &&& step is Ready == false
            &&& step is FetchProps <==> answers
            &&& step matches StartView::FetchProps(u) ==> u == address + "/props"@
            &&& step is Launch <==> !answers && exists && cfg.llama_server_path is Some
            &&& step matches StartView::Launch { program, args } ==> {
                &&& cfg.llama_server_path == Some(program)
                &&& args.len() == 9
                &&& args[0] == "-m"@ && args[1] == cfg.model_path
                &&& args[2] == "--port"@ && args[3] == decimal(cfg.port as nat)
                &&& args[4] == "-ngl"@ && args[5] == decimal(
                    layers(cfg.gpu_layers, vram_gb) as nat,
                )
                &&& args[6] == "--ctx-size"@ && args[7] == decimal(cfg.ctx_size as nat)
                &&& args[8] == "--no-warmup"@
            }
            &&& step is Refused <==> !answers && !(exists && cfg.llama_server_path is Some)
            &&& step matches StartView::Refused(e) ==> match cfg.llama_server_path {
                Some(program) => e == "llama-server not found at: "@ + program
                    + ". Start it manually or fix llama_server_path in config."@,
                None => ("llama-server not running on port "@ + decimal(
                    cfg.port as nat,
                )).is_prefix_of(e),
            }
        }),
{
}

/// The context size of a local server is the number of that name among its settings.
pub proof fn law_props(props: Seq<char>, settings: Seq<char>)
    ensures
        member(props, "default_generation_settings"@) == Some(settings) ==> props_ctx_size(props)
            == number_member(settings, "n_ctx"@),
        member(props, "default_generation_settings"@) is None ==> props_ctx_size(props) is None,
{
}

} // verus!
