//! The adapter facade: its configuration, and for each operation the
//! decision of what to run and how the outcome becomes a result. The host
//! performs the process spawns and HTTP exchanges that the plans name.
use vstd::prelude::*;
use crate::catalog::{model_names, parse_model_list};
use crate::embedding::{stand_in_codes, stand_in_vector, text_hash};
use crate::prompt::{
    analysis_prompt, analysis_prompt_spec, process_prompt, process_prompt_spec, system_prompt,
    system_prompt_spec,
};
use crate::text::{chars_of, contains_seq, matches_at, string_of, string_views, text_eq, trim, trim_chars};
use crate::themes::empty_report;
use crate::types::{
    opt_view, AIModel, AdapterError, ChatRequest, ChatResponse, EchoAnalysis, EmbeddingRequest,
    EmbeddingResponse,
};

verus! {

broadcast use vstd::string::group_string_axioms;

/// Backend tag of the model server reached over HTTP.
pub const HTTP_BACKEND: &'static str = "http-runner";

/// Backend tag of the model binary run per request.
pub const PROCESS_BACKEND: &'static str = "process-binary";

pub const DEFAULT_BASE_URL: &'static str = "http://localhost:11434";

pub const DEFAULT_EMBEDDING_MODEL: &'static str = "nomic-embed-text";

pub const DEFAULT_CHAT_MODEL: &'static str = "llama3.2";

/// The runner's command-line tool, used to discover models and to probe the server.
pub const DISCOVERY_PROGRAM: &'static str = "ollama";

pub const CHAT_PATH: &'static str = "/api/chat";

/// Model label of replies from the model binary.
pub const PROCESS_MODEL_LABEL: &'static str = "llama.cpp";

/// Model label of stand-in embeddings.
pub const STAND_IN_MODEL: &'static str = "mock-embedding";

/// Number of tokens the model binary is asked to generate.
pub const PROCESS_TOKEN_LIMIT: &'static str = "256";

pub const EMBEDDING_PROMPT_LEAD: &'static str = "Generate embedding for: ";

pub const PROCESS_CHAT_FAILED: &'static str = "process chat failed: ";

pub const EMBEDDING_RUN_FAILED: &'static str = "embedding command failed: ";

pub const MISSING_CONTENT: &'static str = "reply carries no message.content";

pub const UNKNOWN_BACKEND: &'static str = "unsupported backend: ";

pub const MALFORMED_URL: &'static str = "malformed base URL: ";

/// Whether a text parses as an absolute URL.
pub uninterp spec fn parses_as_url(s: Seq<char>) -> bool;

/// Relies on `reqwest::Url::parse` (the `url` crate's parser), which
/// depends on the text alone: whether it reads as an absolute URL.
#[verifier::external_body]
fn url_is_well_formed(s: &str) -> (r: bool)
    ensures
        r == parses_as_url(s@),
{
    reqwest::Url::parse(s).is_ok()
}

/// One message of an HTTP chat body.
#[derive(Debug, Clone, PartialEq, Eq)]
pub struct Message {
    pub role: String,
    pub content: String,
}

/// The JSON body posted to the runner's chat endpoint.
#[derive(Debug, Clone, PartialEq, Eq)]
pub struct ChatRequestBody {
    pub model: String,
    pub messages: Vec<Message>,
    pub stream: bool,
}

/// (role, content) of each message.
pub open spec fn message_views(s: Seq<Message>) -> Seq<(Seq<char>, Seq<char>)> {
    s.map_values(|m: Message| (m.role@, m.content@))
}

/// How a chat turn is carried out.
#[derive(Debug, Clone, PartialEq, Eq)]
pub enum ChatPlan {
    /// POST `body`, as JSON, to `url`.
    Http { url: String, body: ChatRequestBody },
    /// Run `program` with `args` and read its standard output.
    Process { program: String, args: Vec<String> },
}

/// How an embedding is obtained.
#[derive(Debug, Clone, PartialEq, Eq)]
pub enum EmbeddingPlan {
    /// The embedding is already there.
    StandIn(EmbeddingResponse),
    /// Run `program` with `args`; on success the embedding is labelled `model`.
    Run { program: String, args: Vec<String>, model: String },
}

/// How the model list is obtained.
#[derive(Debug, Clone, PartialEq, Eq)]
pub enum ModelListing {
    /// The list is fixed.
    Fixed(Vec<String>),
    /// Run `program` with `args` and read the listing it prints.
    Discover { program: String, args: Vec<String> },
}

/// The next step of a theme analysis.
#[derive(Debug, Clone, PartialEq, Eq)]
pub enum AnalysisStep {
    /// Nothing to ask: this is the report.
    Done(EchoAnalysis),
    /// Send this chat request and hand its outcome to `analysis_from_chat`.
    Ask(ChatRequest),
}

/// The adapter: the selected backend, default models, the HTTP base URL,
/// and the models the model binary advertises. It does not change after
/// construction.
#[derive(Debug, Clone, PartialEq, Eq)]
pub struct AIService {
    model: AIModel,
    embedding_model: String,
    chat_model: String,
    ollama_url: String,
    advertised_models: Vec<String>,
}

/// The base URL in force: an explicit override, else a non-empty location,
/// else the default.
pub open spec fn chosen_base_url(location: Seq<char>, url_override: Option<Seq<char>>) -> Seq<char> {
    match url_override {
        Some(u) => u,
        None => if location.len() > 0 {
            location
        } else {
            DEFAULT_BASE_URL@
        },
    }
}

/// The model a request names, or the default.
pub open spec fn chosen_model(requested: Option<String>, default: Seq<char>) -> Seq<char> {
    match requested {
        Some(m) => m@,
        None => default,
    }
}

/// The models the model binary advertises unless told otherwise.
pub open spec fn default_advertised() -> Seq<Seq<char>> {
    seq!["llama2:7b"@, "codellama:7b"@]
}

fn owned(s: &str) -> (r: String)
    ensures
        r@ == s@,
{
    String::from_str(s)
}

fn concat(a: &str, b: &str) -> (r: String)
    ensures
        r@ == a@ + b@,
{
    let mut r = String::from_str(a);
    r.append(b);
    r
}

proof fn lemma_backend_tags_differ()
    ensures
        HTTP_BACKEND@ != PROCESS_BACKEND@,
{
    reveal_strlit("http-runner");
    reveal_strlit("process-binary");
    assert(HTTP_BACKEND@.len() != PROCESS_BACKEND@.len());
}

impl AIService {
    /// The selected backend.
    pub closed spec fn backend(&self) -> AIModel {
        self.model
    }

    /// Default model for embeddings.
    pub closed spec fn embedding_model_spec(&self) -> Seq<char> {
        self.embedding_model@
    }

    /// Default model for chat and theme analysis.
    pub closed spec fn chat_model_spec(&self) -> Seq<char> {
        self.chat_model@
    }

    /// Base URL of the HTTP backend.
    pub closed spec fn base_url_spec(&self) -> Seq<char> {
        self.ollama_url@
    }

    /// Models the model binary advertises.
    pub closed spec fn advertised_spec(&self) -> Seq<Seq<char>> {
        string_views(self.advertised_models@)
    }

    /// Sets up the adapter for the backend named by `model_type`
    /// (`"http-runner"` or `"process-binary"`). `model_path` is the server's
    /// URL or the binary's path; `ollama_url`, where given, overrides the
    /// server's URL.
    pub fn new(model_type: &str, model_path: &str, ollama_url: Option<String>) -> (r: Result<
        AIService,
        AdapterError,
    >)
        ensures
            model_type@ == HTTP_BACKEND@ ==> {
                let base = chosen_base_url(model_path@, opt_view(ollama_url));
                match r {
                    Ok(s) => {
                        &&& parses_as_url(base)
                        &&& s.backend() == AIModel::Ollama
                        &&& s.base_url_spec() == base
                        &&& s.embedding_model_spec() == DEFAULT_EMBEDDING_MODEL@
                        &&& s.chat_model_spec() == DEFAULT_CHAT_MODEL@
                        &&& s.advertised_spec() == default_advertised()
                    },
                    Err(e) => !parses_as_url(base) && e is Config,
                }
            },
            model_type@ == PROCESS_BACKEND@ ==> match r {
                Ok(s) => {
                    &&& s.backend() is LlamaCpp
                    &&& s.backend()->LlamaCpp_0@ == model_path@
                    &&& s.base_url_spec() == chosen_base_url(model_path@, opt_view(ollama_url))
                    &&& s.embedding_model_spec() == DEFAULT_EMBEDDING_MODEL@
                    &&& s.chat_model_spec() == DEFAULT_CHAT_MODEL@
                    &&& s.advertised_spec() == default_advertised()
                },
                Err(_) => false,
            },
            model_type@ != HTTP_BACKEND@ && model_type@ != PROCESS_BACKEND@ ==> r is Err
                && r->Err_0 is Config,
    {
        proof {
            lemma_backend_tags_differ();
        }
        let base = match ollama_url {
            Some(u) => u,
            None => if model_path.unicode_len() > 0 {
                owned(model_path)
            } else {
                owned(DEFAULT_BASE_URL)
            },
        };
        let model = if text_eq(model_type, HTTP_BACKEND) {
            if !url_is_well_formed(base.as_str()) {
                return Err(AdapterError::Config(concat(MALFORMED_URL, base.as_str())));
            }
            AIModel::Ollama
        } else if text_eq(model_type, PROCESS_BACKEND) {
            AIModel::LlamaCpp(owned(model_path))
        } else {
            return Err(AdapterError::Config(concat(UNKNOWN_BACKEND, model_type)));
        };
        let mut advertised_models: Vec<String> = Vec::new();
        advertised_models.push(owned("llama2:7b"));
        advertised_models.push(owned("codellama:7b"));
        assert(string_views(advertised_models@) =~= default_advertised());
        Ok(AIService {
            model,
            embedding_model: owned(DEFAULT_EMBEDDING_MODEL),
            chat_model: owned(DEFAULT_CHAT_MODEL),
            ollama_url: base,
            advertised_models,
        })
    }

    /// The adapter with `model` as its default embedding model.
    pub fn with_embedding_model(self, model: String) -> (r: AIService)
        ensures
            r.embedding_model_spec() == model@,
            r.backend() == self.backend(),
            r.chat_model_spec() == self.chat_model_spec(),
            r.base_url_spec() == self.base_url_spec(),
            r.advertised_spec() == self.advertised_spec(),
    {
        AIService { embedding_model: model, ..self }
    }

    /// The adapter with `model` as its default chat model.
    pub fn with_chat_model(self, model: String) -> (r: AIService)
        ensures
            r.chat_model_spec() == model@,
            r.backend() == self.backend(),
            r.embedding_model_spec() == self.embedding_model_spec(),
            r.base_url_spec() == self.base_url_spec(),
            r.advertised_spec() == self.advertised_spec(),
    {
        AIService { chat_model: model, ..self }
    }

    /// The adapter with `models` as the list the model binary advertises.
    pub fn with_advertised_models(self, models: Vec<String>) -> (r: AIService)
        ensures
            r.advertised_spec() == string_views(models@),
            r.backend() == self.backend(),
            r.embedding_model_spec() == self.embedding_model_spec(),
            r.chat_model_spec() == self.chat_model_spec(),
            r.base_url_spec() == self.base_url_spec(),
    {
        AIService { advertised_models: models, ..self }
    }

    /// How to tell whether the backend can be reached: the command to run;
    /// the backend counts as available when it can be spawned at all.
    pub fn probe_command(&self) -> (r: (String, Vec<String>))
        ensures
            self.backend() is Ollama ==> r.0@ == DISCOVERY_PROGRAM@ && string_views(r.1@)
                == seq!["list"@],
            self.backend() is LlamaCpp ==> r.0@ == self.backend()->LlamaCpp_0@ && string_views(
                r.1@,
            ) == seq!["--help"@],
    {
        let mut args: Vec<String> = Vec::new();
        match &self.model {
            AIModel::Ollama => {
                args.push(owned("list"));
                assert(string_views(args@) =~= seq!["list"@]);
                (owned(DISCOVERY_PROGRAM), args)
            },
            AIModel::LlamaCpp(path) => {
                args.push(owned("--help"));
                assert(string_views(args@) =~= seq!["--help"@]);
                (path.clone(), args)
            },
        }
    }

    /// How to carry out a chat turn on the selected backend.
    pub fn chat_plan(&self, request: &ChatRequest) -> (r: ChatPlan)
        ensures
            self.backend() is Ollama ==> match r {
                ChatPlan::Http { url, body } => {
                    &&& url@ == self.base_url_spec() + CHAT_PATH@
                    &&& body.model@ == chosen_model(request.model, self.chat_model_spec())
                    &&& message_views(body.messages@) == seq![
                        ("system"@, system_prompt_spec(opt_view(request.context))),
                        ("user"@, request.message@),
                    ]
                    &&& !body.stream
                },
                _ => false,
            },
            self.backend() is LlamaCpp ==> match r {
                ChatPlan::Process { program, args } => {
                    &&& program@ == self.backend()->LlamaCpp_0@
                    &&& string_views(args@) == seq![
                        "-p"@,
                        process_prompt_spec(request.message@, opt_view(request.context)),
                        "-n"@,
                        PROCESS_TOKEN_LIMIT@,
                    ]
                },
                _ => false,
            },
    {
        match &self.model {
            AIModel::Ollama => {
                let model = match &request.model {
                    Some(m) => m.clone(),
                    None => self.chat_model.clone(),
                };
                let mut messages: Vec<Message> = Vec::new();
                messages.push(Message { role: owned("system"), content: system_prompt(&request.context) });
                messages.push(Message { role: owned("user"), content: request.message.clone() });
                let body = ChatRequestBody { model, messages, stream: false };
                assert(message_views(body.messages@) =~= seq![
                    ("system"@, system_prompt_spec(opt_view(request.context))),
                    ("user"@, request.message@),
                ]);
                ChatPlan::Http { url: concat(self.ollama_url.as_str(), CHAT_PATH), body }
            },
            AIModel::LlamaCpp(path) => {
                let mut args: Vec<String> = Vec::new();
                args.push(owned("-p"));
                args.push(process_prompt(&request.message, &request.context));
                args.push(owned("-n"));
                args.push(owned(PROCESS_TOKEN_LIMIT));
                assert(string_views(args@) =~= seq![
                    "-p"@,
                    process_prompt_spec(request.message@, opt_view(request.context)),
                    "-n"@,
                    PROCESS_TOKEN_LIMIT@,
                ]);
                ChatPlan::Process { program: path.clone(), args }
            },
        }
    }

    /// How to obtain an embedding on the selected backend: the model binary
    /// gets the stand-in at once; the HTTP backend first runs the model.
    pub fn embedding_plan(&self, request: &EmbeddingRequest) -> (r: EmbeddingPlan)
        ensures
            self.backend() is LlamaCpp ==> match r {
                EmbeddingPlan::StandIn(e) => e.embedding@ == stand_in_codes(
                    text_hash(request.text@),
                ) && e.model@ == STAND_IN_MODEL@,
                _ => false,
            },
            self.backend() is Ollama ==> match r {
                EmbeddingPlan::Run { program, args, model } => {
                    &&& program@ == DISCOVERY_PROGRAM@
                    &&& model@ == chosen_model(request.model, self.embedding_model_spec())
                    &&& string_views(args@) == seq![
                        "run"@,
                        model@,
                        EMBEDDING_PROMPT_LEAD@ + request.text@,
                    ]
                },
                _ => false,
            },
    {
        match &self.model {
            AIModel::LlamaCpp(_) => EmbeddingPlan::StandIn(
                EmbeddingResponse {
                    embedding: stand_in_vector(request.text.as_str()),
                    model: owned(STAND_IN_MODEL),
                },
            ),
            AIModel::Ollama => {
                let model = match &request.model {
                    Some(m) => m.clone(),
                    None => self.embedding_model.clone(),
                };
                let mut args: Vec<String> = Vec::new();
                args.push(owned("run"));
                args.push(model.clone());
                args.push(concat(EMBEDDING_PROMPT_LEAD, request.text.as_str()));
                assert(string_views(args@) =~= seq![
                    "run"@,
                    model@,
                    EMBEDDING_PROMPT_LEAD@ + request.text@,
                ]);
                EmbeddingPlan::Run { program: owned(DISCOVERY_PROGRAM), args, model }
            },
        }
    }

    /// How to obtain the model list on the selected backend.
    pub fn model_listing(&self) -> (r: ModelListing)
        ensures
            self.backend() is LlamaCpp ==> match r {
                ModelListing::Fixed(v) => string_views(v@) == self.advertised_spec(),
                _ => false,
            },
            self.backend() is Ollama ==> match r {
                ModelListing::Discover { program, args } => program@ == DISCOVERY_PROGRAM@
                    && string_views(args@) == seq!["list"@],
                _ => false,
            },
    {
        match &self.model {
            AIModel::LlamaCpp(_) => {
                let mut v: Vec<String> = Vec::new();
                let mut k: usize = 0;
                while k < self.advertised_models.len()
                    invariant
                        k <= self.advertised_models.len(),
                        string_views(v@) == string_views(self.advertised_models@).take(k as int),
                    decreases self.advertised_models.len() - k,
                {
                    let ghost before = string_views(v@);
                    let name = self.advertised_models[k].clone();
                    assert(name@ == string_views(self.advertised_models@)[k as int]);
                    v.push(name);
                    assert(string_views(v@) =~= before.push(name@));
                    k = k + 1;
                    assert(string_views(v@) =~= string_views(self.advertised_models@).take(
                        k as int,
                    ));
                }
                assert(string_views(self.advertised_models@).take(k as int) =~= string_views(
                    self.advertised_models@,
                ));
                ModelListing::Fixed(v)
            },
            AIModel::Ollama => {
                let mut args: Vec<String> = Vec::new();
                args.push(owned("list"));
                assert(string_views(args@) =~= seq!["list"@]);
                ModelListing::Discover { program: owned(DISCOVERY_PROGRAM), args }
            },
        }
    }

    /// The first step of a theme analysis of `entries`: an empty batch is
    /// answered at once with an empty report; otherwise the model is asked,
    /// with the entries in the message, no context, and the chat model.
    pub fn begin_analysis(&self, entries: &Vec<String>) -> (r: AnalysisStep)
        ensures
            entries.len() == 0 ==> match r {
                AnalysisStep::Done(a) => a@ == empty_report(),
                _ => false,
            },
            entries.len() > 0 ==> match r {
                AnalysisStep::Ask(q) => {
                    &&& q.message@ == analysis_prompt_spec(string_views(entries@))
                    &&& q.context is None
                    &&& q.model is Some
                    &&& q.model->Some_0@ == self.chat_model_spec()
                },
                _ => false,
            },
    {
        if entries.len() == 0 {
            let a = EchoAnalysis { patterns: Vec::new(), insights: Vec::new(), mood_trends: Vec::new() };
            assert(a@.patterns =~= empty_report().patterns);
            assert(a@.insights =~= empty_report().insights);
            assert(a@.mood_trends =~= empty_report().mood_trends);
            AnalysisStep::Done(a)
        } else {
            AnalysisStep::Ask(
                ChatRequest {
                    message: analysis_prompt(entries),
                    context: None,
                    model: Some(self.chat_model.clone()),
                },
            )
        }
    }
}

/// The result of an HTTP chat exchange that came back with `status` and,
/// where the body was JSON with a string at `message.content`, that string.
pub fn http_chat_response(model: String, status: u16, content: Option<String>) -> (r: Result<
    ChatResponse,
    AdapterError,
>)
    ensures
        !(200 <= status <= 299) ==> r == Err::<ChatResponse, AdapterError>(AdapterError::Status(status)),
        200 <= status <= 299 ==> match content {
            Some(c) => match r {
                Ok(resp) => resp.response@ == c@ && resp.model@ == model@ && resp.tokens_used is None,
                Err(_) => false,
            },
            None => r is Err && r->Err_0 is Backend,
        },
{
    if status < 200 || status > 299 {
        return Err(AdapterError::Status(status));
    }
    match content {
        Some(c) => Ok(ChatResponse { response: c, model, tokens_used: None }),
        None => Err(AdapterError::Backend(owned(MISSING_CONTENT))),
    }
}

/// The result of running the model binary for a chat turn.
pub fn process_chat_response(success: bool, stdout: &str, stderr: &str) -> (r: Result<
    ChatResponse,
    AdapterError,
>)
    ensures
        success ==> match r {
            Ok(resp) => resp.response@ == trim(stdout@) && resp.model@ == PROCESS_MODEL_LABEL@
                && resp.tokens_used is None,
            Err(_) => false,
        },
        !success ==> match r {
            Err(AdapterError::Backend(m)) => m@ == PROCESS_CHAT_FAILED@ + stderr@ && contains_seq(
                m@,
                stderr@,
            ),
            _ => false,
        },
{
    if !success {
        let m = concat(PROCESS_CHAT_FAILED, stderr);
        assert(m@.subrange(PROCESS_CHAT_FAILED@.len() as int, m@.len() as int) =~= stderr@);
        assert(matches_at(m@, stderr@, PROCESS_CHAT_FAILED@.len() as int));
        return Err(AdapterError::Backend(m));
    }
    let text = trim_chars(&chars_of(stdout));
    Ok(ChatResponse { response: string_of(&text), model: owned(PROCESS_MODEL_LABEL), tokens_used: None })
}

/// The result of running the model for an embedding of `text`: on success
/// the stand-in vector of `text`, labelled `model`.
pub fn embedding_from_run(text: &str, model: String, success: bool, stderr: &str) -> (r: Result<
    EmbeddingResponse,
    AdapterError,
>)
    ensures
        success ==> match r {
            Ok(e) => e.embedding@ == stand_in_codes(text_hash(text@)) && e.model == model,
            Err(_) => false,
        },
        !success ==> match r {
            Err(AdapterError::Backend(m)) => m@ == EMBEDDING_RUN_FAILED@ + stderr@,
            _ => false,
        },
{
    if !success {
        return Err(AdapterError::Backend(concat(EMBEDDING_RUN_FAILED, stderr)));
    }
    Ok(EmbeddingResponse { embedding: stand_in_vector(text), model })
}

/// The model names from a discovery run: none when it failed, else those
/// its listing advertises.
pub fn models_from_discovery(success: bool, listing: &str) -> (r: Vec<String>)
    ensures
        !success ==> r@.len() == 0,
        success ==> string_views(r@) == model_names(listing@),
{
    if !success {
        return Vec::new();
    }
    parse_model_list(listing)
}

} // verus!
