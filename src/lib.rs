//! Language-model adapter of a local-first journaling application.
//!
//! The library holds the adapter's decisions: which backend a request goes
//! to, what is sent there, how replies become results, and how a theme
//! report is read from free-form model output. Process spawning and HTTP
//! traffic are left to the host, which hands the outcomes back as plain
//! values.
pub mod text;
pub mod types;
pub mod prompt;
pub mod themes;
pub mod embedding;
pub mod catalog;
pub mod service;
pub mod github;

pub use catalog::parse_model_list;
pub use embedding::{stand_in_vector, EMBEDDING_DIM};
pub use prompt::{analysis_prompt, process_prompt, system_prompt, APP_NAME};
pub use service::{
    embedding_from_run, http_chat_response, models_from_discovery, process_chat_response,
    AIService, AnalysisStep, ChatPlan, ChatRequestBody, EmbeddingPlan, Message, ModelListing,
};
pub use themes::{analysis_from_chat, analysis_from_reply};
pub use types::{
    AIModel, AdapterError, ChatRequest, ChatResponse, EchoAnalysis, EchoPattern,
    EmbeddingRequest, EmbeddingResponse, MoodShare,
};
