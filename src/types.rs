//! The records that cross the adapter's boundary, and its error kinds.
use vstd::prelude::*;

verus! {

/// A request for an embedding of `text`.
#[derive(Debug, Clone, PartialEq, Eq)]
pub struct EmbeddingRequest {
    pub text: String,
    pub model: Option<String>,
}

/// An embedding: `embedding` holds one fixed-point code per component, the
/// component being `code / u64::MAX * 2 - 1`, so every code stands for a
/// value in `[-1, 1]`.
#[derive(Debug, Clone, PartialEq, Eq)]
pub struct EmbeddingResponse {
    pub embedding: Vec<u64>,
    pub model: String,
}

/// A chat turn: the user's message, optional background, optional model.
#[derive(Debug, Clone, PartialEq, Eq)]
pub struct ChatRequest {
    pub message: String,
    pub context: Option<String>,
    pub model: Option<String>,
}

/// The model's answer to a chat turn.
#[derive(Debug, Clone, PartialEq, Eq)]
pub struct ChatResponse {
    pub response: String,
    pub model: String,
    pub tokens_used: Option<u32>,
}

/// A recurring theme found in a batch of entries. `strength` is in per
/// cent, from 0 to 100.
#[derive(Debug, Clone, PartialEq, Eq)]
pub struct EchoPattern {
    pub id: String,
    pub title: String,
    pub description: String,
    pub strength: u32,
    pub entry_ids: Vec<String>,
    pub tags: Vec<String>,
    pub pattern_type: String,
}

/// One mood and its share of the entries, in millionths (1 000 000 is the whole).
#[derive(Debug, Clone, PartialEq, Eq)]
pub struct MoodShare {
    pub mood: String,
    pub share: u32,
}

/// The themes, insights and mood shares read from a model's analysis.
#[derive(Debug, Clone, PartialEq, Eq)]
pub struct EchoAnalysis {
    pub patterns: Vec<EchoPattern>,
    pub insights: Vec<String>,
    pub mood_trends: Vec<MoodShare>,
}

/// The backend that the adapter drives: a model server reached over HTTP,
/// or a model binary run once per request (its path).
#[derive(Debug, Clone, PartialEq, Eq)]
pub enum AIModel {
    Ollama,
    LlamaCpp(String),
}

/// What can go wrong in the adapter.
#[derive(Debug, Clone, PartialEq, Eq)]
pub enum AdapterError {
    /// The configuration was refused (an unknown backend, a malformed URL).
    Config(String),
    /// The backend could not be reached, failed, or answered with something unreadable.
    Backend(String),
    /// The HTTP backend answered with a status outside the success range.
    Status(u16),
    /// The host cancelled the call.
    Cancelled,
}

/// The view of an optional string.
pub open spec fn opt_view(o: Option<String>) -> Option<Seq<char>> {
    match o {
        Some(s) => Some(s@),
        None => None,
    }
}

} // verus!
