//! The messages exchanged with an OpenAI-compatible server, as plain values.
use vstd::prelude::*;

use crate::text::owned;

verus! {

pub struct OpenAIChatCompletionResponseMessage {
    pub role: String,
    pub content: String,
}

pub struct OpenAIChatCompletionResponseChoice {
    pub index: u8,
    pub message: OpenAIChatCompletionResponseMessage,
}

pub struct OpenAIChatCompletionResponse {
    pub model: String,
    pub choices: Vec<OpenAIChatCompletionResponseChoice>,
}

/// The embedding model of a request and the encoding asked of it.
pub struct ModelEmbeddingsConfig {
    pub model: String,
    pub encoding_format: String,
}

impl ModelEmbeddingsConfig {
    /// The settings for `model`: embeddings come as floating-point numbers.
    pub fn default_for(model: &str) -> (c: ModelEmbeddingsConfig)
        ensures
            c.model@ == model@,
            c.encoding_format@ == "float"@,
    {
        ModelEmbeddingsConfig { model: owned(model), encoding_format: owned("float") }
    }
}

pub struct OpenAIEmbeddingsRequest {
    pub model: String,
    pub input: String,
    pub encoding_format: String,
}

impl OpenAIEmbeddingsRequest {
    /// A request for the embedding of `content` with the settings `config`.
    pub fn new(content: &str, config: ModelEmbeddingsConfig) -> (r: OpenAIEmbeddingsRequest)
        ensures
            r.model@ == config.model@,
            r.input@ == content@,
            r.encoding_format@ == config.encoding_format@,
    {
        OpenAIEmbeddingsRequest {
            model: config.model,
            input: owned(content),
            encoding_format: config.encoding_format,
        }
    }
}

} // verus!
