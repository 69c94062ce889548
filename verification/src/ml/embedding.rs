//! Embedding model metadata and options.

use vstd::prelude::*;
use crate::ml::tokenizer::TokenizerOptions;

verus! {

/// Model metadata with information about capabilities and dimensions.
#[derive(Debug, Clone)]
pub struct ModelMetadata {
    /// Model name
    pub name: String,
    /// Model identifier
    pub model_id: String,
    /// Model version or revision
    pub version: Option<String>,
    /// Embedding vector dimensions
    pub dimensions: usize,
    /// Maximum sequence length
    pub max_seq_length: Option<usize>,
    /// Model description
    pub description: Option<String>,
    /// License information
    pub license: Option<String>,
    /// Additional model capabilities
    pub capabilities: Vec<String>,
}

/// Pooling strategy for combining token embeddings.
#[derive(Debug, Clone, Copy, PartialEq, Eq, Structural)]
pub enum PoolingStrategy {
    /// Use mean pooling (average of all token embeddings)
    Mean,
    /// Use max pooling (element-wise maximum)
    Max,
    /// Use the embedding of the CLS token
    Cls,
    /// Use the embedding of the last token
    Last,
}

/// Options for embedding generation.
#[derive(Debug, Clone, Copy, PartialEq, Eq, Structural)]
pub struct EmbeddingOptions {
    /// Normalize the embedding vectors to unit length
    pub normalize: bool,
    /// Tokenizer options to use
    pub tokenizer_options: Option<TokenizerOptions>,
    /// Pooling strategy to use for token embeddings
    pub pooling: PoolingStrategy,
}

impl Default for EmbeddingOptions {
    /// Normalized, default tokenizer options, mean pooling.
    fn default() -> (o: Self)
        ensures
            o == (EmbeddingOptions { normalize: true, tokenizer_options: None, pooling: PoolingStrategy::Mean }),
    {
        EmbeddingOptions { normalize: true, tokenizer_options: None, pooling: PoolingStrategy::Mean }
    }
}

} // verus!
