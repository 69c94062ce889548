//! Configuration for Candle embedding models.

use vstd::prelude::*;
use crate::ml::embedding::{EmbeddingOptions, PoolingStrategy as EmbeddingPooling};

verus! {

/// Pooling strategies for embedding generation.
#[derive(Debug, Clone, Copy, PartialEq, Eq, Structural)]
pub enum PoolingStrategy {
    /// Mean pooling of all token embeddings
    Mean,
    /// Max pooling of all token embeddings
    Max,
    /// Use [CLS] token embedding
    Cls,
    /// Use the last token embedding
    Last,
}

impl Default for PoolingStrategy {
    fn default() -> (p: Self)
        ensures
            p == PoolingStrategy::Mean,
    {
        Self::Mean
    }
}

/// Configuration for Candle models.
#[derive(Debug, Clone)]
pub struct CandleConfig {
    /// Model type (e.g., "BERT", "MPNet", "E5")
    pub model_type: String,
    /// Pooling strategy for generating sentence embeddings
    pub pooling_strategy: PoolingStrategy,
    /// Normalize embeddings to unit length
    pub normalize_embeddings: bool,
    /// Use fp16 precision
    pub use_fp16: bool,
    /// Use quantization
    pub use_quantization: bool,
    /// Maximum sequence length to use
    pub max_seq_length: Option<usize>,
    /// Dimension of the embeddings
    pub embedding_dim: Option<usize>,
}

/// The default of a configuration flag that is on unless switched off.
fn default_true() -> (b: bool)
    ensures
        b,
{
    true
}

/// The default of a configuration flag that is off unless switched on.
fn default_false() -> (b: bool)
    ensures
        !b,
{
    false
}

/// Whether `c` is the default configuration: a sentence-transformer with mean
/// pooling and normalized embeddings, no fp16, no quantization, and no fixed
/// sequence length or dimension.
pub open spec fn is_default_config(c: CandleConfig) -> bool {
    &&& c.model_type@ == "sentence-transformer"@
    &&& c.pooling_strategy == PoolingStrategy::Mean
    &&& c.normalize_embeddings
    &&& !c.use_fp16
    &&& !c.use_quantization
    &&& c.max_seq_length is None
    &&& c.embedding_dim is None
}

impl Default for CandleConfig {
    fn default() -> (c: Self)
        ensures
            is_default_config(c),
    {
        Self {
            model_type: String::from_str("sentence-transformer"),
            pooling_strategy: PoolingStrategy::default(),
            normalize_embeddings: default_true(),
            use_fp16: default_false(),
            use_quantization: default_false(),
            max_seq_length: None,
            embedding_dim: None,
        }
    }
}

/// The Candle pooling strategy matching a requested one.
pub open spec fn pooling_for(p: EmbeddingPooling) -> PoolingStrategy {
    match p {
        EmbeddingPooling::Mean => PoolingStrategy::Mean,
        EmbeddingPooling::Max => PoolingStrategy::Max,
        EmbeddingPooling::Cls => PoolingStrategy::Cls,
        EmbeddingPooling::Last => PoolingStrategy::Last,
    }
}

impl CandleConfig {
    /// The pooling strategy a model with this configuration uses for a
    /// request: the requested one when options are given, else its own.
    pub fn get_pooling_strategy(&self, options: Option<&EmbeddingOptions>) -> (p: PoolingStrategy)
        ensures
            p == match options {
                Some(o) => pooling_for(o.pooling),
                None => self.pooling_strategy,
            },
    {
        match options {
            Some(o) => match o.pooling {
                EmbeddingPooling::Mean => PoolingStrategy::Mean,
                EmbeddingPooling::Max => PoolingStrategy::Max,
                EmbeddingPooling::Cls => PoolingStrategy::Cls,
                EmbeddingPooling::Last => PoolingStrategy::Last,
            },
            None => self.pooling_strategy,
        }
    }

    /// Whether a model with this configuration normalizes the embeddings of
    /// a request: as the options say when given, else as configured.
    pub fn should_normalize(&self, options: Option<&EmbeddingOptions>) -> (b: bool)
        ensures
            b == match options {
                Some(o) => o.normalize,
                None => self.normalize_embeddings,
            },
    {
        match options {
            Some(o) => o.normalize,
            None => self.normalize_embeddings,
        }
    }
}

/// Builder for CandleConfig.
pub struct CandleConfigBuilder {
    config: CandleConfig,
}

impl CandleConfigBuilder {
    /// The configuration built so far.
    pub closed spec fn current(&self) -> CandleConfig {
        self.config
    }

    /// Create a new config builder holding the default configuration.
    pub fn new() -> (b: Self)
        ensures
            is_default_config(b.current()),
    {
        Self { config: CandleConfig::default() }
    }

    /// Set the model type.
    pub fn model_type(self, model_type: &str) -> (b: Self)
        ensures
            b.current().model_type@ == model_type@,
            b.current().pooling_strategy == self.current().pooling_strategy,
            b.current().normalize_embeddings == self.current().normalize_embeddings,
            b.current().use_fp16 == self.current().use_fp16,
            b.current().use_quantization == self.current().use_quantization,
            b.current().max_seq_length == self.current().max_seq_length,
            b.current().embedding_dim == self.current().embedding_dim,
    {
        let mut b = self;
        b.config.model_type = String::from_str(model_type);
        b
    }

    /// Set the pooling strategy.
    pub fn pooling_strategy(self, strategy: PoolingStrategy) -> (b: Self)
        ensures
            b.current() == (CandleConfig { pooling_strategy: strategy, ..self.current() }),
    {
        let mut b = self;
        b.config.pooling_strategy = strategy;
        b
    }

    /// Set whether to normalize embeddings.
    pub fn normalize_embeddings(self, normalize: bool) -> (b: Self)
        ensures
            b.current() == (CandleConfig { normalize_embeddings: normalize, ..self.current() }),
    {
        let mut b = self;
        b.config.normalize_embeddings = normalize;
        b
    }

    /// Set whether to use fp16 precision.
    pub fn use_fp16(self, use_fp16: bool) -> (b: Self)
        ensures
            b.current() == (CandleConfig { use_fp16: use_fp16, ..self.current() }),
    {
        let mut b = self;
        b.config.use_fp16 = use_fp16;
        b
    }

    /// Set whether to use quantization.
    pub fn use_quantization(self, use_quantization: bool) -> (b: Self)
        ensures
            b.current() == (CandleConfig { use_quantization: use_quantization, ..self.current() }),
    {
        let mut b = self;
        b.config.use_quantization = use_quantization;
        b
    }

    /// Set the maximum sequence length.
    pub fn max_seq_length(self, length: usize) -> (b: Self)
        ensures
            b.current() == (CandleConfig { max_seq_length: Some(length), ..self.current() }),
    {
        let mut b = self;
        b.config.max_seq_length = Some(length);
        b
    }

    /// Set the embedding dimension.
    pub fn embedding_dim(self, dim: usize) -> (b: Self)
        ensures
            b.current() == (CandleConfig { embedding_dim: Some(dim), ..self.current() }),
    {
        let mut b = self;
        b.config.embedding_dim = Some(dim);
        b
    }

    /// Build the configuration.
    pub fn build(self) -> (c: CandleConfig)
        ensures
            c == self.current(),
    {
        self.config
    }
}

impl Default for CandleConfigBuilder {
    fn default() -> (b: Self)
        ensures
            is_default_config(b.current()),
    {
        Self::new()
    }
}

} // verus!
