//! Builder for the configuration of Candle embedding models.

use vstd::prelude::*;
use crate::json::{JsonValue, JsonView};
use crate::ml::config::{CacheConfig, ModelConfig, ModelConfigView, ModelSource, ModelSourceView};
use super::config::{is_default_config, CandleConfig, PoolingStrategy};

verus! {

/// Builder for creating Candle embedding models: the model configuration,
/// the Candle-specific configuration, and an optional cache directory.
pub struct CandleModelBuilder {
    /// The model configuration
    pub model_config: ModelConfig,
    /// Candle-specific configuration
    pub candle_config: CandleConfig,
    /// Optional cache directory
    pub cache_dir: Option<String>,
}

/// The model configuration a new builder starts from: no model yet, the name
/// `Candle Embedding Model`, a remote source without identifier or revision,
/// caching enabled without a directory or limit, the CPU, and no parameters.
pub open spec fn initial_model_config() -> ModelConfigView {
    ModelConfigView {
        model_id: Seq::empty(),
        name: "Candle Embedding Model"@,
        source: ModelSourceView::Remote { model_id: Seq::empty(), revision: None },
        cache_enabled: true,
        cache_dir: None,
        max_cache_size: None,
        dimensions: None,
        max_seq_length: None,
        device: Some("cpu"@),
        parameters: JsonView::Object(Seq::empty()),
    }
}

impl CandleModelBuilder {
    /// Create a new builder.
    pub fn new() -> (b: Self)
        ensures
            b.model_config@ == initial_model_config(),
            is_default_config(b.candle_config),
            b.cache_dir is None,
    {
        let model_config = ModelConfig {
            model_id: String::from_str(""),
            name: String::from_str("Candle Embedding Model"),
            source: ModelSource::Remote { model_id: String::from_str(""), revision: None },
            cache: CacheConfig { enabled: true, cache_dir: None, max_cache_size: None },
            dimensions: None,
            max_seq_length: None,
            device: Some(String::from_str("cpu")),
            parameters: JsonValue::Object(Vec::new()),
        };
        proof {
            reveal_strlit("");
        }
        assert(model_config@.parameters->Object_0 =~= Seq::<(Seq<char>, JsonView)>::empty());
        assert(model_config@.model_id =~= Seq::<char>::empty());
        assert(model_config@.source->Remote_model_id =~= Seq::<char>::empty());
        Self { model_config, candle_config: CandleConfig::default(), cache_dir: None }
    }

    /// Use the hub model `model_id`: it becomes the model's identifier and
    /// remote source (without revision), and the name becomes `Candle ` followed
    /// by it.
    pub fn with_model(self, model_id: &str) -> (b: Self)
        ensures
            b.model_config@ == (ModelConfigView {
                model_id: model_id@,
                name: "Candle "@ + model_id@,
                source: ModelSourceView::Remote { model_id: model_id@, revision: None },
                ..self.model_config@
            }),
            b.candle_config == self.candle_config,
            b.cache_dir == self.cache_dir,
    {
        let mut b = self;
        b.model_config.model_id = String::from_str(model_id);
        b.model_config.name = String::from_str("Candle ").concat(model_id);
        b.model_config.source = ModelSource::Remote { model_id: String::from_str(model_id), revision: None };
        b
    }

    /// Set the model name.
    pub fn name(self, name: &str) -> (b: Self)
        ensures
            b.model_config@ == (ModelConfigView { name: name@, ..self.model_config@ }),
            b.candle_config == self.candle_config,
            b.cache_dir == self.cache_dir,
    {
        let mut b = self;
        b.model_config.name = String::from_str(name);
        b
    }

    /// Set the model source to a local path.
    pub fn local_path(self, path: &str) -> (b: Self)
        ensures
            b.model_config@ == (ModelConfigView {
                source: ModelSourceView::Local { path: path@ },
                ..self.model_config@
            }),
            b.candle_config == self.candle_config,
            b.cache_dir == self.cache_dir,
    {
        let mut b = self;
        b.model_config.source = ModelSource::Local { path: String::from_str(path) };
        b
    }

    /// Set the model source to a remote identifier and revision.
    pub fn remote_id(self, model_id: &str, revision: Option<String>) -> (b: Self)
        ensures
            b.model_config@ == (ModelConfigView {
                source: ModelSourceView::Remote {
                    model_id: model_id@,
                    revision: crate::text::opt_view(revision),
                },
                ..self.model_config@
            }),
            b.candle_config == self.candle_config,
            b.cache_dir == self.cache_dir,
    {
        let mut b = self;
        b.model_config.source = ModelSource::Remote { model_id: String::from_str(model_id), revision };
        b
    }

    /// Set the cache directory.
    pub fn cache_dir(self, dir: &str) -> (b: Self)
        ensures
            b.model_config@ == self.model_config@,
            b.candle_config == self.candle_config,
            b.cache_dir matches Some(d) && d@ == dir@,
    {
        let mut b = self;
        b.cache_dir = Some(String::from_str(dir));
        b
    }

    /// Set the model type.
    pub fn model_type(self, model_type: &str) -> (b: Self)
        ensures
            b.model_config@ == self.model_config@,
            b.candle_config == (CandleConfig { model_type: b.candle_config.model_type, ..self.candle_config }),
            b.candle_config.model_type@ == model_type@,
            b.cache_dir == self.cache_dir,
    {
        let mut b = self;
        b.candle_config.model_type = String::from_str(model_type);
        b
    }

    /// Set the pooling strategy.
    pub fn pooling_strategy(self, strategy: PoolingStrategy) -> (b: Self)
        ensures
            b.model_config@ == self.model_config@,
            b.candle_config == (CandleConfig { pooling_strategy: strategy, ..self.candle_config }),
            b.cache_dir == self.cache_dir,
    {
        let mut b = self;
        b.candle_config.pooling_strategy = strategy;
        b
    }

    /// Set whether to normalize embeddings.
    pub fn with_normalize(self, normalize: bool) -> (b: Self)
        ensures
            b.model_config@ == self.model_config@,
            b.candle_config == (CandleConfig { normalize_embeddings: normalize, ..self.candle_config }),
            b.cache_dir == self.cache_dir,
    {
        let mut b = self;
        b.candle_config.normalize_embeddings = normalize;
        b
    }

    /// Set whether to use half precision (fp16).
    pub fn use_fp16(self, use_fp16: bool) -> (b: Self)
        ensures
            b.model_config@ == self.model_config@,
            b.candle_config == (CandleConfig { use_fp16: use_fp16, ..self.candle_config }),
            b.cache_dir == self.cache_dir,
    {
        let mut b = self;
        b.candle_config.use_fp16 = use_fp16;
        b
    }

    /// Set whether to use quantization.
    pub fn use_quantization(self, use_quantization: bool) -> (b: Self)
        ensures
            b.model_config@ == self.model_config@,
            b.candle_config == (CandleConfig { use_quantization: use_quantization, ..self.candle_config }),
            b.cache_dir == self.cache_dir,
    {
        let mut b = self;
        b.candle_config.use_quantization = use_quantization;
        b
    }

    /// Set the maximum sequence length, in both configurations.
    pub fn max_seq_length(self, length: usize) -> (b: Self)
        ensures
            b.model_config@ == (ModelConfigView { max_seq_length: Some(length), ..self.model_config@ }),
            b.candle_config == (CandleConfig { max_seq_length: Some(length), ..self.candle_config }),
            b.cache_dir == self.cache_dir,
    {
        let mut b = self;
        b.candle_config.max_seq_length = Some(length);
        b.model_config.max_seq_length = Some(length);
        b
    }

    /// Set the embedding dimension, in both configurations.
    pub fn embedding_dim(self, dim: usize) -> (b: Self)
        ensures
            b.model_config@ == (ModelConfigView { dimensions: Some(dim), ..self.model_config@ }),
            b.candle_config == (CandleConfig { embedding_dim: Some(dim), ..self.candle_config }),
            b.cache_dir == self.cache_dir,
    {
        let mut b = self;
        b.candle_config.embedding_dim = Some(dim);
        b.model_config.dimensions = Some(dim);
        b
    }

    /// The cache directory a build uses: the builder's own, else the model
    /// configuration's, else none (the platform's default cache is then
    /// chosen by the caller).
    pub fn resolved_cache_dir(&self) -> (r: Option<String>)
        ensures
            crate::text::opt_view(r) == (if self.cache_dir is Some {
                crate::text::opt_view(self.cache_dir)
            } else {
                self.model_config@.cache_dir
            }),
    {
        match &self.cache_dir {
            Some(d) => Some(d.clone()),
            None => match &self.model_config.cache.cache_dir {
                Some(d) => Some(d.clone()),
                None => None,
            },
        }
    }
}

} // verus!
