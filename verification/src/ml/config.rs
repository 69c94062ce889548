//! Configuration for machine learning models: where a model comes from, how it
//! is cached, and its parameters.

use vstd::prelude::*;
use crate::json::{JsonValue, JsonView};
use crate::text::opt_view;

verus! {

/// Model source options.
#[derive(Debug, Clone, PartialEq, Eq)]
pub enum ModelSource {
    /// Load a model from a local path (to the model directory or file)
    Local { path: String },
    /// Load a model from a remote hub: its identifier (e.g. "BAAI/bge-m3") and
    /// an optional revision or tag
    Remote { model_id: String, revision: Option<String> },
}

/// A model source with its texts as character sequences.
pub enum ModelSourceView {
    Local { path: Seq<char> },
    Remote { model_id: Seq<char>, revision: Option<Seq<char>> },
}

impl View for ModelSource {
    type V = ModelSourceView;

    open spec fn view(&self) -> ModelSourceView {
        match self {
            ModelSource::Local { path } => ModelSourceView::Local { path: path@ },
            ModelSource::Remote { model_id, revision } => ModelSourceView::Remote {
                model_id: model_id@,
                revision: opt_view(*revision),
            },
        }
    }
}

/// Caching configuration for models.
#[derive(Debug, Clone, PartialEq, Eq)]
pub struct CacheConfig {
    /// Whether caching is enabled
    pub enabled: bool,
    /// Directory to use for caching
    pub cache_dir: Option<String>,
    /// Maximum cache size in bytes
    pub max_cache_size: Option<u64>,
}

/// Configuration for a machine learning model.
#[derive(Debug)]
pub struct ModelConfig {
    /// Unique model identifier
    pub model_id: String,
    /// Human-readable model name
    pub name: String,
    /// Model source information
    pub source: ModelSource,
    /// Caching configuration
    pub cache: CacheConfig,
    /// Model dimensions
    pub dimensions: Option<usize>,
    /// Maximum sequence length
    pub max_seq_length: Option<usize>,
    /// Device to run the model on (e.g., "cpu", "cuda")
    pub device: Option<String>,
    /// Additional model-specific parameters
    pub parameters: JsonValue,
}

/// A model configuration with its texts and values as views.
pub struct ModelConfigView {
    pub model_id: Seq<char>,
    pub name: Seq<char>,
    pub source: ModelSourceView,
    pub cache_enabled: bool,
    pub cache_dir: Option<Seq<char>>,
    pub max_cache_size: Option<u64>,
    pub dimensions: Option<usize>,
    pub max_seq_length: Option<usize>,
    pub device: Option<Seq<char>>,
    pub parameters: JsonView,
}

impl View for ModelConfig {
    type V = ModelConfigView;

    open spec fn view(&self) -> ModelConfigView {
        ModelConfigView {
            model_id: self.model_id@,
            name: self.name@,
            source: self.source@,
            cache_enabled: self.cache.enabled,
            cache_dir: opt_view(self.cache.cache_dir),
            max_cache_size: self.cache.max_cache_size,
            dimensions: self.dimensions,
            max_seq_length: self.max_seq_length,
            device: opt_view(self.device),
            parameters: self.parameters@,
        }
    }
}

/// The default model configuration: `BAAI/bge-m3` from the hub, cached, on
/// the CPU, without parameters.
pub open spec fn default_model_config() -> ModelConfigView {
    ModelConfigView {
        model_id: "default"@,
        name: "Default Model"@,
        source: ModelSourceView::Remote { model_id: "BAAI/bge-m3"@, revision: None },
        cache_enabled: true,
        cache_dir: None,
        max_cache_size: None,
        dimensions: None,
        max_seq_length: None,
        device: Some("cpu"@),
        parameters: JsonView::Object(Seq::empty()),
    }
}

impl Default for ModelConfig {
    fn default() -> (c: Self)
        ensures
            c@ == default_model_config(),
    {
        let c = ModelConfig {
            model_id: String::from_str("default"),
            name: String::from_str("Default Model"),
            source: ModelSource::Remote { model_id: String::from_str("BAAI/bge-m3"), revision: None },
            cache: CacheConfig { enabled: true, cache_dir: None, max_cache_size: None },
            dimensions: None,
            max_seq_length: None,
            device: Some(String::from_str("cpu")),
            parameters: JsonValue::Object(Vec::new()),
        };
        assert(c@.parameters->Object_0 =~= Seq::<(Seq<char>, JsonView)>::empty());
        c
    }
}

/// Builder for model configuration.
pub struct ModelConfigBuilder {
    config: ModelConfig,
}

impl View for ModelConfigBuilder {
    type V = ModelConfigView;

    /// The configuration under construction.
    closed spec fn view(&self) -> ModelConfigView {
        self.config@
    }
}

impl ModelConfigBuilder {
    /// Create a new model configuration builder, starting from the default.
    pub fn new() -> (b: Self)
        ensures
            b@ == default_model_config(),
    {
        ModelConfigBuilder { config: ModelConfig::default() }
    }

    /// Set the model ID.
    pub fn model_id(self, model_id: &str) -> (b: Self)
        ensures
            b@ == (ModelConfigView { model_id: model_id@, ..self@ }),
    {
        let mut b = self;
        b.config.model_id = String::from_str(model_id);
        b
    }

    /// Set the model name.
    pub fn name(self, name: &str) -> (b: Self)
        ensures
            b@ == (ModelConfigView { name: name@, ..self@ }),
    {
        let mut b = self;
        b.config.name = String::from_str(name);
        b
    }

    /// Set the model source to a local path.
    pub fn local_source(self, path: &str) -> (b: Self)
        ensures
            b@ == (ModelConfigView { source: ModelSourceView::Local { path: path@ }, ..self@ }),
    {
        let mut b = self;
        b.config.source = ModelSource::Local { path: String::from_str(path) };
        b
    }

    /// Set the model source to a remote model.
    pub fn remote_source(self, model_id: &str, revision: Option<String>) -> (b: Self)
        ensures
            b@ == (ModelConfigView {
                source: ModelSourceView::Remote { model_id: model_id@, revision: opt_view(revision) },
                ..self@
            }),
    {
        let mut b = self;
        b.config.source = ModelSource::Remote { model_id: String::from_str(model_id), revision };
        b
    }

    /// Enable or disable caching.
    pub fn cache_enabled(self, enabled: bool) -> (b: Self)
        ensures
            b@ == (ModelConfigView { cache_enabled: enabled, ..self@ }),
    {
        let mut b = self;
        b.config.cache.enabled = enabled;
        b
    }

    /// Set the cache directory.
    pub fn cache_dir(self, dir: &str) -> (b: Self)
        ensures
            b@ == (ModelConfigView { cache_dir: Some(dir@), ..self@ }),
    {
        let mut b = self;
        b.config.cache.cache_dir = Some(String::from_str(dir));
        b
    }

    /// Set the maximum cache size in bytes.
    pub fn max_cache_size(self, size: u64) -> (b: Self)
        ensures
            b@ == (ModelConfigView { max_cache_size: Some(size), ..self@ }),
    {
        let mut b = self;
        b.config.cache.max_cache_size = Some(size);
        b
    }

    /// Set the embedding dimensions.
    pub fn dimensions(self, dimensions: usize) -> (b: Self)
        ensures
            b@ == (ModelConfigView { dimensions: Some(dimensions), ..self@ }),
    {
        let mut b = self;
        b.config.dimensions = Some(dimensions);
        b
    }

    /// Set the maximum sequence length.
    pub fn max_seq_length(self, length: usize) -> (b: Self)
        ensures
            b@ == (ModelConfigView { max_seq_length: Some(length), ..self@ }),
    {
        let mut b = self;
        b.config.max_seq_length = Some(length);
        b
    }

    /// Set the device to run the model on.
    pub fn device(self, device: &str) -> (b: Self)
        ensures
            b@ == (ModelConfigView { device: Some(device@), ..self@ }),
    {
        let mut b = self;
        b.config.device = Some(String::from_str(device));
        b
    }

    /// Set additional model parameters.
    pub fn parameters(self, parameters: JsonValue) -> (b: Self)
        ensures
            b@ == (ModelConfigView { parameters: parameters@, ..self@ }),
    {
        let mut b = self;
        b.config.parameters = parameters;
        b
    }

    /// Build the model configuration.
    pub fn build(self) -> (c: ModelConfig)
        ensures
            c@ == self@,
    {
        self.config
    }
}

impl Default for ModelConfigBuilder {
    fn default() -> (b: Self)
        ensures
            b@ == default_model_config(),
    {
        Self::new()
    }
}

} // verus!
