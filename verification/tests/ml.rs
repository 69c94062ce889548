use locai::ml::candle::config::{CandleConfig, CandleConfigBuilder, PoolingStrategy};
use locai::ml::error::MLError;

#[test]
fn config_test_default_config() {
    let config = CandleConfig::default();

    assert_eq!(config.model_type, "sentence-transformer");
    assert_eq!(config.pooling_strategy, PoolingStrategy::Mean);
    assert!(config.normalize_embeddings);
    assert!(!config.use_fp16);
    assert!(!config.use_quantization);
    assert!(config.max_seq_length.is_none());
    assert!(config.embedding_dim.is_none());
}

#[test]
fn test_config_builder() {
    let config = CandleConfigBuilder::new()
        .model_type("BERT")
        .pooling_strategy(PoolingStrategy::Cls)
        .normalize_embeddings(false)
        .use_fp16(true)
        .max_seq_length(128)
        .embedding_dim(768)
        .build();

    assert_eq!(config.model_type, "BERT");
    assert_eq!(config.pooling_strategy, PoolingStrategy::Cls);
    assert!(!config.normalize_embeddings);
    assert!(config.use_fp16);
    assert!(!config.use_quantization);
    assert_eq!(config.max_seq_length, Some(128));
    assert_eq!(config.embedding_dim, Some(768));
}

#[test]
fn test_pooling_strategy_default() {
    assert_eq!(PoolingStrategy::default(), PoolingStrategy::Mean);
}

#[test]
fn test_error_display() {
    let error = MLError::ModelLoading("test error".to_string());
    assert_eq!(error.to_string(), "Failed to load model: test error");

    let error = MLError::Tokenization("tokenizer failed".to_string());
    assert_eq!(error.to_string(), "Tokenization error: tokenizer failed");

    let error = MLError::Embedding("embedding failed".to_string());
    assert_eq!(error.to_string(), "Embedding error: embedding failed");

    let error = MLError::ModelNotFound("model-123".to_string());
    assert_eq!(error.to_string(), "Model not found: model-123");
}

#[test]
fn test_error_factory_methods() {
    let error = MLError::model_loading("test error");
    assert!(matches!(error, MLError::ModelLoading(_)));

    let error = MLError::tokenization("tokenizer failed");
    assert!(matches!(error, MLError::Tokenization(_)));

    let error = MLError::embedding("embedding failed");
    assert!(matches!(error, MLError::Embedding(_)));

    let error = MLError::initialization("init failed");
    assert!(matches!(error, MLError::Initialization(_)));

    let error = MLError::configuration("config error");
    assert!(matches!(error, MLError::Configuration(_)));

    let error = MLError::model_not_found("model-123");
    assert!(matches!(error, MLError::ModelNotFound(_)));

    let error = MLError::registry("registry error");
    assert!(matches!(error, MLError::Registry(_)));

    let error = MLError::other("unexpected error");
    assert!(matches!(error, MLError::Other(_)));
}

#[test]
fn test_io_error_conversion() {
    let io_error = std::io::Error::new(std::io::ErrorKind::NotFound, "file not found");
    let ml_error = MLError::from(io_error);
    assert!(matches!(ml_error, MLError::IO(_)));
}

use locai::json::JsonValue;
use locai::ml::config::{ModelConfig, ModelConfigBuilder, ModelSource};
use locai::ml::model_manager::{EmbeddingManager, EmbeddingManagerBuilder};
use locai::ml::utils::{available_backends, has_embedding_support, providers_for_dimension};
use locai::time::F32Bits;

fn bits(v: &[f32]) -> Vec<F32Bits> {
    v.iter().map(|x| F32Bits { bits: x.to_bits() }).collect()
}

#[test]
fn test_model_config_default() {
    let config = ModelConfig::default();

    assert_eq!(config.model_id, "default");
    assert_eq!(config.name, "Default Model");

    match config.source {
        ModelSource::Remote { model_id, revision } => {
            assert_eq!(model_id, "BAAI/bge-m3");
            assert!(revision.is_none());
        }
        _ => panic!("Expected Remote source"),
    }

    assert!(config.cache.enabled);
    assert!(config.cache.cache_dir.is_none());
    assert!(config.cache.max_cache_size.is_none());

    assert!(config.dimensions.is_none());
    assert!(config.max_seq_length.is_none());
    assert_eq!(config.device, Some("cpu".to_string()));

    assert!(config.parameters.equals(&JsonValue::Object(Vec::new())));
}

#[test]
fn test_model_config_builder() {
    let parameters = JsonValue::Object(vec![
        ("precision".to_string(), JsonValue::String("fp16".to_string())),
        ("quantized".to_string(), JsonValue::Bool(true)),
    ]);
    let config = ModelConfigBuilder::new()
        .model_id("test-model")
        .name("Test Model")
        .remote_source("org/model-name", Some("v1.0".to_string()))
        .cache_enabled(false)
        .dimensions(768)
        .max_seq_length(512)
        .device("cuda")
        .parameters(parameters)
        .build();

    assert_eq!(config.model_id, "test-model");
    assert_eq!(config.name, "Test Model");

    match config.source {
        ModelSource::Remote { model_id, revision } => {
            assert_eq!(model_id, "org/model-name");
            assert_eq!(revision, Some("v1.0".to_string()));
        }
        _ => panic!("Expected Remote source"),
    }

    assert_eq!(config.cache.enabled, false);
    assert_eq!(config.dimensions, Some(768));
    assert_eq!(config.max_seq_length, Some(512));
    assert_eq!(config.device, Some("cuda".to_string()));

    assert!(matches!(config.parameters.get("quantized"), Some(JsonValue::Bool(true))));
    assert_eq!(config.parameters.get("precision").unwrap().as_str(), Some("fp16"));
}

#[test]
fn test_local_source_config() {
    let config = ModelConfigBuilder::new().model_id("local-model").local_source("/path/to/model").build();

    match config.source {
        ModelSource::Local { path } => {
            assert_eq!(path, "/path/to/model");
        }
        _ => panic!("Expected Local source"),
    }
}

#[test]
fn test_cache_configuration() {
    let config = ModelConfigBuilder::new()
        .cache_enabled(true)
        .cache_dir("/tmp/model_cache")
        .max_cache_size(1024 * 1024 * 100)
        .build();

    assert!(config.cache.enabled);
    assert_eq!(config.cache.cache_dir, Some("/tmp/model_cache".to_string()));
    assert_eq!(config.cache.max_cache_size, Some(104857600));
}

#[test]
fn test_basic_validation() {
    let manager = EmbeddingManager::new();

    let embedding = bits(&[1.0, 2.0, 3.0]);
    assert!(manager.validate_embedding(&embedding).is_ok());

    let empty_embedding: Vec<F32Bits> = vec![];
    assert!(manager.validate_embedding(&empty_embedding).is_err());

    let invalid_embedding = bits(&[1.0, f32::NAN, 3.0]);
    assert!(manager.validate_embedding(&invalid_embedding).is_err());
}

#[test]
fn test_dimension_validation() {
    let manager = EmbeddingManager::with_expected_dimensions(3);

    let embedding = bits(&[1.0, 2.0, 3.0]);
    assert!(manager.validate_embedding(&embedding).is_ok());

    let wrong_embedding = bits(&[1.0, 2.0]);
    assert!(manager.validate_embedding(&wrong_embedding).is_err());
}

#[test]
fn test_common_dimensions() {
    let manager = EmbeddingManager::new();

    assert!(manager.is_valid_dimension(&bits(&vec![0.0; 1536])));
    assert!(manager.is_valid_dimension(&bits(&vec![0.0; 1024])));
    assert!(manager.is_valid_dimension(&bits(&vec![0.0; 384])));

    assert!(!manager.is_valid_dimension(&bits(&vec![0.0; 999])));
}

#[test]
fn test_provider_suggestions() {
    let manager = EmbeddingManager::new();

    let openai_embedding = bits(&vec![0.0; 1536]);
    let suggestions = manager.suggested_providers(&openai_embedding);
    assert!(suggestions.contains(&"OpenAI text-embedding-3-small"));
}

#[test]
fn embedding_validation_messages() {
    let manager = EmbeddingManagerBuilder::new().expected_dimensions(2).build();
    assert_eq!(manager.expected_dimensions(), Some(2));
    let e = manager.validate_embedding(&bits(&[1.0])).unwrap_err();
    assert_eq!(e.to_string(), "Embedding error: Expected embedding dimension 2, got 1");
    let e = manager.validate_embedding(&bits(&[f32::NEG_INFINITY, f32::NAN])).unwrap_err();
    assert_eq!(e.to_string(), "Embedding error: Invalid value at index 0: -inf");
    let e = manager.validate_embedding(&bits(&[0.5, f32::INFINITY])).unwrap_err();
    assert_eq!(e.to_string(), "Embedding error: Invalid value at index 1: inf");
    let e = EmbeddingManager::new().validate_embedding(&[]).unwrap_err();
    assert_eq!(e.to_string(), "Embedding error: Embedding cannot be empty");
    assert!(has_embedding_support());
    assert_eq!(available_backends(), vec!["byoe"]);
    assert_eq!(providers_for_dimension(7), vec!["Custom provider"]);
}

use locai::ml::candle::builder::CandleModelBuilder;
use locai::ml::candle::tokenizer::{combine_encodings, detect_tokenizer_format, pad_to_longest, TokenizerFormat};

#[test]
fn test_model_builder() {
    let builder = CandleModelBuilder::new()
        .with_model("BAAI/bge-small-en")
        .name("Test Model")
        .cache_dir("/tmp/models")
        .pooling_strategy(PoolingStrategy::Mean)
        .with_normalize(true)
        .embedding_dim(384);

    let model_config = builder.model_config;
    let candle_config = builder.candle_config;

    assert_eq!(model_config.name, "Test Model");
    assert_eq!(model_config.dimensions, Some(384));

    assert_eq!(candle_config.pooling_strategy, PoolingStrategy::Mean);
    assert!(candle_config.normalize_embeddings);
    assert_eq!(candle_config.embedding_dim, Some(384));
}

#[test]
fn test_model_builder_configuration() {
    let builder = CandleModelBuilder::new()
        .with_model("test/model")
        .name("Test Embedding Model")
        .cache_dir("/tmp/models")
        .pooling_strategy(PoolingStrategy::Cls)
        .with_normalize(true)
        .use_fp16(true)
        .max_seq_length(256)
        .embedding_dim(768);

    assert_eq!(builder.model_config.name, "Test Embedding Model");
    assert_eq!(builder.model_config.dimensions, Some(768));
    assert_eq!(builder.model_config.max_seq_length, Some(256));

    assert_eq!(builder.candle_config.pooling_strategy, PoolingStrategy::Cls);
    assert!(builder.candle_config.normalize_embeddings);
    assert!(builder.candle_config.use_fp16);
    assert_eq!(builder.candle_config.max_seq_length, Some(256));
    assert_eq!(builder.candle_config.embedding_dim, Some(768));

    match &builder.model_config.source {
        ModelSource::Remote { model_id, revision } => {
            assert_eq!(model_id, "test/model");
            assert!(revision.is_none());
        }
        _ => panic!("Expected Remote source"),
    }
}

#[test]
fn model_builder_names_the_model_and_resolves_the_cache() {
    let builder = CandleModelBuilder::new();
    assert_eq!(builder.model_config.name, "Candle Embedding Model");
    assert_eq!(builder.model_config.device, Some("cpu".to_string()));
    assert_eq!(builder.resolved_cache_dir(), None);
    let builder = builder.with_model("org/model");
    assert_eq!(builder.model_config.name, "Candle org/model");
    assert_eq!(builder.model_config.model_id, "org/model");
    let builder = builder.local_path("/models/m").model_type("bert").use_quantization(true);
    assert_eq!(builder.model_config.source, ModelSource::Local { path: "/models/m".to_string() });
    assert_eq!(builder.candle_config.model_type, "bert");
    assert!(builder.candle_config.use_quantization);
    let builder = builder.remote_id("org/other", Some("v2".to_string()));
    assert_eq!(
        builder.model_config.source,
        ModelSource::Remote { model_id: "org/other".to_string(), revision: Some("v2".to_string()) }
    );
    assert_eq!(builder.cache_dir("/c").resolved_cache_dir(), Some("/c".to_string()));
}

fn names(list: &[&str]) -> Vec<String> {
    list.iter().map(|s| s.to_string()).collect()
}

#[test]
fn tokenizer_format_prefers_tokenizer_json() {
    let files = names(&["vocab.txt", "tokenizer.json", "tokenizer_config.json", "vocab.json", "merges.txt"]);
    assert_eq!(
        detect_tokenizer_format("m", &files).unwrap(),
        TokenizerFormat::Modern {
            tokenizer_file: "tokenizer.json".to_string(),
            config_file: Some("tokenizer_config.json".to_string()),
            special_tokens_file: None,
        }
    );
}

#[test]
fn tokenizer_format_falls_back_in_order() {
    let bpe = names(&["merges.txt", "vocab.json", "special_tokens_map.json", "spm.model"]);
    assert_eq!(
        detect_tokenizer_format("m", &bpe).unwrap(),
        TokenizerFormat::Bpe {
            vocab_file: "vocab.json".to_string(),
            merges_file: "merges.txt".to_string(),
            config_file: None,
            special_tokens_file: Some("special_tokens_map.json".to_string()),
        }
    );
    let spm = names(&["vocab.json", "a.model", "b.model", "vocab.txt"]);
    assert_eq!(
        detect_tokenizer_format("m", &spm).unwrap(),
        TokenizerFormat::SentencePiece { model_file: "a.model".to_string(), config_file: None, special_tokens_file: None }
    );
    let bert = names(&["vocab.txt", "config.json"]);
    assert_eq!(
        detect_tokenizer_format("m", &bert).unwrap(),
        TokenizerFormat::BertLegacy { vocab_file: "vocab.txt".to_string(), config_file: None, special_tokens_file: None }
    );
}

#[test]
fn tokenizer_format_unknown_is_an_error() {
    let files = names(&["config.json", "model.safetensors"]);
    match detect_tokenizer_format("org/m", &files) {
        Err(MLError::Tokenization(msg)) => assert_eq!(
            msg,
            "Could not detect tokenizer format for model: org/m. Available files: [\"config.json\", \"model.safetensors\"]. \
             Supported formats: tokenizer.json (modern), vocab.json+merges.txt (BPE), *.model (SentencePiece), vocab.txt (BERT legacy)"
        ),
        other => panic!("unexpected {:?}", other),
    }
}

#[test]
fn batch_is_padded_to_the_longest() {
    let r = pad_to_longest(vec![vec![1, 2, 3], vec![4]], vec![vec![1, 1, 1], vec![1]], Some(9));
    assert_eq!(r.token_ids, vec![vec![1, 2, 3], vec![4, 9, 9]]);
    assert_eq!(r.attention_mask, vec![vec![1, 1, 1], vec![1, 0, 0]]);
    let r = pad_to_longest(vec![vec![5], vec![6, 7]], vec![vec![1], vec![1, 1]], None);
    assert_eq!(r.token_ids, vec![vec![5, 0], vec![6, 7]]);
    assert_eq!(r.attention_mask, vec![vec![1, 0], vec![1, 1]]);
    let empty = pad_to_longest(Vec::new(), Vec::new(), None);
    assert!(empty.token_ids.is_empty() && empty.attention_mask.is_empty());
}

#[test]
fn encodings_are_combined_and_cut() {
    let one = combine_encodings(vec![vec![1; 600]], vec![vec![1; 600]]);
    assert_eq!(one.token_ids[0].len(), 600);
    let two = combine_encodings(vec![vec![1, 2], vec![3]], vec![vec![1, 1], vec![1]]);
    assert_eq!(two.token_ids, vec![vec![1, 2, 3]]);
    assert_eq!(two.attention_mask, vec![vec![1, 1, 1]]);
    let long = combine_encodings(vec![vec![7; 300], vec![8; 300]], vec![vec![1; 300], vec![1; 300]]);
    assert_eq!(long.token_ids[0].len(), 512);
    assert_eq!(long.attention_mask[0].len(), 512);
    assert_eq!(long.token_ids[0][511], 8);
    let none = combine_encodings(Vec::new(), Vec::new());
    assert!(none.token_ids.is_empty());
}

use locai::ml::embedding::{EmbeddingOptions, PoolingStrategy as EmbeddingPoolingStrategy};

fn mock_candle_config() -> CandleConfig {
    CandleConfig {
        model_type: "mock".to_string(),
        pooling_strategy: PoolingStrategy::Mean,
        normalize_embeddings: true,
        use_fp16: false,
        use_quantization: false,
        max_seq_length: Some(128),
        embedding_dim: Some(4),
    }
}

#[test]
fn test_pooling_strategy_conversion() {
    let config = mock_candle_config();
    let test_cases = vec![
        (EmbeddingPoolingStrategy::Mean, PoolingStrategy::Mean),
        (EmbeddingPoolingStrategy::Max, PoolingStrategy::Max),
        (EmbeddingPoolingStrategy::Cls, PoolingStrategy::Cls),
        (EmbeddingPoolingStrategy::Last, PoolingStrategy::Last),
    ];
    for (input, expected) in test_cases {
        let options = EmbeddingOptions { normalize: true, tokenizer_options: None, pooling: input };
        let result = config.get_pooling_strategy(Some(&options));
        assert_eq!(result, expected);
    }
    let default_result = config.get_pooling_strategy(None);
    assert_eq!(default_result, PoolingStrategy::Mean);
}

#[test]
fn test_normalization_flag() {
    let config = mock_candle_config();
    let options1 = EmbeddingOptions { normalize: true, tokenizer_options: None, pooling: EmbeddingPoolingStrategy::Mean };
    let options2 = EmbeddingOptions { normalize: false, tokenizer_options: None, pooling: EmbeddingPoolingStrategy::Mean };
    assert!(config.should_normalize(Some(&options1)));
    assert!(!config.should_normalize(Some(&options2)));
    assert!(config.should_normalize(None));
}
