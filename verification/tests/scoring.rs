use locai::search::calculator::ScoreCalculator;
use locai::search::scoring::{DecayFunction, ScoringConfig};
use locai::time::F32Bits;

fn f(x: F32Bits) -> f32 {
    f32::from_bits(x.bits)
}

fn bits(x: f32) -> F32Bits {
    F32Bits { bits: x.to_bits() }
}

#[test]
fn test_default_config() {
    let config = ScoringConfig::default();
    assert_eq!(f(config.bm25_weight), 1.0);
    assert_eq!(f(config.vector_weight), 1.0);
    assert_eq!(f(config.recency_boost), 0.5);
    assert_eq!(f(config.access_boost), 0.3);
    assert_eq!(f(config.priority_boost), 0.2);
    assert_eq!(config.decay_function, DecayFunction::Exponential);
    assert_eq!(f(config.decay_rate), 0.1);
}

#[test]
fn test_validate_valid_config() {
    let config = ScoringConfig::default();
    assert!(config.validate().is_ok());
}

#[test]
fn test_validate_negative_bm25() {
    let config = ScoringConfig { bm25_weight: bits(-1.0), ..Default::default() };
    assert!(config.validate().is_err());
}

#[test]
fn test_validate_negative_decay_rate() {
    let config = ScoringConfig { decay_rate: bits(0.0), ..Default::default() };
    assert!(config.validate().is_err());
}

#[test]
fn test_recency_focused() {
    let config = ScoringConfig::recency_focused();
    assert!(f(config.recency_boost) > 1.0);
    assert!(f(config.decay_rate) > 0.1);
}

#[test]
fn test_semantic_focused() {
    let config = ScoringConfig::semantic_focused();
    assert!(f(config.vector_weight) > f(config.bm25_weight));
}

#[test]
fn test_importance_focused() {
    let config = ScoringConfig::importance_focused();
    assert!(f(config.access_boost) > 0.5);
    assert!(f(config.priority_boost) > 0.5);
}

#[test]
fn test_has_any_boosts() {
    let config = ScoringConfig {
        recency_boost: bits(0.0),
        access_boost: bits(0.0),
        priority_boost: bits(0.0),
        ..Default::default()
    };
    assert!(!config.has_any_boosts());

    let config = ScoringConfig {
        recency_boost: bits(0.1),
        access_boost: bits(0.0),
        priority_boost: bits(0.0),
        ..Default::default()
    };
    assert!(config.has_any_boosts());
}

#[test]
fn test_calculator_creation() {
    let config = ScoringConfig::default();
    let calc = ScoreCalculator::new(config);
    assert!(calc.config().validate().is_ok());
}

#[test]
fn test_try_new_invalid_config() {
    let mut config = ScoringConfig::default();
    config.decay_rate = bits(0.0);
    assert!(ScoreCalculator::try_new(config).is_err());
}

#[test]
fn validation_names_the_first_problem() {
    let config = ScoringConfig { access_boost: bits(-0.5), decay_rate: bits(-1.0), ..Default::default() };
    assert_eq!(config.validate(), Err("access_boost must be >= 0.0".to_string()));
    let config = ScoringConfig { decay_rate: bits(-0.0), ..Default::default() };
    assert_eq!(config.validate(), Err("decay_rate must be > 0.0".to_string()));
    let negative_zero = ScoringConfig { bm25_weight: bits(-0.0), ..Default::default() };
    assert!(negative_zero.validate().is_ok());
    let nan_rate = ScoringConfig { decay_rate: bits(f32::NAN), ..Default::default() };
    assert!(nan_rate.validate().is_ok());
    assert_eq!(
        ScoreCalculator::try_new(ScoringConfig { vector_weight: bits(-2.0), ..Default::default() }).err(),
        Some("vector_weight must be >= 0.0".to_string())
    );
}

#[test]
fn presets_are_valid() {
    for config in [ScoringConfig::new(), ScoringConfig::recency_focused(), ScoringConfig::semantic_focused(), ScoringConfig::importance_focused()] {
        assert!(config.validate().is_ok());
        assert!(config.has_any_boosts());
    }
    assert_eq!(ScoringConfig::importance_focused().decay_function, DecayFunction::Logarithmic);
    assert_eq!(f(ScoringConfig::importance_focused().decay_rate), 0.05);
    assert_eq!(f(ScoringConfig::semantic_focused().vector_weight), 1.5);
    assert_eq!(f(ScoringConfig::recency_focused().decay_rate), 0.2);
}
