//! Time-based decay of search scores.

use vstd::prelude::*;
use crate::time::{f32_above_zero, f32_below_zero, f32_nan, F32Bits};

verus! {

/// Decay functions for time-based score reduction: how the importance of
/// information decays over time.
#[derive(Debug, Clone, Copy, PartialEq, Eq, Structural)]
pub enum DecayFunction {
    /// No decay: all memories have equal recency weight (serialized as `none`)
    NoDecay,
    /// Linear decay: `boost * max(0, 1 - age_hours * decay_rate)`
    Linear,
    /// Exponential decay: `boost * exp(-decay_rate * age_hours)`
    Exponential,
    /// Logarithmic decay: `boost / (1 + age_hours * decay_rate).ln()`
    Logarithmic,
}

/// The lowercase name of a decay function.
pub open spec fn decay_function_name(d: DecayFunction) -> Seq<char> {
    match d {
        DecayFunction::NoDecay => "none"@,
        DecayFunction::Linear => "linear"@,
        DecayFunction::Exponential => "exponential"@,
        DecayFunction::Logarithmic => "logarithmic"@,
    }
}

impl DecayFunction {
    /// The lowercase name of this decay function.
    pub fn to_string(&self) -> (s: String)
        ensures
            s@ == decay_function_name(*self),
    {
        let name = match self {
            DecayFunction::NoDecay => "none",
            DecayFunction::Linear => "linear",
            DecayFunction::Exponential => "exponential",
            DecayFunction::Logarithmic => "logarithmic",
        };
        String::from_str(name)
    }
}

impl Default for DecayFunction {
    fn default() -> (d: Self)
        ensures
            d == DecayFunction::Exponential,
    {
        DecayFunction::Exponential
    }
}

/// Configuration for multi-factor search scoring: how BM25 keyword
/// matching, vector similarity and the lifecycle boosts are weighted. Each
/// weight is a 32-bit float carried by its bits.
#[derive(Debug, Clone, Copy, PartialEq, Eq, Structural)]
pub struct ScoringConfig {
    /// Weight for BM25 keyword matching
    pub bm25_weight: F32Bits,
    /// Weight for vector embedding similarity
    pub vector_weight: F32Bits,
    /// Boost factor for recent memories
    pub recency_boost: F32Bits,
    /// Boost factor for frequently accessed memories
    pub access_boost: F32Bits,
    /// Boost factor for high-priority memories
    pub priority_boost: F32Bits,
    /// Time-based decay function applied to the recency boost
    pub decay_function: DecayFunction,
    /// Decay rate parameter
    pub decay_rate: F32Bits,
}

/// The 32-bit float with the given bits.
pub open spec fn f32_of(bits: u32) -> F32Bits {
    F32Bits { bits }
}

/// The default configuration: weights 1.0 and 1.0, boosts 0.5, 0.3 and 0.2,
/// exponential decay at rate 0.1 (as `f32` bit patterns).
pub open spec fn default_scoring() -> ScoringConfig {
    ScoringConfig {
        bm25_weight: f32_of(0x3f80_0000),
        vector_weight: f32_of(0x3f80_0000),
        recency_boost: f32_of(0x3f00_0000),
        access_boost: f32_of(0x3e99_999a),
        priority_boost: f32_of(0x3e4c_cccd),
        decay_function: DecayFunction::Exponential,
        decay_rate: f32_of(0x3dcc_cccd),
    }
}

/// What is wrong with a configuration, if anything, checked in order: a
/// negative weight or boost, or a decay rate that is not above zero (NaN
/// passes both checks, as IEEE comparison has it).
pub open spec fn scoring_problem(c: ScoringConfig) -> Option<Seq<char>> {
    if f32_below_zero(c.bm25_weight) {
        Some("bm25_weight must be >= 0.0"@)
    } else if f32_below_zero(c.vector_weight) {
        Some("vector_weight must be >= 0.0"@)
    } else if f32_below_zero(c.recency_boost) {
        Some("recency_boost must be >= 0.0"@)
    } else if f32_below_zero(c.access_boost) {
        Some("access_boost must be >= 0.0"@)
    } else if f32_below_zero(c.priority_boost) {
        Some("priority_boost must be >= 0.0"@)
    } else if !f32_nan(c.decay_rate) && !f32_above_zero(c.decay_rate) {
        Some("decay_rate must be > 0.0"@)
    } else {
        None
    }
}

impl Default for ScoringConfig {
    fn default() -> (c: Self)
        ensures
            c == default_scoring(),
    {
        ScoringConfig {
            bm25_weight: F32Bits { bits: 0x3f80_0000 },
            vector_weight: F32Bits { bits: 0x3f80_0000 },
            recency_boost: F32Bits { bits: 0x3f00_0000 },
            access_boost: F32Bits { bits: 0x3e99_999a },
            priority_boost: F32Bits { bits: 0x3e4c_cccd },
            decay_function: DecayFunction::Exponential,
            decay_rate: F32Bits { bits: 0x3dcc_cccd },
        }
    }
}

impl ScoringConfig {
    /// Create a new scoring configuration with default values.
    pub fn new() -> (c: Self)
        ensures
            c == default_scoring(),
    {
        Self::default()
    }

    /// A configuration favouring fresh information: weights 0.5 and 0.5,
    /// boosts 2.0, 0.2 and 0.1, exponential decay at rate 0.2.
    pub fn recency_focused() -> (c: Self)
        ensures
            c == recency_scoring(),
    {
        ScoringConfig {
            bm25_weight: F32Bits { bits: 0x3f00_0000 },
            vector_weight: F32Bits { bits: 0x3f00_0000 },
            recency_boost: F32Bits { bits: 0x4000_0000 },
            access_boost: F32Bits { bits: 0x3e4c_cccd },
            priority_boost: F32Bits { bits: 0x3dcc_cccd },
            decay_function: DecayFunction::Exponential,
            decay_rate: F32Bits { bits: 0x3e4c_cccd },
        }
    }

    /// A configuration favouring semantic matching: weights 0.3 and 1.5,
    /// boosts 0.3, 0.2 and 0.2, exponential decay at rate 0.1.
    pub fn semantic_focused() -> (c: Self)
        ensures
            c == semantic_scoring(),
    {
        ScoringConfig {
            bm25_weight: F32Bits { bits: 0x3e99_999a },
            vector_weight: F32Bits { bits: 0x3fc0_0000 },
            recency_boost: F32Bits { bits: 0x3e99_999a },
            access_boost: F32Bits { bits: 0x3e4c_cccd },
            priority_boost: F32Bits { bits: 0x3e4c_cccd },
            decay_function: DecayFunction::Exponential,
            decay_rate: F32Bits { bits: 0x3dcc_cccd },
        }
    }

    /// A configuration favouring importance: weights 0.7 and 0.7, boosts
    /// 0.2, 1.0 and 0.8, logarithmic decay at rate 0.05.
    pub fn importance_focused() -> (c: Self)
        ensures
            c == importance_scoring(),
    {
        ScoringConfig {
            bm25_weight: F32Bits { bits: 0x3f33_3333 },
            vector_weight: F32Bits { bits: 0x3f33_3333 },
            recency_boost: F32Bits { bits: 0x3e4c_cccd },
            access_boost: F32Bits { bits: 0x3f80_0000 },
            priority_boost: F32Bits { bits: 0x3f4c_cccd },
            decay_function: DecayFunction::Logarithmic,
            decay_rate: F32Bits { bits: 0x3d4c_cccd },
        }
    }

    /// Validate the configuration: weights and boosts must not be below zero,
    /// and the decay rate must be above zero.
    pub fn validate(&self) -> (r: Result<(), String>)
        ensures
            match scoring_problem(*self) {
                Some(msg) => r matches Err(m) && m@ == msg,
                None => r is Ok,
            },
    {
        if self.bm25_weight.is_below_zero() {
            return Err(String::from_str("bm25_weight must be >= 0.0"));
        }
        if self.vector_weight.is_below_zero() {
            return Err(String::from_str("vector_weight must be >= 0.0"));
        }
        if self.recency_boost.is_below_zero() {
            return Err(String::from_str("recency_boost must be >= 0.0"));
        }
        if self.access_boost.is_below_zero() {
            return Err(String::from_str("access_boost must be >= 0.0"));
        }
        if self.priority_boost.is_below_zero() {
            return Err(String::from_str("priority_boost must be >= 0.0"));
        }
        if self.decay_rate.is_at_most_zero() {
            return Err(String::from_str("decay_rate must be > 0.0"));
        }
        Ok(())
    }

    /// Whether at least one boost is above zero.
    pub fn has_any_boosts(&self) -> (r: bool)
        ensures
            r == (f32_above_zero(self.recency_boost) || f32_above_zero(self.access_boost)
                || f32_above_zero(self.priority_boost)),
    {
        self.recency_boost.is_above_zero() || self.access_boost.is_above_zero() || self.priority_boost.is_above_zero()
    }
}

/// The recency-focused preset.
pub open spec fn recency_scoring() -> ScoringConfig {
    ScoringConfig {
        bm25_weight: f32_of(0x3f00_0000),
        vector_weight: f32_of(0x3f00_0000),
        recency_boost: f32_of(0x4000_0000),
        access_boost: f32_of(0x3e4c_cccd),
        priority_boost: f32_of(0x3dcc_cccd),
        decay_function: DecayFunction::Exponential,
        decay_rate: f32_of(0x3e4c_cccd),
    }
}

/// The semantics-focused preset.
pub open spec fn semantic_scoring() -> ScoringConfig {
    ScoringConfig {
        bm25_weight: f32_of(0x3e99_999a),
        vector_weight: f32_of(0x3fc0_0000),
        recency_boost: f32_of(0x3e99_999a),
        access_boost: f32_of(0x3e4c_cccd),
        priority_boost: f32_of(0x3e4c_cccd),
        decay_function: DecayFunction::Exponential,
        decay_rate: f32_of(0x3dcc_cccd),
    }
}

/// The importance-focused preset.
pub open spec fn importance_scoring() -> ScoringConfig {
    ScoringConfig {
        bm25_weight: f32_of(0x3f33_3333),
        vector_weight: f32_of(0x3f33_3333),
        recency_boost: f32_of(0x3e4c_cccd),
        access_boost: f32_of(0x3f80_0000),
        priority_boost: f32_of(0x3f4c_cccd),
        decay_function: DecayFunction::Logarithmic,
        decay_rate: f32_of(0x3d4c_cccd),
    }
}

/// Every preset configuration passes validation.
pub proof fn lemma_presets_valid()
    ensures
        scoring_problem(default_scoring()) is None,
        scoring_problem(recency_scoring()) is None,
        scoring_problem(semantic_scoring()) is None,
        scoring_problem(importance_scoring()) is None,
{
}

} // verus!
