//! The calculator that combines search scores under a scoring
//! configuration.

use vstd::prelude::*;
use super::scoring::{scoring_problem, ScoringConfig};

verus! {

/// Calculator for combining the scoring factors into a final relevance
/// score, holding a valid configuration.
pub struct ScoreCalculator {
    config: ScoringConfig,
}

impl ScoreCalculator {
    /// The configuration the calculator applies.
    pub closed spec fn spec_config(&self) -> ScoringConfig {
        self.config
    }

    /// Create a score calculator with a valid configuration.
    pub fn new(config: ScoringConfig) -> (c: Self)
        requires
            scoring_problem(config) is None,
        ensures
            c.spec_config() == config,
    {
        Self { config }
    }

    /// Create a score calculator, refusing an invalid configuration with the
    /// message of its first problem.
    pub fn try_new(config: ScoringConfig) -> (r: Result<Self, String>)
        ensures
            match scoring_problem(config) {
                Some(msg) => r matches Err(m) && m@ == msg,
                None => r matches Ok(c) && c.spec_config() == config,
            },
    {
        match config.validate() {
            Ok(()) => Ok(Self { config }),
            Err(e) => Err(e),
        }
    }

    /// The configuration the calculator applies.
    pub fn config(&self) -> (r: &ScoringConfig)
        ensures
            *r == self.spec_config(),
    {
        &self.config
    }
}

} // verus!
