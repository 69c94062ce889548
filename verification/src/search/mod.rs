//! Search scoring: how results are weighted over time.

pub mod calculator;
pub mod scoring;
