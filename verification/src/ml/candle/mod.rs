//! Configuration of Candle embedding models.

pub mod builder;
pub mod config;
pub mod tokenizer;
