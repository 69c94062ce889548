//! Machine learning utilities for the bring-your-own-embeddings approach:
//! embedding dimension checks and configuration types.

pub mod candle;
pub mod error;
pub mod model_manager;
pub mod utils;

pub use error::MLError;
pub use model_manager::{EmbeddingManager, EmbeddingManagerBuilder};
pub mod config;
pub mod embedding;
pub mod tokenizer;
