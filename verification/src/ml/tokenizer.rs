//! Tokenization options and results for embedding models.

use vstd::prelude::*;

verus! {

/// Special token types.
#[derive(Debug, Clone, Copy, PartialEq, Eq, Hash, Structural)]
pub enum SpecialToken {
    /// Beginning of sequence token
    Bos,
    /// End of sequence token
    Eos,
    /// Padding token
    Pad,
    /// Unknown token
    Unk,
    /// Mask token
    Mask,
    /// Separator token
    Sep,
    /// Classification token
    Cls,
}

/// Padding mode for tokenization.
#[derive(Debug, Clone, Copy, PartialEq, Eq, Structural)]
pub enum PaddingMode {
    /// No padding (written `None` where serialized)
    NoPadding,
    /// Pad to max length in batch
    MaxLength,
    /// Pad to specific length
    FixedLength(usize),
}

/// Options for tokenization.
#[derive(Debug, Clone, Copy, PartialEq, Eq, Structural)]
pub struct TokenizerOptions {
    /// Add special tokens like BOS/EOS
    pub add_special_tokens: bool,
    /// Truncate to max length
    pub truncation: bool,
    /// Max sequence length (if truncation is enabled)
    pub max_length: Option<usize>,
    /// Padding mode
    pub padding: PaddingMode,
}

impl Default for TokenizerOptions {
    /// Special tokens added, truncation on, no length limit, no padding.
    fn default() -> (o: Self)
        ensures
            o == (TokenizerOptions {
                add_special_tokens: true,
                truncation: true,
                max_length: None,
                padding: PaddingMode::NoPadding,
            }),
    {
        TokenizerOptions { add_special_tokens: true, truncation: true, max_length: None, padding: PaddingMode::NoPadding }
    }
}

/// Tokenized text with IDs and metadata.
#[derive(Debug, Clone)]
pub struct TokenizedText {
    /// The token IDs
    pub ids: Vec<u32>,
    /// Attention mask (1 for tokens, 0 for padding)
    pub attention_mask: Option<Vec<u8>>,
    /// Original text that was tokenized
    pub original_text: String,
}

} // verus!
