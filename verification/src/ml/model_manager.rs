//! Embedding utilities for bring-your-own-embeddings: the expected dimension
//! of user-provided embeddings.

use vstd::prelude::*;
use crate::ml::error::MLError;
use crate::ml::utils::{common_dimension, is_common_dimension, providers_for_dimension, providers_spec, str_views};
use crate::text::{decimal, usize_to_decimal};
use crate::time::F32Bits;

verus! {

/// Whether the `f32` with these bits is finite (not infinite, not NaN).
pub open spec fn f32_finite(b: F32Bits) -> bool {
    b.bits & 0x7f80_0000 != 0x7f80_0000
}

/// How `Display` writes a non-finite `f32`: `NaN`, `inf` or `-inf`.
pub open spec fn f32_nonfinite_text(b: F32Bits) -> Seq<char> {
    if b.bits & 0x007f_ffff != 0 {
        "NaN"@
    } else if b.bits & 0x8000_0000 != 0 {
        "-inf"@
    } else {
        "inf"@
    }
}

/// Whether `e[i]` is the first value of `e` that is not finite.
pub open spec fn is_first_nonfinite(e: Seq<F32Bits>, i: int) -> bool {
    0 <= i < e.len() && !f32_finite(e[i]) && forall|j: int| 0 <= j < i ==> f32_finite(e[j])
}

/// What is wrong with an embedding, if anything: it must not be empty, must
/// have the expected dimension (if one is set), and hold only finite values.
pub open spec fn embedding_problem(expected: Option<usize>, e: Seq<F32Bits>) -> Option<Seq<char>> {
    if e.len() == 0 {
        Some("Embedding cannot be empty"@)
    } else if expected matches Some(d) && e.len() != d {
        Some("Expected embedding dimension "@ + decimal(expected->0 as nat) + ", got "@ + decimal(e.len()))
    } else if exists|i: int| is_first_nonfinite(e, i) {
        let i = choose|i: int| is_first_nonfinite(e, i);
        Some("Invalid value at index "@ + decimal(i as nat) + ": "@ + f32_nonfinite_text(e[i]))
    } else {
        None
    }
}

/// The text `Display` gives a non-finite `f32`.
fn nonfinite_text(b: F32Bits) -> (s: &'static str)
    ensures
        s@ == f32_nonfinite_text(b),
{
    if b.bits & 0x007f_ffff != 0 {
        "NaN"
    } else if b.bits & 0x8000_0000 != 0 {
        "-inf"
    } else {
        "inf"
    }
}

/// Embedding utilities: an optional expected dimension for validation.
#[derive(Debug, Clone)]
pub struct EmbeddingManager {
    expected_dimensions: Option<usize>,
}

impl EmbeddingManager {
    /// The expected dimension this manager validates against, if any.
    pub closed spec fn expected(&self) -> Option<usize> {
        self.expected_dimensions
    }

    /// Create a new embedding manager without an expected dimension.
    pub fn new() -> (m: Self)
        ensures
            m.expected() is None,
    {
        Self { expected_dimensions: None }
    }

    /// Create an embedding manager with expected dimensions for validation.
    pub fn with_expected_dimensions(expected_dimensions: usize) -> (m: Self)
        ensures
            m.expected() == Some(expected_dimensions),
    {
        Self { expected_dimensions: Some(expected_dimensions) }
    }

    /// Validate an embedding vector: it must not be empty, must have the
    /// expected dimension (if one is set), and hold only finite values.
    pub fn validate_embedding(&self, embedding: &[F32Bits]) -> (r: Result<(), MLError>)
        ensures
            match r {
                Ok(_) => embedding_problem(self.expected(), embedding@) is None,
                Err(e) => e matches MLError::Embedding(m) && embedding_problem(self.expected(), embedding@) == Some(m@),
            },
    {
        if embedding.len() == 0 {
            return Err(MLError::Embedding(String::from_str("Embedding cannot be empty")));
        }
        if let Some(expected_dim) = self.expected_dimensions {
            if embedding.len() != expected_dim {
                let m = String::from_str("Expected embedding dimension ").concat(usize_to_decimal(expected_dim).as_str());
                let m = m.concat(", got ").concat(usize_to_decimal(embedding.len()).as_str());
                return Err(MLError::Embedding(m));
            }
        }
        let mut i: usize = 0;
        while i < embedding.len()
            invariant
                i <= embedding@.len(),
                embedding@.len() > 0,
                self.expected() matches Some(d) ==> embedding@.len() == d,
                forall|j: int| 0 <= j < i ==> f32_finite(embedding@[j]),
            decreases embedding.len() - i,
        {
            let b = embedding[i];
            if b.bits & 0x7f80_0000 == 0x7f80_0000 {
                proof {
                    assert(is_first_nonfinite(embedding@, i as int));
                    let k = choose|k: int| is_first_nonfinite(embedding@, k);
                    if k < i {
                        assert(f32_finite(embedding@[k]));
                    } else if k > i {
                        assert(f32_finite(embedding@[i as int]));
                    }
                }
                let m = String::from_str("Invalid value at index ").concat(usize_to_decimal(i).as_str());
                let m = m.concat(": ").concat(nonfinite_text(b));
                return Err(MLError::Embedding(m));
            }
            i += 1;
        }
        Ok(())
    }

    /// Check if an embedding has a dimension common providers produce.
    pub fn is_valid_dimension(&self, embedding: &[F32Bits]) -> (r: bool)
        ensures
            r == common_dimension(embedding@.len() as usize),
    {
        is_common_dimension(embedding.len())
    }

    /// Get the providers known to produce embeddings of this one's dimension.
    pub fn suggested_providers(&self, embedding: &[F32Bits]) -> (r: Vec<&'static str>)
        ensures
            str_views(r@) == providers_spec(embedding@.len() as usize),
    {
        providers_for_dimension(embedding.len())
    }

    /// Get expected dimensions (if set).
    pub fn expected_dimensions(&self) -> (r: Option<usize>)
        ensures
            r == self.expected(),
    {
        self.expected_dimensions
    }
}

impl Default for EmbeddingManager {
    fn default() -> (m: Self)
        ensures
            m.expected() is None,
    {
        Self::new()
    }
}

/// Builder for EmbeddingManager.
#[derive(Debug, Clone)]
pub struct EmbeddingManagerBuilder {
    expected_dimensions: Option<usize>,
}

impl EmbeddingManagerBuilder {
    /// The expected dimension set so far, if any.
    pub closed spec fn expected(&self) -> Option<usize> {
        self.expected_dimensions
    }

    /// Create a new builder.
    pub fn new() -> (b: Self)
        ensures
            b.expected() is None,
    {
        Self { expected_dimensions: None }
    }

    /// Set expected embedding dimensions for validation.
    pub fn expected_dimensions(self, dimensions: usize) -> (b: Self)
        ensures
            b.expected() == Some(dimensions),
    {
        let mut b = self;
        b.expected_dimensions = Some(dimensions);
        b
    }

    /// Build the embedding manager.
    pub fn build(self) -> (m: EmbeddingManager)
        ensures
            m.expected() == self.expected(),
    {
        if let Some(dimensions) = self.expected_dimensions {
            EmbeddingManager::with_expected_dimensions(dimensions)
        } else {
            EmbeddingManager::new()
        }
    }
}

impl Default for EmbeddingManagerBuilder {
    fn default() -> (b: Self)
        ensures
            b.expected() is None,
    {
        Self::new()
    }
}

} // verus!
