//! Utility functions for bring-your-own-embeddings: which embedding dimensions
//! common providers produce.

use vstd::prelude::*;

verus! {

/// The embedding dimensions of common providers.
pub open spec fn common_dimension(dimension: usize) -> bool {
    dimension == 384 || dimension == 512 || dimension == 768 || dimension == 1024
        || dimension == 1536 || dimension == 3072
}

/// The character views of a list of string slices.
pub open spec fn str_views(v: Seq<&str>) -> Seq<Seq<char>> {
    v.map_values(|s: &str| s@)
}

/// The providers known to produce embeddings of the given dimension.
pub open spec fn providers_spec(dimension: usize) -> Seq<Seq<char>> {
    if dimension == 384 {
        seq!["bge-small"@, "all-MiniLM-L6-v2"@]
    } else if dimension == 512 {
        seq!["all-MiniLM-L12-v2"@]
    } else if dimension == 768 {
        seq!["all-mpnet-base-v2"@, "BERT-base"@]
    } else if dimension == 1024 {
        seq!["Cohere embed-english-v3.0"@]
    } else if dimension == 1536 {
        seq!["OpenAI text-embedding-3-small"@, "OpenAI ada-002"@]
    } else if dimension == 3072 {
        seq!["OpenAI text-embedding-3-large"@]
    } else {
        seq!["Custom provider"@]
    }
}

/// Check if embedding capabilities are available: with embeddings brought by
/// the user, they always are.
pub fn has_embedding_support() -> (r: bool)
    ensures
        r,
{
    true
}

/// Get available embedding backends: only `byoe`.
pub fn available_backends() -> (r: Vec<&'static str>)
    ensures
        str_views(r@) == seq!["byoe"@],
{
    let r = vec!["byoe"];
    assert(str_views(r@) =~= seq!["byoe"@]);
    r
}

/// Check if this is a valid embedding dimension for common providers.
pub fn is_common_dimension(dimension: usize) -> (r: bool)
    ensures
        r == common_dimension(dimension),
{
    dimension == 384 || dimension == 512 || dimension == 768 || dimension == 1024
        || dimension == 1536 || dimension == 3072
}

/// Get recommended providers for common embedding dimensions.
pub fn providers_for_dimension(dimension: usize) -> (r: Vec<&'static str>)
    ensures
        str_views(r@) == providers_spec(dimension),
{
    let r = if dimension == 384 {
        vec!["bge-small", "all-MiniLM-L6-v2"]
    } else if dimension == 512 {
        vec!["all-MiniLM-L12-v2"]
    } else if dimension == 768 {
        vec!["all-mpnet-base-v2", "BERT-base"]
    } else if dimension == 1024 {
        vec!["Cohere embed-english-v3.0"]
    } else if dimension == 1536 {
        vec!["OpenAI text-embedding-3-small", "OpenAI ada-002"]
    } else if dimension == 3072 {
        vec!["OpenAI text-embedding-3-large"]
    } else {
        vec!["Custom provider"]
    };
    assert(str_views(r@) =~= providers_spec(dimension));
    r
}

/// A dimension is common exactly when a named provider other than the custom
/// fallback is suggested for it.
pub proof fn lemma_common_dimensions_have_providers(dimension: usize)
    ensures
        common_dimension(dimension) <==> providers_spec(dimension) != seq!["Custom provider"@],
{
    reveal_strlit("Custom provider");
    reveal_strlit("bge-small");
    reveal_strlit("all-MiniLM-L12-v2");
    reveal_strlit("all-mpnet-base-v2");
    reveal_strlit("Cohere embed-english-v3.0");
    reveal_strlit("OpenAI text-embedding-3-small");
    reveal_strlit("OpenAI text-embedding-3-large");
    if dimension == 384 {
        assert(providers_spec(dimension).len() == 2);
    } else if dimension == 512 {
        assert(providers_spec(dimension)[0] != "Custom provider"@) by {
            assert("all-MiniLM-L12-v2"@.len() != "Custom provider"@.len());
        }
    } else if dimension == 768 {
        assert(providers_spec(dimension).len() == 2);
    } else if dimension == 1024 {
        assert(providers_spec(dimension)[0] != "Custom provider"@) by {
            assert("Cohere embed-english-v3.0"@.len() != "Custom provider"@.len());
        }
    } else if dimension == 1536 {
        assert(providers_spec(dimension).len() == 2);
    } else if dimension == 3072 {
        assert(providers_spec(dimension)[0] != "Custom provider"@) by {
            assert("OpenAI text-embedding-3-large"@.len() != "Custom provider"@.len());
        }
    }
}

} // verus!
