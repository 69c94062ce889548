//! Error types for ML operations.

use vstd::prelude::*;
use vstd::string::to_string_from_display_ensures;

verus! {

#[verifier::external_type_specification]
#[verifier::external_body]
pub struct ExIoError(std::io::Error);

/// Renders an I/O error with its `Display` impl (`std::io::Error::to_string`).
/// Trusted: the text is whatever the operating system and std report, so
/// nothing is stated of it.
#[verifier::external_body]
fn io_error_text(e: &std::io::Error) -> (s: String) {
    e.to_string()
}

/// Error type for ML operations.
#[derive(Debug)]
pub enum MLError {
    /// Error during model loading
    ModelLoading(String),
    /// Error during tokenization
    Tokenization(String),
    /// Error during embedding generation
    Embedding(String),
    /// Error during model initialization
    Initialization(String),
    /// Error related to model configuration
    Configuration(String),
    /// Model not found
    ModelNotFound(String),
    /// Model registry error
    Registry(String),
    /// IO error during model operations
    IO(std::io::Error),
    /// Other unexpected errors
    Other(String),
}

/// The message of an ML error other than an I/O error: a fixed prefix naming
/// the kind of error, followed by the error's own text.
pub open spec fn ml_error_message(e: MLError) -> Seq<char> {
    match e {
        MLError::ModelLoading(s) => "Failed to load model: "@ + s@,
        MLError::Tokenization(s) => "Tokenization error: "@ + s@,
        MLError::Embedding(s) => "Embedding error: "@ + s@,
        MLError::Initialization(s) => "Model initialization error: "@ + s@,
        MLError::Configuration(s) => "Model configuration error: "@ + s@,
        MLError::ModelNotFound(s) => "Model not found: "@ + s@,
        MLError::Registry(s) => "Model registry error: "@ + s@,
        MLError::IO(_) => "IO error: "@,
        MLError::Other(s) => s@,
    }
}

impl MLError {
    /// Create a new model loading error.
    pub fn model_loading<M: core::fmt::Display + ?Sized>(msg: &M) -> (e: Self)
        ensures
            e matches MLError::ModelLoading(s) && to_string_from_display_ensures::<M>(msg, s),
    {
        Self::ModelLoading(msg.to_string())
    }

    /// Create a new tokenization error.
    pub fn tokenization<M: core::fmt::Display + ?Sized>(msg: &M) -> (e: Self)
        ensures
            e matches MLError::Tokenization(s) && to_string_from_display_ensures::<M>(msg, s),
    {
        Self::Tokenization(msg.to_string())
    }

    /// Create a new embedding error.
    pub fn embedding<M: core::fmt::Display + ?Sized>(msg: &M) -> (e: Self)
        ensures
            e matches MLError::Embedding(s) && to_string_from_display_ensures::<M>(msg, s),
    {
        Self::Embedding(msg.to_string())
    }

    /// Create a new initialization error.
    pub fn initialization<M: core::fmt::Display + ?Sized>(msg: &M) -> (e: Self)
        ensures
            e matches MLError::Initialization(s) && to_string_from_display_ensures::<M>(msg, s),
    {
        Self::Initialization(msg.to_string())
    }

    /// Create a new configuration error.
    pub fn configuration<M: core::fmt::Display + ?Sized>(msg: &M) -> (e: Self)
        ensures
            e matches MLError::Configuration(s) && to_string_from_display_ensures::<M>(msg, s),
    {
        Self::Configuration(msg.to_string())
    }

    /// Create a new model not found error.
    pub fn model_not_found<M: core::fmt::Display + ?Sized>(msg: &M) -> (e: Self)
        ensures
            e matches MLError::ModelNotFound(s) && to_string_from_display_ensures::<M>(msg, s),
    {
        Self::ModelNotFound(msg.to_string())
    }

    /// Create a new registry error.
    pub fn registry<M: core::fmt::Display + ?Sized>(msg: &M) -> (e: Self)
        ensures
            e matches MLError::Registry(s) && to_string_from_display_ensures::<M>(msg, s),
    {
        Self::Registry(msg.to_string())
    }

    /// Create a new other error.
    pub fn other<M: core::fmt::Display + ?Sized>(msg: &M) -> (e: Self)
        ensures
            e matches MLError::Other(s) && to_string_from_display_ensures::<M>(msg, s),
    {
        Self::Other(msg.to_string())
    }

    /// The human-readable message of this error. An I/O error reads
    /// `IO error: ` followed by the I/O error's own message.
    pub fn to_string(&self) -> (s: String)
        ensures
            !(self is IO) ==> s@ == ml_error_message(*self),
            self is IO ==> s@.len() >= 10 && s@.subrange(0, 10) == ml_error_message(*self),
    {
        match self {
            MLError::ModelLoading(m) => String::from_str("Failed to load model: ").concat(m.as_str()),
            MLError::Tokenization(m) => String::from_str("Tokenization error: ").concat(m.as_str()),
            MLError::Embedding(m) => String::from_str("Embedding error: ").concat(m.as_str()),
            MLError::Initialization(m) => String::from_str("Model initialization error: ").concat(m.as_str()),
            MLError::Configuration(m) => String::from_str("Model configuration error: ").concat(m.as_str()),
            MLError::ModelNotFound(m) => String::from_str("Model not found: ").concat(m.as_str()),
            MLError::Registry(m) => String::from_str("Model registry error: ").concat(m.as_str()),
            MLError::IO(e) => {
                let text = io_error_text(e);
                proof {
                    reveal_strlit("IO error: ");
                }
                let s = String::from_str("IO error: ").concat(text.as_str());
                assert(s@.subrange(0, 10) =~= "IO error: "@);
                s
            },
            MLError::Other(m) => m.clone(),
        }
    }
}

impl From<std::io::Error> for MLError {
    fn from(e: std::io::Error) -> (r: Self)
        ensures
            r is IO,
    {
        MLError::IO(e)
    }
}

impl vstd::std_specs::convert::FromSpecImpl<std::io::Error> for MLError {
    open spec fn obeys_from_spec() -> bool {
        true
    }

    open spec fn from_spec(e: std::io::Error) -> Self {
        MLError::IO(e)
    }
}

} // verus!
