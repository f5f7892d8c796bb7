use vstd::prelude::*;

verus! {

/// Everything that can go wrong for a single request or a whole batch.
///
/// Per-request failures (`InputTooLong`, `Tokenization`, `Overloaded`,
/// `BatchTooLarge`) travel back on that request's reply alone; a
/// `BackendError` fails every member of the affected batch; `ModelLoad` is
/// fatal at startup only.
#[derive(Clone, Debug, PartialEq, Eq)]
pub enum InferError {
    /// The input holds more tokens than the model admits and truncation is
    /// disabled.
    InputTooLong { length: usize, max_length: usize },
    /// The tokenizer rejected the input.
    Tokenization,
    /// No concurrency permit could be acquired.
    Overloaded,
    /// A single entry exceeds the whole token budget of a batch.
    BatchTooLarge { tokens: usize, max_batch_tokens: usize },
    /// The device or a kernel failed; the whole batch is failed collectively.
    BackendError,
    /// The model could not be loaded with the requested configuration.
    ModelLoad,
}

impl InferError {
    /// A short stable name for logs and HTTP error bodies.
    pub fn kind(&self) -> (r: &'static str)
        ensures
            (r@ == "input_too_long"@) <==> self is InputTooLong,
            (r@ == "tokenization"@) <==> self is Tokenization,
            (r@ == "overloaded"@) <==> self is Overloaded,
            (r@ == "batch_too_large"@) <==> self is BatchTooLarge,
            (r@ == "backend_error"@) <==> self is BackendError,
            (r@ == "model_load"@) <==> self is ModelLoad,
    {
        proof {
            reveal_strlit("input_too_long");
            reveal_strlit("tokenization");
            reveal_strlit("overloaded");
            reveal_strlit("batch_too_large");
            reveal_strlit("backend_error");
            reveal_strlit("model_load");
            assert("input_too_long"@.len() == 14);
            assert("tokenization"@.len() == 12);
            assert("overloaded"@.len() == 10);
            assert("batch_too_large"@.len() == 15);
            assert("backend_error"@.len() == 13);
            assert("model_load"@.len() == 10);
            assert("model_load"@[0] != "overloaded"@[0]);
        }
        match self {
            InferError::InputTooLong { .. } => "input_too_long",
            InferError::Tokenization => "tokenization",
            InferError::Overloaded => "overloaded",
            InferError::BatchTooLarge { .. } => "batch_too_large",
            InferError::BackendError => "backend_error",
            InferError::ModelLoad => "model_load",
        }
    }
}

} // verus!
