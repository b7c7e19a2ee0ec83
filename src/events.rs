use vstd::prelude::*;

use crate::gpt::create::Error as CreateError;
use crate::gpt::decode::Error as DecodeError;
use crate::gpt::infer::Error as InferError;

verus! {

/// The final event of a failed operation.
pub struct ErrorChunk {
    pub error: String,
}

/// A fragment of generated text.
pub struct InferenceChunk {
    pub content: String,
}

/// The final event of an inference.
pub struct EpilogueChunk {
    /// Duration in milliseconds.
    pub duration: u32,
    /// Whether the abort flag ended it.
    pub aborted: bool,
    /// How many tokens were generated.
    pub token_length: usize,
    /// The context length afterwards, committed and uncommitted tokens.
    pub context_length: usize,
}

/// What a session creation reports.
pub struct Response {
    pub session_id: u32,
    /// Whether the initial prompt came from a snapshot, where there was one.
    pub session_loaded: Option<bool>,
    /// The size in bytes of the snapshot written, if any.
    pub session_dump_size: Option<usize>,
    /// The context length in tokens.
    pub context_length: usize,
}

/// What a commit reports.
pub struct CommitResponseBody {
    /// The new context length in tokens.
    pub context_length: u32,
}

/// What a token count reports.
pub struct ResponseBody {
    pub token_count: usize,
}

pub fn create_error_chunk(e: CreateError) -> (r: ErrorChunk)
    ensures
        r.error@ == (match e {
            CreateError::ModelNotFound => "Model not found"@,
            CreateError::SessionLimitReached => "Session limit reached"@,
            CreateError::ContextCreationFailed => "Context creation failed"@,
            CreateError::DecodeFailed => "Decode failed"@,
        }),
{
    let error = match e {
        CreateError::ModelNotFound => String::from_str("Model not found"),
        CreateError::SessionLimitReached => String::from_str("Session limit reached"),
        CreateError::ContextCreationFailed => String::from_str("Context creation failed"),
        CreateError::DecodeFailed => String::from_str("Decode failed"),
    };
    ErrorChunk { error }
}

pub fn decode_error_chunk(e: DecodeError) -> (r: ErrorChunk)
    ensures
        r.error@ == (match e {
            DecodeError::SessionNotFound => "Session not found"@,
            DecodeError::ContextOverflow => "Context overflow"@,
            DecodeError::DecodeFailed => "Decode failed"@,
        }),
{
    let error = match e {
        DecodeError::SessionNotFound => String::from_str("Session not found"),
        DecodeError::ContextOverflow => String::from_str("Context overflow"),
        DecodeError::DecodeFailed => String::from_str("Decode failed"),
    };
    ErrorChunk { error }
}

pub fn infer_error_chunk(e: InferError) -> (r: ErrorChunk)
    ensures
        r.error@ == (match e {
            InferError::SessionNotFound => "Session not found"@,
            InferError::ContextOverflow => "Context overflow"@,
            InferError::GrammarInvalid => "Grammar invalid"@,
            InferError::DecodeFailed => "Decode failed"@,
        }),
{
    let error = match e {
        InferError::SessionNotFound => String::from_str("Session not found"),
        InferError::ContextOverflow => String::from_str("Context overflow"),
        InferError::GrammarInvalid => String::from_str("Grammar invalid"),
        InferError::DecodeFailed => String::from_str("Decode failed"),
    };
    ErrorChunk { error }
}

} // verus!
