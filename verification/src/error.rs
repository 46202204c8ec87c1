//! What went wrong, as the windows are told it.

use vstd::prelude::*;

verus! {

pub enum AppError {
    Audio(String),
    Transcription(String),
    Llm(String),
    Vision(String),
    Clipboard(String),
    Other(String),
}

/// The error as the user reads it: where it comes from and what it says.
pub open spec fn error_text(e: AppError) -> Seq<char> {
    match e {
        AppError::Audio(s) => "Audio error: "@ + s@,
        AppError::Transcription(s) => "Transcription error: "@ + s@,
        AppError::Llm(s) => "LLM error: "@ + s@,
        AppError::Vision(s) => "Vision error: "@ + s@,
        AppError::Clipboard(s) => "Clipboard error: "@ + s@,
        AppError::Other(s) => s@,
    }
}

fn prefixed(prefix: &str, s: &str) -> (r: String)
    ensures
        r@ == prefix@ + s@,
{
    let mut out = prefix.to_owned();
    out.append(s);
    out
}

impl AppError {
    pub fn message(&self) -> (r: String)
        ensures
            r@ == error_text(*self),
    {
        match self {
            AppError::Audio(s) => prefixed("Audio error: ", s.as_str()),
            AppError::Transcription(s) => prefixed("Transcription error: ", s.as_str()),
            AppError::Llm(s) => prefixed("LLM error: ", s.as_str()),
            AppError::Vision(s) => prefixed("Vision error: ", s.as_str()),
            AppError::Clipboard(s) => prefixed("Clipboard error: ", s.as_str()),
            AppError::Other(s) => s.clone(),
        }
    }
}

/// An error says what went wrong, whole and last, behind where it comes from.
pub proof fn errors_say_what_went_wrong(e: AppError, said: Seq<char>)
    requires
        said == (match e {
            AppError::Audio(s) => s@,
            AppError::Transcription(s) => s@,
            AppError::Llm(s) => s@,
            AppError::Vision(s) => s@,
            AppError::Clipboard(s) => s@,
            AppError::Other(s) => s@,
        }),
    ensures
        said.len() <= error_text(e).len(),
        error_text(e).skip(error_text(e).len() - said.len()) == said,
        e is Other ==> error_text(e) == said,
{
    assert(error_text(e).skip(error_text(e).len() - said.len()) =~= said);
}

} // verus!
