//! The local Whisper model: its file, and the words it is primed with.

use vstd::prelude::*;
use crate::lang::Language;

verus! {

/// Words of a technical interview, so that the model spells them right.
pub const INITIAL_PROMPT_EN: &'static str = "A technical software engineering interview. Topics include \
Rust, tokio, async/await, Next.js, React, the DOM, TypeScript, Kubernetes, Docker, \
PostgreSQL, Redis, gRPC, REST, GraphQL, WebSocket, OAuth, JWT, mutex, semaphore, \
latency, throughput, rate limiter, and system design.";

pub const INITIAL_PROMPT_ES: &'static str = "Una entrevista técnica de ingeniería de software. Temas: \
Rust, tokio, async/await, Next.js, React, el DOM, TypeScript, Kubernetes, Docker, \
PostgreSQL, Redis, gRPC, REST, GraphQL, WebSocket, OAuth, JWT, mutex, semáforo, \
latencia, throughput, rate limiter, y diseño de sistemas.";

/// The model's file: English has one of its own, Spanish takes the one for all
/// languages.
pub open spec fn whisper_file(language: Language) -> Seq<char> {
    match language {
        Language::English => "ggml-base.en.bin"@,
        Language::Spanish => "ggml-base.bin"@,
    }
}

pub fn model_filename(language: Language) -> (r: &'static str)
    ensures
        r@ == whisper_file(language),
{
    match language {
        Language::English => "ggml-base.en.bin",
        Language::Spanish => "ggml-base.bin",
    }
}

pub fn initial_prompt(language: Language) -> (r: &'static str)
    ensures
        r@ == (match language {
            Language::English => INITIAL_PROMPT_EN@,
            Language::Spanish => INITIAL_PROMPT_ES@,
        }),
{
    match language {
        Language::English => INITIAL_PROMPT_EN,
        Language::Spanish => INITIAL_PROMPT_ES,
    }
}

/// Where the model's file is to be had.
pub open spec fn whisper_url(language: Language) -> Seq<char> {
    "https://huggingface.co/ggerganov/whisper.cpp/resolve/main/"@ + whisper_file(language)
}

/// Where the model's file is downloaded from on the first run.
pub fn model_url(language: Language) -> (r: String)
    ensures
        r@ == whisper_url(language),
{
    let mut out = "https://huggingface.co/ggerganov/whisper.cpp/resolve/main/".to_owned();
    out.append(model_filename(language));
    out
}

/// What the user is told where the model's file is missing and could not be
/// downloaded.
pub fn model_missing(language: Language, path: &str) -> (r: String)
    ensures
        r@ == "Whisper ("@ + crate::lang::language_code(language) + ") model not found at "@
            + path@ + ". Download it with:\ncurl -L -o "@ + path@ + " "@ + whisper_url(language),
{
    let mut out = "Whisper (".to_owned();
    out.append(language.whisper_code());
    out.append(") model not found at ");
    out.append(path);
    out.append(". Download it with:\ncurl -L -o ");
    out.append(path);
    out.append(" ");
    let url = model_url(language);
    out.append(url.as_str());
    out
}

/// English has a model of its own, Spanish takes the one for all languages, and
/// each is to be had under its name.
pub proof fn each_language_has_its_model()
    ensures
        whisper_file(Language::English) == "ggml-base.en.bin"@,
        whisper_file(Language::Spanish) == "ggml-base.bin"@,
        whisper_url(Language::English)
            == "https://huggingface.co/ggerganov/whisper.cpp/resolve/main/"@ + "ggml-base.en.bin"@,
        whisper_url(Language::Spanish)
            == "https://huggingface.co/ggerganov/whisper.cpp/resolve/main/"@ + "ggml-base.bin"@,
{
}

} // verus!
