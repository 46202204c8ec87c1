//! The logic of a real-time interview copilot.
//!
//! It hears both sides of a call, keeps a transcript and a short state of the
//! interview, describes what is on the screen, and answers on demand. The
//! modules here decide and compute: when an utterance ends, what a stream of
//! events says, which provider is asked next, where a hidden window comes back,
//! how a session reads as a document. Devices, windows, models, network and
//! disk are driven from outside and hand plain values in and out.

// Text and values.
pub mod text;
pub mod lang;
pub mod samples;
pub mod json;
pub mod prompts;

// Listening and speaking.
pub mod vad;
pub mod audio;
pub mod streaming;
pub mod aec;
pub mod dtln;
pub mod cloud_stt;
pub mod stt;
pub mod transcriber;
pub mod tts;

// Answering.
pub mod sse;
pub mod backend;
pub mod wire;
pub mod claude;
pub mod context_meter;
pub mod agent;

// The desktop.
pub mod capture;
pub mod clipboard;
pub mod windows;

// Records.
pub mod storage;
pub mod export;
pub mod secrets;

// Numbers and logs.
pub mod alloc_counter;
pub mod latency;
pub mod metrics;
pub mod crashlog;

// The program.
pub mod error;
pub mod state;
pub mod commands;
