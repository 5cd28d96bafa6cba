//! A key-rotating reverse proxy core for OpenAI-compatible chat-completion
//! endpoints: a pool of upstream credentials, per-model selection strategies,
//! retry-with-rotation, and the request-admission rules, with machine-checked
//! contracts for the selection, rotation and header-hygiene logic.

pub mod config;
pub mod dispatch;
pub mod engine;
pub mod error;
pub mod headers;
pub mod latency;
pub mod pool;
pub mod text;
pub mod types;
pub mod upstream;
