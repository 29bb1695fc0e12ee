//! Verified core of a local LLM server with data-driven tool calling.
pub mod api;
pub mod config;
pub mod download;
pub mod engine;
pub mod executor;
pub mod json;
pub mod litert;
pub mod llama;
pub mod memory;
pub mod model_manager;
pub mod registry;
pub mod session;
pub mod text;
pub mod tools;
