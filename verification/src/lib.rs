//! Routing, leasing and idle-mode logic of the Chord inference proxy.
pub mod admin;
pub mod agentic;
pub mod aliases;
pub mod batch_report;
pub mod coding_proxy;
pub mod config;
pub mod config_text;
pub mod control;
pub mod decimal;
pub mod diffusion;
pub mod embeddings;
pub mod env;
pub mod gpu_exclusive;
pub mod json;
pub mod meminfo;
pub mod order;
pub mod table;
pub mod text;
