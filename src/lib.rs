//! Orchestration of pluggable security-tool modules: a registry of module
//! descriptors, an execution context, a back-reference resolver and a
//! workflow step sequencer.

pub mod keyed;
pub mod json;
pub mod module;
pub mod scanner;
pub mod registry;
pub mod context;
pub mod resolve;
pub mod text;
pub mod workflow;
