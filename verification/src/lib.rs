//! A bridge between SQL text and a tabular database server: query rewriting,
//! value decoding and the plan-capture protocol, with their contracts.

pub mod decoder;
pub mod encryption;
pub mod history;
pub mod orchestrator;
pub mod profiles;
pub mod rewriter;
pub mod text;
pub mod types;
