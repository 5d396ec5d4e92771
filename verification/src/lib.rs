//! A conversational agent gateway library: the verified orchestration layer
//! that binds an authenticated streaming transport, a two-tier response
//! cache, a hot-reloadable prompt configuration, retrieval-augmented answer
//! assembly, and a streaming protocol that separates a model's internal
//! "thinking" channel from its user-visible answer.

pub mod agent;
pub mod auth;
pub mod cache;
pub mod clean;
pub mod control;
pub mod demux;
pub mod history;
pub mod json;
pub mod llm;
pub mod prompt;
pub mod protocol;
pub mod rag;
pub mod remote;
pub mod text;
