//! Verified core of the NextChat desktop bridge to a local Goose agent.
pub mod text;
pub mod agent;
pub mod chat;
pub mod config;
pub mod json;
pub mod paths;
pub mod reply;
pub mod laws;
