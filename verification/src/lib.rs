//! Verified core of a desktop coding agent: command risk assessment, text
//! handling, tool dispatch decisions, the agent's plan/approval/execution
//! decisions, stream aggregation and the record models.
pub mod text;
pub mod security;
pub mod tools;
pub mod llm;
pub mod models;
pub mod agent;
pub mod project;
pub mod db;
pub mod commands;
pub mod templates;
