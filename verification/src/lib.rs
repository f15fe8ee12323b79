//! Verified core of a SQLite-backed task manager for concurrent agents:
//! terminal-safe text sanitizing, field validation, task models,
//! SQL query construction and table rendering.

pub mod text;
pub mod sanitize;
pub mod color;
pub mod error;
pub mod models;
pub mod validate;
pub mod db;
pub mod cli;
pub mod commands;
pub mod output;
