//! The decision logic of a terminal chat agent.
pub mod agent;
pub mod backend;
pub mod bytes;
pub mod config;
pub mod json;
pub mod memory;
pub mod outside;
pub mod text;
pub mod tui;
