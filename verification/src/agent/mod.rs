//! What the agent does on the user's behalf: tools, code execution, the web, files.
pub mod blocks;
pub mod diff;
pub mod executor;
pub mod laws;
pub mod mcp;
pub mod search;
pub mod tools;
pub mod web;
pub mod workspace;
