//! A toolkit for small, self-contained agents: what they are defined to be, what
//! they may reach, what they cost, and what is built of them.

pub mod agent;
pub mod assemble;
pub mod build;
pub mod bytes;
pub mod cli;
pub mod dates;
pub mod definition;
pub mod delegation;
pub mod environment;
pub mod json;
pub mod mcp_serve;
pub mod models;
pub mod names;
pub mod number;
pub mod order;
pub mod paths;
pub mod python_bridge;
pub mod python_config;
pub mod runtime;
pub mod runtime_args;
pub mod scaffold;
pub mod schema;
pub mod sorting;
pub mod split;
pub mod stats;
pub mod table;
pub mod test_support;
pub mod text;
pub mod tools;
pub mod trace;
pub mod wasm;
