//! The command line: what its commands mean and what they print.
pub mod agents;
pub mod branch;
pub mod builder;
pub mod hosts;
pub mod repl;
pub mod report;
pub mod session;
pub mod steps;
