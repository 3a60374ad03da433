//! The tool library that agents are granted tools from.
pub mod catalog;
pub mod disk;
pub mod fs_read;
pub mod fs_schemas;
pub mod fs_search;
pub mod grants;
pub mod matching;
pub mod shell;
pub mod trace_tools;
pub mod traces_read;
pub mod walk;
