//! What one agent is, what it spends, and what its stored traces say.
pub mod agent_tool;
pub mod analytics;
pub mod ask;
pub mod balance;
pub mod blobs;
pub mod card;
pub mod collect;
pub mod fold;
pub mod limits;
pub mod lineage;
pub mod run;
pub mod scratch;
pub mod skills;
pub mod spend;
