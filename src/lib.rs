//! A cluster-replicated job scheduler: an ordered, replicated command log, the
//! state machine that turns committed commands into job documents, snapshots of
//! that state, the occurrence calculator for absolute and cron schedules, and the
//! per-job firing engine that runs on the cluster leader.

pub mod time;
pub mod ids;
pub mod schema;
pub mod ticker;
pub mod log_store;
pub mod dto;
pub mod state_machine;
pub mod storage;
pub mod engine;
pub mod actor;
pub mod keys;
