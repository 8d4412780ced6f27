//! Control plane of a small continuous-integration system: job submission and
//! decomposition, the task-claim matcher, task and test-run updates with the
//! job rollup, the claim-response text protocol, and the worker's decisions.

pub mod model;
pub mod text;
pub mod submission;
pub mod protocol;
pub mod store;
pub mod claim;
pub mod updates;
pub mod test_runs;
pub mod worker;
pub mod selection;
pub mod queries;
pub mod restore;
pub mod polling;
pub mod task_run;
