//! Evaluation pipeline and scoring of a contest platform: the award model,
//! the award store with its per-submission event log, the evaluation of a
//! submission as a state machine over the grader's events, the best-award
//! aggregation, and the feedback material of a problem.
pub mod aggregate;
pub mod api;
pub mod award;
pub mod contest;
pub mod evaluation;
pub mod material;
pub mod orchestrator;
pub mod order;
pub mod store;
pub mod text;
