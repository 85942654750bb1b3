//! Merge scheduling and message routing for a batched, multi-stage proving
//! pipeline.
//!
//! A program's execution is split into indexed chunks; each chunk is proved on
//! its own and the proofs are merged pairwise, bottom-up, into one final proof
//! by a pool of stateless workers. This crate holds the decisions of that
//! pipeline, each with its contract:
//!
//! - [`proof_tree`]: the online pairwise reduction over chunk-indexed slots;
//! - [`gateway`]: the coordinator that applies events to the tree and routes
//!   work between the producer and the workers;
//! - [`worker`]: a worker's choice of stage, with the same-worker fast path for
//!   the one merge that completes the run;
//! - [`proving_queue`]: task identities and the memory tier of the result cache;
//! - [`tree_laws`] and [`pipeline_laws`]: properties over whole runs.
//!
//! Threads, channels, the proving stages themselves and durable storage are
//! left to the caller.
pub mod app_row;
pub mod auth;
pub mod error;
pub mod gateway;
pub mod messages;
pub mod pipeline_laws;
pub mod proof_tree;
pub mod proving_queue;
pub mod tree_laws;
pub mod worker;
