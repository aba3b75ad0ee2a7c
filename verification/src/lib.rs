//! Verified core of the Libra AI runtime: workflow-gate recovery, review-fix
//! protocol validation, approval/hook configuration merging, Code UI wire
//! negotiation, browser write guards and thread-graph projection.
#![allow(unused_imports)]

pub mod seqs;
pub mod admission;
pub mod approval;
pub mod approval_cache;
pub mod automation;
pub mod bridge;
pub mod capture_graph;
pub mod checkpoint;
pub mod codex;
pub mod fake_provider;
pub mod graph;
pub mod ids;
pub mod guards;
pub mod headless;
pub mod hooks;
pub mod object_summary;
pub mod order;
pub mod overlay;
pub mod projection_graph;
pub mod prompt;
pub mod review_fix;
pub mod runtime;
pub mod scheduler;
pub mod snapshot_delta;
pub mod sse;
pub mod status_probe;
pub mod text;
pub mod thread_graph;
pub mod usage;
pub mod workflow;
pub mod web_turn;
