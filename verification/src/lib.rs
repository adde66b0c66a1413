//! Verified core of a multi-agent software-engineering task runtime.
use vstd::prelude::*;

pub mod text;
pub mod error;
pub mod json;
pub mod clock;
pub mod task;
pub mod runtime;
pub mod ready;
pub mod control;
pub mod schedule;
pub mod approval;
pub mod diff;
pub mod patch;
pub mod command;
pub mod records;
pub mod plan;
pub mod intake;
pub mod tooling;
pub mod llm;
pub mod agents;
pub mod chat;
pub mod workspace;
pub mod api;
pub mod patching;
pub mod project;
pub mod audit;
pub mod context;
pub mod tool_args;
pub mod json_text;
pub mod review;
pub mod testing;
pub mod evolution;
pub mod coding;
pub mod execution;
pub mod planner;
pub mod memory;
pub mod sending;
pub mod manifest;
pub mod message;
pub mod tool_catalog;
pub mod llm_plan;
pub mod calc;
pub mod laws;

verus! {

} // verus!
