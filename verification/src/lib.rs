//! Verified core of a linter pipeline for scripts embedded in a
//! task-definition document: an adapter registry keyed on executor tags,
//! a script materializer, per-tool output normalizers, and the pipeline
//! decisions that drive a run.

pub mod adapter;
pub mod errors;
pub mod materialize;
pub mod normalize;
pub mod pipeline;
pub mod text;

use vstd::prelude::*;

verus! {

} // verus!
