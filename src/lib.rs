//! Verified orchestration logic for a streaming compute pipeline: plan wiring,
//! task accounting, watermark aggregation, end-of-execution coordination and
//! the biased merge of progress updates with the terminal result.
use vstd::prelude::*;

pub mod collect_token;
pub mod executor;
pub mod fabric;
pub mod finish;
pub mod progress;
pub mod tasks;
pub mod watermark;

verus! {

} // verus!
