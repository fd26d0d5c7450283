//! Concurrent URL liveness checking: the targets of a run, the outcome of one
//! check, a dispatcher that caps the checks in flight, and the reduction of
//! a run's outcomes into its statistics.

pub mod status;
pub mod outcome;
pub mod stats;
pub mod dispatch;
pub mod input;
pub mod display;
