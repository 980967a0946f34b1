// The coordination core of a multi-exchange trading engine: hierarchical
// cancellation, exchange blocking, sliding-window request limits with
// threshold triggers, and the graceful shutdown sequence. Each part is a
// state machine; the async runtime around it performs the work it hands out.
use vstd::prelude::*;

pub mod account;
pub mod application_manager;
pub mod blocker;
pub mod cancellation;
pub mod engine;
pub mod rate_limit;
pub mod shutdown;
pub mod strategy;
pub mod trigger_scheduler;
