//! A minimal cooperative task scheduler: suspendable computations are spawned
//! onto a bounded ready queue, an executor polls them one at a time, and a
//! parked computation is resumed later through a wake handle that re-enqueues
//! its task.

use vstd::prelude::*;

pub mod executor;
pub mod simple_future;
pub mod socket_read;
pub mod timer_future;

verus! {

/// The reference capacity for the ready queue: embeddings that want the
/// stock bound pass it to `new_executor_and_spawner`.
pub const MAX_QUEUED_TASKS: usize = 10000;

} // verus!
