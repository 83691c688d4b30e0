//! Core of a dynamic-DNS host agent: address classification, snapshot
//! building, best-address selection and the debounced update worker.

use vstd::prelude::*;

pub mod addr;
pub mod classify;
pub mod config;
pub mod ddns;
pub mod kernel;
pub mod nft;
pub mod select;
pub mod snapshot;
pub mod text;
pub mod watcher;
pub mod worker;

verus! {

/// Minimum number of seconds between two processed update cycles.
pub const MIN_UPDATE_INTERVAL_S: u64 = 30;

/// The number of snapshots that the queue between watcher and worker holds
/// before the watcher has to wait.
pub const QUEUE_CAPACITY: usize = 10;

/// Seconds the worker still has to wait before it may process a cycle,
/// given the seconds that passed since the previous cycle ended.
pub open spec fn spec_dampening_wait(elapsed: u64) -> u64 {
    if elapsed < MIN_UPDATE_INTERVAL_S {
        (MIN_UPDATE_INTERVAL_S - elapsed) as u64
    } else {
        0
    }
}

/// Seconds the worker still has to wait before it may process a cycle.
pub fn dampening_wait(elapsed: u64) -> (wait: u64)
    ensures
        wait == spec_dampening_wait(elapsed),
{
    if elapsed < MIN_UPDATE_INTERVAL_S {
        MIN_UPDATE_INTERVAL_S - elapsed
    } else {
        0
    }
}

} // verus!
