//! Verified core of the anonymous-pipe pumps: the byte ring shared by a
//! pipe handle and its worker thread, and the decision machines that the
//! handle calls and the worker loops follow.

use vstd::prelude::*;

pub mod call;
pub mod flow;
pub mod pump;
pub mod ring;

verus! {

/// Number of bytes the ring shared by a handle and its worker can hold.
pub const RING_CAPACITY: usize = 65536;

/// Number of bytes a worker moves through the pipe in one pipe call.
pub const CHUNK_LEN: usize = 65535;

} // verus!
