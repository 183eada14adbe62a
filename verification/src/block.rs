use vstd::prelude::*;

verus! {

/// Metadata of one block: its identity, payload size in bytes, scheduling
/// priority (lower is more urgent) and deadline (a time budget).  For a
/// single session ids are unique and assigned in increasing order.
#[derive(Debug, Clone, Copy, PartialEq, Eq, Structural)]
pub struct BlockInfo {
    pub id: usize,
    pub size: usize,
    pub priority: usize,
    pub deadline: usize,
}

} // verus!
