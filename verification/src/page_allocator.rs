//! The physical-frame allocation interface the mapping engine draws from
//! when it has to install a missing intermediate table.
use vstd::prelude::*;

use crate::addr::PhyAddr;
use crate::table::valid_frame_addr;

verus! {

#[derive(Debug, Copy, Clone, PartialEq, Eq, Structural)]
pub enum AllocationError {
    /// No physical frame is left.
    OutOfMemory,
    /// The allocator's own virtual window is exhausted.
    OutOfVirtualMemory,
}

/// A source of page-aligned physical frames.
///
/// `avail()` is the number of frames the allocator can still hand out:
/// allocation is owed success while it is positive, and every success
/// consumes exactly one frame. Frames are never returned: the count only
/// falls.
pub trait Allocator: Sized {
    /// The allocator's own well-formedness; every operation keeps it.
    spec fn wf(&self) -> bool;

    spec fn avail(&self) -> nat;

    /// Hand out one page-aligned frame.
    fn allocate(&mut self) -> (r: Result<PhyAddr, AllocationError>)
        requires
            old(self).wf(),
        ensures
            final(self).wf(),
            old(self).avail() > 0 ==> r is Ok,
            r matches Ok(f) ==> valid_frame_addr(f.0) && final(self).avail() == old(self).avail()
                - 1,
            r is Err ==> *final(self) == *old(self) && old(self).avail() == 0 && r == Err::<
                PhyAddr,
                AllocationError,
            >(AllocationError::OutOfMemory),
    ;

    /// Hand out one page-aligned frame whose content has been cleared.
    ///
    /// Frame contents live outside this model; the distinct name mirrors the
    /// two ways the engine and its clients ask for memory.
    fn allocate_zeroed(&mut self) -> (r: Result<PhyAddr, AllocationError>)
        requires
            old(self).wf(),
        ensures
            final(self).wf(),
            old(self).avail() > 0 ==> r is Ok,
            r matches Ok(f) ==> valid_frame_addr(f.0) && final(self).avail() == old(self).avail()
                - 1,
            r is Err ==> *final(self) == *old(self) && old(self).avail() == 0 && r == Err::<
                PhyAddr,
                AllocationError,
            >(AllocationError::OutOfMemory),
    ;

    /// Total bytes of physical memory the allocator has taken charge of.
    fn total_memory(&self) -> u64
        requires
            self.wf(),
    ;
}

} // verus!
