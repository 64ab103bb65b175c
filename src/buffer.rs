//! Buffers: each owns the memory the allocator gave it.
use vstd::prelude::*;

use gpu_allocator::vulkan::Allocation;

use crate::image::{AllocationRequest, ReleaseStep};
use crate::usage::{buffer_location, memory_location, BufferUsage};

verus! {

#[derive(Clone, Copy, Debug, PartialEq, Eq, Structural)]
pub struct BufferDesc {
    pub size: u64,
    pub usage: BufferUsage,
}

/// Buffer memory is always linear; where it goes follows from the usage, see
/// [`buffer_location`].
pub fn buffer_allocation_request(desc: &BufferDesc) -> (r: AllocationRequest)
    ensures
        r.location == buffer_location(desc.usage.bits),
        r.linear,
{
    AllocationRequest { location: memory_location(&desc.usage), linear: true }
}

pub struct Buffer {
    raw: u64,
    desc: BufferDesc,
    allocation: Allocation,
}

impl Buffer {
    pub closed spec fn spec_raw(&self) -> u64 {
        self.raw
    }

    pub closed spec fn spec_desc(&self) -> BufferDesc {
        self.desc
    }

    pub closed spec fn spec_allocation(&self) -> Allocation {
        self.allocation
    }

    /// A buffer that owns `allocation`, bound to it by the caller.
    pub fn new(raw: u64, desc: BufferDesc, allocation: Allocation) -> (r: Buffer)
        ensures
            r.spec_raw() == raw,
            r.spec_desc() == desc,
            r.spec_allocation() == allocation,
    {
        Buffer { raw, desc, allocation }
    }

    pub fn raw(&self) -> (r: u64)
        ensures
            r == self.spec_raw(),
    {
        self.raw
    }

    pub fn desc(&self) -> (r: BufferDesc)
        ensures
            r == self.spec_desc(),
    {
        self.desc
    }

    pub fn allocation(&self) -> (r: &Allocation)
        ensures
            *r == self.spec_allocation(),
    {
        &self.allocation
    }

    /// Takes the buffer apart into the steps that release it: its memory goes back
    /// to the allocator first, then the buffer is destroyed.
    pub fn release(self) -> (r: Vec<ReleaseStep>)
        ensures
            r@ == seq![
                ReleaseStep::FreeAllocation(self.spec_allocation()),
                ReleaseStep::DestroyBuffer(self.spec_raw()),
            ],
    {
        let Buffer { raw, desc: _, allocation } = self;
        let mut steps: Vec<ReleaseStep> = Vec::new();
        steps.push(ReleaseStep::FreeAllocation(allocation));
        steps.push(ReleaseStep::DestroyBuffer(raw));
        proof {
            assert(steps@ =~= seq![
                ReleaseStep::FreeAllocation(self.spec_allocation()),
                ReleaseStep::DestroyBuffer(self.spec_raw()),
            ]);
        }
        steps
    }
}

} // verus!
