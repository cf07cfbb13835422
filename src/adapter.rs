//! The adapter: the allocation, reallocation and free steps and the usage counters.
//!
//! Each callback is split in two. A plan step decides, from the request and the
//! recovered tag, what the underlying allocator must be asked for. A commit step,
//! given the address the underlying allocator returned, accounts for the bytes and
//! says where the fresh tag and the payload go.

use vstd::arithmetic::div_mod::lemma_mod_multiples_basic;
use vstd::prelude::*;

use ash::vk::SystemAllocationScope;

use crate::layout::{
    effective_align, layout_for, lemma_payload_offset, lemma_power_of_two_divides,
    make_layout, power_of_two, CombinedLayout, TAG_ALIGN, TAG_SIZE,
};
use crate::tag::{fresh_tag, validate_alloc, MemoryTag, MT_MAGIC};

verus! {

/// An allocator adapter that tracks the bytes handed out through it.
pub struct CrowbarVkAllocator<A> {
    /// The underlying allocator that provides the memory.
    pub allocator: A,
    /// Payload bytes currently allocated through this adapter.
    pub allocated: usize,
    /// Bytes the driver reports managing itself; never changed by the adapter.
    pub driver_allocated: usize,
}

/// Where a fresh tag and its payload go inside an underlying allocation.
#[derive(Clone, Copy)]
pub struct Placement {
    /// Address of the tag header.
    pub tag_address: usize,
    /// Address of the payload handed to the caller.
    pub payload: usize,
    /// The tag to store at `tag_address`.
    pub tag: MemoryTag,
}

/// Why a reallocation or free cannot go ahead.
#[derive(Clone, Copy, PartialEq, Eq, Structural, Debug)]
pub enum AdapterError {
    /// The recovered tag lacks the sentinel or describes no valid layout.
    ForeignPointer,
    /// The requested size and alignment give no valid layout.
    InvalidRequest,
}

/// What the underlying allocator must do for a reallocation.
#[derive(Clone, Copy, PartialEq, Eq, Structural, Debug)]
pub struct ReallocPlan {
    /// Start of the current underlying allocation.
    pub base: usize,
    /// Current payload size.
    pub old_size: usize,
    /// Current combined layout.
    pub old_layout: CombinedLayout,
    /// Requested payload size.
    pub new_size: usize,
    /// Requested payload alignment.
    pub new_align: usize,
    /// Requested combined layout.
    pub new_layout: CombinedLayout,
    /// Whether the underlying block grows (else it shrinks or keeps its size).
    pub grow: bool,
}

/// What the underlying allocator must release for a free.
#[derive(Clone, Copy, PartialEq, Eq, Structural, Debug)]
pub struct FreePlan {
    /// Start of the underlying allocation.
    pub base: usize,
    /// Its combined layout.
    pub layout: CombinedLayout,
    /// The payload size to take off the usage counter.
    pub size: usize,
}

/// A tag that this adapter could have written: sentinel present, layout valid.
pub open spec fn tag_is_sound(tag: MemoryTag) -> bool {
    tag.magic == MT_MAGIC && layout_for(tag.size as int, tag.align as int) is Some
}

/// The placement inside an underlying allocation at `base` with combined `layout`.
pub open spec fn placement_for(
    base: usize,
    layout: CombinedLayout,
    size: usize,
    align: usize,
    scope: SystemAllocationScope,
) -> Placement {
    Placement {
        tag_address: (base + layout.offset - TAG_SIZE) as usize,
        payload: (base + layout.offset) as usize,
        tag: fresh_tag(size, align, scope, base),
    }
}

/// The plan for reallocating the payload described by `tag` to `size` bytes aligned to `align`.
pub open spec fn realloc_plan_for(tag: MemoryTag, size: usize, align: usize) -> Result<
    ReallocPlan,
    AdapterError,
> {
    if !tag_is_sound(tag) {
        Err(AdapterError::ForeignPointer)
    } else if layout_for(size as int, align as int) is None {
        Err(AdapterError::InvalidRequest)
    } else {
        let old_layout = layout_for(tag.size as int, tag.align as int)->Some_0;
        let new_layout = layout_for(size as int, align as int)->Some_0;
        Ok(
            ReallocPlan {
                base: tag.base,
                old_size: tag.size,
                old_layout,
                new_size: size,
                new_align: align,
                new_layout,
                grow: old_layout.size < new_layout.size,
            },
        )
    }
}

/// The plan for freeing the payload described by `tag`.
pub open spec fn free_plan_for(tag: MemoryTag) -> Result<FreePlan, AdapterError> {
    if !tag_is_sound(tag) {
        Err(AdapterError::ForeignPointer)
    } else {
        Ok(
            FreePlan {
                base: tag.base,
                layout: layout_for(tag.size as int, tag.align as int)->Some_0,
                size: tag.size,
            },
        )
    }
}

/// Inside an underlying allocation aligned to its combined layout, the payload is
/// aligned as requested and the tag sits, aligned, between the base and the payload.
pub proof fn lemma_placement_aligned(base: usize, layout: CombinedLayout, size: usize, align: usize)
    requires
        layout_for(size as int, align as int) == Some(layout),
        base as int % layout.align as int == 0,
    ensures
        (base + layout.offset) % (align as int) == 0,
        (base + layout.offset - TAG_SIZE) % (TAG_ALIGN as int) == 0,
        base + layout.offset - TAG_SIZE >= base,
        base + layout.offset + size == base + layout.size,
{
    let a = effective_align(align as int);
    assert(power_of_two(8)) by {
        reveal_with_fuel(power_of_two, 4);
    }
    assert(power_of_two(a));
    lemma_power_of_two_divides(align as int, a);
    lemma_power_of_two_divides(8, a);
    lemma_payload_offset(a);
    let off = layout.offset as int;
    let b = base as int;
    let i = b / a;
    let j = off / a;
    let m = a / align as int;
    let n = a / 8;
    assert(b == i * a && off == j * a && a == m * align && a == n * 8) by (nonlinear_arith)
        requires
            b % a == 0,
            off % a == 0,
            a % (align as int) == 0,
            a % 8 == 0,
            a > 0,
            align > 0,
            i == b / a,
            j == off / a,
            m == a / align as int,
            n == a / 8,
    ;
    let k = (i + j) * m;
    assert(b + off == k * align) by (nonlinear_arith)
        requires
            b == i * a,
            off == j * a,
            a == m * align,
            k == (i + j) * m,
    ;
    lemma_mod_multiples_basic(k, align as int);
    let l = (i + j) * n - 5;
    assert(b + off - 40 == l * 8) by (nonlinear_arith)
        requires
            b == i * a,
            off == j * a,
            a == n * 8,
            l == (i + j) * n - 5,
    ;
    lemma_mod_multiples_basic(l, 8);
}

impl<A> CrowbarVkAllocator<A> {
    /// An adapter over `allocator` with both counters at zero.
    pub fn new(allocator: A) -> (r: CrowbarVkAllocator<A>)
        ensures
            r.allocator == allocator,
            r.allocated == 0,
            r.driver_allocated == 0,
    {
        let b = CrowbarVkAllocator::<A> { allocator, allocated: 0, driver_allocated: 0 };
        b
    }

    /// Accounts for a successful underlying allocation of `layout` at `base`, made
    /// for a payload of `size` bytes aligned to `align`, and places its tag.
    pub fn commit_allocation(
        &mut self,
        layout: CombinedLayout,
        base: usize,
        size: usize,
        align: usize,
        scope: SystemAllocationScope,
    ) -> (r: Placement)
        requires
            layout_for(size as int, align as int) == Some(layout),
            base as int % layout.align as int == 0,
            base + layout.size <= usize::MAX,
            old(self).allocated + size <= usize::MAX,
        ensures
            r == placement_for(base, layout, size, align, scope),
            r.payload != 0,
            r.payload as int % align as int == 0,
            r.tag_address as int % TAG_ALIGN as int == 0,
            base <= r.tag_address,
            r.tag_address + TAG_SIZE == r.payload,
            r.payload + size == base + layout.size,
            final(self).allocated == old(self).allocated + size,
            final(self).driver_allocated == old(self).driver_allocated,
            final(self).allocator == old(self).allocator,
    {
        proof {
            lemma_placement_aligned(base, layout, size, align);
        }
        self.allocated = self.allocated + size;
        let payload = base + layout.offset;
        Placement {
            tag_address: payload - TAG_SIZE,
            payload,
            tag: MemoryTag::new(size, align, scope, base),
        }
    }

    /// Decides a reallocation of the payload described by `tag`. Nothing changes
    /// until the underlying allocator has succeeded and the plan is committed.
    pub fn plan_reallocation(&self, tag: &MemoryTag, size: usize, align: usize) -> (r: Result<
        ReallocPlan,
        AdapterError,
    >)
        ensures
            r == realloc_plan_for(*tag, size, align),
    {
        if !validate_alloc(tag) {
            return Err(AdapterError::ForeignPointer);
        }
        let old_layout = match tag.layout() {
            Some(l) => l,
            None => {
                return Err(AdapterError::ForeignPointer);
            },
        };
        let new_layout = match make_layout(size, align) {
            Some(l) => l,
            None => {
                return Err(AdapterError::InvalidRequest);
            },
        };
        Ok(
            ReallocPlan {
                base: tag.base,
                old_size: tag.size,
                old_layout,
                new_size: size,
                new_align: align,
                new_layout,
                grow: old_layout.size < new_layout.size,
            },
        )
    }

    /// Accounts for a successful underlying grow or shrink that moved the block
    /// to `new_base`, and places the fresh tag.
    pub fn commit_reallocation(
        &mut self,
        plan: &ReallocPlan,
        new_base: usize,
        scope: SystemAllocationScope,
    ) -> (r: Placement)
        requires
            layout_for(plan.new_size as int, plan.new_align as int) == Some(plan.new_layout),
            new_base as int % plan.new_layout.align as int == 0,
            new_base + plan.new_layout.size <= usize::MAX,
            0 <= old(self).allocated + plan.new_size - plan.old_size <= usize::MAX,
        ensures
            r == placement_for(new_base, plan.new_layout, plan.new_size, plan.new_align, scope),
            r.payload != 0,
            r.payload as int % plan.new_align as int == 0,
            r.tag_address as int % TAG_ALIGN as int == 0,
            new_base <= r.tag_address,
            r.tag_address + TAG_SIZE == r.payload,
            r.payload + plan.new_size == new_base + plan.new_layout.size,
            final(self).allocated == old(self).allocated + plan.new_size - plan.old_size,
            final(self).driver_allocated == old(self).driver_allocated,
            final(self).allocator == old(self).allocator,
    {
        proof {
            lemma_placement_aligned(new_base, plan.new_layout, plan.new_size, plan.new_align);
        }
        if plan.new_size >= plan.old_size {
            self.allocated = self.allocated + (plan.new_size - plan.old_size);
        } else {
            self.allocated = self.allocated - (plan.old_size - plan.new_size);
        }
        let payload = new_base + plan.new_layout.offset;
        Placement {
            tag_address: payload - TAG_SIZE,
            payload,
            tag: MemoryTag::new(plan.new_size, plan.new_align, scope, new_base),
        }
    }

    /// Decides the release of the payload described by `tag`.
    pub fn plan_free(&self, tag: &MemoryTag) -> (r: Result<FreePlan, AdapterError>)
        ensures
            r == free_plan_for(*tag),
    {
        if !validate_alloc(tag) {
            return Err(AdapterError::ForeignPointer);
        }
        match tag.layout() {
            Some(layout) => Ok(FreePlan { base: tag.base, layout, size: tag.size }),
            None => Err(AdapterError::ForeignPointer),
        }
    }

    /// Accounts for a released payload.
    pub fn commit_free(&mut self, plan: &FreePlan)
        requires
            old(self).allocated >= plan.size,
        ensures
            final(self).allocated == old(self).allocated - plan.size,
            final(self).driver_allocated == old(self).driver_allocated,
            final(self).allocator == old(self).allocator,
    {
        self.allocated = self.allocated - plan.size;
    }
}

} // verus!
