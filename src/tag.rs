//! The tag header placed immediately before every payload.

use vstd::prelude::*;

use ash::vk::SystemAllocationScope;

use crate::layout::{layout_for, make_layout, CombinedLayout, TAG_SIZE};

verus! {

/// Declares ash's `vk::SystemAllocationScope` so that a tag can hold the caller's
/// scope; the value is carried through verbatim and never inspected.
#[verifier::external_type_specification]
#[verifier::external_body]
pub struct ExSystemAllocationScope(SystemAllocationScope);

/// Sentinel written into every tag; a tag without it was not issued here or was corrupted.
pub const MT_MAGIC: u64 = 0x7EE7_ABBA_CAFE_B00B;

/// Metadata stored in front of a payload.
#[derive(Clone, Copy)]
pub struct MemoryTag {
    /// Sentinel, equal to `MT_MAGIC` in every tag this adapter wrote.
    pub magic: u64,
    /// Payload size as requested by the caller.
    pub size: usize,
    /// Payload alignment as requested by the caller.
    pub align: usize,
    /// Caller-supplied scope, stored verbatim.
    pub scope: SystemAllocationScope,
    /// Start address of the underlying (header + payload) allocation.
    pub base: usize,
}

/// The tag written for a payload of `size` bytes aligned to `align` whose
/// underlying allocation starts at `base`.
pub open spec fn fresh_tag(size: usize, align: usize, scope: SystemAllocationScope, base: usize) -> MemoryTag {
    MemoryTag { magic: MT_MAGIC, size, align, scope, base }
}

/// Address of the tag that belongs to the payload at `payload`, if there is room for one.
pub open spec fn tag_address_of(payload: int) -> Option<usize> {
    if payload >= TAG_SIZE {
        Some((payload - TAG_SIZE) as usize)
    } else {
        None
    }
}

impl MemoryTag {
    /// A freshly stamped tag.
    pub fn new(size: usize, align: usize, scope: SystemAllocationScope, base: usize) -> (r: MemoryTag)
        ensures
            r == fresh_tag(size, align, scope, base),
    {
        MemoryTag { magic: MT_MAGIC, size, align, scope, base }
    }

    /// The combined layout of the allocation this tag describes.
    pub fn layout(&self) -> (r: Option<CombinedLayout>)
        ensures
            r == layout_for(self.size as int, self.align as int),
    {
        make_layout(self.size, self.align)
    }
}

/// Checks the sentinel of a tag recovered from a payload address.
pub fn validate_alloc(tag: &MemoryTag) -> (r: bool)
    ensures
        r == (tag.magic == MT_MAGIC),
{
    tag.magic == MT_MAGIC
}

/// Address of the tag that belongs to the payload at `payload`; `None` for a
/// null or otherwise too small address.
pub fn tag_address(payload: usize) -> (r: Option<usize>)
    ensures
        r == tag_address_of(payload as int),
{
    if payload >= TAG_SIZE {
        Some(payload - TAG_SIZE)
    } else {
        None
    }
}

} // verus!
