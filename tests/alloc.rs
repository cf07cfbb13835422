use std::collections::HashMap;

use ash::vk::SystemAllocationScope;
use crowbar::adapter::{AdapterError, CrowbarVkAllocator, FreePlan, Placement, ReallocPlan};
use crowbar::layout::{is_power_of_two, make_layout, CombinedLayout, TAG_SIZE};
use crowbar::tag::{tag_address, validate_alloc, MemoryTag, MT_MAGIC};

/// A stand-in for host memory: bytes by address, and the tags stored in it.
struct SimMemory {
    bytes: Vec<u8>,
    tags: HashMap<usize, MemoryTag>,
}

impl SimMemory {
    fn new() -> SimMemory {
        SimMemory { bytes: vec![0u8; 1 << 16], tags: HashMap::new() }
    }

    fn store(&mut self, p: &Placement) {
        self.tags.insert(p.tag_address, p.tag);
    }

    fn recover(&self, payload: usize) -> MemoryTag {
        let at = tag_address(payload).expect("payload has room for a tag");
        *self.tags.get(&at).expect("tag present")
    }
}

fn sim_alloc(
    a: &mut CrowbarVkAllocator<()>,
    mem: &mut SimMemory,
    base: usize,
    size: usize,
    align: usize,
) -> Option<usize> {
    let layout = make_layout(size, align)?;
    let p = a.commit_allocation(layout, base, size, align, SystemAllocationScope::INSTANCE);
    mem.store(&p);
    Some(p.payload)
}

#[test]
fn allocate() {
    const SIZE: usize = 320;
    const ALIGN: usize = 128;
    let mut a = CrowbarVkAllocator::new(());
    let mut mem = SimMemory::new();
    let before = a.allocated;

    let alloc = sim_alloc(&mut a, &mut mem, 1024, SIZE, ALIGN).expect("Allocation in test must succeed.");
    assert!(alloc != 0, "Allocation in test must succeed.");
    assert!(validate_alloc(&mem.recover(alloc)), "Allocation validation failed.");
    assert!(alloc % ALIGN == 0, "Allocation alignment is incorrect.");

    for i in 0..SIZE {
        mem.bytes[alloc + i] = 37;
    }

    let tag = mem.recover(alloc);
    let plan = a.plan_reallocation(&tag, SIZE * 2, ALIGN).expect("Allocation in test must succeed.");
    assert!(plan.grow);
    // The underlying grow moves the block to a fresh base, keeping its bytes.
    let new_base = 8192;
    for i in 0..plan.old_layout.size {
        mem.bytes[new_base + i] = mem.bytes[plan.base + i];
    }
    let p = a.commit_reallocation(&plan, new_base, SystemAllocationScope::INSTANCE);
    mem.store(&p);
    let alloc = p.payload;

    assert!(alloc != 0, "Allocation in test must succeed.");
    assert!(validate_alloc(&mem.recover(alloc)), "Allocation validation failed.");
    assert!(alloc % ALIGN == 0, "Allocation alignment is incorrect.");
    for i in 0..SIZE {
        assert_eq!(mem.bytes[alloc + i], 37, "Reallocation grow garbled memory.");
    }

    let fp = a.plan_free(&mem.recover(alloc)).expect("tag is sound");
    assert_eq!(fp.base, new_base);
    a.commit_free(&fp);
    assert_eq!(a.allocated, before);
}

#[test]
fn reasonable_failure() {
    let a = CrowbarVkAllocator::new(());
    let alloc = make_layout(usize::MAX, 1);
    assert!(alloc.is_none(), "Allocation should fail gracefully.");

    let alloc = make_layout(4, usize::MAX);
    assert!(alloc.is_none(), "Allocation should fail gracefully.");
    assert_eq!(a.allocated, 0);
}

#[test]
fn layout_values() {
    assert_eq!(make_layout(320, 128), Some(CombinedLayout { size: 448, align: 128, offset: 128 }));
    assert_eq!(make_layout(4, 1), Some(CombinedLayout { size: 44, align: 8, offset: 40 }));
    assert_eq!(make_layout(0, 8), Some(CombinedLayout { size: 40, align: 8, offset: 40 }));
    assert_eq!(make_layout(10, 16), Some(CombinedLayout { size: 58, align: 16, offset: 48 }));
    assert_eq!(make_layout(10, 32), Some(CombinedLayout { size: 74, align: 32, offset: 64 }));
    assert_eq!(make_layout(1, 64), Some(CombinedLayout { size: 65, align: 64, offset: 64 }));
    assert_eq!(make_layout(4, 0), None);
    assert_eq!(make_layout(4, 3), None);
    assert_eq!(make_layout(4, 24), None);
}

#[test]
fn layout_size_limit() {
    let max = usize::MAX / 2;
    // offset 40, alignment 8: the total rounded up to 8 must stay within the limit.
    assert_eq!(make_layout(max - 47, 1), Some(CombinedLayout { size: max - 7, align: 8, offset: 40 }));
    assert_eq!(make_layout(max - 46, 1), None);
    assert_eq!(make_layout(1, 1usize << 63), None);
    assert_eq!(
        make_layout(0, 1usize << 62),
        Some(CombinedLayout { size: 1usize << 62, align: 1usize << 62, offset: 1usize << 62 })
    );
}

#[test]
fn power_of_two_check() {
    assert!(!is_power_of_two(0));
    assert!(is_power_of_two(1));
    assert!(is_power_of_two(2));
    assert!(!is_power_of_two(6));
    assert!(is_power_of_two(1usize << 63));
    assert!(!is_power_of_two(usize::MAX));
}

#[test]
fn placement_for_small_alignment() {
    let mut a = CrowbarVkAllocator::new(());
    let layout = make_layout(16, 4).unwrap();
    let p = a.commit_allocation(layout, 64, 16, 4, SystemAllocationScope::DEVICE);
    assert_eq!(p.payload, 104);
    assert_eq!(p.tag_address, 64);
    assert_eq!(p.tag.size, 16);
    assert_eq!(p.tag.align, 4);
    assert_eq!(p.tag.base, 64);
    assert_eq!(p.tag.magic, MT_MAGIC);
    assert_eq!(p.tag.scope, SystemAllocationScope::DEVICE);
    assert_eq!(a.allocated, 16);
    assert_eq!(a.driver_allocated, 0);
}

#[test]
fn counter_sums_sizes_and_returns_to_zero() {
    let mut a = CrowbarVkAllocator::new(());
    let mut mem = SimMemory::new();
    let sizes = [5usize, 100, 1, 0, 33];
    let mut payloads = Vec::new();
    let mut base = 256;
    for s in sizes {
        payloads.push(sim_alloc(&mut a, &mut mem, base, s, 8).unwrap());
        base += 1024;
    }
    assert_eq!(a.allocated, 139);
    for k in [3usize, 0, 4, 1, 2] {
        let p = payloads[k];
        let fp = a.plan_free(&mem.recover(p)).unwrap();
        a.commit_free(&fp);
    }
    assert_eq!(a.allocated, 0);
}

#[test]
fn reallocation_adjusts_counter() {
    let mut a = CrowbarVkAllocator::new(());
    let mut mem = SimMemory::new();
    let p = sim_alloc(&mut a, &mut mem, 512, 100, 16).unwrap();
    assert_eq!(a.allocated, 100);

    let plan = a.plan_reallocation(&mem.recover(p), 250, 16).unwrap();
    assert!(plan.grow);
    let q = a.commit_reallocation(&plan, 512, SystemAllocationScope::OBJECT);
    mem.store(&q);
    assert_eq!(a.allocated, 250);

    let plan = a.plan_reallocation(&mem.recover(q.payload), 30, 16).unwrap();
    assert!(!plan.grow);
    assert_eq!(
        plan,
        ReallocPlan {
            base: 512,
            old_size: 250,
            old_layout: CombinedLayout { size: 298, align: 16, offset: 48 },
            new_size: 30,
            new_align: 16,
            new_layout: CombinedLayout { size: 78, align: 16, offset: 48 },
            grow: false,
        }
    );
    let r = a.commit_reallocation(&plan, 512, SystemAllocationScope::OBJECT);
    assert_eq!(a.allocated, 30);
    assert_eq!(r.payload, 560);
}

#[test]
fn failed_reallocation_leaves_state() {
    let mut a = CrowbarVkAllocator::new(());
    let mut mem = SimMemory::new();
    let p = sim_alloc(&mut a, &mut mem, 512, 100, 16).unwrap();
    let tag = mem.recover(p);
    assert_eq!(a.plan_reallocation(&tag, 10, 3), Err(AdapterError::InvalidRequest));
    assert_eq!(a.plan_reallocation(&tag, usize::MAX, 8), Err(AdapterError::InvalidRequest));
    assert_eq!(a.allocated, 100);
    assert_eq!(mem.recover(p).size, 100);
}

#[test]
fn foreign_tags_are_refused() {
    let a = CrowbarVkAllocator::new(());
    let mut tag = MemoryTag::new(10, 8, SystemAllocationScope::CACHE, 0);
    assert!(validate_alloc(&tag));
    assert_eq!(
        a.plan_free(&tag),
        Ok(FreePlan { base: 0, layout: CombinedLayout { size: 50, align: 8, offset: 40 }, size: 10 })
    );
    tag.magic = 0;
    assert!(!validate_alloc(&tag));
    assert_eq!(a.plan_free(&tag), Err(AdapterError::ForeignPointer));
    assert_eq!(a.plan_reallocation(&tag, 10, 8), Err(AdapterError::ForeignPointer));
    let bad = MemoryTag::new(10, 12, SystemAllocationScope::CACHE, 0);
    assert_eq!(a.plan_free(&bad), Err(AdapterError::ForeignPointer));
    assert_eq!(tag.layout(), Some(CombinedLayout { size: 50, align: 8, offset: 40 }));
    assert_eq!(bad.layout(), None);
}

#[test]
fn tag_address_of_payload() {
    assert_eq!(tag_address(0), None);
    assert_eq!(tag_address(TAG_SIZE - 1), None);
    assert_eq!(tag_address(TAG_SIZE), Some(0));
    assert_eq!(tag_address(1152), Some(1112));
}
