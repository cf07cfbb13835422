//! Properties that relate several steps of the adapter.

use vstd::prelude::*;

use ash::vk::SystemAllocationScope;

use crate::adapter::{
    free_plan_for, lemma_placement_aligned, placement_for, realloc_plan_for, tag_is_sound,
    AdapterError, FreePlan,
};
use crate::layout::{effective_align, layout_for, CombinedLayout};
use crate::tag::{tag_address_of, MemoryTag, MT_MAGIC};

verus! {

/// A tag placed for a request records exactly that request and carries the
/// sentinel; it is found again from the payload address, and freeing through it
/// releases the very allocation it was placed in.
pub proof fn lemma_placed_tag_recovers_request(
    base: usize,
    layout: CombinedLayout,
    size: usize,
    align: usize,
    scope: SystemAllocationScope,
)
    requires
        layout_for(size as int, align as int) == Some(layout),
        base as int % layout.align as int == 0,
        base + layout.size <= usize::MAX,
    ensures
        placement_for(base, layout, size, align, scope).tag.size == size,
        placement_for(base, layout, size, align, scope).tag.align == align,
        placement_for(base, layout, size, align, scope).tag.magic == MT_MAGIC,
        tag_is_sound(placement_for(base, layout, size, align, scope).tag),
        tag_address_of(placement_for(base, layout, size, align, scope).payload as int) == Some(
            placement_for(base, layout, size, align, scope).tag_address,
        ),
        free_plan_for(placement_for(base, layout, size, align, scope).tag) == Ok::<
            FreePlan,
            AdapterError,
        >(FreePlan { base, layout, size }),
{
    lemma_placement_aligned(base, layout, size, align);
}

/// The payload bytes of an underlying block with combined `layout`.
pub open spec fn payload_bytes(block: Seq<u8>, layout: CombinedLayout, size: int) -> Seq<u8> {
    block.subrange(layout.offset as int, layout.offset + size)
}

/// When the underlying grow or shrink keeps the block's bytes up to the smaller of
/// the two combined sizes, the first `min(old_size, new_size)` payload bytes
/// survive a reallocation that keeps the effective alignment.
pub proof fn lemma_reallocation_preserves_payload(
    tag: MemoryTag,
    size: usize,
    align: usize,
    old_block: Seq<u8>,
    new_block: Seq<u8>,
)
    requires
        realloc_plan_for(tag, size, align) is Ok,
        effective_align(tag.align as int) == effective_align(align as int),
        old_block.len() == realloc_plan_for(tag, size, align)->Ok_0.old_layout.size,
        new_block.len() == realloc_plan_for(tag, size, align)->Ok_0.new_layout.size,
        forall|i: int|
            0 <= i < old_block.len() && 0 <= i < new_block.len() ==> new_block[i] == old_block[i],
    ensures
        ({
            let plan = realloc_plan_for(tag, size, align)->Ok_0;
            forall|i: int|
                0 <= i < plan.old_size && 0 <= i < plan.new_size ==> payload_bytes(
                    new_block,
                    plan.new_layout,
                    plan.new_size as int,
                )[i] == payload_bytes(old_block, plan.old_layout, plan.old_size as int)[i]
        }),
{
    let plan = realloc_plan_for(tag, size, align)->Ok_0;
    assert(plan.old_layout.offset == plan.new_layout.offset);
}

/// Sum of a sequence of sizes.
pub open spec fn total(sizes: Seq<usize>) -> int
    decreases sizes.len(),
{
    if sizes.len() == 0 {
        0
    } else {
        total(sizes.drop_last()) + sizes.last()
    }
}

proof fn lemma_counter_steps(sizes: Seq<usize>, counts: Seq<int>, sign: int, k: int)
    requires
        counts.len() == sizes.len() + 1,
        forall|i: int| 0 <= i < sizes.len() ==> counts[i + 1] == counts[i] + sign * sizes[i],
        0 <= k <= sizes.len(),
    ensures
        counts[k] == counts[0] + sign * total(sizes.take(k)),
    decreases k,
{
    if k > 0 {
        lemma_counter_steps(sizes, counts, sign, k - 1);
        assert(sizes.take(k).drop_last() =~= sizes.take(k - 1));
        assert(sign * total(sizes.take(k)) == sign * total(sizes.take(k - 1)) + sign * sizes[k
            - 1]) by (nonlinear_arith)
            requires
                total(sizes.take(k)) == total(sizes.take(k - 1)) + sizes[k - 1],
        ;
    } else {
        assert(sizes.take(0) =~= Seq::<usize>::empty());
    }
}

/// Taking one size out of a sequence takes it out of the sum.
proof fn lemma_total_remove(sizes: Seq<usize>, i: int)
    requires
        0 <= i < sizes.len(),
    ensures
        total(sizes) == total(sizes.remove(i)) + sizes[i],
    decreases sizes.len(),
{
    if i == sizes.len() - 1 {
        assert(sizes.remove(i) =~= sizes.drop_last());
    } else {
        lemma_total_remove(sizes.drop_last(), i);
        assert(sizes.remove(i).drop_last() =~= sizes.drop_last().remove(i));
    }
}

/// Two sequences holding the same sizes, in any order, have the same sum.
proof fn lemma_total_permutation(a: Seq<usize>, b: Seq<usize>)
    requires
        a.to_multiset() == b.to_multiset(),
    ensures
        total(a) == total(b),
    decreases a.len(),
{
    broadcast use vstd::seq_lib::group_to_multiset_ensures;

    if a.len() == 0 {
        assert(a.to_multiset().len() == 0);
        assert(b.len() == b.to_multiset().len());
    } else {
        let x = a.last();
        assert(a =~= a.drop_last().push(x));
        assert(a.to_multiset() =~= a.drop_last().to_multiset().insert(x));
        assert(b.to_multiset().count(x) > 0);
        assert(b.contains(x));
        let idx = choose|idx: int| 0 <= idx < b.len() && b[idx] == x;
        assert(b.remove(idx).to_multiset() =~= b.to_multiset().remove(x));
        assert(a.drop_last().to_multiset() =~= a.to_multiset().remove(x));
        lemma_total_permutation(a.drop_last(), b.remove(idx));
        lemma_total_remove(b, idx);
    }
}

/// From a zero counter, allocations of `sizes` (each adding its payload size, as
/// `commit_allocation` ensures) leave the counter at the sum of the sizes; freeing
/// them all again in any order `freed` (each taking its size off, as `commit_free`
/// ensures) brings it back to zero.
pub proof fn lemma_allocated_sums_sizes(
    sizes: Seq<usize>,
    after_allocs: Seq<int>,
    freed: Seq<usize>,
    after_frees: Seq<int>,
)
    requires
        after_allocs.len() == sizes.len() + 1,
        after_allocs[0] == 0,
        forall|i: int|
            0 <= i < sizes.len() ==> after_allocs[i + 1] == after_allocs[i] + sizes[i],
        freed.to_multiset() == sizes.to_multiset(),
        after_frees.len() == freed.len() + 1,
        after_frees[0] == after_allocs.last(),
        forall|i: int|
            0 <= i < freed.len() ==> after_frees[i + 1] == after_frees[i] - freed[i],
    ensures
        after_allocs.last() == total(sizes),
        after_frees.last() == 0,
{
    let n = sizes.len() as int;
    let m = freed.len() as int;
    assert forall|i: int| 0 <= i < n implies after_allocs[i + 1] == after_allocs[i] + 1 * sizes[i] by {}
    assert forall|i: int| 0 <= i < m implies after_frees[i + 1] == after_frees[i] + (-1) * freed[i] by {}
    lemma_counter_steps(sizes, after_allocs, 1, n);
    lemma_counter_steps(freed, after_frees, -1, m);
    assert(sizes.take(n) =~= sizes);
    assert(freed.take(m) =~= freed);
    lemma_total_permutation(freed, sizes);
}

} // verus!
