//! Composition of the combined (tag header + payload) layout.

use vstd::prelude::*;

verus! {

/// Size in bytes of the tag header stored in front of every payload.
pub const TAG_SIZE: usize = 40;

/// Natural alignment of the tag header.
pub const TAG_ALIGN: usize = 8;

/// Largest size a layout may have once rounded up to its alignment.
pub const MAX_LAYOUT_SIZE: usize = usize::MAX / 2;

/// `n` is a power of two.
pub open spec fn power_of_two(n: int) -> bool
    decreases n,
{
    if n <= 0 {
        false
    } else if n == 1 {
        true
    } else {
        n % 2 == 0 && power_of_two(n / 2)
    }
}

/// Alignment of the combined allocation: the larger of the payload's and the header's.
pub open spec fn effective_align(align: int) -> int {
    if align > TAG_ALIGN {
        align
    } else {
        TAG_ALIGN as int
    }
}

/// Smallest multiple of `a` that leaves room for the header: where the payload starts.
pub open spec fn payload_offset(a: int) -> int
    recommends
        a > 0,
{
    ((TAG_SIZE + a - 1) / a) * a
}

/// A combined layout: header and payload in one underlying allocation.
#[derive(Clone, Copy, PartialEq, Eq, Structural, Debug)]
pub struct CombinedLayout {
    /// Total size of the underlying allocation.
    pub size: usize,
    /// Alignment of the underlying allocation.
    pub align: usize,
    /// Offset of the payload from the start of the allocation.
    pub offset: usize,
}

/// The combined layout for a payload of `size` bytes aligned to `align`, or `None`
/// when `align` is not a power of two or the total would exceed the layout limit.
pub open spec fn layout_for(size: int, align: int) -> Option<CombinedLayout> {
    let a = effective_align(align);
    let off = payload_offset(a);
    if power_of_two(align) && off + size + a - 1 <= MAX_LAYOUT_SIZE {
        Some(CombinedLayout { size: (off + size) as usize, align: a as usize, offset: off as usize })
    } else {
        None
    }
}

/// Decides whether `n` is a power of two.
pub fn is_power_of_two(n: usize) -> (r: bool)
    ensures
        r == power_of_two(n as int),
{
    if n == 0 {
        return false;
    }
    let mut m: usize = n;
    while m > 1 && m % 2 == 0
        invariant
            m >= 1,
            power_of_two(n as int) == power_of_two(m as int),
        decreases m,
    {
        m = m / 2;
    }
    m == 1
}

/// Of two powers of two, the larger is a multiple of the smaller.
pub proof fn lemma_power_of_two_divides(a: int, b: int)
    requires
        power_of_two(a),
        power_of_two(b),
        a <= b,
    ensures
        b % a == 0,
    decreases b,
{
    if a == 1 {
    } else {
        assert(b != 1);
        lemma_power_of_two_divides(a / 2, b / 2);
        let k = (b / 2) / (a / 2);
        assert(b / 2 == k * (a / 2)) by (nonlinear_arith)
            requires
                (b / 2) % (a / 2) == 0,
                a / 2 > 0,
                k == (b / 2) / (a / 2),
        ;
        assert(b == k * a) by (nonlinear_arith)
            requires
                b / 2 == k * (a / 2),
                b % 2 == 0,
                a % 2 == 0,
        ;
        assert(b % a == 0) by (nonlinear_arith)
            requires
                b == k * a,
                a > 0,
        ;
    }
}

/// The payload offset is a multiple of `a`, at least the header's size, and
/// at most the header's size plus `a - 1`.
pub proof fn lemma_payload_offset(a: int)
    requires
        a > 0,
    ensures
        payload_offset(a) % a == 0,
        TAG_SIZE <= payload_offset(a) < TAG_SIZE + a,
        a >= TAG_SIZE ==> payload_offset(a) == a,
{
    let x = TAG_SIZE + a - 1;
    let q = x / a;
    assert(x == a * q + x % a && 0 <= x % a < a) by (nonlinear_arith)
        requires
            a > 0,
            q == x / a,
    ;
    assert((q * a) % a == 0) by (nonlinear_arith)
        requires
            a > 0,
    ;
    assert(a * q == q * a) by (nonlinear_arith);
    if a >= TAG_SIZE {
        assert(q == 1) by (nonlinear_arith)
            requires
                x == a * q + x % a,
                0 <= x % a < a,
                x == TAG_SIZE + a - 1,
                a >= TAG_SIZE,
        ;
    }
}

/// Composes the combined layout for a payload of `size` bytes aligned to `align`.
/// Fails when `align` is not a power of two or the combined layout overflows.
pub fn make_layout(size: usize, align: usize) -> (r: Option<CombinedLayout>)
    ensures
        r == layout_for(size as int, align as int),
{
    if !is_power_of_two(align) {
        return None;
    }
    let a: usize = if align > TAG_ALIGN {
        align
    } else {
        TAG_ALIGN
    };
    proof {
        lemma_payload_offset(a as int);
    }
    let off: usize = if a >= TAG_SIZE {
        a
    } else {
        (TAG_SIZE + a - 1) / a * a
    };
    if a - 1 > MAX_LAYOUT_SIZE || off > MAX_LAYOUT_SIZE - (a - 1) {
        return None;
    }
    if size > MAX_LAYOUT_SIZE - (a - 1) - off {
        return None;
    }
    Some(CombinedLayout { size: off + size, align: a, offset: off })
}

} // verus!
