//! The layout planner.
//!
//! Given the payload's size and alignment, the planner computes the one
//! combined allocation that holds, in order, the reference count, the
//! erasure-metadata record, and the payload, each field padded so that it
//! starts at an offset its alignment divides, with the total size rounded up
//! to the overall alignment. The planner is a pure function of the metadata
//! record, so the constructor and the destruction path — which by then knows
//! only the record stored in the control block — compute identical offsets.
//!
//! The model fixes the sizes of the two header fields: the count is one
//! 8-byte word aligned to 8, and the metadata record occupies 24 bytes
//! (two words and a tag) aligned to 8.

use vstd::arithmetic::div_mod::{lemma_fundamental_div_mod, lemma_mod_bound, lemma_mod_multiples_basic};
use vstd::arithmetic::mul::lemma_mul_is_commutative;
use vstd::prelude::*;

use crate::metadata::{lemma_pow2_pos, TypeMetadata};

verus! {

/// Size in bytes of the reference-count field.
pub const COUNT_SIZE: usize = 8;

/// Alignment in bytes of the reference-count field.
pub const COUNT_ALIGN: usize = 8;

/// Size in bytes of the stored erasure-metadata record.
pub const META_SIZE: usize = 24;

/// Alignment in bytes of the stored erasure-metadata record.
pub const META_ALIGN: usize = 8;

/// A size/alignment pair: the shape of one field, or of a whole allocation.
#[derive(Clone, Copy, Debug, PartialEq, Eq, Structural)]
pub struct MemLayout {
    pub size: usize,
    pub align: usize,
}

/// `n` rounded up to the next multiple of `a`.
pub open spec fn round_up_spec(n: int, a: int) -> int {
    ((n + a - 1) / a) * a
}

/// What `round_up_spec` rounds to: the least multiple of `a` that is at
/// least `n`.
pub proof fn lemma_round_up(n: int, a: int)
    requires
        n >= 0,
        a >= 1,
    ensures
        round_up_spec(n, a) % a == 0,
        n <= round_up_spec(n, a) < n + a,
{
    let m = n + a - 1;
    lemma_fundamental_div_mod(m, a);
    lemma_mod_bound(m, a);
    lemma_mul_is_commutative(m / a, a);
    lemma_mod_multiples_basic(m / a, a);
}

/// Offset of the count field: it leads the allocation.
pub open spec fn count_offset_spec() -> int {
    0
}

/// Offset of the metadata record: the count field padded to the record's
/// alignment. With the fixed header shapes this is the count field's size.
pub open spec fn meta_offset_spec() -> int {
    round_up_spec(COUNT_SIZE as int, META_ALIGN as int)
}

/// End of the fixed header: metadata offset plus metadata size.
pub open spec fn header_end_spec() -> int {
    meta_offset_spec() + META_SIZE as int
}

/// Offset of the payload: the header padded to the payload's alignment.
pub open spec fn payload_offset_spec(meta: TypeMetadata) -> int {
    round_up_spec(header_end_spec(), meta.align as int)
}

/// Overall alignment of the allocation: the strictest field alignment.
pub open spec fn total_align_spec(meta: TypeMetadata) -> int {
    if meta.align > COUNT_ALIGN {
        meta.align as int
    } else {
        COUNT_ALIGN as int
    }
}

/// Total size of the allocation: payload end rounded up to the overall
/// alignment.
pub open spec fn total_size_spec(meta: TypeMetadata) -> int {
    round_up_spec(payload_offset_spec(meta) + meta.size, total_align_spec(meta))
}

/// Whether the combined allocation for `meta` is representable at all: the
/// final rounding must stay within the address space. Mirrors the headroom a
/// layout with this alignment must keep in any case.
pub open spec fn plan_fits(meta: TypeMetadata) -> bool {
    payload_offset_spec(meta) + meta.size + total_align_spec(meta) - 1 <= usize::MAX
}

/// Runtime check of [`plan_fits`], for callers that cannot establish it
/// statically. Computed in 128-bit arithmetic, which the operands cannot
/// overflow.
pub fn layout_fits(meta: TypeMetadata) -> (b: bool)
    requires
        meta.wf(),
    ensures
        b == plan_fits(meta),
{
    proof {
        lemma_pow2_pos(meta.align as nat);
        lemma_round_up(COUNT_SIZE as int, META_ALIGN as int);
        lemma_round_up(header_end_spec(), meta.align as int);
        assert(meta_offset_spec() == COUNT_SIZE as int);
    }
    let align: u128 = meta.align as u128;
    let size: u128 = meta.size as u128;
    let header: u128 = (COUNT_SIZE + META_SIZE) as u128;
    let payload_off: u128 = ((header + align - 1) / align) * align;
    let total_align: u128 = if meta.align > COUNT_ALIGN {
        align
    } else {
        COUNT_ALIGN as u128
    };
    proof {
        assert(payload_off == payload_offset_spec(meta));
    }
    payload_off + size + total_align - 1 <= usize::MAX as u128
}

/// Rounds `n` up to the next multiple of `a`.
pub fn round_up(n: usize, a: usize) -> (r: usize)
    requires
        a >= 1,
        n + a - 1 <= usize::MAX,
    ensures
        r == round_up_spec(n as int, a as int),
        n <= r < n + a,
        r % a == 0,
{
    proof {
        lemma_round_up(n as int, a as int);
    }
    let m: usize = if n == 0 {
        a - 1
    } else {
        (n - 1) + a
    };
    (m / a) * a
}

/// Extends `base` with one more field of shape `next`: returns the combined
/// layout and the offset at which the new field starts.
pub fn extend(base: MemLayout, next: MemLayout) -> (r: (MemLayout, usize))
    requires
        next.align >= 1,
        base.size + next.align - 1 <= usize::MAX,
        round_up_spec(base.size as int, next.align as int) + next.size <= usize::MAX,
    ensures
        r.1 == round_up_spec(base.size as int, next.align as int),
        r.1 % next.align == 0,
        base.size <= r.1,
        r.0.size == r.1 + next.size,
        r.0.align == if base.align > next.align { base.align } else { next.align },
{
    let offset: usize = round_up(base.size, next.align);
    let align: usize = if base.align > next.align {
        base.align
    } else {
        next.align
    };
    (MemLayout { size: offset + next.size, align }, offset)
}

/// Pads the layout's size up to a multiple of its alignment.
pub fn pad_to_align(l: MemLayout) -> (r: MemLayout)
    requires
        l.align >= 1,
        l.size + l.align - 1 <= usize::MAX,
    ensures
        r.size == round_up_spec(l.size as int, l.align as int),
        r.size % l.align == 0,
        l.size <= r.size,
        r.align == l.align,
{
    let size: usize = round_up(l.size, l.align);
    MemLayout { size, align: l.align }
}

/// The facts every caller of a planner needs about the planned offsets:
/// the three fields stand in order, none overlaps the next, each offset is a
/// multiple of its field's alignment, the total covers the payload, and the
/// allocation is never empty — a zero-sized payload still gets a header.
pub proof fn lemma_plan_shape(meta: TypeMetadata)
    requires
        meta.wf(),
        plan_fits(meta),
    ensures
        meta_offset_spec() == COUNT_SIZE as int,
        header_end_spec() == COUNT_SIZE + META_SIZE,
        payload_offset_spec(meta) % (meta.align as int) == 0,
        payload_offset_spec(meta) >= header_end_spec(),
        total_size_spec(meta) >= payload_offset_spec(meta) + meta.size,
        total_size_spec(meta) <= usize::MAX,
        total_size_spec(meta) % total_align_spec(meta) == 0,
        total_size_spec(meta) >= COUNT_SIZE + META_SIZE,
{
    lemma_pow2_pos(meta.align as nat);
    lemma_round_up(COUNT_SIZE as int, META_ALIGN as int);
    lemma_round_up(header_end_spec(), meta.align as int);
    lemma_round_up(payload_offset_spec(meta) + meta.size, total_align_spec(meta));
}

} // verus!
