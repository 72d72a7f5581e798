//! The type-erasure registry.
//!
//! A [`TypeMetadata`] record captures, for one concrete payload type, exactly
//! what the control block must remember once the static type is gone: the
//! payload's size and alignment (so the allocation can be released later) and
//! the identity of its destructor (so the payload can be destroyed as the
//! type it was constructed with). The record is plain, `Copy`-cheap data,
//! built from the type's properties alone — no payload value is needed.

use vstd::prelude::*;

verus! {

/// Erasure metadata for one concrete payload type: size, alignment, and the
/// identity of the type's destructor.
#[derive(Clone, Copy, Debug, PartialEq, Eq, Structural)]
pub struct TypeMetadata {
    /// Size of the payload type in bytes.
    pub size: usize,
    /// Alignment of the payload type in bytes; always a power of two.
    pub align: usize,
    /// Identifies the destructor of the payload type. Two types with
    /// observably different destruction behavior carry different tags.
    pub drop_tag: u64,
}

/// Whether `n` is a power of two. Alignments are always powers of two.
pub open spec fn is_pow2(n: nat) -> bool
    decreases n,
{
    if n == 0 {
        false
    } else if n == 1 {
        true
    } else {
        n % 2 == 0 && is_pow2(n / 2)
    }
}

impl TypeMetadata {
    /// A well-formed record describes a real type: its alignment is a power
    /// of two.
    pub open spec fn wf(&self) -> bool {
        is_pow2(self.align as nat)
    }

    /// The size recorded for the payload type.
    pub fn size_of(&self) -> (s: usize)
        ensures
            s == self.size,
    {
        self.size
    }

    /// The alignment recorded for the payload type.
    pub fn align_of(&self) -> (a: usize)
        ensures
            a == self.align,
    {
        self.align
    }

    /// The destructor identity recorded for the payload type.
    pub fn destructor_tag(&self) -> (t: u64)
        ensures
            t == self.drop_tag,
    {
        self.drop_tag
    }
}

/// Registers a payload type: builds the erasure record from the type's size,
/// alignment, and destructor identity. This is the whole registry — the
/// record is constructed once, at the construction call site, and copied into
/// the control block as plain data.
pub fn metadata_of(size: usize, align: usize, drop_tag: u64) -> (m: TypeMetadata)
    requires
        is_pow2(align as nat),
    ensures
        m.size == size,
        m.align == align,
        m.drop_tag == drop_tag,
        m.wf(),
{
    TypeMetadata { size, align, drop_tag }
}

/// A power of two is positive.
pub proof fn lemma_pow2_pos(n: nat)
    requires
        is_pow2(n),
    ensures
        n >= 1,
{
}

/// Runtime check that `n` is a power of two, for callers that cannot
/// establish it statically.
pub fn is_power_of_two(n: usize) -> (b: bool)
    ensures
        b == is_pow2(n as nat),
{
    let mut m: usize = n;
    loop
        invariant
            is_pow2(n as nat) == is_pow2(m as nat),
        decreases m,
    {
        if m == 0 {
            return false;
        }
        if m == 1 {
            return true;
        }
        if m % 2 != 0 {
            return false;
        }
        m = m / 2;
    }
}

} // verus!
