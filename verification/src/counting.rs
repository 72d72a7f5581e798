//! The reference-counting protocol, stated over abstract operation
//! sequences.
//!
//! Both handle flavors follow the same discipline: a block starts with count
//! 1 when its first handle is made, every clone adds 1, every drop subtracts
//! 1, and a projection moves a handle without touching the count. The
//! destructor fires exactly when a drop observes count 1. The lemmas here
//! prove the protocol correct for *every* sequence of such operations: the
//! destructor runs exactly once, only at the very last drop, and never at a
//! projection.

use vstd::prelude::*;

verus! {

/// One operation performed on some handle of a single allocation, after the
/// allocation was constructed with its first handle.
#[derive(Clone, Copy, Debug, PartialEq, Eq, Structural)]
pub enum RefOp {
    /// A handle was cloned: one more owner.
    Retain,
    /// A handle was dropped: one owner fewer.
    Release,
    /// A handle was projected: a move, invisible to the count.
    Reproject,
}

/// The reference count after the operations `ops`, starting from the count
/// of 1 that construction wrote.
pub open spec fn strong_after(ops: Seq<RefOp>) -> int
    decreases ops.len(),
{
    if ops.len() == 0 {
        1
    } else {
        strong_after(ops.drop_last()) + match ops.last() {
            RefOp::Retain => 1,
            RefOp::Release => -1,
            RefOp::Reproject => 0,
        }
    }
}

/// How many times the destructor fired during `ops`: a drop fires it exactly
/// when it observes a count of 1.
pub open spec fn releases_fired(ops: Seq<RefOp>) -> int
    decreases ops.len(),
{
    if ops.len() == 0 {
        0
    } else {
        releases_fired(ops.drop_last()) + if ops.last() is Release && strong_after(ops.drop_last())
            == 1 {
            1int
        } else {
            0int
        }
    }
}

/// A sequence of operations is well-formed when every operation is performed
/// while at least one handle exists: the count before each operation is at
/// least 1.
pub open spec fn ops_wf(ops: Seq<RefOp>) -> bool {
    forall|i: int| 0 <= i < ops.len() ==> strong_after(#[trigger] ops.take(i)) >= 1
}

/// Single release: over any well-formed operation sequence the destructor
/// runs exactly once if the last handle has been dropped — the count came
/// down to 0 — and not at all while any handle remains. In particular it
/// never runs twice, and a merely projected handle never triggers it.
pub proof fn lemma_single_release(ops: Seq<RefOp>)
    requires
        ops_wf(ops),
    ensures
        strong_after(ops) >= 0,
        releases_fired(ops) == if strong_after(ops) == 0 {
            1int
        } else {
            0int
        },
    decreases ops.len(),
{
    if ops.len() == 0 {
    } else {
        let prefix = ops.drop_last();
        assert forall|i: int| 0 <= i < prefix.len() implies strong_after(#[trigger] prefix.take(i))
            >= 1 by {
            assert(prefix.take(i) =~= ops.take(i));
            assert(strong_after(ops.take(i)) >= 1);
        }
        assert(ops.take(ops.len() - 1) =~= prefix);
        assert(strong_after(prefix) >= 1);
        lemma_single_release(prefix);
    }
}

/// The destructor has not run while a handle remains: every well-formed
/// prefix after which the count is still positive has fired no release. With
/// [`lemma_single_release`] this places the one destructor run at the final
/// drop, never earlier.
pub proof fn lemma_no_early_release(ops: Seq<RefOp>, i: int)
    requires
        ops_wf(ops),
        0 <= i < ops.len(),
    ensures
        releases_fired(ops.take(i)) == 0,
{
    let prefix = ops.take(i);
    assert forall|j: int| 0 <= j < prefix.len() implies strong_after(#[trigger] prefix.take(j))
        >= 1 by {
        assert(prefix.take(j) =~= ops.take(j));
        assert(strong_after(ops.take(j)) >= 1);
    }
    lemma_single_release(prefix);
    assert(strong_after(ops.take(i)) >= 1);
}

/// Projection is invisible to the protocol: appending a projection changes
/// neither the count nor the number of destructor runs.
pub proof fn lemma_projection_silent(ops: Seq<RefOp>)
    ensures
        strong_after(ops.push(RefOp::Reproject)) == strong_after(ops),
        releases_fired(ops.push(RefOp::Reproject)) == releases_fired(ops),
{
    assert(ops.push(RefOp::Reproject).drop_last() =~= ops);
}

} // verus!
