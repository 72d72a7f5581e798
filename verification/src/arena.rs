//! The memory model that both handle flavors share.
//!
//! An [`Arena`] stands for the allocator together with the raw memory it
//! hands out. Each live [`Block`] is one combined allocation: the reference
//! count, the erasure-metadata record written at construction, and the
//! payload byte span, all reachable through the offsets the layout planner
//! computed. Destroying a block appends a [`DropRecord`] to the arena's
//! destruction log, which captures what the destructor ran on: the metadata
//! of the original type and the full original payload — never a projected
//! view. The log is how the model observes destructor side effects.

use vstd::prelude::*;

use crate::layout::{plan_fits, total_size_spec};
use crate::metadata::TypeMetadata;

verus! {

/// One live allocation: control block and payload.
pub struct Block {
    /// Number of handles currently sharing this allocation.
    pub strong: usize,
    /// Erasure metadata for the type the payload was constructed with.
    /// Immutable for the lifetime of the block.
    pub meta: TypeMetadata,
    /// The payload byte span. Never moved after construction; its length is
    /// the constructed type's size.
    pub bytes: Vec<u8>,
    /// Total size of the combined allocation, as the planner computed it at
    /// construction time.
    pub alloc_size: usize,
}

/// One destructor invocation: what type it targeted and the payload bytes it
/// ran on.
pub struct DropRecord {
    pub meta: TypeMetadata,
    pub bytes: Vec<u8>,
}

/// The allocator and the memory it has handed out, as one explicit value.
pub struct Arena {
    /// Every allocation ever made; a freed slot holds `None`.
    pub blocks: Vec<Option<Block>>,
    /// The destruction log, in the order destructors ran.
    pub destroyed: Vec<DropRecord>,
}

impl Arena {
    /// Number of slots ever allocated, freed ones included.
    pub open spec fn n_blocks(&self) -> int {
        self.blocks@.len() as int
    }

    /// Whether slot `id` currently holds a live allocation.
    pub open spec fn is_live(&self, id: int) -> bool {
        0 <= id < self.n_blocks() && self.blocks@[id] is Some
    }

    /// The live block in slot `id`.
    pub open spec fn block_at(&self, id: int) -> Block {
        self.blocks@[id]->Some_0
    }

    /// Reference count of the block in slot `id`.
    pub open spec fn block_strong(&self, id: int) -> int {
        self.block_at(id).strong as int
    }

    /// Erasure metadata stored in the block in slot `id`.
    pub open spec fn block_meta(&self, id: int) -> TypeMetadata {
        self.block_at(id).meta
    }

    /// Payload bytes of the block in slot `id`.
    pub open spec fn block_bytes(&self, id: int) -> Seq<u8> {
        self.block_at(id).bytes@
    }

    /// Recorded total allocation size of the block in slot `id`.
    pub open spec fn block_alloc_size(&self, id: int) -> int {
        self.block_at(id).alloc_size as int
    }

    /// Length of the destruction log.
    pub open spec fn n_destroyed(&self) -> int {
        self.destroyed@.len() as int
    }

    /// Metadata the `k`-th destructor invocation targeted.
    pub open spec fn destroyed_meta(&self, k: int) -> TypeMetadata {
        self.destroyed@[k].meta
    }

    /// Payload bytes the `k`-th destructor invocation ran on.
    pub open spec fn destroyed_bytes(&self, k: int) -> Seq<u8> {
        self.destroyed@[k].bytes@
    }

    /// Every live block is internally consistent: its metadata describes a
    /// real type, its payload span has exactly the type's size, and its
    /// recorded allocation size is the one the planner computes from the
    /// stored metadata — which is why the destruction path can recompute it.
    pub open spec fn wf(&self) -> bool {
        forall|id: int|
            self.is_live(id) ==> {
                &&& (#[trigger] self.block_meta(id)).wf()
                &&& plan_fits(self.block_meta(id))
                &&& self.block_bytes(id).len() == self.block_meta(id).size
                &&& self.block_alloc_size(id) == total_size_spec(self.block_meta(id))
            }
    }
}

/// Slot `j` means the same allocation in `pre` and `post`.
pub open spec fn block_unchanged_at(pre: Arena, post: Arena, j: int) -> bool {
    &&& post.is_live(j) == pre.is_live(j)
    &&& pre.is_live(j) ==> {
        &&& post.block_strong(j) == pre.block_strong(j)
        &&& post.block_meta(j) == pre.block_meta(j)
        &&& post.block_bytes(j) == pre.block_bytes(j)
        &&& post.block_alloc_size(j) == pre.block_alloc_size(j)
    }
}

/// All slots but `id` are untouched, and no slot appeared or vanished.
pub open spec fn blocks_unchanged_except(pre: Arena, post: Arena, id: int) -> bool {
    &&& post.n_blocks() == pre.n_blocks()
    &&& forall|j: int| 0 <= j < pre.n_blocks() && j != id ==> #[trigger] block_unchanged_at(pre, post, j)
}

/// No destructor ran between `pre` and `post`.
pub open spec fn destroyed_unchanged(pre: Arena, post: Arena) -> bool {
    &&& post.n_destroyed() == pre.n_destroyed()
    &&& forall|k: int|
        0 <= k < pre.n_destroyed() ==> {
            &&& #[trigger] post.destroyed_meta(k) == pre.destroyed_meta(k)
            &&& post.destroyed_bytes(k) == pre.destroyed_bytes(k)
        }
}

/// Exactly one destructor ran between `pre` and `post`: on a value of the
/// type described by `meta`, over the payload `bytes`.
pub open spec fn destroyed_extended(pre: Arena, post: Arena, meta: TypeMetadata, bytes: Seq<u8>) -> bool {
    &&& post.n_destroyed() == pre.n_destroyed() + 1
    &&& forall|k: int|
        0 <= k < pre.n_destroyed() ==> {
            &&& #[trigger] post.destroyed_meta(k) == pre.destroyed_meta(k)
            &&& post.destroyed_bytes(k) == pre.destroyed_bytes(k)
        }
    &&& post.destroyed_meta(pre.n_destroyed()) == meta
    &&& post.destroyed_bytes(pre.n_destroyed()) == bytes
}

/// Leaving all slots but `id` alone twice in a row leaves them alone
/// overall.
pub proof fn lemma_unchanged_except_trans(first: Arena, second: Arena, third: Arena, id: int)
    requires
        blocks_unchanged_except(first, second, id),
        blocks_unchanged_except(second, third, id),
    ensures
        blocks_unchanged_except(first, third, id),
{
    assert forall|j: int| 0 <= j < first.n_blocks() && j != id implies #[trigger] block_unchanged_at(
        first,
        third,
        j,
    ) by {
        assert(block_unchanged_at(first, second, j));
        assert(block_unchanged_at(second, third, j));
    }
}

/// Well-formedness carries over when every live slot of `post` either equals
/// the corresponding live slot of `pre` in everything but its count, or is
/// itself consistent.
proof fn lemma_wf_update(pre: Arena, post: Arena, id: int)
    requires
        pre.wf(),
        forall|j: int|
            #[trigger] post.is_live(j) && j != id ==> pre.is_live(j) && post.block_at(j) == pre.block_at(j),
        post.is_live(id) ==> {
            &&& post.block_meta(id).wf()
            &&& plan_fits(post.block_meta(id))
            &&& post.block_bytes(id).len() == post.block_meta(id).size
            &&& post.block_alloc_size(id) == total_size_spec(post.block_meta(id))
        },
    ensures
        post.wf(),
{
    assert forall|i: int| post.is_live(i) implies {
        &&& (#[trigger] post.block_meta(i)).wf()
        &&& plan_fits(post.block_meta(i))
        &&& post.block_bytes(i).len() == post.block_meta(i).size
        &&& post.block_alloc_size(i) == total_size_spec(post.block_meta(i))
    } by {
        if i != id {
            assert(pre.is_live(i));
            assert(pre.block_meta(i).wf());
        }
    }
}

impl Arena {
    /// A fresh arena: nothing allocated, nothing destroyed.
    pub fn new() -> (a: Arena)
        ensures
            a.n_blocks() == 0,
            a.n_destroyed() == 0,
            a.wf(),
    {
        Arena { blocks: Vec::new(), destroyed: Vec::new() }
    }

    /// Carves one combined allocation: count = 1, the metadata record, and
    /// the payload bytes, at the planner's offsets. Returns the new slot.
    pub fn allocate(&mut self, meta: TypeMetadata, bytes: Vec<u8>, alloc_size: usize) -> (id: usize)
        requires
            old(self).wf(),
            meta.wf(),
            plan_fits(meta),
            bytes@.len() == meta.size,
            alloc_size == total_size_spec(meta),
        ensures
            final(self).wf(),
            id as int == old(self).n_blocks(),
            final(self).n_blocks() == old(self).n_blocks() + 1,
            final(self).is_live(id as int),
            final(self).block_strong(id as int) == 1,
            final(self).block_meta(id as int) == meta,
            final(self).block_bytes(id as int) == bytes@,
            final(self).block_alloc_size(id as int) == alloc_size,
            forall|j: int|
                0 <= j < old(self).n_blocks() ==> #[trigger] block_unchanged_at(*old(self), *final(self), j),
            destroyed_unchanged(*old(self), *final(self)),
    {
        let id = self.blocks.len();
        self.blocks.push(Some(Block { strong: 1, meta, bytes, alloc_size }));
        proof {
            lemma_wf_update(*old(self), *self, id as int);
        }
        id
    }

    /// Bumps the reference count of a live block by one.
    pub fn retain(&mut self, id: usize)
        requires
            old(self).wf(),
            old(self).is_live(id as int),
            old(self).block_strong(id as int) < usize::MAX,
        ensures
            final(self).wf(),
            final(self).is_live(id as int),
            final(self).block_strong(id as int) == old(self).block_strong(id as int) + 1,
            final(self).block_meta(id as int) == old(self).block_meta(id as int),
            final(self).block_bytes(id as int) == old(self).block_bytes(id as int),
            final(self).block_alloc_size(id as int) == old(self).block_alloc_size(id as int),
            blocks_unchanged_except(*old(self), *final(self), id as int),
            destroyed_unchanged(*old(self), *final(self)),
    {
        match &mut self.blocks[id] {
            Some(b) => {
                b.strong = b.strong + 1;
            },
            None => {
                proof {
                    assert(false);
                }
            },
        }
        proof {
            assert(old(self).block_meta(id as int).wf());
            lemma_wf_update(*old(self), *self, id as int);
        }
    }

    /// Drops the reference count of a live block by one and reports the
    /// count that remains. The block stays in place — even at zero, where
    /// the caller is the unique last owner and must now destroy it.
    pub fn release(&mut self, id: usize) -> (remaining: usize)
        requires
            old(self).wf(),
            old(self).is_live(id as int),
            old(self).block_strong(id as int) >= 1,
        ensures
            final(self).wf(),
            remaining as int == old(self).block_strong(id as int) - 1,
            final(self).is_live(id as int),
            final(self).block_strong(id as int) == remaining as int,
            final(self).block_meta(id as int) == old(self).block_meta(id as int),
            final(self).block_bytes(id as int) == old(self).block_bytes(id as int),
            final(self).block_alloc_size(id as int) == old(self).block_alloc_size(id as int),
            blocks_unchanged_except(*old(self), *final(self), id as int),
            destroyed_unchanged(*old(self), *final(self)),
    {
        let remaining: usize;
        match &mut self.blocks[id] {
            Some(b) => {
                b.strong = b.strong - 1;
                remaining = b.strong;
            },
            None => {
                proof {
                    assert(false);
                }
                remaining = 0;
            },
        }
        proof {
            assert(old(self).block_meta(id as int).wf());
            lemma_wf_update(*old(self), *self, id as int);
        }
        remaining
    }

    /// Destroys a block whose count has reached zero and returns its
    /// allocation: the destructor runs on the full original payload, as the
    /// type recorded at construction, and the log says so. `returned_size`
    /// is the allocation size the caller recomputed through the planner; it
    /// must equal the size recorded at construction.
    pub fn deallocate(&mut self, id: usize, returned_size: usize)
        requires
            old(self).wf(),
            old(self).is_live(id as int),
            old(self).block_strong(id as int) == 0,
            returned_size as int == old(self).block_alloc_size(id as int),
        ensures
            final(self).wf(),
            !final(self).is_live(id as int),
            final(self).n_blocks() == old(self).n_blocks(),
            blocks_unchanged_except(*old(self), *final(self), id as int),
            destroyed_extended(
                *old(self),
                *final(self),
                old(self).block_meta(id as int),
                old(self).block_bytes(id as int),
            ),
    {
        let slot = Option::take(&mut self.blocks[id]);
        match slot {
            Some(block) => {
                self.destroyed.push(DropRecord { meta: block.meta, bytes: block.bytes });
            },
            None => {
                proof {
                    assert(false);
                }
            },
        }
        proof {
            lemma_wf_update(*old(self), *self, id as int);
        }
    }
}

} // verus!
