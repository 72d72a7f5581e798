//! The single-thread handle flavor.
//!
//! A [`ProjectRc`] is one owning share of a block in an [`Arena`], together
//! with the sub-span of the payload that this handle currently exposes. In a
//! real allocation the count this flavor manipulates is a plain, unsynchronized
//! word, so all handles of one allocation must stay on the thread that owns
//! it; in exchange, clone and drop are bare integer arithmetic. The protocol
//! itself — and what the arena models — is the same as the cross-thread
//! flavor's.
//!
//! Projection narrows the exposed span without touching the count: the
//! projected handle keeps the entire allocation alive, and destruction,
//! whenever it comes, targets the full original payload through the stored
//! metadata, never the narrowed view.

use vstd::prelude::*;
use vstd::slice::slice_subrange;

use crate::arena::{
    blocks_unchanged_except, block_unchanged_at, destroyed_extended, destroyed_unchanged,
    lemma_unchanged_except_trans, Arena,
};
use crate::layout::{
    count_offset_spec, extend, meta_offset_spec, pad_to_align, payload_offset_spec, plan_fits,
    total_align_spec, total_size_spec, MemLayout, COUNT_ALIGN, COUNT_SIZE, META_ALIGN, META_SIZE,
};
use crate::metadata::TypeMetadata;

verus! {

/// A shared-ownership handle for use within one thread: the block it owns a
/// share of, and the sub-span of the payload it exposes. Handles move;
/// duplicating one goes through [`ProjectRc::clone_handle`], which adjusts
/// the count.
pub struct ProjectRc {
    /// The arena slot of the allocation this handle shares.
    pub block: usize,
    /// First payload byte of the exposed view.
    pub view_start: usize,
    /// One past the last payload byte of the exposed view.
    pub view_end: usize,
}

impl ProjectRc {
    /// A handle is valid against an arena when its block is live with at
    /// least one owner and its view lies within the original payload span.
    pub open spec fn valid(&self, a: Arena) -> bool {
        &&& a.wf()
        &&& a.is_live(self.block as int)
        &&& a.block_strong(self.block as int) >= 1
        &&& self.view_start <= self.view_end
        &&& self.view_end as int <= a.block_meta(self.block as int).size
    }

    /// The bytes the handle currently exposes: the view sub-span of its
    /// block's payload.
    pub open spec fn view_bytes(&self, a: Arena) -> Seq<u8> {
        a.block_bytes(self.block as int).subrange(self.view_start as int, self.view_end as int)
    }

    /// Constructs a fresh allocation: plans the layout for `meta`, carves
    /// count = 1, the metadata record, and the payload `bytes` into one
    /// block, and returns the first handle, exposing the whole payload.
    pub fn new(a: &mut Arena, meta: TypeMetadata, bytes: Vec<u8>) -> (h: ProjectRc)
        requires
            old(a).wf(),
            meta.wf(),
            plan_fits(meta),
            bytes@.len() == meta.size,
        ensures
            final(a).wf(),
            h.valid(*final(a)),
            h.block as int == old(a).n_blocks(),
            h.view_start == 0,
            h.view_end == meta.size,
            h.view_bytes(*final(a)) == bytes@,
            final(a).n_blocks() == old(a).n_blocks() + 1,
            final(a).block_strong(h.block as int) == 1,
            final(a).block_meta(h.block as int) == meta,
            final(a).block_bytes(h.block as int) == bytes@,
            final(a).block_alloc_size(h.block as int) == total_size_spec(meta),
            forall|j: int|
                0 <= j < old(a).n_blocks() ==> #[trigger] block_unchanged_at(
                    *old(a),
                    *final(a),
                    j,
                ),
            destroyed_unchanged(*old(a), *final(a)),
    {
        let plan = rc_inner_layout(meta);
        let size = meta.size_of();
        let id = a.allocate(meta, bytes, plan.layout.size);
        let h = ProjectRc { block: id, view_start: 0, view_end: size };
        proof {
            assert(h.view_bytes(*a) =~= a.block_bytes(id as int));
        }
        h
    }

    /// Duplicates the handle: bumps the block's count and returns a second
    /// handle with the identical view. Both handles observe the same bytes,
    /// and every other valid handle is untouched.
    pub fn clone_handle(&self, a: &mut Arena) -> (r: ProjectRc)
        requires
            self.valid(*old(a)),
            old(a).block_strong(self.block as int) < usize::MAX,
        ensures
            final(a).wf(),
            r.block == self.block,
            r.view_start == self.view_start,
            r.view_end == self.view_end,
            r.valid(*final(a)),
            self.valid(*final(a)),
            r.view_bytes(*final(a)) == self.view_bytes(*final(a)),
            self.view_bytes(*final(a)) == self.view_bytes(*old(a)),
            final(a).block_strong(self.block as int) == old(a).block_strong(self.block as int)
                + 1,
            final(a).block_meta(self.block as int) == old(a).block_meta(self.block as int),
            final(a).block_bytes(self.block as int) == old(a).block_bytes(self.block as int),
            blocks_unchanged_except(*old(a), *final(a), self.block as int),
            destroyed_unchanged(*old(a), *final(a)),
            forall|h: ProjectRc|
                #[trigger] h.valid(*old(a)) ==> h.valid(*final(a)) && h.view_bytes(*final(a))
                    == h.view_bytes(*old(a)),
    {
        a.retain(self.block);
        proof {
            lemma_handles_preserved(*old(a), *a, self.block as int);
        }
        ProjectRc { block: self.block, view_start: self.view_start, view_end: self.view_end }
    }

    /// Drops this share. The count comes down by one; the drop that observes
    /// a count of 1 is the unique last owner, and it alone destroys the
    /// payload — as the constructed type, over the full original span — and
    /// returns the allocation. Handles of other blocks are untouched, and
    /// while other owners remain, so is the block.
    pub fn drop_handle(self, a: &mut Arena)
        requires
            self.valid(*old(a)),
        ensures
            final(a).wf(),
            final(a).n_blocks() == old(a).n_blocks(),
            blocks_unchanged_except(*old(a), *final(a), self.block as int),
            old(a).block_strong(self.block as int) > 1 ==> {
                &&& final(a).is_live(self.block as int)
                &&& final(a).block_strong(self.block as int) == old(a).block_strong(
                    self.block as int,
                ) - 1
                &&& final(a).block_meta(self.block as int) == old(a).block_meta(self.block as int)
                &&& final(a).block_bytes(self.block as int) == old(a).block_bytes(
                    self.block as int,
                )
                &&& destroyed_unchanged(*old(a), *final(a))
            },
            old(a).block_strong(self.block as int) == 1 ==> {
                &&& !final(a).is_live(self.block as int)
                &&& destroyed_extended(
                    *old(a),
                    *final(a),
                    old(a).block_meta(self.block as int),
                    old(a).block_bytes(self.block as int),
                )
            },
            forall|h: ProjectRc|
                #[trigger] h.valid(*old(a)) && h.block != self.block ==> h.valid(*final(a))
                    && h.view_bytes(*final(a)) == h.view_bytes(*old(a)),
            old(a).block_strong(self.block as int) > 1 ==> forall|h: ProjectRc|
                #[trigger] h.valid(*old(a)) ==> h.valid(*final(a)) && h.view_bytes(*final(a))
                    == h.view_bytes(*old(a)),
    {
        let remaining = a.release(self.block);
        let ghost mid = *a;
        if remaining == 0 {
            deallocate(a, self.block);
            proof {
                lemma_unchanged_except_trans(*old(a), mid, *a, self.block as int);
            }
        }
        proof {
            lemma_other_handles_preserved(*old(a), *a, self.block as int);
            if old(a).block_strong(self.block as int) > 1 {
                lemma_handles_preserved(*old(a), *a, self.block as int);
            }
        }
    }

    /// Consumes the handle and narrows its view to the sub-span
    /// `lo..hi` of the bytes it currently exposes. The count is untouched —
    /// this is a move — so the projected handle keeps the whole allocation
    /// alive. The bounds check is the safety contract of projection: the new
    /// view provably lies within the original payload.
    pub fn project(self, a: &Arena, lo: usize, hi: usize) -> (r: ProjectRc)
        requires
            self.valid(*a),
            lo <= hi,
            hi as int <= self.view_end - self.view_start,
        ensures
            r.block == self.block,
            r.view_start == self.view_start + lo,
            r.view_end == self.view_start + hi,
            r.valid(*a),
            r.view_bytes(*a) == self.view_bytes(*a).subrange(lo as int, hi as int),
    {
        let r = ProjectRc {
            block: self.block,
            view_start: self.view_start + lo,
            view_end: self.view_start + hi,
        };
        proof {
            assert(r.view_bytes(*a) =~= self.view_bytes(*a).subrange(lo as int, hi as int));
        }
        r
    }

    /// Clones, then projects the clone: both the original handle and a
    /// narrowed handle stay alive, and the count accounts for the new share.
    pub fn clone_project(&self, a: &mut Arena, lo: usize, hi: usize) -> (r: ProjectRc)
        requires
            self.valid(*old(a)),
            old(a).block_strong(self.block as int) < usize::MAX,
            lo <= hi,
            hi as int <= self.view_end - self.view_start,
        ensures
            final(a).wf(),
            r.block == self.block,
            r.view_start == self.view_start + lo,
            r.view_end == self.view_start + hi,
            r.valid(*final(a)),
            self.valid(*final(a)),
            r.view_bytes(*final(a)) == self.view_bytes(*old(a)).subrange(lo as int, hi as int),
            final(a).block_strong(self.block as int) == old(a).block_strong(self.block as int)
                + 1,
            final(a).block_meta(self.block as int) == old(a).block_meta(self.block as int),
            final(a).block_bytes(self.block as int) == old(a).block_bytes(self.block as int),
            blocks_unchanged_except(*old(a), *final(a), self.block as int),
            destroyed_unchanged(*old(a), *final(a)),
            forall|h: ProjectRc|
                #[trigger] h.valid(*old(a)) ==> h.valid(*final(a)) && h.view_bytes(*final(a))
                    == h.view_bytes(*old(a)),
    {
        let c = self.clone_handle(a);
        c.project(a, lo, hi)
    }

    /// The bytes the handle exposes, as a borrow that lives as long as the
    /// arena borrow does.
    pub fn deref<'a>(&self, a: &'a Arena) -> (r: &'a [u8])
        requires
            self.valid(*a),
        ensures
            r@ == self.view_bytes(*a),
    {
        let slot = &a.blocks[self.block];
        let b = slot.as_ref().unwrap();
        slice_subrange(b.bytes.as_slice(), self.view_start, self.view_end)
    }

    /// The current owner count of this handle's block.
    pub fn strong_count(&self, a: &Arena) -> (n: usize)
        requires
            self.valid(*a),
        ensures
            n as int == a.block_strong(self.block as int),
    {
        let slot = &a.blocks[self.block];
        let b = slot.as_ref().unwrap();
        b.strong
    }
}

/// After an operation that touched only block `id` and left it live with its
/// payload intact, every handle that was valid stays valid and sees the same
/// bytes.
proof fn lemma_handles_preserved(pre: Arena, post: Arena, id: int)
    requires
        post.wf(),
        blocks_unchanged_except(pre, post, id),
        pre.is_live(id) ==> {
            &&& post.is_live(id)
            &&& pre.block_strong(id) >= 1 ==> post.block_strong(id) >= 1
            &&& post.block_meta(id) == pre.block_meta(id)
            &&& post.block_bytes(id) == pre.block_bytes(id)
        },
    ensures
        forall|h: ProjectRc|
            #[trigger] h.valid(pre) ==> h.valid(post) && h.view_bytes(post) == h.view_bytes(pre),
{
    assert forall|h: ProjectRc| #[trigger] h.valid(pre) implies h.valid(post) && h.view_bytes(
        post,
    ) == h.view_bytes(pre) by {
        if h.block as int != id {
            assert(block_unchanged_at(pre, post, h.block as int));
        }
    }
}

/// After an operation confined to block `id`, every valid handle of a
/// different block stays valid and sees the same bytes.
proof fn lemma_other_handles_preserved(pre: Arena, post: Arena, id: int)
    requires
        post.wf(),
        blocks_unchanged_except(pre, post, id),
    ensures
        forall|h: ProjectRc|
            #[trigger] h.valid(pre) && h.block as int != id ==> h.valid(post) && h.view_bytes(
                post,
            ) == h.view_bytes(pre),
{
    assert forall|h: ProjectRc| #[trigger] h.valid(pre) && h.block as int != id implies h.valid(
        post,
    ) && h.view_bytes(post) == h.view_bytes(pre) by {
        assert(block_unchanged_at(pre, post, h.block as int));
    }
}

/// The combined allocation layout for one block, with the offsets of its
/// three fields.
pub struct RcInnerLayout {
    /// Total size and alignment of the allocation.
    pub layout: MemLayout,
    /// Offset of the count word.
    pub strong_offset: usize,
    /// Offset of the erasure-metadata record.
    pub drop_offset: usize,
    /// Offset of the payload.
    pub payload_offset: usize,
}

/// Plans the combined allocation for a payload described by `meta`: count
/// word, metadata record, then payload, each padded to its alignment, the
/// total padded to the overall alignment. Pure, so the construction and
/// destruction paths — the latter knowing only the stored metadata — arrive
/// at identical offsets.
pub fn rc_inner_layout(meta: TypeMetadata) -> (r: RcInnerLayout)
    requires
        meta.wf(),
        plan_fits(meta),
    ensures
        r.strong_offset == count_offset_spec(),
        r.drop_offset == meta_offset_spec(),
        r.payload_offset == payload_offset_spec(meta),
        r.layout.size == total_size_spec(meta),
        r.layout.align == total_align_spec(meta),
        r.strong_offset == 0,
        r.drop_offset >= COUNT_SIZE,
        r.payload_offset >= r.drop_offset + META_SIZE,
        r.payload_offset as int % meta.align as int == 0,
        r.payload_offset + meta.size <= r.layout.size,
        r.layout.size >= COUNT_SIZE + META_SIZE,
{
    proof {
        crate::layout::lemma_plan_shape(meta);
    }
    let base = MemLayout { size: COUNT_SIZE, align: COUNT_ALIGN };
    let strong_offset: usize = 0;
    let (with_meta, drop_offset) = extend(base, MemLayout { size: META_SIZE, align: META_ALIGN });
    let (with_payload, payload_offset) = extend(
        with_meta,
        MemLayout { size: meta.size_of(), align: meta.align_of() },
    );
    let layout = pad_to_align(with_payload);
    RcInnerLayout { layout, strong_offset, drop_offset, payload_offset }
}

/// The destruction path: recomputes the allocation's layout from the
/// metadata stored in the block — the original static type is long gone —
/// destroys the payload through that metadata, and returns the allocation.
fn deallocate(a: &mut Arena, id: usize)
    requires
        old(a).wf(),
        old(a).is_live(id as int),
        old(a).block_strong(id as int) == 0,
    ensures
        final(a).wf(),
        !final(a).is_live(id as int),
        final(a).n_blocks() == old(a).n_blocks(),
        blocks_unchanged_except(*old(a), *final(a), id as int),
        destroyed_extended(
            *old(a),
            *final(a),
            old(a).block_meta(id as int),
            old(a).block_bytes(id as int),
        ),
{
    proof {
        assert(old(a).block_meta(id as int).wf());
    }
    let slot = &a.blocks[id];
    let meta = slot.as_ref().unwrap().meta;
    let plan = rc_inner_layout(meta);
    a.deallocate(id, plan.layout.size);
}

} // verus!
