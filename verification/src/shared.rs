//! Atomically-refcounted shared owner built on [`TaggedPool`].
//!
//! A [`SharedRc`] is a handle to one node `{value, refcount, tag}` held in an
//! [`RcHeap`], the explicit stand-in for the heap of refcounted nodes.
//! Cloning increments the counter and never fails; dropping decrements it,
//! and whichever drop observes the counter reach zero takes the value out and
//! releases the node's allocation, exactly once.  The trace-level law
//! [`lemma_refcount_soundness`] states that discipline once and for all
//! operation sequences.

use vstd::layout::size_of;
use vstd::prelude::*;

use crate::error::ErrorKind;
use crate::pool::{AllocView, PoolType, RawPtr, TaggedPool};

verus! {

/// One refcounted node: the stored value (`None` once freed), the counter,
/// and the pool allocation that backs the node.
struct RcSlot<T> {
    value: Option<T>,
    refcount: usize,
    tag: u32,
    ptr: RawPtr,
}

/// The heap of refcounted nodes that [`SharedRc`] handles point into.
pub struct RcHeap<T> {
    slots: Vec<RcSlot<T>>,
}

/// A shared owner of one node in an [`RcHeap`].
///
/// Handles are not `Clone`: every duplication goes through [`SharedRc::clone`],
/// which adjusts the counter, and every disposal through
/// [`SharedRc::drop_handle`], which consumes the handle.
pub struct SharedRc<T> {
    slot: usize,
    marker: core::marker::PhantomData<T>,
}

impl<T> RcHeap<T> {
    /// Number of nodes ever created in this heap.
    pub closed spec fn slot_count(self) -> int {
        self.slots@.len() as int
    }

    /// The node exists and has not been freed.
    pub closed spec fn is_live(self, i: int) -> bool {
        0 <= i < self.slots@.len() && self.slots@[i].value is Some
    }

    /// The value stored in node `i`.
    pub closed spec fn value_of(self, i: int) -> T {
        match self.slots@[i].value {
            Option::Some(v) => v,
            Option::None => vstd::pervasive::arbitrary(),
        }
    }

    /// The reference count of node `i`.
    pub closed spec fn count_of(self, i: int) -> int {
        self.slots@[i].refcount as int
    }

    /// The tag node `i` was allocated under.
    pub closed spec fn tag_of(self, i: int) -> u32 {
        self.slots@[i].tag
    }

    /// The pool allocation backing node `i`.
    pub closed spec fn ptr_of(self, i: int) -> RawPtr {
        self.slots@[i].ptr
    }

    /// Node `i` is untouched between the two heap states.
    pub open spec fn slot_unchanged(self, post: RcHeap<T>, i: int) -> bool {
        &&& post.is_live(i) == self.is_live(i)
        &&& self.is_live(i) ==> {
            &&& post.value_of(i) == self.value_of(i)
            &&& post.count_of(i) == self.count_of(i)
            &&& post.tag_of(i) == self.tag_of(i)
            &&& post.ptr_of(i) == self.ptr_of(i)
        }
    }

    /// Well-formedness against the pool: every live node has a counter of at
    /// least one and a live, matching allocation, and no two live nodes share
    /// an allocation.
    pub open spec fn wf(self, pool: TaggedPool) -> bool {
        &&& (forall|i: int| #[trigger] self.is_live(i) ==> {
            &&& self.count_of(i) >= 1
            &&& pool.is_live(self.ptr_of(i))
            &&& pool.record(self.ptr_of(i)).tag == self.tag_of(i)
            &&& pool.record(self.ptr_of(i)).size == size_of::<T>()
        })
        &&& (forall|i: int, j: int|
            #[trigger] self.is_live(i) && #[trigger] self.is_live(j) && i != j
                ==> self.ptr_of(i).addr != self.ptr_of(j).addr)
    }

    /// A heap with no nodes; well-formed against every pool.
    pub fn new() -> (heap: RcHeap<T>)
        ensures
            heap.slot_count() == 0,
            forall|i: int| !heap.is_live(i),
    {
        RcHeap { slots: Vec::new() }
    }
}

impl<T> SharedRc<T> {
    /// The heap node this handle points to.
    pub closed spec fn slot_spec(self) -> int {
        self.slot as int
    }

    /// The handle points at a live node of `heap`.
    pub open spec fn wf(self, heap: RcHeap<T>) -> bool {
        heap.is_live(self.slot_spec())
    }

    /// Allocates a node for `value` under `tag` with its counter at one.
    /// Fails with `AllocationFailure` exactly when the pool's budget cannot
    /// cover the node, leaving heap and pool unchanged.
    pub fn new(value: T, pool_type: PoolType, tag: u32, heap: &mut RcHeap<T>, pool: &mut TaggedPool)
        -> (r: Result<SharedRc<T>, ErrorKind>)
        requires
            old(heap).wf(*old(pool)),
            old(pool).wf(),
        ensures
            final(pool).wf(),
            final(pool).limit_spec() == old(pool).limit_spec(),
            final(heap).wf(*final(pool)),
            r is Ok <==> old(pool).in_use_spec() + size_of::<T>() <= old(pool).limit_spec(),
            match r {
                Ok(h) => {
                    &&& h.slot_spec() == old(heap).slot_count()
                    &&& final(heap).slot_count() == old(heap).slot_count() + 1
                    &&& h.wf(*final(heap))
                    &&& final(heap).value_of(h.slot_spec()) == value
                    &&& final(heap).count_of(h.slot_spec()) == 1
                    &&& final(heap).tag_of(h.slot_spec()) == tag
                    &&& forall|i: int|
                        i != h.slot_spec() ==> old(heap).slot_unchanged(*final(heap), i)
                    &&& final(pool)@ =~= old(pool)@.push(
                        AllocView {
                            size: size_of::<T>(),
                            tag,
                            kind: pool_type,
                            live: true,
                        },
                    )
                },
                Err(e) => {
                    &&& e == ErrorKind::AllocationFailure
                    &&& *final(heap) == *old(heap)
                    &&& final(pool)@ =~= old(pool)@
                },
            },
    {
        let size = core::mem::size_of::<T>();
        let ptr = match pool.allocate(size, tag, pool_type) {
            Some(p) => p,
            None => {
                return Err(ErrorKind::AllocationFailure);
            },
        };
        let slot = heap.slots.len();
        heap.slots.push(RcSlot { value: Some(value), refcount: 1, tag, ptr });
        proof {
            let h0 = *old(heap);
            let h1 = *heap;
            let p1 = *pool;
            assert(h1.slots@ =~= h0.slots@.push(
                RcSlot { value: Some(value), refcount: 1, tag, ptr },
            ));
            assert forall|i: int| #[trigger] h1.is_live(i) implies {
                &&& h1.count_of(i) >= 1
                &&& p1.is_live(h1.ptr_of(i))
                &&& p1.record(h1.ptr_of(i)).tag == h1.tag_of(i)
                &&& p1.record(h1.ptr_of(i)).size == size_of::<T>()
            } by {
                if i < h0.slots@.len() {
                    assert(h0.is_live(i));
                    assert(old(pool).is_live(h0.ptr_of(i)));
                }
            }
            assert forall|i: int, j: int|
                #[trigger] h1.is_live(i) && #[trigger] h1.is_live(j) && i != j implies h1.ptr_of(
                i,
            ).addr != h1.ptr_of(j).addr by {
                if i < h0.slots@.len() && j < h0.slots@.len() {
                    assert(h0.is_live(i) && h0.is_live(j));
                } else if i < h0.slots@.len() {
                    assert(h0.is_live(i));
                    assert(old(pool).is_live(h0.ptr_of(i)));
                    assert(h0.ptr_of(i).addr < old(pool)@.len());
                } else if j < h0.slots@.len() {
                    assert(h0.is_live(j));
                    assert(old(pool).is_live(h0.ptr_of(j)));
                    assert(h0.ptr_of(j).addr < old(pool)@.len());
                }
            }
        }
        Ok(SharedRc { slot, marker: core::marker::PhantomData })
    }

    /// Duplicates the handle: increments the node's counter and returns a
    /// second handle to the same node.  Never fails.
    pub fn clone(&self, heap: &mut RcHeap<T>) -> (h: SharedRc<T>)
        requires
            self.wf(*old(heap)),
            old(heap).count_of(self.slot_spec()) < usize::MAX,
        ensures
            h.slot_spec() == self.slot_spec(),
            h.wf(*final(heap)),
            final(heap).slot_count() == old(heap).slot_count(),
            final(heap).is_live(self.slot_spec()),
            final(heap).count_of(self.slot_spec()) == old(heap).count_of(self.slot_spec()) + 1,
            final(heap).value_of(self.slot_spec()) == old(heap).value_of(self.slot_spec()),
            final(heap).tag_of(self.slot_spec()) == old(heap).tag_of(self.slot_spec()),
            final(heap).ptr_of(self.slot_spec()) == old(heap).ptr_of(self.slot_spec()),
            forall|i: int| i != self.slot_spec() ==> old(heap).slot_unchanged(*final(heap), i),
            forall|p: TaggedPool| old(heap).wf(p) ==> #[trigger] final(heap).wf(p),
    {
        let slot = &mut heap.slots[self.slot];
        slot.refcount = slot.refcount + 1;
        proof {
            let h0 = *old(heap);
            let h1 = *heap;
            assert forall|p: TaggedPool| h0.wf(p) implies #[trigger] h1.wf(p) by {
                assert forall|i: int| #[trigger] h1.is_live(i) implies {
                    &&& h1.count_of(i) >= 1
                    &&& p.is_live(h1.ptr_of(i))
                    &&& p.record(h1.ptr_of(i)).tag == h1.tag_of(i)
                    &&& p.record(h1.ptr_of(i)).size == size_of::<T>()
                } by {
                    assert(h0.is_live(i));
                }
                assert forall|i: int, j: int|
                    #[trigger] h1.is_live(i) && #[trigger] h1.is_live(j) && i != j implies h1
                    .ptr_of(i).addr != h1.ptr_of(j).addr by {
                    assert(h0.is_live(i) && h0.is_live(j));
                }
            }
        }
        SharedRc { slot: self.slot, marker: core::marker::PhantomData }
    }

    /// Disposes of the handle: decrements the node's counter.  The drop that
    /// takes the counter to zero — and only that one — frees the node's
    /// allocation with its recorded tag and hands the value back; every other
    /// drop returns nothing and leaves the pool untouched.
    pub fn drop_handle(self, heap: &mut RcHeap<T>, pool: &mut TaggedPool) -> (r: Option<T>)
        requires
            self.wf(*old(heap)),
            old(heap).wf(*old(pool)),
            old(pool).wf(),
        ensures
            final(pool).wf(),
            final(pool).limit_spec() == old(pool).limit_spec(),
            final(heap).wf(*final(pool)),
            final(heap).slot_count() == old(heap).slot_count(),
            forall|i: int| i != self.slot_spec() ==> old(heap).slot_unchanged(*final(heap), i),
            old(heap).count_of(self.slot_spec()) > 1 ==> {
                &&& r is None
                &&& final(heap).is_live(self.slot_spec())
                &&& final(heap).count_of(self.slot_spec()) == old(heap).count_of(self.slot_spec())
                    - 1
                &&& final(heap).value_of(self.slot_spec()) == old(heap).value_of(self.slot_spec())
                &&& final(heap).tag_of(self.slot_spec()) == old(heap).tag_of(self.slot_spec())
                &&& final(heap).ptr_of(self.slot_spec()) == old(heap).ptr_of(self.slot_spec())
                &&& final(pool)@ =~= old(pool)@
            },
            old(heap).count_of(self.slot_spec()) == 1 ==> {
                &&& r == Some(old(heap).value_of(self.slot_spec()))
                &&& !final(heap).is_live(self.slot_spec())
                &&& final(pool)@ =~= old(pool)@.update(
                    old(heap).ptr_of(self.slot_spec()).addr as int,
                    AllocView {
                        live: false,
                        ..old(pool).record(old(heap).ptr_of(self.slot_spec()))
                    },
                )
            },
    {
        let slot = &mut heap.slots[self.slot];
        if slot.refcount == 1 {
            slot.refcount = 0;
            let taken = slot.value.take();
            let ptr = slot.ptr;
            let tag = slot.tag;
            pool.free(ptr, tag);
            proof {
                let h0 = *old(heap);
                let h1 = *heap;
                let p1 = *pool;
                assert forall|i: int| #[trigger] h1.is_live(i) implies {
                    &&& h1.count_of(i) >= 1
                    &&& p1.is_live(h1.ptr_of(i))
                    &&& p1.record(h1.ptr_of(i)).tag == h1.tag_of(i)
                    &&& p1.record(h1.ptr_of(i)).size == size_of::<T>()
                } by {
                    assert(i != self.slot_spec());
                    assert(h0.is_live(i));
                    assert(h0.is_live(self.slot_spec()));
                    assert(h0.ptr_of(i).addr != h0.ptr_of(self.slot_spec()).addr);
                }
                assert forall|i: int, j: int|
                    #[trigger] h1.is_live(i) && #[trigger] h1.is_live(j) && i != j implies h1
                    .ptr_of(i).addr != h1.ptr_of(j).addr by {
                    assert(h0.is_live(i) && h0.is_live(j));
                }
            }
            match taken {
                Some(v) => Some(v),
                None => vstd::pervasive::unreached(),
            }
        } else {
            slot.refcount = slot.refcount - 1;
            proof {
                let h0 = *old(heap);
                let h1 = *heap;
                let p1 = *pool;
                assert forall|i: int| #[trigger] h1.is_live(i) implies {
                    &&& h1.count_of(i) >= 1
                    &&& p1.is_live(h1.ptr_of(i))
                    &&& p1.record(h1.ptr_of(i)).tag == h1.tag_of(i)
                    &&& p1.record(h1.ptr_of(i)).size == size_of::<T>()
                } by {
                    assert(h0.is_live(i));
                }
                assert forall|i: int, j: int|
                    #[trigger] h1.is_live(i) && #[trigger] h1.is_live(j) && i != j implies h1
                    .ptr_of(i).addr != h1.ptr_of(j).addr by {
                    assert(h0.is_live(i) && h0.is_live(j));
                }
            }
            None
        }
    }

    /// Shared access to the node's value.
    pub fn get<'a>(&self, heap: &'a RcHeap<T>) -> (v: &'a T)
        requires
            self.wf(*heap),
        ensures
            *v == heap.value_of(self.slot_spec()),
    {
        match &heap.slots[self.slot].value {
            Some(v) => v,
            None => vstd::pervasive::unreached(),
        }
    }

    /// Exclusive access to the node's value through the heap.
    pub fn get_mut<'a>(&self, heap: &'a mut RcHeap<T>) -> (v: &'a mut T)
        requires
            self.wf(*old(heap)),
        ensures
            *v == old(heap).value_of(self.slot_spec()),
            final(heap).is_live(self.slot_spec()),
            final(heap).value_of(self.slot_spec()) == *final(v),
            final(heap).count_of(self.slot_spec()) == old(heap).count_of(self.slot_spec()),
            final(heap).tag_of(self.slot_spec()) == old(heap).tag_of(self.slot_spec()),
            final(heap).ptr_of(self.slot_spec()) == old(heap).ptr_of(self.slot_spec()),
            final(heap).slot_count() == old(heap).slot_count(),
            forall|i: int| i != self.slot_spec() ==> old(heap).slot_unchanged(*final(heap), i),
    {
        let slot = &mut heap.slots[self.slot];
        match &mut slot.value {
            Some(v) => v,
            None => vstd::pervasive::unreached(),
        }
    }
}

/// One step a shared owner can take: duplicating a handle or disposing of
/// one.
#[derive(Clone, Copy, Debug, PartialEq, Eq, Structural)]
pub enum RcOp {
    Retain,
    Release,
}

/// Outstanding handles after a sequence of operations, starting from the one
/// handle `new` returns.
pub open spec fn spec_handles_after(ops: Seq<RcOp>) -> int
    decreases ops.len(),
{
    if ops.len() == 0 {
        1
    } else {
        spec_handles_after(ops.drop_last()) + if ops.last() == RcOp::Retain {
            1int
        } else {
            -1int
        }
    }
}

/// Number of frees a sequence of operations performs: a release frees the
/// node exactly when it takes the handle count to zero.
pub open spec fn spec_frees_after(ops: Seq<RcOp>) -> int
    decreases ops.len(),
{
    if ops.len() == 0 {
        0
    } else {
        spec_frees_after(ops.drop_last()) + if ops.last() == RcOp::Release
            && spec_handles_after(ops) == 0 {
            1int
        } else {
            0int
        }
    }
}

/// Refcount soundness: along any sequence of retains and releases in which
/// every operation is performed while a handle is still outstanding — the
/// handle count before each step is at least one — the node is freed at most
/// once, it is freed exactly when the count has reached zero, and no free
/// happens while any handle is outstanding.
pub proof fn lemma_refcount_soundness(ops: Seq<RcOp>)
    requires
        forall|i: int|
            0 <= i < ops.len() ==> spec_handles_after(#[trigger] ops.take(i)) >= 1,
    ensures
        spec_handles_after(ops) >= 0,
        spec_frees_after(ops) == if spec_handles_after(ops) == 0 {
            1int
        } else {
            0int
        },
        forall|i: int| 0 <= i < ops.len() ==> spec_frees_after(#[trigger] ops.take(i)) == 0,
    decreases ops.len(),
{
    if ops.len() == 0 {
    } else {
        let prefix = ops.drop_last();
        assert(prefix =~= ops.take(ops.len() - 1));
        assert(forall|i: int|
            0 <= i < prefix.len() ==> prefix.take(i) =~= ops.take(i) && spec_handles_after(
                #[trigger] prefix.take(i),
            ) >= 1);
        lemma_refcount_soundness(prefix);
        assert(spec_handles_after(prefix) >= 1);
        assert forall|i: int| 0 <= i < ops.len() implies spec_frees_after(
            #[trigger] ops.take(i),
        ) == 0 by {
            if i < ops.len() - 1 {
                assert(ops.take(i) =~= prefix.take(i));
            } else {
                assert(ops.take(i) =~= prefix);
            }
        }
    }
}

} // verus!
