//! Doubly linked list of pool-backed nodes.
//!
//! The list is an arena: nodes live in slots addressed by plain indices, and
//! the `prev`/`next` links of the intentionally circular ring are stored as a
//! [`ListEntry`] of indices rather than owning pointers.  A sentinel node —
//! the slot the list is created with — is threaded into the ring so that the
//! sentinel's `blink` is the logical tail and its `flink` the logical head.
//! Ownership of every node belongs to the arena, which releases them
//! explicitly: `remove_tail` frees the node it unlinks, and `teardown` visits
//! every slot exactly once, so the cyclic links never keep a node alive.

use vstd::layout::size_of;
use vstd::prelude::*;

use crate::error::ErrorKind;
use crate::pool::{AllocView, PoolType, RawPtr, TaggedPool};

verus! {

/// A pair of ring links: `flink` points forward (towards the head side),
/// `blink` backward (towards the tail side).  Links are arena indices.
#[derive(Clone, Copy, Debug, PartialEq, Eq, Structural)]
pub struct ListEntry {
    pub flink: usize,
    pub blink: usize,
}

impl ListEntry {
    /// Builds the link pair from its two indices.
    pub fn from(flink: usize, blink: usize) -> (r: ListEntry)
        ensures
            r.flink == flink,
            r.blink == blink,
    {
        ListEntry { flink, blink }
    }
}

/// One list node as handed in and out by the callers: the carried value.
pub struct NodeEntry<T> {
    pub value: T,
}

impl<T> NodeEntry<T> {
    /// A node carrying `value`, ready to be spliced into a list.
    pub fn new(value: T) -> (r: NodeEntry<T>)
        ensures
            r.value == value,
    {
        NodeEntry { value }
    }
}

/// One arena slot: the node's value, its ring links, and the pool
/// allocation standing behind the node.
struct Slot<T> {
    value: T,
    links: ListEntry,
    ptr: RawPtr,
}

/// The list: an arena of slots, the ring threaded through them by index.
///
/// Its view is the sequence of values from head to tail, the sentinel's own
/// value excluded.
pub struct List<T> {
    slots: Vec<Option<Slot<T>>>,
    pool_type: PoolType,
    tag: u32,
    ring: Ghost<Seq<int>>,
}

impl<T> View for List<T> {
    type V = Seq<T>;

    closed spec fn view(&self) -> Seq<T> {
        Seq::new((self.ring@.len() - 1) as nat, |k: int| self.node_value(self.ring@[k + 1]))
    }
}

impl<T> List<T> {
    /// The value stored in arena slot `idx`.
    closed spec fn node_value(self, idx: int) -> T {
        match self.slots@[idx] {
            Option::Some(s) => s.value,
            Option::None => vstd::pervasive::arbitrary(),
        }
    }

    /// The links of arena slot `idx`.
    closed spec fn node_links(self, idx: int) -> ListEntry {
        match self.slots@[idx] {
            Option::Some(s) => s.links,
            Option::None => vstd::pervasive::arbitrary(),
        }
    }

    /// The pool allocation behind arena slot `idx`.
    closed spec fn node_ptr(self, idx: int) -> RawPtr {
        match self.slots@[idx] {
            Option::Some(s) => s.ptr,
            Option::None => vstd::pervasive::arbitrary(),
        }
    }

    /// Slot `idx` holds a node.
    closed spec fn occupied(self, idx: int) -> bool {
        0 <= idx < self.slots@.len() && self.slots@[idx] is Some
    }

    /// The tag the list's allocations are made under.
    pub closed spec fn tag_spec(self) -> u32 {
        self.tag
    }

    /// The pool kind the list's allocations are made from.
    pub closed spec fn pool_type_spec(self) -> PoolType {
        self.pool_type
    }

    /// The pool allocation at address `a` belongs to one of the list's
    /// nodes.
    pub closed spec fn owns_addr(self, a: int) -> bool {
        exists|i: int| #[trigger] self.occupied(i) && self.node_ptr(i).addr == a
    }

    /// The ring structure: the ghost ring starts at the sentinel (slot 0),
    /// visits pairwise distinct occupied slots, the links of each ring
    /// member point to its neighbours (wrapping around), and every occupied
    /// slot is on the ring.
    spec fn ring_wf(self) -> bool {
        let r = self.ring@;
        let n = r.len() as int;
        &&& n >= 1
        &&& r[0] == 0
        &&& (forall|k: int| 0 <= k < n ==> self.occupied(#[trigger] r[k]))
        &&& (forall|k: int, l: int| 0 <= k < n && 0 <= l < n && k != l ==> r[k] != r[l])
        &&& (forall|k: int|
            0 <= k < n ==> (#[trigger] self.node_links(r[k])).flink as int == r[
                if k == n - 1 {
                    0int
                } else {
                    k + 1
                }
            ])
        &&& (forall|k: int|
            0 <= k < n ==> (#[trigger] self.node_links(r[k])).blink as int == r[
                if k == 0 {
                    n - 1
                } else {
                    k - 1
                }
            ])
        &&& (forall|i: int| #[trigger] self.occupied(i) ==> self.ring@.contains(i))
    }

    /// Well-formedness against the pool: the ring is intact, and every node
    /// has a live, matching allocation, no two nodes sharing one.
    pub closed spec fn wf(self, pool: TaggedPool) -> bool {
        &&& self.ring_wf()
        &&& (forall|i: int| #[trigger] self.occupied(i) ==> {
            &&& pool.is_live(self.node_ptr(i))
            &&& pool.record(self.node_ptr(i)).tag == self.tag
            &&& pool.record(self.node_ptr(i)).size == size_of::<NodeEntry<T>>()
        })
        &&& (forall|i: int, j: int|
            #[trigger] self.occupied(i) && #[trigger] self.occupied(j) && i != j
                ==> self.node_ptr(i).addr != self.node_ptr(j).addr)
    }

    /// Creates the list: a single sentinel node holding `data`, linked to
    /// itself — the empty ring.  Fails with `AllocationFailure` exactly when
    /// the pool's budget cannot cover the sentinel, leaving the pool
    /// unchanged.
    pub fn new(data: T, pool_type: PoolType, tag: u32, pool: &mut TaggedPool) -> (r: Result<
        List<T>,
        ErrorKind,
    >)
        requires
            old(pool).wf(),
        ensures
            final(pool).wf(),
            final(pool).limit_spec() == old(pool).limit_spec(),
            r is Ok <==> old(pool).in_use_spec() + size_of::<NodeEntry<T>>() <= old(
                pool,
            ).limit_spec(),
            match r {
                Ok(l) => {
                    &&& l@ =~= Seq::<T>::empty()
                    &&& l.wf(*final(pool))
                    &&& l.tag_spec() == tag
                    &&& l.pool_type_spec() == pool_type
                    &&& final(pool)@ =~= old(pool)@.push(
                        AllocView {
                            size: size_of::<NodeEntry<T>>(),
                            tag,
                            kind: pool_type,
                            live: true,
                        },
                    )
                },
                Err(e) => {
                    &&& e == ErrorKind::AllocationFailure
                    &&& final(pool)@ =~= old(pool)@
                },
            },
    {
        let size = core::mem::size_of::<NodeEntry<T>>();
        let ptr = match pool.allocate(size, tag, pool_type) {
            Some(p) => p,
            None => {
                return Err(ErrorKind::AllocationFailure);
            },
        };
        let mut slots: Vec<Option<Slot<T>>> = Vec::new();
        slots.push(Some(Slot { value: data, links: ListEntry { flink: 0, blink: 0 }, ptr }));
        let ghost ring0: Seq<int> = seq![0int];
        let l = List { slots, pool_type, tag, ring: Ghost(ring0) };
        proof {
            assert(l.ring@.len() == 1);
            assert(l.occupied(0));
            assert forall|i: int| #[trigger] l.occupied(i) implies l.ring@.contains(i) by {
                assert(i == 0);
                assert(l.ring@[0] == 0);
            }
        }
        Ok(l)
    }


    /// Splices a new node in right behind the sentinel, making it the new
    /// head.  Fails with `AllocationFailure` exactly when the pool's budget
    /// cannot cover the node, leaving everything unchanged.
    pub fn insert_head(&mut self, node: NodeEntry<T>, pool: &mut TaggedPool) -> (r: Result<
        (),
        ErrorKind,
    >)
        requires
            old(self).wf(*old(pool)),
            old(pool).wf(),
        ensures
            final(pool).wf(),
            final(pool).limit_spec() == old(pool).limit_spec(),
            final(self).wf(*final(pool)),
            final(self).tag_spec() == old(self).tag_spec(),
            final(self).pool_type_spec() == old(self).pool_type_spec(),
            r is Ok <==> old(pool).in_use_spec() + size_of::<NodeEntry<T>>() <= old(
                pool,
            ).limit_spec(),
            r is Ok ==> final(self)@ =~= seq![node.value] + old(self)@ && final(pool)@ =~= old(
                pool,
            )@.push(
                AllocView {
                    size: size_of::<NodeEntry<T>>(),
                    tag: old(self).tag_spec(),
                    kind: old(self).pool_type_spec(),
                    live: true,
                },
            ),
            r is Err ==> r == Err::<(), ErrorKind>(ErrorKind::AllocationFailure) && *final(self)
                == *old(self) && final(pool)@ =~= old(pool)@,
    {
        proof {
            assert(self.occupied(self.ring@[0]));
        }
        let size = core::mem::size_of::<NodeEntry<T>>();
        let ptr = match pool.allocate(size, self.tag, self.pool_type) {
            Some(p) => p,
            None => {
                return Err(ErrorKind::AllocationFailure);
            },
        };
        let idx = self.slots.len();
        let first = match &self.slots[0] {
            Some(s) => s.links.flink,
            None => vstd::pervasive::unreached(),
        };
        proof {
            let r = self.ring@;
            let n = r.len() as int;
            assert(self.node_links(r[0]).flink == first);
            if n == 1 {
                assert(first as int == r[0]);
            } else {
                assert(first as int == r[1]);
                assert(self.occupied(r[1]));
            }
        }
        self.slots.push(Some(Slot { value: node.value, links: ListEntry { flink: first, blink: 0 }, ptr }));
        match &mut self.slots[first] {
            Some(s) => {
                s.links.blink = idx;
            },
            None => vstd::pervasive::unreached(),
        }
        match &mut self.slots[0] {
            Some(s) => {
                s.links.flink = idx;
            },
            None => vstd::pervasive::unreached(),
        }
        proof {
            self.ring = Ghost(self.ring@.insert(1, idx as int));
            let l0 = *old(self);
            let l1 = *self;
            let r0 = l0.ring@;
            let r1 = l1.ring@;
            let n0 = r0.len() as int;
            assert(r1.len() == n0 + 1);
            assert(r1[0] == r0[0]);
            assert(r1[1] == idx as int);
            assert(forall|k: int| 2 <= k < n0 + 1 ==> r1[k] == r0[k - 1]);
            assert(forall|k: int| 0 <= k < n0 ==> l0.occupied(#[trigger] r0[k]) && r0[k] < idx);
            assert forall|k: int| 0 <= k < n0 + 1 implies l1.occupied(#[trigger] r1[k]) by {
                if k >= 2 {
                    assert(l0.occupied(r0[k - 1]));
                }
            }
            assert forall|k: int| 0 <= k < n0 + 1 implies (#[trigger] l1.node_links(
                r1[k],
            )).flink as int == r1[
                if k == n0 {
                    0int
                } else {
                    k + 1
                }
            ] by {
                if k == 0 {
                } else if k == 1 {
                    if n0 == 1 {
                    } else {
                        assert(l0.node_links(r0[0]).flink as int == r0[1]);
                    }
                } else {
                    assert(l0.node_links(r0[k - 1]).flink as int == r0[
                        if k - 1 == n0 - 1 {
                            0int
                        } else {
                            k
                        }
                    ]);
                }
            }
            assert forall|k: int| 0 <= k < n0 + 1 implies (#[trigger] l1.node_links(
                r1[k],
            )).blink as int == r1[
                if k == 0 {
                    n0
                } else {
                    k - 1
                }
            ] by {
                if k == 0 {
                    assert(l0.node_links(r0[0]).blink as int == r0[n0 - 1]);
                } else if k == 1 {
                } else if k == 2 {
                } else {
                    assert(l0.node_links(r0[k - 1]).blink as int == r0[k - 2]);
                }
            }
            assert forall|i: int| #[trigger] l1.occupied(i) implies r1.contains(i) by {
                if i < idx {
                    assert(l0.occupied(i));
                    let k = choose|k: int| 0 <= k < n0 && r0[k] == i;
                    if k == 0 {
                        assert(r1[0] == i);
                    } else {
                        assert(r1[k + 1] == i);
                    }
                } else {
                    assert(i == idx);
                    assert(r1[1] == i);
                }
            }
            assert forall|i: int| #[trigger] l1.occupied(i) implies {
                &&& pool.is_live(l1.node_ptr(i))
                &&& pool.record(l1.node_ptr(i)).tag == l1.tag
                &&& pool.record(l1.node_ptr(i)).size == size_of::<NodeEntry<T>>()
            } by {
                if i < idx {
                    assert(l0.occupied(i));
                    assert(old(pool).is_live(l0.node_ptr(i)));
                }
            }
            assert forall|i: int, j: int|
                #[trigger] l1.occupied(i) && #[trigger] l1.occupied(j) && i != j implies l1
                .node_ptr(i).addr != l1.node_ptr(j).addr by {
                if i < idx && j < idx {
                    assert(l0.occupied(i) && l0.occupied(j));
                } else if i < idx {
                    assert(l0.occupied(i));
                    assert(old(pool).is_live(l0.node_ptr(i)));
                } else if j < idx {
                    assert(l0.occupied(j));
                    assert(old(pool).is_live(l0.node_ptr(j)));
                }
            }
            assert(l1@ =~= seq![node.value] + l0@);
        }
        Ok(())
    }

    /// Splices a new node in right before the sentinel, making it the new
    /// tail.  Fails with `AllocationFailure` exactly when the pool's budget
    /// cannot cover the node, leaving everything unchanged.
    pub fn insert_tail(&mut self, node: NodeEntry<T>, pool: &mut TaggedPool) -> (r: Result<
        (),
        ErrorKind,
    >)
        requires
            old(self).wf(*old(pool)),
            old(pool).wf(),
        ensures
            final(pool).wf(),
            final(pool).limit_spec() == old(pool).limit_spec(),
            final(self).wf(*final(pool)),
            final(self).tag_spec() == old(self).tag_spec(),
            final(self).pool_type_spec() == old(self).pool_type_spec(),
            r is Ok <==> old(pool).in_use_spec() + size_of::<NodeEntry<T>>() <= old(
                pool,
            ).limit_spec(),
            r is Ok ==> final(self)@ =~= old(self)@.push(node.value) && final(pool)@ =~= old(
                pool,
            )@.push(
                AllocView {
                    size: size_of::<NodeEntry<T>>(),
                    tag: old(self).tag_spec(),
                    kind: old(self).pool_type_spec(),
                    live: true,
                },
            ),
            r is Err ==> r == Err::<(), ErrorKind>(ErrorKind::AllocationFailure) && *final(self)
                == *old(self) && final(pool)@ =~= old(pool)@,
    {
        proof {
            assert(self.occupied(self.ring@[0]));
        }
        let size = core::mem::size_of::<NodeEntry<T>>();
        let ptr = match pool.allocate(size, self.tag, self.pool_type) {
            Some(p) => p,
            None => {
                return Err(ErrorKind::AllocationFailure);
            },
        };
        let idx = self.slots.len();
        let last = match &self.slots[0] {
            Some(s) => s.links.blink,
            None => vstd::pervasive::unreached(),
        };
        proof {
            let r = self.ring@;
            let n = r.len() as int;
            assert(self.node_links(r[0]).blink == last);
            assert(last as int == r[n - 1]);
            assert(self.occupied(r[n - 1]));
        }
        self.slots.push(Some(Slot { value: node.value, links: ListEntry { flink: 0, blink: last }, ptr }));
        match &mut self.slots[last] {
            Some(s) => {
                s.links.flink = idx;
            },
            None => vstd::pervasive::unreached(),
        }
        match &mut self.slots[0] {
            Some(s) => {
                s.links.blink = idx;
            },
            None => vstd::pervasive::unreached(),
        }
        proof {
            self.ring = Ghost(self.ring@.push(idx as int));
            let l0 = *old(self);
            let l1 = *self;
            let r0 = l0.ring@;
            let r1 = l1.ring@;
            let n0 = r0.len() as int;
            assert(r1.len() == n0 + 1);
            assert(forall|k: int| 0 <= k < n0 ==> r1[k] == r0[k]);
            assert(r1[n0] == idx as int);
            assert(forall|k: int| 0 <= k < n0 ==> l0.occupied(#[trigger] r0[k]) && r0[k] < idx);
            assert forall|k: int| 0 <= k < n0 + 1 implies l1.occupied(#[trigger] r1[k]) by {
                if k < n0 {
                    assert(l0.occupied(r0[k]));
                }
            }
            assert forall|k: int| 0 <= k < n0 + 1 implies (#[trigger] l1.node_links(
                r1[k],
            )).flink as int == r1[
                if k == n0 {
                    0int
                } else {
                    k + 1
                }
            ] by {
                if k == n0 {
                } else if k == n0 - 1 {
                } else {
                    assert(l0.node_links(r0[k]).flink as int == r0[k + 1]);
                }
            }
            assert forall|k: int| 0 <= k < n0 + 1 implies (#[trigger] l1.node_links(
                r1[k],
            )).blink as int == r1[
                if k == 0 {
                    n0
                } else {
                    k - 1
                }
            ] by {
                if k == 0 {
                } else if k == n0 {
                } else {
                    assert(l0.node_links(r0[k]).blink as int == r0[k - 1]);
                }
            }
            assert forall|i: int| #[trigger] l1.occupied(i) implies r1.contains(i) by {
                if i < idx {
                    assert(l0.occupied(i));
                    let k = choose|k: int| 0 <= k < n0 && r0[k] == i;
                    assert(r1[k] == i);
                } else {
                    assert(i == idx);
                    assert(r1[n0] == i);
                }
            }
            assert forall|i: int| #[trigger] l1.occupied(i) implies {
                &&& pool.is_live(l1.node_ptr(i))
                &&& pool.record(l1.node_ptr(i)).tag == l1.tag
                &&& pool.record(l1.node_ptr(i)).size == size_of::<NodeEntry<T>>()
            } by {
                if i < idx {
                    assert(l0.occupied(i));
                    assert(old(pool).is_live(l0.node_ptr(i)));
                }
            }
            assert forall|i: int, j: int|
                #[trigger] l1.occupied(i) && #[trigger] l1.occupied(j) && i != j implies l1
                .node_ptr(i).addr != l1.node_ptr(j).addr by {
                if i < idx && j < idx {
                    assert(l0.occupied(i) && l0.occupied(j));
                } else if i < idx {
                    assert(l0.occupied(i));
                    assert(old(pool).is_live(l0.node_ptr(i)));
                } else if j < idx {
                    assert(l0.occupied(j));
                    assert(old(pool).is_live(l0.node_ptr(j)));
                }
            }
            assert(l1@ =~= l0@.push(node.value));
        }
        Ok(())
    }

    /// Unlinks and returns the node just before the sentinel — the tail —
    /// releasing its allocation; absent on an empty ring.
    pub fn remove_tail(&mut self, pool: &mut TaggedPool) -> (r: Option<NodeEntry<T>>)
        requires
            old(self).wf(*old(pool)),
            old(pool).wf(),
        ensures
            final(pool).wf(),
            final(pool).limit_spec() == old(pool).limit_spec(),
            final(self).wf(*final(pool)),
            final(self).tag_spec() == old(self).tag_spec(),
            final(self).pool_type_spec() == old(self).pool_type_spec(),
            old(self)@.len() == 0 ==> r is None && *final(self) == *old(self) && final(pool)@
                =~= old(pool)@,
            old(self)@.len() > 0 ==> {
                &&& match r {
                    Some(node) => node.value == old(self)@.last(),
                    None => false,
                }
                &&& final(self)@ =~= old(self)@.drop_last()
                &&& exists|a: int|
                    0 <= a < old(pool)@.len() && old(pool)@[a].live && old(pool)@[a].tag == old(
                        self,
                    ).tag_spec() && final(pool)@ =~= old(pool)@.update(
                        a,
                        AllocView { live: false, ..old(pool)@[a] },
                    )
            },
    {
        proof {
            assert(self.occupied(self.ring@[0]));
        }
        let last = match &self.slots[0] {
            Some(s) => s.links.blink,
            None => vstd::pervasive::unreached(),
        };
        proof {
            let r = self.ring@;
            let n = r.len() as int;
            assert(self.node_links(r[0]).blink as int == r[n - 1]);
            assert(last as int == r[n - 1]);
            if n == 1 {
                assert(last == 0);
            } else {
                assert(r[n - 1] != r[0]);
                assert(last != 0);
            }
        }
        if last == 0 {
            return None;
        }
        proof {
            assert(self.occupied(last as int));
        }
        let prev = match &self.slots[last] {
            Some(s) => s.links.blink,
            None => vstd::pervasive::unreached(),
        };
        proof {
            let r = self.ring@;
            let n = r.len() as int;
            assert(n >= 2);
            assert(self.node_links(r[n - 1]).blink as int == r[n - 2]);
            assert(prev as int == r[n - 2]);
            assert(self.occupied(prev as int));
        }
        match &mut self.slots[prev] {
            Some(s) => {
                s.links.flink = 0;
            },
            None => vstd::pervasive::unreached(),
        }
        match &mut self.slots[0] {
            Some(s) => {
                s.links.blink = prev;
            },
            None => vstd::pervasive::unreached(),
        }
        let taken = self.slots[last as usize].take();
        let slot = match taken {
            Some(s) => s,
            None => vstd::pervasive::unreached(),
        };
        pool.free(slot.ptr, self.tag);
        proof {
            self.ring = Ghost(self.ring@.drop_last());
            let l0 = *old(self);
            let l1 = *self;
            let r0 = l0.ring@;
            let r1 = l1.ring@;
            let n0 = r0.len() as int;
            assert(r1.len() == n0 - 1);
            assert(forall|k: int| 0 <= k < n0 - 1 ==> r1[k] == r0[k]);
            assert(forall|k: int| 0 <= k < n0 ==> l0.occupied(#[trigger] r0[k]));
            assert forall|k: int| 0 <= k < n0 - 1 implies l1.occupied(#[trigger] r1[k]) by {
                assert(l0.occupied(r0[k]));
                assert(r0[k] != r0[n0 - 1]);
            }
            assert forall|k: int| 0 <= k < n0 - 1 implies (#[trigger] l1.node_links(
                r1[k],
            )).flink as int == r1[
                if k == n0 - 2 {
                    0int
                } else {
                    k + 1
                }
            ] by {
                if k == n0 - 2 {
                } else if k == 0 && n0 == 2 {
                } else {
                    assert(l0.node_links(r0[k]).flink as int == r0[k + 1]);
                    assert(l1.node_links(r1[k]).flink == l0.node_links(r0[k]).flink);
                }
            }
            assert forall|k: int| 0 <= k < n0 - 1 implies (#[trigger] l1.node_links(
                r1[k],
            )).blink as int == r1[
                if k == 0 {
                    n0 - 2
                } else {
                    k - 1
                }
            ] by {
                if k == 0 {
                } else {
                    assert(l0.node_links(r0[k]).blink as int == r0[k - 1]);
                    assert(l1.node_links(r1[k]).blink == l0.node_links(r0[k]).blink);
                }
            }
            assert forall|i: int| #[trigger] l1.occupied(i) implies r1.contains(i) by {
                assert(l0.occupied(i));
                let k = choose|k: int| 0 <= k < n0 && r0[k] == i;
                assert(i != r0[n0 - 1]);
                assert(k != n0 - 1);
                assert(r1[k] == i);
            }
            assert forall|i: int| #[trigger] l1.occupied(i) implies {
                &&& pool.is_live(l1.node_ptr(i))
                &&& pool.record(l1.node_ptr(i)).tag == l1.tag
                &&& pool.record(l1.node_ptr(i)).size == size_of::<NodeEntry<T>>()
            } by {
                assert(l0.occupied(i));
                assert(i != last as int);
                assert(l0.occupied(last as int));
                assert(l0.node_ptr(i).addr != l0.node_ptr(last as int).addr);
            }
            assert forall|i: int, j: int|
                #[trigger] l1.occupied(i) && #[trigger] l1.occupied(j) && i != j implies l1
                .node_ptr(i).addr != l1.node_ptr(j).addr by {
                assert(l0.occupied(i) && l0.occupied(j));
            }
            assert(l1@ =~= l0@.drop_last());
            let a = l0.node_ptr(last as int).addr as int;
            assert(old(pool).is_live(l0.node_ptr(last as int)));
            assert(0 <= a < old(pool)@.len() && old(pool)@[a].live && old(pool)@[a].tag
                == l0.tag_spec() && pool@ =~= old(pool)@.update(
                a,
                AllocView { live: false, ..old(pool)@[a] },
            ));
        }
        Some(NodeEntry { value: slot.value })
    }

    /// Tears the list down: visits every arena slot exactly once and
    /// releases each node's allocation, the sentinel included.  This is the
    /// explicit teardown that reclaims the ring despite its circular links.
    pub fn teardown(self, pool: &mut TaggedPool)
        requires
            old(pool).wf(),
            self.wf(*old(pool)),
        ensures
            final(pool).wf(),
            final(pool).limit_spec() == old(pool).limit_spec(),
            final(pool)@.len() == old(pool)@.len(),
            forall|a: int|
                0 <= a < old(pool)@.len() ==> final(pool)@[a] == (if self.owns_addr(a) {
                    AllocView { live: false, ..old(pool)@[a] }
                } else {
                    old(pool)@[a]
                }),
    {
        let List { mut slots, pool_type, tag, ring } = self;
        let ghost orig = self;
        let mut i: usize = 0;
        while i < slots.len()
            invariant
                i <= slots@.len(),
                slots@.len() == orig.slots@.len(),
                forall|j: int| i <= j < slots@.len() ==> slots@[j] == orig.slots@[j],
                pool.wf(),
                pool.limit_spec() == old(pool).limit_spec(),
                pool@.len() == old(pool)@.len(),
                forall|a: int|
                    0 <= a < old(pool)@.len() ==> pool@[a] == (if exists|j: int|
                        0 <= j < i && #[trigger] orig.occupied(j) && orig.node_ptr(j).addr == a {
                        AllocView { live: false, ..old(pool)@[a] }
                    } else {
                        old(pool)@[a]
                    }),
                orig.wf(*old(pool)),
                tag == orig.tag_spec(),
            decreases slots@.len() - i,
        {
            let taken = slots[i].take();
            match taken {
                Some(sl) => {
                    proof {
                        assert(orig.occupied(i as int));
                        assert(sl.ptr == orig.node_ptr(i as int));
                        assert(old(pool).is_live(sl.ptr));
                        let a = sl.ptr.addr as int;
                        if exists|j: int|
                            0 <= j < i && #[trigger] orig.occupied(j) && orig.node_ptr(j).addr
                                == a {
                            let j = choose|j: int|
                                0 <= j < i && #[trigger] orig.occupied(j) && orig.node_ptr(
                                    j,
                                ).addr == a;
                            assert(orig.node_ptr(j).addr != orig.node_ptr(i as int).addr);
                            assert(false);
                        }
                        assert(pool@[a] == old(pool)@[a]);
                    }
                    pool.free(sl.ptr, tag);
                },
                None => {
                    proof {
                        assert(!orig.occupied(i as int));
                    }
                },
            }
            proof {
                assert forall|a: int| 0 <= a < old(pool)@.len() implies pool@[a] == (
                if exists|j: int|
                    0 <= j < i + 1 && #[trigger] orig.occupied(j) && orig.node_ptr(j).addr == a {
                    AllocView { live: false, ..old(pool)@[a] }
                } else {
                    old(pool)@[a]
                }) by {
                    if exists|j: int|
                        0 <= j < i + 1 && #[trigger] orig.occupied(j) && orig.node_ptr(j).addr
                            == a {
                        let j = choose|j: int|
                            0 <= j < i + 1 && #[trigger] orig.occupied(j) && orig.node_ptr(
                                j,
                            ).addr == a;
                        if j < i {
                            assert(exists|j2: int|
                                0 <= j2 < i && #[trigger] orig.occupied(j2) && orig.node_ptr(
                                    j2,
                                ).addr == a);
                        }
                    }
                }
            }
            i = i + 1;
        }
        proof {
            assert forall|a: int| 0 <= a < old(pool)@.len() implies pool@[a] == (
            if orig.owns_addr(a) {
                AllocView { live: false, ..old(pool)@[a] }
            } else {
                old(pool)@[a]
            }) by {
                if orig.owns_addr(a) {
                    let j = choose|j: int| #[trigger] orig.occupied(j) && orig.node_ptr(j).addr
                        == a;
                    assert(0 <= j < slots@.len());
                } else {
                    if exists|j: int|
                        0 <= j < slots@.len() && #[trigger] orig.occupied(j) && orig.node_ptr(
                            j,
                        ).addr == a {
                        assert(orig.owns_addr(a));
                    }
                }
            }
        }
    }
}

} // verus!
