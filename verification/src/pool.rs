//! The tagged-allocation primitive every ownership type is built on.
//!
//! The external pool allocator is modeled as an explicit, injectable value:
//! a [`TaggedPool`] records every allocation it has handed out (size, tag,
//! pool kind, liveness) and enforces a byte budget, so allocation failure is
//! a deterministic, testable outcome rather than an ambient effect.  Callers
//! pass the pool to constructors and destructors, which lets a test hold the
//! pool afterwards and check that every allocation was released exactly once
//! with its original tag.

use vstd::prelude::*;

verus! {

/// The kind of pool an allocation is taken from.
#[derive(Clone, Copy, Debug, PartialEq, Eq, Structural)]
pub enum PoolType {
    NonPagedPool,
    PagedPool,
}

/// A handle standing for the address of one pool allocation.
///
/// `free` is only valid on a handle previously returned by `allocate`, with
/// the same tag, while the allocation is live.
#[derive(Clone, Copy, Debug, PartialEq, Eq, Structural)]
pub struct RawPtr {
    pub addr: usize,
}

/// What the pool remembers of one allocation.
struct Allocation {
    size: usize,
    tag: u32,
    kind: PoolType,
    live: bool,
}

/// The mathematical record of one allocation, as contracts speak of it.
pub struct AllocView {
    pub size: nat,
    pub tag: u32,
    pub kind: PoolType,
    pub live: bool,
}

/// Total size of the live allocations in a record sequence.
pub open spec fn live_bytes(s: Seq<AllocView>) -> nat
    decreases s.len(),
{
    if s.len() == 0 {
        0
    } else {
        live_bytes(s.drop_last()) + if s.last().live {
            s.last().size
        } else {
            0
        }
    }
}

/// Number of records with the given tag that are no longer live.
pub open spec fn freed_count(s: Seq<AllocView>, tag: u32) -> nat
    decreases s.len(),
{
    if s.len() == 0 {
        0
    } else {
        freed_count(s.drop_last(), tag) + if s.last().tag == tag && !s.last().live {
            1nat
        } else {
            0nat
        }
    }
}

/// Number of live records with the given tag.
pub open spec fn live_count(s: Seq<AllocView>, tag: u32) -> nat
    decreases s.len(),
{
    if s.len() == 0 {
        0
    } else {
        live_count(s.drop_last(), tag) + if s.last().tag == tag && s.last().live {
            1nat
        } else {
            0nat
        }
    }
}

proof fn lemma_live_bytes_update(s: Seq<AllocView>, i: int, a: AllocView)
    requires
        0 <= i < s.len(),
    ensures
        live_bytes(s.update(i, a)) + if s[i].live {
            s[i].size
        } else {
            0
        } == live_bytes(s) + if a.live {
            a.size
        } else {
            0
        },
    decreases s.len(),
{
    let t = s.update(i, a);
    if i == s.len() - 1 {
        assert(t.drop_last() =~= s.drop_last());
    } else {
        assert(t.drop_last() =~= s.drop_last().update(i, a));
        lemma_live_bytes_update(s.drop_last(), i, a);
    }
}

proof fn lemma_live_bytes_lower(s: Seq<AllocView>, i: int)
    requires
        0 <= i < s.len(),
        s[i].live,
    ensures
        live_bytes(s) >= s[i].size,
    decreases s.len(),
{
    if i < s.len() - 1 {
        lemma_live_bytes_lower(s.drop_last(), i);
    }
}

/// The tagged pool: raw allocate/free with bookkeeping.
///
/// Its view is the sequence of all allocations ever made, in order of
/// allocation; freeing marks a record dead rather than removing it, so the
/// history stays inspectable and handles are never reused.
pub struct TaggedPool {
    records: Vec<Allocation>,
    limit: usize,
    in_use: usize,
}

impl View for TaggedPool {
    type V = Seq<AllocView>;

    closed spec fn view(&self) -> Seq<AllocView> {
        self.records@.map_values(
            |a: Allocation| AllocView { size: a.size as nat, tag: a.tag, kind: a.kind, live: a.live },
        )
    }
}

impl TaggedPool {
    /// The byte budget this pool was created with.
    pub closed spec fn limit_spec(self) -> nat {
        self.limit as nat
    }

    /// Bytes currently held by live allocations.
    pub open spec fn in_use_spec(self) -> nat {
        live_bytes(self@)
    }

    /// The handle is a live allocation of this pool.
    pub open spec fn is_live(self, p: RawPtr) -> bool {
        p.addr < self@.len() && self@[p.addr as int].live
    }

    /// The record behind a handle.
    pub open spec fn record(self, p: RawPtr) -> AllocView {
        self@[p.addr as int]
    }

    /// Well-formedness: the cached live-byte count agrees with the records
    /// and stays within the budget.  Constructors establish it and every
    /// operation preserves it.
    pub closed spec fn wf(self) -> bool {
        &&& self.in_use as nat == live_bytes(self@)
        &&& self.in_use <= self.limit
    }

    /// A fresh pool with the given byte budget and no allocations.
    pub fn new(limit: usize) -> (pool: TaggedPool)
        ensures
            pool.wf(),
            pool@ =~= Seq::<AllocView>::empty(),
            pool.limit_spec() == limit,
    {
        let pool = TaggedPool { records: Vec::new(), limit, in_use: 0 };
        proof {
            assert(pool@ =~= Seq::<AllocView>::empty());
        }
        pool
    }

    /// Allocates `size` bytes under `tag` from the given pool kind.
    ///
    /// Never panics: an exhausted budget yields `None`.  Success is owed
    /// exactly when the live bytes plus `size` fit in the budget.
    pub fn allocate(&mut self, size: usize, tag: u32, kind: PoolType) -> (r: Option<RawPtr>)
        requires
            old(self).wf(),
        ensures
            final(self).wf(),
            r is Some <==> old(self).in_use_spec() + size <= old(self).limit_spec(),
            final(self).limit_spec() == old(self).limit_spec(),
            match r {
                Some(p) => {
                    &&& p.addr == old(self)@.len()
                    &&& final(self)@ =~= old(self)@.push(
                        AllocView { size: size as nat, tag, kind, live: true },
                    )
                    &&& final(self).is_live(p)
                },
                None => final(self)@ =~= old(self)@,
            },
    {
        if size <= self.limit - self.in_use {
            let addr = self.records.len();
            self.records.push(Allocation { size, tag, kind, live: true });
            self.in_use = self.in_use + size;
            proof {
                let av = AllocView { size: size as nat, tag, kind, live: true };
                assert(self@ =~= old(self)@.push(av));
                assert(self@.drop_last() =~= old(self)@);
                assert(self@.last() == av);
            }
            Some(RawPtr { addr })
        } else {
            proof {
                assert(self@ =~= old(self)@);
            }
            None
        }
    }

    /// Releases the allocation behind `ptr`.
    ///
    /// Valid only on a live handle returned by `allocate`, with the tag that
    /// allocation was made under; release covers the whole allocation, so no
    /// size is taken.
    pub fn free(&mut self, ptr: RawPtr, tag: u32)
        requires
            old(self).wf(),
            old(self).is_live(ptr),
            old(self).record(ptr).tag == tag,
        ensures
            final(self).wf(),
            final(self)@ =~= old(self)@.update(
                ptr.addr as int,
                AllocView { live: false, ..old(self).record(ptr) },
            ),
            final(self).limit_spec() == old(self).limit_spec(),
            final(self).in_use_spec() == old(self).in_use_spec() - old(self).record(ptr).size,
    {
        proof {
            lemma_live_bytes_lower(self@, ptr.addr as int);
        }
        let size = self.records[ptr.addr].size;
        let a = &mut self.records[ptr.addr];
        a.live = false;
        self.in_use = self.in_use - size;
        proof {
            let dead = AllocView { live: false, ..old(self).record(ptr) };
            assert(self@ =~= old(self)@.update(ptr.addr as int, dead));
            lemma_live_bytes_update(old(self)@, ptr.addr as int, dead);
        }
    }

    /// Bytes currently held by live allocations.
    pub fn in_use(&self) -> (n: usize)
        requires
            self.wf(),
        ensures
            n == self.in_use_spec(),
    {
        self.in_use
    }

    /// The byte budget this pool was created with.
    pub fn limit(&self) -> (n: usize)
        ensures
            n == self.limit_spec(),
    {
        self.limit
    }

    /// How many allocations under `tag` have been released.
    pub fn freed_with_tag(&self, tag: u32) -> (n: usize)
        ensures
            n == freed_count(self@, tag),
    {
        let mut n: usize = 0;
        let mut i: usize = 0;
        while i < self.records.len()
            invariant
                i <= self.records.len(),
                n == freed_count(self@.take(i as int), tag),
                n <= i,
            decreases self.records.len() - i,
        {
            proof {
                assert(self@.take(i + 1 as int).drop_last() =~= self@.take(i as int));
            }
            if self.records[i].tag == tag && !self.records[i].live {
                n = n + 1;
            }
            i = i + 1;
        }
        proof {
            assert(self@.take(self.records.len() as int) =~= self@);
        }
        n
    }

    /// How many allocations under `tag` are currently live.
    pub fn live_with_tag(&self, tag: u32) -> (n: usize)
        ensures
            n == live_count(self@, tag),
    {
        let mut n: usize = 0;
        let mut i: usize = 0;
        while i < self.records.len()
            invariant
                i <= self.records.len(),
                n == live_count(self@.take(i as int), tag),
                n <= i,
            decreases self.records.len() - i,
        {
            proof {
                assert(self@.take(i + 1 as int).drop_last() =~= self@.take(i as int));
            }
            if self.records[i].tag == tag && self.records[i].live {
                n = n + 1;
            }
            i = i + 1;
        }
        proof {
            assert(self@.take(self.records.len() as int) =~= self@);
        }
        n
    }
}

} // verus!
