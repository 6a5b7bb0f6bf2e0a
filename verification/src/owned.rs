//! Single-owner allocation of one value, built on [`TaggedPool`].
//!
//! An [`ExclusiveBox`] pairs the owned value with the pool allocation that
//! backs it.  It is never aliased: moving the box transfers ownership without
//! reallocation, and `destroy` releases the allocation exactly once, with the
//! tag recorded at construction.

use vstd::prelude::*;

use crate::error::ErrorKind;
use crate::pool::{AllocView, PoolType, RawPtr, TaggedPool};

verus! {

/// Exclusive owner of one `T` backed by a tagged pool allocation.
pub struct ExclusiveBox<T> {
    value: T,
    tag: u32,
    ptr: RawPtr,
}

impl<T> ExclusiveBox<T> {
    /// The owned value.
    pub closed spec fn value_spec(self) -> T {
        self.value
    }

    /// The tag the backing allocation was made under.
    pub closed spec fn tag_spec(self) -> u32 {
        self.tag
    }

    /// The handle of the backing allocation.
    pub closed spec fn ptr_spec(self) -> RawPtr {
        self.ptr
    }

    /// The box's backing allocation is live in `pool`, sized for `T` and
    /// recorded under the box's tag.
    pub open spec fn backed_by(self, pool: TaggedPool) -> bool {
        &&& pool.is_live(self.ptr_spec())
        &&& pool.record(self.ptr_spec()).tag == self.tag_spec()
        &&& pool.record(self.ptr_spec()).size == vstd::layout::size_of::<T>()
    }

    /// Allocates room for one `T` under `tag`, moves `value` in, and returns
    /// the owning handle.  Fails with `AllocationFailure` exactly when the
    /// pool's budget cannot cover `size_of::<T>()` more bytes; a failure
    /// leaves the pool unchanged.
    pub fn new(value: T, kind: PoolType, tag: u32, pool: &mut TaggedPool) -> (r: Result<
        ExclusiveBox<T>,
        ErrorKind,
    >)
        requires
            old(pool).wf(),
        ensures
            final(pool).wf(),
            final(pool).limit_spec() == old(pool).limit_spec(),
            r is Ok <==> old(pool).in_use_spec() + vstd::layout::size_of::<T>() <= old(
                pool,
            ).limit_spec(),
            match r {
                Ok(b) => {
                    &&& b.value_spec() == value
                    &&& b.tag_spec() == tag
                    &&& b.ptr_spec().addr == old(pool)@.len()
                    &&& b.backed_by(*final(pool))
                    &&& final(pool)@ =~= old(pool)@.push(
                        AllocView {
                            size: vstd::layout::size_of::<T>(),
                            tag,
                            kind,
                            live: true,
                        },
                    )
                },
                Err(e) => {
                    &&& e == ErrorKind::AllocationFailure
                    &&& final(pool)@ =~= old(pool)@
                },
            },
    {
        let size = core::mem::size_of::<T>();
        match pool.allocate(size, tag, kind) {
            Some(ptr) => Ok(ExclusiveBox { value, tag, ptr }),
            None => Err(ErrorKind::AllocationFailure),
        }
    }

    /// Shared access to the owned value.
    pub fn value(&self) -> (v: &T)
        ensures
            *v == self.value_spec(),
    {
        &self.value
    }

    /// Exclusive access to the owned value.
    pub fn value_mut(&mut self) -> (v: &mut T)
        ensures
            *v == old(self).value_spec(),
            final(self).value_spec() == *final(v),
            final(self).tag_spec() == old(self).tag_spec(),
            final(self).ptr_spec() == old(self).ptr_spec(),
    {
        &mut self.value
    }

    /// Replaces the owned value, returning the previous one.
    pub fn replace(&mut self, value: T) -> (prev: T)
        ensures
            prev == old(self).value_spec(),
            final(self).value_spec() == value,
            final(self).tag_spec() == old(self).tag_spec(),
            final(self).ptr_spec() == old(self).ptr_spec(),
    {
        let mut value = value;
        core::mem::swap(&mut self.value, &mut value);
        value
    }

    /// Destroys the box: releases the backing allocation with the recorded
    /// tag and hands the owned value back to the caller, whose drop of it
    /// stands for the in-place destruction.
    pub fn destroy(self, pool: &mut TaggedPool) -> (v: T)
        requires
            old(pool).wf(),
            self.backed_by(*old(pool)),
        ensures
            final(pool).wf(),
            final(pool).limit_spec() == old(pool).limit_spec(),
            v == self.value_spec(),
            final(pool)@ =~= old(pool)@.update(
                self.ptr_spec().addr as int,
                AllocView { live: false, ..old(pool).record(self.ptr_spec()) },
            ),
            final(pool).in_use_spec() == old(pool).in_use_spec() - vstd::layout::size_of::<T>(),
    {
        let ExclusiveBox { value, tag, ptr } = self;
        pool.free(ptr, tag);
        value
    }
}

} // verus!
