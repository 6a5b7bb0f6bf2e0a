//! Counted string buffers backed by [`GrowableBuffer`].
//!
//! A [`UnicodeString`] owns a buffer of UTF-16 code units, an [`AnsiString`]
//! a buffer of single-byte characters.  Each can be lowered to a raw counted
//! descriptor — byte length, maximum byte length, and the data — of the
//! shape the external runtime exchanges strings in.

use vstd::prelude::*;

use crate::buffer::{spec_initial_capacity, spec_layout_bytes, spec_max_elems, GrowableBuffer};
use crate::error::ErrorKind;
use crate::pool::{PoolType, TaggedPool};

verus! {

/// A raw counted UTF-16 string descriptor: lengths in bytes, data as code
/// units.
pub struct RawUnicodeString {
    pub length: u16,
    pub maximum_length: u16,
    pub buffer: Vec<u16>,
}

/// A raw counted single-byte string descriptor: lengths in bytes.
pub struct RawAnsiString {
    pub length: u16,
    pub maximum_length: u16,
    pub buffer: Vec<u8>,
}

/// An owned UTF-16 string in pool storage.
pub struct UnicodeString {
    buffer: GrowableBuffer<u16>,
}

impl View for UnicodeString {
    type V = Seq<u16>;

    closed spec fn view(&self) -> Seq<u16> {
        self.buffer@
    }
}

impl UnicodeString {
    /// The backing buffer is well-formed against the pool.
    pub open spec fn wf(self, pool: TaggedPool) -> bool {
        self.buffer_spec().wf(pool)
    }

    /// The backing buffer.
    pub closed spec fn buffer_spec(self) -> GrowableBuffer<u16> {
        self.buffer
    }

    /// Copies the given UTF-16 code units into a fresh pool-backed string.
    /// Fails with `AllocationFailure` exactly when the units can never fit a
    /// buffer or the pool's budget cannot cover one, leaving the pool
    /// unchanged.
    pub fn from_utf16(utf16: &[u16], pool_type: PoolType, tag: u32, pool: &mut TaggedPool) -> (r:
        Result<UnicodeString, ErrorKind>)
        requires
            old(pool).wf(),
        ensures
            final(pool).wf(),
            final(pool).limit_spec() == old(pool).limit_spec(),
            r is Ok <==> utf16@.len() <= spec_max_elems::<u16>() && old(pool).in_use_spec()
                + spec_layout_bytes::<u16>(spec_initial_capacity::<u16>(utf16@.len() as int))
                <= old(pool).limit_spec(),
            match r {
                Ok(s) => {
                    &&& s@ =~= utf16@
                    &&& s.wf(*final(pool))
                    &&& s.buffer_spec().tag_spec() == tag
                    &&& s.buffer_spec().ptr_spec().addr == old(pool)@.len()
                    &&& final(pool)@ =~= old(pool)@.push(
                        crate::pool::AllocView {
                            size: spec_layout_bytes::<u16>(
                                s.buffer_spec().capacity_spec(),
                            ) as nat,
                            tag,
                            kind: pool_type,
                            live: true,
                        },
                    )
                    &&& final(pool).in_use_spec() == old(pool).in_use_spec()
                        + spec_layout_bytes::<u16>(s.buffer_spec().capacity_spec())
                },
                Err(e) => {
                    &&& e == ErrorKind::AllocationFailure
                    &&& final(pool)@ =~= old(pool)@
                },
            },
    {
        vstd::layout::layout_for_type_is_valid::<u16>();
        proof {
            broadcast use vstd::layout::layout_of_primitives;

        }
        let mut buffer = match GrowableBuffer::<u16>::with_capacity(
            utf16.len(),
            pool_type,
            tag,
            pool,
        ) {
            Ok(b) => b,
            Err(e) => {
                return Err(e);
            },
        };
        match buffer.extend_from_slice(utf16, pool) {
            Ok(u) => u,
            Err(_) => vstd::pervasive::unreached(),
        }
        proof {
            assert(pool@.drop_last() =~= old(pool)@);
            assert(pool.in_use_spec() == old(pool).in_use_spec() + spec_layout_bytes::<u16>(
                buffer.capacity_spec(),
            ));
        }
        Ok(UnicodeString { buffer })
    }

    /// Number of UTF-16 code units stored.
    pub fn len(&self) -> (n: usize)
        ensures
            n == self@.len(),
    {
        self.buffer.len()
    }

    /// The stored code units, in order.
    pub fn as_slice(&self) -> (r: &[u16])
        ensures
            r@ == self@,
    {
        self.buffer.as_slice()
    }

    /// Lowers the string to a raw counted descriptor: both lengths are the
    /// byte length of the data, which is copied out.
    pub fn to_unicode_string(&self) -> (r: RawUnicodeString)
        requires
            2 * self@.len() <= u16::MAX,
        ensures
            r.length == 2 * self@.len(),
            r.maximum_length == r.length,
            r.buffer@ =~= self@,
    {
        let words = self.buffer.as_slice();
        let mut buffer: Vec<u16> = Vec::new();
        let mut i: usize = 0;
        while i < words.len()
            invariant
                i <= words@.len(),
                buffer@ =~= words@.take(i as int),
                words@ =~= self@,
                2 * self@.len() <= u16::MAX,
            decreases words@.len() - i,
        {
            buffer.push(words[i]);
            proof {
                assert(buffer@ =~= words@.take(i + 1 as int));
            }
            i = i + 1;
        }
        proof {
            assert(words@.take(words@.len() as int) =~= words@);
        }
        let length = 2 * buffer.len() as u16;
        RawUnicodeString { length, maximum_length: length, buffer }
    }

    /// Destroys the string, releasing its buffer's allocation.
    pub fn destroy(self, pool: &mut TaggedPool)
        requires
            old(pool).wf(),
            self.wf(*old(pool)),
        ensures
            final(pool).wf(),
            final(pool).limit_spec() == old(pool).limit_spec(),
            final(pool)@ =~= old(pool)@.update(
                self.buffer_spec().ptr_spec().addr as int,
                crate::pool::AllocView {
                    live: false,
                    ..old(pool).record(self.buffer_spec().ptr_spec())
                },
            ),
            final(pool).in_use_spec() == old(pool).in_use_spec() - spec_layout_bytes::<u16>(
                self.buffer_spec().capacity_spec(),
            ),
    {
        self.buffer.destroy(pool);
    }
}

/// The single-byte character a UTF-16 unit narrows to: units above `0xFF`
/// become the substitution character `?`.
pub open spec fn spec_narrow(w: u16) -> u8 {
    if w <= 0xFF {
        w as u8
    } else {
        0x3F
    }
}

/// An owned single-byte string in pool storage.
pub struct AnsiString {
    buffer: GrowableBuffer<u8>,
}

impl View for AnsiString {
    type V = Seq<u8>;

    closed spec fn view(&self) -> Seq<u8> {
        self.buffer@
    }
}

impl AnsiString {
    /// The backing buffer is well-formed against the pool.
    pub open spec fn wf(self, pool: TaggedPool) -> bool {
        self.buffer_spec().wf(pool)
    }

    /// The backing buffer.
    pub closed spec fn buffer_spec(self) -> GrowableBuffer<u8> {
        self.buffer
    }

    /// Narrows the given UTF-16 code units, one byte per unit: units above
    /// `0xFF` become the substitution character.  Fails with
    /// `AllocationFailure` exactly when the units can never fit a buffer or
    /// the pool's budget cannot cover one, leaving the pool unchanged.
    pub fn from_utf16(utf16: &[u16], pool_type: PoolType, tag: u32, pool: &mut TaggedPool) -> (r:
        Result<AnsiString, ErrorKind>)
        requires
            old(pool).wf(),
        ensures
            final(pool).wf(),
            final(pool).limit_spec() == old(pool).limit_spec(),
            r is Ok <==> utf16@.len() <= spec_max_elems::<u8>() && old(pool).in_use_spec()
                + spec_layout_bytes::<u8>(spec_initial_capacity::<u8>(utf16@.len() as int)) <= old(
                pool,
            ).limit_spec(),
            match r {
                Ok(s) => {
                    &&& s@ =~= utf16@.map_values(|w: u16| spec_narrow(w))
                    &&& s.wf(*final(pool))
                    &&& s.buffer_spec().tag_spec() == tag
                },
                Err(e) => {
                    &&& e == ErrorKind::AllocationFailure
                    &&& final(pool)@ =~= old(pool)@
                },
            },
    {
        vstd::layout::layout_for_type_is_valid::<u8>();
        proof {
            broadcast use vstd::layout::layout_of_primitives;

        }
        let mut buffer = match GrowableBuffer::<u8>::with_capacity(
            utf16.len(),
            pool_type,
            tag,
            pool,
        ) {
            Ok(b) => b,
            Err(e) => {
                return Err(e);
            },
        };
        let ghost pool1 = *pool;
        let mut i: usize = 0;
        while i < utf16.len()
            invariant
                i <= utf16@.len(),
                buffer@ =~= utf16@.take(i as int).map_values(|w: u16| spec_narrow(w)),
                buffer.wf(*pool),
                pool.wf(),
                pool@ =~= pool1@,
                pool.limit_spec() == pool1.limit_spec(),
                buffer.capacity_spec() >= utf16@.len(),
                buffer.tag_spec() == tag,
            decreases utf16@.len() - i,
        {
            let w = utf16[i];
            let b: u8 = if w <= 0xFF {
                w as u8
            } else {
                0x3F
            };
            match buffer.push(b, pool) {
                Ok(u) => u,
                Err(_) => vstd::pervasive::unreached(),
            }
            proof {
                assert(buffer@ =~= utf16@.take(i + 1 as int).map_values(|w: u16| spec_narrow(w)));
            }
            i = i + 1;
        }
        proof {
            assert(utf16@.take(utf16@.len() as int) =~= utf16@);
        }
        Ok(AnsiString { buffer })
    }

    /// Number of bytes stored.
    pub fn len(&self) -> (n: usize)
        ensures
            n == self@.len(),
    {
        self.buffer.len()
    }

    /// The stored bytes, in order.
    pub fn as_slice(&self) -> (r: &[u8])
        ensures
            r@ == self@,
    {
        self.buffer.as_slice()
    }

    /// Lowers the string to a raw counted descriptor: both lengths are the
    /// byte length of the data, which is copied out.
    pub fn to_ansi_string(&self) -> (r: RawAnsiString)
        requires
            self@.len() <= u16::MAX,
        ensures
            r.length == self@.len(),
            r.maximum_length == r.length,
            r.buffer@ =~= self@,
    {
        let bytes = self.buffer.as_slice();
        let mut buffer: Vec<u8> = Vec::new();
        let mut i: usize = 0;
        while i < bytes.len()
            invariant
                i <= bytes@.len(),
                buffer@ =~= bytes@.take(i as int),
                bytes@ =~= self@,
                self@.len() <= u16::MAX,
            decreases bytes@.len() - i,
        {
            buffer.push(bytes[i]);
            proof {
                assert(buffer@ =~= bytes@.take(i + 1 as int));
            }
            i = i + 1;
        }
        proof {
            assert(bytes@.take(bytes@.len() as int) =~= bytes@);
        }
        let length = buffer.len() as u16;
        RawAnsiString { length, maximum_length: length, buffer }
    }

    /// Destroys the string, releasing its buffer's allocation.
    pub fn destroy(self, pool: &mut TaggedPool)
        requires
            old(pool).wf(),
            self.wf(*old(pool)),
        ensures
            final(pool).wf(),
            final(pool).limit_spec() == old(pool).limit_spec(),
            final(pool)@ =~= old(pool)@.update(
                self.buffer_spec().ptr_spec().addr as int,
                crate::pool::AllocView {
                    live: false,
                    ..old(pool).record(self.buffer_spec().ptr_spec())
                },
            ),
            final(pool).in_use_spec() == old(pool).in_use_spec() - spec_layout_bytes::<u8>(
                self.buffer_spec().capacity_spec(),
            ),
    {
        self.buffer.destroy(pool);
    }
}

} // verus!
