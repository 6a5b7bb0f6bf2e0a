//! Contiguous, header-prefixed, capacity-doubling buffer built on
//! [`TaggedPool`].
//!
//! One allocation holds a bookkeeping [`Header`] followed by up to `capacity`
//! element slots, the header start aligned to the larger of the element's and
//! the header's alignment.  The layout helpers compute the byte size of such
//! an allocation and the largest element count it can ever reach; the buffer
//! keeps `len <= capacity <= max_elems` as its invariant and grows by
//! doubling, never shrinking.

use vstd::arithmetic::div_mod::{
    lemma_div_is_ordered, lemma_div_multiples_vanish, lemma_div_multiples_vanish_fancy,
    lemma_fundamental_div_mod, lemma_fundamental_div_mod_converse, lemma_mod_multiples_basic,
};
use vstd::arithmetic::mul::{lemma_mul_inequality, lemma_mul_is_commutative};
use vstd::arithmetic::power::pow;
use vstd::arithmetic::power2::{
    is_pow2, is_pow2_equiv, is_pow2_exists, lemma_pow2, lemma_pow2_adds,
    lemma_pow2_strictly_increases, lemma_pow2_unfold, pow2,
};
use vstd::bits::{lemma_usize_low_bits_mask_is_mod, low_bits_mask};
use vstd::layout::{align_of, layout_for_type_is_valid, size_of, unsigned_int_max_values};
use vstd::prelude::*;

use crate::error::ErrorKind;
use crate::pool::{AllocView, PoolType, RawPtr, TaggedPool};

verus! {

/// The bookkeeping record that shares the buffer's allocation, placed at its
/// start; only its size and alignment enter the layout computations.
struct Header {
    len: usize,
    cap: usize,
    pool_type: PoolType,
    tag: u32,
}

/// Smallest multiple of `alignment` that is at least `n`.
pub open spec fn spec_next_aligned(n: int, alignment: int) -> int {
    ((n + alignment - 1) / alignment) * alignment
}

/// The alignment of the buffer allocation: the larger of the element's and
/// the header's.
pub closed spec fn spec_max_align<T>() -> int {
    if align_of::<T>() > align_of::<Header>() {
        align_of::<T>() as int
    } else {
        align_of::<Header>() as int
    }
}

/// The capacity substituted for zero: smaller elements start with more room.
pub open spec fn spec_min_capacity<T>() -> int {
    if size_of::<T>() == 1 {
        8
    } else if 2 <= size_of::<T>() <= 1024 {
        4
    } else {
        1
    }
}

/// One doubling step, saturating at `usize::MAX`; from zero it jumps to the
/// minimum capacity.
pub open spec fn spec_next_capacity<T>(capacity: int) -> int {
    if capacity == 0 {
        spec_min_capacity::<T>()
    } else if 2 * capacity <= usize::MAX {
        2 * capacity
    } else {
        usize::MAX as int
    }
}

/// The largest element count any buffer of `T` can reach: what remains of
/// the address space after the aligned header, in whole elements.
pub closed spec fn spec_max_elems<T>() -> int {
    let a = spec_max_align::<T>();
    let header_bytes = spec_next_aligned(size_of::<Header>() as int, a);
    (usize::MAX - (usize::MAX as int) % a - header_bytes) / size_of::<T>() as int
}

/// Bytes of an allocation holding the header and `capacity` elements, both
/// parts rounded up to the shared alignment.
pub closed spec fn spec_layout_bytes<T>(capacity: int) -> int {
    let a = spec_max_align::<T>();
    spec_next_aligned(size_of::<Header>() as int, a) + spec_next_aligned(
        capacity * size_of::<T>() as int,
        a,
    )
}

/// For a power of two `a` that fits a usize: `a - 1` masks the bits below
/// it, `a & (a - 1)` is zero, and a value whose low bits are clear is a
/// multiple of `a`.
proof fn lemma_pow2_usize_mask(a: usize, x: usize)
    requires
        is_pow2(a as int),
    ensures
        a >= 1,
        a & ((a - 1) as usize) == 0,
        x & ((a - 1) as usize) == 0 ==> x % a == 0,
{
    broadcast use is_pow2_equiv;
    broadcast use vstd::arithmetic::power2::lemma_pow2_pos;

    assert(is_pow2_exists(a as int));
    let k = choose|i: nat| pow(2, i) == a as int;
    assert(pow(2, k) == a as int);
    lemma_pow2(k);
    assert(a as int == pow2(k));
    unsigned_int_max_values();
    if k >= usize::BITS {
        if k > usize::BITS {
            lemma_pow2_strictly_increases(usize::BITS as nat, k);
        }
        assert(pow2(k) >= pow2(usize::BITS as nat));
        assert(false);
    }
    assert(low_bits_mask(k) == a - 1);
    assert(pow2(k) as usize == a);
    lemma_usize_low_bits_mask_is_mod(a, k);
    lemma_usize_low_bits_mask_is_mod(x, k);
    assert(a % a == 0) by {
        lemma_fundamental_div_mod(a as int, a as int);
        lemma_div_multiples_vanish(1, a as int);
    }
}

/// A power of two that fits a usize is at most `isize::MAX + 1` and divides
/// both that bound and `usize::MAX + 1`.
proof fn lemma_pow2_usize_bounds(a: usize)
    requires
        is_pow2(a as int),
    ensures
        1 <= a <= isize::MAX + 1,
        (isize::MAX + 1) % (a as int) == 0,
        (usize::MAX + 1) % (a as int) == 0,
{
    broadcast use is_pow2_equiv;
    broadcast use vstd::arithmetic::power2::lemma_pow2_pos;

    assert(is_pow2_exists(a as int));
    let k = choose|i: nat| pow(2, i) == a as int;
    assert(pow(2, k) == a as int);
    lemma_pow2(k);
    assert(a as int == pow2(k));
    unsigned_int_max_values();
    let w = usize::BITS as nat;
    if k >= w {
        if k > w {
            lemma_pow2_strictly_increases(w, k);
        }
        assert(pow2(k) >= pow2(w));
        assert(false);
    }
    lemma_pow2_unfold(w);
    assert(pow2(w) == usize::MAX + 1);
    assert(pow2((w - 1) as nat) == isize::MAX + 1);
    if k < w - 1 {
        lemma_pow2_strictly_increases(k, (w - 1) as nat);
    }
    assert(a <= isize::MAX + 1);
    let p_half = pow2((w - 1 - k) as nat) as int;
    let p_full = pow2((w - k) as nat) as int;
    lemma_pow2_adds(k, (w - 1 - k) as nat);
    assert(isize::MAX + 1 == pow2(k) * pow2((w - 1 - k) as nat));
    assert(isize::MAX + 1 == p_half * (a as int)) by {
        lemma_mul_is_commutative(a as int, p_half);
    }
    lemma_mod_multiples_basic(p_half, a as int);
    lemma_pow2_adds(k, (w - k) as nat);
    assert(usize::MAX + 1 == pow2(k) * pow2((w - k) as nat));
    assert(usize::MAX + 1 == p_full * (a as int)) by {
        lemma_mul_is_commutative(a as int, p_full);
    }
    lemma_mod_multiples_basic(p_full, a as int);
}

/// A value that is a multiple of `alignment` and within `alignment` of `n`
/// from above is the round-up of `n`.
proof fn lemma_round_up_unique(r: int, n: int, alignment: int)
    requires
        alignment >= 1,
        r % alignment == 0,
        n <= r <= n + alignment - 1,
    ensures
        r == spec_next_aligned(n, alignment),
{
    let a = alignment;
    let s = n + a - 1;
    let m = r / a;
    lemma_fundamental_div_mod(r, a);
    assert(r == a * m);
    lemma_div_multiples_vanish(m, a);
    assert((a * m) / a == m);
    lemma_div_is_ordered(r, s, a);
    assert(m <= s / a);
    assert(s <= a * m + (a - 1));
    lemma_div_multiples_vanish_fancy(m, a - 1, a);
    assert((a * m + (a - 1)) / a == m);
    lemma_div_is_ordered(s, a * m + (a - 1), a);
    assert(s / a == m);
    lemma_mul_is_commutative(s / a, a);
}

/// Two multiples of `a` less than `a` apart cannot be strictly ordered.
proof fn lemma_multiple_le(x: int, b: int, a: int)
    requires
        a >= 1,
        x % a == 0,
        b % a == 0,
        x < b + a,
    ensures
        x <= b,
{
    if x > b {
        lemma_fundamental_div_mod(x, a);
        lemma_fundamental_div_mod(b, a);
        assert(x == a * (x / a));
        assert(b == a * (b / a));
        if x / a <= b / a {
            lemma_mul_inequality(x / a, b / a, a);
            assert((x / a) * a <= (b / a) * a);
            assert(a * (x / a) == (x / a) * a) by {
                lemma_mul_is_commutative(a, x / a);
            }
            assert(a * (b / a) == (b / a) * a) by {
                lemma_mul_is_commutative(a, b / a);
            }
            assert(false);
        }
        lemma_mul_inequality(b / a + 1, x / a, a);
        assert((b / a + 1) * a <= (x / a) * a) by {
            lemma_mul_is_commutative(a, x / a);
        }
        assert((b / a + 1) * a == (b / a) * a + a) by {
            vstd::arithmetic::mul::lemma_mul_is_distributive_add_other_way(a, b / a, 1);
        }
        assert(a * (b / a) == (b / a) * a) by {
            lemma_mul_is_commutative(a, b / a);
        }
        assert(a * (x / a) == (x / a) * a) by {
            lemma_mul_is_commutative(a, x / a);
        }
        assert(x >= b + a);
        assert(false);
    }
}

/// The difference of two multiples of `a` is a multiple of `a`.
proof fn lemma_multiple_diff(x: int, y: int, a: int)
    requires
        a >= 1,
        x % a == 0,
        y % a == 0,
    ensures
        (x - y) % a == 0,
{
    lemma_fundamental_div_mod(x, a);
    lemma_fundamental_div_mod(y, a);
    assert(x - y == a * (x / a) - a * (y / a));
    assert(a * (x / a) - a * (y / a) == a * (x / a - y / a)) by {
        vstd::arithmetic::mul::lemma_mul_is_distributive_sub(a, x / a, y / a);
    }
    assert(x - y == (x / a - y / a) * a) by {
        lemma_mul_is_commutative(a, x / a - y / a);
    }
    lemma_mod_multiples_basic(x / a - y / a, a);
}

/// Rounds `n` up to the next multiple of `alignment` (a power of two).
pub fn next_aligned(n: usize, alignment: usize) -> (r: usize)
    requires
        is_pow2(alignment as int),
        n + alignment <= usize::MAX + 1,
    ensures
        r == spec_next_aligned(n as int, alignment as int),
        r % alignment == 0,
        n <= r <= n + alignment - 1,
{
    proof {
        lemma_pow2_usize_mask(alignment, 0);
    }
    let m = alignment - 1;
    let sum = n + m;
    let r = sum & !m;
    proof {
        assert(r & m == 0 && n <= r && r <= sum) by (bit_vector)
            requires
                alignment >= 1,
                m == (alignment - 1) as usize,
                alignment & m == 0,
                sum == (n + m) as usize,
                n <= sum,
                r == sum & !m,
        ;
        lemma_pow2_usize_mask(alignment, r);
        lemma_round_up_unique(r as int, n as int, alignment as int);
    }
    r
}

/// The larger of the element's and the header's alignment.
pub fn max_align<T>() -> (a: usize)
    ensures
        a == spec_max_align::<T>(),
        is_pow2(a as int),
{
    proof {
        broadcast use vstd::layout::align_properties;

    }
    layout_for_type_is_valid::<T>();
    layout_for_type_is_valid::<Header>();
    let align_t = core::mem::align_of::<T>();
    let header_align = core::mem::align_of::<Header>();
    if align_t > header_align {
        align_t
    } else {
        header_align
    }
}

/// One doubling step of the capacity, saturating at `usize::MAX`; a zero
/// capacity becomes the element-size-dependent minimum.
pub fn next_capacity<T>(capacity: usize) -> (c: usize)
    ensures
        c == spec_next_capacity::<T>(capacity as int),
        capacity > 0 ==> c >= capacity,
{
    layout_for_type_is_valid::<T>();
    if capacity == 0 {
        let elem_size = core::mem::size_of::<T>();
        if elem_size == 1 {
            8
        } else if 2 <= elem_size && elem_size <= 1024 {
            4
        } else {
            1
        }
    } else if capacity <= usize::MAX / 2 {
        capacity * 2
    } else {
        usize::MAX
    }
}

/// The alignment and rounded header size of a buffer of `T`, with the bounds
/// the layout computations rest on.
fn layout_prefix<T>() -> (r: (usize, usize))
    ensures
        r.0 == spec_max_align::<T>(),
        is_pow2(r.0 as int),
        r.1 == spec_next_aligned(size_of::<Header>() as int, r.0 as int),
        (r.1 as int) % (r.0 as int) == 0,
        r.1 <= isize::MAX + 1,
        1 <= r.0 <= isize::MAX + 1,
        (usize::MAX + 1) % (r.0 as int) == 0,
        (usize::MAX as int) % (r.0 as int) == r.0 - 1,
{
    layout_for_type_is_valid::<Header>();
    let alignment = max_align::<T>();
    proof {
        lemma_pow2_usize_bounds(alignment);
        assert(size_of::<Header>() % align_of::<Header>() == 0);
        assert(size_of::<Header>() <= isize::MAX);
    }
    let header_bytes = next_aligned(core::mem::size_of::<Header>(), alignment);
    proof {
        lemma_multiple_le(header_bytes as int, isize::MAX + 1, alignment as int);
        // usize::MAX % a == a - 1, from a dividing usize::MAX + 1
        let a = alignment as int;
        let q = (usize::MAX + 1) / a;
        lemma_fundamental_div_mod(usize::MAX + 1, a);
        assert(usize::MAX + 1 == a * q);
        assert(usize::MAX as int == (q - 1) * a + (a - 1)) by {
            assert((q - 1) * a == q * a - a) by {
                vstd::arithmetic::mul::lemma_mul_is_distributive_sub_other_way(a, q, 1);
            }
            assert(q * a == a * q) by {
                lemma_mul_is_commutative(q, a);
            }
        }
        lemma_fundamental_div_mod_converse(usize::MAX as int, a, q - 1, a - 1);
    }
    (alignment, header_bytes)
}

/// The largest element count a buffer of `T` can ever hold.
pub fn max_elems<T>() -> (m: usize)
    requires
        size_of::<T>() >= 1,
    ensures
        m == spec_max_elems::<T>(),
{
    layout_for_type_is_valid::<T>();
    let (alignment, header_bytes) = layout_prefix::<T>();
    let rounded_max = usize::MAX - usize::MAX % alignment;
    proof {
        assert(rounded_max == usize::MAX + 1 - alignment);
        assert(header_bytes <= rounded_max);
    }
    let m = rounded_max - header_bytes;
    m / core::mem::size_of::<T>()
}

/// Bytes of the allocation backing a buffer of `capacity` elements.
fn layout_bytes<T>(capacity: usize) -> (b: usize)
    requires
        size_of::<T>() >= 1,
        capacity <= spec_max_elems::<T>(),
    ensures
        b == spec_layout_bytes::<T>(capacity as int),
        b <= usize::MAX - (usize::MAX as int) % spec_max_align::<T>(),
{
    layout_for_type_is_valid::<T>();
    let (alignment, header_bytes) = layout_prefix::<T>();
    let elem_size = core::mem::size_of::<T>();
    let rounded_max = usize::MAX - usize::MAX % alignment;
    proof {
        assert(rounded_max == usize::MAX + 1 - alignment);
        assert(header_bytes <= rounded_max);
        let m = rounded_max - header_bytes;
        assert(capacity <= m / (elem_size as int));
        assert((m / (elem_size as int)) * elem_size <= m) by {
            lemma_fundamental_div_mod(m as int, elem_size as int);
            lemma_mul_is_commutative(elem_size as int, m / (elem_size as int));
        }
        lemma_mul_inequality(capacity as int, m / (elem_size as int), elem_size as int);
        assert(capacity * elem_size <= m);
    }
    let data = capacity * elem_size;
    let data_bytes = next_aligned(data, alignment);
    proof {
        let a = alignment as int;
        let m = rounded_max - header_bytes;
        assert(rounded_max as int % a == 0) by {
            lemma_multiple_diff(usize::MAX + 1, a, a);
            lemma_fundamental_div_mod(a, a);
            lemma_div_multiples_vanish(1, a);
            assert(a % a == 0);
        }
        assert(m % a == 0) by {
            lemma_multiple_diff(rounded_max as int, header_bytes as int, a);
        }
        lemma_multiple_le(data_bytes as int, m, a);
        assert(data_bytes + header_bytes <= usize::MAX - (usize::MAX as int) % spec_max_align::<T>());
    }
    header_bytes + data_bytes
}


/// The capacity a buffer created with `with_capacity(capacity, ..)` starts
/// with: `capacity` itself, or the minimum-capacity rule when it is zero.
pub open spec fn spec_initial_capacity<T>(capacity: int) -> int {
    if capacity != 0 {
        capacity
    } else if spec_min_capacity::<T>() <= spec_max_elems::<T>() {
        spec_min_capacity::<T>()
    } else {
        spec_max_elems::<T>()
    }
}

/// Growable buffer of `T`, one pool allocation holding its header and
/// element storage.
pub struct GrowableBuffer<T> {
    header: Header,
    elems: Vec<T>,
    ptr: RawPtr,
}

impl<T> View for GrowableBuffer<T> {
    type V = Seq<T>;

    closed spec fn view(&self) -> Seq<T> {
        self.elems@
    }
}

impl<T> GrowableBuffer<T> {
    /// Element slots the current allocation holds.
    pub closed spec fn capacity_spec(self) -> int {
        self.header.cap as int
    }

    /// The tag the allocations are made under.
    pub closed spec fn tag_spec(self) -> u32 {
        self.header.tag
    }

    /// The pool kind the allocations are made from.
    pub closed spec fn pool_type_spec(self) -> PoolType {
        self.header.pool_type
    }

    /// The handle of the current backing allocation.
    pub closed spec fn ptr_spec(self) -> RawPtr {
        self.ptr
    }

    /// The header's element count agrees with the stored elements.
    pub closed spec fn inv(self) -> bool {
        self.header.len == self.elems@.len()
    }

    /// Well-formedness against the pool that backs the buffer: the length
    /// never exceeds the capacity, the capacity never exceeds the type's
    /// maximum element count, and the backing allocation is live, tagged and
    /// sized as recorded.
    pub open spec fn wf(self, pool: TaggedPool) -> bool {
        &&& self.inv()
        &&& self@.len() <= self.capacity_spec()
        &&& self.capacity_spec() <= spec_max_elems::<T>()
        &&& size_of::<T>() >= 1
        &&& pool.is_live(self.ptr_spec())
        &&& pool.record(self.ptr_spec()).tag == self.tag_spec()
        &&& pool.record(self.ptr_spec()).kind == self.pool_type_spec()
        &&& pool.record(self.ptr_spec()).size == spec_layout_bytes::<T>(self.capacity_spec())
    }

    /// A buffer with the minimum initial capacity for `T`.
    pub fn new(pool_type: PoolType, tag: u32, pool: &mut TaggedPool) -> (r: Result<
        GrowableBuffer<T>,
        ErrorKind,
    >)
        requires
            old(pool).wf(),
            size_of::<T>() >= 1,
        ensures
            final(pool).wf(),
            final(pool).limit_spec() == old(pool).limit_spec(),
            r is Ok <==> 0 <= spec_max_elems::<T>() && old(pool).in_use_spec()
                + spec_layout_bytes::<T>(spec_initial_capacity::<T>(0)) <= old(
                pool,
            ).limit_spec(),
            match r {
                Ok(b) => {
                    &&& b@ =~= Seq::<T>::empty()
                    &&& b.capacity_spec() == spec_initial_capacity::<T>(0)
                    &&& b.tag_spec() == tag
                    &&& b.pool_type_spec() == pool_type
                    &&& b.wf(*final(pool))
                    &&& b.ptr_spec().addr == old(pool)@.len()
                    &&& final(pool)@ =~= old(pool)@.push(
                        AllocView {
                            size: spec_layout_bytes::<T>(b.capacity_spec()) as nat,
                            tag,
                            kind: pool_type,
                            live: true,
                        },
                    )
                },
                Err(e) => {
                    &&& e == ErrorKind::AllocationFailure
                    &&& final(pool)@ =~= old(pool)@
                },
            },
    {
        GrowableBuffer::with_capacity(0, pool_type, tag, pool)
    }

    /// A buffer able to hold `capacity` elements without growing; a zero
    /// request gets the element-size-dependent minimum instead.  Fails with
    /// `AllocationFailure` exactly when the capacity exceeds the type's
    /// maximum element count or the pool's budget cannot cover the
    /// allocation, leaving the pool unchanged.
    pub fn with_capacity(capacity: usize, pool_type: PoolType, tag: u32, pool: &mut TaggedPool) -> (r:
        Result<GrowableBuffer<T>, ErrorKind>)
        requires
            old(pool).wf(),
            size_of::<T>() >= 1,
        ensures
            final(pool).wf(),
            final(pool).limit_spec() == old(pool).limit_spec(),
            r is Ok <==> capacity <= spec_max_elems::<T>() && old(pool).in_use_spec()
                + spec_layout_bytes::<T>(spec_initial_capacity::<T>(capacity as int)) <= old(
                pool,
            ).limit_spec(),
            match r {
                Ok(b) => {
                    &&& b@ =~= Seq::<T>::empty()
                    &&& b.capacity_spec() == spec_initial_capacity::<T>(capacity as int)
                    &&& b.tag_spec() == tag
                    &&& b.pool_type_spec() == pool_type
                    &&& b.wf(*final(pool))
                    &&& b.ptr_spec().addr == old(pool)@.len()
                    &&& final(pool)@ =~= old(pool)@.push(
                        AllocView {
                            size: spec_layout_bytes::<T>(b.capacity_spec()) as nat,
                            tag,
                            kind: pool_type,
                            live: true,
                        },
                    )
                },
                Err(e) => {
                    &&& e == ErrorKind::AllocationFailure
                    &&& final(pool)@ =~= old(pool)@
                },
            },
    {
        let most = max_elems::<T>();
        if capacity > most {
            return Err(ErrorKind::AllocationFailure);
        }
        let cap = if capacity == 0 {
            let minimum = next_capacity::<T>(0);
            if minimum <= most {
                minimum
            } else {
                most
            }
        } else {
            capacity
        };
        let bytes = layout_bytes::<T>(cap);
        match pool.allocate(bytes, tag, pool_type) {
            Some(ptr) => Ok(
                GrowableBuffer {
                    header: Header { len: 0, cap, pool_type, tag },
                    elems: Vec::new(),
                    ptr,
                },
            ),
            None => Err(ErrorKind::AllocationFailure),
        }
    }

    /// Number of elements stored.
    pub fn len(&self) -> (n: usize)
        ensures
            n == self@.len(),
    {
        self.elems.len()
    }

    /// Whether no element is stored.
    pub fn is_empty(&self) -> (e: bool)
        ensures
            e == (self@.len() == 0),
    {
        self.elems.len() == 0
    }

    /// Element slots the current allocation holds.
    pub fn capacity(&self) -> (c: usize)
        ensures
            c == self.capacity_spec(),
    {
        self.header.cap
    }

    /// The stored elements, in order.
    pub fn as_slice(&self) -> (s: &[T])
        ensures
            s@ == self@,
    {
        self.elems.as_slice()
    }

    /// The element at position `i`.
    pub fn get(&self, i: usize) -> (v: &T)
        requires
            i < self@.len(),
        ensures
            *v == self@[i as int],
    {
        &self.elems[i]
    }

    /// Overwrites the element at position `i`.
    pub fn set(&mut self, i: usize, value: T)
        requires
            i < old(self)@.len(),
        ensures
            final(self)@ =~= old(self)@.update(i as int, value),
            final(self).capacity_spec() == old(self).capacity_spec(),
            final(self).tag_spec() == old(self).tag_spec(),
            final(self).pool_type_spec() == old(self).pool_type_spec(),
            final(self).ptr_spec() == old(self).ptr_spec(),
            old(self).inv() ==> final(self).inv(),
    {
        self.elems[i] = value;
    }

    /// Swaps the backing allocation for one of `new_capacity` slots: takes
    /// the new block, carries the header and elements over, releases the old
    /// block.  From the caller's point of view the contents never change.
    fn grow(&mut self, new_capacity: usize, pool: &mut TaggedPool) -> (r: Result<(), ErrorKind>)
        requires
            old(self).wf(*old(pool)),
            old(pool).wf(),
            old(self)@.len() <= new_capacity <= spec_max_elems::<T>(),
        ensures
            final(pool).wf(),
            final(pool).limit_spec() == old(pool).limit_spec(),
            final(self).wf(*final(pool)),
            final(self)@ =~= old(self)@,
            final(self).tag_spec() == old(self).tag_spec(),
            final(self).pool_type_spec() == old(self).pool_type_spec(),
            new_capacity == old(self).capacity_spec() ==> r is Ok && *final(self) == *old(self)
                && final(pool)@ =~= old(pool)@,
            new_capacity != old(self).capacity_spec() ==> {
                &&& (r is Ok <==> old(pool).in_use_spec() + spec_layout_bytes::<T>(
                    new_capacity as int,
                ) <= old(pool).limit_spec())
                &&& match r {
                    Ok(_) => {
                        &&& final(self).capacity_spec() == new_capacity
                        &&& final(self).ptr_spec().addr == old(pool)@.len()
                        &&& final(pool)@ =~= old(pool)@.push(
                            AllocView {
                                size: spec_layout_bytes::<T>(new_capacity as int) as nat,
                                tag: old(self).tag_spec(),
                                kind: old(self).pool_type_spec(),
                                live: true,
                            },
                        ).update(
                            old(self).ptr_spec().addr as int,
                            AllocView { live: false, ..old(pool).record(old(self).ptr_spec()) },
                        )
                        &&& final(pool).in_use_spec() == old(pool).in_use_spec()
                            - spec_layout_bytes::<T>(old(self).capacity_spec())
                            + spec_layout_bytes::<T>(new_capacity as int)
                    },
                    Err(e) => {
                        &&& e == ErrorKind::AllocationFailure
                        &&& *final(self) == *old(self)
                        &&& final(pool)@ =~= old(pool)@
                    },
                }
            },
    {
        if new_capacity == self.header.cap {
            return Ok(());
        }
        let bytes = layout_bytes::<T>(new_capacity);
        let new_ptr = match pool.allocate(bytes, self.header.tag, self.header.pool_type) {
            Some(p) => p,
            None => {
                return Err(ErrorKind::AllocationFailure);
            },
        };
        // The copy of the header and the first `len` elements into the new
        // block leaves the stored sequence untouched.
        proof {
            assert(pool.record(new_ptr).size == spec_layout_bytes::<T>(new_capacity as int));
            assert(pool.record(self.ptr) == old(pool).record(old(self).ptr_spec()));
        }
        pool.free(self.ptr, self.header.tag);
        self.header.cap = new_capacity;
        self.ptr = new_ptr;
        proof {
            let av = AllocView {
                size: spec_layout_bytes::<T>(new_capacity as int) as nat,
                tag: old(self).tag_spec(),
                kind: old(self).pool_type_spec(),
                live: true,
            };
            assert(pool@ =~= old(pool)@.push(av).update(
                old(self).ptr_spec().addr as int,
                AllocView { live: false, ..old(pool).record(old(self).ptr_spec()) },
            ));
            assert(old(pool)@.push(av).drop_last() =~= old(pool)@);
            assert(crate::pool::live_bytes(old(pool)@.push(av)) == old(pool).in_use_spec()
                + av.size);
            assert(pool.in_use_spec() == old(pool).in_use_spec() - spec_layout_bytes::<T>(
                old(self).capacity_spec(),
            ) + spec_layout_bytes::<T>(new_capacity as int));
        }
        Ok(())
    }
}


/// Addition on lengths, saturating at `usize::MAX` as the buffer's length
/// arithmetic does.
pub open spec fn spec_saturating_add(a: int, b: int) -> int {
    if a + b <= usize::MAX {
        a + b
    } else {
        usize::MAX as int
    }
}

/// The smallest capacity reachable from `capacity` by repeated doubling that
/// is at least `required`.
pub open spec fn spec_grown_capacity<T>(capacity: int, required: int) -> int
    decreases required - capacity,
    when 0 <= capacity < required <= usize::MAX
{
    let next = spec_next_capacity::<T>(capacity);
    if next >= required {
        next
    } else {
        spec_grown_capacity::<T>(next, required)
    }
}

/// The capacity `reserve` grows to: the doubled capacity, clamped to the
/// type's maximum element count.
pub open spec fn spec_reserve_target<T>(capacity: int, required: int) -> int {
    let grown = spec_grown_capacity::<T>(capacity, required);
    if grown <= spec_max_elems::<T>() {
        grown
    } else {
        spec_max_elems::<T>()
    }
}

impl<T> GrowableBuffer<T> {
    /// Ensures room for `additional` more elements.
    ///
    /// If `len + additional` already fits, nothing changes.  If it exceeds
    /// the type's maximum element count, a non-empty buffer reports
    /// `BufferOverflow`; an empty one clamps its capacity to that maximum
    /// instead.  Otherwise the capacity is doubled until it suffices and the
    /// buffer moves to a fresh allocation, its contents unchanged.
    pub fn reserve(&mut self, additional: usize, pool: &mut TaggedPool) -> (r: Result<
        (),
        ErrorKind,
    >)
        requires
            old(self).wf(*old(pool)),
            old(pool).wf(),
        ensures
            final(pool).wf(),
            final(pool).limit_spec() == old(pool).limit_spec(),
            final(self).wf(*final(pool)),
            final(self)@ =~= old(self)@,
            final(self).tag_spec() == old(self).tag_spec(),
            final(self).pool_type_spec() == old(self).pool_type_spec(),
            final(self).capacity_spec() >= old(self).capacity_spec(),
            r is Ok ==> final(pool).in_use_spec() == old(pool).in_use_spec()
                - spec_layout_bytes::<T>(old(self).capacity_spec()) + spec_layout_bytes::<T>(
                final(self).capacity_spec(),
            ),
            ({
                let required = spec_saturating_add(old(self)@.len() as int, additional as int);
                let cap = old(self).capacity_spec();
                let maxe = spec_max_elems::<T>();
                let target = spec_reserve_target::<T>(cap, required);
                &&& (required <= cap ==> r is Ok && *final(self) == *old(self)
                    && final(pool)@ =~= old(pool)@)
                &&& (required > cap && required > maxe && old(self)@.len() > 0
                    ==> r == Err::<(), ErrorKind>(ErrorKind::BufferOverflow)
                    && *final(self) == *old(self) && final(pool)@ =~= old(pool)@)
                &&& (required > cap && (required <= maxe || old(self)@.len() == 0) ==> {
                    &&& (r is Ok <==> target == cap || old(pool).in_use_spec()
                        + spec_layout_bytes::<T>(target) <= old(pool).limit_spec())
                    &&& (r is Ok ==> final(self).capacity_spec() == target)
                    &&& (r is Err ==> r == Err::<(), ErrorKind>(ErrorKind::AllocationFailure)
                        && *final(self) == *old(self) && final(pool)@ =~= old(pool)@)
                })
                &&& (r is Ok && required <= maxe ==> final(self).capacity_spec() >= required)
                &&& (r is Ok && required > maxe && old(self)@.len() == 0
                    ==> final(self).capacity_spec() == maxe)
            }),
    {
        let len = self.elems.len();
        let capacity = self.header.cap;
        let total_required = if additional <= usize::MAX - len {
            len + additional
        } else {
            usize::MAX
        };
        if total_required <= capacity {
            return Ok(());
        }
        let maxe = max_elems::<T>();
        if len > 0 && total_required > maxe {
            return Err(ErrorKind::BufferOverflow);
        }
        let mut new_capacity = next_capacity::<T>(capacity);
        while new_capacity < total_required
            invariant
                0 < total_required <= usize::MAX,
                capacity < total_required,
                spec_grown_capacity::<T>(capacity as int, total_required as int) == (
                if new_capacity >= total_required {
                    new_capacity as int
                } else {
                    spec_grown_capacity::<T>(new_capacity as int, total_required as int)
                }),
                new_capacity >= 1,
            decreases (if new_capacity < total_required {
                total_required - new_capacity
            } else {
                0int
            }),
        {
            new_capacity = next_capacity::<T>(new_capacity);
        }
        if new_capacity > maxe {
            new_capacity = maxe;
        }
        self.grow(new_capacity, pool)
    }

    /// Appends `value`, growing if the buffer is full.
    ///
    /// A buffer already holding the maximum element count reports
    /// `BufferOverflow`; one that is full but can still grow reports
    /// `AllocationFailure` when the pool's budget cannot cover the larger
    /// allocation.  A buffer with spare capacity never fails and leaves the
    /// pool untouched.
    pub fn push(&mut self, value: T, pool: &mut TaggedPool) -> (r: Result<(), ErrorKind>)
        requires
            old(self).wf(*old(pool)),
            old(pool).wf(),
        ensures
            final(pool).wf(),
            final(pool).limit_spec() == old(pool).limit_spec(),
            final(self).wf(*final(pool)),
            final(self).tag_spec() == old(self).tag_spec(),
            final(self).pool_type_spec() == old(self).pool_type_spec(),
            final(self).capacity_spec() >= old(self).capacity_spec(),
            r is Ok ==> final(self)@ =~= old(self)@.push(value),
            r is Err ==> final(self)@ =~= old(self)@ && final(pool)@ =~= old(pool)@
                && final(self).capacity_spec() == old(self).capacity_spec(),
            old(self)@.len() < old(self).capacity_spec() ==> r is Ok
                && final(pool)@ =~= old(pool)@
                && final(self).capacity_spec() == old(self).capacity_spec()
                && final(self).ptr_spec() == old(self).ptr_spec(),
            r == Err::<(), ErrorKind>(ErrorKind::BufferOverflow) <==> old(self)@.len()
                == spec_max_elems::<T>(),
            r == Err::<(), ErrorKind>(ErrorKind::AllocationFailure) <==> old(self)@.len()
                == old(self).capacity_spec() && old(self)@.len() < spec_max_elems::<T>()
                && old(pool).in_use_spec() + spec_layout_bytes::<T>(
                spec_reserve_target::<T>(
                    old(self).capacity_spec(),
                    (old(self)@.len() + 1) as int,
                ),
            ) > old(pool).limit_spec(),
    {
        if self.elems.len() == self.header.cap {
            let maxe = max_elems::<T>();
            if self.elems.len() == maxe {
                return Err(ErrorKind::BufferOverflow);
            }
            match self.reserve(1, pool) {
                Ok(u) => u,
                Err(e) => {
                    return Err(e);
                },
            }
        }
        self.elems.push(value);
        self.header.len = self.header.len + 1;
        Ok(())
    }

    /// Removes and returns the last element, if any.
    pub fn pop(&mut self) -> (r: Option<T>)
        requires
            old(self).inv(),
        ensures
            final(self).inv(),
            final(self).capacity_spec() == old(self).capacity_spec(),
            final(self).tag_spec() == old(self).tag_spec(),
            final(self).pool_type_spec() == old(self).pool_type_spec(),
            final(self).ptr_spec() == old(self).ptr_spec(),
            old(self)@.len() == 0 ==> r is None && final(self)@ =~= old(self)@,
            old(self)@.len() > 0 ==> r == Some(old(self)@.last())
                && final(self)@ =~= old(self)@.drop_last(),
    {
        match self.elems.pop() {
            Some(v) => {
                self.header.len = self.header.len - 1;
                Some(v)
            },
            None => None,
        }
    }

    /// Destroys the buffer, releasing its allocation with the recorded tag.
    pub fn destroy(self, pool: &mut TaggedPool)
        requires
            old(pool).wf(),
            self.wf(*old(pool)),
        ensures
            final(pool).wf(),
            final(pool).limit_spec() == old(pool).limit_spec(),
            final(pool)@ =~= old(pool)@.update(
                self.ptr_spec().addr as int,
                AllocView { live: false, ..old(pool).record(self.ptr_spec()) },
            ),
            final(pool).in_use_spec() == old(pool).in_use_spec() - spec_layout_bytes::<T>(
                self.capacity_spec(),
            ),
    {
        pool.free(self.ptr, self.header.tag);
    }
}

impl<T: Copy> GrowableBuffer<T> {
    /// Appends a copy of every element of `other`, reserving room first.
    ///
    /// When the whole slice can never fit, a non-empty buffer fails up front
    /// with `BufferOverflow` and stays unchanged; an empty one commits as
    /// many leading elements as the type's maximum element count allows
    /// before reporting `BufferOverflow`.  An exhausted pool budget fails up
    /// front with `AllocationFailure`, everything unchanged.
    pub fn extend_from_slice(&mut self, other: &[T], pool: &mut TaggedPool) -> (r: Result<
        (),
        ErrorKind,
    >)
        requires
            old(self).wf(*old(pool)),
            old(pool).wf(),
        ensures
            final(pool).wf(),
            final(pool).limit_spec() == old(pool).limit_spec(),
            final(self).wf(*final(pool)),
            final(self).tag_spec() == old(self).tag_spec(),
            final(self).pool_type_spec() == old(self).pool_type_spec(),
            final(self).capacity_spec() >= old(self).capacity_spec(),
            r is Ok ==> final(self)@ =~= old(self)@ + other@,
            old(self)@.len() + other@.len() <= old(self).capacity_spec() ==> final(pool)@
                =~= old(pool)@ && final(self).capacity_spec() == old(self).capacity_spec()
                && final(self).ptr_spec() == old(self).ptr_spec(),
            ({
                let required = old(self)@.len() + other@.len() as int;
                let cap = old(self).capacity_spec();
                let maxe = spec_max_elems::<T>();
                let target = spec_reserve_target::<T>(cap, required);
                &&& (r is Ok <==> required <= cap || (required <= maxe && (target == cap
                    || old(pool).in_use_spec() + spec_layout_bytes::<T>(target)
                    <= old(pool).limit_spec())))
                &&& (r == Err::<(), ErrorKind>(ErrorKind::AllocationFailure) ==> *final(self)
                    == *old(self) && final(pool)@ =~= old(pool)@)
                &&& (r == Err::<(), ErrorKind>(ErrorKind::BufferOverflow) && old(self)@.len() > 0
                    && required <= usize::MAX
                    ==> *final(self) == *old(self) && final(pool)@ =~= old(pool)@)
                &&& (r == Err::<(), ErrorKind>(ErrorKind::BufferOverflow) && old(self)@.len() == 0
                    ==> final(self)@ =~= other@.take(maxe))
            }),
    {
        let ghost original = *self;
        let maxe = max_elems::<T>();
        match self.reserve(other.len(), pool) {
            Ok(u) => u,
            Err(e) => {
                return Err(e);
            },
        }
        let ghost mid_pool = *pool;
        let ghost capr = self.capacity_spec();
        let ghost midptr = self.ptr_spec();
        let ghost required = spec_saturating_add(original@.len() as int, other@.len() as int);
        let mut i: usize = 0;
        while i < other.len()
            invariant
                i <= other@.len(),
                self@ =~= original@ + other@.take(i as int),
                self.wf(*pool),
                pool.wf(),
                pool@ =~= mid_pool@,
                pool.limit_spec() == mid_pool.limit_spec(),
                mid_pool.limit_spec() == old(pool).limit_spec(),
                original == *old(self),
                self.tag_spec() == original.tag_spec(),
                self.pool_type_spec() == original.pool_type_spec(),
                self.capacity_spec() >= original.capacity_spec(),
                self.capacity_spec() == capr,
                self.ptr_spec() == midptr,
                maxe == spec_max_elems::<T>(),
                required == spec_saturating_add(original@.len() as int, other@.len() as int),
                capr >= required || (capr == maxe && original@.len() == 0),
                original.capacity_spec() <= maxe,
            decreases other@.len() - i,
        {
            match self.push(other[i], pool) {
                Ok(u) => u,
                Err(e) => {
                    proof {
                        if original@.len() > 0 && original@.len() + other@.len() <= usize::MAX {
                            assert(required == original@.len() + other@.len());
                            assert(capr >= required);
                            assert(false);
                        }
                        if original@.len() == 0 {
                            assert(self@.len() == spec_max_elems::<T>());
                            assert(self@ =~= original@ + other@.take(i as int));
                            assert(self@ =~= other@.take(maxe as int));
                        }
                    }
                    return Err(e);
                },
            }
            proof {
                assert(self@ =~= original@ + other@.take(i + 1 as int));
            }
            i = i + 1;
        }
        proof {
            assert(other@.take(other@.len() as int) =~= other@);
        }
        Ok(())
    }
}

} // verus!
