use wdk::buffer::{max_elems, GrowableBuffer};
use wdk::error::ErrorKind;
use wdk::pool::{PoolType, TaggedPool};

#[test]
fn push_preserves_order() {
    let mut pool = TaggedPool::new(1 << 20);
    let mut buf = match GrowableBuffer::<u32>::new(PoolType::NonPagedPool, 0x7473_6574, &mut pool)
    {
        Ok(b) => b,
        Err(_) => panic!("allocation failed"),
    };
    for v in 1..=5u32 {
        assert!(buf.push(v, &mut pool).is_ok());
    }
    assert_eq!(buf.as_slice(), &[1, 2, 3, 4, 5]);
    assert_eq!(buf.len(), 5);
}

#[test]
fn growth_preserves_data() {
    let mut pool = TaggedPool::new(1 << 20);
    let mut buf = GrowableBuffer::<u16>::with_capacity(2, PoolType::PagedPool, 7, &mut pool)
        .ok()
        .expect("allocation failed");
    assert_eq!(buf.capacity(), 2);
    buf.push(10, &mut pool).unwrap();
    buf.push(20, &mut pool).unwrap();
    // len + additional requires a larger capacity: the buffer moves, the
    // data does not change.
    buf.reserve(3, &mut pool).unwrap();
    assert!(buf.capacity() >= 5);
    assert_eq!(buf.as_slice(), &[10, 20]);
}

#[test]
fn reserve_guarantee() {
    let mut pool = TaggedPool::new(1 << 20);
    let mut buf = GrowableBuffer::<u64>::new(PoolType::NonPagedPool, 1, &mut pool).unwrap();
    buf.reserve(10, &mut pool).unwrap();
    let cap = buf.capacity();
    assert!(cap >= 10);
    let in_use = pool.in_use();
    for v in 0..10u64 {
        // No reallocation: capacity and pool usage stay put.
        assert!(buf.push(v, &mut pool).is_ok());
        assert_eq!(buf.capacity(), cap);
        assert_eq!(pool.in_use(), in_use);
    }
    assert_eq!(buf.len(), 10);
}

#[test]
fn overflow_boundary_non_empty_fails() {
    let mut pool = TaggedPool::new(usize::MAX);
    let mut buf = GrowableBuffer::<u64>::new(PoolType::NonPagedPool, 2, &mut pool).unwrap();
    buf.push(1, &mut pool).unwrap();
    let before = buf.capacity();
    assert_eq!(buf.reserve(usize::MAX, &mut pool), Err(ErrorKind::BufferOverflow));
    assert_eq!(buf.capacity(), before);
    assert_eq!(buf.as_slice(), &[1]);
}

#[test]
fn overflow_boundary_empty_clamps() {
    let mut pool = TaggedPool::new(usize::MAX);
    let mut buf = GrowableBuffer::<u64>::new(PoolType::NonPagedPool, 2, &mut pool).unwrap();
    // An empty buffer never reports overflow: the request is clamped to the
    // maximum element count, and only the (unsatisfiable) allocation for
    // that clamped capacity can fail.
    assert!(usize::MAX > max_elems::<u64>());
    let r = buf.reserve(usize::MAX, &mut pool);
    assert!(!matches!(r, Err(ErrorKind::BufferOverflow)));
    assert!(matches!(r, Err(ErrorKind::AllocationFailure)));
    assert_eq!(buf.as_slice(), &[] as &[u64]);
}

#[test]
fn minimum_capacities_follow_element_size() {
    let mut pool = TaggedPool::new(1 << 20);
    let bytes = GrowableBuffer::<u8>::new(PoolType::NonPagedPool, 3, &mut pool).unwrap();
    assert_eq!(bytes.capacity(), 8);
    let words = GrowableBuffer::<u64>::new(PoolType::NonPagedPool, 3, &mut pool).unwrap();
    assert_eq!(words.capacity(), 4);
}

#[test]
fn pop_returns_last_in() {
    let mut pool = TaggedPool::new(1 << 20);
    let mut buf = GrowableBuffer::<u32>::new(PoolType::NonPagedPool, 4, &mut pool).unwrap();
    buf.push(1, &mut pool).unwrap();
    buf.push(2, &mut pool).unwrap();
    assert_eq!(buf.pop(), Some(2));
    assert_eq!(buf.pop(), Some(1));
    assert_eq!(buf.pop(), None);
    assert!(buf.is_empty());
}

#[test]
fn extend_from_slice_appends() {
    let mut pool = TaggedPool::new(1 << 20);
    let mut buf = GrowableBuffer::<u16>::new(PoolType::NonPagedPool, 5, &mut pool).unwrap();
    buf.push(1, &mut pool).unwrap();
    buf.extend_from_slice(&[2, 3, 4], &mut pool).unwrap();
    assert_eq!(buf.as_slice(), &[1, 2, 3, 4]);
}

#[test]
fn get_and_set_work_in_bounds() {
    let mut pool = TaggedPool::new(1 << 20);
    let mut buf = GrowableBuffer::<u32>::new(PoolType::NonPagedPool, 6, &mut pool).unwrap();
    buf.push(5, &mut pool).unwrap();
    buf.push(6, &mut pool).unwrap();
    assert_eq!(*buf.get(1), 6);
    buf.set(1, 60);
    assert_eq!(buf.as_slice(), &[5, 60]);
}

#[test]
fn exhausted_pool_reports_allocation_failure() {
    let mut pool = TaggedPool::new(10);
    let r = GrowableBuffer::<u64>::new(PoolType::NonPagedPool, 9, &mut pool);
    assert!(matches!(r, Err(ErrorKind::AllocationFailure)));
    assert_eq!(pool.in_use(), 0);
}

#[test]
fn destroy_releases_the_allocation() {
    let mut pool = TaggedPool::new(1 << 20);
    let tag = 0x2020_7675;
    let buf = GrowableBuffer::<u8>::new(PoolType::NonPagedPool, tag, &mut pool).unwrap();
    assert_eq!(pool.live_with_tag(tag), 1);
    buf.destroy(&mut pool);
    assert_eq!(pool.live_with_tag(tag), 0);
    assert_eq!(pool.freed_with_tag(tag), 1);
    assert_eq!(pool.in_use(), 0);
}

#[test]
fn next_aligned_rounds_up_to_the_alignment() {
    assert_eq!(wdk::buffer::next_aligned(13, 8), 16);
    assert_eq!(wdk::buffer::next_aligned(16, 8), 16);
    assert_eq!(wdk::buffer::next_aligned(0, 4), 0);
    assert_eq!(wdk::buffer::next_aligned(1, 1), 1);
    assert_eq!(wdk::buffer::next_aligned(17, 16), 32);
}

#[test]
fn next_capacity_doubles_and_seeds_by_element_size() {
    assert_eq!(wdk::buffer::next_capacity::<u8>(0), 8);
    assert_eq!(wdk::buffer::next_capacity::<u16>(0), 4);
    assert_eq!(wdk::buffer::next_capacity::<[u8; 1024]>(0), 4);
    assert_eq!(wdk::buffer::next_capacity::<[u8; 1025]>(0), 1);
    assert_eq!(wdk::buffer::next_capacity::<u8>(5), 10);
    assert_eq!(wdk::buffer::next_capacity::<u8>(usize::MAX), usize::MAX);
}

#[test]
fn max_elems_scales_with_element_size() {
    // Same alignment and header overhead for both element types: twice the
    // element size means half the elements.
    assert_eq!(max_elems::<u8>() / 2, max_elems::<u16>());
    assert!(wdk::buffer::max_align::<u8>() >= 1);
    assert!(max_elems::<u64>() > 1 << 32);
}
