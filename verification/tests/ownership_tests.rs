use wdk::owned::ExclusiveBox;
use wdk::pool::{PoolType, TaggedPool};
use wdk::shared::{RcHeap, SharedRc};

#[test]
fn exclusive_box_lifecycle() {
    let mut pool = TaggedPool::new(1 << 16);
    let tag = 0x2165_6f77;
    let b = ExclusiveBox::new(42u32, PoolType::NonPagedPool, tag, &mut pool).unwrap();
    assert_eq!(*b.value(), 42);
    assert_eq!(pool.live_with_tag(tag), 1);
    assert_eq!(pool.freed_with_tag(tag), 0);
    let v = b.destroy(&mut pool);
    assert_eq!(v, 42);
    // Exactly one matching free with the original tag.
    assert_eq!(pool.freed_with_tag(tag), 1);
    assert_eq!(pool.live_with_tag(tag), 0);
    assert_eq!(pool.in_use(), 0);
}

#[test]
fn exclusive_box_mutation() {
    let mut pool = TaggedPool::new(1 << 16);
    let mut b = ExclusiveBox::new(5i64, PoolType::PagedPool, 1, &mut pool).unwrap();
    *b.value_mut() = 7;
    assert_eq!(*b.value(), 7);
    let old = b.replace(9);
    assert_eq!(old, 7);
    assert_eq!(b.destroy(&mut pool), 9);
}

#[test]
fn exclusive_box_allocation_failure_leaves_pool_unchanged() {
    let mut pool = TaggedPool::new(2);
    let r = ExclusiveBox::new(0u64, PoolType::NonPagedPool, 3, &mut pool);
    assert!(r.is_err());
    assert_eq!(pool.in_use(), 0);
}

#[test]
fn refcount_frees_exactly_once_after_last_drop() {
    let mut pool = TaggedPool::new(1 << 16);
    let mut heap: RcHeap<u32> = RcHeap::new();
    let tag = 0x2163_7273;
    let a = SharedRc::new(11u32, PoolType::NonPagedPool, tag, &mut heap, &mut pool).unwrap();
    let b = a.clone(&mut heap);
    let c = b.clone(&mut heap);
    assert_eq!(*a.get(&heap), 11);
    assert_eq!(*c.get(&heap), 11);
    // Two drops leave one handle outstanding: nothing is freed yet.
    assert_eq!(c.drop_handle(&mut heap, &mut pool), None);
    assert_eq!(b.drop_handle(&mut heap, &mut pool), None);
    assert_eq!(pool.freed_with_tag(tag), 0);
    assert_eq!(pool.live_with_tag(tag), 1);
    // The last drop frees the node, exactly once, and yields the value.
    assert_eq!(a.drop_handle(&mut heap, &mut pool), Some(11));
    assert_eq!(pool.freed_with_tag(tag), 1);
    assert_eq!(pool.live_with_tag(tag), 0);
}

#[test]
fn shared_value_is_shared_between_handles() {
    let mut pool = TaggedPool::new(1 << 16);
    let mut heap: RcHeap<u32> = RcHeap::new();
    let a = SharedRc::new(1u32, PoolType::PagedPool, 5, &mut heap, &mut pool).unwrap();
    let b = a.clone(&mut heap);
    *a.get_mut(&mut heap) = 99;
    // The clone observes the same node.
    assert_eq!(*b.get(&heap), 99);
    b.drop_handle(&mut heap, &mut pool);
    assert_eq!(a.drop_handle(&mut heap, &mut pool), Some(99));
}

#[test]
fn shared_allocation_failure_leaves_everything_unchanged() {
    let mut pool = TaggedPool::new(1);
    let mut heap: RcHeap<u64> = RcHeap::new();
    let r = SharedRc::new(0u64, PoolType::NonPagedPool, 8, &mut heap, &mut pool);
    assert!(r.is_err());
    assert_eq!(pool.in_use(), 0);
}
