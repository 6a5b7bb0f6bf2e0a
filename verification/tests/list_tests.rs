use wdk::list::{List, ListEntry, NodeEntry};
use wdk::pool::{PoolType, TaggedPool};

#[test]
fn list_entry_holds_its_links() {
    let e = ListEntry::from(3, 7);
    assert_eq!(e.flink, 3);
    assert_eq!(e.blink, 7);
}

#[test]
fn empty_list_has_no_tail() {
    let mut pool = TaggedPool::new(1 << 16);
    let mut list = List::new(0u32, PoolType::NonPagedPool, 1, &mut pool).unwrap();
    assert!(list.remove_tail(&mut pool).is_none());
}

#[test]
fn insert_tail_and_remove_tail_are_lifo_on_the_tail() {
    let mut pool = TaggedPool::new(1 << 16);
    let mut list = List::new(0u32, PoolType::NonPagedPool, 2, &mut pool).unwrap();
    list.insert_tail(NodeEntry::new(1), &mut pool).unwrap();
    list.insert_tail(NodeEntry::new(2), &mut pool).unwrap();
    list.insert_tail(NodeEntry::new(3), &mut pool).unwrap();
    assert_eq!(list.remove_tail(&mut pool).map(|n| n.value), Some(3));
    assert_eq!(list.remove_tail(&mut pool).map(|n| n.value), Some(2));
    assert_eq!(list.remove_tail(&mut pool).map(|n| n.value), Some(1));
    assert!(list.remove_tail(&mut pool).is_none());
}

#[test]
fn insert_head_puts_nodes_before_the_old_head() {
    let mut pool = TaggedPool::new(1 << 16);
    let mut list = List::new(0u32, PoolType::NonPagedPool, 3, &mut pool).unwrap();
    // Ring: head-inserted nodes come off the tail in insertion order.
    list.insert_head(NodeEntry::new(10), &mut pool).unwrap();
    list.insert_head(NodeEntry::new(20), &mut pool).unwrap();
    assert_eq!(list.remove_tail(&mut pool).map(|n| n.value), Some(10));
    assert_eq!(list.remove_tail(&mut pool).map(|n| n.value), Some(20));
    assert!(list.remove_tail(&mut pool).is_none());
}

#[test]
fn removal_frees_the_node() {
    let mut pool = TaggedPool::new(1 << 16);
    let tag = 0x2174_736c;
    let mut list = List::new(0u8, PoolType::NonPagedPool, tag, &mut pool).unwrap();
    list.insert_tail(NodeEntry::new(1), &mut pool).unwrap();
    assert_eq!(pool.live_with_tag(tag), 2);
    list.remove_tail(&mut pool);
    assert_eq!(pool.live_with_tag(tag), 1);
    assert_eq!(pool.freed_with_tag(tag), 1);
    list.teardown(&mut pool);
}

#[test]
fn teardown_visits_every_node_despite_the_cycle() {
    let mut pool = TaggedPool::new(1 << 16);
    let tag = 0x3174_736c;
    let mut list = List::new(0u16, PoolType::PagedPool, tag, &mut pool).unwrap();
    list.insert_head(NodeEntry::new(1), &mut pool).unwrap();
    list.insert_tail(NodeEntry::new(2), &mut pool).unwrap();
    list.insert_tail(NodeEntry::new(3), &mut pool).unwrap();
    assert_eq!(pool.live_with_tag(tag), 4);
    list.teardown(&mut pool);
    // Sentinel and all three nodes released exactly once each.
    assert_eq!(pool.live_with_tag(tag), 0);
    assert_eq!(pool.freed_with_tag(tag), 4);
    assert_eq!(pool.in_use(), 0);
}
