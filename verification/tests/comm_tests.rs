//! Delivery plans and the bounded connection cache.

use safe_network::addr::NodeAddr;
use safe_network::comm::{ConnCache, SendPlan};

fn addr(n: u16) -> NodeAddr {
    NodeAddr::new(n as u128, n)
}

#[test]
fn successful_send() {
    let mut plan = SendPlan::new(vec![addr(1), addr(2)], 2);
    assert!(plan.on_result(addr(1), true).is_none());
    assert!(plan.on_result(addr(2), true).is_none());
    let (result, failed) = plan.finish();
    assert!(result.is_ok());
    assert!(failed.is_empty());
}

#[test]
fn successful_send_to_subset() {
    // only one of the two recipients is asked
    let plan = SendPlan::new(vec![addr(1), addr(2)], 1);
    assert_eq!(plan.delivery_group_size, 1);
    assert_eq!(plan.next, 1);
    let mut plan = plan;
    assert!(plan.on_result(addr(1), true).is_none());
    let (result, failed) = plan.finish();
    assert!(result.is_ok());
    assert!(failed.is_empty());
}

#[test]
fn failed_send() {
    let mut plan = SendPlan::new(vec![addr(9)], 1);
    assert!(plan.on_result(addr(9), false).is_none());
    let (result, failed) = plan.finish();
    assert!(result.is_err());
    assert_eq!(failed, vec![addr(9)]);
}

#[test]
fn successful_send_after_failed_attempts() {
    // the failed recipient is replaced by the next untried one
    let mut plan = SendPlan::new(vec![addr(9), addr(1)], 1);
    let replacement = plan.on_result(addr(9), false);
    assert_eq!(replacement, Some(addr(1)));
    assert!(plan.on_result(addr(1), true).is_none());
    let (result, failed) = plan.finish();
    assert!(result.is_ok());
    assert_eq!(failed, vec![addr(9)]);
}

#[test]
fn partially_successful_send() {
    let mut plan = SendPlan::new(vec![addr(9), addr(1)], 2);
    assert!(plan.on_result(addr(9), false).is_none());
    assert!(plan.on_result(addr(1), true).is_none());
    let (result, failed) = plan.finish();
    assert!(result.is_err());
    assert_eq!(failed, vec![addr(9)]);
}

#[test]
fn cache_evicts_least_recently_used() {
    let mut cache = ConnCache::new(2);
    assert!(cache.touch(addr(1)).is_none());
    assert!(cache.touch(addr(2)).is_none());
    // touching an old entry refreshes it
    assert!(cache.touch(addr(1)).is_none());
    // a third peer evicts the least recently used: address 2
    let evicted = cache.touch(addr(3));
    assert_eq!(evicted, Some(addr(2)));
    assert!(cache.contains(&addr(1)));
    assert!(cache.contains(&addr(3)));
    assert!(!cache.contains(&addr(2)));
}

#[test]
fn failed_peer_is_evicted_then_reconnected() {
    // a send failure evicts the peer; the next send opens a fresh connection
    let mut cache = ConnCache::new(4);
    let _ = cache.touch(addr(7));
    assert!(cache.contains(&addr(7)));
    cache.evict(&addr(7));
    assert!(!cache.contains(&addr(7)));
    let _ = cache.touch(addr(7));
    assert!(cache.contains(&addr(7)));
}
