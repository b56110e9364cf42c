use zkp_auth::integer::Integer;
use zkp_auth::registry::{IdentityRegistry, PendingChallenges};

fn num(v: u64) -> Integer {
    Integer::from_u64(v)
}

#[test]
fn registry_put_only_if_absent() {
    let mut registry = IdentityRegistry::new();
    assert!(!registry.contains(1));
    assert!(registry.get(1).is_none());
    assert!(registry.put(1, num(2), num(3)));
    assert!(registry.contains(1));
    assert!(!registry.put(1, num(4), num(5)));
    let record = registry.get(1).unwrap();
    assert_eq!(record.y1.to_u64(), Some(2));
    assert_eq!(record.y2.to_u64(), Some(3));
    assert!(!registry.contains(2));
}

#[test]
fn pending_put_overwrites() {
    let mut pending = PendingChallenges::new();
    assert!(!pending.contains(1));
    pending.put(1, num(8), num(4), num(3));
    pending.put(1, num(16), num(12), num(5));
    assert!(pending.contains(1));
    let attempt = pending.take(1).unwrap();
    assert_eq!(attempt.r1.to_u64(), Some(16));
    assert_eq!(attempt.r2.to_u64(), Some(12));
    assert_eq!(attempt.c.to_u64(), Some(5));
}

#[test]
fn pending_take_removes() {
    let mut pending = PendingChallenges::new();
    pending.put(1, num(8), num(4), num(3));
    pending.put(2, num(9), num(5), num(4));
    assert!(pending.take(1).is_some());
    assert!(!pending.contains(1));
    assert!(pending.take(1).is_none());
    assert!(pending.contains(2));
    assert!(pending.take(3).is_none());
}

#[test]
fn pending_get_leaves_the_attempt() {
    let mut pending = PendingChallenges::new();
    assert!(pending.get(1).is_none());
    pending.put(1, num(8), num(4), num(3));
    let attempt = pending.get(1).unwrap();
    assert_eq!(attempt.r1.to_u64(), Some(8));
    assert_eq!(attempt.r2.to_u64(), Some(4));
    assert_eq!(attempt.c.to_u64(), Some(3));
    assert!(pending.contains(1));
}

#[test]
fn pending_delete_removes() {
    let mut pending = PendingChallenges::new();
    pending.put(1, num(8), num(4), num(3));
    pending.put(2, num(9), num(5), num(4));
    pending.delete(1);
    assert!(!pending.contains(1));
    assert!(pending.contains(2));
    pending.delete(1);
    pending.delete(7);
    assert!(pending.contains(2));
}
