use distribution_lock::lock::{
    AcquireAttempt, DistributionLock, LockError, LockEvent, ReleaseOutcome, TransportError,
};
use distribution_lock::store::{LeaseStore, LEASE_TTL_MS};
use distribution_lock::token::TokenAllocator;

fn acquire_at(
    store: &mut LeaseStore,
    tokens: &mut TokenAllocator,
    key: &str,
    now: u64,
) -> Result<DistributionLock, LockError> {
    let attempt = AcquireAttempt::new(tokens, key);
    let reply = store.acquire(attempt.key(), attempt.token(), now);
    DistributionLock::acquire(attempt, Ok(reply))
}

fn renew_at(store: &mut LeaseStore, lock: &mut DistributionLock, now: u64) -> Result<LockEvent, LockError> {
    let reply = store.extend(lock.key(), lock.lock_number(), now);
    lock.use_loop(Ok(reply))
}

fn release_at(store: &mut LeaseStore, lock: DistributionLock, now: u64) -> Result<ReleaseOutcome, LockError> {
    let reply = store.release(lock.key(), lock.lock_number(), now);
    lock.release(Ok(reply))
}

#[test]
fn use_lock() {
    let mut store = LeaseStore::new();
    let mut tokens = TokenAllocator::new();
    let lock = acquire_at(&mut store, &mut tokens, "LOCK:test", 0).unwrap();
    assert_eq!(lock.key(), "LOCK:test");
    assert!(lock.is_held());
    assert_eq!(release_at(&mut store, lock, 1).unwrap(), ReleaseOutcome::Released);
    assert_eq!(store.holder("LOCK:test", 1), None);
}

#[test]
fn two_callers_race_on_one_key() {
    let mut store = LeaseStore::new();
    let mut tokens = TokenAllocator::new();
    let first = acquire_at(&mut store, &mut tokens, "L1", 100);
    let second = acquire_at(&mut store, &mut tokens, "L1", 100);
    assert!(first.as_ref().unwrap().is_held());
    assert_eq!(second.err(), Some(LockError::AcquisitionContended));
    assert_eq!(store.holder("L1", 100), Some(first.unwrap().lock_number()));
}

#[test]
fn second_acquire_within_lease_is_contended() {
    let mut store = LeaseStore::new();
    let mut tokens = TokenAllocator::new();
    assert!(acquire_at(&mut store, &mut tokens, "L1", 0).is_ok());
    let late = acquire_at(&mut store, &mut tokens, "L1", LEASE_TTL_MS - 1);
    assert_eq!(late.err(), Some(LockError::AcquisitionContended));
    let after = acquire_at(&mut store, &mut tokens, "L1", LEASE_TTL_MS);
    assert_eq!(after.unwrap().lock_number(), 3);
}

#[test]
fn stale_handle_is_fenced_off() {
    let mut store = LeaseStore::new();
    let mut tokens = TokenAllocator::new();
    for _ in 0..4 {
        tokens.next();
    }
    let mut a = acquire_at(&mut store, &mut tokens, "L1", 0).unwrap();
    assert_eq!(a.lock_number(), 5);
    // A's lease runs out without renewal; B takes the key.
    let b = acquire_at(&mut store, &mut tokens, "L1", 10_000).unwrap();
    assert_eq!(b.lock_number(), 6);
    assert!(!store.extend("L1", 5, 10_001));
    assert_eq!(renew_at(&mut store, &mut a, 10_001), Ok(LockEvent::Lost));
    assert!(!a.is_held());
    assert_eq!(a.ensure_held(), Err(LockError::LockLost));
    assert_eq!(release_at(&mut store, a, 10_002), Ok(ReleaseOutcome::ReleaseNoop));
    assert_eq!(store.holder("L1", 10_002), Some(6));
    assert!(b.is_held());
}

#[test]
fn lease_expires_without_renewal() {
    let mut store = LeaseStore::new();
    assert!(store.acquire("L1", 1, 0));
    assert_eq!(store.holder("L1", 0), Some(1));
    assert_eq!(store.holder("L1", 9_999), Some(1));
    assert_eq!(store.holder("L1", 10_000), None);
    assert_eq!(store.holder("L1", 20_000), None);
}

#[test]
fn releasing_lost_handle_keeps_newer_record() {
    let mut store = LeaseStore::new();
    let mut tokens = TokenAllocator::new();
    let mut old = acquire_at(&mut store, &mut tokens, "job", 0).unwrap();
    let newer = acquire_at(&mut store, &mut tokens, "job", 15_000).unwrap();
    assert_eq!(renew_at(&mut store, &mut old, 15_001), Ok(LockEvent::Lost));
    assert_eq!(release_at(&mut store, old, 15_002), Ok(ReleaseOutcome::ReleaseNoop));
    assert_eq!(store.holder("job", 15_003), Some(newer.lock_number()));
    assert_eq!(release_at(&mut store, newer, 15_004), Ok(ReleaseOutcome::Released));
    assert_eq!(store.holder("job", 15_005), None);
}

#[test]
fn release_of_expired_lease_is_noop() {
    let mut store = LeaseStore::new();
    let mut tokens = TokenAllocator::new();
    let lock = acquire_at(&mut store, &mut tokens, "k", 0).unwrap();
    assert_eq!(release_at(&mut store, lock, 10_000), Ok(ReleaseOutcome::ReleaseNoop));
}

#[test]
fn renewal_keeps_record_without_gap() {
    let mut store = LeaseStore::new();
    let mut tokens = TokenAllocator::new();
    let mut lock = acquire_at(&mut store, &mut tokens, "L1", 0).unwrap();
    let token = lock.lock_number();
    let mut last: u64 = 0;
    for _ in 0..6 {
        let next = last + 9_999;
        let mut t = last;
        while t <= next {
            assert_eq!(store.holder("L1", t), Some(token));
            t += 333;
        }
        assert_eq!(store.holder("L1", next), Some(token));
        assert_eq!(renew_at(&mut store, &mut lock, next), Ok(LockEvent::Renewed));
        last = next;
    }
    assert!(lock.is_held());
    assert_eq!(store.holder("L1", last + LEASE_TTL_MS - 1), Some(token));
    assert_eq!(store.holder("L1", last + LEASE_TTL_MS), None);
}

#[test]
fn late_renewal_reports_loss() {
    let mut store = LeaseStore::new();
    let mut tokens = TokenAllocator::new();
    let mut lock = acquire_at(&mut store, &mut tokens, "L1", 0).unwrap();
    assert_eq!(renew_at(&mut store, &mut lock, 10_000), Ok(LockEvent::Lost));
    assert_eq!(store.holder("L1", 10_000), None);
    // A lease once lost stays lost, even if the store were to answer yes.
    assert_eq!(lock.use_loop(Ok(true)), Ok(LockEvent::Lost));
}

#[test]
fn tokens_strictly_increase_across_keys() {
    let mut tokens = TokenAllocator::new();
    let mut previous = 0u64;
    for i in 0..100u64 {
        let key = format!("key-{}", i % 7);
        let attempt = AcquireAttempt::new(&mut tokens, &key);
        assert_eq!(attempt.key(), key.as_str());
        assert!(attempt.token() > previous);
        assert_eq!(attempt.token(), i + 1);
        previous = attempt.token();
    }
}

#[test]
fn first_token_is_one() {
    let mut tokens = TokenAllocator::new();
    assert_eq!(tokens.next(), 1);
    assert_eq!(tokens.next(), 2);
}

#[test]
fn transport_failures_are_connection_errors() {
    let mut tokens = TokenAllocator::new();
    let attempt = AcquireAttempt::new(&mut tokens, "L1");
    assert_eq!(
        DistributionLock::acquire(attempt, Err(TransportError)).err(),
        Some(LockError::ConnectionError)
    );
    let attempt = AcquireAttempt::new(&mut tokens, "L1");
    let mut lock = DistributionLock::acquire(attempt, Ok(true)).unwrap();
    assert_eq!(lock.lock_number(), 2);
    assert_eq!(lock.use_loop(Err(TransportError)), Err(LockError::ConnectionError));
    assert!(lock.is_held());
    assert_eq!(lock.ensure_held(), Ok(()));
    assert_eq!(lock.release(Err(TransportError)), Err(LockError::ConnectionError));
}

#[test]
fn contended_reply_is_not_a_connection_error() {
    let mut tokens = TokenAllocator::new();
    let attempt = AcquireAttempt::new(&mut tokens, "L1");
    assert_eq!(
        DistributionLock::acquire(attempt, Ok(false)).err(),
        Some(LockError::AcquisitionContended)
    );
}

#[test]
fn instance_number_tags_tokens() {
    let mut a = TokenAllocator::for_instance(3);
    let mut b = TokenAllocator::for_instance(4);
    let ta = a.next();
    let tb = b.next();
    assert_eq!(ta, (3u64 << 48) + 1);
    assert_eq!(tb, (4u64 << 48) + 1);
    assert_ne!(ta, tb);
    assert_eq!(a.next(), (3u64 << 48) + 2);
    let mut zero = TokenAllocator::for_instance(0);
    assert_eq!(zero.next(), 1);
}

#[test]
fn instances_never_collide_on_a_shared_store() {
    let mut store = LeaseStore::new();
    let mut a = TokenAllocator::for_instance(1);
    let mut b = TokenAllocator::for_instance(2);
    let held = acquire_at(&mut store, &mut a, "shared", 0).unwrap();
    let mut stale = acquire_at(&mut store, &mut b, "other", 0).unwrap();
    assert_ne!(held.lock_number(), stale.lock_number());
    // b's handle on another key cannot extend a's record even with its own counter value.
    assert!(!store.extend("shared", stale.lock_number(), 1));
    assert_eq!(renew_at(&mut store, &mut stale, 1), Ok(LockEvent::Renewed));
}
