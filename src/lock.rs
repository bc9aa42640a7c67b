use vstd::prelude::*;

use crate::store::{acquired, holder, released, Lease, LEASE_TTL_MS};
use crate::token::{TokenAllocator, INSTANCE_SPAN};

verus! {

/// Pause between two renewals of a held lease: half of `LEASE_TTL_MS`, so a
/// renewal loop that is not delayed extends each lease before it runs out.
pub const RENEW_INTERVAL_MS: u64 = 5_000;

/// The store could not be reached, or its reply could not be read: the effect
/// of the operation is unknown.
#[derive(Clone, Copy, Debug, PartialEq, Eq, Structural)]
pub struct TransportError;

/// Why a lock operation did not go through.
#[derive(Clone, Copy, Debug, PartialEq, Eq, Structural)]
pub enum LockError {
    /// Transport failure; says nothing about who holds the lock.
    ConnectionError,
    /// Another holder has a live lease on the key.
    AcquisitionContended,
    /// The lease was not renewed and may belong to someone else now.
    LockLost,
}

/// How a release ended; neither outcome is an error.
#[derive(Clone, Copy, Debug, PartialEq, Eq, Structural)]
pub enum ReleaseOutcome {
    /// The record held this handle's token and was deleted.
    Released,
    /// The record held another token or none: nothing was deleted.
    ReleaseNoop,
}

/// What one tick of the renewal loop reports.
#[derive(Clone, Copy, Debug, PartialEq, Eq, Structural)]
pub enum LockEvent {
    /// The lease was extended for another lifetime.
    Renewed,
    /// The lease is gone; protected work must stop.
    Lost,
}

/// Outcome of an acquisition, given the store's reply to the acquire operation.
pub open spec fn acquire_outcome(reply: Result<bool, TransportError>) -> Result<(), LockError> {
    match reply {
        Ok(true) => Ok(()),
        Ok(false) => Err(LockError::AcquisitionContended),
        Err(_) => Err(LockError::ConnectionError),
    }
}

/// Outcome of a renewal tick of a handle, given the store's reply to the extend
/// operation; a lease once lost is never reported as renewed.
pub open spec fn renew_outcome(held: bool, reply: Result<bool, TransportError>) -> Result<
    LockEvent,
    LockError,
> {
    match reply {
        Ok(true) => if held {
            Ok(LockEvent::Renewed)
        } else {
            Ok(LockEvent::Lost)
        },
        Ok(false) => Ok(LockEvent::Lost),
        Err(_) => Err(LockError::ConnectionError),
    }
}

/// Outcome of a release, given the store's reply to the release operation.
pub open spec fn release_outcome(reply: Result<bool, TransportError>) -> Result<
    ReleaseOutcome,
    LockError,
> {
    match reply {
        Ok(true) => Ok(ReleaseOutcome::Released),
        Ok(false) => Ok(ReleaseOutcome::ReleaseNoop),
        Err(_) => Err(LockError::ConnectionError),
    }
}

/// One acquisition attempt: a key and the fresh token minted for it. The
/// acquire operation runs with these two values.
pub struct AcquireAttempt {
    key: String,
    token: u64,
}

impl AcquireAttempt {
    pub closed spec fn lease_key(&self) -> Seq<char> {
        self.key@
    }

    pub closed spec fn fencing_token(&self) -> u64 {
        self.token
    }

    /// Mints a fresh token for an attempt on `key`.
    pub fn new(tokens: &mut TokenAllocator, key: &str) -> (r: AcquireAttempt)
        ensures
            r.lease_key() == key@,
            r.fencing_token() == old(tokens).upcoming(),
            final(tokens).instance() == old(tokens).instance(),
            final(tokens).counter() == (old(tokens).counter() + 1) % (INSTANCE_SPAN as int),
    {
        let token = tokens.next();
        AcquireAttempt { key: key.to_owned(), token }
    }

    pub fn key(&self) -> (r: &str)
        ensures
            r@ == self.lease_key(),
    {
        self.key.as_str()
    }

    pub fn token(&self) -> (r: u64)
        ensures
            r == self.fencing_token(),
    {
        self.token
    }
}

/// A lease on one key under one fencing token: held until a renewal finds it
/// gone, then lost. Releasing consumes it; dropping it leaves the record to
/// expire in the store.
pub struct DistributionLock {
    key: String,
    number: u64,
    held: bool,
}

impl DistributionLock {
    pub closed spec fn lease_key(&self) -> Seq<char> {
        self.key@
    }

    pub closed spec fn fencing_token(&self) -> u64 {
        self.number
    }

    pub closed spec fn held(&self) -> bool {
        self.held
    }

    /// Ends an acquisition attempt with the store's reply to the acquire
    /// operation: a held handle on the attempt's key and token when the record
    /// was created, `AcquisitionContended` when the key was taken, and
    /// `ConnectionError` when the store could not be reached.
    pub fn acquire(attempt: AcquireAttempt, reply: Result<bool, TransportError>) -> (r: Result<
        DistributionLock,
        LockError,
    >)
        ensures
            match r {
                Ok(lock) => {
                    &&& acquire_outcome(reply) == Ok::<(), LockError>(())
                    &&& lock.lease_key() == attempt.lease_key()
                    &&& lock.fencing_token() == attempt.fencing_token()
                    &&& lock.held()
                },
                Err(e) => acquire_outcome(reply) == Err::<(), LockError>(e),
            },
    {
        match reply {
            Ok(true) => Ok(DistributionLock { key: attempt.key, number: attempt.token, held: true }),
            Ok(false) => Err(LockError::AcquisitionContended),
            Err(_) => Err(LockError::ConnectionError),
        }
    }

    /// One tick of the renewal loop, given the store's reply to the extend
    /// operation run with this handle's key and token. A refused extension
    /// marks the handle lost; a transport failure leaves it as it was.
    pub fn use_loop(&mut self, reply: Result<bool, TransportError>) -> (r: Result<LockEvent, LockError>)
        ensures
            r == renew_outcome(old(self).held(), reply),
            final(self).lease_key() == old(self).lease_key(),
            final(self).fencing_token() == old(self).fencing_token(),
            final(self).held() == (old(self).held() && reply != Ok::<bool, TransportError>(false)),
    {
        match reply {
            Ok(true) => {
                if self.held {
                    Ok(LockEvent::Renewed)
                } else {
                    Ok(LockEvent::Lost)
                }
            },
            Ok(false) => {
                self.held = false;
                Ok(LockEvent::Lost)
            },
            Err(_) => Err(LockError::ConnectionError),
        }
    }

    /// Whether protected work may go on: `LockLost` once a renewal failed.
    pub fn ensure_held(&self) -> (r: Result<(), LockError>)
        ensures
            self.held() ==> r == Ok::<(), LockError>(()),
            !self.held() ==> r == Err::<(), LockError>(LockError::LockLost),
    {
        if self.held {
            Ok(())
        } else {
            Err(LockError::LockLost)
        }
    }

    /// Ends the session with the store's reply to the release operation run
    /// with this handle's key and token.
    pub fn release(self, reply: Result<bool, TransportError>) -> (r: Result<ReleaseOutcome, LockError>)
        ensures
            r == release_outcome(reply),
    {
        match reply {
            Ok(true) => Ok(ReleaseOutcome::Released),
            Ok(false) => Ok(ReleaseOutcome::ReleaseNoop),
            Err(_) => Err(LockError::ConnectionError),
        }
    }

    /// The fencing token of this lease.
    pub fn lock_number(&self) -> (r: u64)
        ensures
            r == self.fencing_token(),
    {
        self.number
    }

    pub fn key(&self) -> (r: &str)
        ensures
            r@ == self.lease_key(),
    {
        self.key.as_str()
    }

    pub fn is_held(&self) -> (r: bool)
        ensures
            r == self.held(),
    {
        self.held
    }
}

/// Of two acquisitions of one key, the acquire operation of the second running
/// before the lease of the first has run out, at most one ends with a held
/// handle; when the first does, the second ends in `AcquisitionContended`.
pub proof fn lemma_mutual_exclusion(
    m: Map<Seq<char>, Lease>,
    key: Seq<char>,
    first: u64,
    second: u64,
    first_at: u64,
    second_at: u64,
)
    requires
        first_at <= second_at,
        second_at < first_at + LEASE_TTL_MS,
        first_at <= u64::MAX - LEASE_TTL_MS,
    ensures
        ({
            let (after, first_reply) = acquired(m, key, first, first_at);
            let second_reply = acquired(after, key, second, second_at).1;
            &&& !(acquire_outcome(Ok(first_reply)) is Ok && acquire_outcome(Ok(second_reply)) is Ok)
            &&& first_reply ==> acquire_outcome(Ok(second_reply)) == Err::<(), LockError>(
                LockError::AcquisitionContended,
            )
        }),
{
}

/// Releasing with a token that no longer holds the key, as after a loss, deletes
/// nothing, whoever holds the key now, and ends in the informational no-op
/// outcome, never in an error.
pub proof fn lemma_idempotent_release(m: Map<Seq<char>, Lease>, key: Seq<char>, token: u64, now: u64)
    requires
        holder(m, key, now) != Some(token),
    ensures
        released(m, key, token, now).0 == m,
        release_outcome(Ok(released(m, key, token, now).1)) == Ok::<ReleaseOutcome, LockError>(
            ReleaseOutcome::ReleaseNoop,
        ),
{
}

} // verus!
