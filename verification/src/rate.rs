//! Token-bucket rate limiter in fixed-point arithmetic: one token is
//! `10^9` scaled units, so that a refill rate in tokens per second is a rate
//! in scaled units per nanosecond.

use std::time::Duration;
use vstd::prelude::*;

verus! {

/// Scaled units per token.
pub const FP_SCALE: u128 = 1_000_000_000;

/// The length of a `Duration` in whole nanoseconds.
pub uninterp spec fn duration_nanos(d: Duration) -> nat;

/// `Duration::as_nanos` of std: the total number of whole nanoseconds that
/// the duration holds. The contract gives that number its name and claims
/// nothing else of it.
pub assume_specification[ Duration::as_nanos ](d: &Duration) -> (nanos: u128)
    ensures
        nanos == duration_nanos(*d),
;

/// What a bucket holds, as numbers.
pub struct BucketState {
    /// Most that the bucket can hold, in scaled units.
    pub capacity_fp: nat,
    /// What it holds now, in scaled units.
    pub tokens_fp: nat,
    /// Tokens added per second, which is scaled units added per nanosecond.
    pub refill_per_sec: nat,
    /// Time of the last refill, in nanoseconds on the caller's clock.
    pub last_refill: nat,
}

impl BucketState {
    /// A bucket never holds more than its capacity.
    pub open spec fn wf(self) -> bool {
        self.tokens_fp <= self.capacity_fp
    }

    /// A full bucket of `capacity` tokens whose clock starts at zero.
    pub open spec fn fresh(capacity: nat, refill_per_sec: nat) -> BucketState {
        BucketState {
            capacity_fp: capacity * FP_SCALE as nat,
            tokens_fp: capacity * FP_SCALE as nat,
            refill_per_sec,
            last_refill: 0,
        }
    }

    /// Whole tokens at hand: the scaled amount, rounded down.
    pub open spec fn available(self) -> nat {
        self.tokens_fp / FP_SCALE as nat
    }

    /// The bucket after a refill at time `now`. A clock that has not advanced
    /// changes nothing. Otherwise the elapsed nanoseconds times the rate are
    /// added, up to the capacity, and the clock moves to `now`; a rate of
    /// zero only moves the clock.
    pub open spec fn refilled(self, now: nat) -> BucketState {
        if now <= self.last_refill {
            self
        } else {
            let grown = self.tokens_fp + (now - self.last_refill) * self.refill_per_sec;
            BucketState {
                tokens_fp: if grown <= self.capacity_fp {
                    grown as nat
                } else {
                    self.capacity_fp
                },
                last_refill: now,
                ..self
            }
        }
    }

    /// Whether `amount` tokens can be taken at time `now`.
    pub open spec fn admits(self, amount: nat, now: nat) -> bool {
        self.refilled(now).tokens_fp >= amount * FP_SCALE as nat
    }

    /// The bucket after an attempt to take `amount` tokens at time `now`:
    /// refilled, and debited if the refilled bucket holds enough.
    pub open spec fn taken(self, amount: nat, now: nat) -> BucketState {
        let topped = self.refilled(now);
        if self.admits(amount, now) {
            BucketState {
                tokens_fp: (topped.tokens_fp - amount * FP_SCALE as nat) as nat,
                ..topped
            }
        } else {
            topped
        }
    }

    /// The bucket with nothing in it.
    pub open spec fn cleared(self) -> BucketState {
        BucketState { tokens_fp: 0, ..self }
    }
}

/// Simple token-bucket rate limiter.
///
/// `capacity` and `refill_per_sec` are expressed in whole tokens. The bucket
/// keeps no lock: one instance belongs to one rate-limited identity, and its
/// owner serializes access.
#[derive(Debug)]
pub struct TokenBucket {
    capacity_fp: u128,
    tokens_fp: u128,
    refill_per_sec: u64,
    last_refill: u128,
}

impl View for TokenBucket {
    type V = BucketState;

    closed spec fn view(&self) -> BucketState {
        BucketState {
            capacity_fp: self.capacity_fp as nat,
            tokens_fp: self.tokens_fp as nat,
            refill_per_sec: self.refill_per_sec as nat,
            last_refill: self.last_refill as nat,
        }
    }
}

impl Clone for TokenBucket {
    fn clone(&self) -> (copy: Self)
        ensures
            copy == *self,
    {
        proof {
            use_type_invariant(self);
        }
        Self {
            capacity_fp: self.capacity_fp,
            tokens_fp: self.tokens_fp,
            refill_per_sec: self.refill_per_sec,
            last_refill: self.last_refill,
        }
    }
}

impl TokenBucket {
    #[verifier::type_invariant]
    spec fn inv(self) -> bool {
        &&& self.tokens_fp <= self.capacity_fp
        &&& self.capacity_fp <= u64::MAX * FP_SCALE
    }

    /// Creates a new bucket starting full.
    pub fn new(capacity: u64, refill_per_sec: u64) -> (bucket: Self)
        ensures
            bucket@ == BucketState::fresh(capacity as nat, refill_per_sec as nat),
            bucket@.wf(),
    {
        let capacity_fp = (capacity as u128) * FP_SCALE;
        Self { capacity_fp, tokens_fp: capacity_fp, refill_per_sec, last_refill: 0 }
    }

    /// Refills tokens based on `now`, which should be monotonic (for
    /// instance the time since the process started).
    pub fn refill(&mut self, now: Duration)
        ensures
            final(self)@ == old(self)@.refilled(duration_nanos(now)),
            final(self)@.wf(),
    {
        proof {
            use_type_invariant(&*self);
        }
        let now_nanos = now.as_nanos();
        if now_nanos <= self.last_refill {
            return ;
        }
        if self.refill_per_sec == 0 {
            self.last_refill = now_nanos;
            assert((now_nanos - old(self).last_refill) * 0 == 0);
            return ;
        }
        let elapsed = now_nanos - self.last_refill;
        let grown = match elapsed.checked_mul(self.refill_per_sec as u128) {
            Some(increment) => self.tokens_fp.checked_add(increment),
            None => None,
        };
        self.tokens_fp =
        match grown {
            Some(total) => if total <= self.capacity_fp {
                total
            } else {
                self.capacity_fp
            },
            None => self.capacity_fp,
        };
        self.last_refill = now_nanos;
    }

    /// Returns the number of whole tokens currently available (floored).
    pub fn available(&self) -> (tokens: u64)
        ensures
            tokens == self@.available(),
    {
        proof {
            use_type_invariant(self);
        }
        (self.tokens_fp / FP_SCALE) as u64
    }

    /// Attempts to take `amount` tokens at time `now`, after a refill.
    /// Returns `true`, and debits the bucket, if it holds enough.
    pub fn try_take(&mut self, amount: u64, now: Duration) -> (admitted: bool)
        ensures
            admitted == old(self)@.admits(amount as nat, duration_nanos(now)),
            final(self)@ == old(self)@.taken(amount as nat, duration_nanos(now)),
            final(self)@.wf(),
    {
        self.refill(now);
        proof {
            use_type_invariant(&*self);
        }
        let needed_fp = (amount as u128) * FP_SCALE;
        if self.tokens_fp >= needed_fp {
            self.tokens_fp -= needed_fp;
            true
        } else {
            false
        }
    }

    /// Forces the bucket to be empty.
    pub fn clear(&mut self)
        ensures
            final(self)@ == old(self)@.cleared(),
            final(self)@.wf(),
    {
        proof {
            use_type_invariant(&*self);
        }
        self.tokens_fp = 0;
    }
}

/// A fresh bucket of capacity `C` has `C` whole tokens at hand.
pub proof fn lemma_fresh_bucket_is_full(capacity: nat, refill_per_sec: nat)
    ensures
        BucketState::fresh(capacity, refill_per_sec).wf(),
        BucketState::fresh(capacity, refill_per_sec).available() == capacity,
{
}

/// A refill never leaves more in the bucket than its capacity, never takes
/// anything out, and never moves the clock back.
pub proof fn lemma_refill_within_capacity(state: BucketState, now: nat)
    requires
        state.wf(),
    ensures
        state.refilled(now).wf(),
        state.refilled(now).capacity_fp == state.capacity_fp,
        state.refilled(now).tokens_fp >= state.tokens_fp,
        state.refilled(now).last_refill >= state.last_refill,
{
    if now > state.last_refill {
        assert((now - state.last_refill) * state.refill_per_sec >= 0) by (nonlinear_arith)
            requires
                now > state.last_refill,
        ;
    }
}

/// Taking `k` tokens when at least `k` whole tokens are at hand after the
/// refill succeeds, and leaves exactly `k` fewer whole tokens.
pub proof fn lemma_take_reduces_available(state: BucketState, k: nat, now: nat)
    requires
        state.wf(),
        k <= state.refilled(now).available(),
    ensures
        state.admits(k, now),
        state.taken(k, now).wf(),
        state.taken(k, now).available() == state.refilled(now).available() - k,
{
    lemma_refill_within_capacity(state, now);
    let tokens = state.refilled(now).tokens_fp;
    let scale = FP_SCALE as nat;
    assert(k * scale <= tokens && (tokens - k * scale) / scale as int == tokens / scale - k)
        by (nonlinear_arith)
        requires
            k <= tokens / scale,
            scale == 1_000_000_000,
    ;
}

/// Taking more whole tokens than are at hand after the refill is refused,
/// and nothing is debited.
pub proof fn lemma_take_beyond_available(state: BucketState, k: nat, now: nat)
    requires
        k > state.refilled(now).available(),
    ensures
        !state.admits(k, now),
        state.taken(k, now) == state.refilled(now),
{
    let tokens = state.refilled(now).tokens_fp;
    let scale = FP_SCALE as nat;
    assert(k * scale > tokens) by (nonlinear_arith)
        requires
            k > tokens / scale,
            scale == 1_000_000_000,
    ;
}

/// Refills accumulate in scaled units, so a fraction of a token is kept: the
/// whole tokens at hand after a refill are the scaled sum of what was there
/// and what the elapsed time brought, rounded down, and at most the capacity.
pub proof fn lemma_refill_accumulates_fractions(state: BucketState, now: nat)
    requires
        state.wf(),
        now > state.last_refill,
    ensures
        ({
            let grown = state.tokens_fp + (now - state.last_refill) * state.refill_per_sec;
            state.refilled(now).available() == if grown <= state.capacity_fp {
                grown / FP_SCALE as int
            } else {
                state.capacity_fp as int / FP_SCALE as int
            }
        }),
{
}

} // verus!
