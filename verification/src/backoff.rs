//! The delays between attempts to reach a backend.
//!
//! After a failed attempt the dispatcher waits and tries again: one second
//! after the first failure, twice as long after each further one. When the
//! allowed number of retries is used up, the next failure is final.

use vstd::arithmetic::power2::{lemma2_to64, lemma2_to64_rest, lemma_pow2_strictly_increases, pow2};
use vstd::prelude::*;

verus! {

/// How often a connection is retried unless told otherwise.
pub const DEFAULT_MAX_RETRIES: u32 = 5;

/// The largest number of retries for which every delay fits in 64 bits.
pub const RETRY_LIMIT: u32 = 63;

/// What to do after a failed attempt.
#[derive(Clone, Copy, Debug, PartialEq, Eq, Structural)]
pub enum Retry {
    /// Wait this many seconds, then try again.
    After(u64),
    /// Every retry is used up.
    GiveUp,
}

/// The retries of one dispatch: how many were made and how many may be.
pub struct BackoffView {
    pub attempt: nat,
    pub max_retries: nat,
}

/// The state of one sequence of attempts.
#[derive(Debug)]
pub struct Backoff {
    attempt: u32,
    delay: u64,
    max_retries: u32,
}

/// The delay before retry number `k`, counted from zero, in seconds.
pub open spec fn delay_before(k: nat) -> nat {
    pow2(k)
}

/// What follows a failure in the state `v`.
pub open spec fn decision(v: BackoffView) -> Retry {
    if v.attempt < v.max_retries {
        Retry::After(delay_before(v.attempt) as u64)
    } else {
        Retry::GiveUp
    }
}

/// The state after a failure in the state `v`.
pub open spec fn after_failure(v: BackoffView) -> BackoffView {
    if v.attempt < v.max_retries {
        BackoffView { attempt: v.attempt + 1, max_retries: v.max_retries }
    } else {
        v
    }
}

/// The state after `n` failures in a row, from the state `v` on.
pub open spec fn after_failures(v: BackoffView, n: nat) -> BackoffView
    decreases n,
{
    if n == 0 {
        v
    } else {
        after_failure(after_failures(v, (n - 1) as nat))
    }
}

/// The seconds waited in all before retry number `n`.
pub open spec fn total_delay(n: nat) -> nat
    decreases n,
{
    if n == 0 {
        0
    } else {
        total_delay((n - 1) as nat) + delay_before((n - 1) as nat)
    }
}

impl View for Backoff {
    type V = BackoffView;

    closed spec fn view(&self) -> BackoffView {
        BackoffView { attempt: self.attempt as nat, max_retries: self.max_retries as nat }
    }
}

impl Backoff {
    #[verifier::type_invariant]
    spec fn well_formed(self) -> bool {
        &&& self.attempt <= self.max_retries
        &&& self.max_retries <= RETRY_LIMIT
        &&& self.delay == pow2(self.attempt as nat)
    }

    /// A sequence that has not failed yet, with the usual number of retries.
    pub fn new() -> (b: Backoff)
        ensures
            b@ == (BackoffView { attempt: 0, max_retries: DEFAULT_MAX_RETRIES as nat }),
    {
        proof {
            lemma2_to64();
        }
        Backoff { attempt: 0, delay: 1, max_retries: DEFAULT_MAX_RETRIES }
    }

    /// A sequence that has not failed yet and may retry `max_retries` times;
    /// none where a delay would not fit in 64 bits.
    pub fn with_max_retries(max_retries: u32) -> (r: Option<Backoff>)
        ensures
            r is Some == (max_retries <= RETRY_LIMIT),
            r matches Some(b) ==> b@ == (BackoffView {
                attempt: 0,
                max_retries: max_retries as nat,
            }),
    {
        if max_retries > RETRY_LIMIT {
            return None;
        }
        proof {
            lemma2_to64();
        }
        Some(Backoff { attempt: 0, delay: 1, max_retries })
    }

    /// How many retries were made.
    pub fn retries(&self) -> (r: u32)
        ensures
            r == self@.attempt,
    {
        self.attempt
    }

    /// How many retries may be made.
    pub fn max_retries(&self) -> (r: u32)
        ensures
            r == self@.max_retries,
    {
        self.max_retries
    }

    /// The seconds to wait before the next retry.
    pub fn delay(&self) -> (r: u64)
        ensures
            r == delay_before(self@.attempt),
    {
        proof {
            use_type_invariant(self);
        }
        self.delay
    }

    /// Records a failed attempt and says what follows it.
    pub fn on_failure(&mut self) -> (r: Retry)
        ensures
            r == decision(old(self)@),
            final(self)@ == after_failure(old(self)@),
    {
        proof {
            use_type_invariant(&*self);
            lemma2_to64();
            lemma2_to64_rest();
        }
        if self.attempt < self.max_retries {
            let wait = self.delay;
            proof {
                lemma_pow2_strictly_increases(self.attempt as nat, 63);
                vstd::arithmetic::power2::lemma_pow2_unfold((self.attempt + 1) as nat);
            }
            let next = Backoff {
                attempt: self.attempt + 1,
                delay: wait * 2,
                max_retries: self.max_retries,
            };
            *self = next;
            Retry::After(wait)
        } else {
            Retry::GiveUp
        }
    }
}

/// The first delay is one second and each further one is twice the one
/// before it.
pub proof fn lemma_delays_double(k: nat)
    ensures
        delay_before(0) == 1,
        delay_before(k + 1) == 2 * delay_before(k),
{
    lemma2_to64();
    vstd::arithmetic::power2::lemma_pow2_unfold(k + 1);
}

/// A backend that fails `n` times in a row, where `n` retries are allowed,
/// is retried exactly `n` times: failure number `k`, counted from zero, is
/// followed by a wait of `2^k` seconds, and `k + 1` retries have then been
/// made.
pub proof fn lemma_retry_sequence(start: BackoffView, n: nat, k: nat)
    requires
        start.attempt == 0,
        n <= start.max_retries <= RETRY_LIMIT,
        k < n,
    ensures
        after_failures(start, k).attempt == k,
        decision(after_failures(start, k)) == Retry::After(delay_before(k) as u64),
        after_failures(start, n).attempt == n,
        after_failures(start, n).max_retries == start.max_retries,
{
    lemma_failures_count(start, k);
    lemma_failures_count(start, n);
}

/// Failures are counted until the retries are used up.
pub proof fn lemma_failures_count(start: BackoffView, n: nat)
    requires
        start.attempt == 0,
    ensures
        after_failures(start, n).max_retries == start.max_retries,
        n <= start.max_retries ==> after_failures(start, n).attempt == n,
        n > start.max_retries ==> after_failures(start, n).attempt == start.max_retries,
    decreases n,
{
    if n > 0 {
        lemma_failures_count(start, (n - 1) as nat);
    }
}

/// When the retries are used up, the next failure is final, and so is every
/// failure after it.
pub proof fn lemma_gives_up_when_exhausted(start: BackoffView, n: nat)
    requires
        start.attempt == 0,
        n >= start.max_retries,
    ensures
        decision(after_failures(start, n)) == Retry::GiveUp,
{
    lemma_failures_count(start, n);
}

/// Each delay is longer than the one before it.
pub proof fn lemma_delays_increase(j: nat, k: nat)
    requires
        j < k,
    ensures
        delay_before(j) < delay_before(k),
{
    lemma_pow2_strictly_increases(j, k);
}

/// The seconds waited in all before retry number `n` are one less than the
/// delay before that retry: seven seconds before the fourth attempt.
pub proof fn lemma_total_delay(n: nat)
    ensures
        total_delay(n) + 1 == delay_before(n),
    decreases n,
{
    lemma2_to64();
    if n > 0 {
        lemma_total_delay((n - 1) as nat);
        vstd::arithmetic::power2::lemma_pow2_unfold(n);
    }
}

} // verus!
