//! Bounded concurrent-slot admission: a policy admits a call while fewer
//! than `max` calls are in flight, and optionally tells a denied caller how
//! long to back off before retrying.

use vstd::arithmetic::div_mod::lemma_fundamental_div_mod;
use vstd::arithmetic::power::{lemma_pow1, lemma_pow_adds, lemma_pow_positive, pow};
use vstd::prelude::*;

verus! {

/// A capped exponential backoff schedule: attempt `i` sleeps
/// `min(cap_ms, base_ms * factor^i)` milliseconds. The schedule is stateless;
/// the caller counts attempts.
#[derive(Clone, Copy, PartialEq, Eq, Structural, Debug)]
pub struct Backoff {
    base_ms: u64,
    factor: u64,
    cap_ms: u64,
}

impl Backoff {
    pub closed spec fn spec_base_ms(&self) -> u64 {
        self.base_ms
    }

    pub closed spec fn spec_factor(&self) -> u64 {
        self.factor
    }

    pub closed spec fn spec_cap_ms(&self) -> u64 {
        self.cap_ms
    }

    /// A growth factor below one would make retries busier over time.
    pub open spec fn wf(&self) -> bool {
        self.spec_factor() >= 1
    }

    /// The delay of attempt `i`: the exponential curve clipped at the cap.
    pub open spec fn spec_delay(&self, attempt: nat) -> int {
        if self.spec_base_ms() * pow(self.spec_factor() as int, attempt) <= self.spec_cap_ms() {
            self.spec_base_ms() * pow(self.spec_factor() as int, attempt)
        } else {
            self.spec_cap_ms() as int
        }
    }

    pub fn new(base_ms: u64, factor: u64, cap_ms: u64) -> (r: Self)
        requires
            factor >= 1,
        ensures
            r.wf(),
            r.spec_base_ms() == base_ms,
            r.spec_factor() == factor,
            r.spec_cap_ms() == cap_ms,
    {
        Backoff { base_ms, factor, cap_ms }
    }

    /// The default exponential schedule: the delay doubles from the base
    /// until it reaches the cap.
    pub fn exponential(base_ms: u64, cap_ms: u64) -> (r: Self)
        ensures
            r.wf(),
            r.spec_base_ms() == base_ms,
            r.spec_factor() == 2,
            r.spec_cap_ms() == cap_ms,
    {
        Backoff { base_ms, factor: 2, cap_ms }
    }

    /// Compute the delay of the given attempt in milliseconds.
    pub fn delay_ms(&self, attempt: u32) -> (r: u64)
        requires
            self.wf(),
        ensures
            r as int == self.spec_delay(attempt as nat),
    {
        let mut d: u64 = if self.base_ms <= self.cap_ms {
            self.base_ms
        } else {
            self.cap_ms
        };
        proof {
            vstd::arithmetic::power::lemma_pow0(self.spec_factor() as int);
        }
        let mut k: u32 = 0;
        while k < attempt
            invariant
                self.wf(),
                k <= attempt,
                d as int == self.spec_delay(k as nat),
                d <= self.cap_ms,
            decreases attempt - k,
        {
            let f = self.factor;
            let cap = self.cap_ms;
            proof {
                let fi = self.spec_factor() as int;
                let x = self.spec_base_ms() * pow(fi, k as nat);
                lemma_pow_positive(fi, k as nat);
                lemma_pow_adds(fi, k as nat, 1);
                lemma_pow1(fi);
                assert(x >= 0) by (nonlinear_arith)
                    requires
                        x == self.spec_base_ms() * pow(fi, k as nat),
                        pow(fi, k as nat) > 0,
                        self.spec_base_ms() >= 0,
                ;
                assert(self.spec_base_ms() * pow(fi, (k + 1) as nat) == x * fi)
                    by (nonlinear_arith)
                    requires
                        pow(fi, (k + 1) as nat) == pow(fi, k as nat) * pow(fi, 1),
                        pow(fi, 1) == fi,
                        x == self.spec_base_ms() * pow(fi, k as nat),
                ;
                lemma_fundamental_div_mod(cap as int, f as int);
                if d > cap / f {
                    // the true curve already passed the cap
                    assert(d <= x);
                    assert(x * fi > cap) by (nonlinear_arith)
                        requires
                            x >= d,
                            d > cap / f,
                            fi == f,
                            fi >= 1,
                            cap == f * (cap / f) + cap % f,
                            cap % f < f,
                            0 <= cap % f,
                    ;
                } else {
                    // one more factor still fits under the cap
                    assert(d * fi <= cap) by (nonlinear_arith)
                        requires
                            0 <= d,
                            d <= cap / f,
                            fi == f,
                            fi >= 1,
                            cap == f * (cap / f) + cap % f,
                            0 <= cap % f,
                    ;
                    if x > cap {
                        assert(x * fi >= x) by (nonlinear_arith)
                            requires
                                x >= 0,
                                fi >= 1,
                        ;
                    }
                    assert((d as int) * fi >= d) by (nonlinear_arith)
                        requires
                            d >= 0,
                            fi >= 1,
                    ;
                }
            }
            d = if d > cap / f {
                cap
            } else {
                let m = d * f;
                if m > cap {
                    cap
                } else {
                    m
                }
            };
            k = k + 1;
        }
        d
    }
}

/// Backoff monotonicity: every delay is at most the cap, and the delay of
/// the next attempt is never smaller than the delay of the current one.
pub proof fn lemma_backoff_monotone(b: Backoff, i: nat)
    requires
        b.wf(),
    ensures
        b.spec_delay(i) <= b.spec_cap_ms() as int,
        b.spec_delay(i) <= b.spec_delay(i + 1),
{
    let f = b.spec_factor() as int;
    let x = b.spec_base_ms() * pow(f, i);
    let y = b.spec_base_ms() * pow(f, i + 1);
    lemma_pow_positive(f, i);
    lemma_pow_adds(f, i, 1);
    lemma_pow1(f);
    assert(x >= 0) by (nonlinear_arith)
        requires
            x == b.spec_base_ms() * pow(f, i),
            pow(f, i) > 0,
            b.spec_base_ms() >= 0,
    ;
    assert(y >= x) by (nonlinear_arith)
        requires
            f >= 1,
            x >= 0,
            x == b.spec_base_ms() * pow(f, i),
            y == b.spec_base_ms() * (pow(f, i) * pow(f, 1)),
            pow(f, 1) == f,
    ;
}

/// The outcome of one step of the acquire protocol. The caller performs the
/// sleep itself and polls again with the next attempt index, so waiting
/// stays outside this crate.
#[derive(Clone, Copy, PartialEq, Eq, Debug)]
pub enum AcquireStep {
    /// A slot was reserved; the caller now holds it and must release it.
    Acquired,
    /// The policy is saturated and no (further) waiting is allowed.
    Denied,
    /// The caller's cancellation fired; no slot was touched.
    Cancelled,
    /// The policy is saturated; sleep this many milliseconds and poll again.
    Sleep(u64),
}

/// A concurrent-slot policy: at most `max` calls in flight at once, with an
/// optional backoff schedule consulted when admission is denied.
#[derive(Clone, Copy, PartialEq, Eq, Debug)]
pub struct ConcurrentPolicy {
    max: u64,
    in_flight: u64,
    backoff: Option<Backoff>,
}

impl ConcurrentPolicy {
    pub closed spec fn spec_max(&self) -> u64 {
        self.max
    }

    pub closed spec fn spec_in_flight(&self) -> u64 {
        self.in_flight
    }

    pub closed spec fn spec_backoff(&self) -> Option<Backoff> {
        self.backoff
    }

    /// Admission bound: the in-flight count never exceeds `max`. Every
    /// method of the policy preserves this invariant.
    pub open spec fn wf(&self) -> bool {
        &&& self.spec_in_flight() <= self.spec_max()
        &&& self.spec_max() >= 1
        &&& match self.spec_backoff() {
            Some(b) => b.wf(),
            None => true,
        }
    }

    /// The policy after a successful acquire: one more call in flight.
    pub closed spec fn spec_acquired(self) -> ConcurrentPolicy {
        ConcurrentPolicy {
            in_flight: (self.spec_in_flight() + 1) as u64,
            ..self
        }
    }

    /// The policy after a release: one less call in flight.
    pub closed spec fn spec_released(self) -> ConcurrentPolicy {
        ConcurrentPolicy {
            in_flight: (self.spec_in_flight() - 1) as u64,
            ..self
        }
    }

    /// A policy without backoff: a denied call fails at once.
    pub fn new(max: u64) -> (r: Self)
        requires
            max >= 1,
        ensures
            r.wf(),
            r.spec_max() == max,
            r.spec_in_flight() == 0,
            r.spec_backoff() is None,
    {
        ConcurrentPolicy { max, in_flight: 0, backoff: None }
    }

    /// A policy with an optional backoff schedule consulted on denial.
    pub fn with_backoff(max: u64, backoff: Option<Backoff>) -> (r: Self)
        requires
            max >= 1,
            match backoff {
                Some(b) => b.wf(),
                None => true,
            },
        ensures
            r.wf(),
            r.spec_max() == max,
            r.spec_in_flight() == 0,
            r.spec_backoff() == backoff,
    {
        ConcurrentPolicy { max, in_flight: 0, backoff }
    }

    pub fn max(&self) -> (r: u64)
        ensures
            r == self.spec_max(),
    {
        self.max
    }

    pub fn in_flight(&self) -> (r: u64)
        ensures
            r == self.spec_in_flight(),
    {
        self.in_flight
    }

    pub fn backoff(&self) -> (r: Option<Backoff>)
        ensures
            r == self.spec_backoff(),
    {
        self.backoff
    }

    /// Reserve a slot if one is free: succeeds exactly when fewer than `max`
    /// calls are in flight, and then counts one more.
    pub fn try_acquire(&mut self) -> (r: bool)
        requires
            old(self).wf(),
        ensures
            final(self).wf(),
            r <==> old(self).spec_in_flight() < old(self).spec_max(),
            r ==> *final(self) == old(self).spec_acquired(),
            r ==> final(self).spec_in_flight() == old(self).spec_in_flight() + 1,
            !r ==> *final(self) == *old(self),
            final(self).spec_max() == old(self).spec_max(),
            final(self).spec_backoff() == old(self).spec_backoff(),
    {
        if self.in_flight < self.max {
            self.in_flight = self.in_flight + 1;
            true
        } else {
            false
        }
    }

    /// Release a held slot: counts one less call in flight. The caller must
    /// hold a slot, so the count cannot underflow.
    pub fn release(&mut self)
        requires
            old(self).wf(),
            old(self).spec_in_flight() >= 1,
        ensures
            final(self).wf(),
            *final(self) == old(self).spec_released(),
            final(self).spec_in_flight() == old(self).spec_in_flight() - 1,
            final(self).spec_max() == old(self).spec_max(),
            final(self).spec_backoff() == old(self).spec_backoff(),
    {
        self.in_flight = self.in_flight - 1;
    }

    /// One step of `acquire`: cancellation wins, then a free slot, then the
    /// per-call deadline, then the backoff schedule; without a schedule a
    /// denied call fails at once.
    pub fn acquire_poll(&mut self, attempt: u32, cancelled: bool, deadline_expired: bool) -> (r:
        AcquireStep)
        requires
            old(self).wf(),
        ensures
            final(self).wf(),
            cancelled ==> r == AcquireStep::Cancelled && *final(self) == *old(self),
            !cancelled && old(self).spec_in_flight() < old(self).spec_max() ==> r
                == AcquireStep::Acquired && *final(self) == old(self).spec_acquired(),
            !cancelled && old(self).spec_in_flight() >= old(self).spec_max() ==> *final(self)
                == *old(self),
            !cancelled && old(self).spec_in_flight() >= old(self).spec_max() && deadline_expired
                ==> r == AcquireStep::Denied,
            !cancelled && old(self).spec_in_flight() >= old(self).spec_max() && !deadline_expired
                && old(self).spec_backoff() is None ==> r == AcquireStep::Denied,
            !cancelled && old(self).spec_in_flight() >= old(self).spec_max() && !deadline_expired
                && old(self).spec_backoff() is Some ==> (r matches AcquireStep::Sleep(d) && d as int
                == old(self).spec_backoff().unwrap().spec_delay(attempt as nat)),
    {
        if cancelled {
            AcquireStep::Cancelled
        } else if self.try_acquire() {
            AcquireStep::Acquired
        } else if deadline_expired {
            AcquireStep::Denied
        } else {
            match self.backoff {
                None => AcquireStep::Denied,
                Some(b) => AcquireStep::Sleep(b.delay_ms(attempt)),
            }
        }
    }
}

/// No slot leak: releasing the slot a successful acquire reserved restores
/// the policy to exactly its prior state, whatever that state was.
pub proof fn lemma_acquire_release_restores(p: ConcurrentPolicy)
    requires
        p.wf(),
        p.spec_in_flight() < p.spec_max(),
    ensures
        p.spec_acquired().spec_released() == p,
{
}

} // verus!
