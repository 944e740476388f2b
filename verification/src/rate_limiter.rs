use vstd::prelude::*;

verus! {

/// A token bucket shared by every download task of a service.  The bucket
/// holds at most one second's budget; a rate of 0 means no limit.  The
/// caller's loop alternates `refill` (with the measured elapsed time),
/// `try_acquire`, and, when refused, a sleep of at most `wait_hint_millis`.
pub struct RateLimiter {
    bytes_per_second: u64,
    tokens: u64,
}

/// The bucket after `elapsed_millis` of refill: `elapsed * rate / 1000` new
/// tokens, the total capped at one second's budget.
pub open spec fn spec_refilled(tokens: u64, bytes_per_second: u64, elapsed_millis: u64) -> int {
    let added = elapsed_millis * bytes_per_second / 1000;
    if tokens + added > bytes_per_second {
        bytes_per_second as int
    } else {
        tokens + added
    }
}

impl RateLimiter {
    pub closed spec fn spec_bytes_per_second(self) -> u64 {
        self.bytes_per_second
    }

    pub closed spec fn spec_tokens(self) -> u64 {
        self.tokens
    }

    /// The bucket never holds more than one second's budget.
    pub open spec fn wf(self) -> bool {
        self.spec_tokens() <= self.spec_bytes_per_second()
    }

    /// A full bucket at the configured rate; 0 means unlimited.
    pub fn new(bytes_per_second: u64) -> (r: Self)
        ensures
            r.spec_bytes_per_second() == bytes_per_second,
            r.spec_tokens() == bytes_per_second,
            r.wf(),
    {
        Self { bytes_per_second, tokens: bytes_per_second }
    }

    /// Rate limiting is disabled.
    pub fn is_unlimited(&self) -> (r: bool)
        ensures
            r == (self.spec_bytes_per_second() == 0),
    {
        self.bytes_per_second == 0
    }

    /// Adds the tokens `elapsed_millis` of wall time earn, capped at one
    /// second's budget.
    pub fn refill(&mut self, elapsed_millis: u64)
        ensures
            final(self).spec_bytes_per_second() == old(self).spec_bytes_per_second(),
            final(self).spec_tokens() == spec_refilled(
                old(self).spec_tokens(),
                old(self).spec_bytes_per_second(),
                elapsed_millis,
            ),
            final(self).wf(),
    {
        proof {
            assert(elapsed_millis * self.bytes_per_second <= u64::MAX * (u64::MAX as int))
                by (nonlinear_arith)
                requires
                    elapsed_millis <= u64::MAX,
                    self.bytes_per_second <= u64::MAX,
            ;
        }
        let added: u128 = (elapsed_millis as u128) * (self.bytes_per_second as u128) / 1000;
        let total: u128 = (self.tokens as u128) + added;
        if total > self.bytes_per_second as u128 {
            self.tokens = self.bytes_per_second;
        } else {
            self.tokens = total as u64;
        }
    }

    /// Takes `amount` tokens when the bucket has them (always, when
    /// unlimited); returns whether it did.  A refusal changes nothing.
    pub fn try_acquire(&mut self, amount: u64) -> (r: bool)
        ensures
            final(self).spec_bytes_per_second() == old(self).spec_bytes_per_second(),
            old(self).spec_bytes_per_second() == 0 ==> r && *final(self) == *old(self),
            old(self).spec_bytes_per_second() != 0 ==> {
                &&& r == (old(self).spec_tokens() >= amount)
                &&& (r ==> final(self).spec_tokens() == old(self).spec_tokens() - amount)
                &&& (!r ==> *final(self) == *old(self))
            },
            old(self).wf() ==> final(self).wf(),
    {
        if self.bytes_per_second == 0 {
            return true;
        }
        if self.tokens >= amount {
            self.tokens = self.tokens - amount;
            true
        } else {
            false
        }
    }

    /// How long to sleep before retrying a refused acquisition: the time the
    /// missing tokens take to accrue, capped at 100 ms so that cancellation
    /// is observed promptly.
    pub fn wait_hint_millis(&self, amount: u64) -> (r: u64)
        requires
            self.spec_bytes_per_second() > 0,
            self.spec_tokens() < amount,
        ensures
            r == ({
                let needed_millis = (amount - self.spec_tokens()) * 1000 / (
                self.spec_bytes_per_second() as int);
                if needed_millis < 100 {
                    needed_millis
                } else {
                    100int
                }
            }),
            r <= 100,
    {
        let needed: u64 = amount - self.tokens;
        proof {
            assert(needed * 1000 <= u64::MAX * 1000) by (nonlinear_arith)
                requires
                    needed <= u64::MAX,
            ;
        }
        let needed_millis: u128 = (needed as u128) * 1000 / (self.bytes_per_second as u128);
        if needed_millis < 100 {
            needed_millis as u64
        } else {
            100
        }
    }
}

} // verus!
