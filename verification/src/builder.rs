//! Builder for the rate limiter's configuration.

use vstd::prelude::*;

use crate::{limiter_wf, spec_default_prefix, ConfigError, Limiter, RateLimit};

verus! {

/// Collects the rate limiter's options; `build` validates them.
///
/// The connection to the shared store is a long-lived external dependency
/// owned by the caller's process; it is attached by the surrounding
/// application, not here.
pub struct RateLimitBuilder {
    /// The algorithm variant, required.
    pub limiter: Option<Limiter>,
    /// The key namespace; empty means the default.
    pub prefix: String,
    /// The optional fail-open bound in milliseconds.
    pub timeout: Option<u64>,
    /// Whether auxiliary usage recording is enabled.
    pub analytics: bool,
}

impl RateLimitBuilder {
    /// An empty builder: no variant, default prefix, no timeout.
    pub fn new() -> (r: RateLimitBuilder)
        ensures
            r.limiter is None,
            r.prefix@.len() == 0,
            r.timeout is None,
            !r.analytics,
    {
        RateLimitBuilder { limiter: None, prefix: String::new(), timeout: None, analytics: false }
    }

    /// Select the algorithm variant and its parameters.
    pub fn limiter(self, limiter: Limiter) -> (r: RateLimitBuilder)
        ensures
            r.limiter === Some(limiter),
            r.prefix == self.prefix,
            r.timeout == self.timeout,
            r.analytics == self.analytics,
    {
        RateLimitBuilder { limiter: Some(limiter), ..self }
    }

    /// Enable analytics to get a better understanding of how the rate
    /// limiting is performing.
    pub fn analytics(self, enabled: bool) -> (r: RateLimitBuilder)
        ensures
            r.analytics == enabled,
            r.limiter == self.limiter,
            r.prefix == self.prefix,
            r.timeout == self.timeout,
    {
        RateLimitBuilder { analytics: enabled, ..self }
    }

    /// Optionally allow requests to pass when the store does not answer
    /// within the given time, in milliseconds.
    ///
    /// Use this to allow requests through in case of a network failure.
    pub fn timeout(self, timeout: u64) -> (r: RateLimitBuilder)
        ensures
            r.timeout === Some(timeout),
            r.limiter == self.limiter,
            r.prefix == self.prefix,
            r.analytics == self.analytics,
    {
        RateLimitBuilder { timeout: Some(timeout), ..self }
    }

    /// Add an optional prefix to the keys used in the store.
    ///
    /// This is useful if you want to share a store instance with other
    /// applications and you also want to avoid key collisions. The default
    /// prefix is "@upstash/ratelimit", for compatibility with sibling rate
    /// limit libraries of the same design.
    pub fn prefix(self, prefix: String) -> (r: RateLimitBuilder)
        ensures
            r.prefix == prefix,
            r.limiter == self.limiter,
            r.timeout == self.timeout,
            r.analytics == self.analytics,
    {
        RateLimitBuilder { prefix, ..self }
    }

    /// Validates the options and produces the rate limiter.
    ///
    /// A missing variant and a zero window, interval or refill rate are
    /// configuration errors; an empty prefix becomes the default prefix.
    pub fn build(self) -> (r: Result<RateLimit, ConfigError>)
        ensures
            self.limiter is None ==> r === Err(ConfigError::NoLimiter),
            r is Ok ==> ({
                let rl = r->Ok_0;
                &&& self.limiter === Some(rl.limiter)
                &&& rl.wf()
                &&& rl.prefix@ == (if self.prefix@.len() == 0 {
                    spec_default_prefix()
                } else {
                    self.prefix@
                })
                &&& rl.timeout == self.timeout
                &&& rl.analytics == self.analytics
            }),
            r is Err ==> (match self.limiter {
                None => r === Err(ConfigError::NoLimiter),
                Some(l) => !limiter_wf(l) && (r === Err(ConfigError::NonPositiveWindow) || r
                    === Err(ConfigError::NonPositiveRate)),
            }),
    {
        let limiter = match self.limiter {
            Some(l) => l,
            None => {
                return Err(ConfigError::NoLimiter);
            },
        };
        match limiter {
            Limiter::FixedWindow { tokens, window } => {
                if window == 0 {
                    return Err(ConfigError::NonPositiveWindow);
                }
            },
            Limiter::SlidingLogs { tokens, window } => {
                if window == 0 {
                    return Err(ConfigError::NonPositiveWindow);
                }
            },
            Limiter::SlidingWindow { tokens, window } => {
                if window == 0 {
                    return Err(ConfigError::NonPositiveWindow);
                }
            },
            Limiter::TokenBucket { refill_rate, interval, max_tokens } => {
                if interval == 0 {
                    return Err(ConfigError::NonPositiveWindow);
                }
                if refill_rate == 0 {
                    return Err(ConfigError::NonPositiveRate);
                }
            },
        }
        proof {
            reveal_strlit("@upstash/ratelimit");
        }
        let prefix = if self.prefix.as_str().is_empty() {
            "@upstash/ratelimit".to_owned()
        } else {
            self.prefix
        };
        Ok(RateLimit { limiter, prefix, timeout: self.timeout, analytics: self.analytics })
    }
}

} // verus!
