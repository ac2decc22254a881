//! Distributed rate limiting against a shared, centralized counter store.
//!
//! Every decision the limiter makes is pure: deriving time-bucketed storage
//! keys, building the argument list of the store's atomic script, and mapping
//! the script's scalar result to an admit/deny decision. The store itself is
//! reached over the network by the surrounding application; this crate models
//! the atomic scripts exactly, so that an in-memory store ([`MemoryStore`])
//! executes the very same transitions the remote scripts perform.

use vstd::prelude::*;

pub mod builder;
pub mod keys;
pub mod laws;
pub mod store;
pub mod table;

pub use builder::RateLimitBuilder;
pub use store::{BucketVal, CounterVal, LogView, MemoryStore, ScriptId, ScriptRequest};

verus! {

/// Selects one rate-limiting strategy together with its parameters.
///
/// All durations are in milliseconds.
#[derive(Clone, Copy, PartialEq, Eq, Structural, Debug)]
pub enum Limiter {
    /// Each request inside a fixed time window increases a counter. Once the
    /// counter reaches the maximum allowed number, all further requests in
    /// that window are rejected.
    FixedWindow {
        /// How many requests are allowed per window.
        tokens: u64,
        /// Window length in milliseconds; the request quota refills when a
        /// new window starts.
        window: u64,
    },
    /// Each admitted request is recorded with its timestamp in a per-caller
    /// log; a request is admitted while fewer than `tokens` records are
    /// younger than `window` milliseconds.
    SlidingLogs {
        /// How many requests are allowed per window.
        tokens: u64,
        /// Window length in milliseconds.
        window: u64,
    },
    /// Sliding variant of `FixedWindow` with improved boundary behavior:
    /// admission weighs the previous window's counter by the fraction of it
    /// still covered by the sliding window.
    SlidingWindow {
        /// How many requests are allowed per window.
        tokens: u64,
        /// Window length in milliseconds.
        window: u64,
    },
    /// A bucket starts with `max_tokens` tokens and refills at a rate of
    /// `refill_rate` tokens per `interval` until full. Every request takes
    /// one token; with no token left the request is rejected.
    TokenBucket {
        /// How many tokens are added per `interval`.
        refill_rate: u64,
        /// The interval for the refill rate, in milliseconds.
        interval: u64,
        /// Maximum number of tokens; a fresh bucket starts full.
        max_tokens: u64,
    },
}

/// The outcome of one rate-limit check.
#[derive(Clone, Copy, PartialEq, Eq, Structural, Debug)]
pub enum Response {
    /// The request is admitted.
    Success {
        /// Remaining tokens before rate limiting is applied.
        remaining: u64,
        /// Wall-clock instant (milliseconds since the epoch) at which the
        /// current window ends and quota becomes available again.
        reset: u64,
    },
    /// The request is denied.
    Failure {
        /// Wall-clock instant (milliseconds since the epoch) at which the
        /// current window ends and quota becomes available again.
        reset: u64,
    },
}

/// A configuration fault, fatal at construction.
#[derive(Clone, Copy, PartialEq, Eq, Structural, Debug)]
pub enum ConfigError {
    /// No store connection was configured.
    NoStore,
    /// No limiter variant was configured.
    NoLimiter,
    /// A window or interval of zero was configured; it is used as a divisor.
    NonPositiveWindow,
    /// A refill rate of zero was configured.
    NonPositiveRate,
}

/// A fault of one `limit` call, recoverable by the caller.
#[derive(Clone, Copy, PartialEq, Eq, Structural, Debug)]
pub enum LimitError {
    /// The identifier is empty.
    InvalidIdentifier,
    /// The system clock reports a time before the epoch.
    Clock,
    /// The store could not be reached, timed out, or answered malformed, and
    /// no fail-open timeout is configured.
    StoreUnavailable,
    /// The selected algorithm variant has no implementation in this build's
    /// store backend.
    UnsupportedVariant,
}

/// Whether a limiter's parameters are valid: every duration that is used as
/// a divisor is positive, and so is the refill rate.
pub open spec fn limiter_wf(l: Limiter) -> bool {
    match l {
        Limiter::FixedWindow { tokens, window } => window >= 1,
        Limiter::SlidingLogs { tokens, window } => window >= 1,
        Limiter::SlidingWindow { tokens, window } => window >= 1,
        Limiter::TokenBucket { refill_rate, interval, max_tokens } => interval >= 1
            && refill_rate >= 1,
    }
}

/// The default key prefix, shared with sibling libraries of the same design
/// so that they can interoperate on one store.
pub open spec fn spec_default_prefix() -> Seq<char> {
    "@upstash/ratelimit"@
}

/// The instant the current fixed window ends: the start of the bucket after
/// the one containing `now`, saturating at the far future.
pub open spec fn spec_window_reset(now: u64, window: u64) -> u64 {
    store::sat_add((now as int / window as int * window as int) as u64, window)
}

/// The script request one `limit` call sends: the script, its keys (in wire
/// order, as character sequences) and its scalar arguments.
///
/// For the sliding window the previous bucket is the current bucket index
/// minus one; the bucket before the epoch has no key, and is stood for by
/// the empty key, which the key scheme never generates (the prefix is never
/// empty).
pub open spec fn spec_plan(l: Limiter, prefix: Seq<char>, id: Seq<char>, now: u64) -> (
    ScriptId,
    Seq<Seq<char>>,
    Seq<u64>,
) {
    match l {
        Limiter::FixedWindow { tokens, window } => (
            ScriptId::FixedWindow,
            seq![keys::spec_counter_key(prefix, id, now as int / window as int)],
            seq![window],
        ),
        Limiter::SlidingWindow { tokens, window } => {
            let b = now as int / window as int;
            let prev = if b == 0 {
                Seq::<char>::empty()
            } else {
                keys::spec_counter_key(prefix, id, b - 1)
            };
            (
                ScriptId::SlidingWindow,
                seq![keys::spec_counter_key(prefix, id, b), prev],
                seq![tokens, now, window],
            )
        },
        Limiter::SlidingLogs { tokens, window } => (
            ScriptId::SlidingLogs,
            seq![keys::spec_caller_key(prefix, id)],
            seq![tokens, now, window],
        ),
        Limiter::TokenBucket { refill_rate, interval, max_tokens } => (
            ScriptId::TokenBucket,
            seq![keys::spec_caller_key(prefix, id)],
            seq![max_tokens, refill_rate, interval, now],
        ),
    }
}

/// Whether a scalar result is one the variant's script can produce; any
/// other answer is malformed and treated as a store failure.
pub open spec fn raw_sane(l: Limiter, raw: i64) -> bool {
    match l {
        Limiter::FixedWindow { tokens, window } => raw >= 1,
        Limiter::SlidingWindow { tokens, window } => raw >= -1,
        Limiter::SlidingLogs { tokens, window } => true,
        Limiter::TokenBucket { refill_rate, interval, max_tokens } => true,
    }
}

/// The admitted decision handed out when the store cannot answer and a
/// fail-open timeout is configured: nothing is known of the quota, so no
/// headroom is promised, and the reset is the end of the current window.
pub open spec fn spec_fail_open(l: Limiter, now: u64) -> Response {
    match l {
        Limiter::FixedWindow { tokens, window } => Response::Success {
            remaining: 0,
            reset: spec_window_reset(now, window),
        },
        Limiter::SlidingWindow { tokens, window } => Response::Success {
            remaining: 0,
            reset: spec_window_reset(now, window),
        },
        Limiter::SlidingLogs { tokens, window } => Response::Success {
            remaining: 0,
            reset: store::sat_add(now, window),
        },
        Limiter::TokenBucket { refill_rate, interval, max_tokens } => Response::Success {
            remaining: 0,
            reset: store::sat_add(now, interval),
        },
    }
}

/// Maps the store's answer to the decision of one `limit` call.
///
/// `None` stands for any store failure: connection failure, timeout, or a
/// malformed scalar. With a timeout configured the call fails open and
/// admits; without one the failure is surfaced. A sane scalar is read per
/// the variant's rule: for the window variants a count or sentinel with the
/// reset at the window's end; for the log and bucket variants a remaining
/// quota when non-negative, else the negated wait until quota returns.
///
/// `oldest` is the oldest log record still inside the window after the
/// operation; an admitted sliding log request resets when that record
/// leaves the window. The scalar cannot carry it, so the store is read for
/// it; the other variants ignore it, as does the denial path, whose scalar
/// already encodes the wait.
pub open spec fn spec_settle(
    l: Limiter,
    timeout: Option<u64>,
    now: u64,
    outcome: Option<i64>,
    oldest: Option<u64>,
) -> Result<Response, LimitError> {
    let effective = match outcome {
        Some(raw) => if raw_sane(l, raw) {
            Some(raw)
        } else {
            None
        },
        None => None,
    };
    match effective {
        None => match timeout {
            Some(t) => Ok(spec_fail_open(l, now)),
            None => Err(LimitError::StoreUnavailable),
        },
        Some(raw) => Ok(
            match l {
                Limiter::FixedWindow { tokens, window } => {
                    let reset = spec_window_reset(now, window);
                    if raw as u64 <= tokens {
                        Response::Success { remaining: (tokens - raw as u64) as u64, reset }
                    } else {
                        Response::Failure { reset }
                    }
                },
                Limiter::SlidingWindow { tokens, window } => {
                    let reset = spec_window_reset(now, window);
                    if raw >= 0 {
                        Response::Success { remaining: raw as u64, reset }
                    } else {
                        Response::Failure { reset }
                    }
                },
                Limiter::SlidingLogs { tokens, window } => {
                    if raw >= 0 {
                        let base = match oldest {
                            Some(ts) => ts,
                            None => now,
                        };
                        Response::Success { remaining: raw as u64, reset: store::sat_add(base, window) }
                    } else {
                        Response::Failure { reset: store::sat_add(now, (0 - raw) as u64) }
                    }
                },
                Limiter::TokenBucket { refill_rate, interval, max_tokens } => {
                    if raw >= 0 {
                        Response::Success { remaining: raw as u64, reset: store::sat_add(now, interval) }
                    } else {
                        Response::Failure { reset: store::sat_add(now, (0 - raw) as u64) }
                    }
                },
            },
        ),
    }
}

/// The whole effect of one `limit` call on the store's abstract contents,
/// together with its decision.
pub open spec fn spec_limit(
    l: Limiter,
    prefix: Seq<char>,
    timeout: Option<u64>,
    cs: Map<Seq<char>, CounterVal>,
    ls: Map<Seq<char>, LogView>,
    bs: Map<Seq<char>, BucketVal>,
    id: Seq<char>,
    now: u64,
) -> (
    Map<Seq<char>, CounterVal>,
    Map<Seq<char>, LogView>,
    Map<Seq<char>, BucketVal>,
    Result<Response, LimitError>,
) {
    if id.len() == 0 {
        (cs, ls, bs, Err(LimitError::InvalidIdentifier))
    } else {
        match l {
            Limiter::FixedWindow { tokens, window } => {
                let k = keys::spec_counter_key(prefix, id, now as int / window as int);
                let (cv, raw) = store::spec_fixed(store::lookup(cs, k), window, now);
                (cs.insert(k, cv), ls, bs, spec_settle(l, timeout, now, Some(raw), None))
            },
            Limiter::SlidingWindow { tokens, window } => {
                let b = now as int / window as int;
                let kc = keys::spec_counter_key(prefix, id, b);
                let kp = if b == 0 {
                    Seq::<char>::empty()
                } else {
                    keys::spec_counter_key(prefix, id, b - 1)
                };
                let (w, raw) = store::spec_sliding(
                    store::lookup(cs, kc),
                    store::lookup(cs, kp),
                    tokens,
                    now,
                    window,
                    now,
                );
                let cs2 = match w {
                    Some(cv) => cs.insert(kc, cv),
                    None => cs,
                };
                (cs2, ls, bs, spec_settle(l, timeout, now, Some(raw), None))
            },
            Limiter::SlidingLogs { tokens, window } => {
                let k = keys::spec_caller_key(prefix, id);
                let (w, raw) = store::spec_log(store::lookup(ls, k), tokens, now, window, now);
                let ls2 = match w {
                    Some(lv) => ls.insert(k, lv),
                    None => ls,
                };
                (cs, ls2, bs, spec_settle(l, timeout, now, Some(raw), store::spec_oldest(
                    store::lookup(ls2, k),
                    window,
                    now,
                )))
            },
            Limiter::TokenBucket { refill_rate, interval, max_tokens } => {
                let k = keys::spec_caller_key(prefix, id);
                let (w, raw) = store::spec_token(
                    store::lookup(bs, k),
                    max_tokens,
                    refill_rate,
                    interval,
                    now,
                );
                let bs2 = match w {
                    Some(bv) => bs.insert(k, bv),
                    None => bs,
                };
                (cs, ls, bs2, spec_settle(l, timeout, now, Some(raw), None))
            },
        }
    }
}

/// The rate limiter: one algorithm variant, a key namespace, and the
/// failure policy, with the store connection left to the caller.
#[derive(Debug)]
pub struct RateLimit {
    /// The algorithm variant and its parameters.
    pub limiter: Limiter,
    /// The key namespace; never empty, so that no storage key is empty.
    pub prefix: String,
    /// The optional fail-open bound in milliseconds: when the store does not
    /// answer within it, requests are admitted instead of blocking.
    pub timeout: Option<u64>,
    /// Whether auxiliary usage recording is enabled.
    pub analytics: bool,
}

impl RateLimit {
    /// Whether this configuration is valid; the builder establishes it.
    pub open spec fn wf(self) -> bool {
        limiter_wf(self.limiter) && self.prefix@.len() >= 1
    }

    /// Creates a `RateLimit` builder instance.
    pub fn builder() -> (r: RateLimitBuilder)
        ensures
            r.limiter is None,
            r.prefix@.len() == 0,
            r.timeout is None,
            !r.analytics,
    {
        RateLimitBuilder::new()
    }

    /// Derives the script request of one `limit` call: validates the
    /// identifier, computes the time bucket keys, and builds the script's
    /// argument list.
    pub fn plan(&self, identifier: &str, now: u64) -> (r: Result<ScriptRequest, LimitError>)
        requires
            self.wf(),
        ensures
            identifier@.len() == 0 <==> r === Err(LimitError::InvalidIdentifier),
            r is Err ==> r === Err(LimitError::InvalidIdentifier),
            r is Ok ==> ({
                let (sid, ks, args) = spec_plan(self.limiter, self.prefix@, identifier@, now);
                let req = r->Ok_0;
                &&& store::req_wf(req)
                &&& req.script == sid
                &&& req.keys@.map_values(|k: String| k@) == ks
                &&& req.args@ == args
            }),
    {
        if identifier.is_empty() {
            return Err(LimitError::InvalidIdentifier);
        }
        let mut keys_v: Vec<String> = Vec::new();
        let mut args_v: Vec<u64> = Vec::new();
        let sid: ScriptId;
        match self.limiter {
            Limiter::FixedWindow { tokens, window } => {
                sid = ScriptId::FixedWindow;
                keys_v.push(keys::counter_key(self.prefix.as_str(), identifier, now / window));
                args_v.push(window);
            },
            Limiter::SlidingWindow { tokens, window } => {
                sid = ScriptId::SlidingWindow;
                let b = now / window;
                keys_v.push(keys::counter_key(self.prefix.as_str(), identifier, b));
                if b == 0 {
                    keys_v.push(String::new());
                } else {
                    keys_v.push(keys::counter_key(self.prefix.as_str(), identifier, b - 1));
                }
                args_v.push(tokens);
                args_v.push(now);
                args_v.push(window);
            },
            Limiter::SlidingLogs { tokens, window } => {
                sid = ScriptId::SlidingLogs;
                keys_v.push(keys::caller_key(self.prefix.as_str(), identifier));
                args_v.push(tokens);
                args_v.push(now);
                args_v.push(window);
            },
            Limiter::TokenBucket { refill_rate, interval, max_tokens } => {
                sid = ScriptId::TokenBucket;
                keys_v.push(keys::caller_key(self.prefix.as_str(), identifier));
                args_v.push(max_tokens);
                args_v.push(refill_rate);
                args_v.push(interval);
                args_v.push(now);
            },
        }
        let req = ScriptRequest { script: sid, keys: keys_v, args: args_v };
        proof {
            let (sid0, ks0, args0) = spec_plan(self.limiter, self.prefix@, identifier@, now);
            assert(req.keys@.map_values(|k: String| k@) =~= ks0);
            assert(req.args@ =~= args0);
        }
        Ok(req)
    }

    /// Maps the store's answer — or its failure — to the decision of one
    /// `limit` call, applying the configured fail-open policy. `oldest` is
    /// the oldest surviving log record after the operation, read from the
    /// store for the sliding log variant and ignored by the others.
    pub fn settle(&self, now: u64, outcome: Option<i64>, oldest: Option<u64>) -> (r: Result<
        Response,
        LimitError,
    >)
        requires
            self.wf(),
        ensures
            r == spec_settle(self.limiter, self.timeout, now, outcome, oldest),
    {
        let sane: Option<i64> = match outcome {
            Some(raw) => {
                let ok = match self.limiter {
                    Limiter::FixedWindow { tokens, window } => raw >= 1,
                    Limiter::SlidingWindow { tokens, window } => raw >= -1,
                    Limiter::SlidingLogs { tokens, window } => true,
                    Limiter::TokenBucket { refill_rate, interval, max_tokens } => true,
                };
                if ok {
                    Some(raw)
                } else {
                    None
                }
            },
            None => None,
        };
        match sane {
            None => {
                match self.timeout {
                    Some(t) => Ok(self.fail_open(now)),
                    None => Err(LimitError::StoreUnavailable),
                }
            },
            Some(raw) => Ok(
                match self.limiter {
                    Limiter::FixedWindow { tokens, window } => {
                        let reset = window_reset(now, window);
                        if raw as u64 <= tokens {
                            Response::Success { remaining: tokens - raw as u64, reset }
                        } else {
                            Response::Failure { reset }
                        }
                    },
                    Limiter::SlidingWindow { tokens, window } => {
                        let reset = window_reset(now, window);
                        if raw >= 0 {
                            Response::Success { remaining: raw as u64, reset }
                        } else {
                            Response::Failure { reset }
                        }
                    },
                    Limiter::SlidingLogs { tokens, window } => {
                        if raw >= 0 {
                            let base = match oldest {
                                Some(ts) => ts,
                                None => now,
                            };
                            Response::Success {
                                remaining: raw as u64,
                                reset: store::sat_add_u64(base, window),
                            }
                        } else {
                            let wait = (0i128 - raw as i128) as u64;
                            Response::Failure { reset: store::sat_add_u64(now, wait) }
                        }
                    },
                    Limiter::TokenBucket { refill_rate, interval, max_tokens } => {
                        if raw >= 0 {
                            Response::Success {
                                remaining: raw as u64,
                                reset: store::sat_add_u64(now, interval),
                            }
                        } else {
                            let wait = (0i128 - raw as i128) as u64;
                            Response::Failure { reset: store::sat_add_u64(now, wait) }
                        }
                    },
                },
            ),
        }
    }

    /// The admitted decision of a fail-open call.
    fn fail_open(&self, now: u64) -> (r: Response)
        requires
            self.wf(),
        ensures
            r == spec_fail_open(self.limiter, now),
    {
        match self.limiter {
            Limiter::FixedWindow { tokens, window } => Response::Success {
                remaining: 0,
                reset: window_reset(now, window),
            },
            Limiter::SlidingWindow { tokens, window } => Response::Success {
                remaining: 0,
                reset: window_reset(now, window),
            },
            Limiter::SlidingLogs { tokens, window } => Response::Success {
                remaining: 0,
                reset: store::sat_add_u64(now, window),
            },
            Limiter::TokenBucket { refill_rate, interval, max_tokens } => Response::Success {
                remaining: 0,
                reset: store::sat_add_u64(now, interval),
            },
        }
    }

    /// Applies limiting based on a given unique identifier, against a store
    /// executing this library's atomic scripts.
    ///
    /// The identifier could be a user id, IP address or any other string;
    /// `now` is the current wall-clock time in milliseconds since the epoch.
    /// One call is one atomic round trip against the store.
    pub fn limit(&self, store: &mut MemoryStore, identifier: &str, now: u64) -> (r: Result<
        Response,
        LimitError,
    >)
        requires
            self.wf(),
        ensures
            ({
                let (cs2, ls2, bs2, res) = spec_limit(
                    self.limiter,
                    self.prefix@,
                    self.timeout,
                    old(store).counters_map(),
                    old(store).logs_map(),
                    old(store).buckets_map(),
                    identifier@,
                    now,
                );
                &&& final(store).counters_map() == cs2
                &&& final(store).logs_map() == ls2
                &&& final(store).buckets_map() == bs2
                &&& r == res
            }),
    {
        let req = match self.plan(identifier, now) {
            Ok(req) => req,
            Err(e) => {
                return Err(e);
            },
        };
        let raw = store.execute(&req, now);
        let oldest: Option<u64> = match self.limiter {
            Limiter::SlidingLogs { tokens, window } => store.oldest_stamp(&req.keys[0], window, now),
            _ => None,
        };
        proof {
            assert(req.keys@.map_values(|k: String| k@)[0] == req.keys@[0]@);
            if req.keys@.len() >= 2 {
                assert(req.keys@.map_values(|k: String| k@)[1] == req.keys@[1]@);
            }
        }
        self.settle(now, Some(raw), oldest)
    }
}

/// The instant the current fixed window ends.
fn window_reset(now: u64, window: u64) -> (r: u64)
    requires
        window >= 1,
    ensures
        r == spec_window_reset(now, window),
{
    proof {
        assert((now as int / window as int) * (window as int) <= now as int) by (nonlinear_arith)
            requires
                window >= 1,
                now >= 0,
        ;
    }
    let base = now / window * window;
    store::sat_add_u64(base, window)
}

} // verus!
