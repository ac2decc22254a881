//! The atomic scripts of the four algorithm variants, and an in-memory store
//! that executes them.
//!
//! Each variant's script is defined here as a pure transition over the
//! store's abstract contents. [`MemoryStore`] executes those transitions
//! exactly; a remote store executes the equivalent server-side scripts. One
//! call of [`MemoryStore::execute`] is one indivisible unit, so a sequence of
//! calls models every interleaving of concurrent callers of an atomic store.

use vstd::prelude::*;

use crate::table::Table;

verus! {

/// Names one of the four atomic scripts.
#[derive(Clone, Copy, PartialEq, Eq, Structural, Debug)]
pub enum ScriptId {
    FixedWindow,
    SlidingWindow,
    SlidingLogs,
    TokenBucket,
}

/// One atomic operation: a script, the keys it touches, and its scalar
/// arguments, all in wire order.
pub struct ScriptRequest {
    pub script: ScriptId,
    pub keys: Vec<String>,
    pub args: Vec<u64>,
}

/// A stored counter: its value and the instant it expires.
#[derive(Clone, Copy, PartialEq, Eq, Structural, Debug)]
pub struct CounterVal {
    pub value: u64,
    pub expires_at: u64,
}

/// A stored request log: admission timestamps and the instant the whole log
/// expires.
pub struct LogVal {
    pub stamps: Vec<u64>,
    pub expires_at: u64,
}

/// The abstract contents of a stored request log.
pub ghost struct LogView {
    pub stamps: Seq<u64>,
    pub expires_at: u64,
}

/// A stored token bucket: tokens left and the instant of the last refill.
#[derive(Clone, Copy, PartialEq, Eq, Structural, Debug)]
pub struct BucketVal {
    pub tokens: u64,
    pub last_refill: u64,
}

/// `a + b`, saturating at the largest representable instant.
pub open spec fn sat_add(a: u64, b: u64) -> u64 {
    if a + b > u64::MAX {
        u64::MAX
    } else {
        (a + b) as u64
    }
}

/// `a - b`, saturating at zero.
pub open spec fn spec_sub(a: u64, b: u64) -> u64 {
    if a >= b {
        (a - b) as u64
    } else {
        0
    }
}

/// A non-negative scalar result, saturating into the wire integer.
pub open spec fn to_raw(v: u64) -> i64 {
    if v > i64::MAX {
        i64::MAX
    } else {
        v as i64
    }
}

/// A strictly positive wait in milliseconds, clamped into the wire integer.
pub open spec fn wait_clamp(w: int) -> i64 {
    if w < 1 {
        1
    } else if w > i64::MAX {
        i64::MAX
    } else {
        w as i64
    }
}

/// The binding of `k` in `m`, if any.
pub open spec fn lookup<V>(m: Map<Seq<char>, V>, k: Seq<char>) -> Option<V> {
    if m.contains_key(k) {
        Some(m[k])
    } else {
        None
    }
}

/// Whether a stored counter is still live at `now`: the store drops a value
/// once its expiry instant is reached.
pub open spec fn counter_alive(c: Option<CounterVal>, now: u64) -> bool {
    match c {
        Some(c) => now < c.expires_at,
        None => false,
    }
}

/// The count a script reads at a counter key: the stored value, or zero when
/// the key is absent or expired.
pub open spec fn spec_count(c: Option<CounterVal>, now: u64) -> u64 {
    match c {
        Some(cv) => if now < cv.expires_at {
            cv.value
        } else {
            0
        },
        None => 0,
    }
}

/// One atomic increment: a live counter grows by one and keeps its expiry; a
/// dead or absent one is recreated at one with a fresh `ttl`, set in the same
/// indivisible step as the increment.
pub open spec fn spec_counter_step(c: Option<CounterVal>, now: u64, ttl: u64) -> CounterVal {
    if counter_alive(c, now) {
        CounterVal { value: sat_add(c->Some_0.value, 1), expires_at: c->Some_0.expires_at }
    } else {
        CounterVal { value: 1, expires_at: sat_add(now, ttl) }
    }
}

/// The fixed window script: increment the bucket counter, give a fresh
/// counter a time-to-live of one window, and return the new count.
pub open spec fn spec_fixed(c: Option<CounterVal>, window: u64, now: u64) -> (CounterVal, i64) {
    let step = spec_counter_step(c, now, window);
    (step, to_raw(step.value))
}

/// The time-to-live of a sliding window counter: it must stay readable as
/// the previous counter through the whole next window.
pub open spec fn sliding_ttl(window: u64) -> u64 {
    sat_add(sat_add(window, window), 1000)
}

/// The sliding window admission test, over exact integers: deny when
/// `prev * (1 - elapsedFraction) + cur >= tokens`, both sides scaled by
/// `window`.
pub open spec fn sliding_denies(cur: u64, prev: u64, tokens: u64, arg_now: u64, window: u64) -> bool {
    prev * (window - arg_now % window) + cur * window >= tokens * window
}

/// The sliding window script: weigh the previous bucket's counter by the
/// fraction of it the sliding window still covers, deny without mutating when
/// the estimate reaches `tokens`, otherwise increment the current counter and
/// return the remaining quota. `None` as the new counter means no write.
pub open spec fn spec_sliding(
    cur: Option<CounterVal>,
    prev: Option<CounterVal>,
    tokens: u64,
    arg_now: u64,
    window: u64,
    now: u64,
) -> (Option<CounterVal>, i64) {
    let c = spec_count(cur, now);
    let p = spec_count(prev, now);
    if sliding_denies(c, p, tokens, arg_now, window) {
        (None::<CounterVal>, (0 - 1) as i64)
    } else {
        let step = spec_counter_step(cur, now, sliding_ttl(window));
        (Some(step), to_raw(spec_sub(tokens, step.value)))
    }
}

/// Whether a log entry stamped `ts` is still inside the window at `now`.
pub open spec fn survives(ts: u64, window: u64, now: u64) -> bool {
    ts + window > now
}

/// The entries of a log still inside the window at `now`.
pub open spec fn spec_survivors(stamps: Seq<u64>, window: u64, now: u64) -> Seq<u64> {
    stamps.filter(|ts: u64| survives(ts, window, now))
}

/// The smallest timestamp of a log; the sentinel for an empty log is the far
/// future, so an empty, fully denied log reports a far-future reset.
pub open spec fn spec_min_stamp(s: Seq<u64>) -> u64
    decreases s.len(),
{
    if s.len() == 0 {
        u64::MAX
    } else if s.len() == 1 {
        s[0]
    } else if s.last() < spec_min_stamp(s.drop_last()) {
        s.last()
    } else {
        spec_min_stamp(s.drop_last())
    }
}

/// The stamps a script reads at a log key, before eviction: the stored
/// stamps, or none when the log is absent or expired.
pub open spec fn spec_log_stamps(l: Option<LogView>, now: u64) -> Seq<u64> {
    match l {
        Some(lv) => if now < lv.expires_at {
            lv.stamps
        } else {
            Seq::empty()
        },
        None => Seq::empty(),
    }
}

/// The oldest log record still inside the window at `now`, if any: the
/// instant it leaves the window is when one admission slot frees up again.
pub open spec fn spec_oldest(l: Option<LogView>, window: u64, now: u64) -> Option<u64> {
    let kept = spec_survivors(spec_log_stamps(l, now), window, now);
    if kept.len() == 0 {
        None
    } else {
        Some(spec_min_stamp(kept))
    }
}

/// The sliding log script: evict entries older than one window, count the
/// survivors, and if fewer than `tokens` survive, record the request and
/// refresh the log's expiry; otherwise deny without mutating and return the
/// wait until the oldest survivor leaves the window, negated. `None` as the
/// new log means no write.
pub open spec fn spec_log(
    l: Option<LogView>,
    tokens: u64,
    arg_now: u64,
    window: u64,
    now: u64,
) -> (Option<LogView>, i64) {
    let kept = spec_survivors(spec_log_stamps(l, now), window, now);
    if kept.len() < tokens {
        let lv = LogView { stamps: kept.push(arg_now), expires_at: sat_add(now, window) };
        (Some(lv), to_raw(spec_sub(tokens, (kept.len() + 1) as u64)))
    } else {
        (None::<LogView>, (0 - wait_clamp(
            spec_min_stamp(kept) + window - now,
        )) as i64)
    }
}

/// The token bucket script: refill by whole elapsed intervals up to
/// `max_tokens`, then take one token if any is left, stamping the refill
/// instant; deny without mutating otherwise, returning the wait until the
/// next interval, negated. A bucket seen for the first time starts full.
/// `None` as the new bucket means no write.
pub open spec fn spec_token(
    b: Option<BucketVal>,
    max_tokens: u64,
    refill_rate: u64,
    interval: u64,
    arg_now: u64,
) -> (Option<BucketVal>, i64) {
    let st = match b {
        Some(bv) => bv,
        None => BucketVal { tokens: max_tokens, last_refill: arg_now },
    };
    let intervals = spec_sub(arg_now, st.last_refill) as int / interval as int;
    let refilled_full = st.tokens + intervals * refill_rate;
    let refilled: u64 = if refilled_full >= max_tokens {
        max_tokens
    } else {
        refilled_full as u64
    };
    if refilled >= 1 {
        (
            Some(BucketVal { tokens: (refilled - 1) as u64, last_refill: arg_now }),
            to_raw((refilled - 1) as u64),
        )
    } else {
        (None::<BucketVal>, (0 - wait_clamp(st.last_refill + interval - arg_now)) as i64)
    }
}

/// Shape of a well-formed script request: the key and argument counts of its
/// script, and a positive window or interval where one is divided by.
pub open spec fn req_wf(r: ScriptRequest) -> bool {
    match r.script {
        ScriptId::FixedWindow => r.keys@.len() == 1 && r.args@.len() == 1 && r.args@[0] >= 1,
        ScriptId::SlidingWindow => r.keys@.len() == 2 && r.args@.len() == 3 && r.args@[2] >= 1,
        ScriptId::SlidingLogs => r.keys@.len() == 1 && r.args@.len() == 3 && r.args@[2] >= 1,
        ScriptId::TokenBucket => r.keys@.len() == 1 && r.args@.len() == 4 && r.args@[2] >= 1,
    }
}

/// An in-memory store that executes the atomic scripts over plain values.
///
/// It is the reference model of the store contract, and stands in for the
/// remote store wherever one process suffices: every call of `execute` is one
/// indivisible transition, exactly as a server-side script is.
pub struct MemoryStore {
    counters: Table<CounterVal>,
    logs: Table<LogVal>,
    buckets: Table<BucketVal>,
}

impl MemoryStore {
    /// The counters held, by key.
    pub closed spec fn counters_map(self) -> Map<Seq<char>, CounterVal> {
        self.counters@
    }

    /// The request logs held, by key.
    pub closed spec fn logs_map(self) -> Map<Seq<char>, LogView> {
        self.logs@.map_values(
            |l: LogVal| LogView { stamps: l.stamps@, expires_at: l.expires_at },
        )
    }

    /// The token buckets held, by key.
    pub closed spec fn buckets_map(self) -> Map<Seq<char>, BucketVal> {
        self.buckets@
    }

    /// An empty store.
    pub fn new() -> (r: MemoryStore)
        ensures
            r.counters_map() == Map::<Seq<char>, CounterVal>::empty(),
            r.logs_map() == Map::<Seq<char>, LogView>::empty(),
            r.buckets_map() == Map::<Seq<char>, BucketVal>::empty(),
    {
        let r = MemoryStore { counters: Table::new(), logs: Table::new(), buckets: Table::new() };
        proof {
            assert(r.logs_map() =~= Map::<Seq<char>, LogView>::empty());
        }
        r
    }

    /// Reads the live counter value at `key`, as the scripts do.
    fn read_count(&self, key: &String, now: u64) -> (r: u64)
        ensures
            r == spec_count(lookup(self.counters_map(), key@), now),
    {
        match self.counters.get(key.as_str()) {
            Some(c) => {
                if now < c.expires_at {
                    c.value
                } else {
                    0
                }
            },
            None => 0,
        }
    }

    /// One atomic counter increment with creation-time `ttl`.
    fn bump_counter(&mut self, key: &String, ttl: u64, now: u64) -> (r: CounterVal)
        ensures
            r == spec_counter_step(lookup(old(self).counters_map(), key@), now, ttl),
            final(self).counters_map() == old(self).counters_map().insert(key@, r),
            final(self).logs_map() == old(self).logs_map(),
            final(self).buckets_map() == old(self).buckets_map(),
    {
        let cur: Option<CounterVal> = match self.counters.get(key.as_str()) {
            Some(c) => Some(*c),
            None => None,
        };
        let step: CounterVal = match cur {
            Some(c) => {
                if now < c.expires_at {
                    CounterVal {
                        value: if c.value == u64::MAX {
                            u64::MAX
                        } else {
                            c.value + 1
                        },
                        expires_at: c.expires_at,
                    }
                } else {
                    CounterVal { value: 1, expires_at: sat_add_u64(now, ttl) }
                }
            },
            None => CounterVal { value: 1, expires_at: sat_add_u64(now, ttl) },
        };
        self.counters.set(key.clone(), step);
        step
    }

    /// The sliding window script over the two bucket counters.
    fn op_sliding(
        &mut self,
        cur_key: &String,
        prev_key: &String,
        tokens: u64,
        arg_now: u64,
        window: u64,
        now: u64,
    ) -> (raw: i64)
        requires
            window >= 1,
        ensures
            ({
                let (w, r) = spec_sliding(
                    lookup(old(self).counters_map(), cur_key@),
                    lookup(old(self).counters_map(), prev_key@),
                    tokens,
                    arg_now,
                    window,
                    now,
                );
                raw == r && (match w {
                    Some(cv) => final(self).counters_map() == old(self).counters_map().insert(
                        cur_key@,
                        cv,
                    ),
                    None => final(self).counters_map() == old(self).counters_map(),
                })
            }),
            final(self).logs_map() == old(self).logs_map(),
            final(self).buckets_map() == old(self).buckets_map(),
    {
        let c = self.read_count(cur_key, now);
        let p = self.read_count(prev_key, now);
        let rem = window - arg_now % window;
        let weighted_prev = mul_u64(p, rem);
        let scaled_cur = mul_u64(c, window);
        let scaled_tokens = mul_u64(tokens, window);
        let deny = if weighted_prev >= scaled_tokens {
            true
        } else {
            scaled_cur >= scaled_tokens - weighted_prev
        };
        if deny {
            return -1;
        }
        let ttl = sat_add_u64(sat_add_u64(window, window), 1000);
        let step = self.bump_counter(cur_key, ttl, now);
        to_raw_u64(if tokens >= step.value {
            tokens - step.value
        } else {
            0
        })
    }

    /// The sliding log script over the per-caller request log.
    fn op_log(&mut self, key: &String, tokens: u64, arg_now: u64, window: u64, now: u64) -> (raw:
        i64)
        requires
            window >= 1,
        ensures
            ({
                let (w, r) = spec_log(
                    lookup(old(self).logs_map(), key@),
                    tokens,
                    arg_now,
                    window,
                    now,
                );
                raw == r && (match w {
                    Some(lv) => final(self).logs_map() == old(self).logs_map().insert(key@, lv),
                    None => final(self).logs_map() == old(self).logs_map(),
                })
            }),
            final(self).counters_map() == old(self).counters_map(),
            final(self).buckets_map() == old(self).buckets_map(),
    {
        let ghost stamps0 = spec_log_stamps(lookup(self.logs_map(), key@), now);
        let mut kept: Vec<u64> = Vec::new();
        let mut min_kept: u64 = u64::MAX;
        match self.logs.get(key.as_str()) {
            Some(l) => {
                if now < l.expires_at {
                    let n = l.stamps.len();
                    let mut i: usize = 0;
                    while i < n
                        invariant
                            i <= n,
                            n == l.stamps@.len(),
                            stamps0 == l.stamps@,
                            kept@ == spec_survivors(stamps0.take(i as int), window, now),
                            min_kept == spec_min_stamp(kept@),
                        decreases n - i,
                    {
                        let ts = l.stamps[i];
                        proof {
                            reveal(Seq::filter);
                            assert(stamps0.take(i + 1).drop_last() =~= stamps0.take(i as int));
                            assert(stamps0.take(i + 1).last() == stamps0[i as int]);
                        }
                        if (ts as u128) + (window as u128) > (now as u128) {
                            let ghost kept0 = kept@;
                            if ts < min_kept {
                                min_kept = ts;
                            }
                            kept.push(ts);
                            proof {
                                assert(kept0.push(ts).drop_last() =~= kept0);
                                assert(kept0.push(ts).last() == ts);
                            }
                        }
                        i = i + 1;
                    }
                    proof {
                        assert(stamps0.take(n as int) =~= stamps0);
                    }
                } else {
                    proof {
                        reveal(Seq::filter);
                        assert(Seq::<u64>::empty().filter(
                            |ts: u64| survives(ts, window, now),
                        ) =~= Seq::<u64>::empty());
                    }
                }
            },
            None => {
                proof {
                    reveal(Seq::filter);
                    assert(Seq::<u64>::empty().filter(|ts: u64| survives(ts, window, now))
                        =~= Seq::<u64>::empty());
                }
            },
        }
        let count = kept.len();
        if (count as u64) < tokens {
            kept.push(arg_now);
            let lv = LogVal { stamps: kept, expires_at: sat_add_u64(now, window) };
            let ghost lview = LogView { stamps: lv.stamps@, expires_at: lv.expires_at };
            self.logs.set(key.clone(), lv);
            proof {
                assert(final(self).logs_map() =~= old(self).logs_map().insert(key@, lview));
            }
            to_raw_u64(if tokens >= count as u64 + 1 {
                tokens - (count as u64 + 1)
            } else {
                0
            })
        } else {
            0 - wait_until(min_kept, window, now)
        }
    }

    /// Reads the oldest log record still inside the window at `now`,
    /// without mutating: the decision mapping needs it for the sliding log
    /// variant's reset instant.
    pub fn oldest_stamp(&self, key: &String, window: u64, now: u64) -> (r: Option<u64>)
        ensures
            r == spec_oldest(lookup(self.logs_map(), key@), window, now),
    {
        let ghost stamps0 = spec_log_stamps(lookup(self.logs_map(), key@), now);
        let mut count: usize = 0;
        let mut min_kept: u64 = u64::MAX;
        match self.logs.get(key.as_str()) {
            Some(l) => {
                if now < l.expires_at {
                    let n = l.stamps.len();
                    let mut i: usize = 0;
                    while i < n
                        invariant
                            i <= n,
                            n == l.stamps@.len(),
                            stamps0 == l.stamps@,
                            count == spec_survivors(stamps0.take(i as int), window, now).len(),
                            min_kept == spec_min_stamp(
                                spec_survivors(stamps0.take(i as int), window, now),
                            ),
                        decreases n - i,
                    {
                        let ts = l.stamps[i];
                        proof {
                            reveal(Seq::filter);
                            assert(stamps0.take(i + 1).drop_last() =~= stamps0.take(i as int));
                            assert(stamps0.take(i + 1).last() == stamps0[i as int]);
                        }
                        if (ts as u128) + (window as u128) > (now as u128) {
                            let ghost kept0 = spec_survivors(stamps0.take(i as int), window, now);
                            if ts < min_kept {
                                min_kept = ts;
                            }
                            count = count + 1;
                            proof {
                                assert(kept0.push(ts).drop_last() =~= kept0);
                                assert(kept0.push(ts).last() == ts);
                            }
                        }
                        i = i + 1;
                    }
                    proof {
                        assert(stamps0.take(n as int) =~= stamps0);
                    }
                } else {
                    proof {
                        reveal(Seq::filter);
                        assert(Seq::<u64>::empty().filter(
                            |ts: u64| survives(ts, window, now),
                        ) =~= Seq::<u64>::empty());
                    }
                }
            },
            None => {
                proof {
                    reveal(Seq::filter);
                    assert(Seq::<u64>::empty().filter(|ts: u64| survives(ts, window, now))
                        =~= Seq::<u64>::empty());
                }
            },
        }
        if count == 0 {
            None
        } else {
            Some(min_kept)
        }
    }

    /// The token bucket script over the per-caller bucket.
    fn op_token(
        &mut self,
        key: &String,
        max_tokens: u64,
        refill_rate: u64,
        interval: u64,
        arg_now: u64,
    ) -> (raw: i64)
        requires
            interval >= 1,
        ensures
            ({
                let (w, r) = spec_token(
                    lookup(old(self).buckets_map(), key@),
                    max_tokens,
                    refill_rate,
                    interval,
                    arg_now,
                );
                raw == r && (match w {
                    Some(bv) => final(self).buckets_map() == old(self).buckets_map().insert(
                        key@,
                        bv,
                    ),
                    None => final(self).buckets_map() == old(self).buckets_map(),
                })
            }),
            final(self).counters_map() == old(self).counters_map(),
            final(self).logs_map() == old(self).logs_map(),
    {
        let st: BucketVal = match self.buckets.get(key.as_str()) {
            Some(b) => *b,
            None => BucketVal { tokens: max_tokens, last_refill: arg_now },
        };
        let elapsed = if arg_now >= st.last_refill {
            arg_now - st.last_refill
        } else {
            0
        };
        let intervals = elapsed / interval;
        let added = mul_u64(intervals, refill_rate);
        let total = st.tokens as u128 + added;
        let refilled: u64 = if total >= max_tokens as u128 {
            max_tokens
        } else {
            total as u64
        };
        if refilled >= 1 {
            let nb = BucketVal { tokens: refilled - 1, last_refill: arg_now };
            self.buckets.set(key.clone(), nb);
            to_raw_u64(refilled - 1)
        } else {
            0 - wait_until(st.last_refill, interval, arg_now)
        }
    }

    /// Executes one atomic script request against this store, as the remote
    /// store's script engine would, and returns its scalar result.
    pub fn execute(&mut self, req: &ScriptRequest, now: u64) -> (raw: i64)
        requires
            req_wf(*req),
        ensures
            req.script == ScriptId::FixedWindow ==> ({
                let (cv, r) = spec_fixed(
                    lookup(old(self).counters_map(), req.keys@[0]@),
                    req.args@[0],
                    now,
                );
                raw == r && final(self).counters_map() == old(self).counters_map().insert(
                    req.keys@[0]@,
                    cv,
                ) && final(self).logs_map() == old(self).logs_map() && final(self).buckets_map()
                    == old(self).buckets_map()
            }),
            req.script == ScriptId::SlidingWindow ==> ({
                let (w, r) = spec_sliding(
                    lookup(old(self).counters_map(), req.keys@[0]@),
                    lookup(old(self).counters_map(), req.keys@[1]@),
                    req.args@[0],
                    req.args@[1],
                    req.args@[2],
                    now,
                );
                raw == r && (match w {
                    Some(cv) => final(self).counters_map() == old(self).counters_map().insert(
                        req.keys@[0]@,
                        cv,
                    ),
                    None => final(self).counters_map() == old(self).counters_map(),
                }) && final(self).logs_map() == old(self).logs_map() && final(self).buckets_map()
                    == old(self).buckets_map()
            }),
            req.script == ScriptId::SlidingLogs ==> ({
                let (w, r) = spec_log(
                    lookup(old(self).logs_map(), req.keys@[0]@),
                    req.args@[0],
                    req.args@[1],
                    req.args@[2],
                    now,
                );
                raw == r && (match w {
                    Some(lv) => final(self).logs_map() == old(self).logs_map().insert(
                        req.keys@[0]@,
                        lv,
                    ),
                    None => final(self).logs_map() == old(self).logs_map(),
                }) && final(self).counters_map() == old(self).counters_map() && final(self).buckets_map() == old(self).buckets_map()
            }),
            req.script == ScriptId::TokenBucket ==> ({
                let (w, r) = spec_token(
                    lookup(old(self).buckets_map(), req.keys@[0]@),
                    req.args@[0],
                    req.args@[1],
                    req.args@[2],
                    req.args@[3],
                );
                raw == r && (match w {
                    Some(bv) => final(self).buckets_map() == old(self).buckets_map().insert(
                        req.keys@[0]@,
                        bv,
                    ),
                    None => final(self).buckets_map() == old(self).buckets_map(),
                }) && final(self).counters_map() == old(self).counters_map() && final(self).logs_map() == old(self).logs_map()
            }),
    {
        match req.script {
            ScriptId::FixedWindow => {
                let step = self.bump_counter(&req.keys[0], req.args[0], now);
                to_raw_u64(step.value)
            },
            ScriptId::SlidingWindow => {
                let cur_key = &req.keys[0];
                let prev_key = &req.keys[1];
                self.op_sliding(cur_key, prev_key, req.args[0], req.args[1], req.args[2], now)
            },
            ScriptId::SlidingLogs => {
                let key = &req.keys[0];
                self.op_log(key, req.args[0], req.args[1], req.args[2], now)
            },
            ScriptId::TokenBucket => {
                let key = &req.keys[0];
                self.op_token(key, req.args[0], req.args[1], req.args[2], req.args[3])
            },
        }
    }
}

/// The exact product of two machine words.
fn mul_u64(a: u64, b: u64) -> (r: u128)
    ensures
        r == a as int * b as int,
        r <= u64::MAX as int * u64::MAX as int,
{
    proof {
        assert((a as int) * (b as int) <= (u64::MAX as int) * (u64::MAX as int))
            by (nonlinear_arith)
            requires
                a <= u64::MAX,
                b <= u64::MAX,
        ;
    }
    (a as u128) * (b as u128)
}

/// How long from `now` until the instant `base + delta`, clamped to a
/// strictly positive wire integer.
fn wait_until(base: u64, delta: u64, now: u64) -> (r: i64)
    ensures
        r == wait_clamp(base + delta - now),
{
    let target = base as u128 + delta as u128;
    let d = if target > now as u128 {
        target - now as u128
    } else {
        0
    };
    if d < 1 {
        1
    } else if d > i64::MAX as u128 {
        i64::MAX
    } else {
        d as i64
    }
}

/// `a + b`, saturating.
pub fn sat_add_u64(a: u64, b: u64) -> (r: u64)
    ensures
        r == sat_add(a, b),
{
    if a <= u64::MAX - b {
        a + b
    } else {
        u64::MAX
    }
}

/// A non-negative scalar, saturating into the wire integer.
fn to_raw_u64(v: u64) -> (r: i64)
    ensures
        r == to_raw(v),
{
    if v > i64::MAX as u64 {
        i64::MAX
    } else {
        v as i64
    }
}

} // verus!
