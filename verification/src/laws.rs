//! Laws of the rate-limiting algorithms, proved against the script
//! transitions and the decision mapping.
//!
//! Concurrency note: the store executes each script as one indivisible unit,
//! so any interleaving of concurrent callers is some sequence of whole
//! transitions. A law quantified over an arbitrary sequence of calls
//! therefore covers every interleaving.

use vstd::prelude::*;

use crate::keys::spec_counter_key;
use crate::store::{counter_alive, lookup, spec_count, spec_counter_step, CounterVal};
use crate::{spec_fail_open, spec_limit, spec_settle, spec_window_reset, Limiter, Response};

verus! {

/// The smaller of two integers.
pub open spec fn spec_min(a: int, b: int) -> int {
    if a < b {
        a
    } else {
        b
    }
}

/// A sequence of call instants that all land in fixed window bucket `b`, in
/// order, and fit the clock.
pub open spec fn fw_bucket_calls(times: Seq<u64>, window: u64, b: u64) -> bool {
    &&& forall|i: int|
        0 <= i < times.len() ==> #[trigger] times[i] as int / window as int == b as int
    &&& forall|i: int| 0 <= i < times.len() - 1 ==> #[trigger] times[i] <= times[i + 1]
    &&& forall|i: int| 0 <= i < times.len() ==> #[trigger] times[i] + window <= u64::MAX
}

/// The bucket counter after a sequence of fixed window calls, starting from
/// an untouched bucket key.
pub open spec fn fw_state_after(times: Seq<u64>, window: u64) -> Option<CounterVal>
    decreases times.len(),
{
    if times.len() == 0 {
        None::<CounterVal>
    } else {
        Some(spec_counter_step(fw_state_after(times.drop_last(), window), times.last(), window))
    }
}

/// How many of the calls are admitted: a call is admitted exactly when the
/// count right after its increment is at most `tokens`.
pub open spec fn fw_admitted_count(times: Seq<u64>, window: u64, tokens: u64) -> int
    decreases times.len(),
{
    if times.len() == 0 {
        0
    } else {
        fw_admitted_count(times.drop_last(), window, tokens) + if spec_counter_step(
            fw_state_after(times.drop_last(), window),
            times.last(),
            window,
        ).value <= tokens {
            1int
        } else {
            0int
        }
    }
}

/// Admission bound of the fixed window: over any sequence of calls landing
/// in one bucket — hence over every interleaving of concurrent callers of an
/// atomic store — the counter equals the number of calls made, and exactly
/// `min(calls, tokens)` of them are admitted: never more than `tokens`.
pub proof fn lemma_fixed_window_admission_bound(times: Seq<u64>, window: u64, tokens: u64, b: u64)
    requires
        window >= 1,
        fw_bucket_calls(times, window, b),
        times.len() <= i64::MAX,
    ensures
        times.len() == 0 ==> fw_state_after(times, window) is None,
        times.len() >= 1 ==> fw_state_after(times, window) == Some(
            CounterVal { value: times.len() as u64, expires_at: (times[0] + window) as u64 },
        ),
        fw_admitted_count(times, window, tokens) == spec_min(times.len() as int, tokens as int),
    decreases times.len(),
{
    if times.len() > 0 {
        let front = times.drop_last();
        let t = times.last();
        assert(fw_bucket_calls(front, window, b));
        lemma_fixed_window_admission_bound(front, window, tokens, b);
        vstd::arithmetic::div_mod::lemma_fundamental_div_mod(t as int, window as int);
        vstd::arithmetic::div_mod::lemma_mod_bound(t as int, window as int);
        if front.len() > 0 {
            let t0 = front[0];
            vstd::arithmetic::div_mod::lemma_fundamental_div_mod(t0 as int, window as int);
            vstd::arithmetic::div_mod::lemma_mod_bound(t0 as int, window as int);
            assert(t < t0 + window);
        }
    }
}

/// A fixed window count maps to the public decision exactly: the call is
/// admitted, with the headroom left, while the post-increment count is
/// within `tokens`, and denied past it; either way the quota returns when
/// the bucket ends.
pub proof fn lemma_fixed_window_decision(
    tokens: u64,
    window: u64,
    timeout: Option<u64>,
    now: u64,
    value: u64,
)
    requires
        window >= 1,
        1 <= value <= i64::MAX,
    ensures
        ({
            let res = spec_settle(
                Limiter::FixedWindow { tokens, window },
                timeout,
                now,
                Some(crate::store::to_raw(value)),
                None,
            );
            if value <= tokens {
                res == Ok::<Response, crate::LimitError>(
                    Response::Success {
                        remaining: (tokens - value) as u64,
                        reset: spec_window_reset(now, window),
                    },
                )
            } else {
                res == Ok::<Response, crate::LimitError>(
                    Response::Failure { reset: spec_window_reset(now, window) },
                )
            }
        }),
{
}

/// Concurrency safety of the fixed window: with more contending calls than
/// tokens in one bucket, exactly `tokens` are admitted and the rest denied,
/// whatever the interleaving — each call is one atomic store transition.
pub proof fn lemma_concurrency_exact_admissions(times: Seq<u64>, window: u64, tokens: u64, b: u64)
    requires
        window >= 1,
        fw_bucket_calls(times, window, b),
        times.len() <= i64::MAX,
        tokens < times.len(),
    ensures
        fw_admitted_count(times, window, tokens) == tokens as int,
        times.len() - fw_admitted_count(times, window, tokens) == times.len() - tokens as int,
{
    lemma_fixed_window_admission_bound(times, window, tokens, b);
}

/// The store's counters and the count of admitted decisions after a whole
/// sequence of fixed window `limit` calls for one identifier.
pub open spec fn fw_run(
    prefix: Seq<char>,
    timeout: Option<u64>,
    cs: Map<Seq<char>, CounterVal>,
    ls: Map<Seq<char>, crate::LogView>,
    bs: Map<Seq<char>, crate::BucketVal>,
    id: Seq<char>,
    tokens: u64,
    window: u64,
    times: Seq<u64>,
) -> (Map<Seq<char>, CounterVal>, int)
    decreases times.len(),
{
    if times.len() == 0 {
        (cs, 0)
    } else {
        let (cs1, n1) = fw_run(prefix, timeout, cs, ls, bs, id, tokens, window, times.drop_last());
        let (cs2, ls2, bs2, res) = spec_limit(
            Limiter::FixedWindow { tokens, window },
            prefix,
            timeout,
            cs1,
            ls,
            bs,
            id,
            times.last(),
        );
        (
            cs2,
            n1 + if res is Ok && res->Ok_0 is Success {
                1int
            } else {
                0int
            },
        )
    }
}

/// Admission bound of the whole pipeline: a sequence of fixed window
/// `limit` calls landing in one untouched bucket admits exactly
/// `min(calls, tokens)` requests — key scheme, script and decision mapping
/// together, over every interleaving of atomic calls.
pub proof fn lemma_fixed_window_limit_run(
    prefix: Seq<char>,
    timeout: Option<u64>,
    cs: Map<Seq<char>, CounterVal>,
    ls: Map<Seq<char>, crate::LogView>,
    bs: Map<Seq<char>, crate::BucketVal>,
    id: Seq<char>,
    tokens: u64,
    window: u64,
    times: Seq<u64>,
    b: u64,
)
    requires
        window >= 1,
        id.len() >= 1,
        tokens <= i64::MAX,
        times.len() <= i64::MAX,
        fw_bucket_calls(times, window, b),
        lookup(cs, spec_counter_key(prefix, id, b as int)) is None,
    ensures
        ({
            let (cs_end, admitted) = fw_run(
                prefix,
                timeout,
                cs,
                ls,
                bs,
                id,
                tokens,
                window,
                times,
            );
            &&& admitted == spec_min(times.len() as int, tokens as int)
            &&& times.len() >= 1 ==> lookup(cs_end, spec_counter_key(prefix, id, b as int))
                == Some(
                CounterVal { value: times.len() as u64, expires_at: (times[0] + window) as u64 },
            )
            &&& times.len() == 0 ==> cs_end == cs
        }),
    decreases times.len(),
{
    if times.len() > 0 {
        let front = times.drop_last();
        let t = times.last();
        assert(fw_bucket_calls(front, window, b));
        lemma_fixed_window_limit_run(prefix, timeout, cs, ls, bs, id, tokens, window, front, b);
        vstd::arithmetic::div_mod::lemma_fundamental_div_mod(t as int, window as int);
        vstd::arithmetic::div_mod::lemma_mod_bound(t as int, window as int);
        if front.len() > 0 {
            let t0 = front[0];
            vstd::arithmetic::div_mod::lemma_fundamental_div_mod(t0 as int, window as int);
            vstd::arithmetic::div_mod::lemma_mod_bound(t0 as int, window as int);
            assert(t < t0 + window);
        }
    }
}

/// Bucket rollover of the fixed window: at an instant whose bucket key holds
/// no live counter — as on the first call after a bucket boundary — a caller
/// is admitted again, with the full quota minus this request.
pub proof fn lemma_bucket_rollover(
    cs: Map<Seq<char>, CounterVal>,
    ls: Map<Seq<char>, crate::LogView>,
    bs: Map<Seq<char>, crate::BucketVal>,
    prefix: Seq<char>,
    id: Seq<char>,
    timeout: Option<u64>,
    tokens: u64,
    window: u64,
    now: u64,
)
    requires
        window >= 1,
        1 <= tokens <= i64::MAX,
        id.len() >= 1,
        !counter_alive(
            lookup(cs, spec_counter_key(prefix, id, now as int / window as int)),
            now,
        ),
    ensures
        ({
            let (cs2, ls2, bs2, res) = spec_limit(
                Limiter::FixedWindow { tokens, window },
                prefix,
                timeout,
                cs,
                ls,
                bs,
                id,
                now,
            );
            res == Ok::<Response, crate::LimitError>(
                Response::Success {
                    remaining: (tokens - 1) as u64,
                    reset: spec_window_reset(now, window),
                },
            )
        }),
{
}

/// Sliding window admission: a request is admitted — and the counter
/// written — exactly when the weighted estimate, the previous bucket scaled
/// by the window fraction it still covers plus the current bucket, stays
/// under `tokens`. Hence the current counter never grows past `tokens`, and
/// what a boundary-crossing burst can exceed a single fixed window by is
/// bounded by the weighted share of the previous bucket: the variant's
/// documented slack.
pub proof fn lemma_sliding_window_admission(
    cur: Option<CounterVal>,
    prev: Option<CounterVal>,
    tokens: u64,
    arg_now: u64,
    window: u64,
    now: u64,
)
    requires
        window >= 1,
    ensures
        ({
            let (w, raw) = crate::store::spec_sliding(cur, prev, tokens, arg_now, window, now);
            &&& (w is Some <==> raw >= 0)
            &&& w is Some ==> spec_count(prev, now) * (window - arg_now % window) + spec_count(
                cur,
                now,
            ) * window < tokens * window
            &&& w is Some ==> spec_count(cur, now) < tokens
            &&& w is Some ==> w->Some_0.value <= tokens
        }),
{
    let c = spec_count(cur, now);
    let p = spec_count(prev, now);
    if !crate::store::sliding_denies(c, p, tokens, arg_now, window) {
        vstd::arithmetic::div_mod::lemma_mod_bound(arg_now as int, window as int);
        assert(c < tokens) by (nonlinear_arith)
            requires
                p * (window - arg_now % window) + c * window < tokens * window,
                p >= 0,
                window >= 1,
                0 <= arg_now % window < window,
        ;
    }
}

/// A sequence whose every entry is still inside the window is its own set
/// of survivors.
proof fn lemma_survivors_all(s: Seq<u64>, window: u64, now: u64)
    requires
        forall|i: int| 0 <= i < s.len() ==> s[i] + window > now,
    ensures
        crate::store::spec_survivors(s, window, now) == s,
    decreases s.len(),
{
    reveal(Seq::filter);
    if s.len() > 0 {
        lemma_survivors_all(s.drop_last(), window, now);
        assert(crate::store::spec_survivors(s, window, now) =~= s);
    } else {
        assert(crate::store::spec_survivors(s, window, now) =~= s);
    }
}

/// Sliding log reset on admission: the decision an admitted request maps to
/// resets exactly when the oldest record of the post-operation log — the
/// just-evicted survivors plus the new entry — leaves the window, with the
/// remaining quota the script returned. Away from the very top of the clock,
/// where the fresh log's expiry saturates.
pub proof fn lemma_sliding_log_admit_reset(
    l: Option<crate::LogView>,
    tokens: u64,
    timeout: Option<u64>,
    window: u64,
    now: u64,
)
    requires
        window >= 1,
        now + window <= u64::MAX,
    ensures
        ({
            let (w, raw) = crate::store::spec_log(l, tokens, now, window, now);
            w is Some ==> ({
                let lv = w->Some_0;
                spec_settle(
                    Limiter::SlidingLogs { tokens, window },
                    timeout,
                    now,
                    Some(raw),
                    crate::store::spec_oldest(Some(lv), window, now),
                ) == Ok::<Response, crate::LimitError>(
                    Response::Success {
                        remaining: raw as u64,
                        reset: (crate::store::spec_min_stamp(lv.stamps) + window) as u64,
                    },
                )
            })
        }),
{
    let (w, raw) = crate::store::spec_log(l, tokens, now, window, now);
    if w is Some {
        let kept = crate::store::spec_survivors(
            crate::store::spec_log_stamps(l, now),
            window,
            now,
        );
        let lv = w->Some_0;
        assert forall|i: int| 0 <= i < lv.stamps.len() implies lv.stamps[i] + window > now by {
            if i < kept.len() {
                crate::store::spec_log_stamps(l, now).lemma_filter_pred(
                    |ts: u64| crate::store::survives(ts, window, now),
                    i,
                );
            }
        }
        lemma_survivors_all(lv.stamps, window, now);
        assert(crate::store::spec_min_stamp(lv.stamps) + window <= u64::MAX) by {
            lemma_min_is_member(lv.stamps);
        }
    }
}

/// The smallest stamp of a non-empty sequence is one of its entries.
proof fn lemma_min_is_member(s: Seq<u64>)
    requires
        s.len() >= 1,
    ensures
        exists|i: int| 0 <= i < s.len() && s[i] == crate::store::spec_min_stamp(s),
    decreases s.len(),
{
    if s.len() == 1 {
        assert(s[0] == crate::store::spec_min_stamp(s));
    } else {
        let front = s.drop_last();
        lemma_min_is_member(front);
        if s.last() < crate::store::spec_min_stamp(front) {
            assert(s[s.len() - 1] == crate::store::spec_min_stamp(s));
        } else {
            let i = choose|i: int|
                0 <= i < front.len() && front[i] == crate::store::spec_min_stamp(front);
            assert(s[i] == crate::store::spec_min_stamp(s));
        }
    }
}

/// Token bucket conservation: however long a bucket has sat idle, the
/// refilled amount never exceeds `max_tokens`, and after `n` whole idle
/// intervals it never exceeds the stored tokens plus `n * refill_rate`; an
/// admitted request takes one token from that amount, so the stored tokens
/// stay strictly below `max_tokens`.
pub proof fn lemma_token_bucket_conservation(
    b: Option<crate::BucketVal>,
    max_tokens: u64,
    refill_rate: u64,
    interval: u64,
    arg_now: u64,
)
    requires
        interval >= 1,
    ensures
        ({
            let st = match b {
                Some(bv) => bv,
                None => crate::BucketVal { tokens: max_tokens, last_refill: arg_now },
            };
            let n = crate::store::spec_sub(arg_now, st.last_refill) as int / interval as int;
            let (w, raw) = crate::store::spec_token(b, max_tokens, refill_rate, interval, arg_now);
            &&& raw >= 0 ==> raw < max_tokens
            &&& raw >= 0 ==> raw < st.tokens + n * refill_rate
            &&& w is Some ==> w->Some_0.tokens < max_tokens
            &&& w is None ==> raw < 0
        }),
{
}

/// The sliding window counter after a sequence of calls in one bucket,
/// starting from an untouched bucket key; `prevs[i]` is whatever call `i`
/// reads at the previous bucket's key, left arbitrary since expiry may
/// overtake that counter between calls.
pub open spec fn sw_state_after(
    times: Seq<u64>,
    prevs: Seq<Option<CounterVal>>,
    tokens: u64,
    window: u64,
) -> Option<CounterVal>
    decreases times.len(),
{
    if times.len() == 0 {
        None::<CounterVal>
    } else {
        let prior = sw_state_after(times.drop_last(), prevs.drop_last(), tokens, window);
        let (w, raw) = crate::store::spec_sliding(
            prior,
            prevs.last(),
            tokens,
            times.last(),
            window,
            times.last(),
        );
        match w {
            Some(cv) => Some(cv),
            None => prior,
        }
    }
}

/// How many of the sliding window calls are admitted.
pub open spec fn sw_admitted_count(
    times: Seq<u64>,
    prevs: Seq<Option<CounterVal>>,
    tokens: u64,
    window: u64,
) -> int
    decreases times.len(),
{
    if times.len() == 0 {
        0
    } else {
        let prior = sw_state_after(times.drop_last(), prevs.drop_last(), tokens, window);
        let (w, raw) = crate::store::spec_sliding(
            prior,
            prevs.last(),
            tokens,
            times.last(),
            window,
            times.last(),
        );
        sw_admitted_count(times.drop_last(), prevs.drop_last(), tokens, window) + if w is Some {
            1int
        } else {
            0int
        }
    }
}

/// Sliding window bucket bound: over any sequence of calls landing in one
/// bucket, whatever each of them read at the previous bucket's key, the
/// current counter equals the number of admissions and never exceeds
/// `tokens`. Two adjacent buckets therefore admit at most `2 * tokens`
/// across a boundary-crossing burst: at most `tokens` beyond a single fixed
/// window, the approximation's documented slack.
pub proof fn lemma_sliding_window_bucket_bound(
    times: Seq<u64>,
    prevs: Seq<Option<CounterVal>>,
    tokens: u64,
    window: u64,
    b: u64,
)
    requires
        window >= 1,
        fw_bucket_calls(times, window, b),
        prevs.len() == times.len(),
        times.len() <= i64::MAX,
    ensures
        ({
            let state = sw_state_after(times, prevs, tokens, window);
            let admitted = sw_admitted_count(times, prevs, tokens, window);
            &&& admitted <= tokens
            &&& admitted <= times.len()
            &&& match state {
                Some(cv) => cv.value == admitted && cv.expires_at >= (b + 1) * window,
                None => admitted == 0,
            }
        }),
    decreases times.len(),
{
    if times.len() > 0 {
        let front_t = times.drop_last();
        let front_p = prevs.drop_last();
        let t = times.last();
        assert(fw_bucket_calls(front_t, window, b));
        lemma_sliding_window_bucket_bound(front_t, front_p, tokens, window, b);
        vstd::arithmetic::div_mod::lemma_fundamental_div_mod(t as int, window as int);
        vstd::arithmetic::div_mod::lemma_mod_bound(t as int, window as int);
        let prior = sw_state_after(front_t, front_p, tokens, window);
        lemma_sliding_window_admission(prior, prevs.last(), tokens, t, window, t);
        assert((b + 1) * window == b * window + window) by (nonlinear_arith);
    }
}

/// The reset instant of every decision — admitted, denied, or failed open —
/// is never in the past relative to the request, given that the oldest
/// surviving log record handed in is indeed still inside the window, as
/// `limit` guarantees of the one it reads from the store.
pub proof fn lemma_reset_never_past(
    l: Limiter,
    timeout: Option<u64>,
    now: u64,
    outcome: Option<i64>,
    oldest: Option<u64>,
)
    requires
        crate::limiter_wf(l),
        match (l, oldest) {
            (Limiter::SlidingLogs { tokens, window }, Some(ts)) => ts + window > now,
            _ => true,
        },
    ensures
        ({
            match spec_settle(l, timeout, now, outcome, oldest) {
                Ok(Response::Success { remaining, reset }) => reset >= now,
                Ok(Response::Failure { reset }) => reset >= now,
                Err(e) => true,
            }
        }),
{
    match l {
        Limiter::FixedWindow { tokens, window } => {
            lemma_window_reset_after(now, window);
        },
        Limiter::SlidingWindow { tokens, window } => {
            lemma_window_reset_after(now, window);
        },
        Limiter::SlidingLogs { tokens, window } => {},
        Limiter::TokenBucket { refill_rate, interval, max_tokens } => {},
    }
}

/// The end of the current window does not precede the request's instant
/// (at the clock's very top the saturated reset equals it).
proof fn lemma_window_reset_after(now: u64, window: u64)
    requires
        window >= 1,
    ensures
        spec_window_reset(now, window) >= now,
{
    vstd::arithmetic::div_mod::lemma_fundamental_div_mod(now as int, window as int);
    vstd::arithmetic::div_mod::lemma_mod_bound(now as int, window as int);
    assert((now as int / window as int) * (window as int) == (window as int) * (now as int
        / window as int)) by (nonlinear_arith);
}

/// Fail-open: with a timeout configured, a store that cannot answer — too
/// slow, unreachable, or malformed — yields an admitted decision instead of
/// an error, for every variant.
pub proof fn lemma_fail_open_admits(l: Limiter, timeout_ms: u64, now: u64, oldest: Option<u64>)
    ensures
        spec_settle(l, Some(timeout_ms), now, None, oldest) == Ok::<Response, crate::LimitError>(
            spec_fail_open(l, now),
        ),
        spec_fail_open(l, now) is Success,
{
}

} // verus!
