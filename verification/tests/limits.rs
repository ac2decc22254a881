use upstash_ratelimit::{
    ConfigError, LimitError, Limiter, MemoryStore, RateLimit, Response, ScriptId,
};

fn fixed(tokens: u64, window: u64) -> RateLimit {
    RateLimit::builder()
        .limiter(Limiter::FixedWindow { tokens, window })
        .build()
        .unwrap()
}

fn sliding(tokens: u64, window: u64) -> RateLimit {
    RateLimit::builder()
        .limiter(Limiter::SlidingWindow { tokens, window })
        .build()
        .unwrap()
}

#[test]
fn test_minimal_fixed_window() {
    let ratelimit = RateLimit::builder()
        .limiter(Limiter::FixedWindow {
            tokens: 5,
            window: 100,
        })
        .build()
        .unwrap();

    let mut store = MemoryStore::new();
    let result = ratelimit.limit(&mut store, "test", 0).unwrap();

    match result {
        Response::Success { .. } => {
            assert!(true)
        }
        Response::Failure { .. } => {
            assert!(false)
        }
    }
}

#[test]
fn test_minimal_sliding_window() {
    let ratelimit = RateLimit::builder()
        .limiter(Limiter::SlidingWindow {
            tokens: 5,
            window: 100,
        })
        .build()
        .unwrap();

    let mut store = MemoryStore::new();
    let result = ratelimit.limit(&mut store, "test", 0).unwrap();

    match result {
        Response::Success { .. } => {
            assert!(true)
        }
        Response::Failure { .. } => {
            assert!(false)
        }
    }
}

#[test]
fn test_fixed_window_admission_bound() {
    // Ten sequential calls inside one bucket with five tokens: exactly five
    // admitted, five denied, headroom counting down, reset at the bucket end.
    let rl = fixed(5, 100);
    let mut store = MemoryStore::new();
    for i in 0..10u64 {
        let r = rl.limit(&mut store, "user", 1000 + i).unwrap();
        if i < 5 {
            assert_eq!(
                r,
                Response::Success {
                    remaining: 4 - i,
                    reset: 1100
                }
            );
        } else {
            assert_eq!(r, Response::Failure { reset: 1100 });
        }
    }
}

#[test]
fn test_concurrent_callers_share_quota() {
    // Eight contending callers, five tokens: the atomic store serializes
    // them, so exactly five are admitted and three denied, whatever the
    // interleaving order was.
    let rl = fixed(5, 100);
    let mut store = MemoryStore::new();
    let mut admitted = 0;
    let mut denied = 0;
    for i in 0..8u64 {
        match rl.limit(&mut store, "shared", 500 + i).unwrap() {
            Response::Success { .. } => admitted += 1,
            Response::Failure { .. } => denied += 1,
        }
    }
    assert_eq!(admitted, 5);
    assert_eq!(denied, 3);
}

#[test]
fn test_bucket_rollover() {
    // Exhaust five tokens in a 10 ms window, wait 15 ms: the next bucket
    // admits again.
    let rl = fixed(5, 10);
    let mut store = MemoryStore::new();
    for _ in 0..5 {
        let r = rl.limit(&mut store, "test", 100).unwrap();
        assert!(matches!(r, Response::Success { .. }));
    }
    assert_eq!(
        rl.limit(&mut store, "test", 100).unwrap(),
        Response::Failure { reset: 110 }
    );
    let r = rl.limit(&mut store, "test", 115).unwrap();
    assert_eq!(
        r,
        Response::Success {
            remaining: 4,
            reset: 120
        }
    );
}

#[test]
fn test_separate_identifiers_do_not_contend() {
    let rl = fixed(1, 100);
    let mut store = MemoryStore::new();
    assert!(matches!(
        rl.limit(&mut store, "alice", 10).unwrap(),
        Response::Success { .. }
    ));
    assert!(matches!(
        rl.limit(&mut store, "bob", 11).unwrap(),
        Response::Success { .. }
    ));
    assert!(matches!(
        rl.limit(&mut store, "alice", 12).unwrap(),
        Response::Failure { .. }
    ));
}

#[test]
fn test_sliding_window_boundary() {
    // Five admissions late in bucket 9; just across the boundary the
    // previous bucket still weighs in, so the sixth request squeaks through
    // only while the weighted estimate stays under five.
    let rl = sliding(5, 100);
    let mut store = MemoryStore::new();
    for i in 0..5u64 {
        let r = rl.limit(&mut store, "test", 950 + i).unwrap();
        assert_eq!(
            r,
            Response::Success {
                remaining: 4 - i,
                reset: 1000
            }
        );
    }
    // Sixth call in the same bucket: estimate 5 >= 5, denied.
    assert_eq!(
        rl.limit(&mut store, "test", 955).unwrap(),
        Response::Failure { reset: 1000 }
    );
    // At 1001: estimate is 5 * 0.99 = 4.95 < 5, admitted.
    assert_eq!(
        rl.limit(&mut store, "test", 1001).unwrap(),
        Response::Success {
            remaining: 4,
            reset: 1100
        }
    );
    // At 1002: estimate is 5 * 0.98 + 1 = 5.9 >= 5, denied.
    assert_eq!(
        rl.limit(&mut store, "test", 1002).unwrap(),
        Response::Failure { reset: 1100 }
    );
    // Mid-bucket at 1080: estimate is 5 * 0.2 + 1 = 2 < 5, admitted.
    assert_eq!(
        rl.limit(&mut store, "test", 1080).unwrap(),
        Response::Success {
            remaining: 3,
            reset: 1100
        }
    );
}

#[test]
fn test_sliding_log_exact_boundaries() {
    let rl = RateLimit::builder()
        .limiter(Limiter::SlidingLogs {
            tokens: 2,
            window: 100,
        })
        .build()
        .unwrap();
    let mut store = MemoryStore::new();
    assert_eq!(
        rl.limit(&mut store, "test", 1000).unwrap(),
        Response::Success {
            remaining: 1,
            reset: 1100
        }
    );
    // The second admission still resets when the oldest record, from 1000,
    // leaves the window.
    assert_eq!(
        rl.limit(&mut store, "test", 1010).unwrap(),
        Response::Success {
            remaining: 0,
            reset: 1100
        }
    );
    // Denied: the oldest record leaves the window at 1000 + 100.
    assert_eq!(
        rl.limit(&mut store, "test", 1020).unwrap(),
        Response::Failure { reset: 1100 }
    );
    // At 1101 the record from 1000 is evicted; one slot is free again, and
    // the oldest survivor is now the record from 1010.
    assert_eq!(
        rl.limit(&mut store, "test", 1101).unwrap(),
        Response::Success {
            remaining: 0,
            reset: 1110
        }
    );
}

#[test]
fn test_token_bucket_drain_and_refill() {
    let rl = RateLimit::builder()
        .limiter(Limiter::TokenBucket {
            refill_rate: 1,
            interval: 100,
            max_tokens: 3,
        })
        .build()
        .unwrap();
    let mut store = MemoryStore::new();
    // A fresh bucket starts full; three requests drain it.
    assert_eq!(
        rl.limit(&mut store, "test", 1000).unwrap(),
        Response::Success {
            remaining: 2,
            reset: 1100
        }
    );
    assert_eq!(
        rl.limit(&mut store, "test", 1001).unwrap(),
        Response::Success {
            remaining: 1,
            reset: 1101
        }
    );
    assert_eq!(
        rl.limit(&mut store, "test", 1002).unwrap(),
        Response::Success {
            remaining: 0,
            reset: 1102
        }
    );
    // Empty, mid-interval: denied until the interval after the last refill.
    assert_eq!(
        rl.limit(&mut store, "test", 1003).unwrap(),
        Response::Failure { reset: 1102 }
    );
    // Two whole intervals idle: exactly two tokens back, one spent here.
    assert_eq!(
        rl.limit(&mut store, "test", 1250).unwrap(),
        Response::Success {
            remaining: 1,
            reset: 1350
        }
    );
}

#[test]
fn test_token_bucket_never_exceeds_max() {
    // However long the bucket sits idle, it refills to max_tokens and no
    // further.
    let rl = RateLimit::builder()
        .limiter(Limiter::TokenBucket {
            refill_rate: 7,
            interval: 10,
            max_tokens: 3,
        })
        .build()
        .unwrap();
    let mut store = MemoryStore::new();
    // Drain the fresh bucket.
    for remaining in [2u64, 1, 0] {
        match rl.limit(&mut store, "idler", 1000).unwrap() {
            Response::Success { remaining: r, .. } => assert_eq!(r, remaining),
            other => panic!("unexpected denial: {:?}", other),
        }
    }
    // An enormous idle stretch refills to 3, not 7 per interval forever.
    assert_eq!(
        rl.limit(&mut store, "idler", 10_000_000).unwrap(),
        Response::Success {
            remaining: 2,
            reset: 10_000_010
        }
    );
}

#[test]
fn test_fail_open_with_timeout() {
    // With a timeout configured, a store failure admits the request.
    let rl = RateLimit::builder()
        .limiter(Limiter::FixedWindow {
            tokens: 5,
            window: 100,
        })
        .timeout(50)
        .build()
        .unwrap();
    assert_eq!(
        rl.settle(1020, None, None).unwrap(),
        Response::Success {
            remaining: 0,
            reset: 1100
        }
    );
}

#[test]
fn test_store_failure_without_timeout() {
    let rl = fixed(5, 100);
    assert_eq!(rl.settle(1020, None, None), Err(LimitError::StoreUnavailable));
}

#[test]
fn test_malformed_scalar_is_store_failure() {
    // A fixed window script can never answer zero; the malformed answer is
    // treated exactly like an unreachable store.
    let rl = fixed(5, 100);
    assert_eq!(rl.settle(1020, Some(0), None), Err(LimitError::StoreUnavailable));
    let rl_open = RateLimit::builder()
        .limiter(Limiter::FixedWindow {
            tokens: 5,
            window: 100,
        })
        .timeout(50)
        .build()
        .unwrap();
    assert_eq!(
        rl_open.settle(1020, Some(0), None).unwrap(),
        Response::Success {
            remaining: 0,
            reset: 1100
        }
    );
}

#[test]
fn test_empty_identifier_rejected() {
    let rl = fixed(5, 100);
    let mut store = MemoryStore::new();
    assert_eq!(
        rl.limit(&mut store, "", 1000),
        Err(LimitError::InvalidIdentifier)
    );
}

#[test]
fn test_builder_requires_limiter() {
    assert_eq!(
        RateLimit::builder().build().unwrap_err(),
        ConfigError::NoLimiter
    );
}

#[test]
fn test_builder_rejects_zero_durations() {
    assert_eq!(
        RateLimit::builder()
            .limiter(Limiter::FixedWindow {
                tokens: 5,
                window: 0
            })
            .build()
            .unwrap_err(),
        ConfigError::NonPositiveWindow
    );
    assert_eq!(
        RateLimit::builder()
            .limiter(Limiter::TokenBucket {
                refill_rate: 1,
                interval: 0,
                max_tokens: 3
            })
            .build()
            .unwrap_err(),
        ConfigError::NonPositiveWindow
    );
    assert_eq!(
        RateLimit::builder()
            .limiter(Limiter::TokenBucket {
                refill_rate: 0,
                interval: 100,
                max_tokens: 3
            })
            .build()
            .unwrap_err(),
        ConfigError::NonPositiveRate
    );
}

#[test]
fn test_key_scheme() {
    // Default prefix, identifier and decimal bucket index on the wire.
    let rl = fixed(5, 100);
    let req = rl.plan("test", 123_456).unwrap();
    assert_eq!(req.script, ScriptId::FixedWindow);
    assert_eq!(req.keys, vec!["@upstash/ratelimit:test:1234".to_string()]);
    assert_eq!(req.args, vec![100]);

    let custom = RateLimit::builder()
        .limiter(Limiter::SlidingWindow {
            tokens: 7,
            window: 100,
        })
        .prefix("app".to_string())
        .build()
        .unwrap();
    let req = custom.plan("user-1", 250).unwrap();
    assert_eq!(req.script, ScriptId::SlidingWindow);
    assert_eq!(
        req.keys,
        vec!["app:user-1:2".to_string(), "app:user-1:1".to_string()]
    );
    assert_eq!(req.args, vec![7, 250, 100]);
}

#[test]
fn test_sliding_window_first_bucket_has_no_previous_key() {
    let rl = sliding(5, 100);
    let req = rl.plan("test", 42).unwrap();
    assert_eq!(
        req.keys,
        vec!["@upstash/ratelimit:test:0".to_string(), String::new()]
    );
}

#[test]
fn test_per_caller_keys() {
    let rl = RateLimit::builder()
        .limiter(Limiter::SlidingLogs {
            tokens: 2,
            window: 100,
        })
        .build()
        .unwrap();
    let req = rl.plan("test", 1000).unwrap();
    assert_eq!(req.script, ScriptId::SlidingLogs);
    assert_eq!(req.keys, vec!["@upstash/ratelimit:test".to_string()]);
    assert_eq!(req.args, vec![2, 1000, 100]);

    let tb = RateLimit::builder()
        .limiter(Limiter::TokenBucket {
            refill_rate: 1,
            interval: 100,
            max_tokens: 3,
        })
        .build()
        .unwrap();
    let req = tb.plan("test", 1000).unwrap();
    assert_eq!(req.script, ScriptId::TokenBucket);
    assert_eq!(req.keys, vec!["@upstash/ratelimit:test".to_string()]);
    assert_eq!(req.args, vec![3, 1, 100, 1000]);
}
