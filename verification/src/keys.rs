//! Key scheme: deterministic storage keys encoding a caller and a time bucket.
//!
//! Window-based variants use `{prefix}:{identifier}:{bucket}`; the sliding
//! log and token bucket variants use `{prefix}:{identifier}`.

use vstd::prelude::*;

verus! {

/// The digit character for one decimal digit.
pub open spec fn spec_digit(d: int) -> char {
    if d == 0 {
        '0'
    } else if d == 1 {
        '1'
    } else if d == 2 {
        '2'
    } else if d == 3 {
        '3'
    } else if d == 4 {
        '4'
    } else if d == 5 {
        '5'
    } else if d == 6 {
        '6'
    } else if d == 7 {
        '7'
    } else if d == 8 {
        '8'
    } else {
        '9'
    }
}

/// The decimal rendering of `n`, most significant digit first.
pub open spec fn spec_decimal(n: int) -> Seq<char>
    decreases n,
{
    if n < 10 {
        seq![spec_digit(n)]
    } else {
        spec_decimal(n / 10).push(spec_digit(n % 10))
    }
}

/// Renders one decimal digit as a string.
fn digit_str(d: u64) -> (r: &'static str)
    requires
        d < 10,
    ensures
        r@ == seq![spec_digit(d as int)],
{
    proof {
        reveal_strlit("0");
        reveal_strlit("1");
        reveal_strlit("2");
        reveal_strlit("3");
        reveal_strlit("4");
        reveal_strlit("5");
        reveal_strlit("6");
        reveal_strlit("7");
        reveal_strlit("8");
        reveal_strlit("9");
    }
    if d == 0 {
        "0"
    } else if d == 1 {
        "1"
    } else if d == 2 {
        "2"
    } else if d == 3 {
        "3"
    } else if d == 4 {
        "4"
    } else if d == 5 {
        "5"
    } else if d == 6 {
        "6"
    } else if d == 7 {
        "7"
    } else if d == 8 {
        "8"
    } else {
        "9"
    }
}

/// Renders `n` in decimal.
pub fn decimal_string(n: u64) -> (r: String)
    ensures
        r@ == spec_decimal(n as int),
    decreases n,
{
    if n < 10 {
        digit_str(n).to_owned()
    } else {
        let high = decimal_string(n / 10);
        high.concat(digit_str(n % 10))
    }
}

/// The separator between key components.
pub open spec fn spec_sep() -> Seq<char> {
    ":"@
}

/// The per-caller key of the variants that keep one value per caller:
/// `{prefix}:{identifier}`.
pub open spec fn spec_caller_key(prefix: Seq<char>, identifier: Seq<char>) -> Seq<char> {
    prefix + spec_sep() + identifier
}

/// The per-bucket counter key of the window variants:
/// `{prefix}:{identifier}:{bucket}`.
pub open spec fn spec_counter_key(prefix: Seq<char>, identifier: Seq<char>, bucket: int) -> Seq<
    char,
> {
    spec_caller_key(prefix, identifier) + spec_sep() + spec_decimal(bucket)
}

/// Builds `{prefix}:{identifier}`.
pub fn caller_key(prefix: &str, identifier: &str) -> (r: String)
    ensures
        r@ == spec_caller_key(prefix@, identifier@),
{
    let s = prefix.to_owned().concat(":");
    proof {
        reveal_strlit(":");
    }
    s.concat(identifier)
}

/// Builds `{prefix}:{identifier}:{bucket}`.
pub fn counter_key(prefix: &str, identifier: &str, bucket: u64) -> (r: String)
    ensures
        r@ == spec_counter_key(prefix@, identifier@, bucket as int),
{
    let s = caller_key(prefix, identifier).concat(":");
    proof {
        reveal_strlit(":");
    }
    let digits = decimal_string(bucket);
    s.concat(digits.as_str())
}

} // verus!
