//! Retry policy: exponential backoff with jitter for transient failures.
//!
//! - 429 Too Many Requests: honour `Retry-After`
//! - 5xx: exponential backoff with jitter
//! - transport errors (timeout, connect): the same backoff
//! - other 4xx: no retry
//!
//! The backoff is capped to bound the total tail latency.

use rand::Rng;
use vstd::arithmetic::power2::{lemma2_to64, pow2};
use vstd::prelude::*;

use crate::headers::Headers;
use crate::text::{
    all_digits, digits_read_as_their_number, numeral, numerals_read_back, parse_unsigned,
    unsigned_value,
};

verus! {

/// Retries of one request before it fails.
pub const MAX_ATTEMPTS: u32 = 5;

pub const BASE_DELAY_MS: u64 = 500;

pub const MAX_DELAY_MS: u64 = 30_000;

/// Wait for a 429 that does not say how long.
pub const FALLBACK_RETRY_AFTER_SECS: u64 = 30;

/// Milliseconds before jitter: the base delay doubled for each earlier retry,
/// up to the cap.
pub open spec fn delay_floor(attempt: nat) -> int {
    let shift: nat = if attempt < 6 {
        attempt
    } else {
        6
    };
    if BASE_DELAY_MS * pow2(shift) < MAX_DELAY_MS {
        BASE_DELAY_MS * pow2(shift)
    } else {
        MAX_DELAY_MS as int
    }
}

/// The jitter stays below a quarter of the delay.
pub open spec fn jitter_bound(attempt: nat) -> int {
    delay_floor(attempt) / 4
}

fn floor_ms(attempt: u32) -> (r: u64)
    ensures
        r == delay_floor(attempt as nat),
        500 <= r <= 30_000,
{
    proof {
        lemma2_to64();
    }
    if attempt == 0 {
        500
    } else if attempt == 1 {
        1_000
    } else if attempt == 2 {
        2_000
    } else if attempt == 3 {
        4_000
    } else if attempt == 4 {
        8_000
    } else if attempt == 5 {
        16_000
    } else {
        30_000
    }
}

/// `rand::Rng::gen_range` on the thread's generator: a number below the bound.
/// An empty range would panic.
#[verifier::external_body]
fn random_below(bound: u64) -> (r: u64)
    requires
        bound > 0,
    ensures
        r < bound,
{
    rand::thread_rng().gen_range(0..bound)
}

/// The backoff in milliseconds before the retry with the given 0-based number,
/// with the given jitter.
pub fn backoff_with_jitter(attempt: u32, jitter: u64) -> (r: u64)
    requires
        jitter < jitter_bound(attempt as nat),
    ensures
        r == delay_floor(attempt as nat) + jitter,
{
    floor_ms(attempt) + jitter
}

/// The backoff in milliseconds before the retry with the given 0-based number,
/// with random jitter.
pub fn exp_backoff(attempt: u32) -> (r: u64)
    ensures
        delay_floor(attempt as nat) <= r < delay_floor(attempt as nat) + jitter_bound(
            attempt as nat,
        ),
{
    let floor: u64 = floor_ms(attempt);
    let jitter: u64 = random_below(floor / 4);
    backoff_with_jitter(attempt, jitter)
}

/// Seconds a `Retry-After` header asks for, or the fallback where the header is
/// missing or no number of seconds.
pub open spec fn retry_after(headers: Headers) -> nat {
    match headers.value_of("retry-after"@) {
        Some(text) => match unsigned_value(text, u64::MAX as nat) {
            Ok(n) => n,
            Err(_) => FALLBACK_RETRY_AFTER_SECS as nat,
        },
        None => FALLBACK_RETRY_AFTER_SECS as nat,
    }
}

/// Read the `Retry-After` header, in seconds.
pub fn retry_after_or_default(headers: &Headers) -> (r: u64)
    ensures
        r == retry_after(*headers),
{
    match headers.get("retry-after") {
        Some(text) => match parse_unsigned(text, u64::MAX) {
            Ok(n) => n,
            Err(_) => FALLBACK_RETRY_AFTER_SECS,
        },
        None => FALLBACK_RETRY_AFTER_SECS,
    }
}

/// Whether a transport error is worth a retry, from what kind of error it is.
pub fn is_transient_transport_err(timeout: bool, connect: bool, request: bool) -> (r: bool)
    ensures
        r == (timeout || connect || request),
{
    timeout || connect || request
}

/// Backoff grows until it is capped: up to the cap, every delay before a retry is
/// shorter than any delay before the next one.
pub proof fn backoff_grows(attempt: nat, jitter: int, next_jitter: int)
    requires
        attempt < 6,
        0 <= jitter < jitter_bound(attempt),
        0 <= next_jitter < jitter_bound(attempt + 1),
    ensures
        delay_floor(attempt) + jitter < delay_floor(attempt + 1) + next_jitter,
{
    lemma2_to64();
}

/// No delay exceeds the cap by more than its jitter, and none is shorter than
/// the base delay.
pub proof fn backoff_is_bounded(attempt: nat, jitter: int)
    requires
        0 <= jitter < jitter_bound(attempt),
    ensures
        BASE_DELAY_MS <= delay_floor(attempt) + jitter <= MAX_DELAY_MS + MAX_DELAY_MS / 4,
{
    lemma2_to64();
}

/// The backoff starts at half a second and doubles with each retry until it reaches
/// the cap of thirty seconds; the jitter adds less than a quarter of it.
pub proof fn backoff_doubles(attempt: nat)
    ensures
        delay_floor(0) == 500,
        attempt < 5 ==> delay_floor(attempt + 1) == 2 * delay_floor(attempt),
        attempt >= 6 ==> delay_floor(attempt) == 30_000,
        4 * jitter_bound(attempt) <= delay_floor(attempt) < 4 * jitter_bound(attempt) + 4,
{
    lemma2_to64();
}

/// A reply that says for how many seconds to wait is obeyed, however many they are; any
/// other is waited out for thirty seconds.
pub proof fn waits_are_as_told(headers: Headers, n: nat)
    ensures
        headers.value_of("retry-after"@) == Some(numeral(n)) && n <= u64::MAX ==> retry_after(
            headers,
        ) == n,
        headers.value_of("retry-after"@) is None ==> retry_after(headers) == 30,
        (headers.value_of("retry-after"@) matches Some(text) && !all_digits(text)
            && text[0] != '+') ==> retry_after(headers) == 30,
{
    numerals_read_back(n, u64::MAX as nat);
    if let Some(text) = headers.value_of("retry-after"@) {
        digits_read_as_their_number(text, u64::MAX as nat);
    }
}

} // verus!
