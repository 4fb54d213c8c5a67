//! Per-tenant adaptive rate limiting for the Xero Accounting API.
//!
//! Xero's documented limits (per tenant unless noted):
//!   - 60 calls / minute
//!   - 5000 calls / day
//!   - 10 concurrent calls (app-wide, shared with other tenants)
//!
//! One [`TenantRateLimiter`] per tenant caps the requests in flight, reads
//! response headers to track the remaining quota, and asks for a wait when the
//! minute quota is dangerously low, so that the next request is not refused.

use vstd::prelude::*;

use crate::headers::Headers;
use crate::text::{
    all_digits, digits_read_as_their_number, numeral, numerals_read_back, parse_unsigned, same,
    unsigned_value,
};

verus! {

pub const PROACTIVE_THROTTLE_THRESHOLD: u32 = 5;

pub const MAX_CONCURRENT_PER_TENANT: u32 = 6;

/// Wait between two looks for a free slot, in milliseconds.
pub const SLOT_POLL_MS: u64 = 50;

/// Remaining quota as the last responses reported it.
#[derive(Debug, Clone, Copy, PartialEq, Eq, Structural)]
pub struct RateLimitState {
    pub min_remaining: Option<u32>,
    pub day_remaining: Option<u32>,
    pub app_min_remaining: Option<u32>,
}

#[derive(Debug)]
pub struct TenantRateLimiter {
    state: RateLimitState,
    in_flight: u32,
    tenant_id: String,
}

/// What a caller that wants to send a request has to do.
#[derive(Debug, Clone, Copy, PartialEq, Eq, Structural)]
pub enum Admission {
    /// All slots are taken: look again after so many milliseconds.
    WaitForSlot(u64),
    /// The quota is low: wait so many milliseconds, once, and ask again.
    Throttle(u64),
    /// The request is counted as in flight and may be sent.
    Admitted,
}

/// Milliseconds to wait before a request at the given remaining minute quota.
pub open spec fn throttle_ms(min_remaining: Option<u32>) -> Option<u64> {
    match min_remaining {
        None => None,
        Some(rem) => if rem == 0 {
            Some(2000u64)
        } else if rem <= PROACTIVE_THROTTLE_THRESHOLD {
            Some((150 * (PROACTIVE_THROTTLE_THRESHOLD + 1 - rem)) as u64)
        } else {
            None
        },
    }
}

/// The answer to a request for a slot.
pub open spec fn admission(flying: nat, quota: RateLimitState, throttled: bool) -> Admission {
    if flying == MAX_CONCURRENT_PER_TENANT {
        Admission::WaitForSlot(SLOT_POLL_MS)
    } else if !throttled && throttle_ms(quota.min_remaining) is Some {
        Admission::Throttle(throttle_ms(quota.min_remaining)->0)
    } else {
        Admission::Admitted
    }
}

/// The number a header reports, or what was known before where it reports none.
pub open spec fn reported(headers: Headers, name: Seq<char>, known: Option<u32>) -> Option<u32> {
    match headers.value_of(name) {
        Some(text) => match unsigned_value(text, u32::MAX as nat) {
            Ok(n) => Some(n as u32),
            Err(_) => known,
        },
        None => known,
    }
}

/// The quota known after a response with the given headers.
pub open spec fn quota_after(known: RateLimitState, headers: Headers) -> RateLimitState {
    RateLimitState {
        min_remaining: reported(headers, "x-minlimit-remaining"@, known.min_remaining),
        day_remaining: reported(headers, "x-daylimit-remaining"@, known.day_remaining),
        app_min_remaining: reported(headers, "x-appminlimit-remaining"@, known.app_min_remaining),
    }
}

impl TenantRateLimiter {
    /// The cap on requests in flight holds in every state.
    #[verifier::type_invariant]
    pub open spec fn within_cap(self) -> bool {
        self.flying() <= MAX_CONCURRENT_PER_TENANT
    }

    /// The quota last reported.
    pub closed spec fn quota(self) -> RateLimitState {
        self.state
    }

    /// Requests in flight.
    pub closed spec fn flying(self) -> nat {
        self.in_flight as nat
    }

    /// The tenant the limiter is for.
    pub closed spec fn tenant(self) -> Seq<char> {
        self.tenant_id@
    }

    pub fn new(tenant_id: String) -> (r: TenantRateLimiter)
        ensures
            r.tenant() == tenant_id@,
            r.flying() == 0,
            r.quota() == (RateLimitState {
                min_remaining: None,
                day_remaining: None,
                app_min_remaining: None,
            }),
    {
        TenantRateLimiter {
            state: RateLimitState {
                min_remaining: None,
                day_remaining: None,
                app_min_remaining: None,
            },
            in_flight: 0,
            tenant_id,
        }
    }

    /// The quota last reported.
    pub fn state(&self) -> (r: RateLimitState)
        ensures
            r == self.quota(),
    {
        self.state
    }

    /// Requests in flight.
    pub fn in_flight(&self) -> (r: u32)
        ensures
            r == self.flying(),
    {
        self.in_flight
    }

    /// Ask to send a request. `throttled` says whether the caller has already
    /// waited for the quota.
    pub fn acquire(&mut self, throttled: bool) -> (r: Admission)
        ensures
            final(self).tenant() == old(self).tenant(),
            final(self).quota() == old(self).quota(),
            r == admission(old(self).flying(), old(self).quota(), throttled),
            final(self).flying() == old(self).flying() + (if r == Admission::Admitted {
                1int
            } else {
                0
            }),
    {
        proof {
            use_type_invariant(&*self);
        }
        if self.in_flight >= MAX_CONCURRENT_PER_TENANT {
            return Admission::WaitForSlot(SLOT_POLL_MS);
        }
        if !throttled {
            if let Some(ms) = self.proactive_wait() {
                return Admission::Throttle(ms);
            }
        }
        self.in_flight = self.in_flight + 1;
        Admission::Admitted
    }

    /// Milliseconds to wait so that the next request is not refused.
    pub fn proactive_wait(&self) -> (r: Option<u64>)
        ensures
            r == throttle_ms(self.quota().min_remaining),
    {
        match self.state.min_remaining {
            None => None,
            Some(rem) => if rem == 0 {
                Some(2000)
            } else if rem <= PROACTIVE_THROTTLE_THRESHOLD {
                let factor: u32 = PROACTIVE_THROTTLE_THRESHOLD + 1 - rem;
                Some(150 * factor as u64)
            } else {
                None
            },
        }
    }

    /// Count a request as done.
    pub fn release(&mut self)
        ensures
            final(self).tenant() == old(self).tenant(),
            final(self).quota() == old(self).quota(),
            final(self).flying() == (if old(self).flying() > 0 {
                old(self).flying() - 1
            } else {
                0
            }),
    {
        proof {
            use_type_invariant(&*self);
        }
        if self.in_flight > 0 {
            self.in_flight = self.in_flight - 1;
        }
    }

    /// Take over the quota that a response reports.
    pub fn update_from_headers(&mut self, headers: &Headers)
        ensures
            final(self).tenant() == old(self).tenant(),
            final(self).flying() == old(self).flying(),
            final(self).quota() == quota_after(old(self).quota(), *headers),
    {
        proof {
            use_type_invariant(&*self);
        }
        let min_remaining = reported_or(headers, "x-minlimit-remaining", self.state.min_remaining);
        let day_remaining = reported_or(headers, "x-daylimit-remaining", self.state.day_remaining);
        let app_min_remaining = reported_or(
            headers,
            "x-appminlimit-remaining",
            self.state.app_min_remaining,
        );
        self.state = RateLimitState { min_remaining, day_remaining, app_min_remaining };
    }
}

fn reported_or(headers: &Headers, name: &str, known: Option<u32>) -> (r: Option<u32>)
    ensures
        r == reported(*headers, name@, known),
{
    match parse_header_u32(headers, name) {
        Some(n) => Some(n),
        None => known,
    }
}

/// The number in the named header.
pub fn parse_header_u32(headers: &Headers, name: &str) -> (r: Option<u32>)
    ensures
        r == reported(*headers, name@, None),
{
    match headers.get(name) {
        Some(text) => match parse_unsigned(text, u32::MAX as u64) {
            Ok(n) => Some(n as u32),
            Err(_) => None,
        },
        None => None,
    }
}

/// The limiters of the process, one per tenant.
#[derive(Debug)]
pub struct LimiterRegistry {
    limiters: Vec<TenantRateLimiter>,
}

impl LimiterRegistry {
    /// No tenant has two limiters.
    pub open spec fn one_per_tenant(self) -> bool {
        forall|i: int, j: int|
            0 <= i < j < self.all().len() ==> (#[trigger] self.all()[i]).tenant() != (
            #[trigger] self.all()[j]).tenant()
    }

    /// The limiters in order of creation.
    pub closed spec fn all(self) -> Seq<TenantRateLimiter> {
        self.limiters@
    }

    /// Whether a tenant has a limiter already.
    pub open spec fn knows(self, tenant: Seq<char>) -> bool {
        exists|i: int| 0 <= i < self.all().len() && (#[trigger] self.all()[i]).tenant() == tenant
    }

    pub fn new() -> (r: LimiterRegistry)
        ensures
            r.all() == Seq::<TenantRateLimiter>::empty(),
            r.one_per_tenant(),
    {
        LimiterRegistry { limiters: Vec::new() }
    }

    /// The handle of the limiter for a tenant, created where it is missing.
    /// Handles stay good: the limiters there were keep their places.
    pub fn for_tenant(&mut self, tenant_id: &str) -> (r: usize)
        requires
            old(self).one_per_tenant(),
        ensures
            final(self).one_per_tenant(),
            r < final(self).all().len(),
            final(self).all()[r as int].tenant() == tenant_id@,
            if old(self).knows(tenant_id@) {
                final(self).all() == old(self).all()
            } else {
                &&& r == old(self).all().len()
                &&& final(self).all().len() == r + 1
                &&& final(self).all().take(r as int) == old(self).all()
                &&& final(self).all()[r as int].flying() == 0
                &&& final(self).all()[r as int].quota() == (RateLimitState {
                    min_remaining: None,
                    day_remaining: None,
                    app_min_remaining: None,
                })
            },
    {
        let mut i: usize = 0;
        while i < self.limiters.len()
            invariant
                i <= self.limiters.len(),
                *self == *old(self),
                old(self).one_per_tenant(),
                forall|k: int| 0 <= k < i ==> self.all()[k].tenant() != tenant_id@,
            decreases self.limiters.len() - i,
        {
            if same(self.limiters[i].tenant_id.as_str(), tenant_id) {
                proof {
                    assert(self.all()[i as int].tenant() == tenant_id@);
                    assert(self.knows(tenant_id@));
                }
                return i;
            }
            i += 1;
        }
        let fresh = TenantRateLimiter::new(tenant_id.to_owned());
        self.limiters.push(fresh);
        proof {
            assert(self.all().take(i as int) =~= old(self).all());
        }
        i
    }

    /// Ask the limiter behind a handle to send a request.
    pub fn acquire(&mut self, handle: usize, throttled: bool) -> (r: Admission)
        requires
            old(self).one_per_tenant(),
            handle < old(self).all().len(),
        ensures
            final(self).one_per_tenant(),
            r == admission(
                old(self).all()[handle as int].flying(),
                old(self).all()[handle as int].quota(),
                throttled,
            ),
            final(self).only_changed(*old(self), handle as int),
            final(self).all()[handle as int].quota() == old(self).all()[handle as int].quota(),
            final(self).all()[handle as int].flying() == old(self).all()[handle as int].flying() + (
            if r == Admission::Admitted {
                1int
            } else {
                0
            }),
    {
        let r = self.limiters[handle].acquire(throttled);
        proof {
            assert(self.all() =~= old(self).all().update(handle as int, self.all()[handle as int]));
        }
        r
    }

    /// Count a request of the limiter behind a handle as done.
    pub fn release(&mut self, handle: usize)
        requires
            old(self).one_per_tenant(),
            handle < old(self).all().len(),
        ensures
            final(self).one_per_tenant(),
            final(self).only_changed(*old(self), handle as int),
            final(self).all()[handle as int].quota() == old(self).all()[handle as int].quota(),
            final(self).all()[handle as int].flying() == (if old(self).all()[handle as int].flying() > 0 {
                old(self).all()[handle as int].flying() - 1
            } else {
                0
            }),
    {
        self.limiters[handle].release();
        proof {
            assert(self.all() =~= old(self).all().update(handle as int, self.all()[handle as int]));
        }
    }

    /// Hand a response's headers to the limiter behind a handle.
    pub fn update_from_headers(&mut self, handle: usize, headers: &Headers)
        requires
            old(self).one_per_tenant(),
            handle < old(self).all().len(),
        ensures
            final(self).one_per_tenant(),
            final(self).only_changed(*old(self), handle as int),
            final(self).all()[handle as int].flying() == old(self).all()[handle as int].flying(),
            final(self).all()[handle as int].quota() == quota_after(
                old(self).all()[handle as int].quota(),
                *headers,
            ),
    {
        self.limiters[handle].update_from_headers(headers);
        proof {
            assert(self.all() =~= old(self).all().update(handle as int, self.all()[handle as int]));
        }
    }

    /// Whether nothing but the limiter at `at` differs from `before`, and that
    /// one is for the same tenant.
    pub open spec fn only_changed(self, before: LimiterRegistry, at: int) -> bool {
        &&& self.all().len() == before.all().len()
        &&& self.all() == before.all().update(at, self.all()[at])
        &&& self.all()[at].tenant() == before.all()[at].tenant()
    }

    /// The limiter behind a handle.
    pub fn limiter(&self, handle: usize) -> (r: &TenantRateLimiter)
        requires
            handle < self.all().len(),
        ensures
            *r == self.all()[handle as int],
    {
        &self.limiters[handle]
    }
}

/// Two tenants share a limiter exactly when they are the same tenant.
pub proof fn limiters_are_per_tenant(registry: LimiterRegistry, a: int, b: int)
    requires
        registry.one_per_tenant(),
        0 <= a < registry.all().len(),
        0 <= b < registry.all().len(),
    ensures
        a == b <==> registry.all()[a].tenant() == registry.all()[b].tenant(),
{
}

/// The lower the quota, the longer the wait, and above the threshold there is none.
pub proof fn lower_quota_waits_longer(low: u32, high: u32)
    requires
        low <= high,
    ensures
        throttle_ms(Some(high)) is Some ==> throttle_ms(Some(low)) is Some && throttle_ms(
            Some(low),
        )->0 >= throttle_ms(Some(high))->0,
        high > PROACTIVE_THROTTLE_THRESHOLD <==> throttle_ms(Some(high)) is None,
{
}

/// A quota of more than five calls, or an unknown one, asks for no wait. At five the
/// wait is 150 milliseconds, as much longer with each call less, and two seconds when
/// none is left.
pub proof fn waits_grow_by_steps(remaining: u32)
    ensures
        throttle_ms(None) is None,
        throttle_ms(Some(remaining)) is None <==> remaining > 5,
        throttle_ms(Some(5)) == Some(150u64),
        0 < remaining < 5 ==> throttle_ms(Some(remaining))->0 == throttle_ms(
            Some((remaining + 1) as u32),
        )->0 + 150,
        throttle_ms(Some(0)) == Some(2000u64),
{
}

/// A request is admitted if and only if fewer than six are in flight and the quota is
/// not low or has been waited for; a full house is waited for first.
pub proof fn admissions_keep_the_limits(flying: nat, quota: RateLimitState, throttled: bool)
    requires
        flying <= 6,
    ensures
        admission(flying, quota, throttled) == Admission::Admitted <==> flying < 6 && (throttled || (
        quota.min_remaining matches Some(n) ==> n > 5)),
        admission(flying, quota, throttled) is WaitForSlot <==> flying == 6,
        admission(flying, quota, throttled) is Throttle <==> flying < 6 && !throttled && (
        quota.min_remaining matches Some(n) && n <= 5),
        admission(flying, quota, throttled) matches Admission::Throttle(ms) ==> throttle_ms(
            quota.min_remaining,
        ) == Some(ms),
{
}

/// Each quota is taken from its own header, and one that a response does not report
/// stays as it was known.
pub proof fn quotas_are_taken_from_headers(known: RateLimitState, headers: Headers, n: nat)
    requires
        n <= u32::MAX,
    ensures
        headers.value_of("x-minlimit-remaining"@) == Some(numeral(n)) ==> quota_after(
            known,
            headers,
        ).min_remaining == Some(n as u32),
        headers.value_of("x-daylimit-remaining"@) == Some(numeral(n)) ==> quota_after(
            known,
            headers,
        ).day_remaining == Some(n as u32),
        headers.value_of("x-appminlimit-remaining"@) == Some(numeral(n)) ==> quota_after(
            known,
            headers,
        ).app_min_remaining == Some(n as u32),
        headers.value_of("x-minlimit-remaining"@) is None ==> quota_after(
            known,
            headers,
        ).min_remaining == known.min_remaining,
        headers.value_of("x-daylimit-remaining"@) is None ==> quota_after(
            known,
            headers,
        ).day_remaining == known.day_remaining,
        headers.value_of("x-appminlimit-remaining"@) is None ==> quota_after(
            known,
            headers,
        ).app_min_remaining == known.app_min_remaining,
{
    numerals_read_back(n, u32::MAX as nat);
}

/// A header that is no number, or too large a one, leaves what was known.
pub proof fn unreadable_quotas_change_nothing(
    headers: Headers,
    name: Seq<char>,
    known: Option<u32>,
)
    ensures
        (headers.value_of(name) matches Some(text) && !all_digits(text) && text[0] != '+')
            ==> reported(headers, name, known) == known,
        headers.value_of(name) == Some(Seq::<char>::empty()) ==> reported(headers, name, known)
            == known,
{
    if let Some(text) = headers.value_of(name) {
        digits_read_as_their_number(text, u32::MAX as nat);
    }
}

} // verus!
