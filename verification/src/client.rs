//! Requests to the Xero Accounting API, and what to do with each reply.
//!
//! Sending is left to the caller. The library says what to send
//! ([`XeroApiClient`]) and, reply by reply, whether to take it, wait and send
//! again, or fail ([`RequestLoop`]).

use vstd::prelude::*;

use crate::calendar::Timestamp;
use crate::error::{Error, ErrorView};
use crate::headers::Headers;
use crate::query::{ExtraQuery, Pairs};
use crate::retry::{
    delay_floor, exp_backoff, jitter_bound, retry_after, retry_after_or_default, MAX_ATTEMPTS,
};
use crate::sorted::{has_name, pairs, push_pair};
use crate::text::{decimal, numeral};
use crate::types::EntityType;

verus! {

/// The root of the Accounting API.
pub open spec fn base_url() -> Seq<char> {
    "https://api.xero.com/api.xro/2.0"@
}

/// A GET request.
#[derive(Debug)]
pub struct Request {
    pub url: String,
    pub headers: Vec<(String, String)>,
    pub query: Vec<(String, String)>,
}

/// A caller of the API on behalf of one tenant.
#[derive(Debug)]
pub struct XeroApiClient {
    tenant_id: String,
    send_tenant_header: bool,
}

/// Headers of a request: credentials, wanted format, tenant where it is sent,
/// and the modification time from which records are wanted.
pub open spec fn request_headers(
    client: XeroApiClient,
    access_token: Seq<char>,
    modified_after: Option<Timestamp>,
) -> Pairs {
    let tenant: Pairs = if client.sends_tenant() {
        seq![("Xero-tenant-id"@, client.tenant())]
    } else {
        seq![]
    };
    let since: Pairs = match modified_after {
        Some(t) => seq![("If-Modified-Since"@, t.second_text())],
        None => seq![],
    };
    seq![("Authorization"@, "Bearer "@ + access_token), ("Accept"@, "application/json"@)] + tenant
        + since
}

impl XeroApiClient {
    pub closed spec fn tenant(self) -> Seq<char> {
        self.tenant_id@
    }

    pub closed spec fn sends_tenant(self) -> bool {
        self.send_tenant_header
    }

    pub fn new(tenant_id: &str) -> (r: XeroApiClient)
        ensures
            r.tenant() == tenant_id@,
            r.sends_tenant(),
    {
        Self::new_with_tenant_header(tenant_id, true)
    }

    pub fn new_with_tenant_header(tenant_id: &str, send_tenant_header: bool) -> (r: XeroApiClient)
        ensures
            r.tenant() == tenant_id@,
            r.sends_tenant() == send_tenant_header,
    {
        XeroApiClient { tenant_id: tenant_id.to_owned(), send_tenant_header }
    }

    /// The tenant that requests are made for.
    pub fn tenant_id(&self) -> (r: &str)
        ensures
            r@ == self.tenant(),
    {
        self.tenant_id.as_str()
    }

    /// The request for an entity's records.
    pub fn request(
        &self,
        access_token: &str,
        entity: &EntityType,
        modified_after: Option<Timestamp>,
        query: Vec<(String, String)>,
    ) -> (r: Request)
        ensures
            r.url@ == base_url() + "/"@ + entity.path(),
            pairs(r.headers@) == request_headers(*self, access_token@, modified_after),
            r.query == query,
    {
        let url = "https://api.xero.com/api.xro/2.0".to_owned().concat("/").concat(
            entity.xero_path(),
        );
        Request { url, headers: self.headers(access_token, modified_after), query }
    }

    /// The request for one record by its primary key.
    pub fn request_one(
        &self,
        access_token: &str,
        entity: &EntityType,
        record_id: &str,
        extra: &ExtraQuery,
    ) -> (r: Request)
        ensures
            r.url@ == base_url() + "/"@ + record_label(entity.path(), record_id@),
            pairs(r.headers@) == request_headers(*self, access_token@, None),
            pairs(r.query@) == detail_pairs(*extra, *entity),
    {
        let mut query: Vec<(String, String)> = Vec::new();
        if extra.expand_lines && *entity == EntityType::Budgets {
            push_pair(&mut query, "BudgetLines", "true");
        }
        crate::query::push_all(&mut query, &extra.extra);
        proof {
            assert(pairs(query@) =~= detail_pairs(*extra, *entity));
        }
        let mut url = "https://api.xero.com/api.xro/2.0".to_owned();
        url.append("/");
        let mut label = entity.xero_path().to_owned();
        label.append("/");
        label.append(record_id);
        url.append(label.as_str());
        Request { url, headers: self.headers(access_token, None), query }
    }

    fn headers(&self, access_token: &str, modified_after: Option<Timestamp>) -> (r: Vec<
        (String, String),
    >)
        ensures
            pairs(r@) == request_headers(*self, access_token@, modified_after),
    {
        let mut headers: Vec<(String, String)> = Vec::new();
        push_pair(
            &mut headers,
            "Authorization",
            "Bearer ".to_owned().concat(access_token).as_str(),
        );
        push_pair(&mut headers, "Accept", "application/json");
        if self.send_tenant_header {
            push_pair(&mut headers, "Xero-tenant-id", self.tenant_id.as_str());
        }
        if let Some(t) = modified_after {
            push_pair(&mut headers, "If-Modified-Since", t.to_second_text().as_str());
        }
        proof {
            assert(pairs(headers@) =~= request_headers(*self, access_token@, modified_after));
        }
        headers
    }
}

/// The path of one record.
pub open spec fn record_label(path: Seq<char>, record_id: Seq<char>) -> Seq<char> {
    path + "/"@ + record_id
}

/// Query parameters of a request for one record.
pub open spec fn detail_pairs(extra: ExtraQuery, entity: EntityType) -> Pairs {
    let lines: Pairs = if extra.expand_lines && entity == EntityType::Budgets {
        seq![("BudgetLines"@, "true"@)]
    } else {
        seq![]
    };
    lines + pairs(extra.extra@)
}

/// Which replies a request takes or retries, besides those that all do.
#[derive(Debug, Clone, Copy, PartialEq, Eq, Structural)]
pub struct RetryPolicy {
    /// Whether 304 means that there are no records.
    pub not_modified_is_empty: bool,
    /// Whether a 5xx reply is retried.
    pub retry_server_errors: bool,
}

impl RetryPolicy {
    /// Requests for lists of records.
    pub fn records() -> (r: RetryPolicy)
        ensures
            r.not_modified_is_empty,
            r.retry_server_errors,
    {
        RetryPolicy { not_modified_is_empty: true, retry_server_errors: true }
    }

    /// Requests for reports.
    pub fn report() -> (r: RetryPolicy)
        ensures
            !r.not_modified_is_empty,
            r.retry_server_errors,
    {
        RetryPolicy { not_modified_is_empty: false, retry_server_errors: true }
    }

    /// Requests for one record.
    pub fn single_record() -> (r: RetryPolicy)
        ensures
            !r.not_modified_is_empty,
            r.retry_server_errors,
    {
        RetryPolicy { not_modified_is_empty: false, retry_server_errors: true }
    }
}

/// How a reply is taken.
#[derive(Debug, Clone, Copy, PartialEq, Eq, Structural)]
pub enum Verdict {
    /// The body holds what was asked for.
    Accept,
    /// There is nothing new; the reply has no body.
    NotModified,
    /// Wait as the reply says and send again.
    WaitAsTold,
    /// Wait for the backoff and send again.
    BackOff,
    /// Fail with the reply's body.
    Reject,
    /// Fail: the rate limit held over all attempts.
    GiveUp,
}

impl Verdict {
    /// Whether the request is sent again.
    pub open spec fn is_retry(self) -> bool {
        self == Verdict::WaitAsTold || self == Verdict::BackOff
    }
}

/// How a reply with the given status is taken, after `attempt` retries.
pub open spec fn verdict(policy: RetryPolicy, attempt: nat, status: int) -> Verdict {
    if policy.not_modified_is_empty && status == 304 {
        Verdict::NotModified
    } else if status == 429 {
        if attempt >= MAX_ATTEMPTS {
            Verdict::GiveUp
        } else {
            Verdict::WaitAsTold
        }
    } else if policy.retry_server_errors && 500 <= status <= 599 && attempt < MAX_ATTEMPTS {
        Verdict::BackOff
    } else if 200 <= status <= 299 {
        Verdict::Accept
    } else {
        Verdict::Reject
    }
}

/// Whether a transport error is retried, after `attempt` retries.
pub open spec fn transport_retried(attempt: nat, transient: bool) -> bool {
    transient && attempt < MAX_ATTEMPTS
}

/// How a reply with the given status is taken, after `attempt` retries.
pub fn judge(policy: RetryPolicy, attempt: u32, status: u16) -> (r: Verdict)
    ensures
        r == verdict(policy, attempt as nat, status as int),
        r == Verdict::Accept <==> 200 <= status <= 299,
        r == Verdict::NotModified <==> status == 304 && policy.not_modified_is_empty,
{
    if policy.not_modified_is_empty && status == 304 {
        Verdict::NotModified
    } else if status == 429 {
        if attempt >= MAX_ATTEMPTS {
            Verdict::GiveUp
        } else {
            Verdict::WaitAsTold
        }
    } else if policy.retry_server_errors && 500 <= status && status <= 599 && attempt
        < MAX_ATTEMPTS {
        Verdict::BackOff
    } else if 200 <= status && status <= 299 {
        Verdict::Accept
    } else {
        Verdict::Reject
    }
}

/// What to do next about a request.
#[derive(Debug)]
pub enum Reaction {
    /// Read the body: it holds what was asked for.
    Accept,
    /// Take it that there is nothing new.
    NotModified,
    /// Wait so many seconds and send again.
    RetryAfterSecs(u64),
    /// Wait so many milliseconds and send again.
    RetryAfterMillis(u64),
    /// Read the body and fail with it.
    Reject,
    /// Fail.
    Fail(Error),
}

/// One request that is sent until it is answered or given up.
#[derive(Debug)]
pub struct RequestLoop {
    policy: RetryPolicy,
    label: String,
    attempt: u32,
}

/// The failure of a request that was refused for its rate on every attempt.
pub open spec fn rate_failure(label: Seq<char>) -> ErrorView {
    ErrorView::XeroApi("429 "@ + label + " after "@ + numeral(MAX_ATTEMPTS as nat) + " attempts"@)
}

/// The failure of a request that was answered with an error.
pub open spec fn status_failure(label: Seq<char>, status: nat, body: Seq<char>) -> ErrorView {
    ErrorView::XeroApi(numeral(status) + " "@ + label + ": "@ + body)
}

impl RequestLoop {
    /// No request is retried more often than the policy allows.
    #[verifier::type_invariant]
    pub open spec fn within_attempts(self) -> bool {
        self.retries() <= MAX_ATTEMPTS
    }

    /// Retries so far.
    pub closed spec fn retries(self) -> nat {
        self.attempt as nat
    }

    pub closed spec fn replies(self) -> RetryPolicy {
        self.policy
    }

    /// What the request is for, as failures name it.
    pub closed spec fn subject(self) -> Seq<char> {
        self.label@
    }

    pub fn new(policy: RetryPolicy, label: &str) -> (r: RequestLoop)
        ensures
            r.retries() == 0,
            r.replies() == policy,
            r.subject() == label@,
    {
        RequestLoop { policy, label: label.to_owned(), attempt: 0 }
    }

    /// React to a reply's status and headers.
    pub fn on_response(&mut self, status: u16, headers: &Headers) -> (r: Reaction)
        ensures
            final(self).replies() == old(self).replies(),
            final(self).subject() == old(self).subject(),
            r is Accept <==> 200 <= status <= 299,
            r is NotModified <==> status == 304 && old(self).replies().not_modified_is_empty,
            r is RetryAfterSecs <==> status == 429 && old(self).retries() < MAX_ATTEMPTS,
            ({
                let v = verdict(old(self).replies(), old(self).retries(), status as int);
                let n = old(self).retries();
                &&& final(self).retries() == n + (if v.is_retry() {
                    1int
                } else {
                    0
                })
                &&& match v {
                    Verdict::Accept => r is Accept,
                    Verdict::NotModified => r is NotModified,
                    Verdict::WaitAsTold => r matches Reaction::RetryAfterSecs(s) && s
                        == retry_after(*headers),
                    Verdict::BackOff => r matches Reaction::RetryAfterMillis(ms) && delay_floor(n)
                        <= ms < delay_floor(n) + jitter_bound(n),
                    Verdict::Reject => r is Reject,
                    Verdict::GiveUp => r matches Reaction::Fail(e) && e@ == rate_failure(
                        old(self).subject(),
                    ),
                }
            }),
    {
        proof {
            use_type_invariant(&*self);
        }
        match judge(self.policy, self.attempt, status) {
            Verdict::Accept => Reaction::Accept,
            Verdict::NotModified => Reaction::NotModified,
            Verdict::WaitAsTold => {
                self.attempt = self.attempt + 1;
                Reaction::RetryAfterSecs(retry_after_or_default(headers))
            },
            Verdict::BackOff => {
                let ms: u64 = exp_backoff(self.attempt);
                self.attempt = self.attempt + 1;
                Reaction::RetryAfterMillis(ms)
            },
            Verdict::Reject => Reaction::Reject,
            Verdict::GiveUp => Reaction::Fail(
                Error::XeroApi(
                    "429 ".to_owned().concat(self.label.as_str()).concat(" after ").concat(
                        decimal(MAX_ATTEMPTS as u64).as_str(),
                    ).concat(" attempts"),
                ),
            ),
        }
    }

    /// React to an error of the transport.
    pub fn on_transport_error(&mut self, transient: bool, text: &str) -> (r: Reaction)
        ensures
            final(self).replies() == old(self).replies(),
            final(self).subject() == old(self).subject(),
            ({
                let n = old(self).retries();
                if transport_retried(n, transient) {
                    &&& final(self).retries() == n + 1
                    &&& r matches Reaction::RetryAfterMillis(ms)
                    &&& delay_floor(n) <= ms < delay_floor(n) + jitter_bound(n)
                } else {
                    &&& final(self).retries() == n
                    &&& r matches Reaction::Fail(e)
                    &&& e@ == ErrorView::XeroApi(text@)
                }
            }),
    {
        proof {
            use_type_invariant(&*self);
        }
        if transient && self.attempt < MAX_ATTEMPTS {
            let ms: u64 = exp_backoff(self.attempt);
            self.attempt = self.attempt + 1;
            Reaction::RetryAfterMillis(ms)
        } else {
            Reaction::Fail(Error::XeroApi(text.to_owned()))
        }
    }

    /// The failure of a rejected request, from its status and body.
    pub fn rejection(&self, status: u16, body: &str) -> (r: Error)
        ensures
            r@ == status_failure(self.subject(), status as nat, body@),
    {
        Error::XeroApi(
            decimal(status as u64).concat(" ").concat(self.label.as_str()).concat(": ").concat(
                body,
            ),
        )
    }
}

/// What came back for one sending of a request: a status, or a transport error
/// that is transient or not.
pub enum Event {
    Status(int),
    Transport(bool),
}

/// Whether the request is sent again after the event.
pub open spec fn resent(policy: RetryPolicy, attempt: nat, event: Event) -> bool {
    match event {
        Event::Status(status) => verdict(policy, attempt, status).is_retry(),
        Event::Transport(transient) => transport_retried(attempt, transient),
    }
}

/// A request is sent at most once more than it may be retried: events that each
/// led to another sending are no more than the retries allowed.
pub proof fn retries_are_bounded(policy: RetryPolicy, events: Seq<Event>)
    requires
        forall|i: int| 0 <= i < events.len() ==> resent(policy, i as nat, #[trigger] events[i]),
    ensures
        events.len() <= MAX_ATTEMPTS,
{
    if events.len() > MAX_ATTEMPTS {
        assert(resent(policy, MAX_ATTEMPTS as nat, events[MAX_ATTEMPTS as int]));
    }
}

/// Server errors are retried with backoff until the attempts are used up.
pub proof fn server_errors_are_retried(policy: RetryPolicy, attempt: nat, status: int)
    requires
        policy.retry_server_errors,
        500 <= status <= 599,
    ensures
        verdict(policy, attempt, status) == (if attempt < MAX_ATTEMPTS {
            Verdict::BackOff
        } else {
            Verdict::Reject
        }),
{
}

/// Client errors other than the rate limit are never retried.
pub proof fn client_errors_fail_at_once(policy: RetryPolicy, attempt: nat, status: int)
    requires
        400 <= status <= 499,
        status != 429,
    ensures
        verdict(policy, attempt, status) == Verdict::Reject,
{
}

/// A success is taken at once, whatever the policy and however often the request was
/// sent; nothing else is.
pub proof fn successes_are_accepted(policy: RetryPolicy, attempt: nat, status: int)
    ensures
        verdict(policy, attempt, status) == Verdict::Accept <==> 200 <= status <= 299,
{
}

/// A reply means that there is nothing new if and only if its status is 304 and the
/// request takes that for an answer; elsewhere a 304 is refused.
pub proof fn nothing_new_is_told_by_304(policy: RetryPolicy, attempt: nat, status: int)
    ensures
        verdict(policy, attempt, status) == Verdict::NotModified <==> status == 304
            && policy.not_modified_is_empty,
        status == 304 && !policy.not_modified_is_empty ==> verdict(policy, attempt, status)
            == Verdict::Reject,
{
}

/// A reply leads to another sending if and only if it refuses the rate (429) or, where
/// the policy says so, is a server error (5xx), and fewer than five retries were made.
/// After a refused rate the reply says how long to wait; after the fifth the request
/// is given up.
pub proof fn retries_are_for_rate_and_server(policy: RetryPolicy, attempt: nat, status: int)
    ensures
        verdict(policy, attempt, status).is_retry() <==> attempt < 5 && (status == 429 || (
        policy.retry_server_errors && 500 <= status <= 599)),
        verdict(policy, attempt, status) == Verdict::WaitAsTold <==> attempt < 5 && status == 429,
        verdict(policy, attempt, status) == Verdict::GiveUp <==> attempt >= 5 && status == 429,
{
}

/// A reply is refused with its body if it is no success, no 304 that the request takes
/// for an answer, no refused rate and no server error that is retried.
pub proof fn other_replies_are_rejected(policy: RetryPolicy, attempt: nat, status: int)
    ensures
        verdict(policy, attempt, status) == Verdict::Reject <==> {
            &&& !(200 <= status <= 299)
            &&& !(status == 304 && policy.not_modified_is_empty)
            &&& status != 429
            &&& !(500 <= status <= 599 && policy.retry_server_errors && attempt < 5)
        },
{
}

/// A transport error is retried if and only if it is transient and fewer than five
/// retries were made: as often as a server error is.
pub proof fn transport_errors_are_retried(policy: RetryPolicy, attempt: nat, transient: bool)
    ensures
        transport_retried(attempt, transient) <==> transient && attempt < 5,
        policy.retry_server_errors ==> (transport_retried(attempt, true) <==> verdict(
            policy,
            attempt,
            500,
        ).is_retry()),
{
}

/// Every request carries the credentials and the wanted format, the tenant if and only
/// if the client sends it, and a time if and only if only later records are wanted.
pub proof fn requests_carry_credentials(
    client: XeroApiClient,
    access_token: Seq<char>,
    modified_after: Option<Timestamp>,
)
    ensures
        ({
            let sent = request_headers(client, access_token, modified_after);
            &&& sent[0] == ("Authorization"@, "Bearer "@ + access_token)
            &&& sent[1] == ("Accept"@, "application/json"@)
            &&& has_name(sent, "Xero-tenant-id"@) <==> client.sends_tenant()
            &&& has_name(sent, "If-Modified-Since"@) <==> modified_after is Some
            &&& client.sends_tenant() ==> sent.contains(("Xero-tenant-id"@, client.tenant()))
            &&& modified_after matches Some(t) ==> sent.contains(
                ("If-Modified-Since"@, t.second_text()),
            )
            &&& sent.len() == 2 + (if client.sends_tenant() {
                1int
            } else {
                0
            }) + (if modified_after is Some {
                1int
            } else {
                0
            })
        }),
{
    reveal_strlit("Authorization");
    reveal_strlit("Accept");
    reveal_strlit("Xero-tenant-id");
    reveal_strlit("If-Modified-Since");
    assert("Authorization"@.len() == 13 && "Accept"@.len() == 6);
    assert("Xero-tenant-id"@.len() == 14 && "If-Modified-Since"@.len() == 17);
    let sent = request_headers(client, access_token, modified_after);
    assert(sent[0].0 == "Authorization"@ && sent[1].0 == "Accept"@);
    if client.sends_tenant() {
        assert(sent[2] == ("Xero-tenant-id"@, client.tenant()));
        if modified_after is Some {
            assert(sent[3] == ("If-Modified-Since"@, modified_after->0.second_text()));
        }
    } else if modified_after is Some {
        assert(sent[2] == ("If-Modified-Since"@, modified_after->0.second_text()));
    }
}

/// The lines of a budget are asked for if and only if the request expands a budget; the
/// caller's own parameters follow.
pub proof fn budget_lines_are_asked_for(extra: ExtraQuery, entity: EntityType)
    ensures
        extra.expand_lines && entity == EntityType::Budgets ==> detail_pairs(extra, entity) == seq![
            ("BudgetLines"@, "true"@),
        ] + pairs(extra.extra@),
        !extra.expand_lines || entity != EntityType::Budgets ==> detail_pairs(extra, entity)
            == pairs(extra.extra@),
{
    let none: Pairs = seq![];
    assert(none + pairs(extra.extra@) =~= pairs(extra.extra@));
}

/// A record's path is that of its entity and its id; records with different ids have different
/// paths.
pub proof fn records_have_their_own_paths(path: Seq<char>, a: Seq<char>, b: Seq<char>)
    ensures
        (path + "/"@).is_prefix_of(record_label(path, a)),
        a.is_suffix_of(record_label(path, a)),
        record_label(path, a) == record_label(path, b) ==> a == b,
{
    let start = path + "/"@;
    let s = record_label(path, a);
    let t = record_label(path, b);
    assert(s.subrange(0, start.len() as int) =~= start);
    assert(s.subrange(s.len() - a.len(), s.len() as int) =~= a);
    if s == t {
        assert(s.skip(start.len() as int) =~= a);
        assert(t.skip(start.len() as int) =~= b);
    }
}

/// The failure of a rejected request tells its status first and its body last.
pub proof fn failures_tell_status_and_body(label: Seq<char>, status: nat, body: Seq<char>)
    ensures
        status_failure(label, status, body) matches ErrorView::XeroApi(m) && {
            &&& (numeral(status) + " "@ + label).is_prefix_of(m)
            &&& (": "@ + body).is_suffix_of(m)
        },
        rate_failure(label) matches ErrorView::XeroApi(m) && ("429 "@ + label).is_prefix_of(m),
{
    let m = status_failure(label, status, body)->XeroApi_0;
    let a = numeral(status) + " "@ + label;
    let z = ": "@ + body;
    assert(m.subrange(0, a.len() as int) =~= a);
    assert(m.subrange(m.len() - z.len(), m.len() as int) =~= z);
    let r = rate_failure(label)->XeroApi_0;
    let b = "429 "@ + label;
    assert(r.subrange(0, b.len() as int) =~= b);
}

} // verus!
