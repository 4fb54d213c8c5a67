//! Access tokens by custom connection (the `client_credentials` grant).

use vstd::prelude::*;
use vstd::utf8::encode_utf8;

use crate::calendar::{is_instant, seconds_between, seconds_in_range, seconds_later, Timestamp};
use crate::config::{Connection, XeroCustomConnectionConfig};
use crate::encoding::{base64_standard, base64_standard_text};
use crate::error::{Error, ErrorView};
use crate::text::{chars_of, is_space, same, texts};

verus! {

/// Seconds before expiry from which a token of a custom connection is renewed.
pub const CONNECTION_BUFFER_SECS: i64 = 60;

/// Seconds before expiry from which a cached token is renewed.
pub const REFRESH_BUFFER_SECS: i64 = 300;

/// An access token and what it is good for. It has no text form, so that it
/// cannot leak into a log.
pub struct TokenData {
    pub access_token: String,
    pub refresh_token: String,
    pub expires_at: Timestamp,
    pub scopes: Vec<String>,
    pub tenant_id: String,
}

/// Whether a token that expires at one instant has expired at another.
pub open spec fn expired(expires_at: Timestamp, now: Timestamp) -> bool {
    !now.earlier_than(expires_at)
}

/// Whether a token has to be renewed: it expires within the buffer.
pub open spec fn expires_within(expires_at: Timestamp, buffer_secs: int, now: Timestamp) -> bool {
    let (secs, nanos) = seconds_later(expires_at, -buffer_secs);
    !(now.unix() < secs || (now.unix() == secs && now.subsec() < nanos))
}

impl TokenData {
    /// Whether the token has expired at the given instant.
    pub fn is_expired_at(&self, now: &Timestamp) -> (r: bool)
        ensures
            r == expired(self.expires_at, *now),
    {
        !now.is_before(&self.expires_at)
    }

    /// Whether the token has expired by now.
    pub fn is_expired(&self) -> (r: bool)
        ensures
            exists|now: Timestamp|
                now.in_calendar() && r == #[trigger] expired(self.expires_at, now),
    {
        let now = Timestamp::now();
        proof {
            use_type_invariant(&now);
        }
        let r = self.is_expired_at(&now);
        assert(r == expired(self.expires_at, now));
        r
    }

    /// Whether the token expires within so many seconds of the given instant.
    pub fn needs_refresh_at(&self, buffer_secs: i64, now: &Timestamp) -> (r: bool)
        requires
            is_instant(
                seconds_later(self.expires_at, -buffer_secs).0,
                seconds_later(self.expires_at, -buffer_secs).1,
            ),
        ensures
            r == expires_within(self.expires_at, buffer_secs as int, *now),
    {
        proof {
            let at = self.expires_at;
            use_type_invariant(&self.expires_at);
            seconds_in_range(at);
            crate::calendar::numbers_in_range();
        }
        let refresh_at = self.expires_at.plus_seconds(-buffer_secs).unwrap();
        !now.is_before(&refresh_at)
    }

    /// Whether the token expires within so many seconds from now.
    pub fn needs_refresh(&self, buffer_secs: i64) -> (r: bool)
        requires
            is_instant(
                seconds_later(self.expires_at, -buffer_secs).0,
                seconds_later(self.expires_at, -buffer_secs).1,
            ),
        ensures
            exists|now: Timestamp|
                now.in_calendar() && r == #[trigger] expires_within(
                    self.expires_at,
                    buffer_secs as int,
                    now,
                ),
    {
        let now = Timestamp::now();
        proof {
            use_type_invariant(&now);
        }
        let r = self.needs_refresh_at(buffer_secs, &now);
        assert(r == expires_within(self.expires_at, buffer_secs as int, now));
        r
    }

    /// A second copy of the token.
    pub fn copy(&self) -> (r: TokenData)
        ensures
            r.same_as(*self),
    {
        let mut scopes: Vec<String> = Vec::new();
        let mut i: usize = 0;
        while i < self.scopes.len()
            invariant
                i <= self.scopes.len(),
                scopes@ == self.scopes@.take(i as int),
            decreases self.scopes.len() - i,
        {
            scopes.push(self.scopes[i].clone());
            i += 1;
            proof {
                assert(self.scopes@.take(i as int) =~= self.scopes@.take(i - 1).push(
                    self.scopes@[i - 1],
                ));
            }
        }
        proof {
            assert(self.scopes@.take(i as int) =~= self.scopes@);
        }
        TokenData {
            access_token: self.access_token.clone(),
            refresh_token: self.refresh_token.clone(),
            expires_at: self.expires_at,
            scopes,
            tenant_id: self.tenant_id.clone(),
        }
    }

    /// Whether two tokens say the same.
    pub open spec fn same_as(self, other: TokenData) -> bool {
        &&& self.access_token@ == other.access_token@
        &&& self.refresh_token@ == other.refresh_token@
        &&& self.expires_at == other.expires_at
        &&& texts(self.scopes@) == texts(other.scopes@)
        &&& self.tenant_id@ == other.tenant_id@
    }
}

/// A token that expires within a buffer also expires within a longer one, and an
/// expired token expires within every buffer.
pub proof fn longer_buffers_renew_earlier(
    expires_at: Timestamp,
    buffer: int,
    longer: int,
    now: Timestamp,
)
    requires
        expires_at.subsec() < 1_000_000_000,
        0 <= buffer <= longer,
    ensures
        expired(expires_at, now) ==> expires_within(expires_at, buffer, now),
        expires_within(expires_at, buffer, now) ==> expires_within(expires_at, longer, now),
{
}

/// The words of a text: its longest parts without white space.
pub open spec fn words(s: Seq<char>) -> Seq<Seq<char>>
    decreases s.len(),
{
    if s.len() == 0 {
        Seq::empty()
    } else {
        let front = words(s.drop_last());
        if is_space(s.last()) {
            front
        } else if s.len() == 1 || is_space(s[s.len() - 2]) {
            front.push(seq![s.last()])
        } else {
            front.drop_last().push(front.last().push(s.last()))
        }
    }
}

/// The words of a text.
pub fn split_words(s: &str) -> (r: Vec<String>)
    ensures
        texts(r@) == words(s@),
{
    let v = chars_of(s);
    let mut done: Vec<String> = Vec::new();
    let mut part = String::new();
    let mut inside = false;
    let mut i: usize = 0;
    proof {
        assert(texts(done@) =~= words(s@.take(0)));
    }
    while i < v.len()
        invariant
            i <= v.len(),
            v@ == s@,
            inside == (i > 0 && !is_space(s@[i - 1])),
            inside ==> texts(done@).push(part@) == words(s@.take(i as int)),
            !inside ==> texts(done@) == words(s@.take(i as int)) && part@.len() == 0,
        decreases v.len() - i,
    {
        let c = v[i];
        let ghost before = texts(done@);
        let ghost open = part@;
        proof {
            let next = s@.take(i + 1);
            assert(next.drop_last() =~= s@.take(i as int));
            assert(next.last() == c);
            if i > 0 {
                assert(next[next.len() - 2] == s@[i - 1]);
            }
            assert(before.push(open).drop_last() =~= before);
            assert(before.push(open).last() == open);
        }
        if crate::text::is_white_space(c) {
            if inside {
                done.push(part);
                part = String::new();
                inside = false;
                proof {
                    assert(texts(done@) =~= before.push(open));
                }
            }
        } else {
            part.push(c);
            inside = true;
            proof {
                assert(open.len() == 0 ==> part@ =~= seq![c]);
            }
        }
        i += 1;
    }
    proof {
        assert(s@.take(i as int) =~= s@);
    }
    if inside {
        let ghost before = texts(done@);
        let ghost open = part@;
        done.push(part);
        proof {
            assert(texts(done@) =~= before.push(open));
        }
    }
    done
}

/// A request for a token: a form that is posted.
pub struct TokenRequest {
    pub url: String,
    pub authorization: String,
    pub form: Vec<(String, String)>,
}

/// What the token endpoint returns.
pub struct TokenResponse {
    pub access_token: String,
    pub expires_in: i64,
    pub scope: Option<String>,
}

/// Whether a token that is good for so many seconds from now on expires before the
/// calendar ends.
pub open spec fn expiry_in_calendar(now: Timestamp, seconds: int) -> bool {
    is_instant(seconds_later(now, seconds).0, seconds_later(now, seconds).1)
}

/// Whether a token is the one that a reply grants to a tenant now. Custom
/// connections are granted no refresh token.
pub open spec fn is_token_of(
    t: TokenData,
    reply: TokenResponse,
    tenant: Seq<char>,
    now: Timestamp,
) -> bool {
    &&& t.access_token@ == reply.access_token@
    &&& t.refresh_token@.len() == 0
    &&& (t.expires_at.unix(), t.expires_at.subsec()) == seconds_later(now, reply.expires_in as int)
    &&& texts(t.scopes@) == (match reply.scope {
        Some(s) => words(s@),
        None => Seq::<Seq<char>>::empty(),
    })
    &&& t.tenant_id@ == tenant
}

/// The token endpoint.
pub open spec fn token_url() -> Seq<char> {
    "https://identity.xero.com/connect/token"@
}

/// The credentials of a connection in the form of HTTP basic authentication.
pub open spec fn basic_credentials(client_id: Seq<char>, client_secret: Seq<char>) -> Seq<char> {
    "Basic "@ + base64_standard(encode_utf8(client_id + ":"@ + client_secret))
}

/// A custom connection, and the last token it was granted.
pub struct CustomConnectionClient {
    client_id: String,
    client_secret: String,
    tenant_id: String,
    cached_token: Option<TokenData>,
}

impl CustomConnectionClient {
    pub closed spec fn id(self) -> Seq<char> {
        self.client_id@
    }

    pub closed spec fn secret(self) -> Seq<char> {
        self.client_secret@
    }

    pub closed spec fn tenant(self) -> Seq<char> {
        self.tenant_id@
    }

    pub closed spec fn cached(self) -> Option<TokenData> {
        self.cached_token
    }

    pub fn new(client_id: String, client_secret: String, tenant_id: String) -> (r:
        CustomConnectionClient)
        ensures
            r.id() == client_id@,
            r.secret() == client_secret@,
            r.tenant() == tenant_id@,
            r.cached() is None,
    {
        CustomConnectionClient { client_id, client_secret, tenant_id, cached_token: None }
    }

    pub fn tenant_id(&self) -> (r: &str)
        ensures
            r@ == self.tenant(),
    {
        self.tenant_id.as_str()
    }

    /// Refuse to act for a tenant other than the connection's own.
    pub fn check_tenant(&self, tenant_id: &str) -> (r: Result<(), Error>)
        ensures
            match r {
                Ok(_) => tenant_id@ == self.tenant(),
                Err(e) => tenant_id@ != self.tenant() && e@ == ErrorView::Auth(
                    "custom connection tenant mismatch"@,
                ),
            },
    {
        if same(tenant_id, self.tenant_id.as_str()) {
            Ok(())
        } else {
            Err(Error::Auth("custom connection tenant mismatch".to_owned()))
        }
    }

    /// Whether the cached token can still be used at an instant: there is one, and
    /// it does not expire within the buffer.
    pub open spec fn usable(self, now: Timestamp) -> bool {
        self.cached() matches Some(t) && !expires_within(
            t.expires_at,
            CONNECTION_BUFFER_SECS as int,
            now,
        )
    }

    /// The cached token, where it can still be used at the given instant. Near the
    /// start of the calendar no token can.
    pub fn usable_token(&self, now: &Timestamp) -> (r: Option<TokenData>)
        ensures
            match r {
                Some(t) => self.usable(*now) && t.same_as(self.cached()->0),
                None => !self.usable(*now) || !is_instant(
                    seconds_later(self.cached()->0.expires_at, -CONNECTION_BUFFER_SECS).0,
                    seconds_later(self.cached()->0.expires_at, -CONNECTION_BUFFER_SECS).1,
                ),
            },
    {
        match &self.cached_token {
            Some(t) => match t.expires_at.plus_seconds(-CONNECTION_BUFFER_SECS) {
                Some(_) => if t.needs_refresh_at(CONNECTION_BUFFER_SECS, now) {
                    None
                } else {
                    Some(t.copy())
                },
                None => None,
            },
            None => None,
        }
    }

    /// The request for a fresh token. It names no scope: Xero grants every scope
    /// that the connection is configured with.
    pub fn token_request(&self) -> (r: TokenRequest)
        ensures
            r.url@ == token_url(),
            r.authorization@ == basic_credentials(self.id(), self.secret()),
            crate::sorted::pairs(r.form@) == seq![("grant_type"@, "client_credentials"@)],
    {
        let pair = self.client_id.clone().concat(":").concat(self.client_secret.as_str());
        let creds = base64_standard_text(pair.as_str().as_bytes());
        let mut form: Vec<(String, String)> = Vec::new();
        crate::sorted::push_pair(&mut form, "grant_type", "client_credentials");
        proof {
            assert(crate::sorted::pairs(form@) =~= seq![("grant_type"@, "client_credentials"@)]);
        }
        TokenRequest {
            url: "https://identity.xero.com/connect/token".to_owned(),
            authorization: "Basic ".to_owned().concat(creds.as_str()),
            form,
        }
    }

    /// Take the reply to a request for a token, received at the given instant, and
    /// keep the token. `status_text` is the status as it is shown.
    pub fn accept(
        &mut self,
        status: u16,
        status_text: &str,
        reply: TokenResponse,
        now: Timestamp,
    ) -> (r: Result<TokenData, Error>)
        requires
            200 <= status <= 299 ==> expiry_in_calendar(now, reply.expires_in as int),
        ensures
            final(self).id() == old(self).id(),
            final(self).secret() == old(self).secret(),
            final(self).tenant() == old(self).tenant(),
            match r {
                Ok(t) => {
                    &&& 200 <= status <= 299
                    &&& is_token_of(t, reply, old(self).tenant(), now)
                    &&& final(self).cached() matches Some(c) && c.same_as(t)
                },
                Err(e) => {
                    &&& !(200 <= status <= 299)
                    &&& e@ == ErrorView::Auth(
                        "cc token fetch failed (HTTP "@ + status_text@ + ")"@,
                    )
                    &&& final(self).cached() == old(self).cached()
                },
            },
    {
        if status < 200 || status > 299 {
            return Err(
                Error::Auth(
                    "cc token fetch failed (HTTP ".to_owned().concat(status_text).concat(")"),
                ),
            );
        }
        let scopes = match &reply.scope {
            Some(s) => split_words(s.as_str()),
            None => Vec::new(),
        };
        proof {
            if reply.scope is None {
                assert(texts(scopes@) =~= Seq::<Seq<char>>::empty());
            }
        }
        let token = TokenData {
            access_token: reply.access_token,
            refresh_token: String::new(),
            expires_at: now.plus_seconds(reply.expires_in).unwrap(),
            scopes,
            tenant_id: self.tenant_id.clone(),
        };
        self.cached_token = Some(token.copy());
        Ok(token)
    }

    /// The failure to read the token endpoint's reply.
    pub fn unreadable(text: &str) -> (r: Error)
        ensures
            r@ == ErrorView::Auth("cc token parse error: "@ + text@),
    {
        Error::Auth("cc token parse error: ".to_owned().concat(text))
    }
}

/// Custom connections by tenant.
pub struct MultiTenantCustomConnectionClient {
    clients: Vec<CustomConnectionClient>,
}

impl MultiTenantCustomConnectionClient {
    /// The connections, one per tenant.
    pub closed spec fn all(self) -> Seq<CustomConnectionClient> {
        self.clients@
    }

    /// No tenant has two connections.
    pub open spec fn one_per_tenant(self) -> bool {
        forall|i: int, j: int|
            0 <= i < j < self.all().len() ==> (#[trigger] self.all()[i]).tenant() != (
            #[trigger] self.all()[j]).tenant()
    }

    /// Whether a tenant has a connection.
    pub open spec fn knows(self, tenant: Seq<char>) -> bool {
        exists|i: int| 0 <= i < self.all().len() && (#[trigger] self.all()[i]).tenant() == tenant
    }

    /// The connections of the configuration. Where two are for the same tenant the
    /// later one counts.
    pub fn new(connections: Vec<XeroCustomConnectionConfig>) -> (r:
        MultiTenantCustomConnectionClient)
        ensures
            r.one_per_tenant(),
            forall|i: int|
                0 <= i < r.all().len() ==> is_client_of(
                    #[trigger] r.all()[i],
                    crate::config::connections(connections@),
                    connections@.len() as int,
                ),
            forall|k: int|
                0 <= k < connections@.len() ==> r.knows((#[trigger] connections@[k]).tenant_id@),
    {
        let ghost configs = crate::config::connections(connections@);
        let mut r = MultiTenantCustomConnectionClient { clients: Vec::new() };
        for c in it: connections
            invariant
                it.seq() == connections@,
                configs == crate::config::connections(connections@),
                r.one_per_tenant(),
                forall|i: int|
                    0 <= i < r.all().len() ==> is_client_of(
                        #[trigger] r.all()[i],
                        configs,
                        it.index(),
                    ),
                forall|k: int|
                    0 <= k < it.index() ==> r.knows((#[trigger] connections@[k]).tenant_id@),
        {
            let ghost n = it.index();
            let ghost before = r;
            proof {
                assert(configs[n] == c@);
            }
            let found = r.find(c.tenant_id.as_str());
            let ghost tenant = c.tenant_id@;
            let client = CustomConnectionClient::new(c.client_id, c.client_secret, c.tenant_id);
            match found {
                Some(i) => {
                    r.clients[i] = client;
                    proof {
                        assert(r.all() =~= before.all().update(i as int, client));
                        assert(r.all()[i as int].tenant() == tenant);
                    }
                },
                None => {
                    r.clients.push(client);
                    proof {
                        assert(r.all() =~= before.all().push(client));
                        assert(r.all()[r.all().len() - 1].tenant() == tenant);
                    }
                },
            }
            proof {
                assert forall|i: int| 0 <= i < r.all().len() implies is_client_of(
                    #[trigger] r.all()[i],
                    configs,
                    n + 1,
                ) by {
                    if i < before.all().len() && r.all()[i] == before.all()[i] {
                        assert(is_client_of(before.all()[i], configs, n));
                        let k = choose|k: int|
                            0 <= k < n && #[trigger] configs[k].tenant_id == before.all()[i].tenant()
                                && configs[k].client_id == before.all()[i].id()
                                && configs[k].client_secret == before.all()[i].secret() && (forall|
                                j: int,
                            |
                                k < j < n ==> (#[trigger] configs[j]).tenant_id
                                    != before.all()[i].tenant());
                        assert(configs[k].tenant_id == r.all()[i].tenant());
                        if found is Some && found->0 == i {
                            assert(r.all()[i] == client);
                            assert(configs[n].tenant_id == r.all()[i].tenant());
                        } else {
                            assert(before.all()[i].tenant() != tenant);
                        }
                    } else {
                        assert(r.all()[i] == client);
                        assert(configs[n].tenant_id == client.tenant());
                    }
                }
                assert forall|k: int| 0 <= k < n + 1 implies r.knows(
                    (#[trigger] connections@[k]).tenant_id@,
                ) by {
                    if k < n {
                        let t = connections@[k].tenant_id@;
                        assert(before.knows(t));
                        let i = choose|i: int|
                            0 <= i < before.all().len() && (#[trigger] before.all()[i]).tenant()
                                == t;
                        assert(r.all()[i].tenant() == t);
                    }
                }
            }
        }
        r
    }

    /// The place of a tenant's connection.
    pub fn find(&self, tenant_id: &str) -> (r: Option<usize>)
        ensures
            match r {
                Some(i) => i < self.all().len() && self.all()[i as int].tenant() == tenant_id@,
                None => !self.knows(tenant_id@),
            },
    {
        let mut i: usize = 0;
        while i < self.clients.len()
            invariant
                i <= self.clients.len(),
                forall|k: int| 0 <= k < i ==> (#[trigger] self.all()[k]).tenant() != tenant_id@,
            decreases self.clients.len() - i,
        {
            if same(self.clients[i].tenant_id.as_str(), tenant_id) {
                return Some(i);
            }
            i += 1;
        }
        None
    }

    /// The tenants that have a connection.
    pub fn tenant_ids(&self) -> (r: Vec<&str>)
        ensures
            r@.len() == self.all().len(),
            forall|i: int| 0 <= i < r@.len() ==> (#[trigger] r@[i])@ == self.all()[i].tenant(),
    {
        let mut r: Vec<&str> = Vec::new();
        let mut i: usize = 0;
        while i < self.clients.len()
            invariant
                i <= self.clients.len(),
                r@.len() == i,
                forall|k: int| 0 <= k < i ==> (#[trigger] r@[k])@ == self.all()[k].tenant(),
            decreases self.clients.len() - i,
        {
            r.push(self.clients[i].tenant_id.as_str());
            i += 1;
        }
        r
    }

    /// Whether a tenant has a connection.
    pub fn has_tenant(&self, tenant_id: &str) -> (r: bool)
        ensures
            r == self.knows(tenant_id@),
    {
        let found = self.find(tenant_id);
        proof {
            if found is Some {
                assert(self.all()[found->0 as int].tenant() == tenant_id@);
            }
        }
        found.is_some()
    }

    /// The place of the connection that serves a tenant.
    pub fn route(&self, tenant_id: &str) -> (r: Result<usize, Error>)
        ensures
            match r {
                Ok(i) => i < self.all().len() && self.all()[i as int].tenant() == tenant_id@,
                Err(e) => !self.knows(tenant_id@) && e@ == ErrorView::Auth(
                    "custom connection tenant not configured: "@ + tenant_id@,
                ),
            },
    {
        match self.find(tenant_id) {
            Some(i) => Ok(i),
            None => Err(
                Error::Auth(
                    "custom connection tenant not configured: ".to_owned().concat(tenant_id),
                ),
            ),
        }
    }

    /// The connection at a place.
    pub fn client(&self, at: usize) -> (r: &CustomConnectionClient)
        requires
            at < self.all().len(),
        ensures
            *r == self.all()[at as int],
    {
        &self.clients[at]
    }

    /// Hand a token reply to the connection at a place.
    pub fn accept(
        &mut self,
        at: usize,
        status: u16,
        status_text: &str,
        reply: TokenResponse,
        now: Timestamp,
    ) -> (r: Result<TokenData, Error>)
        requires
            old(self).one_per_tenant(),
            at < old(self).all().len(),
            200 <= status <= 299 ==> expiry_in_calendar(now, reply.expires_in as int),
        ensures
            final(self).one_per_tenant(),
            final(self).all().len() == old(self).all().len(),
            final(self).all() == old(self).all().update(at as int, final(self).all()[at as int]),
            final(self).all()[at as int].id() == old(self).all()[at as int].id(),
            final(self).all()[at as int].secret() == old(self).all()[at as int].secret(),
            final(self).all()[at as int].tenant() == old(self).all()[at as int].tenant(),
            match r {
                Ok(t) => {
                    &&& 200 <= status <= 299
                    &&& is_token_of(t, reply, old(self).all()[at as int].tenant(), now)
                    &&& final(self).all()[at as int].cached() matches Some(c) && c.same_as(t)
                },
                Err(e) => {
                    &&& !(200 <= status <= 299)
                    &&& e@ == ErrorView::Auth(
                        "cc token fetch failed (HTTP "@ + status_text@ + ")"@,
                    )
                    &&& final(self).all()[at as int].cached() == old(self).all()[at as int].cached()
                },
            },
    {
        let r = self.clients[at].accept(status, status_text, reply, now);
        proof {
            assert(self.all() =~= old(self).all().update(at as int, self.all()[at as int]));
        }
        r
    }
}

/// Whether a client is that of the last of the first `n` connections for its
/// tenant.
pub open spec fn is_client_of(
    client: CustomConnectionClient,
    configs: Seq<Connection>,
    n: int,
) -> bool {
    exists|k: int|
        {
            &&& 0 <= k < n
            &&& #[trigger] configs[k].tenant_id == client.tenant()
            &&& configs[k].client_id == client.id()
            &&& configs[k].client_secret == client.secret()
            &&& forall|j: int|
                k < j < n ==> (#[trigger] configs[j]).tenant_id != client.tenant()
        }
}

/// The key under which a tenant's token is cached.
pub fn token_cache_key(tenant_id: &str) -> (r: String)
    ensures
        r@ == "xero:token"@ + ":"@ + tenant_id@,
{
    "xero:token".to_owned().concat(":").concat(tenant_id)
}

/// Seconds for which a token is cached: until it has to be renewed, at least one.
pub open spec fn cache_seconds(expires_at: Timestamp, now: Timestamp) -> int {
    if seconds_between(expires_at, now) - REFRESH_BUFFER_SECS > 1 {
        seconds_between(expires_at, now) - REFRESH_BUFFER_SECS
    } else {
        1
    }
}

/// Seconds for which a token is cached: until it has to be renewed, at least one.
pub fn token_cache_ttl(expires_at: &Timestamp, now: &Timestamp) -> (r: u64)
    ensures
        r == cache_seconds(*expires_at, *now),
{
    proof {
        use_type_invariant(expires_at);
        use_type_invariant(now);
        seconds_in_range(*expires_at);
        seconds_in_range(*now);
    }
    let left: i64 = expires_at.seconds_since(now) - REFRESH_BUFFER_SECS;
    if left > 1 {
        left as u64
    } else {
        1
    }
}

/// A token has expired from its expiry on, and it has to be renewed from so many
/// seconds before its expiry on; a buffer of nothing renews it when it expires.
pub proof fn tokens_expire_at_their_expiry(expires_at: Timestamp, buffer: int, now: Timestamp)
    requires
        expires_at.subsec() < 1_000_000_000,
    ensures
        expired(expires_at, now) <==> expires_at.unix() < now.unix() || (expires_at.unix()
            == now.unix() && expires_at.subsec() <= now.subsec()),
        expires_within(expires_at, buffer, now) <==> expires_at.unix() < now.unix() + buffer || (
        expires_at.unix() == now.unix() + buffer && expires_at.subsec() <= now.subsec()),
        expires_within(expires_at, 0, now) <==> expired(expires_at, now),
{
}

/// A token that a reply grants is good from now on for as long as the reply says. It is
/// usable at once if that is more than a minute, and not if it is less.
pub proof fn fresh_tokens_are_usable(
    client: CustomConnectionClient,
    token: TokenData,
    reply: TokenResponse,
    tenant: Seq<char>,
    now: Timestamp,
)
    requires
        now.subsec() < 1_000_000_000,
        is_token_of(token, reply, tenant, now),
        client.cached() matches Some(c) && c.same_as(token),
    ensures
        token.expires_at.unix() == now.unix() + reply.expires_in,
        token.expires_at.subsec() == now.subsec(),
        token.access_token@ == reply.access_token@,
        token.tenant_id@ == tenant,
        reply.scope is None ==> token.scopes@.len() == 0,
        reply.scope matches Some(s) ==> texts(token.scopes@) == words(s@),
        token.refresh_token@.len() == 0,
        client.usable(now) <==> reply.expires_in > 60,
{
    if reply.scope is None {
        assert(texts(token.scopes@).len() == 0);
    }
}

/// A token that is usable has not expired, nor has it a minute later.
pub proof fn usable_tokens_have_not_expired(
    client: CustomConnectionClient,
    now: Timestamp,
    later: Timestamp,
)
    requires
        client.usable(now),
        client.cached()->0.expires_at.subsec() < 1_000_000_000,
        later.unix() <= now.unix() + 60,
        later.unix() == now.unix() + 60 ==> later.subsec() <= now.subsec(),
    ensures
        !expired(client.cached()->0.expires_at, now),
        !expired(client.cached()->0.expires_at, later),
{
}

/// A cached token is dropped five minutes before it expires, or after a second where
/// that is past.
pub proof fn cached_tokens_are_dropped_early(expires_at: Timestamp, now: Timestamp)
    ensures
        cache_seconds(expires_at, now) >= 1,
        cache_seconds(expires_at, now) > 1 ==> cache_seconds(expires_at, now) + 300
            == seconds_between(expires_at, now),
        cache_seconds(expires_at, now) == 1 <==> seconds_between(expires_at, now) <= 301,
{
}

proof fn words_go_on(s: Seq<char>)
    requires
        s.len() > 0,
        !is_space(s.last()),
    ensures
        words(s).len() > 0,
{
}

/// A text without white space is one word, and one of white space alone has none.
pub proof fn word_is_its_own(s: Seq<char>)
    ensures
        s.len() > 0 && (forall|i: int| 0 <= i < s.len() ==> !is_space(#[trigger] s[i])) ==> words(s)
            == seq![s],
        (forall|i: int| 0 <= i < s.len() ==> is_space(#[trigger] s[i])) ==> words(s)
            == Seq::<Seq<char>>::empty(),
    decreases s.len(),
{
    if s.len() > 0 {
        let front = s.drop_last();
        word_is_its_own(front);
        if forall|i: int| 0 <= i < s.len() ==> !is_space(#[trigger] s[i]) {
            assert forall|i: int| 0 <= i < front.len() implies !is_space(#[trigger] front[i]) by {
                assert(front[i] == s[i]);
            }
            assert(!is_space(s[s.len() - 1]));
            if s.len() == 1 {
                assert(words(front) =~= Seq::<Seq<char>>::empty());
                assert(seq![s.last()] =~= s);
                assert(words(s) =~= seq![s]);
            } else {
                assert(!is_space(s[s.len() - 2]));
                assert(front.push(s.last()) =~= s);
                assert(words(s) =~= seq![s]);
            }
        }
        if forall|i: int| 0 <= i < s.len() ==> is_space(#[trigger] s[i]) {
            assert forall|i: int| 0 <= i < front.len() implies is_space(#[trigger] front[i]) by {
                assert(front[i] == s[i]);
            }
            assert(is_space(s[s.len() - 1]));
        }
    }
}

/// White space parts words: the words of two texts with white space between them are
/// those of the one and then those of the other.
pub proof fn white_space_parts_words(a: Seq<char>, space: char, b: Seq<char>)
    requires
        is_space(space),
    ensures
        words(a.push(space) + b) == words(a) + words(b),
    decreases b.len(),
{
    let x = a.push(space);
    let s = x + b;
    if b.len() == 0 {
        assert(s =~= x);
        assert(x.drop_last() =~= a);
        assert(words(a) + words(b) =~= words(a));
    } else {
        let front = b.drop_last();
        white_space_parts_words(a, space, front);
        assert(s.drop_last() =~= x + front);
        assert(s.last() == b.last());
        if !is_space(b.last()) {
            if b.len() == 1 {
                assert(s[s.len() - 2] == space);
                assert(words(s) =~= words(a) + words(b));
            } else {
                assert(s[s.len() - 2] == b[b.len() - 2]);
                if !is_space(b[b.len() - 2]) {
                    assert(front.last() == b[b.len() - 2]);
                    words_go_on(front);
                }
                assert(words(s) =~= words(a) + words(b));
            }
        }
    }
}

} // verus!
