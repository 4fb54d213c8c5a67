//! Login by authorisation code: how a callback is answered.
//!
//! A callback alternates between outside work and decisions. [`Callback`] holds where
//! it stands: each answer of the outside work is an event, and each event leads to the
//! next action.

use dashmap::DashMap;
use vstd::prelude::*;

use crate::auth::{expiry_in_calendar, split_words, words, TokenData};
use crate::calendar::{seconds_later, Timestamp};
use crate::json::{is_object, objects_have_their_parts, text_in, Json, Part};
use crate::listing::optional_text;
use crate::service::{error_reply, is_error, Reply};
use crate::text::{text_of, texts, trim, trimmed};

verus! {

/// The refusal of a login where no OAuth client is configured.
pub fn login_refused() -> (r: Reply)
    ensures
        is_error(r, 400, "oauth login not enabled (custom connection mode)"@),
{
    error_reply(400, "oauth login not enabled (custom connection mode)")
}

/// The query of an OAuth callback.
#[derive(Debug)]
pub struct OAuthCallbackQuery {
    pub code: Option<String>,
    pub state: Option<String>,
    pub error: Option<String>,
    pub error_description: Option<String>,
}

/// A value that is there and not blank.
pub open spec fn given(value: Option<String>) -> Option<Seq<char>> {
    match value {
        Some(v) => if trimmed(v@).len() > 0 {
            Some(v@)
        } else {
            None
        },
        None => None,
    }
}

fn take_given(value: Option<String>) -> (r: Option<String>)
    ensures
        text_of(r) == given(value),
{
    match value {
        Some(v) => if trim(v.as_str()).is_empty() {
            None
        } else {
            Some(v)
        },
        None => None,
    }
}

/// Why the query of a callback is refused, where it is.
pub open spec fn query_refusal(query: OAuthCallbackQuery) -> Option<Seq<char>> {
    match query.error {
        Some(e) => Some(
            "oauth callback error: "@ + e@ + " "@ + (match query.error_description {
                Some(d) => d@,
                None => ""@,
            }),
        ),
        None => if given(query.code) is None {
            Some("missing required query param: code"@)
        } else if given(query.state) is None {
            Some("missing required query param: state"@)
        } else {
            None
        },
    }
}

/// The code and the state of a callback.
#[derive(Debug)]
pub struct CallbackCode {
    pub code: String,
    pub state: String,
}

fn read_query(query: OAuthCallbackQuery) -> (r: Result<CallbackCode, String>)
    ensures
        match r {
            Ok(c) => {
                &&& query_refusal(query) is None
                &&& given(query.code) == Some(c.code@)
                &&& given(query.state) == Some(c.state@)
            },
            Err(m) => query_refusal(query) == Some(m@),
        },
{
    if let Some(e) = query.error {
        let details = match query.error_description {
            Some(d) => d,
            None => "".to_owned(),
        };
        return Err(
            "oauth callback error: ".to_owned().concat(e.as_str()).concat(" ").concat(
                details.as_str(),
            ),
        );
    }
    let code = match take_given(query.code) {
        Some(v) => v,
        None => {
            return Err("missing required query param: code".to_owned());
        },
    };
    match take_given(query.state) {
        Some(state) => Ok(CallbackCode { code, state }),
        None => Err("missing required query param: state".to_owned()),
    }
}

/// Why the verifier that was stored for a callback is refused, where it is.
pub open spec fn verifier_refusal(verifier: Option<String>, oauth_enabled: bool) -> Option<
    Seq<char>,
> {
    if verifier is None {
        Some("invalid or expired oauth state"@)
    } else if !oauth_enabled {
        Some("oauth callback not enabled (custom connection mode)"@)
    } else {
        None
    }
}

fn read_verifier(verifier: Option<String>, oauth_enabled: bool) -> (r: Result<String, String>)
    ensures
        match r {
            Ok(v) => verifier_refusal(verifier, oauth_enabled) is None && verifier == Some(v),
            Err(m) => verifier_refusal(verifier, oauth_enabled) == Some(m@),
        },
{
    match verifier {
        Some(v) => if oauth_enabled {
            Ok(v)
        } else {
            Err("oauth callback not enabled (custom connection mode)".to_owned())
        },
        None => Err("invalid or expired oauth state".to_owned()),
    }
}

/// What a token exchange granted.
pub struct Grant {
    pub access_token: String,
    pub refresh_token: String,
    pub expires_in: i64,
    pub scopes: Vec<String>,
}

/// A text in a payload that is not empty.
pub open spec fn filled(payload: Json, key: Seq<char>) -> Option<Seq<char>> {
    match payload.field(key) {
        Some(v) => match v.chars() {
            Some(t) => if t.len() > 0 {
                Some(t)
            } else {
                None
            },
            None => None,
        },
        None => None,
    }
}

fn read_filled(payload: &Json, key: &str) -> (r: Option<String>)
    ensures
        text_of(r) == filled(*payload, key@),
{
    match payload.get(key) {
        Some(v) => match v.as_str() {
            Some(t) => if t.is_empty() {
                None
            } else {
                Some(t.to_owned())
            },
            None => None,
        },
        None => None,
    }
}

/// Seconds until a granted token expires: at least one, half an hour where the
/// payload does not say.
pub open spec fn granted_seconds(payload: Json) -> int {
    let n: int = match payload.field("expires_in"@) {
        Some(v) => match v.integer() {
            Some(n) => n as int,
            None => 1800,
        },
        None => 1800,
    };
    if n > 1 {
        n
    } else {
        1
    }
}

/// Why the answer to a token exchange is refused, where it is.
pub open spec fn exchange_refusal(exchange: Result<Json, String>) -> Option<Seq<char>> {
    match exchange {
        Err(m) => Some("token exchange failed: "@ + m@),
        Ok(p) => if filled(p, "access_token"@) is None {
            Some("token exchange response missing access_token"@)
        } else if filled(p, "refresh_token"@) is None {
            Some("token exchange response missing refresh_token"@)
        } else {
            None
        },
    }
}

/// Whether a grant is what the payload of a token exchange says.
pub open spec fn is_grant(g: Grant, payload: Json) -> bool {
    &&& filled(payload, "access_token"@) == Some(g.access_token@)
    &&& filled(payload, "refresh_token"@) == Some(g.refresh_token@)
    &&& g.expires_in == granted_seconds(payload)
    &&& texts(g.scopes@) == (match text_in(payload, "scope"@) {
        Some(t) => words(t),
        None => Seq::<Seq<char>>::empty(),
    })
}

fn read_grant(exchange: Result<Json, String>) -> (r: Result<Grant, String>)
    ensures
        match r {
            Ok(g) => exchange_refusal(exchange) is None && is_grant(g, exchange->Ok_0),
            Err(m) => exchange_refusal(exchange) == Some(m@),
        },
{
    let payload = match exchange {
        Ok(p) => p,
        Err(m) => {
            return Err("token exchange failed: ".to_owned().concat(m.as_str()));
        },
    };
    let access_token = match read_filled(&payload, "access_token") {
        Some(v) => v,
        None => {
            return Err("token exchange response missing access_token".to_owned());
        },
    };
    let refresh_token = match read_filled(&payload, "refresh_token") {
        Some(v) => v,
        None => {
            return Err("token exchange response missing refresh_token".to_owned());
        },
    };
    let seconds: i64 = match payload.get("expires_in") {
        Some(v) => match v.as_i64() {
            Some(n) => n,
            None => 1800,
        },
        None => 1800,
    };
    let expires_in: i64 = if seconds > 1 {
        seconds
    } else {
        1
    };
    let scopes = match payload.get("scope") {
        Some(v) => match v.as_str() {
            Some(t) => split_words(t),
            None => Vec::new(),
        },
        None => Vec::new(),
    };
    proof {
        if text_in(payload, "scope"@) is None {
            assert(texts(scopes@) =~= Seq::<Seq<char>>::empty());
        }
    }
    Ok(Grant { access_token, refresh_token, expires_in, scopes })
}

/// A token for the first of its connections.
pub struct Login {
    pub token: TokenData,
    pub tenant_name: Option<String>,
}

/// Why the connections of a token are refused, where they are. The first one counts.
pub open spec fn connections_refusal(connections: Result<Vec<Json>, String>) -> Option<Seq<char>> {
    match connections {
        Err(m) => Some("fetch connections failed: "@ + m@),
        Ok(list) => if list@.len() == 0 {
            Some("no Xero connections found for token"@)
        } else if filled(list@[0], "tenantId"@) is None {
            Some("connection payload missing tenantId"@)
        } else {
            None
        },
    }
}

fn name_tenant(connections: &Result<Vec<Json>, String>) -> (r: bool)
    ensures
        r == (connections_refusal(*connections) is None),
{
    match connections {
        Ok(list) => list.len() > 0 && read_filled(&list[0], "tenantId").is_some(),
        Err(_) => false,
    }
}

/// Whether a login is that of a grant, received now, for a connection.
pub open spec fn is_login(login: Login, grant: Grant, connection: Json, now: Timestamp) -> bool {
    &&& filled(connection, "tenantId"@) == Some(login.token.tenant_id@)
    &&& text_of(login.tenant_name) == text_in(connection, "tenantName"@)
    &&& login.token.access_token == grant.access_token
    &&& login.token.refresh_token == grant.refresh_token
    &&& login.token.scopes == grant.scopes
    &&& (login.token.expires_at.unix(), login.token.expires_at.subsec()) == seconds_later(
        now,
        grant.expires_in as int,
    )
}

fn read_connections(grant: Grant, connections: Result<Vec<Json>, String>, now: Timestamp) -> (r:
    Result<Login, String>)
    requires
        connections_refusal(connections) is None ==> expiry_in_calendar(
            now,
            grant.expires_in as int,
        ),
    ensures
        match r {
            Ok(login) => connections_refusal(connections) is None && is_login(
                login,
                grant,
                connections->Ok_0@[0],
                now,
            ),
            Err(m) => connections_refusal(connections) == Some(m@),
        },
{
    let list = match connections {
        Ok(list) => list,
        Err(m) => {
            return Err("fetch connections failed: ".to_owned().concat(m.as_str()));
        },
    };
    if list.len() == 0 {
        return Err("no Xero connections found for token".to_owned());
    }
    let tenant_id = match read_filled(&list[0], "tenantId") {
        Some(v) => v,
        None => {
            return Err("connection payload missing tenantId".to_owned());
        },
    };
    let tenant_name = match list[0].get("tenantName") {
        Some(v) => match v.as_str() {
            Some(t) => Some(t.to_owned()),
            None => None,
        },
        None => None,
    };
    let expires_at = now.plus_seconds(grant.expires_in).unwrap();
    Ok(
        Login {
            token: TokenData {
                access_token: grant.access_token,
                refresh_token: grant.refresh_token,
                expires_at,
                scopes: grant.scopes,
                tenant_id,
            },
            tenant_name,
        },
    )
}

/// How storing a login can fail.
#[derive(Debug)]
pub enum StoreFailure {
    /// No cache is configured.
    NoCache,
    /// The cache could not be opened.
    CacheInit(String),
    /// The token could not be cached.
    CacheSet(String),
    /// The tenant could not be stored.
    Tenant(String),
}

/// The text of a failure to store a login.
pub open spec fn store_failure_text(f: StoreFailure) -> Seq<char> {
    match f {
        StoreFailure::NoCache => "missing required env var: REDIS_URL"@,
        StoreFailure::CacheInit(m) => "failed to initialize token cache: "@ + m@,
        StoreFailure::CacheSet(m) => "failed to cache token: "@ + m@,
        StoreFailure::Tenant(m) => "failed to upsert tenant in postgres: "@ + m@,
    }
}

/// Whether a reply says that a login is complete.
pub open spec fn is_welcome(r: Reply, tenant_id: Seq<char>, tenant_name: Option<String>) -> bool {
    r.status == 200 && is_object(
        r.body,
        seq![
            ("message"@, Part::Text("oauth exchange complete and token cached"@)),
            ("status"@, Part::Text("ok"@)),
            ("tenant_id"@, Part::Text(tenant_id)),
            ("tenant_name"@, optional_text(tenant_name)),
        ],
    )
}

fn stored_reply(tenant_id: String, tenant_name: Option<String>, stored: Result<(), StoreFailure>) -> (r:
    Reply)
    ensures
        match stored {
            Ok(_) => is_welcome(r, tenant_id@, tenant_name),
            Err(f) => is_error(r, 500, store_failure_text(f)),
        },
{
    match stored {
        Ok(_) => {
            let mut entries: Vec<(String, Json)> = Vec::new();
            entries.push(
                (
                    "message".to_owned(),
                    Json::Text("oauth exchange complete and token cached".to_owned()),
                ),
            );
            entries.push(("status".to_owned(), Json::Text("ok".to_owned())));
            entries.push(("tenant_id".to_owned(), Json::Text(tenant_id)));
            let name = match tenant_name {
                Some(t) => Json::Text(t),
                None => Json::Null,
            };
            entries.push(("tenant_name".to_owned(), name));
            Reply { status: 200, body: Json::Object(entries) }
        },
        Err(f) => {
            let text = match f {
                StoreFailure::NoCache => "missing required env var: REDIS_URL".to_owned(),
                StoreFailure::CacheInit(m) => "failed to initialize token cache: ".to_owned().concat(
                    m.as_str(),
                ),
                StoreFailure::CacheSet(m) => "failed to cache token: ".to_owned().concat(m.as_str()),
                StoreFailure::Tenant(m) => "failed to upsert tenant in postgres: ".to_owned().concat(
                    m.as_str(),
                ),
            };
            error_reply(500, text.as_str())
        },
    }
}

/// Where a callback stands: what it waits for.
pub enum Callback {
    /// For the verifier that was stored under its state.
    Verifier(CallbackCode),
    /// For the token that code and verifier are exchanged for.
    Exchange,
    /// For the connections of the token.
    Connections(Grant),
    /// For the login to be stored.
    Store(String, Option<String>),
    /// For nothing: it was answered.
    Answered,
}

/// What the outside work gave.
pub enum CallbackEvent {
    /// The verifier that the store held, and whether an OAuth client is configured.
    Verifier(Option<String>, bool),
    /// The payload of the token exchange.
    Exchanged(Result<Json, String>),
    /// The connections of the token, and when they came.
    Connections(Result<Vec<Json>, String>, Timestamp),
    /// Whether the login was stored.
    Stored(Result<(), StoreFailure>),
}

/// What to do next.
pub enum CallbackAction {
    /// Take the verifier under this state out of the store.
    TakeVerifier(String),
    /// Exchange this code and this verifier for a token.
    Exchange(String, String),
    /// Fetch the connections of this access token.
    FetchConnections(String),
    /// Cache the token and store the tenant.
    Store(Login),
    /// Answer the callback.
    Answer(Reply),
}

/// Whether a callback is over, answered with an error.
pub open spec fn refused(next: (Callback, CallbackAction), status: int, text: Seq<char>) -> bool {
    next.0 is Answered && (next.1 matches CallbackAction::Answer(r) && is_error(r, status, text))
}

/// How a callback begins.
pub open spec fn begins(query: OAuthCallbackQuery, next: (Callback, CallbackAction)) -> bool {
    match query_refusal(query) {
        Some(text) => refused(next, 400, text),
        None => {
            &&& next.0 matches Callback::Verifier(c)
            &&& given(query.code) == Some(c.code@)
            &&& given(query.state) == Some(c.state@)
            &&& next.1 matches CallbackAction::TakeVerifier(state) && state@ == c.state@
        },
    }
}

/// How a callback goes on after an event.
pub open spec fn goes_on(
    from: Callback,
    event: CallbackEvent,
    next: (Callback, CallbackAction),
) -> bool {
    match (from, event) {
        (
            Callback::Verifier(c),
            CallbackEvent::Verifier(verifier, oauth_enabled),
        ) => match verifier_refusal(verifier, oauth_enabled) {
            Some(text) => refused(next, 400, text),
            None => {
                &&& next.0 is Exchange
                &&& next.1 matches CallbackAction::Exchange(code, v) && code == c.code && Some(v)
                    == verifier
            },
        },
        (
            Callback::Exchange,
            CallbackEvent::Exchanged(exchange),
        ) => match exchange_refusal(exchange) {
            Some(text) => refused(next, 502, text),
            None => {
                &&& next.0 matches Callback::Connections(g) && is_grant(g, exchange->Ok_0)
                &&& next.1 matches CallbackAction::FetchConnections(token) && Some(token@)
                    == filled(exchange->Ok_0, "access_token"@)
            },
        },
        (
            Callback::Connections(g),
            CallbackEvent::Connections(connections, now),
        ) => match connections_refusal(connections) {
            Some(text) => refused(next, 502, text),
            None => {
                &&& next.1 matches CallbackAction::Store(login) && is_login(
                    login,
                    g,
                    connections->Ok_0@[0],
                    now,
                ) && (next.0 matches Callback::Store(id, name) && id@ == login.token.tenant_id@
                    && text_of(name) == text_of(login.tenant_name))
            },
        },
        (Callback::Store(id, name), CallbackEvent::Stored(stored)) => match stored {
            Ok(_) => next.0 is Answered && (next.1 matches CallbackAction::Answer(r) && is_welcome(
                r,
                id@,
                name,
            )),
            Err(f) => refused(next, 500, store_failure_text(f)),
        },
        _ => false,
    }
}

impl Callback {
    /// Whether the event is of the kind that the callback waits for. A token must
    /// expire before the calendar ends.
    pub open spec fn waits_for(self, event: CallbackEvent) -> bool {
        match (self, event) {
            (Callback::Verifier(_), CallbackEvent::Verifier(_, _)) => true,
            (Callback::Exchange, CallbackEvent::Exchanged(_)) => true,
            (
                Callback::Connections(g),
                CallbackEvent::Connections(connections, now),
            ) => connections_refusal(connections) is None ==> expiry_in_calendar(
                now,
                g.expires_in as int,
            ),
            (Callback::Store(_, _), CallbackEvent::Stored(_)) => true,
            _ => false,
        }
    }

    /// Begin a callback.
    pub fn begin(query: OAuthCallbackQuery) -> (r: (Callback, CallbackAction))
        ensures
            begins(query, r),
    {
        match read_query(query) {
            Ok(c) => {
                let action = CallbackAction::TakeVerifier(c.state.clone());
                (Callback::Verifier(c), action)
            },
            Err(m) => Callback::refuse(400, m),
        }
    }

    fn refuse(status: u16, text: String) -> (r: (Callback, CallbackAction))
        ensures
            refused(r, status as int, text@),
    {
        (Callback::Answered, CallbackAction::Answer(error_reply(status, text.as_str())))
    }

    /// Whether the callback can go on after the event: it is of the kind that it waits
    /// for, and a token that it grants expires before the calendar ends.
    pub fn accepts(&self, event: &CallbackEvent) -> (r: bool)
        ensures
            r == self.waits_for(*event),
    {
        match (self, event) {
            (Callback::Verifier(_), CallbackEvent::Verifier(_, _)) => true,
            (Callback::Exchange, CallbackEvent::Exchanged(_)) => true,
            (
                Callback::Connections(g),
                CallbackEvent::Connections(connections, now),
            ) => !name_tenant(connections) || now.plus_seconds(g.expires_in).is_some(),
            (Callback::Store(_, _), CallbackEvent::Stored(_)) => true,
            _ => false,
        }
    }

    /// Go on after an event.
    pub fn on(self, event: CallbackEvent) -> (r: (Callback, CallbackAction))
        requires
            self.waits_for(event),
        ensures
            goes_on(self, event, r),
    {
        match (self, event) {
            (
                Callback::Verifier(c),
                CallbackEvent::Verifier(verifier, oauth_enabled),
            ) => match read_verifier(verifier, oauth_enabled) {
                Ok(v) => (Callback::Exchange, CallbackAction::Exchange(c.code, v)),
                Err(m) => Callback::refuse(400, m),
            },
            (Callback::Exchange, CallbackEvent::Exchanged(exchange)) => match read_grant(exchange) {
                Ok(g) => {
                    let action = CallbackAction::FetchConnections(g.access_token.clone());
                    (Callback::Connections(g), action)
                },
                Err(m) => Callback::refuse(502, m),
            },
            (
                Callback::Connections(g),
                CallbackEvent::Connections(connections, now),
            ) => match read_connections(g, connections, now) {
                Ok(login) => {
                    let id = login.token.tenant_id.clone();
                    let name = match &login.tenant_name {
                        Some(t) => Some(t.clone()),
                        None => None,
                    };
                    (Callback::Store(id, name), CallbackAction::Store(login))
                },
                Err(m) => Callback::refuse(502, m),
            },
            (
                Callback::Store(id, name),
                CallbackEvent::Stored(stored),
            ) => (Callback::Answered, CallbackAction::Answer(stored_reply(id, name, stored))),
            _ => vstd::pervasive::unreached(),
        }
    }

    /// How many events the callback can still take.
    pub open spec fn events_left(self) -> nat {
        match self {
            Callback::Verifier(_) => 4,
            Callback::Exchange => 3,
            Callback::Connections(_) => 2,
            Callback::Store(_, _) => 1,
            Callback::Answered => 0,
        }
    }
}

/// A callback is answered after four events at most: each brings it closer to its
/// answer, and the answer ends it.
pub proof fn callbacks_are_answered(
    from: Callback,
    event: CallbackEvent,
    next: (Callback, CallbackAction),
)
    requires
        goes_on(from, event, next),
    ensures
        next.0.events_left() < from.events_left() <= 4,
        next.1 is Answer <==> next.0 is Answered,
        next.0 is Answered <==> next.0.events_left() == 0,
{
}

/// A login is stored only for a callback whose state was handed out before, once a
/// code and its verifier were exchanged for a token that has a connection. A refused
/// callback stores nothing.
pub proof fn logins_are_stored_last(
    query: OAuthCallbackQuery,
    first: (Callback, CallbackAction),
    verifier: CallbackEvent,
    second: (Callback, CallbackAction),
    exchanged: CallbackEvent,
    third: (Callback, CallbackAction),
    connections: CallbackEvent,
    last: (Callback, CallbackAction),
)
    requires
        begins(query, first),
        goes_on(first.0, verifier, second),
        goes_on(second.0, exchanged, third),
        goes_on(third.0, connections, last),
    ensures
        !(first.1 is Store || second.1 is Store || third.1 is Store),
        last.1 is Store ==> {
            &&& query_refusal(query) is None
            &&& verifier matches CallbackEvent::Verifier(Some(_), true)
            &&& exchanged matches CallbackEvent::Exchanged(e) && exchange_refusal(e) is None
            &&& connections matches CallbackEvent::Connections(c, _) && connections_refusal(c) is None
        },
{
}

/// `dashmap::DashMap`: a map, from the states of logins to their verifiers.
#[verifier::external_type_specification]
#[verifier::external_body]
#[verifier::reject_recursive_types(K)]
#[verifier::reject_recursive_types(V)]
#[verifier::reject_recursive_types(S)]
pub struct ExDashMap<K, V, S>(dashmap::DashMap<K, V, S>);

/// What a `dashmap::DashMap` from texts to texts holds.
pub uninterp spec fn held_in(map: DashMap<String, String>) -> Map<Seq<char>, Seq<char>>;

/// Whether no key has a value.
pub open spec fn holds_nothing(map: Map<Seq<char>, Seq<char>>) -> bool {
    map == Map::<Seq<char>, Seq<char>>::empty()
}

/// `dashmap::DashMap::new`: it holds nothing.
#[verifier::external_body]
fn empty_map() -> (r: DashMap<String, String>)
    ensures
        holds_nothing(held_in(r)),
{
    DashMap::new()
}

/// `dashmap::DashMap::insert`: the key has the value afterwards, whatever it had before.
#[verifier::external_body]
fn insert_in(map: &mut DashMap<String, String>, key: String, value: String)
    ensures
        held_in(*final(map)) == held_in(*old(map)).insert(key@, value@),
{
    map.insert(key, value);
}

/// `dashmap::DashMap::remove`: the value that the key had, which it has no more.
#[verifier::external_body]
fn remove_from(map: &mut DashMap<String, String>, key: &str) -> (r: Option<String>)
    ensures
        text_of(r) == value_at(held_in(*old(map)), key@),
        held_in(*final(map)) == held_in(*old(map)).remove(key@),
{
    map.remove(key).map(|entry| entry.1)
}

/// The value of a key, where it has one.
pub open spec fn value_at(map: Map<Seq<char>, Seq<char>>, key: Seq<char>) -> Option<Seq<char>> {
    if map.contains_key(key) {
        Some(map[key])
    } else {
        None
    }
}

/// The logins under way: the verifier of each, under its state.
pub struct LoginStates {
    verifiers: DashMap<String, String>,
}

impl View for LoginStates {
    type V = Map<Seq<char>, Seq<char>>;

    closed spec fn view(&self) -> Map<Seq<char>, Seq<char>> {
        held_in(self.verifiers)
    }
}

impl LoginStates {
    /// No login under way.
    pub fn new() -> (r: LoginStates)
        ensures
            r@ == Map::<Seq<char>, Seq<char>>::empty(),
    {
        LoginStates { verifiers: empty_map() }
    }

    /// Begin a login: keep its verifier under its state.
    pub fn put(&mut self, state: String, verifier: String)
        ensures
            final(self)@ == after_op(old(self)@, StateOp::Put(state@, verifier@)),
    {
        insert_in(&mut self.verifiers, state, verifier);
    }

    /// Take the verifier of a login out, for the callback that names its state.
    pub fn take(&mut self, state: &str) -> (r: Option<String>)
        ensures
            text_of(r) == value_at(old(self)@, state@),
            final(self)@ == after_op(old(self)@, StateOp::Take(state@)),
    {
        remove_from(&mut self.verifiers, state)
    }
}

/// What happens to the logins under way.
pub enum StateOp {
    /// A login with this state and this verifier begins.
    Put(Seq<char>, Seq<char>),
    /// A callback takes the verifier under this state.
    Take(Seq<char>),
}

/// The logins under way after an operation.
pub open spec fn after_op(map: Map<Seq<char>, Seq<char>>, op: StateOp) -> Map<
    Seq<char>,
    Seq<char>,
> {
    match op {
        StateOp::Put(state, verifier) => map.insert(state, verifier),
        StateOp::Take(state) => map.remove(state),
    }
}

/// The logins under way after operations in order.
pub open spec fn after_ops(map: Map<Seq<char>, Seq<char>>, ops: Seq<StateOp>) -> Map<
    Seq<char>,
    Seq<char>,
>
    decreases ops.len(),
{
    if ops.len() == 0 {
        map
    } else {
        after_op(after_ops(map, ops.drop_last()), ops.last())
    }
}

/// Whether an operation begins a login with the given state.
pub open spec fn issues(op: StateOp, state: Seq<char>) -> bool {
    op matches StateOp::Put(s, _) && s == state
}

/// A state that was taken is not there until a login is given it again.
proof fn taken_state_is_gone(
    map: Map<Seq<char>, Seq<char>>,
    state: Seq<char>,
    since: Seq<StateOp>,
)
    requires
        forall|i: int| 0 <= i < since.len() ==> !issues(#[trigger] since[i], state),
    ensures
        !after_ops(after_op(map, StateOp::Take(state)), since).contains_key(state),
    decreases since.len(),
{
    if since.len() > 0 {
        let front = since.drop_last();
        assert forall|i: int| 0 <= i < front.len() implies !issues(#[trigger] front[i], state) by {
            assert(front[i] == since[i]);
        }
        taken_state_is_gone(map, state, front);
        assert(!issues(since[since.len() - 1], state));
    }
}

/// A state admits at most one exchange: after a callback has taken its verifier, and
/// while no login is given the state again, another callback with that state is answered
/// with an error. It exchanges nothing and stores nothing.
pub proof fn states_admit_one_exchange(
    map: Map<Seq<char>, Seq<char>>,
    since: Seq<StateOp>,
    query: OAuthCallbackQuery,
    first: (Callback, CallbackAction),
    verifier: Option<String>,
    oauth_enabled: bool,
    next: (Callback, CallbackAction),
)
    requires
        query_refusal(query) is None,
        begins(query, first),
        forall|i: int|
            0 <= i < since.len() ==> !issues(#[trigger] since[i], given(query.state)->0),
        text_of(verifier) == value_at(
            after_ops(after_op(map, StateOp::Take(given(query.state)->0)), since),
            given(query.state)->0,
        ),
        goes_on(first.0, CallbackEvent::Verifier(verifier, oauth_enabled), next),
    ensures
        first.1 matches CallbackAction::TakeVerifier(state) && state@ == given(query.state)->0,
        refused(next, 400, "invalid or expired oauth state"@),
        next.0 is Answered,
        !(next.1 is Exchange || next.1 is Store),
{
    taken_state_is_gone(map, given(query.state)->0, since);
}

/// A callback is taken up if and only if it reports no error and brings a code and a state
/// that are not blank; any other is answered with status 400.
pub proof fn callbacks_need_code_and_state(
    query: OAuthCallbackQuery,
    next: (Callback, CallbackAction),
)
    requires
        begins(query, next),
    ensures
        next.1 is TakeVerifier <==> {
            &&& query.error is None
            &&& query.code matches Some(c) && trimmed(c@).len() > 0
            &&& query.state matches Some(s) && trimmed(s@).len() > 0
        },
        next.1 is TakeVerifier || (next.1 matches CallbackAction::Answer(r) && r.status == 400),
        next.1 matches CallbackAction::TakeVerifier(state) ==> Some(state@) == text_of(query.state)
            && (next.0 matches Callback::Verifier(c) && Some(c.code@) == text_of(query.code)
            && Some(c.state@) == text_of(query.state)),
{
}

/// A code is exchanged if and only if a verifier was stored for its state and an OAuth
/// client is configured, and with that verifier; else the callback is answered with status
/// 400.
pub proof fn codes_are_exchanged_with_their_verifier(
    c: CallbackCode,
    verifier: Option<String>,
    oauth_enabled: bool,
    next: (Callback, CallbackAction),
)
    requires
        goes_on(Callback::Verifier(c), CallbackEvent::Verifier(verifier, oauth_enabled), next),
    ensures
        next.1 is Exchange <==> verifier is Some && oauth_enabled,
        next.1 matches CallbackAction::Exchange(code, v) ==> code@ == c.code@ && verifier == Some(v),
        next.1 is Exchange || (next.1 matches CallbackAction::Answer(r) && r.status == 400),
{
}

/// A token is good for as long as its payload says, but for a second at least; for half an
/// hour where the payload does not say.
pub proof fn grants_last_as_told(payload: Json, n: i64)
    ensures
        granted_seconds(payload) >= 1,
        (payload.field("expires_in"@) matches Some(v) && v.integer() == Some(n) && n >= 1)
            ==> granted_seconds(payload) == n,
        (payload.field("expires_in"@) matches Some(v) && v.integer() == Some(n) && n < 1)
            ==> granted_seconds(payload) == 1,
        payload.field("expires_in"@) is None || payload.field("expires_in"@)->0.integer() is None
            ==> granted_seconds(payload) == 1800,
{
}

/// Connections are asked for if and only if the exchange gave both tokens, and with the
/// access token; else the callback is answered with status 502.
pub proof fn exchanges_give_both_tokens(
    exchange: Result<Json, String>,
    next: (Callback, CallbackAction),
)
    requires
        goes_on(Callback::Exchange, CallbackEvent::Exchanged(exchange), next),
    ensures
        next.1 is FetchConnections <==> (exchange matches Ok(p) && {
            &&& text_in(p, "access_token"@) matches Some(t) && t.len() > 0
            &&& text_in(p, "refresh_token"@) matches Some(t) && t.len() > 0
        }),
        next.1 matches CallbackAction::FetchConnections(token) ==> Some(token@) == text_in(
            exchange->Ok_0,
            "access_token"@,
        ) && (next.0 matches Callback::Connections(g) && {
            &&& g.access_token@ == token@
            &&& Some(g.refresh_token@) == text_in(exchange->Ok_0, "refresh_token"@)
            &&& g.expires_in == granted_seconds(exchange->Ok_0)
            &&& text_in(exchange->Ok_0, "scope"@) matches Some(s) ==> texts(g.scopes@) == words(s)
            &&& text_in(exchange->Ok_0, "scope"@) is None ==> texts(g.scopes@).len() == 0
        }),
        next.1 is FetchConnections || (next.1 matches CallbackAction::Answer(r) && r.status == 502),
{
}

/// A login is stored if and only if the token has a connection and the first one names its
/// tenant. It is for that tenant, with the tokens that were granted, and expires as many
/// seconds after the connections came as were granted. Else the callback is answered with
/// status 502.
pub proof fn logins_are_for_the_first_connection(
    grant: Grant,
    connections: Result<Vec<Json>, String>,
    now: Timestamp,
    next: (Callback, CallbackAction),
)
    requires
        goes_on(Callback::Connections(grant), CallbackEvent::Connections(connections, now), next),
        now.subsec() < 1_000_000_000,
    ensures
        next.1 is Store <==> (connections matches Ok(list) && list@.len() > 0 && (text_in(
            list@[0],
            "tenantId"@,
        ) matches Some(t) && t.len() > 0)),
        next.1 matches CallbackAction::Store(login) ==> {
            let first = connections->Ok_0@[0];
            &&& Some(login.token.tenant_id@) == text_in(first, "tenantId"@)
            &&& text_of(login.tenant_name) == text_in(first, "tenantName"@)
            &&& login.token.access_token@ == grant.access_token@
            &&& login.token.refresh_token@ == grant.refresh_token@
            &&& login.token.scopes@ == grant.scopes@
            &&& login.token.expires_at.unix() == now.unix() + grant.expires_in
            &&& login.token.expires_at.subsec() == now.subsec()
            &&& next.0 matches Callback::Store(id, _) && id@ == login.token.tenant_id@
        },
        next.1 is Store || (next.1 matches CallbackAction::Answer(r) && r.status == 502),
{
}

/// A stored login is answered with status 200, one that could not be stored with status
/// 500.
pub proof fn stored_logins_are_welcomed(
    id: String,
    name: Option<String>,
    stored: Result<(), StoreFailure>,
    next: (Callback, CallbackAction),
)
    requires
        goes_on(Callback::Store(id, name), CallbackEvent::Stored(stored), next),
    ensures
        next.0 is Answered,
        next.1 matches CallbackAction::Answer(r) && r.status == (if stored is Ok {
            200int
        } else {
            500
        }),
        stored is Ok ==> text_in(next.1->Answer_0.body, "tenant_id"@) == Some(id@) && text_in(
            next.1->Answer_0.body,
            "status"@,
        ) == Some("ok"@),
{
    if stored is Ok {
        reveal_strlit("message");
        reveal_strlit("status");
        reveal_strlit("tenant_id");
        assert("message"@.len() == 7 && "status"@.len() == 6 && "tenant_id"@.len() == 9);
        let parts = seq![
            ("message"@, Part::Text("oauth exchange complete and token cached"@)),
            ("status"@, Part::Text("ok"@)),
            ("tenant_id"@, Part::Text(id@)),
            ("tenant_name"@, optional_text(name)),
        ];
        objects_have_their_parts(next.1->Answer_0.body, parts, 1);
        objects_have_their_parts(next.1->Answer_0.body, parts, 2);
    }
}

/// A verifier is kept under its state until it is taken, and another login changes
/// nothing about it.
pub proof fn verifiers_stay_until_taken(
    map: Map<Seq<char>, Seq<char>>,
    state: Seq<char>,
    verifier: Seq<char>,
    other: Seq<char>,
    more: Seq<char>,
)
    requires
        state != other,
    ensures
        value_at(after_op(map, StateOp::Put(state, verifier)), state) == Some(verifier),
        value_at(after_op(map, StateOp::Put(other, more)), state) == value_at(map, state),
        value_at(after_op(map, StateOp::Take(other)), state) == value_at(map, state),
        value_at(after_op(map, StateOp::Take(state)), state) is None,
{
}

} // verus!
