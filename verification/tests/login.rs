use xero_service::calendar::Timestamp;
use xero_service::json::{parse, Json};
use xero_service::login::{
    login_refused, Callback, CallbackAction, CallbackEvent, Login, LoginStates,
    OAuthCallbackQuery, StoreFailure,
};
use xero_service::service::Reply;

fn at(secs: i64) -> Timestamp {
    Timestamp::from_unix(secs, 0).unwrap()
}

fn json(text: &str) -> Json {
    parse(text.as_bytes()).expect("valid JSON")
}

fn query(code: Option<&str>, state: Option<&str>, error: Option<&str>) -> OAuthCallbackQuery {
    OAuthCallbackQuery {
        code: code.map(str::to_owned),
        state: state.map(str::to_owned),
        error: error.map(str::to_owned),
        error_description: None,
    }
}

fn answer(next: (Callback, CallbackAction)) -> Reply {
    match next {
        (Callback::Answered, CallbackAction::Answer(reply)) => reply,
        _ => panic!("not answered"),
    }
}

fn refusal(next: (Callback, CallbackAction)) -> (u16, String) {
    let reply = answer(next);
    (reply.status, reply.body.get("error").unwrap().as_str().unwrap().to_owned())
}

fn begun() -> Callback {
    match Callback::begin(query(Some("c"), Some("s"), None)) {
        (at, CallbackAction::TakeVerifier(state)) => {
            assert_eq!(state, "s");
            at
        }
        _ => panic!("no verifier wanted"),
    }
}

fn verified() -> Callback {
    match begun().on(CallbackEvent::Verifier(Some("v".to_owned()), true)) {
        (at, CallbackAction::Exchange(code, verifier)) => {
            assert_eq!((code.as_str(), verifier.as_str()), ("c", "v"));
            at
        }
        _ => panic!("no exchange wanted"),
    }
}

fn granted(payload: &str) -> Callback {
    match verified().on(CallbackEvent::Exchanged(Ok(json(payload)))) {
        (at, CallbackAction::FetchConnections(token)) => {
            assert_eq!(token, "a");
            at
        }
        _ => panic!("no connections wanted"),
    }
}

fn login(payload: &str, connections: &[&str]) -> (Callback, Login) {
    let list = connections.iter().map(|c| json(c)).collect();
    match granted(payload).on(CallbackEvent::Connections(Ok(list), at(1000))) {
        (at, CallbackAction::Store(login)) => (at, login),
        _ => panic!("nothing stored"),
    }
}

const FULL: &str =
    r#"{"access_token":"a","refresh_token":"r","expires_in":60,"scope":"x  y"}"#;

#[test]
fn callback_queries_need_code_and_state() {
    assert_eq!(
        refusal(Callback::begin(query(Some("c"), Some("s"), Some("denied")))),
        (400, "oauth callback error: denied ".to_owned())
    );
    let mut described = query(None, None, Some("denied"));
    described.error_description = Some("by user".to_owned());
    assert_eq!(
        refusal(Callback::begin(described)),
        (400, "oauth callback error: denied by user".to_owned())
    );
    assert_eq!(
        refusal(Callback::begin(query(Some(" "), Some("s"), None))),
        (400, "missing required query param: code".to_owned())
    );
    assert_eq!(
        refusal(Callback::begin(query(Some("c"), None, None))),
        (400, "missing required query param: state".to_owned())
    );
}

#[test]
fn callback_verifiers_are_taken_before_anything_else() {
    assert_eq!(
        refusal(begun().on(CallbackEvent::Verifier(None, false))),
        (400, "invalid or expired oauth state".to_owned())
    );
    assert_eq!(
        refusal(begun().on(CallbackEvent::Verifier(Some("v".to_owned()), false))),
        (400, "oauth callback not enabled (custom connection mode)".to_owned())
    );
    let reply = login_refused();
    assert_eq!(reply.status, 400);
    assert_eq!(
        reply.body.to_text(),
        r#"{"error":"oauth login not enabled (custom connection mode)"}"#
    );
}

#[test]
fn token_payloads_have_to_be_complete() {
    let exchanged = |payload: &str| verified().on(CallbackEvent::Exchanged(Ok(json(payload))));
    assert_eq!(
        refusal(verified().on(CallbackEvent::Exchanged(Err("boom".to_owned())))),
        (502, "token exchange failed: boom".to_owned())
    );
    assert_eq!(
        refusal(exchanged(r#"{"access_token":""}"#)),
        (502, "token exchange response missing access_token".to_owned())
    );
    assert_eq!(
        refusal(exchanged(r#"{"access_token":"a"}"#)),
        (502, "token exchange response missing refresh_token".to_owned())
    );
}

#[test]
fn tokens_live_for_half_an_hour_unless_told() {
    let lifetime = |payload: &str| {
        login(payload, &[r#"{"tenantId":"t"}"#]).1.token.expires_at.unix_secs() - 1000
    };
    assert_eq!(lifetime(FULL), 60);
    assert_eq!(lifetime(r#"{"access_token":"a","refresh_token":"r"}"#), 1800);
    assert_eq!(lifetime(r#"{"access_token":"a","refresh_token":"r","expires_in":-5}"#), 1);
}

#[test]
fn first_connection_names_the_tenant() {
    let (_, login) =
        login(FULL, &[r#"{"tenantId":"t","tenantName":"T"}"#, r#"{"tenantId":"u"}"#]);
    assert_eq!(login.token.tenant_id, "t");
    assert_eq!(login.token.access_token, "a");
    assert_eq!(login.token.refresh_token, "r");
    assert_eq!(login.token.scopes, ["x", "y"]);
    assert_eq!(login.token.expires_at, at(1060));
    assert_eq!(login.tenant_name.as_deref(), Some("T"));
    let connected = |list| refusal(granted(FULL).on(CallbackEvent::Connections(list, at(0))));
    assert_eq!(
        connected(Ok(Vec::new())),
        (502, "no Xero connections found for token".to_owned())
    );
    assert_eq!(
        connected(Err("down".to_owned())),
        (502, "fetch connections failed: down".to_owned())
    );
    assert_eq!(
        connected(Ok(vec![json("{}")])),
        (502, "connection payload missing tenantId".to_owned())
    );
}

#[test]
fn callbacks_end_with_what_was_stored() {
    let storing = || login(FULL, &[r#"{"tenantId":"t"}"#]).0;
    let reply = answer(storing().on(CallbackEvent::Stored(Ok(()))));
    assert_eq!(reply.status, 200);
    assert_eq!(
        reply.body.to_text(),
        r#"{"message":"oauth exchange complete and token cached","status":"ok","tenant_id":"t","tenant_name":null}"#
    );
    let failed = |f| refusal(storing().on(CallbackEvent::Stored(Err(f))));
    assert_eq!(failed(StoreFailure::NoCache).1, "missing required env var: REDIS_URL");
    assert_eq!(
        failed(StoreFailure::CacheInit("x".to_owned())).1,
        "failed to initialize token cache: x"
    );
    assert_eq!(failed(StoreFailure::CacheSet("x".to_owned())).1, "failed to cache token: x");
    assert_eq!(
        failed(StoreFailure::Tenant("x".to_owned())),
        (500, "failed to upsert tenant in postgres: x".to_owned())
    );
}

#[test]
fn tokens_must_not_outlive_the_calendar() {
    let connected = |list| CallbackEvent::Connections(list, at(0));
    let named = || connected(Ok(vec![json(r#"{"tenantId":"t"}"#)]));
    assert!(granted(FULL).accepts(&named()));
    assert!(!granted(FULL).accepts(&CallbackEvent::Stored(Ok(()))));
    assert!(!begun().accepts(&named()));
    assert!(begun().accepts(&CallbackEvent::Verifier(None, true)));
    let endless = r#"{"access_token":"a","refresh_token":"r","expires_in":9223372036854775807}"#;
    assert!(!granted(endless).accepts(&named()));
    // Connections that are refused are answered, however long the token would live.
    assert!(granted(endless).accepts(&connected(Ok(Vec::new()))));
    assert_eq!(
        refusal(granted(endless).on(connected(Err("down".to_owned())))),
        (502, "fetch connections failed: down".to_owned())
    );
}

#[test]
fn states_admit_one_exchange() {
    let mut states = LoginStates::new();
    assert_eq!(states.take("s"), None);
    states.put("s".to_owned(), "v".to_owned());
    states.put("other".to_owned(), "w".to_owned());
    // The first callback with the state is exchanged.
    let verifier = states.take("s");
    assert_eq!(verifier.as_deref(), Some("v"));
    assert!(matches!(
        begun().on(CallbackEvent::Verifier(verifier, true)).1,
        CallbackAction::Exchange(..)
    ));
    // A second one is refused, whatever happened to other states since.
    states.put("third".to_owned(), "x".to_owned());
    assert_eq!(states.take("other").as_deref(), Some("w"));
    let verifier = states.take("s");
    assert_eq!(
        refusal(begun().on(CallbackEvent::Verifier(verifier, true))),
        (400, "invalid or expired oauth state".to_owned())
    );
    // A login that is given the state again can be completed.
    states.put("s".to_owned(), "v2".to_owned());
    states.put("s".to_owned(), "v3".to_owned());
    assert_eq!(states.take("s").as_deref(), Some("v3"));
}
