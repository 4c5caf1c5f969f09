use base64::Engine;
use talky::mcp::oauth::consent::{consent_window_label, ConsentRegistry, PendingConsent};
use talky::mcp::oauth::handlers::{
    authorize_begin, authorize_finish, authorize_finish_at, consent_request, token, html_error, is_loopback_redirect,
    new_consent_request,
    pkce_challenge, redirect_error, register, register_at, token_at,
    well_known_authorization_server, well_known_protected_resource, AuthorizeQuery,
    AuthorizeResponse, OAuthError, RegisterRequest, TokenRequest, TokenResponse,
};
use talky::mcp::oauth::store::{ClientRecord, ClientRow, KeyColumn, OAuthStore, RefreshRow, RevokedJti, StoreError};
use talky::mcp::oauth::{
    bearer_token, check_access_claims_at, encode_access_token, require_bearer_at,
    require_bearer_header, unauthorized,
    AccessClaims, OAuthState,
};

const VERIFIER: &str = "dBjftJeZ4CVP-mB92K27uhbUJU1p1r_wW1gFWFOEjXk";
const CHALLENGE: &str = "E9Melhoa2OwvFrEMTJguCHaoeK1t8URWbuGJSstw-cM";
const REDIRECT: &str = "http://127.0.0.1:9000/callback";

fn s(v: &str) -> String {
    v.to_string()
}

fn reg_request(uris: &[&str], method: Option<&str>) -> RegisterRequest {
    RegisterRequest {
        client_name: Some(s("Notes Desktop")),
        redirect_uris: uris.iter().map(|u| s(u)).collect(),
        token_endpoint_auth_method: method.map(s),
    }
}

fn query(client_id: &str) -> AuthorizeQuery {
    AuthorizeQuery {
        response_type: s("code"),
        client_id: s(client_id),
        redirect_uri: s(REDIRECT),
        state: Some(s("xyz")),
        code_challenge: s(CHALLENGE),
        code_challenge_method: s("S256"),
        scope: Some(s("notes")),
        resource: None,
    }
}

fn code_request(code: &str, client_id: &str, verifier: &str) -> TokenRequest {
    TokenRequest {
        grant_type: s("authorization_code"),
        code: Some(s(code)),
        redirect_uri: Some(s(REDIRECT)),
        code_verifier: Some(s(verifier)),
        client_id: Some(s(client_id)),
        refresh_token: None,
    }
}

fn refresh_request(token: &str, client_id: &str) -> TokenRequest {
    TokenRequest {
        grant_type: s("refresh_token"),
        code: None,
        redirect_uri: None,
        code_verifier: None,
        client_id: Some(s(client_id)),
        refresh_token: Some(s(token)),
    }
}

fn err_parts(e: &OAuthError) -> (u16, &str, &str) {
    (e.status, e.code.as_str(), e.description.as_str())
}

fn redirect_of(r: &AuthorizeResponse) -> &str {
    match r {
        AuthorizeResponse::Redirect(u) => u.as_str(),
        AuthorizeResponse::Html(status, body) => panic!("expected a redirect, got {status}: {body}"),
    }
}

/// A server on port 47823 with one registered client "c1" and an approved
/// authorization whose code is "code-1", issued at time 1000.
fn authorized_server() -> OAuthState {
    let mut state = OAuthState::initialise(OAuthStore::new());
    state.set_port(47823);
    register_at(&mut state.store, &reg_request(&[REDIRECT], None), s("c1"), 900).unwrap();
    let q = query("c1");
    let client = authorize_begin(&state.store, &q).unwrap();
    let answer = authorize_finish_at(&mut state.store, &q, &client, true, "code-1", 1000);
    assert_eq!(redirect_of(&answer), "http://127.0.0.1:9000/callback?code=code-1&state=xyz");
    state
}

fn issued(r: Result<TokenResponse, OAuthError>) -> TokenResponse {
    match r {
        Ok(t) => t,
        Err(e) => panic!("expected tokens, got {:?}", e),
    }
}

#[test]
fn pkce_challenge_matches_rfc_7636() {
    assert_eq!(pkce_challenge(VERIFIER), CHALLENGE);
    assert_ne!(pkce_challenge("another-verifier"), CHALLENGE);
}

#[test]
fn error_constructors() {
    assert_eq!(err_parts(&OAuthError::invalid_request("m")), (400, "invalid_request", "m"));
    assert_eq!(err_parts(&OAuthError::invalid_grant("m")), (400, "invalid_grant", "m"));
    assert_eq!(err_parts(&OAuthError::unsupported_grant_type("m")), (400, "unsupported_grant_type", "m"));
    assert_eq!(err_parts(&OAuthError::server_error("m")), (500, "server_error", "m"));
}

#[test]
fn metadata_documents() {
    let mut state = OAuthState::initialise(OAuthStore::new());
    state.set_port(47823);
    let m = well_known_authorization_server(&state);
    assert_eq!(m.issuer, "http://127.0.0.1:47823");
    assert_eq!(m.authorization_endpoint, "http://127.0.0.1:47823/authorize");
    assert_eq!(m.token_endpoint, "http://127.0.0.1:47823/token");
    assert_eq!(m.registration_endpoint, "http://127.0.0.1:47823/register");
    assert_eq!(m.response_types_supported, vec![s("code")]);
    assert_eq!(m.grant_types_supported, vec![s("authorization_code"), s("refresh_token")]);
    assert_eq!(m.code_challenge_methods_supported, vec![s("S256")]);
    assert_eq!(m.token_endpoint_auth_methods_supported, vec![s("none")]);
    let r = well_known_protected_resource(&state);
    assert_eq!(r.resource, "http://127.0.0.1:47823/mcp");
    assert_eq!(r.authorization_servers, vec![s("http://127.0.0.1:47823")]);
    assert_eq!(r.bearer_methods_supported, vec![s("header")]);
}

#[test]
fn only_loopback_http_redirects_are_accepted() {
    assert!(is_loopback_redirect("http://127.0.0.1:33418/callback"));
    assert!(is_loopback_redirect("http://localhost:8080/cb"));
    assert!(!is_loopback_redirect("https://127.0.0.1/cb"));
    assert!(!is_loopback_redirect("http://evil.example/cb"));
    assert!(!is_loopback_redirect("http://127.0.0.2/cb"));
    assert!(!is_loopback_redirect("not a url"));
}

#[test]
fn registration_answers_and_refusals() {
    let mut store = OAuthStore::new();
    let resp = register_at(&mut store, &reg_request(&[REDIRECT], Some("none")), s("id-1"), 1234).unwrap();
    assert_eq!(resp.client_id, "id-1");
    assert_eq!(resp.client_id_issued_at, 1234);
    assert_eq!(resp.redirect_uris, vec![s(REDIRECT)]);
    assert_eq!(resp.token_endpoint_auth_method, "none");
    assert_eq!(resp.grant_types, vec![s("authorization_code"), s("refresh_token")]);
    assert_eq!(resp.response_types, vec![s("code")]);
    assert_eq!(resp.client_name, "Notes Desktop");
    assert_eq!(store.get_client("id-1").map(|c| c.created_at), Some(1234));

    let unnamed = RegisterRequest { client_name: None, redirect_uris: vec![s(REDIRECT)], token_endpoint_auth_method: None };
    assert_eq!(register_at(&mut store, &unnamed, s("id-2"), 1).unwrap().client_name, "Unnamed MCP client");

    let e = register_at(&mut store, &reg_request(&[], None), s("x"), 1).unwrap_err();
    assert_eq!(err_parts(&e), (400, "invalid_request", "redirect_uris is required"));
    let e = register_at(&mut store, &reg_request(&[REDIRECT, "https://evil.example/cb"], None), s("x"), 1).unwrap_err();
    assert_eq!(
        err_parts(&e),
        (400, "invalid_request", "only http://127.0.0.1:* / http://localhost:* redirect URIs are accepted")
    );
    let e = register_at(&mut store, &reg_request(&[REDIRECT], Some("client_secret_basic")), s("x"), 1).unwrap_err();
    assert_eq!(
        err_parts(&e),
        (400, "invalid_request", "only token_endpoint_auth_method=none (public clients) is supported")
    );
    assert!(store.get_client("x").is_none());

    let e = register_at(&mut store, &reg_request(&[REDIRECT], None), s("id-1"), 5).unwrap_err();
    assert_eq!(err_parts(&e), (500, "server_error", "UNIQUE constraint failed: clients.id"));
}

#[test]
fn registration_with_fresh_id() {
    let mut store = OAuthStore::new();
    let resp = register(&mut store, &reg_request(&[REDIRECT], None)).unwrap();
    assert_eq!(resp.client_id.len(), 36);
    assert!(store.get_client(&resp.client_id).is_some());
}

#[test]
fn authorization_request_checks() {
    let mut store = OAuthStore::new();
    register_at(&mut store, &reg_request(&[REDIRECT], None), s("c1"), 1).unwrap();

    let mut q = query("c1");
    q.response_type = s("token");
    let r = authorize_begin(&store, &q).unwrap_err();
    assert_eq!(redirect_of(&r), "http://127.0.0.1:9000/callback?error=unsupported_response_type&state=xyz");

    let mut q = query("c1");
    q.code_challenge_method = s("plain");
    let r = authorize_begin(&store, &q).unwrap_err();
    assert_eq!(
        redirect_of(&r),
        "http://127.0.0.1:9000/callback?error=invalid_request&error_description=code_challenge_method+must+be+S256&state=xyz"
    );

    match authorize_begin(&store, &query("unknown")).unwrap_err() {
        AuthorizeResponse::Html(400, body) => {
            assert_eq!(body, "<html><body><h1>Authorization error</h1><p>Unknown client_id</p></body></html>")
        }
        other => panic!("unexpected {:?}", other),
    }

    let mut q = query("c1");
    q.redirect_uri = s("http://127.0.0.1:9000/other");
    match authorize_begin(&store, &q).unwrap_err() {
        AuthorizeResponse::Html(400, body) => assert!(body.contains("redirect_uri does not match a registered URI")),
        other => panic!("unexpected {:?}", other),
    }

    assert_eq!(authorize_begin(&store, &query("c1")).unwrap().id, "c1");
}

#[test]
fn consent_request_for_the_window() {
    let mut store = OAuthStore::new();
    register_at(&mut store, &reg_request(&[REDIRECT], None), s("c1"), 1).unwrap();
    let q = query("c1");
    let client = authorize_begin(&store, &q).unwrap();
    let p = consent_request(s("req-1"), &client, &q);
    assert_eq!(p.request_id, "req-1");
    assert_eq!(p.client_id, "c1");
    assert_eq!(p.client_name, "Notes Desktop");
    assert_eq!(p.redirect_uri, REDIRECT);
    assert_eq!(p.scope.as_deref(), Some("notes"));
}

#[test]
fn denied_authorization_is_reported_to_the_client() {
    let mut store = OAuthStore::new();
    register_at(&mut store, &reg_request(&[REDIRECT], None), s("c1"), 1).unwrap();
    let q = query("c1");
    let client = authorize_begin(&store, &q).unwrap();
    let r = authorize_finish_at(&mut store, &q, &client, false, "unused", 5);
    assert_eq!(
        redirect_of(&r),
        "http://127.0.0.1:9000/callback?error=access_denied&error_description=user+denied+authorization&state=xyz"
    );
    assert!(store.auth_codes.is_empty());
}

#[test]
fn error_pages_escape_their_message() {
    match html_error("bad <script>") {
        AuthorizeResponse::Html(400, body) => assert_eq!(
            body,
            "<html><body><h1>Authorization error</h1><p>bad &lt;script&gt;</p></body></html>"
        ),
        other => panic!("unexpected {:?}", other),
    }
    match redirect_error("not a url", None, "access_denied", None) {
        AuthorizeResponse::Html(400, body) => assert!(body.contains("OAuth error: access_denied")),
        other => panic!("unexpected {:?}", other),
    }
}

#[test]
fn approved_code_is_exchanged_once_for_tokens() {
    let mut state = authorized_server();
    let t = issued(token_at(&mut state, &code_request("code-1", "c1", VERIFIER), 1100, s("jti-1"), s("refresh-1")));
    assert_eq!(t.token_type, "Bearer");
    assert_eq!(t.expires_in, 3600);
    assert_eq!(t.refresh_token, "refresh-1");
    assert_eq!(t.access_token.split('.').count(), 3);
    assert_eq!(state.store.get_client("c1").unwrap().last_used_at, Some(1100));

    let e = token_at(&mut state, &code_request("code-1", "c1", VERIFIER), 1101, s("jti-2"), s("refresh-2")).unwrap_err();
    assert_eq!(err_parts(&e), (400, "invalid_grant", "invalid or expired authorization code"));
}

#[test]
fn code_exchange_refusals() {
    let mut state = authorized_server();
    let e = token_at(&mut state, &code_request("code-1", "c1", "wrong-verifier"), 1100, s("j"), s("r")).unwrap_err();
    assert_eq!(err_parts(&e), (400, "invalid_grant", "PKCE verifier mismatch"));
    // The failed attempt spent the code.
    let e = token_at(&mut state, &code_request("code-1", "c1", VERIFIER), 1100, s("j"), s("r")).unwrap_err();
    assert_eq!(err_parts(&e), (400, "invalid_grant", "invalid or expired authorization code"));

    let mut state = authorized_server();
    let e = token_at(&mut state, &code_request("code-1", "other", VERIFIER), 1100, s("j"), s("r")).unwrap_err();
    assert_eq!(err_parts(&e), (400, "invalid_grant", "client_id mismatch"));

    let mut state = authorized_server();
    let mut req = code_request("code-1", "c1", VERIFIER);
    req.redirect_uri = Some(s("http://127.0.0.1:9000/elsewhere"));
    let e = token_at(&mut state, &req, 1100, s("j"), s("r")).unwrap_err();
    assert_eq!(err_parts(&e), (400, "invalid_grant", "redirect_uri mismatch"));

    let mut state = authorized_server();
    let e = token_at(&mut state, &code_request("code-1", "c1", VERIFIER), 1601, s("j"), s("r")).unwrap_err();
    assert_eq!(err_parts(&e), (400, "invalid_grant", "invalid or expired authorization code"));

    let mut state = authorized_server();
    assert!(token_at(&mut state, &code_request("code-1", "c1", VERIFIER), 1600, s("j"), s("r")).is_ok());
}

#[test]
fn incomplete_token_requests() {
    let mut state = authorized_server();
    let mut req = code_request("code-1", "c1", VERIFIER);
    req.code = None;
    assert_eq!(err_parts(&token_at(&mut state, &req, 1100, s("j"), s("r")).unwrap_err()), (400, "invalid_request", "code required"));
    let mut req = code_request("code-1", "c1", VERIFIER);
    req.redirect_uri = None;
    assert_eq!(err_parts(&token_at(&mut state, &req, 1100, s("j"), s("r")).unwrap_err()), (400, "invalid_request", "redirect_uri required"));
    let mut req = code_request("code-1", "c1", VERIFIER);
    req.code_verifier = None;
    assert_eq!(err_parts(&token_at(&mut state, &req, 1100, s("j"), s("r")).unwrap_err()), (400, "invalid_request", "code_verifier required"));
    let mut req = code_request("code-1", "c1", VERIFIER);
    req.client_id = None;
    assert_eq!(err_parts(&token_at(&mut state, &req, 1100, s("j"), s("r")).unwrap_err()), (400, "invalid_request", "client_id required"));
    let mut req = refresh_request("x", "c1");
    req.refresh_token = None;
    assert_eq!(err_parts(&token_at(&mut state, &req, 1100, s("j"), s("r")).unwrap_err()), (400, "invalid_request", "refresh_token required"));
    let mut req = refresh_request("x", "c1");
    req.client_id = None;
    assert_eq!(err_parts(&token_at(&mut state, &req, 1100, s("j"), s("r")).unwrap_err()), (400, "invalid_request", "client_id required"));
    let mut req = refresh_request("x", "c1");
    req.grant_type = s("password");
    assert_eq!(
        err_parts(&token_at(&mut state, &req, 1100, s("j"), s("r")).unwrap_err()),
        (400, "unsupported_grant_type", "unsupported grant_type: password")
    );
    // None of these spent the code.
    assert!(token_at(&mut state, &code_request("code-1", "c1", VERIFIER), 1100, s("j"), s("r")).is_ok());
}

#[test]
fn refresh_tokens_rotate() {
    let mut state = authorized_server();
    issued(token_at(&mut state, &code_request("code-1", "c1", VERIFIER), 1100, s("jti-1"), s("refresh-1")));
    let t = issued(token_at(&mut state, &refresh_request("refresh-1", "c1"), 2000, s("jti-2"), s("refresh-2")));
    assert_eq!(t.refresh_token, "refresh-2");
    let e = token_at(&mut state, &refresh_request("refresh-1", "c1"), 2001, s("jti-3"), s("refresh-3")).unwrap_err();
    assert_eq!(err_parts(&e), (400, "invalid_grant", "invalid or expired refresh_token"));

    let e = token_at(&mut state, &refresh_request("refresh-2", "someone-else"), 2002, s("j"), s("r")).unwrap_err();
    assert_eq!(err_parts(&e), (400, "invalid_grant", "client_id mismatch"));
    // The mismatched attempt spent it.
    let e = token_at(&mut state, &refresh_request("refresh-2", "c1"), 2003, s("j"), s("r")).unwrap_err();
    assert_eq!(err_parts(&e), (400, "invalid_grant", "invalid or expired refresh_token"));
}

#[test]
fn refresh_tokens_expire_after_thirty_days() {
    let mut state = authorized_server();
    issued(token_at(&mut state, &code_request("code-1", "c1", VERIFIER), 1100, s("jti-1"), s("refresh-1")));
    let later = 1100 + 30 * 24 * 3600 + 1;
    let e = token_at(&mut state, &refresh_request("refresh-1", "c1"), later, s("j"), s("r")).unwrap_err();
    assert_eq!(err_parts(&e), (400, "invalid_grant", "invalid or expired refresh_token"));
}

#[test]
fn revoked_clients_lose_their_refresh_tokens() {
    let mut state = authorized_server();
    issued(token_at(&mut state, &code_request("code-1", "c1", VERIFIER), 1100, s("jti-1"), s("refresh-1")));
    state.store.revoke_client("c1");
    assert!(state.store.get_client("c1").is_none());
    let e = token_at(&mut state, &refresh_request("refresh-1", "c1"), 1200, s("j"), s("r")).unwrap_err();
    assert_eq!(err_parts(&e), (400, "invalid_grant", "invalid or expired refresh_token"));
}

#[test]
fn minted_access_tokens_decode_with_the_signing_key() {
    let mut state = authorized_server();
    let now = chrono::Utc::now().timestamp();
    let q = query("c1");
    let client = authorize_begin(&state.store, &q).unwrap();
    authorize_finish_at(&mut state.store, &q, &client, true, "code-now", now);
    let t = issued(token_at(&mut state, &code_request("code-now", "c1", VERIFIER), now, s("jti-now"), s("refresh-now")));

    let mut validation = jsonwebtoken::Validation::new(jsonwebtoken::Algorithm::HS256);
    validation.set_audience(&["mcp"]);
    validation.set_issuer(&["http://127.0.0.1:47823"]);
    let decoded = jsonwebtoken::decode::<serde_json::Value>(
        &t.access_token,
        &jsonwebtoken::DecodingKey::from_secret(&state.signing_key),
        &validation,
    )
    .expect("the token decodes");
    assert_eq!(decoded.claims["sub"], "c1");
    assert_eq!(decoded.claims["aud"], "mcp");
    assert_eq!(decoded.claims["jti"], "jti-now");
    assert_eq!(decoded.claims["iat"], now);
    assert_eq!(decoded.claims["exp"], now + 3600);
    assert_eq!(decoded.header.alg, jsonwebtoken::Algorithm::HS256);

    let wrong = jsonwebtoken::decode::<serde_json::Value>(
        &t.access_token,
        &jsonwebtoken::DecodingKey::from_secret(b"another key"),
        &validation,
    );
    assert!(wrong.is_err());
}

#[test]
fn encoded_token_header_and_payload() {
    let claims = AccessClaims {
        sub: s("c\"1"),
        iss: s("http://127.0.0.1:1"),
        aud: s("mcp"),
        exp: 20,
        iat: -5,
        jti: s("j"),
    };
    assert_eq!(
        claims.to_json(),
        "{\"sub\":\"c\\\"1\",\"iss\":\"http://127.0.0.1:1\",\"aud\":\"mcp\",\"exp\":20,\"iat\":-5,\"jti\":\"j\"}"
    );
    let token = encode_access_token(&claims, b"secret");
    let parts: Vec<&str> = token.split('.').collect();
    assert_eq!(parts[0], "eyJ0eXAiOiJKV1QiLCJhbGciOiJIUzI1NiJ9");
    let payload = base64::engine::general_purpose::URL_SAFE_NO_PAD.decode(parts[1]).unwrap();
    assert_eq!(String::from_utf8(payload).unwrap(), claims.to_json());
    assert!(!parts[2].is_empty());
    assert_ne!(encode_access_token(&claims, b"other"), token);
}

#[test]
fn bearer_tokens_are_read_from_the_header() {
    assert_eq!(bearer_token(Some("Bearer abc.def")), Some(s("abc.def")));
    assert_eq!(bearer_token(Some("Bearer   padded \t")), Some(s("padded")));
    assert_eq!(bearer_token(Some("bearer abc")), None);
    assert_eq!(bearer_token(Some("Basic abc")), None);
    assert_eq!(bearer_token(Some("Bearer")), None);
    assert_eq!(bearer_token(None), None);
}

fn claims_for(sub: &str, jti: &str) -> AccessClaims {
    AccessClaims { sub: s(sub), iss: s("http://127.0.0.1:47823"), aud: s("mcp"), exp: 10_000, iat: 1, jti: s(jti) }
}

#[test]
fn bearer_gate_answers() {
    let mut state = authorized_server();
    let u = require_bearer_at(&mut state, None, 5).unwrap_err();
    assert_eq!(u.status, 401);
    assert_eq!(u.error, "invalid_token");
    assert_eq!(u.error_description, "missing Bearer token");
    assert_eq!(
        u.www_authenticate,
        "Bearer realm=\"mcp\", resource_metadata=\"http://127.0.0.1:47823/.well-known/oauth-protected-resource\", error=\"invalid_token\", error_description=\"missing Bearer token\""
    );

    let u = require_bearer_at(&mut state, Some(Err(s("ExpiredSignature"))), 5).unwrap_err();
    assert_eq!(u.error_description, "invalid token: ExpiredSignature");

    assert!(require_bearer_at(&mut state, Some(Ok(claims_for("c1", "a"))), 4242).is_ok());
    assert_eq!(state.store.get_client("c1").unwrap().last_used_at, Some(4242));

    let u = require_bearer_at(&mut state, Some(Ok(claims_for("ghost", "a"))), 5).unwrap_err();
    assert_eq!(u.error_description, "client revoked");

    state.store.revoked_access_jti.push(RevokedJti { jti: s("bad"), revoked_at: 1 });
    let u = require_bearer_at(&mut state, Some(Ok(claims_for("c1", "bad"))), 5).unwrap_err();
    assert_eq!(u.error_description, "token revoked");
}

#[test]
fn unauthorized_header_replaces_double_quotes() {
    let u = unauthorized("http://127.0.0.1:1", "say \"hi\"");
    assert_eq!(u.error_description, "say \"hi\"");
    assert!(u.www_authenticate.ends_with("error_description=\"say 'hi'\""));
}

#[test]
fn access_claims_checks() {
    let mut store = OAuthStore::new();
    store.register_client_at(s("c1"), "C", &vec![s(REDIRECT)], 1).unwrap();
    assert_eq!(check_access_claims_at(&mut store, &claims_for("c1", "j"), 77), Ok(()));
    assert_eq!(store.get_client("c1").unwrap().last_used_at, Some(77));
    store.revoke_client("c1");
    assert_eq!(check_access_claims_at(&mut store, &claims_for("c1", "j"), 78), Err(s("client revoked")));
}

#[test]
fn store_tables() {
    let mut store = OAuthStore::new();
    let uris = vec![s(REDIRECT)];
    let c = store.register_client_at(s("c"), "Name", &uris, 10).unwrap();
    assert_eq!((c.id.as_str(), c.name.as_str(), c.created_at, c.last_used_at), ("c", "Name", 10, None));
    assert_eq!(
        store.register_client_at(s("c"), "Again", &uris, 11).unwrap_err(),
        StoreError::DuplicateKey(KeyColumn::ClientId)
    );
    assert_eq!(StoreError::DuplicateKey(KeyColumn::ClientId).message(), "UNIQUE constraint failed: clients.id");
    assert_eq!(StoreError::DuplicateKey(KeyColumn::AuthCode).message(), "UNIQUE constraint failed: auth_codes.code");
    assert_eq!(
        StoreError::DuplicateKey(KeyColumn::RefreshJti).message(),
        "UNIQUE constraint failed: refresh_tokens.jti"
    );

    assert_eq!(store.store_auth_code_at("k", "c", REDIRECT, CHALLENGE, None, 100), Ok(()));
    assert_eq!(store.store_auth_code_at("k", "c", REDIRECT, CHALLENGE, None, 100), Err(StoreError::DuplicateKey(KeyColumn::AuthCode)));
    let rec = store.consume_auth_code_at("k", 700).unwrap();
    assert_eq!((rec.code.as_str(), rec.client_id.as_str(), rec.created_at, rec.used), ("k", "c", 100, false));
    assert!(store.consume_auth_code_at("k", 701).is_none());
    assert!(store.consume_auth_code_at("missing", 1).is_none());

    assert_eq!(store.store_refresh("r", "c", 500), Ok(()));
    assert_eq!(store.store_refresh("r", "c", 500), Err(StoreError::DuplicateKey(KeyColumn::RefreshJti)));
    assert_eq!(store.consume_refresh_at("r", 500), Some(s("c")));
    assert_eq!(store.consume_refresh_at("r", 1), None);
    assert_eq!(store.store_refresh("old", "c", 500), Ok(()));
    assert_eq!(store.consume_refresh_at("old", 501), None);
    assert!(store.refresh_tokens.is_empty());

    assert!(!store.is_access_jti_revoked("j"));
    store.revoked_access_jti.push(RevokedJti { jti: s("j"), revoked_at: 3 });
    assert!(store.is_access_jti_revoked("j"));
}

#[test]
fn signing_key_is_made_once() {
    let mut store = OAuthStore::new();
    let k1 = store.get_or_create_signing_key_with(vec![1, 2, 3], 9);
    assert_eq!(k1, vec![1, 2, 3]);
    let k2 = store.get_or_create_signing_key_with(vec![4, 5, 6], 10);
    assert_eq!(k2, vec![1, 2, 3]);
    let mut fresh = OAuthStore::new();
    let k = fresh.get_or_create_signing_key();
    assert_eq!(k.len(), 32);
    assert_eq!(fresh.get_or_create_signing_key(), k);
    let state = OAuthState::initialise(store);
    assert_eq!(state.signing_key, vec![1, 2, 3]);
    assert_eq!(state.bound_port, 0);
}

#[test]
fn consent_requests_wait_until_resolved() {
    let mut reg = ConsentRegistry::new();
    let p = |id: &str, client: &str| PendingConsent {
        request_id: s(id),
        client_id: s(client),
        client_name: s("Client"),
        redirect_uri: s(REDIRECT),
        scope: None,
    };
    reg.register(p("r1", "a"));
    reg.register(p("r2", "b"));
    reg.register(p("r1", "c"));
    assert_eq!(reg.get("r1").map(|x| x.client_id), Some(s("c")));
    assert_eq!(reg.get("r2").map(|x| x.client_id), Some(s("b")));
    assert!(reg.resolve("r1"));
    assert!(reg.get("r1").is_none());
    assert!(!reg.resolve("r1"));
    assert!(reg.get("r2").is_some());
}

#[test]
fn consent_window_labels_keep_alphanumerics() {
    assert_eq!(consent_window_label("3f2a-11_B c"), "mcpconsent_3f2a11Bc");
    assert_eq!(consent_window_label(""), "mcpconsent_");
}

#[test]
fn revoked_client_cannot_authorize_or_call() {
    let mut state = authorized_server();
    state.store.revoke_client("c1");
    match authorize_begin(&state.store, &query("c1")).unwrap_err() {
        AuthorizeResponse::Html(400, body) => assert!(body.contains("Unknown client_id")),
        other => panic!("unexpected {:?}", other),
    }
    let u = require_bearer_at(&mut state, Some(Ok(claims_for("c1", "x"))), 5).unwrap_err();
    assert_eq!(u.error_description, "client revoked");
}

#[test]
fn bearer_header_is_decoded_and_checked() {
    let mut state = authorized_server();
    let u = require_bearer_header(&mut state, None).unwrap_err();
    assert_eq!(u.error_description, "missing Bearer token");
    let u = require_bearer_header(&mut state, Some("Basic abc")).unwrap_err();
    assert_eq!(u.error_description, "missing Bearer token");

    let far = AccessClaims { exp: 4_000_000_000, ..claims_for("c1", "live") };
    let good = encode_access_token(&far, &state.signing_key);
    let header = format!("Bearer {good}");
    assert!(require_bearer_header(&mut state, Some(&header)).is_ok());
    assert!(state.store.get_client("c1").unwrap().last_used_at.is_some());

    let forged = encode_access_token(&far, b"not the key");
    let u = require_bearer_header(&mut state, Some(&format!("Bearer {forged}"))).unwrap_err();
    assert_eq!(u.error_description, "invalid token: InvalidSignature");

    let expired = encode_access_token(&claims_for("c1", "old"), &state.signing_key);
    let u = require_bearer_header(&mut state, Some(&format!("Bearer {expired}"))).unwrap_err();
    assert_eq!(u.error_description, "invalid token: ExpiredSignature");

    let other_audience = AccessClaims { aud: s("web"), ..AccessClaims { exp: 4_000_000_000, ..claims_for("c1", "x") } };
    let t = encode_access_token(&other_audience, &state.signing_key);
    let u = require_bearer_header(&mut state, Some(&format!("Bearer {t}"))).unwrap_err();
    assert_eq!(u.error_description, "invalid token: InvalidAudience");

    let ghost = AccessClaims { exp: 4_000_000_000, ..claims_for("nobody", "g") };
    let t = encode_access_token(&ghost, &state.signing_key);
    let u = require_bearer_header(&mut state, Some(&format!("Bearer {t}"))).unwrap_err();
    assert_eq!(u.error_description, "client revoked");
}

#[test]
fn registration_succeeds_on_an_empty_store() {
    let mut store = OAuthStore::new();
    let r = register(&mut store, &reg_request(&[REDIRECT], None)).unwrap();
    assert_eq!(r.client_id.len(), 36);
    assert!(store.get_client(&r.client_id).is_some());
    let again = register(&mut store, &reg_request(&[REDIRECT], None)).unwrap();
    assert_ne!(again.client_id, r.client_id);
}

#[test]
fn fresh_consent_requests_get_a_uuid() {
    let state = authorized_server();
    let q = query("c1");
    let client = authorize_begin(&state.store, &q).unwrap();
    let p = new_consent_request(&client, &q);
    assert_eq!(p.request_id.len(), 36);
    assert_eq!((p.client_id.as_str(), p.redirect_uri.as_str()), ("c1", REDIRECT));
    assert_ne!(new_consent_request(&client, &q).request_id, p.request_id);
}

fn client_row(id: &str) -> ClientRow {
    ClientRow {
        record: ClientRecord { id: s(id), name: s("n"), redirect_uris: vec![s(REDIRECT)], created_at: 1, last_used_at: None },
        revoked: false,
    }
}

fn refresh_row(jti: &str) -> RefreshRow {
    RefreshRow { jti: s(jti), client_id: s("a"), expires_at: 100, revoked: false }
}

#[test]
fn tables_read_back_must_have_unique_keys() {
    let store = OAuthStore::from_tables(
        vec![client_row("a"), client_row("b")],
        vec![],
        vec![refresh_row("r1"), refresh_row("r2")],
        vec![RevokedJti { jti: s("j"), revoked_at: 2 }],
        None,
    )
    .unwrap();
    assert_eq!(store.clients.len(), 2);
    assert!(store.get_client("b").is_some());
    assert!(store.is_access_jti_revoked("j"));

    let dup_clients = OAuthStore::from_tables(vec![client_row("a"), client_row("a")], vec![], vec![], vec![], None);
    assert_eq!(dup_clients.unwrap_err(), StoreError::DuplicateKey(KeyColumn::ClientId));
    let dup_refresh =
        OAuthStore::from_tables(vec![], vec![], vec![refresh_row("r"), refresh_row("x"), refresh_row("r")], vec![], None);
    assert_eq!(dup_refresh.unwrap_err(), StoreError::DuplicateKey(KeyColumn::RefreshJti));
}

#[test]
fn revoking_a_client_leaves_the_others() {
    let mut store = OAuthStore::new();
    store.register_client_at(s("a"), "A", &vec![s(REDIRECT)], 1).unwrap();
    store.register_client_at(s("b"), "B", &vec![s(REDIRECT)], 2).unwrap();
    store.touch_client_at("b", 5);
    let before = format!("{:?}", store.get_client("b"));
    store.revoke_client("a");
    assert!(store.get_client("a").is_none());
    assert_eq!(format!("{:?}", store.get_client("b")), before);
    let listed: Vec<String> = store.list_clients().into_iter().map(|c| c.id).collect();
    assert_eq!(listed, vec![s("b")]);
}

fn is_uuid_v4_text(t: &str) -> bool {
    let b = t.as_bytes();
    b.len() == 36
        && b.iter().enumerate().all(|(i, c)| {
            if [8, 13, 18, 23].contains(&i) { *c == b'-' } else { c.is_ascii_digit() || (b'a'..=b'f').contains(c) }
        })
        && b[14] == b'4'
        && b"89ab".contains(&b[19])
}

fn is_base64url_of_32_bytes(t: &str) -> bool {
    t.len() == 43
        && t.bytes().all(|c| c.is_ascii_alphanumeric() || c == b'-' || c == b'_')
        && base64::engine::general_purpose::URL_SAFE_NO_PAD.decode(t).map(|v| v.len() == 32).unwrap_or(false)
}

#[test]
fn fresh_ids_are_uuids_and_fresh_secrets_are_base64url() {
    let mut state = OAuthState::initialise(OAuthStore::new());
    state.set_port(47823);
    let reg = register(&mut state.store, &reg_request(&[REDIRECT], None)).unwrap();
    assert!(is_uuid_v4_text(&reg.client_id));
    let q = query(&reg.client_id);
    let client = authorize_begin(&state.store, &q).unwrap();
    let code = match authorize_finish(&mut state.store, &q, &client, true) {
        AuthorizeResponse::Redirect(u) => u.split("code=").nth(1).unwrap().split('&').next().unwrap().to_string(),
        other => panic!("unexpected {:?}", other),
    };
    assert!(is_base64url_of_32_bytes(&code));
    let pair = token(&mut state, &code_request(&code, &reg.client_id, VERIFIER)).unwrap();
    assert!(is_base64url_of_32_bytes(&pair.refresh_token));
    let payload = pair.access_token.split('.').nth(1).unwrap();
    let claims: serde_json::Value =
        serde_json::from_slice(&base64::engine::general_purpose::URL_SAFE_NO_PAD.decode(payload).unwrap()).unwrap();
    assert!(is_uuid_v4_text(claims["jti"].as_str().unwrap()));
    assert_eq!(claims["exp"].as_i64().unwrap() - claims["iat"].as_i64().unwrap(), 3600);
}
