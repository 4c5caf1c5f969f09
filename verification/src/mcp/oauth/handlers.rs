//! The OAuth 2.1 endpoints the MCP server exposes on loopback: metadata
//! documents, dynamic client registration (RFC 7591), the authorization
//! endpoint with user consent and PKCE (S256), and the token endpoint for
//! authorization codes and refresh tokens.
//!
//! Each endpoint is a function from the request and the server state to the
//! response; transport (HTTP framing, JSON, waiting for the consent window)
//! is left to the caller.

use vstd::prelude::*;
use vstd::utf8::encode_utf8;
use crate::ids::{is_uuid_v4_text, new_uuid_v4, unix_now};
use crate::mcp::oauth::consent::PendingConsent;
use crate::mcp::oauth::crypto::{base64url_encode, base64url_nopad, encodes_bytes, random_token, sha256, sha256_digest};
use crate::mcp::oauth::store::{
    clone_opt, clone_strings, new_code_row, opt_str_view, opt_view, spec_consume_auth_code,
    spec_consume_refresh, spec_get_client, spec_register_client, spec_store_auth_code,
    spec_store_refresh, spec_touch_client, strings_view, ClientRecord, ClientView, OAuthStore,
    duplicate_key_message, KeyColumn, RefreshView, StoreState,
};
use crate::mcp::oauth::urls::{append_query_pairs, pairs_view, parse_scheme_host, url_scheme_host, url_with_query};
use crate::mcp::oauth::{audience, claims_json_of, encode_access_token, jwt_hs256, AccessClaims, OAuthState};
use crate::mcp::spec_public_url;
use crate::text::{html_escape, html_escaped, push_str, str_eq, string_of};

verus! {

// ---------------------------------------------------------------------------
// Errors of the JSON endpoints
// ---------------------------------------------------------------------------

/// An OAuth error answer: HTTP status, error code and description.
#[derive(Debug)]
pub struct OAuthError {
    pub status: u16,
    pub code: String,
    pub description: String,
}

/// An OAuth error as plain values: status, code, description.
pub type OAuthErrorView = (u16, Seq<char>, Seq<char>);

impl View for OAuthError {
    type V = OAuthErrorView;

    open spec fn view(&self) -> OAuthErrorView {
        (self.status, self.code@, self.description@)
    }
}

/// A malformed request (400).
pub open spec fn invalid_request_view(msg: Seq<char>) -> OAuthErrorView {
    (400, "invalid_request"@, msg)
}

/// A refused grant (400).
pub open spec fn invalid_grant_view(msg: Seq<char>) -> OAuthErrorView {
    (400, "invalid_grant"@, msg)
}

/// An unknown grant type (400).
pub open spec fn unsupported_grant_type_view(msg: Seq<char>) -> OAuthErrorView {
    (400, "unsupported_grant_type"@, msg)
}

/// A failure of the server (500).
pub open spec fn server_error_view(msg: Seq<char>) -> OAuthErrorView {
    (500, "server_error"@, msg)
}

impl OAuthError {
    /// A malformed request (400).
    pub fn invalid_request(msg: &str) -> (e: Self)
        ensures
            e@ == invalid_request_view(msg@),
    {
        OAuthError { status: 400, code: string_of("invalid_request"), description: string_of(msg) }
    }

    /// A refused grant (400).
    pub fn invalid_grant(msg: &str) -> (e: Self)
        ensures
            e@ == invalid_grant_view(msg@),
    {
        OAuthError { status: 400, code: string_of("invalid_grant"), description: string_of(msg) }
    }

    /// An unknown grant type (400).
    pub fn unsupported_grant_type(msg: &str) -> (e: Self)
        ensures
            e@ == unsupported_grant_type_view(msg@),
    {
        OAuthError {
            status: 400,
            code: string_of("unsupported_grant_type"),
            description: string_of(msg),
        }
    }

    /// A failure of the server (500).
    pub fn server_error(msg: &str) -> (e: Self)
        ensures
            e@ == server_error_view(msg@),
    {
        OAuthError { status: 500, code: string_of("server_error"), description: string_of(msg) }
    }
}

/// The description of a failed write to the key column `column`.
pub open spec fn store_failure(column: KeyColumn) -> Seq<char> {
    duplicate_key_message(column)
}

fn strings2(a: &str, b: &str) -> (v: Vec<String>)
    ensures
        strings_view(v@) == seq![a@, b@],
{
    let mut v: Vec<String> = Vec::new();
    v.push(string_of(a));
    v.push(string_of(b));
    assert(strings_view(v@) =~= seq![a@, b@]);
    v
}

fn strings1(a: &str) -> (v: Vec<String>)
    ensures
        strings_view(v@) == seq![a@],
{
    let mut v: Vec<String> = Vec::new();
    v.push(string_of(a));
    assert(strings_view(v@) =~= seq![a@]);
    v
}

fn concat(a: &str, b: &str) -> (r: String)
    ensures
        r@ == a@ + b@,
{
    let mut r = string_of(a);
    push_str(&mut r, b);
    r
}

// ---------------------------------------------------------------------------
// Metadata documents
// ---------------------------------------------------------------------------

/// Authorization-server metadata (RFC 8414).
#[derive(Debug)]
pub struct AuthServerMetadata {
    pub issuer: String,
    pub authorization_endpoint: String,
    pub token_endpoint: String,
    pub registration_endpoint: String,
    pub response_types_supported: Vec<String>,
    pub grant_types_supported: Vec<String>,
    pub code_challenge_methods_supported: Vec<String>,
    pub token_endpoint_auth_methods_supported: Vec<String>,
}

/// Protected-resource metadata (RFC 9728).
#[derive(Debug)]
pub struct ProtectedResourceMetadata {
    pub resource: String,
    pub authorization_servers: Vec<String>,
    pub bearer_methods_supported: Vec<String>,
}

/// The metadata of the authorization server at the last bound port: its
/// endpoints, codes only, both grants, S256 challenges, public clients.
pub fn well_known_authorization_server(state: &OAuthState) -> (m: AuthServerMetadata)
    ensures
        m.issuer@ == spec_public_url(state.bound_port),
        m.authorization_endpoint@ == spec_public_url(state.bound_port) + "/authorize"@,
        m.token_endpoint@ == spec_public_url(state.bound_port) + "/token"@,
        m.registration_endpoint@ == spec_public_url(state.bound_port) + "/register"@,
        strings_view(m.response_types_supported@) == seq!["code"@],
        strings_view(m.grant_types_supported@) == seq!["authorization_code"@, "refresh_token"@],
        strings_view(m.code_challenge_methods_supported@) == seq!["S256"@],
        strings_view(m.token_endpoint_auth_methods_supported@) == seq!["none"@],
{
    let base = state.base_url();
    AuthServerMetadata {
        issuer: base.clone(),
        authorization_endpoint: concat(base.as_str(), "/authorize"),
        token_endpoint: concat(base.as_str(), "/token"),
        registration_endpoint: concat(base.as_str(), "/register"),
        response_types_supported: strings1("code"),
        grant_types_supported: strings2("authorization_code", "refresh_token"),
        code_challenge_methods_supported: strings1("S256"),
        token_endpoint_auth_methods_supported: strings1("none"),
    }
}

/// The metadata of the protected MCP resource at the last bound port.
pub fn well_known_protected_resource(state: &OAuthState) -> (m: ProtectedResourceMetadata)
    ensures
        m.resource@ == spec_public_url(state.bound_port) + "/mcp"@,
        strings_view(m.authorization_servers@) == seq![spec_public_url(state.bound_port)],
        strings_view(m.bearer_methods_supported@) == seq!["header"@],
{
    let base = state.base_url();
    let resource = concat(base.as_str(), "/mcp");
    let mut servers: Vec<String> = Vec::new();
    servers.push(base);
    assert(strings_view(servers@) =~= seq![spec_public_url(state.bound_port)]);
    ProtectedResourceMetadata {
        resource,
        authorization_servers: servers,
        bearer_methods_supported: strings1("header"),
    }
}

// ---------------------------------------------------------------------------
// Dynamic client registration
// ---------------------------------------------------------------------------

/// A registration request.
#[derive(Debug)]
pub struct RegisterRequest {
    pub client_name: Option<String>,
    pub redirect_uris: Vec<String>,
    pub token_endpoint_auth_method: Option<String>,
}

/// The answer to a successful registration.
#[derive(Debug)]
pub struct RegisterResponse {
    pub client_id: String,
    pub client_id_issued_at: i64,
    pub redirect_uris: Vec<String>,
    pub token_endpoint_auth_method: String,
    pub grant_types: Vec<String>,
    pub response_types: Vec<String>,
    pub client_name: String,
}

/// Whether a parsed URL (scheme and host) is an `http` URL on the loopback
/// host `127.0.0.1` or `localhost`.
pub open spec fn loopback_parts(p: Option<(Seq<char>, Option<Seq<char>>)>) -> bool {
    match p {
        Some((scheme, host)) => scheme == "http"@ && (host == Some("127.0.0.1"@) || host == Some(
            "localhost"@,
        )),
        None => false,
    }
}

/// Whether `uri` is an `http` URL on the loopback host.
pub open spec fn is_loopback_uri(uri: Seq<char>) -> bool {
    loopback_parts(url_scheme_host(uri))
}

/// Decides, from a parsed URL's scheme and host, whether it is an `http`
/// URL on the loopback host.
pub fn loopback_from_parts(parts: &Option<(String, Option<String>)>) -> (r: bool)
    ensures
        r == loopback_parts(
            match parts {
                Some((s, h)) => Some(
                    (
                        s@,
                        match h {
                            Some(x) => Some(x@),
                            None => None,
                        },
                    ),
                ),
                None => None,
            },
        ),
{
    match parts {
        Some((scheme, host)) => {
            if !str_eq(scheme.as_str(), "http") {
                return false;
            }
            match host {
                Some(h) => str_eq(h.as_str(), "127.0.0.1") || str_eq(h.as_str(), "localhost"),
                None => false,
            }
        },
        None => false,
    }
}

/// Whether `uri` is an `http` URL on `127.0.0.1` or `localhost`, the only
/// redirect URIs accepted.
pub fn is_loopback_redirect(uri: &str) -> (r: bool)
    ensures
        r == is_loopback_uri(uri@),
{
    let parts = parse_scheme_host(uri);
    loopback_from_parts(&parts)
}

/// The name a client is registered under.
pub open spec fn registered_name(req: RegisterRequest) -> Seq<char> {
    match req.client_name {
        Some(n) => n@,
        None => "Unnamed MCP client"@,
    }
}

/// Why a registration request is refused before anything is stored.
pub open spec fn register_refusal(req: RegisterRequest) -> Option<OAuthErrorView> {
    if req.redirect_uris@.len() == 0 {
        Some(invalid_request_view("redirect_uris is required"@))
    } else if exists|i: int|
        0 <= i < req.redirect_uris@.len() && !is_loopback_uri(#[trigger] req.redirect_uris@[i]@) {
        Some(
            invalid_request_view(
                "only http://127.0.0.1:* / http://localhost:* redirect URIs are accepted"@,
            ),
        )
    } else if req.token_endpoint_auth_method matches Some(m) && m@ != "none"@ {
        Some(
            invalid_request_view(
                "only token_endpoint_auth_method=none (public clients) is supported"@,
            ),
        )
    } else {
        None
    }
}

/// The client a registration stores, under id `id` at time `now`.
pub open spec fn registered_client(req: RegisterRequest, id: Seq<char>, now: i64) -> ClientView {
    ClientView {
        id,
        name: registered_name(req),
        redirect_uris: strings_view(req.redirect_uris@),
        created_at: now,
        last_used_at: None,
    }
}

/// Whether `resp` answers a registration of `c`.
pub open spec fn answers_registration(resp: RegisterResponse, c: ClientView) -> bool {
    &&& resp.client_id@ == c.id
    &&& resp.client_id_issued_at == c.created_at
    &&& strings_view(resp.redirect_uris@) == c.redirect_uris
    &&& resp.token_endpoint_auth_method@ == "none"@
    &&& strings_view(resp.grant_types@) == seq!["authorization_code"@, "refresh_token"@]
    &&& strings_view(resp.response_types@) == seq!["code"@]
    &&& resp.client_name@ == c.name
}

fn check_register_request(req: &RegisterRequest) -> (r: Result<(), OAuthError>)
    ensures
        match register_refusal(*req) {
            Some(e) => r matches Err(x) && x@ == e,
            None => r is Ok,
        },
{
    if req.redirect_uris.len() == 0 {
        return Err(OAuthError::invalid_request("redirect_uris is required"));
    }
    let mut i: usize = 0;
    while i < req.redirect_uris.len()
        invariant
            i <= req.redirect_uris.len(),
            forall|j: int| 0 <= j < i ==> is_loopback_uri(#[trigger] req.redirect_uris@[j]@),
        decreases req.redirect_uris.len() - i,
    {
        if !is_loopback_redirect(req.redirect_uris[i].as_str()) {
            return Err(
                OAuthError::invalid_request(
                    "only http://127.0.0.1:* / http://localhost:* redirect URIs are accepted",
                ),
            );
        }
        i = i + 1;
    }
    match &req.token_endpoint_auth_method {
        Some(m) => {
            if !str_eq(m.as_str(), "none") {
                return Err(
                    OAuthError::invalid_request(
                        "only token_endpoint_auth_method=none (public clients) is supported",
                    ),
                );
            }
        },
        None => {},
    }
    Ok(())
}

fn registration_answer(rec: ClientRecord) -> (resp: RegisterResponse)
    ensures
        answers_registration(resp, rec@),
{
    RegisterResponse {
        client_id: rec.id,
        client_id_issued_at: rec.created_at,
        redirect_uris: rec.redirect_uris,
        token_endpoint_auth_method: string_of("none"),
        grant_types: strings2("authorization_code", "refresh_token"),
        response_types: strings1("code"),
        client_name: rec.name,
    }
}

/// Registers a public client under id `id` at time `now`. Refused, storing
/// nothing, when no redirect URI is given, when one is not an `http` URL on
/// the loopback host, or when an authentication method other than `none` is
/// asked for; unnamed clients are named "Unnamed MCP client".
pub fn register_at(store: &mut OAuthStore, req: &RegisterRequest, id: String, now: i64) -> (r: Result<RegisterResponse, OAuthError>)
    ensures
        match register_refusal(*req) {
            Some(e) => r matches Err(x) && x@ == e && final(store)@ == old(store)@,
            None => {
                let c = registered_client(*req, id@, now);
                let (s, ok) = spec_register_client(old(store)@, c);
                &&& final(store)@ == s
                &&& ok ==> (r matches Ok(resp) && answers_registration(resp, c))
                &&& !ok ==> (r matches Err(x) && x@ == server_error_view(store_failure(KeyColumn::ClientId)))
            },
        },
{
    match check_register_request(req) {
        Err(e) => return Err(e),
        Ok(()) => {},
    }
    let name = match &req.client_name {
        Some(n) => n.clone(),
        None => string_of("Unnamed MCP client"),
    };
    match store.register_client_at(id, name.as_str(), &req.redirect_uris, now) {
        Ok(rec) => Ok(registration_answer(rec)),
        Err(e) => Err(OAuthError::server_error(e.message().as_str())),
    }
}

/// Registers a public client under a fresh random id, now; see
/// `register_at`. A well-formed request fails only when the drawn id is
/// taken, so it succeeds whenever no registered id has the form of a
/// version-4 UUID.
pub fn register(store: &mut OAuthStore, req: &RegisterRequest) -> (r: Result<RegisterResponse, OAuthError>)
    ensures
        match register_refusal(*req) {
            Some(e) => r matches Err(x) && x@ == e && final(store)@ == old(store)@,
            None => match r {
                Ok(resp) => {
                    let c = registered_client(*req, resp.client_id@, resp.client_id_issued_at);
                    &&& is_uuid_v4_text(resp.client_id@)
                    &&& answers_registration(resp, c)
                    &&& spec_register_client(old(store)@, c) == (final(store)@, true)
                },
                Err(x) => {
                    &&& x@ == server_error_view(store_failure(KeyColumn::ClientId))
                    &&& final(store)@ == old(store)@
                    &&& exists|i: int|
                        0 <= i < old(store)@.clients.len()
                            && is_uuid_v4_text((#[trigger] old(store)@.clients[i]).record.id)
                },
            },
        },
{
    let id = new_uuid_v4();
    let now = unix_now();
    let ghost drawn = id@;
    let r = register_at(store, req, id, now);
    proof {
        if r is Err && register_refusal(*req) is None {
            let ids = crate::mcp::oauth::store::client_ids(old(store)@.clients);
            assert(ids.contains(drawn));
            let k = choose|k: int| 0 <= k < ids.len() && ids[k] == drawn;
            assert(old(store)@.clients[k].record.id == drawn);
        }
    }
    r
}

// ---------------------------------------------------------------------------
// Authorization endpoint
// ---------------------------------------------------------------------------

/// The query of an authorization request.
#[derive(Debug)]
pub struct AuthorizeQuery {
    pub response_type: String,
    pub client_id: String,
    pub redirect_uri: String,
    pub state: Option<String>,
    pub code_challenge: String,
    pub code_challenge_method: String,
    pub scope: Option<String>,
    /// Resource indicator (RFC 8707); accepted and unused.
    pub resource: Option<String>,
}

/// The answer of the authorization endpoint: a redirect to a URL, or an
/// HTML page with a status.
#[derive(Debug)]
pub enum AuthorizeResponse {
    Redirect(String),
    Html(u16, String),
}

/// An authorization answer as plain values.
pub enum ResponseView {
    Redirect(Seq<char>),
    Html(u16, Seq<char>),
}

impl View for AuthorizeResponse {
    type V = ResponseView;

    open spec fn view(&self) -> ResponseView {
        match self {
            AuthorizeResponse::Redirect(u) => ResponseView::Redirect(u@),
            AuthorizeResponse::Html(s, b) => ResponseView::Html(*s, b@),
        }
    }
}

/// The error page for `msg` (status 400, message HTML-escaped).
pub open spec fn html_error_view(msg: Seq<char>) -> ResponseView {
    ResponseView::Html(
        400,
        "<html><body><h1>Authorization error</h1><p>"@ + html_escaped(msg) + "</p></body></html>"@,
    )
}

/// The query pairs that report an error to the client.
pub open spec fn error_pairs(
    error: Seq<char>,
    description: Option<Seq<char>>,
    state: Option<Seq<char>>,
) -> Seq<(Seq<char>, Seq<char>)> {
    seq![("error"@, error)] + (match description {
        Some(d) => seq![("error_description"@, d)],
        None => Seq::empty(),
    }) + (match state {
        Some(s) => seq![("state"@, s)],
        None => Seq::empty(),
    })
}

/// The answer that reports an error to the client at `redirect_uri`, or an
/// error page when that URI does not parse.
pub open spec fn redirect_error_view(
    redirect_uri: Seq<char>,
    state: Option<Seq<char>>,
    error: Seq<char>,
    description: Option<Seq<char>>,
) -> ResponseView {
    match url_with_query(redirect_uri, error_pairs(error, description, state)) {
        Some(u) => ResponseView::Redirect(u),
        None => html_error_view("OAuth error: "@ + error),
    }
}

/// The error page for `msg`.
pub fn html_error(msg: &str) -> (r: AuthorizeResponse)
    ensures
        r@ == html_error_view(msg@),
{
    let mut body = string_of("<html><body><h1>Authorization error</h1><p>");
    let escaped = html_escape(msg);
    push_str(&mut body, escaped.as_str());
    push_str(&mut body, "</p></body></html>");
    AuthorizeResponse::Html(400, body)
}

fn pair(k: &str, v: &str) -> (p: (String, String))
    ensures
        p.0@ == k@,
        p.1@ == v@,
{
    (string_of(k), string_of(v))
}

/// Reports an error to the client by redirecting to `redirect_uri` with
/// `error`, the optional description and the client's state appended to
/// the query; falls back to an error page when the URI does not parse.
pub fn redirect_error(redirect_uri: &str, state: Option<&str>, error: &str, description: Option<&str>) -> (r: AuthorizeResponse)
    ensures
        r@ == redirect_error_view(redirect_uri@, opt_str_view(state), error@, opt_str_view(description)),
{
    let mut pairs: Vec<(String, String)> = Vec::new();
    pairs.push(pair("error", error));
    match description {
        Some(d) => pairs.push(pair("error_description", d)),
        None => {},
    }
    match state {
        Some(s) => pairs.push(pair("state", s)),
        None => {},
    }
    assert(pairs_view(pairs@) =~= error_pairs(error@, opt_str_view(description), opt_str_view(state)));
    match append_query_pairs(redirect_uri, &pairs) {
        Some(u) => AuthorizeResponse::Redirect(u),
        None => {
            let msg = concat("OAuth error: ", error);
            html_error(msg.as_str())
        },
    }
}

fn opt_as_str(s: &Option<String>) -> (r: Option<&str>)
    ensures
        opt_str_view(r) == opt_view(*s),
{
    match s {
        Some(v) => Some(v.as_str()),
        None => None,
    }
}

/// What the authorization endpoint decides before asking the user: the
/// client to ask about, or the answer that refuses the request.
pub open spec fn spec_authorize_begin(s: StoreState, q: AuthorizeQuery) -> Result<ClientView, ResponseView> {
    if q.response_type@ != "code"@ {
        Err(redirect_error_view(q.redirect_uri@, opt_view(q.state), "unsupported_response_type"@, None))
    } else if q.code_challenge_method@ != "S256"@ {
        Err(
            redirect_error_view(
                q.redirect_uri@,
                opt_view(q.state),
                "invalid_request"@,
                Some("code_challenge_method must be S256"@),
            ),
        )
    } else {
        match spec_get_client(s, q.client_id@) {
            None => Err(html_error_view("Unknown client_id"@)),
            Some(c) => if !c.redirect_uris.contains(q.redirect_uri@) {
                Err(html_error_view("redirect_uri does not match a registered URI"@))
            } else {
                Ok(c)
            },
        }
    }
}

fn has_uri(uris: &Vec<String>, uri: &str) -> (r: bool)
    ensures
        r == strings_view(uris@).contains(uri@),
{
    let mut i: usize = 0;
    while i < uris.len()
        invariant
            i <= uris.len(),
            forall|j: int| 0 <= j < i ==> uris@[j]@ != uri@,
        decreases uris.len() - i,
    {
        if str_eq(uris[i].as_str(), uri) {
            assert(strings_view(uris@)[i as int] == uri@);
            return true;
        }
        i = i + 1;
    }
    assert forall|j: int| 0 <= j < strings_view(uris@).len() implies strings_view(uris@)[j] != uri@ by {}
    false
}

/// Checks an authorization request before the user is asked: only the code
/// flow with S256 challenges, a known client, and one of its registered
/// redirect URIs (exactly) are accepted. Errors the client can be told of
/// are redirected to it; the others are shown as an error page.
pub fn authorize_begin(store: &OAuthStore, q: &AuthorizeQuery) -> (r: Result<ClientRecord, AuthorizeResponse>)
    ensures
        match spec_authorize_begin(store@, *q) {
            Ok(c) => r matches Ok(x) && x@ == c,
            Err(v) => r matches Err(x) && x@ == v,
        },
{
    if !str_eq(q.response_type.as_str(), "code") {
        return Err(
            redirect_error(
                q.redirect_uri.as_str(),
                opt_as_str(&q.state),
                "unsupported_response_type",
                None,
            ),
        );
    }
    if !str_eq(q.code_challenge_method.as_str(), "S256") {
        return Err(
            redirect_error(
                q.redirect_uri.as_str(),
                opt_as_str(&q.state),
                "invalid_request",
                Some("code_challenge_method must be S256"),
            ),
        );
    }
    let client = match store.get_client(q.client_id.as_str()) {
        Some(c) => c,
        None => return Err(html_error("Unknown client_id")),
    };
    if !has_uri(&client.redirect_uris, q.redirect_uri.as_str()) {
        return Err(html_error("redirect_uri does not match a registered URI"));
    }
    Ok(client)
}

/// The request the consent window shows for an accepted authorization
/// request, parked under `request_id`.
pub fn consent_request(request_id: String, client: &ClientRecord, q: &AuthorizeQuery) -> (p: PendingConsent)
    ensures
        p.request_id == request_id,
        p.client_id@ == client.id@,
        p.client_name@ == client.name@,
        p.redirect_uri@ == q.redirect_uri@,
        opt_view(p.scope) == opt_view(q.scope),
{
    PendingConsent {
        request_id,
        client_id: client.id.clone(),
        client_name: client.name.clone(),
        redirect_uri: q.redirect_uri.clone(),
        scope: clone_opt(&q.scope),
    }
}

/// The consent request for an authorization request, parked under a fresh
/// random id (a hyphenated UUID); see `consent_request`.
pub fn new_consent_request(client: &ClientRecord, q: &AuthorizeQuery) -> (p: PendingConsent)
    ensures
        is_uuid_v4_text(p.request_id@),
        p.client_id@ == client.id@,
        p.client_name@ == client.name@,
        p.redirect_uri@ == q.redirect_uri@,
        opt_view(p.scope) == opt_view(q.scope),
{
    let request_id = new_uuid_v4();
    consent_request(request_id, client, q)
}

/// The query pairs that hand the code (and the client's state) back.
pub open spec fn code_pairs(code: Seq<char>, state: Option<Seq<char>>) -> Seq<(Seq<char>, Seq<char>)> {
    seq![("code"@, code)] + (match state {
        Some(s) => seq![("state"@, s)],
        None => Seq::empty(),
    })
}

/// What the authorization endpoint does once the user decided: a refusal
/// is reported to the client; an approval stores the code `code` (issued at
/// `now`, bound to the client, redirect URI and challenge), records a use of
/// the client, and redirects back with the code.
pub open spec fn spec_authorize_finish(
    s: StoreState,
    q: AuthorizeQuery,
    client_id: Seq<char>,
    approved: bool,
    code: Seq<char>,
    now: i64,
) -> (StoreState, ResponseView) {
    if !approved {
        (
            s,
            redirect_error_view(
                q.redirect_uri@,
                opt_view(q.state),
                "access_denied"@,
                Some("user denied authorization"@),
            ),
        )
    } else {
        let (s1, ok) = spec_store_auth_code(
            s,
            new_code_row(code, client_id, q.redirect_uri@, q.code_challenge@, opt_view(q.scope), now),
        );
        if !ok {
            (s1, html_error_view("server error: "@ + store_failure(KeyColumn::AuthCode)))
        } else {
            let s2 = spec_touch_client(s1, client_id, now);
            match url_with_query(q.redirect_uri@, code_pairs(code, opt_view(q.state))) {
                Some(u) => (s2, ResponseView::Redirect(u)),
                None => (s2, html_error_view("invalid redirect_uri"@)),
            }
        }
    }
}

/// Completes an authorization request after the user's decision, with the
/// code `code` issued at `now`; see `spec_authorize_finish`.
pub fn authorize_finish_at(
    store: &mut OAuthStore,
    q: &AuthorizeQuery,
    client: &ClientRecord,
    approved: bool,
    code: &str,
    now: i64,
) -> (r: AuthorizeResponse)
    ensures
        spec_authorize_finish(old(store)@, *q, client.id@, approved, code@, now) == (final(store)@, r@),
{
    if !approved {
        return redirect_error(
            q.redirect_uri.as_str(),
            opt_as_str(&q.state),
            "access_denied",
            Some("user denied authorization"),
        );
    }
    match store.store_auth_code_at(
        code,
        client.id.as_str(),
        q.redirect_uri.as_str(),
        q.code_challenge.as_str(),
        opt_as_str(&q.scope),
        now,
    ) {
        Ok(()) => {},
        Err(e) => {
            let msg = concat("server error: ", e.message().as_str());
            return html_error(msg.as_str());
        },
    }
    store.touch_client_at(client.id.as_str(), now);
    let mut pairs: Vec<(String, String)> = Vec::new();
    pairs.push(pair("code", code));
    match &q.state {
        Some(s) => pairs.push(pair("state", s.as_str())),
        None => {},
    }
    assert(pairs_view(pairs@) =~= code_pairs(code@, opt_view(q.state)));
    match append_query_pairs(q.redirect_uri.as_str(), &pairs) {
        Some(u) => AuthorizeResponse::Redirect(u),
        None => html_error("invalid redirect_uri"),
    }
}

/// Completes an authorization request after the user's decision; an
/// approval mints a single-use code of 32 random bytes, issued now.
pub fn authorize_finish(store: &mut OAuthStore, q: &AuthorizeQuery, client: &ClientRecord, approved: bool) -> (r: AuthorizeResponse)
    ensures
        !approved ==> spec_authorize_finish(old(store)@, *q, client.id@, false, Seq::empty(), 0) == (
            final(store)@,
            r@,
        ),
        approved ==> exists|code: Seq<char>, now: i64|
            code.len() == 43 && encodes_bytes(code, 32) && #[trigger] spec_authorize_finish(
                old(store)@,
                *q,
                client.id@,
                true,
                code,
                now,
            ) == (final(store)@, r@),
{
    if !approved {
        return authorize_finish_at(store, q, client, false, "", 0);
    }
    let code = random_token(32);
    let now = unix_now();
    authorize_finish_at(store, q, client, true, code.as_str(), now)
}

// ---------------------------------------------------------------------------
// Token endpoint
// ---------------------------------------------------------------------------

/// A token request (form-encoded).
#[derive(Debug)]
pub struct TokenRequest {
    pub grant_type: String,
    pub code: Option<String>,
    pub redirect_uri: Option<String>,
    pub code_verifier: Option<String>,
    pub client_id: Option<String>,
    pub refresh_token: Option<String>,
}

/// The answer to a successful token request.
#[derive(Debug)]
pub struct TokenResponse {
    pub access_token: String,
    pub token_type: String,
    pub expires_in: i64,
    pub refresh_token: String,
}

/// A token answer as plain values.
pub struct TokenResponseView {
    pub access_token: Seq<char>,
    pub token_type: Seq<char>,
    pub expires_in: i64,
    pub refresh_token: Seq<char>,
}

impl View for TokenResponse {
    type V = TokenResponseView;

    open spec fn view(&self) -> TokenResponseView {
        TokenResponseView {
            access_token: self.access_token@,
            token_type: self.token_type@,
            expires_in: self.expires_in,
            refresh_token: self.refresh_token@,
        }
    }
}

/// A token answer or error as plain values.
pub open spec fn token_result_view(r: Result<TokenResponse, OAuthError>) -> Result<TokenResponseView, OAuthErrorView> {
    match r {
        Ok(t) => Ok(t@),
        Err(e) => Err(e@),
    }
}

/// Lifetime of an access token, in seconds (one hour).
pub open spec fn access_ttl() -> int {
    3600
}

/// Lifetime of a refresh token, in seconds (thirty days).
pub open spec fn refresh_ttl() -> int {
    2592000
}

/// The challenge a PKCE verifier answers: the unpadded base64url encoding of
/// the SHA-256 of its UTF-8 bytes.
pub open spec fn spec_pkce_challenge(verifier: Seq<char>) -> Seq<char> {
    base64url_nopad(sha256(encode_utf8(verifier)))
}

/// The S256 challenge of a PKCE verifier.
pub fn pkce_challenge(verifier: &str) -> (c: String)
    ensures
        c@ == spec_pkce_challenge(verifier@),
{
    let digest = sha256_digest(verifier.as_bytes());
    base64url_encode(digest.as_slice())
}

/// Issuing a token pair to client `client_id` at `now`: an access token
/// with id `access_jti` signed with `key` (issuer the server's base URL,
/// audience "mcp", valid one hour) and the refresh token `refresh`, stored
/// for thirty days.
pub open spec fn spec_issue_token_pair(
    s: StoreState,
    key: Seq<u8>,
    port: u16,
    client_id: Seq<char>,
    now: i64,
    access_jti: Seq<char>,
    refresh: Seq<char>,
) -> (StoreState, Result<TokenResponseView, OAuthErrorView>) {
    if now + refresh_ttl() > i64::MAX {
        (s, Err(server_error_view("timestamp out of range"@)))
    } else {
        let (s1, ok) = spec_store_refresh(
            s,
            RefreshView {
                jti: refresh,
                client_id,
                expires_at: (now + refresh_ttl()) as i64,
                revoked: false,
            },
        );
        if !ok {
            (s1, Err(server_error_view(store_failure(KeyColumn::RefreshJti))))
        } else {
            (
                s1,
                Ok(
                    TokenResponseView {
                        access_token: jwt_hs256(
                            claims_json_of(
                                client_id,
                                spec_public_url(port),
                                audience(),
                                (now + access_ttl()) as i64,
                                now,
                                access_jti,
                            ),
                            key,
                        ),
                        token_type: "Bearer"@,
                        expires_in: 3600,
                        refresh_token: refresh,
                    },
                ),
            )
        }
    }
}

/// The authorization-code grant at `now`.
pub open spec fn spec_token_authorization_code(
    s: StoreState,
    key: Seq<u8>,
    port: u16,
    req: TokenRequest,
    now: i64,
    access_jti: Seq<char>,
    refresh: Seq<char>,
) -> (StoreState, Result<TokenResponseView, OAuthErrorView>) {
    if req.code is None {
        (s, Err(invalid_request_view("code required"@)))
    } else if req.redirect_uri is None {
        (s, Err(invalid_request_view("redirect_uri required"@)))
    } else if req.code_verifier is None {
        (s, Err(invalid_request_view("code_verifier required"@)))
    } else if req.client_id is None {
        (s, Err(invalid_request_view("client_id required"@)))
    } else {
        let client_id = req.client_id->0@;
        let (s1, rec) = spec_consume_auth_code(s, req.code->0@, now);
        match rec {
            None => (s1, Err(invalid_grant_view("invalid or expired authorization code"@))),
            Some(r) => if r.client_id != client_id {
                (s1, Err(invalid_grant_view("client_id mismatch"@)))
            } else if r.redirect_uri != req.redirect_uri->0@ {
                (s1, Err(invalid_grant_view("redirect_uri mismatch"@)))
            } else if spec_pkce_challenge(req.code_verifier->0@) != r.code_challenge {
                (s1, Err(invalid_grant_view("PKCE verifier mismatch"@)))
            } else {
                spec_issue_token_pair(
                    spec_touch_client(s1, client_id, now),
                    key,
                    port,
                    client_id,
                    now,
                    access_jti,
                    refresh,
                )
            },
        }
    }
}

/// The refresh-token grant at `now`: the presented token is spent whatever
/// happens next.
pub open spec fn spec_token_refresh(
    s: StoreState,
    key: Seq<u8>,
    port: u16,
    req: TokenRequest,
    now: i64,
    access_jti: Seq<char>,
    refresh: Seq<char>,
) -> (StoreState, Result<TokenResponseView, OAuthErrorView>) {
    if req.refresh_token is None {
        (s, Err(invalid_request_view("refresh_token required"@)))
    } else if req.client_id is None {
        (s, Err(invalid_request_view("client_id required"@)))
    } else {
        let (s1, cid) = spec_consume_refresh(s, req.refresh_token->0@, now);
        match cid {
            None => (s1, Err(invalid_grant_view("invalid or expired refresh_token"@))),
            Some(c) => if c != req.client_id->0@ {
                (s1, Err(invalid_grant_view("client_id mismatch"@)))
            } else if spec_get_client(s1, c) is None {
                (s1, Err(invalid_grant_view("client revoked"@)))
            } else {
                spec_issue_token_pair(
                    spec_touch_client(s1, c, now),
                    key,
                    port,
                    c,
                    now,
                    access_jti,
                    refresh,
                )
            },
        }
    }
}

/// The token endpoint at `now`, minting `access_jti` and `refresh` should a
/// token pair be issued.
pub open spec fn spec_token(
    s: StoreState,
    key: Seq<u8>,
    port: u16,
    req: TokenRequest,
    now: i64,
    access_jti: Seq<char>,
    refresh: Seq<char>,
) -> (StoreState, Result<TokenResponseView, OAuthErrorView>) {
    if req.grant_type@ == "authorization_code"@ {
        spec_token_authorization_code(s, key, port, req, now, access_jti, refresh)
    } else if req.grant_type@ == "refresh_token"@ {
        spec_token_refresh(s, key, port, req, now, access_jti, refresh)
    } else {
        (s, Err(unsupported_grant_type_view("unsupported grant_type: "@ + req.grant_type@)))
    }
}

fn issue_token_pair_at(
    state: &mut OAuthState,
    client_id: &str,
    now: i64,
    access_jti: String,
    refresh: String,
) -> (r: Result<TokenResponse, OAuthError>)
    ensures
        spec_issue_token_pair(
            old(state).store@,
            old(state).signing_key@,
            old(state).bound_port,
            client_id@,
            now,
            access_jti@,
            refresh@,
        ) == (final(state).store@, token_result_view(r)),
        final(state).signing_key == old(state).signing_key,
        final(state).bound_port == old(state).bound_port,
        final(state).consent == old(state).consent,
{
    if now > i64::MAX - 2592000 {
        return Err(OAuthError::server_error("timestamp out of range"));
    }
    let claims = AccessClaims {
        sub: string_of(client_id),
        iss: state.base_url(),
        aud: string_of("mcp"),
        exp: now + 3600,
        iat: now,
        jti: access_jti,
    };
    let access_token = encode_access_token(&claims, state.signing_key.as_slice());
    match state.store.store_refresh(refresh.as_str(), client_id, now + 2592000) {
        Ok(()) => {},
        Err(e) => return Err(OAuthError::server_error(e.message().as_str())),
    }
    Ok(
        TokenResponse {
            access_token,
            token_type: string_of("Bearer"),
            expires_in: 3600,
            refresh_token: refresh,
        },
    )
}

fn token_authorization_code_at(
    state: &mut OAuthState,
    req: &TokenRequest,
    now: i64,
    access_jti: String,
    refresh: String,
) -> (r: Result<TokenResponse, OAuthError>)
    ensures
        spec_token_authorization_code(
            old(state).store@,
            old(state).signing_key@,
            old(state).bound_port,
            *req,
            now,
            access_jti@,
            refresh@,
        ) == (final(state).store@, token_result_view(r)),
        final(state).signing_key == old(state).signing_key,
        final(state).bound_port == old(state).bound_port,
        final(state).consent == old(state).consent,
{
    let code = match &req.code {
        Some(c) => c,
        None => return Err(OAuthError::invalid_request("code required")),
    };
    let redirect_uri = match &req.redirect_uri {
        Some(u) => u,
        None => return Err(OAuthError::invalid_request("redirect_uri required")),
    };
    let code_verifier = match &req.code_verifier {
        Some(v) => v,
        None => return Err(OAuthError::invalid_request("code_verifier required")),
    };
    let client_id = match &req.client_id {
        Some(c) => c,
        None => return Err(OAuthError::invalid_request("client_id required")),
    };
    let record = match state.store.consume_auth_code_at(code.as_str(), now) {
        Some(r) => r,
        None => return Err(OAuthError::invalid_grant("invalid or expired authorization code")),
    };
    if !str_eq(record.client_id.as_str(), client_id.as_str()) {
        return Err(OAuthError::invalid_grant("client_id mismatch"));
    }
    if !str_eq(record.redirect_uri.as_str(), redirect_uri.as_str()) {
        return Err(OAuthError::invalid_grant("redirect_uri mismatch"));
    }
    let challenge = pkce_challenge(code_verifier.as_str());
    if !str_eq(challenge.as_str(), record.code_challenge.as_str()) {
        return Err(OAuthError::invalid_grant("PKCE verifier mismatch"));
    }
    state.store.touch_client_at(client_id.as_str(), now);
    issue_token_pair_at(state, client_id.as_str(), now, access_jti, refresh)
}

fn token_refresh_at(
    state: &mut OAuthState,
    req: &TokenRequest,
    now: i64,
    access_jti: String,
    refresh: String,
) -> (r: Result<TokenResponse, OAuthError>)
    ensures
        spec_token_refresh(
            old(state).store@,
            old(state).signing_key@,
            old(state).bound_port,
            *req,
            now,
            access_jti@,
            refresh@,
        ) == (final(state).store@, token_result_view(r)),
        final(state).signing_key == old(state).signing_key,
        final(state).bound_port == old(state).bound_port,
        final(state).consent == old(state).consent,
{
    let presented = match &req.refresh_token {
        Some(t) => t,
        None => return Err(OAuthError::invalid_request("refresh_token required")),
    };
    let claimed_client_id = match &req.client_id {
        Some(c) => c,
        None => return Err(OAuthError::invalid_request("client_id required")),
    };
    let client_id = match state.store.consume_refresh_at(presented.as_str(), now) {
        Some(c) => c,
        None => return Err(OAuthError::invalid_grant("invalid or expired refresh_token")),
    };
    if !str_eq(client_id.as_str(), claimed_client_id.as_str()) {
        return Err(OAuthError::invalid_grant("client_id mismatch"));
    }
    if state.store.get_client(client_id.as_str()).is_none() {
        return Err(OAuthError::invalid_grant("client revoked"));
    }
    state.store.touch_client_at(client_id.as_str(), now);
    issue_token_pair_at(state, client_id.as_str(), now, access_jti, refresh)
}

/// The token endpoint at `now`; should it issue a token pair, the access
/// token gets the id `access_jti` and the refresh token is `refresh`.
pub fn token_at(state: &mut OAuthState, req: &TokenRequest, now: i64, access_jti: String, refresh: String) -> (r: Result<TokenResponse, OAuthError>)
    ensures
        spec_token(
            old(state).store@,
            old(state).signing_key@,
            old(state).bound_port,
            *req,
            now,
            access_jti@,
            refresh@,
        ) == (final(state).store@, token_result_view(r)),
        final(state).signing_key == old(state).signing_key,
        final(state).bound_port == old(state).bound_port,
        final(state).consent == old(state).consent,
{
    if str_eq(req.grant_type.as_str(), "authorization_code") {
        token_authorization_code_at(state, req, now, access_jti, refresh)
    } else if str_eq(req.grant_type.as_str(), "refresh_token") {
        token_refresh_at(state, req, now, access_jti, refresh)
    } else {
        let msg = concat("unsupported grant_type: ", req.grant_type.as_str());
        Err(OAuthError::unsupported_grant_type(msg.as_str()))
    }
}

/// The token endpoint: exchanges an authorization code (with its PKCE
/// verifier) or a refresh token for a new token pair, now; the access token
/// id is a random UUID and the refresh token 32 random bytes.
pub fn token(state: &mut OAuthState, req: &TokenRequest) -> (r: Result<TokenResponse, OAuthError>)
    ensures
        exists|now: i64, access_jti: Seq<char>, refresh: Seq<char>|
            is_uuid_v4_text(access_jti) && refresh.len() == 43 && encodes_bytes(refresh, 32)
                && #[trigger] spec_token(
                old(state).store@,
                old(state).signing_key@,
                old(state).bound_port,
                *req,
                now,
                access_jti,
                refresh,
            ) == (final(state).store@, token_result_view(r)),
        final(state).signing_key == old(state).signing_key,
        final(state).bound_port == old(state).bound_port,
        final(state).consent == old(state).consent,
{
    let now = unix_now();
    let access_jti = new_uuid_v4();
    let refresh = random_token(32);
    token_at(state, req, now, access_jti, refresh)
}

// ---------------------------------------------------------------------------
// Laws of the flow
// ---------------------------------------------------------------------------

/// A registration that is accepted stores only loopback redirect URIs
/// (`http://127.0.0.1:*` or `http://localhost:*`).
pub proof fn law_registered_redirects_are_loopback(req: RegisterRequest, id: Seq<char>, now: i64)
    requires
        register_refusal(req) is None,
    ensures
        forall|i: int|
            0 <= i < registered_client(req, id, now).redirect_uris.len() ==> is_loopback_uri(
                #[trigger] registered_client(req, id, now).redirect_uris[i],
            ),
{
    let uris = registered_client(req, id, now).redirect_uris;
    assert forall|i: int| 0 <= i < uris.len() implies is_loopback_uri(#[trigger] uris[i]) by {
        assert(uris[i] == req.redirect_uris@[i]@);
    }
}

/// A registration keeps every requested redirect URI, in the order given:
/// the stored client (and so the answer, which echoes it) lists exactly the
/// requested URIs, under the given id and name, stamped with the given time
/// and not yet used.
pub proof fn law_registration_keeps_every_redirect_uri(req: RegisterRequest, id: Seq<char>, now: i64)
    ensures
        registered_client(req, id, now).id == id,
        registered_client(req, id, now).created_at == now,
        registered_client(req, id, now).last_used_at is None,
        req.client_name matches Some(n) ==> registered_client(req, id, now).name == n@,
        registered_client(req, id, now).redirect_uris.len() == req.redirect_uris@.len(),
        forall|i: int|
            0 <= i < req.redirect_uris@.len() ==> #[trigger] registered_client(req, id, now).redirect_uris[i]
                == req.redirect_uris@[i]@,
{
}

/// A well-formed code request with S256 from a known client is accepted
/// with any of the client's registered redirect URIs, wherever it stands in
/// the list.
pub proof fn law_any_registered_redirect_is_accepted(s: StoreState, q: AuthorizeQuery, c: ClientView, i: int)
    requires
        q.response_type@ == "code"@,
        q.code_challenge_method@ == "S256"@,
        spec_get_client(s, q.client_id@) == Some(c),
        0 <= i < c.redirect_uris.len(),
        c.redirect_uris[i] == q.redirect_uri@,
    ensures
        spec_authorize_begin(s, q) == Ok::<ClientView, ResponseView>(c),
{
    assert(c.redirect_uris.contains(q.redirect_uri@));
}

/// An authorization request is refused when its response type is not
/// `code`, when its client is unknown or revoked, or when its redirect URI is
/// none of the client's registered ones; whatever is accepted is the client
/// the request names.
pub proof fn law_authorization_refusals(s: StoreState, q: AuthorizeQuery)
    ensures
        q.response_type@ != "code"@ ==> spec_authorize_begin(s, q) is Err,
        spec_get_client(s, q.client_id@) is None ==> spec_authorize_begin(s, q) is Err,
        spec_get_client(s, q.client_id@) matches Some(c) && (forall|i: int|
            0 <= i < c.redirect_uris.len() ==> #[trigger] c.redirect_uris[i] != q.redirect_uri@)
            ==> spec_authorize_begin(s, q) is Err,
        spec_authorize_begin(s, q) matches Ok(c) ==> spec_get_client(s, q.client_id@) == Some(c)
            && c.redirect_uris.contains(q.redirect_uri@),
{
}

/// Right after a registration is accepted, the client can start an
/// authorization with each of the redirect URIs it registered.
pub proof fn law_registered_client_authorizes_each_redirect(
    s: StoreState,
    req: RegisterRequest,
    id: Seq<char>,
    now: i64,
    q: AuthorizeQuery,
    i: int,
)
    requires
        register_refusal(req) is None,
        spec_register_client(s, registered_client(req, id, now)).1,
        q.response_type@ == "code"@,
        q.code_challenge_method@ == "S256"@,
        q.client_id@ == id,
        0 <= i < req.redirect_uris@.len(),
        q.redirect_uri@ == req.redirect_uris@[i]@,
    ensures
        spec_authorize_begin(spec_register_client(s, registered_client(req, id, now)).0, q) is Ok,
{
    let c = registered_client(req, id, now);
    crate::mcp::oauth::store::law_registered_client_is_found(s, c);
    law_registration_keeps_every_redirect_uri(req, id, now);
    law_any_registered_redirect_is_accepted(spec_register_client(s, c).0, q, c, i);
}

/// An authorization request that does not use the S256 PKCE method is
/// refused before anything else is looked at but its response type.
pub proof fn law_authorization_requires_s256(s: StoreState, q: AuthorizeQuery)
    requires
        q.code_challenge_method@ != "S256"@,
    ensures
        spec_authorize_begin(s, q) is Err,
{
}

/// An issued pair: the access token lives one hour (its claims say so and
/// `expires_in` is 3600), and the refresh token is stored, unrevoked, for
/// thirty days.
pub proof fn law_issued_token_lifetimes(
    s: StoreState,
    key: Seq<u8>,
    port: u16,
    client_id: Seq<char>,
    now: i64,
    access_jti: Seq<char>,
    refresh: Seq<char>,
)
    requires
        spec_issue_token_pair(s, key, port, client_id, now, access_jti, refresh).1 is Ok,
    ensures
        ({
            let (s1, r) = spec_issue_token_pair(s, key, port, client_id, now, access_jti, refresh);
            &&& r->Ok_0.expires_in == access_ttl()
            &&& r->Ok_0.access_token == jwt_hs256(
                claims_json_of(
                    client_id,
                    spec_public_url(port),
                    audience(),
                    (now + access_ttl()) as i64,
                    now,
                    access_jti,
                ),
                key,
            )
            &&& r->Ok_0.refresh_token == refresh
            &&& s1.refresh_tokens.last() == (RefreshView {
                jti: refresh,
                client_id,
                expires_at: (now + refresh_ttl()) as i64,
                revoked: false,
            })
        }),
{
}

/// Whether a token request carries a code, redirect URI, verifier and
/// client id.
pub open spec fn complete_code_request(req: TokenRequest) -> bool {
    &&& req.code is Some
    &&& req.redirect_uri is Some
    &&& req.code_verifier is Some
    &&& req.client_id is Some
}

proof fn lemma_token_touches_codes_by_consuming(
    s: StoreState,
    key: Seq<u8>,
    port: u16,
    req: TokenRequest,
    now: i64,
    access_jti: Seq<char>,
    refresh: Seq<char>,
)
    requires
        req.grant_type@ == "authorization_code"@,
        complete_code_request(req),
    ensures
        spec_token(s, key, port, req, now, access_jti, refresh).0.auth_codes == spec_consume_auth_code(
            s,
            req.code->0@,
            now,
        ).0.auth_codes,
{
}

/// An authorization code is exchanged at most once: whatever an exchange
/// of a code answered, a later exchange of the same code is refused.
pub proof fn law_code_exchange_is_single_use(
    s: StoreState,
    key: Seq<u8>,
    port: u16,
    first: TokenRequest,
    now: i64,
    access_jti: Seq<char>,
    refresh: Seq<char>,
    second: TokenRequest,
    later: i64,
    access_jti2: Seq<char>,
    refresh2: Seq<char>,
)
    requires
        first.grant_type@ == "authorization_code"@,
        second.grant_type@ == "authorization_code"@,
        complete_code_request(first),
        complete_code_request(second),
        first.code->0@ == second.code->0@,
    ensures
        spec_token(
            spec_token(s, key, port, first, now, access_jti, refresh).0,
            key,
            port,
            second,
            later,
            access_jti2,
            refresh2,
        ).1 == Err::<TokenResponseView, OAuthErrorView>(
            invalid_grant_view("invalid or expired authorization code"@),
        ),
{
    let code = first.code->0@;
    let t = spec_token(s, key, port, first, now, access_jti, refresh).0;
    lemma_token_touches_codes_by_consuming(s, key, port, first, now, access_jti, refresh);
    crate::mcp::oauth::store::law_auth_code_is_single_use(s, code, now, later);
    let u = spec_consume_auth_code(s, code, now).0;
    assert(spec_consume_auth_code(t, code, later).1 == spec_consume_auth_code(u, code, later).1);
}

/// Tokens are issued for an authorization code only to the client it was
/// issued to, for the redirect URI it was issued for, against a verifier
/// whose S256 challenge is the one it was issued with, and while it is
/// unused and at most ten minutes old.
pub proof fn law_code_exchange_checks_binding(
    s: StoreState,
    key: Seq<u8>,
    port: u16,
    req: TokenRequest,
    now: i64,
    access_jti: Seq<char>,
    refresh: Seq<char>,
)
    requires
        req.grant_type@ == "authorization_code"@,
        spec_token(s, key, port, req, now, access_jti, refresh).1 is Ok,
    ensures
        complete_code_request(req),
        spec_consume_auth_code(s, req.code->0@, now).1 matches Some(r) && {
            &&& r.client_id == req.client_id->0@
            &&& r.redirect_uri == req.redirect_uri->0@
            &&& r.code_challenge == spec_pkce_challenge(req.code_verifier->0@)
            &&& !crate::mcp::oauth::store::code_spent(r, now)
            &&& s.auth_codes.contains(r)
        },
{
    let code = req.code->0@;
    match crate::text::first_index(crate::mcp::oauth::store::code_keys(s.auth_codes), code) {
        None => {},
        Some(i) => {
            crate::text::lemma_first_index(crate::mcp::oauth::store::code_keys(s.auth_codes), code);
            assert(s.auth_codes.contains(s.auth_codes[i]));
        },
    }
}

/// An approved authorization hands the client a code that the token
/// endpoint exchanges for a token pair, when presented within ten minutes
/// by the same client, with the same redirect URI and a verifier whose S256
/// challenge was the one requested (the code being new to the store and the
/// fresh refresh token too).
pub proof fn law_authorized_code_is_exchanged(
    s: StoreState,
    key: Seq<u8>,
    port: u16,
    q: AuthorizeQuery,
    client_id: Seq<char>,
    code: Seq<char>,
    now: i64,
    req: TokenRequest,
    later: i64,
    access_jti: Seq<char>,
    refresh: Seq<char>,
)
    requires
        !crate::mcp::oauth::store::code_keys(s.auth_codes).contains(code),
        req.grant_type@ == "authorization_code"@,
        complete_code_request(req),
        req.code->0@ == code,
        req.client_id->0@ == client_id,
        req.redirect_uri->0@ == q.redirect_uri@,
        spec_pkce_challenge(req.code_verifier->0@) == q.code_challenge@,
        now <= later <= now + crate::mcp::oauth::store::auth_code_ttl(),
        later + refresh_ttl() <= i64::MAX,
        !crate::mcp::oauth::store::refresh_keys(s.refresh_tokens).contains(refresh),
    ensures
        spec_token(
            spec_authorize_finish(s, q, client_id, true, code, now).0,
            key,
            port,
            req,
            later,
            access_jti,
            refresh,
        ).1 matches Ok(t) && t.refresh_token == refresh && t.token_type == "Bearer"@
            && t.expires_in == 3600,
{
    let row = new_code_row(code, client_id, q.redirect_uri@, q.code_challenge@, opt_view(q.scope), now);
    let (s1, ok) = spec_store_auth_code(s, row);
    assert(ok);
    crate::mcp::oauth::store::law_stored_code_is_redeemable(s, row, later);
    let s2 = spec_touch_client(s1, client_id, now);
    assert(s2.auth_codes == s1.auth_codes);
    assert(spec_consume_auth_code(s2, code, later).1 == Some(row));
    let s3 = spec_consume_auth_code(s2, code, later).0;
    let s4 = spec_touch_client(s3, client_id, later);
    assert(s4.refresh_tokens == s.refresh_tokens);
}

proof fn lemma_tokens_without_keys_subset(rows: Seq<RefreshView>, jti: Seq<char>, k: Seq<char>)
    requires
        crate::mcp::oauth::store::refresh_keys(
            crate::mcp::oauth::store::tokens_without(rows, jti),
        ).contains(k),
    ensures
        crate::mcp::oauth::store::refresh_keys(rows).contains(k),
        k != jti,
{
    broadcast use vstd::seq_lib::group_filter_ensures;

    let f = crate::mcp::oauth::store::tokens_without(rows, jti);
    let i = choose|i: int| 0 <= i < f.len() && #[trigger] f[i].jti == k;
    assert(crate::mcp::oauth::store::refresh_keys(f)[i] == k);
    let p = |t: RefreshView| t.jti != jti;
    assert(f.contains(f[i]));
    rows.lemma_filter_contains_rev(p, f[i]);
    let j = choose|j: int| 0 <= j < rows.len() && rows[j] == f[i];
    assert(crate::mcp::oauth::store::refresh_keys(rows)[j] == k);
}

/// A refresh token handed out with a token pair is exchanged for a new
/// pair by the client it was issued to, until it expires and while that
/// client stays registered (the fresh refresh token being new).
pub proof fn law_issued_refresh_is_redeemable(
    s: StoreState,
    key: Seq<u8>,
    port: u16,
    client_id: Seq<char>,
    now: i64,
    access_jti: Seq<char>,
    refresh: Seq<char>,
    req: TokenRequest,
    later: i64,
    access_jti2: Seq<char>,
    refresh2: Seq<char>,
)
    requires
        spec_issue_token_pair(s, key, port, client_id, now, access_jti, refresh).1 is Ok,
        spec_get_client(s, client_id) is Some,
        req.grant_type@ == "refresh_token"@,
        req.refresh_token matches Some(t) && t@ == refresh,
        req.client_id matches Some(c) && c@ == client_id,
        later <= now + refresh_ttl(),
        later + refresh_ttl() <= i64::MAX,
        refresh2 != refresh,
        !crate::mcp::oauth::store::refresh_keys(s.refresh_tokens).contains(refresh2),
    ensures
        spec_token(
            spec_issue_token_pair(s, key, port, client_id, now, access_jti, refresh).0,
            key,
            port,
            req,
            later,
            access_jti2,
            refresh2,
        ).1 matches Ok(t) && t.refresh_token == refresh2,
{
    reveal_strlit("refresh_token");
    reveal_strlit("authorization_code");
    let row = RefreshView {
        jti: refresh,
        client_id,
        expires_at: (now + refresh_ttl()) as i64,
        revoked: false,
    };
    let (s1, ok) = spec_store_refresh(s, row);
    crate::mcp::oauth::store::law_stored_refresh_is_redeemable(s, row, later);
    let s2 = spec_consume_refresh(s1, refresh, later).0;
    assert(s2.clients == s.clients);
    let s3 = spec_touch_client(s2, client_id, later);
    assert(s3.refresh_tokens == s2.refresh_tokens);
    assert(spec_get_client(s2, client_id) == spec_get_client(s, client_id));
    assert(spec_consume_refresh(s1, refresh, later).1 == Some(client_id));
    if crate::mcp::oauth::store::refresh_keys(s3.refresh_tokens).contains(refresh2) {
        lemma_tokens_without_keys_subset(s1.refresh_tokens, refresh, refresh2);
        let keys = crate::mcp::oauth::store::refresh_keys(s.refresh_tokens);
        assert(crate::mcp::oauth::store::refresh_keys(s1.refresh_tokens) =~= keys.push(refresh));
        let j = choose|j: int| 0 <= j < keys.push(refresh).len() && keys.push(refresh)[j] == refresh2;
        assert(j < keys.len());
        assert(keys[j] == refresh2);
        assert(false);
    }
    assert(!crate::mcp::oauth::store::refresh_keys(s3.refresh_tokens).contains(refresh2));
    assert(spec_token_refresh(s1, key, port, req, later, access_jti2, refresh2).1 is Ok);
}

/// A refresh token is exchanged at most once: whatever an exchange of it
/// answered, a later exchange of the same token is refused (the token
/// handed out in its place being a different one).
pub proof fn law_refresh_exchange_is_single_use(
    s: StoreState,
    key: Seq<u8>,
    port: u16,
    first: TokenRequest,
    now: i64,
    access_jti: Seq<char>,
    refresh: Seq<char>,
    second: TokenRequest,
    later: i64,
    access_jti2: Seq<char>,
    refresh2: Seq<char>,
)
    requires
        first.grant_type@ == "refresh_token"@,
        second.grant_type@ == "refresh_token"@,
        first.refresh_token is Some,
        first.client_id is Some,
        second.refresh_token matches Some(t) && t@ == first.refresh_token->0@,
        second.client_id is Some,
        refresh != first.refresh_token->0@,
    ensures
        spec_token(
            spec_token(s, key, port, first, now, access_jti, refresh).0,
            key,
            port,
            second,
            later,
            access_jti2,
            refresh2,
        ).1 == Err::<TokenResponseView, OAuthErrorView>(
            invalid_grant_view("invalid or expired refresh_token"@),
        ),
{
    reveal_strlit("refresh_token");
    reveal_strlit("authorization_code");
    let jti = first.refresh_token->0@;
    let (s1, cid) = spec_consume_refresh(s, jti, now);
    crate::mcp::oauth::store::law_refresh_token_is_single_use(s, jti, now, later);
    let keys1 = crate::mcp::oauth::store::refresh_keys(s1.refresh_tokens);
    crate::text::lemma_first_index(keys1, jti);
    let t = spec_token(s, key, port, first, now, access_jti, refresh).0;
    let pushed_state = t.refresh_tokens != s1.refresh_tokens;
    if pushed_state {
        let c = cid->0;
        let s2 = spec_touch_client(s1, c, now);
        assert(s2.refresh_tokens == s1.refresh_tokens);
        let pushed = RefreshView {
            jti: refresh,
            client_id: c,
            expires_at: (now + refresh_ttl()) as i64,
            revoked: false,
        };
        assert(t.refresh_tokens == s1.refresh_tokens.push(pushed));
        assert(crate::mcp::oauth::store::refresh_keys(t.refresh_tokens) =~= keys1.push(refresh));
        crate::text::lemma_first_index(keys1.push(refresh), jti);
        match crate::text::first_index(keys1.push(refresh), jti) {
            Some(i) => {
                assert(i < keys1.len());
                assert(keys1[i] == jti);
                assert(false);
            },
            None => {},
        }
    } else {
        assert(spec_consume_refresh(t, jti, later).1 == spec_consume_refresh(s1, jti, later).1);
    }
}

/// A revoked client is locked out: its authorization requests are refused
/// with an error page (once the request itself is well-formed), and the
/// bearer check refuses every access token issued to it.
pub proof fn law_revoked_client_is_locked_out(
    s: StoreState,
    client_id: Seq<char>,
    q: AuthorizeQuery,
    claims: crate::mcp::oauth::AccessClaims,
)
    requires
        q.client_id@ == client_id,
        q.response_type@ == "code"@,
        q.code_challenge_method@ == "S256"@,
        claims.sub@ == client_id,
    ensures
        spec_authorize_begin(crate::mcp::oauth::store::spec_revoke_client(s, client_id), q)
            == Err::<ClientView, ResponseView>(html_error_view("Unknown client_id"@)),
        crate::mcp::oauth::spec_claims_refusal(
            crate::mcp::oauth::store::spec_revoke_client(s, client_id),
            claims,
        ) is Some,
{
    crate::mcp::oauth::store::law_revoked_client_is_hidden(s, client_id);
}

} // verus!
