//! OAuth 2.1 server-side state, the access tokens it issues (HS256 JWTs),
//! and the checks that gate the MCP endpoint on a valid bearer token.

pub mod consent;
pub mod crypto;
pub mod handlers;
pub mod store;
pub mod urls;

use vstd::prelude::*;
use crate::ids::unix_now;
use crate::mcp::oauth::consent::ConsentRegistry;
use crate::mcp::oauth::store::{spec_get_client, spec_is_access_jti_revoked, spec_touch_client, OAuthStore, StoreState};
use crate::mcp::{public_url, spec_public_url};
use crate::text::{
    chars_of, i64_to_decimal, int_decimal, json_string, push_char, push_json_string, push_str,
    string_from_chars, string_of,
};

verus! {

/// Audience claim of the access tokens issued here.
pub open spec fn audience() -> Seq<char> {
    "mcp"@
}

/// The claims of an access token.
#[derive(Debug)]
pub struct AccessClaims {
    pub sub: String,
    pub iss: String,
    pub aud: String,
    pub exp: i64,
    pub iat: i64,
    pub jti: String,
}

/// The claims of an access token as plain values.
pub struct ClaimsView {
    pub sub: Seq<char>,
    pub iss: Seq<char>,
    pub aud: Seq<char>,
    pub exp: i64,
    pub iat: i64,
    pub jti: Seq<char>,
}

impl View for AccessClaims {
    type V = ClaimsView;

    open spec fn view(&self) -> ClaimsView {
        ClaimsView {
            sub: self.sub@,
            iss: self.iss@,
            aud: self.aud@,
            exp: self.exp,
            iat: self.iat,
            jti: self.jti@,
        }
    }
}

/// The compact JSON object of claims with these values, members in
/// declaration order.
pub open spec fn claims_json_of(
    sub: Seq<char>,
    iss: Seq<char>,
    aud: Seq<char>,
    exp: i64,
    iat: i64,
    jti: Seq<char>,
) -> Seq<char> {
    "{\"sub\":"@ + json_string(sub) + ",\"iss\":"@ + json_string(iss) + ",\"aud\":"@ + json_string(
        aud,
    ) + ",\"exp\":"@ + int_decimal(exp as int) + ",\"iat\":"@ + int_decimal(iat as int)
        + ",\"jti\":"@ + json_string(jti) + "}"@
}

/// The compact JSON object of the claims, members in declaration order.
pub open spec fn claims_json(c: AccessClaims) -> Seq<char> {
    claims_json_of(c.sub@, c.iss@, c.aud@, c.exp, c.iat, c.jti@)
}

/// The HS256 JWT that `jsonwebtoken::encode` makes, under its default header,
/// of the JSON text `payload` signed with the secret `key`.
pub uninterp spec fn jwt_hs256(payload: Seq<char>, key: Seq<u8>) -> Seq<char>;

/// `jsonwebtoken::encode` with `Header::default()` (HS256) and
/// `EncodingKey::from_secret(key)`, on the JSON text `payload` carried
/// verbatim (as a `serde_json::value::RawValue`). Claimed: the token depends
/// on these two arguments alone. Left unsaid: what the token is; text that is
/// not JSON, or a failure to encode, gives the empty string.
#[verifier::external_body]
fn encode_hs256_jwt(payload: &str, key: &[u8]) -> (t: String)
    ensures
        t@ == jwt_hs256(payload@, key@),
{
    let claims: &serde_json::value::RawValue = match serde_json::from_str(payload) {
        Ok(v) => v,
        Err(_) => return String::new(),
    };
    let key = jsonwebtoken::EncodingKey::from_secret(key);
    jsonwebtoken::encode(&jsonwebtoken::Header::default(), &claims, &key).unwrap_or_default()
}

impl AccessClaims {
    /// The claims as a compact JSON object.
    pub fn to_json(&self) -> (r: String)
        ensures
            r@ == claims_json(*self),
    {
        let mut r = string_of("{\"sub\":");
        push_json_string(&mut r, self.sub.as_str());
        push_str(&mut r, ",\"iss\":");
        push_json_string(&mut r, self.iss.as_str());
        push_str(&mut r, ",\"aud\":");
        push_json_string(&mut r, self.aud.as_str());
        push_str(&mut r, ",\"exp\":");
        let exp = i64_to_decimal(self.exp);
        push_str(&mut r, exp.as_str());
        push_str(&mut r, ",\"iat\":");
        let iat = i64_to_decimal(self.iat);
        push_str(&mut r, iat.as_str());
        push_str(&mut r, ",\"jti\":");
        push_json_string(&mut r, self.jti.as_str());
        push_str(&mut r, "}");
        assert(r@ =~= claims_json(*self));
        r
    }
}

/// Encodes and signs the claims as an HS256 JWT under `key`.
pub fn encode_access_token(claims: &AccessClaims, key: &[u8]) -> (t: String)
    ensures
        t@ == jwt_hs256(claims_json(*claims), key@),
{
    let payload = claims.to_json();
    encode_hs256_jwt(payload.as_str(), key)
}

// ---------------------------------------------------------------------------
// Server state
// ---------------------------------------------------------------------------

/// What the authorization server keeps across restarts of the MCP server:
/// its tables, the consent requests, the signing key, and the port it was
/// last bound to (which absolute URLs in metadata and tokens name).
#[derive(Debug)]
pub struct OAuthState {
    pub store: OAuthStore,
    pub consent: ConsentRegistry,
    pub signing_key: Vec<u8>,
    pub bound_port: u16,
}

impl OAuthState {
    /// Server state over the tables `store`, with their signing key (made on
    /// first use), no waiting consent, and no port bound yet.
    pub fn initialise(store: OAuthStore) -> (s: Self)
        ensures
            s.bound_port == 0,
            s.consent.pending@.len() == 0,
            match store@.signing_key {
                Some((k, t)) => s.signing_key@ == k && s.store@ == store@,
                None => {
                    &&& s.signing_key@.len() == 32
                    &&& s.store@.signing_key matches Some((k, t)) && k == s.signing_key@
                    &&& s.store@ == (StoreState { signing_key: s.store@.signing_key, ..store@ })
                },
            },
    {
        let mut store = store;
        let signing_key = store.get_or_create_signing_key();
        OAuthState { store, consent: ConsentRegistry::new(), signing_key, bound_port: 0 }
    }

    /// Records the port the server was bound to.
    pub fn set_port(&mut self, port: u16)
        ensures
            final(self).bound_port == port,
            final(self).store == old(self).store,
            final(self).consent == old(self).consent,
            final(self).signing_key == old(self).signing_key,
    {
        self.bound_port = port;
    }

    /// The base URL for the last bound port.
    pub fn base_url(&self) -> (r: String)
        ensures
            r@ == spec_public_url(self.bound_port),
    {
        public_url(self.bound_port)
    }
}

// ---------------------------------------------------------------------------
// Bearer tokens
// ---------------------------------------------------------------------------

/// Whether `c` is white space (Unicode `White_Space`, as `char::is_whitespace`
/// decides it).
pub open spec fn is_white_space(c: char) -> bool {
    ||| c == ' '
    ||| ('\u{9}' <= c && c <= '\u{d}')
    ||| c == '\u{85}'
    ||| c == '\u{a0}'
    ||| c == '\u{1680}'
    ||| ('\u{2000}' <= c && c <= '\u{200a}')
    ||| c == '\u{2028}'
    ||| c == '\u{2029}'
    ||| c == '\u{202f}'
    ||| c == '\u{205f}'
    ||| c == '\u{3000}'
}

/// `s` without leading white space.
pub open spec fn trim_start(s: Seq<char>) -> Seq<char>
    decreases s.len(),
{
    if s.len() > 0 && is_white_space(s[0]) {
        trim_start(s.drop_first())
    } else {
        s
    }
}

/// `s` without trailing white space.
pub open spec fn trim_end(s: Seq<char>) -> Seq<char>
    decreases s.len(),
{
    if s.len() > 0 && is_white_space(s.last()) {
        trim_end(s.drop_last())
    } else {
        s
    }
}

/// `s` without leading or trailing white space (`str::trim`).
pub open spec fn trim(s: Seq<char>) -> Seq<char> {
    trim_end(trim_start(s))
}

/// The token an `Authorization` header value carries: the text after
/// `Bearer `, trimmed.
pub open spec fn spec_bearer_token(header: Option<Seq<char>>) -> Option<Seq<char>> {
    match header {
        Some(h) => if h.len() >= 7 && h.take(7) == "Bearer "@ {
            Some(trim(h.skip(7)))
        } else {
            None
        },
        None => None,
    }
}

fn is_ws(c: char) -> (r: bool)
    ensures
        r == is_white_space(c),
{
    c == ' ' || ('\u{9}' <= c && c <= '\u{d}') || c == '\u{85}' || c == '\u{a0}' || c == '\u{1680}'
        || ('\u{2000}' <= c && c <= '\u{200a}') || c == '\u{2028}' || c == '\u{2029}' || c
        == '\u{202f}' || c == '\u{205f}' || c == '\u{3000}'
}

/// The bearer token in an `Authorization` header value (`None`: no header,
/// or not a bearer credential).
pub fn bearer_token(authorization: Option<&str>) -> (r: Option<String>)
    ensures
        match r {
            Some(t) => spec_bearer_token(
                match authorization {
                    Some(h) => Some(h@),
                    None => None,
                },
            ) == Some(t@),
            None => spec_bearer_token(
                match authorization {
                    Some(h) => Some(h@),
                    None => None,
                },
            ) is None,
        },
{
    let h = match authorization {
        Some(h) => h,
        None => return None,
    };
    let cs = chars_of(h);
    proof {
        reveal_strlit("Bearer ");
    }
    if cs.len() < 7 || cs[0] != 'B' || cs[1] != 'e' || cs[2] != 'a' || cs[3] != 'r' || cs[4] != 'e'
        || cs[5] != 'r' || cs[6] != ' ' {
        proof {
            if h@.len() >= 7 && h@.take(7) == "Bearer "@ {
                assert(h@.take(7)[0] == 'B');
                assert(h@.take(7)[1] == 'e');
                assert(h@.take(7)[2] == 'a');
                assert(h@.take(7)[3] == 'r');
                assert(h@.take(7)[4] == 'e');
                assert(h@.take(7)[5] == 'r');
                assert(h@.take(7)[6] == ' ');
            }
        }
        return None;
    }
    assert(h@.take(7) =~= "Bearer "@);
    let mut start: usize = 7;
    assert(trim_start(h@.skip(7)) == trim_start(h@.skip(start as int)));
    while start < cs.len() && is_ws(cs[start])
        invariant
            7 <= start <= cs.len(),
            cs@ == h@,
            trim_start(h@.skip(7)) == trim_start(h@.skip(start as int)),
        decreases cs.len() - start,
    {
        assert(h@.skip(start as int).drop_first() =~= h@.skip(start + 1));
        start = start + 1;
    }
    let mut end: usize = cs.len();
    assert(h@.skip(start as int) =~= h@.subrange(start as int, end as int));
    while end > start && is_ws(cs[end - 1])
        invariant
            start <= end <= cs.len(),
            cs@ == h@,
            trim_end(trim_start(h@.skip(7))) == trim_end(h@.subrange(start as int, end as int)),
        decreases end,
    {
        assert(h@.subrange(start as int, end as int).drop_last() =~= h@.subrange(
            start as int,
            end - 1,
        ));
        end = end - 1;
    }
    let mut out: Vec<char> = Vec::new();
    let mut k: usize = start;
    while k < end
        invariant
            start <= k <= end,
            end <= cs.len(),
            cs@ == h@,
            out@ == h@.subrange(start as int, k as int),
        decreases end - k,
    {
        out.push(cs[k]);
        k = k + 1;
        assert(out@ =~= h@.subrange(start as int, k as int));
    }
    Some(string_from_chars(&out))
}

/// Why a bearer token is refused once it decoded: its id was revoked, or
/// its client no longer exists.
pub open spec fn spec_claims_refusal(s: StoreState, claims: AccessClaims) -> Option<Seq<char>> {
    if spec_is_access_jti_revoked(s, claims.jti@) {
        Some("token revoked"@)
    } else if spec_get_client(s, claims.sub@) is None {
        Some("client revoked"@)
    } else {
        None
    }
}

/// Checks the claims of a decoded, signature-checked access token at `now`:
/// refused when its id was revoked or its client is gone; accepted
/// otherwise, recording a use of the client.
pub fn check_access_claims_at(store: &mut OAuthStore, claims: &AccessClaims, now: i64) -> (r: Result<(), String>)
    ensures
        match spec_claims_refusal(old(store)@, *claims) {
            Some(why) => r matches Err(e) && e@ == why && final(store)@ == old(store)@,
            None => r is Ok && final(store)@ == spec_touch_client(old(store)@, claims.sub@, now),
        },
{
    if store.is_access_jti_revoked(claims.jti.as_str()) {
        return Err(string_of("token revoked"));
    }
    if store.get_client(claims.sub.as_str()).is_none() {
        return Err(string_of("client revoked"));
    }
    store.touch_client_at(claims.sub.as_str(), now);
    Ok(())
}

/// As `check_access_claims_at`, now.
pub fn check_access_claims(store: &mut OAuthStore, claims: &AccessClaims) -> (r: Result<(), String>)
    ensures
        match spec_claims_refusal(old(store)@, *claims) {
            Some(why) => r matches Err(e) && e@ == why && final(store)@ == old(store)@,
            None => r is Ok && exists|now: i64|
                final(store)@ == #[trigger] spec_touch_client(old(store)@, claims.sub@, now),
        },
{
    let now = unix_now();
    check_access_claims_at(store, claims, now)
}

/// The refusal of a request without a valid bearer token: status 401, a
/// `WWW-Authenticate` challenge that points at the protected-resource
/// metadata, and a JSON body with the error and its description.
#[derive(Debug)]
pub struct Unauthorized {
    pub status: u16,
    pub www_authenticate: String,
    pub error: String,
    pub error_description: String,
}

/// `s` with each `"` replaced by `'`.
pub open spec fn quotes_to_apostrophes(s: Seq<char>) -> Seq<char> {
    s.map_values(|c: char| if c == '"' { '\'' } else { c })
}

/// The challenge of a refusal for the server at `base` and the reason `why`.
pub open spec fn spec_www_authenticate(base: Seq<char>, why: Seq<char>) -> Seq<char> {
    "Bearer realm=\"mcp\", resource_metadata=\""@ + base
        + "/.well-known/oauth-protected-resource\", error=\"invalid_token\", error_description=\""@
        + quotes_to_apostrophes(why) + "\""@
}

/// Builds the refusal of an unauthenticated request to the server at `base`.
pub fn unauthorized(base: &str, why: &str) -> (r: Unauthorized)
    ensures
        r.status == 401,
        r.www_authenticate@ == spec_www_authenticate(base@, why@),
        r.error@ == "invalid_token"@,
        r.error_description@ == why@,
{
    let mut h = string_of("Bearer realm=\"mcp\", resource_metadata=\"");
    push_str(&mut h, base);
    push_str(
        &mut h,
        "/.well-known/oauth-protected-resource\", error=\"invalid_token\", error_description=\"",
    );
    let cs = chars_of(why);
    let ghost start = h@;
    let mut i: usize = 0;
    while i < cs.len()
        invariant
            i <= cs.len(),
            cs@ == why@,
            h@ == start + quotes_to_apostrophes(why@).take(i as int),
        decreases cs.len() - i,
    {
        let c = if cs[i] == '"' {
            '\''
        } else {
            cs[i]
        };
        push_char(&mut h, c);
        i = i + 1;
        assert(quotes_to_apostrophes(why@).take(i as int) =~= quotes_to_apostrophes(why@).take(
            (i - 1) as int,
        ).push(c));
    }
    assert(quotes_to_apostrophes(why@).take(cs.len() as int) =~= quotes_to_apostrophes(why@));
    push_str(&mut h, "\"");
    assert(h@ =~= spec_www_authenticate(base@, why@));
    Unauthorized {
        status: 401,
        www_authenticate: h,
        error: string_of("invalid_token"),
        error_description: string_of(why),
    }
}

/// Why the bearer gate refuses a request, given what was read from its
/// `Authorization` header: nothing when no `Bearer ` token was sent, the
/// decoder's complaint when the token did not decode and validate (HS256
/// signature with the signing key, audience "mcp", not expired), and
/// otherwise the verdict on its claims.
pub open spec fn spec_bearer_refusal(s: StoreState, decoded: Option<Result<AccessClaims, String>>) -> Option<Seq<char>> {
    match decoded {
        None => Some("missing Bearer token"@),
        Some(Err(e)) => Some("invalid token: "@ + e@),
        Some(Ok(c)) => spec_claims_refusal(s, c),
    }
}

/// The subject of decoded claims.
pub open spec fn decoded_subject(decoded: Option<Result<AccessClaims, String>>) -> Seq<char> {
    match decoded {
        Some(Ok(c)) => c.sub@,
        _ => Seq::empty(),
    }
}

/// Whether `u` is the 401 answer for `why` from the server at `port`.
pub open spec fn answers_unauthorized(u: Unauthorized, port: u16, why: Seq<char>) -> bool {
    &&& u.status == 401
    &&& u.www_authenticate@ == spec_www_authenticate(spec_public_url(port), why)
    &&& u.error@ == "invalid_token"@
    &&& u.error_description@ == why
}

/// The check in front of `/mcp` at time `now`: lets a request through when
/// it carried a valid access token of a registered client (recording the
/// use), and answers 401 with the reason otherwise.
pub fn require_bearer_at(state: &mut OAuthState, decoded: Option<Result<AccessClaims, String>>, now: i64) -> (r: Result<(), Unauthorized>)
    ensures
        final(state).signing_key == old(state).signing_key,
        final(state).bound_port == old(state).bound_port,
        final(state).consent == old(state).consent,
        match spec_bearer_refusal(old(state).store@, decoded) {
            Some(why) => r matches Err(u) && answers_unauthorized(u, old(state).bound_port, why)
                && final(state).store@ == old(state).store@,
            None => r is Ok && final(state).store@ == spec_touch_client(
                old(state).store@,
                decoded_subject(decoded),
                now,
            ),
        },
{
    let base = state.base_url();
    match decoded {
        None => Err(unauthorized(base.as_str(), "missing Bearer token")),
        Some(Err(e)) => {
            let mut why = string_of("invalid token: ");
            push_str(&mut why, e.as_str());
            Err(unauthorized(base.as_str(), why.as_str()))
        },
        Some(Ok(claims)) => match check_access_claims_at(&mut state.store, &claims, now) {
            Ok(()) => Ok(()),
            Err(why) => Err(unauthorized(base.as_str(), why.as_str())),
        },
    }
}

/// The check in front of `/mcp`, now; see `require_bearer_at`.
pub fn require_bearer(state: &mut OAuthState, decoded: Option<Result<AccessClaims, String>>) -> (r: Result<(), Unauthorized>)
    ensures
        final(state).signing_key == old(state).signing_key,
        final(state).bound_port == old(state).bound_port,
        final(state).consent == old(state).consent,
        match spec_bearer_refusal(old(state).store@, decoded) {
            Some(why) => r matches Err(u) && answers_unauthorized(u, old(state).bound_port, why)
                && final(state).store@ == old(state).store@,
            None => r is Ok && exists|now: i64|
                final(state).store@ == #[trigger] spec_touch_client(
                    old(state).store@,
                    decoded_subject(decoded),
                    now,
                ),
        },
{
    let now = unix_now();
    require_bearer_at(state, decoded, now)
}

/// The claims that `token` carries when `jsonwebtoken::decode` accepts it
/// under the HS256 secret `key` and the audience `audience`, leaving out
/// only the comparison of its expiry with the clock, and its six claims
/// (`sub`, `iss`, `aud`, `jti` as strings, `exp`, `iat` as integers) can be
/// read; `None` otherwise.
pub uninterp spec fn hs256_claims(token: Seq<char>, key: Seq<u8>, audience: Seq<char>) -> Option<ClaimsView>;

/// Decodes an access token, through `jsonwebtoken::decode` (into a
/// `serde_json::Value`) with HS256, `DecodingKey::from_secret(key)` and a
/// `Validation` for `audience`; the six claims are then read from the
/// decoded object. Claimed: a token that decodes carries the audience
/// `audience` and the claims `hs256_claims` names for these arguments, a
/// token for which that name gives nothing does not decode, and one for which
/// it gives claims fails, if at all, only as expired (`ExpiredSignature`, the
/// text `jsonwebtoken` gives that error). Not claimed: whether such a token
/// has expired (that reads the clock), and the text of the other errors.
#[verifier::external_body]
pub(crate) fn decode_access_token(token: &str, key: &[u8], audience: &str) -> (r: Result<AccessClaims, String>)
    ensures
        r matches Ok(c) ==> c.aud@ == audience@ && hs256_claims(token@, key@, audience@) == Some(c@),
        hs256_claims(token@, key@, audience@) is None ==> r is Err,
        hs256_claims(token@, key@, audience@) is Some ==> r is Ok || (r matches Err(e) && e@
            == "ExpiredSignature"@),
{
    let mut validation = jsonwebtoken::Validation::new(jsonwebtoken::Algorithm::HS256);
    validation.set_audience(&[audience]);
    let key = jsonwebtoken::DecodingKey::from_secret(key);
    let v = jsonwebtoken::decode::<serde_json::Value>(token, &key, &validation).map_err(|e| e.to_string())?.claims;
    let s = |k: &str| v[k].as_str().map(String::from).ok_or(format!("missing field `{k}`"));
    let n = |k: &str| v[k].as_i64().ok_or(format!("missing field `{k}`"));
    Ok(AccessClaims { sub: s("sub")?, iss: s("iss")?, aud: s("aud")?, exp: n("exp")?, iat: n("iat")?, jti: s("jti")? })
}

/// Whether `d` is what decoding `token` under the secret `key` may give:
/// claims only as `hs256_claims` names them, with the audience "mcp"; a
/// failure whenever that name gives nothing; and otherwise the claims or the
/// expiry error.
pub open spec fn decodes_as(d: Result<AccessClaims, String>, token: Seq<char>, key: Seq<u8>) -> bool {
    &&& (d matches Ok(c) ==> c.aud@ == audience() && hs256_claims(token, key, audience()) == Some(c@))
    &&& (hs256_claims(token, key, audience()) is None ==> d is Err)
    &&& (hs256_claims(token, key, audience()) is Some ==> d is Ok || (d matches Err(e) && e@
        == "ExpiredSignature"@))
}

/// The header as a character sequence.
pub open spec fn opt_header(h: Option<&str>) -> Option<Seq<char>> {
    match h {
        Some(v) => Some(v@),
        None => None,
    }
}

/// What the check does to the tables and answers, given what decoding gave
/// (`decoded`) and the time `now`: see `require_bearer_at`.
pub open spec fn bearer_verdict(
    old: StoreState,
    new: StoreState,
    port: u16,
    decoded: Option<Result<AccessClaims, String>>,
    now: i64,
    r: Result<(), Unauthorized>,
) -> bool {
    match spec_bearer_refusal(old, decoded) {
        Some(why) => r matches Err(u) && answers_unauthorized(u, port, why) && new == old,
        None => r is Ok && new == spec_touch_client(old, decoded_subject(decoded), now),
    }
}

/// The check in front of `/mcp`, from the raw `Authorization` header: a
/// request without a `Bearer ` token is answered 401 "missing Bearer
/// token"; otherwise the token is decoded and validated with the signing
/// key (HS256, audience "mcp", not expired) and the verdict of
/// `require_bearer_at` on the result is given, at the current time.
pub fn require_bearer_header(state: &mut OAuthState, authorization: Option<&str>) -> (r: Result<(), Unauthorized>)
    ensures
        final(state).signing_key == old(state).signing_key,
        final(state).bound_port == old(state).bound_port,
        final(state).consent == old(state).consent,
        spec_bearer_token(opt_header(authorization)) is None ==> {
            &&& r matches Err(u) && answers_unauthorized(u, old(state).bound_port, "missing Bearer token"@)
            &&& final(state).store@ == old(state).store@
        },
        spec_bearer_token(opt_header(authorization)) matches Some(token) ==> exists|
            d: Result<AccessClaims, String>,
            now: i64,
        |
            {
                &&& decodes_as(d, token, old(state).signing_key@)
                &&& #[trigger] bearer_verdict(
                    old(state).store@,
                    final(state).store@,
                    old(state).bound_port,
                    Some(d),
                    now,
                    r,
                )
            },
{
    let token = bearer_token(authorization);
    proof {
        reveal_strlit("mcp");
    }
    match token {
        None => {
            let now = unix_now();
            require_bearer_at(state, None, now)
        },
        Some(t) => {
            let d = decode_access_token(t.as_str(), state.signing_key.as_slice(), "mcp");
            let ghost dv = d;
            assert(decodes_as(dv, t@, old(state).signing_key@));
            let now = unix_now();
            let r = require_bearer_at(state, Some(d), now);
            assert(bearer_verdict(old(state).store@, state.store@, old(state).bound_port, Some(dv), now, r));
            r
        },
    }
}

} // verus!
