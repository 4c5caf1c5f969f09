//! The OAuth tables: registered clients, authorization codes, refresh
//! tokens, revoked access-token ids and the signing key.
//!
//! Every operation has the meaning of the SQL statement it stands for: a key
//! column is unique (inserting a taken key fails), a lookup reads the first
//! matching row, and an update or delete touches every matching row. Where
//! an operation reads the clock or draws randomness, a sibling ending in
//! `_at` or `_with` takes that value as an argument instead.

use vstd::prelude::*;
use crate::ids::{is_uuid_v4_text, new_uuid_v4, unix_now};
use crate::text::{first_index, lemma_first_index, lemma_first_index_at, lemma_first_index_none, str_eq};

verus! {

/// A registered client as the interface lists it.
#[derive(Debug)]
pub struct ClientRecord {
    pub id: String,
    pub name: String,
    pub redirect_uris: Vec<String>,
    pub created_at: i64,
    pub last_used_at: Option<i64>,
}

/// A row of the clients table.
#[derive(Debug)]
pub struct ClientRow {
    pub record: ClientRecord,
    pub revoked: bool,
}

/// A row of the authorization-code table.
#[derive(Debug)]
pub struct AuthCodeRecord {
    pub code: String,
    pub client_id: String,
    pub redirect_uri: String,
    pub code_challenge: String,
    pub scope: Option<String>,
    pub created_at: i64,
    pub used: bool,
}

/// A row of the refresh-token table.
#[derive(Debug)]
pub struct RefreshRow {
    pub jti: String,
    pub client_id: String,
    pub expires_at: i64,
    pub revoked: bool,
}

/// A row of the revoked access-token table.
#[derive(Debug)]
pub struct RevokedJti {
    pub jti: String,
    pub revoked_at: i64,
}

/// The HS256 signing key and when it was made.
#[derive(Debug)]
pub struct SigningKey {
    pub key: Vec<u8>,
    pub created_at: i64,
}

/// The key column of a table.
#[derive(Clone, Copy, Debug, PartialEq, Eq, Structural)]
pub enum KeyColumn {
    /// `clients.id`
    ClientId,
    /// `auth_codes.code`
    AuthCode,
    /// `refresh_tokens.jti`
    RefreshJti,
}

/// Why a write failed: the key is already taken in that column.
#[derive(Clone, Copy, Debug, PartialEq, Eq, Structural)]
pub enum StoreError {
    DuplicateKey(KeyColumn),
}

/// The text of a failed write on `column`, as SQLite words a violated
/// primary key.
pub open spec fn duplicate_key_message(column: KeyColumn) -> Seq<char> {
    "UNIQUE constraint failed: "@ + match column {
        KeyColumn::ClientId => "clients.id"@,
        KeyColumn::AuthCode => "auth_codes.code"@,
        KeyColumn::RefreshJti => "refresh_tokens.jti"@,
    }
}

impl StoreError {
    /// The error's text.
    pub fn message(&self) -> (r: String)
        ensures
            r@ == (match *self {
                StoreError::DuplicateKey(c) => duplicate_key_message(c),
            }),
    {
        let column = match self {
            StoreError::DuplicateKey(KeyColumn::ClientId) => "clients.id",
            StoreError::DuplicateKey(KeyColumn::AuthCode) => "auth_codes.code",
            StoreError::DuplicateKey(KeyColumn::RefreshJti) => "refresh_tokens.jti",
        };
        let mut r = crate::text::string_of("UNIQUE constraint failed: ");
        crate::text::push_str(&mut r, column);
        proof {
            reveal_strlit("UNIQUE constraint failed: ");
            reveal_strlit("clients.id");
            reveal_strlit("auth_codes.code");
            reveal_strlit("refresh_tokens.jti");
        }
        r
    }
}

/// The OAuth tables.
#[derive(Debug)]
pub struct OAuthStore {
    pub clients: Vec<ClientRow>,
    pub auth_codes: Vec<AuthCodeRecord>,
    pub refresh_tokens: Vec<RefreshRow>,
    pub revoked_access_jti: Vec<RevokedJti>,
    pub signing_key: Option<SigningKey>,
}

/// The strings of a list, as character sequences.
pub open spec fn strings_view(v: Seq<String>) -> Seq<Seq<char>> {
    v.map_values(|s: String| s@)
}

/// A client as plain values.
pub struct ClientView {
    pub id: Seq<char>,
    pub name: Seq<char>,
    pub redirect_uris: Seq<Seq<char>>,
    pub created_at: i64,
    pub last_used_at: Option<i64>,
}

/// A client row as plain values.
pub struct ClientRowView {
    pub record: ClientView,
    pub revoked: bool,
}

/// An authorization-code row as plain values.
pub struct AuthCodeView {
    pub code: Seq<char>,
    pub client_id: Seq<char>,
    pub redirect_uri: Seq<char>,
    pub code_challenge: Seq<char>,
    pub scope: Option<Seq<char>>,
    pub created_at: i64,
    pub used: bool,
}

/// A refresh-token row as plain values.
pub struct RefreshView {
    pub jti: Seq<char>,
    pub client_id: Seq<char>,
    pub expires_at: i64,
    pub revoked: bool,
}

impl View for ClientRecord {
    type V = ClientView;

    open spec fn view(&self) -> ClientView {
        ClientView {
            id: self.id@,
            name: self.name@,
            redirect_uris: strings_view(self.redirect_uris@),
            created_at: self.created_at,
            last_used_at: self.last_used_at,
        }
    }
}

impl View for ClientRow {
    type V = ClientRowView;

    open spec fn view(&self) -> ClientRowView {
        ClientRowView { record: self.record@, revoked: self.revoked }
    }
}

/// An optional string as an optional character sequence.
pub open spec fn opt_view(s: Option<String>) -> Option<Seq<char>> {
    match s {
        Some(v) => Some(v@),
        None => None,
    }
}

impl View for AuthCodeRecord {
    type V = AuthCodeView;

    open spec fn view(&self) -> AuthCodeView {
        AuthCodeView {
            code: self.code@,
            client_id: self.client_id@,
            redirect_uri: self.redirect_uri@,
            code_challenge: self.code_challenge@,
            scope: opt_view(self.scope),
            created_at: self.created_at,
            used: self.used,
        }
    }
}

impl View for RefreshRow {
    type V = RefreshView;

    open spec fn view(&self) -> RefreshView {
        RefreshView {
            jti: self.jti@,
            client_id: self.client_id@,
            expires_at: self.expires_at,
            revoked: self.revoked,
        }
    }
}

/// The contents of the tables.
pub struct StoreState {
    pub clients: Seq<ClientRowView>,
    pub auth_codes: Seq<AuthCodeView>,
    pub refresh_tokens: Seq<RefreshView>,
    pub revoked_access_jti: Seq<(Seq<char>, i64)>,
    pub signing_key: Option<(Seq<u8>, i64)>,
}

/// The rows of the clients table as plain values.
pub open spec fn client_rows(v: Seq<ClientRow>) -> Seq<ClientRowView> {
    v.map_values(|r: ClientRow| r@)
}

/// The rows of the code table as plain values.
pub open spec fn code_rows(v: Seq<AuthCodeRecord>) -> Seq<AuthCodeView> {
    v.map_values(|r: AuthCodeRecord| r@)
}

/// The rows of the refresh-token table as plain values.
pub open spec fn refresh_rows(v: Seq<RefreshRow>) -> Seq<RefreshView> {
    v.map_values(|r: RefreshRow| r@)
}

/// The revoked access-token table as plain values.
pub open spec fn revoked_rows(v: Seq<RevokedJti>) -> Seq<(Seq<char>, i64)> {
    v.map_values(|r: RevokedJti| (r.jti@, r.revoked_at))
}

impl View for OAuthStore {
    type V = StoreState;

    open spec fn view(&self) -> StoreState {
        StoreState {
            clients: client_rows(self.clients@),
            auth_codes: code_rows(self.auth_codes@),
            refresh_tokens: refresh_rows(self.refresh_tokens@),
            revoked_access_jti: revoked_rows(self.revoked_access_jti@),
            signing_key: match self.signing_key {
                Some(k) => Some((k.key@, k.created_at)),
                None => None,
            },
        }
    }
}

// ---------------------------------------------------------------------------
// Keys
// ---------------------------------------------------------------------------

/// The client id of each client row.
pub open spec fn client_ids(rows: Seq<ClientRowView>) -> Seq<Seq<char>> {
    rows.map_values(|r: ClientRowView| r.record.id)
}

/// The code of each authorization-code row.
pub open spec fn code_keys(rows: Seq<AuthCodeView>) -> Seq<Seq<char>> {
    rows.map_values(|r: AuthCodeView| r.code)
}

/// The id of each refresh-token row.
pub open spec fn refresh_keys(rows: Seq<RefreshView>) -> Seq<Seq<char>> {
    rows.map_values(|r: RefreshView| r.jti)
}

/// The id of each revoked access token.
pub open spec fn revoked_keys(rows: Seq<(Seq<char>, i64)>) -> Seq<Seq<char>> {
    rows.map_values(|r: (Seq<char>, i64)| r.0)
}

/// The first client row with id `id` that is not revoked.
pub open spec fn first_live_client(rows: Seq<ClientRowView>, id: Seq<char>) -> Option<ClientView>
    decreases rows.len(),
{
    if rows.len() == 0 {
        None
    } else if rows[0].record.id == id && !rows[0].revoked {
        Some(rows[0].record)
    } else {
        first_live_client(rows.drop_first(), id)
    }
}

// ---------------------------------------------------------------------------
// What each operation does to the tables
// ---------------------------------------------------------------------------

/// Inserting a client: fails when the id is taken.
pub open spec fn spec_register_client(s: StoreState, rec: ClientView) -> (StoreState, bool) {
    if client_ids(s.clients).contains(rec.id) {
        (s, false)
    } else {
        (StoreState { clients: s.clients.push(ClientRowView { record: rec, revoked: false }), ..s }, true)
    }
}

/// Looking up a client that is not revoked.
pub open spec fn spec_get_client(s: StoreState, id: Seq<char>) -> Option<ClientView> {
    first_live_client(s.clients, id)
}

/// A client row with its last use set to `now`.
pub open spec fn touched(r: ClientRowView, now: i64) -> ClientRowView {
    ClientRowView { record: ClientView { last_used_at: Some(now), ..r.record }, ..r }
}

/// The client rows after recording a use at `now` of every row with id `id`.
pub open spec fn touch_rows(rows: Seq<ClientRowView>, id: Seq<char>, now: i64) -> Seq<ClientRowView> {
    rows.map_values(
        |r: ClientRowView|
            if r.record.id == id {
                touched(r, now)
            } else {
                r
            },
    )
}

/// Recording a use of every client row with id `id`.
pub open spec fn spec_touch_client(s: StoreState, id: Seq<char>, now: i64) -> StoreState {
    StoreState { clients: touch_rows(s.clients, id, now), ..s }
}

/// The client rows after revoking every row with id `id`.
pub open spec fn revoke_rows(rows: Seq<ClientRowView>, id: Seq<char>) -> Seq<ClientRowView> {
    rows.map_values(
        |r: ClientRowView|
            if r.record.id == id {
                ClientRowView { revoked: true, ..r }
            } else {
                r
            },
    )
}

/// The refresh rows after revoking every token of client `id`.
pub open spec fn revoke_tokens(rows: Seq<RefreshView>, id: Seq<char>) -> Seq<RefreshView> {
    rows.map_values(
        |t: RefreshView|
            if t.client_id == id {
                RefreshView { revoked: true, ..t }
            } else {
                t
            },
    )
}

/// Revoking a client and every refresh token issued to it.
pub open spec fn spec_revoke_client(s: StoreState, id: Seq<char>) -> StoreState {
    StoreState {
        clients: revoke_rows(s.clients, id),
        refresh_tokens: revoke_tokens(s.refresh_tokens, id),
        ..s
    }
}

/// Inserting an authorization code: fails when the code is taken.
pub open spec fn spec_store_auth_code(s: StoreState, rec: AuthCodeView) -> (StoreState, bool) {
    if code_keys(s.auth_codes).contains(rec.code) {
        (s, false)
    } else {
        (StoreState { auth_codes: s.auth_codes.push(rec), ..s }, true)
    }
}

/// How long an authorization code may be redeemed, in seconds.
pub open spec fn auth_code_ttl() -> int {
    600
}

/// Whether a code row can no longer be redeemed at `now`.
pub open spec fn code_spent(r: AuthCodeView, now: i64) -> bool {
    r.used || now - r.created_at > auth_code_ttl()
}

/// The code rows other than those for `code`.
pub open spec fn codes_without(rows: Seq<AuthCodeView>, code: Seq<char>) -> Seq<AuthCodeView> {
    rows.filter(|c: AuthCodeView| c.code != code)
}

/// The code rows with every row for `code` marked used.
pub open spec fn codes_used(rows: Seq<AuthCodeView>, code: Seq<char>) -> Seq<AuthCodeView> {
    rows.map_values(
        |c: AuthCodeView|
            if c.code == code {
                AuthCodeView { used: true, ..c }
            } else {
                c
            },
    )
}

/// Redeeming an authorization code at `now`: a spent or expired code is
/// deleted and refused; otherwise it is marked used and returned as it was.
pub open spec fn spec_consume_auth_code(s: StoreState, code: Seq<char>, now: i64) -> (
    StoreState,
    Option<AuthCodeView>,
) {
    match first_index(code_keys(s.auth_codes), code) {
        None => (s, None),
        Some(i) => {
            let r = s.auth_codes[i];
            if code_spent(r, now) {
                (StoreState { auth_codes: codes_without(s.auth_codes, code), ..s }, None)
            } else {
                (StoreState { auth_codes: codes_used(s.auth_codes, code), ..s }, Some(r))
            }
        },
    }
}

/// Inserting a refresh token: fails when its id is taken.
pub open spec fn spec_store_refresh(s: StoreState, row: RefreshView) -> (StoreState, bool) {
    if refresh_keys(s.refresh_tokens).contains(row.jti) {
        (s, false)
    } else {
        (StoreState { refresh_tokens: s.refresh_tokens.push(row), ..s }, true)
    }
}

/// The refresh rows other than those with id `jti`.
pub open spec fn tokens_without(rows: Seq<RefreshView>, jti: Seq<char>) -> Seq<RefreshView> {
    rows.filter(|t: RefreshView| t.jti != jti)
}

/// Redeeming a refresh token at `now`: it is deleted whatever happens, and
/// its client is returned unless it was revoked or had expired.
pub open spec fn spec_consume_refresh(s: StoreState, jti: Seq<char>, now: i64) -> (
    StoreState,
    Option<Seq<char>>,
) {
    match first_index(refresh_keys(s.refresh_tokens), jti) {
        None => (s, None),
        Some(i) => {
            let r = s.refresh_tokens[i];
            let rest = StoreState { refresh_tokens: tokens_without(s.refresh_tokens, jti), ..s };
            if r.revoked || r.expires_at < now {
                (rest, None)
            } else {
                (rest, Some(r.client_id))
            }
        },
    }
}

/// Whether the access token with id `jti` was revoked.
pub open spec fn spec_is_access_jti_revoked(s: StoreState, jti: Seq<char>) -> bool {
    revoked_keys(s.revoked_access_jti).contains(jti)
}

// ---------------------------------------------------------------------------
// Helpers
// ---------------------------------------------------------------------------

/// An optional client as plain values.
pub open spec fn opt_client_view(c: Option<ClientRecord>) -> Option<ClientView> {
    match c {
        Some(r) => Some(r@),
        None => None,
    }
}

/// An optional code row as plain values.
pub open spec fn opt_code_view(c: Option<AuthCodeRecord>) -> Option<AuthCodeView> {
    match c {
        Some(r) => Some(r@),
        None => None,
    }
}

pub(crate) fn clone_strings(v: &Vec<String>) -> (r: Vec<String>)
    ensures
        r@ == v@,
{
    let mut r: Vec<String> = Vec::new();
    let mut i: usize = 0;
    while i < v.len()
        invariant
            i <= v.len(),
            r@ == v@.take(i as int),
        decreases v.len() - i,
    {
        r.push(v[i].clone());
        i = i + 1;
        assert(r@ =~= v@.take(i as int));
    }
    assert(v@.take(v.len() as int) =~= v@);
    r
}

pub(crate) fn clone_opt(s: &Option<String>) -> (r: Option<String>)
    ensures
        r == *s,
{
    match s {
        Some(v) => Some(v.clone()),
        None => None,
    }
}

impl ClientRecord {
    /// A copy with the same contents.
    pub fn duplicate(&self) -> (r: Self)
        ensures
            r@ == self@,
    {
        ClientRecord {
            id: self.id.clone(),
            name: self.name.clone(),
            redirect_uris: clone_strings(&self.redirect_uris),
            created_at: self.created_at,
            last_used_at: self.last_used_at,
        }
    }
}

impl AuthCodeRecord {
    /// A copy with the same contents.
    pub fn duplicate(&self) -> (r: Self)
        ensures
            r@ == self@,
    {
        AuthCodeRecord {
            code: self.code.clone(),
            client_id: self.client_id.clone(),
            redirect_uri: self.redirect_uri.clone(),
            code_challenge: self.code_challenge.clone(),
            scope: clone_opt(&self.scope),
            created_at: self.created_at,
            used: self.used,
        }
    }
}

impl RefreshRow {
    fn duplicate(&self) -> (r: Self)
        ensures
            r@ == self@,
    {
        RefreshRow {
            jti: self.jti.clone(),
            client_id: self.client_id.clone(),
            expires_at: self.expires_at,
            revoked: self.revoked,
        }
    }
}

proof fn lemma_first_live_client_skip(rows: Seq<ClientRowView>, id: Seq<char>, i: int)
    requires
        0 <= i < rows.len(),
    ensures
        first_live_client(rows.skip(i), id) == (if rows[i].record.id == id && !rows[i].revoked {
            Some(rows[i].record)
        } else {
            first_live_client(rows.skip(i + 1), id)
        }),
{
    assert(rows.skip(i).drop_first() =~= rows.skip(i + 1));
}

/// Whether no key occurs twice in the client, code or refresh-token rows.
pub open spec fn rows_unique(
    clients: Seq<ClientRow>,
    auth_codes: Seq<AuthCodeRecord>,
    refresh_tokens: Seq<RefreshRow>,
) -> bool {
    &&& client_ids(client_rows(clients)).no_duplicates()
    &&& code_keys(code_rows(auth_codes)).no_duplicates()
    &&& refresh_keys(refresh_rows(refresh_tokens)).no_duplicates()
}

/// Whether no two of the strings are equal.
fn all_distinct(keys: &Vec<String>) -> (r: bool)
    ensures
        r == strings_view(keys@).no_duplicates(),
{
    let ghost ks = strings_view(keys@);
    let mut i: usize = 0;
    while i < keys.len()
        invariant
            i <= keys.len(),
            ks == strings_view(keys@),
            forall|a: int, b: int| 0 <= a < i && 0 <= b < i && a != b ==> ks[a] != ks[b],
        decreases keys.len() - i,
    {
        let mut j: usize = 0;
        while j < i
            invariant
                j <= i,
                i < keys.len(),
                ks == strings_view(keys@),
                forall|a: int, b: int| 0 <= a < i && 0 <= b < i && a != b ==> ks[a] != ks[b],
                forall|a: int| 0 <= a < j ==> ks[a] != ks[i as int],
            decreases i - j,
        {
            if str_eq(keys[j].as_str(), keys[i].as_str()) {
                assert(ks[j as int] == ks[i as int]);
                return false;
            }
            j = j + 1;
        }
        i = i + 1;
    }
    true
}

impl OAuthStore {
    /// Empty tables.
    pub fn new() -> (s: Self)
        ensures
            s@.clients.len() == 0,
            s@.auth_codes.len() == 0,
            s@.refresh_tokens.len() == 0,
            s@.revoked_access_jti.len() == 0,
            s@.signing_key is None,
            keys_unique(s@),
    {
        OAuthStore {
            clients: Vec::new(),
            auth_codes: Vec::new(),
            refresh_tokens: Vec::new(),
            revoked_access_jti: Vec::new(),
            signing_key: None,
        }
    }

    /// The tables as read back from storage, with their signing key.
    /// Refused when a key occurs twice in the client, code or refresh-token
    /// rows, which the storage's primary keys rule out.
    pub fn from_tables(
        clients: Vec<ClientRow>,
        auth_codes: Vec<AuthCodeRecord>,
        refresh_tokens: Vec<RefreshRow>,
        revoked_access_jti: Vec<RevokedJti>,
        signing_key: Option<SigningKey>,
    ) -> (r: Result<OAuthStore, StoreError>)
        ensures
            r is Ok <==> rows_unique(clients@, auth_codes@, refresh_tokens@),
            r matches Ok(s) ==> {
                &&& s.clients@ == clients@
                &&& s.auth_codes@ == auth_codes@
                &&& s.refresh_tokens@ == refresh_tokens@
                &&& s.revoked_access_jti@ == revoked_access_jti@
                &&& s.signing_key == signing_key
                &&& keys_unique(s@)
            },
            r matches Err(e) ==> e == StoreError::DuplicateKey(
                if !client_ids(client_rows(clients@)).no_duplicates() {
                    KeyColumn::ClientId
                } else if !code_keys(code_rows(auth_codes@)).no_duplicates() {
                    KeyColumn::AuthCode
                } else {
                    KeyColumn::RefreshJti
                },
            ),
    {
        let ghost ck = client_ids(client_rows(clients@));
        let mut ids: Vec<String> = Vec::new();
        let mut i: usize = 0;
        while i < clients.len()
            invariant
                i <= clients.len(),
                ck == client_ids(client_rows(clients@)),
                strings_view(ids@) == ck.take(i as int),
            decreases clients.len() - i,
        {
            let k = clients[i].record.id.clone();
            assert(ck[i as int] == k@);
            let ghost before = ids@;
            ids.push(k);
            assert(strings_view(ids@) =~= strings_view(before).push(k@));
            assert(ck.take(i + 1) =~= ck.take(i as int).push(k@));
            i = i + 1;
            assert(strings_view(ids@) =~= ck.take(i as int));
        }
        assert(ck.take(clients.len() as int) =~= ck);
        let ghost kk = code_keys(code_rows(auth_codes@));
        let mut codes: Vec<String> = Vec::new();
        let mut i: usize = 0;
        while i < auth_codes.len()
            invariant
                i <= auth_codes.len(),
                kk == code_keys(code_rows(auth_codes@)),
                strings_view(codes@) == kk.take(i as int),
            decreases auth_codes.len() - i,
        {
            let k = auth_codes[i].code.clone();
            assert(kk[i as int] == k@);
            let ghost before = codes@;
            codes.push(k);
            assert(strings_view(codes@) =~= strings_view(before).push(k@));
            assert(kk.take(i + 1) =~= kk.take(i as int).push(k@));
            i = i + 1;
            assert(strings_view(codes@) =~= kk.take(i as int));
        }
        assert(kk.take(auth_codes.len() as int) =~= kk);
        let ghost rk = refresh_keys(refresh_rows(refresh_tokens@));
        let mut jtis: Vec<String> = Vec::new();
        let mut i: usize = 0;
        while i < refresh_tokens.len()
            invariant
                i <= refresh_tokens.len(),
                rk == refresh_keys(refresh_rows(refresh_tokens@)),
                strings_view(jtis@) == rk.take(i as int),
            decreases refresh_tokens.len() - i,
        {
            let k = refresh_tokens[i].jti.clone();
            assert(rk[i as int] == k@);
            let ghost before = jtis@;
            jtis.push(k);
            assert(strings_view(jtis@) =~= strings_view(before).push(k@));
            assert(rk.take(i + 1) =~= rk.take(i as int).push(k@));
            i = i + 1;
            assert(strings_view(jtis@) =~= rk.take(i as int));
        }
        assert(rk.take(refresh_tokens.len() as int) =~= rk);
        if !all_distinct(&ids) {
            return Err(StoreError::DuplicateKey(KeyColumn::ClientId));
        }
        if !all_distinct(&codes) {
            return Err(StoreError::DuplicateKey(KeyColumn::AuthCode));
        }
        if !all_distinct(&jtis) {
            return Err(StoreError::DuplicateKey(KeyColumn::RefreshJti));
        }
        Ok(OAuthStore { clients, auth_codes, refresh_tokens, revoked_access_jti, signing_key })
    }

    fn has_client_id(&self, id: &str) -> (r: bool)
        ensures
            r == client_ids(self@.clients).contains(id@),
    {
        let mut i: usize = 0;
        while i < self.clients.len()
            invariant
                i <= self.clients.len(),
                forall|j: int| 0 <= j < i ==> self.clients@[j].record.id@ != id@,
            decreases self.clients.len() - i,
        {
            if str_eq(self.clients[i].record.id.as_str(), id) {
                assert(client_ids(self@.clients)[i as int] == id@);
                return true;
            }
            i = i + 1;
        }
        assert forall|j: int| 0 <= j < client_ids(self@.clients).len() implies client_ids(
            self@.clients,
        )[j] != id@ by {}
        false
    }

    /// Registers a client under the id `id` at time `now`. Fails, changing
    /// nothing, when the id is taken.
    pub fn register_client_at(&mut self, id: String, name: &str, redirect_uris: &Vec<String>, now: i64) -> (r: Result<ClientRecord, StoreError>)
        ensures
            keys_unique(old(self)@) ==> keys_unique(final(self)@),
            match r {
                Ok(rec) => {
                    &&& rec.id == id
                    &&& rec@ == (ClientView {
                        id: id@,
                        name: name@,
                        redirect_uris: strings_view(redirect_uris@),
                        created_at: now,
                        last_used_at: None,
                    })
                    &&& spec_register_client(old(self)@, rec@) == (final(self)@, true)
                },
                Err(e) => {
                    &&& e == StoreError::DuplicateKey(KeyColumn::ClientId)
                    &&& spec_register_client(
                        old(self)@,
                        ClientView {
                            id: id@,
                            name: name@,
                            redirect_uris: strings_view(redirect_uris@),
                            created_at: now,
                            last_used_at: None,
                        },
                    ) == (final(self)@, false)
                },
            },
    {
        proof {
            if keys_unique(old(self)@) {
                lemma_register_keeps_unique(old(self)@, ClientView { id: id@, name: name@, redirect_uris: strings_view(redirect_uris@), created_at: now, last_used_at: None });
            }
        }
        if self.has_client_id(id.as_str()) {
            return Err(StoreError::DuplicateKey(KeyColumn::ClientId));
        }
        let rec = ClientRecord {
            id,
            name: crate::text::string_of(name),
            redirect_uris: clone_strings(redirect_uris),
            created_at: now,
            last_used_at: None,
        };
        let row = ClientRow { record: rec.duplicate(), revoked: false };
        self.clients.push(row);
        assert(client_rows(self.clients@) =~= client_rows(old(self).clients@).push(row@));
        Ok(rec)
    }

    /// Registers a client under a fresh random id, stamped with the current
    /// time. Fails, changing nothing, only when the drawn id is taken: so it
    /// succeeds whenever no registered id has the form of a version-4 UUID
    /// (for instance on empty tables).
    pub fn register_client(&mut self, name: &str, redirect_uris: &Vec<String>) -> (r: Result<ClientRecord, StoreError>)
        ensures
            keys_unique(old(self)@) ==> keys_unique(final(self)@),
            match r {
                Ok(rec) => {
                    &&& is_uuid_v4_text(rec@.id)
                    &&& rec@.name == name@
                    &&& rec@.redirect_uris == strings_view(redirect_uris@)
                    &&& rec@.last_used_at is None
                    &&& spec_register_client(old(self)@, rec@) == (final(self)@, true)
                },
                Err(e) => {
                    &&& e == StoreError::DuplicateKey(KeyColumn::ClientId)
                    &&& final(self)@ == old(self)@
                    &&& exists|i: int|
                        0 <= i < old(self)@.clients.len()
                            && is_uuid_v4_text((#[trigger] old(self)@.clients[i]).record.id)
                },
            },
    {
        let id = new_uuid_v4();
        let now = unix_now();
        let ghost drawn = id@;
        let r = self.register_client_at(id, name, redirect_uris, now);
        proof {
            if r is Err {
                let ids = client_ids(old(self)@.clients);
                assert(ids.contains(drawn));
                let k = choose|k: int| 0 <= k < ids.len() && ids[k] == drawn;
                assert(old(self)@.clients[k].record.id == drawn);
            }
        }
        r
    }

    /// The client with id `client_id`, unless it was revoked.
    pub fn get_client(&self, client_id: &str) -> (r: Option<ClientRecord>)
        ensures
            opt_client_view(r) == spec_get_client(self@, client_id@),
    {
        let ghost rows = self@.clients;
        let mut i: usize = 0;
        assert(rows.skip(0) =~= rows);
        while i < self.clients.len()
            invariant
                i <= self.clients.len(),
                rows == client_rows(self.clients@),
                first_live_client(rows, client_id@) == first_live_client(
                    rows.skip(i as int),
                    client_id@,
                ),
            decreases self.clients.len() - i,
        {
            proof {
                lemma_first_live_client_skip(rows, client_id@, i as int);
            }
            let row = &self.clients[i];
            if !row.revoked && str_eq(row.record.id.as_str(), client_id) {
                return Some(row.record.duplicate());
            }
            i = i + 1;
        }
        None
    }

    /// Records a use at `now` of the client `client_id` (revoked or not).
    pub fn touch_client_at(&mut self, client_id: &str, now: i64)
        ensures
            keys_unique(old(self)@) ==> keys_unique(final(self)@),
            final(self)@ == spec_touch_client(old(self)@, client_id@, now),
    {
        proof {
            if keys_unique(old(self)@) {
                lemma_touch_and_revoke_keep_unique(old(self)@, client_id@, now);
            }
        }
        let ghost start = self@.clients;
        let mut i: usize = 0;
        while i < self.clients.len()
            invariant
                i <= self.clients.len(),
                self.clients@.len() == start.len(),
                start.len() == old(self).clients@.len(),
                start == client_rows(old(self).clients@),
                forall|j: int|
                    0 <= j < i ==> self.clients@[j]@ == (if start[j].record.id == client_id@ {
                        touched(start[j], now)
                    } else {
                        start[j]
                    }),
                forall|j: int| i <= j < self.clients@.len() ==> self.clients@[j]@ == start[j],
                self.auth_codes == old(self).auth_codes,
                self.refresh_tokens == old(self).refresh_tokens,
                self.revoked_access_jti == old(self).revoked_access_jti,
                self.signing_key == old(self).signing_key,
            decreases self.clients.len() - i,
        {
            if str_eq(self.clients[i].record.id.as_str(), client_id) {
                self.clients[i].record.last_used_at = Some(now);
            }
            i = i + 1;
        }
        assert(client_rows(self.clients@) =~= touch_rows(start, client_id@, now));
    }

    /// Records a use of the client `client_id` now.
    pub fn touch_client(&mut self, client_id: &str)
        ensures
            keys_unique(old(self)@) ==> keys_unique(final(self)@),
            exists|now: i64| final(self)@ == spec_touch_client(old(self)@, client_id@, now),
    {
        let now = unix_now();
        self.touch_client_at(client_id, now);
    }

    /// Revokes the client `client_id` and every refresh token issued to it.
    pub fn revoke_client(&mut self, client_id: &str)
        ensures
            keys_unique(old(self)@) ==> keys_unique(final(self)@),
            final(self)@ == spec_revoke_client(old(self)@, client_id@),
    {
        proof {
            if keys_unique(old(self)@) {
                lemma_touch_and_revoke_keep_unique(old(self)@, client_id@, 0);
            }
        }
        let ghost start = self@.clients;
        let mut i: usize = 0;
        while i < self.clients.len()
            invariant
                i <= self.clients.len(),
                self.clients@.len() == start.len(),
                start == client_rows(old(self).clients@),
                forall|j: int|
                    0 <= j < i ==> self.clients@[j]@ == (if start[j].record.id == client_id@ {
                        ClientRowView { revoked: true, ..start[j] }
                    } else {
                        start[j]
                    }),
                forall|j: int| i <= j < self.clients@.len() ==> self.clients@[j]@ == start[j],
                self.auth_codes == old(self).auth_codes,
                self.refresh_tokens == old(self).refresh_tokens,
                self.revoked_access_jti == old(self).revoked_access_jti,
                self.signing_key == old(self).signing_key,
            decreases self.clients.len() - i,
        {
            if str_eq(self.clients[i].record.id.as_str(), client_id) {
                self.clients[i].revoked = true;
            }
            i = i + 1;
        }
        assert(client_rows(self.clients@) =~= revoke_rows(start, client_id@));
        let ghost start_t = self@.refresh_tokens;
        let ghost mid_clients = self.clients@;
        let mut k: usize = 0;
        while k < self.refresh_tokens.len()
            invariant
                k <= self.refresh_tokens.len(),
                self.refresh_tokens@.len() == start_t.len(),
                start_t == refresh_rows(old(self).refresh_tokens@),
                forall|j: int|
                    0 <= j < k ==> self.refresh_tokens@[j]@ == (if start_t[j].client_id == client_id@ {
                        RefreshView { revoked: true, ..start_t[j] }
                    } else {
                        start_t[j]
                    }),
                forall|j: int| k <= j < self.refresh_tokens@.len() ==> self.refresh_tokens@[j]@ == start_t[j],
                self.clients@ == mid_clients,
                self.auth_codes == old(self).auth_codes,
                self.revoked_access_jti == old(self).revoked_access_jti,
                self.signing_key == old(self).signing_key,
            decreases self.refresh_tokens.len() - k,
        {
            if str_eq(self.refresh_tokens[k].client_id.as_str(), client_id) {
                self.refresh_tokens[k].revoked = true;
            }
            k = k + 1;
        }
        assert(refresh_rows(self.refresh_tokens@) =~= revoke_tokens(start_t, client_id@));
    }
}

/// The clients that are not revoked, in table order.
pub open spec fn live_clients(rows: Seq<ClientRowView>) -> Seq<ClientView>
    decreases rows.len(),
{
    if rows.len() == 0 {
        Seq::empty()
    } else {
        let rest = live_clients(rows.drop_last());
        if rows.last().revoked {
            rest
        } else {
            rest.push(rows.last().record)
        }
    }
}

/// Client records as plain values.
pub open spec fn client_views(v: Seq<ClientRecord>) -> Seq<ClientView> {
    v.map_values(|c: ClientRecord| c@)
}

/// Whether clients come newest first (by registration time).
pub open spec fn newest_first(v: Seq<ClientView>) -> bool {
    forall|i: int, j: int| 0 <= i <= j < v.len() ==> v[j].created_at <= v[i].created_at
}

proof fn lemma_insert_to_multiset<A>(s: Seq<A>, p: int, x: A)
    requires
        0 <= p <= s.len(),
    ensures
        s.insert(p, x).to_multiset() =~= s.to_multiset().insert(x),
{
    broadcast use vstd::seq_lib::group_to_multiset_ensures;

    let t = s.insert(p, x);
    assert(t.remove(p) =~= s);
    assert(t[p] == x);
    assert(t.contains(x));
}

impl OAuthStore {
    /// The clients that are not revoked, newest registration first (the
    /// order among clients registered in the same second is not fixed).
    pub fn list_clients(&self) -> (r: Vec<ClientRecord>)
        ensures
            newest_first(client_views(r@)),
            client_views(r@).to_multiset() == live_clients(self@.clients).to_multiset(),
    {
        let ghost rows = self@.clients;
        let mut out: Vec<ClientRecord> = Vec::new();
        let mut i: usize = 0;
        assert(rows.take(0) =~= Seq::<ClientRowView>::empty());
        assert(client_views(out@) =~= Seq::<ClientView>::empty());
        while i < self.clients.len()
            invariant
                i <= self.clients.len(),
                rows == client_rows(self.clients@),
                newest_first(client_views(out@)),
                client_views(out@).to_multiset() == live_clients(rows.take(i as int)).to_multiset(),
            decreases self.clients.len() - i,
        {
            let ghost before = out@;
            assert(rows.take(i as int + 1).drop_last() =~= rows.take(i as int));
            assert(rows.take(i as int + 1).last() == rows[i as int]);
            assert(rows[i as int] == self.clients@[i as int]@);
            if !self.clients[i].revoked {
                let rec = self.clients[i].record.duplicate();
                let mut p: usize = 0;
                while p < out.len() && out[p].created_at >= rec.created_at
                    invariant
                        p <= out.len(),
                        out@ == before,
                        forall|k: int| 0 <= k < p ==> out@[k].created_at >= rec.created_at,
                    decreases out.len() - p,
                {
                    p = p + 1;
                }
                let ghost rv = rec@;
                out.insert(p, rec);
                proof {
                    let old_v = client_views(before);
                    assert(client_views(out@) =~= old_v.insert(p as int, rv));
                    lemma_insert_to_multiset(old_v, p as int, rv);
                    vstd::seq_lib::to_multiset_build(live_clients(rows.take(i as int)), rv);
                    assert(live_clients(rows.take(i as int + 1)) == live_clients(rows.take(i as int)).push(rv));
                    let nv = client_views(out@);
                    assert forall|a: int, b: int| 0 <= a <= b < nv.len() implies nv[b].created_at
                        <= nv[a].created_at by {
                        if b < p {
                        } else if b == p {
                        } else if a < p {
                            assert(old_v[a].created_at >= rv.created_at);
                            assert(nv[b] == old_v[b - 1]);
                            if (p as int) < old_v.len() {
                                assert(old_v[p as int].created_at < rv.created_at);
                            }
                        } else if a == p {
                            assert(nv[b] == old_v[b - 1]);
                            assert(old_v[p as int].created_at < rv.created_at);
                        } else {
                            assert(nv[a] == old_v[a - 1]);
                            assert(nv[b] == old_v[b - 1]);
                        }
                    }
                }
            } else {
                assert(live_clients(rows.take(i as int + 1)) == live_clients(rows.take(i as int)));
            }
            i = i + 1;
        }
        assert(rows.take(rows.len() as int) =~= rows);
        out
    }
}

} // verus!

verus! {

/// An optional string slice as an optional character sequence.
pub open spec fn opt_str_view(s: Option<&str>) -> Option<Seq<char>> {
    match s {
        Some(v) => Some(v@),
        None => None,
    }
}

/// A new, unused authorization-code row issued at `now`.
pub open spec fn new_code_row(
    code: Seq<char>,
    client_id: Seq<char>,
    redirect_uri: Seq<char>,
    code_challenge: Seq<char>,
    scope: Option<Seq<char>>,
    now: i64,
) -> AuthCodeView {
    AuthCodeView { code, client_id, redirect_uri, code_challenge, scope, created_at: now, used: false }
}

impl OAuthStore {
    fn find_code(&self, code: &str) -> (r: Option<usize>)
        ensures
            match r {
                Some(i) => i < self.auth_codes@.len() && first_index(code_keys(self@.auth_codes), code@)
                    == Some(i as int),
                None => first_index(code_keys(self@.auth_codes), code@) is None,
            },
    {
        let mut i: usize = 0;
        while i < self.auth_codes.len()
            invariant
                i <= self.auth_codes.len(),
                forall|j: int| 0 <= j < i ==> code_keys(self@.auth_codes)[j] != code@,
            decreases self.auth_codes.len() - i,
        {
            if str_eq(self.auth_codes[i].code.as_str(), code) {
                proof {
                    lemma_first_index_at(code_keys(self@.auth_codes), code@, i as int);
                }
                return Some(i);
            }
            i = i + 1;
        }
        proof {
            lemma_first_index_none(code_keys(self@.auth_codes), code@);
        }
        None
    }

    /// Stores a new authorization code issued at `now`. Fails, changing
    /// nothing, when the code is taken.
    pub fn store_auth_code_at(
        &mut self,
        code: &str,
        client_id: &str,
        redirect_uri: &str,
        code_challenge: &str,
        scope: Option<&str>,
        now: i64,
    ) -> (r: Result<(), StoreError>)
        ensures
            keys_unique(old(self)@) ==> keys_unique(final(self)@),
            spec_store_auth_code(
                old(self)@,
                new_code_row(code@, client_id@, redirect_uri@, code_challenge@, opt_str_view(scope), now),
            ) == (final(self)@, r is Ok),
            r is Err ==> r == Err::<(), StoreError>(StoreError::DuplicateKey(KeyColumn::AuthCode)),
    {
        proof {
            if keys_unique(old(self)@) {
                lemma_store_code_keeps_unique(old(self)@, new_code_row(code@, client_id@, redirect_uri@, code_challenge@, opt_str_view(scope), now));
            }
        }
        if self.find_code(code).is_some() {
            proof {
                lemma_first_index(code_keys(self@.auth_codes), code@);
            }
            return Err(StoreError::DuplicateKey(KeyColumn::AuthCode));
        }
        proof {
            lemma_first_index(code_keys(self@.auth_codes), code@);
        }
        let rec = AuthCodeRecord {
            code: crate::text::string_of(code),
            client_id: crate::text::string_of(client_id),
            redirect_uri: crate::text::string_of(redirect_uri),
            code_challenge: crate::text::string_of(code_challenge),
            scope: match scope {
                Some(s) => Some(crate::text::string_of(s)),
                None => None,
            },
            created_at: now,
            used: false,
        };
        self.auth_codes.push(rec);
        assert(code_rows(self.auth_codes@) =~= code_rows(old(self).auth_codes@).push(rec@));
        Ok(())
    }

    /// Stores a new authorization code issued now.
    pub fn store_auth_code(
        &mut self,
        code: &str,
        client_id: &str,
        redirect_uri: &str,
        code_challenge: &str,
        scope: Option<&str>,
    ) -> (r: Result<(), StoreError>)
        ensures
            keys_unique(old(self)@) ==> keys_unique(final(self)@),
            exists|now: i64|
                spec_store_auth_code(
                    old(self)@,
                    #[trigger] new_code_row(
                        code@,
                        client_id@,
                        redirect_uri@,
                        code_challenge@,
                        opt_str_view(scope),
                        now,
                    ),
                ) == (final(self)@, r is Ok),
            r is Err ==> r == Err::<(), StoreError>(StoreError::DuplicateKey(KeyColumn::AuthCode)),
    {
        let now = unix_now();
        self.store_auth_code_at(code, client_id, redirect_uri, code_challenge, scope, now)
    }

    fn delete_codes(&mut self, code: &str)
        ensures
            final(self)@ == (StoreState {
                auth_codes: codes_without(old(self)@.auth_codes, code@),
                ..old(self)@
            }),
    {
        let ghost start = self@.auth_codes;
        let mut out: Vec<AuthCodeRecord> = Vec::new();
        let mut i: usize = 0;
        while i < self.auth_codes.len()
            invariant
                i <= self.auth_codes.len(),
                start == code_rows(self.auth_codes@),
                code_rows(out@) == start.take(i as int).filter(|c: AuthCodeView| c.code != code@),
            decreases self.auth_codes.len() - i,
        {
            proof {
                reveal_with_fuel(Seq::<AuthCodeView>::filter, 1);
                assert(start.take(i + 1).drop_last() =~= start.take(i as int));
            }
            if !str_eq(self.auth_codes[i].code.as_str(), code) {
                let c = self.auth_codes[i].duplicate();
                let ghost before = out@;
                out.push(c);
                assert(code_rows(out@) =~= code_rows(before).push(c@));
            }
            i = i + 1;
        }
        assert(start.take(start.len() as int) =~= start);
        self.auth_codes = out;
    }

    fn mark_codes_used(&mut self, code: &str)
        ensures
            final(self)@ == (StoreState {
                auth_codes: codes_used(old(self)@.auth_codes, code@),
                ..old(self)@
            }),
    {
        let ghost start = self@.auth_codes;
        let mut i: usize = 0;
        while i < self.auth_codes.len()
            invariant
                i <= self.auth_codes.len(),
                self.auth_codes@.len() == start.len(),
                start == code_rows(old(self).auth_codes@),
                forall|j: int|
                    0 <= j < i ==> self.auth_codes@[j]@ == (if start[j].code == code@ {
                        AuthCodeView { used: true, ..start[j] }
                    } else {
                        start[j]
                    }),
                forall|j: int| i <= j < self.auth_codes@.len() ==> self.auth_codes@[j]@ == start[j],
                self.clients == old(self).clients,
                self.refresh_tokens == old(self).refresh_tokens,
                self.revoked_access_jti == old(self).revoked_access_jti,
                self.signing_key == old(self).signing_key,
            decreases self.auth_codes.len() - i,
        {
            if str_eq(self.auth_codes[i].code.as_str(), code) {
                self.auth_codes[i].used = true;
            }
            i = i + 1;
        }
        assert(code_rows(self.auth_codes@) =~= codes_used(start, code@));
    }

    /// Redeems the authorization code `code` at `now`: returns its row (as it
    /// was) on its first use within ten minutes of issue, and nothing when it
    /// is unknown, used or expired; a used or expired code is deleted.
    pub fn consume_auth_code_at(&mut self, code: &str, now: i64) -> (r: Option<AuthCodeRecord>)
        ensures
            keys_unique(old(self)@) ==> keys_unique(final(self)@),
            spec_consume_auth_code(old(self)@, code@, now) == (final(self)@, opt_code_view(r)),
    {
        proof {
            if keys_unique(old(self)@) {
                lemma_consume_code_keeps_unique(old(self)@, code@, now);
            }
        }
        match self.find_code(code) {
            None => None,
            Some(i) => {
                let rec = self.auth_codes[i].duplicate();
                let age: i128 = (now as i128) - (rec.created_at as i128);
                if rec.used || age > 600 {
                    self.delete_codes(code);
                    None
                } else {
                    self.mark_codes_used(code);
                    Some(rec)
                }
            },
        }
    }

    /// Redeems the authorization code `code` now.
    pub fn consume_auth_code(&mut self, code: &str) -> (r: Option<AuthCodeRecord>)
        ensures
            keys_unique(old(self)@) ==> keys_unique(final(self)@),
            exists|now: i64|
                spec_consume_auth_code(old(self)@, code@, now) == (final(self)@, opt_code_view(r)),
    {
        let now = unix_now();
        self.consume_auth_code_at(code, now)
    }

    fn find_refresh(&self, jti: &str) -> (r: Option<usize>)
        ensures
            match r {
                Some(i) => i < self.refresh_tokens@.len() && first_index(
                    refresh_keys(self@.refresh_tokens),
                    jti@,
                ) == Some(i as int),
                None => first_index(refresh_keys(self@.refresh_tokens), jti@) is None,
            },
    {
        let mut i: usize = 0;
        while i < self.refresh_tokens.len()
            invariant
                i <= self.refresh_tokens.len(),
                forall|j: int| 0 <= j < i ==> refresh_keys(self@.refresh_tokens)[j] != jti@,
            decreases self.refresh_tokens.len() - i,
        {
            if str_eq(self.refresh_tokens[i].jti.as_str(), jti) {
                proof {
                    lemma_first_index_at(refresh_keys(self@.refresh_tokens), jti@, i as int);
                }
                return Some(i);
            }
            i = i + 1;
        }
        proof {
            lemma_first_index_none(refresh_keys(self@.refresh_tokens), jti@);
        }
        None
    }

    /// Stores a refresh token `jti` of client `client_id` expiring at
    /// `expires_at`. Fails, changing nothing, when the id is taken.
    pub fn store_refresh(&mut self, jti: &str, client_id: &str, expires_at: i64) -> (r: Result<(), StoreError>)
        ensures
            keys_unique(old(self)@) ==> keys_unique(final(self)@),
            spec_store_refresh(
                old(self)@,
                RefreshView { jti: jti@, client_id: client_id@, expires_at, revoked: false },
            ) == (final(self)@, r is Ok),
            r is Err ==> r == Err::<(), StoreError>(StoreError::DuplicateKey(KeyColumn::RefreshJti)),
    {
        proof {
            if keys_unique(old(self)@) {
                lemma_store_refresh_keeps_unique(old(self)@, RefreshView { jti: jti@, client_id: client_id@, expires_at, revoked: false });
            }
        }
        proof {
            lemma_first_index(refresh_keys(self@.refresh_tokens), jti@);
        }
        if self.find_refresh(jti).is_some() {
            return Err(StoreError::DuplicateKey(KeyColumn::RefreshJti));
        }
        let row = RefreshRow {
            jti: crate::text::string_of(jti),
            client_id: crate::text::string_of(client_id),
            expires_at,
            revoked: false,
        };
        self.refresh_tokens.push(row);
        assert(refresh_rows(self.refresh_tokens@) =~= refresh_rows(old(self).refresh_tokens@).push(
            row@,
        ));
        Ok(())
    }

    fn delete_tokens(&mut self, jti: &str)
        ensures
            final(self)@ == (StoreState {
                refresh_tokens: tokens_without(old(self)@.refresh_tokens, jti@),
                ..old(self)@
            }),
    {
        let ghost start = self@.refresh_tokens;
        let mut out: Vec<RefreshRow> = Vec::new();
        let mut i: usize = 0;
        while i < self.refresh_tokens.len()
            invariant
                i <= self.refresh_tokens.len(),
                start == refresh_rows(self.refresh_tokens@),
                refresh_rows(out@) == start.take(i as int).filter(|t: RefreshView| t.jti != jti@),
            decreases self.refresh_tokens.len() - i,
        {
            proof {
                reveal_with_fuel(Seq::<RefreshView>::filter, 1);
                assert(start.take(i + 1).drop_last() =~= start.take(i as int));
            }
            if !str_eq(self.refresh_tokens[i].jti.as_str(), jti) {
                let t = self.refresh_tokens[i].duplicate();
                let ghost before = out@;
                out.push(t);
                assert(refresh_rows(out@) =~= refresh_rows(before).push(t@));
            }
            i = i + 1;
        }
        assert(start.take(start.len() as int) =~= start);
        self.refresh_tokens = out;
    }

    /// Redeems the refresh token `jti` at `now`, deleting it: returns its
    /// client unless the token is unknown, revoked or expired.
    pub fn consume_refresh_at(&mut self, jti: &str, now: i64) -> (r: Option<String>)
        ensures
            keys_unique(old(self)@) ==> keys_unique(final(self)@),
            spec_consume_refresh(old(self)@, jti@, now) == (final(self)@, opt_view(r)),
    {
        proof {
            if keys_unique(old(self)@) {
                lemma_consume_refresh_keeps_unique(old(self)@, jti@, now);
            }
        }
        match self.find_refresh(jti) {
            None => None,
            Some(i) => {
                let revoked = self.refresh_tokens[i].revoked;
                let expires_at = self.refresh_tokens[i].expires_at;
                let client_id = self.refresh_tokens[i].client_id.clone();
                self.delete_tokens(jti);
                if revoked || expires_at < now {
                    None
                } else {
                    Some(client_id)
                }
            },
        }
    }

    /// Redeems the refresh token `jti` now.
    pub fn consume_refresh(&mut self, jti: &str) -> (r: Option<String>)
        ensures
            keys_unique(old(self)@) ==> keys_unique(final(self)@),
            exists|now: i64| spec_consume_refresh(old(self)@, jti@, now) == (final(self)@, opt_view(r)),
    {
        let now = unix_now();
        self.consume_refresh_at(jti, now)
    }

    /// Whether the access token with id `jti` was revoked.
    pub fn is_access_jti_revoked(&self, jti: &str) -> (r: bool)
        ensures
            r == spec_is_access_jti_revoked(self@, jti@),
    {
        let mut i: usize = 0;
        while i < self.revoked_access_jti.len()
            invariant
                i <= self.revoked_access_jti.len(),
                forall|j: int| 0 <= j < i ==> revoked_keys(self@.revoked_access_jti)[j] != jti@,
            decreases self.revoked_access_jti.len() - i,
        {
            if str_eq(self.revoked_access_jti[i].jti.as_str(), jti) {
                assert(revoked_keys(self@.revoked_access_jti)[i as int] == jti@);
                return true;
            }
            i = i + 1;
        }
        assert forall|j: int| 0 <= j < revoked_keys(self@.revoked_access_jti).len() implies revoked_keys(
            self@.revoked_access_jti,
        )[j] != jti@ by {}
        false
    }

    /// The signing key; when there is none, `fresh` made at `now` becomes it.
    pub fn get_or_create_signing_key_with(&mut self, fresh: Vec<u8>, now: i64) -> (key: Vec<u8>)
        ensures
            keys_unique(old(self)@) ==> keys_unique(final(self)@),
            got_signing_key(old(self)@, final(self)@, key@),
            match old(self)@.signing_key {
                Some((k, t)) => key@ == k && final(self)@ == old(self)@,
                None => key@ == fresh@ && final(self)@ == (StoreState {
                    signing_key: Some((fresh@, now)),
                    ..old(self)@
                }),
            },
    {
        match &self.signing_key {
            Some(k) => {
                let mut out: Vec<u8> = Vec::new();
                let mut i: usize = 0;
                while i < k.key.len()
                    invariant
                        i <= k.key.len(),
                        out@ == k.key@.take(i as int),
                    decreases k.key.len() - i,
                {
                    out.push(k.key[i]);
                    i = i + 1;
                    assert(out@ =~= k.key@.take(i as int));
                }
                assert(k.key@.take(k.key.len() as int) =~= k.key@);
                out
            },
            None => {
                let mut copy: Vec<u8> = Vec::new();
                let mut i: usize = 0;
                while i < fresh.len()
                    invariant
                        i <= fresh.len(),
                        copy@ == fresh@.take(i as int),
                    decreases fresh.len() - i,
                {
                    copy.push(fresh[i]);
                    i = i + 1;
                    assert(copy@ =~= fresh@.take(i as int));
                }
                assert(fresh@.take(fresh.len() as int) =~= fresh@);
                self.signing_key = Some(SigningKey { key: copy, created_at: now });
                fresh
            },
        }
    }

    /// The signing key, made from 32 random bytes the first time.
    pub fn get_or_create_signing_key(&mut self) -> (key: Vec<u8>)
        ensures
            keys_unique(old(self)@) ==> keys_unique(final(self)@),
            got_signing_key(old(self)@, final(self)@, key@),
            match old(self)@.signing_key {
                Some((k, t)) => key@ == k && final(self)@ == old(self)@,
                None => {
                    &&& key@.len() == 32
                    &&& final(self)@.signing_key matches Some((k, t)) && k == key@
                    &&& final(self)@ == (StoreState {
                        signing_key: final(self)@.signing_key,
                        ..old(self)@
                    })
                },
            },
    {
        if self.signing_key.is_some() {
            return self.get_or_create_signing_key_with(Vec::new(), 0);
        }
        let fresh = crate::mcp::oauth::crypto::random_bytes(32);
        let now = unix_now();
        self.get_or_create_signing_key_with(fresh, now)
    }
}

} // verus!

verus! {

// ---------------------------------------------------------------------------
// Laws of the tables
// ---------------------------------------------------------------------------

proof fn lemma_first_live_push(rows: Seq<ClientRowView>, x: ClientRowView, id: Seq<char>)
    requires
        !client_ids(rows).contains(id),
    ensures
        first_live_client(rows.push(x), id) == (if x.record.id == id && !x.revoked {
            Some(x.record)
        } else {
            None
        }),
    decreases rows.len(),
{
    if rows.len() == 0 {
        assert(rows.push(x)[0] == x);
        assert(rows.push(x).drop_first() =~= Seq::<ClientRowView>::empty());
        assert(first_live_client(Seq::<ClientRowView>::empty(), id) is None);
    } else {
        assert(client_ids(rows)[0] == rows[0].record.id);
        assert(rows.push(x)[0] == rows[0]);
        assert(rows.push(x).drop_first() =~= rows.drop_first().push(x));
        assert forall|j: int| 0 <= j < client_ids(rows.drop_first()).len() implies client_ids(
            rows.drop_first(),
        )[j] != id by {
            assert(client_ids(rows)[j + 1] == client_ids(rows.drop_first())[j]);
        }
        lemma_first_live_push(rows.drop_first(), x, id);
    }
}

/// A client is found under its id right after it was registered.
pub proof fn law_registered_client_is_found(s: StoreState, rec: ClientView)
    requires
        spec_register_client(s, rec).1,
    ensures
        spec_get_client(spec_register_client(s, rec).0, rec.id) == Some(rec),
{
    lemma_first_live_push(s.clients, ClientRowView { record: rec, revoked: false }, rec.id);
}

proof fn lemma_first_live_revoked(rows: Seq<ClientRowView>, id: Seq<char>)
    ensures
        first_live_client(revoke_rows(rows, id), id) is None,
    decreases rows.len(),
{
    if rows.len() > 0 {
        assert(revoke_rows(rows, id).drop_first() =~= revoke_rows(rows.drop_first(), id));
        lemma_first_live_revoked(rows.drop_first(), id);
    }
}

/// A revoked client is no longer found.
pub proof fn law_revoked_client_is_hidden(s: StoreState, id: Seq<char>)
    ensures
        spec_get_client(spec_revoke_client(s, id), id) is None,
{
    lemma_first_live_revoked(s.clients, id);
}

proof fn lemma_first_live_revoked_other(rows: Seq<ClientRowView>, id: Seq<char>, other: Seq<char>)
    requires
        other != id,
    ensures
        first_live_client(revoke_rows(rows, id), other) == first_live_client(rows, other),
    decreases rows.len(),
{
    if rows.len() > 0 {
        assert(revoke_rows(rows, id).drop_first() =~= revoke_rows(rows.drop_first(), id));
        lemma_first_live_revoked_other(rows.drop_first(), id, other);
    }
}

/// Whether a client is not the one with id `id`.
pub open spec fn other_client(id: Seq<char>) -> spec_fn(ClientView) -> bool {
    |c: ClientView| c.id != id
}

proof fn lemma_live_after_revoke(rows: Seq<ClientRowView>, id: Seq<char>)
    ensures
        live_clients(revoke_rows(rows, id)) == live_clients(rows).filter(other_client(id)),
    decreases rows.len(),
{
    reveal_with_fuel(Seq::<ClientView>::filter, 1);
    if rows.len() > 0 {
        let init = rows.drop_last();
        assert(revoke_rows(rows, id).drop_last() =~= revoke_rows(init, id));
        lemma_live_after_revoke(init, id);
        let live = live_clients(rows);
        if !rows.last().revoked {
            assert(live.drop_last() =~= live_clients(init));
        }
    }
}

/// Revoking a client takes it, and it alone, off the list of clients, and
/// leaves what a lookup of any other client finds as it was.
pub proof fn law_revoke_touches_only_that_client(s: StoreState, id: Seq<char>, other: Seq<char>)
    ensures
        live_clients(spec_revoke_client(s, id).clients) == live_clients(s.clients).filter(
            other_client(id),
        ),
        other != id ==> spec_get_client(spec_revoke_client(s, id), other) == spec_get_client(
            s,
            other,
        ),
{
    lemma_live_after_revoke(s.clients, id);
    if other != id {
        lemma_first_live_revoked_other(s.clients, id, other);
    }
}

proof fn lemma_first_live_touch(rows: Seq<ClientRowView>, id: Seq<char>, other: Seq<char>, now: i64)
    ensures
        first_live_client(touch_rows(rows, id, now), other) == (match first_live_client(
            rows,
            other,
        ) {
            Some(c) => if c.id == id {
                Some(ClientView { last_used_at: Some(now), ..c })
            } else {
                Some(c)
            },
            None => None,
        }),
    decreases rows.len(),
{
    if rows.len() > 0 {
        assert(touch_rows(rows, id, now).drop_first() =~= touch_rows(rows.drop_first(), id, now));
        lemma_first_live_touch(rows.drop_first(), id, other, now);
    }
}

/// Recording a use changes only the last-use time of the client it names,
/// and of no other client.
pub proof fn law_touch_only_stamps_last_use(s: StoreState, id: Seq<char>, other: Seq<char>, now: i64)
    ensures
        spec_get_client(spec_touch_client(s, id, now), other) == (match spec_get_client(s, other) {
            Some(c) => if c.id == id {
                Some(ClientView { last_used_at: Some(now), ..c })
            } else {
                Some(c)
            },
            None => None,
        }),
{
    lemma_first_live_touch(s.clients, id, other, now);
}

proof fn lemma_first_index_push_new(keys: Seq<Seq<char>>, k: Seq<char>)
    requires
        !keys.contains(k),
    ensures
        first_index(keys.push(k), k) == Some(keys.len() as int),
{
    assert forall|j: int| 0 <= j < keys.len() implies keys.push(k)[j] != k by {
        assert(keys.push(k)[j] == keys[j]);
    }
    lemma_first_index_at(keys.push(k), k, keys.len() as int);
}

/// A freshly stored authorization code is redeemed, within its lifetime,
/// for exactly the row that was stored, which is then marked used.
pub proof fn law_stored_code_is_redeemable(s: StoreState, rec: AuthCodeView, now: i64)
    requires
        spec_store_auth_code(s, rec).1,
        !rec.used,
        now - rec.created_at <= auth_code_ttl(),
    ensures
        spec_consume_auth_code(spec_store_auth_code(s, rec).0, rec.code, now).1 == Some(rec),
        spec_consume_auth_code(spec_store_auth_code(s, rec).0, rec.code, now).0.auth_codes.last()
            == (AuthCodeView { used: true, ..rec }),
{
    let t = spec_store_auth_code(s, rec).0;
    assert(t.auth_codes.last() == rec);
    assert(code_keys(t.auth_codes) =~= code_keys(s.auth_codes).push(rec.code));
    lemma_first_index_push_new(code_keys(s.auth_codes), rec.code);
}

proof fn lemma_codes_without_keys(rows: Seq<AuthCodeView>, code: Seq<char>)
    ensures
        !code_keys(codes_without(rows, code)).contains(code),
    decreases rows.len(),
{
    reveal_with_fuel(Seq::<AuthCodeView>::filter, 1);
    if rows.len() > 0 {
        lemma_codes_without_keys(rows.drop_last(), code);
        let prev = codes_without(rows.drop_last(), code);
        if rows.last().code != code {
            assert(code_keys(prev.push(rows.last())) =~= code_keys(prev).push(rows.last().code));
        }
    }
}

proof fn lemma_tokens_without_keys(rows: Seq<RefreshView>, jti: Seq<char>)
    ensures
        !refresh_keys(tokens_without(rows, jti)).contains(jti),
    decreases rows.len(),
{
    reveal_with_fuel(Seq::<RefreshView>::filter, 1);
    if rows.len() > 0 {
        lemma_tokens_without_keys(rows.drop_last(), jti);
        let prev = tokens_without(rows.drop_last(), jti);
        if rows.last().jti != jti {
            assert(refresh_keys(prev.push(rows.last())) =~= refresh_keys(prev).push(rows.last().jti));
        }
    }
}

/// An authorization code is redeemed at most once: whatever the first
/// attempt returned, a second one returns nothing.
pub proof fn law_auth_code_is_single_use(s: StoreState, code: Seq<char>, first: i64, second: i64)
    ensures
        spec_consume_auth_code(spec_consume_auth_code(s, code, first).0, code, second).1 is None,
{
    let t = spec_consume_auth_code(s, code, first).0;
    match first_index(code_keys(s.auth_codes), code) {
        None => {},
        Some(i) => {
            lemma_first_index(code_keys(s.auth_codes), code);
            if code_spent(s.auth_codes[i], first) {
                lemma_codes_without_keys(s.auth_codes, code);
                lemma_first_index(code_keys(t.auth_codes), code);
            } else {
                assert(code_keys(codes_used(s.auth_codes, code)) =~= code_keys(s.auth_codes));
                assert(t.auth_codes[i].used);
            }
        },
    }
}

/// A refresh token is redeemed at most once: whatever the first attempt
/// returned, a second one returns nothing.
pub proof fn law_refresh_token_is_single_use(s: StoreState, jti: Seq<char>, first: i64, second: i64)
    ensures
        spec_consume_refresh(spec_consume_refresh(s, jti, first).0, jti, second).1 is None,
{
    let t = spec_consume_refresh(s, jti, first).0;
    match first_index(refresh_keys(s.refresh_tokens), jti) {
        None => {},
        Some(i) => {
            lemma_tokens_without_keys(s.refresh_tokens, jti);
            lemma_first_index(refresh_keys(t.refresh_tokens), jti);
        },
    }
}

/// Once a client is revoked, no refresh token issued to it can be redeemed.
pub proof fn law_revoked_client_tokens_are_refused(s: StoreState, id: Seq<char>, jti: Seq<char>, now: i64)
    requires
        match first_index(refresh_keys(s.refresh_tokens), jti) {
            Some(i) => s.refresh_tokens[i].client_id == id,
            None => true,
        },
    ensures
        spec_consume_refresh(spec_revoke_client(s, id), jti, now).1 is None,
{
    let t = spec_revoke_client(s, id);
    assert(refresh_keys(t.refresh_tokens) =~= refresh_keys(s.refresh_tokens));
    lemma_first_index(refresh_keys(s.refresh_tokens), jti);
}

/// A stored refresh token is redeemed, before it expires, for its client.
pub proof fn law_stored_refresh_is_redeemable(s: StoreState, row: RefreshView, now: i64)
    requires
        spec_store_refresh(s, row).1,
        !row.revoked,
        now <= row.expires_at,
    ensures
        spec_consume_refresh(spec_store_refresh(s, row).0, row.jti, now).1 == Some(row.client_id),
{
    let t = spec_store_refresh(s, row).0;
    assert(refresh_keys(t.refresh_tokens) =~= refresh_keys(s.refresh_tokens).push(row.jti));
    lemma_first_index_push_new(refresh_keys(s.refresh_tokens), row.jti);
}

/// Revoking a registered client that holds a refresh token: the client is
/// no longer found or listed, its refresh token is refused, and lookups of
/// any other client find what they found before.
pub proof fn law_revoked_client_is_gone_with_its_tokens(
    s: StoreState,
    rec: ClientView,
    row: RefreshView,
    other: Seq<char>,
    now: i64,
)
    requires
        spec_register_client(s, rec).1,
        row.client_id == rec.id,
        spec_store_refresh(spec_register_client(s, rec).0, row).1,
    ensures
        ({
            let before = spec_store_refresh(spec_register_client(s, rec).0, row).0;
            let after = spec_revoke_client(before, rec.id);
            &&& spec_get_client(after, rec.id) is None
            &&& forall|k: int|
                0 <= k < live_clients(after.clients).len() ==> (#[trigger] live_clients(
                    after.clients,
                )[k]).id != rec.id
            &&& spec_consume_refresh(after, row.jti, now).1 is None
            &&& other != rec.id ==> spec_get_client(after, other) == spec_get_client(before, other)
        }),
{
    broadcast use vstd::seq_lib::group_filter_ensures;

    let before = spec_store_refresh(spec_register_client(s, rec).0, row).0;
    let mid = spec_register_client(s, rec).0;
    law_revoked_client_is_hidden(before, rec.id);
    law_revoke_touches_only_that_client(before, rec.id, other);
    assert(refresh_keys(before.refresh_tokens) =~= refresh_keys(mid.refresh_tokens).push(row.jti));
    lemma_first_index_push_new(refresh_keys(mid.refresh_tokens), row.jti);
    assert(before.refresh_tokens[mid.refresh_tokens.len() as int] == row);
    law_revoked_client_tokens_are_refused(before, rec.id, row.jti, now);
    let after = spec_revoke_client(before, rec.id);
    let listed = live_clients(after.clients);
    assert forall|k: int| 0 <= k < listed.len() implies (#[trigger] listed[k]).id != rec.id by {
        assert(other_client(rec.id)(listed[k]));
    }
}

/// Whether asking the tables `old` for the signing key gave `key` and left
/// `new`: the stored key, changing nothing, or else a key that is now stored.
pub open spec fn got_signing_key(old: StoreState, new: StoreState, key: Seq<u8>) -> bool {
    match old.signing_key {
        Some((k, t)) => key == k && new == old,
        None => {
            &&& new.signing_key matches Some((k, t)) && k == key
            &&& new == (StoreState { signing_key: new.signing_key, ..old })
        },
    }
}

/// The signing key is made once: after it was first asked for, every later
/// request gives the same key and changes nothing.
pub proof fn law_signing_key_is_made_once(
    s0: StoreState,
    s1: StoreState,
    k1: Seq<u8>,
    s2: StoreState,
    k2: Seq<u8>,
)
    requires
        got_signing_key(s0, s1, k1),
        got_signing_key(s1, s2, k2),
    ensures
        k2 == k1,
        s2 == s1,
{
}

/// Whether the key columns (client id, code, refresh-token id) hold no
/// value twice.
pub open spec fn keys_unique(s: StoreState) -> bool {
    &&& client_ids(s.clients).no_duplicates()
    &&& code_keys(s.auth_codes).no_duplicates()
    &&& refresh_keys(s.refresh_tokens).no_duplicates()
}

proof fn lemma_push_fresh_unique(keys: Seq<Seq<char>>, k: Seq<char>)
    requires
        keys.no_duplicates(),
        !keys.contains(k),
    ensures
        keys.push(k).no_duplicates(),
{
    let t = keys.push(k);
    assert forall|i: int, j: int| 0 <= i < t.len() && 0 <= j < t.len() && i != j implies t[i]
        != t[j] by {
        if i == keys.len() {
            assert(keys[j] == t[j]);
        } else if j == keys.len() {
            assert(keys[i] == t[i]);
        }
    }
}

proof fn lemma_codes_without_unique(rows: Seq<AuthCodeView>, code: Seq<char>)
    requires
        code_keys(rows).no_duplicates(),
    ensures
        code_keys(codes_without(rows, code)).no_duplicates(),
        forall|k: Seq<char>| #[trigger] code_keys(codes_without(rows, code)).contains(k)
            ==> code_keys(rows).contains(k),
    decreases rows.len(),
{
    reveal_with_fuel(Seq::<AuthCodeView>::filter, 1);
    if rows.len() > 0 {
        let init = rows.drop_last();
        assert(code_keys(init) =~= code_keys(rows).drop_last());
        assert forall|i: int, j: int|
            0 <= i < code_keys(init).len() && 0 <= j < code_keys(init).len() && i != j implies code_keys(
            init,
        )[i] != code_keys(init)[j] by {
            assert(code_keys(init)[i] == code_keys(rows)[i]);
            assert(code_keys(init)[j] == code_keys(rows)[j]);
        }
        lemma_codes_without_unique(init, code);
        let prev = codes_without(init, code);
        if rows.last().code != code {
            assert(codes_without(rows, code) == prev.push(rows.last()));
            assert(code_keys(codes_without(rows, code)) =~= code_keys(prev).push(rows.last().code));
            if code_keys(prev).contains(rows.last().code) {
                let i = choose|i: int| 0 <= i < code_keys(init).len() && code_keys(init)[i]
                    == rows.last().code;
                assert(code_keys(rows)[i] == code_keys(rows)[rows.len() - 1]);
            }
            lemma_push_fresh_unique(code_keys(prev), rows.last().code);
            assert forall|k: Seq<char>| #[trigger] code_keys(codes_without(rows, code)).contains(
                k,
            ) implies code_keys(rows).contains(k) by {
                let i = choose|i: int| 0 <= i < code_keys(codes_without(rows, code)).len()
                    && code_keys(codes_without(rows, code))[i] == k;
                if i < code_keys(prev).len() {
                    assert(code_keys(prev).contains(k));
                    let j = choose|j: int| 0 <= j < code_keys(init).len() && code_keys(init)[j] == k;
                    assert(code_keys(rows)[j] == k);
                } else {
                    assert(code_keys(rows)[rows.len() - 1] == k);
                }
            }
        } else {
            assert(codes_without(rows, code) == prev);
            assert forall|k: Seq<char>| #[trigger] code_keys(codes_without(rows, code)).contains(
                k,
            ) implies code_keys(rows).contains(k) by {
                let j = choose|j: int| 0 <= j < code_keys(init).len() && code_keys(init)[j] == k;
                assert(code_keys(rows)[j] == k);
            }
        }
    }
}

proof fn lemma_tokens_without_unique(rows: Seq<RefreshView>, jti: Seq<char>)
    requires
        refresh_keys(rows).no_duplicates(),
    ensures
        refresh_keys(tokens_without(rows, jti)).no_duplicates(),
        forall|k: Seq<char>| #[trigger] refresh_keys(tokens_without(rows, jti)).contains(k)
            ==> refresh_keys(rows).contains(k),
    decreases rows.len(),
{
    reveal_with_fuel(Seq::<RefreshView>::filter, 1);
    if rows.len() > 0 {
        let init = rows.drop_last();
        assert(refresh_keys(init) =~= refresh_keys(rows).drop_last());
        assert forall|i: int, j: int|
            0 <= i < refresh_keys(init).len() && 0 <= j < refresh_keys(init).len() && i != j implies refresh_keys(
            init,
        )[i] != refresh_keys(init)[j] by {
            assert(refresh_keys(init)[i] == refresh_keys(rows)[i]);
            assert(refresh_keys(init)[j] == refresh_keys(rows)[j]);
        }
        lemma_tokens_without_unique(init, jti);
        let prev = tokens_without(init, jti);
        if rows.last().jti != jti {
            assert(tokens_without(rows, jti) == prev.push(rows.last()));
            assert(refresh_keys(tokens_without(rows, jti)) =~= refresh_keys(prev).push(
                rows.last().jti,
            ));
            if refresh_keys(prev).contains(rows.last().jti) {
                let i = choose|i: int| 0 <= i < refresh_keys(init).len() && refresh_keys(init)[i]
                    == rows.last().jti;
                assert(refresh_keys(rows)[i] == refresh_keys(rows)[rows.len() - 1]);
            }
            lemma_push_fresh_unique(refresh_keys(prev), rows.last().jti);
            assert forall|k: Seq<char>| #[trigger] refresh_keys(
                tokens_without(rows, jti),
            ).contains(k) implies refresh_keys(rows).contains(k) by {
                let i = choose|i: int| 0 <= i < refresh_keys(tokens_without(rows, jti)).len()
                    && refresh_keys(tokens_without(rows, jti))[i] == k;
                if i < refresh_keys(prev).len() {
                    assert(refresh_keys(prev).contains(k));
                    let j = choose|j: int| 0 <= j < refresh_keys(init).len() && refresh_keys(init)[j]
                        == k;
                    assert(refresh_keys(rows)[j] == k);
                } else {
                    assert(refresh_keys(rows)[rows.len() - 1] == k);
                }
            }
        } else {
            assert(tokens_without(rows, jti) == prev);
            assert forall|k: Seq<char>| #[trigger] refresh_keys(
                tokens_without(rows, jti),
            ).contains(k) implies refresh_keys(rows).contains(k) by {
                let j = choose|j: int| 0 <= j < refresh_keys(init).len() && refresh_keys(init)[j]
                    == k;
                assert(refresh_keys(rows)[j] == k);
            }
        }
    }
}

proof fn lemma_register_keeps_unique(s: StoreState, client: ClientView)
    requires
        keys_unique(s),
    ensures
        keys_unique(spec_register_client(s, client).0),
{
    let (r, ok) = spec_register_client(s, client);
    if ok {
        assert(client_ids(r.clients) =~= client_ids(s.clients).push(client.id));
        lemma_push_fresh_unique(client_ids(s.clients), client.id);
    }
}

proof fn lemma_touch_and_revoke_keep_unique(s: StoreState, id: Seq<char>, now: i64)
    requires
        keys_unique(s),
    ensures
        keys_unique(spec_touch_client(s, id, now)),
        keys_unique(spec_revoke_client(s, id)),
{
    assert(client_ids(spec_touch_client(s, id, now).clients) =~= client_ids(s.clients));
    assert(client_ids(spec_revoke_client(s, id).clients) =~= client_ids(s.clients));
    assert(refresh_keys(spec_revoke_client(s, id).refresh_tokens) =~= refresh_keys(s.refresh_tokens));
}

proof fn lemma_store_code_keeps_unique(s: StoreState, code_row: AuthCodeView)
    requires
        keys_unique(s),
    ensures
        keys_unique(spec_store_auth_code(s, code_row).0),
{
    let (r, ok) = spec_store_auth_code(s, code_row);
    if ok {
        assert(code_keys(r.auth_codes) =~= code_keys(s.auth_codes).push(code_row.code));
        lemma_push_fresh_unique(code_keys(s.auth_codes), code_row.code);
    }
}

proof fn lemma_consume_code_keeps_unique(s: StoreState, code: Seq<char>, now: i64)
    requires
        keys_unique(s),
    ensures
        keys_unique(spec_consume_auth_code(s, code, now).0),
{
    assert(code_keys(codes_used(s.auth_codes, code)) =~= code_keys(s.auth_codes));
    lemma_codes_without_unique(s.auth_codes, code);
}

proof fn lemma_store_refresh_keeps_unique(s: StoreState, refresh_row: RefreshView)
    requires
        keys_unique(s),
    ensures
        keys_unique(spec_store_refresh(s, refresh_row).0),
{
    let (r, ok) = spec_store_refresh(s, refresh_row);
    if ok {
        assert(refresh_keys(r.refresh_tokens) =~= refresh_keys(s.refresh_tokens).push(refresh_row.jti));
        lemma_push_fresh_unique(refresh_keys(s.refresh_tokens), refresh_row.jti);
    }
}

proof fn lemma_consume_refresh_keeps_unique(s: StoreState, jti: Seq<char>, now: i64)
    requires
        keys_unique(s),
    ensures
        keys_unique(spec_consume_refresh(s, jti, now).0),
{
    lemma_tokens_without_unique(s.refresh_tokens, jti);
}

/// Every operation on the tables keeps the key columns free of duplicates:
/// inserts refuse a taken key, updates leave keys alone, and deletes only
/// remove rows.
pub proof fn law_operations_keep_keys_unique(
    s: StoreState,
    client: ClientView,
    id: Seq<char>,
    now: i64,
    code_row: AuthCodeView,
    code: Seq<char>,
    refresh_row: RefreshView,
    jti: Seq<char>,
)
    requires
        keys_unique(s),
    ensures
        keys_unique(spec_register_client(s, client).0),
        keys_unique(spec_touch_client(s, id, now)),
        keys_unique(spec_revoke_client(s, id)),
        keys_unique(spec_store_auth_code(s, code_row).0),
        keys_unique(spec_consume_auth_code(s, code, now).0),
        keys_unique(spec_store_refresh(s, refresh_row).0),
        keys_unique(spec_consume_refresh(s, jti, now).0),
{
    lemma_register_keeps_unique(s, client);
    lemma_touch_and_revoke_keep_unique(s, id, now);
    lemma_store_code_keeps_unique(s, code_row);
    lemma_consume_code_keeps_unique(s, code, now);
    lemma_store_refresh_keeps_unique(s, refresh_row);
    lemma_consume_refresh_keeps_unique(s, jti, now);
}

} // verus!
