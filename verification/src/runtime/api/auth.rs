//! Roles, credentials and who may call which endpoint.
use crate::hashing::{sha256_hex, sha256_hex_of};
use crate::runtime::store::attempts::opt_view;
use crate::runtime::store::keyed::{find_key, key_pos, keys_unique, lemma_key_push, lemma_key_update, Keyed};
use crate::text::{has_prefix, lower_eq, lower_seq, starts_with, str_eq, trim, trimmed};
use vstd::prelude::*;
use vstd::utf8::encode_utf8;

verus! {

/// Role of an API caller.
#[derive(Clone, Copy, Debug, PartialEq, Eq, Structural)]
pub enum ApiRole {
    Admin,
    Operator,
    Worker,
}

/// Stored name of a role.
pub open spec fn role_name(role: ApiRole) -> Seq<char> {
    match role {
        ApiRole::Admin => "admin"@,
        ApiRole::Operator => "operator"@,
        ApiRole::Worker => "worker"@,
    }
}

/// Role named by `value`, ignoring surrounding whitespace and ASCII case.
pub open spec fn role_from_name(value: Seq<char>) -> Option<ApiRole> {
    let v = lower_seq(trimmed(value));
    if v == "admin"@ {
        Some(ApiRole::Admin)
    } else if v == "operator"@ {
        Some(ApiRole::Operator)
    } else if v == "worker"@ {
        Some(ApiRole::Worker)
    } else {
        None
    }
}

impl ApiRole {
    /// Stored name of the role.
    pub fn as_str(&self) -> (r: &'static str)
        ensures
            r@ == role_name(*self),
    {
        match self {
            ApiRole::Admin => "admin",
            ApiRole::Operator => "operator",
            ApiRole::Worker => "worker",
        }
    }

    /// Parses a role name, ignoring surrounding whitespace and ASCII case.
    pub fn from_str(value: &str) -> (r: Option<ApiRole>)
        ensures
            r == role_from_name(value@),
    {
        let v = trim(value);
        if lower_eq(v, "admin") {
            Some(ApiRole::Admin)
        } else if lower_eq(v, "operator") {
            Some(ApiRole::Operator)
        } else if lower_eq(v, "worker") {
            Some(ApiRole::Worker)
        } else {
            None
        }
    }
}

impl Default for ApiRole {
    /// Callers are admins unless configured otherwise.
    fn default() -> (r: Self)
        ensures
            r == ApiRole::Admin,
    {
        ApiRole::Admin
    }
}

/// Every role reads back from its stored name.
pub proof fn lemma_role_name_round_trip(role: ApiRole)
    ensures
        role_from_name(role_name(role)) == Some(role),
{
    reveal_strlit("admin");
    reveal_strlit("operator");
    reveal_strlit("worker");
    let n = role_name(role);
    assert(trimmed(n) == n) by {
        assert(!crate::text::is_ws(n[0]));
        assert(!crate::text::is_ws(n.last()));
        assert(crate::text::trim_start(n) == n);
    }
    assert(lower_seq(n) =~= n);
    assert("admin"@ != "operator"@ && "admin"@ != "worker"@ && "operator"@ != "worker"@) by {
        assert("admin"@.len() != "operator"@.len());
        assert("admin"@[0] != "worker"@[0]);
        assert("operator"@.len() != "worker"@.len());
    }
}

/// `s` trimmed, or none when that is empty.
pub open spec fn trimmed_nonempty(s: Option<Seq<char>>) -> Option<Seq<char>> {
    match s {
        Some(v) => if trimmed(v).len() > 0 { Some(trimmed(v)) } else { None },
        None => None,
    }
}

/// Hash under which a secret is kept: SHA-256 of its UTF-8 bytes in lowercase hexadecimal.
pub open spec fn secret_digest(secret: Seq<char>) -> Seq<char> {
    sha256_hex_of(encode_utf8(secret))
}

/// A named API key configured in the server.
#[derive(Debug)]
pub struct StaticApiKeyConfig {
    pub secret_hash: String,
    pub active: bool,
    pub role: ApiRole,
}

impl Clone for StaticApiKeyConfig {
    fn clone(&self) -> (r: Self)
        ensures
            r == *self,
    {
        StaticApiKeyConfig { secret_hash: self.secret_hash.clone(), active: self.active, role: self.role }
    }
}

impl Keyed for (String, StaticApiKeyConfig) {
    open spec fn key(&self) -> Seq<char> {
        self.0@
    }

    fn key_str(&self) -> (r: &str) {
        self.0.as_str()
    }
}

/// Credentials the server accepts: a bearer token, an API key (kept hashed), and named API
/// keys (kept hashed, one per key id). Each carries the role it grants.
#[derive(Clone, Debug)]
pub struct ExecutionApiAuthConfig {
    pub bearer_token: Option<String>,
    pub bearer_role: ApiRole,
    pub api_key_hash: Option<String>,
    pub api_key_role: ApiRole,
    pub keyed_api_keys: Vec<(String, StaticApiKeyConfig)>,
}

impl Default for ExecutionApiAuthConfig {
    /// No credentials: authentication is off.
    fn default() -> (r: Self)
        ensures
            r.bearer_token is None,
            r.bearer_role == ApiRole::Admin,
            r.api_key_hash is None,
            r.api_key_role == ApiRole::Admin,
            r.keyed_api_keys@.len() == 0,
    {
        ExecutionApiAuthConfig {
            bearer_token: None,
            bearer_role: ApiRole::Admin,
            api_key_hash: None,
            api_key_role: ApiRole::Admin,
            keyed_api_keys: Vec::new(),
        }
    }
}

/// Who made an authenticated request.
#[derive(Clone, Debug)]
pub struct AuthContext {
    pub actor_type: String,
    pub actor_id: Option<String>,
    pub role: ApiRole,
}

/// `value` trimmed, or none when that is empty.
pub fn normalize_text(value: Option<&str>) -> (r: Option<String>)
    ensures
        opt_view(r) == trimmed_nonempty(match value {
            Some(v) => Some(v@),
            None => None,
        }),
{
    match value {
        Some(v) => {
            let t = trim(v);
            if t.unicode_len() > 0 {
                Some(t.to_owned())
            } else {
                None
            }
        },
        None => None,
    }
}

impl ExecutionApiAuthConfig {
    /// Key ids are unique among the named API keys.
    pub open spec fn wf(&self) -> bool {
        keys_unique(self.keyed_api_keys@)
    }

    /// The named API key with id `key_id`, if any.
    pub open spec fn keyed(&self, key_id: Seq<char>) -> Option<StaticApiKeyConfig> {
        let p = key_pos(self.keyed_api_keys@, key_id);
        if p >= 0 { Some(self.keyed_api_keys@[p].1) } else { None }
    }

    /// A secret as configured: trimmed, and none when empty.
    pub fn normalize_secret(secret: Option<String>) -> (r: Option<String>)
        ensures
            opt_view(r) == trimmed_nonempty(opt_view(secret)),
    {
        match secret {
            Some(s) => normalize_text(Some(s.as_str())),
            None => None,
        }
    }

    /// A key id as configured: trimmed, and none when empty.
    pub fn normalize_key_id(key_id: Option<String>) -> (r: Option<String>)
        ensures
            opt_view(r) == trimmed_nonempty(opt_view(key_id)),
    {
        Self::normalize_secret(key_id)
    }

    /// Hash under which a secret is kept (see [secret_digest]).
    pub fn secret_hash(secret: &str) -> (r: String)
        ensures
            r@ == secret_digest(secret@),
    {
        sha256_hex(secret)
    }

    /// A secret as configured and hashed; none when it is empty.
    pub fn normalize_hashed_secret(secret: Option<String>) -> (r: Option<String>)
        ensures
            opt_view(r) == match trimmed_nonempty(opt_view(secret)) {
                Some(t) => Some(secret_digest(t)),
                None => None,
            },
    {
        match Self::normalize_secret(secret) {
            Some(v) => Some(Self::secret_hash(v.as_str())),
            None => None,
        }
    }

    /// Credentials from an optional bearer token and API key, both granting admin.
    pub fn from_optional(bearer_token: Option<String>, api_key: Option<String>) -> (r: Self)
        ensures
            r.wf(),
            opt_view(r.bearer_token) == trimmed_nonempty(opt_view(bearer_token)),
            r.bearer_role == ApiRole::Admin,
            opt_view(r.api_key_hash) == match trimmed_nonempty(opt_view(api_key)) {
                Some(t) => Some(secret_digest(t)),
                None => None,
            },
            r.api_key_role == ApiRole::Admin,
            r.keyed_api_keys@.len() == 0,
    {
        ExecutionApiAuthConfig {
            bearer_token: Self::normalize_secret(bearer_token),
            bearer_role: ApiRole::Admin,
            api_key_hash: Self::normalize_hashed_secret(api_key),
            api_key_role: ApiRole::Admin,
            keyed_api_keys: Vec::new(),
        }
    }

    /// Adds or replaces the named API key `key_id` (both trimmed); nothing changes when the
    /// key id or the secret is empty.
    pub fn set_keyed_api_key(&mut self, key_id: String, secret: String, active: bool, role: ApiRole)
        requires
            old(self).wf(),
        ensures
            final(self).wf(),
            final(self).bearer_token == old(self).bearer_token,
            final(self).bearer_role == old(self).bearer_role,
            final(self).api_key_hash == old(self).api_key_hash,
            final(self).api_key_role == old(self).api_key_role,
            ({
                let k = trimmed_nonempty(Some(key_id@));
                let s = trimmed_nonempty(Some(secret@));
                if k is Some && s is Some {
                    &&& final(self).keyed(k->0) matches Some(c) && c.secret_hash@ == secret_digest(s->0) && c.active == active
                        && c.role == role
                    &&& forall|other: Seq<char>| other != k->0 ==> #[trigger] final(self).keyed(other) == old(self).keyed(other)
                } else {
                    final(self).keyed_api_keys@ == old(self).keyed_api_keys@
                }
            }),
    {
        let k = normalize_text(Some(key_id.as_str()));
        let s = normalize_text(Some(secret.as_str()));
        match (k, s) {
            (Some(k), Some(s)) => {
                let config = StaticApiKeyConfig { secret_hash: Self::secret_hash(s.as_str()), active, role };
                match find_key(&self.keyed_api_keys, k.as_str()) {
                    Some(p) => {
                        let entry = (k, config);
                        proof {
                            lemma_key_update(self.keyed_api_keys@, p as int, entry);
                            crate::runtime::store::keyed::lemma_key_pos(self.keyed_api_keys@.update(p as int, entry), p as int);
                        }
                        self.keyed_api_keys.set(p, entry);
                    },
                    None => {
                        let entry = (k, config);
                        proof {
                            lemma_key_push(self.keyed_api_keys@, entry);
                        }
                        self.keyed_api_keys.push(entry);
                    },
                }
            },
            _ => {},
        }
    }

    /// Authentication is on when any credential is configured.
    pub fn is_enabled(&self) -> (r: bool)
        ensures
            r == (self.bearer_token is Some || self.api_key_hash is Some || self.keyed_api_keys@.len() > 0),
    {
        self.bearer_token.is_some() || self.api_key_hash.is_some() || self.keyed_api_keys.len() > 0
    }
}

/// The bearer token of an `Authorization` header: what follows `Bearer `, trimmed; none
/// when the header is absent, has another scheme, or carries an empty token.
pub open spec fn bearer_of(header: Option<Seq<char>>) -> Option<Seq<char>> {
    match header {
        Some(h) => if has_prefix(h, "Bearer "@) && trimmed(h.subrange(7, h.len() as int)).len() > 0 {
            Some(trimmed(h.subrange(7, h.len() as int)))
        } else {
            None
        },
        None => None,
    }
}

/// A header value trimmed, none when absent or empty.
pub open spec fn header_value(header: Option<Seq<char>>) -> Option<Seq<char>> {
    trimmed_nonempty(header)
}

/// Views of an optional string slice.
pub open spec fn opt_str(s: Option<&str>) -> Option<Seq<char>> {
    match s {
        Some(v) => Some(v@),
        None => None,
    }
}

/// The bearer token of an `Authorization` header value (see [bearer_of]).
pub fn bearer_token_from_header(header: Option<&str>) -> (r: Option<String>)
    ensures
        opt_view(r) == bearer_of(opt_str(header)),
{
    match header {
        Some(h) => {
            proof {
                reveal_strlit("Bearer ");
            }
            if starts_with(h, "Bearer ") {
                let n = h.unicode_len();
                let rest = h.substring_char(7, n);
                normalize_text(Some(rest))
            } else {
                None
            }
        },
        None => None,
    }
}

/// An API key or key id header value, trimmed; none when absent or empty.
pub fn api_key_from_header(header: Option<&str>) -> (r: Option<String>)
    ensures
        opt_view(r) == header_value(opt_str(header)),
{
    normalize_text(header)
}

/// The caller that static credentials identify, given the bearer token, API key and API key
/// id of a request (see [bearer_token_from_header] and [api_key_from_header]): the bearer
/// token is tried first, then the API key, then the named API key.
pub open spec fn static_identity(
    bearer: Option<Seq<char>>,
    api_key: Option<Seq<char>>,
    api_key_id: Option<Seq<char>>,
    auth: ExecutionApiAuthConfig,
) -> Option<(Seq<char>, Option<Seq<char>>, ApiRole)> {
    if auth.bearer_token is Some && bearer == Some(auth.bearer_token->0@) {
        Some(("bearer"@, None, auth.bearer_role))
    } else if auth.api_key_hash is Some && api_key is Some && auth.api_key_hash->0@ == secret_digest(api_key->0) {
        Some(("api_key"@, None, auth.api_key_role))
    } else if api_key_id is Some && api_key is Some && auth.keyed(api_key_id->0) is Some
        && auth.keyed(api_key_id->0)->0.active && auth.keyed(api_key_id->0)->0.secret_hash@ == secret_digest(api_key->0) {
        Some(("api_key"@, api_key_id, auth.keyed(api_key_id->0)->0.role))
    } else {
        None
    }
}

/// Authenticates a request against static credentials (see [static_identity]).
pub fn authenticate_static(
    bearer: Option<&str>,
    api_key: Option<&str>,
    api_key_id: Option<&str>,
    auth: &ExecutionApiAuthConfig,
) -> (r: Option<AuthContext>)
    requires
        auth.wf(),
    ensures
        match static_identity(opt_str(bearer), opt_str(api_key), opt_str(api_key_id), *auth) {
            Some((t, id, role)) => r matches Some(c) && c.actor_type@ == t && opt_view(c.actor_id) == id && c.role == role,
            None => r is None,
        },
{
    match (&auth.bearer_token, bearer) {
        (Some(expected), Some(actual)) => {
            if str_eq(expected.as_str(), actual) {
                return Some(AuthContext { actor_type: "bearer".to_owned(), actor_id: None, role: auth.bearer_role });
            }
        },
        _ => {},
    }
    match (&auth.api_key_hash, api_key) {
        (Some(expected), Some(actual)) => {
            let h = ExecutionApiAuthConfig::secret_hash(actual);
            if str_eq(expected.as_str(), h.as_str()) {
                return Some(AuthContext { actor_type: "api_key".to_owned(), actor_id: None, role: auth.api_key_role });
            }
        },
        _ => {},
    }
    match (api_key_id, api_key) {
        (Some(key_id), Some(secret)) => match find_key(&auth.keyed_api_keys, key_id) {
            Some(p) => {
                let config = &auth.keyed_api_keys[p].1;
                if config.active {
                    let h = ExecutionApiAuthConfig::secret_hash(secret);
                    if str_eq(config.secret_hash.as_str(), h.as_str()) {
                        return Some(
                            AuthContext { actor_type: "api_key".to_owned(), actor_id: Some(key_id.to_owned()), role: config.role },
                        );
                    }
                }
                None
            },
            None => None,
        },
        _ => None,
    }
}

/// HTTP method of a request.
#[derive(Clone, Copy, Debug, PartialEq, Eq, Structural)]
pub enum HttpMethod {
    Get,
    Head,
    Post,
    Put,
    Patch,
    Delete,
    Options,
    Other,
}

/// Which endpoints a role may call: admins all; operators jobs, interrupts and the
/// dead-letter queue, and may read audit logs and attempts; workers only change worker
/// endpoints (not with GET).
pub open spec fn role_allows(role: ApiRole, method: HttpMethod, path: Seq<char>) -> bool {
    match role {
        ApiRole::Admin => true,
        ApiRole::Operator => has_prefix(path, "/v1/jobs"@) || has_prefix(path, "/v1/interrupts"@) || (has_prefix(
            path,
            "/v1/audit"@,
        ) && method == HttpMethod::Get) || (has_prefix(path, "/v1/attempts"@) && method == HttpMethod::Get)
            || has_prefix(path, "/v1/dlq"@),
        ApiRole::Worker => has_prefix(path, "/v1/workers"@) && method != HttpMethod::Get,
    }
}

/// Access law: an admin may call anything; an operator may call every method under
/// `/v1/jobs`, `/v1/interrupts` and `/v1/dlq`, and read under `/v1/audit` and `/v1/attempts`;
/// a worker may call every method but GET under `/v1/workers`. An operator may not call the
/// worker endpoints, nor change anything under `/v1/audit`; a worker may not call the job
/// endpoints.
pub proof fn lemma_role_access(method: HttpMethod, rest: Seq<char>, path: Seq<char>)
    ensures
        !role_allows(ApiRole::Operator, method, "/v1/workers"@ + rest),
        method != HttpMethod::Get ==> !role_allows(ApiRole::Operator, method, "/v1/audit"@ + rest),
        !role_allows(ApiRole::Worker, method, "/v1/jobs"@ + rest),
        role_allows(ApiRole::Admin, method, path),
        role_allows(ApiRole::Operator, method, "/v1/jobs"@ + rest),
        role_allows(ApiRole::Operator, method, "/v1/interrupts"@ + rest),
        role_allows(ApiRole::Operator, method, "/v1/dlq"@ + rest),
        role_allows(ApiRole::Operator, HttpMethod::Get, "/v1/audit"@ + rest),
        role_allows(ApiRole::Operator, HttpMethod::Get, "/v1/attempts"@ + rest),
        role_allows(ApiRole::Worker, method, "/v1/workers"@ + rest) <==> method != HttpMethod::Get,
{
    assert(("/v1/jobs"@ + rest).subrange(0, "/v1/jobs"@.len() as int) =~= "/v1/jobs"@);
    assert(("/v1/interrupts"@ + rest).subrange(0, "/v1/interrupts"@.len() as int) =~= "/v1/interrupts"@);
    assert(("/v1/dlq"@ + rest).subrange(0, "/v1/dlq"@.len() as int) =~= "/v1/dlq"@);
    assert(("/v1/audit"@ + rest).subrange(0, "/v1/audit"@.len() as int) =~= "/v1/audit"@);
    assert(("/v1/attempts"@ + rest).subrange(0, "/v1/attempts"@.len() as int) =~= "/v1/attempts"@);
    assert(("/v1/workers"@ + rest).subrange(0, "/v1/workers"@.len() as int) =~= "/v1/workers"@);
    reveal_strlit("/v1/workers");
    reveal_strlit("/v1/audit");
    reveal_strlit("/v1/jobs");
    reveal_strlit("/v1/interrupts");
    reveal_strlit("/v1/dlq");
    reveal_strlit("/v1/attempts");
    let w = "/v1/workers"@ + rest;
    let a = "/v1/audit"@ + rest;
    let j = "/v1/jobs"@ + rest;
    assert(w[4] == 'w' && a[4] == 'a' && j[4] == 'j');
    if has_prefix(w, "/v1/jobs"@) { assert(w.subrange(0, 8)[4] == w[4]); }
    if has_prefix(w, "/v1/interrupts"@) { assert(w.subrange(0, 14)[4] == w[4]); }
    if has_prefix(w, "/v1/dlq"@) { assert(w.subrange(0, 7)[4] == w[4]); }
    if has_prefix(w, "/v1/audit"@) { assert(w.subrange(0, 9)[4] == w[4]); }
    if has_prefix(w, "/v1/attempts"@) { assert(w.subrange(0, 12)[4] == w[4]); }
    if has_prefix(a, "/v1/jobs"@) { assert(a.subrange(0, 8)[4] == a[4]); }
    if has_prefix(a, "/v1/interrupts"@) { assert(a.subrange(0, 14)[4] == a[4]); }
    if has_prefix(a, "/v1/dlq"@) { assert(a.subrange(0, 7)[4] == a[4]); }
    if has_prefix(a, "/v1/attempts"@) {
        assert(a.subrange(0, 12)[5] == a[5]);
        assert(a[5] == 'u');
    }
    if has_prefix(j, "/v1/workers"@) { assert(j.subrange(0, 11)[4] == j[4]); }
}

/// Whether `role` may call `method` on `path` (see [role_allows]).
pub fn role_can_access(role: &ApiRole, method: HttpMethod, path: &str) -> (r: bool)
    ensures
        r == role_allows(*role, method, path@),
{
    match role {
        ApiRole::Admin => true,
        ApiRole::Operator => {
            let is_get = match method {
                HttpMethod::Get => true,
                _ => false,
            };
            starts_with(path, "/v1/jobs") || starts_with(path, "/v1/interrupts") || (starts_with(path, "/v1/audit")
                && is_get) || (starts_with(path, "/v1/attempts") && is_get) || starts_with(path, "/v1/dlq")
        },
        ApiRole::Worker => {
            let is_get = match method {
                HttpMethod::Get => true,
                _ => false,
            };
            starts_with(path, "/v1/workers") && !is_get
        },
    }
}

/// Authentication methods the server accepts, in order: `bearer` and `x-api-key` when
/// configured, `x-api-key-id+x-api-key` when named keys are configured, and the
/// repository's named keys when it holds any.
pub open spec fn auth_methods(auth: ExecutionApiAuthConfig, has_repository_keys: bool) -> Seq<Seq<char>> {
    let a = if auth.bearer_token is Some { seq!["bearer"@] } else { Seq::empty() };
    let b = if auth.api_key_hash is Some { a.push("x-api-key"@) } else { a };
    let c = if auth.keyed_api_keys@.len() > 0 { b.push("x-api-key-id+x-api-key"@) } else { b };
    if has_repository_keys { c.push("sqlite:x-api-key-id+x-api-key"@) } else { c }
}

/// Authentication methods the server accepts, for error details (see [auth_methods]).
pub fn supported_auth_methods(auth: &ExecutionApiAuthConfig, has_repository_keys: bool) -> (r: Vec<&'static str>)
    ensures
        r@.len() == auth_methods(*auth, has_repository_keys).len(),
        forall|i: int| 0 <= i < r@.len() ==> (#[trigger] r@[i])@ == auth_methods(*auth, has_repository_keys)[i],
{
    let mut methods: Vec<&'static str> = Vec::new();
    if auth.bearer_token.is_some() {
        methods.push("bearer");
    }
    if auth.api_key_hash.is_some() {
        methods.push("x-api-key");
    }
    if auth.keyed_api_keys.len() > 0 {
        methods.push("x-api-key-id+x-api-key");
    }
    if has_repository_keys {
        methods.push("sqlite:x-api-key-id+x-api-key");
    }
    proof {
        let m = auth_methods(*auth, has_repository_keys);
        assert forall|i: int| 0 <= i < methods@.len() implies (#[trigger] methods@[i])@ == m[i] by {}
    }
    methods
}

} // verus!
