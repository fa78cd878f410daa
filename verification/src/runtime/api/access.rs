//! Who may call the API: credentials checked against the server's configuration and the
//! repository's API keys, the role check of each request, and the audit entry it leaves.
use crate::runtime::api::auth::{auth_methods, authenticate_static, opt_str, role_allows, role_can_access, role_from_name, secret_digest, static_identity, ApiRole, AuthContext, ExecutionApiAuthConfig, HttpMethod};
use crate::runtime::api::errors::{ApiError, ApiErrorKind};
use crate::runtime::api::validate::{audit_result, AuditTarget};
use crate::runtime::models::AuditLogEntry;
use crate::runtime::store::attempts::opt_view;
use crate::runtime::store::InMemoryRuntimeRepository;
use crate::runtime::models::clone_opt_string;
use crate::text::str_eq;
use vstd::prelude::*;

verus! {

/// The caller a repository API key identifies, given the key id and secret of a request:
/// an active key whose hashed secret matches, with its role (an unknown role name counts as
/// operator).
pub open spec fn repository_identity(
    repo: InMemoryRuntimeRepository,
    api_key_id: Option<Seq<char>>,
    api_key: Option<Seq<char>>,
) -> Option<(Seq<char>, ApiRole)> {
    match (api_key_id, api_key) {
        (Some(id), Some(secret)) => match repo.api_key_of(id) {
            Some(rec) => if rec.active && rec.secret_hash@ == secret_digest(secret) {
                Some(
                    (
                        rec.key_id@,
                        match role_from_name(rec.role@) {
                            Some(role) => role,
                            None => ApiRole::Operator,
                        },
                    ),
                )
            } else {
                None
            },
            None => None,
        },
        _ => None,
    }
}

/// Authenticates a request against the repository's API keys (see [repository_identity]).
pub fn authenticate_repository_key(repo: &InMemoryRuntimeRepository, api_key_id: Option<&str>, api_key: Option<&str>) -> (r:
    Option<AuthContext>)
    requires
        repo.wf(),
    ensures
        match repository_identity(*repo, opt_str(api_key_id), opt_str(api_key)) {
            Some((id, role)) => r matches Some(c) && c.actor_type@ == "api_key"@ && opt_view(c.actor_id) == Some(id)
                && c.role == role,
            None => r is None,
        },
{
    let (key_id, secret) = match (api_key_id, api_key) {
        (Some(k), Some(s)) => (k, s),
        _ => {
            return None;
        },
    };
    let record = match repo.get_api_key_record(key_id) {
        Ok(Some(rec)) => rec,
        _ => {
            return None;
        },
    };
    if !record.active {
        return None;
    }
    let h = ExecutionApiAuthConfig::secret_hash(secret);
    if !str_eq(record.secret_hash.as_str(), h.as_str()) {
        return None;
    }
    let role = match ApiRole::from_str(record.role.as_str()) {
        Some(role) => role,
        None => ApiRole::Operator,
    };
    Some(AuthContext { actor_type: "api_key".to_owned(), actor_id: Some(record.key_id), role })
}

/// The caller of a request: static credentials first, then the repository's API keys.
pub open spec fn caller_of(
    auth: ExecutionApiAuthConfig,
    repo: Option<InMemoryRuntimeRepository>,
    bearer: Option<Seq<char>>,
    api_key: Option<Seq<char>>,
    api_key_id: Option<Seq<char>>,
) -> Option<(Seq<char>, Option<Seq<char>>, ApiRole)> {
    match static_identity(bearer, api_key, api_key_id, auth) {
        Some(found) => Some(found),
        None => match repo {
            Some(rp) => match repository_identity(rp, api_key_id, api_key) {
                Some((id, role)) => Some(("api_key"@, Some(id), role)),
                None => None,
            },
            None => None,
        },
    }
}

/// Authenticates a request (see [caller_of]).
pub fn resolve_auth_context(
    auth: &ExecutionApiAuthConfig,
    repo: Option<&InMemoryRuntimeRepository>,
    bearer: Option<&str>,
    api_key: Option<&str>,
    api_key_id: Option<&str>,
) -> (r: Option<AuthContext>)
    requires
        auth.wf(),
        repo matches Some(rp) ==> rp.wf(),
    ensures
        match caller_of(*auth, match repo {
            Some(rp) => Some(*rp),
            None => None,
        }, opt_str(bearer), opt_str(api_key), opt_str(api_key_id)) {
            Some((t, id, role)) => r matches Some(c) && c.actor_type@ == t && opt_view(c.actor_id) == id && c.role == role,
            None => r is None,
        },
{
    match authenticate_static(bearer, api_key, api_key_id, auth) {
        Some(c) => Some(c),
        None => match repo {
            Some(rp) => authenticate_repository_key(rp, api_key_id, api_key),
            None => None,
        },
    }
}

/// Name of an HTTP method; methods outside the standard ones are `OTHER`.
pub open spec fn method_text(method: HttpMethod) -> Seq<char> {
    match method {
        HttpMethod::Get => "GET"@,
        HttpMethod::Head => "HEAD"@,
        HttpMethod::Post => "POST"@,
        HttpMethod::Put => "PUT"@,
        HttpMethod::Patch => "PATCH"@,
        HttpMethod::Delete => "DELETE"@,
        HttpMethod::Options => "OPTIONS"@,
        HttpMethod::Other => "OTHER"@,
    }
}

/// Name of an HTTP method (see [method_text]).
pub fn method_name(method: HttpMethod) -> (r: &'static str)
    ensures
        r@ == method_text(method),
{
    match method {
        HttpMethod::Get => "GET",
        HttpMethod::Head => "HEAD",
        HttpMethod::Post => "POST",
        HttpMethod::Put => "PUT",
        HttpMethod::Patch => "PATCH",
        HttpMethod::Delete => "DELETE",
        HttpMethod::Options => "OPTIONS",
        HttpMethod::Other => "OTHER",
    }
}

/// What the server does with a request before handling it.
#[derive(Debug)]
pub enum AccessDecision {
    /// No credential is configured: every request goes through.
    Open,
    /// The caller may make the request.
    Allowed(AuthContext),
    /// The request is refused: unauthorized without valid credentials, forbidden when the
    /// caller's role may not call the endpoint.
    Denied(ApiError),
}

/// Checks credentials and role of a request to `method` `path`. Authentication is on when
/// the server has credentials configured or the repository holds API keys. A request
/// without valid credentials is unauthorized (its details list the accepted methods); one
/// whose role may not call the endpoint is forbidden (its details give role, method and
/// path).
pub fn check_access(
    auth: &ExecutionApiAuthConfig,
    repo: Option<&InMemoryRuntimeRepository>,
    bearer: Option<&str>,
    api_key: Option<&str>,
    api_key_id: Option<&str>,
    method: HttpMethod,
    path: &str,
) -> (r: AccessDecision)
    requires
        auth.wf(),
        repo matches Some(rp) ==> rp.wf(),
    ensures
        ({
            let rp = match repo {
                Some(rp) => Some(*rp),
                None => None,
            };
            let enabled = auth.bearer_token is Some || auth.api_key_hash is Some || auth.keyed_api_keys@.len() > 0 || (rp matches Some(x) && x.api_keys().len() > 0);
            let caller = caller_of(*auth, rp, opt_str(bearer), opt_str(api_key), opt_str(api_key_id));
            &&& !enabled ==> r is Open
            &&& enabled && caller is None ==> (r matches AccessDecision::Denied(e) && e.kind == ApiErrorKind::Unauthorized
                && e.message@ == "missing or invalid credentials"@ && e.details@.len() == auth_methods(
                *auth,
                rp matches Some(x) && x.api_keys().len() > 0,
            ).len() && forall|i: int|
                0 <= i < e.details@.len() ==> (#[trigger] e.details@[i]).0@ == "supported_auth"@ && e.details@[i].1@
                    == auth_methods(*auth, rp matches Some(x) && x.api_keys().len() > 0)[i])
            &&& enabled && caller is Some ==> ({
                let (t, id, role) = caller->0;
                if role_allows(role, method, path@) {
                    r matches AccessDecision::Allowed(c) && c.actor_type@ == t && opt_view(c.actor_id) == id && c.role == role
                } else {
                    r matches AccessDecision::Denied(e) && e.kind == ApiErrorKind::Forbidden && e.message@
                        == "role is not allowed to access this endpoint"@ && e.details@.len() == 3 && e.details@[0].0@
                        == "role"@ && e.details@[1].0@ == "method"@ && e.details@[1].1@ == method_text(method)
                        && e.details@[2].0@ == "path"@ && e.details@[2].1@ == path@
                }
            })
        }),
{
    let has_repository_keys = match repo {
        Some(rp) => match rp.has_any_api_keys() {
            Ok(b) => b,
            Err(_) => false,
        },
        None => false,
    };
    if !auth.is_enabled() && !has_repository_keys {
        return AccessDecision::Open;
    }
    let ctx = match resolve_auth_context(auth, repo, bearer, api_key, api_key_id) {
        Some(c) => c,
        None => {
            let methods = crate::runtime::api::auth::supported_auth_methods(auth, has_repository_keys);
            let mut e = ApiError::new(ApiErrorKind::Unauthorized, "missing or invalid credentials");
            let mut i: usize = 0;
            while i < methods.len()
                invariant
                    i <= methods@.len(),
                    e.kind == ApiErrorKind::Unauthorized,
                    e.message@ == "missing or invalid credentials"@,
                    e.details@.len() == i,
                    forall|k: int| 0 <= k < e.details@.len() ==> (#[trigger] e.details@[k]).0@ == "supported_auth"@
                        && e.details@[k].1@ == methods@[k]@,
                decreases methods@.len() - i,
            {
                e = e.with_detail("supported_auth", methods[i]);
                i = i + 1;
            }
            return AccessDecision::Denied(e);
        },
    };
    if !role_can_access(&ctx.role, method, path) {
        let e = ApiError::new(ApiErrorKind::Forbidden, "role is not allowed to access this endpoint").with_detail(
            "role",
            ctx.role.as_str(),
        ).with_detail("method", method_name(method)).with_detail("path", path);
        return AccessDecision::Denied(e);
    }
    AccessDecision::Allowed(ctx)
}

/// The audit entry of a request on `target` answered with `status_code`: the caller (or
/// `anonymous`), the action, and `success` for a 2xx status, else `error`.
pub fn audit_entry(
    auth: Option<&AuthContext>,
    target: &AuditTarget,
    request_id: &str,
    status_code: u16,
    details_json: Option<String>,
) -> (r: AuditLogEntry)
    ensures
        r.actor_type@ == match auth {
            Some(c) => c.actor_type@,
            None => "anonymous"@,
        },
        opt_view(r.actor_id) == match auth {
            Some(c) => opt_view(c.actor_id),
            None => None,
        },
        opt_view(r.actor_role) == match auth {
            Some(c) => Some(crate::runtime::api::auth::role_name(c.role)),
            None => None,
        },
        r.action@ == target.action@,
        r.resource_type@ == target.resource_type@,
        opt_view(r.resource_id) == opt_view(target.resource_id),
        r.result@ == if 200 <= status_code < 300 { "success"@ } else { "error"@ },
        r.request_id@ == request_id@,
        r.details_json == details_json,
{
    let (actor_type, actor_id, actor_role) = match auth {
        Some(c) => (c.actor_type.clone(), clone_opt_string(&c.actor_id), Some(c.role.as_str().to_owned())),
        None => ("anonymous".to_owned(), None, None),
    };
    AuditLogEntry {
        actor_type,
        actor_id,
        actor_role,
        action: target.action.to_owned(),
        resource_type: target.resource_type.to_owned(),
        resource_id: clone_opt_string(&target.resource_id),
        result: audit_result(status_code).to_owned(),
        request_id: request_id.to_owned(),
        details_json,
    }
}

} // verus!
