//! The decisions of one proxied request, from the target selector to the
//! request to send. Reading the inbound request, fetching tokens and sending
//! upstream are left to the caller, which hands the results back.

use vstd::prelude::*;
use crate::auth::AuthType;
use crate::auth::auth_type_of;
use crate::auth::basic_authorization;
use crate::auth::basic_value;
use crate::auth::bearer_authorization;
use crate::auth::bearer_value;
use crate::auth::credentials_fit;
use crate::error::ProxyError;
use crate::headers::Header;
use crate::headers::filter_headers;
use crate::headers::filtered;
use crate::headers::headers_view;
use crate::token_cache::TokenCache;
use crate::token_cache::usable_at;
use crate::url::build_url;
use crate::url::query_view;
use crate::url::url_of;

verus! {

/// One registered backend, as the registry hands it out.
pub struct TargetConfig {
    pub id: Option<String>,
    pub name: Option<String>,
    /// URL scheme; `http` when absent.
    pub protocol: Option<String>,
    pub host: String,
    /// Left out of the URL when empty.
    pub port: String,
    /// `none`, `basic`, `bearer`, `oauth` or `oauth2`, in any letter case.
    pub auth_type: String,
    pub username: String,
    pub password: String,
    pub token: String,
    pub client_id: String,
    pub client_secret: String,
    pub token_url: String,
}

/// Whether a target is registered under `id`.
pub open spec fn has_id(t: TargetConfig, id: Seq<char>) -> bool {
    match t.id {
        Some(s) => s@ == id,
        None => false,
    }
}

/// Every target's basic credentials fit in memory once encoded.
pub open spec fn registry_fits(registry: Seq<TargetConfig>) -> bool {
    forall|i: int|
        0 <= i < registry.len() ==> credentials_fit(
            #[trigger] registry[i].username@,
            registry[i].password@,
        )
}

/// The scheme of a target's URL.
pub open spec fn protocol_of(t: TargetConfig) -> Seq<char> {
    match t.protocol {
        Some(p) => p@,
        None => "http"@,
    }
}

/// The upstream URL of a request for `path` and `query` on target `t`.
pub open spec fn target_url_of(t: TargetConfig, path: Seq<char>, query: Option<Seq<char>>) -> Seq<
    char,
> {
    url_of(protocol_of(t), t.host@, t.port@, path, query)
}

/// Where a token endpoint is and which client credentials it is sent.
pub struct TokenRequest {
    pub token_url: String,
    pub client_id: String,
    pub client_secret: String,
}

/// How the `Authorization` header of the outbound request is obtained.
pub enum AuthStep {
    /// No header is added.
    NoHeader,
    /// This value is sent.
    Ready(String),
    /// A token must be fetched first, and handed to the token cache.
    Fetch(TokenRequest),
}

/// The meaning of an `AuthStep`.
pub enum AuthStepView {
    NoHeader,
    Ready(Seq<char>),
    Fetch { token_url: Seq<char>, client_id: Seq<char>, client_secret: Seq<char> },
}

impl View for AuthStep {
    type V = AuthStepView;

    open spec fn view(&self) -> AuthStepView {
        match self {
            AuthStep::NoHeader => AuthStepView::NoHeader,
            AuthStep::Ready(v) => AuthStepView::Ready(v@),
            AuthStep::Fetch(t) => AuthStepView::Fetch {
                token_url: t.token_url@,
                client_id: t.client_id@,
                client_secret: t.client_secret@,
            },
        }
    }
}

/// A header value if there is one, else no header.
pub open spec fn ready_or_none(v: Option<Seq<char>>) -> AuthStepView {
    match v {
        Some(s) => AuthStepView::Ready(s),
        None => AuthStepView::NoHeader,
    }
}

/// How target `t`, requested under `id` at `now`, is authenticated given
/// the cached tokens.
pub open spec fn auth_step_of(
    t: TargetConfig,
    cache: Map<Seq<char>, (Seq<char>, u64)>,
    id: Seq<char>,
    now: u64,
) -> AuthStepView {
    match auth_type_of(t.auth_type@) {
        AuthType::Basic => ready_or_none(basic_value(t.username@, t.password@)),
        AuthType::Bearer => ready_or_none(bearer_value(t.token@)),
        AuthType::OAuth => if t.client_id@.len() > 0 && t.client_secret@.len() > 0
            && t.token_url@.len() > 0 {
            match usable_at(cache, id, now) {
                Some(v) => AuthStepView::Ready(v),
                None => AuthStepView::Fetch {
                    token_url: t.token_url@,
                    client_id: t.client_id@,
                    client_secret: t.client_secret@,
                },
            }
        } else {
            AuthStepView::NoHeader
        },
        AuthType::NoAuth => AuthStepView::NoHeader,
    }
}

/// Finds the first target registered under `target_id`.
pub fn resolve_target(registry: &Vec<TargetConfig>, target_id: &str) -> (r: Option<usize>)
    ensures
        match r {
            Some(i) => i < registry@.len() && has_id(registry@[i as int], target_id@) && forall|
                j: int,
            |
                0 <= j < i ==> !has_id(#[trigger] registry@[j], target_id@),
            None => forall|j: int|
                0 <= j < registry@.len() ==> !has_id(#[trigger] registry@[j], target_id@),
        },
{
    let wanted = target_id.to_owned();
    let mut i: usize = 0;
    while i < registry.len()
        invariant
            i <= registry@.len(),
            wanted@ == target_id@,
            forall|j: int| 0 <= j < i ==> !has_id(#[trigger] registry@[j], target_id@),
        decreases registry@.len() - i,
    {
        match &registry[i].id {
            Some(s) => {
                if *s == wanted {
                    return Some(i);
                }
            },
            None => {},
        }
        i = i + 1;
    }
    None
}

/// Picks the target of a request: a missing selector is a bad request, an
/// unknown id is not found, and a target without a host is a bad request.
pub fn select_target(registry: &Vec<TargetConfig>, target_id: Option<&str>) -> (r: Result<
    usize,
    ProxyError,
>)
    ensures
        match target_id {
            None => r == Err::<usize, ProxyError>(ProxyError::BadRequest),
            Some(id) => match r {
                Ok(i) => i < registry@.len() && has_id(registry@[i as int], id@) && (forall|j: int|
                    0 <= j < i ==> !has_id(#[trigger] registry@[j], id@))
                    && registry@[i as int].host@.len() > 0,
                Err(e) => (e == ProxyError::NotFound && forall|j: int|
                    0 <= j < registry@.len() ==> !has_id(#[trigger] registry@[j], id@)) || (e
                    == ProxyError::BadRequest && exists|i: int|
                    0 <= i < registry@.len() && has_id(registry@[i], id@) && (forall|j: int|
                        0 <= j < i ==> !has_id(#[trigger] registry@[j], id@))
                        && registry@[i].host@.len() == 0),
            },
        },
{
    let id = match target_id {
        Some(id) => id,
        None => return Err(ProxyError::BadRequest),
    };
    match resolve_target(registry, id) {
        Some(i) => {
            if registry[i].host.as_str().is_empty() {
                Err(ProxyError::BadRequest)
            } else {
                Ok(i)
            }
        },
        None => Err(ProxyError::NotFound),
    }
}

/// The upstream URL of a request for `path` and `query` on `target`.
pub fn target_url(target: &TargetConfig, path: &str, query: Option<&str>) -> (r: String)
    ensures
        r@ == target_url_of(*target, path@, query_view(query)),
{
    match &target.protocol {
        Some(p) => build_url(p.as_str(), target.host.as_str(), target.port.as_str(), path, query),
        None => build_url("http", target.host.as_str(), target.port.as_str(), path, query),
    }
}

fn ready_step(v: Option<String>) -> (r: AuthStep)
    ensures
        r@ == ready_or_none(crate::auth::value_view(&v)),
{
    match v {
        Some(s) => AuthStep::Ready(s),
        None => AuthStep::NoHeader,
    }
}

/// Decides how the request to `target`, selected under `target_id` at
/// `now`, is authenticated: from its own secrets, from a still valid cached
/// token, or by fetching a token first.
pub fn authorization_step(target: &TargetConfig, target_id: &str, cache: &TokenCache, now: u64) -> (r:
    AuthStep)
    requires
        credentials_fit(target.username@, target.password@),
    ensures
        r@ == auth_step_of(*target, cache@, target_id@, now),
{
    match AuthType::from_tag(target.auth_type.as_str()) {
        AuthType::Basic => ready_step(
            basic_authorization(target.username.as_str(), target.password.as_str()),
        ),
        AuthType::Bearer => ready_step(bearer_authorization(target.token.as_str())),
        AuthType::OAuth => {
            if target.client_id.as_str().is_empty() || target.client_secret.as_str().is_empty()
                || target.token_url.as_str().is_empty() {
                AuthStep::NoHeader
            } else {
                match cache.valid_authorization(target_id, now) {
                    Some(v) => AuthStep::Ready(v),
                    None => AuthStep::Fetch(
                        TokenRequest {
                            token_url: target.token_url.clone(),
                            client_id: target.client_id.clone(),
                            client_secret: target.client_secret.clone(),
                        },
                    ),
                }
            }
        },
        AuthType::NoAuth => AuthStep::NoHeader,
    }
}

/// What to send upstream for one request.
pub struct ForwardPlan {
    pub url: String,
    /// The inbound headers that are forwarded, before authorization.
    pub headers: Vec<Header>,
    pub auth: AuthStep,
}

/// Plans one proxied request: selects the target, builds its URL, filters
/// the inbound headers and decides the authorization.
pub fn plan_forward(
    registry: &Vec<TargetConfig>,
    target_id: Option<&str>,
    path: &str,
    query: Option<&str>,
    headers: &Vec<Header>,
    cache: &TokenCache,
    now: u64,
) -> (r: Result<ForwardPlan, ProxyError>)
    requires
        registry_fits(registry@),
    ensures
        match r {
            Ok(plan) => exists|i: int|
                {
                    &&& target_id is Some
                    &&& 0 <= i < registry@.len()
                    &&& has_id(registry@[i], target_id->0@)
                    &&& forall|j: int| 0 <= j < i ==> !has_id(#[trigger] registry@[j], target_id->0@)
                    &&& registry@[i].host@.len() > 0
                    &&& plan.url@ == target_url_of(registry@[i], path@, query_view(query))
                    &&& headers_view(plan.headers@) == filtered(headers_view(headers@))
                    &&& plan.auth@ == auth_step_of(registry@[i], cache@, target_id->0@, now)
                },
            Err(e) => match target_id {
                None => e == ProxyError::BadRequest,
                Some(id) => (e == ProxyError::NotFound && forall|j: int|
                    0 <= j < registry@.len() ==> !has_id(#[trigger] registry@[j], id@)) || (e
                    == ProxyError::BadRequest && exists|i: int|
                    0 <= i < registry@.len() && has_id(registry@[i], id@) && (forall|j: int|
                        0 <= j < i ==> !has_id(#[trigger] registry@[j], id@))
                        && registry@[i].host@.len() == 0),
            },
        },
{
    let i = match select_target(registry, target_id) {
        Ok(i) => i,
        Err(e) => return Err(e),
    };
    let id = match target_id {
        Some(id) => id,
        None => return Err(ProxyError::BadRequest),
    };
    let target = &registry[i];
    assert(credentials_fit(registry@[i as int].username@, registry@[i as int].password@));
    let url = target_url(target, path, query);
    let forwarded = filter_headers(headers);
    let auth = authorization_step(target, id, cache, now);
    Ok(ForwardPlan { url, headers: forwarded, auth })
}

} // verus!
