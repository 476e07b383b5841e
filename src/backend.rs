//! The remote REST backend: its configuration, the requests sent to it, and
//! the verdict of the reachability probe.
use vstd::prelude::*;

use crate::naming::opt_view;

verus! {

/// Base URL used when none is configured.
pub const DEFAULT_BASE_URL: &'static str = "https://hwckkfiirldgundbcjsp.supabase.co";

/// Endpoint that the reachability probe asks.
pub const PROBE_URL: &'static str = "https://www.google.com";

/// HTTP method of a request to the backend.
#[derive(Clone, Copy, Debug, PartialEq, Eq, Structural)]
pub enum Method {
    Get,
    Post,
    Patch,
    Delete,
}

/// Errors reported to the caller of the core.
#[derive(Clone, Debug)]
pub enum CoreError {
    /// A filesystem failure on an existing or expected path.
    StorageIo(String),
    /// A transport-level failure on the way to the backend.
    Backend(String),
    /// The storage root could not be resolved.
    Configuration(String),
}

impl CoreError {
    /// The human-readable message carried by the error.
    pub fn message(&self) -> (r: String)
        ensures
            r@ == match self {
                CoreError::StorageIo(m) => m@,
                CoreError::Backend(m) => m@,
                CoreError::Configuration(m) => m@,
            },
    {
        match self {
            CoreError::StorageIo(m) => m.clone(),
            CoreError::Backend(m) => m.clone(),
            CoreError::Configuration(m) => m.clone(),
        }
    }
}

/// Where the backend is and the API key it is given.
pub struct BackendConfig {
    pub base_url: String,
    pub api_key: String,
}

impl BackendConfig {
    /// The configuration from the two external settings; a missing base URL
    /// falls back to the built-in default, a missing API key to the empty key.
    pub fn resolve(base_url: Option<String>, api_key: Option<String>) -> (r: BackendConfig)
        ensures
            r.base_url@ == match base_url {
                Some(u) => u@,
                None => DEFAULT_BASE_URL@,
            },
            r.api_key@ == match api_key {
                Some(k) => k@,
                None => Seq::<char>::empty(),
            },
    {
        let base_url = match base_url {
            Some(u) => u,
            None => String::from_str(DEFAULT_BASE_URL),
        };
        let api_key = match api_key {
            Some(k) => k,
            None => String::new(),
        };
        BackendConfig { base_url, api_key }
    }
}

/// One outbound call to the backend.
pub struct RemoteRequest {
    pub method: Method,
    pub url: String,
    pub headers: Vec<(String, String)>,
    pub body: Option<String>,
}

pub open spec fn header_views(h: Seq<(String, String)>) -> Seq<(Seq<char>, Seq<char>)> {
    h.map_values(|p: (String, String)| (p.0@, p.1@))
}

/// The headers of a request: the API key, the bearer token, and the content
/// type when a body goes with it.
pub open spec fn request_headers(api_key: Seq<char>, token: Seq<char>, has_body: bool) -> Seq<
    (Seq<char>, Seq<char>),
> {
    let auth = seq![("apikey"@, api_key), ("Authorization"@, "Bearer "@ + token)];
    if has_body {
        auth.push(("Content-Type"@, "application/json"@))
    } else {
        auth
    }
}

impl RemoteRequest {
    /// `self` is the request with `method` to `endpoint` of the backend
    /// configured by `config`, with `body` and the bearer `token`.
    pub open spec fn is_request(
        &self,
        config: &BackendConfig,
        method: Method,
        endpoint: Seq<char>,
        body: Option<Seq<char>>,
        token: Seq<char>,
    ) -> bool {
        &&& self.method == method
        &&& self.url@ == config.base_url@ + endpoint
        &&& header_views(self.headers@) == request_headers(config.api_key@, token, body is Some)
        &&& opt_view(self.body) == body
    }
}

/// Builds the request with `method` to `endpoint`, carrying `body` and the
/// bearer `token`.
pub fn build_request(
    config: &BackendConfig,
    method: Method,
    endpoint: &str,
    body: Option<String>,
    token: &str,
) -> (r: RemoteRequest)
    ensures
        r.is_request(config, method, endpoint@, opt_view(body), token@),
{
    let url = config.base_url.clone().concat(endpoint);
    let mut headers: Vec<(String, String)> = Vec::new();
    headers.push((String::from_str("apikey"), config.api_key.clone()));
    headers.push((String::from_str("Authorization"), String::from_str("Bearer ").concat(token)));
    let has_body = body.is_some();
    if has_body {
        headers.push((String::from_str("Content-Type"), String::from_str("application/json")));
    }
    assert(header_views(headers@) =~= request_headers(config.api_key@, token@, has_body));
    RemoteRequest { method, url, headers, body }
}

/// Whether the probe's outcome means the backend can be reached: `status` is
/// the HTTP status of the reply, or `None` when no reply came.
pub fn probe_verdict(status: Option<u16>) -> (r: bool)
    ensures
        r == (status matches Some(s) && 200 <= s < 300),
{
    match status {
        Some(s) => 200 <= s && s < 300,
        None => false,
    }
}

} // verus!
