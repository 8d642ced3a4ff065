//! Proxy configuration types.
//!
//! Defines the configuration for the proxy server, including allowed hosts,
//! credential routes, and external proxy settings.

use vstd::prelude::*;
use vstd::std_specs::cmp::PartialEqSpec;

verus! {

/// Credential injection mode determining how credentials are inserted into requests.
#[derive(Debug, Clone, Copy, PartialEq, Eq, Structural)]
pub enum InjectMode {
    /// Inject credential into an HTTP header (default)
    Header,
    /// Replace a pattern in the URL path with the credential
    UrlPath,
    /// Add or replace a query parameter with the credential
    QueryParam,
    /// Use HTTP Basic Authentication (credential format: "username:password")
    BasicAuth,
}

impl Default for InjectMode {
    /// Header injection is the default mode.
    fn default() -> (mode: InjectMode)
        ensures
            mode == InjectMode::Header,
    {
        InjectMode::Header
    }
}

/// An IP address in plain values: four octets for IPv4, eight 16-bit groups
/// for IPv6, most significant first.
#[derive(Debug, Clone, Copy, PartialEq, Eq, Structural)]
pub enum IpAddress {
    /// An IPv4 address.
    V4(u8, u8, u8, u8),
    /// An IPv6 address.
    V6(u16, u16, u16, u16, u16, u16, u16, u16),
}

/// Configuration for the proxy server.
#[derive(Debug, Clone)]
pub struct ProxyConfig {
    /// Bind address (default: 127.0.0.1)
    pub bind_addr: IpAddress,
    /// Bind port (0 = OS-assigned ephemeral port)
    pub bind_port: u16,
    /// Allowed hosts for CONNECT mode (exact match + wildcards).
    /// Empty = allow all hosts (except deny list).
    pub allowed_hosts: Vec<String>,
    /// Reverse proxy credential routes.
    pub routes: Vec<RouteConfig>,
    /// External (enterprise) proxy URL for passthrough mode.
    /// When set, CONNECT requests are chained to this proxy.
    pub external_proxy: Option<ExternalProxyConfig>,
    /// Maximum concurrent connections (0 = unlimited).
    pub max_connections: usize,
}

impl Default for ProxyConfig {
    /// Binds to the IPv4 loopback address on an OS-assigned port, allows all
    /// hosts, has no routes and no external proxy, and admits 256 connections.
    fn default() -> (config: ProxyConfig)
        ensures
            config.bind_addr == IpAddress::V4(127, 0, 0, 1),
            config.bind_port == 0,
            config.allowed_hosts@.len() == 0,
            config.routes@.len() == 0,
            config.external_proxy is None,
            config.max_connections == 256,
    {
        ProxyConfig {
            bind_addr: default_bind_addr(),
            bind_port: 0,
            allowed_hosts: Vec::new(),
            routes: Vec::new(),
            external_proxy: None,
            max_connections: 256,
        }
    }
}

/// The default bind address: the IPv4 loopback address 127.0.0.1.
pub fn default_bind_addr() -> (addr: IpAddress)
    ensures
        addr == IpAddress::V4(127, 0, 0, 1),
{
    IpAddress::V4(127, 0, 0, 1)
}

/// A single path-level access rule for L7 filtering.
///
/// When `allowed_paths` is non-empty on a route, only requests matching
/// at least one rule are forwarded. Empty = all paths allowed.
#[derive(Debug, Clone)]
pub struct PathRule {
    /// HTTP method (GET, POST, PUT, DELETE, PATCH, etc.)
    /// Use "*" to match any method.
    pub method: String,
    /// URL path glob pattern.
    /// `*` matches a single path segment, `**` matches zero or more segments.
    pub path: String,
}

impl PartialEq for PathRule {
    fn eq(&self, other: &Self) -> (same: bool) {
        self.method == other.method && self.path == other.path
    }
}

impl vstd::std_specs::cmp::PartialEqSpecImpl for PathRule {
    open spec fn obeys_eq_spec() -> bool {
        true
    }

    /// Two rules are equal when their methods and their paths are.
    open spec fn eq_spec(&self, other: &Self) -> bool {
        self.method@ == other.method@ && self.path@ == other.path@
    }
}

/// Configuration for a reverse proxy credential route.
#[derive(Debug, Clone)]
pub struct RouteConfig {
    /// Path prefix for routing (e.g., "/openai")
    pub prefix: String,
    /// Upstream URL to forward to (e.g., "https://api.openai.com")
    pub upstream: String,
    /// Keystore account name to load the credential from.
    /// If `None`, no credential is injected.
    pub credential_key: Option<String>,
    /// Injection mode (default: header)
    pub inject_mode: InjectMode,
    /// HTTP header name for the credential (default: "Authorization").
    /// Only used when inject_mode is header.
    pub inject_header: String,
    /// Format string for the credential value. `{}` is replaced with the secret.
    /// Default: "Bearer {}". Only used when inject_mode is header.
    pub credential_format: String,
    /// Pattern to match in incoming URL path. Use {} as placeholder for phantom token.
    /// Example: "/bot{}/" matches "/bot<token>/getMe".
    /// Only used when inject_mode is url_path.
    pub path_pattern: Option<String>,
    /// Pattern for outgoing URL path. Use {} as placeholder for real credential.
    /// Defaults to same as path_pattern if not specified.
    /// Only used when inject_mode is url_path.
    pub path_replacement: Option<String>,
    /// Name of the query parameter to add/replace with the credential.
    /// Only used when inject_mode is query_param.
    pub query_param_name: Option<String>,
    /// Explicit environment variable name for the phantom token (e.g., "OPENAI_API_KEY").
    ///
    /// When set, this is used as the SDK API key env var name instead of deriving
    /// it from the upper-cased `credential_key`. Required when `credential_key` is
    /// a URI manager reference (e.g., `op://`, `apple-password://`) which would
    /// otherwise produce a nonsensical env var name.
    pub env_var: Option<String>,
    /// L7 path filter rules. When non-empty, only matching method+path
    /// combinations are forwarded. Empty = all paths allowed (default).
    pub allowed_paths: Vec<PathRule>,
    /// Optional OAuth2 client_credentials configuration.
    /// When present, the proxy handles token exchange automatically instead
    /// of using a static credential from the keystore.
    /// Mutually exclusive with `credential_key`: use one or the other.
    pub oauth2: Option<OAuth2Config>,
}

/// Configuration for an external (enterprise) proxy.
#[derive(Debug, Clone)]
pub struct ExternalProxyConfig {
    /// Proxy address (e.g., "squid.corp.internal:3128")
    pub address: String,
    /// Optional authentication for the external proxy.
    pub auth: Option<ExternalProxyAuth>,
    /// Hosts to bypass the external proxy and route directly.
    /// Supports exact hostnames and `*.` wildcard suffixes (case-insensitive).
    /// Empty = all traffic goes through the external proxy.
    pub bypass_hosts: Vec<String>,
}

/// Authentication for an external proxy.
#[derive(Debug, Clone)]
pub struct ExternalProxyAuth {
    /// Keystore account name for proxy credentials.
    pub keyring_account: String,
    /// Authentication scheme (only "basic" supported).
    pub scheme: String,
}

/// OAuth2 client_credentials configuration for automatic token exchange.
///
/// When configured on a route, the proxy handles the token lifecycle:
/// 1. Exchanges client_id + client_secret for an access_token at startup
/// 2. Caches the token with TTL from the `expires_in` response
/// 3. Refreshes automatically before expiry (30s buffer)
/// 4. Injects the access_token as `Authorization: Bearer <token>`
///
/// The agent never sees client_id or client_secret, only a phantom token.
#[derive(Debug, Clone)]
pub struct OAuth2Config {
    /// Token endpoint URL (e.g., "https://auth.example.com/oauth/token")
    pub token_url: String,
    /// Client ID: plain value or credential reference (env://, file://, op://)
    pub client_id: String,
    /// Client secret: credential reference (env://, file://, op://)
    pub client_secret: String,
    /// OAuth2 scopes (space-separated). Empty = no scope parameter sent.
    pub scope: String,
}

impl PartialEq for OAuth2Config {
    fn eq(&self, other: &Self) -> (same: bool) {
        self.token_url == other.token_url && self.client_id == other.client_id
            && self.client_secret == other.client_secret && self.scope == other.scope
    }
}

impl vstd::std_specs::cmp::PartialEqSpecImpl for OAuth2Config {
    open spec fn obeys_eq_spec() -> bool {
        true
    }

    /// Two OAuth2 configurations are equal when all four fields are.
    open spec fn eq_spec(&self, other: &Self) -> bool {
        &&& self.token_url@ == other.token_url@
        &&& self.client_id@ == other.client_id@
        &&& self.client_secret@ == other.client_secret@
        &&& self.scope@ == other.scope@
    }
}

/// Default header name used to carry the credential.
pub fn default_inject_header() -> (header: String)
    ensures
        header@ == "Authorization"@,
{
    String::from_str("Authorization")
}

/// Default format of the credential value; `{}` is replaced with the secret.
pub fn default_credential_format() -> (format: String)
    ensures
        format@ == "Bearer {}"@,
{
    String::from_str("Bearer {}")
}

/// Default authentication scheme for an external proxy.
pub fn default_auth_scheme() -> (scheme: String)
    ensures
        scheme@ == "basic"@,
{
    String::from_str("basic")
}

/// Two path rules are equal exactly when both their methods and their paths
/// are equal; this is what `==` on rules computes.
pub proof fn law_path_rule_equality(a: PathRule, b: PathRule)
    ensures
        <PathRule as PartialEqSpec>::obeys_eq_spec(),
        a.eq_spec(&b) <==> (a.method@ == b.method@ && a.path@ == b.path@),
{
}

/// Two OAuth2 configurations are equal exactly when all four fields are
/// equal; this is what `==` on them computes.
pub proof fn law_oauth2_config_equality(a: OAuth2Config, b: OAuth2Config)
    ensures
        <OAuth2Config as PartialEqSpec>::obeys_eq_spec(),
        a.eq_spec(&b) <==> (a.token_url@ == b.token_url@ && a.client_id@ == b.client_id@
            && a.client_secret@ == b.client_secret@ && a.scope@ == b.scope@),
{
}

} // verus!
