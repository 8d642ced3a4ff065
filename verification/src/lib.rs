//! Configuration types and L7 path filtering for a credential-injecting proxy.
//!
//! `config` holds the proxy's configuration model and its defaults;
//! `path_filter` decides whether a request (method and URL path) is allowed
//! by a route's path rules, where `*` matches one path segment and `**`
//! matches zero or more segments.

pub mod config;
pub mod path_filter;
pub mod segments;
pub mod text;
