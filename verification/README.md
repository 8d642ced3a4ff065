# nono-proxy (verified core)

Configuration model and L7 path filter of a credential-injecting reverse
proxy, written in Verus.

- `src/config.rs`: configuration types and their defaults.
- `src/path_filter.rs`: rule matching. A rule admits a request when its
  method is `*` or equals the request method up to ASCII case, and its path
  glob matches the request path after the query string is removed and the
  path is percent-decoded. `*` matches one segment, `**` zero or more.
  The glob semantics is a declarative spec (`glob_matches`); the recursive
  matcher is proved to compute it, and laws about wildcards, query strings
  and methods are proved as proof functions.
- `src/segments.rs`: splitting a path into its non-empty `/`-separated segments.
- `src/text.rs`: character-level string helpers.
- `app/`: serde-deriving copies of the configuration types, conversions to
  and from the library types, and the `std::net` bind address.

Percent-decoding is done by the `urlencoding` crate behind one trusted
wrapper whose result is named by `percent_decoded`; for ASCII input whose
escapes denote ASCII bytes the wrapper states the result (`ascii_percent_decode`).
