use nono_proxy::config::{
    default_auth_scheme, default_bind_addr, default_credential_format, default_inject_header,
    InjectMode, IpAddress, OAuth2Config, PathRule, ProxyConfig,
};

#[test]
fn test_default_config() {
    let config = ProxyConfig::default();
    assert_eq!(config.bind_addr, IpAddress::V4(127, 0, 0, 1));
    assert_eq!(config.bind_port, 0);
    assert!(config.allowed_hosts.is_empty());
    assert!(config.routes.is_empty());
    assert!(config.external_proxy.is_none());
}

#[test]
fn default_config_connection_limit() {
    assert_eq!(ProxyConfig::default().max_connections, 256);
}

#[test]
fn default_bind_addr_is_loopback() {
    assert_eq!(default_bind_addr(), IpAddress::V4(127, 0, 0, 1));
}

#[test]
fn default_strings() {
    assert_eq!(default_inject_header(), "Authorization");
    assert_eq!(default_credential_format(), "Bearer {}");
    assert_eq!(default_auth_scheme(), "basic");
}

#[test]
fn default_inject_mode_is_header() {
    assert_eq!(InjectMode::default(), InjectMode::Header);
    assert_ne!(InjectMode::default(), InjectMode::BasicAuth);
}

#[test]
fn path_rule_equality() {
    let a = PathRule {
        method: "GET".to_string(),
        path: "/a".to_string(),
    };
    let b = a.clone();
    assert_eq!(a, b);
    let c = PathRule {
        method: "GET".to_string(),
        path: "/b".to_string(),
    };
    assert_ne!(a, c);
}

#[test]
fn oauth2_config_equality() {
    let a = OAuth2Config {
        token_url: "https://auth.example.com/oauth/token".to_string(),
        client_id: "my-client".to_string(),
        client_secret: "env://CLIENT_SECRET".to_string(),
        scope: String::new(),
    };
    let mut b = a.clone();
    assert_eq!(a, b);
    b.scope = "read".to_string();
    assert_ne!(a, b);
}
