use hdp::config::{Config, ConfigError, ServerConfig, Upstream};
use hdp::resolver::resolve;

fn server() -> ServerConfig {
    ServerConfig {
        host: "127.0.0.1".to_string(),
        port: 8080,
        host_v6: None,
        port_v6: None,
        api_key: None,
        ssl_cert: None,
        ssl_key: None,
    }
}

fn config(upstreams: &[(&str, &str)], default: Option<&str>) -> Config {
    Config {
        server: server(),
        upstreams: upstreams
            .iter()
            .map(|(n, u)| Upstream { name: n.to_string(), base_url: u.to_string() })
            .collect(),
        default_upstream: default.map(|d| d.to_string()),
    }
}

fn two() -> Config {
    config(&[("A", "http://a"), ("B", "http://b")], Some("A"))
}

#[test]
fn empty_path_single_upstream() {
    let c = config(&[("A", "http://a")], None);
    assert_eq!(resolve("", &c), (Some("A".to_string()), "/".to_string()));
}

#[test]
fn empty_path_uses_default() {
    assert_eq!(resolve("", &two()), (Some("A".to_string()), "/".to_string()));
}

#[test]
fn prefix_selects_upstream() {
    assert_eq!(resolve("B/foo/bar", &two()), (Some("B".to_string()), "/foo/bar".to_string()));
}

#[test]
fn unknown_prefix_keeps_full_path() {
    assert_eq!(
        resolve("unknown/foo", &two()),
        (Some("A".to_string()), "/unknown/foo".to_string())
    );
}

#[test]
fn single_upstream_prefix_is_stripped() {
    let c = config(&[("A", "http://a")], None);
    assert_eq!(resolve("A/x", &c), (Some("A".to_string()), "/x".to_string()));
}

#[test]
fn single_upstream_other_path_kept() {
    let c = config(&[("A", "http://a")], None);
    assert_eq!(resolve("x/y", &c), (Some("A".to_string()), "/x/y".to_string()));
}

#[test]
fn bare_prefix_without_slash() {
    assert_eq!(resolve("B", &two()), (Some("B".to_string()), "/".to_string()));
}

#[test]
fn trailing_slash_after_prefix() {
    assert_eq!(resolve("B/", &two()), (Some("B".to_string()), "/".to_string()));
}

#[test]
fn no_default_resolves_to_none() {
    let c = config(&[("A", "http://a"), ("B", "http://b")], None);
    assert_eq!(resolve("zzz", &c), (None, "/zzz".to_string()));
    assert_eq!(resolve("", &c), (None, "/".to_string()));
}

#[test]
fn valid_configs_pass() {
    assert_eq!(two().validate(), Ok(()));
    assert_eq!(config(&[("A", "http://a")], None).validate(), Ok(()));
}

#[test]
fn empty_config_rejected() {
    assert_eq!(config(&[], None).validate(), Err(ConfigError::NoUpstreams));
}

#[test]
fn missing_default_rejected() {
    let c = config(&[("A", "http://a"), ("B", "http://b")], None);
    assert_eq!(c.validate(), Err(ConfigError::MissingDefault));
}

#[test]
fn unknown_default_rejected() {
    let c = config(&[("A", "http://a"), ("B", "http://b")], Some("C"));
    assert_eq!(c.validate(), Err(ConfigError::UnknownDefault("C".to_string())));
}

#[test]
fn duplicate_upstream_rejected() {
    let c = config(&[("A", "http://a"), ("A", "http://b")], Some("A"));
    assert_eq!(c.validate(), Err(ConfigError::DuplicateUpstream("A".to_string())));
}

#[test]
fn base_url_lookup() {
    let c = two();
    assert_eq!(c.base_url(&"B".to_string()), Some("http://b".to_string()));
    assert_eq!(c.base_url(&"C".to_string()), None);
    assert!(c.contains_upstream(&"A".to_string()));
}
