use privoxy::config::{
    parse_bool, parse_debug_level, parse_forward_spec, parse_listen_addresses, parse_proxy_spec, Config,
    ForwardType,
};
use privoxy::errlog::{LOG_LEVEL_CONNECT, LOG_LEVEL_ERROR, LOG_LEVEL_FATAL, LOG_LEVEL_INFO, LOG_LEVEL_REQUEST};
use privoxy::forwarding::matches_host_pattern;

#[test]
fn test_default_config() {
    let config = Config::default();
    assert!(config.permit_access.is_empty());
    assert!(config.access_allowed_given(&[], &[]));
    assert_eq!(config.listen_addresses.len(), 1);
    assert_eq!(config.listen_addresses[0].port, 8118);
}

#[test]
fn access_lists_decide_in_order() {
    let mut config = Config::default();
    config.permit_access.push("127.0.0.1".to_string());
    assert!(config.access_allowed_given(&[], &[true]));
    assert!(!config.access_allowed_given(&[], &[false]));
    config.deny_access.push("127.0.0.1".to_string());
    assert!(!config.access_allowed_given(&[true], &[true]));
}

#[test]
fn test_config_audit_fixes() {
    let config_text = r#"
listen-address 127.0.0.1:8118
listen-address 0.0.0.0:8119
buffer-limit 4096
debug 1
debug 2
forward .example.com 127.0.0.1:8080
forward-socks5 .onion 127.0.0.1:9050 .
"#;
    let config = Config::parse(config_text).unwrap();

    assert_eq!(config.buffer_limit, 4096 * 1024);

    assert_ne!(config.log_level & LOG_LEVEL_REQUEST, 0);
    assert_ne!(config.log_level & LOG_LEVEL_CONNECT, 0);

    assert_eq!(config.listen_addresses.len(), 3);
    assert_eq!(config.listen_addresses[1].port, 8118);
    assert_eq!(config.listen_addresses[2].port, 8119);

    let fwd = config.get_forward_spec("test.example.com", 80).expect("Should have forward spec");
    assert_eq!(fwd.forward_host.as_deref(), Some("127.0.0.1"));
    assert_eq!(fwd.forward_port, 8080);
    assert!(fwd.gateway_host.is_none());

    let socks_fwd = config.get_forward_spec("something.onion", 80).expect("Should have socks forward spec");
    assert_eq!(socks_fwd.gateway_host.as_deref(), Some("127.0.0.1"));
    assert_eq!(socks_fwd.gateway_port, 9050);
    assert_eq!(socks_fwd.forward_type, ForwardType::Socks5);
    assert!(socks_fwd.forward_host.is_none());
}

#[test]
fn test_parse_listen_addresses() {
    let result = parse_listen_addresses("127.0.0.1:8118 192.168.1.1:8080").unwrap();
    assert_eq!(result.len(), 2);
    assert_eq!(result[0].port, 8118);
    assert_eq!(result[1].port, 8080);
}

#[test]
fn test_parse_bool() {
    assert!(parse_bool("yes").unwrap());
    assert!(parse_bool("1").unwrap());
    assert!(!parse_bool("no").unwrap());
    assert!(!parse_bool("0").unwrap());
}

#[test]
fn parse_bool_rejects_other_words() {
    assert!(parse_bool("maybe").is_err());
}

#[test]
fn debug_levels_by_name_and_number() {
    assert_eq!(parse_debug_level("1 connect").unwrap(), LOG_LEVEL_REQUEST | LOG_LEVEL_CONNECT);
    assert_eq!(parse_debug_level("bogus").unwrap(), LOG_LEVEL_INFO | LOG_LEVEL_ERROR | LOG_LEVEL_FATAL);
}

#[test]
fn proxy_and_forward_specs() {
    let (host, port) = parse_proxy_spec("proxy.local", 3128).unwrap();
    assert_eq!(host, "proxy.local");
    assert_eq!(port, 3128);
    assert!(parse_proxy_spec("proxy.local:notaport", 3128).is_err());
    let spec = parse_forward_spec("/ upstream:8000", ForwardType::Http).unwrap().unwrap();
    assert_eq!(spec.forward_host.as_deref(), Some("upstream"));
    assert_eq!(spec.forward_port, 8000);
}

#[test]
fn host_patterns() {
    assert!(matches_host_pattern("anything", "."));
    assert!(matches_host_pattern("www.example.com", ".example.com"));
    assert!(matches_host_pattern("example.com", ".example.com/"));
    assert!(matches_host_pattern("a.b.test", "*.test"));
    assert!(!matches_host_pattern("a.b.other", "*.test"));
    assert!(!matches_host_pattern("example.org", ".example.com"));
}
