use privoxy::constants::{CSP_FLAG_CHUNKED, VERSION};
use privoxy::state::{AppToggle, ClientManager, ClientState, Statistics};

#[test]
fn test_statistics() {
    let mut stats = Statistics::default();
    stats.increment_urls_read();
    stats.increment_urls_rejected();
    assert_eq!(stats.get_urls_read(), 1);
    assert_eq!(stats.get_urls_rejected(), 1);
}

#[test]
fn test_client_state_flags() {
    let mut client = ClientState::new(1, "127.0.0.1", 12345);

    client.set_flag(CSP_FLAG_CHUNKED);
    assert!(client.has_flag(CSP_FLAG_CHUNKED));

    client.clear_flag(CSP_FLAG_CHUNKED);
    assert!(!client.has_flag(CSP_FLAG_CHUNKED));
}

#[test]
fn client_tags_are_kept_once() {
    let mut client = ClientState::new(2, "10.0.0.1", 80);
    client.add_tag("a".to_string());
    client.add_tag("a".to_string());
    assert_eq!(client.tags.len(), 1);
    assert!(client.has_tag("a"));
    assert!(!client.has_tag("b"));
}

#[test]
fn toggle_flips() {
    let mut t = AppToggle::new();
    assert!(t.is_enabled());
    assert!(!t.toggle());
    assert!(!t.is_enabled());
    t.set_enabled(true);
    assert!(t.is_enabled());
}

#[test]
fn test_version() {
    assert_eq!(VERSION, "4.1.0");
}

#[test]
fn test_client_manager() {
    let mut m = ClientManager::default();
    assert_eq!(m.client_count(), 0);
    let a = m.create_client("127.0.0.1", 40000);
    let b = m.create_client("10.0.0.2", 40001);
    assert_eq!(a, 1);
    assert_eq!(b, 2);
    assert_eq!(m.client_count(), 2);
    let c = m.get_client(b).unwrap();
    assert_eq!(c.id, 2);
    assert_eq!(c.ip_addr, "10.0.0.2");
    assert_eq!(c.port, 40001);
    m.remove_client(a);
    assert!(m.get_client(a).is_none());
    assert!(m.get_client(b).is_some());
    assert_eq!(m.client_count(), 1);
    m.remove_client(99);
    assert_eq!(m.client_count(), 1);
}
