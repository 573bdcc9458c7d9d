use privoxy::client_tags::ClientTagManager;

#[test]
fn test_enable_disable_tag() {
    let mut manager = ClientTagManager::new();
    let client = "192.168.1.1";

    assert!(!manager.client_has_requested_tag(client, "test-tag"));

    manager.enable_client_tag(client, "test-tag", None);
    assert!(manager.client_has_requested_tag(client, "test-tag"));

    manager.disable_client_tag(client, "test-tag");
    assert!(!manager.client_has_requested_tag(client, "test-tag"));
}

#[test]
fn test_tag_expiration() {
    let mut manager = ClientTagManager::new();
    let client = "192.168.1.2";

    let future_time = std::time::SystemTime::now()
        .duration_since(std::time::UNIX_EPOCH)
        .unwrap()
        .as_secs()
        + 3600;

    manager.enable_client_tag(client, "expiring-tag", Some(future_time));
    assert!(manager.client_has_requested_tag(client, "expiring-tag"));

    let past_time = std::time::SystemTime::now()
        .duration_since(std::time::UNIX_EPOCH)
        .unwrap()
        .as_secs()
        - 3600;

    manager.enable_client_tag(client, "expired-tag", Some(past_time));
    manager.cleanup_expired_tags();

    assert!(!manager.client_has_requested_tag(client, "expired-tag"));
    assert!(manager.client_has_requested_tag(client, "expiring-tag"));
}

#[test]
fn test_pattern_matching() {
    let mut manager = ClientTagManager::new();
    let client = "192.168.1.3";

    manager.enable_client_tag(client, "premium-user", None);
    manager.enable_client_tag(client, "beta-tester", None);

    assert!(manager.client_tag_match(client, "premium-user"));

    assert!(manager.client_tag_match(client, "premium-*"));
    assert!(manager.client_tag_match(client, "*-user"));

    assert!(!manager.client_tag_match(client, "admin"));
}

#[test]
fn expiry_at_a_given_time_and_bookkeeping() {
    let mut manager = ClientTagManager::new();
    manager.enable_client_tag("10.0.0.1", "a", Some(100));
    manager.enable_client_tag("10.0.0.2", "b", None);
    assert_eq!(manager.get_client_count(), 2);
    manager.cleanup_expired_tags_at(50);
    assert!(manager.client_has_requested_tag("10.0.0.1", "a"));
    manager.cleanup_expired_tags_at(150);
    assert!(!manager.client_has_requested_tag("10.0.0.1", "a"));
    assert!(manager.client_has_requested_tag("10.0.0.2", "b"));
    assert_eq!(manager.get_tags_for_client("10.0.0.2").len(), 1);
    manager.clear_all();
    assert_eq!(manager.get_client_count(), 0);
    assert!(manager.get_all_clients().is_empty());
}
