use privoxy::action::{find_action_for_url_with_tags, ActionContext};
use privoxy::action::{
    check_limit_connect, create_blocked_image_response, create_blocked_page_response, create_empty_document_response,
    create_redirect_response, find_action_for_url, merge_actions, parse_url_components, url_matches_pattern,
    urlencoding_decode,
};
use privoxy::config::{Action, Config, UrlAction};

#[test]
fn test_url_matches_pattern() {
    assert!(url_matches_pattern("example.com", "."));
    assert!(url_matches_pattern("example.com", "*"));
    assert!(url_matches_pattern("www.example.com", ".example.com"));
    assert!(url_matches_pattern("example.com", ".example.com"));
    assert!(url_matches_pattern("sub.example.com", "*.example.com"));
    assert!(url_matches_pattern("example.com", "example.com"));
    assert!(url_matches_pattern("test.example.com", "*.example.com"));
    assert!(!url_matches_pattern("example.org", ".example.com"));
}

#[test]
fn test_check_limit_connect() {
    let mut action = Action::default();

    action.limit_connect = Some("443".to_string());
    assert!(check_limit_connect(&action, 443));
    assert!(!check_limit_connect(&action, 80));

    action.limit_connect = Some("80,443".to_string());
    assert!(check_limit_connect(&action, 80));
    assert!(check_limit_connect(&action, 443));
    assert!(!check_limit_connect(&action, 8080));

    action.limit_connect = Some("8080-8090".to_string());
    assert!(check_limit_connect(&action, 8085));
    assert!(!check_limit_connect(&action, 80));
}

#[test]
fn url_components() {
    let (host, port, path) = parse_url_components("http://example.com:8080/a/b");
    assert_eq!(host, "example.com");
    assert_eq!(port, Some(8080));
    assert_eq!(path, "/a/b");
}

#[test]
fn percent_decoding() {
    assert_eq!(urlencoding_decode("a%20b"), Some("a b".to_string()));
}

#[test]
fn canned_responses() {
    let page = create_blocked_page_response("http://ads.example/", "ads");
    assert_eq!(page.status_code, 403);
    let image = create_blocked_image_response();
    assert_eq!(image.status_code, 200);
    assert!(image.body.starts_with(b"GIF89a"));
    let empty = create_empty_document_response();
    assert!(empty.body.is_empty() || empty.status_code == 200);
    let redirect = create_redirect_response("http://elsewhere.example/");
    assert_eq!(redirect.status_code, 302);
    assert_eq!(redirect.get_header("Location").map(|s| s.as_str()), Some("http://elsewhere.example/"));
}

#[test]
fn url_actions_are_looked_up_and_merged() {
    let mut config = Config::default();
    let mut blocking = Action::default();
    blocking.block = true;
    config.url_actions.push(UrlAction {
        patterns: vec![".ads.example".to_string()],
        action: blocking,
        file_name: "user.action".to_string(),
        line_number: 1,
    });
    let found = find_action_for_url("http://www.ads.example/banner", &config).expect("match");
    assert!(found.block);
    assert!(find_action_for_url("http://news.example/", &config).is_none());

    let mut target = Action::default();
    let mut source = Action::default();
    source.filter = true;
    source.filter_names = vec!["f1".to_string()];
    merge_actions(&mut target, &source);
    assert!(!target.block);
    assert_eq!(target.filter_names, vec!["f1".to_string()]);
}

#[test]
fn tag_actions_are_merged_unless_suppressed() {
    let mut config = Config::default();
    let mut base = Action::default();
    base.filter_names = vec!["base".to_string()];
    config.url_actions.push(UrlAction {
        patterns: vec!["example.com".to_string()],
        action: base,
        file_name: "a".to_string(),
        line_number: 1,
    });
    let mut tagged = Action::default();
    tagged.block = true;
    config.url_actions.push(UrlAction {
        patterns: vec!["TAG:^ads$".to_string()],
        action: tagged,
        file_name: "a".to_string(),
        line_number: 2,
    });
    let mut ctx = ActionContext::default();
    ctx.tags.push("ads".to_string());
    let merged = find_action_for_url_with_tags("http://example.com/", &config, &ctx).unwrap();
    assert!(merged.block);
    assert_eq!(merged.filter_names, vec!["base".to_string()]);
    ctx.suppress_tags.push("ads".to_string());
    let plain = find_action_for_url_with_tags("http://example.com/", &config, &ctx).unwrap();
    assert!(!plain.block);
    assert!(find_action_for_url_with_tags("http://other.org/", &config, &ctx).is_none());
}
