use privoxy::filter::{
    connect_port_is_forbidden, make_ungreedy, parse_filter_file, parse_filter_header, parse_filter_job,
    split_name_description, unescape_pattern, AccessControlList, BlockList, Filter, FilterEngine, FilterJob,
    FilterRule, FilterType, PortList, UrlPattern, DEFAULT_FORBIDDEN_CONNECT_PORTS,
};

#[test]
fn test_acl_parse_address() {
    let (addr, mask) = AccessControlList::parse_acl_address("192.168.1.0/24").unwrap();
    assert_eq!(addr, 0xC0A80100);
    assert_eq!(mask, 0xFFFFFF00);

    let (addr, mask) = AccessControlList::parse_acl_address("10.0.0.0/8").unwrap();
    assert_eq!(addr, 0x0A000000);
    assert_eq!(mask, 0xFF000000);

    let (addr, mask) = AccessControlList::parse_acl_address("192.168.1.100/32").unwrap();
    assert_eq!(addr, 0xC0A80164);
    assert_eq!(mask, 0xFFFFFFFF);
}

#[test]
fn test_acl_is_blocked() {
    let mut acl = AccessControlList::new();

    let (addr, mask) = AccessControlList::parse_acl_address("192.168.1.0/24").unwrap();
    acl.add_entry(addr, mask, true);

    let (addr, mask) = AccessControlList::parse_acl_address("192.168.1.100/32").unwrap();
    acl.add_entry(addr, mask, false);

    let ip1 = AccessControlList::parse_ip_address("192.168.1.50").unwrap();
    assert!(!acl.is_blocked(ip1));

    let ip2 = AccessControlList::parse_ip_address("192.168.1.100").unwrap();
    assert!(!acl.is_blocked(ip2));

    let ip3 = AccessControlList::parse_ip_address("10.0.0.1").unwrap();
    assert!(!acl.is_blocked(ip3));
}

#[test]
fn acl_first_deny_blocks() {
    let mut acl = AccessControlList::new();
    let (addr, mask) = AccessControlList::parse_acl_address("10.0.0.0/8").unwrap();
    acl.add_entry(addr, mask, false);
    assert!(acl.is_blocked(AccessControlList::parse_ip_address("10.1.2.3").unwrap()));
    assert!(!acl.is_blocked(AccessControlList::parse_ip_address("11.1.2.3").unwrap()));
    assert!(AccessControlList::parse_ip_address("300.1.1.1").is_err());
    assert!(AccessControlList::parse_acl_address("10.0.0.0/33").is_err());
    let (addr, mask) = AccessControlList::parse_acl_address("10.0.0.7").unwrap();
    assert_eq!((addr, mask), (0x0A000007, 0xFFFFFFFF));
}

#[test]
fn test_connect_port_is_forbidden() {
    assert!(connect_port_is_forbidden(22, &DEFAULT_FORBIDDEN_CONNECT_PORTS));
    assert!(connect_port_is_forbidden(23, &DEFAULT_FORBIDDEN_CONNECT_PORTS));
    assert!(connect_port_is_forbidden(25, &DEFAULT_FORBIDDEN_CONNECT_PORTS));

    assert!(!connect_port_is_forbidden(80, &DEFAULT_FORBIDDEN_CONNECT_PORTS));
    assert!(!connect_port_is_forbidden(443, &DEFAULT_FORBIDDEN_CONNECT_PORTS));
    assert!(!connect_port_is_forbidden(8118, &DEFAULT_FORBIDDEN_CONNECT_PORTS));
}

#[test]
fn test_port_list_parse() {
    let port_list = PortList::parse("21,22,23,80-90,443").unwrap();

    assert!(port_list.matches(21));
    assert!(port_list.matches(22));
    assert!(port_list.matches(23));
    assert!(port_list.matches(80));
    assert!(port_list.matches(85));
    assert!(port_list.matches(90));
    assert!(port_list.matches(443));
    assert!(!port_list.matches(8080));
}

#[test]
fn port_list_rejects_bad_entries() {
    assert!(PortList::parse("80,abc").is_err());
    assert!(PortList::parse("1-x").is_err());
    let mut list = PortList::new();
    assert!(!list.matches(7));
    list.add_port(7);
    list.add_range(100, 200);
    assert!(list.matches(7));
    assert!(list.matches(150));
    assert!(!list.matches(201));
}

#[test]
fn test_filter_rule_apply() {
    let rule = FilterRule::new("test", r"hello\s+world", "goodbye").unwrap();
    let result = rule.apply("hello world");
    assert_eq!(result, "goodbye");
}

#[test]
fn test_filter_rule_matches() {
    let rule = FilterRule::new("test", r"\d+", "number").unwrap();
    assert!(rule.matches("abc123"));
    assert!(!rule.matches("abc"));
}

#[test]
fn filter_rule_rejects_bad_expression() {
    assert!(FilterRule::new("bad", "(unclosed", "x").is_err());
}

#[test]
fn test_filter_apply() {
    let mut filter = Filter::new("test", "Test filter", FilterType::Content);
    filter.add_job(FilterJob::new(r"foo", "bar", "").unwrap());
    filter.add_job(FilterJob::new(r"baz", "qux", "").unwrap());

    let result = filter.apply("foo baz");
    assert_eq!(result, "bar qux");
}

#[test]
fn test_url_pattern_match() {
    let pattern = UrlPattern::new("example.com/*", false).unwrap();
    assert!(pattern.matches("example.com/test"));
    assert!(pattern.matches("example.com/"));
    assert!(!pattern.matches("other.com/test"));
}

#[test]
fn test_url_pattern_regex() {
    let pattern = UrlPattern::new(r"example\.com/.*", true).unwrap();
    assert!(pattern.matches("example.com/test"));
    assert!(!pattern.matches("other.com/test"));
}

#[test]
fn test_block_list() {
    let mut block_list = BlockList::new();
    let pattern = UrlPattern::new("blocked.com/*", false).unwrap();
    block_list.add_pattern(pattern);

    assert!(block_list.is_blocked("blocked.com/test"));
    assert!(!block_list.is_blocked("allowed.com/test"));
}

#[test]
fn test_filter_engine() {
    let mut engine = FilterEngine::new();

    let mut filter = Filter::new("test", "Test filter", FilterType::Content);
    filter.add_job(FilterJob::new(r"hello", "goodbye", "").unwrap());
    engine.add_filter(filter);

    let result = engine.apply_filter("test", "hello world");
    assert_eq!(result, "goodbye world");
    assert_eq!(engine.apply_filter("missing", "hello world"), "hello world");
}

#[test]
fn test_execute_content_filters() {
    let mut engine = FilterEngine::new();

    let mut filter = Filter::new("test", "Test filter", FilterType::Content);
    filter.add_job(FilterJob::new(r"foo", "bar", "").unwrap());
    engine.add_filter(filter);

    let result = engine.execute_content_filters("foo baz", &vec!["test".to_string()]);
    assert_eq!(result, "bar baz");
}

#[test]
fn test_execute_client_body_filters() {
    let mut engine = FilterEngine::new();

    let mut filter = Filter::new("body-filter", "Body filter", FilterType::ClientBody);
    filter.add_job(FilterJob::new(r"request", "response", "").unwrap());
    engine.add_filter(filter);

    let result = engine.execute_client_body_filters("request body", &vec!["body-filter".to_string()]);
    assert_eq!(result, "response body");
}

#[test]
fn test_filter_client_header() {
    let mut engine = FilterEngine::new();

    let mut filter = Filter::new("header-filter", "Header filter", FilterType::ClientHeader);
    filter.add_job(FilterJob::new(r"User-Agent:.*", "User-Agent: Privoxy", "").unwrap());
    engine.add_filter(filter);

    let header = "User-Agent: Mozilla/5.0";
    let result = engine.filter_client_header(header, &vec!["header-filter".to_string()]);
    assert!(result.contains("Privoxy"));
}

#[test]
fn test_filter_server_header() {
    let mut engine = FilterEngine::new();

    let mut filter = Filter::new("server-header-filter", "Server header filter", FilterType::ServerHeader);
    filter.add_job(FilterJob::new(r"Server:.*", "Server: Privoxy", "").unwrap());
    engine.add_filter(filter);

    let header = "Server: Apache/2.4";
    let result = engine.filter_server_header(header, &vec!["server-header-filter".to_string()]);
    assert!(result.contains("Privoxy"));
}

#[test]
fn test_execute_header_taggers() {
    let mut engine = FilterEngine::new();

    let mut tagger = Filter::new("tagger", "Header tagger", FilterType::ClientHeaderTagger);
    tagger.add_job(FilterJob::new(r"Cookie:.*session.*", "has-session-cookie", "").unwrap());
    engine.add_filter(tagger);

    let header = "Cookie: session=abc123";
    let tags = engine.execute_header_taggers(header, &vec!["tagger".to_string()], FilterType::ClientHeaderTagger);
    assert!(!tags.is_empty());
    assert!(tags.iter().any(|t| t.contains("session")));
}

#[test]
fn test_content_requires_filtering() {
    let engine = FilterEngine::new();

    assert!(engine.content_requires_filtering(Some("text/html")));
    assert!(engine.content_requires_filtering(Some("text/plain")));
    assert!(engine.content_requires_filtering(Some("application/javascript")));
    assert!(engine.content_requires_filtering(Some("application/json")));
    assert!(!engine.content_requires_filtering(Some("image/gif")));
    assert!(!engine.content_requires_filtering(Some("image/png")));
    assert!(!engine.content_requires_filtering(None));
}

#[test]
fn test_block_list_integration() {
    let mut engine = FilterEngine::new();

    let pattern = UrlPattern::new("blocked.com/*", false).unwrap();
    engine.block_list.add_pattern(pattern);

    assert!(engine.is_url_blocked("blocked.com/test"));
    assert!(!engine.is_url_blocked("allowed.com/test"));

    let reason = engine.get_block_reason("blocked.com/test");
    assert_eq!(reason, Some("blocked.com/*"));
}

#[test]
fn test_url_pattern_anchor() {
    let mut pattern = UrlPattern::new("example.com/*", false).unwrap();
    pattern.anchor_left = true;
    pattern.anchor_right = true;

    assert!(pattern.matches("example.com/test"));
    assert!(!pattern.matches("sub.example.com/test"));
}

#[test]
fn test_filter_job_flags() {
    let job = FilterJob::new(r"HELLO", "goodbye", "i").unwrap();
    let result = job.apply("hello world");
    assert_eq!(result, "goodbye world");

    let job = FilterJob::new(r"$host", "example.com", "D").unwrap();
    assert!(job.dynamic);
}

#[test]
fn ungreedy_and_unescape() {
    assert_eq!(make_ungreedy("a.*b"), "a.*?b");
    assert_eq!(make_ungreedy("a.+?b"), "a.+?b");
    assert_eq!(unescape_pattern(r"a\/b", '/'), "a/b");
    let (name, desc) = split_name_description("my-filter Some description");
    assert_eq!(name, "my-filter");
    assert_eq!(desc, "Some description");
}

#[test]
fn filter_file_parsing() {
    let text = "FILTER: demo Replaces foo\ns/foo/bar/g\n# comment\nCLIENT-HEADER-FILTER: hdr Header\ns/a/b/\n";
    let filters = parse_filter_file(text).unwrap();
    assert_eq!(filters.len(), 2);
    assert_eq!(filters[0].name, "demo");
    assert_eq!(filters[0].filter_type, FilterType::Content);
    assert_eq!(filters[0].jobs.len(), 1);
    assert_eq!(filters[0].apply("foo foo"), "bar bar");
    assert_eq!(filters[1].filter_type, FilterType::ClientHeader);
    assert!(parse_filter_header("FILTER: x y").is_some());
    assert!(parse_filter_header("s/a/b/").is_none());
    assert!(parse_filter_job("s/a/b/").unwrap().is_ok());
    assert!(parse_filter_job("not a job").is_none());
}
