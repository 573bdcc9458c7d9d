use privoxy::config::{Action, ForwardType};
use privoxy::loaders::{parse_action_string, parse_actions_text, parse_forward_directive, parse_trust_text, FileList};

#[test]
fn test_parse_action_string_block() {
    let mut action = Action::default();
    parse_action_string("+block{Access denied}", &mut action).unwrap();

    assert!(action.block);
    assert_eq!(action.block_reason, Some("Access denied".to_string()));
}

#[test]
fn test_parse_action_string_redirect() {
    let mut action = Action::default();
    parse_action_string("+redirect{http://example.com}", &mut action).unwrap();

    assert_eq!(action.redirect, Some("http://example.com".to_string()));
}

#[test]
fn test_parse_action_string_filter() {
    let mut action = Action::default();
    parse_action_string("+filter{filter-name}", &mut action).unwrap();

    assert!(action.filter);
    assert_eq!(action.filter_names, vec!["filter-name".to_string()]);
}

#[test]
fn test_parse_action_string_multiple() {
    let mut action = Action::default();
    parse_action_string("+block +filter{test} +handle-as-image", &mut action).unwrap();

    assert!(action.block);
    assert!(action.filter);
    assert!(action.handle_as_image);
    assert_eq!(action.filter_names, vec!["test".to_string()]);
}

#[test]
fn test_parse_action_string_hide_headers() {
    let mut action = Action::default();
    parse_action_string("+hide-from-header{block} +hide-user-agent{Custom Agent}", &mut action).unwrap();

    assert_eq!(action.hide_from_header, Some("block".to_string()));
    assert_eq!(action.hide_user_agent, Some("Custom Agent".to_string()));
}

#[test]
fn test_parse_action_string_cookies() {
    let mut action = Action::default();
    parse_action_string("+session-cookies-only +crunch-incoming-cookies", &mut action).unwrap();

    assert!(action.session_cookies_only);
    assert!(action.crunch_incoming_cookies);
}

#[test]
fn minus_undoes_plus() {
    let mut action = Action::default();
    parse_action_string("+block{x} -block", &mut action).unwrap();
    assert!(!action.block);
}

#[test]
fn test_parse_forward_directive_socks5() {
    let line = "forward-socks5 127.0.0.1:1080";
    let spec = parse_forward_directive(line).unwrap().unwrap();

    assert_eq!(spec.gateway_host.as_deref(), Some("127.0.0.1"));
    assert_eq!(spec.gateway_port, 1080);
    assert_eq!(spec.forward_type, ForwardType::Socks5);
}

#[test]
fn test_parse_forward_directive_direct() {
    let line = "forward .";
    let result = parse_forward_directive(line).unwrap().unwrap();

    assert!(result.gateway_host.is_none());
    assert!(result.forward_host.is_none());
}

#[test]
fn actions_text_sections() {
    let text = "# comment\n{+block}\ntest.com\nother.org\n{-block}\nfree.net\n";
    let urls = parse_actions_text(text, "user.action").unwrap();
    assert_eq!(urls.len(), 3);
    assert_eq!(urls[0].patterns, vec!["test.com".to_string()]);
    assert!(urls[0].action.block);
    assert!(urls[1].action.block);
    assert!(!urls[2].action.block);
    assert_eq!(urls[0].file_name, "user.action");
    assert_eq!(urls[0].line_number, 2);
    assert_eq!(urls[2].line_number, 5);
}

#[test]
fn trust_text_lines() {
    let trusted = parse_trust_text("# trusted sites\n+example.com\n\n~other.org\n");
    assert_eq!(trusted, vec!["# trusted sites".to_string(), "+example.com".to_string(), "~other.org".to_string()]);
}

#[test]
fn file_change_detection() {
    let first = FileList::check_file_changed(None, "a.action", 10).expect("new file");
    assert_eq!(first.last_modified, 10);
    assert!(FileList::check_file_changed(Some(&first), "a.action", 10).is_none());
    let changed = FileList::check_file_changed(Some(&first), "a.action", 11).expect("changed");
    assert_eq!(changed.last_modified, 11);
}
