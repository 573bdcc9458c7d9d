use privoxy::cgi::{
    create_common_symbols, edit_submission_action, edit_submission_line, param_get, parse_post_body, parse_query_string, route, CgiPage,
};
use privoxy::template::{
    handle_conditional_blocks, handle_if_then_else, remove_remaining_conditional_markers, render_template,
};

fn symbols(pairs: &[(&str, &str)]) -> Vec<(String, String)> {
    pairs.iter().map(|(k, v)| (k.to_string(), v.to_string())).collect()
}

#[test]
fn test_render_template_simple() {
    let symbols = symbols(&[("name", "Privoxy"), ("version", "4.1.0")]);
    let template = "Hello @name@! Version @version@";
    let result = render_template(template, &symbols);
    assert_eq!(result, "Hello Privoxy! Version 4.1.0");
}

#[test]
fn test_render_template_conditional() {
    let symbols = symbols(&[("show", "1")]);
    let template = "@if-show-then@Visible@endif-show@";
    let result = render_template(template, &symbols);
    assert!(result.contains("Visible") || result.is_empty());
}

#[test]
fn test_render_template_conditional_hidden() {
    let symbols = symbols(&[]);
    let template = "@if-show-then@Visible@endif-show@";
    let result = render_template(template, &symbols);
    assert!(result.len() >= 0);
}

#[test]
fn test_render_template_if_else() {
    let symbols = symbols(&[("enabled", "1")]);
    let template = "@if-enabled-then@Enabled@else-not-enabled@Disabled@endif-enabled@";
    let result = render_template(template, &symbols);
    assert_eq!(result, "Enabled");
}

#[test]
fn test_render_template_if_else_reverse() {
    let symbols = symbols(&[]);
    let template = "@if-enabled-then@Enabled@else-not-enabled@Disabled@endif-enabled@";
    let result = render_template(template, &symbols);
    assert_eq!(result, "Disabled");
}

#[test]
fn test_render_template_if_else_hyphen() {
    let template = "@if-have-stats-then@YES@else-not-have-stats@NO@endif-have-stats@";
    let rendered = render_template(template, &symbols(&[("have-stats", "1")]));
    assert_eq!(rendered, "YES");
    let rendered2 = render_template(template, &symbols(&[("have-stats", "")]));
    assert_eq!(rendered2, "NO");
}

#[test]
fn test_render_template_conditional_hyphen() {
    let template = "@if-have-statsstart@CONTENT@if-have-stats-end@";
    let rendered = render_template(template, &symbols(&[("have-stats", "1")]));
    assert_eq!(rendered, "CONTENT");
}

#[test]
fn template_steps() {
    let syms = symbols(&[("a", "x")]);
    assert_eq!(handle_if_then_else("<@if-a-then@Y@else-not-a@N@endif-a@>", &syms), "<Y>");
    assert_eq!(handle_conditional_blocks("[@if-bstart@B@if-b-end@]", &syms), "[]");
    assert_eq!(remove_remaining_conditional_markers("@if-q-then@1@else-not-q@2@endif-q@"), "12");
    assert_eq!(render_template("@if-show-then@Visible@endif-show@", &symbols(&[])), "Visible");
}

#[test]
fn routing() {
    assert_eq!(route(false, "/", true, true, true), CgiPage::Main);
    assert_eq!(route(false, "/nothing-here", true, true, true), CgiPage::NotFound);
    assert_eq!(route(false, "/edit-actions", false, true, true), CgiPage::EditingDisabled);
    assert_eq!(route(false, "/edit-actions", true, true, false), CgiPage::ErrorReferer);
    assert_eq!(route(true, "/edit-actions-submit", true, true, true), CgiPage::EditActionsSubmit);
    assert_eq!(route(false, "/edit-actions-submit", true, true, true), CgiPage::PostRequired);
    assert_eq!(route(false, "/toggle", true, false, true), CgiPage::ToggleDisabled);
}

#[test]
fn test_parse_query_string() {
    let params = parse_query_string("file=test.action&section=1&name=val%20ue");
    assert_eq!(param_get(&params, "file").unwrap(), "test.action");
    assert_eq!(param_get(&params, "section").unwrap(), "1");
    assert_eq!(param_get(&params, "name").unwrap(), "val ue");

    let params2 = parse_query_string("key_only&key2=");
    assert_eq!(param_get(&params2, "key_only").unwrap(), "");
    assert_eq!(param_get(&params2, "key2").unwrap(), "");
}

#[test]
fn form_body_and_editor_action() {
    let params = parse_post_body(b"file=user.action&line=3&block=on&block_reason=+ads+&filter_names=a%20b&hide_referrer=default");
    assert_eq!(edit_submission_line(&params), 3);
    assert_eq!(
        edit_submission_action(&params),
        "+block{ads} -handle-as-image +filter{a} +filter{b} -hide-referrer -prevent-compression -session-cookies-only"
    );
    let later = parse_post_body(b"x=1&x=2&broken");
    assert_eq!(later.len(), 2);
    assert_eq!(param_get(&later, "x").unwrap(), "2");
}

#[test]
fn test_create_common_symbols() {
    let config = privoxy::config::Config::default();
    let stats = privoxy::state::Statistics::default();
    let symbols = create_common_symbols(&config, true, &stats, 0, "2024-01-01 00:00:00");
    let has = |k: &str| symbols.iter().any(|(n, _)| n == k);

    assert!(has("version"));
    assert!(has("my-hostname"));
    assert!(has("my-port"));
    assert!(has("requests-received"));
    assert!(has("requests-blocked"));
    assert!(has("percent-blocked"));
    assert_eq!(param_get(&symbols, "my-port").as_deref(), Some("8118"));
    assert_eq!(param_get(&symbols, "code-status").as_deref(), Some("stable"));
    assert!(has("have-stats"));
    assert!(!has("have-no-stats"));
}

#[test]
fn test_url_info_matches() {
    let mut config = privoxy::config::Config::default();
    let entry = |patterns: &[&str]| privoxy::config::UrlAction {
        patterns: patterns.iter().map(|p| p.to_string()).collect(),
        action: privoxy::config::Action::default(),
        file_name: "user.action".to_string(),
        line_number: 1,
    };
    config.url_actions.push(entry(&["nomatch.org", ".example.com"]));
    config.url_actions.push(entry(&["other.net"]));
    config.url_actions.push(entry(&["/", "www.example.com"]));
    let m = privoxy::cgi::url_info_matches(&config, "www.example.com/index.html");
    assert_eq!(m, vec![(0, 1), (2, 0)]);
    assert!(privoxy::cgi::url_info_matches(&config, "elsewhere.org/x").iter().all(|(i, _)| *i == 2));
}

#[test]
fn test_set_symbol() {
    let mut v = symbols(&[("a", "1"), ("b", "2"), ("a", "3")]);
    privoxy::cgi::set_symbol(&mut v, "a", "x".to_string());
    assert_eq!(v, symbols(&[("a", "x"), ("b", "2"), ("a", "3")]));
    privoxy::cgi::set_symbol(&mut v, "c", "y".to_string());
    assert_eq!(v, symbols(&[("a", "x"), ("b", "2"), ("a", "3"), ("c", "y")]));
}

#[test]
fn test_generate_status_and_main_pages() {
    let mut config = privoxy::config::Config::default();
    config.listen_addresses.push(privoxy::config::ListenAddress { addr: "::1".to_string(), port: 8119 });
    config.log_level = 4096;
    let mut stats = privoxy::state::Statistics::default();
    let template = "@requests-received@/@urls-read@ [@listen-addresses@] @log-level@ @options@ @if-have-stats-then@yes@else-not-have-stats@no@endif-have-stats@";
    let common = symbols(&[("options", "old"), ("version", "4.1.0")]);
    let page = privoxy::cgi::generate_status_page(template, common.clone(), &stats, &config, "privoxy --no-daemon");
    assert_eq!(page, "0/0 [127.0.0.1:8118, ::1:8119] 4096 default no");
    stats.requests_received = 5;
    stats.urls_read = 3;
    let page = privoxy::cgi::generate_status_page(template, common.clone(), &stats, &config, "privoxy");
    assert_eq!(page, "5/3 [127.0.0.1:8118, ::1:8119] 4096 default yes");
    let main = privoxy::cgi::generate_main_page("@buffer-size@ @version@ @requests-received@", common, &stats, &config);
    assert_eq!(main, "5000 4.1.0 5");
}
