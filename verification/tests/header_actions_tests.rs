use privoxy::action::ActionContext;
use privoxy::config::{Action, Config};
use privoxy::filter::{Filter, FilterJob, FilterType, FilterVariables};
use privoxy::filter_actions::{
    add_tag, apply_client_body_taggers, apply_client_header_filters, apply_client_header_taggers,
    apply_content_filters, apply_suppress_tags, apply_tagger, find_filter,
};
use privoxy::header_actions::{
    apply_add_header, apply_change_x_forwarded_for, apply_content_type_overwrite, apply_crunch_client_header,
    apply_crunch_incoming_cookies, apply_crunch_outgoing_cookies, apply_downgrade_http_version,
    apply_force_text_mode, apply_hide_accept_language, apply_hide_from_header, apply_hide_if_modified_since_at,
    apply_hide_referrer, apply_hide_user_agent, apply_limit_cookie_lifetime, apply_overwrite_last_modified_at,
    apply_prevent_compression, apply_send_user_agent, apply_session_cookies_only, HeaderTable,
};

fn table(pairs: &[(&str, &str)]) -> HeaderTable {
    let mut t = HeaderTable::new();
    for (k, v) in pairs {
        t.insert(k, v);
    }
    t
}

#[test]
fn table_insert_get_remove() {
    let mut t = table(&[("Host", "a"), ("Cookie", "x")]);
    t.insert("Host", "b");
    assert_eq!(t.entries.len(), 2);
    assert_eq!(t.get("Host").as_deref(), Some("b"));
    t.remove("Host");
    assert_eq!(t.get("Host"), None);
    assert_eq!(t.entries.len(), 1);
}

#[test]
fn adding_and_crunching() {
    let mut action = Action::default();
    action.add_headers = vec!["X-Test: 1".to_string(), "broken".to_string()];
    action.crunch_client_headers = vec!["COOK".to_string()];
    action.crunch_outgoing_cookies = true;
    action.crunch_incoming_cookies = true;
    let mut t = table(&[("Cookie", "a=1"), ("Set-Cookie", "b=2"), ("X-Cookie-Id", "3")]);
    apply_add_header(&mut t, &action);
    assert_eq!(t.get("X-Test").as_deref(), Some("1"));
    apply_crunch_client_header(&mut t, &action);
    assert_eq!(t.get("X-Cookie-Id"), None);
    assert_eq!(t.get("Cookie"), None);
    let mut t2 = table(&[("Cookie", "a=1"), ("Set-Cookie", "b=2")]);
    apply_crunch_outgoing_cookies(&mut t2, &action);
    apply_crunch_incoming_cookies(&mut t2, &action);
    assert!(t2.entries.is_empty());
}

#[test]
fn replacing_headers() {
    let mut action = Action::default();
    action.hide_from_header = Some("block".to_string());
    action.hide_accept_language = Some("en".to_string());
    action.hide_user_agent = Some("x".to_string());
    action.send_user_agent = Some("Agent/1".to_string());
    action.content_type_overwrite = Some("text/html".to_string());
    action.prevent_compression = true;
    action.downgrade_http_version = true;
    let mut t = table(&[("From", "me"), ("User-Agent", "old"), ("Accept-Encoding", "gzip")]);
    apply_hide_from_header(&mut t, &action);
    apply_hide_accept_language(&mut t, &action);
    apply_hide_user_agent(&mut t, &action);
    assert_eq!(t.get("User-Agent"), None);
    apply_send_user_agent(&mut t, &action);
    apply_content_type_overwrite(&mut t, &action);
    apply_prevent_compression(&mut t, &action);
    assert_eq!(t.get("From"), None);
    assert_eq!(t.get("Accept-Language").as_deref(), Some("en"));
    assert_eq!(t.get("User-Agent").as_deref(), Some("Agent/1"));
    assert_eq!(t.get("Content-Type").as_deref(), Some("text/html"));
    assert_eq!(t.get("Accept-Encoding").as_deref(), Some("identity"));
    action.force_text_mode = true;
    apply_force_text_mode(&mut t, &action);
    assert_eq!(t.get("Content-Type").as_deref(), Some("text/plain"));
    let mut version = "HTTP/1.1".to_string();
    apply_downgrade_http_version(&mut version, &action);
    assert_eq!(version, "HTTP/1.0");
}

#[test]
fn rewriting_headers() {
    let mut action = Action::default();
    action.change_x_forwarded_for = Some("add".to_string());
    let mut t = table(&[("Host", "example.com:443")]);
    apply_change_x_forwarded_for(&mut t, &action, "10.0.0.1:5555");
    assert_eq!(t.get("X-Forwarded-For").as_deref(), Some("10.0.0.1"));
    apply_change_x_forwarded_for(&mut t, &action, "10.0.0.2");
    assert_eq!(t.get("X-Forwarded-For").as_deref(), Some("10.0.0.1, 10.0.0.2"));

    action.hide_referrer = Some("forge".to_string());
    apply_hide_referrer(&mut t, &action);
    assert_eq!(t.get("Referer").as_deref(), Some("https://example.com:443/"));

    action.session_cookies_only = true;
    let mut c = table(&[("Cookie", "a=1;Secure;b=2;HttpOnly")]);
    apply_session_cookies_only(&mut c, &action);
    assert_eq!(c.get("Cookie").as_deref(), Some("a=1;b=2"));

    action.limit_cookie_lifetime = Some(60);
    let mut s = table(&[("Set-Cookie", "id=1; max-age=9999")]);
    apply_limit_cookie_lifetime(&mut s, &action);
    assert_eq!(s.get("Set-Cookie").as_deref(), Some("id=1; Max-Age=60"));
    let mut s2 = table(&[("Set-Cookie", "id=1")]);
    apply_limit_cookie_lifetime(&mut s2, &action);
    assert_eq!(s2.get("Set-Cookie").as_deref(), Some("id=1; Max-Age=60"));
}

#[test]
fn dates_at_a_given_time() {
    let mut action = Action::default();
    action.hide_if_modified_since = Some("-60".to_string());
    action.overwrite_last_modified = Some("reset-to-request-time".to_string());
    let mut t = HeaderTable::new();
    apply_hide_if_modified_since_at(&mut t, &action, 120);
    assert_eq!(t.get("If-Modified-Since").as_deref(), Some("Thu, 01 Jan 1970 00:01:00 GMT"));
    apply_overwrite_last_modified_at(&mut t, &action, 0);
    assert_eq!(t.get("Last-Modified").as_deref(), Some("Thu, 01 Jan 1970 00:00:00 GMT"));
    action.overwrite_last_modified = Some("randomize".to_string());
    apply_overwrite_last_modified_at(&mut t, &action, 86_400 + 500);
    assert_eq!(t.get("Last-Modified").as_deref(), Some("Fri, 02 Jan 1970 00:00:00 GMT"));
}

fn filter(name: &str, ft: FilterType, pattern: &str, replacement: &str) -> Filter {
    let mut f = Filter::new(name, "test", ft);
    f.add_job(FilterJob::new(pattern, replacement, "").unwrap());
    f
}

#[test]
fn taggers_and_filters() {
    let config = Config::default();
    let vars = FilterVariables::default();
    let filters = vec![
        filter("ua-tag", FilterType::ClientHeaderTagger, "^User-Agent: .*Bot.*$", "bot"),
        filter("body-tag", FilterType::ClientBodyTagger, ".*secret.*", "has-secret"),
        filter("ua-filter", FilterType::ClientHeader, "Mozilla", "Browser"),
        filter("content", FilterType::Content, "foo", "bar"),
    ];
    assert!(find_filter(&filters, "ua-tag", FilterType::ClientHeaderTagger).is_some());
    assert!(find_filter(&filters, "ua-tag", FilterType::Content).is_none());
    assert_eq!(apply_tagger(&filters[0], "User-Agent: SomeBot/1", &vars).as_deref(), Some("bot"));
    assert_eq!(apply_tagger(&filters[0], "User-Agent: Mozilla", &vars), None);

    let mut action = Action::default();
    action.client_header_tagger_names = vec!["ua-tag".to_string()];
    action.client_body_tagger_names = vec!["body-tag".to_string()];
    action.client_header_filter_names = vec!["ua-filter".to_string()];
    action.filter_names = vec!["content".to_string()];
    action.suppress_tags = vec!["quiet".to_string()];

    let mut ctx = ActionContext::default();
    let t = {
        let mut t = HeaderTable::new();
        t.insert("User-Agent", "SomeBot/1");
        t
    };
    apply_client_header_taggers(&t, &filters, &config, &action, &mut ctx, &vars);
    assert_eq!(ctx.tags, vec!["bot".to_string()]);
    apply_client_body_taggers(b"a secret body", &filters, &config, &action, &mut ctx, &vars);
    assert_eq!(ctx.tags, vec!["bot".to_string(), "has-secret".to_string()]);

    apply_suppress_tags(&action, &mut ctx);
    assert_eq!(ctx.suppress_tags, vec!["quiet".to_string()]);
    add_tag(&mut ctx, "quiet", &config);
    add_tag(&mut ctx, "bot", &config);
    assert_eq!(ctx.tags.len(), 2);

    let mut headers = HeaderTable::new();
    headers.insert("User-Agent", "Mozilla/5.0");
    apply_client_header_filters(&mut headers, &filters, &action, &vars);
    assert_eq!(headers.get("User-Agent").as_deref(), Some("Browser/5.0"));

    let mut body = b"foo and foo".to_vec();
    apply_content_filters(&mut body, &filters, &action, &vars).unwrap();
    assert_eq!(body, b"bar and bar".to_vec());
}
