use privoxy::cgi::{handle_cgi_request, is_cgi_request, referrer_is_safe, route_path_of, CgiPage};
use privoxy::config::{Config, FileModification, ForwardSpec, ForwardType, ListenAddress};
use privoxy::compression::{compress, CompressionAlgorithm, COMPRESSION_LEVEL_DEFAULT};
use privoxy::config::Action;
use privoxy::connection::{
    apply_image_blocker_redirect, build_request_bytes, cannot_connect_response, connect_refusal, connect_timeout_error,
    read_step, ReadStep, connection_plan, decide_request,
    decode_response_body, filter_variables_for, find_forward_spec, is_content_filterable, looks_like_gif,
    normalize_request_path, plan_connection, ConnectStep, RequestOutcome,
};
use privoxy::error::PrivoxyError;
use privoxy::http::{HttpRequest, HttpResponse};

fn spec(pattern: &str, forward_type: ForwardType, forward_host: Option<&str>, forward_port: u16) -> ForwardSpec {
    ForwardSpec {
        pattern: pattern.to_string(),
        forward_type,
        gateway_host: None,
        gateway_port: 0,
        gateway_username: None,
        gateway_password: None,
        forward_host: forward_host.map(|h| h.to_string()),
        forward_port,
    }
}

fn request(method: &str, host: &str, port: u16, path: &str) -> HttpRequest {
    let mut r = HttpRequest::new();
    r.method = method.to_string();
    r.host = host.to_string();
    r.port = port;
    r.path = path.to_string();
    r.version = "HTTP/1.1".to_string();
    r
}

#[test]
fn test_normalize_request_path() {
    assert_eq!(normalize_request_path("http://example.com/a/b?x=1"), "/a/b?x=1");
    assert_eq!(normalize_request_path("https://example.com"), "/");
    assert_eq!(normalize_request_path("/already/relative"), "/already/relative");
    assert_eq!(normalize_request_path("http://example.com/"), "/");
}

#[test]
fn test_build_request_bytes_direct() {
    let mut r = request("GET", "example.com", 80, "http://example.com/index.html");
    r.headers.push(("Host".to_string(), "example.com".to_string()));
    let bytes = build_request_bytes(&r, &spec(".", ForwardType::Direct, None, 0));
    assert_eq!(
        String::from_utf8(bytes).unwrap(),
        "GET /index.html HTTP/1.1\r\nHost: example.com\r\n\r\n"
    );
}

#[test]
fn test_build_request_bytes_parent_proxy() {
    let mut r = request("POST", "example.com", 8080, "/form");
    r.headers.push(("Content-Length".to_string(), "3".to_string()));
    r.body = Some(b"a=b".to_vec());
    let bytes = build_request_bytes(&r, &spec(".", ForwardType::Http, Some("proxy.local"), 3128));
    assert_eq!(
        String::from_utf8(bytes).unwrap(),
        "POST http://example.com:8080/form HTTP/1.1\r\nContent-Length: 3\r\n\r\na=b"
    );
}

#[test]
fn test_find_forward_spec_from_config() {
    let mut config = Config::default();
    assert!(find_forward_spec(&config, "example.com", 80).is_none());
    config.forward_specs.push(spec(".example.com", ForwardType::Http, Some("proxy.local"), 3128));
    config.forward_specs.push(spec(".", ForwardType::Direct, None, 0));
    let f = find_forward_spec(&config, "www.example.com", 80).unwrap();
    assert_eq!(f.forward_type, ForwardType::Http);
    assert_eq!(f.forward_host.as_deref(), Some("proxy.local"));
    let g = find_forward_spec(&config, "other.org", 80).unwrap();
    assert_eq!(g.forward_type, ForwardType::Direct);
}

#[test]
fn test_file_modification_and_reload() {
    let m = FileModification { path: "config".to_string(), modified_millis: 1000 };
    assert!(!m.has_been_modified(Some(1000)));
    assert!(m.has_been_modified(Some(2000)));
    assert!(m.has_been_modified(None));
    let mut config = Config::default();
    assert!(!config.needs_reload(false));
    assert!(config.needs_reload(true));
    config.request_reload();
    assert!(config.needs_reload(false));
}

#[test]
fn test_is_cgi_request() {
    let mut config = Config::default();
    assert!(is_cgi_request(&config, &request("GET", "p.p", 80, "/")));
    assert!(is_cgi_request(&config, &request("GET", "Config.Privoxy.Org", 80, "/")));
    assert!(is_cgi_request(&config, &request("GET", "localhost", 8118, "/")));
    assert!(!is_cgi_request(&config, &request("GET", "localhost", 9000, "/")));
    config.listen_addresses.push(ListenAddress { addr: "127.0.0.1".to_string(), port: 9000 });
    assert!(is_cgi_request(&config, &request("GET", "127.0.0.1", 9000, "/")));
    assert!(!is_cgi_request(&config, &request("GET", "example.com", 8118, "/")));
}

#[test]
fn test_referrer_is_safe() {
    let mut config = Config::default();
    assert!(!referrer_is_safe(&config, None));
    assert!(referrer_is_safe(&config, Some("http://p.p/edit-actions")));
    assert!(referrer_is_safe(&config, Some("http://127.0.0.1:8118/show-status")));
    assert!(referrer_is_safe(&config, Some("https://config.privoxy.org/")));
    assert!(!referrer_is_safe(&config, Some("http://evil.example/")));
    config.trusted_cgi_referers.push("http://intranet.local/".to_string());
    assert!(referrer_is_safe(&config, Some("http://intranet.local/page")));
}

#[test]
fn test_handle_cgi_request_routes() {
    let mut config = Config::default();
    assert_eq!(route_path_of("http://p.p/show-status?x=1"), "/show-status");
    assert_eq!(handle_cgi_request(&config, &request("GET", "p.p", 80, "http://p.p/")), CgiPage::Main);
    assert_eq!(handle_cgi_request(&config, &request("GET", "p.p", 80, "/status")), CgiPage::Status);
    assert_eq!(
        handle_cgi_request(&config, &request("POST", "p.p", 80, "/edit-actions-submit")),
        CgiPage::EditActionsSubmit
    );
    assert_eq!(handle_cgi_request(&config, &request("GET", "p.p", 80, "/eas")), CgiPage::NotFound);
    assert_eq!(handle_cgi_request(&config, &request("GET", "p.p", 80, "/toggle")), CgiPage::Toggle);
    config.enable_remote_toggle = false;
    assert_eq!(
        handle_cgi_request(&config, &request("GET", "p.p", 80, "/toggle?set=enable")),
        CgiPage::ToggleDisabled
    );
}

fn header<'a>(r: &'a HttpResponse, name: &str) -> Option<&'a str> {
    r.headers.iter().find(|(n, _)| n.eq_ignore_ascii_case(name)).map(|(_, v)| v.as_str())
}

#[test]
fn test_decide_request() {
    assert!(matches!(decide_request("example.com/", None), RequestOutcome::Forward));
    let mut a = Action::default();
    assert!(matches!(decide_request("example.com/", Some(&a)), RequestOutcome::Forward));

    a.redirect = Some("http://elsewhere.example/".to_string());
    match decide_request("example.com/", Some(&a)) {
        RequestOutcome::Respond(r) => {
            assert_eq!(r.status_code, 302);
            assert_eq!(header(&r, "Location"), Some("http://elsewhere.example/"));
        },
        RequestOutcome::Forward => panic!("expected a redirect"),
    }

    a.block = true;
    match decide_request("ads.example.com/banner", Some(&a)) {
        RequestOutcome::Respond(r) => {
            assert_eq!(r.status_code, 403);
            let body = String::from_utf8(r.body.clone()).unwrap();
            assert!(body.contains("ads.example.com/banner"));
            assert!(body.contains("Blocked by Privoxy"));
        },
        RequestOutcome::Forward => panic!("expected a block"),
    }

    a.block_reason = Some("Advertisement".to_string());
    match decide_request("ads.example.com/banner", Some(&a)) {
        RequestOutcome::Respond(r) => {
            let body = String::from_utf8(r.body.clone()).unwrap();
            assert!(body.contains("Advertisement"));
        },
        RequestOutcome::Forward => panic!("expected a block"),
    }

    a.handle_as_empty_document = true;
    match decide_request("ads.example.com/banner", Some(&a)) {
        RequestOutcome::Respond(r) => {
            assert_eq!(r.status_code, 200);
            assert!(r.body.is_empty());
            assert_eq!(header(&r, "Content-Type"), Some("text/html"));
        },
        RequestOutcome::Forward => panic!("expected an empty document"),
    }

    a.handle_as_image = true;
    match decide_request("ads.example.com/banner.gif", Some(&a)) {
        RequestOutcome::Respond(r) => {
            assert_eq!(header(&r, "Content-Type"), Some("image/gif"));
            assert_eq!(r.body.len(), 43);
        },
        RequestOutcome::Forward => panic!("expected an image"),
    }
}

#[test]
fn test_filter_variables_for() {
    let v = filter_variables_for("example.com/a/b", "10.0.0.1:5000");
    assert_eq!(v.host, "example.com");
    assert_eq!(v.path, "//a/b");
    assert_eq!(v.url, "http://example.com/a/b");
    assert_eq!(v.origin, "10.0.0.1:5000");
    let w = filter_variables_for("example.com", "10.0.0.1:5000");
    assert_eq!(w.host, "example.com");
    assert_eq!(w.path, "");
}

#[test]
fn test_apply_image_blocker_redirect() {
    let mut a = Action::default();
    a.block = true;
    a.handle_as_image = true;
    a.set_image_blocker = Some("http://blocker.example/img.png".to_string());
    let mut r = HttpResponse::with_status(200, "OK");
    r.set_body(b"GIF89a".to_vec());
    apply_image_blocker_redirect(&a, &mut r);
    assert_eq!(r.status_code, 302);
    assert_eq!(r.status_text, "Found");
    assert_eq!(header(&r, "Location"), Some("http://blocker.example/img.png"));
    assert_eq!(header(&r, "Content-Length"), Some("0"));
    assert!(r.body.is_empty());

    a.set_image_blocker = Some("blank".to_string());
    let mut s = HttpResponse::with_status(200, "OK");
    s.set_body(b"GIF89a".to_vec());
    apply_image_blocker_redirect(&a, &mut s);
    assert_eq!(s.status_code, 200);
    assert_eq!(s.body, b"GIF89a".to_vec());
}

#[test]
fn test_decode_response_body() {
    let text = b"Hello, World! Hello, World!".to_vec();
    let packed = compress(&text, CompressionAlgorithm::Gzip, COMPRESSION_LEVEL_DEFAULT).unwrap();
    let mut r = HttpResponse::with_status(200, "OK");
    r.set_header("Content-Encoding", "gzip");
    r.set_body(packed);
    decode_response_body(&mut r);
    assert_eq!(r.body, text);
    assert_eq!(header(&r, "Content-Encoding"), None);
    assert_eq!(header(&r, "Content-Length"), Some("27"));

    let mut broken = HttpResponse::with_status(200, "OK");
    broken.set_header("Content-Encoding", "deflate");
    broken.set_body(b"not deflate data at all".to_vec());
    let before = broken.body.clone();
    decode_response_body(&mut broken);
    assert_eq!(broken.body, before);
    assert_eq!(header(&broken, "Content-Encoding"), Some("deflate"));

    let mut plain = HttpResponse::with_status(200, "OK");
    plain.set_body(b"plain".to_vec());
    decode_response_body(&mut plain);
    assert_eq!(plain.body, b"plain".to_vec());
}

#[test]
fn test_content_checks() {
    let mut r = HttpResponse::with_status(200, "OK");
    r.set_header("Content-Type", "Text/HTML; charset=utf-8");
    assert!(!is_content_filterable(&r));
    r.set_body(b"<html></html>".to_vec());
    assert!(is_content_filterable(&r));
    r.set_header("Content-Type", "application/json");
    assert!(is_content_filterable(&r));
    r.set_header("Content-Type", "image/png");
    assert!(!is_content_filterable(&r));
    assert!(!looks_like_gif(&r));
    r.set_header("Content-Type", "IMAGE/GIF");
    assert!(looks_like_gif(&r));
    let mut g = HttpResponse::with_status(200, "OK");
    g.set_body(b"GIF89a....".to_vec());
    assert!(looks_like_gif(&g));
}

fn step_text(step: &ConnectStep) -> String {
    match step {
        ConnectStep::Socks5 { gateway, next_hop } => format!("socks5 {} {}", gateway, next_hop),
        ConnectStep::Socks4 { gateway, next_hop } => format!("socks4 {} {}", gateway, next_hop),
        ConnectStep::Gateway { gateway } => format!("gateway {}", gateway),
        ConnectStep::HttpProxy { proxy } => format!("proxy {}", proxy),
        ConnectStep::Direct { target } => format!("direct {}", target),
    }
}

#[test]
fn test_plan_connection() {
    let direct = spec(".", ForwardType::Direct, None, 0);
    assert_eq!(step_text(&plan_connection(&direct, "example.com", 80)), "direct example.com:80");

    let parent = spec(".", ForwardType::Http, Some("proxy.local"), 3128);
    assert_eq!(step_text(&plan_connection(&parent, "example.com", 80)), "proxy proxy.local:3128");

    let mut socks = spec(".", ForwardType::Socks5, None, 0);
    socks.gateway_host = Some("127.0.0.1".to_string());
    socks.gateway_port = 9050;
    assert_eq!(step_text(&plan_connection(&socks, "example.com", 443)), "socks5 127.0.0.1:9050 example.com:443");

    let mut socks4 = spec(".", ForwardType::Socks4a, Some("proxy.local"), 8080);
    socks4.gateway_host = Some("gw".to_string());
    socks4.gateway_port = 1080;
    assert_eq!(step_text(&plan_connection(&socks4, "example.com", 80)), "socks4 gw:1080 proxy.local:8080");
}

#[test]
fn test_connection_plan_and_timeout() {
    let mut config = Config::default();
    let (fs, step) = connection_plan(&config, "example.com", 8080);
    assert_eq!(fs.forward_type, ForwardType::Direct);
    assert_eq!(fs.pattern, "");
    assert_eq!(step_text(&step), "direct example.com:8080");

    config.forward_specs.push(spec(".example.com", ForwardType::Http, Some("proxy.local"), 3128));
    let (fs, step) = connection_plan(&config, "www.example.com", 80);
    assert_eq!(fs.forward_type, ForwardType::Http);
    assert_eq!(step_text(&step), "proxy proxy.local:3128");

    match connect_timeout_error("example.com", 80, 30) {
        PrivoxyError::Connection(m) => assert_eq!(m, "Connection to example.com:80 timed out after 30s"),
        _ => panic!("expected a connection error"),
    }
}

#[test]
fn test_read_step() {
    match read_step(b"GET / HTTP/1.1\r\nHost: example.com\r\n\r\n") {
        ReadStep::Request(r) => {
            assert_eq!(r.method, "GET");
            assert_eq!(r.host, "example.com");
        },
        _ => panic!("expected a request"),
    }
    assert!(matches!(read_step(b"GET / HTTP/1.1\r\nHost: exa"), ReadStep::NeedMore));
    assert!(matches!(read_step(b"\x01\x02 garbage\r\n\r\n"), ReadStep::Fail(_)));
}

#[test]
fn test_connect_refusal() {
    assert!(connect_refusal(None, 443).is_none());
    let mut a = Action::default();
    assert!(connect_refusal(Some(&a), 8443).is_none());
    a.limit_connect = Some("443, 8000-8100".to_string());
    assert!(connect_refusal(Some(&a), 443).is_none());
    assert!(connect_refusal(Some(&a), 8050).is_none());
    let r = connect_refusal(Some(&a), 22).unwrap();
    assert_eq!(r.status_code, 403);
    let body = String::from_utf8(r.body.clone()).unwrap();
    assert!(body.contains("CONNECT to port 22 is not allowed by limit-connect policy"));

    let c = cannot_connect_response("example.com", 81);
    assert_eq!(c.status_code, 502);
    assert!(String::from_utf8(c.body.clone()).unwrap().contains("Cannot connect to example.com:81"));
}
