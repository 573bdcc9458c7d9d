use privoxy::action::ActionContext;
use privoxy::cgi::{apply_edit_submission, generate_actions_updated, route_request, CgiPage};
use privoxy::cgiedit::{EditableFile, FileLine, LineData};
use privoxy::config::{Action, Config};
use privoxy::connection::{
    apply_action_to_response, filter_response_body, filter_variables_for, ConnectAttempts,
};
use privoxy::content_filter::parse_filter_file;
use privoxy::error::PrivoxyError;
use privoxy::http::HttpResponse;
use privoxy::template::{template_parts, TemplatePart};
use privoxy::util::{bytes_to_hex, hex_to_bytes};

fn header<'a>(r: &'a HttpResponse, name: &str) -> Option<&'a str> {
    r.headers.iter().find(|(n, _)| n.eq_ignore_ascii_case(name)).map(|(_, v)| v.as_str())
}

fn pairs(p: &[(&str, &str)]) -> Vec<(String, String)> {
    p.iter().map(|(k, v)| (k.to_string(), v.to_string())).collect()
}

#[test]
fn test_hex_round_trip() {
    for b in [vec![], vec![0u8], vec![0x0a, 0xff, 0x10, 0x7f], (0u8..=255).collect::<Vec<u8>>()] {
        assert_eq!(hex_to_bytes(&bytes_to_hex(&b)), Some(b.clone()));
    }
    let v = hex_to_bytes("0A1fFF").unwrap();
    assert_eq!(v, vec![0x0a, 0x1f, 0xff]);
    assert_eq!(bytes_to_hex(&v), "0a1fff");
}

#[test]
fn test_delete_line_keeps_other_fields() {
    let mut f = EditableFile::new("user.action", 3);
    f.version = 77;
    f.newline = 1;
    f.lines.push(FileLine::new("{+block}".to_string()));
    f.lines.push(FileLine::new(".example.com".to_string()));
    assert!(f.delete_line(0).is_ok());
    assert!(f.delete_line(5).is_err());
    assert_eq!(f.lines.len(), 1);
    assert_eq!(f.identifier, 3);
    assert_eq!(f.version, 77);
    assert_eq!(f.newline, 1);
    assert_eq!(f.filename, "user.action");
}

#[test]
fn test_route_request_with_query() {
    assert_eq!(route_request(false, "/edit-actions-file", None, true, true, true), CgiPage::MissingQueryString);
    assert_eq!(
        route_request(false, "/edit-actions-file", Some("x=1"), true, true, true),
        CgiPage::MissingFileParameter
    );
    assert_eq!(
        route_request(false, "/edit-actions-file", Some("file"), true, true, true),
        CgiPage::MissingFileParameter
    );
    assert_eq!(
        route_request(false, "/edit-actions-file", Some("a=b&file=user.action"), true, true, true),
        CgiPage::EditActionsFile
    );
    assert_eq!(route_request(false, "/eass", Some("file=f&section1=1"), true, true, true), CgiPage::SwapSections);
    assert_eq!(
        route_request(false, "/eass", Some("file=f&section1=1&section2=4"), true, true, true),
        CgiPage::SwapSectionsNow
    );
    assert_eq!(route_request(false, "/eass", None, true, true, false), CgiPage::ErrorReferer);
    assert_eq!(route_request(false, "/", Some("file=x"), true, true, true), CgiPage::Main);
}

#[test]
fn test_resolve_paths() {
    let mut c = Config::default();
    c.confdir = None;
    c.logdir = None;
    c.actions_files = vec!["match-all.action".to_string(), "/abs/user.action".to_string()];
    c.filter_files = vec!["default.filter".to_string()];
    c.trust_files = vec![];
    c.log_file = Some("logfile".to_string());
    c.resolve_paths("/etc/privoxy/config");
    assert_eq!(c.confdir.as_deref(), Some("/etc/privoxy"));
    assert_eq!(c.actions_files, vec!["/etc/privoxy/match-all.action".to_string(), "/abs/user.action".to_string()]);
    assert_eq!(c.filter_files, vec!["/etc/privoxy/default.filter".to_string()]);
    assert_eq!(c.log_file.as_deref(), Some("/etc/privoxy/logfile"));

    let mut d = Config::default();
    d.confdir = Some("/conf".to_string());
    d.logdir = Some("/var/log/privoxy".to_string());
    d.log_file = Some("logfile".to_string());
    d.actions_files = vec!["a.action".to_string()];
    d.resolve_paths("config");
    assert_eq!(d.actions_files, vec!["/conf/a.action".to_string()]);
    assert_eq!(d.log_file.as_deref(), Some("/var/log/privoxy/logfile"));
}

#[test]
fn test_apply_action_to_response() {
    let mut a = Action::default();
    a.force_text_mode = true;
    let mut r = HttpResponse::with_status(200, "OK");
    r.set_header("Content-Type", "text/html");
    r.set_body(b"<b>x</b>".to_vec());
    let mut ctx = ActionContext::default();
    let vars = filter_variables_for("example.com/", "127.0.0.1");
    let config = Config::default();
    apply_action_to_response(&a, &mut r, &Vec::new(), &config, &mut ctx, &vars);
    assert_eq!(header(&r, "Content-Type"), Some("text/plain"));
    assert_eq!(r.status_code, 200);
    assert!(ctx.tags.is_empty());

    let mut b = Action::default();
    b.block = true;
    b.handle_as_image = true;
    b.set_image_blocker = Some("http://blocker/".to_string());
    let mut s = HttpResponse::with_status(200, "OK");
    s.set_body(b"GIF89a".to_vec());
    apply_action_to_response(&b, &mut s, &Vec::new(), &config, &mut ctx, &vars);
    assert_eq!(s.status_code, 302);
    assert_eq!(header(&s, "Location"), Some("http://blocker/"));
}

#[test]
fn test_filter_response_body() {
    let filters = parse_filter_file("FILTER: demo Replaces foo\ns/foo/bar/g\n").unwrap();
    let config = Config::default();
    let vars = filter_variables_for("example.com/", "127.0.0.1");
    let mut a = Action::default();
    a.filter_names = vec!["demo".to_string()];
    let mut ctx = ActionContext::default();

    let mut r = HttpResponse::with_status(200, "OK");
    r.set_header("Content-Type", "text/html");
    r.set_body(b"foo and foo".to_vec());
    filter_response_body(&mut r, &filters, &config, Some(&a), &mut ctx, &vars);
    assert_eq!(r.body, b"bar and bar".to_vec());

    let mut img = HttpResponse::with_status(200, "OK");
    img.set_header("Content-Type", "image/png");
    img.set_body(b"foo".to_vec());
    filter_response_body(&mut img, &filters, &config, Some(&a), &mut ctx, &vars);
    assert_eq!(img.body, b"foo".to_vec());

    let mut none = HttpResponse::with_status(200, "OK");
    none.set_header("Content-Type", "text/plain");
    none.set_body(b"foo".to_vec());
    filter_response_body(&mut none, &filters, &config, None, &mut ctx, &vars);
    assert_eq!(none.body, b"foo".to_vec());
}

#[test]
fn test_connect_attempts() {
    let mut t = ConnectAttempts::new(2);
    assert!(t.record_failure(PrivoxyError::Connection("first".to_string())));
    assert!(t.record_failure(PrivoxyError::Connection("second".to_string())));
    assert!(!t.record_failure(PrivoxyError::Connection("third".to_string())));
    assert_eq!(t.attempt, 2);
    match t.final_error() {
        PrivoxyError::Connection(m) => assert_eq!(m, "third"),
        _ => panic!("expected the last error"),
    }
    match ConnectAttempts::new(0).final_error() {
        PrivoxyError::Connection(m) => assert_eq!(m, "Unknown connection error"),
        _ => panic!("expected a connection error"),
    }
    let mut once = ConnectAttempts::new(0);
    assert!(!once.record_failure(PrivoxyError::Timeout));
}

#[test]
fn test_apply_edit_submission() {
    let mut f = EditableFile::new("user.action", 0);
    f.lines.push(FileLine::new("{+block}".to_string()));
    f.lines.push(FileLine::new(".example.com".to_string()));
    let params = pairs(&[("file", "user.action"), ("line", "0"), ("block", "on"), ("block_reason", "ads")]);
    assert!(apply_edit_submission(&mut f, &params));
    match &f.lines[0].data {
        LineData::Action(a) => assert!(a.starts_with("+block{ads} -handle-as-image")),
        _ => panic!("expected actions"),
    }
    let far = pairs(&[("line", "9")]);
    assert!(!apply_edit_submission(&mut f, &far));
    let page = generate_actions_updated("user.action");
    assert!(page.contains("content=\"2;url=/edit-actions-file?file=user.action\""));
    assert!(page.contains("<h1>Actions updated successfully</h1>"));
}

#[test]
fn test_template_parts() {
    let parts = template_parts("# comment\n#include header.html\nline one\r\nline two", false);
    let shown: Vec<String> = parts
        .iter()
        .map(|p| match p {
            TemplatePart::Text(t) => format!("T:{}", t),
            TemplatePart::Include(n) => format!("I:{}", n),
        })
        .collect();
    assert_eq!(shown, vec!["I:header.html", "T:line one\n", "T:line two\n"]);
    let nested = template_parts("#include x\ntext\n", true);
    assert_eq!(nested.len(), 1);
}

fn actions_file() -> EditableFile {
    let mut f = EditableFile::new("user.action", 0);
    let raw: Vec<String> = vec!["{+block}".to_string(), ".ads.example".to_string(), "{-block}".to_string()];
    f.lines = f.process_raw_lines(raw);
    f.parse().unwrap();
    f
}

#[test]
fn test_apply_url_edit() {
    let mut f = actions_file();
    let add = pairs(&[("action", "add_url"), ("line", "0"), ("url_pattern", "  .tracker.example ")]);
    let m = privoxy::cgi::apply_url_edit(&mut f, &add).unwrap();
    assert_eq!(m, "Added URL rule: .tracker.example");
    assert_eq!(f.lines.len(), 4);
    assert_eq!(f.lines[1].unprocessed, ".tracker.example");
    assert!(privoxy::cgi::url_edit_should_save(&m));

    let bad = pairs(&[("action", "add_url"), ("line", "1"), ("url_pattern", "x.example")]);
    let m = privoxy::cgi::apply_url_edit(&mut f, &bad).unwrap();
    assert_eq!(m, "Failed to add URL rule: Can only insert URL pattern after an action header");
    assert!(!privoxy::cgi::url_edit_should_save(&m));

    let empty = pairs(&[("action", "add_url"), ("line", "0"), ("url_pattern", "   ")]);
    assert!(privoxy::cgi::apply_url_edit(&mut f, &empty).is_none());

    let edit = pairs(&[("action", "edit_url"), ("line", "1"), ("url_pattern", "new.example")]);
    assert_eq!(privoxy::cgi::apply_url_edit(&mut f, &edit).unwrap(), "Updated URL rule to: new.example");
    assert_eq!(f.lines[1].raw, "new.example\n");

    let not_url = pairs(&[("action", "edit_url"), ("line", "0"), ("url_pattern", "y")]);
    assert_eq!(privoxy::cgi::apply_url_edit(&mut f, &not_url).unwrap(), "Line is not a URL pattern");

    let far = pairs(&[("action", "remove_url"), ("line", "9")]);
    assert_eq!(
        privoxy::cgi::apply_url_edit(&mut f, &far).unwrap(),
        "Failed to remove URL rule: Line index 9 out of range"
    );
    let rm = pairs(&[("action", "remove_section"), ("line", "3")]);
    assert_eq!(privoxy::cgi::apply_url_edit(&mut f, &rm).unwrap(), "Action section removed successfully");
    assert_eq!(f.lines.len(), 3);
    let swap = pairs(&[("action", "swap_sections")]);
    assert_eq!(privoxy::cgi::apply_url_edit(&mut f, &swap).unwrap(), "Unknown action");

    let page = privoxy::cgi::generate_action_result("user.action", "done");
    assert!(page.contains("<title>Action Result</title>"));
    assert!(page.contains("<p>done</p>"));
}

#[test]
fn test_direct_pages() {
    let mut req = privoxy::http::HttpRequest::new();
    req.cmd = "GET /show-request HTTP/1.1".to_string();
    req.headers.push(("Host".to_string(), "p.p".to_string()));
    let page = privoxy::pages::generate_show_request_direct(&req);
    assert_eq!(
        page,
        "<!DOCTYPE html><html><head><title>Show Request</title></head><body><h1>Request Received:</h1><pre>GET /show-request HTTP/1.1</pre><h2>Headers:</h2><ul><li><b>Host:</b> p.p</li></ul></body></html>"
    );
    assert!(privoxy::pages::generate_error_referer("/toggle")
        .contains("Privoxy denied access to /toggle because the referrer is not trustworthy."));
    assert!(privoxy::pages::generate_show_url_info_direct().contains("<title>URL Info</title>"));
}
