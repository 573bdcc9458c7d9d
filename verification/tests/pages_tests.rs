use privoxy::cgi::{interface_page_response, CgiPage};
use privoxy::pages::{
    fixed_page_text, generate_404_page, generate_die, generate_error_disabled, generate_favicon, generate_robots_txt,
    generate_simple_page, generate_toggle, generate_url_info_osd, generate_user_manual, generate_wpad,
};

#[test]
fn test_generate_404_page() {
    let html = generate_404_page();

    assert!(html.contains("404 Not Found"));
    assert!(html.contains("<!DOCTYPE html>"));
}

#[test]
fn test_generate_user_manual() {
    let html = generate_user_manual();

    // Should return some valid HTML
    assert!(html.contains("<!DOCTYPE html>") || html.contains("<html"));
}

#[test]
fn test_generate_toggle() {
    let html = generate_toggle();

    assert!(html.contains("Toggle Privoxy"));
}

#[test]
fn test_generate_die() {
    let html = generate_die();
    assert!(html.contains("Shutdown Privoxy"));
}

#[test]
fn test_generate_simple_page() {
    let html = generate_simple_page("Title", "Some text");
    assert!(html.starts_with("<!DOCTYPE html>"));
    assert!(html.contains("<title>Title</title>"));
    assert!(html.contains("<h1>Title</h1>"));
    assert!(html.contains("<p>Some text</p>"));
    assert!(html.ends_with("</html>"));
}

#[test]
fn test_generate_error_disabled() {
    let html = generate_error_disabled("remote toggle");
    assert!(html.contains("<title>Feature Disabled</title>"));
    assert!(html.contains("Access to remote toggle is disabled in the configuration."));
}

#[test]
fn test_fixed_texts() {
    assert_eq!(generate_robots_txt(), "User-agent: *\nDisallow: /\n");
    assert!(generate_wpad().contains("PROXY 127.0.0.1:8118"));
    assert!(generate_url_info_osd().contains("<ShortName>Privoxy URL Info</ShortName>"));
    assert!(generate_favicon(true).contains("Favicon Default"));
    assert!(generate_favicon(false).contains("Favicon Error"));
}

#[test]
fn test_fixed_page_text() {
    assert_eq!(fixed_page_text(CgiPage::Toggle), Some(generate_toggle()));
    assert_eq!(fixed_page_text(CgiPage::NotFound), Some(generate_404_page()));
    assert_eq!(
        fixed_page_text(CgiPage::EditingDisabled),
        Some(generate_error_disabled("editing actions"))
    );
    assert_eq!(fixed_page_text(CgiPage::Main), None);
    assert_eq!(fixed_page_text(CgiPage::Status), None);
}

#[test]
fn test_interface_page_response() {
    let r = interface_page_response("<p>hi</p>");
    assert_eq!(r.status_code, 200);
    assert_eq!(r.status_text, "OK");
    assert_eq!(
        r.headers,
        vec![
            ("Content-Type".to_string(), "text/html; charset=utf-8".to_string()),
            ("Content-Length".to_string(), "9".to_string())
        ]
    );
    assert_eq!(r.body, b"<p>hi</p>".to_vec());
}
