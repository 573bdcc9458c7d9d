//! The fixed pages of the web interface, and the plain page that the
//! interface shows for a message.

use vstd::prelude::*;
use crate::text::{own, push_str};
use crate::cgi::CgiPage;

verus! {

/// The page for an address of the interface that does not exist.
pub open spec fn not_found_page() -> Seq<char> {
    "<!DOCTYPE html>\n<html lang=\"en\">\n<head>\n    <meta charset=\"UTF-8\">\n    <title>404 Not Found</title>\n</head>\n<body>\n    <h1>404 Not Found</h1>\n    <p>The requested URL was not found on this server.</p>\n    <p><small>Privoxy CGI Error</small></p>\n</body>\n</html>"@
}

/// The page for an address of the interface that does not exist.
pub fn generate_404_page() -> (r: String)
    ensures
        r@ == not_found_page(),
{
    own("<!DOCTYPE html>\n<html lang=\"en\">\n<head>\n    <meta charset=\"UTF-8\">\n    <title>404 Not Found</title>\n</head>\n<body>\n    <h1>404 Not Found</h1>\n    <p>The requested URL was not found on this server.</p>\n    <p><small>Privoxy CGI Error</small></p>\n</body>\n</html>")
}

/// The form that switches the proxy off.
pub open spec fn toggle_page() -> Seq<char> {
    "<!DOCTYPE html>\n<html>\n<head>\n    <title>Toggle Privoxy - Privoxy</title>\n    <link rel=\"stylesheet\" href=\"/cgi-style.css\">\n</head>\n<body>\n    <h1>Toggle Privoxy</h1>\n    <form action=\"/toggle\" method=\"POST\">\n        <p>Privoxy is currently <strong>enabled</strong>.</p>\n        <p>Click the button below to disable Privoxy:</p>\n        <button type=\"submit\">Disable Privoxy</button>\n    </form>\n    <p><a href=\"/\">Back to main page</a></p>\n</body>\n</html>"@
}

/// The form that switches the proxy off.
pub fn generate_toggle() -> (r: String)
    ensures
        r@ == toggle_page(),
{
    own("<!DOCTYPE html>\n<html>\n<head>\n    <title>Toggle Privoxy - Privoxy</title>\n    <link rel=\"stylesheet\" href=\"/cgi-style.css\">\n</head>\n<body>\n    <h1>Toggle Privoxy</h1>\n    <form action=\"/toggle\" method=\"POST\">\n        <p>Privoxy is currently <strong>enabled</strong>.</p>\n        <p>Click the button below to disable Privoxy:</p>\n        <button type=\"submit\">Disable Privoxy</button>\n    </form>\n    <p><a href=\"/\">Back to main page</a></p>\n</body>\n</html>")
}

/// The form that shuts the proxy down.
pub open spec fn shutdown_page() -> Seq<char> {
    "<!DOCTYPE html>\n<html>\n<head>\n    <title>Shutdown Privoxy - Privoxy</title>\n    <link rel=\"stylesheet\" href=\"/cgi-style.css\">\n</head>\n<body>\n    <h1>Shutdown Privoxy</h1>\n    <form action=\"/die\" method=\"POST\">\n        <p>Are you sure you want to shut down Privoxy?</p>\n        <p>This will stop all proxy services.</p>\n        <button type=\"submit\">Shutdown Privoxy</button>\n    </form>\n    <p><a href=\"/\">Cancel and return to main page</a></p>\n</body>\n</html>"@
}

/// The form that shuts the proxy down.
pub fn generate_die() -> (r: String)
    ensures
        r@ == shutdown_page(),
{
    own("<!DOCTYPE html>\n<html>\n<head>\n    <title>Shutdown Privoxy - Privoxy</title>\n    <link rel=\"stylesheet\" href=\"/cgi-style.css\">\n</head>\n<body>\n    <h1>Shutdown Privoxy</h1>\n    <form action=\"/die\" method=\"POST\">\n        <p>Are you sure you want to shut down Privoxy?</p>\n        <p>This will stop all proxy services.</p>\n        <button type=\"submit\">Shutdown Privoxy</button>\n    </form>\n    <p><a href=\"/\">Cancel and return to main page</a></p>\n</body>\n</html>")
}

/// The short user manual the interface serves.
pub open spec fn user_manual_page() -> Seq<char> {
    "<!DOCTYPE html>\n<html>\n<head>\n    <title>User Manual - Privoxy</title>\n    <link rel=\"stylesheet\" href=\"/cgi-style.css\">\n</head>\n<body>\n    <h1>Privoxy User Manual</h1>\n    <p>Welcome to the Privoxy User Manual.</p>\n    <h2>Contents</h2>\n    <ul>\n        <li><a href=\"#introduction\">Introduction</a></li>\n        <li><a href=\"#configuration\">Configuration</a></li>\n        <li><a href=\"#actions\">Actions Files</a></li>\n        <li><a href=\"#filters\">Filters</a></li>\n        <li><a href=\"#troubleshooting\">Troubleshooting</a></li>\n    </ul>\n    \n    <h2 id=\"introduction\">Introduction</h2>\n    <p>Privoxy is a non-caching web proxy with advanced filtering capabilities.</p>\n    \n    <h2 id=\"configuration\">Configuration</h2>\n    <p>Privoxy is configured through text files in the configuration directory.</p>\n    \n    <h2 id=\"actions\">Actions Files</h2>\n    <p>Actions files define what Privoxy does with which URLs.</p>\n    \n    <h2 id=\"filters\">Filters</h2>\n    <p>Filters modify web page content on the fly.</p>\n    \n    <h2 id=\"troubleshooting\">Troubleshooting</h2>\n    <p>Check the log file for diagnostic information.</p>\n    \n    <p><a href=\"/\">Back to main page</a></p>\n</body>\n</html>"@
}

/// The short user manual the interface serves.
pub fn generate_user_manual() -> (r: String)
    ensures
        r@ == user_manual_page(),
{
    own("<!DOCTYPE html>\n<html>\n<head>\n    <title>User Manual - Privoxy</title>\n    <link rel=\"stylesheet\" href=\"/cgi-style.css\">\n</head>\n<body>\n    <h1>Privoxy User Manual</h1>\n    <p>Welcome to the Privoxy User Manual.</p>\n    <h2>Contents</h2>\n    <ul>\n        <li><a href=\"#introduction\">Introduction</a></li>\n        <li><a href=\"#configuration\">Configuration</a></li>\n        <li><a href=\"#actions\">Actions Files</a></li>\n        <li><a href=\"#filters\">Filters</a></li>\n        <li><a href=\"#troubleshooting\">Troubleshooting</a></li>\n    </ul>\n    \n    <h2 id=\"introduction\">Introduction</h2>\n    <p>Privoxy is a non-caching web proxy with advanced filtering capabilities.</p>\n    \n    <h2 id=\"configuration\">Configuration</h2>\n    <p>Privoxy is configured through text files in the configuration directory.</p>\n    \n    <h2 id=\"actions\">Actions Files</h2>\n    <p>Actions files define what Privoxy does with which URLs.</p>\n    \n    <h2 id=\"filters\">Filters</h2>\n    <p>Filters modify web page content on the fly.</p>\n    \n    <h2 id=\"troubleshooting\">Troubleshooting</h2>\n    <p>Check the log file for diagnostic information.</p>\n    \n    <p><a href=\"/\">Back to main page</a></p>\n</body>\n</html>")
}

/// The `robots.txt` of the interface: no robot may index it.
pub open spec fn robots_txt() -> Seq<char> {
    "User-agent: *\nDisallow: /\n"@
}

/// The `robots.txt` of the interface: no robot may index it.
pub fn generate_robots_txt() -> (r: String)
    ensures
        r@ == robots_txt(),
{
    own("User-agent: *\nDisallow: /\n")
}

/// The OpenSearch description of the URL information page.
pub open spec fn url_info_osd() -> Seq<char> {
    "<?xml version=\"1.0\" encoding=\"UTF-8\"?>\n<OpenSearchDescription xmlns=\"http://a9.com/-/spec/opensearch/1.1/\">\n  <ShortName>Privoxy URL Info</ShortName>\n  <Description>Look up URL information</Description>\n</OpenSearchDescription>"@
}

/// The OpenSearch description of the URL information page.
pub fn generate_url_info_osd() -> (r: String)
    ensures
        r@ == url_info_osd(),
{
    own("<?xml version=\"1.0\" encoding=\"UTF-8\"?>\n<OpenSearchDescription xmlns=\"http://a9.com/-/spec/opensearch/1.1/\">\n  <ShortName>Privoxy URL Info</ShortName>\n  <Description>Look up URL information</Description>\n</OpenSearchDescription>")
}

/// The proxy auto-configuration script: every request goes through the proxy.
pub open spec fn wpad_script() -> Seq<char> {
    "function FindProxyForURL(url, host) { return \"PROXY 127.0.0.1:8118\"; }"@
}

/// The proxy auto-configuration script: every request goes through the proxy.
pub fn generate_wpad() -> (r: String)
    ensures
        r@ == wpad_script(),
{
    own("function FindProxyForURL(url, host) { return \"PROXY 127.0.0.1:8118\"; }")
}

/// A plain page with `title` as its title and heading, and `content` as
/// its one paragraph.
pub open spec fn simple_page(title: Seq<char>, content: Seq<char>) -> Seq<char> {
    "<!DOCTYPE html>\n<html lang=\"en\">\n<head>\n    <meta charset=\"UTF-8\">\n    <title>"@ + title + "</title>\n</head>\n<body>\n    <h1>"@ + title + "</h1>\n    <p>"@ + content
        + "</p>\n    <p><small>This page is a placeholder. Full implementation coming soon.</small></p>\n</body>\n</html>"@
}

/// A plain page with `title` as its title and heading, and `content` as
/// its one paragraph.
pub fn generate_simple_page(title: &str, content: &str) -> (r: String)
    ensures
        r@ == simple_page(title@, content@),
{
    let mut r = own("<!DOCTYPE html>\n<html lang=\"en\">\n<head>\n    <meta charset=\"UTF-8\">\n    <title>");
    push_str(&mut r, title);
    push_str(&mut r, "</title>\n</head>\n<body>\n    <h1>");
    push_str(&mut r, title);
    push_str(&mut r, "</h1>\n    <p>");
    push_str(&mut r, content);
    push_str(&mut r, "</p>\n    <p><small>This page is a placeholder. Full implementation coming soon.</small></p>\n</body>\n</html>");
    r
}

/// The message of the page shown where a feature of the interface is
/// switched off.
pub open spec fn disabled_message(feature: Seq<char>) -> Seq<char> {
    "Access to "@ + feature + " is disabled in the configuration."@
}

/// The page shown where `feature` is switched off in the configuration.
pub fn generate_error_disabled(feature: &str) -> (r: String)
    ensures
        r@ == simple_page("Feature Disabled"@, disabled_message(feature@)),
{
    let mut m = own("Access to ");
    push_str(&mut m, feature);
    push_str(&mut m, " is disabled in the configuration.");
    generate_simple_page("Feature Disabled", m.as_str())
}

/// The stand-in page for the icon: `Default` for the interface's own icon,
/// `Error` for the one of an error page.
pub open spec fn favicon_page(default: bool) -> Seq<char> {
    "<!DOCTYPE html>\n<html><head><title>Favicon</title></head>\n<body><h1>Favicon "@ + (if default { "Default"@ } else { "Error"@ }) + "</h1></body></html>"@
}

/// The stand-in page for the icon.
pub fn generate_favicon(default: bool) -> (r: String)
    ensures
        r@ == favicon_page(default),
{
    let mut r = own("<!DOCTYPE html>\n<html><head><title>Favicon</title></head>\n<body><h1>Favicon ");
    if default {
        push_str(&mut r, "Default");
    } else {
        push_str(&mut r, "Error");
    }
    push_str(&mut r, "</h1></body></html>");
    r
}


/// The text of the pages whose content is fixed: the toggle form, the
/// manual, the pages for a switched-off feature and the missing page.
/// Nothing for a page that is made from the proxy's state.
pub open spec fn fixed_page(page: CgiPage) -> Option<Seq<char>> {
    match page {
        CgiPage::Toggle => Some(toggle_page()),
        CgiPage::UserManual => Some(user_manual_page()),
        CgiPage::NotFound => Some(not_found_page()),
        CgiPage::ToggleDisabled => Some(simple_page("Feature Disabled"@, disabled_message("remote toggle"@))),
        CgiPage::EditingDisabled => Some(simple_page("Feature Disabled"@, disabled_message("editing actions"@))),
        CgiPage::MissingQueryString => Some(simple_page("Error"@, "Missing query string"@)),
        CgiPage::MissingFileParameter => Some(simple_page("Error"@, "Missing file parameter"@)),
        _ => None,
    }
}

/// The text of a page whose content is fixed (see `fixed_page`).
pub fn fixed_page_text(page: CgiPage) -> (r: Option<String>)
    ensures
        match fixed_page(page) {
            Some(t) => r matches Some(x) && x@ == t,
            None => r is None,
        },
{
    match page {
        CgiPage::Toggle => Some(generate_toggle()),
        CgiPage::UserManual => Some(generate_user_manual()),
        CgiPage::NotFound => Some(generate_404_page()),
        CgiPage::ToggleDisabled => Some(generate_error_disabled("remote toggle")),
        CgiPage::EditingDisabled => Some(generate_error_disabled("editing actions")),
        CgiPage::MissingQueryString => Some(generate_simple_page("Error", "Missing query string")),
        CgiPage::MissingFileParameter => Some(generate_simple_page("Error", "Missing file parameter")),
        _ => None,
    }
}


/// The list items for request headers: each `<li><b>NAME:</b> VALUE</li>`.
pub open spec fn header_items(h: Seq<(Seq<char>, Seq<char>)>) -> Seq<char>
    decreases h.len(),
{
    if h.len() == 0 {
        Seq::empty()
    } else {
        header_items(h.drop_last()) + "<li><b>"@ + h.last().0 + ":</b> "@ + h.last().1 + "</li>"@
    }
}

/// The page that shows the request line and the headers of a request, as
/// they came.
pub open spec fn show_request_page(cmd: Seq<char>, h: Seq<(Seq<char>, Seq<char>)>) -> Seq<char> {
    "<!DOCTYPE html><html><head><title>Show Request</title></head><body>"@ + "<h1>Request Received:</h1><pre>"@
        + cmd + "</pre>"@ + "<h2>Headers:</h2><ul>"@ + header_items(h) + "</ul></body></html>"@
}

/// The page that shows `req` as it came.
pub fn generate_show_request_direct(req: &crate::http::HttpRequest) -> (r: String)
    ensures
        r@ == show_request_page(req.cmd@, crate::http::header_view(req.headers@)),
{
    let mut r = own("<!DOCTYPE html><html><head><title>Show Request</title></head><body>");
    push_str(&mut r, "<h1>Request Received:</h1><pre>");
    push_str(&mut r, req.cmd.as_str());
    push_str(&mut r, "</pre>");
    push_str(&mut r, "<h2>Headers:</h2><ul>");
    let ghost start = r@;
    let ghost hv = crate::http::header_view(req.headers@);
    let mut i: usize = 0;
    while i < req.headers.len()
        invariant
            i <= req.headers@.len(),
            hv == crate::http::header_view(req.headers@),
            r@ == start + header_items(hv.take(i as int)),
        decreases req.headers.len() - i,
    {
        assert(hv.take(i + 1).drop_last() =~= hv.take(i as int));
        assert(hv.take(i + 1).last() == (req.headers@[i as int].0@, req.headers@[i as int].1@));
        push_str(&mut r, "<li><b>");
        push_str(&mut r, req.headers[i].0.as_str());
        push_str(&mut r, ":</b> ");
        push_str(&mut r, req.headers[i].1.as_str());
        push_str(&mut r, "</li>");
        i += 1;
    }
    assert(hv.take(hv.len() as int) =~= hv);
    push_str(&mut r, "</ul></body></html>");
    r
}

/// The URL information page of the proxy's own dispatcher.
pub fn generate_show_url_info_direct() -> (r: String)
    ensures
        r@ == simple_page("URL Info"@, "URL information features are currently being synchronized."@),
{
    generate_simple_page("URL Info", "URL information features are currently being synchronized.")
}

/// The message of the page for a request whose referrer is not trusted.
pub open spec fn referer_message(uri: Seq<char>) -> Seq<char> {
    "Privoxy denied access to "@ + uri + " because the referrer is not trustworthy."@
}

/// The page for a request to `uri` whose referrer is not trusted.
pub fn generate_error_referer(uri: &str) -> (r: String)
    ensures
        r@ == simple_page("CGI Referer Error"@, referer_message(uri@)),
{
    let mut m = own("Privoxy denied access to ");
    push_str(&mut m, uri);
    push_str(&mut m, " because the referrer is not trustworthy.");
    generate_simple_page("CGI Referer Error", m.as_str())
}

} // verus!
