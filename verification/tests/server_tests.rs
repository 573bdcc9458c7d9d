use privoxy::server::{access_denied_text, admit_connection, proxy_disabled_text, too_many_connections_text, Admission};

#[test]
fn test_admit_connection() {
    assert_eq!(admit_connection(0, 128, true), Admission::Serve);
    assert_eq!(admit_connection(127, 128, true), Admission::Serve);
    assert_eq!(admit_connection(128, 128, true), Admission::TooManyConnections);
    assert_eq!(admit_connection(128, 128, false), Admission::TooManyConnections);
    assert_eq!(admit_connection(3, 128, false), Admission::AccessDenied);
    assert_eq!(admit_connection(0, 0, true), Admission::TooManyConnections);
}

#[test]
fn test_refusal_texts() {
    assert!(too_many_connections_text().starts_with("HTTP/1.1 503 Service Unavailable\r\n"));
    assert!(too_many_connections_text().ends_with("\r\n\r\nToo many connections. Please try again later.\n"));
    assert_eq!(
        access_denied_text(),
        "HTTP/1.1 403 Forbidden\r\nContent-Type: text/plain\r\nConnection: close\r\n\r\nAccess denied.\n"
    );
    assert!(proxy_disabled_text().ends_with("Proxy is currently disabled.\n"));
}
