use privoxy::http::{
    create_connect_response, create_error_response, get_all_headers, get_header, set_header, HttpRequest, HttpResponse,
};

#[test]
fn test_header_order_and_multiples() {
    let mut resp = HttpResponse::new();
    resp.add_header("Set-Cookie", "a=1");
    resp.add_header("X-Custom", "first");
    resp.add_header("Set-Cookie", "b=2");
    resp.add_header("X-Custom", "second");

    assert_eq!(resp.headers.len(), 4);

    assert_eq!(resp.headers[0].0, "Set-Cookie");
    assert_eq!(resp.headers[0].1, "a=1");
    assert_eq!(resp.headers[1].0, "X-Custom");
    assert_eq!(resp.headers[2].0, "Set-Cookie");
    assert_eq!(resp.headers[2].1, "b=2");

    let cookies = get_all_headers(&resp.headers, "Set-Cookie");
    assert_eq!(cookies.len(), 2);
    assert_eq!(cookies[0], "a=1");
    assert_eq!(cookies[1], "b=2");

    set_header(&mut resp.headers, "X-Custom", "replaced");
    assert_eq!(get_all_headers(&resp.headers, "X-Custom").len(), 1);
    assert_eq!(get_header(&resp.headers, "X-Custom").unwrap(), "replaced");

    let bytes = resp.to_bytes();
    let s = String::from_utf8_lossy(&bytes);
    assert!(s.contains("Set-Cookie: a=1\r\n"));
    assert!(s.contains("Set-Cookie: b=2\r\n"));

    let pos1 = s.find("Set-Cookie: a=1").unwrap();
    let pos2 = s.find("Set-Cookie: b=2").unwrap();
    assert!(pos1 < pos2);
}

#[test]
fn test_request_parsing_preserves_order() {
    let raw = b"GET / HTTP/1.1\r\nHost: example.com\r\nX-A: 1\r\nX-B: 2\r\nX-A: 3\r\n\r\n";
    let req = HttpRequest::parse(raw).unwrap();

    assert_eq!(req.headers.len(), 4);
    assert_eq!(req.headers[0].0, "Host");
    assert_eq!(req.headers[1].0, "X-A");
    assert_eq!(req.headers[1].1, "1");
    assert_eq!(req.headers[2].0, "X-B");
    assert_eq!(req.headers[3].0, "X-A");
    assert_eq!(req.headers[3].1, "3");
}

#[test]
fn test_request_parsing_populates_cmd() {
    let raw = b"GET http://example.com/ HTTP/1.1\r\nHost: example.com\r\n\r\n";
    let req = HttpRequest::parse(raw).unwrap();

    assert_eq!(req.cmd, "GET http://example.com/ HTTP/1.1");
    assert_eq!(req.method, "GET");
    assert_eq!(req.path, "http://example.com/");
}

#[test]
fn incomplete_request_is_an_error() {
    assert!(HttpRequest::parse(b"GET / HTTP/1.1\r\nHost: exa").is_err());
}

#[test]
fn response_round_trip() {
    let raw = b"HTTP/1.1 404 Not Found\r\nContent-Length: 2\r\n\r\nhi";
    let resp = HttpResponse::parse(raw).unwrap();
    assert_eq!(resp.status_code, 404);
    assert_eq!(resp.status_text, "Not Found");
    assert_eq!(resp.body, b"hi".to_vec());
    let err = create_error_response(500, "boom");
    assert_eq!(err.status_code, 500);
    let connect = create_connect_response();
    assert_eq!(connect.status_code, 200);
}
