use privoxy::util::{base64_decode, base64_encode, format_timestamp, pick_from_range};
use privoxy::feature::{get_https_inspection_backend, is_https_inspection_enabled};
use privoxy::util::{
    bindup, bytes_to_hex, chomp, get_file_extension, hash_string, hex_to_bytes, is_html_content_type,
    is_image_content_type, is_safe_path, is_text_content_type, join_path, make_path, parse_content_type,
    parse_host_port, sanitize_header_value, ssplit, ssplit_n, strcmpic, string_tolower, string_toupper,
    strncmpic, truncate_string, wildcard_match,
};

#[test]
fn test_hash_string() {
    let hash1 = hash_string("test");
    let hash2 = hash_string("test");
    let hash3 = hash_string("different");

    assert_eq!(hash1, hash2);
    assert_ne!(hash1, hash3);
}

#[test]
fn test_strcmpic() {
    assert_eq!(strcmpic("test", "test"), 0);
    assert_eq!(strcmpic("TEST", "test"), 0);
    assert!(strcmpic("abc", "def") < 0);
    assert!(strcmpic("def", "abc") > 0);
}

#[test]
fn test_strncmpic() {
    assert_eq!(strncmpic("test", "test", 4), 0);
    assert_eq!(strncmpic("TEST", "test", 4), 0);
    assert_eq!(strncmpic("abc", "def", 3), -3);
    assert_eq!(strncmpic("abc", "abcdef", 3), 0);
}

#[test]
fn test_chomp() {
    assert_eq!(chomp("  test  "), "test");
    assert_eq!(chomp("test"), "test");
    assert_eq!(chomp("  test"), "test");
    assert_eq!(chomp("test  "), "test");
}

#[test]
fn test_string_toupper() {
    assert_eq!(string_toupper("test"), "TEST");
    assert_eq!(string_toupper("Test"), "TEST");
}

#[test]
fn test_string_tolower() {
    assert_eq!(string_tolower("TEST"), "test");
    assert_eq!(string_tolower("Test"), "test");
}

#[test]
fn test_bindup() {
    assert_eq!(bindup("hello", 3), "hel");
    assert_eq!(bindup("hello", 10), "hello");
}

#[test]
fn test_make_path() {
    assert_eq!(make_path("/dir", "file.txt"), "/dir/file.txt");
}

#[test]
fn test_ssplit() {
    let result = ssplit("hello world test", None);
    assert_eq!(result, vec!["hello", "world", "test"]);

    let result = ssplit("hello,world,test", Some(","));
    assert_eq!(result, vec!["hello", "world", "test"]);

    let result = ssplit("  hello   world  ", None);
    assert_eq!(result, vec!["hello", "world"]);

    let result = ssplit("", None);
    assert!(result.is_empty());
}

#[test]
fn test_ssplit_n() {
    let result = ssplit_n("hello world test foo bar", None, 3);
    assert_eq!(result, vec!["hello", "world", "test"]);

    let result = ssplit_n("a,b,c,d,e", Some(","), 2);
    assert_eq!(result, vec!["a", "b"]);
}

#[test]
fn sanitize_removes_line_breaks() {
    assert_eq!(sanitize_header_value("a\r\nb\nc"), "abc");
}

#[test]
fn truncate_keeps_short_and_cuts_long() {
    assert_eq!(truncate_string("hello", 10), "hello");
    assert_eq!(truncate_string("hello world", 8), "hello wo...");
}

#[test]
fn content_type_parts() {
    let (mime, charset) = parse_content_type("text/html; charset=UTF-8");
    assert_eq!(mime, "text/html");
    assert_eq!(charset, Some("UTF-8".to_string()));
    assert!(is_text_content_type("text/plain"));
    assert!(is_html_content_type("text/html; charset=utf-8"));
    assert!(is_image_content_type("image/png"));
    assert!(!is_image_content_type("text/html"));
}

#[test]
fn hex_round_trip() {
    let bytes = vec![0u8, 15, 171, 255];
    let hex = bytes_to_hex(&bytes);
    assert_eq!(hex, "000fabff");
    assert_eq!(hex_to_bytes(&hex), Some(bytes));
    assert_eq!(hex_to_bytes("abc"), None);
    assert_eq!(hex_to_bytes("zz"), None);
}

#[test]
fn wildcard_patterns() {
    assert!(wildcard_match("*.example.com", "www.example.com"));
    assert!(wildcard_match("a?c", "abc"));
    assert!(!wildcard_match("a?c", "abbc"));
}

#[test]
fn host_port_and_paths() {
    assert_eq!(parse_host_port("example.com:8080"), Some(("example.com".to_string(), 8080)));
    assert_eq!(parse_host_port("example.com:http"), None);
    assert_eq!(join_path("/etc", "privoxy"), "/etc/privoxy");
    assert_eq!(get_file_extension("file.tar.gz"), Some("gz"));
    assert_eq!(get_file_extension("README"), None);
    assert!(is_safe_path("dir/file"));
    assert!(!is_safe_path("../etc/passwd"));
}

#[test]
fn base64_and_time_and_random() {
    assert_eq!(base64_encode(b"hello"), "aGVsbG8=");
    assert_eq!(base64_decode("aGVsbG8="), Some(b"hello".to_vec()));
    assert_eq!(base64_decode("not base64!"), None);
    assert_eq!(format_timestamp(0), "1970-01-01 00:00:00");
    assert_eq!(format_timestamp(86_400 + 3_661), "1970-01-02 01:01:01");
    for _ in 0..20 {
        let r = pick_from_range(5);
        assert!((0..5).contains(&r));
    }
}

#[test]
fn https_inspection_features() {
    assert!(is_https_inspection_enabled());
    assert_eq!(get_https_inspection_backend(), Some("rustls"));
}

#[test]
fn test_make_path_with_separator() {
    assert_eq!(privoxy::util::make_path_with("C:\\dir\\", "file.txt", '\\'), "C:\\dir\\file.txt");
    assert_eq!(privoxy::util::make_path_with("/dir/", "/file.txt", '/'), "/dir/file.txt");
}

#[test]
fn test_parse_content_type_folds_ascii_case() {
    assert_eq!(parse_content_type("Text/HTML; charset=UTF-8"), ("text/html".to_string(), Some("UTF-8".to_string())));
    assert_eq!(parse_content_type("image/gif"), ("image/gif".to_string(), None));
}
