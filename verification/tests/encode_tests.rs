use privoxy::encode::{
    char_to_hex, html_encode, html_encode_string, percent_encode_url, url_decode, url_encode,
    url_encode_query_param, xtoi,
};

#[test]
fn test_html_encode() {
    assert_eq!(html_encode("<script>"), "&lt;script&gt;");
    assert_eq!(html_encode("a & b"), "a &amp; b");
    assert_eq!(html_encode("\"quoted\""), "&quot;quoted&quot;");
    assert_eq!(html_encode("it's"), "it&#39;s");
    assert_eq!(html_encode("normal"), "normal");
}

#[test]
fn test_url_encode() {
    assert_eq!(url_encode("hello world"), "hello%20world");
    assert_eq!(url_encode("a+b"), "a%2Bb");
    assert_eq!(url_encode("test@email.com"), "test%40email.com");
    assert_eq!(url_encode("normal-text"), "normal-text");
}

#[test]
fn test_url_decode() {
    assert_eq!(url_decode("hello%20world").unwrap(), "hello world");
    assert_eq!(url_decode("a+b").unwrap(), "a b");
    assert_eq!(url_decode("test%40email.com").unwrap(), "test@email.com");
    assert_eq!(url_decode("normal-text").unwrap(), "normal-text");
}

#[test]
fn test_percent_encode_url() {
    assert_eq!(percent_encode_url("hello world"), "hello%20world");
    assert_eq!(percent_encode_url("http://example.com"), "http://example.com");
    assert_eq!(percent_encode_url("path/to/file"), "path/to/file");
    assert_eq!(percent_encode_url("file name.txt"), "file%20name.txt");
}

#[test]
fn test_xtoi() {
    assert_eq!(xtoi("00"), 0);
    assert_eq!(xtoi("0F"), 15);
    assert_eq!(xtoi("1f"), 31);
    assert_eq!(xtoi("FF"), 255);
    assert_eq!(xtoi("ff"), 255);
    assert_eq!(xtoi("GG"), 0);
}

#[test]
fn test_url_encode_query_param() {
    assert_eq!(url_encode_query_param("hello world"), "hello+world");
    assert_eq!(url_encode_query_param("a&b"), "a%26b");
    assert_eq!(url_encode_query_param("test=value"), "test%3Dvalue");
}

#[test]
fn url_decode_round_trips_url_encode() {
    let text = "a b&c=d/é";
    assert_eq!(url_decode(&url_encode(text)).unwrap(), text);
}

#[test]
fn url_decode_keeps_broken_escape_and_rejects_bad_utf8() {
    assert_eq!(url_decode("%zz").unwrap(), "%zz");
    assert_eq!(url_decode("abc%4").unwrap(), "abc%4");
    assert!(url_decode("%FF").is_err());
}

#[test]
fn html_encode_string_matches_html_encode() {
    assert_eq!(html_encode_string("<a>"), html_encode("<a>"));
    assert_eq!(char_to_hex('b'), Some(11));
    assert_eq!(char_to_hex('x'), None);
}

#[test]
fn test_url_decode_undoes_encode() {
    for s in ["hello world", "a+b=c&d", "100% sure?", "grüße / ünïcødé", "", "~._-"] {
        assert_eq!(url_decode(&url_encode(s)).unwrap(), s);
    }
}
