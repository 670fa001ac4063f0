use open_web_server::encoding::{escape_html, subtle_eq, urlencoding_lite, urlencoding_lite_decode};

#[test]
fn percent_encoding_round_trips_through_decoding() {
    for s in ["my host", "a/b?c=d&e", "日本語", "plain-text_1.2~"] {
        assert_eq!(urlencoding_lite_decode(&urlencoding_lite(s)), s);
    }
    assert_eq!(urlencoding_lite("日"), "%E6%97%A5");
}

#[test]
fn decoding_keeps_malformed_escapes() {
    assert_eq!(urlencoding_lite_decode("100%"), "100%");
    assert_eq!(urlencoding_lite_decode("%zz"), "%zz");
    assert_eq!(urlencoding_lite_decode("a+b"), "a+b");
    assert_eq!(urlencoding_lite_decode("%41%42"), "AB");
    assert_eq!(urlencoding_lite_decode("%ff"), "\u{fffd}");
}

#[test]
fn html_escaping() {
    assert_eq!(escape_html("<a href=\"x\">&</a>"), "&lt;a href=&quot;x&quot;&gt;&amp;&lt;/a&gt;");
    assert_eq!(escape_html("it's"), "it's");
}

#[test]
fn subtle_eq_is_byte_equality() {
    assert!(subtle_eq(b"", b""));
    assert!(!subtle_eq(b"a", b""));
}
