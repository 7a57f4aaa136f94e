use discord_bot::text::{ascii_to_string, decimal_bytes, decimal_string, text_equals, text_starts_with};

#[test]
fn decimal_renders_like_to_string() {
    for n in [0i64, 7, -7, 10, 1234567, -1000, i64::MAX, i64::MIN] {
        assert_eq!(decimal_string(n), n.to_string());
        assert_eq!(decimal_bytes(n), n.to_string().into_bytes());
    }
}

#[test]
fn ascii_bytes_become_the_same_text() {
    assert_eq!(ascii_to_string(&b"abc, 123".to_vec()), "abc, 123");
    assert_eq!(ascii_to_string(&Vec::new()), "");
}

#[test]
fn prefixes_and_equality_of_texts() {
    assert!(text_starts_with("!seen @a", "!seen "));
    assert!(!text_starts_with("!see", "!seen "));
    assert!(text_starts_with("héllo", "hé"));
    assert!(text_equals("!ping", "!ping"));
    assert!(!text_equals("!ping ", "!ping"));
}
