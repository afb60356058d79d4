use grpc_hub::text::chars_of;
use grpc_hub::text::contains;
use grpc_hub::text::decimal_text;
use grpc_hub::text::hyphenated_head;
use grpc_hub::text::parse_port;
use grpc_hub::text::same_text;
use grpc_hub::text::starts_with;
use grpc_hub::text::text_le;
use grpc_hub::text::text_of;

#[test]
fn characters_round_trip() {
    let v = chars_of("héllo ∑");
    assert_eq!(v, vec!['h', 'é', 'l', 'l', 'o', ' ', '∑']);
    assert_eq!(text_of(&v), "héllo ∑");
    assert_eq!(text_of(&chars_of("")), "");
}

#[test]
fn same_text_compares_contents() {
    assert!(same_text("abc", "abc"));
    assert!(same_text("", ""));
    assert!(!same_text("abc", "abd"));
    assert!(!same_text("abc", "ab"));
    assert!(!same_text("é", "e"));
}

#[test]
fn contains_finds_parts() {
    assert!(contains("user-service", "user"));
    assert!(contains("user-service", "service"));
    assert!(contains("user-service", "r-s"));
    assert!(contains("user-service", ""));
    assert!(contains("", ""));
    assert!(contains("abc", "abc"));
    assert!(!contains("abc", "abcd"));
    assert!(!contains("user-service", "order"));
    assert!(!contains("", "a"));
    assert!(contains("aab", "ab"));
}

#[test]
fn names_are_ordered_by_their_bytes() {
    let names = ["", "A", "a", "ab", "abc", "b", "z", "é", "日本"];
    for a in names {
        for b in names {
            assert_eq!(text_le(a, b), a <= b, "{:?} <= {:?}", a, b);
        }
    }
}

#[test]
fn decimal_writes_numbers() {
    assert_eq!(decimal_text(0), "0");
    assert_eq!(decimal_text(7), "7");
    assert_eq!(decimal_text(10), "10");
    assert_eq!(decimal_text(8080), "8080");
    assert_eq!(decimal_text(65535), "65535");
    assert_eq!(decimal_text(u64::MAX), "18446744073709551615");
}

#[test]
fn ports_are_read_as_the_standard_library_reads_them() {
    let cases = [
        "0", "1", "80", "8080", "65535", "65536", "00080", "+80", "+", "", "-1", "-0", " 80",
        "80 ", "8a", "a8", "99999999999999999999", "+065535", "++1", "٣",
    ];
    for c in cases {
        assert_eq!(parse_port(c), c.parse::<u16>().ok(), "{:?}", c);
    }
    assert_eq!(parse_port("8080"), Some(8080));
    assert_eq!(parse_port("65536"), None);
}

#[test]
fn prefix_test() {
    assert!(starts_with(&chars_of("http://x"), &chars_of("http://")));
    assert!(starts_with(&chars_of("http://"), &chars_of("http://")));
    assert!(starts_with(&chars_of("abc"), &chars_of("")));
    assert!(!starts_with(&chars_of("http:/"), &chars_of("http://")));
    assert!(!starts_with(&chars_of("https://x"), &chars_of("http://")));
}

#[test]
fn head_of_a_dotted_name() {
    assert_eq!(hyphenated_head("web_content_extract.webcontentextract"), "web-content-extract");
    assert_eq!(hyphenated_head("svc"), "svc");
    assert_eq!(hyphenated_head(".svc"), "");
    assert_eq!(hyphenated_head("a_b.c_d.e"), "a-b");
    assert_eq!(hyphenated_head(""), "");
    assert_eq!(hyphenated_head("__"), "--");
}
