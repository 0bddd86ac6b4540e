use dockerrs::order::bytes_le;
use dockerrs::summary::trim_leading;
use dockerrs::text::{chars_of, push_decimal};

#[test]
fn bytes_le_is_lexicographic() {
    assert!(bytes_le(b"", b""));
    assert!(bytes_le(b"", b"a"));
    assert!(!bytes_le(b"a", b""));
    assert!(bytes_le(b"abc", b"abd"));
    assert!(!bytes_le(b"abd", b"abc"));
    assert!(bytes_le(b"ab", b"abc"));
    assert!(!bytes_le(b"abc", b"ab"));
    assert!(bytes_le(b"abc", b"abc"));
    assert!(bytes_le(b"Z", b"a"));
    assert!(!bytes_le(b"a", b"Z"));
    assert!(bytes_le(&[0x7f], &[0x80]));
    assert!(!bytes_le(&[0xff], &[0x00, 0x01]));
}

#[test]
fn bytes_le_agrees_with_std_order() {
    let samples: [&[u8]; 7] = [b"", b"a", b"ab", b"b", b"B", b"aa", &[0xc3, 0xa9]];
    for a in samples {
        for b in samples {
            assert_eq!(bytes_le(a, b), a <= b, "{:?} {:?}", a, b);
        }
    }
}

#[test]
fn trim_leading_strips_a_run() {
    assert_eq!(trim_leading("/web", '/'), "web");
    assert_eq!(trim_leading("web", '/'), "web");
    assert_eq!(trim_leading("///a/b/", '/'), "a/b/");
    assert_eq!(trim_leading("", '/'), "");
    assert_eq!(trim_leading("//", '/'), "");
    assert_eq!(trim_leading("\u{e9}\u{e9}x\u{e9}", '\u{e9}'), "x\u{e9}");
}

#[test]
fn decimal_numerals() {
    let cases = [
        (0u64, "0"),
        (7, "7"),
        (10, "10"),
        (99, "99"),
        (100, "100"),
        (8080, "8080"),
        (65535, "65535"),
        (u64::MAX, "18446744073709551615"),
    ];
    for (n, text) in cases {
        let mut out = String::from("p=");
        push_decimal(&mut out, n);
        assert_eq!(out, format!("p={}", text));
    }
}

#[test]
fn chars_of_lists_the_characters() {
    assert_eq!(chars_of(""), Vec::<char>::new());
    assert_eq!(chars_of("a\u{e9}\n"), vec!['a', '\u{e9}', '\n']);
}
