use oxibrowser_core::text::{is_before, same_text, text_bytes};

#[test]
fn equality_is_that_of_strings() {
    assert!(same_text("", ""));
    assert!(same_text("h\u{e9}", "h\u{e9}"));
    assert!(!same_text("a", "ab"));
    assert!(!same_text("a", "b"));
}

#[test]
fn order_is_that_of_strings() {
    let words = ["", "a", "aa", "ab", "b", "z", "\u{e9}", "\u{ffff}", "\u{10000}"];
    for a in words {
        for b in words {
            assert_eq!(is_before(a, b), a < b);
        }
    }
}

#[test]
fn bytes_are_utf8() {
    assert_eq!(text_bytes("a\u{e9}"), vec![0x61, 0xc3, 0xa9]);
}
