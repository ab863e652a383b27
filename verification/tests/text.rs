use nadbridge::text::{
    begins, chars_of, find_bytes, find_chars, join2, join3, push_decimal, push_hex4, push_padded,
    read_number, same_text, string_of, to_lower, trim, word_two,
};

fn decimal(n: u128) -> String {
    let mut out = String::new();
    push_decimal(&mut out, n);
    out
}

#[test]
fn numbers_are_written_in_decimal() {
    assert_eq!(decimal(0), "0");
    assert_eq!(decimal(10), "10");
    assert_eq!(decimal(u128::MAX), u128::MAX.to_string());
    let mut out = "a".to_string();
    push_padded(&mut out, 7, 4);
    push_padded(&mut out, 12345, 4);
    assert_eq!(out, "a000712345");
}

#[test]
fn codes_are_written_in_four_hexadecimal_digits() {
    let mut out = String::new();
    push_hex4(&mut out, 0x0e9);
    push_hex4(&mut out, 0xBEEF);
    assert_eq!(out, "00e9beef");
}

#[test]
fn numbers_that_are_written_are_read_back() {
    for n in [0, 1, 9, 10, 255, 65_535, u64::MAX] {
        assert_eq!(read_number(&chars_of(&decimal(n as u128)), 10, u64::MAX), Some(n));
    }
}

#[test]
fn numbers_are_read_like_the_standard_library_reads_them() {
    let texts = ["", "+", "-", "+5", "++5", "-5", "007", "12a", "65535", "65536", " 1", "99999999999999999999"];
    for text in texts {
        let ours = read_number(&chars_of(text), 10, u16::MAX as u64);
        assert_eq!(ours, text.parse::<u16>().ok().map(u64::from), "{}", text);
    }
    for text in ["ff", "FF", "+1a", "g", "", "10000000000000000", "ffffffffffffffff"] {
        let ours = read_number(&chars_of(text), 16, u64::MAX);
        assert_eq!(ours, u64::from_str_radix(text, 16).ok(), "{}", text);
    }
}

#[test]
fn white_space_is_what_unicode_calls_so() {
    for n in 0..=0x10ffff_u32 {
        if let Some(c) = char::from_u32(n) {
            assert_eq!(trim(&[c]).is_empty(), c.is_whitespace(), "{:x}", n);
        }
    }
}

#[test]
fn text_is_trimmed_on_both_sides() {
    for text in ["", "  ", " a b ", "\u{3000}x\r\n", "x"] {
        assert_eq!(string_of(trim(&chars_of(text))), text.trim());
    }
}

#[test]
fn the_second_word_is_found() {
    for text in ["", "one", "one two three", "  one \t two", "one "] {
        let ours = string_of(word_two(&chars_of(text)));
        assert_eq!(ours, text.split_whitespace().nth(1).unwrap_or(""));
    }
}

#[test]
fn patterns_are_found_where_they_first_occur() {
    assert_eq!(find_bytes(b"abcabc", b"ca"), Some(2));
    assert_eq!(find_bytes(b"abcabc", b"bc"), Some(1));
    assert_eq!(find_bytes(b"abc", b"abcd"), None);
    assert_eq!(find_bytes(b"", b""), Some(0));
    assert_eq!(find_bytes(b"aab", b"ab"), Some(1));
    assert_eq!(find_chars(&chars_of("x:y:z"), &[':']), Some(1));
    assert_eq!(find_chars(&chars_of("xyz"), &[':']), None);
}

#[test]
fn letters_are_lowered_in_ascii_alone() {
    assert_eq!(string_of(&to_lower(&chars_of("Content-LENGTH Ä1"))), "content-length Ä1");
}

#[test]
fn texts_are_compared_and_joined() {
    assert!(same_text("Grüße", "Grüße"));
    assert!(!same_text("On", "Off"));
    assert!(!same_text("On", "On "));
    assert!(begins(&chars_of("HTTP/1.1 200"), &chars_of("HTTP/1.1")));
    assert!(!begins(&chars_of("HTTP"), &chars_of("HTTP/1.1")));
    assert_eq!(join2("a", "ü"), "aü");
    assert_eq!(join3("a", "", "c"), "ac");
}
