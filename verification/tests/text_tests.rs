use workgrid_studio::text::{chars_of, decimal_string, push_decimal, push_two_digits, str_before, str_eq, string_of};

#[test]
fn equal_strings_are_equal() {
    assert!(str_eq("", ""));
    assert!(str_eq("max_connections", "max_connections"));
    assert!(str_eq("gr\u{fc}\u{df}e", "gr\u{fc}\u{df}e"));
}

#[test]
fn different_strings_differ() {
    assert!(!str_eq("a", "b"));
    assert!(!str_eq("a", "ab"));
    assert!(!str_eq("YES", "yes"));
    assert!(!str_eq("", " "));
}

#[test]
fn order_is_by_bytes() {
    assert!(str_before("a", "b"));
    assert!(!str_before("b", "a"));
    assert!(str_before("", "a"));
    assert!(!str_before("a", ""));
    assert!(str_before("ab", "abc"));
    assert!(!str_before("abc", "ab"));
    assert!(str_before("Z", "a"));
    assert!(str_before("z", "\u{e9}"));
}

#[test]
fn nothing_is_before_itself() {
    assert!(!str_before("", ""));
    assert!(!str_before("same", "same"));
}

#[test]
fn order_agrees_with_the_standard_order() {
    let words = ["", "a", "A", "ab", "abc", "b", "_x", "0", "\u{e9}t\u{e9}", "zz"];
    for a in words.iter() {
        for b in words.iter() {
            assert_eq!(str_before(a, b), a < b);
            assert_eq!(str_eq(a, b), a == b);
        }
    }
}

#[test]
fn numerals_have_no_leading_zeros() {
    assert_eq!(decimal_string(0), "0");
    assert_eq!(decimal_string(7), "7");
    assert_eq!(decimal_string(10), "10");
    assert_eq!(decimal_string(3306), "3306");
    assert_eq!(decimal_string(u64::MAX), "18446744073709551615");
}

#[test]
fn numeral_is_appended() {
    let mut s = String::from("port ");
    push_decimal(&mut s, 65535);
    assert_eq!(s, "port 65535");
}

#[test]
fn two_digits_are_padded() {
    let mut s = String::new();
    push_two_digits(&mut s, 0);
    s.push(':');
    push_two_digits(&mut s, 7);
    s.push(':');
    push_two_digits(&mut s, 59);
    assert_eq!(s, "00:07:59");
}

#[test]
fn characters_round_trip() {
    let all = chars_of("a\u{2192}b'\\");
    assert_eq!(all, vec!['a', '\u{2192}', 'b', '\'', '\\']);
    assert_eq!(string_of(&all), "a\u{2192}b'\\");
    assert_eq!(chars_of(""), Vec::<char>::new());
}
