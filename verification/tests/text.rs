use netlimiter::text::{chars_of, contains_chars, file_name_of, push_decimal, str_contains, str_equals};

#[test]
fn decimal_numbers() {
    for (n, s) in [(0u32, "0"), (7, "7"), (10, "10"), (1234, "1234"), (u32::MAX, "4294967295")] {
        let mut out = String::from(">");
        push_decimal(&mut out, n);
        assert_eq!(out, format!(">{}", s));
    }
}

#[test]
fn substring_search() {
    assert!(str_contains("c:\\windows\\x", "\\windows\\"));
    assert!(str_contains("abc", ""));
    assert!(!str_contains("ab", "abc"));
    assert!(!str_contains("c:\\window\\x", "\\windows\\"));
    assert!(contains_chars(&chars_of("ééa"), &chars_of("éa")));
}

#[test]
fn string_equality_and_file_names() {
    assert!(str_equals("ping", "ping"));
    assert!(!str_equals("ping", "pong"));
    assert!(!str_equals("ping", "pin"));
    assert_eq!(file_name_of("a\\b\\c.exe"), "c.exe");
    assert_eq!(file_name_of(""), "");
    assert_eq!(file_name_of("\\"), "");
}
