use browser_mcp_rs::text;

#[test]
fn splitting_and_joining() {
    assert_eq!(text::split_on("a;b,,c", ";,"), vec!["a", "b", "", "c"]);
    assert_eq!(text::split_on("", ","), vec![""]);
    assert_eq!(text::join(&vec!["a".to_string(), "b".to_string()], ", "), "a, b");
    assert_eq!(text::split_once("k=v=w", "="), Some(("k".to_string(), "v=w".to_string())));
    assert_eq!(text::split_once("kv", "="), None);
    assert_eq!(text::split_once_any("1280,720", "x,"), Some(("1280".to_string(), "720".to_string())));
}

#[test]
fn lines_end_at_line_feeds() {
    assert_eq!(text::lines("a\r\nb\n"), vec!["a", "b"]);
    assert_eq!(text::lines("a\n\nb"), vec!["a", "", "b"]);
    assert!(text::lines("").is_empty());
}

#[test]
fn trimming() {
    assert_eq!(text::trim(" \t a b \n"), "a b");
    assert_eq!(text::trim("\u{a0}\u{2003}x\u{3000}"), "x");
    assert_eq!(text::trim("   "), "");
    assert_eq!(text::trim_start("  a "), "a ");
    assert_eq!(text::trim_end("  a "), "  a");
    assert_eq!(text::trim_end_of("http://a//", '/'), "http://a");
    assert_eq!(text::trim_prefixes("Error: Error: x", "Error: "), "x");
}

#[test]
fn words_are_cut_at_blanks() {
    assert_eq!(text::words(" GET  /path\tHTTP "), vec!["GET", "/path", "HTTP"]);
}

#[test]
fn finding() {
    assert!(text::contains("browser", "ows"));
    assert!(text::contains("browser", ""));
    assert!(!text::contains("browser", "owx"));
    assert!(text::starts_with("browser", "bro"));
    assert!(text::ends_with("browser", "ser"));
    assert!(!text::ends_with("er", "ser"));
    assert_eq!(text::strip_prefix("--caps", "--"), Some("caps".to_string()));
    assert_eq!(text::take_chars("äöü", 2), "äö");
    assert_eq!(text::skip_chars("äöü", 2), "ü");
}

#[test]
fn replacing_goes_on_behind_what_was_replaced() {
    assert_eq!(text::replace("a~1b~1", "~1", "/"), "a/b/");
    assert_eq!(text::replace("aaa", "aa", "b"), "ba");
    assert_eq!(text::replace("abc", "x", "y"), "abc");
}

#[test]
fn parts_of_a_list() {
    assert!(text::part_of("Red, Green", ", ", "Green"));
    assert!(!text::part_of("Red, Green", ", ", "Gree"));
    assert!(text::part_of("Red", ", ", "Red"));
    assert!(text::part_of("a, ", ", ", ""));
}

#[test]
fn numbers() {
    assert_eq!(text::decimal(0), "0");
    assert_eq!(text::decimal(120045), "120045");
    assert_eq!(text::decimal_int(-12), "-12");
    assert_eq!(text::six_digits(42), "000042");
    assert_eq!(text::six_digits(12345678), "12345678");
    assert_eq!(text::parse_number("0042", 100), Some(42));
    assert_eq!(text::parse_number("+7", 100), Some(7));
    assert_eq!(text::parse_number("101", 100), None);
    assert_eq!(text::parse_number("", 100), None);
    assert_eq!(text::parse_number("-1", 100), None);
    assert_eq!(text::parse_number("99999999999999999999999", u64::MAX), None);
}

#[test]
fn cases() {
    assert_eq!(text::lowercase("AbC-Ä"), "abc-Ä");
    assert_eq!(text::uppercase("warning"), "WARNING");
    assert!(text::same_ignoring_case("Content-Type", "content-TYPE"));
    assert!(!text::same_ignoring_case("a", "ab"));
}

#[test]
fn bytes_of_characters() {
    assert_eq!(text::bytes("aä€😀"), 10);
}

#[test]
fn order_of_texts() {
    assert!(text::before("a", "b"));
    assert!(text::before("a", "ab"));
    assert!(!text::before("b", "ab"));
    assert!(!text::before("a", "a"));
}
