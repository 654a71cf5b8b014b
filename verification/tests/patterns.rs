use browser_mcp_rs::actions::find;
use browser_mcp_rs::pattern::{glob_to_regex, url_matches, Pattern};

fn matches(glob: &str, url: &str) -> bool {
    let p = glob_to_regex(glob).ok().unwrap();
    url_matches(glob, &p, url)
}

#[test]
fn stars_and_question_marks() {
    assert!(matches("**/api/users", "https://example.com/api/users"));
    assert!(!matches("**/api/users", "https://example.com/api/users/1"));
    assert!(matches("https://example.com/*.png", "https://example.com/a.png"));
    assert!(!matches("https://example.com/*.png", "https://example.com/a/b.png"));
    assert!(matches("https://example.com/?.png", "https://example.com/a.png"));
    assert!(!matches("https://example.com/?.png", "https://example.com/ab.png"));
}

#[test]
fn alternatives() {
    assert!(matches("**/*.{png,jpg}", "https://a/b.jpg"));
    assert!(matches("**/*.{png,jpg}", "https://a/b.png"));
    assert!(!matches("**/*.{png,jpg}", "https://a/b.gif"));
}

#[test]
fn a_plain_text_is_a_substring() {
    assert!(matches("example.com", "https://example.com/x"));
    assert!(!matches("example.com", "https://exampleXcom/x"));
    assert!(matches("", "anything"));
}

#[test]
fn special_characters_stand_for_themselves() {
    assert!(matches("**/a+b(c)", "x/a+b(c)"));
    assert!(!matches("**/a+b(c)", "x/aab(c)"));
}

#[test]
fn broken_globs_are_refused() {
    assert!(glob_to_regex("**/{a,b").is_err());
}

#[test]
fn expressions_and_texts() {
    let found = |text: Option<&str>, regex: Option<&str>| find("xxa.Bxx\naxb\na12", &text.map(str::to_string), &regex.map(str::to_string)).unwrap();
    assert_eq!(found(None, Some(r"^a\d+$")), "1 match(es):\n```yaml\na12\n```");
    assert_eq!(found(None, Some(r"^A\d+$")), "No matches");
    assert_eq!(found(Some("A.b"), None), "1 match(es):\n```yaml\nxxa.Bxx\n```");
    assert!(Pattern::new("(").is_err());
    assert!(Pattern::containing("(").is_ok());
}
