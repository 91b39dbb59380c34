use paintbrush::page::{wiki_page_ids, wiki_page_path, wiki_page_text};
use paintbrush::text::{chars_of, less_than, parse_u64};
use paintbrush::whoami::whoami;

fn parse(s: &str) -> Option<u64> {
    parse_u64(&chars_of(s))
}

#[test]
fn numbers_parse_as_str_parse_does() {
    assert_eq!(parse("42"), Some(42));
    assert_eq!(parse("+7"), Some(7));
    assert_eq!(parse("+"), None);
    assert_eq!(parse(""), None);
    assert_eq!(parse("-1"), None);
    assert_eq!(parse("12a"), None);
    assert_eq!(parse("18446744073709551615"), Some(u64::MAX));
    assert_eq!(parse("18446744073709551616"), None);
    assert_eq!(parse("007"), Some(7));
}

#[test]
fn wiki_pages_are_recognised() {
    assert_eq!(
        wiki_page_ids("https://canvas.example/courses/12/pages/intro"),
        Some((12, "intro".to_string()))
    );
    assert_eq!(
        wiki_page_ids("https://canvas.example//courses/12/pages/intro/more"),
        Some((12, "intro".to_string()))
    );
    assert_eq!(wiki_page_ids("https://canvas.example/courses/12/quizzes/5"), None);
    assert_eq!(wiki_page_ids("https://canvas.example/courses/x/pages/intro"), None);
    assert_eq!(wiki_page_ids("https://canvas.example/courses/12/pages"), None);
    assert_eq!(wiki_page_ids("canvas.example/courses/12/pages/intro"), None);
    assert_eq!(wiki_page_ids("https://canvas.example"), None);
    assert_eq!(wiki_page_path(12, "intro"), "/courses/12/pages/intro");
    assert_eq!(wiki_page_text("Intro", &None), "title: Intro\n\n");
    assert_eq!(wiki_page_text("Intro", &Some("<p>Hi</p>".into())), "title: Intro\n\n<p>Hi</p>");
}

#[test]
fn strings_order_by_code_point() {
    assert!(less_than("a", "b"));
    assert!(less_than("ab", "abc"));
    assert!(!less_than("abc", "ab"));
    assert!(!less_than("a", "a"));
    assert!(less_than("Z", "a"));
}

#[test]
fn whoami_line() {
    assert_eq!(whoami("Ada", 7), "Logged in as Ada (id: 7)");
}
