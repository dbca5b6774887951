use kotoba::import::clipboard::generate_title;
use kotoba::import::epub::resolve_chapter_title;
use kotoba::import::syosetsu;
use kotoba::import::syosetu;
use kotoba::import::web::clean_text;

#[test]
fn test_generate_title_short() {
    assert_eq!(generate_title("吾輩は猫である"), "吾輩は猫である");
}

#[test]
fn test_generate_title_long() {
    let long = "あ".repeat(100);
    let title = generate_title(&long);
    assert!(title.chars().count() <= 50);
    assert!(title.ends_with("..."));
}

#[test]
fn test_generate_title_empty() {
    assert_eq!(generate_title(""), "Clipboard Import");
    assert_eq!(generate_title("  \n  "), "Clipboard Import");
}

#[test]
fn test_generate_title_multiline() {
    assert_eq!(generate_title("First line\nSecond line"), "First line");
}

#[test]
fn test_resolve_chapter_title_from_toc() {
    let toc = vec![("chapter1.xhtml".to_string(), "第一章 始まり".to_string())];
    let result = resolve_chapter_title("chapter1.xhtml", &toc, Some("Heading"), 1);
    assert_eq!(result, "第一章 始まり");
}

#[test]
fn test_resolve_chapter_title_from_heading() {
    let toc: Vec<(String, String)> = Vec::new();
    let result = resolve_chapter_title("chapter1.xhtml", &toc, Some("第二章"), 2);
    assert_eq!(result, "第二章");
}

#[test]
fn test_resolve_chapter_title_fallback() {
    let toc: Vec<(String, String)> = Vec::new();
    let result = resolve_chapter_title("chapter1.xhtml", &toc, None, 3);
    assert_eq!(result, "Chapter 3");
}

#[test]
fn test_resolve_chapter_title_toc_with_fragment() {
    let toc = vec![("content.xhtml".to_string(), "プロローグ".to_string())];
    let result = resolve_chapter_title("content.xhtml#part1", &toc, None, 1);
    assert_eq!(result, "プロローグ");
}

#[test]
fn syosetsu_test_parse_ncode_bare() {
    assert_eq!(syosetsu::parse_ncode("n1234ab").unwrap(), "n1234ab");
    assert_eq!(syosetsu::parse_ncode("N1234AB").unwrap(), "n1234ab");
}

#[test]
fn syosetsu_test_parse_ncode_url() {
    assert_eq!(syosetsu::parse_ncode("https://ncode.syosetsu.com/n1234ab/").unwrap(), "n1234ab");
    assert_eq!(syosetsu::parse_ncode("https://ncode.syosetsu.com/n1234ab/5/").unwrap(), "n1234ab");
}

#[test]
fn syosetsu_test_parse_ncode_invalid() {
    assert!(syosetsu::parse_ncode("not-an-ncode").is_err());
}

#[test]
fn syosetu_test_parse_ncode_bare() {
    assert_eq!(syosetu::parse_ncode("n1234ab").unwrap(), "n1234ab");
    assert_eq!(syosetu::parse_ncode("N1234AB").unwrap(), "n1234ab");
}

#[test]
fn syosetu_test_parse_ncode_url() {
    assert_eq!(syosetu::parse_ncode("https://ncode.syosetu.com/n1234ab/").unwrap(), "n1234ab");
    assert_eq!(syosetu::parse_ncode("https://ncode.syosetu.com/n1234ab/5/").unwrap(), "n1234ab");
    assert_eq!(syosetu::parse_ncode("https://ncode.syosetu.com/n1234ab/").unwrap(), "n1234ab");
}

#[test]
fn syosetu_accepts_the_misspelled_domain() {
    assert_eq!(syosetu::parse_ncode("https://ncode.syosetsu.com/n1234ab/").unwrap(), "n1234ab");
    assert_eq!(syosetu::parse_ncode("https://ncode.syosetsu.com/N9999ZZ/3/").unwrap(), "n9999zz");
}

#[test]
fn syosetu_test_parse_ncode_invalid() {
    assert!(syosetu::parse_ncode("not-an-ncode").is_err());
}

#[test]
fn test_clean_text() {
    let input = "  First line  \n\n\n\n  Second line  \n  Third line  ";
    let cleaned = clean_text(input);
    assert_eq!(cleaned, "First line\n\nSecond line\nThird line");
}
