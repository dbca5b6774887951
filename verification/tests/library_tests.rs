use kotoba::library::{library_items, library_source_types, search_items, sort_library, str_before};
use kotoba::models::{Text, WebSource};
use kotoba::screens::{LibraryItem, LibrarySort};

fn text(id: i64, title: &str, source_type: &str, created: &str) -> Text {
    Text {
        id,
        title: title.to_string(),
        source_url: None,
        source_type: source_type.to_string(),
        content: String::new(),
        language: "ja".to_string(),
        created_at: created.to_string(),
        last_read_at: None,
        last_sentence_index: 0,
        total_sentences: 0,
    }
}

fn source(id: i64, title: &str, source_type: &str, synced: &str) -> WebSource {
    WebSource {
        id,
        source_type: source_type.to_string(),
        external_id: format!("n{}", id),
        title: title.to_string(),
        metadata_json: "{}".to_string(),
        last_synced: synced.to_string(),
    }
}

fn ids(items: &[LibraryItem]) -> Vec<i64> {
    items
        .iter()
        .map(|i| match i {
            LibraryItem::Text(t) => t.id,
            LibraryItem::Source(s) => s.id,
        })
        .collect()
}

fn sample() -> (Vec<Text>, Vec<WebSource>) {
    (
        vec![
            text(1, "猫", "text", "2024-01-02"),
            text(2, "Alpha", "web", "2024-03-01"),
            text(3, "Beta", "text", "2024-01-02"),
        ],
        vec![source(10, "Novel", "syosetu", "2024-02-01"), source(11, "Book", "epub", "2023-12-31")],
    )
}

#[test]
fn strings_compare_by_code_point() {
    assert!(str_before("a", "b"));
    assert!(str_before("ab", "abc"));
    assert!(!str_before("abc", "ab"));
    assert!(!str_before("abc", "abc"));
    assert!(str_before("Z", "a"));
    assert!(str_before("あ", "い"));
    assert!(str_before("", "x"));
}

#[test]
fn items_are_texts_then_sources() {
    let (t, s) = sample();
    let items = library_items(t, s, &None);
    assert_eq!(ids(&items), vec![1, 2, 3, 10, 11]);
}

#[test]
fn the_filter_keeps_one_source_type() {
    let (t, s) = sample();
    assert_eq!(ids(&library_items(t, s, &Some("text".to_string()))), vec![1, 3]);
    let (t, s) = sample();
    assert_eq!(ids(&library_items(t, s, &Some("epub".to_string()))), vec![11]);
    let (t, s) = sample();
    assert!(library_items(t, s, &Some("none".to_string())).is_empty());
}

#[test]
fn sorting_by_date_and_title() {
    let (t, s) = sample();
    let items = library_items(t, s, &None);
    let newest = sort_library(items, LibrarySort::DateDesc);
    // texts 1 and 3 were added at the same time and keep their order
    assert_eq!(ids(&newest), vec![2, 10, 1, 3, 11]);
    let oldest = sort_library(newest, LibrarySort::DateAsc);
    assert_eq!(ids(&oldest), vec![11, 1, 3, 10, 2]);
    let titles = sort_library(oldest, LibrarySort::TitleAsc);
    assert_eq!(ids(&titles), vec![2, 3, 11, 10, 1]);
    let kept = sort_library(titles, LibrarySort::Completion);
    assert_eq!(ids(&kept), vec![2, 3, 11, 10, 1]);
}

#[test]
fn source_types_are_sorted_and_unique() {
    let (t, s) = sample();
    let items = library_items(t, s, &None);
    assert_eq!(library_source_types(&items), vec!["epub", "syosetu", "text", "web"]);
    assert!(library_source_types(&Vec::new()).is_empty());
}

#[test]
fn search_lists_the_found_texts_and_matching_sources() {
    let (t, s) = sample();
    let found = search_items(vec![t[1].clone()], s, "NOV");
    assert_eq!(ids(&found), vec![2, 10]);
    let (_, s) = sample();
    let found = search_items(Vec::new(), s, "o");
    assert_eq!(ids(&found), vec![10, 11]);
    let (_, s) = sample();
    assert!(search_items(Vec::new(), s, "zzz").is_empty());
}
