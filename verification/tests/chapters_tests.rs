use std::collections::HashSet;

use kotoba::chapters::{chapter_read_states, new_chapter_select, next_chapter_plan, NextChapterPlan};
use kotoba::models::{Text, WebSource, WebSourceChapter};
use kotoba::screens::{ChapterReadState, ChapterSelectState};

fn source(source_type: &str) -> WebSource {
    WebSource {
        id: 7,
        source_type: source_type.to_string(),
        external_id: "n1".to_string(),
        title: "小説".to_string(),
        metadata_json: "{}".to_string(),
        last_synced: String::new(),
    }
}

fn chapter(id: i64, text_id: Option<i64>, skipped: bool) -> WebSourceChapter {
    WebSourceChapter {
        id,
        web_source_id: 7,
        chapter_number: (id * 10) as i32,
        title: format!("第{}話", id),
        text_id,
        word_count: 0,
        created_at: String::new(),
        is_skipped: skipped,
        chapter_group: String::new(),
    }
}

fn text(id: i64, total: i64, last: i64) -> Text {
    Text {
        id,
        title: format!("本{}", id),
        source_url: None,
        source_type: "syosetu".to_string(),
        content: String::new(),
        language: "ja".to_string(),
        created_at: String::new(),
        last_read_at: None,
        last_sentence_index: last,
        total_sentences: total,
    }
}

fn chapters() -> Vec<WebSourceChapter> {
    vec![
        chapter(1, Some(100), false),
        chapter(2, Some(101), false),
        chapter(3, Some(102), true),
        chapter(4, None, false),
        chapter(5, Some(103), false),
        chapter(6, Some(104), false),
    ]
}

fn texts() -> Vec<Option<Text>> {
    vec![Some(text(100, 10, 9)), Some(text(101, 10, 3)), Some(text(102, 10, 0)), None, None, Some(text(104, 0, 0))]
}

#[test]
fn read_states_of_the_chapters() {
    let states = chapter_read_states(&chapters(), &texts());
    assert_eq!(states.len(), 5);
    assert_eq!(states.get(&1), Some(&ChapterReadState::Finished));
    assert_eq!(states.get(&2), Some(&ChapterReadState::InProgress));
    assert_eq!(states.get(&3), None);
    assert_eq!(states.get(&4), Some(&ChapterReadState::NotImported));
    assert_eq!(states.get(&5), Some(&ChapterReadState::NotImported));
    assert_eq!(states.get(&6), Some(&ChapterReadState::Unread));
}

#[test]
fn reopening_keeps_the_selection_on_its_page() {
    let s = new_chapter_select(source("syosetu"), chapters(), &texts(), (6, 5, 1), Some(4), 3);
    assert_eq!(s.selected, 4);
    assert_eq!(s.page_start, 3);
    assert_eq!(s.page_size, 3);
    assert_eq!((s.total_chapters, s.total_imported, s.total_skipped), (6, 5, 1));
    assert!(!s.loading);
    assert_eq!(s.chapter_read_states.len(), 5);
    let far = new_chapter_select(source("syosetu"), chapters(), &texts(), (6, 5, 1), Some(40), 4);
    assert_eq!(far.selected, 5);
    assert_eq!(far.page_start, 4);
    let first = new_chapter_select(source("epub"), chapters(), &texts(), (6, 5, 1), None, 4);
    assert_eq!(first.selected, 0);
    assert_eq!(first.page_start, 0);
}

fn open_list(source_type: &str) -> Option<ChapterSelectState> {
    Some(new_chapter_select(source(source_type), chapters(), &texts(), (6, 5, 1), None, 5))
}

#[test]
fn the_next_chapter_opens_when_imported() {
    let plan = next_chapter_plan(&Some(chapter(5, Some(103), false)), &open_list("syosetu"), &HashSet::new());
    assert_eq!(plan, NextChapterPlan::OpenText { text_id: 103, chapter_id: 5, select: Some(4) });
    let plan = next_chapter_plan(&Some(chapter(9, Some(109), false)), &None, &HashSet::new());
    assert_eq!(plan, NextChapterPlan::OpenText { text_id: 109, chapter_id: 9, select: None });
}

#[test]
fn a_novel_chapter_not_imported_is_awaited() {
    let plan = next_chapter_plan(&Some(chapter(4, None, false)), &open_list("syosetu"), &HashSet::new());
    assert_eq!(
        plan,
        NextChapterPlan::AwaitImport { chapter_id: 4, chapter_number: 40, queue: true, select: Some(3) }
    );
    let busy: HashSet<i64> = [4].into_iter().collect();
    let plan = next_chapter_plan(&Some(chapter(4, None, false)), &open_list("syosetu"), &busy);
    assert_eq!(
        plan,
        NextChapterPlan::AwaitImport { chapter_id: 4, chapter_number: 40, queue: false, select: Some(3) }
    );
}

#[test]
fn no_next_chapter_stays() {
    assert_eq!(next_chapter_plan(&None, &open_list("syosetu"), &HashSet::new()), NextChapterPlan::Stay);
    let plan = next_chapter_plan(&Some(chapter(4, None, false)), &open_list("epub"), &HashSet::new());
    assert_eq!(plan, NextChapterPlan::Stay);
    let plan = next_chapter_plan(&Some(chapter(4, None, false)), &None, &HashSet::new());
    assert_eq!(plan, NextChapterPlan::Stay);
}
