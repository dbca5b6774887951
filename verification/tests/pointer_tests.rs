use std::collections::HashMap;

use kotoba::models::VocabularyStatus;
use kotoba::pointer::{
    clicked_token, reader_scroll, scroll_offset, select_clicked, sentence_gaps, shown_sentences, ShownSentence,
};
use kotoba::reader::{SentenceData, TokenDisplay};
use kotoba::screens::{word_copy_text, ReaderState};

fn token(surface: &str, group_id: Option<usize>, head: bool) -> TokenDisplay {
    TokenDisplay {
        surface: surface.to_string(),
        base_form: surface.to_string(),
        reading: String::new(),
        surface_reading: String::new(),
        pos: String::new(),
        vocabulary_status: VocabularyStatus::New,
        is_selected: false,
        short_gloss: String::new(),
        conjugation_form: String::new(),
        conjugation_type: String::new(),
        is_trivial: false,
        group_id,
        is_group_head: head,
        conjugation_desc: String::new(),
        mwe_gloss: String::new(),
    }
}

fn sentence_in(paragraph: usize) -> SentenceData {
    SentenceData {
        paragraph_idx: paragraph,
        start_token: 0,
        end_token: 1,
        tokens: vec![token("猫", None, false)],
        text: "猫".to_string(),
    }
}

fn reader(sentences: Vec<SentenceData>) -> ReaderState {
    ReaderState {
        text_id: 1,
        text_title: "本".to_string(),
        paragraphs: Vec::new(),
        sentences,
        sentence_index: 0,
        word_index: Some(0),
        vocabulary_cache: HashMap::new(),
        gloss_cache: HashMap::new(),
        scroll_offset: 0,
        sidebar_scroll: 0,
        autopromote_enabled: true,
        autopromote_history: Vec::new(),
        show_all_readings: false,
        show_known_in_sidebar: false,
        mwe_matches: Vec::new(),
        expression_mark: Some((0, 0)),
    }
}

#[test]
fn wheel_moves_between_sentences() {
    let mut r = reader(vec![sentence_in(0), sentence_in(0)]);
    assert!(!reader_scroll(&mut r, true));
    assert_eq!(r.word_index, Some(0));
    assert!(reader_scroll(&mut r, false));
    assert_eq!(r.sentence_index, 1);
    assert_eq!(r.word_index, None);
    assert_eq!(r.expression_mark, None);
    assert!(!reader_scroll(&mut r, false));
    assert!(reader_scroll(&mut r, true));
    assert_eq!(r.sentence_index, 0);
}

#[test]
fn gaps_between_sentences_and_paragraphs() {
    let s = vec![sentence_in(0), sentence_in(0), sentence_in(1)];
    assert_eq!(sentence_gaps(&s, false), vec![0, 0, 1]);
    assert_eq!(sentence_gaps(&s, true), vec![0, 1, 1]);
}

#[test]
fn scroll_centres_the_current_sentence() {
    let heights = vec![2, 2, 2, 2, 2, 2];
    let gaps = vec![0, 1, 1, 1, 1, 1];
    // everything fits: no scrolling
    assert_eq!(scroll_offset(&heights, &gaps, 4, 20), 0);
    // 17 rows in a 6-row area; the fourth sentence starts at row 8
    assert_eq!(scroll_offset(&heights, &gaps, 3, 6), 6);
    // near the end the scroll stops at the last page
    assert_eq!(scroll_offset(&heights, &gaps, 5, 6), 11);
    assert_eq!(scroll_offset(&heights, &gaps, 0, 6), 0);
}

#[test]
fn shown_sentences_skip_those_above_and_stop_below() {
    let heights = vec![2, 2, 2, 2];
    let gaps = vec![0, 1, 1, 1];
    let shown = shown_sentences(&heights, &gaps, 3, 5);
    assert_eq!(
        shown,
        vec![
            ShownSentence { index: 1, top: 0, rows: 5 },
            ShownSentence { index: 2, top: 3, rows: 2 },
        ]
    );
    assert!(shown_sentences(&heights, &gaps, 0, 0).is_empty());
}

#[test]
fn a_click_selects_the_head_of_the_group() {
    let tokens = vec![
        token("食べ", Some(0), true),
        token("た", Some(0), false),
        token("猫", None, false),
        token("だ", Some(1), false),
    ];
    assert_eq!(clicked_token(&tokens, 1), 0);
    assert_eq!(clicked_token(&tokens, 2), 2);
    assert_eq!(clicked_token(&tokens, 3), 3);
}

#[test]
fn a_click_in_another_sentence_moves_there() {
    let mut r = reader(vec![sentence_in(0), sentence_in(0)]);
    assert!(!select_clicked(&mut r, 0, 0));
    assert_eq!(r.expression_mark, Some((0, 0)));
    assert!(select_clicked(&mut r, 1, 0));
    assert_eq!(r.sentence_index, 1);
    assert_eq!(r.word_index, Some(0));
    assert_eq!(r.expression_mark, None);
}

#[test]
fn copying_a_word_takes_its_whole_group() {
    let tokens = vec![
        token("食べ", Some(0), true),
        token("猫", None, false),
        token("た", Some(0), false),
    ];
    assert_eq!(word_copy_text(&tokens, 2), "食べた");
    assert_eq!(word_copy_text(&tokens, 0), "食べた");
    assert_eq!(word_copy_text(&tokens, 1), "猫");
}
