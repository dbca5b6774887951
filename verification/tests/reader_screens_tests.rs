use std::collections::HashMap;

use kotoba::models::{Text, Token, UserExpression, VocabularyStatus, WebSource, WebSourceChapter};
use kotoba::reader::{
    apply_conjugation_groups, apply_mwe_matches, build_sentences, detect_sentence_mwes,
    is_trivial_pos, translate_conjugation_form, translate_conjugation_type, MweMatch,
    ParagraphData, TokenDisplay,
};
use kotoba::screens::{
    ensure_selected_visible, home_filtered_texts, ChapterSelectState, HomeState, LibraryItem,
    LibrarySort,
};

fn display(surface: &str, base: &str, pos: &str, status: VocabularyStatus, trivial: bool) -> TokenDisplay {
    TokenDisplay {
        surface: surface.to_string(),
        base_form: base.to_string(),
        reading: String::new(),
        surface_reading: String::new(),
        pos: pos.to_string(),
        vocabulary_status: status,
        is_selected: false,
        short_gloss: String::new(),
        conjugation_form: String::new(),
        conjugation_type: String::new(),
        is_trivial: trivial,
        group_id: None,
        is_group_head: false,
        conjugation_desc: String::new(),
        mwe_gloss: String::new(),
    }
}

fn token(surface: &str, base: &str, reading: &str, pos: &str, form: &str, sentence: i32) -> Token {
    Token {
        id: 0,
        paragraph_id: 1,
        position: 0,
        surface: surface.to_string(),
        base_form: base.to_string(),
        reading: reading.to_string(),
        surface_reading: reading.to_string(),
        pos: pos.to_string(),
        conjugation_form: form.to_string(),
        conjugation_type: String::new(),
        sentence_index: sentence,
    }
}

fn chapter(id: i64, group: &str) -> WebSourceChapter {
    WebSourceChapter {
        id,
        web_source_id: 1,
        chapter_number: id as i32,
        title: format!("第{}話", id),
        text_id: None,
        word_count: 0,
        created_at: String::new(),
        is_skipped: false,
        chapter_group: group.to_string(),
    }
}

fn source() -> WebSource {
    WebSource {
        id: 1,
        source_type: "syosetu".to_string(),
        external_id: "n1234ab".to_string(),
        title: "小説".to_string(),
        metadata_json: "{}".to_string(),
        last_synced: "2024-01-02".to_string(),
    }
}

fn chapter_state(chapters: Vec<WebSourceChapter>, page_start: usize, page_size: usize, selected: usize) -> ChapterSelectState {
    ChapterSelectState {
        source: source(),
        total_chapters: chapters.len(),
        chapters,
        selected,
        page_start,
        page_size,
        total_imported: 0,
        total_skipped: 0,
        loading: false,
        chapter_read_states: HashMap::new(),
    }
}

fn text_item(title: &str, total: i64, last: i64) -> Text {
    Text {
        id: 1,
        title: title.to_string(),
        source_url: None,
        source_type: "text".to_string(),
        content: String::new(),
        language: "ja".to_string(),
        created_at: "2024-01-01".to_string(),
        last_read_at: None,
        last_sentence_index: last,
        total_sentences: total,
    }
}

#[test]
fn conjugation_names_are_translated() {
    assert_eq!(translate_conjugation_form("連用形-一般"), "continuative (general)");
    assert_eq!(translate_conjugation_form("終止形"), "terminal");
    assert_eq!(translate_conjugation_form("未知形-促音便"), "未知形 (geminate)");
    assert_eq!(translate_conjugation_form("連用形-未知-x"), "continuative (未知-x)");
    assert_eq!(translate_conjugation_form(""), "");
    assert_eq!(translate_conjugation_type("五段-カ行"), "godan (ka-row)");
    assert_eq!(translate_conjugation_type("下一段-バ行"), "ichidan-lower (ba-row)");
    assert_eq!(translate_conjugation_type("助動詞-マス"), "auxiliary (masu)");
    assert_eq!(translate_conjugation_type("形容詞"), "i-adjective");
    assert_eq!(translate_conjugation_type(""), "");
}

#[test]
fn trivial_pos_covers_particles_numbers_and_ascii() {
    assert!(is_trivial_pos("Particle", "が"));
    assert!(is_trivial_pos("Noun", "123"));
    assert!(is_trivial_pos("Noun", "ＡＢＣ") == false);
    assert!(is_trivial_pos("Noun", "abc"));
    assert!(is_trivial_pos("", "猫"));
    assert!(is_trivial_pos("Noun", "  "));
    assert!(!is_trivial_pos("Noun", "猫"));
}

#[test]
fn navigable_tokens_are_non_trivial_heads() {
    let mut t = display("猫", "猫", "Noun", VocabularyStatus::New, false);
    assert!(t.is_navigable());
    t.group_id = Some(0);
    assert!(!t.is_navigable());
    t.is_group_head = true;
    assert!(t.is_navigable());
    t.is_trivial = true;
    assert!(!t.is_navigable());
}

#[test]
fn conjugation_groups_mark_members_and_head() {
    let mut toks = vec![
        display("食べ", "食べる", "Verb", VocabularyStatus::Learning2, false),
        display("ない", "ない", "Auxiliary", VocabularyStatus::Ignored, true),
        display("猫", "猫", "Noun", VocabularyStatus::New, false),
    ];
    apply_conjugation_groups(&mut toks);
    assert_eq!(toks[0].group_id, Some(0));
    assert!(toks[0].is_group_head);
    assert_eq!(toks[0].conjugation_desc, "verb, negative");
    assert_eq!(toks[1].group_id, Some(0));
    assert!(!toks[1].is_group_head);
    assert!(!toks[1].is_trivial);
    assert_eq!(toks[1].vocabulary_status, VocabularyStatus::Learning2);
    assert_eq!(toks[2].group_id, None);
}

#[test]
fn expressions_are_found_longest_first() {
    let toks = vec![
        display("気", "気", "Noun", VocabularyStatus::New, false),
        display("が", "が", "Particle", VocabularyStatus::Ignored, true),
        display("付く", "付く", "Verb", VocabularyStatus::Known, false),
        display("。", "。", "Symbol", VocabularyStatus::New, true),
    ];
    let users = vec![UserExpression {
        surface: "気が".to_string(),
        reading: "きが".to_string(),
        gloss: "mind".to_string(),
    }];
    let dict = vec![("気が付く".to_string(), "きがつく".to_string(), "to notice".to_string())];
    let found = detect_sentence_mwes(&toks, &users, &dict, 12);
    assert_eq!(found.len(), 1);
    assert_eq!((found[0].start, found[0].end), (0, 3));
    assert_eq!(found[0].surface, "気が付く");
    assert_eq!(found[0].reading, "きがつく");
    assert_eq!(found[0].gloss, "to notice");

    let short = detect_sentence_mwes(&toks, &users, &dict, 2);
    assert_eq!(short.len(), 1);
    assert_eq!((short[0].start, short[0].end), (0, 2));
    assert_eq!(short[0].gloss, "mind");
}

#[test]
fn user_expressions_take_priority_over_the_dictionary() {
    let toks = vec![
        display("気", "気", "Noun", VocabularyStatus::New, false),
        display("が", "が", "Particle", VocabularyStatus::Ignored, true),
    ];
    let users = vec![UserExpression {
        surface: "気が".to_string(),
        reading: "きが".to_string(),
        gloss: "mine".to_string(),
    }];
    let dict = vec![("気が".to_string(), "けが".to_string(), "dictionary".to_string())];
    let found = detect_sentence_mwes(&toks, &users, &dict, 12);
    assert_eq!(found[0].gloss, "mine");
}

#[test]
fn expression_matches_override_groups() {
    let mut toks = vec![
        display("が", "が", "Particle", VocabularyStatus::Ignored, true),
        display("気", "気", "Noun", VocabularyStatus::Known, false),
        display("猫", "猫", "Noun", VocabularyStatus::New, false),
    ];
    toks[1].group_id = Some(0);
    toks[1].conjugation_desc = "word".to_string();
    let m = MweMatch { start: 0, end: 2, surface: "が気".to_string(), reading: String::new(), gloss: "g".to_string() };
    apply_mwe_matches(&mut toks, &vec![m]);
    assert_eq!(toks[0].group_id, Some(10000));
    assert_eq!(toks[1].group_id, Some(10000));
    assert!(!toks[0].is_group_head);
    assert!(toks[1].is_group_head);
    assert_eq!(toks[1].conjugation_desc, "expression");
    assert_eq!(toks[0].conjugation_desc, "");
    assert_eq!(toks[0].vocabulary_status, VocabularyStatus::Known);
    assert_eq!(toks[0].mwe_gloss, "g");
    assert!(!toks[0].is_trivial);
    assert_eq!(toks[2].group_id, None);
}

#[test]
fn sentences_follow_the_stored_sentence_numbers() {
    let para = ParagraphData {
        id: 1,
        position: 0,
        content: "猫を食べない。犬。".to_string(),
        db_tokens: vec![
            token("猫", "猫", "ねこ", "Noun", "", 0),
            token("を", "を", "を", "Particle", "", 0),
            token("食べ", "食べる", "たべる", "Verb", "連用形-一般", 0),
            token("ない", "ない", "ない", "Auxiliary", "終止形-一般", 0),
            token("。", "。", "", "Symbol", "", 0),
            token("犬", "犬", "いぬ", "Noun", "", 1),
        ],
    };
    let empty = ParagraphData { id: 2, position: 1, content: String::new(), db_tokens: vec![] };
    let vocab = vec![
        ("猫".to_string(), "ねこ".to_string(), VocabularyStatus::Known),
        ("犬".to_string(), "いぬ".to_string(), VocabularyStatus::Ignored),
    ];
    let glosses = vec![("猫".to_string(), "cat".to_string()), ("犬".to_string(), "dog".to_string())];
    let sentences = build_sentences(&vec![para, empty], &vocab, &glosses);
    assert_eq!(sentences.len(), 2);
    assert_eq!((sentences[0].start_token, sentences[0].end_token), (0, 5));
    assert_eq!((sentences[1].start_token, sentences[1].end_token), (5, 6));
    assert_eq!(sentences[0].text, "猫を食べない。");
    assert_eq!(sentences[1].text, "犬");
    let s0 = &sentences[0].tokens;
    assert_eq!(s0[0].vocabulary_status, VocabularyStatus::Known);
    assert_eq!(s0[0].short_gloss, "cat");
    assert!(s0[1].is_trivial);
    assert_eq!(s0[1].short_gloss, "");
    assert_eq!(s0[2].vocabulary_status, VocabularyStatus::New);
    assert_eq!(s0[2].conjugation_form, "continuative (general)");
    assert!(s0[2].is_group_head);
    assert_eq!(s0[2].conjugation_desc, "verb, negative");
    assert_eq!(s0[3].group_id, s0[2].group_id);
    let dog = &sentences[1].tokens[0];
    assert!(dog.is_trivial);
    assert_eq!(dog.short_gloss, "");
}

#[test]
fn library_sort_cycles_through_four_modes() {
    let s = LibrarySort::DateDesc;
    assert_eq!(s.next(), LibrarySort::DateAsc);
    assert_eq!(s.next().next(), LibrarySort::TitleAsc);
    assert_eq!(s.next().next().next(), LibrarySort::Completion);
    assert_eq!(s.next().next().next().next(), s);
    assert_eq!(LibrarySort::DateDesc.label(), "Date ↓");
    assert_eq!(LibrarySort::Completion.label(), "Completion %");
}

#[test]
fn library_items_expose_title_type_and_date() {
    let t = LibraryItem::Text(text_item("題", 0, 0));
    assert_eq!(t.title(), "題");
    assert_eq!(t.source_type(), "text");
    assert_eq!(t.created_at(), "2024-01-01");
    let s = LibraryItem::Source(source());
    assert_eq!(s.title(), "小説");
    assert_eq!(s.source_type(), "syosetu");
    assert_eq!(s.created_at(), "2024-01-02");
}

#[test]
fn home_hides_finished_texts_unless_asked() {
    let home = HomeState {
        recent_texts: vec![text_item("a", 10, 9), text_item("b", 0, 0), text_item("c", 10, 3)],
        recent_stats: HashMap::new(),
        selected: 0,
        show_finished: false,
    };
    assert_eq!(home_filtered_texts(&home), vec![1, 2]);
    let all = HomeState { show_finished: true, ..home };
    assert_eq!(home_filtered_texts(&all), vec![0, 1, 2]);
}

#[test]
fn chapter_pages_count_group_headers() {
    let chs = vec![chapter(1, "第一部"), chapter(2, "第一部"), chapter(3, "第二部"), chapter(4, ""), chapter(5, "")];
    let st = chapter_state(chs, 0, 4, 0);
    let vis: Vec<i64> = st.visible_chapters().iter().map(|c| c.id).collect();
    assert_eq!(vis, vec![1, 2]);
    assert_eq!(st.next_page_start(), 2);
    let st2 = chapter_state(st.chapters.clone(), 2, 4, 3);
    let vis2: Vec<i64> = st2.visible_chapters().iter().map(|c| c.id).collect();
    assert_eq!(vis2, vec![3, 4, 5]);
    assert_eq!(st2.page_selected(), 1);
    assert_eq!(st2.total_pages(), 2);
    assert_eq!(st2.current_page_display(), 1);
    let past = chapter_state(st.chapters.clone(), 9, 4, 0);
    assert!(past.visible_chapters().is_empty());
    assert_eq!(past.next_page_start(), 5);
    let empty = chapter_state(vec![], 0, 4, 0);
    assert_eq!(empty.total_pages(), 1);
    assert_eq!(empty.current_page_display(), 1);
}

#[test]
fn selected_chapter_is_scrolled_into_view() {
    let chs = vec![chapter(1, ""), chapter(2, ""), chapter(3, ""), chapter(4, ""), chapter(5, "")];
    let mut st = chapter_state(chs, 3, 2, 1);
    ensure_selected_visible(&mut st);
    assert_eq!(st.page_start, 1);
    let mut st = chapter_state(st.chapters.clone(), 0, 2, 4);
    ensure_selected_visible(&mut st);
    assert_eq!(st.page_start, 3);
    let mut st = chapter_state(st.chapters.clone(), 0, 2, 1);
    ensure_selected_visible(&mut st);
    assert_eq!(st.page_start, 0);
}
