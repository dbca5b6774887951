use std::collections::{HashMap, HashSet};

use kotoba::background::{ImportEvent, ImportNotice, ImportTracker};
use kotoba::models::{Text, VocabularyStatus, WebSource, WebSourceChapter};
use kotoba::reader::{AutopromotionBatch, SentenceData, TokenDisplay};
use kotoba::screens::{
    chapter_page_size_for_terminal, spinner_char,
    detail_notes, expression_surface,
    chapter_read_state, chapters_to_preprocess, selected_word, SelectedWord,
    next_filter, promotion_candidates, set_word_status_in_sentences,
    apply_skip_toggle, chapter_select_key, ensure_selected_visible, undo_last_autopromotion, expression_key, expression_preview, home_key, library_key,
    popup_key, reader_key, ChapterAction, ChapterKey, ChapterReadState, ChapterSelectState, ExpressionAction,
    ExpressionKey, HomeKey, HomeState, LibraryItem, LibraryKey, LibrarySort, LibraryState, PopupAction,
    PopupKey, PopupState, ReaderAction, ReaderKey, ReaderState, Screen, ScreenAction,
};

fn web_source(source_type: &str) -> WebSource {
    WebSource {
        id: 7,
        source_type: source_type.to_string(),
        external_id: "n1".to_string(),
        title: "小説".to_string(),
        metadata_json: "{}".to_string(),
        last_synced: String::new(),
    }
}

fn chapter_of(id: i64, text_id: Option<i64>, skipped: bool) -> WebSourceChapter {
    WebSourceChapter {
        id,
        web_source_id: 7,
        chapter_number: (id * 10) as i32,
        title: format!("第{}話", id),
        text_id,
        word_count: 0,
        created_at: String::new(),
        is_skipped: skipped,
        chapter_group: String::new(),
    }
}

fn list(source_type: &str, chapters: Vec<WebSourceChapter>, selected: usize) -> ChapterSelectState {
    ChapterSelectState {
        source: web_source(source_type),
        total_chapters: chapters.len(),
        chapters,
        selected,
        page_start: 0,
        page_size: 2,
        total_imported: 0,
        total_skipped: 0,
        loading: false,
        chapter_read_states: HashMap::new(),
    }
}

#[test]
fn chapter_list_keys_move_and_open() {
    let chapters = vec![chapter_of(1, Some(100), false), chapter_of(2, None, true), chapter_of(3, None, false)];
    let mut s = list("syosetu", chapters, 0);
    let none = HashSet::new();
    assert_eq!(chapter_select_key(&mut s, 2, ChapterKey::Open, &none), ChapterAction::OpenText { text_id: 100 });
    assert_eq!(chapter_select_key(&mut s, 2, ChapterKey::Down, &none), ChapterAction::Nothing);
    assert_eq!(s.selected, 1);
    assert_eq!(chapter_select_key(&mut s, 2, ChapterKey::Open, &none), ChapterAction::SkippedChapter);
    chapter_select_key(&mut s, 2, ChapterKey::Down, &none);
    assert_eq!(s.selected, 2);
    assert_eq!(s.page_start, 1);
    chapter_select_key(&mut s, 2, ChapterKey::Down, &none);
    assert_eq!(s.selected, 2);
    assert_eq!(
        chapter_select_key(&mut s, 2, ChapterKey::Open, &none),
        ChapterAction::ImportAndOpen { chapter_id: 3, chapter_number: 30, queue: true }
    );
    let busy: HashSet<i64> = [3].into_iter().collect();
    assert_eq!(
        chapter_select_key(&mut s, 2, ChapterKey::Open, &busy),
        ChapterAction::ImportAndOpen { chapter_id: 3, chapter_number: 30, queue: false }
    );
    assert_eq!(chapter_select_key(&mut s, 2, ChapterKey::ToggleSkip, &none), ChapterAction::ToggleSkip { chapter_id: 3 });
    assert_eq!(chapter_select_key(&mut s, 2, ChapterKey::Back, &none), ChapterAction::BackToLibrary);
    chapter_select_key(&mut s, 2, ChapterKey::PrevPage, &none);
    assert_eq!(s.page_start, 0);
    assert_eq!(s.selected, 0);
    chapter_select_key(&mut s, 2, ChapterKey::NextPage, &none);
    assert_eq!(s.page_start, 2);
    assert_eq!(s.selected, 2);
    chapter_select_key(&mut s, 2, ChapterKey::Up, &none);
    assert_eq!(s.selected, 1);
    assert_eq!(s.page_start, 1);
}

#[test]
fn chapters_of_other_sources_are_not_imported_here() {
    let mut s = list("epub", vec![chapter_of(1, None, false)], 0);
    let none = HashSet::new();
    assert_eq!(chapter_select_key(&mut s, 2, ChapterKey::Open, &none), ChapterAction::NotImported);
    assert_eq!(chapter_select_key(&mut s, 2, ChapterKey::Preprocess, &none), ChapterAction::Preprocess);
}

#[test]
fn skipping_a_chapter_updates_the_list() {
    let mut s = list("syosetu", vec![chapter_of(1, Some(5), false), chapter_of(2, None, false)], 0);
    s.chapter_read_states.insert(1, ChapterReadState::InProgress);
    apply_skip_toggle(&mut s, 1, true);
    assert!(s.chapters[0].is_skipped);
    assert_eq!(s.total_skipped, 1);
    assert!(!s.chapter_read_states.contains_key(&1));
    apply_skip_toggle(&mut s, 1, false);
    assert!(!s.chapters[0].is_skipped);
    assert_eq!(s.total_skipped, 0);
    assert_eq!(s.chapter_read_states.get(&1), Some(&ChapterReadState::Unread));
    apply_skip_toggle(&mut s, 2, false);
    assert_eq!(s.chapter_read_states.get(&2), Some(&ChapterReadState::NotImported));
    assert_eq!(s.total_skipped, 0);
}

fn word(surface: &str, trivial: bool) -> TokenDisplay {
    TokenDisplay {
        surface: surface.to_string(),
        base_form: surface.to_string(),
        reading: String::new(),
        surface_reading: String::new(),
        pos: String::new(),
        vocabulary_status: VocabularyStatus::New,
        is_selected: false,
        short_gloss: String::new(),
        conjugation_form: String::new(),
        conjugation_type: String::new(),
        is_trivial: trivial,
        group_id: None,
        is_group_head: false,
        conjugation_desc: String::new(),
        mwe_gloss: String::new(),
    }
}

fn sentence(words: &[(&str, bool)]) -> SentenceData {
    SentenceData {
        paragraph_idx: 0,
        start_token: 0,
        end_token: words.len(),
        tokens: words.iter().map(|(w, t)| word(w, *t)).collect(),
        text: words.iter().map(|(w, _)| *w).collect(),
    }
}

fn reader(sentences: Vec<SentenceData>) -> ReaderState {
    ReaderState {
        text_id: 1,
        text_title: "本".to_string(),
        paragraphs: Vec::new(),
        sentences,
        sentence_index: 0,
        word_index: None,
        vocabulary_cache: HashMap::new(),
        gloss_cache: HashMap::new(),
        scroll_offset: 0,
        sidebar_scroll: 3,
        autopromote_enabled: true,
        autopromote_history: Vec::new(),
        show_all_readings: false,
        show_known_in_sidebar: false,
        mwe_matches: Vec::new(),
        expression_mark: None,
    }
}

#[test]
fn reader_keys_move_between_words_and_sentences() {
    let mut r = reader(vec![
        sentence(&[("猫", false), ("が", true), ("鳴く", false)]),
        sentence(&[("。", true), ("犬", false)]),
    ]);
    assert_eq!(reader_key(&mut r, ReaderKey::Right), ReaderAction::Nothing);
    assert_eq!(r.word_index, Some(0));
    reader_key(&mut r, ReaderKey::Right);
    assert_eq!(r.word_index, Some(2));
    assert_eq!(
        reader_key(&mut r, ReaderKey::Right),
        ReaderAction::Departed { sentence: 0, at_end: false }
    );
    assert_eq!(r.sentence_index, 1);
    assert_eq!(r.word_index, Some(1));
    assert_eq!(r.sidebar_scroll, 0);
    assert_eq!(
        reader_key(&mut r, ReaderKey::Right),
        ReaderAction::Departed { sentence: 1, at_end: true }
    );
    reader_key(&mut r, ReaderKey::Left);
    assert_eq!(r.sentence_index, 0);
    assert_eq!(r.word_index, Some(2));
    assert_eq!(reader_key(&mut r, ReaderKey::MarkExpression), ReaderAction::ExpressionStarted);
    assert_eq!(r.expression_mark, Some((2, 2)));
    assert_eq!(reader_key(&mut r, ReaderKey::Escape), ReaderAction::Nothing);
    assert_eq!(r.word_index, None);
    assert_eq!(reader_key(&mut r, ReaderKey::Escape), ReaderAction::Leave);
    assert_eq!(reader_key(&mut r, ReaderKey::MarkExpression), ReaderAction::SelectWordFirst);
    assert_eq!(
        reader_key(&mut r, ReaderKey::Down),
        ReaderAction::Departed { sentence: 0, at_end: false }
    );
    assert_eq!(r.sentence_index, 1);
    assert_eq!(reader_key(&mut r, ReaderKey::Up), ReaderAction::SaveProgress);
    assert_eq!(r.sentence_index, 0);
    reader_key(&mut r, ReaderKey::ToggleAutopromote);
    assert!(!r.autopromote_enabled);
    reader_key(&mut r, ReaderKey::ToggleAllReadings);
    assert!(r.show_all_readings);
}

#[test]
fn marking_extends_within_the_sentence() {
    let mut r = reader(vec![sentence(&[("お", false), ("茶", false), ("を", true)])]);
    r.word_index = Some(1);
    r.expression_mark = Some((1, 1));
    assert_eq!(expression_key(&mut r, ExpressionKey::Left), ExpressionAction::ShowPreview);
    assert_eq!(r.expression_mark, Some((0, 1)));
    expression_key(&mut r, ExpressionKey::Left);
    assert_eq!(r.expression_mark, Some((0, 1)));
    expression_key(&mut r, ExpressionKey::Right);
    expression_key(&mut r, ExpressionKey::Right);
    assert_eq!(r.expression_mark, Some((0, 2)));
    assert_eq!(expression_preview(&r), Some("お茶を".to_string()));
    assert_eq!(expression_key(&mut r, ExpressionKey::Save), ExpressionAction::SaveExpression);
    assert_eq!(expression_key(&mut r, ExpressionKey::Cancel), ExpressionAction::Cancelled);
    assert_eq!(r.expression_mark, None);
    assert_eq!(expression_preview(&r), None);
}

#[test]
fn popups_edit_scroll_and_submit() {
    let (next, action) = popup_key(PopupState::UrlInput { text: "ab".to_string() }, PopupKey::Char('c'));
    assert!(matches!(action, PopupAction::Nothing));
    let next = next.unwrap();
    assert!(matches!(&next, PopupState::UrlInput { text } if text == "abc"));
    let (next, _) = popup_key(next, PopupKey::Backspace);
    let (next, action) = popup_key(next.unwrap(), PopupKey::Enter);
    assert!(next.is_none());
    assert!(matches!(action, PopupAction::ImportUrl { url } if url == "ab"));

    let (next, _) = popup_key(PopupState::Help { scroll: 0 }, PopupKey::Char('k'));
    assert!(matches!(next, Some(PopupState::Help { scroll: 0 })));
    let (next, _) = popup_key(PopupState::Help { scroll: 0 }, PopupKey::Down);
    assert!(matches!(next, Some(PopupState::Help { scroll: 1 })));
    let (next, _) = popup_key(PopupState::Help { scroll: 1 }, PopupKey::Char('?'));
    assert!(next.is_none());

    let (next, action) = popup_key(PopupState::ImportMenu, PopupKey::Char('s'));
    assert!(matches!(next, Some(PopupState::SyosetuInput { ref text }) if text.is_empty()));
    assert!(matches!(action, PopupAction::Nothing));
    let (next, action) = popup_key(PopupState::ImportMenu, PopupKey::Char('c'));
    assert!(next.is_none());
    assert!(matches!(action, PopupAction::ImportClipboard));

    let confirm = PopupState::DeleteConfirm { text_id: 4, title: "本".to_string() };
    let (next, action) = popup_key(confirm, PopupKey::Char('Y'));
    assert!(next.is_none());
    assert!(matches!(action, PopupAction::DeleteText { text_id: 4, ref title } if title == "本"));
    let (next, action) = popup_key(PopupState::QuitConfirm, PopupKey::Char('y'));
    assert!(matches!(next, Some(PopupState::QuitConfirm)));
    assert!(matches!(action, PopupAction::Quit));
    let (next, action) = popup_key(PopupState::SearchInput { text: "猫".to_string() }, PopupKey::Esc);
    assert!(next.is_none());
    assert!(matches!(action, PopupAction::RefreshLibrary));

    let expr = PopupState::ExpressionTranslation {
        surface: "お茶".to_string(),
        reading: "おちゃ".to_string(),
        gloss: "te".to_string(),
    };
    let (next, _) = popup_key(expr, PopupKey::Char('a'));
    assert!(matches!(next, Some(PopupState::ExpressionTranslation { ref gloss, .. }) if gloss == "tea"));
}

fn text_of(id: i64, total: i64, last: i64) -> Text {
    Text {
        id,
        title: format!("本{}", id),
        source_url: None,
        source_type: "text".to_string(),
        content: String::new(),
        language: "ja".to_string(),
        created_at: String::new(),
        last_read_at: None,
        last_sentence_index: last,
        total_sentences: total,
    }
}

#[test]
fn library_keys_select_open_and_delete() {
    let mut lib = LibraryState {
        items: vec![LibraryItem::Text(text_of(3, 10, 0)), LibraryItem::Source(web_source("syosetu"))],
        stats: HashMap::new(),
        source_chapter_counts: HashMap::new(),
        selected: 0,
        sort: LibrarySort::DateDesc,
        filter_source: None,
        source_types: Vec::new(),
    };
    assert!(matches!(library_key(&mut lib, LibraryKey::Open), ScreenAction::OpenText { text_id: 3 }));
    library_key(&mut lib, LibraryKey::Down);
    library_key(&mut lib, LibraryKey::Down);
    assert_eq!(lib.selected, 1);
    assert!(matches!(library_key(&mut lib, LibraryKey::Open), ScreenAction::OpenSource { source_id: 7 }));
    assert!(matches!(
        library_key(&mut lib, LibraryKey::Delete),
        ScreenAction::ShowPopup { popup: PopupState::DeleteSourceConfirm { source_id: 7, ref title } } if title == "小説"
    ));
    assert!(matches!(library_key(&mut lib, LibraryKey::Back), ScreenAction::BackHome));
}

#[test]
fn home_keys_walk_the_listed_texts() {
    let mut home = HomeState {
        recent_texts: vec![text_of(1, 5, 4), text_of(2, 5, 1), text_of(3, 0, 0)],
        recent_stats: HashMap::new(),
        selected: 0,
        show_finished: false,
    };
    assert!(matches!(home_key(&mut home, HomeKey::Open), ScreenAction::OpenText { text_id: 2 }));
    home_key(&mut home, HomeKey::Down);
    home_key(&mut home, HomeKey::Down);
    assert_eq!(home.selected, 1);
    assert!(matches!(home_key(&mut home, HomeKey::Open), ScreenAction::OpenText { text_id: 3 }));
    home_key(&mut home, HomeKey::ToggleFinished);
    assert!(home.show_finished);
    assert!(matches!(home_key(&mut home, HomeKey::Open), ScreenAction::OpenText { text_id: 2 }));
    assert!(matches!(home_key(&mut home, HomeKey::Stats), ScreenAction::OpenStats));
}

#[test]
fn import_events_are_followed() {
    let mut t = ImportTracker::new();
    let screen = Screen::ChapterSelect { source_id: 7 };
    let r = t.handle_import_event(&screen, ImportEvent::Started { source_id: 7, chapter_id: 11, chapter_number: 2 });
    assert!(matches!(r.notice, Some(ImportNotice::Preprocessing { chapter_number: 2 })));
    assert!(t.preprocessing_chapters.contains(&11));
    assert_eq!(t.preprocessing_progress.get(&11), Some(&("fetch", 0u8)));
    t.handle_import_event(&screen, ImportEvent::Progress { chapter_id: 11, phase: "tokenize", percent: 50 });
    assert_eq!(t.preprocessing_progress.get(&11), Some(&("tokenize", 50u8)));
    let r = t.handle_import_event(
        &screen,
        ImportEvent::Completed { source_id: 7, chapter_id: 11, chapter_number: 2, text_id: 99 },
    );
    assert!(!t.preprocessing_chapters.contains(&11));
    assert_eq!(r.reload_source, Some(7));
    assert!(r.start_preprocessing);
    assert_eq!(r.open_text, None);

    t.pending_open_chapter = Some(12);
    let r = t.handle_import_event(
        &screen,
        ImportEvent::Completed { source_id: 7, chapter_id: 12, chapter_number: 3, text_id: 100 },
    );
    assert_eq!(r.open_text, Some((7, 100)));
    assert_eq!(t.pending_open_chapter, None);

    t.handle_import_event(&Screen::Home, ImportEvent::TextImportStarted { label: "a.txt".to_string() });
    t.handle_import_event(&Screen::Home, ImportEvent::TextImportStarted { label: "b.txt".to_string() });
    let r = t.handle_import_event(
        &Screen::Home,
        ImportEvent::TextImportFailed { label: "b.txt".to_string(), error: "bad".to_string() },
    );
    assert_eq!(t.pending_imports, vec!["a.txt".to_string()]);
    assert!(matches!(r.notice, Some(ImportNotice::ImportFailed { .. })));
    let r = t.handle_import_event(&Screen::Library, ImportEvent::TextImportCompleted { title: "A".to_string() });
    assert!(t.pending_imports.is_empty());
    assert!(r.refresh_list);

    let r = t.handle_import_event(
        &screen,
        ImportEvent::ChaptersPageLoaded { source_id: 7, page: 2, total_so_far: 100, has_next: true },
    );
    assert_eq!(r.loading, Some(true));
    assert!(matches!(r.notice, Some(ImportNotice::LoadingChapters { page: 2, total_so_far: 100 })));
    let r = t.handle_import_event(&Screen::Home, ImportEvent::NovelInfoLoaded { source_id: 7, title: "T".to_string() });
    assert_eq!(r.reload_source, None);
    assert!(!r.start_preprocessing);
}

fn grouped(surface: &str, status: VocabularyStatus, group: Option<usize>, head: bool) -> TokenDisplay {
    let mut t = word(surface, false);
    t.vocabulary_status = status;
    t.group_id = group;
    t.is_group_head = head;
    t
}

#[test]
fn autopromotion_takes_each_new_word_once() {
    let mut s = sentence(&[]);
    s.tokens = vec![
        grouped("猫", VocabularyStatus::New, None, false),
        grouped("犬", VocabularyStatus::Known, None, false),
        grouped("食べ", VocabularyStatus::New, Some(0), true),
        grouped("た", VocabularyStatus::New, Some(0), false),
        grouped("猫", VocabularyStatus::New, None, false),
        word("が", true),
    ];
    let mut r = reader(vec![s]);
    assert_eq!(
        promotion_candidates(&r, 0),
        vec![("猫".to_string(), "".to_string()), ("食べ".to_string(), "".to_string())]
    );
    assert!(promotion_candidates(&r, 1).is_empty());
    r.autopromote_enabled = false;
    assert!(promotion_candidates(&r, 0).is_empty());
}

#[test]
fn word_status_spreads_to_its_groups_and_undo_reverts_the_word() {
    let mut s = sentence(&[]);
    s.tokens = vec![
        grouped("食べ", VocabularyStatus::New, Some(0), true),
        grouped("た", VocabularyStatus::New, Some(0), false),
        grouped("猫", VocabularyStatus::New, None, false),
    ];
    let mut sentences = vec![s];
    set_word_status_in_sentences(&mut sentences, "食べ", "", VocabularyStatus::Known, true);
    assert_eq!(sentences[0].tokens[0].vocabulary_status, VocabularyStatus::Known);
    assert_eq!(sentences[0].tokens[1].vocabulary_status, VocabularyStatus::Known);
    assert_eq!(sentences[0].tokens[2].vocabulary_status, VocabularyStatus::New);
    set_word_status_in_sentences(&mut sentences, "食べ", "", VocabularyStatus::New, false);
    assert_eq!(sentences[0].tokens[0].vocabulary_status, VocabularyStatus::New);
    assert_eq!(sentences[0].tokens[1].vocabulary_status, VocabularyStatus::Known);
}

#[test]
fn library_filter_cycles_through_the_source_types() {
    let types = vec!["epub".to_string(), "text".to_string()];
    assert_eq!(next_filter(&types, &None), Some(Some("epub".to_string())));
    assert_eq!(next_filter(&types, &Some("epub".to_string())), Some(Some("text".to_string())));
    assert_eq!(next_filter(&types, &Some("text".to_string())), Some(None));
    assert_eq!(next_filter(&types, &Some("web".to_string())), Some(Some("text".to_string())));
    assert_eq!(next_filter(&Vec::new(), &None), None);
}

#[test]
fn preprocessing_covers_the_next_unread_chapters() {
    let mut chapters = vec![
        chapter_of(1, Some(10), false),
        chapter_of(2, Some(20), false),
        chapter_of(3, None, true),
        chapter_of(4, None, false),
        chapter_of(5, None, false),
        chapter_of(6, None, false),
    ];
    chapters[0].chapter_number = 1;
    let mut s = list("syosetu", chapters, 0);
    s.chapter_read_states.insert(1, ChapterReadState::Finished);
    s.chapter_read_states.insert(2, ChapterReadState::Unread);
    let busy: HashSet<i64> = [4].into_iter().collect();
    assert_eq!(chapters_to_preprocess(&s, 3, &busy), vec![(5, 50)]);
    assert_eq!(chapters_to_preprocess(&s, 4, &HashSet::new()), vec![(4, 40), (5, 50), (6, 60)]);
    assert!(chapters_to_preprocess(&s, 0, &HashSet::new()).is_empty());
}

#[test]
fn chapter_reading_state_follows_progress() {
    assert_eq!(chapter_read_state(&None), ChapterReadState::NotImported);
    assert_eq!(chapter_read_state(&Some(text_of(1, 0, 0))), ChapterReadState::Unread);
    assert_eq!(chapter_read_state(&Some(text_of(1, 10, 0))), ChapterReadState::Unread);
    assert_eq!(chapter_read_state(&Some(text_of(1, 10, 4))), ChapterReadState::InProgress);
    assert_eq!(chapter_read_state(&Some(text_of(1, 10, 9))), ChapterReadState::Finished);
}

#[test]
fn only_a_selected_word_gets_a_status() {
    let mut r = reader(vec![sentence(&[("猫", false), ("。", true)])]);
    assert!(matches!(selected_word(&r), SelectedWord::NoneSelected));
    r.word_index = Some(1);
    assert!(matches!(selected_word(&r), SelectedWord::Trivial));
    r.word_index = Some(5);
    assert!(matches!(selected_word(&r), SelectedWord::OutOfRange));
    r.word_index = Some(0);
    assert!(matches!(selected_word(&r), SelectedWord::Word { ref base_form, .. } if base_form == "猫"));
}

#[test]
fn word_details_show_the_whole_expression_and_its_meaning() {
    let mut head = grouped("気", VocabularyStatus::New, Some(3), true);
    head.mwe_gloss = "to notice".to_string();
    let toks = vec![
        grouped("猫", VocabularyStatus::New, None, false),
        head,
        grouped("が", VocabularyStatus::New, Some(3), false),
        grouped("付く", VocabularyStatus::New, Some(3), false),
    ];
    assert_eq!(expression_surface(&toks, 1), Some("気が付く".to_string()));
    assert_eq!(expression_surface(&toks, 0), None);
    assert_eq!(
        detail_notes(true, Some("to notice".to_string()), Some("memo".to_string())),
        Some("to notice\nmemo".to_string())
    );
    assert_eq!(detail_notes(true, Some("to notice".to_string()), None), Some("to notice".to_string()));
    assert_eq!(detail_notes(false, Some("to notice".to_string()), None), None);
    assert_eq!(detail_notes(false, None, Some("memo".to_string())), Some("memo".to_string()));
}

#[test]
fn layout_and_spinner() {
    assert_eq!(chapter_page_size_for_terminal(Some(30)), 22);
    assert_eq!(chapter_page_size_for_terminal(Some(10)), 5);
    assert_eq!(chapter_page_size_for_terminal(None), 32);
    assert_eq!(spinner_char(0), '⠋');
    assert_eq!(spinner_char(3), '⠙');
    assert_eq!(spinner_char(29), '⠏');
    assert_eq!(spinner_char(30), '⠋');
}

#[test]
fn scrolling_shows_a_chapter_inside_a_named_group() {
    let mut chapters = vec![chapter_of(1, None, false), chapter_of(2, None, false), chapter_of(3, None, false)];
    for c in chapters.iter_mut() {
        c.chapter_group = "第一章".to_string();
    }
    let mut s = list("syosetu", chapters, 2);
    s.page_size = 2;
    ensure_selected_visible(&mut s);
    assert_eq!(s.page_start, 2);
    assert!(s.visible_chapters().iter().any(|c| c.id == 3));
}

#[test]
fn import_notices_read_as_status_lines() {
    assert_eq!(ImportNotice::Preprocessing { chapter_number: 3 }.message(), "Preprocessing chapter 3...");
    assert_eq!(ImportNotice::Ready { chapter_number: 12 }.message(), "Chapter 12 ready");
    assert_eq!(
        ImportNotice::Failed { chapter_number: 4, error: "timeout".to_string() }.message(),
        "Chapter 4 failed: timeout"
    );
    assert_eq!(
        ImportNotice::LoadingChapters { page: 2, total_so_far: 150 }.message(),
        "Loading chapters... page 2, 150 so far"
    );
    assert_eq!(ImportNotice::NovelLoaded { title: "小説".to_string() }.message(), "Loaded: 小説");
    assert_eq!(
        ImportNotice::NovelFailed { ncode: "n1".to_string(), error: "404".to_string() }.message(),
        "Failed to load n1: 404"
    );
    assert_eq!(ImportNotice::Imported { title: "本".to_string() }.message(), "Imported: 本");
    assert_eq!(
        ImportNotice::ImportFailed { label: "a.txt".to_string(), error: "empty".to_string() }.message(),
        "Import failed (a.txt): empty"
    );
}

#[test]
fn undoing_an_autopromotion_sets_its_words_back_to_new() {
    let mut r = reader(vec![sentence(&[("猫", false), ("犬", false)]), sentence(&[("猫", false)])]);
    for s in r.sentences.iter_mut() {
        for t in s.tokens.iter_mut() {
            t.vocabulary_status = VocabularyStatus::Known;
        }
    }
    r.autopromote_history.push(AutopromotionBatch { sentence_index: 0, words: vec![("猫".to_string(), String::new(), 1)] });
    let batch = undo_last_autopromotion(&mut r).unwrap();
    assert_eq!(batch.sentence_index, 0);
    assert!(r.autopromote_history.is_empty());
    assert_eq!(r.sentences[0].tokens[0].vocabulary_status, VocabularyStatus::New);
    assert_eq!(r.sentences[0].tokens[1].vocabulary_status, VocabularyStatus::Known);
    assert_eq!(r.sentences[1].tokens[0].vocabulary_status, VocabularyStatus::New);
    assert!(undo_last_autopromotion(&mut r).is_none());
}
