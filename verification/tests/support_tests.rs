use kotoba::stats::{card_state_counts, known_words_series, tally_coverage};
use kotoba::background::{check_background_source, BackgroundImporter, ImportEvent, ImportTask, WorkerStep};
use kotoba::config::{
    default_cloze_ratio, default_llm_endpoint, default_max_tokens, default_model, default_new_cards,
    default_preprocess_ahead, default_review_order, default_sidebar_width, default_theme, default_true,
    join_path, AppConfig, GeneralConfig, LlmConfig, ReaderConfig, SrsConfig,
};
use kotoba::import::text::token_store_plan;
use kotoba::models::{tally_text_stats, VocabularyStatus};
use kotoba::stats::overview_stats;
use kotoba::text::split_lines;
use kotoba::tokenizer::TokenInfo;

fn info(surface: &str, base: &str, pos: &str) -> TokenInfo {
    TokenInfo {
        surface: surface.to_string(),
        base_form: base.to_string(),
        reading: String::new(),
        surface_reading: String::new(),
        pos: pos.to_string(),
        conjugation_form: String::new(),
        conjugation_type: String::new(),
    }
}

#[test]
fn config_defaults() {
    assert_eq!(default_theme(), "tokyo-night");
    assert_eq!(default_sidebar_width(), 30);
    assert!(default_true());
    assert_eq!(default_preprocess_ahead(), 3);
    assert_eq!(default_cloze_ratio(), 50);
    assert_eq!(default_new_cards(), 20);
    assert_eq!(default_review_order(), "due_first");
    assert_eq!(default_llm_endpoint(), "https://api.openai.com/v1");
    assert_eq!(default_model(), "gpt-4o");
    assert_eq!(default_max_tokens(), 2048);
    let c = AppConfig::default();
    assert!(c.general.db_path.is_none());
    assert_eq!(c.reader.sidebar_width, 30);
    assert_eq!(c.srs.sentence_cloze_ratio, 50);
    assert_eq!(c.llm.max_tokens, 2048);
    let r = ReaderConfig::default();
    assert!(r.furigana && r.sentence_gaps);
    let s = SrsConfig::default();
    assert_eq!(s.max_reviews_per_session, 0);
    let l = LlmConfig::default();
    assert!(l.api_key.is_empty());
}

#[test]
fn data_paths_resolve_under_the_data_dir() {
    assert_eq!(join_path("/home/u/.local/share", "kotoba"), "/home/u/.local/share/kotoba");
    assert_eq!(join_path("/data/", "kotoba"), "/data/kotoba");
    assert_eq!(join_path("", "kotoba"), "kotoba");
    let c = AppConfig::default();
    assert_eq!(c.db_path_in(Some("/d".to_string())), "/d/kotoba/kotoba.db");
    assert_eq!(c.jmdict_path_in(None), "./kotoba/JMdict_e.xml");
    let custom = AppConfig {
        general: GeneralConfig {
            db_path: Some("/tmp/x.db".to_string()),
            jmdict_path: None,
            theme: default_theme(),
        },
        ..AppConfig::default()
    };
    assert_eq!(custom.db_path_in(Some("/d".to_string())), "/tmp/x.db");
    assert_eq!(custom.db_path(), "/tmp/x.db");
}

#[test]
fn queue_puts_new_chapters_first_and_once() {
    let mut q = BackgroundImporter::new(3);
    assert_eq!(q.num_workers(), 3);
    assert!(q.queue_single(1, "syosetu", "n1", 10, 1, "/db"));
    assert!(!q.queue_single(1, "syosetu", "n1", 11, 2, "/db"));
    assert!(!q.queue_single(1, "syosetu", "n1", 10, 1, "/db"));
    assert!(q.is_queued(10) && q.is_queued(11));
    match q.next_task() {
        WorkerStep::Run(t) => {
            assert_eq!(t.chapter_id, 11);
            assert_eq!(t.source_type, "syosetu");
            assert_eq!(t.db_path, "/db");
        },
        _ => panic!("expected the chapter queued last to run first"),
    }
    assert!(q.is_in_flight(11));
    assert!(!q.is_queued(11));
    q.queue_single(1, "syosetu", "n1", 11, 2, "/db");
    assert!(!q.is_queued(11));
    q.finish_task(11);
    assert!(!q.is_in_flight(11));
}

#[test]
fn cancelled_chapters_leave_the_queue() {
    let mut q = BackgroundImporter::new(1);
    q.queue_single(1, "syosetu", "n1", 10, 1, "/db");
    q.queue_single(1, "syosetu", "n1", 11, 2, "/db");
    q.cancel_chapter(10);
    assert!(!q.is_queued(10));
    assert!(q.is_queued(11));
    match q.next_task() {
        WorkerStep::Run(t) => assert_eq!(t.chapter_id, 11),
        _ => panic!("expected a task"),
    }
    match q.next_task() {
        WorkerStep::Idle => {},
        _ => panic!("expected an empty queue"),
    }
}

#[test]
fn a_cancelled_task_is_skipped_and_reported() {
    let mut q = BackgroundImporter::new(1);
    q.queue_single(7, "syosetu", "n1", 20, 1, "/db");
    // cancel after queueing but keep it queued by re-queueing another first
    q.cancel_chapter(20);
    q.queue_single(7, "syosetu", "n1", 20, 1, "/db");
    match q.next_task() {
        WorkerStep::Skip(ImportEvent::Cancelled { source_id, chapter_id }) => {
            assert_eq!((source_id, chapter_id), (7, 20));
        },
        _ => panic!("expected the cancelled chapter to be skipped"),
    }
    assert!(!q.is_in_flight(20));
}

#[test]
fn outcome_events_report_how_a_task_ended() {
    let mut q = BackgroundImporter::new(1);
    let task = ImportTask {
        source_id: 1,
        chapter_id: 5,
        chapter_number: 3,
        source_type: "syosetu".to_string(),
        external_id: "n1".to_string(),
        db_path: "/db".to_string(),
    };
    match q.outcome_event(&task, Ok(42)) {
        ImportEvent::Completed { text_id, chapter_number, .. } => assert_eq!((text_id, chapter_number), (42, 3)),
        _ => panic!("expected Completed"),
    }
    match q.outcome_event(&task, Err("boom".to_string())) {
        ImportEvent::Failed { error, .. } => assert_eq!(error, "boom"),
        _ => panic!("expected Failed"),
    }
    q.cancel_chapter(5);
    match q.outcome_event(&task, Err("Cancelled".to_string())) {
        ImportEvent::Cancelled { chapter_id, .. } => assert_eq!(chapter_id, 5),
        _ => panic!("expected Cancelled"),
    }
}

#[test]
fn only_syosetu_is_imported_in_the_background() {
    assert!(check_background_source("syosetu").is_ok());
    assert_eq!(
        check_background_source("epub").unwrap_err(),
        "Background import not supported for source type: epub"
    );
}

#[test]
fn storing_tokens_decides_vocabulary_updates() {
    let p = token_store_plan(&info("食べた", "食べる", "Verb"));
    assert!(p.record_vocabulary && !p.auto_ignore && p.record_conjugation);
    let p = token_store_plan(&info("猫", "猫", "Noun"));
    assert!(p.record_vocabulary && !p.auto_ignore && !p.record_conjugation);
    let p = token_store_plan(&info("が", "が", "Particle"));
    assert!(p.record_vocabulary && p.auto_ignore);
    let p = token_store_plan(&info("。", "。", "Symbol"));
    assert!(!p.record_vocabulary && !p.auto_ignore && !p.record_conjugation);
    let p = token_store_plan(&info("猫", "", "Noun"));
    assert!(!p.record_vocabulary);
}

#[test]
fn stats_tally_status_rows() {
    let rows = vec![(5, 3), (1, 2), (3, 1), (0, 4), (-1, 6), (9, 7)];
    let t = tally_text_stats(100, &rows);
    assert_eq!(t.total_tokens, 100);
    assert_eq!(t.unique_vocab, 23);
    assert_eq!(t.known_count, 3);
    assert_eq!(t.learning_count, 3);
    assert_eq!(t.new_count, 11);
    let o = overview_stats(2, 5, &rows);
    assert_eq!((o.texts_finished, o.texts_reading), (2, 5));
    assert_eq!(o.known_words, 3);
    assert_eq!(o.learning_words, 3);
    assert_eq!(o.new_words, 7);
    assert_eq!(o.ignored_words, 6);
    assert_eq!(o.total_vocabulary, 19);
}

#[test]
fn status_codes_round_trip() {
    for v in -1..=5 {
        assert_eq!(VocabularyStatus::from_i32(v).to_i32(), v);
    }
    assert_eq!(VocabularyStatus::from_i32(42), VocabularyStatus::New);
}

#[test]
fn lines_drop_their_endings() {
    assert_eq!(split_lines("a\r\nb\n\nc"), vec!["a", "b", "", "c"]);
    assert_eq!(split_lines("x\n"), vec!["x"]);
    assert!(split_lines("").is_empty());
    assert_eq!(split_lines("y\r"), vec!["y\r"]);
}

#[test]
fn coverage_counts_sort_tokens_by_status() {
    let rows = vec![(5, 10), (1, 2), (3, 3), (0, 4), (-1, 6), (99, 1)];
    let c = tally_coverage(30, &rows);
    assert_eq!(c.total_tokens, 30);
    assert_eq!(c.known_tokens, 10);
    assert_eq!(c.learning_tokens, 5);
    assert_eq!(c.new_tokens, 5);
    assert_eq!(c.ignored_tokens, 6);
}

#[test]
fn card_states_are_counted() {
    let rows = vec![
        ("new".to_string(), 4),
        ("learning".to_string(), 2),
        ("relearning".to_string(), 1),
        ("review".to_string(), 7),
        ("retired".to_string(), 3),
        ("odd".to_string(), 5),
    ];
    let c = card_state_counts(&rows);
    assert_eq!(c.total_cards, 22);
    assert_eq!(c.cards_new, 4);
    assert_eq!(c.cards_learning, 3);
    assert_eq!(c.cards_review, 7);
    assert_eq!(c.cards_retired, 3);
}

#[test]
fn known_words_accumulate_from_the_baseline() {
    let daily = vec![("2024-01-01".to_string(), 3), ("2024-01-02".to_string(), 2)];
    let series = known_words_series(&daily, 10);
    assert_eq!(series, vec![("2024-01-01".to_string(), 13), ("2024-01-02".to_string(), 15)]);
    assert!(known_words_series(&Vec::new(), 10).is_empty());
}
