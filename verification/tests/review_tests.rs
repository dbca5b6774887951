use kotoba::review::{
    card_list_key, integer_text, review_key, settings_key, CardAction, CardKey, CardListCursor, ReviewAction,
    ReviewCard, ReviewKey, ReviewPhase, ReviewState, SettingsAction, SettingsCategory, SettingsItem,
    SettingsKey, SettingsState, SettingsValue,
};
use kotoba::srs::Rating;

fn session(phase: ReviewPhase, sentence: &str, tokens: usize) -> Option<ReviewState> {
    Some(ReviewState {
        phase,
        queue: vec![ReviewCard {
            card_id: 5,
            sentence_text: sentence.to_string(),
            sentence_tokens: (0..tokens).map(|i| format!("w{}", i)).collect(),
        }],
        current_index: 0,
        context_word_index: None,
        typed_input: String::new(),
        auto_rating: None,
    })
}

#[test]
fn review_pre_session_keys() {
    let mut s = session(ReviewPhase::PreSession, "猫がいる", 3);
    assert!(matches!(review_key(&mut s, ReviewKey::Enter), ReviewAction::Begin));
    assert!(matches!(review_key(&mut s, ReviewKey::Char(' ')), ReviewAction::Begin));
    assert!(s.is_some());
    assert!(matches!(review_key(&mut s, ReviewKey::Esc), ReviewAction::Leave));
    assert!(s.is_none());
}

#[test]
fn review_front_reveals_or_opens_the_selected_word() {
    let mut s = session(ReviewPhase::ShowFront, "猫がいる", 3);
    assert!(matches!(review_key(&mut s, ReviewKey::Enter), ReviewAction::Reveal));
    assert!(matches!(review_key(&mut s, ReviewKey::Char(' ')), ReviewAction::Reveal));
    assert!(matches!(review_key(&mut s, ReviewKey::Left), ReviewAction::Nothing));
    assert_eq!(s.as_ref().unwrap().context_word_index, Some(0));
    assert!(matches!(review_key(&mut s, ReviewKey::Enter), ReviewAction::OpenWordDetail));
}

#[test]
fn review_word_selection_stays_in_the_sentence() {
    let mut s = session(ReviewPhase::ShowFront, "猫がいる", 3);
    review_key(&mut s, ReviewKey::Right);
    assert_eq!(s.as_ref().unwrap().context_word_index, Some(0));
    review_key(&mut s, ReviewKey::Right);
    review_key(&mut s, ReviewKey::Right);
    review_key(&mut s, ReviewKey::Right);
    assert_eq!(s.as_ref().unwrap().context_word_index, Some(2));
    review_key(&mut s, ReviewKey::Char('h'));
    assert_eq!(s.as_ref().unwrap().context_word_index, Some(1));
    review_key(&mut s, ReviewKey::Left);
    review_key(&mut s, ReviewKey::Left);
    assert_eq!(s.as_ref().unwrap().context_word_index, Some(0));
}

#[test]
fn review_analysis_needs_a_sentence() {
    let mut s = session(ReviewPhase::ShowBack, "猫がいる", 3);
    match review_key(&mut s, ReviewKey::CtrlChar('l')) {
        ReviewAction::AnalyzeSentence { sentence } => assert_eq!(sentence, "猫がいる"),
        _ => panic!("expected an analysis"),
    }
    let mut empty = session(ReviewPhase::ShowFront, "", 0);
    assert!(matches!(review_key(&mut empty, ReviewKey::CtrlChar('l')), ReviewAction::NoSentence));
    assert!(matches!(review_key(&mut empty, ReviewKey::Char('l')), ReviewAction::Nothing));
}

#[test]
fn review_back_ratings() {
    let mut s = session(ReviewPhase::ShowBack, "猫がいる", 3);
    assert!(matches!(review_key(&mut s, ReviewKey::Char('1')), ReviewAction::Rate { rating: Rating::Again }));
    assert!(matches!(review_key(&mut s, ReviewKey::Char('2')), ReviewAction::Rate { rating: Rating::Hard }));
    assert!(matches!(review_key(&mut s, ReviewKey::Char('3')), ReviewAction::Rate { rating: Rating::Good }));
    assert!(matches!(review_key(&mut s, ReviewKey::Char(' ')), ReviewAction::Rate { rating: Rating::Good }));
    assert!(matches!(review_key(&mut s, ReviewKey::Char('4')), ReviewAction::Rate { rating: Rating::Easy }));
    assert!(matches!(review_key(&mut s, ReviewKey::Enter), ReviewAction::Nothing));
    s.as_mut().unwrap().auto_rating = Some(Rating::Hard);
    let mut r = session(ReviewPhase::ShowResult, "猫がいる", 3);
    r.as_mut().unwrap().auto_rating = Some(Rating::Hard);
    assert!(matches!(review_key(&mut r, ReviewKey::Enter), ReviewAction::Rate { rating: Rating::Hard }));
}

#[test]
fn review_typing_the_reading() {
    let mut s = session(ReviewPhase::TypingAnswer, "猫がいる", 3);
    review_key(&mut s, ReviewKey::Char('n'));
    review_key(&mut s, ReviewKey::Char('h'));
    review_key(&mut s, ReviewKey::Char('x'));
    review_key(&mut s, ReviewKey::Backspace);
    assert_eq!(s.as_ref().unwrap().typed_input, "nh");
    assert_eq!(s.as_ref().unwrap().context_word_index, None);
    assert!(matches!(review_key(&mut s, ReviewKey::Enter), ReviewAction::SubmitTyped));
    assert!(matches!(review_key(&mut s, ReviewKey::Esc), ReviewAction::Reveal));
    assert!(s.is_some());
}

#[test]
fn review_summary_keys() {
    let mut s = session(ReviewPhase::SessionSummary, "", 0);
    assert!(matches!(review_key(&mut s, ReviewKey::Char('r')), ReviewAction::NewSession));
    assert!(matches!(review_key(&mut s, ReviewKey::Enter), ReviewAction::Leave));
    assert!(s.is_none());
    let mut none: Option<ReviewState> = None;
    assert!(matches!(review_key(&mut none, ReviewKey::Esc), ReviewAction::Leave));
}

#[test]
fn card_browser_pages_follow_the_selection() {
    let filtered: Vec<usize> = (0..7).collect();
    let ids: Vec<i64> = (100..107).collect();
    let mut c = CardListCursor { selected: 2, page_start: 0, page_size: 3 };
    assert_eq!(card_list_key(&mut c, CardKey::Down, &filtered, &ids), CardAction::Nothing);
    assert_eq!(c, CardListCursor { selected: 3, page_start: 3, page_size: 3 });
    card_list_key(&mut c, CardKey::Up, &filtered, &ids);
    assert_eq!(c, CardListCursor { selected: 2, page_start: 0, page_size: 3 });
    card_list_key(&mut c, CardKey::Right, &filtered, &ids);
    card_list_key(&mut c, CardKey::Right, &filtered, &ids);
    assert_eq!(c, CardListCursor { selected: 6, page_start: 6, page_size: 3 });
    card_list_key(&mut c, CardKey::Right, &filtered, &ids);
    assert_eq!(c.page_start, 6);
    card_list_key(&mut c, CardKey::Down, &filtered, &ids);
    assert_eq!(c.selected, 6);
    card_list_key(&mut c, CardKey::Left, &filtered, &ids);
    assert_eq!(c, CardListCursor { selected: 3, page_start: 3, page_size: 3 });
    assert_eq!(card_list_key(&mut c, CardKey::Filter, &filtered, &ids), CardAction::CycleFilter);
    assert_eq!(c, CardListCursor { selected: 0, page_start: 0, page_size: 3 });
}

#[test]
fn card_browser_acts_on_the_selected_card() {
    let filtered: Vec<usize> = vec![4, 1];
    let ids: Vec<i64> = vec![10, 11, 12, 13, 14];
    let mut c = CardListCursor { selected: 1, page_start: 0, page_size: 10 };
    assert_eq!(card_list_key(&mut c, CardKey::Reset, &filtered, &ids), CardAction::ResetCard { card_id: 11 });
    c.selected = 0;
    assert_eq!(card_list_key(&mut c, CardKey::Delete, &filtered, &ids), CardAction::ConfirmDelete { card_id: 14 });
    c.selected = 5;
    assert_eq!(card_list_key(&mut c, CardKey::Delete, &filtered, &ids), CardAction::Nothing);
    assert_eq!(card_list_key(&mut c, CardKey::Sort, &filtered, &ids), CardAction::CycleSort);
    assert_eq!(card_list_key(&mut c, CardKey::Open, &filtered, &ids), CardAction::OpenDetail);
    assert_eq!(card_list_key(&mut c, CardKey::Back, &filtered, &ids), CardAction::Leave);
}

fn item(key: &str, value: SettingsValue) -> SettingsItem {
    SettingsItem { key: key.to_string(), label: key.to_string(), value }
}

fn settings() -> SettingsState {
    SettingsState {
        categories: vec![
            SettingsCategory {
                name: "General".to_string(),
                items: vec![
                    item(
                        "general.theme",
                        SettingsValue::Choice(
                            "dark".to_string(),
                            vec!["light".to_string(), "dark".to_string(), "sepia".to_string()],
                        ),
                    ),
                    item("general.furigana", SettingsValue::Bool(true)),
                ],
            },
            SettingsCategory {
                name: "Reader".to_string(),
                items: vec![
                    item("reader.lines", SettingsValue::Integer(-42)),
                    item("reader.font", SettingsValue::Text("Noto".to_string())),
                ],
            },
        ],
        selected_category: 0,
        selected_item: 0,
        editing: false,
        edit_buffer: String::new(),
        dirty: false,
    }
}

#[test]
fn settings_navigation() {
    let mut s = settings();
    settings_key(&mut s, SettingsKey::Down);
    settings_key(&mut s, SettingsKey::Char('j'));
    assert_eq!((s.selected_category, s.selected_item), (1, 0));
    settings_key(&mut s, SettingsKey::Up);
    assert_eq!((s.selected_category, s.selected_item), (0, 1));
    settings_key(&mut s, SettingsKey::Tab);
    assert_eq!((s.selected_category, s.selected_item), (1, 0));
    settings_key(&mut s, SettingsKey::Down);
    settings_key(&mut s, SettingsKey::Down);
    assert_eq!((s.selected_category, s.selected_item), (1, 1));
    settings_key(&mut s, SettingsKey::Char('h'));
    assert_eq!((s.selected_category, s.selected_item), (0, 0));
    settings_key(&mut s, SettingsKey::Left);
    settings_key(&mut s, SettingsKey::Up);
    assert_eq!((s.selected_category, s.selected_item), (0, 0));
}

#[test]
fn settings_choice_cycles_and_previews_the_theme() {
    let mut s = settings();
    match settings_key(&mut s, SettingsKey::Enter) {
        SettingsAction::PreviewTheme { theme } => assert_eq!(theme, "sepia"),
        _ => panic!("expected a theme preview"),
    }
    assert!(s.dirty);
    settings_key(&mut s, SettingsKey::Char(' '));
    match &s.categories[0].items[0].value {
        SettingsValue::Choice(cur, opts) => {
            assert_eq!(cur, "light");
            assert_eq!(opts.len(), 3);
        }
        _ => panic!("expected a choice"),
    }
}

#[test]
fn settings_switch_flips() {
    let mut s = settings();
    s.selected_item = 1;
    assert!(matches!(settings_key(&mut s, SettingsKey::Enter), SettingsAction::Nothing));
    assert!(matches!(s.categories[0].items[1].value, SettingsValue::Bool(false)));
    settings_key(&mut s, SettingsKey::Enter);
    assert!(matches!(s.categories[0].items[1].value, SettingsValue::Bool(true)));
}

#[test]
fn settings_number_edit() {
    let mut s = settings();
    s.selected_category = 1;
    settings_key(&mut s, SettingsKey::Enter);
    assert!(s.editing);
    assert_eq!(s.edit_buffer, "-42");
    settings_key(&mut s, SettingsKey::Backspace);
    settings_key(&mut s, SettingsKey::Backspace);
    settings_key(&mut s, SettingsKey::Backspace);
    settings_key(&mut s, SettingsKey::Char('1'));
    settings_key(&mut s, SettingsKey::Char('7'));
    settings_key(&mut s, SettingsKey::Enter);
    assert!(!s.editing);
    assert!(s.edit_buffer.is_empty());
    assert!(matches!(s.categories[1].items[0].value, SettingsValue::Integer(17)));
    assert!(s.dirty);
}

#[test]
fn settings_number_edit_refuses_a_non_number() {
    let mut s = settings();
    s.selected_category = 1;
    settings_key(&mut s, SettingsKey::Enter);
    settings_key(&mut s, SettingsKey::Char('x'));
    settings_key(&mut s, SettingsKey::Enter);
    assert!(matches!(s.categories[1].items[0].value, SettingsValue::Integer(-42)));
    assert!(!s.dirty);
    assert!(!s.editing);
}

#[test]
fn settings_text_edit_and_escape() {
    let mut s = settings();
    s.selected_category = 1;
    s.selected_item = 1;
    settings_key(&mut s, SettingsKey::Enter);
    assert_eq!(s.edit_buffer, "Noto");
    settings_key(&mut s, SettingsKey::Char('s'));
    settings_key(&mut s, SettingsKey::Esc);
    assert!(!s.editing);
    match &s.categories[1].items[1].value {
        SettingsValue::Text(t) => assert_eq!(t, "Noto"),
        _ => panic!("expected text"),
    }
    settings_key(&mut s, SettingsKey::Enter);
    settings_key(&mut s, SettingsKey::Char('s'));
    settings_key(&mut s, SettingsKey::Enter);
    match &s.categories[1].items[1].value {
        SettingsValue::Text(t) => assert_eq!(t, "Notos"),
        _ => panic!("expected text"),
    }
}

#[test]
fn settings_save_and_leave() {
    let mut s = settings();
    assert!(matches!(settings_key(&mut s, SettingsKey::Char('s')), SettingsAction::Save));
    assert!(matches!(settings_key(&mut s, SettingsKey::Esc), SettingsAction::Leave { save_first: false }));
    s.dirty = true;
    assert!(matches!(settings_key(&mut s, SettingsKey::Esc), SettingsAction::Leave { save_first: true }));
}

#[test]
fn integer_text_writes_decimal() {
    assert_eq!(integer_text(0), "0");
    assert_eq!(integer_text(1234), "1234");
    assert_eq!(integer_text(-7), "-7");
    assert_eq!(integer_text(i64::MIN), i64::MIN.to_string());
    assert_eq!(integer_text(i64::MAX), i64::MAX.to_string());
}
