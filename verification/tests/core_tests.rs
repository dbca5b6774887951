use kotoba::dictionary::{DictEntry, Sense};
use kotoba::llm::build_user_message;

#[test]
fn test_short_gloss() {
    let entry = DictEntry {
        ent_seq: 1,
        kanji_forms: vec![],
        readings: vec!["あ".to_string()],
        senses: vec![
            Sense { pos: vec![], glosses: vec!["first meaning".to_string()], misc: vec![] },
            Sense { pos: vec![], glosses: vec!["second meaning".to_string()], misc: vec![] },
        ],
    };
    assert_eq!(entry.short_gloss(), "first meaning");
}

#[test]
fn test_build_user_message_no_context() {
    let msg = build_user_message("テスト", &[]);
    assert_eq!(msg, "テスト");
}

#[test]
fn test_build_user_message_with_context() {
    let ctx = vec!["前の文。".to_string(), "もう一つ。".to_string()];
    let msg = build_user_message("テスト", &ctx);
    assert_eq!(msg, "前の文。\nもう一つ。\nテスト");
}
