use kotoba::models::Token;
use kotoba::reader::{gloss_forms, ParagraphData};

fn tok(surface: &str, base: &str, pos: &str) -> Token {
    Token {
        id: 0,
        paragraph_id: 1,
        position: 0,
        surface: surface.to_string(),
        base_form: base.to_string(),
        reading: String::new(),
        surface_reading: String::new(),
        pos: pos.to_string(),
        conjugation_form: String::new(),
        conjugation_type: String::new(),
        sentence_index: 0,
    }
}

fn para(tokens: Vec<Token>) -> ParagraphData {
    ParagraphData { id: 1, position: 0, content: String::new(), db_tokens: tokens }
}

#[test]
fn gloss_forms_are_the_words_once_in_order() {
    let ps = vec![
        para(vec![tok("猫", "猫", "Noun"), tok("が", "が", "Particle"), tok("食べた", "食べる", "Verb")]),
        para(vec![tok("猫", "猫", "Noun"), tok("。", "。", "Punctuation"), tok("犬", "犬", "Noun")]),
        para(vec![tok("2024", "2024", "Noun")]),
    ];
    assert_eq!(gloss_forms(&ps), vec!["猫", "食べる", "犬"]);
    assert!(gloss_forms(&Vec::new()).is_empty());
}
