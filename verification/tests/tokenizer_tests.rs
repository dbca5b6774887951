use kotoba::romaji::romaji_to_hiragana;
use kotoba::tokenizer::{
    katakana_to_hiragana, map_pos, normalize_reading_input, split_paragraphs, split_sentences,
};

#[test]
fn test_katakana_to_hiragana() {
    assert_eq!(katakana_to_hiragana("タベル"), "たべる");
    assert_eq!(katakana_to_hiragana("ニホンゴ"), "にほんご");
    assert_eq!(katakana_to_hiragana("abc"), "abc");
}

#[test]
fn test_romaji_to_hiragana_basic_vowels() {
    assert_eq!(romaji_to_hiragana("a"), "あ");
    assert_eq!(romaji_to_hiragana("i"), "い");
    assert_eq!(romaji_to_hiragana("u"), "う");
    assert_eq!(romaji_to_hiragana("e"), "え");
    assert_eq!(romaji_to_hiragana("o"), "お");
}

#[test]
fn test_romaji_to_hiragana_consonant_vowel() {
    assert_eq!(romaji_to_hiragana("ka"), "か");
    assert_eq!(romaji_to_hiragana("ki"), "き");
    assert_eq!(romaji_to_hiragana("ku"), "く");
    assert_eq!(romaji_to_hiragana("ke"), "け");
    assert_eq!(romaji_to_hiragana("ko"), "こ");
    assert_eq!(romaji_to_hiragana("sa"), "さ");
    assert_eq!(romaji_to_hiragana("ta"), "た");
    assert_eq!(romaji_to_hiragana("na"), "な");
    assert_eq!(romaji_to_hiragana("ha"), "は");
    assert_eq!(romaji_to_hiragana("ma"), "ま");
    assert_eq!(romaji_to_hiragana("ra"), "ら");
    assert_eq!(romaji_to_hiragana("ya"), "や");
    assert_eq!(romaji_to_hiragana("wa"), "わ");
}

#[test]
fn test_romaji_to_hiragana_words() {
    assert_eq!(romaji_to_hiragana("taberu"), "たべる");
    assert_eq!(romaji_to_hiragana("nihongo"), "にほんご");
    assert_eq!(romaji_to_hiragana("arigatou"), "ありがとう");
    assert_eq!(romaji_to_hiragana("ohayou"), "おはよう");
    assert_eq!(romaji_to_hiragana("konnichiwa"), "こんにちわ");
}

#[test]
fn test_romaji_to_hiragana_special() {
    assert_eq!(romaji_to_hiragana("shi"), "し");
    assert_eq!(romaji_to_hiragana("chi"), "ち");
    assert_eq!(romaji_to_hiragana("tsu"), "つ");
    assert_eq!(romaji_to_hiragana("fu"), "ふ");
    assert_eq!(romaji_to_hiragana("sha"), "しゃ");
    assert_eq!(romaji_to_hiragana("cho"), "ちょ");
    assert_eq!(romaji_to_hiragana("nya"), "にゃ");
}

#[test]
fn test_romaji_to_hiragana_double_consonant() {
    assert_eq!(romaji_to_hiragana("kitte"), "きって");
    assert_eq!(romaji_to_hiragana("gakkou"), "がっこう");
    assert_eq!(romaji_to_hiragana("kekkon"), "けっこん");
}

#[test]
fn test_romaji_to_hiragana_n() {
    assert_eq!(romaji_to_hiragana("sanpo"), "さんぽ");
    assert_eq!(romaji_to_hiragana("sensei"), "せんせい");
    assert_eq!(romaji_to_hiragana("onna"), "おんな");
    assert_eq!(romaji_to_hiragana("nihon"), "にほん");
}

#[test]
fn test_romaji_to_hiragana_case_insensitive() {
    assert_eq!(romaji_to_hiragana("Taberu"), "たべる");
    assert_eq!(romaji_to_hiragana("NIHON"), "にほん");
}

#[test]
fn test_normalize_reading_input_romaji() {
    assert_eq!(normalize_reading_input("taberu"), "たべる");
    assert_eq!(normalize_reading_input("  taberu  "), "たべる");
}

#[test]
fn test_normalize_reading_input_katakana() {
    assert_eq!(normalize_reading_input("タベル"), "たべる");
}

#[test]
fn test_normalize_reading_input_hiragana_passthrough() {
    assert_eq!(normalize_reading_input("たべる"), "たべる");
}

#[test]
fn test_normalize_reading_input_kanji_passthrough() {
    assert_eq!(normalize_reading_input("食べる"), "食べる");
}

#[test]
fn test_split_paragraphs() {
    let text = "First paragraph.\n\nSecond paragraph.\n\nThird.";
    let paras = split_paragraphs(text);
    assert_eq!(paras.len(), 3);
    assert_eq!(paras[0], "First paragraph.");
}

#[test]
fn test_split_sentences() {
    let para = "吾輩は猫である。名前はまだ無い。";
    let sentences = split_sentences(para);
    assert_eq!(sentences.len(), 2);
    assert_eq!(sentences[0], "吾輩は猫である。");
    assert_eq!(sentences[1], "名前はまだ無い。");
}

#[test]
fn test_split_sentences_quoted() {
    let para = "友達が「美味しいよ！」と言っていた。次の文。";
    let sentences = split_sentences(para);
    assert_eq!(sentences.len(), 2);
    assert_eq!(sentences[0], "友達が「美味しいよ！」と言っていた。");
    assert_eq!(sentences[1], "次の文。");
}

#[test]
fn test_split_sentences_parenthesized() {
    let para = "（えっ、100%オーガニック！？）と、私は少し驚いた。";
    let sentences = split_sentences(para);
    assert_eq!(sentences.len(), 1);
    assert_eq!(sentences[0], "（えっ、100%オーガニック！？）と、私は少し驚いた。");
}

#[test]
fn test_split_sentences_nested_quotes() {
    let para = "彼は「彼女が『すごい！』と叫んだ」と言った。終わり。";
    let sentences = split_sentences(para);
    assert_eq!(sentences.len(), 2);
    assert_eq!(sentences[0], "彼は「彼女が『すごい！』と叫んだ」と言った。");
}

#[test]
fn test_split_sentences_unclosed_bracket() {
    let para = "彼は「すごい。次の文。最後の文。";
    let sentences = split_sentences(para);
    assert_eq!(
        sentences.len(),
        3,
        "Unclosed bracket should not prevent all splitting. Got: {:?}",
        sentences
    );
    assert_eq!(sentences[0], "彼は「すごい。");
    assert_eq!(sentences[1], "次の文。");
    assert_eq!(sentences[2], "最後の文。");
}

#[test]
fn test_split_sentences_period_inside_closed_quotes() {
    let para = "「行くよ。明日だ。」と彼は言った。次の文。";
    let sentences = split_sentences(para);
    assert_eq!(
        sentences.len(),
        2,
        "Period inside closed quotes should not split. Got: {:?}",
        sentences
    );
    assert_eq!(sentences[0], "「行くよ。明日だ。」と彼は言った。");
    assert_eq!(sentences[1], "次の文。");
}

#[test]
fn test_split_sentences_question_in_quotes() {
    let para = "店員さんに「安全に食べられますか？」と聞いた。店員さんは答えた。";
    let sentences = split_sentences(para);
    assert_eq!(sentences.len(), 2);
    assert_eq!(sentences[0], "店員さんに「安全に食べられますか？」と聞いた。");
}

#[test]
fn test_map_pos() {
    assert_eq!(map_pos("名詞"), "Noun");
    assert_eq!(map_pos("動詞"), "Verb");
    assert_eq!(map_pos("形状詞"), "Adjectival_Noun");
    assert_eq!(map_pos("補助記号"), "Symbol");
    assert_eq!(map_pos("unknown"), "Other");
}

#[test]
fn normalize_reading_input_upper_case_romaji() {
    assert_eq!(normalize_reading_input("  TaBeRu "), "たべる");
}

#[test]
fn split_paragraphs_leaves_no_blank_line_inside() {
    let paras = split_paragraphs("一\n\n\n二\n\n\n\n三");
    assert_eq!(paras, vec!["一".to_string(), "二".to_string(), "三".to_string()]);
    for p in &paras {
        assert!(!p.contains("\n\n"));
    }
}
