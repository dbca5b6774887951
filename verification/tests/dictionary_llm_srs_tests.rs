use kotoba::dictionary::{
    filter_by_reading, mwe_info, parse_ent_seq, parse_i64, DictEntry, JmdictAssembler, Sense,
    XmlEvent,
};
use kotoba::llm::{
    build_user_message, chat_completions_url, check_api_key, compute_hash, hex_lower,
    strip_code_fences,
};
use kotoba::models::VocabularyStatus;
use kotoba::srs::{card_action_for_status, keep_due_card, review_outcome, CardAction, Rating};

fn entry(seq: i64, kanji: &[&str], readings: &[&str], glosses: &[&str]) -> DictEntry {
    DictEntry {
        ent_seq: seq,
        kanji_forms: kanji.iter().map(|s| s.to_string()).collect(),
        readings: readings.iter().map(|s| s.to_string()).collect(),
        senses: vec![Sense {
            pos: vec![],
            glosses: glosses.iter().map(|s| s.to_string()).collect(),
            misc: vec![],
        }],
    }
}

fn start(name: &str) -> XmlEvent {
    XmlEvent::Start(name.to_string(), vec![])
}

fn end(name: &str) -> XmlEvent {
    XmlEvent::End(name.to_string())
}

fn text(t: &str) -> XmlEvent {
    XmlEvent::Text(t.to_string())
}

#[test]
fn parse_i64_reads_decimal_integers() {
    assert_eq!(parse_i64("1234"), Some(1234));
    assert_eq!(parse_i64("+7"), Some(7));
    assert_eq!(parse_i64("-5"), Some(-5));
    assert_eq!(parse_i64("007"), Some(7));
    assert_eq!(parse_i64("9223372036854775807"), Some(i64::MAX));
    assert_eq!(parse_i64("-9223372036854775808"), Some(i64::MIN));
}

#[test]
fn parse_i64_refuses_what_is_not_a_number() {
    assert_eq!(parse_i64(""), None);
    assert_eq!(parse_i64("-"), None);
    assert_eq!(parse_i64("12a"), None);
    assert_eq!(parse_i64(" 12"), None);
    assert_eq!(parse_i64("9223372036854775808"), None);
    assert_eq!(parse_i64("-9223372036854775809"), None);
    assert_eq!(parse_i64("99999999999999999999999"), None);
}

#[test]
fn ent_seq_defaults_to_zero() {
    assert_eq!(parse_ent_seq("1000220"), 1000220);
    assert_eq!(parse_ent_seq("x"), 0);
}

#[test]
fn assembler_builds_an_entry_from_events() {
    let mut a = JmdictAssembler::new();
    let events = vec![
        start("JMdict"),
        start("entry"),
        start("ent_seq"),
        text("1358280"),
        end("ent_seq"),
        start("k_ele"),
        start("keb"),
        text("食べる"),
        end("keb"),
        end("k_ele"),
        start("r_ele"),
        start("reb"),
        text("たべる"),
        end("reb"),
        end("r_ele"),
        start("sense"),
        start("pos"),
        text("Ichidan verb"),
        end("pos"),
        start("misc"),
        text("usually kana"),
        end("misc"),
        start("gloss"),
        text("to eat"),
        end("gloss"),
        XmlEvent::Start("gloss".to_string(), vec![("xml:lang".to_string(), "ger".to_string())]),
        text("essen"),
        end("gloss"),
        XmlEvent::Start("gloss".to_string(), vec![("xml:lang".to_string(), "eng".to_string())]),
        text("to consume"),
        end("gloss"),
        end("sense"),
    ];
    for ev in events {
        assert!(a.feed(ev).is_none());
    }
    let done = a.feed(end("entry")).expect("closing entry hands it out");
    assert_eq!(done.ent_seq, 1358280);
    assert_eq!(done.kanji_forms, vec!["食べる".to_string()]);
    assert_eq!(done.readings, vec!["たべる".to_string()]);
    assert_eq!(done.senses.len(), 1);
    assert_eq!(done.senses[0].pos, vec!["Ichidan verb".to_string()]);
    assert_eq!(done.senses[0].misc, vec!["usually kana".to_string()]);
    assert_eq!(done.senses[0].glosses, vec!["to eat".to_string(), "to consume".to_string()]);
    assert_eq!(done.short_gloss(), "to eat");
    assert!(a.feed(end("JMdict")).is_none());
}

#[test]
fn assembler_ignores_text_outside_entries() {
    let mut a = JmdictAssembler::new();
    assert!(a.feed(start("keb")).is_none());
    assert!(a.feed(text("食べる")).is_none());
    assert!(a.feed(end("keb")).is_none());
    assert!(a.feed(end("entry")).is_none());
    assert!(a.feed(XmlEvent::Other).is_none());
}

#[test]
fn short_gloss_of_entry_without_senses_is_empty() {
    let e = DictEntry { ent_seq: 1, kanji_forms: vec![], readings: vec![], senses: vec![] };
    assert_eq!(e.short_gloss(), "");
}

#[test]
fn mwe_info_takes_first_reading_and_gloss() {
    let e = entry(5, &["気が付く"], &["きがつく", "きづく"], &["to notice", "to realize"]);
    assert_eq!(mwe_info(&e), ("きがつく".to_string(), "to notice".to_string()));
    let bare = DictEntry { ent_seq: 6, kanji_forms: vec![], readings: vec![], senses: vec![] };
    assert_eq!(mwe_info(&bare), (String::new(), String::new()));
}

#[test]
fn filter_by_reading_keeps_matching_entries_in_order() {
    let hits = vec![
        entry(1, &["上手"], &["じょうず"], &["skillful"]),
        entry(2, &["上手"], &["うわて"], &["upper part"]),
        entry(3, &["上手"], &["かみて", "じょうず"], &["upper stream"]),
    ];
    let kept = filter_by_reading(hits, Some("じょうず"));
    assert_eq!(kept.iter().map(|e| e.ent_seq).collect::<Vec<_>>(), vec![1, 3]);
    let all = filter_by_reading(vec![entry(4, &[], &["あ"], &[]), entry(5, &[], &["い"], &[])], None);
    assert_eq!(all.len(), 2);
    let none = filter_by_reading(vec![entry(4, &[], &["あ"], &[])], Some("の"));
    assert!(none.is_empty());
}

#[test]
fn compute_hash_is_sha256_hex_of_the_request() {
    let h = compute_hash("こんにちは", "gpt-4o");
    assert_eq!(h, "bea5354ede2bb9a83cf4b716fe0ef873108655458623c05b8575d50d3eda5d77");
    assert_eq!(h.len(), 64);
    assert_eq!(compute_hash("こんにちは", "gpt-4o"), h);
    assert_ne!(compute_hash("さようなら", "gpt-4o"), h);
    assert_ne!(compute_hash("こんにちは", "gpt-3.5-turbo"), h);
}

#[test]
fn hex_lower_writes_two_digits_per_byte() {
    assert_eq!(hex_lower(&[0x00, 0xff, 0x1a, 0x09]), "00ff1a09");
    assert_eq!(hex_lower(&[]), "");
}

#[test]
fn strip_code_fences_removes_markdown_fences() {
    assert_eq!(strip_code_fences("```json\n{\"a\":1}\n```"), "{\"a\":1}");
    assert_eq!(strip_code_fences("  ```\n{}\n```  "), "{}");
    assert_eq!(strip_code_fences(" {\"translation\":\"Hello\"} "), "{\"translation\":\"Hello\"}");
}

#[test]
fn chat_url_drops_trailing_slashes() {
    assert_eq!(chat_completions_url("https://api.openai.com/v1"), "https://api.openai.com/v1/chat/completions");
    assert_eq!(chat_completions_url("http://localhost:1234/v1//"), "http://localhost:1234/v1/chat/completions");
}

#[test]
fn missing_api_key_is_an_error() {
    assert!(check_api_key("").is_err());
    assert!(check_api_key("sk-test").is_ok());
}

#[test]
fn user_message_puts_each_context_sentence_on_a_line() {
    let ctx = vec!["一。".to_string()];
    assert_eq!(build_user_message("二。", &ctx), "一。\n二。");
}

#[test]
fn ratings_round_trip_through_their_numbers() {
    for v in 1..=4 {
        let r = Rating::from_i32(v).unwrap();
        assert_eq!(r.to_i32(), v);
    }
    assert_eq!(Rating::from_i32(0), None);
    assert_eq!(Rating::from_i32(5), None);
    assert_eq!(Rating::Again.label(), "Again");
    assert_eq!(Rating::Hard.label(), "Hard");
    assert_eq!(Rating::Good.label(), "Good");
    assert_eq!(Rating::Easy.label(), "Easy");
}

#[test]
fn review_outcome_counts_and_moves_state() {
    let o = review_outcome(0, 0, "new", Rating::Good);
    assert_eq!((o.reps, o.lapses, o.state), (1, 0, "learning"));
    let o = review_outcome(0, 0, "new", Rating::Again);
    assert_eq!((o.reps, o.lapses, o.state), (1, 1, "learning"));
    let o = review_outcome(3, 1, "review", Rating::Again);
    assert_eq!((o.reps, o.lapses, o.state), (4, 2, "relearning"));
    let o = review_outcome(2, 0, "learning", Rating::Easy);
    assert_eq!((o.reps, o.lapses, o.state), (3, 0, "review"));
}

#[test]
fn status_changes_create_or_retire_cards() {
    assert_eq!(card_action_for_status(VocabularyStatus::Learning2), CardAction::CreateCards);
    assert_eq!(card_action_for_status(VocabularyStatus::Known), CardAction::RetireCards);
    assert_eq!(card_action_for_status(VocabularyStatus::Ignored), CardAction::RetireCards);
    assert_eq!(card_action_for_status(VocabularyStatus::New), CardAction::NoAction);
}

#[test]
fn sentence_cards_show_only_while_learning() {
    assert!(keep_due_card("word", None));
    assert!(keep_due_card("sentence", Some(VocabularyStatus::Learning1)));
    assert!(!keep_due_card("sentence", Some(VocabularyStatus::Known)));
    assert!(!keep_due_card("sentence", None));
}

#[test]
fn jmdict_entries_read_from_xml_text() {
    let xml = r#"<?xml version="1.0"?>
<JMdict>
<entry>
<ent_seq>1000</ent_seq>
<k_ele><keb>猫</keb></k_ele>
<r_ele><reb>ねこ</reb></r_ele>
<sense><pos>noun</pos><gloss>cat</gloss><gloss xml:lang="ger">Katze</gloss></sense>
</entry>
<entry>
<ent_seq>1001</ent_seq>
<r_ele><reb>あ &amp; い</reb></r_ele>
<sense><gloss>ah</gloss></sense>
</entry>
</JMdict>"#;
    let entries = kotoba::dictionary::jmdict_entries(xml).unwrap();
    assert_eq!(entries.len(), 2);
    assert_eq!(entries[0].ent_seq, 1000);
    assert_eq!(entries[0].kanji_forms, vec!["猫"]);
    assert_eq!(entries[0].readings, vec!["ねこ"]);
    assert_eq!(entries[0].senses[0].glosses, vec!["cat"]);
    assert_eq!(entries[0].senses[0].pos, vec!["noun"]);
    assert_eq!(entries[1].readings, vec!["あ & い"]);
}

#[test]
fn jmdict_entries_refuse_malformed_xml() {
    assert!(kotoba::dictionary::jmdict_entries("<JMdict><entry></JMdict>").is_err());
}
