//! The records the application stores: texts, paragraphs, tokens, vocabulary,
//! review cards and web sources, with the vocabulary learning status.
use vstd::prelude::*;

verus! {

/// How well the user knows a word.
#[derive(Debug, Clone, Copy, PartialEq, Eq, Hash, Structural)]
pub enum VocabularyStatus {
    Ignored,
    New,
    Learning1,
    Learning2,
    Learning3,
    Learning4,
    Known,
}

/// The integer stored for each status.
pub open spec fn status_code(s: VocabularyStatus) -> int {
    match s {
        VocabularyStatus::Ignored => -1,
        VocabularyStatus::New => 0,
        VocabularyStatus::Learning1 => 1,
        VocabularyStatus::Learning2 => 2,
        VocabularyStatus::Learning3 => 3,
        VocabularyStatus::Learning4 => 4,
        VocabularyStatus::Known => 5,
    }
}

/// The status stored as `v`; unknown codes read as `New`.
pub open spec fn status_of_code(v: int) -> VocabularyStatus {
    if v == -1 {
        VocabularyStatus::Ignored
    } else if v == 1 {
        VocabularyStatus::Learning1
    } else if v == 2 {
        VocabularyStatus::Learning2
    } else if v == 3 {
        VocabularyStatus::Learning3
    } else if v == 4 {
        VocabularyStatus::Learning4
    } else if v == 5 {
        VocabularyStatus::Known
    } else {
        VocabularyStatus::New
    }
}

pub open spec fn is_learning(s: VocabularyStatus) -> bool {
    s == VocabularyStatus::Learning1 || s == VocabularyStatus::Learning2 || s
        == VocabularyStatus::Learning3 || s == VocabularyStatus::Learning4
}

impl VocabularyStatus {
    pub fn from_i32(v: i32) -> (r: Self)
        ensures
            r == status_of_code(v as int),
    {
        match v {
            -1 => Self::Ignored,
            0 => Self::New,
            1 => Self::Learning1,
            2 => Self::Learning2,
            3 => Self::Learning3,
            4 => Self::Learning4,
            5 => Self::Known,
            _ => Self::New,
        }
    }

    /// The integer stored for this status.
    pub fn to_i32(self) -> (r: i32)
        ensures
            r as int == status_code(self),
    {
        match self {
            Self::Ignored => -1,
            Self::New => 0,
            Self::Learning1 => 1,
            Self::Learning2 => 2,
            Self::Learning3 => 3,
            Self::Learning4 => 4,
            Self::Known => 5,
        }
    }
}

/// Reading a stored status code back gives the status that was stored.
pub proof fn law_status_code_roundtrip(s: VocabularyStatus)
    ensures
        status_of_code(status_code(s)) == s,
{
}

/// Every code in -1..=5 is the code of the status it reads as.
pub proof fn law_status_codes_are_exact(v: int)
    requires
        -1 <= v <= 5,
    ensures
        status_code(status_of_code(v)) == v,
{
}

#[derive(Debug, Clone, PartialEq, Eq)]
pub enum CardType {
    Word,
    Sentence,
}

#[derive(Debug, Clone, PartialEq, Eq)]
pub enum AnswerMode {
    MeaningRecall,
    ReadingRecall,
    TypedReading,
    SentenceCloze,
}

#[derive(Debug, Clone)]
pub struct Text {
    pub id: i64,
    pub title: String,
    pub source_url: Option<String>,
    pub source_type: String,
    pub content: String,
    pub language: String,
    pub created_at: String,
    pub last_read_at: Option<String>,
    pub last_sentence_index: i64,
    pub total_sentences: i64,
}

#[derive(Debug, Clone)]
pub struct Paragraph {
    pub id: i64,
    pub text_id: i64,
    pub position: i32,
    pub content: String,
}

#[derive(Debug, Clone)]
pub struct Token {
    pub id: i64,
    pub paragraph_id: i64,
    pub position: i32,
    pub surface: String,
    pub base_form: String,
    pub reading: String,
    pub surface_reading: String,
    pub pos: String,
    pub conjugation_form: String,
    pub conjugation_type: String,
    pub sentence_index: i32,
}

#[derive(Debug, Clone)]
pub struct Vocabulary {
    pub id: i64,
    pub base_form: String,
    pub reading: String,
    pub pos: String,
    pub status: VocabularyStatus,
    pub notes: Option<String>,
    pub first_seen_at: String,
    pub updated_at: String,
}

#[derive(Debug, Clone)]
pub struct ConjugationEncounter {
    pub id: i64,
    pub vocabulary_id: i64,
    pub surface: String,
    pub conjugation_form: String,
    pub conjugation_type: String,
    pub encounter_count: i32,
    pub status: i32,
    pub first_seen: String,
    pub updated: String,
}

#[derive(Debug, Clone)]
pub struct SrsReview {
    pub id: i64,
    pub card_id: i64,
    pub reviewed_at: String,
    pub rating: i32,
    pub elapsed_ms: i64,
    pub typed_answer: Option<String>,
    pub answer_correct: bool,
}

#[derive(Debug, Clone)]
pub struct LlmCacheEntry {
    pub id: i64,
    pub request_type: String,
    pub request_hash: String,
    pub request_body: String,
    pub response: String,
    pub model: String,
    pub tokens_used: i64,
    pub created_at: String,
}

/// A multi-word expression the user has marked, with its reading and meaning.
#[derive(Debug, Clone)]
pub struct UserExpression {
    pub surface: String,
    pub reading: String,
    pub gloss: String,
}

#[derive(Debug, Clone)]
pub struct WebSource {
    pub id: i64,
    pub source_type: String,
    pub external_id: String,
    pub title: String,
    pub metadata_json: String,
    pub last_synced: String,
}

#[derive(Debug, Clone)]
pub struct WebSourceChapter {
    pub id: i64,
    pub web_source_id: i64,
    pub chapter_number: i32,
    pub title: String,
    pub text_id: Option<i64>,
    pub word_count: i32,
    pub created_at: String,
    pub is_skipped: bool,
    /// Group/arc name this chapter belongs to (e.g. "クマさん、異世界に来る").
    pub chapter_group: String,
}

/// Per-text statistics for library display.
#[derive(Debug, Clone)]
pub struct TextStats {
    pub total_tokens: usize,
    pub unique_vocab: usize,
    pub known_count: usize,
    pub learning_count: usize,
    pub new_count: usize,
}

impl Default for TextStats {
    fn default() -> (r: Self)
        ensures
            r.total_tokens == 0 && r.unique_vocab == 0 && r.known_count == 0 && r.learning_count
                == 0 && r.new_count == 0,
    {
        TextStats { total_tokens: 0, unique_vocab: 0, known_count: 0, learning_count: 0, new_count: 0 }
    }
}

/// Which statuses a statistic counts.
pub enum StatusClass {
    All,
    Known,
    Learning,
    New,
    Ignored,
}

pub open spec fn in_class(s: VocabularyStatus, c: StatusClass) -> bool {
    match c {
        StatusClass::All => true,
        StatusClass::Known => s == VocabularyStatus::Known,
        StatusClass::Learning => is_learning(s),
        StatusClass::New => s == VocabularyStatus::New,
        StatusClass::Ignored => s == VocabularyStatus::Ignored,
    }
}

/// Sum of the counts of the rows whose status code falls in class `c`.
pub open spec fn count_where(rows: Seq<(i32, usize)>, c: StatusClass) -> int
    decreases rows.len(),
{
    if rows.len() == 0 {
        0
    } else {
        count_where(rows.drop_last(), c) + if in_class(status_of_code(rows.last().0 as int), c) {
            rows.last().1 as int
        } else {
            0
        }
    }
}

pub proof fn lemma_count_where_le_total(rows: Seq<(i32, usize)>, c: StatusClass)
    ensures
        0 <= count_where(rows, c) <= count_where(rows, StatusClass::All),
    decreases rows.len(),
{
    if rows.len() > 0 {
        lemma_count_where_le_total(rows.drop_last(), c);
    }
}

pub proof fn lemma_take_total_le(rows: Seq<(i32, usize)>, n: int)
    requires
        0 <= n <= rows.len(),
    ensures
        count_where(rows.take(n), StatusClass::All) <= count_where(rows, StatusClass::All),
    decreases rows.len() - n,
{
    if n < rows.len() {
        lemma_take_total_le(rows, n + 1);
        assert(rows.take(n + 1).drop_last() == rows.take(n));
        lemma_count_where_le_total(rows.take(n + 1), StatusClass::All);
    } else {
        assert(rows.take(n) == rows);
    }
}

/// Folds `(status code, distinct vocabulary count)` rows into text statistics.
/// Unknown codes count as `New`; `Ignored` rows count only toward `unique_vocab`.
pub fn tally_text_stats(total_tokens: usize, rows: &Vec<(i32, usize)>) -> (r: TextStats)
    requires
        count_where(rows@, StatusClass::All) <= usize::MAX,
    ensures
        r.total_tokens == total_tokens,
        r.unique_vocab == count_where(rows@, StatusClass::All),
        r.known_count == count_where(rows@, StatusClass::Known),
        r.learning_count == count_where(rows@, StatusClass::Learning),
        r.new_count == count_where(rows@, StatusClass::New),
{
    let mut stats = TextStats { total_tokens, unique_vocab: 0, known_count: 0, learning_count: 0, new_count: 0 };
    let mut i: usize = 0;
    while i < rows.len()
        invariant
            i <= rows@.len(),
            count_where(rows@, StatusClass::All) <= usize::MAX,
            stats.total_tokens == total_tokens,
            stats.unique_vocab == count_where(rows@.take(i as int), StatusClass::All),
            stats.known_count == count_where(rows@.take(i as int), StatusClass::Known),
            stats.learning_count == count_where(rows@.take(i as int), StatusClass::Learning),
            stats.new_count == count_where(rows@.take(i as int), StatusClass::New),
        decreases rows.len() - i,
    {
        let (status_val, count) = rows[i];
        proof {
            let t = rows@.take(i + 1);
            assert(t.drop_last() == rows@.take(i as int));
            assert(t.last() == (status_val, count));
            lemma_take_total_le(rows@, i + 1);
            lemma_count_where_le_total(t, StatusClass::Known);
            lemma_count_where_le_total(t, StatusClass::Learning);
            lemma_count_where_le_total(t, StatusClass::New);
        }
        stats.unique_vocab += count;
        match VocabularyStatus::from_i32(status_val) {
            VocabularyStatus::Known => stats.known_count += count,
            VocabularyStatus::Learning1 | VocabularyStatus::Learning2 | VocabularyStatus::Learning3
            | VocabularyStatus::Learning4 => stats.learning_count += count,
            VocabularyStatus::New => stats.new_count += count,
            _ => {},
        }
        i += 1;
    }
    assert(rows@.take(rows@.len() as int) == rows@);
    stats
}

} // verus!
