//! Reading and vocabulary statistics.
use vstd::prelude::*;
use crate::models::{
    VocabularyStatus, status_of_code, StatusClass, count_where, lemma_count_where_le_total,
    lemma_take_total_le,
};
use crate::text::str_eq;

verus! {

/// High-level overview statistics for the stats screen.
#[derive(Debug, Clone, Default)]
pub struct OverviewStats {
    pub texts_finished: usize,
    pub texts_reading: usize,
    pub total_vocabulary: usize,
    pub known_words: usize,
    pub learning_words: usize,
    pub new_words: usize,
    pub ignored_words: usize,
}

/// The word count recorded for status `s` among the first `n` (status code,
/// count) rows: the count of the last row whose code reads as `s`, as a
/// map filled from the rows in order holds it; 0 when there is none.
pub open spec fn count_for(rows: Seq<(i32, usize)>, s: VocabularyStatus, n: int) -> int
    decreases n,
{
    if n <= 0 || n > rows.len() {
        0
    } else if status_of_code(rows[n - 1].0 as int) == s {
        rows[n - 1].1 as int
    } else {
        count_for(rows, s, n - 1)
    }
}

pub open spec fn learning_total(rows: Seq<(i32, usize)>) -> int {
    count_for(rows, VocabularyStatus::Learning1, rows.len() as int) + count_for(
        rows,
        VocabularyStatus::Learning2,
        rows.len() as int,
    ) + count_for(rows, VocabularyStatus::Learning3, rows.len() as int) + count_for(
        rows,
        VocabularyStatus::Learning4,
        rows.len() as int,
    )
}

pub open spec fn vocabulary_total(rows: Seq<(i32, usize)>) -> int {
    count_for(rows, VocabularyStatus::Known, rows.len() as int) + learning_total(rows) + count_for(
        rows,
        VocabularyStatus::New,
        rows.len() as int,
    ) + count_for(rows, VocabularyStatus::Ignored, rows.len() as int)
}

fn count_of(rows: &Vec<(i32, usize)>, s: VocabularyStatus) -> (r: usize)
    ensures
        r as int == count_for(rows@, s, rows@.len() as int),
{
    let mut n: usize = rows.len();
    while n > 0
        invariant
            n <= rows@.len(),
            count_for(rows@, s, rows@.len() as int) == count_for(rows@, s, n as int),
        decreases n,
    {
        let st = VocabularyStatus::from_i32(rows[n - 1].0);
        if st == s {
            return rows[n - 1].1;
        }
        n -= 1;
    }
    0
}

/// The overview from the finished and in-progress text counts and the
/// (status code, word count) rows of the vocabulary.
pub fn overview_stats(texts_finished: usize, texts_reading: usize, rows: &Vec<(i32, usize)>) -> (r: OverviewStats)
    requires
        vocabulary_total(rows@) <= usize::MAX,
    ensures
        r.texts_finished == texts_finished,
        r.texts_reading == texts_reading,
        r.known_words == count_for(rows@, VocabularyStatus::Known, rows@.len() as int),
        r.learning_words == learning_total(rows@),
        r.new_words == count_for(rows@, VocabularyStatus::New, rows@.len() as int),
        r.ignored_words == count_for(rows@, VocabularyStatus::Ignored, rows@.len() as int),
        r.total_vocabulary == vocabulary_total(rows@),
{
    let known = count_of(rows, VocabularyStatus::Known);
    let l1 = count_of(rows, VocabularyStatus::Learning1);
    let l2 = count_of(rows, VocabularyStatus::Learning2);
    let l3 = count_of(rows, VocabularyStatus::Learning3);
    let l4 = count_of(rows, VocabularyStatus::Learning4);
    let new = count_of(rows, VocabularyStatus::New);
    let ignored = count_of(rows, VocabularyStatus::Ignored);
    let learning = l1 + l2 + l3 + l4;
    let total = known + learning + new + ignored;
    OverviewStats {
        texts_finished,
        texts_reading,
        total_vocabulary: total,
        known_words: known,
        learning_words: learning,
        new_words: new,
        ignored_words: ignored,
    }
}


/// How the non-trivial tokens of a text stand: their number, and how many
/// of them are known, learning, new or ignored words.
pub struct CoverageCounts {
    pub total_tokens: usize,
    pub known_tokens: usize,
    pub learning_tokens: usize,
    pub new_tokens: usize,
    pub ignored_tokens: usize,
}

/// Folds the (status code, token count) rows of a text into coverage
/// counts; unknown codes count as new.
pub fn tally_coverage(total_tokens: usize, rows: &Vec<(i32, usize)>) -> (r: CoverageCounts)
    requires
        count_where(rows@, StatusClass::All) <= usize::MAX,
    ensures
        r.total_tokens == total_tokens,
        r.known_tokens == count_where(rows@, StatusClass::Known),
        r.learning_tokens == count_where(rows@, StatusClass::Learning),
        r.new_tokens == count_where(rows@, StatusClass::New),
        r.ignored_tokens == count_where(rows@, StatusClass::Ignored),
{
    let mut c = CoverageCounts { total_tokens, known_tokens: 0, learning_tokens: 0, new_tokens: 0, ignored_tokens: 0 };
    let mut i: usize = 0;
    while i < rows.len()
        invariant
            i <= rows@.len(),
            count_where(rows@, StatusClass::All) <= usize::MAX,
            c.total_tokens == total_tokens,
            c.known_tokens == count_where(rows@.take(i as int), StatusClass::Known),
            c.learning_tokens == count_where(rows@.take(i as int), StatusClass::Learning),
            c.new_tokens == count_where(rows@.take(i as int), StatusClass::New),
            c.ignored_tokens == count_where(rows@.take(i as int), StatusClass::Ignored),
        decreases rows.len() - i,
    {
        let (status_val, count) = rows[i];
        proof {
            let t = rows@.take(i + 1);
            assert(t.drop_last() == rows@.take(i as int));
            assert(t.last() == (status_val, count));
            lemma_take_total_le(rows@, i + 1);
            lemma_count_where_le_total(t, StatusClass::Known);
            lemma_count_where_le_total(t, StatusClass::Learning);
            lemma_count_where_le_total(t, StatusClass::New);
            lemma_count_where_le_total(t, StatusClass::Ignored);
        }
        match VocabularyStatus::from_i32(status_val) {
            VocabularyStatus::Known => c.known_tokens += count,
            VocabularyStatus::Learning1 | VocabularyStatus::Learning2 | VocabularyStatus::Learning3
            | VocabularyStatus::Learning4 => c.learning_tokens += count,
            VocabularyStatus::Ignored => c.ignored_tokens += count,
            VocabularyStatus::New => c.new_tokens += count,
        }
        i += 1;
    }
    assert(rows@.take(rows@.len() as int) == rows@);
    c
}

/// The numbers of review cards in each state.
pub struct CardCounts {
    pub total_cards: usize,
    pub cards_new: usize,
    pub cards_learning: usize,
    pub cards_review: usize,
    pub cards_retired: usize,
}

/// The sum of the counts of the (state, count) rows.
pub open spec fn state_total(rows: Seq<(String, usize)>) -> int
    decreases rows.len(),
{
    if rows.len() == 0 {
        0
    } else {
        state_total(rows.drop_last()) + rows.last().1
    }
}

/// The sum of the counts of the rows in state "learning" or "relearning".
pub open spec fn learning_cards(rows: Seq<(String, usize)>) -> int
    decreases rows.len(),
{
    if rows.len() == 0 {
        0
    } else {
        learning_cards(rows.drop_last()) + if rows.last().0@ == "learning"@ || rows.last().0@
            == "relearning"@ {
            rows.last().1 as int
        } else {
            0
        }
    }
}

/// The count of the last row in state `state`, or 0.
pub open spec fn last_count(rows: Seq<(String, usize)>, state: Seq<char>) -> int
    decreases rows.len(),
{
    if rows.len() == 0 {
        0
    } else if rows.last().0@ == state {
        rows.last().1 as int
    } else {
        last_count(rows.drop_last(), state)
    }
}

proof fn lemma_state_parts(rows: Seq<(String, usize)>)
    ensures
        0 <= learning_cards(rows) <= state_total(rows),
    decreases rows.len(),
{
    if rows.len() > 0 {
        lemma_state_parts(rows.drop_last());
    }
}

/// Folds the (card state, count) rows into card counts: every row counts
/// toward the total, "learning" and "relearning" rows toward the learning
/// cards, and the new, review and retired counts are those of their rows.
pub fn card_state_counts(rows: &Vec<(String, usize)>) -> (r: CardCounts)
    requires
        state_total(rows@) <= usize::MAX,
    ensures
        r.total_cards == state_total(rows@),
        r.cards_learning == learning_cards(rows@),
        r.cards_new == last_count(rows@, "new"@),
        r.cards_review == last_count(rows@, "review"@),
        r.cards_retired == last_count(rows@, "retired"@),
{
    let mut c = CardCounts { total_cards: 0, cards_new: 0, cards_learning: 0, cards_review: 0, cards_retired: 0 };
    let mut i: usize = 0;
    while i < rows.len()
        invariant
            i <= rows@.len(),
            state_total(rows@) <= usize::MAX,
            c.total_cards == state_total(rows@.take(i as int)),
            c.cards_learning == learning_cards(rows@.take(i as int)),
            c.cards_new == last_count(rows@.take(i as int), "new"@),
            c.cards_review == last_count(rows@.take(i as int), "review"@),
            c.cards_retired == last_count(rows@.take(i as int), "retired"@),
        decreases rows.len() - i,
    {
        proof {
            let t = rows@.take(i + 1);
            assert(t.drop_last() == rows@.take(i as int));
            assert(t.last() == rows@[i as int]);
            lemma_state_prefix(rows@, i + 1);
            lemma_state_parts(t);
            reveal_strlit("new");
            reveal_strlit("learning");
            reveal_strlit("relearning");
            reveal_strlit("review");
            reveal_strlit("retired");
            assert("new"@.len() == 3);
            assert("learning"@.len() == 8);
            assert("relearning"@.len() == 10);
            assert("review"@.len() == 6);
            assert("retired"@.len() == 7);
        }
        let state = rows[i].0.as_str();
        let count = rows[i].1;
        c.total_cards += count;
        if str_eq(state, "new") {
            c.cards_new = count;
        } else if str_eq(state, "learning") || str_eq(state, "relearning") {
            c.cards_learning += count;
        } else if str_eq(state, "review") {
            c.cards_review = count;
        } else if str_eq(state, "retired") {
            c.cards_retired = count;
        }
        i += 1;
    }
    assert(rows@.take(rows@.len() as int) == rows@);
    c
}

proof fn lemma_state_prefix(rows: Seq<(String, usize)>, n: int)
    requires
        0 <= n <= rows.len(),
    ensures
        state_total(rows.take(n)) <= state_total(rows),
    decreases rows.len() - n,
{
    if n < rows.len() {
        lemma_state_prefix(rows, n + 1);
        assert(rows.take(n + 1).drop_last() == rows.take(n));
    } else {
        assert(rows.take(n) == rows);
    }
}

/// The running totals of known words: for each (day, words that became
/// known that day) row, the day and the baseline plus all counts up to it.
pub open spec fn cumulative(daily: Seq<(String, usize)>, baseline: int) -> Seq<(Seq<char>, int)>
    decreases daily.len(),
{
    if daily.len() == 0 {
        seq![]
    } else {
        let prev = cumulative(daily.drop_last(), baseline);
        prev.push((daily.last().0@, baseline + state_total(daily)))
    }
}

/// The known-word count over time: each day with the number of words known
/// by its end, counting from the `baseline` known before the first day.
pub fn known_words_series(daily: &Vec<(String, usize)>, baseline: usize) -> (r: Vec<(String, usize)>)
    requires
        baseline + state_total(daily@) <= usize::MAX,
    ensures
        r@.len() == daily@.len(),
        forall|i: int| 0 <= i < r@.len() ==> (#[trigger] r@[i]).0@ == cumulative(daily@, baseline as int)[i].0
            && r@[i].1 == cumulative(daily@, baseline as int)[i].1,
{
    let mut out: Vec<(String, usize)> = Vec::new();
    let mut total = baseline;
    let mut i: usize = 0;
    while i < daily.len()
        invariant
            i <= daily@.len(),
            baseline + state_total(daily@) <= usize::MAX,
            total == baseline + state_total(daily@.take(i as int)),
            out@.len() == i,
            cumulative(daily@.take(i as int), baseline as int).len() == i,
            forall|k: int| 0 <= k < i ==> (#[trigger] out@[k]).0@ == cumulative(daily@.take(i as int), baseline as int)[k].0
                && out@[k].1 == cumulative(daily@.take(i as int), baseline as int)[k].1,
        decreases daily.len() - i,
    {
        proof {
            let t = daily@.take(i + 1);
            assert(t.drop_last() == daily@.take(i as int));
            assert(t.last() == daily@[i as int]);
            lemma_state_prefix(daily@, i + 1);
        }
        total = total + daily[i].1;
        out.push((daily[i].0.clone(), total));
        i += 1;
    }
    assert(daily@.take(daily@.len() as int) == daily@);
    out
}

} // verus!
