//! The mouse in the reader: the wheel moves between sentences, and a click
//! selects the word under it. Where each sentence is drawn follows from the
//! rows each one takes, which the renderer measures; this module places the
//! sentences, scrolls the current one to the middle, and turns a clicked
//! token into the word to select.
use vstd::prelude::*;
use crate::reader::{SentenceData, TokenDisplay};
use crate::screens::ReaderState;

verus! {

/// Turns the wheel over the reader: one sentence up or down, with the word
/// and the expression mark cleared. The result says whether the sentence
/// changed (and the reading position is to be saved).
pub fn reader_scroll(state: &mut ReaderState, up: bool) -> (moved: bool)
    ensures
        moved == if up {
            old(state).sentence_index > 0
        } else {
            old(state).sentence_index + 1 < old(state).sentences@.len()
        },
        moved ==> *final(state) == (ReaderState {
            sentence_index: (if up {
                old(state).sentence_index - 1
            } else {
                old(state).sentence_index + 1
            }) as usize,
            word_index: None,
            expression_mark: None,
            ..*old(state)
        }),
        !moved ==> *final(state) == *old(state),
{
    if up {
        if state.sentence_index > 0 {
            state.sentence_index = state.sentence_index - 1;
            state.word_index = None;
            state.expression_mark = None;
            return true;
        }
    } else if state.sentences.len() > 0 && state.sentence_index < state.sentences.len() - 1 {
        state.sentence_index = state.sentence_index + 1;
        state.word_index = None;
        state.expression_mark = None;
        return true;
    }
    false
}

/// The blank rows above sentence `i`: one where a paragraph starts, one
/// between the sentences of a paragraph when gaps are on, none above the
/// first sentence.
pub open spec fn gap_before(sentences: Seq<SentenceData>, gaps_on: bool, i: int) -> u16 {
    if i == 0 {
        0
    } else if sentences[i].paragraph_idx != sentences[i - 1].paragraph_idx {
        1
    } else if gaps_on {
        1
    } else {
        0
    }
}

/// The blank rows above each sentence.
pub fn sentence_gaps(sentences: &Vec<SentenceData>, gaps_on: bool) -> (r: Vec<u16>)
    ensures
        r@.len() == sentences@.len(),
        forall|i: int| 0 <= i < r@.len() ==> #[trigger] r@[i] == gap_before(sentences@, gaps_on, i),
{
    let mut r: Vec<u16> = Vec::new();
    let mut i: usize = 0;
    while i < sentences.len()
        invariant
            i <= sentences@.len(),
            r@.len() == i,
            forall|k: int| 0 <= k < i ==> #[trigger] r@[k] == gap_before(sentences@, gaps_on, k),
        decreases sentences.len() - i,
    {
        let g: u16 = if i == 0 {
            0
        } else if sentences[i].paragraph_idx != sentences[i - 1].paragraph_idx {
            1
        } else if gaps_on {
            1
        } else {
            0
        };
        r.push(g);
        i += 1;
    }
    r
}

/// The sum of the first `n` numbers of `v`.
pub open spec fn sum_to(v: Seq<u16>, n: int) -> int
    decreases n,
{
    if n <= 0 || n > v.len() {
        0
    } else {
        sum_to(v, n - 1) + v[n - 1]
    }
}

/// The rows that all sentences take, blank rows included.
pub open spec fn total_rows(heights: Seq<u16>, gaps: Seq<u16>) -> int {
    sum_to(heights, heights.len() as int) + sum_to(gaps, gaps.len() as int)
}

/// `a - b`, or 0 when `b` is larger.
pub open spec fn minus_or_zero(a: int, b: int) -> int {
    if a >= b {
        a - b
    } else {
        0
    }
}

/// The rows scrolled away above the text area of `view` rows: none when all
/// sentences fit, else as many as put the middle of the current sentence in
/// the middle of the area, but not past the end of the text.
pub open spec fn scroll_target(heights: Seq<u16>, gaps: Seq<u16>, current: int, view: int) -> int {
    let total = total_rows(heights, gaps);
    if total <= view {
        0
    } else {
        let top = sum_to(heights, current) + sum_to(gaps, current);
        let ideal = minus_or_zero(top, minus_or_zero(view / 2, (heights[current] / 2) as int));
        let last = minus_or_zero(total, view);
        if ideal < last {
            ideal
        } else {
            last
        }
    }
}

proof fn lemma_sum_to_grows(v: Seq<u16>, m: int, n: int)
    requires
        0 <= m <= n <= v.len(),
    ensures
        0 <= sum_to(v, m) <= sum_to(v, n),
    decreases n - m,
{
    if m < n {
        lemma_sum_to_grows(v, m, n - 1);
    } else {
        lemma_sum_to_nonneg(v, n);
    }
}

proof fn lemma_sum_to_nonneg(v: Seq<u16>, n: int)
    ensures
        sum_to(v, n) >= 0,
    decreases n,
{
    if n > 0 && n <= v.len() {
        lemma_sum_to_nonneg(v, n - 1);
    }
}

/// The sum of the first `n` numbers of `v`, which fits in `u16`.
fn sum_prefix(v: &Vec<u16>, n: usize, bound: Ghost<int>) -> (r: u16)
    requires
        n <= v@.len(),
        sum_to(v@, v@.len() as int) <= bound@,
        bound@ <= u16::MAX,
    ensures
        r == sum_to(v@, n as int),
{
    let mut s: u16 = 0;
    let mut i: usize = 0;
    while i < n
        invariant
            i <= n <= v@.len(),
            s == sum_to(v@, i as int),
            sum_to(v@, v@.len() as int) <= bound@,
            bound@ <= u16::MAX,
        decreases n - i,
    {
        proof {
            lemma_sum_to_grows(v@, i + 1, v@.len() as int);
        }
        s = s + v[i];
        i += 1;
    }
    s
}

/// The rows scrolled away above the reader's text area of `view_height`
/// rows: see [`scroll_target`]. `heights` and `gaps` hold each sentence's
/// rows and the blank rows above it.
pub fn scroll_offset(heights: &Vec<u16>, gaps: &Vec<u16>, current: usize, view_height: u16) -> (r: u16)
    requires
        heights@.len() == gaps@.len(),
        current < heights@.len(),
        total_rows(heights@, gaps@) <= u16::MAX,
    ensures
        r == scroll_target(heights@, gaps@, current as int, view_height as int),
{
    proof {
        lemma_sum_to_nonneg(heights@, heights@.len() as int);
        lemma_sum_to_nonneg(gaps@, gaps@.len() as int);
        lemma_sum_to_grows(heights@, current as int, heights@.len() as int);
        lemma_sum_to_grows(gaps@, current as int, gaps@.len() as int);
    }
    let hs = sum_prefix(heights, heights.len(), Ghost(u16::MAX as int));
    let gs = sum_prefix(gaps, gaps.len(), Ghost(u16::MAX as int));
    let total = hs + gs;
    if total <= view_height {
        return 0;
    }
    let top = sum_prefix(heights, current, Ghost(u16::MAX as int)) + sum_prefix(gaps, current, Ghost(
        u16::MAX as int,
    ));
    let center = view_height / 2;
    let ideal = top.saturating_sub(center.saturating_sub(heights[current] / 2));
    let last = total.saturating_sub(view_height);
    if ideal < last {
        ideal
    } else {
        last
    }
}

/// A sentence drawn in the reader's text area: which one, the row of the
/// area it starts at, and the rows of the area from there down.
#[derive(Debug, Clone, Copy, PartialEq, Eq, Structural)]
pub struct ShownSentence {
    pub index: usize,
    pub top: u16,
    pub rows: u16,
}

/// The sentences from `i` on that are drawn in an area of `view` rows, the
/// sentence `i` starting `y` rows below the area's top (above it when
/// negative): those wholly above the area are skipped, and the first that
/// starts below it ends the list.
pub open spec fn shown_from(heights: Seq<u16>, gaps: Seq<u16>, view: int, i: int, y: int) -> Seq<ShownSentence>
    decreases heights.len() - i,
{
    if i < 0 || i >= heights.len() || i >= gaps.len() {
        Seq::empty()
    } else {
        let y1 = y + gaps[i];
        let h = heights[i] as int;
        if y1 + h <= 0 {
            shown_from(heights, gaps, view, i + 1, y1 + h)
        } else if y1 >= view {
            Seq::empty()
        } else {
            let top = if y1 > 0 { y1 } else { 0 };
            if view - top <= 0 {
                shown_from(heights, gaps, view, i + 1, y1 + h)
            } else {
                seq![ShownSentence { index: i as usize, top: top as u16, rows: (view - top) as u16 }] + shown_from(
                    heights,
                    gaps,
                    view,
                    i + 1,
                    y1 + h,
                )
            }
        }
    }
}

/// The sentences drawn in the reader's text area of `view_height` rows
/// scrolled by `offset` rows, top to bottom: where a click is tested, the
/// first sentence whose words it hits taking it.
pub fn shown_sentences(heights: &Vec<u16>, gaps: &Vec<u16>, offset: u16, view_height: u16) -> (r: Vec<ShownSentence>)
    requires
        heights@.len() == gaps@.len(),
        total_rows(heights@, gaps@) <= u16::MAX,
    ensures
        r@ == shown_from(heights@, gaps@, view_height as int, 0, -(offset as int)),
{
    let mut r: Vec<ShownSentence> = Vec::new();
    let mut y: i32 = -(offset as i32);
    let mut i: usize = 0;
    let ghost whole = shown_from(heights@, gaps@, view_height as int, 0, -(offset as int));
    proof {
        lemma_sum_to_nonneg(heights@, heights@.len() as int);
        lemma_sum_to_nonneg(gaps@, gaps@.len() as int);
    }
    while i < heights.len()
        invariant_except_break
            i <= heights@.len(),
            whole == r@ + shown_from(heights@, gaps@, view_height as int, i as int, y as int),
        invariant
            heights@.len() == gaps@.len(),
            total_rows(heights@, gaps@) <= u16::MAX,
            -(offset as int) <= y <= -(offset as int) + sum_to(heights@, i as int) + sum_to(gaps@, i as int),
            i <= heights@.len(),
        ensures
            whole == r@,
        decreases heights.len() - i,
    {
        proof {
            lemma_sum_to_grows(heights@, i + 1, heights@.len() as int);
            lemma_sum_to_grows(gaps@, i + 1, gaps@.len() as int);
            lemma_sum_to_nonneg(heights@, i as int);
            lemma_sum_to_nonneg(gaps@, i as int);
        }
        let y1: i32 = y + gaps[i] as i32;
        let h: i32 = heights[i] as i32;
        if y1 + h <= 0 {
            y = y1 + h;
            i += 1;
            continue;
        }
        if y1 >= view_height as i32 {
            break;
        }
        let top: i32 = if y1 > 0 {
            y1
        } else {
            0
        };
        if (view_height as i32) - top > 0 {
            let s = ShownSentence { index: i, top: top as u16, rows: ((view_height as i32) - top) as u16 };
            let ghost before = r@;
            r.push(s);
            proof {
                assert(r@ == before + seq![s]);
                assert(whole == r@ + shown_from(heights@, gaps@, view_height as int, i + 1, y1 + h));
            }
        }
        y = y1 + h;
        i += 1;
    }
    proof {
        if i >= heights@.len() {
            assert(r@ + Seq::<ShownSentence>::empty() =~= r@);
        }
    }
    r
}

/// The first head of group `g` among `tokens` from `from` on.
pub open spec fn group_head_from(tokens: Seq<TokenDisplay>, g: usize, from: int) -> Option<int>
    decreases tokens.len() - from,
{
    if from < 0 || from >= tokens.len() {
        None
    } else if tokens[from].group_id == Some(g) && tokens[from].is_group_head {
        Some(from)
    } else {
        group_head_from(tokens, g, from + 1)
    }
}

/// The token that a click on token `t` selects: the head of its group, or
/// the token itself when it has no group or the group no head.
pub open spec fn click_target(tokens: Seq<TokenDisplay>, t: int) -> int {
    match tokens[t].group_id {
        Some(g) => match group_head_from(tokens, g, 0) {
            Some(k) => k,
            None => t,
        },
        None => t,
    }
}

/// The token a click on token `t` of a sentence selects.
pub fn clicked_token(tokens: &Vec<TokenDisplay>, t: usize) -> (r: usize)
    requires
        t < tokens@.len(),
    ensures
        r == click_target(tokens@, t as int),
        r < tokens@.len(),
{
    match tokens[t].group_id {
        Some(g) => {
            let mut k: usize = 0;
            while k < tokens.len()
                invariant
                    k <= tokens@.len(),
                    t < tokens@.len(),
                    tokens@[t as int].group_id == Some(g),
                    group_head_from(tokens@, g, 0) == group_head_from(tokens@, g, k as int),
                decreases tokens.len() - k,
            {
                if tokens[k].group_id == Some(g) && tokens[k].is_group_head {
                    return k;
                }
                k += 1;
            }
            t
        },
        None => t,
    }
}

/// Selects the word a click landed on: token `token` of sentence `sentence`.
/// Moving to another sentence drops the expression mark; the result says
/// whether the sentence changed (and the reading position is to be saved).
pub fn select_clicked(state: &mut ReaderState, sentence: usize, token: usize) -> (moved: bool)
    ensures
        moved == (sentence != old(state).sentence_index),
        *final(state) == (if moved {
            ReaderState { sentence_index: sentence, word_index: Some(token), expression_mark: None, ..*old(state) }
        } else {
            ReaderState { word_index: Some(token), ..*old(state) }
        }),
{
    if sentence != state.sentence_index {
        state.sentence_index = sentence;
        state.word_index = Some(token);
        state.expression_mark = None;
        true
    } else {
        state.word_index = Some(token);
        false
    }
}

/// The sentences drawn lie in the area and come in their order: each
/// starts on a row of the area and has rows left below it, and each comes
/// after the one drawn above it.
pub open spec fn shown_in_order(r: Seq<ShownSentence>, len: int, view: int, from: int) -> bool {
    &&& forall|k: int| 0 <= k < r.len() ==> from <= #[trigger] r[k].index < len
    &&& forall|k: int| 0 <= k < r.len() ==> #[trigger] r[k].top + r[k].rows == view && r[k].rows > 0
    &&& forall|j: int, k: int| 0 <= j < k < r.len() ==> r[j].index < r[k].index
}

proof fn lemma_shown_in_order(heights: Seq<u16>, gaps: Seq<u16>, view: int, i: int, y: int)
    requires
        0 <= i,
        heights.len() <= usize::MAX,
        0 <= view <= u16::MAX,
    ensures
        shown_in_order(shown_from(heights, gaps, view, i, y), heights.len() as int, view, i),
    decreases heights.len() - i,
{
    if i < heights.len() && i < gaps.len() {
        let y1 = y + gaps[i];
        let h = heights[i] as int;
        let rest = shown_from(heights, gaps, view, i + 1, y1 + h);
        lemma_shown_in_order(heights, gaps, view, i + 1, y1 + h);
        if y1 + h > 0 && y1 < view {
            let top = if y1 > 0 { y1 } else { 0 };
            if view - top > 0 {
                let first = ShownSentence { index: i as usize, top: top as u16, rows: (view - top) as u16 };
                let r = seq![first] + rest;
                assert(shown_from(heights, gaps, view, i, y) == r);
                assert forall|k: int| 0 <= k < r.len() implies i <= #[trigger] r[k].index < heights.len() by {
                    if k > 0 {
                        assert(r[k] == rest[k - 1]);
                    }
                }
                assert forall|k: int| 0 <= k < r.len() implies #[trigger] r[k].top + r[k].rows == view
                    && r[k].rows > 0 by {
                    if k > 0 {
                        assert(r[k] == rest[k - 1]);
                    }
                }
                assert forall|j: int, k: int| 0 <= j < k < r.len() implies r[j].index < r[k].index by {
                    assert(r[k] == rest[k - 1]);
                    if j > 0 {
                        assert(r[j] == rest[j - 1]);
                    }
                }
            }
        }
    }
}

/// Whatever the heights and the scroll, the sentences that a click is tested
/// against lie in the text area, top to bottom in the text's order, each
/// sentence once.
pub proof fn law_shown_sentences_are_in_order(heights: Seq<u16>, gaps: Seq<u16>, offset: u16, view_height: u16)
    requires
        heights.len() <= usize::MAX,
    ensures
        shown_in_order(
            shown_from(heights, gaps, view_height as int, 0, -(offset as int)),
            heights.len() as int,
            view_height as int,
            0,
        ),
{
    lemma_shown_in_order(heights, gaps, view_height as int, 0, -(offset as int));
}

} // verus!
