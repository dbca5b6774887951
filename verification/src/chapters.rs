//! Opening a multi-chapter source: the chapter list with each chapter's
//! reading state and a selection carried over from the last visit, and
//! moving on to the next chapter at the end of one.
use vstd::prelude::*;
use std::collections::{HashMap, HashSet};
use crate::models::{Text, WebSource, WebSourceChapter};
use crate::screens::{first_with_id, read_state_of, ChapterReadState, ChapterSelectState};
use crate::text::str_eq;

verus! {

/// The reading state of a chapter whose loaded text is `text`: read so far
/// when it has a text that was found, else not imported.
pub open spec fn state_for(ch: WebSourceChapter, text: Option<Text>) -> ChapterReadState {
    match (ch.text_id, text) {
        (Some(_), Some(t)) => read_state_of(t.total_sentences, t.last_sentence_index),
        _ => ChapterReadState::NotImported,
    }
}

/// The reading states of the first `n` chapters, keyed by chapter id: the
/// skipped chapters have none, a later chapter with the same id wins.
pub open spec fn read_states_upto(chs: Seq<WebSourceChapter>, texts: Seq<Option<Text>>, n: int) -> Map<
    i64,
    ChapterReadState,
>
    decreases n,
{
    if n <= 0 || n > chs.len() {
        Map::empty()
    } else {
        let prev = read_states_upto(chs, texts, n - 1);
        let c = chs[n - 1];
        if c.is_skipped {
            prev
        } else {
            prev.insert(c.id, state_for(c, texts[n - 1]))
        }
    }
}

/// The reading state of one chapter.
fn state_of(ch: &WebSourceChapter, text: &Option<Text>) -> (r: ChapterReadState)
    ensures
        r == state_for(*ch, *text),
{
    if ch.text_id.is_none() {
        return ChapterReadState::NotImported;
    }
    match text {
        Some(t) => {
            if t.total_sentences == 0 {
                ChapterReadState::Unread
            } else if t.last_sentence_index >= t.total_sentences || (t.last_sentence_index < i64::MAX
                && t.last_sentence_index + 1 == t.total_sentences) {
                ChapterReadState::Finished
            } else if t.last_sentence_index > 0 {
                ChapterReadState::InProgress
            } else {
                ChapterReadState::Unread
            }
        },
        None => ChapterReadState::NotImported,
    }
}

/// The reading states of `chapters`, `texts[i]` being the text loaded for
/// chapter `i` (none when it has none or it was not found).
pub fn chapter_read_states(chapters: &Vec<WebSourceChapter>, texts: &Vec<Option<Text>>) -> (r: HashMap<
    i64,
    ChapterReadState,
>)
    requires
        texts@.len() == chapters@.len(),
    ensures
        r@ == read_states_upto(chapters@, texts@, chapters@.len() as int),
{
    broadcast use vstd::std_specs::hash::group_hash_axioms;

    let mut r: HashMap<i64, ChapterReadState> = HashMap::new();
    let mut i: usize = 0;
    while i < chapters.len()
        invariant
            i <= chapters@.len(),
            texts@.len() == chapters@.len(),
            r@ == read_states_upto(chapters@, texts@, i as int),
        decreases chapters.len() - i,
    {
        let ch = &chapters[i];
        if !ch.is_skipped {
            let st = state_of(ch, &texts[i]);
            r.insert(ch.id, st);
        }
        i += 1;
    }
    r
}

/// The selection when a source's chapter list opens: the one left at the
/// last visit of the same source, within the list, else the first.
pub open spec fn reopened_selection(previous: Option<usize>, len: nat) -> usize {
    match previous {
        Some(s) => {
            let max: int = if len > 0 { len - 1 } else { 0 };
            if s < max { s } else { max as usize }
        },
        None => 0,
    }
}

/// The chapter list of `source`: `texts[i]` is the text loaded for chapter
/// `i`, `previous_selected` the selection left at the last visit of this
/// source, and the page starts at the page boundary before the selection.
pub fn new_chapter_select(
    source: WebSource,
    chapters: Vec<WebSourceChapter>,
    texts: &Vec<Option<Text>>,
    totals: (usize, usize, usize),
    previous_selected: Option<usize>,
    page_size: usize,
) -> (r: ChapterSelectState)
    requires
        texts@.len() == chapters@.len(),
        page_size > 0,
    ensures
        r.source == source,
        r.chapters == chapters,
        r.selected == reopened_selection(previous_selected, chapters@.len()),
        r.page_start == (r.selected / page_size) * page_size,
        r.page_start <= r.selected < r.page_start + page_size,
        chapters@.len() > 0 ==> r.selected < chapters@.len(),
        r.page_size == page_size,
        r.total_chapters == totals.0,
        r.total_imported == totals.1,
        r.total_skipped == totals.2,
        !r.loading,
        r.chapter_read_states@ == read_states_upto(chapters@, texts@, chapters@.len() as int),
{
    let states = chapter_read_states(&chapters, texts);
    let selected = match previous_selected {
        Some(s) => {
            let max = chapters.len().saturating_sub(1);
            if s < max { s } else { max }
        },
        None => 0,
    };
    let q = selected / page_size;
    assert(q * page_size <= selected < q * page_size + page_size) by (nonlinear_arith)
        requires
            q == selected / page_size,
            page_size > 0,
    ;
    let page_start = q * page_size;
    ChapterSelectState {
        source,
        chapters,
        selected,
        page_start,
        page_size,
        total_chapters: totals.0,
        total_imported: totals.1,
        total_skipped: totals.2,
        loading: false,
        chapter_read_states: states,
    }
}

/// What to do at the end of a chapter.
#[derive(Debug, Clone, Copy, PartialEq, Eq, Structural)]
pub enum NextChapterPlan {
    /// There is no next chapter to go to.
    Stay,
    /// The next chapter is imported: open its text, and select it in the
    /// chapter list when it is there.
    OpenText { text_id: i64, chapter_id: i64, select: Option<usize> },
    /// The next chapter of a Syosetu novel is not imported: wait on the
    /// chapter list for its import, queued unless it already is, then open it.
    AwaitImport { chapter_id: i64, chapter_number: i32, queue: bool, select: Option<usize> },
}

/// The place of the chapter with id `id` in the list, if it is there.
pub open spec fn place_of(chs: Seq<WebSourceChapter>, id: i64) -> Option<usize> {
    let k = first_with_id(chs, id, 0);
    if k < chs.len() {
        Some(k as usize)
    } else {
        None
    }
}

/// What the end of a chapter leads to: `next` is the chapter after it (none
/// at the last chapter or outside a multi-chapter source), `list` the open
/// chapter list, and `processing` the chapters being imported.
pub open spec fn next_chapter_of(
    next: Option<WebSourceChapter>,
    list: Option<ChapterSelectState>,
    processing: Set<i64>,
) -> NextChapterPlan {
    match next {
        None => NextChapterPlan::Stay,
        Some(ch) => {
            let select = match list {
                Some(l) => place_of(l.chapters@, ch.id),
                None => None,
            };
            match ch.text_id {
                Some(t) => NextChapterPlan::OpenText { text_id: t, chapter_id: ch.id, select },
                None => if list matches Some(l) && l.source.source_type@ == "syosetu"@ {
                    NextChapterPlan::AwaitImport {
                        chapter_id: ch.id,
                        chapter_number: ch.chapter_number,
                        queue: !processing.contains(ch.id),
                        select,
                    }
                } else {
                    NextChapterPlan::Stay
                },
            }
        },
    }
}

/// The place of the chapter with id `id` in `chs`, if it is there.
fn find_chapter(chs: &Vec<WebSourceChapter>, id: i64) -> (r: Option<usize>)
    ensures
        r == place_of(chs@, id),
{
    let mut k: usize = 0;
    while k < chs.len() && chs[k].id != id
        invariant
            k <= chs@.len(),
            first_with_id(chs@, id, 0) == first_with_id(chs@, id, k as int),
        decreases chs.len() - k,
    {
        k += 1;
    }
    if k < chs.len() {
        Some(k)
    } else {
        None
    }
}

/// What to do at the end of a chapter: see [`next_chapter_of`].
pub fn next_chapter_plan(
    next: &Option<WebSourceChapter>,
    list: &Option<ChapterSelectState>,
    processing: &HashSet<i64>,
) -> (r: NextChapterPlan)
    ensures
        r == next_chapter_of(*next, *list, processing@),
{
    broadcast use vstd::std_specs::hash::group_hash_axioms;

    let ch = match next {
        Some(ch) => ch,
        None => return NextChapterPlan::Stay,
    };
    let select = match list {
        Some(l) => find_chapter(&l.chapters, ch.id),
        None => None,
    };
    match ch.text_id {
        Some(t) => NextChapterPlan::OpenText { text_id: t, chapter_id: ch.id, select },
        None => {
            let syosetu = match list {
                Some(l) => str_eq(l.source.source_type.as_str(), "syosetu"),
                None => false,
            };
            if syosetu {
                NextChapterPlan::AwaitImport {
                    chapter_id: ch.id,
                    chapter_number: ch.chapter_number,
                    queue: !processing.contains(&ch.id),
                    select,
                }
            } else {
                NextChapterPlan::Stay
            }
        },
    }
}

} // verus!
