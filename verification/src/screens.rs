//! The state of the application's screens: home, library, chapter select
//! and reader, the popups, and the paging of the chapter list.
use vstd::prelude::*;
use std::collections::{HashMap, HashSet};
use crate::dictionary::DictEntry;
use crate::models::{Text, TextStats, Vocabulary, VocabularyStatus, WebSource, WebSourceChapter};
use crate::reader::{AutopromotionBatch, MweMatch, ParagraphData, SentenceData, TokenDisplay, navigable};
use crate::text::{str_eq, popped, pop_char, push_str};

verus! {

/// Which screen is currently active.
#[derive(Debug, Clone, PartialEq, Eq, Structural)]
pub enum Screen {
    Home,
    Library,
    ChapterSelect { source_id: i64 },
    Reader,
    Review,
    CardBrowser,
    Settings,
    Stats,
}

/// What kind of popup is being shown.
#[derive(Debug, Clone)]
pub enum PopupState {
    /// Full dictionary entry for a word.
    WordDetail {
        base_form: String,
        reading: String,
        entries: Vec<DictEntry>,
        conjugations: Vec<(String, i32)>,
        notes: Option<String>,
        scroll: usize,
    },
    /// Help overlay showing keybindings.
    Help { scroll: usize },
    /// Note editor for a word.
    NoteEditor { vocabulary_id: i64, text: String },
    /// Quit confirmation.
    QuitConfirm,
    /// Delete text confirmation.
    DeleteConfirm { text_id: i64, title: String },
    /// Delete web source confirmation.
    DeleteSourceConfirm { source_id: i64, title: String },
    /// Import sub-menu (clipboard / URL / file).
    ImportMenu,
    /// URL text input for web import.
    UrlInput { text: String },
    /// Search/filter input for library.
    SearchInput { text: String },
    /// File path input for file/epub/subtitle import.
    FilePathInput { text: String },
    /// Syosetu ncode input.
    SyosetuInput { text: String },
    /// Translation input for a newly created expression.
    /// Shown after the user marks an expression and presses Enter.
    ExpressionTranslation { surface: String, reading: String, gloss: String },
}

/// State for the reader screen.
pub struct ReaderState {
    pub text_id: i64,
    pub text_title: String,
    pub paragraphs: Vec<ParagraphData>,
    pub sentences: Vec<SentenceData>,
    pub sentence_index: usize,
    pub word_index: Option<usize>,
    pub vocabulary_cache: HashMap<(String, String), Vocabulary>,
    /// Cached short glosses keyed by base_form to avoid repeated lookups.
    pub gloss_cache: HashMap<String, String>,
    pub scroll_offset: usize,
    pub sidebar_scroll: usize,
    /// Whether autopromotion of New words to Known is active (per-session, default true).
    pub autopromote_enabled: bool,
    /// Undo stack: each entry is a batch of words autopromoted on a single sentence advance.
    pub autopromote_history: Vec<AutopromotionBatch>,
    /// Whether to show readings for all words in the sidebar (per-session toggle, default false).
    pub show_all_readings: bool,
    /// Whether to show Known/Ignored words in the sidebar word list (per-session toggle, default false).
    pub show_known_in_sidebar: bool,
    /// Cached expression matches per sentence (computed once when the text is loaded).
    pub mwe_matches: Vec<Vec<MweMatch>>,
    /// Expression marking mode: Some((start, end)) token indices in current sentence.
    /// When active, Left/Right extend the range. Enter saves, Esc cancels.
    pub expression_mark: Option<(usize, usize)>,
}

// ─── Library ────────────────────────────────────────────────────────

/// How the library list is sorted.
#[derive(Debug, Clone, Copy, PartialEq, Eq, Structural)]
pub enum LibrarySort {
    DateDesc,
    DateAsc,
    TitleAsc,
    Completion,
}

pub open spec fn next_sort(s: LibrarySort) -> LibrarySort {
    match s {
        LibrarySort::DateDesc => LibrarySort::DateAsc,
        LibrarySort::DateAsc => LibrarySort::TitleAsc,
        LibrarySort::TitleAsc => LibrarySort::Completion,
        LibrarySort::Completion => LibrarySort::DateDesc,
    }
}

pub open spec fn sort_label(s: LibrarySort) -> Seq<char> {
    match s {
        LibrarySort::DateDesc => "Date ↓"@,
        LibrarySort::DateAsc => "Date ↑"@,
        LibrarySort::TitleAsc => "Title A-Z"@,
        LibrarySort::Completion => "Completion %"@,
    }
}

impl LibrarySort {
    pub fn next(self) -> (r: Self)
        ensures
            r == next_sort(self),
    {
        match self {
            Self::DateDesc => Self::DateAsc,
            Self::DateAsc => Self::TitleAsc,
            Self::TitleAsc => Self::Completion,
            Self::Completion => Self::DateDesc,
        }
    }

    pub fn label(self) -> (r: &'static str)
        ensures
            r@ == sort_label(self),
    {
        match self {
            Self::DateDesc => "Date ↓",
            Self::DateAsc => "Date ↑",
            Self::TitleAsc => "Title A-Z",
            Self::Completion => "Completion %",
        }
    }
}

/// Cycling the sort mode visits all four modes and comes back after four steps.
pub proof fn law_library_sort_cycles(s: LibrarySort)
    ensures
        next_sort(next_sort(next_sort(next_sort(s)))) == s,
        next_sort(s) != s,
        next_sort(next_sort(s)) != s,
        next_sort(next_sort(next_sort(s))) != s,
{
}

/// An item shown in the library list — either a standalone text or a grouped source.
#[derive(Debug, Clone)]
pub enum LibraryItem {
    /// A single text (plain text, clipboard, web, subtitle).
    Text(Text),
    /// A grouped multi-chapter source (Syosetu, EPUB).
    Source(WebSource),
}

impl LibraryItem {
    pub fn title(&self) -> (r: &str)
        ensures
            r@ == match self {
                LibraryItem::Text(t) => t.title@,
                LibraryItem::Source(s) => s.title@,
            },
    {
        match self {
            LibraryItem::Text(t) => t.title.as_str(),
            LibraryItem::Source(s) => s.title.as_str(),
        }
    }

    pub fn source_type(&self) -> (r: &str)
        ensures
            r@ == match self {
                LibraryItem::Text(t) => t.source_type@,
                LibraryItem::Source(s) => s.source_type@,
            },
    {
        match self {
            LibraryItem::Text(t) => t.source_type.as_str(),
            LibraryItem::Source(s) => s.source_type.as_str(),
        }
    }

    /// When the item was added: a text's creation time, a source's last sync.
    pub fn created_at(&self) -> (r: &str)
        ensures
            r@ == match self {
                LibraryItem::Text(t) => t.created_at@,
                LibraryItem::Source(s) => s.last_synced@,
            },
    {
        match self {
            LibraryItem::Text(t) => t.created_at.as_str(),
            LibraryItem::Source(s) => s.last_synced.as_str(),
        }
    }
}

/// Library screen state.
pub struct LibraryState {
    pub items: Vec<LibraryItem>,
    pub stats: HashMap<i64, TextStats>,
    /// source_id -> (total, imported, skipped)
    pub source_chapter_counts: HashMap<i64, (usize, usize, usize)>,
    pub selected: usize,
    pub sort: LibrarySort,
    pub filter_source: Option<String>,
    /// All unique source types present in the database.
    pub source_types: Vec<String>,
}

// ─── Home ───────────────────────────────────────────────────────────

/// Home screen state.
pub struct HomeState {
    pub recent_texts: Vec<Text>,
    pub recent_stats: HashMap<i64, TextStats>,
    pub selected: usize,
    /// Whether to show finished texts in the recent list (default false).
    pub show_finished: bool,
}

/// A recent text is listed unless finished texts are hidden and it is
/// finished (it has sentences and the last one has been reached).
pub open spec fn listed_on_home(show_finished: bool, t: Text) -> bool {
    show_finished || t.total_sentences == 0 || t.last_sentence_index < t.total_sentences - 1
}

/// The positions `from..` of the texts listed on the home screen.
pub open spec fn home_listed_from(texts: Seq<Text>, show_finished: bool, from: int) -> Seq<usize>
    decreases texts.len() - from,
{
    if from < 0 || from >= texts.len() {
        seq![]
    } else if listed_on_home(show_finished, texts[from]) {
        seq![from as usize] + home_listed_from(texts, show_finished, from + 1)
    } else {
        home_listed_from(texts, show_finished, from + 1)
    }
}

/// Positions, in the recent list, of the texts shown on the home screen.
pub fn home_filtered_texts(home: &HomeState) -> (r: Vec<usize>)
    requires
        !home.show_finished ==> forall|i: int|
            0 <= i < home.recent_texts@.len() ==> (#[trigger] home.recent_texts@[i]).total_sentences
                > i64::MIN,
    ensures
        r@ == home_listed_from(home.recent_texts@, home.show_finished, 0),
{
    let texts = &home.recent_texts;
    let mut out: Vec<usize> = Vec::new();
    let mut i: usize = texts.len();
    let mut rev: Vec<usize> = Vec::new();
    // collect from the back so that the listing can be stated from the front
    while i > 0
        invariant
            i <= texts@.len(),
            texts == &home.recent_texts,
            !home.show_finished ==> forall|k: int|
                0 <= k < texts@.len() ==> (#[trigger] texts@[k]).total_sentences > i64::MIN,
            rev@.reverse() == home_listed_from(texts@, home.show_finished, i as int),
        decreases i,
    {
        i -= 1;
        let t = &texts[i];
        let listed = home.show_finished || t.total_sentences == 0 || t.last_sentence_index
            < t.total_sentences - 1;
        let ghost before = rev@;
        if listed {
            rev.push(i);
            assert(rev@.reverse() == seq![i] + before.reverse());
        }
    }
    let mut k: usize = rev.len();
    while k > 0
        invariant
            k <= rev@.len(),
            out@ == rev@.subrange(k as int, rev@.len() as int).reverse(),
        decreases k,
    {
        k -= 1;
        out.push(rev[k]);
        assert(rev@.subrange(k as int, rev@.len() as int).reverse() == rev@.subrange(
            k + 1,
            rev@.len() as int,
        ).reverse().push(rev@[k as int]));
    }
    assert(rev@.subrange(0, rev@.len() as int) == rev@);
    out
}

/// The home screen lists positions of the recent list, in increasing
/// order: each at most once, and each a position of the list.
pub proof fn law_home_listing_is_ordered(texts: Seq<Text>, show_finished: bool, from: int)
    requires
        0 <= from,
        texts.len() <= usize::MAX,
    ensures
        forall|k: int|
            0 <= k < home_listed_from(texts, show_finished, from).len() ==> from <= (
            #[trigger] home_listed_from(texts, show_finished, from)[k]) < texts.len(),
        forall|k1: int, k2: int|
            0 <= k1 < k2 < home_listed_from(texts, show_finished, from).len() ==> (
            #[trigger] home_listed_from(texts, show_finished, from)[k1]) < (
            #[trigger] home_listed_from(texts, show_finished, from)[k2]),
    decreases texts.len() - from,
{
    if from < texts.len() {
        law_home_listing_is_ordered(texts, show_finished, from + 1);
        let rest = home_listed_from(texts, show_finished, from + 1);
        if listed_on_home(show_finished, texts[from]) {
            let all = seq![from as usize] + rest;
            assert(home_listed_from(texts, show_finished, from) == all);
            assert forall|k: int| 0 <= k < all.len() implies from <= (#[trigger] all[k]) < texts.len() by {
                if k > 0 {
                    assert(all[k] == rest[k - 1]);
                }
            }
            assert forall|k1: int, k2: int| 0 <= k1 < k2 < all.len() implies (#[trigger] all[k1]) < (
            #[trigger] all[k2]) by {
                assert(all[k2] == rest[k2 - 1]);
                if k1 > 0 {
                    assert(all[k1] == rest[k1 - 1]);
                }
            }
        }
    }
}

// ─── Chapter select ─────────────────────────────────────────────────

/// Reading state of a chapter.
#[derive(Debug, Clone, Copy, PartialEq, Eq, Structural)]
pub enum ChapterReadState {
    /// Not imported yet.
    NotImported,
    /// Imported but not started reading.
    Unread,
    /// Reading in progress (has progress but not finished).
    InProgress,
    /// Finished reading (reached the end).
    Finished,
}

/// Chapter select screen state (for multi-chapter sources: Syosetu, EPUB, etc.).
pub struct ChapterSelectState {
    pub source: WebSource,
    pub chapters: Vec<WebSourceChapter>,
    pub selected: usize,
    /// Index of the first chapter visible on the current page.
    pub page_start: usize,
    /// Available rows for the chapter list (terminal height minus chrome).
    pub page_size: usize,
    pub total_chapters: usize,
    pub total_imported: usize,
    pub total_skipped: usize,
    /// True while novel metadata is being fetched in background.
    pub loading: bool,
    /// Reading state per chapter (keyed by chapter id).
    pub chapter_read_states: HashMap<i64, ChapterReadState>,
}

/// The group names of the chapters.
pub open spec fn chapter_groups(chs: Seq<WebSourceChapter>) -> Seq<Seq<char>> {
    chs.map_values(|c: WebSourceChapter| c.chapter_group@)
}

/// One past the last chapter that fits on a page, walking from chapter `j`
/// with `rows` rows left and `last` the group of the chapter before: a
/// chapter takes one row, and a chapter that starts a new named group takes
/// one more for the group header.
pub open spec fn page_end_from(gs: Seq<Seq<char>>, j: int, rows: int, last: Option<Seq<char>>) -> int
    decreases gs.len() - j,
{
    if j < 0 || j >= gs.len() {
        j
    } else if gs[j].len() > 0 {
        let new_group = match last {
            Some(p) => p != gs[j],
            None => true,
        };
        if new_group && rows <= 0 {
            j
        } else {
            let rows1 = if new_group {
                rows - 1
            } else {
                rows
            };
            if rows1 <= 0 {
                j
            } else {
                page_end_from(gs, j + 1, rows1 - 1, Some(gs[j]))
            }
        }
    } else if rows <= 0 {
        j
    } else {
        page_end_from(gs, j + 1, rows - 1, None)
    }
}

proof fn lemma_page_end_from(gs: Seq<Seq<char>>, j: int, rows: int, last: Option<Seq<char>>)
    requires
        0 <= j <= gs.len(),
    ensures
        j <= page_end_from(gs, j, rows, last) <= gs.len(),
    decreases gs.len() - j,
{
    if j < gs.len() {
        if gs[j].len() > 0 {
            let new_group = match last {
                Some(p) => p != gs[j],
                None => true,
            };
            let rows1 = if new_group {
                rows - 1
            } else {
                rows
            };
            lemma_page_end_from(gs, j + 1, rows1 - 1, Some(gs[j]));
        } else {
            lemma_page_end_from(gs, j + 1, rows - 1, None);
        }
    }
}

/// The chapters on the page starting at `start`.
pub open spec fn visible_range_end(chs: Seq<WebSourceChapter>, start: int, page_size: int) -> int {
    if start >= chs.len() {
        start
    } else {
        page_end_from(chapter_groups(chs), start, page_size, None)
    }
}

/// How many rows chapter `idx` takes: one, plus a header row when it is the
/// first chapter of a named group.
pub open spec fn rows_needed(gs: Seq<Seq<char>>, idx: int) -> int {
    if gs[idx].len() > 0 && (idx == 0 || gs[idx - 1] != gs[idx]) {
        2
    } else {
        1
    }
}

/// The rows a chapter takes as the first of a page: one, plus a header row
/// when it belongs to a named group.
pub open spec fn first_rows(gs: Seq<Seq<char>>, idx: int) -> int {
    if gs[idx].len() > 0 {
        2
    } else {
        1
    }
}

/// The rows that chapters `i` to `target` take after a chapter before them
/// on the same page.
pub open spec fn tail_rows(gs: Seq<Seq<char>>, i: int, target: int) -> int
    decreases target + 1 - i,
{
    if i < 0 || i > target {
        0
    } else {
        rows_needed(gs, i) + tail_rows(gs, i + 1, target)
    }
}

/// The rows of a page that starts at chapter `i` and ends with `target`.
pub open spec fn page_rows(gs: Seq<Seq<char>>, i: int, target: int) -> int {
    first_rows(gs, i) + tail_rows(gs, i + 1, target)
}

/// The first chapter of the page that ends with `target`: walking back from
/// chapter `idx` while the page from there to `target` fits in `rows` rows,
/// the first chapter of the page bringing its group's header.
pub open spec fn page_start_back(gs: Seq<Seq<char>>, idx: int, target: int, rows: int, cand: int) -> int
    decreases idx + 1,
{
    if idx < 0 {
        cand
    } else if page_rows(gs, idx, target) > rows {
        cand
    } else {
        page_start_back(gs, idx - 1, target, rows, idx)
    }
}

impl ChapterSelectState {
    fn visible_end(&self) -> (end: usize)
        ensures
            end as int == visible_range_end(self.chapters@, self.page_start as int, self.page_size as int),
            self.page_start < self.chapters@.len() ==> self.page_start <= end <= self.chapters@.len(),
    {
        let start = self.page_start;
        if start >= self.chapters.len() {
            return start;
        }
        let ghost gs = chapter_groups(self.chapters@);
        let mut rows_left = self.page_size;
        let mut last_group: Option<&str> = None;
        let mut end = start;
        proof {
            lemma_page_end_from(gs, start as int, self.page_size as int, None);
        }
        while end < self.chapters.len()
            invariant_except_break
                start <= end <= self.chapters@.len(),
                gs == chapter_groups(self.chapters@),
                page_end_from(gs, start as int, self.page_size as int, None) == page_end_from(
                    gs,
                    end as int,
                    rows_left as int,
                    match last_group {
                        Some(x) => Some(x@),
                        None => None,
                    },
                ),
            ensures
                end as int == page_end_from(gs, start as int, self.page_size as int, None),
            decreases self.chapters.len() - end,
        {
            let ch = &self.chapters[end];
            assert(gs[end as int] == ch.chapter_group@);
            if !ch.chapter_group.as_str().is_empty() {
                let new_group = match last_group {
                    Some(prev) => !str_eq(prev, ch.chapter_group.as_str()),
                    None => true,
                };
                if new_group {
                    if rows_left == 0 {
                        break;
                    }
                    rows_left -= 1;
                }
                last_group = Some(ch.chapter_group.as_str());
            } else if last_group.is_some() {
                last_group = None;
            }
            if rows_left == 0 {
                break;
            }
            rows_left -= 1;
            end += 1;
        }
        proof {
            lemma_page_end_from(gs, start as int, self.page_size as int, None);
        }
        end
    }

    /// Get the chapters visible on the current page, accounting for group
    /// headers that consume extra rows.
    pub fn visible_chapters(&self) -> (r: &[WebSourceChapter])
        ensures
            self.page_start < self.chapters@.len() ==> self.page_start <= visible_range_end(
                self.chapters@,
                self.page_start as int,
                self.page_size as int,
            ) <= self.chapters@.len(),
            r@ == if self.page_start >= self.chapters@.len() {
                Seq::<WebSourceChapter>::empty()
            } else {
                self.chapters@.subrange(
                    self.page_start as int,
                    visible_range_end(self.chapters@, self.page_start as int, self.page_size as int),
                )
            },
    {
        if self.page_start >= self.chapters.len() {
            let empty: &[WebSourceChapter] = vstd::slice::slice_subrange(self.chapters.as_slice(), 0, 0);
            return empty;
        }
        let end = self.visible_end();
        vstd::slice::slice_subrange(self.chapters.as_slice(), self.page_start, end)
    }

    /// Compute the start index of the next page (after current visible chapters).
    pub fn next_page_start(&self) -> (r: usize)
        ensures
            r == if self.page_start >= self.chapters@.len() || visible_range_end(
                self.chapters@,
                self.page_start as int,
                self.page_size as int,
            ) == self.page_start {
                self.chapters@.len() as int
            } else {
                visible_range_end(self.chapters@, self.page_start as int, self.page_size as int)
            },
    {
        let vis = self.visible_chapters();
        let n = self.chapters.len();
        if vis.len() == 0 {
            n
        } else {
            assert(self.page_start + vis@.len() <= n);
            self.page_start + vis.len()
        }
    }

    /// Index within the current page.
    pub fn page_selected(&self) -> (r: usize)
        ensures
            r == if self.selected >= self.page_start {
                self.selected - self.page_start
            } else {
                0
            },
    {
        self.selected.saturating_sub(self.page_start)
    }

    /// Approximate total number of pages (for display only).
    pub fn total_pages(&self) -> (r: usize)
        requires
            self.chapters@.len() > 0 ==> self.page_size > 0 && self.chapters@.len() + self.page_size
                <= usize::MAX,
        ensures
            r == if self.chapters@.len() == 0 {
                1
            } else {
                (self.chapters@.len() + self.page_size - 1) as int / (self.page_size as int)
            },
    {
        if self.chapters.len() == 0 {
            1
        } else {
            (self.chapters.len() + self.page_size - 1) / self.page_size
        }
    }

    /// Current page number (1-indexed for display), computed from page_start.
    pub fn current_page_display(&self) -> (r: usize)
        requires
            self.page_start < usize::MAX,
        ensures
            r == if self.chapters@.len() == 0 {
                1
            } else {
                (self.page_start as int) / (if self.page_size >= 1 {
                    self.page_size as int
                } else {
                    1
                }) + 1
            },
    {
        if self.chapters.len() == 0 {
            1
        } else {
            let ps = if self.page_size >= 1 {
                self.page_size
            } else {
                1
            };
            assert((self.page_start as int) / (ps as int) <= self.page_start) by (nonlinear_arith)
                requires
                    ps >= 1,
            ;
            (self.page_start / ps) + 1
        }
    }
}

/// Whether scrolling to the selected chapter walks back from it: it is
/// neither before the page nor on it.
pub open spec fn selected_past_page(s: ChapterSelectState) -> bool {
    s.selected >= s.page_start && s.selected >= (if s.page_start >= s.chapters@.len() {
        s.page_start as int
    } else {
        visible_range_end(s.chapters@, s.page_start as int, s.page_size as int)
    })
}

/// The page start after scrolling the selected chapter into view: the
/// selected chapter when it is before the page, else unchanged when it is on
/// the page, else the start of the page that ends with it.
pub open spec fn scrolled_page_start(s: ChapterSelectState) -> int {
    if s.selected < s.page_start {
        s.selected as int
    } else if selected_past_page(s) {
        page_start_back(
            chapter_groups(s.chapters@),
            s.selected as int,
            s.selected as int,
            s.page_size as int,
            s.selected as int,
        )
    } else {
        s.page_start as int
    }
}

proof fn lemma_page_start_back(gs: Seq<Seq<char>>, idx: int, target: int, rows: int, cand: int)
    requires
        -1 <= idx < gs.len(),
        0 <= cand,
        idx <= cand,
    ensures
        0 <= page_start_back(gs, idx, target, rows, cand) <= cand,
    decreases idx + 1,
{
    if idx >= 0 && page_rows(gs, idx, target) <= rows {
        lemma_page_start_back(gs, idx - 1, target, rows, idx);
    }
}

/// When the page from `cand` to `target` fits, so does the page from the
/// start that the walk back finds.
proof fn lemma_page_start_back_fits(gs: Seq<Seq<char>>, idx: int, target: int, rows: int, cand: int)
    requires
        -1 <= idx < cand <= target < gs.len(),
        0 <= cand,
        page_rows(gs, cand, target) <= rows,
    ensures
        page_rows(gs, page_start_back(gs, idx, target, rows, cand), target) <= rows,
    decreases idx + 1,
{
    if idx >= 0 && page_rows(gs, idx, target) <= rows {
        lemma_page_start_back_fits(gs, idx - 1, target, rows, idx);
    }
}

/// A page that starts at chapter `j`, after a chapter of group `last` (none
/// when `j` starts the page or follows an ungrouped chapter), with room for
/// chapters `j` to `target`, reaches past `target`.
proof fn lemma_page_end_past(gs: Seq<Seq<char>>, j: int, rows: int, last: Option<Seq<char>>, target: int)
    requires
        0 <= j <= target < gs.len(),
        last matches Some(p) ==> j > 0 && p == gs[j - 1] && p.len() > 0,
        (if gs[j].len() > 0 && (last matches Some(p) ==> p != gs[j]) {
            2int
        } else {
            1int
        }) + tail_rows(gs, j + 1, target) <= rows,
    ensures
        page_end_from(gs, j, rows, last) > target,
    decreases target - j,
{
    let new_group = match last {
        Some(p) => p != gs[j],
        None => true,
    };
    if gs[j].len() > 0 {
        let rows1 = if new_group { rows - 1 } else { rows };
        if j == target {
            lemma_page_end_from(gs, j + 1, rows1 - 1, Some(gs[j]));
        } else {
            lemma_page_end_past(gs, j + 1, rows1 - 1, Some(gs[j]), target);
        }
    } else {
        if j == target {
            lemma_page_end_from(gs, j + 1, rows - 1, None);
        } else {
            lemma_page_end_past(gs, j + 1, rows - 1, None, target);
        }
    }
}

/// Scrolls the chapter list so that the selected chapter is visible.
pub fn ensure_selected_visible(state: &mut ChapterSelectState)
    requires
        selected_past_page(*old(state)) ==> old(state).selected < old(state).chapters@.len(),
    ensures
        final(state).page_start == scrolled_page_start(*old(state)),
        *final(state) == (ChapterSelectState { page_start: final(state).page_start, ..*old(state) }),
        old(state).selected < old(state).chapters@.len() && old(state).page_size >= 2 ==> final(state).page_start
            <= final(state).selected < visible_range_end(
            final(state).chapters@,
            final(state).page_start as int,
            final(state).page_size as int,
        ),
{
    proof {
        if old(state).selected < old(state).chapters@.len() && old(state).page_size >= 2 {
            lemma_scrolled_shows_selection(*old(state));
        }
    }
    if state.selected < state.page_start {
        state.page_start = state.selected;
        return;
    }
    let vis_len = state.visible_chapters().len();
    let n = state.chapters.len();
    assert(state.page_start >= state.chapters@.len() ==> vis_len == 0);
    assert(state.page_start + vis_len <= n || state.page_start >= n);
    let page_end = if state.page_start >= n {
        state.page_start
    } else {
        state.page_start + vis_len
    };
    if state.selected >= page_end {
        let ghost gs = chapter_groups(state.chapters@);
        // Scroll so that the selected chapter is the last one shown: walk
        // back from it while the page still fits, counting the header row of
        // a named group wherever the group starts on the page, and at the
        // page's first chapter.
        let target = state.selected;
        let ps = state.page_size;
        let mut used: usize = 0;
        let mut candidate_start = target;
        let mut idx: usize = target + 1;
        while idx > 0
            invariant_except_break
                idx <= target + 1,
                target < state.chapters@.len(),
                gs == chapter_groups(state.chapters@),
                ps == state.page_size,
                candidate_start <= target,
                used as int == tail_rows(gs, idx as int, target as int),
                used <= ps,
                page_start_back(gs, target as int, target as int, ps as int, target as int) == page_start_back(
                    gs,
                    idx - 1,
                    target as int,
                    ps as int,
                    candidate_start as int,
                ),
            ensures
                candidate_start as int == page_start_back(gs, target as int, target as int, ps as int, target as int),
            decreases idx,
        {
            let i = idx - 1;
            let ch = &state.chapters[i];
            let named = !ch.chapter_group.as_str().is_empty();
            let first: usize = if named { 2 } else { 1 };
            let mut needed: usize = 1;
            if named {
                let first_in_group = if i == 0 {
                    true
                } else {
                    !str_eq(state.chapters[i - 1].chapter_group.as_str(), ch.chapter_group.as_str())
                };
                if first_in_group {
                    needed = needed + 1;
                }
            }
            assert(needed as int == rows_needed(gs, i as int));
            assert(first as int == first_rows(gs, i as int));
            if ps < first || used > ps - first {
                break;
            }
            used = used + needed;
            candidate_start = i;
            idx = i;
        }
        state.page_start = candidate_start;
    }
}


// ─── Keys of the chapter list ───────────────────────────────────────

/// A key pressed on the chapter list.
#[derive(Debug, Clone, Copy, PartialEq, Eq, Structural)]
pub enum ChapterKey {
    /// Up or `k`.
    Up,
    /// Down or `j`.
    Down,
    /// Page down or `n`.
    NextPage,
    /// Page up or `p`.
    PrevPage,
    /// `x`: skip or unskip the selected chapter.
    ToggleSkip,
    /// `P`: preprocess the next chapters now.
    Preprocess,
    /// Enter: open the selected chapter.
    Open,
    /// Escape: back to the library.
    Back,
    /// Any other key.
    Other,
}

/// What the program does after a key on the chapter list.
#[derive(Debug, Clone, Copy, PartialEq, Eq, Structural)]
pub enum ChapterAction {
    Nothing,
    /// Toggle the chapter's skip flag in the store, then update the list.
    ToggleSkip { chapter_id: i64 },
    /// Queue the preprocessing of the next chapters.
    Preprocess,
    /// Open an imported chapter's text.
    OpenText { text_id: i64 },
    /// Open the chapter once it is imported; queue its import first unless
    /// it is already being processed.
    ImportAndOpen { chapter_id: i64, chapter_number: i32, queue: bool },
    /// The chapter is skipped and cannot be opened.
    SkippedChapter,
    /// The chapter is not imported and cannot be imported here.
    NotImported,
    /// Go back to the library.
    BackToLibrary,
}

/// Whether the key moves the selection (and so scrolls).
pub open spec fn moves_selection(key: ChapterKey) -> bool {
    key == ChapterKey::Up || key == ChapterKey::Down
}

/// The list after the page size is set to `page_size`: when it changed,
/// the page is scrolled to keep the selected chapter visible.
pub open spec fn resized(s: ChapterSelectState, page_size: usize) -> ChapterSelectState {
    if s.page_size == page_size {
        s
    } else {
        let t = ChapterSelectState { page_size, ..s };
        ChapterSelectState { page_start: scrolled_page_start(t) as usize, ..t }
    }
}

/// The start of the page after the current one (the number of chapters
/// when there is none).
pub open spec fn next_page_start_of(s: ChapterSelectState) -> int {
    if s.page_start >= s.chapters@.len() || visible_range_end(
        s.chapters@,
        s.page_start as int,
        s.page_size as int,
    ) == s.page_start {
        s.chapters@.len() as int
    } else {
        visible_range_end(s.chapters@, s.page_start as int, s.page_size as int)
    }
}

/// `s` with `selected` chosen and the page scrolled to show it.
pub open spec fn select_and_scroll(s: ChapterSelectState, selected: usize) -> ChapterSelectState {
    let t = ChapterSelectState { selected, ..s };
    ChapterSelectState { page_start: scrolled_page_start(t) as usize, ..t }
}

/// The list after a key: the selection moves up or down (within the list)
/// and the page follows it; the page keys turn the page and select its
/// first chapter; other keys leave the list as it is.
pub open spec fn after_key(s: ChapterSelectState, key: ChapterKey) -> ChapterSelectState {
    match key {
        ChapterKey::Up => select_and_scroll(
            s,
            if s.selected > 0 {
                (s.selected - 1) as usize
            } else {
                0
            },
        ),
        ChapterKey::Down => {
            let max: int = if s.chapters@.len() > 0 {
                s.chapters@.len() - 1
            } else {
                0
            };
            select_and_scroll(
                s,
                if s.selected + 1 < max {
                    (s.selected + 1) as usize
                } else {
                    max as usize
                },
            )
        },
        ChapterKey::NextPage => {
            let n = next_page_start_of(s);
            if n < s.chapters@.len() {
                ChapterSelectState { page_start: n as usize, selected: n as usize, ..s }
            } else {
                s
            }
        },
        ChapterKey::PrevPage => {
            if s.page_start > 0 {
                let p: int = if s.page_start >= s.page_size {
                    s.page_start - s.page_size
                } else {
                    0
                };
                ChapterSelectState { page_start: p as usize, selected: p as usize, ..s }
            } else {
                s
            }
        },
        _ => s,
    }
}

/// What a key asks of the program, the list being `s`: `x` toggles the
/// selected chapter's skip flag; Enter opens the selected chapter when it is
/// imported, imports a Syosetu chapter first (queueing it unless it is in
/// `processing`), and refuses skipped chapters and other sources' chapters.
pub open spec fn key_action(s: ChapterSelectState, key: ChapterKey, processing: Set<i64>) -> ChapterAction {
    match key {
        ChapterKey::ToggleSkip => if s.selected < s.chapters@.len() {
            ChapterAction::ToggleSkip { chapter_id: s.chapters@[s.selected as int].id }
        } else {
            ChapterAction::Nothing
        },
        ChapterKey::Preprocess => ChapterAction::Preprocess,
        ChapterKey::Open => if s.selected < s.chapters@.len() {
            let ch = s.chapters@[s.selected as int];
            if ch.is_skipped {
                ChapterAction::SkippedChapter
            } else if ch.text_id is Some {
                ChapterAction::OpenText { text_id: ch.text_id->0 }
            } else if s.source.source_type@ == "syosetu"@ {
                ChapterAction::ImportAndOpen {
                    chapter_id: ch.id,
                    chapter_number: ch.chapter_number,
                    queue: !processing.contains(ch.id),
                }
            } else {
                ChapterAction::NotImported
            }
        } else {
            ChapterAction::Nothing
        },
        ChapterKey::Back => ChapterAction::BackToLibrary,
        _ => ChapterAction::Nothing,
    }
}

/// Handles a key on the chapter list shown in `page_size` rows: adjusts
/// the page to the size, moves the selection or the page, and says what the
/// program has to do. `processing` holds the chapters being imported.
pub fn chapter_select_key(
    state: &mut ChapterSelectState,
    page_size: usize,
    key: ChapterKey,
    processing: &HashSet<i64>,
) -> (r: ChapterAction)
    requires
        (moves_selection(key) || old(state).page_size != page_size) ==> old(state).selected
            < old(state).chapters@.len(),
    ensures
        *final(state) == after_key(resized(*old(state), page_size), key),
        r == key_action(resized(*old(state), page_size), key, processing@),
{
    if state.page_size != page_size {
        state.page_size = page_size;
        ensure_selected_visible(state);
    }
    let ghost s1 = *state;
    assert(s1 == resized(*old(state), page_size));
    match key {
        ChapterKey::Up => {
            state.selected = if state.selected > 0 {
                state.selected - 1
            } else {
                0
            };
            ensure_selected_visible(state);
            ChapterAction::Nothing
        },
        ChapterKey::Down => {
            let max = if state.chapters.len() > 0 {
                state.chapters.len() - 1
            } else {
                0
            };
            state.selected = if state.selected < max {
                state.selected + 1
            } else {
                max
            };
            ensure_selected_visible(state);
            ChapterAction::Nothing
        },
        ChapterKey::NextPage => {
            let next_start = state.next_page_start();
            if next_start < state.chapters.len() {
                state.page_start = next_start;
                state.selected = next_start;
            }
            ChapterAction::Nothing
        },
        ChapterKey::PrevPage => {
            if state.page_start > 0 {
                state.page_start = state.page_start.saturating_sub(state.page_size);
                state.selected = state.page_start;
            }
            ChapterAction::Nothing
        },
        ChapterKey::ToggleSkip => {
            if state.selected < state.chapters.len() {
                ChapterAction::ToggleSkip { chapter_id: state.chapters[state.selected].id }
            } else {
                ChapterAction::Nothing
            }
        },
        ChapterKey::Preprocess => ChapterAction::Preprocess,
        ChapterKey::Open => {
            if state.selected >= state.chapters.len() {
                return ChapterAction::Nothing;
            }
            let ch = &state.chapters[state.selected];
            if ch.is_skipped {
                ChapterAction::SkippedChapter
            } else if let Some(text_id) = ch.text_id {
                ChapterAction::OpenText { text_id }
            } else if str_eq(state.source.source_type.as_str(), "syosetu") {
                ChapterAction::ImportAndOpen {
                    chapter_id: ch.id,
                    chapter_number: ch.chapter_number,
                    queue: !processing.contains(&ch.id),
                }
            } else {
                ChapterAction::NotImported
            }
        },
        ChapterKey::Back => ChapterAction::BackToLibrary,
        ChapterKey::Other => ChapterAction::Nothing,
    }
}


/// The index of the first chapter at or after `from` with id `id`, or the
/// number of chapters.
pub open spec fn first_with_id(chs: Seq<WebSourceChapter>, id: i64, from: int) -> int
    decreases chs.len() - from,
{
    if from < 0 || from >= chs.len() {
        chs.len() as int
    } else if chs[from].id == id {
        from
    } else {
        first_with_id(chs, id, from + 1)
    }
}

/// The chapters after the first one with id `id` is marked skipped or not.
pub open spec fn chapters_with_skip(chs: Seq<WebSourceChapter>, id: i64, now_skipped: bool) -> Seq<
    WebSourceChapter,
> {
    let k = first_with_id(chs, id, 0);
    if k < chs.len() {
        chs.update(k, WebSourceChapter { is_skipped: now_skipped, ..chs[k] })
    } else {
        chs
    }
}

/// The reading states after a chapter is skipped (it no longer counts) or
/// unskipped (it counts again: unread when it has a text, else not imported).
pub open spec fn read_states_with_skip(
    states: Map<i64, ChapterReadState>,
    chs: Seq<WebSourceChapter>,
    id: i64,
    now_skipped: bool,
) -> Map<i64, ChapterReadState> {
    if now_skipped {
        states.remove(id)
    } else {
        let k = first_with_id(chs, id, 0);
        states.insert(
            id,
            if k < chs.len() && chs[k].text_id is Some {
                ChapterReadState::Unread
            } else {
                ChapterReadState::NotImported
            },
        )
    }
}

/// Updates the list after the store toggled chapter `chapter_id`'s skip
/// flag to `now_skipped`: the chapter's flag, the skipped count and the
/// chapter's reading state.
pub fn apply_skip_toggle(state: &mut ChapterSelectState, chapter_id: i64, now_skipped: bool)
    requires
        now_skipped ==> old(state).total_skipped < usize::MAX,
    ensures
        final(state).chapters@ == chapters_with_skip(old(state).chapters@, chapter_id, now_skipped),
        final(state).total_skipped == if now_skipped {
            old(state).total_skipped + 1
        } else if old(state).total_skipped > 0 {
            old(state).total_skipped - 1
        } else {
            0
        },
        final(state).chapter_read_states@ == read_states_with_skip(
            old(state).chapter_read_states@,
            old(state).chapters@,
            chapter_id,
            now_skipped,
        ),
        *final(state) == (ChapterSelectState {
            chapters: final(state).chapters,
            total_skipped: final(state).total_skipped,
            chapter_read_states: final(state).chapter_read_states,
            ..*old(state)
        }),
{
    broadcast use vstd::std_specs::hash::group_hash_axioms;

    let ghost chs = state.chapters@;
    let mut k: usize = 0;
    while k < state.chapters.len() && state.chapters[k].id != chapter_id
        invariant
            k <= chs.len(),
            chs == state.chapters@,
            first_with_id(chs, chapter_id, 0) == first_with_id(chs, chapter_id, k as int),
        decreases chs.len() - k,
    {
        k += 1;
    }
    let has_text = k < state.chapters.len() && state.chapters[k].text_id.is_some();
    if k < state.chapters.len() {
        let mut ch = state.chapters.remove(k);
        ch.is_skipped = now_skipped;
        state.chapters.insert(k, ch);
        assert(state.chapters@ =~= chs.update(k as int, WebSourceChapter { is_skipped: now_skipped, ..chs[k as int] }));
    }
    if now_skipped {
        state.total_skipped = state.total_skipped + 1;
        state.chapter_read_states.remove(&chapter_id);
    } else {
        state.total_skipped = state.total_skipped.saturating_sub(1);
        let read = if has_text {
            ChapterReadState::Unread
        } else {
            ChapterReadState::NotImported
        };
        state.chapter_read_states.insert(chapter_id, read);
    }
}


// ─── Keys of the reader ─────────────────────────────────────────────

/// A key pressed in the reader (outside expression marking).
#[derive(Debug, Clone, Copy, PartialEq, Eq, Structural)]
pub enum ReaderKey {
    /// Up or `k`: previous sentence.
    Up,
    /// Down or `j`: next sentence.
    Down,
    /// Left or `h`: previous word.
    Left,
    /// Right or `l`: next word.
    Right,
    /// `w`: show or hide known and ignored words in the sidebar.
    ToggleKnownInSidebar,
    /// `r`: show or hide the readings of all words.
    ToggleAllReadings,
    /// `a`: turn autopromotion on or off.
    ToggleAutopromote,
    /// `m`: start marking an expression at the selected word.
    MarkExpression,
    /// Escape: deselect the word, or leave the reader.
    Escape,
    /// Any other key.
    Other,
}

/// What the program does after a key in the reader.
#[derive(Debug, Clone, Copy, PartialEq, Eq, Structural)]
pub enum ReaderAction {
    Nothing,
    /// Save the reading position.
    SaveProgress,
    /// The reader left sentence `sentence` going forward; `at_end` when it
    /// was the last one (the text is finished).
    Departed { sentence: usize, at_end: bool },
    /// Expression marking started at the selected word.
    ExpressionStarted,
    /// Expression marking needs a selected word.
    SelectWordFirst,
    /// Leave the reader.
    Leave,
}

/// The last navigable token before `end`, if any.
pub open spec fn last_navigable(tokens: Seq<TokenDisplay>, end: int) -> Option<int>
    decreases end,
{
    if end <= 0 || end > tokens.len() {
        None
    } else if navigable(tokens[end - 1]) {
        Some(end - 1)
    } else {
        last_navigable(tokens, end - 1)
    }
}

/// The first navigable token at or after `from`, if any.
pub open spec fn first_navigable(tokens: Seq<TokenDisplay>, from: int) -> Option<int>
    decreases tokens.len() - from,
{
    if from < 0 || from >= tokens.len() {
        None
    } else if navigable(tokens[from]) {
        Some(from)
    } else {
        first_navigable(tokens, from + 1)
    }
}

pub open spec fn opt_index(o: Option<int>) -> Option<usize> {
    match o {
        Some(i) => Some(i as usize),
        None => None,
    }
}

/// The tokens of sentence `i`.
pub open spec fn sentence_tokens(s: ReaderState, i: int) -> Seq<TokenDisplay> {
    s.sentences@[i].tokens@
}

/// Whether the reader's position is inside its text: the sentence exists
/// (when there are sentences) and the selected word is one of its tokens.
pub open spec fn reader_position_valid(s: ReaderState) -> bool {
    s.sentences@.len() > 0 ==> {
        &&& s.sentence_index < s.sentences@.len()
        &&& (s.word_index matches Some(w) ==> w < sentence_tokens(s, s.sentence_index as int).len())
    }
}

/// The reader after a key: Up and Down move between sentences (clearing the
/// selected word), Left and Right move between navigable words and on to
/// the neighbouring sentence at either end, the toggles flip their setting,
/// `m` starts marking at the selected word, and Escape deselects the word.
pub open spec fn reader_after_key(s: ReaderState, key: ReaderKey) -> ReaderState {
    let n = s.sentences@.len();
    let si = s.sentence_index as int;
    match key {
        ReaderKey::Up => if si > 0 {
            ReaderState { sentence_index: (si - 1) as usize, word_index: None, sidebar_scroll: 0, ..s }
        } else {
            s
        },
        ReaderKey::Down => if si + 1 < n {
            ReaderState { sentence_index: (si + 1) as usize, word_index: None, sidebar_scroll: 0, ..s }
        } else {
            s
        },
        ReaderKey::Left => if n == 0 {
            s
        } else {
            let toks = sentence_tokens(s, si);
            match s.word_index {
                None => ReaderState { word_index: opt_index(last_navigable(toks, toks.len() as int)), ..s },
                Some(i) => match last_navigable(toks, i as int) {
                    Some(p) => ReaderState { word_index: Some(p as usize), ..s },
                    None => if si > 0 {
                        let prev = sentence_tokens(s, si - 1);
                        ReaderState {
                            sentence_index: (si - 1) as usize,
                            sidebar_scroll: 0,
                            word_index: opt_index(last_navigable(prev, prev.len() as int)),
                            ..s
                        }
                    } else {
                        s
                    },
                },
            }
        },
        ReaderKey::Right => if n == 0 {
            s
        } else {
            let toks = sentence_tokens(s, si);
            match s.word_index {
                None => ReaderState { word_index: opt_index(first_navigable(toks, 0)), ..s },
                Some(i) => match first_navigable(toks, i + 1) {
                    Some(p) => ReaderState { word_index: Some(p as usize), ..s },
                    None => if si + 1 < n {
                        ReaderState {
                            sentence_index: (si + 1) as usize,
                            sidebar_scroll: 0,
                            word_index: opt_index(first_navigable(sentence_tokens(s, si + 1), 0)),
                            ..s
                        }
                    } else {
                        s
                    },
                },
            }
        },
        ReaderKey::ToggleKnownInSidebar => ReaderState { show_known_in_sidebar: !s.show_known_in_sidebar, ..s },
        ReaderKey::ToggleAllReadings => ReaderState { show_all_readings: !s.show_all_readings, ..s },
        ReaderKey::ToggleAutopromote => ReaderState { autopromote_enabled: !s.autopromote_enabled, ..s },
        ReaderKey::MarkExpression => match s.word_index {
            Some(w) => ReaderState { expression_mark: Some((w, w)), ..s },
            None => s,
        },
        ReaderKey::Escape => if s.word_index is Some {
            ReaderState { word_index: None, ..s }
        } else {
            s
        },
        ReaderKey::Other => s,
    }
}

/// What a key in the reader asks of the program.
pub open spec fn reader_key_action(s: ReaderState, key: ReaderKey) -> ReaderAction {
    let n = s.sentences@.len();
    let si = s.sentence_index as int;
    match key {
        ReaderKey::Up => ReaderAction::SaveProgress,
        ReaderKey::Down => ReaderAction::Departed { sentence: s.sentence_index, at_end: !(si + 1 < n) },
        ReaderKey::Right => if n > 0 && s.word_index is Some && first_navigable(
            sentence_tokens(s, si),
            s.word_index->0 + 1,
        ) is None {
            ReaderAction::Departed { sentence: s.sentence_index, at_end: !(si + 1 < n) }
        } else {
            ReaderAction::Nothing
        },
        ReaderKey::MarkExpression => if s.word_index is Some {
            ReaderAction::ExpressionStarted
        } else {
            ReaderAction::SelectWordFirst
        },
        ReaderKey::Escape => if s.word_index is Some {
            ReaderAction::Nothing
        } else {
            ReaderAction::Leave
        },
        _ => ReaderAction::Nothing,
    }
}

fn last_navigable_before(tokens: &Vec<TokenDisplay>, end: usize) -> (r: Option<usize>)
    requires
        end <= tokens@.len(),
    ensures
        r == opt_index(last_navigable(tokens@, end as int)),
{
    let mut k = end;
    while k > 0
        invariant
            k <= end <= tokens@.len(),
            last_navigable(tokens@, end as int) == last_navigable(tokens@, k as int),
        decreases k,
    {
        if tokens[k - 1].is_navigable() {
            return Some(k - 1);
        }
        k -= 1;
    }
    None
}

fn first_navigable_from(tokens: &Vec<TokenDisplay>, from: usize) -> (r: Option<usize>)
    requires
        from <= tokens@.len(),
    ensures
        r == opt_index(first_navigable(tokens@, from as int)),
{
    let mut k = from;
    while k < tokens.len()
        invariant
            from <= k <= tokens@.len(),
            first_navigable(tokens@, from as int) == first_navigable(tokens@, k as int),
        decreases tokens.len() - k,
    {
        if tokens[k].is_navigable() {
            return Some(k);
        }
        k += 1;
    }
    None
}

/// Handles a key in the reader: moves between sentences and words, flips
/// the reader's settings, and says what the program has to do.
pub fn reader_key(state: &mut ReaderState, key: ReaderKey) -> (r: ReaderAction)
    requires
        reader_position_valid(*old(state)),
    ensures
        *final(state) == reader_after_key(*old(state), key),
        r == reader_key_action(*old(state), key),
{
    let n = state.sentences.len();
    let si = state.sentence_index;
    match key {
        ReaderKey::Up => {
            if si > 0 {
                state.sentence_index = si - 1;
                state.word_index = None;
                state.sidebar_scroll = 0;
            }
            ReaderAction::SaveProgress
        },
        ReaderKey::Down => {
            if n > 0 && si < n - 1 {
                state.sentence_index = si + 1;
                state.word_index = None;
                state.sidebar_scroll = 0;
                ReaderAction::Departed { sentence: si, at_end: false }
            } else {
                ReaderAction::Departed { sentence: si, at_end: true }
            }
        },
        ReaderKey::Left => {
            if n == 0 {
                return ReaderAction::Nothing;
            }
            match state.word_index {
                None => {
                    let toks = &state.sentences[si].tokens;
                    let w = last_navigable_before(toks, toks.len());
                    state.word_index = w;
                },
                Some(i) => {
                    let prev = last_navigable_before(&state.sentences[si].tokens, i);
                    match prev {
                        Some(p) => {
                            state.word_index = Some(p);
                        },
                        None => {
                            if si > 0 {
                                let toks = &state.sentences[si - 1].tokens;
                                let w = last_navigable_before(toks, toks.len());
                                state.sentence_index = si - 1;
                                state.sidebar_scroll = 0;
                                state.word_index = w;
                            }
                        },
                    }
                },
            }
            ReaderAction::Nothing
        },
        ReaderKey::Right => {
            if n == 0 {
                return ReaderAction::Nothing;
            }
            match state.word_index {
                None => {
                    let w = first_navigable_from(&state.sentences[si].tokens, 0);
                    state.word_index = w;
                    ReaderAction::Nothing
                },
                Some(i) => {
                    let tlen = state.sentences[si].tokens.len();
                    assert(i < tlen);
                    let next = first_navigable_from(&state.sentences[si].tokens, i + 1);
                    match next {
                        Some(p) => {
                            state.word_index = Some(p);
                            ReaderAction::Nothing
                        },
                        None => {
                            if si < n - 1 {
                                let w = first_navigable_from(&state.sentences[si + 1].tokens, 0);
                                state.sentence_index = si + 1;
                                state.sidebar_scroll = 0;
                                state.word_index = w;
                                ReaderAction::Departed { sentence: si, at_end: false }
                            } else {
                                ReaderAction::Departed { sentence: si, at_end: true }
                            }
                        },
                    }
                },
            }
        },
        ReaderKey::ToggleKnownInSidebar => {
            state.show_known_in_sidebar = !state.show_known_in_sidebar;
            ReaderAction::Nothing
        },
        ReaderKey::ToggleAllReadings => {
            state.show_all_readings = !state.show_all_readings;
            ReaderAction::Nothing
        },
        ReaderKey::ToggleAutopromote => {
            state.autopromote_enabled = !state.autopromote_enabled;
            ReaderAction::Nothing
        },
        ReaderKey::MarkExpression => {
            match state.word_index {
                Some(w) => {
                    state.expression_mark = Some((w, w));
                    ReaderAction::ExpressionStarted
                },
                None => ReaderAction::SelectWordFirst,
            }
        },
        ReaderKey::Escape => {
            if state.word_index.is_some() {
                state.word_index = None;
                ReaderAction::Nothing
            } else {
                ReaderAction::Leave
            }
        },
        ReaderKey::Other => ReaderAction::Nothing,
    }
}


// ─── Keys of the popups ─────────────────────────────────────────────

/// A key pressed while a popup is open.
#[derive(Debug, Clone, Copy, PartialEq, Eq, Structural)]
pub enum PopupKey {
    Esc,
    Enter,
    Up,
    Down,
    Backspace,
    Char(char),
    Other,
}

/// What the program does after a key in a popup.
pub enum PopupAction {
    Nothing,
    /// Save the note being edited.
    SaveNote,
    /// Save the reading position and quit.
    Quit,
    /// Delete a text (named `title`).
    DeleteText { text_id: i64, title: String },
    /// Delete a web source (named `title`) with its chapters.
    DeleteSource { source_id: i64, title: String },
    /// Import the clipboard's text.
    ImportClipboard,
    /// Import a web page.
    ImportUrl { url: String },
    /// Import a file.
    ImportFile { path: String },
    /// Open a Syosetu novel.
    LoadSyosetu { ncode: String },
    /// Filter the library by a query.
    SearchLibrary { query: String },
    /// Show the whole library again.
    RefreshLibrary,
    /// Save the marked expression with its translation.
    SaveExpression,
    /// The expression was dropped.
    ExpressionCancelled,
}

/// Whether the key scrolls up or down (arrows, or `k` and `j`).
pub open spec fn is_up(k: PopupKey) -> bool {
    k == PopupKey::Up || k == PopupKey::Char('k')
}

pub open spec fn is_down(k: PopupKey) -> bool {
    k == PopupKey::Down || k == PopupKey::Char('j')
}

pub open spec fn is_yes(k: PopupKey) -> bool {
    k == PopupKey::Char('y') || k == PopupKey::Char('Y')
}

pub open spec fn is_no(k: PopupKey) -> bool {
    k == PopupKey::Char('n') || k == PopupKey::Char('N') || k == PopupKey::Esc
}

/// What a text field holds after a key: Backspace drops the last
/// character, a character is appended; `None` for other keys.
pub open spec fn edited(text: Seq<char>, k: PopupKey) -> Option<Seq<char>> {
    match k {
        PopupKey::Backspace => Some(popped(text)),
        PopupKey::Char(c) => Some(text.push(c)),
        _ => None,
    }
}

/// The popup a text field's popup becomes after a key that edits it.
pub open spec fn edited_field(next: Option<PopupState>, text: Seq<char>, k: PopupKey) -> bool {
    match next {
        Some(PopupState::UrlInput { text: t }) => Some(t@) == edited(text, k),
        Some(PopupState::SearchInput { text: t }) => Some(t@) == edited(text, k),
        Some(PopupState::FilePathInput { text: t }) => Some(t@) == edited(text, k),
        Some(PopupState::SyosetuInput { text: t }) => Some(t@) == edited(text, k),
        _ => false,
    }
}

/// The scroll that the word detail and help popups can still move down.
pub open spec fn popup_scroll_room(p: PopupState, k: PopupKey) -> bool {
    match p {
        PopupState::WordDetail { scroll, .. } => is_down(k) ==> scroll < usize::MAX,
        _ => true,
    }
}

/// How a key moves popup `p` to `next` with `action`: Escape (or the
/// popup's own closing key) closes it; the scrolling popups scroll; the
/// editors and inputs edit their text and submit it with Enter (the inputs
/// then close); the confirmations act on `y`/`Y` and close on `n`/`N`/Escape;
/// the import menu opens the input for the chosen source.
pub open spec fn popup_step(p: PopupState, k: PopupKey, next: Option<PopupState>, action: PopupAction) -> bool {
    match p {
        PopupState::WordDetail { base_form, reading, entries, conjugations, notes, scroll } => {
            if k == PopupKey::Esc || k == PopupKey::Enter {
                next is None && action is Nothing
            } else if is_up(k) || is_down(k) {
                &&& next == Some(
                    PopupState::WordDetail {
                        base_form,
                        reading,
                        entries,
                        conjugations,
                        notes,
                        scroll: if is_up(k) {
                            if scroll > 0 {
                                (scroll - 1) as usize
                            } else {
                                0
                            }
                        } else {
                            (scroll + 1) as usize
                        },
                    },
                )
                &&& action is Nothing
            } else {
                next == Some(p) && action is Nothing
            }
        },
        PopupState::Help { scroll } => {
            if k == PopupKey::Esc || k == PopupKey::Char('?') {
                next is None && action is Nothing
            } else if is_up(k) {
                next == Some(PopupState::Help { scroll: if scroll > 0 { (scroll - 1) as usize } else { 0 } })
                    && action is Nothing
            } else if is_down(k) {
                next == Some(
                    PopupState::Help {
                        scroll: if scroll < usize::MAX {
                            (scroll + 1) as usize
                        } else {
                            scroll
                        },
                    },
                ) && action is Nothing
            } else {
                next == Some(p) && action is Nothing
            }
        },
        PopupState::NoteEditor { vocabulary_id, text } => {
            if k == PopupKey::Esc {
                next is None && action is Nothing
            } else if k == PopupKey::Enter {
                next == Some(p) && action is SaveNote
            } else if edited(text@, k) is Some {
                &&& next matches Some(PopupState::NoteEditor { vocabulary_id: v, text: t })
                &&& v == vocabulary_id
                &&& Some(t@) == edited(text@, k)
                &&& action is Nothing
            } else {
                next == Some(p) && action is Nothing
            }
        },
        PopupState::QuitConfirm => {
            if is_yes(k) {
                next == Some(p) && action is Quit
            } else if is_no(k) {
                next is None && action is Nothing
            } else {
                next == Some(p) && action is Nothing
            }
        },
        PopupState::DeleteConfirm { text_id, title } => {
            if is_yes(k) {
                &&& next is None
                &&& action matches PopupAction::DeleteText { text_id: id, title: t }
                &&& id == text_id
                &&& t@ == title@
            } else if is_no(k) {
                next is None && action is Nothing
            } else {
                next == Some(p) && action is Nothing
            }
        },
        PopupState::DeleteSourceConfirm { source_id, title } => {
            if is_yes(k) {
                &&& next is None
                &&& action matches PopupAction::DeleteSource { source_id: id, title: t }
                &&& id == source_id
                &&& t@ == title@
            } else if is_no(k) {
                next is None && action is Nothing
            } else {
                next == Some(p) && action is Nothing
            }
        },
        PopupState::ImportMenu => {
            if k == PopupKey::Esc {
                next is None && action is Nothing
            } else if k == PopupKey::Char('c') {
                next is None && action is ImportClipboard
            } else if k == PopupKey::Char('u') {
                &&& next matches Some(PopupState::UrlInput { text })
                &&& text@.len() == 0
                &&& action is Nothing
            } else if k == PopupKey::Char('f') {
                &&& next matches Some(PopupState::FilePathInput { text })
                &&& text@.len() == 0
                &&& action is Nothing
            } else if k == PopupKey::Char('s') {
                &&& next matches Some(PopupState::SyosetuInput { text })
                &&& text@.len() == 0
                &&& action is Nothing
            } else {
                next == Some(p) && action is Nothing
            }
        },
        PopupState::UrlInput { text } => {
            if k == PopupKey::Esc {
                next is None && action is Nothing
            } else if k == PopupKey::Enter {
                &&& next is None
                &&& action matches PopupAction::ImportUrl { url }
                &&& url@ == text@
            } else if edited(text@, k) is Some {
                &&& edited_field(next, text@, k)
                &&& next matches Some(PopupState::UrlInput { .. })
                &&& action is Nothing
            } else {
                next == Some(p) && action is Nothing
            }
        },
        PopupState::SearchInput { text } => {
            if k == PopupKey::Esc {
                next is None && action is RefreshLibrary
            } else if k == PopupKey::Enter {
                &&& next is None
                &&& action matches PopupAction::SearchLibrary { query }
                &&& query@ == text@
            } else if edited(text@, k) is Some {
                &&& edited_field(next, text@, k)
                &&& next matches Some(PopupState::SearchInput { .. })
                &&& action is Nothing
            } else {
                next == Some(p) && action is Nothing
            }
        },
        PopupState::FilePathInput { text } => {
            if k == PopupKey::Esc {
                next is None && action is Nothing
            } else if k == PopupKey::Enter {
                &&& next is None
                &&& action matches PopupAction::ImportFile { path }
                &&& path@ == text@
            } else if edited(text@, k) is Some {
                &&& edited_field(next, text@, k)
                &&& next matches Some(PopupState::FilePathInput { .. })
                &&& action is Nothing
            } else {
                next == Some(p) && action is Nothing
            }
        },
        PopupState::SyosetuInput { text } => {
            if k == PopupKey::Esc {
                next is None && action is Nothing
            } else if k == PopupKey::Enter {
                &&& next is None
                &&& action matches PopupAction::LoadSyosetu { ncode }
                &&& ncode@ == text@
            } else if edited(text@, k) is Some {
                &&& edited_field(next, text@, k)
                &&& next matches Some(PopupState::SyosetuInput { .. })
                &&& action is Nothing
            } else {
                next == Some(p) && action is Nothing
            }
        },
        PopupState::ExpressionTranslation { surface, reading, gloss } => {
            if k == PopupKey::Esc {
                next is None && action is ExpressionCancelled
            } else if k == PopupKey::Enter {
                next == Some(p) && action is SaveExpression
            } else if edited(gloss@, k) is Some {
                &&& next matches Some(PopupState::ExpressionTranslation { surface: s, reading: r, gloss: g })
                &&& s == surface && r == reading
                &&& Some(g@) == edited(gloss@, k)
                &&& action is Nothing
            } else {
                next == Some(p) && action is Nothing
            }
        },
    }
}

fn edit_text(text: &mut String, key: PopupKey)
    requires
        edited(old(text)@, key) is Some,
    ensures
        Some(final(text)@) == edited(old(text)@, key),
{
    match key {
        PopupKey::Backspace => pop_char(text),
        PopupKey::Char(c) => text.push(c),
        _ => {},
    }
}

fn is_edit_key(key: PopupKey) -> (r: bool)
    ensures
        r == (edited(seq![], key) is Some),
        forall|t: Seq<char>| #[trigger] edited(t, key) is Some <==> r,
{
    match key {
        PopupKey::Backspace | PopupKey::Char(_) => true,
        _ => false,
    }
}

/// Handles a key in an open popup: returns the popup that stays open (if
/// any) and what the program has to do.
pub fn popup_key(popup: PopupState, key: PopupKey) -> (r: (Option<PopupState>, PopupAction))
    requires
        popup_scroll_room(popup, key),
    ensures
        popup_step(popup, key, r.0, r.1),
{
    let up = key == PopupKey::Up || key == PopupKey::Char('k');
    let down = key == PopupKey::Down || key == PopupKey::Char('j');
    let yes = key == PopupKey::Char('y') || key == PopupKey::Char('Y');
    let no = key == PopupKey::Char('n') || key == PopupKey::Char('N') || key == PopupKey::Esc;
    match popup {
        PopupState::WordDetail { base_form, reading, entries, conjugations, notes, scroll } => {
            if key == PopupKey::Esc || key == PopupKey::Enter {
                (None, PopupAction::Nothing)
            } else if up || down {
                let scroll = if up {
                    scroll.saturating_sub(1)
                } else {
                    scroll + 1
                };
                (
                    Some(PopupState::WordDetail { base_form, reading, entries, conjugations, notes, scroll }),
                    PopupAction::Nothing,
                )
            } else {
                (
                    Some(PopupState::WordDetail { base_form, reading, entries, conjugations, notes, scroll }),
                    PopupAction::Nothing,
                )
            }
        },
        PopupState::Help { scroll } => {
            if key == PopupKey::Esc || key == PopupKey::Char('?') {
                (None, PopupAction::Nothing)
            } else if up {
                (Some(PopupState::Help { scroll: scroll.saturating_sub(1) }), PopupAction::Nothing)
            } else if down {
                (Some(PopupState::Help { scroll: scroll.saturating_add(1) }), PopupAction::Nothing)
            } else {
                (Some(PopupState::Help { scroll }), PopupAction::Nothing)
            }
        },
        PopupState::NoteEditor { vocabulary_id, text } => {
            if key == PopupKey::Esc {
                (None, PopupAction::Nothing)
            } else if key == PopupKey::Enter {
                (Some(PopupState::NoteEditor { vocabulary_id, text }), PopupAction::SaveNote)
            } else if is_edit_key(key) {
                let mut text = text;
                edit_text(&mut text, key);
                (Some(PopupState::NoteEditor { vocabulary_id, text }), PopupAction::Nothing)
            } else {
                (Some(PopupState::NoteEditor { vocabulary_id, text }), PopupAction::Nothing)
            }
        },
        PopupState::QuitConfirm => {
            if yes {
                (Some(PopupState::QuitConfirm), PopupAction::Quit)
            } else if no {
                (None, PopupAction::Nothing)
            } else {
                (Some(PopupState::QuitConfirm), PopupAction::Nothing)
            }
        },
        PopupState::DeleteConfirm { text_id, title } => {
            if yes {
                (None, PopupAction::DeleteText { text_id, title })
            } else if no {
                (None, PopupAction::Nothing)
            } else {
                (Some(PopupState::DeleteConfirm { text_id, title }), PopupAction::Nothing)
            }
        },
        PopupState::DeleteSourceConfirm { source_id, title } => {
            if yes {
                (None, PopupAction::DeleteSource { source_id, title })
            } else if no {
                (None, PopupAction::Nothing)
            } else {
                (Some(PopupState::DeleteSourceConfirm { source_id, title }), PopupAction::Nothing)
            }
        },
        PopupState::ImportMenu => {
            if key == PopupKey::Esc {
                (None, PopupAction::Nothing)
            } else if key == PopupKey::Char('c') {
                (None, PopupAction::ImportClipboard)
            } else if key == PopupKey::Char('u') {
                (Some(PopupState::UrlInput { text: String::new() }), PopupAction::Nothing)
            } else if key == PopupKey::Char('f') {
                (Some(PopupState::FilePathInput { text: String::new() }), PopupAction::Nothing)
            } else if key == PopupKey::Char('s') {
                (Some(PopupState::SyosetuInput { text: String::new() }), PopupAction::Nothing)
            } else {
                (Some(PopupState::ImportMenu), PopupAction::Nothing)
            }
        },
        PopupState::UrlInput { text } => {
            if key == PopupKey::Esc {
                (None, PopupAction::Nothing)
            } else if key == PopupKey::Enter {
                (None, PopupAction::ImportUrl { url: text })
            } else if is_edit_key(key) {
                let mut text = text;
                edit_text(&mut text, key);
                (Some(PopupState::UrlInput { text }), PopupAction::Nothing)
            } else {
                (Some(PopupState::UrlInput { text }), PopupAction::Nothing)
            }
        },
        PopupState::SearchInput { text } => {
            if key == PopupKey::Esc {
                (None, PopupAction::RefreshLibrary)
            } else if key == PopupKey::Enter {
                (None, PopupAction::SearchLibrary { query: text })
            } else if is_edit_key(key) {
                let mut text = text;
                edit_text(&mut text, key);
                (Some(PopupState::SearchInput { text }), PopupAction::Nothing)
            } else {
                (Some(PopupState::SearchInput { text }), PopupAction::Nothing)
            }
        },
        PopupState::FilePathInput { text } => {
            if key == PopupKey::Esc {
                (None, PopupAction::Nothing)
            } else if key == PopupKey::Enter {
                (None, PopupAction::ImportFile { path: text })
            } else if is_edit_key(key) {
                let mut text = text;
                edit_text(&mut text, key);
                (Some(PopupState::FilePathInput { text }), PopupAction::Nothing)
            } else {
                (Some(PopupState::FilePathInput { text }), PopupAction::Nothing)
            }
        },
        PopupState::SyosetuInput { text } => {
            if key == PopupKey::Esc {
                (None, PopupAction::Nothing)
            } else if key == PopupKey::Enter {
                (None, PopupAction::LoadSyosetu { ncode: text })
            } else if is_edit_key(key) {
                let mut text = text;
                edit_text(&mut text, key);
                (Some(PopupState::SyosetuInput { text }), PopupAction::Nothing)
            } else {
                (Some(PopupState::SyosetuInput { text }), PopupAction::Nothing)
            }
        },
        PopupState::ExpressionTranslation { surface, reading, gloss } => {
            if key == PopupKey::Esc {
                (None, PopupAction::ExpressionCancelled)
            } else if key == PopupKey::Enter {
                (Some(PopupState::ExpressionTranslation { surface, reading, gloss }), PopupAction::SaveExpression)
            } else if is_edit_key(key) {
                let mut gloss = gloss;
                edit_text(&mut gloss, key);
                (Some(PopupState::ExpressionTranslation { surface, reading, gloss }), PopupAction::Nothing)
            } else {
                (Some(PopupState::ExpressionTranslation { surface, reading, gloss }), PopupAction::Nothing)
            }
        },
    }
}


// ─── Marking an expression ──────────────────────────────────────────

/// A key pressed while an expression is being marked.
#[derive(Debug, Clone, Copy, PartialEq, Eq, Structural)]
pub enum ExpressionKey {
    /// Left or `h`: extend the mark one token to the left.
    Left,
    /// Right or `l`: extend the mark one token to the right.
    Right,
    /// Enter: save the expression.
    Save,
    /// Escape: stop marking.
    Cancel,
    Other,
}

/// What the program does after a key while marking.
#[derive(Debug, Clone, Copy, PartialEq, Eq, Structural)]
pub enum ExpressionAction {
    Nothing,
    /// Show the marked tokens.
    ShowPreview,
    /// Save the marked expression.
    SaveExpression,
    /// Marking was cancelled.
    Cancelled,
}

/// Whether the mark lies within the current sentence.
pub open spec fn mark_valid(s: ReaderState) -> bool {
    s.expression_mark matches Some((a, b)) ==> {
        &&& s.sentence_index < s.sentences@.len()
        &&& a <= b < sentence_tokens(s, s.sentence_index as int).len()
    }
}

/// The reader after a key while marking: the mark grows left down to the
/// first token or right up to the last token of the sentence; Escape drops it.
pub open spec fn marked_after_key(s: ReaderState, key: ExpressionKey) -> ReaderState {
    match (key, s.expression_mark) {
        (ExpressionKey::Left, Some((a, b))) => if a > 0 {
            ReaderState { expression_mark: Some(((a - 1) as usize, b)), ..s }
        } else {
            s
        },
        (ExpressionKey::Right, Some((a, b))) => {
            let n = sentence_tokens(s, s.sentence_index as int).len();
            if b + 1 < n {
                ReaderState { expression_mark: Some((a, (b + 1) as usize)), ..s }
            } else {
                s
            }
        },
        (ExpressionKey::Cancel, _) => ReaderState { expression_mark: None, ..s },
        _ => s,
    }
}

pub open spec fn marked_key_action(key: ExpressionKey) -> ExpressionAction {
    match key {
        ExpressionKey::Left | ExpressionKey::Right => ExpressionAction::ShowPreview,
        ExpressionKey::Save => ExpressionAction::SaveExpression,
        ExpressionKey::Cancel => ExpressionAction::Cancelled,
        ExpressionKey::Other => ExpressionAction::Nothing,
    }
}

/// Handles a key while an expression is being marked.
pub fn expression_key(state: &mut ReaderState, key: ExpressionKey) -> (r: ExpressionAction)
    requires
        mark_valid(*old(state)),
    ensures
        *final(state) == marked_after_key(*old(state), key),
        r == marked_key_action(key),
        mark_valid(*final(state)),
{
    match key {
        ExpressionKey::Left => {
            if let Some((a, b)) = state.expression_mark {
                if a > 0 {
                    state.expression_mark = Some((a - 1, b));
                }
            }
            ExpressionAction::ShowPreview
        },
        ExpressionKey::Right => {
            if let Some((a, b)) = state.expression_mark {
                let n = state.sentences[state.sentence_index].tokens.len();
                if b < n - 1 {
                    state.expression_mark = Some((a, b + 1));
                }
            }
            ExpressionAction::ShowPreview
        },
        ExpressionKey::Save => ExpressionAction::SaveExpression,
        ExpressionKey::Cancel => {
            state.expression_mark = None;
            ExpressionAction::Cancelled
        },
        ExpressionKey::Other => ExpressionAction::Nothing,
    }
}

/// The surfaces of tokens `from..to` run together.
pub open spec fn surfaces(tokens: Seq<TokenDisplay>, from: int, to: int) -> Seq<char>
    decreases to - from,
{
    if to <= from {
        seq![]
    } else {
        surfaces(tokens, from, to - 1) + tokens[to - 1].surface@
    }
}

/// The marked expression: the surfaces of the marked tokens run together.
pub fn expression_preview(state: &ReaderState) -> (r: Option<String>)
    requires
        mark_valid(*state),
    ensures
        match state.expression_mark {
            Some((a, b)) => r matches Some(t) && t@ == surfaces(
                sentence_tokens(*state, state.sentence_index as int),
                a as int,
                b + 1,
            ),
            None => r is None,
        },
{
    match state.expression_mark {
        Some((a, b)) => {
            let toks = &state.sentences[state.sentence_index].tokens;
            let n = toks.len();
            let mut out = String::new();
            let mut i = a;
            while i <= b
                invariant
                    a <= i <= b + 1,
                    b < n,
                    n == toks@.len(),
                    out@ == surfaces(toks@, a as int, i as int),
                decreases b + 1 - i,
            {
                push_str(&mut out, toks[i].surface.as_str());
                i += 1;
            }
            Some(out)
        },
        None => None,
    }
}


// ─── Keys of the library and home screens ──────────────────────────

/// A key pressed on the library screen.
#[derive(Debug, Clone, Copy, PartialEq, Eq, Structural)]
pub enum LibraryKey {
    Up,
    Down,
    /// Enter: open the selected text or source.
    Open,
    /// `d`: delete the selected item (after confirmation).
    Delete,
    /// `i`: the import menu.
    Import,
    /// `/`: search.
    Search,
    /// `s`: next sort order.
    CycleSort,
    /// `f`: next source filter.
    CycleFilter,
    /// Escape: back to the home screen.
    Back,
    Other,
}

/// What the program does after a key on the library or home screen.
pub enum ScreenAction {
    Nothing,
    OpenText { text_id: i64 },
    OpenSource { source_id: i64 },
    ShowPopup { popup: PopupState },
    CycleSort,
    CycleFilter,
    BackHome,
    OpenLibrary,
    StartReview,
    OpenCardBrowser,
    OpenSettings,
    OpenStats,
}

/// The selection after moving up or down in a list of `len` items.
pub open spec fn moved_selection(selected: usize, len: nat, up: bool) -> usize {
    if up {
        if selected > 0 {
            (selected - 1) as usize
        } else {
            0
        }
    } else {
        let max: int = if len > 0 {
            len - 1
        } else {
            0
        };
        if selected + 1 < max {
            (selected + 1) as usize
        } else {
            max as usize
        }
    }
}

/// What a key on the library asks, the library being `lib`.
pub open spec fn library_key_step(lib: LibraryState, key: LibraryKey, action: ScreenAction) -> bool {
    let sel = lib.selected as int;
    match key {
        LibraryKey::Open => if 0 <= sel < lib.items@.len() {
            match lib.items@[sel] {
                LibraryItem::Text(t) => action == ScreenAction::OpenText { text_id: t.id },
                LibraryItem::Source(ws) => action == ScreenAction::OpenSource { source_id: ws.id },
            }
        } else {
            action is Nothing
        },
        LibraryKey::Delete => if 0 <= sel < lib.items@.len() {
            match lib.items@[sel] {
                LibraryItem::Text(t) => action matches ScreenAction::ShowPopup {
                    popup: PopupState::DeleteConfirm { text_id, title },
                } && text_id == t.id && title@ == t.title@,
                LibraryItem::Source(ws) => action matches ScreenAction::ShowPopup {
                    popup: PopupState::DeleteSourceConfirm { source_id, title },
                } && source_id == ws.id && title@ == ws.title@,
            }
        } else {
            action is Nothing
        },
        LibraryKey::Import => action == ScreenAction::ShowPopup { popup: PopupState::ImportMenu },
        LibraryKey::Search => action matches ScreenAction::ShowPopup { popup: PopupState::SearchInput { text } }
            && text@.len() == 0,
        LibraryKey::CycleSort => action is CycleSort,
        LibraryKey::CycleFilter => action is CycleFilter,
        LibraryKey::Back => action is BackHome,
        _ => action is Nothing,
    }
}

/// Handles a key on the library screen: moves the selection, and says what
/// the program has to do.
pub fn library_key(lib: &mut LibraryState, key: LibraryKey) -> (r: ScreenAction)
    ensures
        *final(lib) == (LibraryState {
            selected: if key == LibraryKey::Up || key == LibraryKey::Down {
                moved_selection(old(lib).selected, old(lib).items@.len(), key == LibraryKey::Up)
            } else {
                old(lib).selected
            },
            ..*old(lib)
        }),
        library_key_step(*old(lib), key, r),
{
    match key {
        LibraryKey::Up => {
            lib.selected = lib.selected.saturating_sub(1);
            ScreenAction::Nothing
        },
        LibraryKey::Down => {
            let max = lib.items.len().saturating_sub(1);
            lib.selected = if lib.selected < max {
                lib.selected + 1
            } else {
                max
            };
            ScreenAction::Nothing
        },
        LibraryKey::Open => {
            if lib.selected < lib.items.len() {
                match &lib.items[lib.selected] {
                    LibraryItem::Text(t) => ScreenAction::OpenText { text_id: t.id },
                    LibraryItem::Source(ws) => ScreenAction::OpenSource { source_id: ws.id },
                }
            } else {
                ScreenAction::Nothing
            }
        },
        LibraryKey::Delete => {
            if lib.selected < lib.items.len() {
                match &lib.items[lib.selected] {
                    LibraryItem::Text(t) => ScreenAction::ShowPopup {
                        popup: PopupState::DeleteConfirm { text_id: t.id, title: t.title.clone() },
                    },
                    LibraryItem::Source(ws) => ScreenAction::ShowPopup {
                        popup: PopupState::DeleteSourceConfirm { source_id: ws.id, title: ws.title.clone() },
                    },
                }
            } else {
                ScreenAction::Nothing
            }
        },
        LibraryKey::Import => ScreenAction::ShowPopup { popup: PopupState::ImportMenu },
        LibraryKey::Search => ScreenAction::ShowPopup { popup: PopupState::SearchInput { text: String::new() } },
        LibraryKey::CycleSort => ScreenAction::CycleSort,
        LibraryKey::CycleFilter => ScreenAction::CycleFilter,
        LibraryKey::Back => ScreenAction::BackHome,
        LibraryKey::Other => ScreenAction::Nothing,
    }
}

/// A key pressed on the home screen's list of recent texts.
#[derive(Debug, Clone, Copy, PartialEq, Eq, Structural)]
pub enum HomeKey {
    Up,
    Down,
    /// Enter: open the selected text.
    Open,
    /// `f`: show or hide finished texts.
    ToggleFinished,
    /// `l`: the library.
    Library,
    /// `r`: a review session.
    Review,
    /// `i`: the import menu.
    Import,
    /// `c`: the card browser.
    Cards,
    /// `s`: the settings.
    Settings,
    /// `S`: the statistics.
    Stats,
    Other,
}

/// The home screen after a key: the selection moves within the listed
/// texts, and `f` flips whether finished texts are listed, keeping the
/// selection within the new listing.
pub open spec fn home_after_key(h: HomeState, key: HomeKey) -> HomeState {
    let listed = home_listed_from(h.recent_texts@, h.show_finished, 0);
    match key {
        HomeKey::Up => HomeState { selected: moved_selection(h.selected, listed.len(), true), ..h },
        HomeKey::Down => HomeState { selected: moved_selection(h.selected, listed.len(), false), ..h },
        HomeKey::ToggleFinished => {
            let now = home_listed_from(h.recent_texts@, !h.show_finished, 0);
            let max: int = if now.len() > 0 {
                now.len() - 1
            } else {
                0
            };
            HomeState {
                show_finished: !h.show_finished,
                selected: if h.selected < max {
                    h.selected
                } else {
                    max as usize
                },
                ..h
            }
        },
        _ => h,
    }
}

/// What a key on the home screen asks of the program.
pub open spec fn home_key_step(h: HomeState, key: HomeKey, action: ScreenAction) -> bool {
    let listed = home_listed_from(h.recent_texts@, h.show_finished, 0);
    match key {
        HomeKey::Open => if h.selected < listed.len() && listed[h.selected as int] < h.recent_texts@.len() {
            action == ScreenAction::OpenText { text_id: h.recent_texts@[listed[h.selected as int] as int].id }
        } else {
            action is Nothing
        },
        HomeKey::Library => action is OpenLibrary,
        HomeKey::Review => action is StartReview,
        HomeKey::Import => action == ScreenAction::ShowPopup { popup: PopupState::ImportMenu },
        HomeKey::Cards => action is OpenCardBrowser,
        HomeKey::Settings => action is OpenSettings,
        HomeKey::Stats => action is OpenStats,
        _ => action is Nothing,
    }
}

/// Handles a key on the home screen's list of recent texts.
pub fn home_key(home: &mut HomeState, key: HomeKey) -> (r: ScreenAction)
    requires
        forall|i: int|
            0 <= i < old(home).recent_texts@.len() ==> (#[trigger] old(home).recent_texts@[i]).total_sentences
                > i64::MIN,
    ensures
        *final(home) == home_after_key(*old(home), key),
        home_key_step(*old(home), key, r),
{
    match key {
        HomeKey::Up => {
            home.selected = home.selected.saturating_sub(1);
            ScreenAction::Nothing
        },
        HomeKey::Down => {
            let listed = home_filtered_texts(home);
            let max = listed.len().saturating_sub(1);
            home.selected = if home.selected < max {
                home.selected + 1
            } else {
                max
            };
            ScreenAction::Nothing
        },
        HomeKey::Open => {
            let listed = home_filtered_texts(home);
            if home.selected < listed.len() && listed[home.selected] < home.recent_texts.len() {
                ScreenAction::OpenText { text_id: home.recent_texts[listed[home.selected]].id }
            } else {
                ScreenAction::Nothing
            }
        },
        HomeKey::ToggleFinished => {
            home.show_finished = !home.show_finished;
            let listed = home_filtered_texts(home);
            let max = listed.len().saturating_sub(1);
            home.selected = if home.selected < max {
                home.selected
            } else {
                max
            };
            ScreenAction::Nothing
        },
        HomeKey::Library => ScreenAction::OpenLibrary,
        HomeKey::Review => ScreenAction::StartReview,
        HomeKey::Import => ScreenAction::ShowPopup { popup: PopupState::ImportMenu },
        HomeKey::Cards => ScreenAction::OpenCardBrowser,
        HomeKey::Settings => ScreenAction::OpenSettings,
        HomeKey::Stats => ScreenAction::OpenStats,
        HomeKey::Other => ScreenAction::Nothing,
    }
}


// ─── Laws of the interaction ────────────────────────────────────────

/// Whether the chapter list's selection is on its page: the page starts at
/// or before the selected chapter, which is one of the chapters.
pub open spec fn selection_in_list(s: ChapterSelectState) -> bool {
    s.page_start <= s.selected < s.chapters@.len()
}

proof fn lemma_scrolled_keeps_selection(s: ChapterSelectState)
    requires
        s.selected < s.chapters@.len(),
    ensures
        0 <= scrolled_page_start(s) <= s.selected,
{
    if s.selected >= s.page_start && selected_past_page(s) {
        lemma_page_start_back(
            chapter_groups(s.chapters@),
            s.selected as int,
            s.selected as int,
            s.page_size as int,
            s.selected as int,
        );
    }
}

/// Scrolling to the selected chapter shows it, given a page of two rows or
/// more: the page starts at or before it and reaches past it.
proof fn lemma_scrolled_shows_selection(s: ChapterSelectState)
    requires
        s.selected < s.chapters@.len(),
        s.page_size >= 2,
    ensures
        scrolled_page_start(s) <= s.selected < visible_range_end(s.chapters@, scrolled_page_start(s), s.page_size as int),
{
    let gs = chapter_groups(s.chapters@);
    let t = s.selected as int;
    let ps = s.page_size as int;
    lemma_scrolled_keeps_selection(s);
    let st = scrolled_page_start(s);
    if s.selected < s.page_start || selected_past_page(s) {
        if selected_past_page(s) && s.selected >= s.page_start {
            assert(tail_rows(gs, t + 1, t) == 0);
            assert(page_rows(gs, t, t) <= ps);
            if t > 0 {
                lemma_page_start_back_fits(gs, t - 1, t, ps, t);
                assert(page_start_back(gs, t, t, ps, t) == page_start_back(gs, t - 1, t, ps, t));
            }
        } else {
            assert(tail_rows(gs, t + 1, t) == 0);
        }
        assert(page_rows(gs, st, t) <= ps);
        lemma_page_end_past(gs, st, ps, None, t);
    }
}

/// The keys of the chapter list keep the selection on the list, with the
/// page starting at or before it.
pub proof fn law_chapter_keys_keep_the_selection(s: ChapterSelectState, page_size: usize, key: ChapterKey)
    requires
        selection_in_list(s),
    ensures
        selection_in_list(after_key(resized(s, page_size), key)),
{
    let s1 = resized(s, page_size);
    if s.page_size != page_size {
        lemma_scrolled_keeps_selection(ChapterSelectState { page_size, ..s });
    }
    assert(selection_in_list(s1));
    match key {
        ChapterKey::Up => {
            let sel: usize = if s1.selected > 0 {
                (s1.selected - 1) as usize
            } else {
                0
            };
            let t = ChapterSelectState { selected: sel, ..s1 };
            lemma_scrolled_keeps_selection(t);
            assert(after_key(s1, key) == select_and_scroll(s1, sel));
        },
        ChapterKey::Down => {
            let max: int = s1.chapters@.len() - 1;
            let sel: usize = if s1.selected + 1 < max {
                (s1.selected + 1) as usize
            } else {
                max as usize
            };
            lemma_scrolled_keeps_selection(ChapterSelectState { selected: sel, ..s1 });
        },
        ChapterKey::NextPage => {
            lemma_page_end_from(chapter_groups(s1.chapters@), s1.page_start as int, s1.page_size as int, None);
        },
        _ => {},
    }
}

/// A navigable token of `tokens` lies at or after `from`, if any is found.
proof fn lemma_first_navigable(tokens: Seq<TokenDisplay>, from: int)
    requires
        0 <= from,
    ensures
        first_navigable(tokens, from) matches Some(p) ==> from <= p < tokens.len() && navigable(tokens[p]),
    decreases tokens.len() - from,
{
    if from < tokens.len() && !navigable(tokens[from]) {
        lemma_first_navigable(tokens, from + 1);
    }
}

proof fn lemma_last_navigable(tokens: Seq<TokenDisplay>, end: int)
    requires
        end <= tokens.len(),
    ensures
        last_navigable(tokens, end) matches Some(p) ==> 0 <= p < end && navigable(tokens[p]),
    decreases end,
{
    if end > 0 && !navigable(tokens[end - 1]) {
        lemma_last_navigable(tokens, end - 1);
    }
}

/// Whether the reader's selected word, if any, is one that word navigation
/// stops at.
pub open spec fn word_is_navigable(s: ReaderState) -> bool {
    s.word_index matches Some(w) ==> navigable(sentence_tokens(s, s.sentence_index as int)[w as int])
}

/// The keys of the reader keep its position inside the text, and word
/// navigation only ever selects words it stops at: never a trivial token or
/// a non-head member of a conjugation group.
pub proof fn law_reader_keys_keep_a_navigable_position(s: ReaderState, key: ReaderKey)
    requires
        reader_position_valid(s),
        s.sentences@.len() > 0,
        word_is_navigable(s),
    ensures
        reader_position_valid(reader_after_key(s, key)),
        word_is_navigable(reader_after_key(s, key)),
{
    let si = s.sentence_index as int;
    let toks = sentence_tokens(s, si);
    assert(s.sentences@[si].tokens.len() == toks.len());
    assert(s.sentences.len() == s.sentences@.len());
    lemma_last_navigable(toks, toks.len() as int);
    lemma_first_navigable(toks, 0);
    if let Some(i) = s.word_index {
        lemma_last_navigable(toks, i as int);
        lemma_first_navigable(toks, i + 1);
    }
    if si > 0 {
        let prev = sentence_tokens(s, si - 1);
        assert(s.sentences@[si - 1].tokens.len() == prev.len());
        lemma_last_navigable(prev, prev.len() as int);
    }
    if si + 1 < s.sentences@.len() {
        assert(s.sentences@[si + 1].tokens.len() == sentence_tokens(s, si + 1).len());
        lemma_first_navigable(sentence_tokens(s, si + 1), 0);
    }
    let after = reader_after_key(s, key);
    assert(after.sentences == s.sentences);
    match key {
        ReaderKey::Left => {
            assert(toks == sentence_tokens(s, s.sentence_index as int));
            match s.word_index {
                None => {
                    assert(after == ReaderState {
                        word_index: opt_index(last_navigable(toks, toks.len() as int)),
                        ..s
                    });
                },
                Some(i) => {
                    if last_navigable(toks, i as int) is None {
                        if si > 0 {
                            let prev = sentence_tokens(s, si - 1);
                            assert(after == ReaderState {
                                sentence_index: (si - 1) as usize,
                                sidebar_scroll: 0,
                                word_index: opt_index(last_navigable(prev, prev.len() as int)),
                                ..s
                            });
                        }
                    }
                },
            }
        },
        ReaderKey::Right => {
            match s.word_index {
                None => {},
                Some(i) => {
                    assert(s.sentences@.len() > 0);
                    assert(toks == sentence_tokens(s, s.sentence_index as int));
                    if first_navigable(toks, i + 1) is None {
                        if si + 1 < s.sentences@.len() {
                            let nxt = sentence_tokens(s, si + 1);
                            assert(after == ReaderState {
                                sentence_index: (si + 1) as usize,
                                sidebar_scroll: 0,
                                word_index: opt_index(first_navigable(nxt, 0)),
                                ..s
                            });
                        }
                    }
                },
            }
        },
        _ => {},
    }
}

/// Typing a character into a text field and then pressing Backspace gives
/// back the text as it was.
pub proof fn law_backspace_undoes_typing(text: Seq<char>, c: char)
    ensures
        edited(edited(text, PopupKey::Char(c))->0, PopupKey::Backspace) == Some(text),
{
    assert(text.push(c).drop_last() =~= text);
}

proof fn lemma_first_with_id(chs: Seq<WebSourceChapter>, id: i64, from: int)
    requires
        0 <= from <= chs.len(),
    ensures
        from <= first_with_id(chs, id, from) <= chs.len(),
    decreases chs.len() - from,
{
    if from < chs.len() && chs[from].id != id {
        lemma_first_with_id(chs, id, from + 1);
    }
}

proof fn lemma_first_with_id_update(chs: Seq<WebSourceChapter>, id: i64, k: int, c: WebSourceChapter, from: int)
    requires
        0 <= k < chs.len(),
        c.id == chs[k].id,
        0 <= from <= chs.len(),
    ensures
        first_with_id(chs.update(k, c), id, from) == first_with_id(chs, id, from),
    decreases chs.len() - from,
{
    if from < chs.len() && chs[from].id != id {
        lemma_first_with_id_update(chs, id, k, c, from + 1);
    }
}

/// Skipping a chapter that is not skipped and unskipping it again gives
/// back the list's chapters as they were.
pub proof fn law_unskip_undoes_skip(chs: Seq<WebSourceChapter>, id: i64)
    requires
        first_with_id(chs, id, 0) < chs.len() ==> !chs[first_with_id(chs, id, 0)].is_skipped,
    ensures
        chapters_with_skip(chapters_with_skip(chs, id, true), id, false) == chs,
{
    let k = first_with_id(chs, id, 0);
    lemma_first_with_id(chs, id, 0);
    if k < chs.len() {
        let c = WebSourceChapter { is_skipped: true, ..chs[k] };
        lemma_first_with_id_update(chs, id, k, c, 0);
        let once = chs.update(k, c);
        assert(once.update(k, WebSourceChapter { is_skipped: false, ..once[k] }) =~= chs);
    }
}


// ─── Word status in the reader ──────────────────────────────────────

/// Whether token `t` is the word (`base`, `reading`).
pub open spec fn is_word(t: TokenDisplay, base: Seq<char>, reading: Seq<char>) -> bool {
    t.base_form@ == base && t.reading@ == reading
}

/// The words (base form, reading) of the first `n` tokens that autopromotion
/// takes: navigable tokens of new words, each word once, in order.
pub open spec fn promotion_candidates_upto(toks: Seq<TokenDisplay>, n: int) -> Seq<(Seq<char>, Seq<char>)>
    decreases n,
{
    if n <= 0 || n > toks.len() {
        seq![]
    } else {
        let prev = promotion_candidates_upto(toks, n - 1);
        let t = toks[n - 1];
        let key = (t.base_form@, t.reading@);
        if navigable(t) && t.vocabulary_status == VocabularyStatus::New && !prev.contains(key) {
            prev.push(key)
        } else {
            prev
        }
    }
}

pub open spec fn word_pairs_view(v: Seq<(String, String)>) -> Seq<(Seq<char>, Seq<char>)> {
    v.map_values(|p: (String, String)| (p.0@, p.1@))
}

/// The words to promote when the reader leaves sentence `sentence_index`:
/// none when autopromotion is off or there is no such sentence.
pub open spec fn promotion_candidates_of(s: ReaderState, sentence_index: int) -> Seq<(Seq<char>, Seq<char>)> {
    if s.autopromote_enabled && 0 <= sentence_index < s.sentences@.len() {
        let toks = sentence_tokens(s, sentence_index);
        promotion_candidates_upto(toks, toks.len() as int)
    } else {
        seq![]
    }
}

fn has_word(words: &Vec<(String, String)>, base: &str, reading: &str) -> (r: bool)
    ensures
        r == word_pairs_view(words@).contains((base@, reading@)),
{
    let ghost wv = word_pairs_view(words@);
    let mut k: usize = 0;
    while k < words.len()
        invariant
            k <= words@.len(),
            wv == word_pairs_view(words@),
            forall|m: int| 0 <= m < k ==> wv[m] != (base@, reading@),
        decreases words.len() - k,
    {
        if str_eq(words[k].0.as_str(), base) && str_eq(words[k].1.as_str(), reading) {
            assert(wv[k as int] == (base@, reading@));
            return true;
        }
        k += 1;
    }
    false
}

/// The new words of the sentence the reader is leaving, each once, that
/// autopromotion marks as known.
pub fn promotion_candidates(state: &ReaderState, sentence_index: usize) -> (r: Vec<(String, String)>)
    ensures
        word_pairs_view(r@) == promotion_candidates_of(*state, sentence_index as int),
{
    let mut out: Vec<(String, String)> = Vec::new();
    if !state.autopromote_enabled || sentence_index >= state.sentences.len() {
        return out;
    }
    let toks = &state.sentences[sentence_index].tokens;
    let mut j: usize = 0;
    while j < toks.len()
        invariant
            j <= toks@.len(),
            word_pairs_view(out@) == promotion_candidates_upto(toks@, j as int),
        decreases toks.len() - j,
    {
        let t = &toks[j];
        if t.is_navigable() && t.vocabulary_status == VocabularyStatus::New && !has_word(
            &out,
            t.base_form.as_str(),
            t.reading.as_str(),
        ) {
            let ghost prev = word_pairs_view(out@);
            out.push((t.base_form.clone(), t.reading.clone()));
            assert(word_pairs_view(out@) == prev.push((t.base_form@, t.reading@)));
        }
        j += 1;
    }
    out
}

/// Whether a token of the word (`base`, `reading`) belongs to group `g`.
pub open spec fn group_has_word(toks: Seq<TokenDisplay>, base: Seq<char>, reading: Seq<char>, g: usize) -> bool {
    exists|k: int| 0 <= k < toks.len() && is_word(toks[k], base, reading) && toks[k].group_id == Some(g)
}

/// Whether token `t` is in a group that a token of the word belongs to.
pub open spec fn in_word_group(t: TokenDisplay, toks: Seq<TokenDisplay>, base: Seq<char>, reading: Seq<char>) -> bool {
    match t.group_id {
        Some(g) => group_has_word(toks, base, reading, g),
        None => false,
    }
}

/// A token after the word (`base`, `reading`) is given `status`: the
/// word's tokens take it, and, when `propagate`, so do the other members of
/// the groups the word's tokens belong to.
pub open spec fn patched_token(
    t: TokenDisplay,
    toks: Seq<TokenDisplay>,
    base: Seq<char>,
    reading: Seq<char>,
    status: VocabularyStatus,
    propagate: bool,
) -> TokenDisplay {
    if is_word(t, base, reading) || (propagate && in_word_group(t, toks, base, reading)) {
        TokenDisplay { vocabulary_status: status, ..t }
    } else {
        t
    }
}

/// The sentence after the word is given `status` (see [`patched_token`]).
pub open spec fn patched_sentence(
    old: SentenceData,
    new: SentenceData,
    base: Seq<char>,
    reading: Seq<char>,
    status: VocabularyStatus,
    propagate: bool,
) -> bool {
    &&& new == SentenceData { tokens: new.tokens, ..old }
    &&& new.tokens@.len() == old.tokens@.len()
    &&& forall|j: int|
        0 <= j < old.tokens@.len() ==> #[trigger] new.tokens@[j] == patched_token(
            old.tokens@[j],
            old.tokens@,
            base,
            reading,
            status,
            propagate,
        )
}

fn group_has_word_exec(toks: &Vec<TokenDisplay>, base: &str, reading: &str, g: usize) -> (r: bool)
    ensures
        r == group_has_word(toks@, base@, reading@, g),
{
    let mut k: usize = 0;
    while k < toks.len()
        invariant
            k <= toks@.len(),
            forall|m: int|
                0 <= m < k ==> !(is_word(#[trigger] toks@[m], base@, reading@) && toks@[m].group_id == Some(g)),
        decreases toks.len() - k,
    {
        let t = &toks[k];
        if str_eq(t.base_form.as_str(), base) && str_eq(t.reading.as_str(), reading) && t.group_id == Some(g) {
            return true;
        }
        k += 1;
    }
    false
}

fn group_flags(toks: &Vec<TokenDisplay>, base: &str, reading: &str) -> (r: Vec<bool>)
    ensures
        r@.len() == toks@.len(),
        forall|j: int| 0 <= j < toks@.len() ==> r@[j] == in_word_group(#[trigger] toks@[j], toks@, base@, reading@),
{
    let mut out: Vec<bool> = Vec::new();
    let mut j: usize = 0;
    while j < toks.len()
        invariant
            j <= toks@.len(),
            out@.len() == j,
            forall|m: int| 0 <= m < j ==> out@[m] == in_word_group(#[trigger] toks@[m], toks@, base@, reading@),
        decreases toks.len() - j,
    {
        let hit = match toks[j].group_id {
            Some(g) => group_has_word_exec(toks, base, reading, g),
            None => false,
        };
        out.push(hit);
        j += 1;
    }
    out
}

fn patch_sentence(sentence: &mut SentenceData, base: &str, reading: &str, status: VocabularyStatus, propagate: bool)
    ensures
        patched_sentence(*old(sentence), *final(sentence), base@, reading@, status, propagate),
{
    let ghost toks0 = sentence.tokens@;
    let flags = group_flags(&sentence.tokens, base, reading);
    let mut j: usize = 0;
    while j < sentence.tokens.len()
        invariant
            j <= sentence.tokens@.len(),
            sentence.tokens@.len() == toks0.len(),
            *sentence == (SentenceData { tokens: sentence.tokens, ..*old(sentence) }),
            toks0 == old(sentence).tokens@,
            flags@.len() == toks0.len(),
            forall|m: int| 0 <= m < toks0.len() ==> flags@[m] == in_word_group(#[trigger] toks0[m], toks0, base@, reading@),
            forall|m: int|
                0 <= m < j ==> #[trigger] sentence.tokens@[m] == patched_token(
                    toks0[m],
                    toks0,
                    base@,
                    reading@,
                    status,
                    propagate,
                ),
            forall|m: int| j <= m < toks0.len() ==> #[trigger] sentence.tokens@[m] == toks0[m],
        decreases toks0.len() - j,
    {
        let t = &sentence.tokens[j];
        let direct = str_eq(t.base_form.as_str(), base) && str_eq(t.reading.as_str(), reading);
        let grouped = propagate && flags[j];
        if direct || grouped {
            let mut tok = sentence.tokens.remove(j);
            tok.vocabulary_status = status;
            sentence.tokens.insert(j, tok);
        }
        j += 1;
    }
}

/// Gives the word (`base`, `reading`) `status` in every sentence of the
/// reader: its tokens, and when `propagate` the other members of their
/// groups.
pub fn set_word_status_in_sentences(
    sentences: &mut Vec<SentenceData>,
    base: &str,
    reading: &str,
    status: VocabularyStatus,
    propagate: bool,
)
    ensures
        final(sentences)@.len() == old(sentences)@.len(),
        forall|i: int|
            0 <= i < old(sentences)@.len() ==> patched_sentence(
                #[trigger] old(sentences)@[i],
                final(sentences)@[i],
                base@,
                reading@,
                status,
                propagate,
            ),
{
    let ghost s0 = sentences@;
    let mut i: usize = 0;
    while i < sentences.len()
        invariant
            i <= sentences@.len(),
            sentences@.len() == s0.len(),
            s0 == old(sentences)@,
            forall|m: int|
                0 <= m < i ==> patched_sentence(#[trigger] s0[m], sentences@[m], base@, reading@, status, propagate),
            forall|m: int| i <= m < s0.len() ==> #[trigger] sentences@[m] == s0[m],
        decreases s0.len() - i,
    {
        let mut sentence = sentences.remove(i);
        patch_sentence(&mut sentence, base, reading, status, propagate);
        sentences.insert(i, sentence);
        i += 1;
    }
}

/// The first position at or after `from` holding `c`, or the length.
pub open spec fn first_position(v: Seq<Seq<char>>, c: Seq<char>, from: int) -> int
    decreases v.len() - from,
{
    if from < 0 || from >= v.len() {
        v.len() as int
    } else if v[from] == c {
        from
    } else {
        first_position(v, c, from + 1)
    }
}

/// The next source-type filter of the library: the first type after no
/// filter, the next type after a type, and no filter after the last type
/// (or when there are no types, the filter is kept).
pub open spec fn next_filter_of(types: Seq<Seq<char>>, current: Option<Seq<char>>) -> Option<Option<Seq<char>>> {
    if types.len() == 0 {
        None
    } else {
        Some(
            match current {
                None => Some(types[0]),
                Some(c) => {
                    let k = first_position(types, c, 0);
                    let idx = if k < types.len() {
                        k
                    } else {
                        0
                    };
                    if idx + 1 >= types.len() {
                        None
                    } else {
                        Some(types[idx + 1])
                    }
                },
            },
        )
    }
}


/// The library's source-type filter after `f`: see [`next_filter_of`];
/// `None` when there are no types, the filter then staying as it is.
pub fn next_filter(types: &Vec<String>, current: &Option<String>) -> (r: Option<Option<String>>)
    ensures
        match r {
            None => next_filter_of(types@.map_values(|t: String| t@), opt_string_of(*current)) is None,
            Some(f) => next_filter_of(types@.map_values(|t: String| t@), opt_string_of(*current)) == Some(
                opt_string_of(f),
            ),
        },
{
    let ghost tv = types@.map_values(|t: String| t@);
    if types.len() == 0 {
        return None;
    }
    match current {
        None => Some(Some(types[0].clone())),
        Some(c) => {
            let mut k: usize = 0;
            while k < types.len() && !str_eq(types[k].as_str(), c.as_str())
                invariant
                    k <= types@.len(),
                    tv == types@.map_values(|t: String| t@),
                    first_position(tv, c@, 0) == first_position(tv, c@, k as int),
                decreases types.len() - k,
            {
                k += 1;
            }
            let idx = if k < types.len() {
                k
            } else {
                0
            };
            if idx + 1 >= types.len() {
                Some(None)
            } else {
                Some(Some(types[idx + 1].clone()))
            }
        },
    }
}

pub open spec fn opt_string_of(o: Option<String>) -> Option<Seq<char>> {
    match o {
        Some(s) => Some(s@),
        None => None,
    }
}


/// Undoing an autopromotion (the word set back to new, without its groups)
/// restores every token that was a new token of the word or stands outside
/// the word's groups.
pub proof fn law_undo_restores_promoted_words(
    toks: Seq<TokenDisplay>,
    promoted: Seq<TokenDisplay>,
    base: Seq<char>,
    reading: Seq<char>,
    j: int,
)
    requires
        0 <= j < toks.len(),
        is_word(toks[j], base, reading) ==> toks[j].vocabulary_status == VocabularyStatus::New,
        is_word(toks[j], base, reading) || !in_word_group(toks[j], toks, base, reading),
    ensures
        patched_token(
            patched_token(toks[j], toks, base, reading, VocabularyStatus::Known, true),
            promoted,
            base,
            reading,
            VocabularyStatus::New,
            false,
        ) == toks[j],
{
}


/// Whether token `t` is a token of one of the `words` (base form, reading, id).
pub open spec fn of_words(t: TokenDisplay, words: Seq<(String, String, i64)>) -> bool {
    exists|k: int| 0 <= k < words.len() && is_word(t, (#[trigger] words[k]).0@, words[k].1@)
}

/// A token after the `words` are set back to new: a token of one of them
/// becomes new, the others stay as they are (their groups included).
pub open spec fn reverted_token(t: TokenDisplay, words: Seq<(String, String, i64)>) -> TokenDisplay {
    if of_words(t, words) {
        TokenDisplay { vocabulary_status: VocabularyStatus::New, ..t }
    } else {
        t
    }
}

/// The sentence `new` is `old` with the `words` set back to new.
pub open spec fn reverted_sentence(old: SentenceData, new: SentenceData, words: Seq<(String, String, i64)>) -> bool {
    &&& new == SentenceData { tokens: new.tokens, ..old }
    &&& new.tokens@.len() == old.tokens@.len()
    &&& forall|j: int| 0 <= j < old.tokens@.len() ==> #[trigger] new.tokens@[j] == reverted_token(old.tokens@[j], words)
}

/// Undoes the last autopromotion: its batch leaves the history and its words
/// become new again in the sentences shown (the caller stores the statuses).
/// Nothing changes when there is nothing to undo.
pub fn undo_last_autopromotion(state: &mut ReaderState) -> (r: Option<AutopromotionBatch>)
    ensures
        old(state).autopromote_history@.len() == 0 ==> r is None && *final(state) == *old(state),
        old(state).autopromote_history@.len() > 0 ==> {
            &&& r == Some(old(state).autopromote_history@.last())
            &&& final(state).autopromote_history@ == old(state).autopromote_history@.drop_last()
            &&& final(state).sentences@.len() == old(state).sentences@.len()
            &&& forall|i: int|
                0 <= i < old(state).sentences@.len() ==> reverted_sentence(
                    #[trigger] old(state).sentences@[i],
                    final(state).sentences@[i],
                    old(state).autopromote_history@.last().words@,
                )
            &&& *final(state) == (ReaderState {
                sentences: final(state).sentences,
                autopromote_history: final(state).autopromote_history,
                ..*old(state)
            })
        },
{
    if state.autopromote_history.len() == 0 {
        return None;
    }
    let ghost h0 = state.autopromote_history@;
    let batch = match state.autopromote_history.pop() {
        Some(b) => b,
        None => return None,
    };
    assert(batch == h0.last());
    assert(state.autopromote_history@ =~= h0.drop_last());
    let ghost pre = *state;
    let ghost s0 = state.sentences@;
    let ghost words = batch.words@;
    let mut k: usize = 0;
    assert forall|i: int| 0 <= i < s0.len() implies reverted_sentence(
        #[trigger] s0[i],
        state.sentences@[i],
        words.take(0),
    ) by {
        assert forall|j: int| 0 <= j < s0[i].tokens@.len() implies #[trigger] state.sentences@[i].tokens@[j]
            == reverted_token(s0[i].tokens@[j], words.take(0)) by {
            assert(!of_words(s0[i].tokens@[j], words.take(0)));
        }
    }
    while k < batch.words.len()
        invariant
            k <= words.len(),
            words == batch.words@,
            *state == (ReaderState { sentences: state.sentences, ..pre }),
            state.sentences@.len() == s0.len(),
            forall|i: int| 0 <= i < s0.len() ==> reverted_sentence(#[trigger] s0[i], state.sentences@[i], words.take(k as int)),
        decreases words.len() - k,
    {
        let ghost cur = state.sentences@;
        set_word_status_in_sentences(
            &mut state.sentences,
            batch.words[k].0.as_str(),
            batch.words[k].1.as_str(),
            VocabularyStatus::New,
            false,
        );
        let ghost w = words[k as int];
        assert forall|i: int| 0 <= i < s0.len() implies reverted_sentence(
            #[trigger] s0[i],
            state.sentences@[i],
            words.take(k + 1),
        ) by {
            assert(patched_sentence(cur[i], state.sentences@[i], w.0@, w.1@, VocabularyStatus::New, false));
            assert(reverted_sentence(s0[i], cur[i], words.take(k as int)));
            assert forall|j: int| 0 <= j < s0[i].tokens@.len() implies #[trigger] state.sentences@[i].tokens@[j]
                == reverted_token(s0[i].tokens@[j], words.take(k + 1)) by {
                let t = s0[i].tokens@[j];
                let c = cur[i].tokens@[j];
                assert(c == reverted_token(t, words.take(k as int)));
                assert(state.sentences@[i].tokens@[j] == patched_token(c, cur[i].tokens@, w.0@, w.1@, VocabularyStatus::New, false));
                assert(words.take(k + 1)[k as int] == w);
                if of_words(t, words.take(k as int)) {
                    let q = choose|q: int| 0 <= q < k && is_word(t, (#[trigger] words.take(k as int)[q]).0@, words.take(k as int)[q].1@);
                    assert(words.take(k + 1)[q] == words.take(k as int)[q]);
                }
                if of_words(t, words.take(k + 1)) && !is_word(t, w.0@, w.1@) {
                    let q = choose|q: int| 0 <= q < k + 1 && is_word(t, (#[trigger] words.take(k + 1)[q]).0@, words.take(k + 1)[q].1@);
                    assert(q != k);
                    assert(words.take(k as int)[q] == words.take(k + 1)[q]);
                }
            }
        }
        k += 1;
    }
    assert(words.take(k as int) =~= words);
    Some(batch)
}

// ─── Preprocessing ahead of the reader ──────────────────────────────

/// The chapters to queue for preprocessing, walking the list with `budget`
/// chapters to cover: skipped chapters are passed over; an imported chapter
/// uses up the budget when it is still unread; a chapter being processed
/// uses it up; any other chapter is queued and uses it up.
pub open spec fn preprocess_plan(
    chs: Seq<WebSourceChapter>,
    states: Map<i64, ChapterReadState>,
    processing: Set<i64>,
    budget: int,
) -> Seq<(i64, i32)>
    decreases chs.len(),
{
    if budget <= 0 || chs.len() == 0 {
        seq![]
    } else {
        let ch = chs[0];
        let rest = chs.drop_first();
        if ch.is_skipped {
            preprocess_plan(rest, states, processing, budget)
        } else if ch.text_id is Some {
            let unread = states.contains_key(ch.id) && states[ch.id] == ChapterReadState::Unread;
            preprocess_plan(rest, states, processing, if unread { budget - 1 } else { budget })
        } else if processing.contains(ch.id) {
            preprocess_plan(rest, states, processing, budget - 1)
        } else {
            seq![(ch.id, ch.chapter_number)] + preprocess_plan(rest, states, processing, budget - 1)
        }
    }
}

/// The (chapter id, chapter number) of the chapters to queue so that the
/// next `ahead` unread or unimported chapters are ready, being processed,
/// or queued.
pub fn chapters_to_preprocess(state: &ChapterSelectState, ahead: usize, processing: &HashSet<i64>) -> (r: Vec<
    (i64, i32),
>)
    ensures
        r@ == preprocess_plan(state.chapters@, state.chapter_read_states@, processing@, ahead as int),
{
    broadcast use vstd::std_specs::hash::group_hash_axioms;

    let ghost chs = state.chapters@;
    let ghost states = state.chapter_read_states@;
    let mut out: Vec<(i64, i32)> = Vec::new();
    let mut budget = ahead;
    let mut i: usize = 0;
    assert(chs.skip(0) == chs);
    while i < state.chapters.len() && budget > 0
        invariant
            i <= chs.len(),
            chs == state.chapters@,
            states == state.chapter_read_states@,
            preprocess_plan(chs, states, processing@, ahead as int) == out@ + preprocess_plan(
                chs.skip(i as int),
                states,
                processing@,
                budget as int,
            ),
        decreases chs.len() - i,
    {
        assert(chs.skip(i as int)[0] == chs[i as int]);
        assert(chs.skip(i as int).drop_first() == chs.skip(i + 1));
        let ch = &state.chapters[i];
        if ch.is_skipped {
        } else if ch.text_id.is_some() {
            let unread = match state.chapter_read_states.get(&ch.id) {
                Some(ChapterReadState::Unread) => true,
                _ => false,
            };
            if unread {
                budget -= 1;
            }
        } else if processing.contains(&ch.id) {
            budget -= 1;
        } else {
            let ghost before = out@;
            out.push((ch.id, ch.chapter_number));
            assert(out@ == before + seq![(ch.id, ch.chapter_number)]);
            budget -= 1;
        }
        i += 1;
    }
    assert(preprocess_plan(chs.skip(i as int), states, processing@, budget as int) == Seq::<(i64, i32)>::empty());
    assert(out@ + Seq::<(i64, i32)>::empty() == out@);
    out
}

/// How far a chapter's text has been read, from its number of sentences and
/// the last sentence reached.
pub open spec fn read_state_of(total_sentences: i64, last_sentence_index: i64) -> ChapterReadState {
    if total_sentences == 0 {
        ChapterReadState::Unread
    } else if last_sentence_index >= total_sentences - 1 {
        ChapterReadState::Finished
    } else if last_sentence_index > 0 {
        ChapterReadState::InProgress
    } else {
        ChapterReadState::Unread
    }
}

/// The reading state of an imported chapter whose text is `text` (none
/// when the text is missing).
pub fn chapter_read_state(text: &Option<Text>) -> (r: ChapterReadState)
    ensures
        r == match *text {
            Some(t) => read_state_of(t.total_sentences, t.last_sentence_index),
            None => ChapterReadState::NotImported,
        },
{
    match text {
        Some(t) => {
            if t.total_sentences == 0 {
                ChapterReadState::Unread
            } else if t.last_sentence_index >= t.total_sentences || (t.last_sentence_index < i64::MAX
                && t.last_sentence_index + 1 == t.total_sentences) {
                ChapterReadState::Finished
            } else if t.last_sentence_index > 0 {
                ChapterReadState::InProgress
            } else {
                ChapterReadState::Unread
            }
        },
        None => ChapterReadState::NotImported,
    }
}


// ─── The selected word ──────────────────────────────────────────────

/// What the reader's selection gives for setting a word's status.
pub enum SelectedWord {
    /// No word is selected.
    NoneSelected,
    /// The selection is not a token of the sentence.
    OutOfRange,
    /// The selected token is punctuation or whitespace.
    Trivial,
    /// The selected word: its base form and reading.
    Word { base_form: String, reading: String },
}

/// The word whose status the reader's keys set: the selected token's base
/// form and reading, unless nothing is selected, the selection is outside
/// the sentence, or the token is trivial.
pub fn selected_word(state: &ReaderState) -> (r: SelectedWord)
    requires
        state.word_index is Some ==> state.sentence_index < state.sentences@.len(),
    ensures
        match state.word_index {
            None => r is NoneSelected,
            Some(w) => if w >= sentence_tokens(
                *state,
                state.sentence_index as int,
            ).len() {
                r is OutOfRange
            } else {
                let t = sentence_tokens(*state, state.sentence_index as int)[w as int];
                if t.is_trivial {
                    r is Trivial
                } else {
                    r matches SelectedWord::Word { base_form, reading } && base_form@ == t.base_form@
                        && reading@ == t.reading@
                }
            },
        },
{
    let w = match state.word_index {
        Some(w) => w,
        None => return SelectedWord::NoneSelected,
    };
    let toks = &state.sentences[state.sentence_index].tokens;
    if w >= toks.len() {
        return SelectedWord::OutOfRange;
    }
    let t = &toks[w];
    if t.is_trivial {
        return SelectedWord::Trivial;
    }
    SelectedWord::Word { base_form: t.base_form.clone(), reading: t.reading.clone() }
}


// ─── Word details ───────────────────────────────────────────────────

/// The surfaces of the tokens in group `g`, run together, in order.
pub open spec fn group_surface(toks: Seq<TokenDisplay>, g: usize, n: int) -> Seq<char>
    decreases n,
{
    if n <= 0 || n > toks.len() {
        seq![]
    } else {
        group_surface(toks, g, n - 1) + if toks[n - 1].group_id == Some(g) {
            toks[n - 1].surface@
        } else {
            seq![]
        }
    }
}

/// The whole expression of a token that heads a multi-word expression with
/// a meaning: the surfaces of its group's tokens.
pub open spec fn expression_of(toks: Seq<TokenDisplay>, w: int) -> Option<Seq<char>> {
    let t = toks[w];
    if t.is_group_head && t.mwe_gloss@.len() > 0 && t.group_id is Some {
        Some(group_surface(toks, t.group_id->0, toks.len() as int))
    } else {
        None
    }
}

/// The expression the token at `w` heads, if it heads one with a meaning
/// (looked up in the dictionary before its head word).
pub fn expression_surface(toks: &Vec<TokenDisplay>, w: usize) -> (r: Option<String>)
    requires
        w < toks@.len(),
    ensures
        match r {
            Some(e) => expression_of(toks@, w as int) == Some(e@),
            None => expression_of(toks@, w as int) is None,
        },
{
    let t = &toks[w];
    if !(t.is_group_head && !t.mwe_gloss.as_str().is_empty()) {
        return None;
    }
    let g = match t.group_id {
        Some(g) => g,
        None => return None,
    };
    let mut out = String::new();
    let mut k: usize = 0;
    while k < toks.len()
        invariant
            k <= toks@.len(),
            out@ == group_surface(toks@, g, k as int),
        decreases toks.len() - k,
    {
        if toks[k].group_id == Some(g) {
            push_str(&mut out, toks[k].surface.as_str());
        }
        k += 1;
    }
    Some(out)
}

/// What copying a word takes: the surfaces of the word's whole group run
/// together when it belongs to one, else its own surface.
pub open spec fn copy_text_of(toks: Seq<TokenDisplay>, w: int) -> Seq<char> {
    match toks[w].group_id {
        Some(g) => group_surface(toks, g, toks.len() as int),
        None => toks[w].surface@,
    }
}

/// The text copied for the word at `w`: see [`copy_text_of`].
pub fn word_copy_text(toks: &Vec<TokenDisplay>, w: usize) -> (r: String)
    requires
        w < toks@.len(),
    ensures
        r@ == copy_text_of(toks@, w as int),
{
    match toks[w].group_id {
        Some(g) => {
            let mut out = String::new();
            let mut k: usize = 0;
            while k < toks.len()
                invariant
                    k <= toks@.len(),
                    out@ == group_surface(toks@, g, k as int),
                decreases toks.len() - k,
            {
                if toks[k].group_id == Some(g) {
                    push_str(&mut out, toks[k].surface.as_str());
                }
                k += 1;
            }
            out
        },
        None => toks[w].surface.clone(),
    }
}

/// The notes shown with a word's details: when the dictionary has no entry
/// and the word heads an expression with a meaning, that meaning, followed
/// on a new line by the word's notes if any; else the word's notes.
pub open spec fn detail_notes_of(no_entries: bool, mwe_gloss: Option<Seq<char>>, notes: Option<Seq<char>>) -> Option<
    Seq<char>,
> {
    match (no_entries, mwe_gloss) {
        (true, Some(g)) => Some(
            g + match notes {
                Some(n) => seq!['\n'] + n,
                None => seq![],
            },
        ),
        _ => notes,
    }
}

/// The notes shown with a word's details.
pub fn detail_notes(no_entries: bool, mwe_gloss: Option<String>, notes: Option<String>) -> (r: Option<String>)
    ensures
        opt_string_of(r) == detail_notes_of(no_entries, opt_string_of(mwe_gloss), opt_string_of(notes)),
{
    match (no_entries, mwe_gloss) {
        (true, Some(g)) => {
            let mut out = g;
            if let Some(n) = notes {
                out.push('\n');
                push_str(&mut out, n.as_str());
            }
            Some(out)
        },
        _ => notes,
    }
}


// ─── Layout and animation ───────────────────────────────────────────

/// The rows of the chapter list in a terminal `height` rows high (40 when
/// the height is unknown): what the title bar, source information, list
/// borders and status bar (8 rows) leave, and at least 5.
pub fn chapter_page_size_for_terminal(height: Option<u16>) -> (r: usize)
    ensures
        ({
            let h: int = match height {
                Some(h) => h as int,
                None => 40,
            };
            r == if h - 8 >= 5 {
                h - 8
            } else {
                5
            }
        }),
{
    let h: usize = match height {
        Some(h) => h as usize,
        None => 40,
    };
    let rows = h.saturating_sub(8);
    if rows >= 5 {
        rows
    } else {
        5
    }
}

/// The frames of the spinner, in order.
pub open spec fn spinner_frame(i: int) -> char {
    if i == 0 {
        '⠋'
    } else if i == 1 {
        '⠙'
    } else if i == 2 {
        '⠹'
    } else if i == 3 {
        '⠸'
    } else if i == 4 {
        '⠼'
    } else if i == 5 {
        '⠴'
    } else if i == 6 {
        '⠦'
    } else if i == 7 {
        '⠧'
    } else if i == 8 {
        '⠇'
    } else {
        '⠏'
    }
}

/// The spinner's frame at tick `tick_count`: each of the ten frames lasts
/// three ticks.
pub fn spinner_char(tick_count: u64) -> (r: char)
    ensures
        r == spinner_frame(((tick_count / 3) % 10) as int),
{
    let i = (tick_count / 3) % 10;
    if i == 0 {
        '⠋'
    } else if i == 1 {
        '⠙'
    } else if i == 2 {
        '⠹'
    } else if i == 3 {
        '⠸'
    } else if i == 4 {
        '⠼'
    } else if i == 5 {
        '⠴'
    } else if i == 6 {
        '⠦'
    } else if i == 7 {
        '⠧'
    } else if i == 8 {
        '⠇'
    } else {
        '⠏'
    }
}

} // verus!
