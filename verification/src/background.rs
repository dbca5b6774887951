//! Background chapter preprocessing: the events that workers report, and the
//! shared queue of import tasks with its cancelled and in-flight chapters.
//! The worker threads themselves run outside the library; each step they
//! take on the shared queue is a method here.
use vstd::prelude::*;
use crate::text::{str_eq, push_str, push_decimal, decimal_digits};
use crate::review::{integer_text, signed_decimal};
use std::collections::{HashMap, HashSet};
use crate::screens::Screen;

verus! {

/// Events sent from background workers to the interface's event loop.
#[derive(Debug, Clone)]
pub enum ImportEvent {
    /// A chapter started preprocessing.
    Started { source_id: i64, chapter_id: i64, chapter_number: i32 },
    /// A chapter finished preprocessing successfully.
    Completed { source_id: i64, chapter_id: i64, chapter_number: i32, text_id: i64 },
    /// A chapter failed to import.
    Failed { source_id: i64, chapter_id: i64, chapter_number: i32, error: String },
    /// Progress update during preprocessing.
    Progress {
        chapter_id: i64,
        /// Which phase: "fetch", "tokenize", "write"
        phase: &'static str,
        /// 0..100
        percent: u8,
    },
    /// A chapter's import was cancelled (e.g., marked as skipped).
    Cancelled { source_id: i64, chapter_id: i64 },
    /// A page of chapters has been loaded and saved (incremental Syosetu loading).
    ChaptersPageLoaded { source_id: i64, page: usize, total_so_far: usize, has_next: bool },
    /// Novel metadata finished loading (all pages fetched).
    NovelInfoLoaded { source_id: i64, title: String },
    /// Novel metadata fetch failed.
    NovelInfoFailed { ncode: String, error: String },
    /// A standalone text import (file, clipboard, URL, subtitle, epub) has started.
    TextImportStarted { label: String },
    /// A standalone text import completed successfully.
    TextImportCompleted { title: String },
    /// A standalone text import failed.
    TextImportFailed { label: String, error: String },
}

/// A task to import a single chapter.
#[derive(Debug, Clone)]
pub struct ImportTask {
    pub source_id: i64,
    pub chapter_id: i64,
    pub chapter_number: i32,
    pub source_type: String,
    /// For syosetu: the ncode. For epub: not used (already imported).
    pub external_id: String,
    pub db_path: String,
}

/// What a worker does next with the queue.
pub enum WorkerStep {
    /// The queue is empty: wait and look again.
    Idle,
    /// The first task was cancelled before it started; report it.
    Skip(ImportEvent),
    /// Import the chapter; it is recorded as in flight.
    Run(ImportTask),
}

/// The import queue shared by the background workers: tasks waiting to run,
/// chapters cancelled, and chapters in flight.
pub struct BackgroundImporter {
    task_queue: Vec<ImportTask>,
    cancelled: HashSet<i64>,
    in_flight: HashSet<i64>,
    /// Number of worker threads.
    num_workers: usize,
    /// Whether workers have been spawned.
    workers_spawned: bool,
}

pub struct ImporterView {
    /// The chapter of each waiting task, first to run first.
    pub queue: Seq<i64>,
    pub cancelled: Set<i64>,
    pub in_flight: Set<i64>,
    pub workers_spawned: bool,
    pub num_workers: usize,
}

pub open spec fn task_chapters(q: Seq<ImportTask>) -> Seq<i64> {
    q.map_values(|t: ImportTask| t.chapter_id)
}

impl View for BackgroundImporter {
    type V = ImporterView;

    closed spec fn view(&self) -> ImporterView {
        ImporterView {
            queue: task_chapters(self.task_queue@),
            cancelled: self.cancelled@,
            in_flight: self.in_flight@,
            workers_spawned: self.workers_spawned,
            num_workers: self.num_workers,
        }
    }
}

impl BackgroundImporter {
    /// The tasks waiting to run, first to run first.
    pub closed spec fn tasks(&self) -> Seq<ImportTask> {
        self.task_queue@
    }

    /// No chapter waits twice in the queue, and the queue's chapters are
    /// those of its tasks.
    pub open spec fn wf(&self) -> bool {
        &&& self@.queue.no_duplicates()
        &&& self@.queue == task_chapters(self.tasks())
    }

    /// Create a new background importer.
    pub fn new(num_workers: usize) -> (r: Self)
        ensures
            r.wf(),
            r@.queue == Seq::<i64>::empty(),
            r@.cancelled == Set::<i64>::empty(),
            r@.in_flight == Set::<i64>::empty(),
            !r@.workers_spawned,
            r@.num_workers == num_workers,
    {
        broadcast use vstd::std_specs::hash::group_hash_axioms;
        let r = BackgroundImporter {
            task_queue: Vec::new(),
            cancelled: HashSet::new(),
            in_flight: HashSet::new(),
            num_workers,
            workers_spawned: false,
        };
        assert(task_chapters(r.task_queue@) =~= Seq::<i64>::empty());
        r
    }

    /// Marks the workers as spawned; returns whether they still had to be
    /// (so that the caller spawns them exactly once).
    pub fn ensure_workers(&mut self) -> (spawn: bool)
        requires
            old(self).wf(),
        ensures
            final(self).wf(),
            spawn == !old(self)@.workers_spawned,
            final(self)@ == (ImporterView { workers_spawned: true, ..old(self)@ }),
            final(self).tasks() == old(self).tasks(),
    {
        if self.workers_spawned {
            return false;
        }
        self.workers_spawned = true;
        true
    }

    /// Number of worker threads.
    pub fn num_workers(&self) -> (r: usize)
        ensures
            r == self@.num_workers,
    {
        self.num_workers
    }

    /// Check if a chapter is currently being preprocessed.
    pub fn is_in_flight(&self, chapter_id: i64) -> (r: bool)
        ensures
            r == self@.in_flight.contains(chapter_id),
    {
        broadcast use vstd::std_specs::hash::group_hash_axioms;
        self.in_flight.contains(&chapter_id)
    }

    /// Check if a chapter is in the queue (waiting to start).
    pub fn is_queued(&self, chapter_id: i64) -> (r: bool)
        ensures
            r == self@.queue.contains(chapter_id),
    {
        let mut i: usize = 0;
        while i < self.task_queue.len()
            invariant
                i <= self.task_queue@.len(),
                forall|k: int| 0 <= k < i ==> self.task_queue@[k].chapter_id != chapter_id,
            decreases self.task_queue.len() - i,
        {
            if self.task_queue[i].chapter_id == chapter_id {
                assert(task_chapters(self.task_queue@)[i as int] == chapter_id);
                return true;
            }
            i += 1;
        }
        false
    }

    /// Queue a single specific chapter (e.g., when the user presses Enter on it),
    /// at the front of the queue for priority, unless it is already in flight
    /// or queued. Returns whether the workers still have to be spawned.
    pub fn queue_single(
        &mut self,
        source_id: i64,
        source_type: &str,
        external_id: &str,
        chapter_id: i64,
        chapter_number: i32,
        db_path: &str,
    ) -> (spawn: bool)
        requires
            old(self).wf(),
        ensures
            final(self).wf(),
            spawn == !old(self)@.workers_spawned,
            final(self)@.workers_spawned,
            final(self)@.num_workers == old(self)@.num_workers,
            final(self)@.cancelled == old(self)@.cancelled,
            final(self)@.in_flight == old(self)@.in_flight,
            final(self)@.queue == if old(self)@.in_flight.contains(chapter_id) || old(self)@.queue.contains(
                chapter_id,
            ) {
                old(self)@.queue
            } else {
                seq![chapter_id] + old(self)@.queue
            },
            !(old(self)@.in_flight.contains(chapter_id) || old(self)@.queue.contains(chapter_id))
                ==> final(self).tasks()[0] == (ImportTask {
                source_id,
                chapter_id,
                chapter_number,
                source_type: final(self).tasks()[0].source_type,
                external_id: final(self).tasks()[0].external_id,
                db_path: final(self).tasks()[0].db_path,
            }) && final(self).tasks()[0].source_type@ == source_type@ && final(self).tasks()[0].external_id@
                == external_id@ && final(self).tasks()[0].db_path@ == db_path@,
            !(old(self)@.in_flight.contains(chapter_id) || old(self)@.queue.contains(chapter_id))
                ==> final(self).tasks().drop_first() == old(self).tasks(),
            old(self)@.in_flight.contains(chapter_id) || old(self)@.queue.contains(chapter_id)
                ==> final(self).tasks() == old(self).tasks(),
    {
        let spawn = self.ensure_workers();
        if self.is_in_flight(chapter_id) || self.is_queued(chapter_id) {
            return spawn;
        }
        let ghost before = self.task_queue@;
        let task = ImportTask {
            source_id,
            chapter_id,
            chapter_number,
            source_type: String::from_str(source_type),
            external_id: String::from_str(external_id),
            db_path: String::from_str(db_path),
        };
        self.task_queue.insert(0, task);
        assert(self.task_queue@.drop_first() =~= before);
        assert(task_chapters(self.task_queue@) =~= seq![chapter_id] + task_chapters(before));
        assert forall|a: int, b: int|
            0 <= a < b < task_chapters(self.task_queue@).len() implies task_chapters(self.task_queue@)[a]
            != task_chapters(self.task_queue@)[b] by {
            if a == 0 {
                assert(task_chapters(before).contains(task_chapters(before)[b - 1]));
            }
        }
        spawn
    }

    /// Cancel preprocessing for a specific chapter: it is recorded as
    /// cancelled and leaves the queue if it has not started.
    pub fn cancel_chapter(&mut self, chapter_id: i64)
        requires
            old(self).wf(),
        ensures
            final(self).wf(),
            final(self)@.cancelled == old(self)@.cancelled.insert(chapter_id),
            final(self)@.in_flight == old(self)@.in_flight,
            final(self)@.workers_spawned == old(self)@.workers_spawned,
            final(self)@.queue == old(self)@.queue.filter(|c: i64| c != chapter_id),
    {
        broadcast use vstd::std_specs::hash::group_hash_axioms;
        self.cancelled.insert(chapter_id);
        let ghost pred = |c: i64| c != chapter_id;
        let ghost orig = task_chapters(self.task_queue@);
        let mut kept: Vec<ImportTask> = Vec::new();
        let mut rest = Vec::new();
        std::mem::swap(&mut rest, &mut self.task_queue);
        let ghost all = rest@;
        assert(task_chapters(all) == orig);
        while rest.len() > 0
            invariant
                orig == task_chapters(all),
                orig.no_duplicates(),
                task_chapters(all).filter(pred) == task_chapters(kept@) + task_chapters(rest@).filter(pred),
                pred == (|c: i64| c != chapter_id),
                task_chapters(kept@).no_duplicates(),
                forall|x: i64| #[trigger] task_chapters(kept@).contains(x) ==> orig.contains(x) && !task_chapters(rest@).contains(x),
                forall|x: i64| #[trigger] task_chapters(rest@).contains(x) ==> orig.contains(x),
                task_chapters(rest@).no_duplicates(),
            decreases rest.len(),
        {
            let ghost rv = rest@;
            let ghost kv = kept@;
            assert(forall|x: i64| task_chapters(kv).contains(x) ==> !task_chapters(rv).contains(x));
            let t = rest.remove(0);
            assert(rest@ == rv.drop_first());
            assert(task_chapters(rv) == seq![t.chapter_id] + task_chapters(rest@));
            assert(task_chapters(rv).filter(pred) == (seq![t.chapter_id] + task_chapters(rest@)).filter(pred));
            proof { task_chapters(rest@).lemma_filter_prepend(t.chapter_id, pred); }
            assert(task_chapters(rest@).no_duplicates()) by {
                assert forall|a: int, b: int| 0 <= a < b < task_chapters(rest@).len() implies task_chapters(rest@)[a] != task_chapters(rest@)[b] by {
                    assert(task_chapters(rv)[a + 1] == task_chapters(rest@)[a]);
                    assert(task_chapters(rv)[b + 1] == task_chapters(rest@)[b]);
                }
            }
            assert forall|x: i64| task_chapters(rest@).contains(x) implies orig.contains(x) by {
                let k = choose|k: int| 0 <= k < task_chapters(rest@).len() && task_chapters(rest@)[k] == x;
                assert(task_chapters(rv)[k + 1] == x);
                assert(task_chapters(rv).contains(x));
            }
            assert(!task_chapters(rest@).contains(t.chapter_id)) by {
                if task_chapters(rest@).contains(t.chapter_id) {
                    let k = choose|k: int| 0 <= k < task_chapters(rest@).len() && task_chapters(rest@)[k] == t.chapter_id;
                    assert(task_chapters(rv)[k + 1] == t.chapter_id);
                    assert(task_chapters(rv)[0] == t.chapter_id);
                }
            }
            assert(task_chapters(rv).contains(t.chapter_id)) by {
                assert(task_chapters(rv)[0] == t.chapter_id);
            }
            assert forall|x: i64| task_chapters(rest@).contains(x) implies task_chapters(rv).contains(x) by {
                let k = choose|k: int| 0 <= k < task_chapters(rest@).len() && task_chapters(rest@)[k] == x;
                assert(task_chapters(rv)[k + 1] == x);
            }
            if t.chapter_id != chapter_id {
                kept.push(t);
                assert(task_chapters(kept@) == task_chapters(kv).push(t.chapter_id));
                assert(task_chapters(kept@).no_duplicates()) by {
                    assert forall|a: int, b: int| 0 <= a < b < task_chapters(kept@).len() implies task_chapters(kept@)[a] != task_chapters(kept@)[b] by {
                        if b == task_chapters(kept@).len() - 1 {
                            assert(task_chapters(kv).contains(task_chapters(kv)[a]));
                            assert(!task_chapters(rv).contains(task_chapters(kv)[a]));
                        } else {
                            assert(task_chapters(kept@)[a] == task_chapters(kv)[a]);
                            assert(task_chapters(kept@)[b] == task_chapters(kv)[b]);
                        }
                    }
                }
                assert forall|x: i64| task_chapters(kept@).contains(x) implies orig.contains(x) && !task_chapters(rest@).contains(x) by {
                    let k = choose|k: int| 0 <= k < task_chapters(kept@).len() && task_chapters(kept@)[k] == x;
                    if k < task_chapters(kv).len() {
                        assert(task_chapters(kv)[k] == x);
                        assert(task_chapters(kv).contains(x));
                    }
                }
            }
        }
        assert(task_chapters(rest@).filter(pred) =~= Seq::<i64>::empty());
        self.task_queue = kept;
        assert(task_chapters(self.task_queue@) =~= orig.filter(pred));
    }

    /// A worker takes the first waiting task: none when the queue is empty;
    /// a cancelled task is dropped and reported; any other becomes in flight.
    pub fn next_task(&mut self) -> (step: WorkerStep)
        requires
            old(self).wf(),
        ensures
            final(self).wf(),
            final(self)@.cancelled == old(self)@.cancelled,
            final(self)@.workers_spawned == old(self)@.workers_spawned,
            old(self)@.queue.len() == 0 ==> step is Idle && final(self)@ == old(self)@,
            old(self)@.queue.len() > 0 ==> {
                let c = old(self)@.queue[0];
                &&& final(self)@.queue == old(self)@.queue.drop_first()
                &&& final(self).tasks() == old(self).tasks().drop_first()
                &&& if old(self)@.cancelled.contains(c) {
                    &&& final(self)@.in_flight == old(self)@.in_flight
                    &&& step matches WorkerStep::Skip(ImportEvent::Cancelled { source_id, chapter_id })
                        && chapter_id == c && source_id == old(self).tasks()[0].source_id
                } else {
                    &&& final(self)@.in_flight == old(self)@.in_flight.insert(c)
                    &&& step matches WorkerStep::Run(t) && t == old(self).tasks()[0]
                }
            },
    {
        if self.task_queue.len() == 0 {
            return WorkerStep::Idle;
        }
        let ghost before = self.task_queue@;
        let task = self.task_queue.remove(0);
        assert(self.task_queue@ =~= before.drop_first());
        assert(task_chapters(self.task_queue@) =~= task_chapters(before).drop_first());
        assert(task_chapters(self.task_queue@).no_duplicates()) by {
            assert forall|a: int, b: int| 0 <= a < b < task_chapters(self.task_queue@).len() implies task_chapters(self.task_queue@)[a] != task_chapters(self.task_queue@)[b] by {
                assert(task_chapters(before)[a + 1] == task_chapters(self.task_queue@)[a]);
                assert(task_chapters(before)[b + 1] == task_chapters(self.task_queue@)[b]);
            }
        }
        broadcast use vstd::std_specs::hash::group_hash_axioms;
        if self.cancelled.contains(&task.chapter_id) {
            return WorkerStep::Skip(ImportEvent::Cancelled { source_id: task.source_id, chapter_id: task.chapter_id });
        }
        self.in_flight.insert(task.chapter_id);
        WorkerStep::Run(task)
    }

    /// A worker is done with a chapter: it is no longer in flight.
    pub fn finish_task(&mut self, chapter_id: i64)
        requires
            old(self).wf(),
        ensures
            final(self).wf(),
            final(self)@.in_flight == old(self)@.in_flight.remove(chapter_id),
            final(self)@.queue == old(self)@.queue,
            final(self)@.cancelled == old(self)@.cancelled,
            final(self)@.workers_spawned == old(self)@.workers_spawned,
    {
        broadcast use vstd::std_specs::hash::group_hash_axioms;
        self.in_flight.remove(&chapter_id);
    }

    /// The event reporting how a task that ran ended: completed with its
    /// text, or cancelled when its chapter was cancelled meanwhile, else failed.
    pub fn outcome_event(&self, task: &ImportTask, result: Result<i64, String>) -> (r: ImportEvent)
        ensures
            match result {
                Ok(text_id) => r == ImportEvent::Completed {
                    source_id: task.source_id,
                    chapter_id: task.chapter_id,
                    chapter_number: task.chapter_number,
                    text_id,
                },
                Err(e) => if self@.cancelled.contains(task.chapter_id) {
                    r == ImportEvent::Cancelled { source_id: task.source_id, chapter_id: task.chapter_id }
                } else {
                    r == ImportEvent::Failed {
                        source_id: task.source_id,
                        chapter_id: task.chapter_id,
                        chapter_number: task.chapter_number,
                        error: e,
                    }
                },
            },
    {
        match result {
            Ok(text_id) => ImportEvent::Completed {
                source_id: task.source_id,
                chapter_id: task.chapter_id,
                chapter_number: task.chapter_number,
                text_id,
            },
            Err(e) => {
                broadcast use vstd::std_specs::hash::group_hash_axioms;
                if self.cancelled.contains(&task.chapter_id) {
                    ImportEvent::Cancelled { source_id: task.source_id, chapter_id: task.chapter_id }
                } else {
                    ImportEvent::Failed {
                        source_id: task.source_id,
                        chapter_id: task.chapter_id,
                        chapter_number: task.chapter_number,
                        error: e,
                    }
                }
            },
        }
    }
}

/// Only chapters of Syosetu novels are imported in the background; any other
/// source type is refused with an error naming it.
pub fn check_background_source(source_type: &str) -> (r: Result<(), String>)
    ensures
        r is Ok <==> source_type@ == "syosetu"@,
{
    if str_eq(source_type, "syosetu") {
        Ok(())
    } else {
        let mut msg = String::from_str("Background import not supported for source type: ");
        crate::text::push_str(&mut msg, source_type);
        Err(msg)
    }
}

/// A chapter cancelled while queued is no longer queued, whatever was queued before.
pub proof fn law_cancel_leaves_queue(q: Seq<i64>, chapter_id: i64)
    ensures
        !q.filter(|c: i64| c != chapter_id).contains(chapter_id),
{
    let pred = |c: i64| c != chapter_id;
    if q.filter(pred).contains(chapter_id) {
        let k = choose|k: int| 0 <= k < q.filter(pred).len() && q.filter(pred)[k] == chapter_id;
        assert(pred(q.filter(pred)[k]));
    }
}


// ─── Following the imports in the interface ────────────────────────

/// What the interface keeps of the background imports: the chapters being
/// preprocessed with their progress (phase and percent), the chapter to
/// open once it is imported, and the labels of the text imports running.
pub struct ImportTracker {
    pub preprocessing_chapters: HashSet<i64>,
    pub preprocessing_progress: HashMap<i64, (&'static str, u8)>,
    pub pending_open_chapter: Option<i64>,
    pub pending_imports: Vec<String>,
}

/// What the interface tells the user about an import.
pub enum ImportNotice {
    Preprocessing { chapter_number: i32 },
    Ready { chapter_number: i32 },
    Failed { chapter_number: i32, error: String },
    LoadingChapters { page: usize, total_so_far: usize },
    NovelLoaded { title: String },
    NovelFailed { ncode: String, error: String },
    Imported { title: String },
    ImportFailed { label: String, error: String },
}

/// The text of a notice, as the status line shows it.
pub open spec fn notice_text(n: ImportNotice) -> Seq<char> {
    match n {
        ImportNotice::Preprocessing { chapter_number } => "Preprocessing chapter "@ + signed_decimal(
            chapter_number as int,
        ) + "..."@,
        ImportNotice::Ready { chapter_number } => "Chapter "@ + signed_decimal(chapter_number as int) + " ready"@,
        ImportNotice::Failed { chapter_number, error } => "Chapter "@ + signed_decimal(chapter_number as int)
            + " failed: "@ + error@,
        ImportNotice::LoadingChapters { page, total_so_far } => "Loading chapters... page "@ + decimal_digits(
            page as nat,
        ) + ", "@ + decimal_digits(total_so_far as nat) + " so far"@,
        ImportNotice::NovelLoaded { title } => "Loaded: "@ + title@,
        ImportNotice::NovelFailed { ncode, error } => "Failed to load "@ + ncode@ + ": "@ + error@,
        ImportNotice::Imported { title } => "Imported: "@ + title@,
        ImportNotice::ImportFailed { label, error } => "Import failed ("@ + label@ + "): "@ + error@,
    }
}

impl ImportNotice {
    /// The text of the notice: see [`notice_text`].
    pub fn message(&self) -> (r: String)
        ensures
            r@ == notice_text(*self),
    {
        match self {
            ImportNotice::Preprocessing { chapter_number } => {
                let mut s = String::from_str("Preprocessing chapter ");
                push_str(&mut s, integer_text(*chapter_number as i64).as_str());
                push_str(&mut s, "...");
                s
            },
            ImportNotice::Ready { chapter_number } => {
                let mut s = String::from_str("Chapter ");
                push_str(&mut s, integer_text(*chapter_number as i64).as_str());
                push_str(&mut s, " ready");
                s
            },
            ImportNotice::Failed { chapter_number, error } => {
                let mut s = String::from_str("Chapter ");
                push_str(&mut s, integer_text(*chapter_number as i64).as_str());
                push_str(&mut s, " failed: ");
                push_str(&mut s, error.as_str());
                s
            },
            ImportNotice::LoadingChapters { page, total_so_far } => {
                let mut s = String::from_str("Loading chapters... page ");
                push_decimal(&mut s, *page);
                push_str(&mut s, ", ");
                push_decimal(&mut s, *total_so_far);
                push_str(&mut s, " so far");
                s
            },
            ImportNotice::NovelLoaded { title } => {
                let mut s = String::from_str("Loaded: ");
                push_str(&mut s, title.as_str());
                s
            },
            ImportNotice::NovelFailed { ncode, error } => {
                let mut s = String::from_str("Failed to load ");
                push_str(&mut s, ncode.as_str());
                push_str(&mut s, ": ");
                push_str(&mut s, error.as_str());
                s
            },
            ImportNotice::Imported { title } => {
                let mut s = String::from_str("Imported: ");
                push_str(&mut s, title.as_str());
                s
            },
            ImportNotice::ImportFailed { label, error } => {
                let mut s = String::from_str("Import failed (");
                push_str(&mut s, label.as_str());
                push_str(&mut s, "): ");
                push_str(&mut s, error.as_str());
                s
            },
        }
    }
}

/// What the interface does after an import event, in this order: open a
/// text (coming from a source's chapter list), reload the chapter list of a
/// source, set whether that list is still loading, top up the
/// preprocessing queue, refresh the library or home list shown; and the
/// notice to show.
pub struct ImportReaction {
    pub notice: Option<ImportNotice>,
    /// (source id, text id)
    pub open_text: Option<(i64, i64)>,
    pub reload_source: Option<i64>,
    pub loading: Option<bool>,
    pub start_preprocessing: bool,
    pub refresh_list: bool,
}

/// The source whose chapter list is on screen, if any.
pub open spec fn viewed_source(screen: Screen) -> Option<i64> {
    match screen {
        Screen::ChapterSelect { source_id } => Some(source_id),
        _ => None,
    }
}

/// Whether a list of texts (library or home) is on screen.
pub open spec fn on_list_screen(screen: Screen) -> bool {
    screen == Screen::Library || screen == Screen::Home
}

/// The position of the first label equal to `label`, or the number of labels.
pub open spec fn first_label(v: Seq<String>, label: Seq<char>, from: int) -> int
    decreases v.len() - from,
{
    if from < 0 || from >= v.len() {
        v.len() as int
    } else if v[from]@ == label {
        from
    } else {
        first_label(v, label, from + 1)
    }
}

pub open spec fn strings_of(v: Seq<String>) -> Seq<Seq<char>> {
    v.map_values(|s: String| s@)
}

/// A reaction that only shows `notice` (or nothing).
pub open spec fn only_notice(r: ImportReaction) -> bool {
    &&& r.open_text is None
    &&& r.reload_source is None
    &&& r.loading is None
    &&& !r.start_preprocessing
    &&& !r.refresh_list
}

/// How an event moves the tracker from `t` to `u` with reaction `r`, on
/// `screen`: a started chapter is preprocessing at "fetch" 0%; progress is
/// recorded; a finished, failed or cancelled chapter is no longer
/// preprocessing; a finished chapter that was waited for is opened, else
/// the list of its source is reloaded and the queue topped up when it is on
/// screen; a loaded page or novel reloads the list on screen and says
/// whether more is loading; text imports are tracked by their labels, the
/// oldest leaving when one completes and the first with its label when one
/// fails.
pub open spec fn import_step(
    t: ImportTracker,
    screen: Screen,
    event: ImportEvent,
    u: ImportTracker,
    r: ImportReaction,
) -> bool {
    let pre = t.preprocessing_chapters@;
    let prog = t.preprocessing_progress@;
    let viewing = viewed_source(screen);
    match event {
        ImportEvent::Started { chapter_id, chapter_number, .. } => {
            &&& u.preprocessing_chapters@ == pre.insert(chapter_id)
            &&& u.preprocessing_progress@ == prog.insert(chapter_id, ("fetch", 0u8))
            &&& u.pending_open_chapter == t.pending_open_chapter
            &&& u.pending_imports@ == t.pending_imports@
            &&& r.notice matches Some(ImportNotice::Preprocessing { chapter_number: n })
            &&& n == chapter_number
            &&& only_notice(r)
        },
        ImportEvent::Progress { chapter_id, phase, percent } => {
            &&& u.preprocessing_chapters@ == pre
            &&& u.preprocessing_progress@ == prog.insert(chapter_id, (phase, percent))
            &&& u.pending_open_chapter == t.pending_open_chapter
            &&& u.pending_imports@ == t.pending_imports@
            &&& r.notice is None
            &&& only_notice(r)
        },
        ImportEvent::Completed { source_id, chapter_id, chapter_number, text_id } => {
            &&& u.preprocessing_chapters@ == pre.remove(chapter_id)
            &&& u.preprocessing_progress@ == prog.remove(chapter_id)
            &&& u.pending_imports@ == t.pending_imports@
            &&& r.notice matches Some(ImportNotice::Ready { chapter_number: n })
            &&& n == chapter_number
            &&& r.loading is None
            &&& !r.refresh_list
            &&& if t.pending_open_chapter == Some(chapter_id) {
                &&& u.pending_open_chapter is None
                &&& r.open_text == Some((source_id, text_id))
                &&& r.reload_source is None
                &&& !r.start_preprocessing
            } else {
                &&& u.pending_open_chapter == t.pending_open_chapter
                &&& r.open_text is None
                &&& if viewing == Some(source_id) {
                    r.reload_source == Some(source_id) && r.start_preprocessing
                } else {
                    r.reload_source is None && !r.start_preprocessing
                }
            }
        },
        ImportEvent::Failed { chapter_id, chapter_number, error, .. } => {
            &&& u.preprocessing_chapters@ == pre.remove(chapter_id)
            &&& u.preprocessing_progress@ == prog.remove(chapter_id)
            &&& u.pending_open_chapter == t.pending_open_chapter
            &&& u.pending_imports@ == t.pending_imports@
            &&& r.notice matches Some(ImportNotice::Failed { chapter_number: n, error: e })
            &&& n == chapter_number
            &&& e@ == error@
            &&& only_notice(r)
        },
        ImportEvent::Cancelled { chapter_id, .. } => {
            &&& u.preprocessing_chapters@ == pre.remove(chapter_id)
            &&& u.preprocessing_progress@ == prog.remove(chapter_id)
            &&& u.pending_open_chapter == t.pending_open_chapter
            &&& u.pending_imports@ == t.pending_imports@
            &&& r.notice is None
            &&& only_notice(r)
        },
        ImportEvent::ChaptersPageLoaded { source_id, page, total_so_far, has_next } => {
            &&& u.preprocessing_chapters@ == pre
            &&& u.preprocessing_progress@ == prog
            &&& u.pending_open_chapter == t.pending_open_chapter
            &&& u.pending_imports@ == t.pending_imports@
            &&& r.open_text is None
            &&& !r.start_preprocessing
            &&& !r.refresh_list
            &&& if viewing == Some(source_id) {
                r.reload_source == Some(source_id) && r.loading == Some(has_next)
            } else {
                r.reload_source is None && r.loading is None
            }
            &&& if has_next {
                &&& r.notice matches Some(ImportNotice::LoadingChapters { page: p, total_so_far: n })
                &&& p == page
                &&& n == total_so_far
            } else {
                r.notice is None
            }
        },
        ImportEvent::NovelInfoLoaded { source_id, title } => {
            &&& u.preprocessing_chapters@ == pre
            &&& u.preprocessing_progress@ == prog
            &&& u.pending_open_chapter == t.pending_open_chapter
            &&& u.pending_imports@ == t.pending_imports@
            &&& r.notice matches Some(ImportNotice::NovelLoaded { title: x })
            &&& x@ == title@
            &&& r.open_text is None
            &&& !r.refresh_list
            &&& if viewing == Some(source_id) {
                r.reload_source == Some(source_id) && r.loading == Some(false) && r.start_preprocessing
            } else {
                r.reload_source is None && r.loading is None && !r.start_preprocessing
            }
        },
        ImportEvent::NovelInfoFailed { ncode, error } => {
            &&& u.preprocessing_chapters@ == pre
            &&& u.preprocessing_progress@ == prog
            &&& u.pending_open_chapter == t.pending_open_chapter
            &&& u.pending_imports@ == t.pending_imports@
            &&& r.notice matches Some(ImportNotice::NovelFailed { ncode: c, error: e })
            &&& c@ == ncode@
            &&& e@ == error@
            &&& only_notice(r)
        },
        ImportEvent::TextImportStarted { label } => {
            &&& u.preprocessing_chapters@ == pre
            &&& u.preprocessing_progress@ == prog
            &&& u.pending_open_chapter == t.pending_open_chapter
            &&& strings_of(u.pending_imports@) == strings_of(t.pending_imports@).push(label@)
            &&& r.notice is None
            &&& only_notice(r)
        },
        ImportEvent::TextImportCompleted { title } => {
            &&& u.preprocessing_chapters@ == pre
            &&& u.preprocessing_progress@ == prog
            &&& u.pending_open_chapter == t.pending_open_chapter
            &&& u.pending_imports@ == if t.pending_imports@.len() > 0 {
                t.pending_imports@.drop_first()
            } else {
                t.pending_imports@
            }
            &&& r.notice matches Some(ImportNotice::Imported { title: x })
            &&& x@ == title@
            &&& r.open_text is None
            &&& r.reload_source is None
            &&& r.loading is None
            &&& !r.start_preprocessing
            &&& r.refresh_list == on_list_screen(screen)
        },
        ImportEvent::TextImportFailed { label, error } => {
            let k = first_label(t.pending_imports@, label@, 0);
            &&& u.preprocessing_chapters@ == pre
            &&& u.preprocessing_progress@ == prog
            &&& u.pending_open_chapter == t.pending_open_chapter
            &&& u.pending_imports@ == if k < t.pending_imports@.len() {
                t.pending_imports@.remove(k)
            } else {
                t.pending_imports@
            }
            &&& r.notice matches Some(ImportNotice::ImportFailed { label: l, error: e })
            &&& l@ == label@
            &&& e@ == error@
            &&& only_notice(r)
        },
    }
}

fn quiet_reaction(notice: Option<ImportNotice>) -> (r: ImportReaction)
    ensures
        only_notice(r),
        r.notice == notice,
{
    ImportReaction {
        notice,
        open_text: None,
        reload_source: None,
        loading: None,
        start_preprocessing: false,
        refresh_list: false,
    }
}

fn viewing_source(screen: &Screen) -> (r: Option<i64>)
    ensures
        r == viewed_source(*screen),
{
    match screen {
        Screen::ChapterSelect { source_id } => Some(*source_id),
        _ => None,
    }
}

impl ImportTracker {
    /// Nothing preprocessing, waiting or importing.
    pub fn new() -> (r: Self)
        ensures
            r.preprocessing_chapters@ == Set::<i64>::empty(),
            r.preprocessing_progress@ == Map::<i64, (&'static str, u8)>::empty(),
            r.pending_open_chapter is None,
            r.pending_imports@.len() == 0,
    {
        ImportTracker {
            preprocessing_chapters: HashSet::new(),
            preprocessing_progress: HashMap::new(),
            pending_open_chapter: None,
            pending_imports: Vec::new(),
        }
    }

    /// Takes in an event from the background workers on `screen`: updates
    /// what is being processed and says what the interface does.
    pub fn handle_import_event(&mut self, screen: &Screen, event: ImportEvent) -> (r: ImportReaction)
        ensures
            import_step(*old(self), *screen, event, *final(self), r),
    {
        broadcast use vstd::std_specs::hash::group_hash_axioms;

        let viewing = viewing_source(screen);
        match event {
            ImportEvent::Started { chapter_id, chapter_number, .. } => {
                self.preprocessing_chapters.insert(chapter_id);
                self.preprocessing_progress.insert(chapter_id, ("fetch", 0u8));
                quiet_reaction(Some(ImportNotice::Preprocessing { chapter_number }))
            },
            ImportEvent::Progress { chapter_id, phase, percent } => {
                self.preprocessing_progress.insert(chapter_id, (phase, percent));
                quiet_reaction(None)
            },
            ImportEvent::Completed { source_id, chapter_id, chapter_number, text_id } => {
                self.preprocessing_chapters.remove(&chapter_id);
                self.preprocessing_progress.remove(&chapter_id);
                let notice = Some(ImportNotice::Ready { chapter_number });
                if self.pending_open_chapter == Some(chapter_id) {
                    self.pending_open_chapter = None;
                    return ImportReaction {
                        notice,
                        open_text: Some((source_id, text_id)),
                        reload_source: None,
                        loading: None,
                        start_preprocessing: false,
                        refresh_list: false,
                    };
                }
                let here = viewing == Some(source_id);
                ImportReaction {
                    notice,
                    open_text: None,
                    reload_source: if here {
                        Some(source_id)
                    } else {
                        None
                    },
                    loading: None,
                    start_preprocessing: here,
                    refresh_list: false,
                }
            },
            ImportEvent::Failed { chapter_id, chapter_number, error, .. } => {
                self.preprocessing_chapters.remove(&chapter_id);
                self.preprocessing_progress.remove(&chapter_id);
                quiet_reaction(Some(ImportNotice::Failed { chapter_number, error }))
            },
            ImportEvent::Cancelled { chapter_id, .. } => {
                self.preprocessing_chapters.remove(&chapter_id);
                self.preprocessing_progress.remove(&chapter_id);
                quiet_reaction(None)
            },
            ImportEvent::ChaptersPageLoaded { source_id, page, total_so_far, has_next } => {
                let here = viewing == Some(source_id);
                ImportReaction {
                    notice: if has_next {
                        Some(ImportNotice::LoadingChapters { page, total_so_far })
                    } else {
                        None
                    },
                    open_text: None,
                    reload_source: if here {
                        Some(source_id)
                    } else {
                        None
                    },
                    loading: if here {
                        Some(has_next)
                    } else {
                        None
                    },
                    start_preprocessing: false,
                    refresh_list: false,
                }
            },
            ImportEvent::NovelInfoLoaded { source_id, title } => {
                let here = viewing == Some(source_id);
                ImportReaction {
                    notice: Some(ImportNotice::NovelLoaded { title }),
                    open_text: None,
                    reload_source: if here {
                        Some(source_id)
                    } else {
                        None
                    },
                    loading: if here {
                        Some(false)
                    } else {
                        None
                    },
                    start_preprocessing: here,
                    refresh_list: false,
                }
            },
            ImportEvent::NovelInfoFailed { ncode, error } => {
                quiet_reaction(Some(ImportNotice::NovelFailed { ncode, error }))
            },
            ImportEvent::TextImportStarted { label } => {
                let ghost before = self.pending_imports@;
                self.pending_imports.push(label);
                assert(strings_of(self.pending_imports@) == strings_of(before).push(
                    self.pending_imports@.last()@,
                ));
                quiet_reaction(None)
            },
            ImportEvent::TextImportCompleted { title } => {
                if self.pending_imports.len() > 0 {
                    self.pending_imports.remove(0);
                }
                let list = match screen {
                    Screen::Library | Screen::Home => true,
                    _ => false,
                };
                ImportReaction {
                    notice: Some(ImportNotice::Imported { title }),
                    open_text: None,
                    reload_source: None,
                    loading: None,
                    start_preprocessing: false,
                    refresh_list: list,
                }
            },
            ImportEvent::TextImportFailed { label, error } => {
                let ghost v = self.pending_imports@;
                let mut k: usize = 0;
                while k < self.pending_imports.len() && !str_eq(self.pending_imports[k].as_str(), label.as_str())
                    invariant
                        k <= v.len(),
                        v == self.pending_imports@,
                        first_label(v, label@, 0) == first_label(v, label@, k as int),
                    decreases v.len() - k,
                {
                    k += 1;
                }
                if k < self.pending_imports.len() {
                    self.pending_imports.remove(k);
                }
                quiet_reaction(Some(ImportNotice::ImportFailed { label, error }))
            },
        }
    }
}

} // verus!
