//! Where a key goes, and the panels of the home and statistics screens:
//! an open popup takes every key, a few keys act on every screen, and the
//! rest go to the screen shown. The home screen's activity grid has a
//! cursor that moves by day and by week; the statistics screen switches
//! between its overview and its list of texts.
use vstd::prelude::*;
use vstd::arithmetic::div_mod::{lemma_fundamental_div_mod, lemma_fundamental_div_mod_converse};
use vstd::arithmetic::mul::{lemma_mul_is_commutative, lemma_mul_is_distributive_add, lemma_mul_inequality};
use crate::screens::{moved_selection, Screen};

verus! {

// ─── Routing ────────────────────────────────────────────────────────

/// A key as far as the keys for every screen go.
#[derive(Debug, Clone, Copy, PartialEq, Eq, Structural)]
pub enum GlobalKey {
    Char(char),
    /// A character typed with Control held.
    CtrlChar(char),
    Tab,
    BackTab,
    Other,
}

/// Who handles a key.
#[derive(Debug, Clone, Copy, PartialEq, Eq, Structural)]
pub enum KeyRoute {
    /// The open popup.
    Popup,
    /// The program ends.
    Quit,
    /// Ask before quitting, a text being open.
    ConfirmQuit,
    /// The screen shown.
    Screen,
    /// Tab in the reader: back to the screen it was opened from.
    BackFromReader,
    /// Tab elsewhere: open the text read last.
    OpenRecentText,
    /// The help popup.
    Help,
    /// Nobody.
    Ignore,
}

/// The screens whose panels Tab switches between.
pub open spec fn has_panels(screen: Screen) -> bool {
    screen == Screen::Settings || screen == Screen::CardBrowser || screen == Screen::Home || screen
        == Screen::Stats
}

/// Who handles `key` on `screen`: an open popup takes every key; Control-C
/// quits; `q` quits, after asking when a text is open in the reader; Tab
/// switches panels where there are panels and otherwise goes between the
/// reader and the other screens; `?` shows the help; the screen takes the rest.
pub open spec fn route_of(popup_open: bool, screen: Screen, text_open: bool, key: GlobalKey) -> KeyRoute {
    if popup_open {
        KeyRoute::Popup
    } else {
        match key {
            GlobalKey::CtrlChar('c') => KeyRoute::Quit,
            GlobalKey::Char('q') | GlobalKey::CtrlChar('q') => if screen == Screen::Reader && text_open {
                KeyRoute::ConfirmQuit
            } else {
                KeyRoute::Quit
            },
            GlobalKey::Tab | GlobalKey::BackTab => if has_panels(screen) {
                KeyRoute::Screen
            } else if key == GlobalKey::BackTab {
                KeyRoute::Ignore
            } else if screen == Screen::Reader {
                KeyRoute::BackFromReader
            } else {
                KeyRoute::OpenRecentText
            },
            GlobalKey::Char('?') | GlobalKey::CtrlChar('?') => KeyRoute::Help,
            _ => KeyRoute::Screen,
        }
    }
}

/// Who handles a key: see [`route_of`]. `text_open` says whether the reader
/// holds a text.
pub fn route_key(popup_open: bool, screen: &Screen, text_open: bool, key: GlobalKey) -> (r: KeyRoute)
    ensures
        r == route_of(popup_open, *screen, text_open, key),
{
    if popup_open {
        return KeyRoute::Popup;
    }
    match key {
        GlobalKey::CtrlChar('c') => KeyRoute::Quit,
        GlobalKey::Char('q') | GlobalKey::CtrlChar('q') => {
            let in_reader = match screen {
                Screen::Reader => true,
                _ => false,
            };
            if in_reader && text_open {
                KeyRoute::ConfirmQuit
            } else {
                KeyRoute::Quit
            }
        },
        GlobalKey::Tab | GlobalKey::BackTab => {
            let panels = match screen {
                Screen::Settings | Screen::CardBrowser | Screen::Home | Screen::Stats => true,
                _ => false,
            };
            if panels {
                KeyRoute::Screen
            } else if key == GlobalKey::BackTab {
                KeyRoute::Ignore
            } else {
                match screen {
                    Screen::Reader => KeyRoute::BackFromReader,
                    _ => KeyRoute::OpenRecentText,
                }
            }
        },
        GlobalKey::Char('?') | GlobalKey::CtrlChar('?') => KeyRoute::Help,
        _ => KeyRoute::Screen,
    }
}

/// What has to be reloaded on coming back from the reader.
#[derive(Debug, Clone, Copy, PartialEq, Eq, Structural)]
pub enum Reload {
    Library,
    Home,
    Chapters { source_id: i64 },
    Nothing,
}

/// Leaving the reader: back to the screen it was opened from (the home
/// screen when none is known), with what that screen has to reload.
pub fn back_from_reader(previous: Option<Screen>) -> (r: (Screen, Reload))
    ensures
        r.0 == match previous {
            Some(s) => s,
            None => Screen::Home,
        },
        r.1 == match r.0 {
            Screen::Library => Reload::Library,
            Screen::Home => Reload::Home,
            Screen::ChapterSelect { source_id } => Reload::Chapters { source_id },
            _ => Reload::Nothing,
        },
{
    let target = match previous {
        Some(s) => s,
        None => Screen::Home,
    };
    let reload = match &target {
        Screen::Library => Reload::Library,
        Screen::Home => Reload::Home,
        Screen::ChapterSelect { source_id } => Reload::Chapters { source_id: *source_id },
        _ => Reload::Nothing,
    };
    (target, reload)
}

// ─── The home screen's panels ───────────────────────────────────────

/// The panel of the home screen that takes the keys.
#[derive(Debug, Clone, Copy, PartialEq, Eq, Structural)]
pub enum HomeFocus {
    Heatmap,
    TextList,
}

/// The other panel (Tab on the home screen).
pub fn toggled_home_focus(f: HomeFocus) -> (r: HomeFocus)
    ensures
        r != f,
{
    match f {
        HomeFocus::Heatmap => HomeFocus::TextList,
        HomeFocus::TextList => HomeFocus::Heatmap,
    }
}

/// The activity grid: `cells` days laid out in seven rows of weeks, day
/// `cursor` selected.
#[derive(Debug, Clone, Copy, PartialEq, Eq, Structural)]
pub struct HeatmapCursor {
    pub cells: usize,
    pub cursor: usize,
}

/// A key on the activity grid.
#[derive(Debug, Clone, Copy, PartialEq, Eq, Structural)]
pub enum HeatmapKey {
    /// Left or `h`.
    Left,
    /// Right or `l`.
    Right,
    /// Up or `k`.
    Up,
    /// Down or `j`.
    Down,
    Other,
}

/// The grid's columns.
pub open spec fn weeks_of(c: HeatmapCursor) -> int {
    (c.cells / 7) as int
}

/// The cursor after a key: it moves one column (Left, Right) within its row,
/// or one row (Up, Down) within its column and the seven rows; nothing moves
/// in a grid without a whole week.
pub open spec fn heatmap_after_key(c: HeatmapCursor, key: HeatmapKey) -> HeatmapCursor {
    let weeks = weeks_of(c);
    if weeks == 0 {
        c
    } else {
        let row = c.cursor as int / weeks;
        let col = c.cursor as int % weeks;
        match key {
            HeatmapKey::Left => if col > 0 {
                HeatmapCursor { cursor: (row * weeks + col - 1) as usize, ..c }
            } else {
                c
            },
            HeatmapKey::Right => if col + 1 < weeks {
                HeatmapCursor { cursor: (row * weeks + col + 1) as usize, ..c }
            } else {
                c
            },
            HeatmapKey::Up => if row > 0 {
                HeatmapCursor { cursor: ((row - 1) * weeks + col) as usize, ..c }
            } else {
                c
            },
            HeatmapKey::Down => if row + 1 < 7 {
                HeatmapCursor { cursor: ((row + 1) * weeks + col) as usize, ..c }
            } else {
                c
            },
            HeatmapKey::Other => c,
        }
    }
}

/// The day a move leads to can be counted.
pub open spec fn heatmap_key_fits(c: HeatmapCursor, key: HeatmapKey) -> bool {
    match key {
        HeatmapKey::Right => c.cursor < usize::MAX,
        HeatmapKey::Down => c.cursor + weeks_of(c) <= usize::MAX,
        _ => true,
    }
}

proof fn lemma_row_col(cursor: int, weeks: int)
    requires
        cursor >= 0,
        weeks > 0,
    ensures
        (cursor / weeks) * weeks + cursor % weeks == cursor,
        0 <= cursor % weeks < weeks,
        cursor / weeks >= 0,
{
    lemma_fundamental_div_mod(cursor, weeks);
    lemma_mul_is_commutative(weeks, cursor / weeks);
}

/// Moves the cursor of the activity grid; other keys are left to the home
/// screen's common keys, and the result says whether the key was a move.
pub fn heatmap_key(c: &mut HeatmapCursor, key: HeatmapKey) -> (moved_key: bool)
    requires
        heatmap_key_fits(*old(c), key),
    ensures
        *final(c) == heatmap_after_key(*old(c), key),
        moved_key == (key != HeatmapKey::Other),
{
    let weeks = c.cells / 7;
    if key == HeatmapKey::Other {
        return false;
    }
    if weeks == 0 {
        return true;
    }
    let row = c.cursor / weeks;
    let col = c.cursor % weeks;
    proof {
        lemma_row_col(c.cursor as int, weeks as int);
        lemma_mul_is_distributive_add(weeks as int, row as int, 1);
        lemma_mul_is_commutative(weeks as int, row as int + 1);
        lemma_mul_is_commutative(weeks as int, row as int);
    }
    match key {
        HeatmapKey::Left => {
            if col > 0 {
                c.cursor = c.cursor - 1;
            }
        },
        HeatmapKey::Right => {
            if col + 1 < weeks {
                c.cursor = c.cursor + 1;
            }
        },
        HeatmapKey::Up => {
            if row > 0 {
                proof {
                    lemma_mul_is_distributive_add(weeks as int, row as int - 1, 1);
                    lemma_mul_is_commutative(weeks as int, row as int - 1);
                }
                c.cursor = c.cursor - weeks;
            }
        },
        HeatmapKey::Down => {
            if row < 6 {
                c.cursor = c.cursor + weeks;
            }
        },
        HeatmapKey::Other => {},
    }
    true
}

/// The cursor is on a day of the grid's seven rows.
pub open spec fn in_grid(c: HeatmapCursor) -> bool {
    c.cursor < 7 * weeks_of(c)
}

/// The moves of the activity grid keep the cursor on the grid; moving left
/// or right keeps its row (its weekday), moving up or down keeps its column
/// (its week).
pub proof fn law_heatmap_moves_stay_on_the_grid(c: HeatmapCursor, key: HeatmapKey)
    requires
        in_grid(c),
        heatmap_key_fits(c, key),
    ensures
        in_grid(heatmap_after_key(c, key)),
        weeks_of(c) > 0 && (key == HeatmapKey::Left || key == HeatmapKey::Right) ==> heatmap_after_key(c, key).cursor
            as int / weeks_of(c) == c.cursor as int / weeks_of(c),
        weeks_of(c) > 0 && (key == HeatmapKey::Up || key == HeatmapKey::Down) ==> heatmap_after_key(c, key).cursor
            as int % weeks_of(c) == c.cursor as int % weeks_of(c),
{
    let weeks = weeks_of(c);
    if weeks > 0 {
        let cur = c.cursor as int;
        let row = cur / weeks;
        let col = cur % weeks;
        lemma_row_col(cur, weeks);
        if row >= 7 {
            lemma_mul_inequality(7, row, weeks);
            lemma_mul_is_commutative(7, weeks);
            assert(false);
        }
        let n = heatmap_after_key(c, key).cursor as int;
        match key {
            HeatmapKey::Left => if col > 0 {
                lemma_fundamental_div_mod_converse(n, weeks, row, col - 1);
            },
            HeatmapKey::Right => if col + 1 < weeks {
                lemma_fundamental_div_mod_converse(n, weeks, row, col + 1);
                lemma_mul_is_distributive_add(weeks, row, 1);
                lemma_mul_is_commutative(weeks, row + 1);
                lemma_mul_is_commutative(weeks, row);
                lemma_mul_inequality(row + 1, 7, weeks);
            },
            HeatmapKey::Up => if row > 0 {
                lemma_mul_is_distributive_add(weeks, row - 1, 1);
                lemma_mul_is_commutative(weeks, row - 1);
                lemma_mul_is_commutative(weeks, row);
                assert((row - 1) * weeks + col == cur - weeks);
                lemma_fundamental_div_mod_converse(n, weeks, row - 1, col);
                lemma_mul_inequality(row - 1, 7, weeks);
            },
            HeatmapKey::Down => if row + 1 < 7 {
                lemma_mul_is_distributive_add(weeks, row, 1);
                lemma_mul_is_commutative(weeks, row);
                assert((row + 1) * weeks + col == cur + weeks);
                lemma_fundamental_div_mod_converse(n, weeks, row + 1, col);
                lemma_mul_is_distributive_add(weeks, row + 1, 1);
                lemma_mul_is_commutative(weeks, row + 2);
                lemma_mul_is_commutative(weeks, row + 1);
                lemma_mul_inequality(row + 2, 7, weeks);
            },
            HeatmapKey::Other => {},
        }
    }
}

// ─── The statistics screen ──────────────────────────────────────────

/// The panel of the statistics screen that takes the keys.
#[derive(Debug, Clone, Copy, PartialEq, Eq, Structural)]
pub enum StatsFocus {
    Overview,
    Coverage,
}

/// Where the statistics screen stands: the panel with the keys, the text
/// selected in the coverage list, and how far the overview is scrolled.
#[derive(Debug, Clone, Copy, PartialEq, Eq, Structural)]
pub struct StatsCursor {
    pub focus: StatsFocus,
    pub coverage_selected: usize,
    pub scroll: usize,
}

/// A key on the statistics screen.
#[derive(Debug, Clone, Copy, PartialEq, Eq, Structural)]
pub enum StatsKey {
    /// Tab or BackTab: the other panel.
    SwitchPanel,
    /// `t`: the next time range.
    TimeRange,
    /// Up or `k`.
    Up,
    /// Down or `j`.
    Down,
    /// Enter: open the selected text.
    Open,
    /// Escape: back.
    Back,
    Other,
}

/// What the program does after a key on the statistics screen.
#[derive(Debug, Clone, Copy, PartialEq, Eq, Structural)]
pub enum StatsAction {
    Nothing,
    /// Load the statistics for the next time range.
    NextTimeRange,
    /// Open this text in the reader.
    OpenText { text_id: i64 },
    /// Back to the previous screen.
    Back,
}

/// The statistics screen after a key: Tab switches panels; Up and Down move
/// the coverage list's selection, or scroll the overview.
pub open spec fn stats_after_key(c: StatsCursor, key: StatsKey, coverage_len: nat) -> StatsCursor {
    match key {
        StatsKey::SwitchPanel => StatsCursor {
            focus: match c.focus {
                StatsFocus::Overview => StatsFocus::Coverage,
                StatsFocus::Coverage => StatsFocus::Overview,
            },
            ..c
        },
        StatsKey::Up => match c.focus {
            StatsFocus::Coverage => StatsCursor {
                coverage_selected: moved_selection(c.coverage_selected, coverage_len, true),
                ..c
            },
            StatsFocus::Overview => StatsCursor { scroll: if c.scroll > 0 { (c.scroll - 1) as usize } else { 0 }, ..c },
        },
        StatsKey::Down => match c.focus {
            StatsFocus::Coverage => StatsCursor {
                coverage_selected: moved_selection(c.coverage_selected, coverage_len, false),
                ..c
            },
            StatsFocus::Overview => StatsCursor { scroll: (c.scroll + 1) as usize, ..c },
        },
        _ => c,
    }
}

/// What a key on the statistics screen asks for: `coverage_ids` are the
/// texts of the coverage list.
pub open spec fn stats_key_action(c: StatsCursor, key: StatsKey, coverage_ids: Seq<i64>) -> StatsAction {
    match key {
        StatsKey::TimeRange => StatsAction::NextTimeRange,
        StatsKey::Open => if c.focus == StatsFocus::Coverage && c.coverage_selected < coverage_ids.len() {
            StatsAction::OpenText { text_id: coverage_ids[c.coverage_selected as int] }
        } else {
            StatsAction::Nothing
        },
        StatsKey::Back => StatsAction::Back,
        _ => StatsAction::Nothing,
    }
}

/// Handles a key on the statistics screen.
pub fn stats_key(c: &mut StatsCursor, key: StatsKey, coverage_ids: &Vec<i64>) -> (r: StatsAction)
    requires
        key == StatsKey::Down && old(c).focus == StatsFocus::Overview ==> old(c).scroll < usize::MAX,
    ensures
        *final(c) == stats_after_key(*old(c), key, coverage_ids@.len()),
        r == stats_key_action(*old(c), key, coverage_ids@),
{
    match key {
        StatsKey::SwitchPanel => {
            c.focus = match c.focus {
                StatsFocus::Overview => StatsFocus::Coverage,
                StatsFocus::Coverage => StatsFocus::Overview,
            };
            StatsAction::Nothing
        },
        StatsKey::TimeRange => StatsAction::NextTimeRange,
        StatsKey::Up => {
            match c.focus {
                StatsFocus::Coverage => c.coverage_selected = c.coverage_selected.saturating_sub(1),
                StatsFocus::Overview => c.scroll = c.scroll.saturating_sub(1),
            }
            StatsAction::Nothing
        },
        StatsKey::Down => {
            match c.focus {
                StatsFocus::Coverage => {
                    let max = coverage_ids.len().saturating_sub(1);
                    c.coverage_selected = if c.coverage_selected < max {
                        c.coverage_selected + 1
                    } else {
                        max
                    };
                },
                StatsFocus::Overview => c.scroll = c.scroll + 1,
            }
            StatsAction::Nothing
        },
        StatsKey::Open => {
            if c.focus == StatsFocus::Coverage && c.coverage_selected < coverage_ids.len() {
                StatsAction::OpenText { text_id: coverage_ids[c.coverage_selected] }
            } else {
                StatsAction::Nothing
            }
        },
        StatsKey::Back => StatsAction::Back,
        StatsKey::Other => StatsAction::Nothing,
    }
}

} // verus!
