//! Keys of the review session, the card browser and the settings screen:
//! each screen's state moves by a key, and the key names what the program
//! has to do next (rate a card, save the settings, leave the screen).
use vstd::prelude::*;
use crate::srs::Rating;
use crate::text::{popped, pop_char, str_eq, decimal_digits};
use crate::screens::first_position;
use crate::dictionary::{parse_i64, i64_of, lemma_decimal_digits, is_decimal, unsigned_part, signed_value, is_negative, all_digits, decimal_value};

verus! {

// ─── The review session ─────────────────────────────────────────────

/// Where a review session stands.
#[derive(Debug, Clone, Copy, PartialEq, Eq, Structural)]
pub enum ReviewPhase {
    /// The session's overview, before the first card.
    PreSession,
    /// The front of a card is shown.
    ShowFront,
    /// The back of a card is shown.
    ShowBack,
    /// The typed answer has been checked.
    ShowResult,
    /// The reading is being typed.
    TypingAnswer,
    /// All cards are done.
    SessionSummary,
}

/// A card in the review queue, with the sentence it was met in.
pub struct ReviewCard {
    pub card_id: i64,
    pub sentence_text: String,
    pub sentence_tokens: Vec<String>,
}

/// A review session.
pub struct ReviewState {
    pub phase: ReviewPhase,
    pub queue: Vec<ReviewCard>,
    pub current_index: usize,
    /// The word of the card's sentence that is selected, if any.
    pub context_word_index: Option<usize>,
    /// What was typed as the card's reading.
    pub typed_input: String,
    /// The rating that the typed answer earned.
    pub auto_rating: Option<Rating>,
}

/// A key pressed during a review.
#[derive(Debug, Clone, Copy, PartialEq, Eq, Structural)]
pub enum ReviewKey {
    Enter,
    Esc,
    Left,
    Right,
    Backspace,
    Char(char),
    /// A character typed with Control held.
    CtrlChar(char),
    Other,
}

/// What the program does after a key during a review.
pub enum ReviewAction {
    Nothing,
    /// Start showing the queue's cards.
    Begin,
    /// The session is closed: back to the previous screen.
    Leave,
    /// Show the back of the card.
    Reveal,
    /// Show the dictionary entry of the selected word.
    OpenWordDetail,
    /// Ask the language model about the card's sentence.
    AnalyzeSentence { sentence: String },
    /// The card has no sentence to analyse.
    NoSentence,
    /// Rate the card.
    Rate { rating: Rating },
    /// Check the typed reading.
    SubmitTyped,
    /// Start another session.
    NewSession,
}

/// The card being reviewed, if the queue has one at the current index.
pub open spec fn current_card(s: ReviewState) -> Option<ReviewCard> {
    if s.current_index < s.queue@.len() {
        Some(s.queue@[s.current_index as int])
    } else {
        None
    }
}

/// The character of a key that writes one.
pub open spec fn key_char(key: ReviewKey) -> Option<char> {
    match key {
        ReviewKey::Char(c) => Some(c),
        ReviewKey::CtrlChar(c) => Some(c),
        _ => None,
    }
}

/// Moving the selected word one to the left (the first word when none is selected).
pub open spec fn word_left(i: Option<usize>) -> Option<usize> {
    match i {
        Some(k) => Some(if k > 0 { (k - 1) as usize } else { 0 }),
        None => Some(0),
    }
}

/// Moving the selected word one to the right, up to the sentence's last word
/// (the first word when none is selected); nothing moves without a card.
pub open spec fn word_right(s: ReviewState) -> Option<usize> {
    match current_card(s) {
        Some(card) => {
            let n = card.sentence_tokens@.len();
            let max: int = if n > 0 { n - 1 } else { 0 };
            match s.context_word_index {
                Some(k) => Some(if k + 1 < max { (k + 1) as usize } else { max as usize }),
                None => Some(0),
            }
        },
        None => s.context_word_index,
    }
}

/// The review after the selected word moved.
pub open spec fn with_word(s: ReviewState, w: Option<usize>) -> ReviewState {
    ReviewState { context_word_index: w, ..s }
}

/// The answer to Control-L: the card's sentence, when it has one.
pub open spec fn analysis_action(s: ReviewState, action: ReviewAction) -> bool {
    match current_card(s) {
        Some(card) => if card.sentence_text@.len() > 0 {
            action matches ReviewAction::AnalyzeSentence { sentence } && sentence@ == card.sentence_text@
        } else {
            action is NoSentence
        },
        None => action is NoSentence,
    }
}

/// The keys that a shown card (front or back) shares: Escape leaves, Left or
/// `h` and Right move the selected word, Control-L asks for an analysis.
pub open spec fn card_common_step(s: ReviewState, key: ReviewKey, next: Option<ReviewState>, action: ReviewAction) -> bool {
    match key {
        ReviewKey::Esc => next is None && action is Leave,
        ReviewKey::Left | ReviewKey::Char('h') | ReviewKey::CtrlChar('h') => next == Some(
            with_word(s, word_left(s.context_word_index)),
        ) && action is Nothing,
        ReviewKey::Right => next == Some(with_word(s, word_right(s))) && action is Nothing,
        ReviewKey::CtrlChar('l') => next == Some(s) && analysis_action(s, action),
        _ => next == Some(s) && action is Nothing,
    }
}

/// `next` is the review `s` with the typed reading changed to `input`.
pub open spec fn typed(s: ReviewState, next: Option<ReviewState>, input: Seq<char>) -> bool {
    match next {
        Some(t) => t.typed_input@ == input && t == (ReviewState { typed_input: t.typed_input, ..s }),
        None => false,
    }
}

/// The rating that a digit key gives on the back of a card.
pub open spec fn digit_rating(c: char) -> Option<Rating> {
    if c == '1' {
        Some(Rating::Again)
    } else if c == '2' {
        Some(Rating::Hard)
    } else if c == '3' || c == ' ' {
        Some(Rating::Good)
    } else if c == '4' {
        Some(Rating::Easy)
    } else {
        None
    }
}

/// What one key does to the review `state` (none: the session is over), as
/// the new state and the action.
pub open spec fn review_step(
    state: Option<ReviewState>,
    key: ReviewKey,
    next: Option<ReviewState>,
    action: ReviewAction,
) -> bool {
    let phase = match state {
        Some(s) => s.phase,
        None => ReviewPhase::SessionSummary,
    };
    match phase {
        ReviewPhase::PreSession => match key {
            ReviewKey::Enter | ReviewKey::Char(' ') | ReviewKey::CtrlChar(' ') => next == state
                && action is Begin,
            ReviewKey::Esc => next is None && action is Leave,
            _ => next == state && action is Nothing,
        },
        ReviewPhase::ShowFront => {
            let s = state->0;
            match key {
                ReviewKey::Char(' ') | ReviewKey::CtrlChar(' ') => next == state && action is Reveal,
                ReviewKey::Enter => next == state && if s.context_word_index is Some {
                    action is OpenWordDetail
                } else {
                    action is Reveal
                },
                _ => card_common_step(s, key, next, action),
            }
        },
        ReviewPhase::ShowBack | ReviewPhase::ShowResult => {
            let s = state->0;
            if key_char(key) is Some && digit_rating(key_char(key)->0) is Some {
                next == state && action == (ReviewAction::Rate { rating: digit_rating(key_char(key)->0)->0 })
            } else {
                match key {
                    ReviewKey::Enter => next == state && match s.auto_rating {
                        Some(r) => action == (ReviewAction::Rate { rating: r }),
                        None => action is Nothing,
                    },
                    _ => card_common_step(s, key, next, action),
                }
            }
        },
        ReviewPhase::TypingAnswer => {
            let s = state->0;
            match key {
                ReviewKey::Enter => next == state && action is SubmitTyped,
                ReviewKey::Esc => next == state && action is Reveal,
                ReviewKey::Backspace => action is Nothing && typed(s, next, popped(s.typed_input@)),
                ReviewKey::Char(c) | ReviewKey::CtrlChar(c) => action is Nothing && typed(
                    s,
                    next,
                    s.typed_input@.push(c),
                ),
                _ => next == state && action is Nothing,
            }
        },
        ReviewPhase::SessionSummary => match key {
            ReviewKey::Enter | ReviewKey::Esc => next is None && action is Leave,
            ReviewKey::Char('r') | ReviewKey::CtrlChar('r') => next == state && action is NewSession,
            _ => next == state && action is Nothing,
        },
    }
}

/// The answer to Control-L on a shown card.
fn analysis_of(s: &ReviewState) -> (r: ReviewAction)
    ensures
        analysis_action(*s, r),
{
    if s.current_index < s.queue.len() {
        let card = &s.queue[s.current_index];
        if !card.sentence_text.as_str().is_empty() {
            return ReviewAction::AnalyzeSentence { sentence: card.sentence_text.clone() };
        }
    }
    ReviewAction::NoSentence
}

/// The keys shared by the front and the back of a card.
fn card_common_key(state: &mut Option<ReviewState>, key: ReviewKey) -> (r: ReviewAction)
    requires
        *old(state) is Some,
    ensures
        card_common_step((*old(state))->0, key, *final(state), r),
{
    match key {
        ReviewKey::Esc => {
            *state = None;
            ReviewAction::Leave
        },
        ReviewKey::Left | ReviewKey::Char('h') | ReviewKey::CtrlChar('h') => {
            if let Some(s) = state {
                s.context_word_index = match s.context_word_index {
                    Some(k) => Some(k.saturating_sub(1)),
                    None => Some(0),
                };
            }
            ReviewAction::Nothing
        },
        ReviewKey::Right => {
            if let Some(s) = state {
                if s.current_index < s.queue.len() {
                    let n = s.queue[s.current_index].sentence_tokens.len();
                    let max = n.saturating_sub(1);
                    s.context_word_index = match s.context_word_index {
                        Some(k) => Some(if k < max && k + 1 < max { k + 1 } else { max }),
                        None => Some(0),
                    };
                }
            }
            ReviewAction::Nothing
        },
        ReviewKey::CtrlChar('l') => {
            match state {
                Some(s) => analysis_of(s),
                None => ReviewAction::NoSentence,
            }
        },
        _ => ReviewAction::Nothing,
    }
}

/// Handles a key during a review: `state` is the session (none once it is
/// over); the result says what the program has to do.
pub fn review_key(state: &mut Option<ReviewState>, key: ReviewKey) -> (r: ReviewAction)
    ensures
        review_step(*old(state), key, *final(state), r),
{
    let phase = match state {
        Some(s) => s.phase,
        None => ReviewPhase::SessionSummary,
    };
    match phase {
        ReviewPhase::PreSession => match key {
            ReviewKey::Enter | ReviewKey::Char(' ') | ReviewKey::CtrlChar(' ') => ReviewAction::Begin,
            ReviewKey::Esc => {
                *state = None;
                ReviewAction::Leave
            },
            _ => ReviewAction::Nothing,
        },
        ReviewPhase::ShowFront => match key {
            ReviewKey::Char(' ') | ReviewKey::CtrlChar(' ') => ReviewAction::Reveal,
            ReviewKey::Enter => {
                let selected = match state {
                    Some(s) => s.context_word_index.is_some(),
                    None => false,
                };
                if selected {
                    ReviewAction::OpenWordDetail
                } else {
                    ReviewAction::Reveal
                }
            },
            _ => card_common_key(state, key),
        },
        ReviewPhase::ShowBack | ReviewPhase::ShowResult => {
            let c = match key {
                ReviewKey::Char(c) => Some(c),
                ReviewKey::CtrlChar(c) => Some(c),
                _ => None,
            };
            let rating = match c {
                Some('1') => Some(Rating::Again),
                Some('2') => Some(Rating::Hard),
                Some('3') | Some(' ') => Some(Rating::Good),
                Some('4') => Some(Rating::Easy),
                _ => None,
            };
            match rating {
                Some(rating) => ReviewAction::Rate { rating },
                None => match key {
                    ReviewKey::Enter => {
                        let auto = match state {
                            Some(s) => s.auto_rating,
                            None => None,
                        };
                        match auto {
                            Some(rating) => ReviewAction::Rate { rating },
                            None => ReviewAction::Nothing,
                        }
                    },
                    _ => card_common_key(state, key),
                },
            }
        },
        ReviewPhase::TypingAnswer => match key {
            ReviewKey::Enter => ReviewAction::SubmitTyped,
            ReviewKey::Esc => ReviewAction::Reveal,
            ReviewKey::Backspace => {
                if let Some(s) = state {
                    pop_char(&mut s.typed_input);
                }
                ReviewAction::Nothing
            },
            ReviewKey::Char(c) | ReviewKey::CtrlChar(c) => {
                if let Some(s) = state {
                    s.typed_input.push(c);
                }
                ReviewAction::Nothing
            },
            _ => ReviewAction::Nothing,
        },
        ReviewPhase::SessionSummary => match key {
            ReviewKey::Enter | ReviewKey::Esc => {
                *state = None;
                ReviewAction::Leave
            },
            ReviewKey::Char('r') | ReviewKey::CtrlChar('r') => ReviewAction::NewSession,
            _ => ReviewAction::Nothing,
        },
    }
}

// ─── The card browser ───────────────────────────────────────────────

/// Where the card browser's selection stands: the selected row of the
/// filtered list of cards, and the first row of the page shown.
#[derive(Debug, Clone, Copy, PartialEq, Eq, Structural)]
pub struct CardListCursor {
    pub selected: usize,
    pub page_start: usize,
    pub page_size: usize,
}

/// A key pressed in the card browser.
#[derive(Debug, Clone, Copy, PartialEq, Eq, Structural)]
pub enum CardKey {
    /// Up or `k`.
    Up,
    /// Down or `j`.
    Down,
    /// Left or `h`: the previous page.
    Left,
    /// Right or `l`: the next page.
    Right,
    /// `f`: the next filter.
    Filter,
    /// `s`: the next sort order.
    Sort,
    /// `r`: reset the selected card to new.
    Reset,
    /// Enter: the selected card's details.
    Open,
    /// `d`: delete the selected card, after confirmation.
    Delete,
    /// Escape: leave the browser.
    Back,
    Other,
}

/// What the program does after a key in the card browser.
#[derive(Debug, Clone, Copy, PartialEq, Eq, Structural)]
pub enum CardAction {
    Nothing,
    /// Show the cards under the next filter.
    CycleFilter,
    /// Order the cards by the next sort order.
    CycleSort,
    /// Reset this card to a new card.
    ResetCard { card_id: i64 },
    /// Show the selected card's details.
    OpenDetail,
    /// Ask whether this card is to be deleted.
    ConfirmDelete { card_id: i64 },
    /// Close the browser.
    Leave,
}

/// The id of the selected card: `filtered` lists the shown cards by their
/// place in `card_ids`.
pub open spec fn selected_card_id(c: CardListCursor, filtered: Seq<usize>, card_ids: Seq<i64>) -> Option<i64> {
    if c.selected < filtered.len() && filtered[c.selected as int] < card_ids.len() {
        Some(card_ids[filtered[c.selected as int] as int])
    } else {
        None
    }
}

/// `a - b`, or 0 when `b` is larger.
pub open spec fn minus_or_zero(a: usize, b: usize) -> usize {
    if a >= b {
        (a - b) as usize
    } else {
        0
    }
}

/// The cursor after a key, the filtered list holding `len` cards: Up and
/// Down move by one row and turn the page when the row leaves it; Left and
/// Right turn the page and select its first row; a new filter starts over.
pub open spec fn cursor_after_key(c: CardListCursor, key: CardKey, len: nat) -> CardListCursor {
    match key {
        CardKey::Up => if c.selected > 0 {
            let s = (c.selected - 1) as usize;
            if s < c.page_start {
                CardListCursor { selected: s, page_start: minus_or_zero(c.page_start, c.page_size), ..c }
            } else {
                CardListCursor { selected: s, ..c }
            }
        } else {
            c
        },
        CardKey::Down => {
            let max: int = if len > 0 { len - 1 } else { 0 };
            if c.selected < max {
                let s = (c.selected + 1) as usize;
                if s >= c.page_start + c.page_size {
                    CardListCursor { selected: s, page_start: (c.page_start + c.page_size) as usize, ..c }
                } else {
                    CardListCursor { selected: s, ..c }
                }
            } else {
                c
            }
        },
        CardKey::Left => if c.page_start > 0 {
            let p = minus_or_zero(c.page_start, c.page_size);
            CardListCursor { selected: p, page_start: p, ..c }
        } else {
            c
        },
        CardKey::Right => if c.page_start + c.page_size < len {
            let p = (c.page_start + c.page_size) as usize;
            CardListCursor { selected: p, page_start: p, ..c }
        } else {
            c
        },
        CardKey::Filter => CardListCursor { selected: 0, page_start: 0, ..c },
        _ => c,
    }
}

/// What a key in the card browser asks for.
pub open spec fn card_key_action(c: CardListCursor, key: CardKey, filtered: Seq<usize>, card_ids: Seq<i64>) -> CardAction {
    match key {
        CardKey::Filter => CardAction::CycleFilter,
        CardKey::Sort => CardAction::CycleSort,
        CardKey::Reset => match selected_card_id(c, filtered, card_ids) {
            Some(id) => CardAction::ResetCard { card_id: id },
            None => CardAction::Nothing,
        },
        CardKey::Open => CardAction::OpenDetail,
        CardKey::Delete => match selected_card_id(c, filtered, card_ids) {
            Some(id) => CardAction::ConfirmDelete { card_id: id },
            None => CardAction::Nothing,
        },
        CardKey::Back => CardAction::Leave,
        _ => CardAction::Nothing,
    }
}

/// The next page's first row can be counted for the keys that count it.
pub open spec fn card_key_fits(c: CardListCursor, key: CardKey, len: nat) -> bool {
    match key {
        CardKey::Down => c.selected + 1 < len ==> c.page_start + c.page_size <= usize::MAX,
        CardKey::Right => c.page_start + c.page_size <= usize::MAX,
        _ => true,
    }
}

/// Handles a key in the card browser: `filtered` lists the cards shown, by
/// their place in `card_ids`.
pub fn card_list_key(cursor: &mut CardListCursor, key: CardKey, filtered: &Vec<usize>, card_ids: &Vec<i64>) -> (r:
    CardAction)
    requires
        card_key_fits(*old(cursor), key, filtered@.len()),
    ensures
        *final(cursor) == cursor_after_key(*old(cursor), key, filtered@.len()),
        r == card_key_action(*old(cursor), key, filtered@, card_ids@),
{
    match key {
        CardKey::Up => {
            if cursor.selected > 0 {
                cursor.selected = cursor.selected - 1;
                if cursor.selected < cursor.page_start {
                    cursor.page_start = cursor.page_start.saturating_sub(cursor.page_size);
                }
            }
            CardAction::Nothing
        },
        CardKey::Down => {
            let max = filtered.len().saturating_sub(1);
            if cursor.selected < max {
                cursor.selected = cursor.selected + 1;
                if cursor.selected >= cursor.page_start + cursor.page_size {
                    cursor.page_start = cursor.page_start + cursor.page_size;
                }
            }
            CardAction::Nothing
        },
        CardKey::Left => {
            if cursor.page_start > 0 {
                cursor.page_start = cursor.page_start.saturating_sub(cursor.page_size);
                cursor.selected = cursor.page_start;
            }
            CardAction::Nothing
        },
        CardKey::Right => {
            let next_start = cursor.page_start + cursor.page_size;
            if next_start < filtered.len() {
                cursor.page_start = next_start;
                cursor.selected = next_start;
            }
            CardAction::Nothing
        },
        CardKey::Filter => {
            cursor.selected = 0;
            cursor.page_start = 0;
            CardAction::CycleFilter
        },
        CardKey::Sort => CardAction::CycleSort,
        CardKey::Reset | CardKey::Delete => {
            let sel = cursor.selected;
            if sel < filtered.len() && filtered[sel] < card_ids.len() {
                let id = card_ids[filtered[sel]];
                if key == CardKey::Reset {
                    CardAction::ResetCard { card_id: id }
                } else {
                    CardAction::ConfirmDelete { card_id: id }
                }
            } else {
                CardAction::Nothing
            }
        },
        CardKey::Open => CardAction::OpenDetail,
        CardKey::Back => CardAction::Leave,
        CardKey::Other => CardAction::Nothing,
    }
}

/// The selected row lies on the page shown, and in the list.
pub open spec fn cursor_on_page(c: CardListCursor, len: nat) -> bool {
    &&& c.page_size > 0
    &&& c.page_start <= c.selected < c.page_start + c.page_size
    &&& len > 0 ==> c.selected < len
}

/// Every key of the card browser keeps the selected card on the page that is
/// shown and within the list: paging follows the selection, and the
/// selection follows the page.
pub proof fn law_card_keys_keep_the_selection_on_its_page(c: CardListCursor, key: CardKey, len: nat)
    requires
        cursor_on_page(c, len),
        card_key_fits(c, key, len),
    ensures
        cursor_on_page(cursor_after_key(c, key, len), len),
{
}

// ─── The settings screen ────────────────────────────────────────────

/// The value of a setting.
pub enum SettingsValue {
    Bool(bool),
    Integer(i64),
    Text(String),
    /// The chosen option and all options.
    Choice(String, Vec<String>),
}

/// A setting: its key in the configuration, its label, its value.
pub struct SettingsItem {
    pub key: String,
    pub label: String,
    pub value: SettingsValue,
}

/// A group of settings shown together.
pub struct SettingsCategory {
    pub name: String,
    pub items: Vec<SettingsItem>,
}

/// The settings screen.
pub struct SettingsState {
    pub categories: Vec<SettingsCategory>,
    pub selected_category: usize,
    pub selected_item: usize,
    /// A text or number setting is being edited in `edit_buffer`.
    pub editing: bool,
    pub edit_buffer: String,
    /// A value was changed since the settings were saved.
    pub dirty: bool,
}

/// A key pressed on the settings screen.
#[derive(Debug, Clone, Copy, PartialEq, Eq, Structural)]
pub enum SettingsKey {
    Up,
    Down,
    Left,
    Right,
    Tab,
    Enter,
    Backspace,
    Esc,
    Char(char),
    Other,
}

/// What the program does after a key on the settings screen.
pub enum SettingsAction {
    Nothing,
    /// Save the settings.
    Save,
    /// Show the screen in this theme at once.
    PreviewTheme { theme: String },
    /// Close the screen, saving first when a value changed.
    Leave { save_first: bool },
}

/// The decimal text of an integer, with a minus sign when it is negative.
pub open spec fn signed_decimal(v: int) -> Seq<char> {
    if v < 0 {
        seq!['-'] + decimal_digits((-v) as nat)
    } else {
        decimal_digits(v as nat)
    }
}

/// Appends the decimal digits of `n` to `s`.
fn push_digits(s: &mut String, n: u64)
    ensures
        final(s)@ == old(s)@ + decimal_digits(n as nat),
    decreases n,
{
    if n >= 10 {
        push_digits(s, n / 10);
    }
    let d: u8 = (n % 10) as u8;
    s.push((48u8 + d) as char);
}

/// The decimal text of `v` (`i64::to_string`).
pub fn integer_text(v: i64) -> (r: String)
    ensures
        r@ == signed_decimal(v as int),
{
    let mut s = String::new();
    if v < 0 {
        s.push('-');
        let m: u64 = (-(v as i128)) as u64;
        push_digits(&mut s, m);
    } else {
        push_digits(&mut s, v as u64);
    }
    s
}

/// The setting that is selected, if the selection names one.
pub open spec fn item_at(s: SettingsState) -> Option<SettingsItem> {
    let c = s.selected_category as int;
    let i = s.selected_item as int;
    if c < s.categories@.len() && i < s.categories@[c].items@.len() {
        Some(s.categories@[c].items@[i])
    } else {
        None
    }
}

/// The place of the option after `cur` among `opts`, going round; the
/// option after the first when `cur` is not among them.
pub open spec fn next_choice(opts: Seq<String>, cur: Seq<char>) -> int {
    let names = opts.map_values(|t: String| t@);
    let k = first_position(names, cur, 0);
    let idx = if k < names.len() { k } else { 0 };
    (idx + 1) % (opts.len() as int)
}

/// The value after Enter on a switch or a choice: the switch flips, the
/// choice moves to the next option.
pub open spec fn advanced(v: SettingsValue) -> SettingsValue {
    match v {
        SettingsValue::Bool(b) => SettingsValue::Bool(!b),
        SettingsValue::Choice(cur, opts) => SettingsValue::Choice(opts@[next_choice(opts@, cur@)], opts),
        _ => v,
    }
}

/// `t`'s settings are `s`'s, with the selected one's value set to `v`.
pub open spec fn value_set(s: SettingsState, t: SettingsState, v: SettingsValue) -> bool {
    let c = s.selected_category as int;
    let i = s.selected_item as int;
    &&& t.categories@.len() == s.categories@.len()
    &&& forall|k: int| 0 <= k < s.categories@.len() && k != c ==> #[trigger] t.categories@[k] == s.categories@[k]
    &&& t.categories@[c].name == s.categories@[c].name
    &&& t.categories@[c].items@ == s.categories@[c].items@.update(i, SettingsItem { value: v, ..s.categories@[c].items@[i] })
}

/// The settings screen with the selection moved.
pub open spec fn selecting(s: SettingsState, c: int, i: int) -> SettingsState {
    SettingsState { selected_category: c as usize, selected_item: i as usize, ..s }
}

/// The selection after Up: the previous setting, or the last of the
/// previous group.
pub open spec fn after_up(s: SettingsState) -> SettingsState {
    if s.selected_item > 0 {
        selecting(s, s.selected_category as int, s.selected_item - 1)
    } else if s.selected_category > 0 {
        let n = s.categories@[s.selected_category - 1].items@.len();
        selecting(s, s.selected_category - 1, if n > 0 { n - 1 } else { 0 })
    } else {
        s
    }
}

/// The selection after Down: the next setting, or the first of the next group.
pub open spec fn after_down(s: SettingsState) -> SettingsState {
    let n = s.categories@[s.selected_category as int].items@.len();
    if s.selected_item + 1 < n {
        selecting(s, s.selected_category as int, s.selected_item + 1)
    } else if s.selected_category + 1 < s.categories@.len() {
        selecting(s, s.selected_category + 1, 0)
    } else {
        s
    }
}

/// Edit mode closed: the selection stays, the buffer is empty.
pub open spec fn edit_closed(s: SettingsState, t: SettingsState) -> bool {
    &&& t.selected_category == s.selected_category
    &&& t.selected_item == s.selected_item
    &&& !t.editing
    &&& t.edit_buffer@.len() == 0
}

/// What a key does while a value is being edited.
pub open spec fn edit_step(s: SettingsState, key: SettingsKey, t: SettingsState) -> bool {
    match key {
        SettingsKey::Esc => edit_closed(s, t) && t.categories == s.categories && t.dirty == s.dirty,
        SettingsKey::Enter => edit_closed(s, t) && match item_at(s) {
            Some(item) => match item.value {
                SettingsValue::Integer(_) => match i64_of(s.edit_buffer@) {
                    Some(p) => value_set(s, t, SettingsValue::Integer(p)) && t.dirty,
                    None => t.categories == s.categories && t.dirty == s.dirty,
                },
                SettingsValue::Text(_) => value_set(s, t, SettingsValue::Text(s.edit_buffer)) && t.dirty,
                _ => t.categories == s.categories && t.dirty == s.dirty,
            },
            None => t.categories == s.categories && t.dirty == s.dirty,
        },
        SettingsKey::Backspace => t == (SettingsState { edit_buffer: t.edit_buffer, ..s }) && t.edit_buffer@
            == popped(s.edit_buffer@),
        SettingsKey::Char(c) => t == (SettingsState { edit_buffer: t.edit_buffer, ..s }) && t.edit_buffer@
            == s.edit_buffer@.push(c),
        _ => t == s,
    }
}

/// The answer to Enter on a choice: the theme is shown at once.
pub open spec fn choice_action(item: SettingsItem, action: SettingsAction) -> bool {
    if item.key@ == "general.theme"@ {
        action matches SettingsAction::PreviewTheme { theme } && theme@ == opts_of(advanced(item.value))
    } else {
        action is Nothing
    }
}

/// The chosen option of a choice.
pub open spec fn opts_of(v: SettingsValue) -> Seq<char> {
    match v {
        SettingsValue::Choice(cur, _) => cur@,
        _ => Seq::empty(),
    }
}

/// What Enter (or the space bar) does to the selected setting.
pub open spec fn activate_step(s: SettingsState, t: SettingsState, action: SettingsAction) -> bool {
    match item_at(s) {
        Some(item) => match item.value {
            SettingsValue::Bool(_) => value_set(s, t, advanced(item.value)) && t == (SettingsState {
                categories: t.categories,
                dirty: true,
                ..s
            }) && action is Nothing,
            SettingsValue::Choice(_, _) => value_set(s, t, advanced(item.value)) && t == (SettingsState {
                categories: t.categories,
                dirty: true,
                ..s
            }) && choice_action(item, action),
            SettingsValue::Integer(v) => t == (SettingsState { editing: true, edit_buffer: t.edit_buffer, ..s })
                && t.edit_buffer@ == signed_decimal(v as int) && action is Nothing,
            SettingsValue::Text(v) => t == (SettingsState { editing: true, edit_buffer: v, ..s })
                && action is Nothing,
        },
        None => t == s && action is Nothing,
    }
}

/// What one key does to the settings screen `s`: `t` is the screen after
/// it, `action` what the program does next.
pub open spec fn settings_step(s: SettingsState, key: SettingsKey, t: SettingsState, action: SettingsAction) -> bool {
    if s.editing {
        edit_step(s, key, t) && action is Nothing
    } else {
        match key {
            SettingsKey::Up | SettingsKey::Char('k') => t == after_up(s) && action is Nothing,
            SettingsKey::Down | SettingsKey::Char('j') => t == after_down(s) && action is Nothing,
            SettingsKey::Left | SettingsKey::Char('h') => t == (if s.selected_category > 0 {
                selecting(s, s.selected_category - 1, 0)
            } else {
                s
            }) && action is Nothing,
            SettingsKey::Right | SettingsKey::Char('l') | SettingsKey::Tab => t == (if s.selected_category + 1
                < s.categories@.len() {
                selecting(s, s.selected_category + 1, 0)
            } else {
                s
            }) && action is Nothing,
            SettingsKey::Enter | SettingsKey::Char(' ') => activate_step(s, t, action),
            SettingsKey::Char('s') => t == s && action is Save,
            SettingsKey::Esc => t == s && action == (SettingsAction::Leave { save_first: s.dirty }),
            _ => t == s && action is Nothing,
        }
    }
}

/// The keys that the screen can take in `s`: moving down names the group
/// selected, moving up from a group's first setting names the group before,
/// and a choice to advance has options.
pub open spec fn settings_key_ok(s: SettingsState, key: SettingsKey) -> bool {
    !s.editing ==> match key {
        SettingsKey::Up | SettingsKey::Char('k') => s.selected_item == 0 && s.selected_category > 0
            ==> s.selected_category - 1 < s.categories@.len(),
        SettingsKey::Down | SettingsKey::Char('j') => s.selected_category < s.categories@.len(),
        SettingsKey::Enter | SettingsKey::Char(' ') => match item_at(s) {
            Some(item) => match item.value {
                SettingsValue::Choice(_, opts) => opts@.len() > 0,
                _ => true,
            },
            None => true,
        },
        _ => true,
    }
}

/// The place of the next option after `cur`.
fn next_choice_index(opts: &Vec<String>, cur: &String) -> (r: usize)
    requires
        opts@.len() > 0,
    ensures
        r == next_choice(opts@, cur@),
        r < opts@.len(),
{
    let ghost names = opts@.map_values(|t: String| t@);
    let mut k: usize = 0;
    while k < opts.len() && !str_eq(opts[k].as_str(), cur.as_str())
        invariant
            k <= opts@.len(),
            names == opts@.map_values(|t: String| t@),
            first_position(names, cur@, 0) == first_position(names, cur@, k as int),
        decreases opts.len() - k,
    {
        k += 1;
    }
    let idx = if k < opts.len() { k } else { 0 };
    (idx + 1) % opts.len()
}

/// Enter on the selected setting.
fn activate(state: &mut SettingsState) -> (r: SettingsAction)
    requires
        settings_key_ok(*old(state), SettingsKey::Enter),
        !old(state).editing,
    ensures
        activate_step(*old(state), *final(state), r),
{
    let c = state.selected_category;
    let i = state.selected_item;
    if c >= state.categories.len() || i >= state.categories[c].items.len() {
        return SettingsAction::Nothing;
    }
    let ghost s0 = *state;
    match &state.categories[c].items[i].value {
        SettingsValue::Integer(v) => {
            let v = *v;
            state.edit_buffer = integer_text(v);
            state.editing = true;
            return SettingsAction::Nothing;
        },
        SettingsValue::Text(v) => {
            let b = v.clone();
            state.edit_buffer = b;
            state.editing = true;
            return SettingsAction::Nothing;
        },
        _ => {},
    }
    let mut value = SettingsValue::Bool(false);
    std::mem::swap(&mut value, &mut state.categories[c].items[i].value);
    let (new_value, action) = match value {
        SettingsValue::Choice(cur, opts) => {
            let k = next_choice_index(&opts, &cur);
            let chosen = opts[k].clone();
            let action = if str_eq(state.categories[c].items[i].key.as_str(), "general.theme") {
                SettingsAction::PreviewTheme { theme: chosen.clone() }
            } else {
                SettingsAction::Nothing
            };
            (SettingsValue::Choice(chosen, opts), action)
        },
        SettingsValue::Bool(b) => (SettingsValue::Bool(!b), SettingsAction::Nothing),
        other => (other, SettingsAction::Nothing),
    };
    let ghost nv = new_value;
    state.categories[c].items[i].value = new_value;
    assert(state.categories@[c as int].items@ =~= s0.categories@[c as int].items@.update(
        i as int,
        SettingsItem { value: nv, ..s0.categories@[c as int].items@[i as int] },
    ));
    state.dirty = true;
    action
}

/// Enter while a value is edited: the buffer becomes the value, when it
/// fits the setting.
fn apply_edit(state: &mut SettingsState)
    requires
        old(state).editing,
    ensures
        edit_step(*old(state), SettingsKey::Enter, *final(state)),
{
    let c = state.selected_category;
    let i = state.selected_item;
    let mut buffer = String::new();
    std::mem::swap(&mut buffer, &mut state.edit_buffer);
    state.editing = false;
    if c < state.categories.len() && i < state.categories[c].items.len() {
        let is_integer = match &state.categories[c].items[i].value {
            SettingsValue::Integer(_) => 1u8,
            SettingsValue::Text(_) => 2u8,
            _ => 0u8,
        };
        if is_integer == 1 {
            if let Some(p) = parse_i64(buffer.as_str()) {
                state.categories[c].items[i].value = SettingsValue::Integer(p);
                state.dirty = true;
            }
        } else if is_integer == 2 {
            state.categories[c].items[i].value = SettingsValue::Text(buffer);
            state.dirty = true;
        }
    }
}

/// Handles a key on the settings screen.
pub fn settings_key(state: &mut SettingsState, key: SettingsKey) -> (r: SettingsAction)
    requires
        settings_key_ok(*old(state), key),
    ensures
        settings_step(*old(state), key, *final(state), r),
{
    if state.editing {
        match key {
            SettingsKey::Esc => {
                state.editing = false;
                state.edit_buffer = String::new();
            },
            SettingsKey::Enter => apply_edit(state),
            SettingsKey::Backspace => pop_char(&mut state.edit_buffer),
            SettingsKey::Char(c) => state.edit_buffer.push(c),
            _ => {},
        }
        return SettingsAction::Nothing;
    }
    match key {
        SettingsKey::Up | SettingsKey::Char('k') => {
            if state.selected_item > 0 {
                state.selected_item = state.selected_item - 1;
            } else if state.selected_category > 0 {
                state.selected_category = state.selected_category - 1;
                state.selected_item = state.categories[state.selected_category].items.len().saturating_sub(1);
            }
            SettingsAction::Nothing
        },
        SettingsKey::Down | SettingsKey::Char('j') => {
            let n = state.categories[state.selected_category].items.len();
            if n > 0 && state.selected_item < n - 1 {
                state.selected_item = state.selected_item + 1;
            } else if state.selected_category < state.categories.len() - 1 {
                state.selected_category = state.selected_category + 1;
                state.selected_item = 0;
            }
            SettingsAction::Nothing
        },
        SettingsKey::Left | SettingsKey::Char('h') => {
            if state.selected_category > 0 {
                state.selected_category = state.selected_category - 1;
                state.selected_item = 0;
            }
            SettingsAction::Nothing
        },
        SettingsKey::Right | SettingsKey::Char('l') | SettingsKey::Tab => {
            if state.categories.len() > 0 && state.selected_category < state.categories.len() - 1 {
                state.selected_category = state.selected_category + 1;
                state.selected_item = 0;
            }
            SettingsAction::Nothing
        },
        SettingsKey::Enter | SettingsKey::Char(' ') => activate(state),
        SettingsKey::Char('s') => SettingsAction::Save,
        SettingsKey::Esc => SettingsAction::Leave { save_first: state.dirty },
        _ => SettingsAction::Nothing,
    }
}

/// The decimal text of an `i64` reads back as the same `i64`.
pub proof fn lemma_signed_decimal_reads_back(v: i64)
    ensures
        i64_of(signed_decimal(v as int)) == Some(v),
{
    if v < 0 {
        let m: nat = (-v) as nat;
        lemma_decimal_digits(m);
        let d = decimal_digits(m);
        let t = signed_decimal(v as int);
        assert(t == seq!['-'] + d);
        assert(t[0] == '-');
        assert(t.drop_first() =~= d);
        assert(unsigned_part(t) == d);
        assert(is_negative(t));
        assert(signed_value(t) == -(m as int));
        assert(is_decimal(t));
    } else {
        let m: nat = v as nat;
        lemma_decimal_digits(m);
        let d = decimal_digits(m);
        assert(crate::text::is_ascii_digit(d[0]));
        assert(unsigned_part(d) == d);
        assert(!is_negative(d));
    }
}

/// Opening a number setting for editing and confirming at once leaves the
/// setting as it was, and closes the editor.
pub proof fn law_confirming_an_opened_number_keeps_it(
    s: SettingsState,
    t: SettingsState,
    u: SettingsState,
    a: SettingsAction,
    b: SettingsAction,
    v: i64,
)
    requires
        !s.editing,
        item_at(s) matches Some(item) && item.value == SettingsValue::Integer(v),
        settings_step(s, SettingsKey::Enter, t, a),
        settings_step(t, SettingsKey::Enter, u, b),
    ensures
        item_at(u) == item_at(s),
        !u.editing,
        u.edit_buffer@.len() == 0,
{
    lemma_signed_decimal_reads_back(v);
    let c = s.selected_category as int;
    let i = s.selected_item as int;
    assert(u.categories@[c].items@[i] == s.categories@[c].items@[i]);
}

/// Opening a text setting for editing and confirming at once leaves the
/// setting as it was, and closes the editor.
pub proof fn law_confirming_an_opened_text_keeps_it(
    s: SettingsState,
    t: SettingsState,
    u: SettingsState,
    a: SettingsAction,
    b: SettingsAction,
)
    requires
        !s.editing,
        item_at(s) matches Some(item) && item.value is Text,
        settings_step(s, SettingsKey::Enter, t, a),
        settings_step(t, SettingsKey::Enter, u, b),
    ensures
        item_at(u) == item_at(s),
        !u.editing,
        u.edit_buffer@.len() == 0,
{
    let c = s.selected_category as int;
    let i = s.selected_item as int;
    assert(u.categories@[c].items@[i] == s.categories@[c].items@[i]);
}

/// Switching a setting twice gives back its value.
pub proof fn law_switching_twice_restores(
    s: SettingsState,
    t: SettingsState,
    u: SettingsState,
    a: SettingsAction,
    b: SettingsAction,
)
    requires
        !s.editing,
        item_at(s) matches Some(item) && item.value is Bool,
        settings_step(s, SettingsKey::Enter, t, a),
        settings_step(t, SettingsKey::Enter, u, b),
    ensures
        item_at(u) == item_at(s),
        u.dirty,
{
    let c = s.selected_category as int;
    let i = s.selected_item as int;
    assert(u.categories@[c].items@[i] == s.categories@[c].items@[i]);
}

/// While the reading is typed, a character and then Backspace give back the
/// typed text, and the rest of the session is untouched.
pub proof fn law_review_backspace_undoes_typing(
    s: ReviewState,
    c: char,
    t: Option<ReviewState>,
    u: Option<ReviewState>,
    a: ReviewAction,
    b: ReviewAction,
)
    requires
        s.phase == ReviewPhase::TypingAnswer,
        review_step(Some(s), ReviewKey::Char(c), t, a),
        review_step(t, ReviewKey::Backspace, u, b),
    ensures
        u matches Some(w) && w.typed_input@ == s.typed_input@ && w == (ReviewState { typed_input: w.typed_input, ..s }),
{
    assert(s.typed_input@.push(c).drop_last() =~= s.typed_input@);
}

} // verus!
