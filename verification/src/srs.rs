//! Spaced-repetition decisions: review ratings, how a review moves a card's
//! counters and learning state, which cards a status change creates or
//! retires, and which due cards are shown.
use vstd::prelude::*;
use crate::models::{VocabularyStatus, is_learning};
use crate::text::str_eq;

verus! {

/// Rating for a review (the scheduler's ratings 1-4).
#[derive(Debug, Clone, Copy, PartialEq, Eq, Structural)]
pub enum Rating {
    Again,
    Hard,
    Good,
    Easy,
}

/// The number of each rating.
pub open spec fn rating_code(r: Rating) -> int {
    match r {
        Rating::Again => 1,
        Rating::Hard => 2,
        Rating::Good => 3,
        Rating::Easy => 4,
    }
}

/// The rating numbered `v`, if any.
pub open spec fn rating_of_code(v: int) -> Option<Rating> {
    if v == 1 {
        Some(Rating::Again)
    } else if v == 2 {
        Some(Rating::Hard)
    } else if v == 3 {
        Some(Rating::Good)
    } else if v == 4 {
        Some(Rating::Easy)
    } else {
        None
    }
}

pub open spec fn rating_label(r: Rating) -> Seq<char> {
    match r {
        Rating::Again => "Again"@,
        Rating::Hard => "Hard"@,
        Rating::Good => "Good"@,
        Rating::Easy => "Easy"@,
    }
}

impl Rating {
    pub fn from_i32(v: i32) -> (r: Option<Self>)
        ensures
            r == rating_of_code(v as int),
    {
        match v {
            1 => Some(Rating::Again),
            2 => Some(Rating::Hard),
            3 => Some(Rating::Good),
            4 => Some(Rating::Easy),
            _ => None,
        }
    }

    /// The number of this rating, as the review log stores it.
    pub fn to_i32(self) -> (r: i32)
        ensures
            r as int == rating_code(self),
    {
        match self {
            Rating::Again => 1,
            Rating::Hard => 2,
            Rating::Good => 3,
            Rating::Easy => 4,
        }
    }

    pub fn label(&self) -> (r: &'static str)
        ensures
            r@ == rating_label(*self),
    {
        match self {
            Rating::Again => "Again",
            Rating::Hard => "Hard",
            Rating::Good => "Good",
            Rating::Easy => "Easy",
        }
    }
}

/// Reading the number of a rating back gives the rating.
pub proof fn law_rating_code_roundtrip(r: Rating)
    ensures
        rating_of_code(rating_code(r)) == Some(r),
{
}

/// Exactly the numbers 1 to 4 name a rating.
pub proof fn law_rating_codes(v: int)
    ensures
        rating_of_code(v) is Some <==> 1 <= v <= 4,
        rating_of_code(v) is Some ==> rating_code(rating_of_code(v)->0) == v,
{
}

/// The learning state of a card after a review: relearning after a failed
/// review of a card reviewed before, learning after the first review of a new
/// card, review otherwise.
pub open spec fn next_card_state(reps: int, state: Seq<char>, rating: Rating) -> Seq<char> {
    if rating == Rating::Again && reps > 0 {
        "relearning"@
    } else if state == "new"@ {
        "learning"@
    } else {
        "review"@
    }
}

/// Only a failed review (Again) of a card reviewed before sends it to
/// relearning; any other rating moves a new card to learning and every
/// other card to review.
pub proof fn law_only_a_failed_review_relearns(reps: int, state: Seq<char>, rating: Rating)
    ensures
        (next_card_state(reps, state, rating) == "relearning"@) <==> (rating == Rating::Again && reps
            > 0),
        rating != Rating::Again ==> next_card_state(reps, state, rating) == (if state == "new"@ {
            "learning"@
        } else {
            "review"@
        }),
        rating == Rating::Again && reps <= 0 && state == "new"@ ==> next_card_state(reps, state, rating)
            == "learning"@,
{
    reveal_strlit("relearning");
    reveal_strlit("learning");
    reveal_strlit("review");
    assert("relearning"@ != "learning"@) by {
        assert("relearning"@.len() != "learning"@.len());
    }
    assert("relearning"@ != "review"@) by {
        assert("relearning"@.len() != "review"@.len());
    }
}

/// How a review changes a card's counters and state.
pub struct ReviewOutcome {
    pub reps: i32,
    pub lapses: i32,
    pub state: &'static str,
}

/// The card's counters and state after a review with `rating`: one more
/// repetition, one more lapse when the rating is Again.
pub fn review_outcome(reps: i32, lapses: i32, state: &str, rating: Rating) -> (r: ReviewOutcome)
    requires
        reps < i32::MAX,
        rating == Rating::Again ==> lapses < i32::MAX,
    ensures
        r.reps == reps + 1,
        r.lapses == if rating == Rating::Again {
            lapses + 1
        } else {
            lapses as int
        },
        r.state@ == next_card_state(reps as int, state@, rating),
{
    let again = match rating {
        Rating::Again => true,
        _ => false,
    };
    let new_lapses = if again {
        lapses + 1
    } else {
        lapses
    };
    let new_state = if again && reps > 0 {
        "relearning"
    } else if str_eq(state, "new") {
        "learning"
    } else {
        "review"
    };
    ReviewOutcome { reps: reps + 1, lapses: new_lapses, state: new_state }
}

/// What a change of a word's status does to its review cards.
#[derive(Debug, Clone, Copy, PartialEq, Eq, Structural)]
pub enum CardAction {
    /// Create the word card and the sentence card where they do not exist.
    CreateCards,
    /// Retire all active cards of the word.
    RetireCards,
    /// Nothing: new words have no cards.
    NoAction,
}

pub open spec fn card_action_of(s: VocabularyStatus) -> CardAction {
    if is_learning(s) {
        CardAction::CreateCards
    } else if s == VocabularyStatus::Known || s == VocabularyStatus::Ignored {
        CardAction::RetireCards
    } else {
        CardAction::NoAction
    }
}

/// Learning words get cards; known and ignored words lose theirs.
pub fn card_action_for_status(new_status: VocabularyStatus) -> (r: CardAction)
    ensures
        r == card_action_of(new_status),
{
    match new_status {
        VocabularyStatus::Learning1
        | VocabularyStatus::Learning2
        | VocabularyStatus::Learning3
        | VocabularyStatus::Learning4 => CardAction::CreateCards,
        VocabularyStatus::Known | VocabularyStatus::Ignored => CardAction::RetireCards,
        VocabularyStatus::New => CardAction::NoAction,
    }
}

/// Whether a due card is shown: sentence cards only while their word is
/// still being learned, every other card always.
pub open spec fn shows_due_card(card_type: Seq<char>, word_status: Option<VocabularyStatus>) -> bool {
    if card_type == "sentence"@ {
        match word_status {
            Some(s) => is_learning(s),
            None => false,
        }
    } else {
        true
    }
}

/// Whether a due card is shown, given its type and the status of its word
/// (`None` when the card has no word or the word cannot be read).
pub fn keep_due_card(card_type: &str, word_status: Option<VocabularyStatus>) -> (r: bool)
    ensures
        r == shows_due_card(card_type@, word_status),
{
    if str_eq(card_type, "sentence") {
        match word_status {
            Some(s) => match s {
                VocabularyStatus::Learning1
                | VocabularyStatus::Learning2
                | VocabularyStatus::Learning3
                | VocabularyStatus::Learning4 => true,
                _ => false,
            },
            None => false,
        }
    } else {
        true
    }
}

} // verus!
