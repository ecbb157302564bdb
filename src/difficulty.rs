use vstd::prelude::*;

verus! {

/// Score above which the tier is promoted from `Initial` to `Medium`.
pub const MEDIUM_THRESHOLD: i128 = 10;

/// Score above which the tier is promoted from `Medium` to `Hard`.
pub const HARD_THRESHOLD: i128 = 400;

/// Difficulty tier of a run; it only ever moves forward.
#[derive(Clone, Copy, Debug, PartialEq, Eq, Structural)]
pub enum Difficulty {
    Initial,
    Medium,
    Hard,
}

/// Position of a tier in the order `Initial < Medium < Hard`.
pub open spec fn rank(d: Difficulty) -> int {
    match d {
        Difficulty::Initial => 0,
        Difficulty::Medium => 1,
        Difficulty::Hard => 2,
    }
}

/// The tier that follows `d` once the effective score is `score`.
pub open spec fn next_tier(d: Difficulty, score: int) -> Difficulty {
    match d {
        Difficulty::Initial => if score > MEDIUM_THRESHOLD { Difficulty::Medium } else { Difficulty::Initial },
        Difficulty::Medium => if score > HARD_THRESHOLD { Difficulty::Hard } else { Difficulty::Medium },
        Difficulty::Hard => Difficulty::Hard,
    }
}

impl Difficulty {
    /// Promotes the tier by at most one step, given the effective score.
    pub fn promoted(self, score: i128) -> (r: Difficulty)
        ensures
            r == next_tier(self, score as int),
            rank(self) <= rank(r),
    {
        match self {
            Difficulty::Initial => if score > MEDIUM_THRESHOLD { Difficulty::Medium } else { Difficulty::Initial },
            Difficulty::Medium => if score > HARD_THRESHOLD { Difficulty::Hard } else { Difficulty::Medium },
            Difficulty::Hard => Difficulty::Hard,
        }
    }
}

/// The tier after one promotion check for each score of `scores`, in order.
pub open spec fn tier_after(d: Difficulty, scores: Seq<int>) -> Difficulty
    decreases scores.len(),
{
    if scores.len() == 0 {
        d
    } else {
        tier_after(next_tier(d, scores[0]), scores.drop_first())
    }
}

/// Difficulty only ever rises: whatever the scores that follow, the tier
/// never drops below where it was, and once `Hard` it stays `Hard`.
pub proof fn lemma_tier_monotone(d: Difficulty, scores: Seq<int>)
    ensures
        rank(d) <= rank(tier_after(d, scores)),
        d == Difficulty::Hard ==> tier_after(d, scores) == Difficulty::Hard,
    decreases scores.len(),
{
    if scores.len() > 0 {
        lemma_tier_monotone(next_tier(d, scores[0]), scores.drop_first());
    }
}

} // verus!
