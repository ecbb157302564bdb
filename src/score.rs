use vstd::prelude::*;
use vstd::arithmetic::div_mod::lemma_div_is_ordered;
use crate::entity::SPAWN_Y;
use crate::geometry::{div_toward_zero, div_trunc, COORD_LIMIT};

verus! {

/// World units per meter of distance travelled.
pub const UNITS_PER_METER: i64 = 16;

/// Meters of distance that count as one point of score.
pub const METERS_PER_POINT: i64 = 50;

/// Time played, enemies destroyed and distance covered in the current run.
/// `distance_mm` counts thousandths of a meter.
#[derive(Clone, Copy, Debug, PartialEq, Eq, Structural)]
pub struct GameScore {
    pub elapsed_ms: u64,
    pub score: u64,
    pub distance_mm: i64,
}

/// Distance travelled, in thousandths of a meter, by a boat at height
/// `player_y` (in thousandths of a world unit) that started at `SPAWN_Y`.
pub open spec fn distance_of(player_y: int) -> int {
    div_toward_zero(player_y - SPAWN_Y, UNITS_PER_METER as int)
}

/// Score plus one point for every full `METERS_PER_POINT` meters travelled,
/// whole meters and points both rounded toward zero.
pub open spec fn effective_score(s: GameScore) -> int {
    s.score + div_toward_zero(div_toward_zero(s.distance_mm as int, 1000), METERS_PER_POINT as int)
}

/// The score of a run that has not started.
pub open spec fn zero_score() -> GameScore {
    GameScore { elapsed_ms: 0, score: 0, distance_mm: 0 }
}

impl GameScore {
    /// Nothing played yet.
    pub fn new() -> (r: GameScore)
        ensures
            r == zero_score(),
    {
        GameScore { elapsed_ms: 0, score: 0, distance_mm: 0 }
    }

    /// Adds the length of a running step to the time played.
    pub fn add_time(&mut self, dt_ms: u64)
        ensures
            final(self).elapsed_ms == if old(self).elapsed_ms + dt_ms > u64::MAX {
                u64::MAX as int
            } else {
                old(self).elapsed_ms + dt_ms
            },
            final(self).score == old(self).score,
            final(self).distance_mm == old(self).distance_mm,
    {
        self.elapsed_ms = self.elapsed_ms.saturating_add(dt_ms);
    }

    /// Credits `kills` destroyed enemies, each worth `points` (the sum is held
    /// at `u64::MAX`).
    pub fn add_kills(&mut self, kills: u64, points: u64)
        ensures
            final(self).score == if old(self).score + kills * points > u64::MAX {
                u64::MAX as int
            } else {
                old(self).score + kills * points
            },
            final(self).elapsed_ms == old(self).elapsed_ms,
            final(self).distance_mm == old(self).distance_mm,
    {
        assert((kills as u128) * (points as u128) <= 0xFFFF_FFFF_FFFF_FFFE_0000_0000_0000_0001) by (nonlinear_arith)
            requires
                kills <= 0xFFFF_FFFF_FFFF_FFFFu64,
                points <= 0xFFFF_FFFF_FFFF_FFFFu64,
        ;
        let total: u128 = self.score as u128 + kills as u128 * points as u128;
        self.score = if total > u64::MAX as u128 { u64::MAX } else { total as u64 };
    }

    /// Recomputes the distance from the boat's current height.
    pub fn update_distance(&mut self, player_y: i64)
        requires
            -COORD_LIMIT <= player_y <= COORD_LIMIT,
        ensures
            final(self).distance_mm == distance_of(player_y as int),
            final(self).elapsed_ms == old(self).elapsed_ms,
            final(self).score == old(self).score,
    {
        let d = div_trunc(player_y as i128 - SPAWN_Y as i128, UNITS_PER_METER as i128);
        self.distance_mm = d as i64;
    }

    /// The score that drives difficulty and is shown to the player.
    pub fn effective(&self) -> (r: i128)
        ensures
            r == effective_score(*self),
    {
        let meters = div_trunc(self.distance_mm as i128, 1000);
        let points = div_trunc(meters, METERS_PER_POINT as i128);
        self.score as i128 + points
    }

    /// Zeroes time, score and distance together.
    pub fn reset(&mut self)
        ensures
            *final(self) == zero_score(),
    {
        *self = GameScore::new();
    }
}

proof fn lemma_div_toward_zero_ordered(a: int, b: int, d: int)
    requires
        a <= b,
        d > 0,
    ensures
        div_toward_zero(a, d) <= div_toward_zero(b, d),
{
    if a >= 0 {
        lemma_div_is_ordered(a, b, d);
    } else if b >= 0 {
        lemma_div_is_ordered(0, -a, d);
        lemma_div_is_ordered(0, b, d);
        assert(0int / d == 0) by (nonlinear_arith)
            requires
                d > 0,
        ;
    } else {
        lemma_div_is_ordered(-b, -a, d);
    }
}

/// While the boat keeps moving away from its starting point along the scroll
/// axis, the distance travelled never decreases; a reset brings it back to 0.
pub proof fn lemma_distance_monotone(y1: int, y2: int)
    requires
        SPAWN_Y <= y1 <= y2,
    ensures
        distance_of(y1) <= distance_of(y2),
        0 <= distance_of(y1),
        zero_score().distance_mm == 0,
{
    lemma_div_toward_zero_ordered(y1 - SPAWN_Y, y2 - SPAWN_Y, UNITS_PER_METER as int);
    lemma_div_toward_zero_ordered(0, y1 - SPAWN_Y, UNITS_PER_METER as int);
    assert(0int / 16 == 0);
}

} // verus!
