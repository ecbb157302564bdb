use vstd::prelude::*;
use crate::geometry::MAX_STEP_MS;
use crate::random::random_between;

verus! {

/// Longest duration a timer may be given, in milliseconds.
pub const MAX_TIMER_MS: u64 = 1_000_000_000;

/// A countdown measured in milliseconds. A repeating timer wraps around and
/// keeps the remainder; a one-shot timer stops once it has finished.
#[derive(Clone, Copy, Debug, PartialEq, Eq, Structural)]
pub struct Timer {
    pub duration_ms: u64,
    pub elapsed_ms: u64,
    pub repeating: bool,
    pub finished: bool,
}

/// The timer after `dt` more milliseconds; `finished` tells whether it fired
/// during that step (at most once, however long the step).
pub open spec fn ticked(t: Timer, dt: int) -> Timer {
    if !t.repeating && t.finished {
        t
    } else if t.elapsed_ms + dt >= t.duration_ms {
        if t.repeating {
            Timer { elapsed_ms: ((t.elapsed_ms + dt) % (t.duration_ms as int)) as u64, finished: true, ..t }
        } else {
            Timer { elapsed_ms: t.duration_ms, finished: true, ..t }
        }
    } else {
        Timer { elapsed_ms: (t.elapsed_ms + dt) as u64, finished: false, ..t }
    }
}

impl Timer {
    pub open spec fn wf(self) -> bool {
        0 < self.duration_ms <= MAX_TIMER_MS && self.elapsed_ms <= MAX_TIMER_MS
    }

    /// A repeating timer of the given duration.
    pub fn repeating(duration_ms: u64) -> (r: Timer)
        ensures
            r == (Timer { duration_ms, elapsed_ms: 0, repeating: true, finished: false }),
    {
        Timer { duration_ms, elapsed_ms: 0, repeating: true, finished: false }
    }

    /// A one-shot timer of the given duration.
    pub fn once(duration_ms: u64) -> (r: Timer)
        ensures
            r == (Timer { duration_ms, elapsed_ms: 0, repeating: false, finished: false }),
    {
        Timer { duration_ms, elapsed_ms: 0, repeating: false, finished: false }
    }

    /// Advances the timer by `dt` milliseconds.
    pub fn tick(&mut self, dt: u64)
        requires
            old(self).wf(),
            dt <= MAX_STEP_MS,
        ensures
            *final(self) == ticked(*old(self), dt as int),
            final(self).wf(),
    {
        if !self.repeating && self.finished {
            return;
        }
        let e: u64 = self.elapsed_ms + dt;
        if e >= self.duration_ms {
            if self.repeating {
                self.elapsed_ms = e % self.duration_ms;
            } else {
                self.elapsed_ms = self.duration_ms;
            }
            self.finished = true;
        } else {
            self.elapsed_ms = e;
            self.finished = false;
        }
    }

    /// Starts the countdown again from zero.
    pub fn reset(&mut self)
        ensures
            *final(self) == (Timer { elapsed_ms: 0, finished: false, ..*old(self) }),
    {
        self.elapsed_ms = 0;
        self.finished = false;
    }

    /// Gives the timer a new duration; the time already elapsed is kept.
    pub fn set_duration(&mut self, duration_ms: u64)
        ensures
            *final(self) == (Timer { duration_ms, ..*old(self) }),
    {
        self.duration_ms = duration_ms;
    }
}

/// Why a spawn pool could not be configured.
#[derive(Clone, Copy, Debug, PartialEq, Eq, Structural)]
pub enum ConfigError {
    /// The re-roll range is empty or inverted, or starts at zero.
    BadRange,
    /// A starting timer has a zero duration.
    ZeroDuration,
    /// A duration is longer than `MAX_TIMER_MS`.
    TooLong,
}

/// Independent repeating timers of one spawn category. A timer that fires is
/// given a fresh duration drawn from `[min_ms, max_ms)`.
#[derive(Debug)]
pub struct SpawnPool {
    pub timers: Vec<Timer>,
    pub min_ms: u64,
    pub max_ms: u64,
}

/// How many of the timers fire when advanced by `dt`.
pub open spec fn fired_count(ts: Seq<Timer>, dt: int) -> nat
    decreases ts.len(),
{
    if ts.len() == 0 {
        0
    } else {
        fired_count(ts.drop_last(), dt) + if ticked(ts.last(), dt).finished { 1nat } else { 0nat }
    }
}

/// `after` is the pool `before` advanced by `dt`, where each timer that fired
/// took a new duration from `[lo, hi)` and the others kept theirs.
pub open spec fn pool_stepped(before: Seq<Timer>, after: Seq<Timer>, dt: int, lo: int, hi: int) -> bool {
    &&& after.len() == before.len()
    &&& forall|i: int| 0 <= i < before.len() ==> {
        let t = #[trigger] ticked(before[i], dt);
        if t.finished {
            after[i] == (Timer { duration_ms: after[i].duration_ms, ..t })
                && lo <= after[i].duration_ms < hi
        } else {
            after[i] == t
        }
    }
}

/// The starting durations are all valid repeating timers.
pub open spec fn repeating_pool(ts: Seq<Timer>, durations: Seq<u64>) -> bool {
    &&& ts.len() == durations.len()
    &&& forall|i: int| 0 <= i < ts.len() ==> ts[i] == (Timer {
        duration_ms: #[trigger] durations[i],
        elapsed_ms: 0,
        repeating: true,
        finished: false,
    })
}

/// The range `[lo, hi)` can be drawn from and fits a timer.
pub open spec fn valid_range(lo: int, hi: int) -> bool {
    0 < lo < hi <= MAX_TIMER_MS
}

impl SpawnPool {
    pub open spec fn wf(&self) -> bool {
        &&& valid_range(self.min_ms as int, self.max_ms as int)
        &&& forall|i: int| 0 <= i < self.timers@.len() ==> (#[trigger] self.timers@[i]).wf()
    }

    /// A pool with one repeating timer per starting duration, re-rolled within
    /// `[min_ms, max_ms)`. The range and the durations are checked here, so
    /// that spawning never meets a bad one.
    pub fn new(min_ms: u64, max_ms: u64, durations: &Vec<u64>) -> (r: Result<SpawnPool, ConfigError>)
        ensures
            !valid_range(min_ms as int, max_ms as int) ==> r == Err::<SpawnPool, ConfigError>(ConfigError::BadRange),
            valid_range(min_ms as int, max_ms as int) && (exists|i: int| 0 <= i < durations@.len() && #[trigger] durations@[i] == 0)
                ==> r == Err::<SpawnPool, ConfigError>(ConfigError::ZeroDuration),
            valid_range(min_ms as int, max_ms as int)
                && (forall|i: int| 0 <= i < durations@.len() ==> #[trigger] durations@[i] > 0)
                && (exists|i: int| 0 <= i < durations@.len() && #[trigger] durations@[i] > MAX_TIMER_MS)
                ==> r == Err::<SpawnPool, ConfigError>(ConfigError::TooLong),
            r is Ok <==> valid_range(min_ms as int, max_ms as int)
                && (forall|i: int| 0 <= i < durations@.len() ==> 0 < #[trigger] durations@[i] <= MAX_TIMER_MS),
            r matches Ok(p) ==> p.wf() && p.min_ms == min_ms && p.max_ms == max_ms
                && repeating_pool(p.timers@, durations@),
    {
        if !(0 < min_ms && min_ms < max_ms && max_ms <= MAX_TIMER_MS) {
            return Err(ConfigError::BadRange);
        }
        let mut i: usize = 0;
        while i < durations.len()
            invariant
                valid_range(min_ms as int, max_ms as int),
                0 <= i <= durations@.len(),
                forall|k: int| 0 <= k < i ==> durations@[k] > 0,
            decreases durations@.len() - i,
        {
            if durations[i] == 0 {
                return Err(ConfigError::ZeroDuration);
            }
            i = i + 1;
        }
        let mut timers: Vec<Timer> = Vec::new();
        let mut j: usize = 0;
        while j < durations.len()
            invariant
                valid_range(min_ms as int, max_ms as int),
                0 <= j <= durations@.len(),
                forall|k: int| 0 <= k < durations@.len() ==> durations@[k] > 0,
                timers@.len() == j,
                forall|k: int| 0 <= k < j ==> timers@[k] == (Timer {
                    duration_ms: #[trigger] durations@[k],
                    elapsed_ms: 0,
                    repeating: true,
                    finished: false,
                }),
                forall|k: int| 0 <= k < j ==> durations@[k] <= MAX_TIMER_MS,
            decreases durations@.len() - j,
        {
            if durations[j] > MAX_TIMER_MS {
                return Err(ConfigError::TooLong);
            }
            timers.push(Timer::repeating(durations[j]));
            j = j + 1;
        }
        assert forall|k: int| 0 <= k < timers@.len() implies (#[trigger] timers@[k]).wf() by {
            assert(durations@[k] > 0);
        }
        Ok(SpawnPool { timers, min_ms, max_ms })
    }

    /// Appends a repeating timer; the timers already there are untouched.
    pub fn grow(&mut self, duration_ms: u64)
        requires
            old(self).wf(),
            0 < duration_ms <= MAX_TIMER_MS,
        ensures
            final(self).wf(),
            final(self).min_ms == old(self).min_ms,
            final(self).max_ms == old(self).max_ms,
            final(self).timers@ == old(self).timers@.push(
                Timer { duration_ms, elapsed_ms: 0, repeating: true, finished: false },
            ),
    {
        self.timers.push(Timer::repeating(duration_ms));
    }

    /// Gives a fired timer the duration `drawn`, which must lie in the pool's range.
    pub fn reroll(&mut self, i: usize, drawn: u64)
        requires
            old(self).wf(),
            i < old(self).timers@.len(),
            old(self).min_ms <= drawn < old(self).max_ms,
        ensures
            final(self).wf(),
            final(self).min_ms == old(self).min_ms,
            final(self).max_ms == old(self).max_ms,
            final(self).timers@ == old(self).timers@.update(
                i as int,
                (Timer { duration_ms: drawn, ..old(self).timers@[i as int] }),
            ),
    {
        let mut t = self.timers[i];
        t.set_duration(drawn);
        self.timers.set(i, t);
    }

    /// Advances every timer by `dt`, re-rolls the duration of each one that
    /// fired, and returns how many fired.
    pub fn step(&mut self, dt: u64) -> (fired: usize)
        requires
            old(self).wf(),
            dt <= MAX_STEP_MS,
        ensures
            final(self).wf(),
            final(self).min_ms == old(self).min_ms,
            final(self).max_ms == old(self).max_ms,
            pool_stepped(old(self).timers@, final(self).timers@, dt as int,
                old(self).min_ms as int, old(self).max_ms as int),
            fired as nat == fired_count(old(self).timers@, dt as int),
    {
        let ghost before = self.timers@;
        let mut fired: usize = 0;
        let mut i: usize = 0;
        while i < self.timers.len()
            invariant
                self.wf(),
                self.min_ms == old(self).min_ms,
                self.max_ms == old(self).max_ms,
                before == old(self).timers@,
                self.timers@.len() == before.len(),
                0 <= i <= before.len(),
                fired as nat == fired_count(before.take(i as int), dt as int),
                fired <= i,
                dt <= MAX_STEP_MS,
                forall|k: int| i <= k < before.len() ==> self.timers@[k] == before[k],
                forall|k: int| 0 <= k < i ==> {
                    let t = #[trigger] ticked(before[k], dt as int);
                    if t.finished {
                        self.timers@[k] == (Timer { duration_ms: self.timers@[k].duration_ms, ..t })
                            && self.min_ms <= self.timers@[k].duration_ms < self.max_ms
                    } else {
                        self.timers@[k] == t
                    }
                },
            decreases before.len() - i,
        {
            let mut t = self.timers[i];
            t.tick(dt);
            if t.finished {
                let d = random_between(self.min_ms as i64, self.max_ms as i64);
                t.set_duration(d as u64);
                fired = fired + 1;
            }
            self.timers.set(i, t);
            proof {
                assert(before.take(i as int + 1).drop_last() == before.take(i as int));
            }
            i = i + 1;
        }
        proof {
            assert(before.take(before.len() as int) == before);
        }
        fired
    }
}

} // verus!
