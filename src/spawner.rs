use vstd::prelude::*;
use crate::angle::{canonical, PI_MICRO};
use crate::combat::all_bodies_wf;
use crate::difficulty::Difficulty;
use crate::entity::{
    barrel_body, new_barrel, new_obstacle, new_pirate, new_side_cannon, obstacle_body, pirate_body,
    side_cannon_body, Body, Sprite, MAP_WIDTH, OBSTACLE_KINDS, TILE_SIZE,
};
use crate::geometry::{Point, COORD_LIMIT, MAX_STEP_MS};
use crate::random::random_between;
use crate::timer::{fired_count, pool_stepped, SpawnPool, Timer, MAX_TIMER_MS};

verus! {

/// New bodies appear this far above the camera, just out of sight.
pub const SPAWN_AHEAD: i64 = 600_000;

/// Pirate ships keep this far from either edge of the strip.
pub const PIRATE_MARGIN: i64 = 40_000;

/// Obstacles and barrels keep this far from either edge of the strip.
pub const OBSTACLE_MARGIN: i64 = 30_000;

/// Duration of each timer a difficulty promotion adds.
pub const PROMOTION_TIMER_MS: u64 = 5000;

/// What a spawn pool produces.
#[derive(Clone, Copy, Debug, PartialEq, Eq, Structural)]
pub enum Category {
    SideCannon,
    Pirate,
    Obstacle,
    Barrel,
}

/// `b` is a freshly spawned body of the category, with the given handle, at height `y`.
pub open spec fn spawned_as(c: Category, b: Body, handle: u64, y: i64) -> bool {
    &&& b.pos.y == y
    &&& match c {
        Category::SideCannon => (b.pos.x == MAP_WIDTH + TILE_SIZE || b.pos.x == -TILE_SIZE)
            && b == side_cannon_body(handle, b.pos),
        Category::Pirate => PIRATE_MARGIN <= b.pos.x < MAP_WIDTH - PIRATE_MARGIN && canonical(b.rotation as int)
            && b == pirate_body(handle, b.pos, b.rotation),
        Category::Obstacle => b.sprite matches Sprite::Obstacle(i) && (i as int) < OBSTACLE_KINDS
            && OBSTACLE_MARGIN <= b.pos.x < MAP_WIDTH - OBSTACLE_MARGIN && canonical(b.rotation as int)
            && b == obstacle_body(handle, i as int, b.pos, b.rotation),
        Category::Barrel => OBSTACLE_MARGIN <= b.pos.x < MAP_WIDTH - OBSTACLE_MARGIN
            && b == barrel_body(handle, b.pos),
    }
}

/// A random horizontal position for a pirate ship, clear of the banks.
pub fn get_random_pirate_spawn_position() -> (x: i64)
    ensures
        PIRATE_MARGIN <= x < MAP_WIDTH - PIRATE_MARGIN,
{
    random_between(PIRATE_MARGIN, MAP_WIDTH - PIRATE_MARGIN)
}

/// A random horizontal position for an obstacle or a barrel, clear of the banks.
pub fn get_random_obstacle_spawn_position() -> (x: i64)
    ensures
        OBSTACLE_MARGIN <= x < MAP_WIDTH - OBSTACLE_MARGIN,
{
    random_between(OBSTACLE_MARGIN, MAP_WIDTH - OBSTACLE_MARGIN)
}

/// Builds one body of the category at height `y`: bank cannons on a random
/// bank, the others at a random place across the strip; pirates and
/// obstacles turned at random, obstacles of a random row of the table.
pub fn spawn_one(c: Category, handle: u64, y: i64) -> (b: Body)
    requires
        -COORD_LIMIT <= y <= COORD_LIMIT,
    ensures
        spawned_as(c, b, handle, y),
        b.wf(),
{
    match c {
        Category::SideCannon => {
            let left = random_between(0, 2) == 0;
            let x = if left { -TILE_SIZE } else { MAP_WIDTH + TILE_SIZE };
            new_side_cannon(handle, Point { x, y })
        },
        Category::Pirate => {
            let x = get_random_pirate_spawn_position();
            let rotation = random_between(-PI_MICRO, PI_MICRO);
            new_pirate(handle, Point { x, y }, rotation)
        },
        Category::Obstacle => {
            let index = random_between(0, OBSTACLE_KINDS as i64) as usize;
            let x = get_random_obstacle_spawn_position();
            let rotation = random_between(-PI_MICRO, PI_MICRO);
            new_obstacle(handle, index, Point { x, y }, rotation)
        },
        Category::Barrel => {
            let x = get_random_obstacle_spawn_position();
            new_barrel(handle, Point { x, y })
        },
    }
}

/// Appends `count` bodies of the category at height `y`, with consecutive
/// handles from `next_handle` on.
pub fn spawn_batch(c: Category, count: usize, y: i64, bodies: &mut Vec<Body>, next_handle: &mut u64)
    requires
        -COORD_LIMIT <= y <= COORD_LIMIT,
        *old(next_handle) + count <= u64::MAX,
    ensures
        final(bodies)@.len() == old(bodies)@.len() + count,
        forall|k: int| 0 <= k < old(bodies)@.len() ==> final(bodies)@[k] == old(bodies)@[k],
        forall|k: int| 0 <= k < count ==> spawned_as(c, #[trigger] final(bodies)@[old(bodies)@.len() + k], (*old(next_handle) + k) as u64, y),
        *final(next_handle) == *old(next_handle) + count,
        all_bodies_wf(old(bodies)@) ==> all_bodies_wf(final(bodies)@),
{
    let ghost ob = bodies@;
    let ghost h0 = *next_handle;
    let mut i: usize = 0;
    while i < count
        invariant
            0 <= i <= count,
            -COORD_LIMIT <= y <= COORD_LIMIT,
            h0 + count <= u64::MAX,
            *next_handle == h0 + i,
            bodies@.len() == ob.len() + i,
            forall|k: int| 0 <= k < ob.len() ==> bodies@[k] == ob[k],
            forall|k: int| 0 <= k < i ==> spawned_as(c, #[trigger] bodies@[ob.len() + k], (h0 + k) as u64, y),
            all_bodies_wf(ob) ==> all_bodies_wf(bodies@),
        decreases count - i,
    {
        let b = spawn_one(c, *next_handle, y);
        bodies.push(b);
        *next_handle = *next_handle + 1;
        proof {
            assert(bodies@[ob.len() + i as int] == b);
            if all_bodies_wf(ob) {
                assert forall|k: int| 0 <= k < bodies@.len() implies (#[trigger] bodies@[k]).wf() by {
                }
            }
        }
        i = i + 1;
    }
}

/// The spawn pools of the four categories.
#[derive(Debug)]
pub struct Spawner {
    pub side_cannons: SpawnPool,
    pub pirates: SpawnPool,
    pub obstacles: SpawnPool,
    pub barrels: SpawnPool,
}

/// A repeating timer that has not started.
pub open spec fn new_timer(ms: u64) -> Timer {
    Timer { duration_ms: ms, elapsed_ms: 0, repeating: true, finished: false }
}

/// The pool has exactly these timers and re-roll range.
pub open spec fn pool_is(p: SpawnPool, timers: Seq<Timer>, lo: u64, hi: u64) -> bool {
    p.timers@ == timers && p.min_ms == lo && p.max_ms == hi
}

/// How many bodies the pools spawn when advanced by `dt`.
pub open spec fn spawn_count(sp: Spawner, dt: int) -> int {
    (fired_count(sp.side_cannons.timers@, dt) + fired_count(sp.pirates.timers@, dt)
        + fired_count(sp.obstacles.timers@, dt) + fired_count(sp.barrels.timers@, dt)) as int
}

/// The pool `b` is `a` advanced by `dt`, fired timers re-rolled in its range.
pub open spec fn pool_result(a: SpawnPool, b: SpawnPool, dt: int) -> bool {
    &&& pool_stepped(a.timers@, b.timers@, dt, a.min_ms as int, a.max_ms as int)
    &&& b.min_ms == a.min_ms
    &&& b.max_ms == a.max_ms
}

/// One spawning step: every pool of `a` advanced by `dt` gives `b`, and one
/// body was appended at `camera_y + SPAWN_AHEAD` for each timer that fired
/// (bank cannons, then pirates, obstacles and barrels), with consecutive
/// handles from `h0` on.
pub open spec fn spawn_result(
    a: Spawner,
    b: Spawner,
    ob: Seq<Body>,
    nb: Seq<Body>,
    h0: int,
    h1: int,
    dt: int,
    camera_y: int,
) -> bool {
    let n = ob.len() as int;
    let y = (camera_y + SPAWN_AHEAD) as i64;
    let c1 = fired_count(a.side_cannons.timers@, dt) as int;
    let c2 = c1 + fired_count(a.pirates.timers@, dt);
    let c3 = c2 + fired_count(a.obstacles.timers@, dt);
    let total = spawn_count(a, dt);
    &&& pool_result(a.side_cannons, b.side_cannons, dt)
    &&& pool_result(a.pirates, b.pirates, dt)
    &&& pool_result(a.obstacles, b.obstacles, dt)
    &&& pool_result(a.barrels, b.barrels, dt)
    &&& nb.len() == n + total
    &&& forall|k: int| 0 <= k < n ==> nb[k] == ob[k]
    &&& h1 == h0 + total
    &&& forall|k: int| 0 <= k < c1 ==> spawned_as(Category::SideCannon, #[trigger] nb[n + k], (h0 + k) as u64, y)
    &&& forall|k: int| c1 <= k < c2 ==> spawned_as(Category::Pirate, #[trigger] nb[n + k], (h0 + k) as u64, y)
    &&& forall|k: int| c2 <= k < c3 ==> spawned_as(Category::Obstacle, #[trigger] nb[n + k], (h0 + k) as u64, y)
    &&& forall|k: int| c3 <= k < total ==> spawned_as(Category::Barrel, #[trigger] nb[n + k], (h0 + k) as u64, y)
}

/// The two spawners hold the same pools.
pub open spec fn same_spawner(a: Spawner, b: Spawner) -> bool {
    &&& pool_is(b.side_cannons, a.side_cannons.timers@, a.side_cannons.min_ms, a.side_cannons.max_ms)
    &&& pool_is(b.pirates, a.pirates.timers@, a.pirates.min_ms, a.pirates.max_ms)
    &&& pool_is(b.obstacles, a.obstacles.timers@, a.obstacles.min_ms, a.obstacles.max_ms)
    &&& pool_is(b.barrels, a.barrels.timers@, a.barrels.min_ms, a.barrels.max_ms)
}

/// Entering `tier` turned the pools of `a` into those of `b`: at `Medium` one
/// pirate and one obstacle timer were appended, at `Hard` one pirate, one
/// bank-cannon and one obstacle timer; nothing else changed.
pub open spec fn promotion_result(a: Spawner, b: Spawner, tier: Difficulty) -> bool {
    let grow_cannons = tier == Difficulty::Hard;
    let grow_others = tier == Difficulty::Medium || tier == Difficulty::Hard;
    let t = new_timer(PROMOTION_TIMER_MS);
    &&& pool_is(b.side_cannons, if grow_cannons { a.side_cannons.timers@.push(t) } else { a.side_cannons.timers@ },
            a.side_cannons.min_ms, a.side_cannons.max_ms)
    &&& pool_is(b.pirates, if grow_others { a.pirates.timers@.push(t) } else { a.pirates.timers@ },
            a.pirates.min_ms, a.pirates.max_ms)
    &&& pool_is(b.obstacles, if grow_others { a.obstacles.timers@.push(t) } else { a.obstacles.timers@ },
            a.obstacles.min_ms, a.obstacles.max_ms)
    &&& pool_is(b.barrels, a.barrels.timers@, a.barrels.min_ms, a.barrels.max_ms)
}

impl Spawner {
    pub open spec fn wf(&self) -> bool {
        self.side_cannons.wf() && self.pirates.wf() && self.obstacles.wf() && self.barrels.wf()
    }

    /// Total number of timers in all pools.
    pub open spec fn timer_count(&self) -> int {
        (self.side_cannons.timers@.len() + self.pirates.timers@.len() + self.obstacles.timers@.len()
            + self.barrels.timers@.len()) as int
    }

    /// The pools at the start of a run: one bank-cannon timer, no pirate
    /// timer, two obstacle timers and one barrel timer.
    pub open spec fn is_initial(&self) -> bool {
        &&& pool_is(self.side_cannons, seq![new_timer(5000)], 4500, 7000)
        &&& pool_is(self.pirates, seq![], 13000, 17000)
        &&& pool_is(self.obstacles, seq![new_timer(2000), new_timer(4000)], 3500, 6000)
        &&& pool_is(self.barrels, seq![new_timer(15000)], 10000, 20000)
    }

    /// The pools at the start of a run.
    pub fn new() -> (r: Spawner)
        ensures
            r.is_initial(),
            r.wf(),
    {
        let r = Spawner {
            side_cannons: SpawnPool { timers: vec![Timer::repeating(5000)], min_ms: 4500, max_ms: 7000 },
            pirates: SpawnPool { timers: Vec::new(), min_ms: 13000, max_ms: 17000 },
            obstacles: SpawnPool {
                timers: vec![Timer::repeating(2000), Timer::repeating(4000)],
                min_ms: 3500,
                max_ms: 6000,
            },
            barrels: SpawnPool { timers: vec![Timer::repeating(15000)], min_ms: 10000, max_ms: 20000 },
        };
        proof {
            assert(r.side_cannons.timers@ =~= seq![new_timer(5000)]);
            assert(r.pirates.timers@ =~= seq![]);
            assert(r.obstacles.timers@ =~= seq![new_timer(2000), new_timer(4000)]);
            assert(r.barrels.timers@ =~= seq![new_timer(15000)]);
        }
        r
    }

    /// On entering a tier, adds timers: at `Medium` one pirate and one
    /// obstacle timer; at `Hard` one pirate, one bank-cannon and one obstacle
    /// timer. Timers already there are kept as they are.
    pub fn on_promotion(&mut self, tier: Difficulty)
        requires
            old(self).wf(),
        ensures
            final(self).wf(),
            promotion_result(*old(self), *final(self), tier),
            tier == Difficulty::Medium ==> {
                &&& final(self).pirates.timers@ == old(self).pirates.timers@.push(new_timer(PROMOTION_TIMER_MS))
                &&& final(self).obstacles.timers@ == old(self).obstacles.timers@.push(new_timer(PROMOTION_TIMER_MS))
                &&& final(self).side_cannons.timers@ == old(self).side_cannons.timers@
            },
            tier == Difficulty::Hard ==> {
                &&& final(self).pirates.timers@ == old(self).pirates.timers@.push(new_timer(PROMOTION_TIMER_MS))
                &&& final(self).obstacles.timers@ == old(self).obstacles.timers@.push(new_timer(PROMOTION_TIMER_MS))
                &&& final(self).side_cannons.timers@ == old(self).side_cannons.timers@.push(new_timer(PROMOTION_TIMER_MS))
            },
            tier == Difficulty::Initial ==> {
                &&& final(self).pirates.timers@ == old(self).pirates.timers@
                &&& final(self).obstacles.timers@ == old(self).obstacles.timers@
                &&& final(self).side_cannons.timers@ == old(self).side_cannons.timers@
            },
            final(self).barrels.timers@ == old(self).barrels.timers@,
            final(self).side_cannons.min_ms == old(self).side_cannons.min_ms,
            final(self).side_cannons.max_ms == old(self).side_cannons.max_ms,
            final(self).pirates.min_ms == old(self).pirates.min_ms,
            final(self).pirates.max_ms == old(self).pirates.max_ms,
            final(self).obstacles.min_ms == old(self).obstacles.min_ms,
            final(self).obstacles.max_ms == old(self).obstacles.max_ms,
            final(self).barrels.min_ms == old(self).barrels.min_ms,
            final(self).barrels.max_ms == old(self).barrels.max_ms,
    {
        match tier {
            Difficulty::Initial => {},
            Difficulty::Medium => {
                self.pirates.grow(PROMOTION_TIMER_MS);
                self.obstacles.grow(PROMOTION_TIMER_MS);
            },
            Difficulty::Hard => {
                self.pirates.grow(PROMOTION_TIMER_MS);
                self.side_cannons.grow(PROMOTION_TIMER_MS);
                self.obstacles.grow(PROMOTION_TIMER_MS);
            },
        }
    }

    /// Advances every pool by `dt` and spawns one body at `camera_y +
    /// SPAWN_AHEAD` for each timer that fired: bank cannons first, then
    /// pirates, obstacles and barrels. Returns how many bodies were spawned.
    pub fn spawn(&mut self, dt: u64, camera_y: i64, bodies: &mut Vec<Body>, next_handle: &mut u64) -> (spawned: u64)
        requires
            old(self).wf(),
            dt <= MAX_STEP_MS,
            -COORD_LIMIT <= camera_y + SPAWN_AHEAD <= COORD_LIMIT,
            *old(next_handle) + old(self).timer_count() <= u64::MAX,
        ensures
            final(self).wf(),
            spawn_result(*old(self), *final(self), old(bodies)@, final(bodies)@, *old(next_handle) as int, *final(next_handle) as int, dt as int, camera_y as int),
            final(self).timer_count() == old(self).timer_count(),
            spawned == spawn_count(*old(self), dt as int),
            all_bodies_wf(old(bodies)@) ==> all_bodies_wf(final(bodies)@),
    {
        let ghost ob = bodies@;
        let ghost h0 = *next_handle;
        let y = camera_y + SPAWN_AHEAD;
        proof {
            lemma_fired_le(self.side_cannons.timers@, dt as int);
            lemma_fired_le(self.pirates.timers@, dt as int);
            lemma_fired_le(self.obstacles.timers@, dt as int);
            lemma_fired_le(self.barrels.timers@, dt as int);
        }
        let a = self.side_cannons.step(dt);
        spawn_batch(Category::SideCannon, a, y, bodies, next_handle);
        let ghost after_a = bodies@;
        let b = self.pirates.step(dt);
        spawn_batch(Category::Pirate, b, y, bodies, next_handle);
        let ghost after_b = bodies@;
        let c = self.obstacles.step(dt);
        spawn_batch(Category::Obstacle, c, y, bodies, next_handle);
        let ghost after_c = bodies@;
        let d = self.barrels.step(dt);
        spawn_batch(Category::Barrel, d, y, bodies, next_handle);
        proof {
            let n = ob.len() as int;
            assert forall|k: int| 0 <= k < a implies spawned_as(Category::SideCannon, #[trigger] bodies@[n + k], (h0 + k) as u64, y) by {
                assert(bodies@[n + k] == after_c[n + k]);
                assert(after_c[n + k] == after_b[n + k]);
                assert(after_b[n + k] == after_a[n + k]);
            }
            assert forall|k: int| a <= k < a + b implies spawned_as(Category::Pirate, #[trigger] bodies@[n + k], (h0 + k) as u64, y) by {
                assert(bodies@[n + k] == after_c[n + k]);
                assert(after_c[n + k] == after_b[n + k]);
                assert(after_b[after_a.len() + (k - a)] == after_b[n + k]);
            }
            assert forall|k: int| a + b <= k < a + b + c implies spawned_as(Category::Obstacle, #[trigger] bodies@[n + k], (h0 + k) as u64, y) by {
                assert(bodies@[n + k] == after_c[n + k]);
                assert(after_c[after_b.len() + (k - a - b)] == after_c[n + k]);
            }
            assert forall|k: int| a + b + c <= k < a + b + c + d implies spawned_as(Category::Barrel, #[trigger] bodies@[n + k], (h0 + k) as u64, y) by {
                assert(bodies@[after_c.len() + (k - a - b - c)] == bodies@[n + k]);
            }
        }
        a as u64 + b as u64 + c as u64 + d as u64
    }
}

proof fn lemma_fired_le(ts: Seq<Timer>, dt: int)
    ensures
        fired_count(ts, dt) <= ts.len(),
    decreases ts.len(),
{
    if ts.len() > 0 {
        lemma_fired_le(ts.drop_last(), dt);
    }
}

} // verus!
