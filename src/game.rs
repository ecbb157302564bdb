use vstd::prelude::*;
use crate::angle::canonical;
use crate::combat::{
    all_bodies_wf, all_shots_wf, bodies_in_view, bullet_pass, contact_damage, contact_pass, damage_from, death_events,
    death_pass, death_result, hurt, impacts, kills, shots_in_field, survivors, sweep_bodies, sweep_shots, touches,
    KILL_SCORE,
};
use crate::difficulty::{next_tier, rank, Difficulty};
use crate::entity::{fresh_player, new_player, Body, Bullet, Health, Kind, Mass, PowerUpType, Shot, Sprite, BULLET_SIDE, SPAWN_Y, TILE_SIZE};
use crate::environment::{border_pair, land_row, row_due, water_row, MapObject, BORDER_VARIANTS};
use crate::event::{repeated, Event};
use crate::geometry::{advance, advanced, clamp, clamp_coord, Dir, Point, Size, COORD_LIMIT, MAX_STEP_MS};
use crate::motion::{
    aim_cannon, armed_stepped, cannon_aimed, enemy_weapons, mount_position, mounted_at, move_shots, steer, steered,
    tilt, tilt_of, volley, CANNON_MOUNT_Y, PLAYER_BULLET_SPEED, PLAYER_SPEED,
};
use crate::power_up::{
    boost_timers, boosted_times, collect_power_ups, exhaust_wf, fresh_cannon, left_behind, new_cannon, pickup_events,
    picks, relaxed_times, repaired_times, still_running, tick_exhaust, PlayerCannon,
};
use crate::score::{distance_of, effective_score, zero_score, GameScore};
use crate::spawner::{promotion_result, same_spawner, spawn_result, Spawner, SPAWN_AHEAD};
use crate::timer::{fired_count, ticked, SpawnPool, Timer};

verus! {

/// The handle of the player's boat.
pub const PLAYER_HANDLE: u64 = 0;

/// The camera looks this far ahead of the player's boat.
pub const CAMERA_LEAD: i64 = 180_000;

/// Whether the simulation advances.
#[derive(Clone, Copy, Debug, PartialEq, Eq, Structural)]
pub enum Phase {
    Running,
    Paused,
    /// The player's boat sank; nothing moves until a restart.
    Ended,
}

/// What the player asks for during one step: a steering direction (of unit
/// length, or none), the bearing from the cannon to the aim point (an angle
/// in `[-π, π)`, or none when there is nothing to aim at), and whether to fire.
#[derive(Clone, Copy, Debug, PartialEq, Eq, Structural)]
pub struct Intent {
    pub steer: Option<Dir>,
    pub aim_bearing: Option<i64>,
    pub fire: bool,
}

impl Intent {
    pub open spec fn wf(self) -> bool {
        &&& (self.steer matches Some(d) ==> d.wf())
        &&& (self.aim_bearing matches Some(a) ==> canonical(a as int))
    }
}

/// What one step produced: the sound events in order, and whether the run
/// ended during it.
#[derive(Debug)]
pub struct StepReport {
    pub events: Vec<Event>,
    pub run_ended: bool,
}

/// What the heads-up display shows.
#[derive(Clone, Copy, Debug, PartialEq, Eq, Structural)]
pub struct Hud {
    pub score: i128,
    pub distance_mm: i64,
    pub elapsed_ms: u64,
    pub health: i32,
    pub max_health: i32,
    pub active_power_ups: usize,
}

/// The whole state of a run. The player's boat is always `bodies[0]`.
#[derive(Debug)]
pub struct Game {
    pub bodies: Vec<Body>,
    pub shots: Vec<Shot>,
    pub heading: Dir,
    pub cannon: PlayerCannon,
    pub exhaust: Vec<Timer>,
    pub camera_y: i64,
    pub frontiers: MapObject,
    pub spawner: Spawner,
    pub score: GameScore,
    pub difficulty: Difficulty,
    pub next_handle: u64,
    pub phase: Phase,
}

/// The boat's picture for its health: a wreck at zero or below, badly
/// damaged at a third or less, damaged at two thirds or less.
pub open spec fn boat_sprite_for(h: Health) -> Sprite {
    if h.amount <= 0 {
        Sprite::BoatWreck
    } else if h.amount * 100 <= 33 * h.max_amount {
        Sprite::BoatBadlyDamaged
    } else if h.amount * 100 <= 66 * h.max_amount {
        Sprite::BoatDamaged
    } else {
        Sprite::Boat
    }
}

/// Picks the boat's picture for its health.
pub fn boat_sprite(h: Health) -> (r: Sprite)
    ensures
        r == boat_sprite_for(h),
{
    let scaled: i64 = h.amount as i64 * 100;
    if h.amount <= 0 {
        Sprite::BoatWreck
    } else if scaled <= 33 * h.max_amount as i64 {
        Sprite::BoatBadlyDamaged
    } else if scaled <= 66 * h.max_amount as i64 {
        Sprite::BoatDamaged
    } else {
        Sprite::Boat
    }
}

/// Two spawn pools hold the same timers and range.
pub open spec fn same_pool(a: SpawnPool, b: SpawnPool) -> bool {
    a.timers@ == b.timers@ && a.min_ms == b.min_ms && a.max_ms == b.max_ms
}

/// Two games are in the same state.
pub open spec fn same_state(a: &Game, b: &Game) -> bool {
    &&& a.bodies@ == b.bodies@
    &&& a.shots@ == b.shots@
    &&& a.heading == b.heading
    &&& a.cannon == b.cannon
    &&& a.exhaust@ == b.exhaust@
    &&& a.camera_y == b.camera_y
    &&& a.frontiers == b.frontiers
    &&& same_pool(a.spawner.side_cannons, b.spawner.side_cannons)
    &&& same_pool(a.spawner.pirates, b.spawner.pirates)
    &&& same_pool(a.spawner.obstacles, b.spawner.obstacles)
    &&& same_pool(a.spawner.barrels, b.spawner.barrels)
    &&& a.score == b.score
    &&& a.difficulty == b.difficulty
    &&& a.next_handle == b.next_handle
    &&& a.phase == b.phase
}

impl Game {
    pub open spec fn wf(&self) -> bool {
        &&& self.bodies@.len() >= 1
        &&& self.bodies@[0].kind == Kind::Player
        &&& self.bodies@[0].health is Some
        &&& all_bodies_wf(self.bodies@)
        &&& all_shots_wf(self.shots@)
        &&& self.heading.wf()
        &&& self.cannon.wf()
        &&& exhaust_wf(self.exhaust@)
        &&& -COORD_LIMIT <= self.camera_y <= COORD_LIMIT
        &&& self.frontiers.wf()
        &&& self.spawner.wf()
    }

    /// The state at the start of a run: only the player's boat, heading up
    /// the river, no bullets, no terrain, the starting spawn pools, a zero
    /// score, the `Initial` tier.
    pub open spec fn is_fresh(&self) -> bool {
        &&& self.bodies@ == seq![fresh_player(PLAYER_HANDLE)]
        &&& self.shots@ == Seq::<Shot>::empty()
        &&& self.heading == (Dir { x: 0, y: 1000 })
        &&& self.cannon == fresh_cannon()
        &&& self.exhaust@ == Seq::<Timer>::empty()
        &&& self.camera_y == SPAWN_Y + CAMERA_LEAD
        &&& self.frontiers == (MapObject { water_top: 0, border_top: 0, land_top: 0 })
        &&& self.spawner.is_initial()
        &&& self.score == zero_score()
        &&& self.difficulty == Difficulty::Initial
        &&& self.next_handle == PLAYER_HANDLE + 1
        &&& self.phase == Phase::Running
    }

    /// A new run.
    pub fn new() -> (r: Game)
        ensures
            r.is_fresh(),
            r.wf(),
    {
        let mut bodies: Vec<Body> = Vec::new();
        bodies.push(new_player(PLAYER_HANDLE));
        let r = Game {
            bodies,
            shots: Vec::new(),
            heading: Dir { x: 0, y: 1000 },
            cannon: new_cannon(),
            exhaust: Vec::new(),
            camera_y: SPAWN_Y + CAMERA_LEAD,
            frontiers: MapObject::new(),
            spawner: Spawner::new(),
            score: GameScore::new(),
            difficulty: Difficulty::Initial,
            next_handle: PLAYER_HANDLE + 1,
            phase: Phase::Running,
        };
        proof {
            assert(r.bodies@ =~= seq![fresh_player(PLAYER_HANDLE)]);
            assert(r.shots@ =~= Seq::<Shot>::empty());
            assert(r.exhaust@ =~= Seq::<Timer>::empty());
        }
        r
    }

    /// Wipes the run: every body but a new player's boat, every bullet and
    /// power-up timer goes; spawn pools, terrain, score and tier start over.
    pub fn restart(&mut self)
        ensures
            final(self).is_fresh(),
            final(self).wf(),
    {
        *self = Game::new();
    }

    /// Stops the simulation; a run that ended stays ended.
    pub fn pause(&mut self)
        ensures
            final(self).phase == if old(self).phase == Phase::Running { Phase::Paused } else { old(self).phase },
            same_state(final(self), &Game { phase: final(self).phase, ..*old(self) }),
    {
        if self.phase == Phase::Running {
            self.phase = Phase::Paused;
        }
    }

    /// Lets a paused simulation run again.
    pub fn resume(&mut self)
        ensures
            final(self).phase == if old(self).phase == Phase::Paused { Phase::Running } else { old(self).phase },
            same_state(final(self), &Game { phase: final(self).phase, ..*old(self) }),
    {
        if self.phase == Phase::Paused {
            self.phase = Phase::Running;
        }
    }

    /// Promotes the tier by at most one step for the current effective score.
    /// On a promotion the spawn pools of the new tier grow; returns whether
    /// the tier changed.
    pub fn update_difficulty(&mut self) -> (promoted: bool)
        requires
            old(self).wf(),
        ensures
            final(self).wf(),
            final(self).difficulty == next_tier(old(self).difficulty, effective_score(old(self).score)),
            promoted == (final(self).difficulty != old(self).difficulty),
            rank(old(self).difficulty) <= rank(final(self).difficulty),
            promoted && final(self).difficulty == Difficulty::Medium ==> {
                &&& final(self).spawner.pirates.timers@.len() == old(self).spawner.pirates.timers@.len() + 1
                &&& final(self).spawner.obstacles.timers@.len() == old(self).spawner.obstacles.timers@.len() + 1
                &&& final(self).spawner.side_cannons.timers@ == old(self).spawner.side_cannons.timers@
            },
            promoted && final(self).difficulty == Difficulty::Hard ==> {
                &&& final(self).spawner.pirates.timers@.len() == old(self).spawner.pirates.timers@.len() + 1
                &&& final(self).spawner.obstacles.timers@.len() == old(self).spawner.obstacles.timers@.len() + 1
                &&& final(self).spawner.side_cannons.timers@.len() == old(self).spawner.side_cannons.timers@.len() + 1
            },
            !promoted ==> {
                &&& final(self).spawner.pirates.timers@ == old(self).spawner.pirates.timers@
                &&& final(self).spawner.obstacles.timers@ == old(self).spawner.obstacles.timers@
                &&& final(self).spawner.side_cannons.timers@ == old(self).spawner.side_cannons.timers@
            },
            final(self).spawner.barrels.timers@ == old(self).spawner.barrels.timers@,
            promoted ==> promotion_result(old(self).spawner, final(self).spawner, final(self).difficulty),
            !promoted ==> same_spawner(old(self).spawner, final(self).spawner),
            final(self).bodies@ == old(self).bodies@,
            final(self).shots@ == old(self).shots@,
            final(self).heading == old(self).heading,
            final(self).cannon == old(self).cannon,
            final(self).exhaust@ == old(self).exhaust@,
            final(self).camera_y == old(self).camera_y,
            final(self).frontiers == old(self).frontiers,
            final(self).next_handle == old(self).next_handle,
            final(self).score == old(self).score,
            final(self).phase == old(self).phase,
    {
        let eff = self.score.effective();
        let next = self.difficulty.promoted(eff);
        if next != self.difficulty {
            self.spawner.on_promotion(next);
            self.difficulty = next;
            true
        } else {
            false
        }
    }

    /// What the heads-up display shows now.
    pub fn hud(&self) -> (r: Hud)
        requires
            self.wf(),
        ensures
            r.score == effective_score(self.score),
            r.distance_mm == self.score.distance_mm,
            r.elapsed_ms == self.score.elapsed_ms,
            r.health == self.bodies@[0].health.unwrap().amount,
            r.max_health == self.bodies@[0].health.unwrap().max_amount,
            r.active_power_ups == self.exhaust@.len(),
    {
        let (health, max_health) = match self.bodies[0].health {
            Some(h) => (h.amount, h.max_amount),
            None => (0, 0),
        };
        Hud {
            score: self.score.effective(),
            distance_mm: self.score.distance_mm,
            elapsed_ms: self.score.elapsed_ms,
            health,
            max_health,
            active_power_ups: self.exhaust.len(),
        }
    }

    /// There are handles left for `n` more bodies or bullets.
    fn handles_left(&self, n: u128) -> (r: bool)
        ensures
            r == (self.next_handle + n <= u64::MAX),
    {
        n <= (u64::MAX - self.next_handle) as u128
    }

    /// Adds the step to the time played, steers and moves the boat, moves
    /// the camera with it, and moves every bullet.
    fn move_all(&mut self, steering: Option<Dir>, dt_ms: u64)
        requires
            old(self).wf(),
            steering matches Some(d) ==> d.wf(),
            dt_ms <= MAX_STEP_MS,
        ensures
            final(self).wf(),
            moved(*old(self), *final(self), steering, dt_ms as int),
    {
        self.score.add_time(dt_ms);
        let heading = steer(self.heading, steering, dt_ms);
        let mut p = self.bodies[0];
        proof {
            assert(self.bodies@[0].wf());
        }
        p.rotation = tilt(heading);
        p.pos = advance(p.pos, heading, PLAYER_SPEED, dt_ms);
        self.bodies.set(0, p);
        self.heading = heading;
        self.camera_y = clamp(p.pos.y as i128 + CAMERA_LEAD as i128);
        move_shots(&mut self.shots, dt_ms);
        proof {
            assert forall|k: int| 0 <= k < self.bodies@.len() implies (#[trigger] self.bodies@[k]).wf() by {
                if k > 0 {
                    assert(self.bodies@[k] == old(self).bodies@[k]);
                }
            }
            assert(self.shots@ =~= flown(old(self).shots@, dt_ms as int));
        }
    }

    /// Aims the player's cannon and fires it when asked and ready.
    fn player_weapon(&mut self, intent: Intent, dt_ms: u64) -> (events: Vec<Event>)
        requires
            old(self).wf(),
            intent.wf(),
            dt_ms <= MAX_STEP_MS,
        ensures
            final(self).wf(),
            player_fired(*old(self), *final(self), intent, dt_ms as int, events@),
    {
        let mut events: Vec<Event> = Vec::new();
        if !self.handles_left(1) {
            return events;
        }
        let p = self.bodies[0];
        proof {
            assert(self.bodies@[0].wf());
        }
        aim_cannon(&mut self.cannon, p.rotation, intent.aim_bearing, dt_ms);
        self.cannon.cooldown.tick(dt_ms);
        if intent.fire && self.cannon.cooldown.finished {
            let muzzle = mount_position(p.pos, p.rotation, Point { x: 0, y: CANNON_MOUNT_Y });
            let shot = Shot {
                handle: self.next_handle,
                pos: muzzle,
                dir: self.cannon.aim,
                speed: PLAYER_BULLET_SPEED,
                bullet: Bullet::new(p.handle),
            };
            self.shots.push(shot);
            self.next_handle = self.next_handle + 1;
            self.cannon.cooldown.reset();
            events.push(Event::BulletFired);
            proof {
                assert forall|k: int| 0 <= k < self.shots@.len() implies (#[trigger] self.shots@[k]).wf() by {
                    if k < self.shots@.len() - 1 {
                        assert(self.shots@[k] == old(self).shots@[k]);
                    }
                }
            }
        }
        events
    }

    /// Steps every enemy weapon, while handles last.
    fn enemy_fire(&mut self, dt_ms: u64) -> (events: Vec<Event>)
        requires
            old(self).wf(),
            dt_ms <= MAX_STEP_MS,
        ensures
            final(self).wf(),
            enemies_fired(*old(self), *final(self), dt_ms as int, events@),
    {
        let mut events: Vec<Event> = Vec::new();
        if self.handles_left(self.bodies.len() as u128) {
            enemy_weapons(&mut self.bodies, &mut self.shots, &mut self.next_handle, dt_ms, &mut events);
            proof {
                let a = *old(self);
                assert(self.bodies@ =~= Seq::new(
                    a.bodies@.len(),
                    |j: int| armed_stepped(a.bodies@[j], a.bodies@[0].pos, dt_ms as int),
                ));
                assert(events@ =~= repeated(
                    Event::BulletFired,
                    volley(a.bodies@, a.bodies@.len() as int, a.bodies@[0].pos, dt_ms as int, a.next_handle as int).len(),
                ));
            }
        }
        events
    }

    /// Extends water, border and land ahead of the camera, while handles last.
    fn extend_terrain(&mut self)
        requires
            old(self).wf(),
        ensures
            final(self).wf(),
            terrain_extended(*old(self), *final(self)),
    {
        let ghost a = *self;
        if self.handles_left(8) {
            self.frontiers.advance_water(self.camera_y, &mut self.bodies, &mut self.next_handle);
        }
        let ghost b1 = self.bodies@;
        let ghost h1 = self.next_handle;
        let mut pictures: (u8, u8) = (0, 0);
        if self.handles_left(2) {
            pictures = self.frontiers.advance_border(self.camera_y, &mut self.bodies, &mut self.next_handle);
        }
        let ghost b2 = self.bodies@;
        if self.handles_left(4) {
            self.frontiers.advance_land(self.camera_y, &mut self.bodies, &mut self.next_handle);
        }
        proof {
            let w = a.next_handle + 8 <= u64::MAX && row_due(a.frontiers.water_top as int, a.camera_y as int);
            let wrow = if w { water_row(a.next_handle, (a.frontiers.water_top + TILE_SIZE) as i64) } else { seq![] };
            let hb = if w { a.next_handle + 8 } else { a.next_handle as int };
            let bd = hb + 2 <= u64::MAX && row_due(a.frontiers.border_top as int, a.camera_y as int);
            let brow = if bd {
                border_pair(hb as u64, (a.frontiers.border_top + TILE_SIZE) as i64, pictures.0, pictures.1)
            } else {
                seq![]
            };
            assert(b1 =~= a.bodies@ + wrow);
            assert(b2 =~= a.bodies@ + wrow + brow);
            assert(terrain_rows(a, self.bodies@, pictures.0, pictures.1));
        }
    }

    /// Lets the spawn pools fire, while handles and coordinates last.
    fn run_spawner(&mut self, dt_ms: u64)
        requires
            old(self).wf(),
            dt_ms <= MAX_STEP_MS,
        ensures
            final(self).wf(),
            spawned(*old(self), *final(self), dt_ms as int),
    {
        let timers: u128 = self.spawner.side_cannons.timers.len() as u128 + self.spawner.pirates.timers.len() as u128
            + self.spawner.obstacles.timers.len() as u128 + self.spawner.barrels.timers.len() as u128;
        if self.handles_left(timers) && self.camera_y <= COORD_LIMIT - SPAWN_AHEAD {
            self.spawner.spawn(dt_ms, self.camera_y, &mut self.bodies, &mut self.next_handle);
        }
    }

    /// Collects the power-ups the boat touches and lets expired boosts wear off.
    fn handle_power_ups(&mut self, dt_ms: u64) -> (events: Vec<Event>)
        requires
            old(self).wf(),
            dt_ms <= MAX_STEP_MS,
        ensures
            final(self).wf(),
            powered(*old(self), *final(self), dt_ms as int, events@),
    {
        let mut events: Vec<Event> = Vec::new();
        collect_power_ups(&mut self.bodies, &mut self.cannon, &mut self.exhaust, &mut events);
        let ghost picked = events@;
        let ended = tick_exhaust(&mut self.exhaust, &mut self.cannon, dt_ms);
        let mut e: usize = 0;
        while e < ended
            invariant
                0 <= e <= ended,
                events@ == picked + repeated(Event::PowerUpExhausted, e as nat),
            decreases ended - e,
        {
            events.push(Event::PowerUpExhausted);
            e = e + 1;
            proof {
                assert(events@ =~= picked + repeated(Event::PowerUpExhausted, e as nat));
            }
        }
        events
    }

    /// Resolves bullets against bodies, then contact with the boat.
    fn resolve_hits(&mut self) -> (events: Vec<Event>)
        requires
            old(self).wf(),
        ensures
            final(self).wf(),
            hits_resolved(*old(self), *final(self), events@),
    {
        let mut events: Vec<Event> = Vec::new();
        let hits = bullet_pass(&mut self.shots, &mut self.bodies);
        proof {
            assert(self.bodies@ =~= after_bullets(old(self).shots@, old(self).bodies@));
        }
        let mut h: usize = 0;
        while h < hits.len()
            invariant
                0 <= h <= hits@.len(),
                events@ == hit_events(hits@.take(h as int)),
            decreases hits@.len() - h,
        {
            match hits[h] {
                Mass::Wood => events.push(Event::BulletHitWood),
                Mass::Rock => events.push(Event::BulletHitRock),
            }
            h = h + 1;
            proof {
                assert(events@ =~= hit_events(hits@.take(h as int)));
            }
        }
        proof {
            assert(hits@.take(hits@.len() as int) =~= hits@);
        }
        let ghost mid = self.bodies@;
        contact_pass(&mut self.bodies);
        proof {
            assert(self.bodies@ =~= after_contact(mid));
        }
        events
    }

    /// Turns the dead into wrecks and credits kills, while handles last.
    fn resolve_deaths(&mut self) -> (events: Vec<Event>)
        requires
            old(self).wf(),
        ensures
            final(self).wf(),
            deaths_resolved(*old(self), *final(self), events@),
    {
        let mut events: Vec<Event> = Vec::new();
        if self.handles_left(self.bodies.len() as u128) {
            let killed = death_pass(&mut self.bodies, &mut self.next_handle, &mut events);
            self.score.add_kills(killed, KILL_SCORE);
            proof {
                assert(events@ =~= death_events(old(self).bodies@, old(self).bodies@.len() as int));
            }
        }
        events
    }

    /// Removes the bullets that left the field and the bodies far behind the camera.
    fn clear_behind(&mut self)
        requires
            old(self).wf(),
        ensures
            final(self).wf(),
            swept(*old(self), *final(self)),
    {
        sweep_shots(&mut self.shots);
        sweep_bodies(&mut self.bodies, self.camera_y);
    }

    /// Shows the boat's damage, ends the run if it sank (with a crash
    /// sound), and updates distance and tier.
    fn finish_step(&mut self) -> (r: StepReport)
        requires
            old(self).wf(),
        ensures
            final(self).wf(),
            finished(*old(self), *final(self), r.events@),
            r.run_ended == (old(self).bodies@[0].health.unwrap().amount <= 0),
    {
        let mut events: Vec<Event> = Vec::new();
        let mut p = self.bodies[0];
        proof {
            assert(self.bodies@[0].wf());
        }
        let sunk = match p.health {
            Some(hp) => {
                p.sprite = boat_sprite(hp);
                hp.amount <= 0
            },
            None => false,
        };
        self.bodies.set(0, p);
        proof {
            assert forall|k: int| 0 <= k < self.bodies@.len() implies (#[trigger] self.bodies@[k]).wf() by {
                if k > 0 {
                    assert(self.bodies@[k] == old(self).bodies@[k]);
                }
            }
        }
        if sunk {
            self.phase = Phase::Ended;
            events.push(Event::BoatDestroyed);
        }
        self.score.update_distance(p.pos.y);
        self.update_difficulty();
        StepReport { events, run_ended: sunk }
    }

    /// Advances the run by `dt_ms` milliseconds. Nothing happens unless the
    /// game is running. In order: the boat steers and moves, bullets fly, the
    /// player's cannon and the enemy weapons aim and fire, terrain is extended
    /// ahead of the camera, spawn timers fire, power-ups are collected and
    /// wear off, bullets and contacts are resolved, wrecks and loot appear,
    /// whatever left the field is removed, the run ends if the boat sank, and
    /// distance and tier are updated. The events are those of the phases, in
    /// this order.
    pub fn tick(&mut self, dt_ms: u64, intent: Intent) -> (r: StepReport)
        requires
            old(self).wf(),
            intent.wf(),
            dt_ms <= MAX_STEP_MS,
        ensures
            final(self).wf(),
            old(self).phase != Phase::Running ==> same_state(final(self), old(self)) && r.events@.len() == 0
                && !r.run_ended,
            old(self).phase == Phase::Running ==> {
                &&& stepped(*old(self), *final(self), r.events@, intent, dt_ms as int)
                &&& r.run_ended == (final(self).bodies@[0].health.unwrap().amount <= 0)
                &&& final(self).phase == if r.run_ended { Phase::Ended } else { Phase::Running }
                &&& final(self).difficulty == next_tier(old(self).difficulty, effective_score(final(self).score))
                &&& final(self).score.elapsed_ms == saturating_sum(old(self).score.elapsed_ms as int, dt_ms as int)
                &&& final(self).score.score >= old(self).score.score
                &&& final(self).score.distance_mm == distance_of(final(self).bodies@[0].pos.y as int)
            },
            rank(old(self).difficulty) <= rank(final(self).difficulty),
    {
        let mut events: Vec<Event> = Vec::new();
        if self.phase != Phase::Running {
            return StepReport { events, run_ended: false };
        }
        let ghost g0 = *self;
        self.move_all(intent.steer, dt_ms);
        let ghost g1 = *self;
        let e1 = self.player_weapon(intent, dt_ms);
        let ghost g2 = *self;
        let e2 = self.enemy_fire(dt_ms);
        let ghost g3 = *self;
        self.extend_terrain();
        let ghost g4 = *self;
        self.run_spawner(dt_ms);
        let ghost g5 = *self;
        let e3 = self.handle_power_ups(dt_ms);
        let ghost g6 = *self;
        let e4 = self.resolve_hits();
        let ghost g7 = *self;
        let e5 = self.resolve_deaths();
        let ghost g8 = *self;
        self.clear_behind();
        let ghost g9 = *self;
        let last = self.finish_step();
        append_events(&mut events, &e1);
        append_events(&mut events, &e2);
        append_events(&mut events, &e3);
        append_events(&mut events, &e4);
        append_events(&mut events, &e5);
        append_events(&mut events, &last.events);
        proof {
            let stages = seq![g1, g2, g3, g4, g5, g6, g7, g8, g9];
            let produced = seq![e1@, e2@, e3@, e4@, e5@, last.events@];
            assert(step_trace(g0, *self, stages, produced, events@, intent, dt_ms as int));
            assert(stepped(g0, *self, events@, intent, dt_ms as int));
        }
        StepReport { events, run_ended: last.run_ended }
    }
}

/// Appends the events of `src` to `dst`, in order.
fn append_events(dst: &mut Vec<Event>, src: &Vec<Event>)
    ensures
        final(dst)@ == old(dst)@ + src@,
{
    let mut i: usize = 0;
    while i < src.len()
        invariant
            0 <= i <= src@.len(),
            dst@ == old(dst)@ + src@.take(i as int),
        decreases src@.len() - i,
    {
        dst.push(src[i]);
        i = i + 1;
        proof {
            assert(dst@ =~= old(dst)@ + src@.take(i as int));
        }
    }
    proof {
        assert(src@.take(src@.len() as int) =~= src@);
    }
}

/// `a + b`, held at `u64::MAX`.
pub open spec fn saturating_sum(a: int, b: int) -> int {
    if a + b > u64::MAX {
        u64::MAX as int
    } else {
        a + b
    }
}

/// Every bullet moved along its direction for `dt` milliseconds.
pub open spec fn flown(shots: Seq<Shot>, dt: int) -> Seq<Shot> {
    Seq::new(shots.len(), |i: int| Shot { pos: advanced(shots[i].pos, shots[i].dir, shots[i].speed as int, dt), ..shots[i] })
}

/// The bodies after the bullet pass: each lost the damage of the bullets
/// that landed on it.
pub open spec fn after_bullets(shots: Seq<Shot>, bs: Seq<Body>) -> Seq<Body> {
    Seq::new(bs.len(), |j: int| hurt(bs[j], damage_from(shots, bs, j)))
}

/// The bodies after the contact pass with the boat at index 0.
pub open spec fn after_contact(bs: Seq<Body>) -> Seq<Body> {
    Seq::new(
        bs.len(),
        |j: int|
            if j == 0 {
                hurt(bs[0], contact_damage(bs[0], bs, bs.len() as int))
            } else if touches(bs[0], bs[j]) {
                hurt(bs[j], 1)
            } else {
                bs[j]
            },
    )
}

/// The sound of a bullet hitting a body of the given mass.
pub open spec fn hit_event(m: Mass) -> Event {
    match m {
        Mass::Wood => Event::BulletHitWood,
        Mass::Rock => Event::BulletHitRock,
    }
}

/// One impact sound per hit, in order.
pub open spec fn hit_events(ms: Seq<Mass>) -> Seq<Event> {
    Seq::new(ms.len(), |i: int| hit_event(ms[i]))
}

/// The first phase of a step: time, boat, camera and bullets moved.
pub open spec fn moved(a: Game, b: Game, steering: Option<Dir>, dt: int) -> bool {
    let h = steered(a.heading, steering, dt);
    let p = a.bodies@[0];
    let np = Body { rotation: tilt_of(h) as i64, pos: advanced(p.pos, h, PLAYER_SPEED as int, dt), ..p };
    &&& b.heading == h
    &&& b.bodies@ == a.bodies@.update(0, np)
    &&& b.camera_y == clamp_coord(np.pos.y + CAMERA_LEAD)
    &&& b.shots@ == flown(a.shots@, dt)
    &&& b.score == (GameScore { elapsed_ms: saturating_sum(a.score.elapsed_ms as int, dt) as u64, ..a.score })
    &&& b.cannon == a.cannon
    &&& b.exhaust@ == a.exhaust@
    &&& b.frontiers == a.frontiers
    &&& same_spawner(a.spawner, b.spawner)
    &&& b.difficulty == a.difficulty
    &&& b.next_handle == a.next_handle
    &&& b.phase == a.phase
}

/// The bullet the player's cannon fires: from its mount on the boat, along
/// its aim, at the player's bullet speed, with the next handle.
pub open spec fn player_shot(a: Game, c: PlayerCannon) -> Shot {
    let p = a.bodies@[0];
    Shot {
        handle: a.next_handle,
        pos: mounted_at(p.pos, p.rotation as int, Point { x: 0, y: CANNON_MOUNT_Y }),
        dir: c.aim,
        speed: PLAYER_BULLET_SPEED,
        bullet: Bullet { shooter: p.handle, damage: 1, size: Size { w: BULLET_SIDE, h: BULLET_SIDE } },
    }
}

/// The player's cannon turns toward the bearing and its cooldown advances;
/// when fire is asked and the cooldown has run out, one bullet is fired and
/// the cooldown starts again. Nothing happens once handles run out.
pub open spec fn player_fired(a: Game, b: Game, intent: Intent, dt: int, ev: Seq<Event>) -> bool {
    let c1 = cannon_aimed(a.cannon, a.bodies@[0].rotation as int, intent.aim_bearing, dt);
    let cd = ticked(c1.cooldown, dt);
    let fires = intent.fire && cd.finished;
    &&& if a.next_handle < u64::MAX {
        &&& b.cannon == (PlayerCannon {
            cooldown: if fires { Timer { elapsed_ms: 0, finished: false, ..cd } } else { cd },
            ..c1
        })
        &&& b.shots@ == if fires { a.shots@.push(player_shot(a, c1)) } else { a.shots@ }
        &&& b.next_handle == if fires { (a.next_handle + 1) as u64 } else { a.next_handle }
        &&& ev == if fires { seq![Event::BulletFired] } else { Seq::<Event>::empty() }
    } else {
        &&& b.cannon == a.cannon
        &&& b.shots@ == a.shots@
        &&& b.next_handle == a.next_handle
        &&& ev == Seq::<Event>::empty()
    }
    &&& b.bodies@ == a.bodies@
    &&& b.heading == a.heading
    &&& b.exhaust@ == a.exhaust@
    &&& b.camera_y == a.camera_y
    &&& b.frontiers == a.frontiers
    &&& same_spawner(a.spawner, b.spawner)
    &&& b.score == a.score
    &&& b.difficulty == a.difficulty
    &&& b.phase == a.phase
}

/// Every enemy weapon stepped and the live ones whose timer ran out fired.
pub open spec fn enemies_fired(a: Game, b: Game, dt: int, ev: Seq<Event>) -> bool {
    let n = a.bodies@.len();
    let p = a.bodies@[0].pos;
    let v = volley(a.bodies@, n as int, p, dt, a.next_handle as int);
    &&& if a.next_handle + n <= u64::MAX {
        &&& b.bodies@ == Seq::new(n, |j: int| armed_stepped(a.bodies@[j], p, dt))
        &&& b.shots@ == a.shots@ + v
        &&& b.next_handle == a.next_handle + v.len()
        &&& ev == repeated(Event::BulletFired, v.len())
    } else {
        &&& b.bodies@ == a.bodies@
        &&& b.shots@ == a.shots@
        &&& b.next_handle == a.next_handle
        &&& ev == Seq::<Event>::empty()
    }
    &&& b.heading == a.heading
    &&& b.cannon == a.cannon
    &&& b.exhaust@ == a.exhaust@
    &&& b.camera_y == a.camera_y
    &&& b.frontiers == a.frontiers
    &&& same_spawner(a.spawner, b.spawner)
    &&& b.score == a.score
    &&& b.difficulty == a.difficulty
    &&& b.phase == a.phase
}

/// The terrain rows due above the camera were appended to the bodies of `a`
/// giving `bs`, the border tiles showing pictures `left` and `right`.
pub open spec fn terrain_rows(a: Game, bs: Seq<Body>, left: u8, right: u8) -> bool {
    let cam = a.camera_y as int;
    let f = a.frontiers;
    let w = a.next_handle + 8 <= u64::MAX && row_due(f.water_top as int, cam);
    let hb = if w { a.next_handle + 8 } else { a.next_handle as int };
    let bd = hb + 2 <= u64::MAX && row_due(f.border_top as int, cam);
    let hl = if bd { hb + 2 } else { hb };
    let ld = hl + 4 <= u64::MAX && row_due(f.land_top as int, cam);
    let wrow = if w { water_row(a.next_handle, (f.water_top + TILE_SIZE) as i64) } else { seq![] };
    let brow = if bd { border_pair(hb as u64, (f.border_top + TILE_SIZE) as i64, left, right) } else { seq![] };
    let lrow = if ld { land_row(hl as u64, (f.land_top + TILE_SIZE) as i64) } else { seq![] };
    &&& left < BORDER_VARIANTS
    &&& right < BORDER_VARIANTS
    &&& bs == a.bodies@ + wrow + brow + lrow
}

/// Each terrain layer whose row was due got one more row, at one tile above
/// its frontier, while handles last.
pub open spec fn terrain_extended(a: Game, b: Game) -> bool {
    let cam = a.camera_y as int;
    let f = a.frontiers;
    let w = a.next_handle + 8 <= u64::MAX && row_due(f.water_top as int, cam);
    let hb = if w { a.next_handle + 8 } else { a.next_handle as int };
    let bd = hb + 2 <= u64::MAX && row_due(f.border_top as int, cam);
    let hl = if bd { hb + 2 } else { hb };
    let ld = hl + 4 <= u64::MAX && row_due(f.land_top as int, cam);
    &&& exists|left: u8, right: u8| #[trigger] terrain_rows(a, b.bodies@, left, right)
    &&& b.frontiers == (MapObject {
        water_top: if w { (f.water_top + TILE_SIZE) as i64 } else { f.water_top },
        border_top: if bd { (f.border_top + TILE_SIZE) as i64 } else { f.border_top },
        land_top: if ld { (f.land_top + TILE_SIZE) as i64 } else { f.land_top },
    })
    &&& b.next_handle == if ld { hl + 4 } else { hl }
    &&& b.shots@ == a.shots@
    &&& b.heading == a.heading
    &&& b.cannon == a.cannon
    &&& b.exhaust@ == a.exhaust@
    &&& b.camera_y == a.camera_y
    &&& same_spawner(a.spawner, b.spawner)
    &&& b.score == a.score
    &&& b.difficulty == a.difficulty
    &&& b.phase == a.phase
}

/// The spawn pools stepped and spawned, while handles and coordinates last.
pub open spec fn spawned(a: Game, b: Game, dt: int) -> bool {
    let go = a.next_handle + a.spawner.timer_count() <= u64::MAX && a.camera_y <= COORD_LIMIT - SPAWN_AHEAD;
    &&& if go {
        spawn_result(a.spawner, b.spawner, a.bodies@, b.bodies@, a.next_handle as int, b.next_handle as int, dt, a.camera_y as int)
    } else {
        &&& same_spawner(a.spawner, b.spawner)
        &&& b.bodies@ == a.bodies@
        &&& b.next_handle == a.next_handle
    }
    &&& b.shots@ == a.shots@
    &&& b.heading == a.heading
    &&& b.cannon == a.cannon
    &&& b.exhaust@ == a.exhaust@
    &&& b.camera_y == a.camera_y
    &&& b.frontiers == a.frontiers
    &&& b.score == a.score
    &&& b.difficulty == a.difficulty
    &&& b.phase == a.phase
}

/// The boat collected the power-ups it touches, then the boosts whose
/// timers ran out wore off.
pub open spec fn powered(a: Game, b: Game, dt: int, ev: Seq<Event>) -> bool {
    let p = a.bodies@[0];
    let n = a.bodies@.len() as int;
    let w = picks(p, a.bodies@, n, PowerUpType::Weapon);
    let boosts = a.exhaust@ + boost_timers(w);
    let ended = fired_count(boosts, dt);
    &&& b.bodies@ == seq![repaired_times(p, picks(p, a.bodies@, n, PowerUpType::Repair))] + left_behind(p, a.bodies@, n)
    &&& b.cannon == relaxed_times(boosted_times(a.cannon, w), ended)
    &&& b.exhaust@ == still_running(boosts, dt)
    &&& ev == pickup_events(p, a.bodies@, n) + repeated(Event::PowerUpExhausted, ended)
    &&& b.shots@ == a.shots@
    &&& b.heading == a.heading
    &&& b.camera_y == a.camera_y
    &&& b.frontiers == a.frontiers
    &&& same_spawner(a.spawner, b.spawner)
    &&& b.score == a.score
    &&& b.difficulty == a.difficulty
    &&& b.next_handle == a.next_handle
    &&& b.phase == a.phase
}

/// Bullets landed on the first body each may hit, then contacts with the
/// boat were resolved.
pub open spec fn hits_resolved(a: Game, b: Game, ev: Seq<Event>) -> bool {
    &&& b.shots@ == survivors(a.shots@, a.bodies@)
    &&& b.bodies@ == after_contact(after_bullets(a.shots@, a.bodies@))
    &&& ev == hit_events(impacts(a.shots@, a.bodies@))
    &&& b.heading == a.heading
    &&& b.cannon == a.cannon
    &&& b.exhaust@ == a.exhaust@
    &&& b.camera_y == a.camera_y
    &&& b.frontiers == a.frontiers
    &&& same_spawner(a.spawner, b.spawner)
    &&& b.score == a.score
    &&& b.difficulty == a.difficulty
    &&& b.next_handle == a.next_handle
    &&& b.phase == a.phase
}

/// The dead became wrecks, broken barrels left loot, and each destroyed
/// bank cannon raised the score by `KILL_SCORE`, while handles last.
pub open spec fn deaths_resolved(a: Game, b: Game, ev: Seq<Event>) -> bool {
    let n = a.bodies@.len() as int;
    &&& if a.next_handle + n <= u64::MAX {
        &&& death_result(a.bodies@, b.bodies@, a.next_handle as int, b.next_handle as int)
        &&& b.score == (GameScore {
            score: saturating_sum(a.score.score as int, kills(a.bodies@, n) * KILL_SCORE) as u64,
            ..a.score
        })
        &&& ev == death_events(a.bodies@, n)
    } else {
        &&& b.bodies@ == a.bodies@
        &&& b.next_handle == a.next_handle
        &&& b.score == a.score
        &&& ev == Seq::<Event>::empty()
    }
    &&& b.shots@ == a.shots@
    &&& b.heading == a.heading
    &&& b.cannon == a.cannon
    &&& b.exhaust@ == a.exhaust@
    &&& b.camera_y == a.camera_y
    &&& b.frontiers == a.frontiers
    &&& same_spawner(a.spawner, b.spawner)
    &&& b.difficulty == a.difficulty
    &&& b.phase == a.phase
}

/// Bullets far beside the field and bodies far behind the camera are gone.
pub open spec fn swept(a: Game, b: Game) -> bool {
    &&& b.shots@ == shots_in_field(a.shots@, a.shots@.len() as int)
    &&& b.bodies@ == bodies_in_view(a.bodies@, a.bodies@.len() as int, a.camera_y as int)
    &&& b.heading == a.heading
    &&& b.cannon == a.cannon
    &&& b.exhaust@ == a.exhaust@
    &&& b.camera_y == a.camera_y
    &&& b.frontiers == a.frontiers
    &&& same_spawner(a.spawner, b.spawner)
    &&& b.score == a.score
    &&& b.difficulty == a.difficulty
    &&& b.next_handle == a.next_handle
    &&& b.phase == a.phase
}

/// The boat shows its damage; if it sank the run ends with a crash sound;
/// the distance follows the boat, and the tier is promoted (growing the
/// spawn pools) for the new effective score.
pub open spec fn finished(a: Game, b: Game, ev: Seq<Event>) -> bool {
    let p = a.bodies@[0];
    let h = p.health.unwrap();
    let sunk = h.amount <= 0;
    let sc = GameScore { distance_mm: distance_of(p.pos.y as int) as i64, ..a.score };
    &&& b.bodies@ == a.bodies@.update(0, Body { sprite: boat_sprite_for(h), ..p })
    &&& b.phase == if sunk { Phase::Ended } else { a.phase }
    &&& ev == if sunk { seq![Event::BoatDestroyed] } else { Seq::<Event>::empty() }
    &&& b.score == sc
    &&& b.difficulty == next_tier(a.difficulty, effective_score(sc))
    &&& b.difficulty != a.difficulty ==> promotion_result(a.spawner, b.spawner, b.difficulty)
    &&& b.difficulty == a.difficulty ==> same_spawner(a.spawner, b.spawner)
    &&& b.shots@ == a.shots@
    &&& b.heading == a.heading
    &&& b.cannon == a.cannon
    &&& b.exhaust@ == a.exhaust@
    &&& b.camera_y == a.camera_y
    &&& b.frontiers == a.frontiers
    &&& b.next_handle == a.next_handle
}

/// `z` is the state one running step after `a`, and `events` what it produced.
pub open spec fn stepped(a: Game, z: Game, events: Seq<Event>, intent: Intent, dt: int) -> bool {
    exists|stages: Seq<Game>, produced: Seq<Seq<Event>>|
        #[trigger] step_trace(a, z, stages, produced, events, intent, dt)
}

/// One running step from `a` to `z` through the intermediate states
/// `stages`, each phase producing the events in `produced`; `events` are
/// all of them in order.
pub open spec fn step_trace(
    a: Game,
    z: Game,
    stages: Seq<Game>,
    produced: Seq<Seq<Event>>,
    events: Seq<Event>,
    intent: Intent,
    dt: int,
) -> bool {
    &&& stages.len() == 9
    &&& produced.len() == 6
    &&& moved(a, stages[0], intent.steer, dt)
    &&& player_fired(stages[0], stages[1], intent, dt, produced[0])
    &&& enemies_fired(stages[1], stages[2], dt, produced[1])
    &&& terrain_extended(stages[2], stages[3])
    &&& spawned(stages[3], stages[4], dt)
    &&& powered(stages[4], stages[5], dt, produced[2])
    &&& hits_resolved(stages[5], stages[6], produced[3])
    &&& deaths_resolved(stages[6], stages[7], produced[4])
    &&& swept(stages[7], stages[8])
    &&& finished(stages[8], z, produced[5])
    &&& events == produced[0] + produced[1] + produced[2] + produced[3] + produced[4] + produced[5]
}

/// Restarting a game that was just restarted changes nothing: both leave the
/// same state, with a zero score, only the player's boat, and the starting
/// spawn pools.
pub proof fn lemma_restart_idempotent(once: &Game, twice: &Game)
    requires
        once.is_fresh(),
        twice.is_fresh(),
    ensures
        same_state(once, twice),
        twice.score == zero_score(),
        twice.bodies@.len() == 1,
{
}

} // verus!
