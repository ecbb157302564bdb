use vstd::prelude::*;
use crate::angle::MAX_TURN_RATE;
use crate::combat::all_bodies_wf;
use crate::entity::{player_size, Body, Health, Kind, PowerUpType, MAX_HEALTH, PLAYER_HEIGHT, PLAYER_WIDTH};
use crate::event::Event;
use crate::geometry::{collide, overlaps, Dir, Size, MAX_STEP_MS};
use crate::timer::{fired_count, ticked, Timer, MAX_TIMER_MS};

verus! {

/// The player's cannon turns this fast at the start of a run: three quarters
/// of a turn per second, in microradians per second.
pub const CANNON_TURN_RATE: i64 = 4_712_389;

/// Time between two shots of the player's cannon at the start of a run.
pub const CANNON_COOLDOWN_MS: u64 = 1000;

/// How long a weapon power-up lasts.
pub const WEAPON_BOOST_MS: u64 = 7000;

/// Hit points a repair kit restores.
pub const REPAIR_AMOUNT: i32 = 3;

/// The cannon on the player's boat. `angle` is measured from the boat's own
/// heading; `aim` is the world direction its bullets fly.
#[derive(Clone, Copy, Debug, PartialEq, Eq, Structural)]
pub struct PlayerCannon {
    pub angle: i64,
    pub aim: Dir,
    pub cooldown: Timer,
    pub turn_rate: i64,
}

impl PlayerCannon {
    pub open spec fn wf(self) -> bool {
        &&& crate::angle::canonical(self.angle as int)
        &&& self.aim.wf()
        &&& self.cooldown.wf()
        &&& !self.cooldown.repeating
        &&& 0 <= self.turn_rate <= MAX_TURN_RATE
    }
}

/// The cannon at the start of a run.
pub open spec fn fresh_cannon() -> PlayerCannon {
    PlayerCannon {
        angle: 0,
        aim: Dir { x: 0, y: 0 },
        cooldown: Timer { duration_ms: CANNON_COOLDOWN_MS, elapsed_ms: 0, repeating: false, finished: false },
        turn_rate: CANNON_TURN_RATE,
    }
}

/// Builds the cannon for a new run.
pub fn new_cannon() -> (r: PlayerCannon)
    ensures
        r == fresh_cannon(),
        r.wf(),
{
    PlayerCannon { angle: 0, aim: Dir { x: 0, y: 0 }, cooldown: Timer::once(CANNON_COOLDOWN_MS), turn_rate: CANNON_TURN_RATE }
}

/// Health after a repair kit: one more maximum point (up to `MAX_HEALTH`),
/// three more points, and never more than the new maximum.
pub open spec fn repaired(h: Health) -> Health {
    let max = if h.max_amount < MAX_HEALTH { h.max_amount + 1 } else { h.max_amount as int };
    let amount = if h.amount + REPAIR_AMOUNT < max { h.amount + REPAIR_AMOUNT } else { max };
    Health { max_amount: max as i32, amount: amount as i32, ..h }
}

/// Applies a repair kit.
pub fn repair(h: Health) -> (r: Health)
    requires
        h.wf(),
    ensures
        r == repaired(h),
        r.wf(),
        r.amount <= r.max_amount,
{
    let max: i32 = if h.max_amount < MAX_HEALTH { h.max_amount + 1 } else { h.max_amount };
    let raised: i64 = h.amount as i64 + REPAIR_AMOUNT as i64;
    let amount: i32 = if raised < max as i64 { raised as i32 } else { max };
    Health { max_amount: max, amount, ..h }
}

/// A repair never leaves more hit points than the maximum, whatever the
/// health was before, even when it was already full.
pub proof fn lemma_repair_clamps(h: Health)
    requires
        h.wf(),
    ensures
        repaired(h).amount <= repaired(h).max_amount,
        repaired(h).max_amount >= h.max_amount,
        h.max_amount < MAX_HEALTH ==> repaired(h).max_amount == h.max_amount + 1,
        repaired(h).amount == if h.amount + REPAIR_AMOUNT < repaired(h).max_amount {
            h.amount + REPAIR_AMOUNT
        } else {
            repaired(h).max_amount as int
        },
{
}

/// The cannon under a weapon power-up: cooldown times 3/4 (at least 1 ms),
/// turn rate times 5/4 (at most `MAX_TURN_RATE`), both rounded down.
pub open spec fn boosted(c: PlayerCannon) -> PlayerCannon {
    let d = c.cooldown.duration_ms * 3 / 4;
    let r = c.turn_rate * 5 / 4;
    PlayerCannon {
        cooldown: Timer { duration_ms: if d < 1 { 1 } else { d as u64 }, ..c.cooldown },
        turn_rate: if r > MAX_TURN_RATE { MAX_TURN_RATE } else { r as i64 },
        ..c
    }
}

/// The cannon when a weapon power-up wears off: cooldown times 5/4 (at most
/// `MAX_TIMER_MS`), turn rate times 3/4, both rounded down. This is not the
/// exact inverse of the boost: each boost leaves the cannon a little better.
pub open spec fn relaxed(c: PlayerCannon) -> PlayerCannon {
    let d = c.cooldown.duration_ms * 5 / 4;
    PlayerCannon {
        cooldown: Timer { duration_ms: if d > MAX_TIMER_MS { MAX_TIMER_MS } else { d as u64 }, ..c.cooldown },
        turn_rate: (c.turn_rate * 3 / 4) as i64,
        ..c
    }
}

/// A weapon boost that wore off leaves the cannon at least as fast as it was:
/// the cooldown is no longer and the turn rate no lower, though usually not
/// exactly what they were before.
pub proof fn lemma_boost_drift(c: PlayerCannon)
    requires
        c.wf(),
    ensures
        relaxed(boosted(c)).cooldown.duration_ms <= c.cooldown.duration_ms,
        relaxed(boosted(c)).turn_rate <= c.turn_rate,
        relaxed(boosted(c)).cooldown.duration_ms == ({
            let d = c.cooldown.duration_ms * 3 / 4;
            let b = if d < 1 { 1 } else { d };
            b * 5 / 4
        }),
{
}

/// The cannon after `n` boosts.
pub open spec fn boosted_times(c: PlayerCannon, n: nat) -> PlayerCannon
    decreases n,
{
    if n == 0 {
        c
    } else {
        boosted(boosted_times(c, (n - 1) as nat))
    }
}

/// The cannon after `n` boosts wore off.
pub open spec fn relaxed_times(c: PlayerCannon, n: nat) -> PlayerCannon
    decreases n,
{
    if n == 0 {
        c
    } else {
        relaxed(relaxed_times(c, (n - 1) as nat))
    }
}

/// Speeds up the cannon for the length of a weapon power-up.
pub fn boost(c: &mut PlayerCannon)
    requires
        old(c).wf(),
    ensures
        *final(c) == boosted(*old(c)),
        final(c).wf(),
{
    let d: u64 = c.cooldown.duration_ms / 4 * 3 + c.cooldown.duration_ms % 4 * 3 / 4;
    assert(d == c.cooldown.duration_ms * 3 / 4);
    c.cooldown.duration_ms = if d < 1 { 1 } else { d };
    let r: i64 = c.turn_rate + c.turn_rate / 4;
    assert(r == c.turn_rate * 5 / 4);
    c.turn_rate = if r > MAX_TURN_RATE { MAX_TURN_RATE } else { r };
}

/// Slows the cannon down again when a weapon power-up wears off.
pub fn relax(c: &mut PlayerCannon)
    requires
        old(c).wf(),
    ensures
        *final(c) == relaxed(*old(c)),
        final(c).wf(),
{
    let d: u64 = c.cooldown.duration_ms + c.cooldown.duration_ms / 4;
    assert(d == c.cooldown.duration_ms * 5 / 4);
    c.cooldown.duration_ms = if d > MAX_TIMER_MS { MAX_TIMER_MS } else { d };
    let r: i64 = c.turn_rate / 4 * 3 + c.turn_rate % 4 * 3 / 4;
    assert(r == c.turn_rate * 3 / 4);
    c.turn_rate = r;
}

/// The one-shot timers still running after `dt`, in order.
pub open spec fn still_running(ts: Seq<Timer>, dt: int) -> Seq<Timer>
    decreases ts.len(),
{
    if ts.len() == 0 {
        seq![]
    } else {
        let rest = still_running(ts.drop_last(), dt);
        let t = ticked(ts.last(), dt);
        if t.finished {
            rest
        } else {
            rest.push(t)
        }
    }
}

/// All timers are well-formed one-shot timers.
pub open spec fn exhaust_wf(ts: Seq<Timer>) -> bool {
    forall|i: int| 0 <= i < ts.len() ==> (#[trigger] ts[i]).wf() && !ts[i].repeating
}

/// Advances the weapon power-up timers; for each that runs out the boost it
/// belongs to wears off, and the timer is dropped. Returns how many ran out.
pub fn tick_exhaust(exhaust: &mut Vec<Timer>, c: &mut PlayerCannon, dt: u64) -> (ended: usize)
    requires
        exhaust_wf(old(exhaust)@),
        old(c).wf(),
        dt <= MAX_STEP_MS,
    ensures
        ended as nat == fired_count(old(exhaust)@, dt as int),
        *final(c) == relaxed_times(*old(c), ended as nat),
        final(exhaust)@ == still_running(old(exhaust)@, dt as int),
        exhaust_wf(final(exhaust)@),
        final(c).wf(),
{
    let ghost oe = exhaust@;
    let ghost oc = *c;
    let mut kept: Vec<Timer> = Vec::new();
    let mut ended: usize = 0;
    let mut i: usize = 0;
    while i < exhaust.len()
        invariant
            exhaust@ == oe,
            exhaust_wf(oe),
            0 <= i <= oe.len(),
            ended <= i,
            ended as nat == fired_count(oe.take(i as int), dt as int),
            *c == relaxed_times(oc, ended as nat),
            c.wf(),
            kept@ == still_running(oe.take(i as int), dt as int),
            exhaust_wf(kept@),
            dt <= MAX_STEP_MS,
        decreases oe.len() - i,
    {
        let mut t = exhaust[i];
        t.tick(dt);
        proof {
            assert(oe.take(i as int + 1).drop_last() =~= oe.take(i as int));
            assert(oe.take(i as int + 1).last() == oe[i as int]);
        }
        if t.finished {
            relax(c);
            ended = ended + 1;
        } else {
            kept.push(t);
        }
        proof {
            assert forall|q: int| 0 <= q < kept@.len() implies (#[trigger] kept@[q]).wf() && !kept@[q].repeating by {
            }
        }
        i = i + 1;
    }
    proof {
        assert(oe.take(oe.len() as int) =~= oe);
    }
    *exhaust = kept;
    ended
}

/// The player at `p` picks up body `b`: a power-up whose box overlaps the boat's.
pub open spec fn picked_up(p: Body, b: Body) -> bool {
    &&& b.kind matches Kind::PowerUp(_)
    &&& b.collidable matches Some(c)
    &&& overlaps(p.pos, player_size(), b.pos, c.hitbox)
}

/// How many power-ups of kind `t` among the bodies at indices `1..n` the
/// player at `p` picks up.
pub open spec fn picks(p: Body, bs: Seq<Body>, n: int, t: PowerUpType) -> nat
    decreases n,
{
    if n <= 1 {
        0
    } else {
        picks(p, bs, n - 1, t) + if picked_up(p, bs[n - 1]) && bs[n - 1].kind == Kind::PowerUp(t) { 1nat } else { 0nat }
    }
}

/// The event for collecting a power-up of the given kind.
pub open spec fn pickup_event(t: PowerUpType) -> Event {
    match t {
        PowerUpType::Repair => Event::RepairCollected,
        PowerUpType::Weapon => Event::WeaponCollected,
    }
}

/// One event per power-up picked up among the bodies at indices `1..n`, in order.
pub open spec fn pickup_events(p: Body, bs: Seq<Body>, n: int) -> Seq<Event>
    decreases n,
{
    if n <= 1 {
        seq![]
    } else {
        let rest = pickup_events(p, bs, n - 1);
        match bs[n - 1].kind {
            Kind::PowerUp(t) => if picked_up(p, bs[n - 1]) { rest.push(pickup_event(t)) } else { rest },
            _ => rest,
        }
    }
}

/// The bodies at indices `1..n` that are not picked up, in order.
pub open spec fn left_behind(p: Body, bs: Seq<Body>, n: int) -> Seq<Body>
    decreases n,
{
    if n <= 1 {
        seq![]
    } else {
        let rest = left_behind(p, bs, n - 1);
        if picked_up(p, bs[n - 1]) {
            rest
        } else {
            rest.push(bs[n - 1])
        }
    }
}

/// The boat after `k` repair kits.
pub open spec fn repaired_times(b: Body, k: nat) -> Body
    decreases k,
{
    if k == 0 {
        b
    } else {
        let prev = repaired_times(b, (k - 1) as nat);
        match prev.health {
            Some(h) => Body { health: Some(repaired(h)), ..prev },
            None => prev,
        }
    }
}

/// `n` weapon boosts' worth of fresh one-shot timers.
pub open spec fn boost_timers(n: nat) -> Seq<Timer> {
    Seq::new(n, |i: int| Timer { duration_ms: WEAPON_BOOST_MS, elapsed_ms: 0, repeating: false, finished: false })
}

proof fn lemma_repaired_wf(b: Body, k: nat)
    requires
        b.wf(),
    ensures
        repaired_times(b, k).wf(),
        repaired_times(b, k).pos == b.pos,
        repaired_times(b, k).handle == b.handle,
        repaired_times(b, k).kind == b.kind,
        b.health is Some ==> repaired_times(b, k).health is Some,
    decreases k,
{
    if k > 0 {
        lemma_repaired_wf(b, (k - 1) as nat);
    }
}

/// The player (index 0) collects every power-up its boat touches. A repair
/// kit adds one maximum hit point and three hit points, never beyond the
/// maximum; a weapon kit boosts the cannon and starts a timer after which the
/// boost wears off. Collected power-ups are removed.
pub fn collect_power_ups(bodies: &mut Vec<Body>, c: &mut PlayerCannon, exhaust: &mut Vec<Timer>, events: &mut Vec<Event>)
    requires
        old(bodies)@.len() >= 1,
        all_bodies_wf(old(bodies)@),
        old(c).wf(),
        exhaust_wf(old(exhaust)@),
    ensures
        final(bodies)@ == seq![repaired_times(old(bodies)@[0], picks(old(bodies)@[0], old(bodies)@, old(bodies)@.len() as int, PowerUpType::Repair))]
            + left_behind(old(bodies)@[0], old(bodies)@, old(bodies)@.len() as int),
        *final(c) == boosted_times(*old(c), picks(old(bodies)@[0], old(bodies)@, old(bodies)@.len() as int, PowerUpType::Weapon)),
        final(exhaust)@ == old(exhaust)@ + boost_timers(picks(old(bodies)@[0], old(bodies)@, old(bodies)@.len() as int, PowerUpType::Weapon)),
        final(c).wf(),
        exhaust_wf(final(exhaust)@),
        all_bodies_wf(final(bodies)@),
        final(bodies)@[0].kind == old(bodies)@[0].kind,
        old(bodies)@[0].health is Some ==> final(bodies)@[0].health is Some,
        final(events)@ == old(events)@ + pickup_events(old(bodies)@[0], old(bodies)@, old(bodies)@.len() as int),
{
    let ghost ob = bodies@;
    let ghost oc = *c;
    let ghost ox = exhaust@;
    let boat = bodies[0];
    let psize = Size { w: PLAYER_WIDTH, h: PLAYER_HEIGHT };
    let mut player = boat;
    let mut kept: Vec<Body> = Vec::new();
    let mut j: usize = 1;
    while j < bodies.len()
        invariant
            bodies@ == ob,
            1 <= j <= ob.len(),
            boat == ob[0],
            psize == player_size(),
            all_bodies_wf(ob),
            player == repaired_times(boat, picks(boat, ob, j as int, PowerUpType::Repair)),
            *c == boosted_times(oc, picks(boat, ob, j as int, PowerUpType::Weapon)),
            c.wf(),
            exhaust@ == ox + boost_timers(picks(boat, ob, j as int, PowerUpType::Weapon)),
            exhaust_wf(exhaust@),
            kept@ == left_behind(boat, ob, j as int),
            all_bodies_wf(kept@),
            events@ == old(events)@ + pickup_events(boat, ob, j as int),
        decreases ob.len() - j,
    {
        let b = bodies[j];
        proof {
            assert(b.wf());
            assert(boat.wf());
            lemma_repaired_wf(boat, picks(boat, ob, j as int, PowerUpType::Repair));
        }
        let touching = match b.kind {
            Kind::PowerUp(_) => match b.collidable {
                Some(col) => collide(boat.pos, psize, b.pos, col.hitbox),
                None => false,
            },
            _ => false,
        };
        if touching {
            match b.kind {
                Kind::PowerUp(PowerUpType::Repair) => {
                    match player.health {
                        Some(h) => {
                            player.health = Some(repair(h));
                        },
                        None => {},
                    }
                    events.push(Event::RepairCollected);
                },
                _ => {
                    boost(c);
                    exhaust.push(Timer::once(WEAPON_BOOST_MS));
                    events.push(Event::WeaponCollected);
                    proof {
                        let w = picks(boat, ob, j as int, PowerUpType::Weapon);
                        assert(exhaust@ =~= ox + boost_timers(w + 1));
                    }
                },
            }
        } else {
            kept.push(b);
        }
        proof {
            assert(events@ =~= old(events)@ + pickup_events(boat, ob, j as int + 1));
            assert forall|q: int| 0 <= q < kept@.len() implies (#[trigger] kept@[q]).wf() by {
            }
            assert forall|q: int| 0 <= q < exhaust@.len() implies (#[trigger] exhaust@[q]).wf() && !exhaust@[q].repeating by {
                if q < ox.len() {
                    assert(exhaust@[q] == ox[q]);
                }
            }
        }
        j = j + 1;
    }
    proof {
        lemma_repaired_wf(boat, picks(boat, ob, ob.len() as int, PowerUpType::Repair));
    }
    let mut result: Vec<Body> = Vec::new();
    result.push(player);
    let mut k: usize = 0;
    while k < kept.len()
        invariant
            0 <= k <= kept@.len(),
            result@ == seq![player] + kept@.take(k as int),
            all_bodies_wf(kept@),
            player.wf(),
            all_bodies_wf(result@),
        decreases kept@.len() - k,
    {
        result.push(kept[k]);
        proof {
            assert(kept@.take(k as int + 1) =~= kept@.take(k as int).push(kept@[k as int]));
            assert(result@ =~= seq![player] + kept@.take(k as int + 1));
            assert forall|q: int| 0 <= q < result@.len() implies (#[trigger] result@[q]).wf() by {
                if q < result@.len() - 1 {
                } else {
                    assert(kept@[k as int].wf());
                }
            }
        }
        k = k + 1;
    }
    proof {
        assert(kept@.take(kept@.len() as int) =~= kept@);
    }
    *bodies = result;
}

} // verus!
