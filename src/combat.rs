use vstd::prelude::*;
use crate::entity::{new_power_up, player_size, power_up_body, Body, Health, Kind, Mass, PowerUpType, Shot, Sprite, MAP_WIDTH, PLAYER_HEIGHT, PLAYER_WIDTH};
use crate::event::Event;
use crate::geometry::{collide, overlaps, Point, Size};
use crate::random::random_between;

verus! {

/// `a - d`, held at `i32::MIN` from below.
pub open spec fn floor_sub(a: int, d: int) -> int {
    if a - d < i32::MIN {
        i32::MIN as int
    } else {
        a - d
    }
}

/// The body after losing `dmg` hit points; a body without health is unchanged.
pub open spec fn hurt(b: Body, dmg: int) -> Body {
    match b.health {
        Some(h) => Body { health: Some(Health { amount: floor_sub(h.amount as int, dmg) as i32, ..h }), ..b },
        None => b,
    }
}

/// Subtracts damage from a body's health, saturating at `i32::MIN`.
pub fn apply_damage(b: &mut Body, dmg: i32)
    requires
        dmg >= 0,
    ensures
        *final(b) == hurt(*old(b), dmg as int),
{
    match b.health {
        Some(h) => {
            let wide: i64 = h.amount as i64 - dmg as i64;
            let amount: i32 = if wide < i32::MIN as i64 { i32::MIN } else { wide as i32 };
            b.health = Some(Health { amount, ..h });
        },
        None => {},
    }
}

/// The shot may land on the body: the body is alive and has health, did not
/// fire the shot, is not immune to projectiles, and the two boxes overlap.
pub open spec fn can_hit(s: Shot, b: Body) -> bool {
    &&& b.alive
    &&& b.handle != s.bullet.shooter
    &&& b.health matches Some(h)
    &&& !h.immune_to_projectiles
    &&& overlaps(s.pos, s.bullet.size, b.pos, h.hitbox)
}

/// Tests whether a shot may land on a body.
pub fn shot_can_hit(s: &Shot, b: &Body) -> (r: bool)
    requires
        s.wf(),
        b.wf(),
    ensures
        r == can_hit(*s, *b),
{
    if !b.alive || b.handle == s.bullet.shooter {
        return false;
    }
    match b.health {
        Some(h) => !h.immune_to_projectiles && collide(s.pos, s.bullet.size, b.pos, h.hitbox),
        None => false,
    }
}

/// The first body, from index `start` on, that the shot may land on.
pub open spec fn first_from(s: Shot, bs: Seq<Body>, start: int) -> Option<int>
    decreases bs.len() - start,
{
    if start < 0 || start >= bs.len() {
        None
    } else if can_hit(s, bs[start]) {
        Some(start)
    } else {
        first_from(s, bs, start + 1)
    }
}

/// The body a shot lands on: the first in registry order that it may land on.
pub open spec fn target_of(s: Shot, bs: Seq<Body>) -> Option<int> {
    first_from(s, bs, 0)
}

/// Total damage that body `j` takes from the shots.
pub open spec fn damage_from(shots: Seq<Shot>, bs: Seq<Body>, j: int) -> int
    decreases shots.len(),
{
    if shots.len() == 0 {
        0
    } else {
        damage_from(shots.drop_last(), bs, j) + if target_of(shots.last(), bs) == Some(j) {
            shots.last().bullet.damage as int
        } else {
            0
        }
    }
}

/// The shots that land on nothing, in their order.
pub open spec fn survivors(shots: Seq<Shot>, bs: Seq<Body>) -> Seq<Shot>
    decreases shots.len(),
{
    if shots.len() == 0 {
        seq![]
    } else {
        let rest = survivors(shots.drop_last(), bs);
        if target_of(shots.last(), bs) is None {
            rest.push(shots.last())
        } else {
            rest
        }
    }
}

/// The mass of each body hit, one entry per shot that lands, in shot order.
pub open spec fn impacts(shots: Seq<Shot>, bs: Seq<Body>) -> Seq<Mass>
    decreases shots.len(),
{
    if shots.len() == 0 {
        seq![]
    } else {
        let rest = impacts(shots.drop_last(), bs);
        match target_of(shots.last(), bs) {
            Some(j) => rest.push(bs[j].health.unwrap().mass),
            None => rest,
        }
    }
}

proof fn lemma_first_found(s: Shot, bs: Seq<Body>, start: int, j: int)
    requires
        0 <= start <= j < bs.len(),
        forall|k: int| start <= k < j ==> !can_hit(s, #[trigger] bs[k]),
        can_hit(s, bs[j]),
    ensures
        first_from(s, bs, start) == Some(j),
    decreases j - start,
{
    if start < j {
        lemma_first_found(s, bs, start + 1, j);
    }
}

proof fn lemma_none_found(s: Shot, bs: Seq<Body>, start: int)
    requires
        0 <= start <= bs.len(),
        forall|k: int| start <= k < bs.len() ==> !can_hit(s, #[trigger] bs[k]),
    ensures
        first_from(s, bs, start) is None,
    decreases bs.len() - start,
{
    if start < bs.len() {
        lemma_none_found(s, bs, start + 1);
    }
}

proof fn lemma_first_from_hits(s: Shot, bs: Seq<Body>, start: int)
    ensures
        first_from(s, bs, start) matches Some(j) ==> 0 <= j < bs.len() && can_hit(s, bs[j]),
    decreases bs.len() - start,
{
    if 0 <= start < bs.len() && !can_hit(s, bs[start]) {
        lemma_first_from_hits(s, bs, start + 1);
    }
}

/// A shot lands only on a body it may hit: never on its shooter, never on an
/// immune body, never on a wreck, and only where the boxes overlap.
pub proof fn lemma_target_can_be_hit(s: Shot, bs: Seq<Body>)
    ensures
        target_of(s, bs) matches Some(j) ==> 0 <= j < bs.len() && can_hit(s, bs[j]),
{
    lemma_first_from_hits(s, bs, 0);
}

/// A body that no shot may hit takes no damage from any of them.
pub proof fn lemma_unhittable_unharmed(shots: Seq<Shot>, bs: Seq<Body>, j: int)
    requires
        0 <= j < bs.len(),
        forall|i: int| 0 <= i < shots.len() ==> !can_hit(#[trigger] shots[i], bs[j]),
    ensures
        damage_from(shots, bs, j) == 0,
    decreases shots.len(),
{
    if shots.len() > 0 {
        let init = shots.drop_last();
        assert forall|i: int| 0 <= i < init.len() implies !can_hit(#[trigger] init[i], bs[j]) by {
            assert(init[i] == shots[i]);
        }
        lemma_unhittable_unharmed(init, bs, j);
        lemma_target_can_be_hit(shots.last(), bs);
        assert(!can_hit(shots[shots.len() - 1], bs[j]));
    }
}

/// A bullet never damages the body that fired it, however the two overlap:
/// if every shot was fired by body `j`, body `j` takes no damage.
pub proof fn lemma_shooter_never_damaged(shots: Seq<Shot>, bs: Seq<Body>, j: int)
    requires
        0 <= j < bs.len(),
        forall|i: int| 0 <= i < shots.len() ==> (#[trigger] shots[i]).bullet.shooter == bs[j].handle,
    ensures
        damage_from(shots, bs, j) == 0,
        forall|i: int| 0 <= i < shots.len() ==> target_of(#[trigger] shots[i], bs) != Some(j),
{
    assert forall|i: int| 0 <= i < shots.len() implies !can_hit(#[trigger] shots[i], bs[j]) by {}
    lemma_unhittable_unharmed(shots, bs, j);
    assert forall|i: int| 0 <= i < shots.len() implies target_of(#[trigger] shots[i], bs) != Some(j) by {
        lemma_target_can_be_hit(shots[i], bs);
    }
}

/// Bodies immune to projectiles are never harmed by a bullet pass.
pub proof fn lemma_immune_unharmed(shots: Seq<Shot>, bs: Seq<Body>, j: int)
    requires
        0 <= j < bs.len(),
        bs[j].health matches Some(h) && h.immune_to_projectiles,
    ensures
        damage_from(shots, bs, j) == 0,
        hurt(bs[j], damage_from(shots, bs, j)) == bs[j],
{
    assert forall|i: int| 0 <= i < shots.len() implies !can_hit(#[trigger] shots[i], bs[j]) by {}
    lemma_unhittable_unharmed(shots, bs, j);
    let h = bs[j].health.unwrap();
    assert(Health { amount: floor_sub(h.amount as int, 0) as i32, ..h } == h);
}

proof fn lemma_damage_nonneg(shots: Seq<Shot>, bs: Seq<Body>, j: int)
    requires
        forall|i: int| 0 <= i < shots.len() ==> (#[trigger] shots[i]).wf(),
    ensures
        damage_from(shots, bs, j) >= 0,
    decreases shots.len(),
{
    if shots.len() > 0 {
        let init = shots.drop_last();
        assert forall|i: int| 0 <= i < init.len() implies (#[trigger] init[i]).wf() by {
            assert(init[i] == shots[i]);
        }
        lemma_damage_nonneg(init, bs, j);
        assert(shots.last().wf());
    }
}

proof fn lemma_hurt_twice(b: Body, d1: int, d2: int)
    requires
        d1 >= 0,
        d2 >= 0,
    ensures
        hurt(hurt(b, d1), d2) == hurt(b, d1 + d2),
{
}

pub open spec fn all_shots_wf(shots: Seq<Shot>) -> bool {
    forall|i: int| 0 <= i < shots.len() ==> (#[trigger] shots[i]).wf()
}

pub open spec fn all_bodies_wf(bs: Seq<Body>) -> bool {
    forall|i: int| 0 <= i < bs.len() ==> (#[trigger] bs[i]).wf()
}

/// Resolves every bullet against every damageable body. Each bullet lands on
/// at most one body, the first in registry order it may hit, and is then
/// removed; each body loses the damage of the bullets that landed on it.
/// Returns the mass of each body hit, for the impact sounds.
pub fn bullet_pass(shots: &mut Vec<Shot>, bodies: &mut Vec<Body>) -> (hits: Vec<Mass>)
    requires
        all_shots_wf(old(shots)@),
        all_bodies_wf(old(bodies)@),
    ensures
        final(shots)@ == survivors(old(shots)@, old(bodies)@),
        final(bodies)@.len() == old(bodies)@.len(),
        forall|j: int| 0 <= j < old(bodies)@.len() ==> final(bodies)@[j]
            == hurt(old(bodies)@[j], damage_from(old(shots)@, old(bodies)@, j)),
        forall|j: int| 0 <= j < old(bodies)@.len() && (old(bodies)@[j].health matches Some(h) && h.immune_to_projectiles)
            ==> final(bodies)@[j] == old(bodies)@[j],
        hits@ == impacts(old(shots)@, old(bodies)@),
        all_shots_wf(final(shots)@),
        all_bodies_wf(final(bodies)@),
{
    let ghost os = shots@;
    let ghost ob = bodies@;
    let mut kept: Vec<Shot> = Vec::new();
    let mut hits: Vec<Mass> = Vec::new();
    let mut i: usize = 0;
    while i < shots.len()
        invariant
            shots@ == os,
            all_shots_wf(os),
            all_bodies_wf(ob),
            0 <= i <= os.len(),
            bodies@.len() == ob.len(),
            forall|j: int| 0 <= j < ob.len() ==> bodies@[j] == hurt(ob[j], damage_from(os.take(i as int), ob, j)),
            kept@ == survivors(os.take(i as int), ob),
            hits@ == impacts(os.take(i as int), ob),
        decreases os.len() - i,
    {
        let s = shots[i];
        let ghost pre = os.take(i as int);
        let ghost next = os.take(i as int + 1);
        proof {
            assert(next.drop_last() =~= pre);
            assert(next.last() == s);
        }
        let mut j: usize = 0;
        let mut found: bool = false;
        while j < bodies.len()
            invariant_except_break
                !found,
            invariant
                bodies@.len() == ob.len(),
                0 <= j <= ob.len(),
                s.wf(),
                all_bodies_wf(ob),
                forall|k: int| 0 <= k < ob.len() ==> bodies@[k] == hurt(ob[k], damage_from(pre, ob, k)),
                forall|k: int| 0 <= k < j ==> !can_hit(s, #[trigger] ob[k]),
            ensures
                found ==> j < ob.len() && can_hit(s, ob[j as int]),
                !found ==> forall|k: int| 0 <= k < ob.len() ==> !can_hit(s, #[trigger] ob[k]),
            decreases ob.len() - j,
        {
            let b = bodies[j];
            proof {
                assert(b == hurt(ob[j as int], damage_from(pre, ob, j as int)));
                assert(b.wf());
            }
            if shot_can_hit(&s, &b) {
                found = true;
                break;
            }
            j = j + 1;
        }
        if found {
            proof {
                lemma_first_found(s, ob, 0, j as int);
                lemma_damage_nonneg(pre, ob, j as int);
                lemma_hurt_twice(ob[j as int], damage_from(pre, ob, j as int), s.bullet.damage as int);
            }
            let mut b = bodies[j];
            let mass = match b.health {
                Some(h) => h.mass,
                None => Mass::Wood,
            };
            apply_damage(&mut b, s.bullet.damage);
            bodies.set(j, b);
            hits.push(mass);
            proof {
                assert forall|k: int| 0 <= k < ob.len() implies bodies@[k] == hurt(ob[k], damage_from(next, ob, k)) by {
                    if k != j {
                        assert(damage_from(next, ob, k) == damage_from(pre, ob, k));
                    }
                }
                assert(hits@ == impacts(next, ob));
                assert(kept@ == survivors(next, ob));
            }
        } else {
            proof {
                lemma_none_found(s, ob, 0);
            }
            kept.push(s);
            proof {
                assert forall|k: int| 0 <= k < ob.len() implies bodies@[k] == hurt(ob[k], damage_from(next, ob, k)) by {
                    assert(damage_from(next, ob, k) == damage_from(pre, ob, k));
                }
                assert(kept@ == survivors(next, ob));
                assert(hits@ == impacts(next, ob));
            }
        }
        i = i + 1;
    }
    proof {
        assert(os.take(os.len() as int) =~= os);
        assert forall|j: int| 0 <= j < ob.len() && (ob[j].health matches Some(h) && h.immune_to_projectiles)
            implies bodies@[j] == ob[j] by {
            lemma_immune_unharmed(os, ob, j);
        }
        assert forall|j: int| 0 <= j < bodies@.len() implies (#[trigger] bodies@[j]).wf() by {
            assert(ob[j].wf());
        }
    }
    proof {
        lemma_survivors_wf(os, ob);
    }
    *shots = kept;
    hits
}

proof fn lemma_survivors_wf(shots: Seq<Shot>, bs: Seq<Body>)
    requires
        all_shots_wf(shots),
    ensures
        all_shots_wf(survivors(shots, bs)),
        survivors(shots, bs).len() <= shots.len(),
    decreases shots.len(),
{
    if shots.len() > 0 {
        let init = shots.drop_last();
        assert forall|i: int| 0 <= i < init.len() implies (#[trigger] init[i]).wf() by {
            assert(init[i] == shots[i]);
        }
        lemma_survivors_wf(init, bs);
        assert(shots.last().wf());
    }
}

/// The body is alive, solid, and overlaps the player's box at `p`.
pub open spec fn touches(p: Body, b: Body) -> bool {
    &&& b.alive
    &&& b.collidable matches Some(c)
    &&& overlaps(p.pos, player_size(), b.pos, c.hitbox)
}

/// Total contact damage that the bodies at indices `1..n` deal to the player `p`.
pub open spec fn contact_damage(p: Body, bs: Seq<Body>, n: int) -> int
    decreases n,
{
    if n <= 1 {
        0
    } else {
        contact_damage(p, bs, n - 1) + if touches(p, bs[n - 1]) {
            bs[n - 1].collidable.unwrap().contact_damage as int
        } else {
            0
        }
    }
}

proof fn lemma_contact_nonneg(p: Body, bs: Seq<Body>, n: int)
    requires
        n <= bs.len(),
        all_bodies_wf(bs),
    ensures
        contact_damage(p, bs, n) >= 0,
    decreases n,
{
    if n > 1 {
        lemma_contact_nonneg(p, bs, n - 1);
        assert(bs[n - 1].wf());
    }
}

/// Resolves contact between the player (index 0) and every other body. Each
/// live solid body touching the player deals its contact damage to the player
/// and, if it has health, loses one point itself.
pub fn contact_pass(bodies: &mut Vec<Body>)
    requires
        old(bodies)@.len() >= 1,
        all_bodies_wf(old(bodies)@),
    ensures
        final(bodies)@.len() == old(bodies)@.len(),
        final(bodies)@[0] == hurt(old(bodies)@[0], contact_damage(old(bodies)@[0], old(bodies)@, old(bodies)@.len() as int)),
        forall|j: int| 1 <= j < old(bodies)@.len() ==> final(bodies)@[j] == if touches(old(bodies)@[0], old(bodies)@[j]) {
            hurt(old(bodies)@[j], 1)
        } else {
            old(bodies)@[j]
        },
        all_bodies_wf(final(bodies)@),
{
    let ghost ob = bodies@;
    let boat = bodies[0];
    let psize = Size { w: PLAYER_WIDTH, h: PLAYER_HEIGHT };
    let mut j: usize = 1;
    while j < bodies.len()
        invariant
            1 <= j <= ob.len(),
            bodies@.len() == ob.len(),
            boat == ob[0],
            psize == player_size(),
            all_bodies_wf(ob),
            bodies@[0] == hurt(ob[0], contact_damage(boat, ob, j as int)),
            forall|k: int| 1 <= k < j ==> bodies@[k] == if touches(boat, ob[k]) { hurt(ob[k], 1) } else { ob[k] },
            forall|k: int| j <= k < ob.len() ==> bodies@[k] == ob[k],
        decreases ob.len() - j,
    {
        let b = bodies[j];
        proof {
            assert(b.wf());
            assert(boat.wf());
            lemma_contact_nonneg(boat, ob, j as int);
        }
        if b.alive {
            match b.collidable {
                Some(c) => {
                    if collide(boat.pos, psize, b.pos, c.hitbox) {
                        let mut p = bodies[0];
                        proof {
                            lemma_hurt_twice(ob[0], contact_damage(boat, ob, j as int), c.contact_damage as int);
                        }
                        apply_damage(&mut p, c.contact_damage);
                        bodies.set(0, p);
                        let mut hit = b;
                        apply_damage(&mut hit, 1);
                        bodies.set(j, hit);
                    }
                },
                None => {},
            }
        }
        j = j + 1;
    }
    proof {
        assert forall|k: int| 0 <= k < bodies@.len() implies (#[trigger] bodies@[k]).wf() by {
            assert(ob[k].wf());
        }
    }
}

/// Kinds that turn into a wreck when their health runs out.
pub open spec fn mortal(k: Kind) -> bool {
    k == Kind::SideCannon || k == Kind::Pirate || k == Kind::Obstacle || k == Kind::Barrel
}

/// The body dies this step: it is alive, mortal, and out of health.
pub open spec fn dies(b: Body) -> bool {
    &&& b.alive
    &&& mortal(b.kind)
    &&& b.health matches Some(h)
    &&& h.amount <= 0
}

/// The picture of a wreck of the given kind.
pub open spec fn wreck_sprite(k: Kind) -> Sprite {
    if k == Kind::SideCannon {
        Sprite::EnemyCannonWreck
    } else {
        Sprite::WoodWreck
    }
}

/// The body as a wreck: it no longer collides, fires or takes hits.
pub open spec fn wrecked(b: Body) -> Body {
    Body { alive: false, sprite: wreck_sprite(b.kind), ..b }
}

/// Score for each enemy cannon destroyed.
pub const KILL_SCORE: u64 = 10;

/// Only bank cannons are worth score.
pub open spec fn grants_score(k: Kind) -> bool {
    k == Kind::SideCannon
}

/// How many score-granting bodies among the first `n` die this step.
pub open spec fn kills(bs: Seq<Body>, n: int) -> nat
    decreases n,
{
    if n <= 0 {
        0
    } else {
        kills(bs, n - 1) + if dies(bs[n - 1]) && grants_score(bs[n - 1].kind) { 1nat } else { 0nat }
    }
}

/// Where the barrels among the first `n` bodies that die this step stood.
pub open spec fn loot_spots(bs: Seq<Body>, n: int) -> Seq<Point>
    decreases n,
{
    if n <= 0 {
        seq![]
    } else {
        let rest = loot_spots(bs, n - 1);
        if dies(bs[n - 1]) && bs[n - 1].kind == Kind::Barrel {
            rest.push(bs[n - 1].pos)
        } else {
            rest
        }
    }
}

/// The event a death makes.
pub open spec fn death_event(k: Kind) -> Event {
    if k == Kind::SideCannon {
        Event::BoatDestroyed
    } else {
        Event::ObstacleDestroyed
    }
}

/// One event per death among the first `n` bodies, in registry order.
pub open spec fn death_events(bs: Seq<Body>, n: int) -> Seq<Event>
    decreases n,
{
    if n <= 0 {
        seq![]
    } else {
        let rest = death_events(bs, n - 1);
        if dies(bs[n - 1]) {
            rest.push(death_event(bs[n - 1].kind))
        } else {
            rest
        }
    }
}

proof fn lemma_counts_bounded(bs: Seq<Body>, n: int)
    requires
        0 <= n,
    ensures
        kills(bs, n) <= n,
        loot_spots(bs, n).len() <= n,
    decreases n,
{
    if n > 0 {
        lemma_counts_bounded(bs, n - 1);
    }
}

/// The bodies after a death pass over `ob`: each body that dies became its
/// wreck, the others are unchanged, and one power-up of some kind stands at
/// each place where a barrel broke, after all the others, with handles from
/// `h0` on.
pub open spec fn death_result(ob: Seq<Body>, nb: Seq<Body>, h0: int, h1: int) -> bool {
    let spots = loot_spots(ob, ob.len() as int);
    &&& nb.len() == ob.len() + spots.len()
    &&& forall|j: int| 0 <= j < ob.len() ==> nb[j] == if dies(ob[j]) { wrecked(ob[j]) } else { ob[j] }
    &&& forall|k: int| 0 <= k < spots.len() ==> {
        let b = #[trigger] nb[ob.len() + k];
        b.kind matches Kind::PowerUp(t) && b == power_up_body((h0 + k) as u64, t, spots[k])
    }
    &&& h1 == h0 + spots.len()
}

proof fn lemma_single_loot(bs: Seq<Body>, n: int, j: int)
    requires
        0 <= j < n <= bs.len(),
        dies(bs[j]),
        bs[j].kind == Kind::Barrel,
        forall|k: int| 0 <= k < n && k != j ==> !dies(#[trigger] bs[k]),
    ensures
        loot_spots(bs, n) == seq![bs[j].pos],
    decreases n,
{
    if n - 1 > j {
        lemma_single_loot(bs, n - 1, j);
    } else {
        lemma_no_loot(bs, j);
        assert(loot_spots(bs, j).push(bs[j].pos) =~= seq![bs[j].pos]);
    }
}

proof fn lemma_no_loot(bs: Seq<Body>, n: int)
    requires
        0 <= n <= bs.len(),
        forall|k: int| 0 <= k < n ==> !dies(#[trigger] bs[k]),
    ensures
        loot_spots(bs, n) == Seq::<Point>::empty(),
    decreases n,
{
    if n > 0 {
        lemma_no_loot(bs, n - 1);
    }
}

/// When one barrel breaks and nothing else dies, the death pass leaves that
/// barrel as a wreck and exactly one power-up where it stood.
pub proof fn lemma_broken_barrel_drops_one(ob: Seq<Body>, nb: Seq<Body>, h0: int, h1: int, j: int)
    requires
        0 <= j < ob.len(),
        dies(ob[j]),
        ob[j].kind == Kind::Barrel,
        forall|k: int| 0 <= k < ob.len() && k != j ==> !dies(#[trigger] ob[k]),
        death_result(ob, nb, h0, h1),
    ensures
        nb.len() == ob.len() + 1,
        nb[j] == wrecked(ob[j]),
        !nb[j].alive,
        nb[ob.len() as int].pos == ob[j].pos,
        nb[ob.len() as int].kind matches Kind::PowerUp(_),
        h1 == h0 + 1,
{
    lemma_single_loot(ob, ob.len() as int, j);
    let k: int = 0;
    let b = nb[ob.len() + k];
    assert(b.kind matches Kind::PowerUp(t) && b == power_up_body((h0 + k) as u64, t, loot_spots(ob, ob.len() as int)[k]));
}

/// Turns every mortal body whose health ran out into a wreck. A barrel that
/// breaks leaves one power-up of a random kind where it stood; the power-ups
/// are appended after all existing bodies and take handles from `next_handle`
/// on. Returns how many score-granting enemies died.
pub fn death_pass(bodies: &mut Vec<Body>, next_handle: &mut u64, events: &mut Vec<Event>) -> (killed: u64)
    requires
        all_bodies_wf(old(bodies)@),
        *old(next_handle) + old(bodies)@.len() <= u64::MAX,
    ensures
        death_result(old(bodies)@, final(bodies)@, *old(next_handle) as int, *final(next_handle) as int),
        killed as nat == kills(old(bodies)@, old(bodies)@.len() as int),
        final(events)@ == old(events)@ + death_events(old(bodies)@, old(bodies)@.len() as int),
        all_bodies_wf(final(bodies)@),
{
    let ghost ob = bodies@;
    let ghost oe = events@;
    let ghost h0 = *next_handle;
    let n = bodies.len();
    let mut killed: u64 = 0;
    let mut spots: Vec<Point> = Vec::new();
    let mut j: usize = 0;
    while j < n
        invariant
            n == ob.len(),
            0 <= j <= n,
            bodies@.len() == n,
            all_bodies_wf(ob),
            forall|k: int| 0 <= k < j ==> bodies@[k] == if dies(ob[k]) { wrecked(ob[k]) } else { ob[k] },
            forall|k: int| j <= k < n ==> bodies@[k] == ob[k],
            killed as nat == kills(ob, j as int),
            spots@ == loot_spots(ob, j as int),
            forall|q: int| 0 <= q < spots@.len() ==> (#[trigger] spots@[q]).bounded(),
            events@ == oe + death_events(ob, j as int),
        decreases n - j,
    {
        let b = bodies[j];
        proof {
            lemma_counts_bounded(ob, j as int);
        }
        let mortal_kind = match b.kind {
            Kind::SideCannon | Kind::Pirate | Kind::Obstacle | Kind::Barrel => true,
            _ => false,
        };
        let out_of_health = match b.health {
            Some(h) => h.amount <= 0,
            None => false,
        };
        if b.alive && mortal_kind && out_of_health {
            let is_cannon = match b.kind {
                Kind::SideCannon => true,
                _ => false,
            };
            let is_barrel = match b.kind {
                Kind::Barrel => true,
                _ => false,
            };
            let sprite = if is_cannon { Sprite::EnemyCannonWreck } else { Sprite::WoodWreck };
            bodies.set(j, Body { alive: false, sprite, ..b });
            if is_cannon {
                killed = killed + 1;
                events.push(Event::BoatDestroyed);
            } else {
                events.push(Event::ObstacleDestroyed);
            }
            if is_barrel {
                proof {
                    assert(b.wf());
                }
                spots.push(b.pos);
            }
        }
        proof {
            assert(oe + death_events(ob, j as int + 1) =~= events@);
        }
        j = j + 1;
    }
    proof {
        lemma_counts_bounded(ob, n as int);
    }
    let mut k: usize = 0;
    while k < spots.len()
        invariant
            n == ob.len(),
            spots@ == loot_spots(ob, n as int),
            spots@.len() <= n,
            0 <= k <= spots@.len(),
            bodies@.len() == n + k,
            *next_handle == h0 + k,
            h0 + n <= u64::MAX,
            all_bodies_wf(ob),
            forall|q: int| 0 <= q < spots@.len() ==> (#[trigger] spots@[q]).bounded(),
            forall|q: int| 0 <= q < n ==> bodies@[q] == if dies(ob[q]) { wrecked(ob[q]) } else { ob[q] },
            forall|q: int| 0 <= q < k ==> {
                let b = #[trigger] bodies@[n + q];
                b.kind matches Kind::PowerUp(t) && b == power_up_body((h0 + q) as u64, t, spots@[q])
            },
        decreases spots@.len() - k,
    {
        let roll = random_between(0, 2);
        let kind = if roll == 0 { PowerUpType::Repair } else { PowerUpType::Weapon };
        let drop = new_power_up(*next_handle, kind, spots[k]);
        bodies.push(drop);
        *next_handle = *next_handle + 1;
        proof {
            assert(bodies@[n + k as int] == drop);
        }
        k = k + 1;
    }
    proof {
        assert forall|q: int| 0 <= q < bodies@.len() implies (#[trigger] bodies@[q]).wf() by {
            if q < n {
                assert(ob[q].wf());
            } else {
                assert(spots@[q - n].bounded());
                let b = bodies@[n + (q - n)];
                assert(b.kind matches Kind::PowerUp(t) && b == power_up_body((h0 + (q - n)) as u64, t, spots@[q - n]));
            }
        }
    }
    killed
}

/// Half the width of the margin beside the playfield where bullets still fly.
pub const BULLET_MARGIN: i64 = 100_000;

/// How far behind the camera a body may fall before it is removed.
pub const BEHIND_CAMERA: i64 = 600_000;

/// A shot is still over or beside the playfield.
pub open spec fn in_field(s: Shot) -> bool {
    -BULLET_MARGIN <= s.pos.x <= MAP_WIDTH + BULLET_MARGIN
}

/// The shots among the first `n` still in the field, in order.
pub open spec fn shots_in_field(shots: Seq<Shot>, n: int) -> Seq<Shot>
    decreases n,
{
    if n <= 0 {
        seq![]
    } else {
        let rest = shots_in_field(shots, n - 1);
        if in_field(shots[n - 1]) {
            rest.push(shots[n - 1])
        } else {
            rest
        }
    }
}

/// Removes bullets that flew far past either side of the playfield.
pub fn sweep_shots(shots: &mut Vec<Shot>)
    requires
        all_shots_wf(old(shots)@),
    ensures
        final(shots)@ == shots_in_field(old(shots)@, old(shots)@.len() as int),
        all_shots_wf(final(shots)@),
{
    let ghost os = shots@;
    let mut kept: Vec<Shot> = Vec::new();
    let mut i: usize = 0;
    while i < shots.len()
        invariant
            shots@ == os,
            0 <= i <= os.len(),
            all_shots_wf(os),
            kept@ == shots_in_field(os, i as int),
            all_shots_wf(kept@),
        decreases os.len() - i,
    {
        let s = shots[i];
        if -BULLET_MARGIN <= s.pos.x && s.pos.x <= MAP_WIDTH + BULLET_MARGIN {
            kept.push(s);
        }
        proof {
            assert(s.wf());
            assert forall|q: int| 0 <= q < kept@.len() implies (#[trigger] kept@[q]).wf() by {
            }
        }
        i = i + 1;
    }
    *shots = kept;
}

/// Body `j` stays: it is the player (index 0), or it has not fallen too far
/// behind the camera.
pub open spec fn retained(b: Body, j: int, camera_y: int) -> bool {
    j == 0 || b.pos.y >= camera_y - BEHIND_CAMERA
}

/// The bodies among the first `n` that stay, in order.
pub open spec fn bodies_in_view(bs: Seq<Body>, n: int, camera_y: int) -> Seq<Body>
    decreases n,
{
    if n <= 0 {
        seq![]
    } else {
        let rest = bodies_in_view(bs, n - 1, camera_y);
        if retained(bs[n - 1], n - 1, camera_y) {
            rest.push(bs[n - 1])
        } else {
            rest
        }
    }
}

proof fn lemma_view_keeps_first(bs: Seq<Body>, n: int, camera_y: int)
    requires
        1 <= n <= bs.len(),
    ensures
        bodies_in_view(bs, n, camera_y).len() >= 1,
        bodies_in_view(bs, n, camera_y)[0] == bs[0],
    decreases n,
{
    if n > 1 {
        lemma_view_keeps_first(bs, n - 1, camera_y);
    } else {
        assert(bodies_in_view(bs, 0, camera_y) =~= seq![]);
    }
}

/// Removes every body, the player excepted, that scrolled more than
/// `BEHIND_CAMERA` behind the camera.
pub fn sweep_bodies(bodies: &mut Vec<Body>, camera_y: i64)
    requires
        all_bodies_wf(old(bodies)@),
        -2_000_000_000_000 <= camera_y <= 2_000_000_000_000,
    ensures
        final(bodies)@ == bodies_in_view(old(bodies)@, old(bodies)@.len() as int, camera_y as int),
        old(bodies)@.len() >= 1 ==> final(bodies)@.len() >= 1 && final(bodies)@[0] == old(bodies)@[0],
        all_bodies_wf(final(bodies)@),
{
    let ghost ob = bodies@;
    let mut kept: Vec<Body> = Vec::new();
    let mut i: usize = 0;
    while i < bodies.len()
        invariant
            bodies@ == ob,
            0 <= i <= ob.len(),
            all_bodies_wf(ob),
            -2_000_000_000_000 <= camera_y <= 2_000_000_000_000,
            kept@ == bodies_in_view(ob, i as int, camera_y as int),
            all_bodies_wf(kept@),
        decreases ob.len() - i,
    {
        let b = bodies[i];
        if i == 0 || b.pos.y >= camera_y - BEHIND_CAMERA {
            kept.push(b);
        }
        proof {
            assert(b.wf());
            assert forall|q: int| 0 <= q < kept@.len() implies (#[trigger] kept@[q]).wf() by {
            }
        }
        i = i + 1;
    }
    proof {
        if ob.len() >= 1 {
            lemma_view_keeps_first(ob, ob.len() as int, camera_y as int);
        }
    }
    *bodies = kept;
}

} // verus!
