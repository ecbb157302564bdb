use vstd::prelude::*;
use crate::angle::{bearing, bearing_of, canonical, heading, heading_of, rotate, rotated, turn_toward, turned_toward, wrap, wrapped, HALF_PI_MICRO, MAX_TURN_RATE};
use crate::combat::{all_bodies_wf, all_shots_wf};
use crate::entity::{Body, Bullet, Gunner, Kind, Shot, BULLET_SIDE};
use crate::event::{repeated, Event};
use crate::geometry::{
    advance, advanced, clamp, clamp_coord, div_toward_zero, div_trunc, normalize, normalized, Dir, Point, Size,
    COORD_LIMIT, MAX_SPEED, MAX_STEP_MS, UNIT,
};
use crate::power_up::PlayerCannon;
use crate::timer::ticked;

verus! {

/// How fast the boat's heading follows the steering input, in thousandths
/// of the input vector per second.
pub const STEER_RATE: i64 = 1800;

/// The player's cruising speed, in world units per second.
pub const PLAYER_SPEED: i64 = 120;

/// Speed of the player's bullets, in world units per second.
pub const PLAYER_BULLET_SPEED: i64 = 350;

/// Height of the player's cannon above the boat's centre, before turning.
pub const CANNON_MOUNT_Y: i64 = 20_000;

/// The boat's heading after one step of steering: the input, scaled by the
/// steering rate and the step, is added to the heading, which is then
/// brought back to unit length. Without input the heading is kept.
pub open spec fn steered(v: Dir, intent: Option<Dir>, dt_ms: int) -> Dir {
    match intent {
        Some(i) => normalized(
            v.x + div_toward_zero(i.x * STEER_RATE * dt_ms, 1_000_000),
            v.y + div_toward_zero(i.y * STEER_RATE * dt_ms, 1_000_000),
        ),
        None => v,
    }
}

/// Nudges the heading toward the steering input.
pub fn steer(v: Dir, intent: Option<Dir>, dt_ms: u64) -> (r: Dir)
    requires
        v.wf(),
        intent matches Some(i) ==> i.wf(),
        dt_ms <= MAX_STEP_MS,
    ensures
        r == steered(v, intent, dt_ms as int),
        r.wf(),
{
    match intent {
        Some(i) => {
            assert(-18_000_000_000 <= i.x * STEER_RATE * dt_ms <= 18_000_000_000) by (nonlinear_arith)
                requires
                    -1000 <= i.x <= 1000,
                    0 <= dt_ms <= 10_000,
            ;
            assert(-18_000_000_000 <= i.y * STEER_RATE * dt_ms <= 18_000_000_000) by (nonlinear_arith)
                requires
                    -1000 <= i.y <= 1000,
                    0 <= dt_ms <= 10_000,
            ;
            let dx = div_trunc(i.x as i128 * STEER_RATE as i128 * dt_ms as i128, 1_000_000);
            let dy = div_trunc(i.y as i128 * STEER_RATE as i128 * dt_ms as i128, 1_000_000);
            normalize((v.x as i128 + dx) as i64, (v.y as i128 + dy) as i64)
        },
        None => v,
    }
}

/// How far the boat leans for its heading: a quarter turn for a heading
/// straight to the side, nothing for one straight ahead.
pub open spec fn tilt_of(v: Dir) -> int {
    -div_toward_zero(v.x * HALF_PI_MICRO, UNIT as int)
}

/// The boat's rotation for a heading.
pub fn tilt(v: Dir) -> (r: i64)
    requires
        v.wf(),
    ensures
        r == tilt_of(v),
        canonical(r as int),
{
    assert(-1_570_796_000 <= v.x * HALF_PI_MICRO <= 1_570_796_000) by (nonlinear_arith)
        requires
            -1000 <= v.x <= 1000,
    ;
    let t = div_trunc(v.x as i128 * HALF_PI_MICRO as i128, 1000);
    (-t) as i64
}

/// Where something mounted at `mount` on a body at `pos`, turned by `rotation`, stands.
pub open spec fn mounted_at(pos: Point, rotation: int, mount: Point) -> Point {
    let off = rotated(mount, rotation);
    Point { x: clamp_coord(pos.x + off.x) as i64, y: clamp_coord(pos.y + off.y) as i64 }
}

/// The world position of a mount.
pub fn mount_position(pos: Point, rotation: i64, mount: Point) -> (r: Point)
    requires
        pos.bounded(),
        canonical(rotation as int),
        -crate::angle::OFFSET_LIMIT <= mount.x <= crate::angle::OFFSET_LIMIT,
        -crate::angle::OFFSET_LIMIT <= mount.y <= crate::angle::OFFSET_LIMIT,
    ensures
        r == mounted_at(pos, rotation as int, mount),
        r.bounded(),
{
    let off = rotate(mount, rotation);
    Point { x: clamp(pos.x as i128 + off.x as i128), y: clamp(pos.y as i128 + off.y as i128) }
}

/// The direction from `from` to a point `lead` above `target`.
pub open spec fn aim_from(from: Point, target: Point, lead: int) -> Dir {
    normalized(target.x - from.x, target.y - from.y + lead)
}

/// Points a weapon at a point `lead` above the target, at once.
pub fn aim(from: Point, target: Point, lead: i64) -> (r: Dir)
    requires
        from.bounded(),
        target.bounded(),
        -COORD_LIMIT <= lead <= COORD_LIMIT,
    ensures
        r == aim_from(from, target, lead as int),
        r.wf(),
{
    normalize(target.x - from.x, target.y - from.y + lead)
}

/// An enemy weapon after one step: its timer advances; while the body is
/// alive it turns straight at the player.
pub open spec fn gunner_stepped(b: Body, g: Gunner, player: Point, dt_ms: int) -> Gunner {
    let timer = ticked(g.timer, dt_ms);
    if b.alive {
        Gunner { timer, aim: aim_from(mounted_at(b.pos, b.rotation as int, g.mount), player, g.lead as int), ..g }
    } else {
        Gunner { timer, ..g }
    }
}

/// The body after its weapon stepped. A live bank cannon, whose weapon is
/// the body itself, also turns at once to face where it aims.
pub open spec fn armed_stepped(b: Body, player: Point, dt_ms: int) -> Body {
    match b.gunner {
        Some(g) => {
            let ng = gunner_stepped(b, g, player, dt_ms);
            Body {
                gunner: Some(ng),
                rotation: if b.alive && b.kind == Kind::SideCannon { bearing_of(ng.aim) as i64 } else { b.rotation },
                ..b
            }
        },
        None => b,
    }
}

/// The body fires this step: it is alive and its weapon's timer ran out.
pub open spec fn fires(b: Body, player: Point, dt_ms: int) -> bool {
    &&& b.alive
    &&& b.gunner matches Some(g)
    &&& ticked(g.timer, dt_ms).finished
}

/// The bullet a firing body sends: from its weapon, along the new aim.
pub open spec fn shot_of(b: Body, player: Point, dt_ms: int, handle: u64) -> Shot {
    let g = b.gunner.unwrap();
    let muzzle = mounted_at(b.pos, b.rotation as int, g.mount);
    Shot {
        handle,
        pos: muzzle,
        dir: aim_from(muzzle, player, g.lead as int),
        speed: g.speed,
        bullet: Bullet { shooter: b.handle, damage: 1, size: Size { w: BULLET_SIDE, h: BULLET_SIDE } },
    }
}

/// The bullets the first `n` bodies fire, in order, handles counted from `h0`.
pub open spec fn volley(bs: Seq<Body>, n: int, player: Point, dt_ms: int, h0: int) -> Seq<Shot>
    decreases n,
{
    if n <= 0 {
        seq![]
    } else {
        let rest = volley(bs, n - 1, player, dt_ms, h0);
        if fires(bs[n - 1], player, dt_ms) {
            rest.push(shot_of(bs[n - 1], player, dt_ms, (h0 + rest.len()) as u64))
        } else {
            rest
        }
    }
}

proof fn lemma_volley_len(bs: Seq<Body>, n: int, player: Point, dt_ms: int, h0: int)
    requires
        0 <= n,
    ensures
        volley(bs, n, player, dt_ms, h0).len() <= n,
    decreases n,
{
    if n > 0 {
        lemma_volley_len(bs, n - 1, player, dt_ms, h0);
    }
}

/// Steps every enemy weapon: each timer advances, each live weapon turns
/// straight at the player (index 0), each live bank cannon turns its body to
/// face the same way, and each live weapon whose timer ran out
/// fires one bullet, which cannot hurt the body that carries the weapon.
pub fn enemy_weapons(bodies: &mut Vec<Body>, shots: &mut Vec<Shot>, next_handle: &mut u64, dt_ms: u64, events: &mut Vec<Event>)
    requires
        old(bodies)@.len() >= 1,
        all_bodies_wf(old(bodies)@),
        all_shots_wf(old(shots)@),
        dt_ms <= MAX_STEP_MS,
        *old(next_handle) + old(bodies)@.len() <= u64::MAX,
    ensures
        final(bodies)@.len() == old(bodies)@.len(),
        forall|j: int| 0 <= j < old(bodies)@.len() ==> final(bodies)@[j]
            == armed_stepped(old(bodies)@[j], old(bodies)@[0].pos, dt_ms as int),
        final(shots)@ == old(shots)@ + volley(
            old(bodies)@,
            old(bodies)@.len() as int,
            old(bodies)@[0].pos,
            dt_ms as int,
            *old(next_handle) as int,
        ),
        *final(next_handle) == *old(next_handle) + volley(
            old(bodies)@,
            old(bodies)@.len() as int,
            old(bodies)@[0].pos,
            dt_ms as int,
            *old(next_handle) as int,
        ).len(),
        final(events)@ == old(events)@ + repeated(
            Event::BulletFired,
            volley(old(bodies)@, old(bodies)@.len() as int, old(bodies)@[0].pos, dt_ms as int, *old(next_handle) as int).len(),
        ),
        all_bodies_wf(final(bodies)@),
        all_shots_wf(final(shots)@),
{
    let ghost ob = bodies@;
    let ghost os = shots@;
    let ghost h0 = *next_handle;
    let player = bodies[0].pos;
    let n = bodies.len();
    let mut j: usize = 0;
    while j < n
        invariant
            n == ob.len(),
            0 <= j <= n,
            bodies@.len() == n,
            player == ob[0].pos,
            player.bounded(),
            all_bodies_wf(ob),
            dt_ms <= MAX_STEP_MS,
            h0 + n <= u64::MAX,
            forall|k: int| 0 <= k < j ==> bodies@[k] == armed_stepped(ob[k], player, dt_ms as int),
            forall|k: int| j <= k < n ==> bodies@[k] == ob[k],
            forall|k: int| 0 <= k < j ==> (#[trigger] bodies@[k]).wf(),
            shots@ == os + volley(ob, j as int, player, dt_ms as int, h0 as int),
            *next_handle == h0 + volley(ob, j as int, player, dt_ms as int, h0 as int).len(),
            all_shots_wf(shots@),
            events@ == old(events)@ + repeated(Event::BulletFired, volley(ob, j as int, player, dt_ms as int, h0 as int).len()),
        decreases n - j,
    {
        let b = bodies[j];
        proof {
            assert(b.wf());
            lemma_volley_len(ob, j as int, player, dt_ms as int, h0 as int);
        }
        match b.gunner {
            Some(g) => {
                let mut timer = g.timer;
                timer.tick(dt_ms);
                if b.alive {
                    let muzzle = mount_position(b.pos, b.rotation, g.mount);
                    let dir = aim(muzzle, player, g.lead);
                    let stepped = Gunner { timer, aim: dir, ..g };
                    let rotation = match b.kind {
                        Kind::SideCannon => bearing(dir),
                        _ => b.rotation,
                    };
                    bodies.set(j, Body { gunner: Some(stepped), rotation, ..b });
                    if timer.finished {
                        let shot = Shot {
                            handle: *next_handle,
                            pos: muzzle,
                            dir,
                            speed: g.speed,
                            bullet: Bullet::new(b.handle),
                        };
                        shots.push(shot);
                        *next_handle = *next_handle + 1;
                        events.push(Event::BulletFired);
                    }
                } else {
                    let stepped = Gunner { timer, ..g };
                    bodies.set(j, Body { gunner: Some(stepped), ..b });
                }
            },
            None => {},
        }
        proof {
            assert(shots@ =~= os + volley(ob, j as int + 1, player, dt_ms as int, h0 as int));
            assert(events@ =~= old(events)@ + repeated(
                Event::BulletFired,
                volley(ob, j as int + 1, player, dt_ms as int, h0 as int).len(),
            ));
            assert forall|q: int| 0 <= q < shots@.len() implies (#[trigger] shots@[q]).wf() by {
            }
        }
        j = j + 1;
    }
}

/// Moves every bullet along its direction for one step.
pub fn move_shots(shots: &mut Vec<Shot>, dt_ms: u64)
    requires
        all_shots_wf(old(shots)@),
        dt_ms <= MAX_STEP_MS,
    ensures
        final(shots)@.len() == old(shots)@.len(),
        forall|i: int| 0 <= i < old(shots)@.len() ==> final(shots)@[i] == (Shot {
            pos: advanced(old(shots)@[i].pos, old(shots)@[i].dir, old(shots)@[i].speed as int, dt_ms as int),
            ..old(shots)@[i]
        }),
        all_shots_wf(final(shots)@),
{
    let ghost os = shots@;
    let mut i: usize = 0;
    while i < shots.len()
        invariant
            shots@.len() == os.len(),
            0 <= i <= os.len(),
            all_shots_wf(os),
            dt_ms <= MAX_STEP_MS,
            forall|k: int| 0 <= k < i ==> shots@[k] == (Shot {
                pos: advanced(os[k].pos, os[k].dir, os[k].speed as int, dt_ms as int),
                ..os[k]
            }),
            forall|k: int| i <= k < os.len() ==> shots@[k] == os[k],
            forall|k: int| 0 <= k < i ==> (#[trigger] shots@[k]).wf(),
        decreases os.len() - i,
    {
        let s = shots[i];
        proof {
            assert(os[i as int].wf());
        }
        let pos = advance(s.pos, s.dir, s.speed, dt_ms);
        shots.set(i, Shot { pos, ..s });
        i = i + 1;
    }
    proof {
        assert forall|k: int| 0 <= k < shots@.len() implies (#[trigger] shots@[k]).wf() by {}
    }
}

/// The player's cannon after one step of aiming: when a bearing is given,
/// the cannon turns toward it (measured from the boat's rotation `boat`) at
/// its turn rate; its aim follows the angle it ends at.
pub open spec fn cannon_aimed(c: PlayerCannon, boat: int, bearing: Option<i64>, dt_ms: int) -> PlayerCannon {
    match bearing {
        Some(t) => {
            let angle = turned_toward(c.angle as int, wrapped(t - boat), c.turn_rate as int, dt_ms);
            PlayerCannon { angle: angle as i64, aim: heading(wrapped(angle + boat)), ..c }
        },
        None => c,
    }
}

/// Turns the player's cannon toward the aim bearing at its turn rate.
pub fn aim_cannon(c: &mut PlayerCannon, boat: i64, bearing: Option<i64>, dt_ms: u64)
    requires
        old(c).wf(),
        canonical(boat as int),
        bearing matches Some(t) ==> canonical(t as int),
        dt_ms <= MAX_STEP_MS,
    ensures
        *final(c) == cannon_aimed(*old(c), boat as int, bearing, dt_ms as int),
        final(c).wf(),
{
    match bearing {
        Some(t) => {
            let target = wrap(t - boat);
            let angle = turn_toward(c.angle, target, c.turn_rate, dt_ms);
            let world = wrap(angle + boat);
            c.angle = angle;
            c.aim = heading_of(world);
        },
        None => {},
    }
}

} // verus!
