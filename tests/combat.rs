use boat_game::combat::{bullet_pass, contact_pass, death_pass, sweep_bodies, sweep_shots};
use boat_game::entity::{
    new_barrel, new_land, new_obstacle, new_pirate, new_player, new_power_up, new_side_cannon, Body, Bullet, Kind,
    Mass, PowerUpType, Shot, Sprite,
};
use boat_game::event::Event;
use boat_game::geometry::{Dir, Point};
use boat_game::motion::enemy_weapons;

fn shot_at(handle: u64, x: i64, y: i64, shooter: u64) -> Shot {
    Shot { handle, pos: Point { x, y }, dir: Dir { x: 0, y: 1000 }, speed: 350, bullet: Bullet::new(shooter) }
}

fn amount(b: &Body) -> i32 {
    b.health.unwrap().amount
}

#[test]
fn bullet_never_hurts_its_shooter() {
    let mut bodies = vec![new_player(0), new_pirate(7, Point { x: 100_000, y: 500_000 }, 0)];
    let mut shots = vec![shot_at(20, 100_000, 500_000, 7)];
    let hits = bullet_pass(&mut shots, &mut bodies);
    assert!(hits.is_empty());
    assert_eq!(amount(&bodies[1]), 3);
    assert_eq!(shots.len(), 1);
}

#[test]
fn bullet_passes_through_immune_bodies() {
    let mut bodies = vec![
        new_player(0),
        new_power_up(3, PowerUpType::Repair, Point { x: 100_000, y: 500_000 }),
        new_obstacle(4, 4, Point { x: 100_000, y: 500_000 }, 0),
    ];
    let mut shots = vec![shot_at(20, 100_000, 500_000, 0)];
    let hits = bullet_pass(&mut shots, &mut bodies);
    assert!(hits.is_empty());
    assert_eq!(amount(&bodies[1]), 1);
    assert_eq!(amount(&bodies[2]), 1);
    assert_eq!(shots.len(), 1);
}

#[test]
fn bullet_hits_only_the_first_target() {
    let mut bodies = vec![
        new_player(0),
        new_obstacle(4, 0, Point { x: 100_000, y: 500_000 }, 0),
        new_pirate(5, Point { x: 100_000, y: 500_000 }, 0),
    ];
    let mut shots = vec![shot_at(20, 100_000, 500_000, 0), shot_at(21, 400_000, 100_000, 0)];
    let hits = bullet_pass(&mut shots, &mut bodies);
    assert_eq!(hits, vec![Mass::Rock]);
    assert_eq!(amount(&bodies[1]), 99);
    assert_eq!(amount(&bodies[2]), 3);
    assert_eq!(shots.len(), 1);
    assert_eq!(shots[0].handle, 21);
}

#[test]
fn bullet_misses_when_boxes_only_touch() {
    let mut bodies = vec![new_player(0), new_barrel(5, Point { x: 100_000, y: 500_000 })];
    // barrel half width 16, bullet half width 2.5: centres 18.5 apart only touch
    let mut shots = vec![shot_at(20, 118_500, 500_000, 0)];
    let hits = bullet_pass(&mut shots, &mut bodies);
    assert!(hits.is_empty());
    let mut shots = vec![shot_at(21, 118_499, 500_000, 0)];
    let hits = bullet_pass(&mut shots, &mut bodies);
    assert_eq!(hits, vec![Mass::Wood]);
}

#[test]
fn wrecks_take_no_more_hits() {
    let mut wreck = new_side_cannon(5, Point { x: 100_000, y: 500_000 });
    wreck.alive = false;
    let mut bodies = vec![new_player(0), wreck];
    let mut shots = vec![shot_at(20, 100_000, 500_000, 0)];
    let hits = bullet_pass(&mut shots, &mut bodies);
    assert!(hits.is_empty());
    assert_eq!(amount(&bodies[1]), 2);
}

#[test]
fn barrel_breaks_into_one_power_up() {
    let spot = Point { x: 100_000, y: 500_000 };
    let mut bodies = vec![new_player(0), new_barrel(5, spot)];
    assert_eq!(bodies[1].health.unwrap().max_amount, 1);
    let mut shots = vec![shot_at(20, 100_000, 500_000, 0)];
    let hits = bullet_pass(&mut shots, &mut bodies);
    assert_eq!(hits, vec![Mass::Wood]);
    assert_eq!(amount(&bodies[1]), 0);
    let mut next = 30;
    let mut events = Vec::new();
    let killed = death_pass(&mut bodies, &mut next, &mut events);
    assert_eq!(killed, 0);
    assert!(!bodies[1].alive);
    assert_eq!(bodies[1].sprite, Sprite::WoodWreck);
    assert_eq!(bodies.len(), 3);
    assert!(matches!(bodies[2].kind, Kind::PowerUp(_)));
    assert_eq!(bodies[2].pos, spot);
    assert_eq!(bodies[2].handle, 30);
    assert_eq!(next, 31);
    assert_eq!(events, vec![Event::ObstacleDestroyed]);
    // a second pass finds nothing new to destroy
    let killed = death_pass(&mut bodies, &mut next, &mut events);
    assert_eq!(killed, 0);
    assert_eq!(bodies.len(), 3);
}

#[test]
fn destroyed_cannon_counts_as_kill() {
    let mut cannon = new_side_cannon(5, Point { x: -64_000, y: 500_000 });
    cannon.health = Some(boat_game::entity::Health { amount: -1, ..cannon.health.unwrap() });
    let mut bodies = vec![new_player(0), cannon];
    let mut next = 10;
    let mut events = Vec::new();
    let killed = death_pass(&mut bodies, &mut next, &mut events);
    assert_eq!(killed, 1);
    assert_eq!(bodies[1].sprite, Sprite::EnemyCannonWreck);
    assert_eq!(events, vec![Event::BoatDestroyed]);
    assert_eq!(bodies.len(), 2);
}

#[test]
fn ramming_hurts_both_sides() {
    let at = Point { x: 256_000, y: 300_000 };
    let mut bodies = vec![new_player(0), new_obstacle(3, 0, at, 0), new_pirate(4, Point { x: 256_000, y: 900_000 }, 0)];
    contact_pass(&mut bodies);
    assert_eq!(amount(&bodies[0]), 8);
    assert_eq!(amount(&bodies[1]), 99);
    assert_eq!(amount(&bodies[2]), 3);
}

#[test]
fn land_is_deadly_and_has_no_health() {
    let mut bodies = vec![new_player(0), new_land(3, Point { x: 256_000, y: 288_000 })];
    contact_pass(&mut bodies);
    assert_eq!(amount(&bodies[0]), -90);
    assert!(bodies[1].health.is_none());
}

#[test]
fn stray_bullets_are_removed() {
    let mut shots = vec![
        shot_at(1, -100_001, 0, 0),
        shot_at(2, -100_000, 0, 0),
        shot_at(3, 612_000, 0, 0),
        shot_at(4, 612_001, 0, 0),
    ];
    sweep_shots(&mut shots);
    let kept: Vec<u64> = shots.iter().map(|s| s.handle).collect();
    assert_eq!(kept, vec![2, 3]);
}

#[test]
fn bodies_far_behind_the_camera_are_removed() {
    let mut bodies = vec![
        new_player(0),
        new_barrel(1, Point { x: 100_000, y: 399_999 }),
        new_barrel(2, Point { x: 100_000, y: 400_000 }),
    ];
    sweep_bodies(&mut bodies, 1_000_000);
    let kept: Vec<u64> = bodies.iter().map(|b| b.handle).collect();
    assert_eq!(kept, vec![0, 2]);
}

#[test]
fn bank_cannon_turns_to_face_the_player() {
    let mut bodies = vec![new_player(0), new_side_cannon(5, Point { x: -64_000, y: 888_000 })];
    let mut shots = Vec::new();
    let mut next = 10;
    let mut events = Vec::new();
    enemy_weapons(&mut bodies, &mut shots, &mut next, 16, &mut events);
    let aim = bodies[1].gunner.unwrap().aim;
    assert_eq!(aim, Dir { x: 539, y: -842 });
    assert_eq!(bodies[1].rotation, -2_575_938);
    let exact = ((-842_f64).atan2(539.0) - std::f64::consts::FRAC_PI_2) * 1e6;
    assert!((bodies[1].rotation as f64 - exact).abs() < 10_000.0);
    assert!(shots.is_empty());
    assert!(events.is_empty());
}

#[test]
fn wrecked_cannon_keeps_its_facing() {
    let mut wreck = new_side_cannon(5, Point { x: -64_000, y: 888_000 });
    wreck.alive = false;
    let mut bodies = vec![new_player(0), wreck];
    let mut shots = Vec::new();
    let mut next = 10;
    let mut events = Vec::new();
    enemy_weapons(&mut bodies, &mut shots, &mut next, 2000, &mut events);
    assert_eq!(bodies[1].rotation, 0);
    assert_eq!(bodies[1].gunner.unwrap().aim, Dir { x: 0, y: 0 });
    assert!(shots.is_empty());
}
