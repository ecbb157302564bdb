use boat_game::combat::KILL_SCORE;
use boat_game::entity::{Body, Kind, Sprite, MAP_WIDTH, OBSTACLE_KINDS};
use boat_game::environment::MapObject;
use boat_game::score::GameScore;
use boat_game::spawner::{get_random_obstacle_spawn_position, get_random_pirate_spawn_position, spawn_one, Category, Spawner};
use boat_game::difficulty::Difficulty;

#[test]
fn water_rows_are_added_one_at_a_time() {
    let mut f = MapObject::new();
    let mut bodies: Vec<Body> = Vec::new();
    let mut next = 1;
    f.advance_water(0, &mut bodies, &mut next);
    assert_eq!(f.water_top, 64_000);
    assert_eq!(bodies.len(), 8);
    assert_eq!(bodies[0].pos.x, 32_000);
    assert_eq!(bodies[7].pos.x, 480_000);
    assert!(bodies.iter().all(|b| b.pos.y == 64_000 && b.kind == Kind::Water));
    assert_eq!(next, 9);
    f.advance_water(0, &mut bodies, &mut next);
    assert_eq!(f.water_top, 128_000);
    assert_eq!(bodies.len(), 16);
}

#[test]
fn generation_stops_past_the_lookahead() {
    let mut f = MapObject { water_top: 900_000, border_top: 800_000, land_top: 800_001 };
    let mut bodies: Vec<Body> = Vec::new();
    let mut next = 1;
    f.advance_water(0, &mut bodies, &mut next);
    f.advance_land(0, &mut bodies, &mut next);
    assert!(bodies.is_empty());
    f.advance_border(0, &mut bodies, &mut next);
    assert_eq!(f.border_top, 864_000);
    assert_eq!(bodies.len(), 2);
    assert_eq!(bodies[0].pos.x, 32_000);
    assert_eq!(bodies[1].pos.x, MAP_WIDTH - 32_000);
    assert!(matches!(bodies[0].sprite, Sprite::Border(v) if v < 4));
    assert_eq!(f.water_top, 900_000);
    assert_eq!(f.land_top, 800_001);
}

#[test]
fn land_rows_flank_the_strip() {
    let mut f = MapObject::new();
    let mut bodies: Vec<Body> = Vec::new();
    let mut next = 1;
    f.advance_land(0, &mut bodies, &mut next);
    let xs: Vec<i64> = bodies.iter().map(|b| b.pos.x).collect();
    assert_eq!(xs, vec![-96_000, -32_000, 544_000, 608_000]);
    assert!(bodies.iter().all(|b| b.collidable.unwrap().contact_damage == 100 && b.health.is_none()));
}

#[test]
fn spawned_obstacles_vary_and_stay_in_bounds() {
    let mut xs = std::collections::HashSet::new();
    let mut kinds = std::collections::HashSet::new();
    for h in 0..200 {
        let b = spawn_one(Category::Obstacle, h, 1_000_000);
        assert!(b.pos.x >= 30_000 && b.pos.x < MAP_WIDTH - 30_000);
        assert_eq!(b.pos.y, 1_000_000);
        match b.sprite {
            Sprite::Obstacle(i) => {
                assert!((i as usize) < OBSTACLE_KINDS);
                let h = b.health.unwrap();
                assert_eq!(h.immune_to_projectiles, i > 2);
                assert_eq!(h.max_amount, if i > 2 { 1 } else { 100 });
                kinds.insert(i);
            },
            _ => panic!("not an obstacle"),
        }
        xs.insert(b.pos.x);
    }
    assert!(xs.len() > 1);
    assert!(kinds.len() > 1);
}

#[test]
fn side_cannons_appear_on_the_banks() {
    for h in 0..50 {
        let b = spawn_one(Category::SideCannon, h, 0);
        assert!(b.pos.x == -64_000 || b.pos.x == MAP_WIDTH + 64_000);
        assert_eq!(b.health.unwrap().amount, 2);
    }
}

#[test]
fn spawner_fires_on_schedule() {
    let mut s = Spawner::new();
    let mut bodies: Vec<Body> = Vec::new();
    let mut next = 1;
    assert_eq!(s.spawn(1999, 0, &mut bodies, &mut next), 0);
    assert_eq!(s.spawn(1, 0, &mut bodies, &mut next), 1);
    assert_eq!(bodies[0].kind, Kind::Obstacle);
    assert_eq!(bodies[0].pos.y, 600_000);
    s.on_promotion(Difficulty::Medium);
    assert_eq!(s.pirates.timers.len(), 1);
}

#[test]
fn score_counts_kills_and_distance() {
    let mut s = GameScore::new();
    s.add_kills(3, KILL_SCORE);
    assert_eq!(s.score, 30);
    s.update_distance(288_000 + 16_000);
    assert_eq!(s.distance_mm, 1000);
    s.update_distance(288_000 + 16 * 120_000);
    assert_eq!(s.distance_mm, 120_000);
    assert_eq!(s.effective(), 32);
    s.update_distance(288_000 - 16_000);
    assert_eq!(s.distance_mm, -1000);
    s.add_time(40);
    assert_eq!(s.elapsed_ms, 40);
    s.reset();
    assert_eq!(s, GameScore::new());
}

#[test]
fn random_spawn_positions_stay_clear_of_the_banks() {
    let mut seen = std::collections::HashSet::new();
    for _ in 0..100 {
        let p = get_random_pirate_spawn_position();
        assert!(p >= 40_000 && p < MAP_WIDTH - 40_000);
        let o = get_random_obstacle_spawn_position();
        assert!(o >= 30_000 && o < MAP_WIDTH - 30_000);
        seen.insert(p);
    }
    assert!(seen.len() > 1);
}
