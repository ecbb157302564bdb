use boat_game::difficulty::Difficulty;
use boat_game::entity::{new_land, Sprite};
use boat_game::game::{boat_sprite, Game, Intent, Phase};
use boat_game::geometry::{Dir, Point};

fn idle() -> Intent {
    Intent { steer: None, aim_bearing: None, fire: false }
}

#[test]
fn crash_into_land_ends_run_once() {
    let mut game = Game::new();
    assert_eq!(game.bodies[0].health.unwrap().amount, 10);
    assert_eq!(game.bodies[0].health.unwrap().max_amount, 10);
    let handle = game.next_handle;
    game.bodies.push(new_land(handle, Point { x: 256_000, y: 288_000 }));
    game.next_handle += 1;
    let first = game.tick(16, idle());
    assert!(first.run_ended);
    let crashes = first.events.iter().filter(|e| **e == boat_game::event::Event::BoatDestroyed).count();
    assert_eq!(crashes, 1);
    assert_eq!(first.events.last(), Some(&boat_game::event::Event::BoatDestroyed));
    assert!(game.bodies[0].health.unwrap().amount <= 0);
    assert_eq!(game.phase, Phase::Ended);
    assert_eq!(game.bodies[0].sprite, Sprite::BoatWreck);
    let second = game.tick(16, idle());
    assert!(!second.run_ended);
    assert!(second.events.is_empty());
}

#[test]
fn restart_twice_equals_once() {
    let mut game = Game::new();
    for _ in 0..50 {
        game.tick(100, Intent { steer: Some(Dir { x: 1000, y: 0 }), aim_bearing: Some(500_000), fire: true });
    }
    game.score.score = 40;
    game.restart();
    let once = format!("{:?}", game);
    game.restart();
    let twice = format!("{:?}", game);
    assert_eq!(once, twice);
    assert_eq!(game.score.score, 0);
    assert_eq!(game.score.distance_mm, 0);
    assert_eq!(game.score.elapsed_ms, 0);
    assert_eq!(game.bodies.len(), 1);
    assert!(game.shots.is_empty());
    assert_eq!(game.difficulty, Difficulty::Initial);
    assert_eq!(game.spawner.side_cannons.timers.len(), 1);
    assert_eq!(game.spawner.pirates.timers.len(), 0);
    assert_eq!(game.spawner.obstacles.timers.len(), 2);
    assert_eq!(game.spawner.barrels.timers.len(), 1);
}

#[test]
fn medium_tier_after_crossing_ten() {
    let mut game = Game::new();
    game.score.score = 8;
    game.score.distance_mm = 110_000;
    assert_eq!(game.score.effective(), 10);
    assert!(!game.update_difficulty());
    assert_eq!(game.difficulty, Difficulty::Initial);
    game.score.score = 9;
    assert_eq!(game.score.effective(), 11);
    assert!(game.update_difficulty());
    assert_eq!(game.difficulty, Difficulty::Medium);
    assert_eq!(game.spawner.pirates.timers.len(), 1);
    assert_eq!(game.spawner.obstacles.timers.len(), 3);
    assert_eq!(game.spawner.side_cannons.timers.len(), 1);
    assert!(!game.update_difficulty());
    assert_eq!(game.spawner.pirates.timers.len(), 1);
    assert_eq!(game.spawner.obstacles.timers.len(), 3);
}

#[test]
fn hard_tier_adds_three_timers_and_stays() {
    let mut game = Game::new();
    game.score.score = 500;
    assert!(game.update_difficulty());
    assert_eq!(game.difficulty, Difficulty::Medium);
    assert!(game.update_difficulty());
    assert_eq!(game.difficulty, Difficulty::Hard);
    assert_eq!(game.spawner.pirates.timers.len(), 2);
    assert_eq!(game.spawner.obstacles.timers.len(), 4);
    assert_eq!(game.spawner.side_cannons.timers.len(), 2);
    game.score.score = 0;
    assert!(!game.update_difficulty());
    assert_eq!(game.difficulty, Difficulty::Hard);
}

#[test]
fn distance_grows_while_sailing_and_resets() {
    let mut game = Game::new();
    let mut last = game.score.distance_mm;
    for _ in 0..20 {
        game.tick(100, idle());
        assert!(game.score.distance_mm >= last);
        last = game.score.distance_mm;
    }
    // 120 units per second for two seconds is 240 units, 15 meters
    assert_eq!(game.score.distance_mm, 15_000);
    assert_eq!(game.score.elapsed_ms, 2000);
    game.restart();
    assert_eq!(game.score.distance_mm, 0);
}

#[test]
fn paused_game_does_not_move() {
    let mut game = Game::new();
    game.pause();
    assert_eq!(game.phase, Phase::Paused);
    let before = format!("{:?}", game);
    let report = game.tick(100, idle());
    assert!(report.events.is_empty());
    assert_eq!(before, format!("{:?}", game));
    game.resume();
    assert_eq!(game.phase, Phase::Running);
    game.tick(100, idle());
    assert_eq!(game.score.elapsed_ms, 100);
}

#[test]
fn terrain_is_generated_ahead() {
    let mut game = Game::new();
    game.tick(10, idle());
    assert_eq!(game.frontiers.water_top, 64_000);
    assert_eq!(game.frontiers.border_top, 64_000);
    assert_eq!(game.frontiers.land_top, 64_000);
    assert_eq!(game.bodies.len(), 1 + 8 + 2 + 4);
}

#[test]
fn player_fires_after_cooldown() {
    let mut game = Game::new();
    let fire = Intent { steer: None, aim_bearing: None, fire: true };
    let report = game.tick(500, fire);
    assert!(game.shots.is_empty());
    assert!(report.events.is_empty());
    let report = game.tick(500, fire);
    assert_eq!(game.shots.len(), 1);
    assert_eq!(game.shots[0].bullet.shooter, 0);
    assert_eq!(game.shots[0].bullet.damage, 1);
    assert_eq!(game.shots[0].speed, 350);
    let boat = game.bodies[0];
    assert_eq!(
        game.shots[0].pos,
        boat_game::motion::mount_position(boat.pos, boat.rotation, Point { x: 0, y: 20_000 })
    );
    assert_eq!(game.cannon.cooldown.elapsed_ms, 0);
    assert!(!game.cannon.cooldown.finished);
    assert!(report.events.contains(&boat_game::event::Event::BulletFired));
    game.tick(10, fire);
    assert_eq!(game.shots.len(), 1);
}

#[test]
fn hud_reports_state() {
    let mut game = Game::new();
    game.score.score = 30;
    game.score.distance_mm = 260_000;
    let hud = game.hud();
    assert_eq!(hud.score, 35);
    assert_eq!(hud.distance_mm, 260_000);
    assert_eq!(hud.health, 10);
    assert_eq!(hud.max_health, 10);
    assert_eq!(hud.active_power_ups, 0);
}

#[test]
fn boat_picture_follows_damage() {
    let h = Game::new().bodies[0].health.unwrap();
    assert_eq!(boat_sprite(h), Sprite::Boat);
    assert_eq!(boat_sprite(boat_game::entity::Health { amount: 6, ..h }), Sprite::BoatDamaged);
    assert_eq!(boat_sprite(boat_game::entity::Health { amount: 7, ..h }), Sprite::Boat);
    assert_eq!(boat_sprite(boat_game::entity::Health { amount: 3, ..h }), Sprite::BoatBadlyDamaged);
    assert_eq!(boat_sprite(boat_game::entity::Health { amount: 4, ..h }), Sprite::BoatDamaged);
    assert_eq!(boat_sprite(boat_game::entity::Health { amount: 0, ..h }), Sprite::BoatWreck);
}
