use boat_game::timer::{ConfigError, SpawnPool, Timer, MAX_TIMER_MS};

#[test]
fn repeating_timer_keeps_remainder_and_fires_once_per_step() {
    let mut t = Timer::repeating(1000);
    t.tick(400);
    assert!(!t.finished);
    assert_eq!(t.elapsed_ms, 400);
    t.tick(2100);
    assert!(t.finished);
    assert_eq!(t.elapsed_ms, 500);
    t.tick(100);
    assert!(!t.finished);
    assert_eq!(t.elapsed_ms, 600);
}

#[test]
fn one_shot_timer_stops() {
    let mut t = Timer::once(1000);
    t.tick(1500);
    assert!(t.finished);
    assert_eq!(t.elapsed_ms, 1000);
    t.tick(10);
    assert!(t.finished);
    assert_eq!(t.elapsed_ms, 1000);
    t.reset();
    assert!(!t.finished);
    assert_eq!(t.elapsed_ms, 0);
}

#[test]
fn spawn_pool_configuration_is_checked() {
    assert_eq!(SpawnPool::new(0, 10, &vec![5]).unwrap_err(), ConfigError::BadRange);
    assert_eq!(SpawnPool::new(7, 7, &vec![5]).unwrap_err(), ConfigError::BadRange);
    assert_eq!(SpawnPool::new(9, 7, &vec![5]).unwrap_err(), ConfigError::BadRange);
    assert_eq!(SpawnPool::new(1, MAX_TIMER_MS + 1, &vec![5]).unwrap_err(), ConfigError::BadRange);
    assert_eq!(SpawnPool::new(1, 10, &vec![5, 0]).unwrap_err(), ConfigError::ZeroDuration);
    assert_eq!(SpawnPool::new(1, 10, &vec![MAX_TIMER_MS + 1]).unwrap_err(), ConfigError::TooLong);
    let pool = SpawnPool::new(4500, 7000, &vec![5000, 2000]).unwrap();
    assert_eq!(pool.timers.len(), 2);
    assert_eq!(pool.timers[0], Timer::repeating(5000));
    assert_eq!(pool.timers[1], Timer::repeating(2000));
}

#[test]
fn fired_timers_are_rerolled_within_range() {
    let mut pool = SpawnPool::new(4500, 7000, &vec![5000, 9000]).unwrap();
    let fired = pool.step(5000);
    assert_eq!(fired, 1);
    assert!(pool.timers[0].finished);
    assert!(pool.timers[0].duration_ms >= 4500 && pool.timers[0].duration_ms < 7000);
    assert_eq!(pool.timers[1].duration_ms, 9000);
    assert!(!pool.timers[1].finished);
}

#[test]
fn rerolled_durations_vary() {
    let mut pool = SpawnPool::new(1, 1_000_000, &vec![1]).unwrap();
    let mut seen = std::collections::HashSet::new();
    for _ in 0..50 {
        pool.step(1_000_000);
        seen.insert(pool.timers[0].duration_ms);
        pool.reroll(0, 1);
    }
    assert!(seen.len() > 1);
}

#[test]
fn pool_growth_keeps_existing_timers() {
    let mut pool = SpawnPool::new(13000, 17000, &vec![]).unwrap();
    pool.grow(5000);
    pool.grow(5000);
    assert_eq!(pool.timers.len(), 2);
    pool.step(100);
    pool.grow(5000);
    assert_eq!(pool.timers[0].elapsed_ms, 100);
    assert_eq!(pool.timers[2].elapsed_ms, 0);
}
