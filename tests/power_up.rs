use boat_game::entity::{new_player, new_power_up, Health, Kind, Mass, PowerUpType};
use boat_game::event::Event;
use boat_game::geometry::{Point, Size};
use boat_game::power_up::{collect_power_ups, new_cannon, repair, tick_exhaust, CANNON_TURN_RATE};

#[test]
fn weapon_boost_and_its_uneven_wear_off() {
    let mut bodies = vec![new_player(0), new_power_up(4, PowerUpType::Weapon, Point { x: 256_000, y: 300_000 })];
    let mut cannon = new_cannon();
    assert_eq!(cannon.cooldown.duration_ms, 1000);
    assert_eq!(cannon.turn_rate, CANNON_TURN_RATE);
    let mut exhaust = Vec::new();
    let mut events = Vec::new();
    collect_power_ups(&mut bodies, &mut cannon, &mut exhaust, &mut events);
    assert_eq!(bodies.len(), 1);
    assert_eq!(events, vec![Event::WeaponCollected]);
    assert_eq!(cannon.cooldown.duration_ms, 750);
    assert_eq!(cannon.turn_rate, 5_890_486);
    assert_eq!(exhaust.len(), 1);
    assert_eq!(tick_exhaust(&mut exhaust, &mut cannon, 6999), 0);
    assert_eq!(cannon.cooldown.duration_ms, 750);
    assert_eq!(tick_exhaust(&mut exhaust, &mut cannon, 1), 1);
    assert!(exhaust.is_empty());
    assert_eq!(cannon.cooldown.duration_ms, 937);
    assert_eq!(cannon.turn_rate, 4_417_864);
    // the same arithmetic in floating point gives the same cooldowns
    assert_eq!((1000_f32 * 0.75) as u64, 750);
    assert_eq!((750_f32 * 1.25) as u64, 937);
    assert_ne!(cannon.cooldown.duration_ms, 1000);
    assert_ne!(cannon.turn_rate, CANNON_TURN_RATE);
}

#[test]
fn repair_never_exceeds_maximum() {
    let full = Health { max_amount: 10, amount: 10, hitbox: Size { w: 1, h: 1 }, immune_to_projectiles: false, mass: Mass::Wood };
    let r = repair(full);
    assert_eq!(r.max_amount, 11);
    assert_eq!(r.amount, 11);
    let hurt = Health { amount: 5, ..full };
    let r = repair(hurt);
    assert_eq!(r.max_amount, 11);
    assert_eq!(r.amount, 8);
    let over = Health { amount: 30, ..full };
    let r = repair(over);
    assert_eq!(r.amount, 11);
}

#[test]
fn repair_kit_is_collected() {
    let mut player = new_player(0);
    player.health = Some(Health { amount: 4, ..player.health.unwrap() });
    let mut bodies = vec![
        player,
        new_power_up(4, PowerUpType::Repair, Point { x: 256_000, y: 288_000 }),
        new_power_up(5, PowerUpType::Repair, Point { x: 100_000, y: 288_000 }),
    ];
    let mut cannon = new_cannon();
    let mut exhaust = Vec::new();
    let mut events = Vec::new();
    collect_power_ups(&mut bodies, &mut cannon, &mut exhaust, &mut events);
    assert_eq!(bodies.len(), 2);
    assert_eq!(bodies[1].handle, 5);
    assert!(matches!(bodies[1].kind, Kind::PowerUp(PowerUpType::Repair)));
    assert_eq!(bodies[0].health.unwrap().amount, 7);
    assert_eq!(bodies[0].health.unwrap().max_amount, 11);
    assert_eq!(events, vec![Event::RepairCollected]);
    assert!(exhaust.is_empty());
}
