use boat_game::angle::{cos, heading_of, rotate, sin, turn_toward, wrap, HALF_PI_MICRO, PI_MICRO};
use boat_game::geometry::{advance, collide, div_trunc, isqrt, normalize, Dir, Point, Size};
use boat_game::motion::{aim, steer, tilt};

#[test]
fn integer_square_roots() {
    assert_eq!(isqrt(0), 0);
    assert_eq!(isqrt(99), 9);
    assert_eq!(isqrt(100), 10);
    assert_eq!(isqrt(u64::MAX as u128), 4_294_967_295);
}

#[test]
fn normalizing_vectors() {
    assert_eq!(normalize(3, 4), Dir { x: 600, y: 800 });
    assert_eq!(normalize(-3, 4), Dir { x: -600, y: 800 });
    assert_eq!(normalize(0, 0), Dir { x: 0, y: 0 });
    assert_eq!(normalize(0, -7), Dir { x: 0, y: -1000 });
}

#[test]
fn division_rounds_toward_zero() {
    assert_eq!(div_trunc(7, 2), 3);
    assert_eq!(div_trunc(-7, 2), -3);
}

#[test]
fn boxes_overlap_only_strictly() {
    let s = Size { w: 10, h: 10 };
    assert!(collide(Point { x: 0, y: 0 }, s, Point { x: 9, y: 9 }, s));
    assert!(!collide(Point { x: 0, y: 0 }, s, Point { x: 10, y: 0 }, s));
    assert!(!collide(Point { x: 0, y: 0 }, s, Point { x: 0, y: -10 }, s));
}

#[test]
fn moving_along_a_direction() {
    let p = advance(Point { x: 0, y: 0 }, Dir { x: 600, y: -800 }, 350, 16);
    assert_eq!(p, Point { x: 3360, y: -4480 });
}

#[test]
fn sine_and_cosine() {
    assert_eq!(sin(0), 0);
    assert_eq!(sin(HALF_PI_MICRO), 999);
    assert_eq!(sin(-HALF_PI_MICRO), -999);
    assert_eq!(sin(785_398), 705);
    assert_eq!(cos(0), 999);
    assert_eq!(cos(-PI_MICRO), -999);
    assert_eq!(heading_of(0), Dir { x: 0, y: 999 });
    assert_eq!(rotate(Point { x: 0, y: 20_000 }, HALF_PI_MICRO), Point { x: -19_980, y: 0 });
}

#[test]
fn angles_wrap_into_half_open_range() {
    assert_eq!(wrap(PI_MICRO), -PI_MICRO);
    assert_eq!(wrap(-PI_MICRO), -PI_MICRO);
    assert_eq!(wrap(3 * PI_MICRO), -PI_MICRO);
    assert_eq!(wrap(7_000_000), 7_000_000 - 6_283_186);
}

#[test]
fn cannon_turns_the_short_way_at_bounded_rate() {
    assert_eq!(turn_toward(0, 1_000_000, 4_712_389, 100), 471_238);
    assert_eq!(turn_toward(0, -1_000_000, 4_712_389, 100), -471_238);
    assert_eq!(turn_toward(0, 100_000, 4_712_389, 100), 100_000);
    // across the back: from just below +π to just above -π is a short turn
    assert_eq!(turn_toward(3_000_000, -3_000_000, 4_712_389, 1000), -3_000_000);
    assert_eq!(turn_toward(3_000_000, -3_000_000, 1_000_000, 100), 3_100_000);
}

#[test]
fn steering_and_leaning() {
    let v = steer(Dir { x: 0, y: 1000 }, Some(Dir { x: 1000, y: 0 }), 100);
    assert_eq!(v, normalize(180, 1000));
    assert_eq!(steer(v, None, 100), v);
    assert_eq!(tilt(Dir { x: 1000, y: 0 }), -HALF_PI_MICRO);
    assert_eq!(tilt(Dir { x: 0, y: 1000 }), 0);
}

#[test]
fn enemies_aim_above_the_player() {
    assert_eq!(aim(Point { x: 0, y: 0 }, Point { x: 0, y: -100_000 }, 100_000), Dir { x: 0, y: 0 });
    assert_eq!(aim(Point { x: 0, y: 0 }, Point { x: 300, y: 300 }, 100), Dir { x: 600, y: 800 });
}
