use xgalaga::geometry::{aim, is_near, isqrt, Point};

#[test]
fn isqrt_of_perfect_squares_and_neighbours() {
    assert_eq!(isqrt(0), 0);
    assert_eq!(isqrt(1), 1);
    assert_eq!(isqrt(3), 1);
    assert_eq!(isqrt(4), 2);
    assert_eq!(isqrt(99), 9);
    assert_eq!(isqrt(100), 10);
    assert_eq!(isqrt(1_000_000_000_000), 1_000_000);
}

#[test]
fn isqrt_near_the_top_of_its_range() {
    let n: u128 = (1u128 << 84) - 1;
    let r = isqrt(n);
    assert!(r * r <= n);
    assert!((r + 1) * (r + 1) > n);
}

#[test]
fn nearness_is_strict() {
    let a = Point::new(0, 0);
    assert!(is_near(a, Point::new(3, 4), 6));
    assert!(!is_near(a, Point::new(3, 4), 5));
    assert!(is_near(a, a, 1));
    assert!(!is_near(a, a, 0));
}

#[test]
fn aim_points_at_the_target() {
    // a 3-4-5 triangle scaled to speed 100
    let v = aim(Point::new(0, 0), Point::new(3000, -4000), 100);
    assert_eq!(v, Point::new(60, -80));
}

#[test]
fn aim_truncates_toward_zero() {
    let v = aim(Point::new(0, 0), Point::new(-1, -1), 10);
    // length of (-1, -1) rounds down to 1, so each component is -10
    assert_eq!(v, Point::new(-10, -10));
    let w = aim(Point::new(0, 0), Point::new(-2, 1), 7);
    // isqrt(5) = 2: x = -(2 * 7 / 2) = -7, y = 1 * 7 / 2 = 3
    assert_eq!(w, Point::new(-7, 3));
}

#[test]
fn aim_at_own_position_is_still() {
    let p = Point::new(500, -700);
    assert_eq!(aim(p, p, 216), Point::new(0, 0));
}
