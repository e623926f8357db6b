use tether::geometry::{distance, isqrt, midpoint_of, Vector3, MAX_DISTANCE};

fn point(x: i32, y: i32, z: i32) -> Vector3 {
    Vector3 { x, y, z }
}

#[test]
fn isqrt_of_small_numbers() {
    assert_eq!(isqrt(0), 0);
    assert_eq!(isqrt(1), 1);
    assert_eq!(isqrt(2), 1);
    assert_eq!(isqrt(3), 1);
    assert_eq!(isqrt(4), 2);
    assert_eq!(isqrt(8), 2);
    assert_eq!(isqrt(9), 3);
    assert_eq!(isqrt(99), 9);
    assert_eq!(isqrt(100), 10);
}

#[test]
fn isqrt_rounds_down_around_squares() {
    let root: u128 = 1_000_003;
    assert_eq!(isqrt(root * root - 1), 1_000_002);
    assert_eq!(isqrt(root * root), 1_000_003);
    assert_eq!(isqrt(root * root + 2 * root), 1_000_003);
    assert_eq!(isqrt(root * root + 2 * root + 1), 1_000_004);
}

#[test]
fn isqrt_of_the_largest_numbers() {
    assert_eq!(isqrt(u128::MAX), u64::MAX);
    let top: u128 = u64::MAX as u128;
    assert_eq!(isqrt(top * top), u64::MAX);
    assert_eq!(isqrt(top * top - 1), u64::MAX - 1);
    assert_eq!(isqrt(1u128 << 66), 1u64 << 33);
}

#[test]
fn isqrt_is_the_floor_of_the_root() {
    let mut n: u128 = 0;
    while n < 5000 {
        let r = isqrt(n) as u128;
        assert!(r * r <= n);
        assert!(n < (r + 1) * (r + 1));
        n += 1;
    }
}

#[test]
fn distance_along_one_axis() {
    assert_eq!(distance(point(0, 0, 0), point(300, 0, 0)), 300);
    assert_eq!(distance(point(0, 0, 0), point(0, -250, 0)), 250);
    assert_eq!(distance(point(0, 0, 7), point(0, 0, 7)), 0);
}

#[test]
fn distance_of_whole_triangles() {
    assert_eq!(distance(point(0, 0, 0), point(3, 4, 0)), 5);
    assert_eq!(distance(point(1, 2, 3), point(3, 5, 9)), 7);
    assert_eq!(distance(point(-100, -100, -100), point(100, 200, 500)), 700);
}

#[test]
fn distance_rounds_up() {
    assert_eq!(distance(point(0, 0, 0), point(1, 1, 0)), 2);
    assert_eq!(distance(point(0, 0, 0), point(1, 1, 1)), 2);
    assert_eq!(distance(point(0, 0, 0), point(2, 2, 1)), 3);
    assert_eq!(distance(point(0, 0, 0), point(250, 0, 0)), 250);
    assert_eq!(distance(point(0, 0, 0), point(250, 1, 0)), 251);
    assert_eq!(distance(point(0, 0, 0), point(250, 23, 0)), 252);
}

#[test]
fn distance_exceeds_a_threshold_when_the_true_distance_does() {
    let origin = point(0, 0, 0);
    let mut x = 0;
    while x <= 60 {
        let mut y = 0;
        while y <= 60 {
            let mut threshold: u64 = 0;
            while threshold <= 90 {
                let squared = (x * x + y * y) as u64;
                assert_eq!(distance(origin, point(x, y, 0)) > threshold, squared > threshold * threshold);
                threshold += 1;
            }
            y += 1;
        }
        x += 1;
    }
}

#[test]
fn distance_is_symmetric() {
    let a = point(-17, 2500, 3);
    let b = point(400, -9, 12_000);
    assert_eq!(distance(a, b), distance(b, a));
}

#[test]
fn distance_across_the_whole_range() {
    let low = point(i32::MIN, i32::MIN, i32::MIN);
    let high = point(i32::MAX, i32::MAX, i32::MAX);
    // sqrt(3) * (2^32 - 1), rounded up
    assert_eq!(distance(low, high), 7_439_101_572);
    assert_eq!(distance(low, high), MAX_DISTANCE);
    assert_eq!(distance(point(i32::MIN, 0, 0), point(i32::MAX, 0, 0)), 4_294_967_295);
}

#[test]
fn distance_agrees_with_floating_point() {
    let a = point(120, -340, 560);
    let b = point(-789, 1011, 1213);
    let dx = (a.x - b.x) as f64;
    let dy = (a.y - b.y) as f64;
    let dz = (a.z - b.z) as f64;
    let expected = (dx * dx + dy * dy + dz * dz).sqrt().ceil() as u64;
    assert_eq!(distance(a, b), expected);
}

#[test]
fn midpoint_of_two_points() {
    assert_eq!(midpoint_of(point(0, 0, 0), point(300, 0, 0)), point(150, 0, 0));
    assert_eq!(midpoint_of(point(10, 20, 30), point(20, 40, 60)), point(15, 30, 45));
    assert_eq!(midpoint_of(point(5, 5, 5), point(5, 5, 5)), point(5, 5, 5));
}

#[test]
fn midpoint_rounds_towards_negative_infinity() {
    assert_eq!(midpoint_of(point(0, 0, 0), point(1, 3, 7)), point(0, 1, 3));
    assert_eq!(midpoint_of(point(0, 0, 0), point(-1, -3, -7)), point(-1, -2, -4));
    assert_eq!(midpoint_of(point(-3, -2, 0), point(0, 1, -1)), point(-2, -1, -1));
}

#[test]
fn midpoint_is_symmetric() {
    let a = point(-17, 2500, 3);
    let b = point(400, -9, 12_000);
    assert_eq!(midpoint_of(a, b), midpoint_of(b, a));
}

#[test]
fn midpoint_across_the_whole_range() {
    let low = point(i32::MIN, i32::MIN, i32::MIN);
    let high = point(i32::MAX, i32::MAX, i32::MAX);
    assert_eq!(midpoint_of(low, high), point(-1, -1, -1));
    assert_eq!(midpoint_of(high, high), high);
    assert_eq!(midpoint_of(low, low), low);
}
