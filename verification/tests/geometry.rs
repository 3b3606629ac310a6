use fireworks::firework::Firework;

#[test]
fn distance_of_pythagorean_triple() {
    assert_eq!(Firework::compute_dist(0, 0, 3, 4), 5);
    assert_eq!(Firework::compute_dist(0, 0, 300, 400), 500);
    assert_eq!(Firework::compute_dist(1, 2, 4, 6), 5);
}

#[test]
fn distance_floors_non_squares() {
    assert_eq!(Firework::compute_dist(0, 0, 1, 1), 1);
    assert_eq!(Firework::compute_dist(0, 0, 10, 10), 14);
    assert_eq!(Firework::compute_dist(0, 0, 0, 99), 99);
}

#[test]
fn distance_of_identical_points_is_zero() {
    assert_eq!(Firework::compute_dist(7, -9, 7, -9), 0);
    assert_eq!(Firework::compute_dist(0, 0, 0, 0), 0);
}

#[test]
fn distance_is_symmetric_at_extremes() {
    let c = 100_000_000;
    let d1 = Firework::compute_dist(-c, -c, c, c);
    let d2 = Firework::compute_dist(c, c, -c, -c);
    assert_eq!(d1, d2);
    // floor(2c * sqrt(2))
    assert_eq!(d1, 282_842_712);
}
