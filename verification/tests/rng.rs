use auto_chess::rng::seed;

#[test]
fn seed_maps_into_range() {
    assert_eq!(seed(1, 100, 250), 250 % 99 + 1);
    assert_eq!(seed(1, 100, 0), 1);
    assert_eq!(seed(0, 5, 4), 4);
    assert_eq!(seed(0, 5, 5), 0);
    assert_eq!(seed(10, 11, u128::MAX), 10);
}
