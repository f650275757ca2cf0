use voxel_demo::rng::Rng;

#[test]
fn draws_stay_in_range() {
    let mut rng = Rng::new(1234);
    for _ in 0..1000 {
        let v = rng.gen_range(10, 200);
        assert!(10 <= v && v < 200);
        let w = rng.gen_range(-3, 3);
        assert!(-3 <= w && w < 3);
    }
}

#[test]
fn equal_seeds_give_equal_draws() {
    let mut a = Rng::new(99);
    let mut b = Rng::new(99);
    for _ in 0..100 {
        assert_eq!(a.gen_range(0, 1000000), b.gen_range(0, 1000000));
    }
}

#[test]
fn draws_vary_over_time() {
    let mut rng = Rng::new(99);
    let first = rng.gen_range(0, 1000000);
    let mut saw_other = false;
    for _ in 0..50 {
        if rng.gen_range(0, 1000000) != first {
            saw_other = true;
        }
    }
    assert!(saw_other);
}

#[test]
fn entropy_seeding_works() {
    let mut rng = Rng::from_entropy();
    let v = rng.gen_range(0, 10);
    assert!(0 <= v && v < 10);
}
