use voxel_demo::heightmap::{generate_heightmap, Buffer2D};
use voxel_demo::rng::Rng;

#[test]
fn heightmap_corners() {
    let mut rng = Rng::new(7);
    let buf = generate_heightmap(5, 5, 4, &mut rng);
    assert_eq!(buf.len(), 25);
    for &i in [0usize, 4, 20, 24].iter() {
        assert!(buf[i] >= 10 && buf[i] < 200, "corner {} out of range: {}", i, buf[i]);
    }
}

#[test]
fn heightmap_length_various_sizes() {
    for &(w, h) in [(3usize, 3usize), (5, 5), (9, 9), (17, 17), (5, 9)].iter() {
        let mut rng = Rng::new(99);
        let buf = generate_heightmap(w, h, 6, &mut rng);
        assert_eq!(buf.len(), w * h);
    }
}

#[test]
fn heightmap_deterministic_under_seed() {
    let mut rng_a = Rng::new(42);
    let mut rng_b = Rng::new(42);
    let a = generate_heightmap(17, 17, 8, &mut rng_a);
    let b = generate_heightmap(17, 17, 8, &mut rng_b);
    assert_eq!(a, b);
}

#[test]
fn heightmap_smallest_grid_terminates() {
    // w/2 + 1 == 2 at side length 3: the recursion stops immediately.
    let mut rng = Rng::new(1);
    let buf = generate_heightmap(3, 3, 2, &mut rng);
    assert_eq!(buf.len(), 9);
}

#[test]
fn heightmap_full_size_grid() {
    let mut rng = Rng::new(123);
    let buf = generate_heightmap(257, 257, 6, &mut rng);
    assert_eq!(buf.len(), 257 * 257);
}

#[test]
fn heightmap_3x3_matches_hand_computation() {
    let mut rng = Rng::new(31);
    let buf = generate_heightmap(3, 3, 2, &mut rng);

    // Replay the four corner draws and the single diamond-square pass by
    // hand through the public generator API.
    let mut replay = Rng::new(31);
    let a = replay.gen_range(10, 200) as i32;
    let b = replay.gen_range(10, 200) as i32;
    let c = replay.gen_range(10, 200) as i32;
    let d = replay.gen_range(10, 200) as i32;
    let p = replay.gen_range(-1, 1) as i32;
    let t = (a + b + c + d) / 4 + p;
    let e = (if t < 0 { 0 } else { t }) % 256;
    let left = (a + c + e) / 3;
    let top = (a + b + e) / 3;
    let right = (b + d + e) / 3;
    let bottom = (c + d + e) / 3;
    let expected: Vec<u8> = vec![
        a as u8, top as u8, b as u8,
        left as u8, e as u8, right as u8,
        c as u8, bottom as u8, d as u8,
    ];
    assert_eq!(buf, expected);
}

#[test]
fn buffer2d_get_set_roundtrip() {
    let mut buff = Buffer2D::new(4, 3);
    assert_eq!(buff.get(2, 1), 0);
    buff.set(2, 1, 77);
    assert_eq!(buff.get(2, 1), 77);
    assert_eq!(buff.get(1, 2), 0);
}
