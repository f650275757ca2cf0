use voxel_demo::image::{Color, Image};
use voxel_demo::rng::Rng;
use voxel_demo::scenery::{create_grass, span_grid, write_thanks_message};

#[test]
fn grass_is_deterministic_under_seed() {
    let mut rng_a = Rng::new(77);
    let mut rng_b = Rng::new(77);
    let a = create_grass(900, 0, 910, 6, &mut rng_a);
    let b = create_grass(900, 0, 910, 6, &mut rng_b);
    assert_eq!(a, b);
}

#[test]
fn grass_stays_in_rectangle_and_bands() {
    let mut rng = Rng::new(5);
    let cubes = create_grass(10, 20, 14, 25, &mut rng);
    for cube in cubes.iter() {
        assert!(10 <= cube.pos.x && cube.pos.x < 14);
        assert!(20 <= cube.pos.y && cube.pos.y < 25);
        // Blades are at most 9 voxels tall, growing down from altitude 127.
        assert!(118 <= cube.pos.z && cube.pos.z <= 127);
        let z = 127 - cube.pos.z;
        assert!(cube.color.r < 100);
        assert!(cube.color.b < 100);
        if z < 7 {
            assert!(150 <= cube.color.g && cube.color.g < 255);
        } else {
            assert!(200 <= cube.color.g && cube.color.g < 255);
        }
    }
}

#[test]
fn grass_empty_rectangle() {
    let mut rng = Rng::new(5);
    let cubes = create_grass(10, 20, 10, 25, &mut rng);
    assert_eq!(cubes.len(), 0);
}

#[test]
fn span_grid_shape() {
    let mut rng = Rng::new(9);
    let spans = span_grid(&mut rng);
    assert_eq!(spans.len(), 100);
    for (k, s) in spans.iter().enumerate() {
        assert_eq!(s.z0, 0);
        assert!(30 <= s.z1 && s.z1 < 50);
        assert_eq!(s.x as usize, k % 10);
        assert_eq!(s.y as usize, k / 10);
    }
}

#[test]
fn span_grid_deterministic() {
    let mut rng_a = Rng::new(4);
    let mut rng_b = Rng::new(4);
    assert_eq!(span_grid(&mut rng_a), span_grid(&mut rng_b));
}

#[test]
fn thanks_panel_one_lit_pixel() {
    let black = Color::rgb(0, 0, 0);
    let lit = Color::rgb(255, 255, 255);
    // A 2x2 panel whose pixel (1, 0) is lit.
    let panel = Image::new(2, 2, vec![black, lit, black, black]);
    let cubes = write_thanks_message(&panel);
    assert_eq!(cubes.len(), 1);
    assert_eq!(cubes[0].pos.x, 805);
    assert_eq!(cubes[0].pos.y, 520 + 1);
    assert_eq!(cubes[0].pos.z, 80);
    assert_eq!(cubes[0].color, Color::rgb(255, 0, 0));
}

#[test]
fn thanks_panel_all_black() {
    let black = Color::rgb(0, 0, 0);
    let panel = Image::new(3, 2, vec![black; 6]);
    let cubes = write_thanks_message(&panel);
    assert_eq!(cubes.len(), 0);
}

#[test]
fn image_get_pixel() {
    let a = Color::rgb(1, 2, 3);
    let b = Color::rgb(4, 5, 6);
    let c = Color::rgb(7, 8, 9);
    let d = Color::rgb(10, 11, 12);
    let img = Image::new(2, 2, vec![a, b, c, d]);
    assert_eq!(img.get_pixel(0, 0), a);
    assert_eq!(img.get_pixel(1, 0), b);
    assert_eq!(img.get_pixel(0, 1), c);
    assert_eq!(img.get_pixel(1, 1), d);
}
