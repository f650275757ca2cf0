use voxel_demo::geom::IVec3;
use voxel_demo::image::{Color, Image};
use voxel_demo::voxelizer::{chroma_skip, column_ends, voxel_target, voxel_verdict};

fn key() -> Color {
    Color::rgb(152, 0, 136)
}

fn skip() -> Color {
    Color::rgb(32, 156, 0)
}

/// A 1x1 image of one color.
fn one_pixel(c: Color) -> Image {
    Image::new(1, 1, vec![c])
}

/// The scan of a 1x1x1 figure, against a world whose three columns are all
/// empty; returns the single write, if any.
fn scan_one(front: &Image, right: &Image, back: &Image, origin: IVec3) -> Vec<(IVec3, Color)> {
    let mut writes = Vec::new();
    for x in 0..front.width {
        for y in 0..front.height {
            for z in 0..right.width {
                let f = front.get_pixel(x, y);
                let l = right.get_pixel(z, y);
                let b = back.get_pixel(x, y);
                if chroma_skip(f, l, b) {
                    continue;
                }
                let pos = voxel_target(&origin, x, y, z);
                let _ends = column_ends(&pos, x, z, right.width);
                // An empty world answers every emptiness query with yes.
                if let Some(color) = voxel_verdict(f, l, b, true, true, true) {
                    writes.push((pos, color));
                }
            }
        }
    }
    writes
}

#[test]
fn chroma_keyed_figure_writes_nothing() {
    let img = one_pixel(key());
    let writes = scan_one(&img, &img, &img, IVec3::new(10, 20, 30));
    assert_eq!(writes.len(), 0);
}

#[test]
fn plain_figure_writes_one_voxel() {
    let c = Color::rgb(200, 100, 50);
    let img = one_pixel(c);
    let writes = scan_one(&img, &img, &img, IVec3::new(10, 20, 30));
    assert_eq!(writes, vec![(IVec3::new(10, 20, 30), c)]);
}

#[test]
fn any_chroma_sample_masks_the_cell() {
    let c = Color::rgb(1, 2, 3);
    assert_eq!(voxel_verdict(key(), c, c, true, true, true), None);
    assert_eq!(voxel_verdict(c, key(), c, true, true, true), None);
    assert_eq!(voxel_verdict(c, c, key(), false, false, false), None);
}

#[test]
fn matching_front_and_side_win() {
    let c = Color::rgb(9, 9, 9);
    let other = Color::rgb(4, 4, 4);
    // Even with every column occluded, agreement wins.
    assert_eq!(voxel_verdict(c, c, other, false, false, false), Some(c));
}

#[test]
fn first_match_priority_order() {
    let f = Color::rgb(1, 0, 0);
    let l = Color::rgb(0, 1, 0);
    let b = Color::rgb(0, 0, 1);
    assert_eq!(voxel_verdict(f, l, b, true, true, true), Some(f));
    assert_eq!(voxel_verdict(f, l, b, false, true, true), Some(l));
    assert_eq!(voxel_verdict(f, l, b, false, false, true), Some(b));
    assert_eq!(voxel_verdict(f, l, b, false, false, false), None);
}

#[test]
fn transparent_winner_is_skipped() {
    let other = Color::rgb(4, 4, 4);
    assert_eq!(voxel_verdict(skip(), skip(), other, false, false, false), None);
    assert_eq!(voxel_verdict(skip(), other, other, true, false, false), None);
}

#[test]
fn scan_targets_stay_in_the_box() {
    let origin = IVec3::new(780, 470, 81);
    let (fw, fh, rw) = (3usize, 4usize, 2usize);
    for x in 0..fw {
        for y in 0..fh {
            for z in 0..rw {
                let p = voxel_target(&origin, x, y, z);
                assert!(origin.x <= p.x && p.x < origin.x + fw as i64);
                assert!(origin.y <= p.y && p.y < origin.y + rw as i64);
                assert!(origin.z <= p.z && p.z < origin.z + fh as i64);
            }
        }
    }
}

#[test]
fn column_ends_exact() {
    let pos = IVec3::new(783, 472, 83);
    let (front_end, left_end, back_end) = column_ends(&pos, 3, 2, 5);
    assert_eq!(front_end, IVec3::new(783, 470, 83));
    assert_eq!(left_end, IVec3::new(780, 472, 83));
    assert_eq!(back_end, IVec3::new(783, 475, 83));
}
