//! The orthographic tri-view voxelizer.
//!
//! A 3D figure is carved out of three silhouette images: `front` and `back`
//! are sampled at `(x, y)`, the `right` view at `(z, y)`.  A driver walks the
//! `front.width x front.height x right.width` box; for each cell the library
//! decides, from the three samples and the world's three column-emptiness
//! answers, whether a voxel is written and in which color.  The exact RGB
//! value (152, 0, 136) masks a cell out entirely, and a chosen color equal to
//! (32, 156, 0) is treated as transparent.

use vstd::prelude::*;

use crate::geom::IVec3;
use crate::image::Color;

verus! {

/// The chroma key: a sample of this exact color masks the cell out.
pub open spec fn chroma_key() -> Color {
    Color { r: 152, g: 0, b: 136 }
}

/// The secondary key: a chosen color of this exact value is transparent.
pub open spec fn skip_key() -> Color {
    Color { r: 32, g: 156, b: 0 }
}

/// Whether any of the three samples carries the chroma key.
pub open spec fn chroma_masked(front: Color, left: Color, back: Color) -> bool {
    front == chroma_key() || left == chroma_key() || back == chroma_key()
}

/// First-match color selection: the front color wherever front and side
/// agree or the column toward the viewer is clear, then the side, then the
/// back; otherwise nothing.
pub open spec fn chosen_color(
    front: Color,
    left: Color,
    back: Color,
    front_clear: bool,
    left_clear: bool,
    back_clear: bool,
) -> Option<Color> {
    if front == left {
        Option::Some(front)
    } else if front_clear {
        Option::Some(front)
    } else if left_clear {
        Option::Some(left)
    } else if back_clear {
        Option::Some(back)
    } else {
        Option::None
    }
}

/// What a cell gets: nothing when chroma-masked, nothing when no view wins or
/// the winner is the transparent key, otherwise the winning color.
pub open spec fn voxel_verdict_spec(
    front: Color,
    left: Color,
    back: Color,
    front_clear: bool,
    left_clear: bool,
    back_clear: bool,
) -> Option<Color> {
    if chroma_masked(front, left, back) {
        Option::None
    } else {
        match chosen_color(front, left, back, front_clear, left_clear, back_clear) {
            Option::Some(c) => if c == skip_key() {
                Option::None
            } else {
                Option::Some(c)
            },
            Option::None => Option::None,
        }
    }
}

/// Whether the cell is masked out before any world query is needed.
pub fn chroma_skip(front: Color, left: Color, back: Color) -> (r: bool)
    ensures
        r == chroma_masked(front, left, back),
{
    let key = Color::rgb(152, 0, 136);
    front == key || left == key || back == key
}

/// The color written at one cell, given the three samples and the three
/// column-emptiness answers, or `None` when the voxel stays untouched.
pub fn voxel_verdict(
    front: Color,
    left: Color,
    back: Color,
    front_clear: bool,
    left_clear: bool,
    back_clear: bool,
) -> (r: Option<Color>)
    ensures
        r == voxel_verdict_spec(front, left, back, front_clear, left_clear, back_clear),
{
    if chroma_skip(front, left, back) {
        return Option::None;
    }
    let chosen: Option<Color> = if front == left {
        Option::Some(front)
    } else if front_clear {
        Option::Some(front)
    } else if left_clear {
        Option::Some(left)
    } else if back_clear {
        Option::Some(back)
    } else {
        Option::None
    };
    match chosen {
        Option::Some(c) => {
            if c == Color::rgb(32, 156, 0) {
                Option::None
            } else {
                Option::Some(c)
            }
        },
        Option::None => Option::None,
    }
}

/// A voxel is never written when any of the three image samples equals the
/// chroma key.
pub proof fn lemma_chroma_never_written(
    front: Color,
    left: Color,
    back: Color,
    front_clear: bool,
    left_clear: bool,
    back_clear: bool,
)
    requires
        front == chroma_key() || left == chroma_key() || back == chroma_key(),
    ensures
        voxel_verdict_spec(front, left, back, front_clear, left_clear, back_clear)
            == Option::<Color>::None,
{
}

/// When the front and side samples agree, exactly that color is written —
/// unless it is one of the two keys.
pub proof fn lemma_matching_views_win(
    front: Color,
    left: Color,
    back: Color,
    front_clear: bool,
    left_clear: bool,
    back_clear: bool,
)
    requires
        front == left,
        !chroma_masked(front, left, back),
        front != skip_key(),
    ensures
        voxel_verdict_spec(front, left, back, front_clear, left_clear, back_clear) == Option::Some(
            front,
        ),
{
}

/// The voxel position of scan cell `(x, y, z)`: the image `y` axis runs along
/// the world's vertical `z` axis, and the scan depth `z` along the world `y`.
pub open spec fn target_spec(origin: IVec3, x: int, y: int, z: int) -> IVec3 {
    IVec3 { x: (origin.x + x) as i64, y: (origin.y + z) as i64, z: (origin.z + y) as i64 }
}

pub fn voxel_target(origin: &IVec3, x: usize, y: usize, z: usize) -> (p: IVec3)
    requires
        x <= i64::MAX,
        y <= i64::MAX,
        z <= i64::MAX,
        origin.x + x <= i64::MAX,
        origin.y + z <= i64::MAX,
        origin.z + y <= i64::MAX,
    ensures
        p == target_spec(*origin, x as int, y as int, z as int),
{
    IVec3 { x: origin.x + x as i64, y: origin.y + z as i64, z: origin.z + y as i64 }
}

/// The far endpoints of the three occlusion columns checked from `pos`:
/// toward the front viewer, toward the side viewer, and toward the back.
pub fn column_ends(pos: &IVec3, x: usize, z: usize, right_width: usize) -> (ends: (
    IVec3,
    IVec3,
    IVec3,
))
    requires
        x <= i64::MAX,
        z <= right_width,
        right_width <= i64::MAX,
        pos.y - z >= i64::MIN,
        pos.x - x >= i64::MIN,
        pos.y + (right_width - z) <= i64::MAX,
    ensures
        ends.0 == (IVec3 { x: pos.x, y: (pos.y - z) as i64, z: pos.z }),
        ends.1 == (IVec3 { x: (pos.x - x) as i64, y: pos.y, z: pos.z }),
        ends.2 == (IVec3 { x: pos.x, y: (pos.y + (right_width - z)) as i64, z: pos.z }),
{
    let front_end = IVec3 { x: pos.x, y: pos.y - z as i64, z: pos.z };
    let left_end = IVec3 { x: pos.x - x as i64, y: pos.y, z: pos.z };
    let back_end = IVec3 { x: pos.x, y: pos.y + (right_width - z) as i64, z: pos.z };
    (front_end, left_end, back_end)
}

/// Every cell of the scan stays inside the axis-aligned box from `origin` to
/// `origin + (front_width, right_width, front_height)`.
pub proof fn lemma_scan_in_box(origin: IVec3, front_width: int, front_height: int, right_width: int)
    requires
        origin.x + front_width <= i64::MAX,
        origin.y + right_width <= i64::MAX,
        origin.z + front_height <= i64::MAX,
    ensures
        forall|x: int, y: int, z: int|
            0 <= x < front_width && 0 <= y < front_height && 0 <= z < right_width ==> {
                let p = #[trigger] target_spec(origin, x, y, z);
                &&& origin.x <= p.x < origin.x + front_width
                &&& origin.y <= p.y < origin.y + right_width
                &&& origin.z <= p.z < origin.z + front_height
            },
{
}

} // verus!
