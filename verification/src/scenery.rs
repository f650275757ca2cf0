//! Start-up scenery: random grass, a random span grid, and a text panel
//! turned into voxels.
//!
//! Each function computes the exact cube or span writes the world receives;
//! a host applies them through the engine.  All randomness is drawn from the
//! library's seedable generator, so every list is pinned to the seed.

use vstd::prelude::*;

use crate::geom::IVec3;
use crate::image::{Color, Image};
use crate::rng::{next_state, range_value, Rng};
use crate::plasma::next3;

verus! {

/// One colored voxel write.
#[derive(Clone, Copy, Debug, PartialEq, Eq, Structural)]
pub struct CubeWrite {
    pub pos: IVec3,
    pub color: Color,
}

/// One vertical span of a span grid.
#[derive(Clone, Copy, Debug, PartialEq, Eq, Structural)]
pub struct VSpan {
    pub z0: u8,
    pub z1: u8,
    pub x: u8,
    pub y: u8,
}

// ---------------------------------------------------------------------------
// Grass.
// ---------------------------------------------------------------------------

/// The color of one grass voxel: darker green in the lower band (`z < 7`),
/// brighter above.
pub open spec fn grass_color(st: u64, z: int) -> Color {
    let r = range_value(st, 0, 100);
    let g = if z < 7 {
        range_value(next_state(st), 150, 255)
    } else {
        range_value(next_state(st), 200, 255)
    };
    let b = range_value(next_state(next_state(st)), 0, 100);
    Color { r: r as u8, g: g as u8, b: b as u8 }
}

/// The voxels of one grass blade from height `z` up to `h`, at cell `(x, y)`;
/// blades grow downward from altitude 127.
pub open spec fn grass_column(x: int, y: int, h: int, z: int, st: u64) -> (Seq<CubeWrite>, u64)
    decreases h - z,
{
    if z < 0 || z >= h {
        (Seq::empty(), st)
    } else {
        let c = grass_color(st, z);
        let rest = grass_column(x, y, h, z + 1, next3(st));
        (
            seq![CubeWrite { pos: IVec3 { x: x as i64, y: y as i64, z: (127 - z) as i64 }, color: c }]
                + rest.0,
            rest.1,
        )
    }
}

/// One row of grass cells at `x`, for `y` in `[y, y2)`: each cell draws a
/// height in `[0, 10)` and grows a blade of that height.
pub open spec fn grass_row(x: int, y: int, y2: int, st: u64) -> (Seq<CubeWrite>, u64)
    decreases y2 - y,
{
    if y >= y2 {
        (Seq::empty(), st)
    } else {
        let h = range_value(st, 0, 10);
        let col = grass_column(x, y, h, 0, next_state(st));
        let rest = grass_row(x, y + 1, y2, col.1);
        (col.0 + rest.0, rest.1)
    }
}

/// All grass cells with `x` in `[x, x2)` and `y` in `[y1, y2)`.
pub open spec fn grass_spec(x: int, x2: int, y1: int, y2: int, st: u64) -> (Seq<CubeWrite>, u64)
    decreases x2 - x,
{
    if x >= x2 {
        (Seq::empty(), st)
    } else {
        let row = grass_row(x, y1, y2, st);
        let rest = grass_spec(x + 1, x2, y1, y2, row.1);
        (row.0 + rest.0, rest.1)
    }
}

/// The grass voxels of the rectangle `[x1, x2) x [y1, y2)`, in scan order.
pub fn create_grass(x1: u32, y1: u32, x2: u32, y2: u32, rng: &mut Rng) -> (cubes: Vec<CubeWrite>)
    ensures
        cubes@ == grass_spec(x1 as int, x2 as int, y1 as int, y2 as int, old(rng)@).0,
        final(rng)@ == grass_spec(x1 as int, x2 as int, y1 as int, y2 as int, old(rng)@).1,
{
    let ghost goal = grass_spec(x1 as int, x2 as int, y1 as int, y2 as int, rng@);
    let mut cubes: Vec<CubeWrite> = Vec::new();
    let mut x = x1;
    proof {
        assert(cubes@ =~= Seq::<CubeWrite>::empty());
    }
    while x < x2
        invariant
            x1 <= x,
            x2 >= x || x == x1,
            cubes@ + grass_spec(x as int, x2 as int, y1 as int, y2 as int, rng@).0 =~= goal.0,
            grass_spec(x as int, x2 as int, y1 as int, y2 as int, rng@).1 == goal.1,
        decreases x2 - x,
    {
        let ghost row_goal = grass_row(x as int, y1 as int, y2 as int, rng@);
        let ghost cubes_at_row = cubes@;
        let mut y = y1;
        while y < y2
            invariant
                y1 <= y,
                y2 >= y || y == y1,
                cubes@ + grass_row(x as int, y as int, y2 as int, rng@).0
                    =~= cubes_at_row + row_goal.0,
                grass_row(x as int, y as int, y2 as int, rng@).1 == row_goal.1,
            decreases y2 - y,
        {
            let ghost col_start = rng@;
            let ghost cubes_at_col = cubes@;
            let height = rng.gen_range(0, 10);
            let ghost col_goal = grass_column(x as int, y as int, height as int, 0, rng@);
            let mut z: i64 = 0;
            while z < height
                invariant
                    0 <= z,
                    z <= height || z == 0,
                    height < 10,
                    cubes@ + grass_column(x as int, y as int, height as int, z as int, rng@).0
                        =~= cubes_at_col + col_goal.0,
                    grass_column(x as int, y as int, height as int, z as int, rng@).1 == col_goal.1,
                decreases height - z,
            {
                let ghost pix_start = rng@;
                let r = rng.gen_range(0, 100) as u8;
                let g = if z < 7 {
                    rng.gen_range(150, 255) as u8
                } else {
                    rng.gen_range(200, 255) as u8
                };
                let b = rng.gen_range(0, 100) as u8;
                let color = Color { r, g, b };
                proof {
                    assert(color == grass_color(pix_start, z as int));
                }
                cubes.push(CubeWrite { pos: IVec3 { x: x as i64, y: y as i64, z: 127 - z }, color });
                z = z + 1;
            }
            y = y + 1;
        }
        x = x + 1;
    }
    cubes
}

// ---------------------------------------------------------------------------
// The span grid.
// ---------------------------------------------------------------------------

/// Spans `k` onward of the 10 by 10 grid, row-major by `y`; each gets a
/// random top in `[30, 50)`.
pub open spec fn span_list(k: int, st: u64) -> (Seq<VSpan>, u64)
    decreases 100 - k,
{
    if k < 0 || k >= 100 {
        (Seq::empty(), st)
    } else {
        let s = VSpan {
            z0: 0,
            z1: range_value(st, 30, 50) as u8,
            x: (k % 10) as u8,
            y: (k / 10) as u8,
        };
        let rest = span_list(k + 1, next_state(st));
        (seq![s] + rest.0, rest.1)
    }
}

/// The 10 by 10 grid of random-height spans placed among the start-up
/// shapes.
pub fn span_grid(rng: &mut Rng) -> (spans: Vec<VSpan>)
    ensures
        spans@ == span_list(0, old(rng)@).0,
        final(rng)@ == span_list(0, old(rng)@).1,
{
    let ghost goal = span_list(0, rng@);
    let mut spans: Vec<VSpan> = Vec::new();
    let mut k: usize = 0;
    proof {
        assert(spans@ =~= Seq::<VSpan>::empty());
    }
    while k < 100
        invariant
            0 <= k <= 100,
            spans@ + span_list(k as int, rng@).0 =~= goal.0,
            span_list(k as int, rng@).1 == goal.1,
        decreases 100 - k,
    {
        let z1 = rng.gen_range(30, 50) as u8;
        spans.push(VSpan { z0: 0, z1, x: (k % 10) as u8, y: (k / 10) as u8 });
        k = k + 1;
    }
    spans
}

// ---------------------------------------------------------------------------
// The text panel.
// ---------------------------------------------------------------------------

/// Where the voxelized panel stands, and its color.
pub open spec fn panel_cube(x: int, y: int) -> CubeWrite {
    CubeWrite {
        pos: IVec3 { x: 805, y: (520 + x) as i64, z: (80 + y) as i64 },
        color: Color { r: 255, g: 0, b: 0 },
    }
}

/// The cubes of panel column `x`, from row `y` down: one red cube for every
/// pixel that is not black.
pub open spec fn panel_column(img: Image, x: int, y: int) -> Seq<CubeWrite>
    decreases img.height - y,
{
    if y < 0 || y >= img.height {
        Seq::empty()
    } else {
        let rest = panel_column(img, x, y + 1);
        if img.pixel(x, y) != (Color { r: 0, g: 0, b: 0 }) {
            seq![panel_cube(x, y)] + rest
        } else {
            rest
        }
    }
}

/// The cubes of the whole panel from column `x` on.
pub open spec fn panel_cubes(img: Image, x: int) -> Seq<CubeWrite>
    decreases img.width - x,
{
    if x < 0 || x >= img.width {
        Seq::empty()
    } else {
        panel_column(img, x, 0) + panel_cubes(img, x + 1)
    }
}

/// Turn a rendered text panel into a wall of red voxels beside the map: one
/// cube per non-black pixel.
pub fn write_thanks_message(panel: &Image) -> (cubes: Vec<CubeWrite>)
    requires
        panel.wf(),
        panel.width + 520 <= i64::MAX,
        panel.height + 80 <= i64::MAX,
    ensures
        cubes@ == panel_cubes(*panel, 0),
{
    let ghost goal = panel_cubes(*panel, 0);
    let mut cubes: Vec<CubeWrite> = Vec::new();
    let mut x: usize = 0;
    proof {
        assert(cubes@ =~= Seq::<CubeWrite>::empty());
    }
    while x < panel.width
        invariant
            panel.wf(),
            panel.width + 520 <= i64::MAX,
            panel.height + 80 <= i64::MAX,
            0 <= x <= panel.width,
            cubes@ + panel_cubes(*panel, x as int) =~= goal,
        decreases panel.width - x,
    {
        let ghost cubes_at_col = cubes@;
        let mut y: usize = 0;
        while y < panel.height
            invariant
                panel.wf(),
                panel.width + 520 <= i64::MAX,
                panel.height + 80 <= i64::MAX,
                0 <= y <= panel.height,
                x < panel.width,
                cubes@ + panel_column(*panel, x as int, y as int) =~= cubes_at_col + panel_column(
                    *panel,
                    x as int,
                    0,
                ),
            decreases panel.height - y,
        {
            let c = panel.get_pixel(x, y);
            if !(c == Color::rgb(0, 0, 0)) {
                cubes.push(
                    CubeWrite {
                        pos: IVec3 { x: 805, y: 520 + x as i64, z: 80 + y as i64 },
                        color: Color::rgb(255, 0, 0),
                    },
                );
            }
            y = y + 1;
        }
        x = x + 1;
    }
    cubes
}

} // verus!
