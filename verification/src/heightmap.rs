//! The diamond-square fractal heightmap.
//!
//! `generate_heightmap` fills a `(2^k + 1) x (2^k + 1)` byte grid: the four
//! corners get uniform random altitudes in `[10, 200)`, the centre of each
//! sub-rectangle gets the corner mean plus a bounded random perturbation, and
//! the mid-edges get unperturbed three-point means.  The whole buffer is
//! pinned, cell by cell, to a spec-level model of the recursion threaded
//! through the generator state, so a reseeded run reproduces it exactly.

use vstd::prelude::*;

use crate::rng::{next_state, range_value, Rng};

verus! {

/// The row-major cell index of `(x, y)` in a grid of the given width.
pub open spec fn grid_index(x: int, y: int, width: int) -> int {
    y * width + x
}

/// A side length of the form `2^k + 1` with `k >= 1`.
pub open spec fn is_grid_dim(n: int) -> bool
    decreases n,
{
    if n < 3 {
        false
    } else if n == 3 {
        true
    } else {
        n % 2 == 1 && is_grid_dim(n / 2 + 1)
    }
}

/// A row-major byte grid of a fixed width.
pub struct Buffer2D {
    pub buffer: Vec<u8>,
    pub width: usize,
}

impl Buffer2D {
    /// The number of whole rows the buffer holds.
    pub open spec fn rows(&self) -> int {
        self.buffer@.len() as int / self.width as int
    }

    /// The buffer covers whole rows.
    pub open spec fn wf(&self) -> bool {
        self.width >= 1 && self.buffer@.len() as int % self.width as int == 0
    }

    pub fn new(width: usize, height: usize) -> (b: Buffer2D)
        requires
            width * height <= usize::MAX,
        ensures
            b.width == width,
            b.buffer@ == Seq::new((width * height) as nat, |i: int| 0u8),
    {
        let total = width * height;
        let mut buff: Vec<u8> = Vec::with_capacity(total);
        let mut i: usize = 0;
        while i < total
            invariant
                0 <= i <= total,
                buff@.len() == i,
                forall|k: int| 0 <= k < i ==> buff@[k] == 0u8,
            decreases total - i,
        {
            buff.push(0);
            i = i + 1;
        }
        proof {
            assert(buff@ =~= Seq::new((width * height) as nat, |i: int| 0u8));
        }
        Buffer2D { buffer: buff, width }
    }

    pub fn get(&self, x: usize, y: usize) -> (v: u8)
        requires
            grid_index(x as int, y as int, self.width as int) < self.buffer@.len(),
        ensures
            v == self.buffer@[grid_index(x as int, y as int, self.width as int)],
    {
        let _len = self.buffer.len();
        let index = y * self.width + x;
        self.buffer[index]
    }

    pub fn set(&mut self, x: usize, y: usize, value: u8)
        requires
            grid_index(x as int, y as int, old(self).width as int) < old(self).buffer@.len(),
        ensures
            final(self).width == old(self).width,
            final(self).buffer@ == old(self).buffer@.update(
                grid_index(x as int, y as int, old(self).width as int),
                value,
            ),
    {
        let _len = self.buffer.len();
        let index = y * self.width + x;
        self.buffer[index] = value;
    }
}

// ---------------------------------------------------------------------------
// The spec-level recursion.
// ---------------------------------------------------------------------------

/// The random perturbation added in the diamond step.
pub open spec fn diamond_perturbation(st: u64, max_diff: int) -> int {
    range_value(st, -(max_diff / 2), max_diff / 2)
}

/// The centre value of the diamond step: the mean of the four corners of the
/// sub-rectangle, perturbed, floored at zero, and narrowed to a byte.
pub open spec fn diamond_center_value(
    buf: Seq<u8>,
    st: u64,
    ox: int,
    oy: int,
    w: int,
    h: int,
    width: int,
    max_diff: int,
) -> u8 {
    let a = buf[grid_index(ox, oy, width)] as int;
    let b = buf[grid_index(ox + w - 1, oy, width)] as int;
    let c = buf[grid_index(ox, oy + h - 1, width)] as int;
    let d = buf[grid_index(ox + w - 1, oy + h - 1, width)] as int;
    let t = (a + b + c + d) / 4 + diamond_perturbation(st, max_diff);
    let e = if t < 0 {
        0int
    } else {
        t
    };
    (e % 256) as u8
}

pub open spec fn diamond_spec(
    buf: Seq<u8>,
    st: u64,
    ox: int,
    oy: int,
    w: int,
    h: int,
    width: int,
    max_diff: int,
) -> Seq<u8> {
    buf.update(
        grid_index(ox + w / 2, oy + h / 2, width),
        diamond_center_value(buf, st, ox, oy, w, h, width, max_diff),
    )
}

/// The square step: each mid-edge cell becomes the unperturbed mean of its
/// two adjacent corners and the centre.
pub open spec fn square_spec(buf: Seq<u8>, ox: int, oy: int, w: int, h: int, width: int) -> Seq<
    u8,
> {
    let a = buf[grid_index(ox, oy, width)] as int;
    let b = buf[grid_index(ox + w - 1, oy, width)] as int;
    let c = buf[grid_index(ox, oy + h - 1, width)] as int;
    let d = buf[grid_index(ox + w - 1, oy + h - 1, width)] as int;
    let e = buf[grid_index(ox + w / 2, oy + h / 2, width)] as int;
    let left_mid = (a + c + e) / 3;
    let top_mid = (a + b + e) / 3;
    let right_mid = (b + d + e) / 3;
    let bottom_mid = (c + d + e) / 3;
    buf.update(grid_index(ox, oy + h / 2, width), left_mid as u8).update(
        grid_index(ox + w / 2, oy, width),
        top_mid as u8,
    ).update(grid_index(ox + w - 1, oy + h / 2, width), right_mid as u8).update(
        grid_index(ox + w / 2, oy + h - 1, width),
        bottom_mid as u8,
    )
}

/// The full recursion on one sub-rectangle: diamond step, square step, then
/// four quadrants, stopping once a half-side would be 2 or less.
#[verifier::opaque]
pub open spec fn diamond_square_spec(
    buf: Seq<u8>,
    st: u64,
    ox: int,
    oy: int,
    w: int,
    h: int,
    width: int,
    max_diff: int,
) -> (Seq<u8>, u64)
    decreases w,
{
    let b1 = diamond_spec(buf, st, ox, oy, w, h, width, max_diff);
    let s1 = next_state(st);
    let b2 = square_spec(b1, ox, oy, w, h, width);
    let w_half = w / 2 + 1;
    let h_half = h / 2 + 1;
    if w_half <= 2 || h_half <= 2 {
        (b2, s1)
    } else {
        let r1 = diamond_square_spec(b2, s1, ox, oy, w_half, h_half, width, max_diff);
        let r2 = diamond_square_spec(r1.0, r1.1, ox + w_half - 1, oy, w_half, h_half, width,
            max_diff);
        let r3 = diamond_square_spec(r2.0, r2.1, ox, oy + h_half - 1, w_half, h_half, width,
            max_diff);
        diamond_square_spec(r3.0, r3.1, ox + w_half - 1, oy + h_half - 1, w_half, h_half, width,
            max_diff)
    }
}

/// The generated grid and the generator state it leaves behind: four corner
/// draws into a zeroed buffer, then the recursion over the whole grid.
pub open spec fn heightmap_spec(width: int, height: int, max_diff: int, st: u64) -> (Seq<u8>, u64) {
    let a = range_value(st, 10, 200) as u8;
    let st1 = next_state(st);
    let b = range_value(st1, 10, 200) as u8;
    let st2 = next_state(st1);
    let c = range_value(st2, 10, 200) as u8;
    let st3 = next_state(st2);
    let d = range_value(st3, 10, 200) as u8;
    let st4 = next_state(st3);
    let buf0 = Seq::new((width * height) as nat, |i: int| 0u8).update(
        grid_index(0, 0, width),
        a,
    ).update(grid_index(width - 1, 0, width), b).update(
        grid_index(0, height - 1, width),
        c,
    ).update(grid_index(width - 1, height - 1, width), d);
    diamond_square_spec(buf0, st4, 0, 0, width, height, width, max_diff)
}

// ---------------------------------------------------------------------------
// Lemmas.
// ---------------------------------------------------------------------------

/// A grid dimension is odd and at least 3, and halving keeps the form.
pub proof fn lemma_grid_dim_props(n: int)
    requires
        is_grid_dim(n),
    ensures
        n >= 3,
        n % 2 == 1,
        n > 3 ==> is_grid_dim(n / 2 + 1) && n / 2 + 1 < n && n / 2 + 1 >= 3,
{
}

proof fn lemma_grid_index_bound(x: int, y: int, width: int, height: int)
    requires
        0 <= x < width,
        0 <= y < height,
    ensures
        0 <= grid_index(x, y, width) < width * height,
{
    assert(0 <= y * width + x < width * height) by (nonlinear_arith)
        requires
            0 <= x < width,
            0 <= y < height,
    ;
}

proof fn lemma_grid_index_injective(x1: int, y1: int, x2: int, y2: int, width: int)
    requires
        0 <= x1 < width,
        0 <= x2 < width,
        0 <= y1,
        0 <= y2,
        grid_index(x1, y1, width) == grid_index(x2, y2, width),
    ensures
        x1 == x2,
        y1 == y2,
{
    assert(x1 == x2 && y1 == y2) by (nonlinear_arith)
        requires
            0 <= x1 < width,
            0 <= x2 < width,
            0 <= y1,
            0 <= y2,
            y1 * width + x1 == y2 * width + x2,
    ;
}

/// The recursion keeps the buffer length, and never touches the four corners
/// of the whole grid: every cell it writes has an interior coordinate.
proof fn lemma_ds_frame(
    buf: Seq<u8>,
    st: u64,
    ox: int,
    oy: int,
    w: int,
    h: int,
    width: int,
    height: int,
    max_diff: int,
)
    requires
        buf.len() == width * height,
        3 <= width,
        3 <= height,
        is_grid_dim(w),
        is_grid_dim(h),
        0 <= ox,
        0 <= oy,
        ox + w <= width,
        oy + h <= height,
    ensures
        ({
            let r = diamond_square_spec(buf, st, ox, oy, w, h, width, max_diff);
            &&& r.0.len() == buf.len()
            &&& r.0[grid_index(0, 0, width)] == buf[grid_index(0, 0, width)]
            &&& r.0[grid_index(width - 1, 0, width)] == buf[grid_index(width - 1, 0, width)]
            &&& r.0[grid_index(0, height - 1, width)] == buf[grid_index(0, height - 1, width)]
            &&& r.0[grid_index(width - 1, height - 1, width)] == buf[grid_index(
                width - 1,
                height - 1,
                width,
            )]
        }),
    decreases w,
{
    reveal(diamond_square_spec);
    lemma_grid_dim_props(w);
    lemma_grid_dim_props(h);
    lemma_interior_write(buf, ox + w / 2, oy + h / 2, width, height);
    let b1 = diamond_spec(buf, st, ox, oy, w, h, width, max_diff);
    let s1 = next_state(st);
    lemma_interior_write(b1, ox, oy + h / 2, width, height);
    let c1 = b1.update(
        grid_index(ox, oy + h / 2, width),
        ((b1[grid_index(ox, oy, width)] as int + b1[grid_index(ox, oy + h - 1, width)] as int
            + b1[grid_index(ox + w / 2, oy + h / 2, width)] as int) / 3) as u8,
    );
    lemma_interior_write(c1, ox + w / 2, oy, width, height);
    let b2 = square_spec(b1, ox, oy, w, h, width);
    assert(b2.len() == buf.len() && b2[grid_index(0, 0, width)] == buf[grid_index(0, 0, width)]
        && b2[grid_index(width - 1, 0, width)] == buf[grid_index(width - 1, 0, width)] && b2[
        grid_index(0, height - 1, width)] == buf[grid_index(0, height - 1, width)] && b2[grid_index(
        width - 1,
        height - 1,
        width,
    )] == buf[grid_index(width - 1, height - 1, width)]) by {
        lemma_interior_write(b1, ox, oy + h / 2, width, height);
        lemma_square_writes(b1, ox, oy, w, h, width, height);
    }
    let w_half = w / 2 + 1;
    let h_half = h / 2 + 1;
    if !(w_half <= 2 || h_half <= 2) {
        let r1 = diamond_square_spec(b2, s1, ox, oy, w_half, h_half, width, max_diff);
        lemma_ds_frame(b2, s1, ox, oy, w_half, h_half, width, height, max_diff);
        let r2 = diamond_square_spec(r1.0, r1.1, ox + w_half - 1, oy, w_half, h_half, width,
            max_diff);
        lemma_ds_frame(r1.0, r1.1, ox + w_half - 1, oy, w_half, h_half, width, height, max_diff);
        let r3 = diamond_square_spec(r2.0, r2.1, ox, oy + h_half - 1, w_half, h_half, width,
            max_diff);
        lemma_ds_frame(r2.0, r2.1, ox, oy + h_half - 1, w_half, h_half, width, height, max_diff);
        lemma_ds_frame(r3.0, r3.1, ox + w_half - 1, oy + h_half - 1, w_half, h_half, width, height,
            max_diff);
    }
}

/// Updating a cell whose `x` or `y` coordinate is strictly interior leaves
/// the four grid corners unchanged (and the length too).
proof fn lemma_interior_write(buf: Seq<u8>, x: int, y: int, width: int, height: int)
    requires
        buf.len() == width * height,
        3 <= width,
        3 <= height,
        0 <= x < width,
        0 <= y < height,
        (0 < x < width - 1) || (0 < y < height - 1),
    ensures
        forall|v: u8|
            {
                let r = #[trigger] buf.update(grid_index(x, y, width), v);
                &&& r.len() == buf.len()
                &&& r[grid_index(0, 0, width)] == buf[grid_index(0, 0, width)]
                &&& r[grid_index(width - 1, 0, width)] == buf[grid_index(width - 1, 0, width)]
                &&& r[grid_index(0, height - 1, width)] == buf[grid_index(0, height - 1, width)]
                &&& r[grid_index(width - 1, height - 1, width)] == buf[grid_index(
                    width - 1,
                    height - 1,
                    width,
                )]
            },
{
    lemma_grid_index_bound(x, y, width, height);
    lemma_grid_index_bound(0, 0, width, height);
    lemma_grid_index_bound(width - 1, 0, width, height);
    lemma_grid_index_bound(0, height - 1, width, height);
    lemma_grid_index_bound(width - 1, height - 1, width, height);
    assert forall|cx: int, cy: int|
        (cx == 0 || cx == width - 1) && (cy == 0 || cy == height - 1) implies grid_index(
        x,
        y,
        width,
    ) != grid_index(cx, cy, width) by {
        if grid_index(x, y, width) == grid_index(cx, cy, width) {
            lemma_grid_index_injective(x, y, cx, cy, width);
        }
    }
}

/// The four square-step writes all have an interior coordinate, so they keep
/// the grid corners unchanged.
proof fn lemma_square_writes(
    buf: Seq<u8>,
    ox: int,
    oy: int,
    w: int,
    h: int,
    width: int,
    height: int,
)
    requires
        buf.len() == width * height,
        3 <= width,
        3 <= height,
        3 <= w,
        3 <= h,
        0 <= ox,
        0 <= oy,
        ox + w <= width,
        oy + h <= height,
    ensures
        ({
            let r = square_spec(buf, ox, oy, w, h, width);
            &&& r.len() == buf.len()
            &&& r[grid_index(0, 0, width)] == buf[grid_index(0, 0, width)]
            &&& r[grid_index(width - 1, 0, width)] == buf[grid_index(width - 1, 0, width)]
            &&& r[grid_index(0, height - 1, width)] == buf[grid_index(0, height - 1, width)]
            &&& r[grid_index(width - 1, height - 1, width)] == buf[grid_index(
                width - 1,
                height - 1,
                width,
            )]
        }),
{
    let u1 = buf.update(
        grid_index(ox, oy + h / 2, width),
        ((buf[grid_index(ox, oy, width)] as int + buf[grid_index(ox, oy + h - 1, width)] as int
            + buf[grid_index(ox + w / 2, oy + h / 2, width)] as int) / 3) as u8,
    );
    lemma_interior_write(buf, ox, oy + h / 2, width, height);
    lemma_interior_write(u1, ox + w / 2, oy, width, height);
    let a = buf[grid_index(ox, oy, width)] as int;
    let b = buf[grid_index(ox + w - 1, oy, width)] as int;
    let e = buf[grid_index(ox + w / 2, oy + h / 2, width)] as int;
    let u2 = u1.update(grid_index(ox + w / 2, oy, width), ((a + b + e) / 3) as u8);
    lemma_interior_write(u2, ox + w - 1, oy + h / 2, width, height);
    let d = buf[grid_index(ox + w - 1, oy + h - 1, width)] as int;
    let u3 = u2.update(grid_index(ox + w - 1, oy + h / 2, width), ((b + d + e) / 3) as u8);
    lemma_interior_write(u3, ox + w / 2, oy + h - 1, width, height);
}

// ---------------------------------------------------------------------------
// The executable recursion.
// ---------------------------------------------------------------------------

/// Write the centre of the sub-rectangle: the corner mean plus a bounded
/// random perturbation, floored at zero and narrowed to a byte.
pub fn diamond_step(
    offset_x: usize,
    offset_y: usize,
    width: usize,
    height: usize,
    buff: &mut Buffer2D,
    max_diff: i32,
    rng: &mut Rng,
)
    requires
        old(buff).wf(),
        3 <= width,
        3 <= height,
        max_diff > 0,
        max_diff % 2 == 0,
        offset_x + width <= old(buff).width,
        offset_y + height <= old(buff).rows(),
    ensures
        final(buff).width == old(buff).width,
        final(buff).buffer@ == diamond_spec(
            old(buff).buffer@,
            old(rng)@,
            offset_x as int,
            offset_y as int,
            width as int,
            height as int,
            old(buff).width as int,
            max_diff as int,
        ),
        final(rng)@ == next_state(old(rng)@),
{
    proof {
        lemma_cell_in_bounds(offset_x as int, offset_y as int, width as int, height as int, buff);
    }
    let _len = buff.buffer.len();
    let a = buff.get(offset_x, offset_y);
    let b = buff.get(offset_x + width - 1, offset_y);
    let c = buff.get(offset_x, offset_y + height - 1);
    let d = buff.get(offset_x + width - 1, offset_y + height - 1);
    let m2 = max_diff / 2;
    let p = rng.gen_range(-(m2 as i64), m2 as i64);
    let sum = a as i32 + b as i32 + c as i32 + d as i32;
    let t = sum / 4 + p as i32;
    let e: i32 = if t < 0 {
        0
    } else {
        t
    };
    buff.set(offset_x + width / 2, offset_y + height / 2, (e % 256) as u8);
}

/// Write the four mid-edge cells as unperturbed three-point means.
pub fn square_step(
    offset_x: usize,
    offset_y: usize,
    width: usize,
    height: usize,
    buff: &mut Buffer2D,
)
    requires
        old(buff).wf(),
        3 <= width,
        3 <= height,
        offset_x + width <= old(buff).width,
        offset_y + height <= old(buff).rows(),
    ensures
        final(buff).width == old(buff).width,
        final(buff).buffer@ == square_spec(
            old(buff).buffer@,
            offset_x as int,
            offset_y as int,
            width as int,
            height as int,
            old(buff).width as int,
        ),
{
    proof {
        lemma_cell_in_bounds(offset_x as int, offset_y as int, width as int, height as int, buff);
    }
    let _len = buff.buffer.len();
    let w_half = width / 2;
    let h_half = height / 2;
    let a = buff.get(offset_x, offset_y);
    let b = buff.get(offset_x + width - 1, offset_y);
    let c = buff.get(offset_x, offset_y + height - 1);
    let d = buff.get(offset_x + width - 1, offset_y + height - 1);
    let e = buff.get(offset_x + w_half, offset_y + h_half);
    let left_mid = (a as i32 + c as i32 + e as i32) / 3;
    let top_mid = (a as i32 + b as i32 + e as i32) / 3;
    let right_mid = (b as i32 + d as i32 + e as i32) / 3;
    let bottom_mid = (c as i32 + d as i32 + e as i32) / 3;
    buff.set(offset_x, offset_y + h_half, left_mid as u8);
    buff.set(offset_x + w_half, offset_y, top_mid as u8);
    buff.set(offset_x + width - 1, offset_y + h_half, right_mid as u8);
    buff.set(offset_x + w_half, offset_y + height - 1, bottom_mid as u8);
}

/// Every cell of the sub-rectangle is within the buffer.
proof fn lemma_cell_in_bounds(ox: int, oy: int, w: int, h: int, buff: &Buffer2D)
    requires
        buff.wf(),
        1 <= w,
        1 <= h,
        0 <= ox,
        0 <= oy,
        ox + w <= buff.width,
        oy + h <= buff.rows(),
    ensures
        buff.rows() <= buff.buffer@.len(),
        forall|x: int, y: int|
            ox <= x < ox + w && oy <= y < oy + h ==> 0 <= #[trigger] grid_index(
                x,
                y,
                buff.width as int,
            ) < buff.buffer@.len(),
{
    let width = buff.width as int;
    let len = buff.buffer@.len() as int;
    let rows = buff.rows();
    assert(len == width * rows && 0 <= rows <= len) by (nonlinear_arith)
        requires
            width >= 1,
            len >= 0,
            len % width == 0,
            rows == len / width,
    ;
    assert forall|x: int, y: int| ox <= x < ox + w && oy <= y < oy + h implies 0 <= #[trigger]
    grid_index(x, y, width) < len by {
        lemma_grid_index_bound(x, y, width, rows);
    }
}

/// The diamond-square recursion over one sub-rectangle.  It stops exactly
/// when a half side `w/2 + 1` or `h/2 + 1` is 2 or less, and the shrinking
/// side length proves it terminates.
#[verifier::rlimit(100)]
#[verifier::spinoff_prover]
pub fn diamond_square(
    offset_x: usize,
    offset_y: usize,
    width: usize,
    height: usize,
    buff: &mut Buffer2D,
    max_diff: i32,
    rng: &mut Rng,
)
    requires
        old(buff).wf(),
        is_grid_dim(width as int),
        is_grid_dim(height as int),
        max_diff > 0,
        max_diff % 2 == 0,
        offset_x + width <= old(buff).width,
        offset_y + height <= old(buff).rows(),
    ensures
        final(buff).width == old(buff).width,
        final(buff).buffer@.len() == old(buff).buffer@.len(),
        final(buff).wf(),
        ({
            let r = diamond_square_spec(
                old(buff).buffer@,
                old(rng)@,
                offset_x as int,
                offset_y as int,
                width as int,
                height as int,
                old(buff).width as int,
                max_diff as int,
            );
            final(buff).buffer@ == r.0 && final(rng)@ == r.1
        }),
    decreases width,
{
    proof {
        lemma_grid_dim_props(width as int);
        lemma_grid_dim_props(height as int);
        lemma_cell_in_bounds(
            offset_x as int,
            offset_y as int,
            width as int,
            height as int,
            buff,
        );
        vstd::arithmetic::div_mod::lemma_fundamental_div_mod(width as int, 2);
        vstd::arithmetic::div_mod::lemma_fundamental_div_mod(height as int, 2);
    }
    let _len = buff.buffer.len();
    let ghost buf_in = buff.buffer@;
    let ghost st_in = rng@;
    let ghost ox = offset_x as int;
    let ghost oy = offset_y as int;
    let ghost w = width as int;
    let ghost h = height as int;
    let ghost gw = buff.width as int;
    let ghost m = max_diff as int;
    diamond_step(offset_x, offset_y, width, height, buff, max_diff, rng);
    square_step(offset_x, offset_y, width, height, buff);
    proof {
        assert(buff.buffer@ == square_spec(
            diamond_spec(buf_in, st_in, ox, oy, w, h, gw, m),
            ox,
            oy,
            w,
            h,
            gw,
        ));
        assert(rng@ == next_state(st_in));
    }
    let w_half = width / 2 + 1;
    let h_half = height / 2 + 1;
    if w_half <= 2 || h_half <= 2 {
        proof {
            assert((buff.buffer@, rng@) == diamond_square_spec(
                buf_in,
                st_in,
                ox,
                oy,
                w,
                h,
                gw,
                m,
            )) by {
                reveal(diamond_square_spec);
            }
        }
        return ;
    }
    proof {
        assert((w_half - 1) + w_half == width as int);
        assert((h_half - 1) + h_half == height as int);
    }
    let ghost wh = w_half as int;
    let ghost hh = h_half as int;
    let ghost b2 = buff.buffer@;
    let ghost s1 = rng@;
    diamond_square(offset_x, offset_y, w_half, h_half, buff, max_diff, rng);
    proof {
        assert((buff.buffer@, rng@) == diamond_square_spec(b2, s1, ox, oy, wh, hh, gw, m));
    }
    let ghost r1 = (buff.buffer@, rng@);
    diamond_square(offset_x + w_half - 1, offset_y, w_half, h_half, buff, max_diff, rng);
    proof {
        assert((buff.buffer@, rng@) == diamond_square_spec(
            r1.0,
            r1.1,
            ox + wh - 1,
            oy,
            wh,
            hh,
            gw,
            m,
        ));
    }
    let ghost r2 = (buff.buffer@, rng@);
    diamond_square(offset_x, offset_y + h_half - 1, w_half, h_half, buff, max_diff, rng);
    proof {
        assert((buff.buffer@, rng@) == diamond_square_spec(
            r2.0,
            r2.1,
            ox,
            oy + hh - 1,
            wh,
            hh,
            gw,
            m,
        ));
    }
    let ghost r3 = (buff.buffer@, rng@);
    diamond_square(
        offset_x + w_half - 1,
        offset_y + h_half - 1,
        w_half,
        h_half,
        buff,
        max_diff,
        rng,
    );
    proof {
        assert((buff.buffer@, rng@) == diamond_square_spec(
            r3.0,
            r3.1,
            ox + wh - 1,
            oy + hh - 1,
            wh,
            hh,
            gw,
            m,
        ));
        assert((buff.buffer@, rng@) == diamond_square_spec(buf_in, st_in, ox, oy, w, h, gw, m))
            by {
            reveal(diamond_square_spec);
        }
    }
}

/// Generate a `width x height` heightmap: random corners in `[10, 200)` and
/// the diamond-square recursion for everything else.  The result is the
/// spec-level model of the run, so equal seeds give equal buffers.
pub fn generate_heightmap(width: usize, height: usize, max_diff: i32, rng: &mut Rng) -> (r: Vec<
    u8,
>)
    requires
        is_grid_dim(width as int),
        is_grid_dim(height as int),
        max_diff > 0,
        max_diff % 2 == 0,
        width * height <= usize::MAX,
    ensures
        r@.len() == width * height,
        ({
            let m = heightmap_spec(width as int, height as int, max_diff as int, old(rng)@);
            r@ == m.0 && final(rng)@ == m.1
        }),
        10 <= r@[grid_index(0, 0, width as int)] < 200,
        10 <= r@[grid_index(width as int - 1, 0, width as int)] < 200,
        10 <= r@[grid_index(0, height as int - 1, width as int)] < 200,
        10 <= r@[grid_index(width as int - 1, height as int - 1, width as int)] < 200,
{
    proof {
        lemma_grid_dim_props(width as int);
        lemma_grid_dim_props(height as int);
    }
    let a = rng.gen_range(10, 200) as u8;
    let b = rng.gen_range(10, 200) as u8;
    let c = rng.gen_range(10, 200) as u8;
    let d = rng.gen_range(10, 200) as u8;
    let mut heightmap_buffer = Buffer2D::new(width, height);
    proof {
        lemma_grid_index_bound(0, 0, width as int, height as int);
        lemma_grid_index_bound(width as int - 1, 0, width as int, height as int);
        lemma_grid_index_bound(0, height as int - 1, width as int, height as int);
        lemma_grid_index_bound(width as int - 1, height as int - 1, width as int, height as int);
        assert((width * height) as int % width as int == 0 && (width * height) as int
            / width as int == height as int) by (nonlinear_arith)
            requires
                width >= 1,
        ;
    }
    heightmap_buffer.set(0, 0, a);
    heightmap_buffer.set(width - 1, 0, b);
    heightmap_buffer.set(0, height - 1, c);
    heightmap_buffer.set(width - 1, height - 1, d);
    let ghost buf0 = heightmap_buffer.buffer@;
    proof {
        lemma_corner_indices_distinct(width as int, height as int);
        lemma_ds_frame(
            buf0,
            rng@,
            0,
            0,
            width as int,
            height as int,
            width as int,
            height as int,
            max_diff as int,
        );
    }
    diamond_square(0, 0, width, height, &mut heightmap_buffer, max_diff, rng);
    heightmap_buffer.buffer
}

/// The four corner cells of a grid are four different indices.
proof fn lemma_corner_indices_distinct(width: int, height: int)
    requires
        3 <= width,
        3 <= height,
    ensures
        grid_index(0, 0, width) == 0,
        grid_index(width - 1, 0, width) == width - 1,
        grid_index(0, height - 1, width) == (height - 1) * width,
        grid_index(width - 1, height - 1, width) == width * height - 1,
        0 < width - 1,
        width - 1 < (height - 1) * width,
        (height - 1) * width < width * height - 1,
{
    assert(width - 1 < (height - 1) * width && (height - 1) * width < width * height - 1 && (height
        - 1) * width + width - 1 == width * height - 1) by (nonlinear_arith)
        requires
            3 <= width,
            3 <= height,
    ;
}

/// The perturbation added to a diamond-step centre lies in
/// `[-max_diff/2, max_diff/2)` for every generator state.
pub proof fn lemma_perturbation_bounded(st: u64, max_diff: int)
    requires
        max_diff > 0,
        max_diff % 2 == 0,
    ensures
        -(max_diff / 2) <= diamond_perturbation(st, max_diff) < max_diff / 2,
{
}

} // verus!
