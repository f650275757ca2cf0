//! The scrolling bar-chart HUD.
//!
//! A bounded FIFO of samples (newest at the front) with a fluent
//! configuration, rendered as a gradient column chart.  Rendering is a pure
//! function of the FIFO and the configuration: `draw` returns the exact
//! sequence of primitive drawing commands, and a host blits them.  The FIFO
//! pops its back at the literal length 100, not at `max_elem_count`: the
//! two bounds are deliberately independent.

use vstd::prelude::*;

use crate::image::Color;

verus! {

/// A primitive 2D drawing command.  Coordinates may leave the surface; the
/// host clips.  A `Text` shows its value in decimal.
#[derive(Clone, Copy, Debug, PartialEq, Eq, Structural)]
pub enum DrawCmd {
    Point { x: i64, y: i64, color: Color },
    Line { x1: i64, y1: i64, x2: i64, y2: i64, color: Color },
    Text { x: i64, y: i64, color: Color, value: u32 },
}

/// A sample clipped to the drawable height.
pub open spec fn clamped(v: u32, mh: u32) -> int {
    if v > mh {
        mh as int
    } else {
        v as int
    }
}

/// The gray level of gradient pixel `k`, interpolated from 42 at the bottom
/// to 200 at `max_height`.
pub open spec fn gradient_level(k: int, mh: int) -> int {
    (42 * (mh - k) + 200 * k) / mh
}

pub open spec fn gradient_color(k: int, mh: int) -> Color {
    Color {
        r: gradient_level(k, mh) as u8,
        g: gradient_level(k, mh) as u8,
        b: gradient_level(k, mh) as u8,
    }
}

/// The bar cap color.
pub open spec fn cap_color() -> Color {
    Color { r: 217, g: 137, b: 50 }
}

/// Gradient pixel `k` of a bar at `x`.
pub open spec fn gradient_pixel(x: int, bottom_y: int, mh: int, k: int) -> DrawCmd {
    DrawCmd::Point { x: x as i64, y: (bottom_y - k) as i64, color: gradient_color(k, mh) }
}

/// One vertical gradient bar: `value` pixels up from `bottom_y`, then two
/// cap pixels.
pub open spec fn gradient_bar_cmds(x: int, value: int, bottom_y: int, mh: int) -> Seq<DrawCmd> {
    Seq::new(value as nat, |k: int| gradient_pixel(x, bottom_y, mh, k)).push(
        DrawCmd::Point { x: x as i64, y: (bottom_y - value) as i64, color: cap_color() },
    ).push(DrawCmd::Point { x: x as i64, y: (bottom_y - value - 1) as i64, color: cap_color() })
}

/// The bar height of sub-column `j`, interpolated between the previous and
/// the current clipped sample.
pub open spec fn column_value(last: int, cur: int, j: int, cw: int) -> int {
    (last * (cw - j) + cur * j) / cw
}

/// The x pixel of sub-column `j` of sample `i`, floored at zero.
pub open spec fn column_x(right_x: int, i: int, cw: int, j: int) -> int {
    if right_x - (i * cw + j) < 0 {
        0int
    } else {
        right_x - (i * cw + j)
    }
}

/// The sub-columns of one sample, from `j` on.
pub open spec fn columns_cmds(
    right_x: int,
    bottom_y: int,
    mh: int,
    cw: int,
    i: int,
    last: int,
    cur: int,
    j: int,
) -> Seq<DrawCmd>
    decreases cw - j,
{
    if j < 0 || j >= cw {
        Seq::empty()
    } else {
        gradient_bar_cmds(column_x(right_x, i, cw, j), column_value(last, cur, j, cw), bottom_y, mh)
            + columns_cmds(right_x, bottom_y, mh, cw, i, last, cur, j + 1)
    }
}

/// The bars of every sample from index `i` on (0 is the newest).
pub open spec fn bars_cmds(
    data: Seq<u32>,
    right_x: int,
    bottom_y: int,
    mh: int,
    cw: int,
    i: int,
) -> Seq<DrawCmd>
    decreases data.len() - i,
{
    if i < 0 || i >= data.len() {
        Seq::empty()
    } else {
        let last = if i == 0 {
            0int
        } else {
            clamped(data[i - 1], mh as u32)
        };
        let cur = clamped(data[i], mh as u32);
        columns_cmds(right_x, bottom_y, mh, cw, i, last, cur, 0) + bars_cmds(
            data,
            right_x,
            bottom_y,
            mh,
            cw,
            i + 1,
        )
    }
}

pub open spec fn center_line_color() -> Color {
    Color { r: 255, g: 102, b: 0 }
}

pub open spec fn top_line_color() -> Color {
    Color { r: 0, g: 255, b: 0 }
}

/// The half-height reference line with its "50" label.
pub open spec fn center_line_cmds(x: int, y: int, mh: int, right_x: int) -> Seq<DrawCmd> {
    seq![
        DrawCmd::Line {
            x1: x as i64,
            y1: (y + mh / 2) as i64,
            x2: right_x as i64,
            y2: (y + mh / 2) as i64,
            color: center_line_color(),
        },
        DrawCmd::Text {
            x: (right_x - 16) as i64,
            y: (y + mh / 2) as i64,
            color: center_line_color(),
            value: 50u32,
        },
    ]
}

/// The full-height reference line with its "100" label.
pub open spec fn top_line_cmds(x: int, y: int, right_x: int) -> Seq<DrawCmd> {
    seq![
        DrawCmd::Line {
            x1: x as i64,
            y1: y as i64,
            x2: right_x as i64,
            y2: y as i64,
            color: top_line_color(),
        },
        DrawCmd::Text {
            x: (right_x - 24) as i64,
            y: y as i64,
            color: top_line_color(),
            value: 100u32,
        },
    ]
}

/// The numeric label of the newest sample, drawn only while it fits above
/// the 600-pixel surface bound.
pub open spec fn label_cmds(data: Seq<u32>, right_x: int, bottom_y: int, mh: int) -> Seq<DrawCmd> {
    let current = if data.len() == 0 {
        0u32
    } else {
        data[0]
    };
    let y_pos = bottom_y - clamped(current, mh as u32);
    if y_pos + 7 < 600 {
        seq![
            DrawCmd::Text {
                x: right_x as i64,
                y: (bottom_y - current) as i64,
                color: Color { r: 255, g: 255, b: 255 },
                value: current,
            },
        ]
    } else {
        Seq::empty()
    }
}

/// Everything one frame of the chart draws, in order: the bars, the centre
/// line, the top line, the newest sample's label.
pub open spec fn chart_cmds(
    data: Seq<u32>,
    x: int,
    y: int,
    mh: int,
    cw: int,
    right_x: int,
    bottom_y: int,
) -> Seq<DrawCmd> {
    bars_cmds(data, right_x, bottom_y, mh, cw, 0) + center_line_cmds(x, y, mh, right_x)
        + top_line_cmds(x, y, right_x) + label_cmds(data, right_x, bottom_y, mh)
}

/// A bounded FIFO of samples with its chart configuration.
pub struct Chart {
    data: Vec<u32>,
    x: u32,
    y: u32,
    max_elem_count: u32,
    max_height: u32,
    column_width: u32,
    right_x: u32,
    bottom_y: u32,
}

impl Chart {
    pub closed spec fn data_view(&self) -> Seq<u32> {
        self.data@
    }

    pub closed spec fn x_spec(&self) -> u32 {
        self.x
    }

    pub closed spec fn y_spec(&self) -> u32 {
        self.y
    }

    pub closed spec fn max_elem_count_spec(&self) -> u32 {
        self.max_elem_count
    }

    pub closed spec fn max_height_spec(&self) -> u32 {
        self.max_height
    }

    pub closed spec fn column_width_spec(&self) -> u32 {
        self.column_width
    }

    pub closed spec fn right_x_spec(&self) -> u32 {
        self.right_x
    }

    pub closed spec fn bottom_y_spec(&self) -> u32 {
        self.bottom_y
    }

    /// The derived fields follow the configuration, and the FIFO stays under
    /// its bound.
    pub closed spec fn wf(&self) -> bool {
        &&& self.right_x == self.x + self.max_elem_count * self.column_width
        &&& self.bottom_y == if self.y + self.max_height < 599 {
            self.y + self.max_height
        } else {
            599int
        }
        &&& self.data@.len() <= 99
    }

    pub fn new() -> (c: Chart)
        ensures
            c.wf(),
            c.data_view() == Seq::<u32>::empty(),
            c.x_spec() == 0,
            c.y_spec() == 0,
            c.max_elem_count_spec() == 100,
            c.max_height_spec() == 100,
            c.column_width_spec() == 2,
            c.right_x_spec() == 200,
            c.bottom_y_spec() == 100,
    {
        let c = Chart {
            data: Vec::new(),
            x: 0,
            y: 0,
            max_elem_count: 100,
            max_height: 100,
            column_width: 2,
            right_x: 200,
            bottom_y: 100,
        };
        proof {
            assert(c.data@ =~= Seq::<u32>::empty());
        }
        c
    }

    pub fn x(self, x: u32) -> (c: Chart)
        requires
            self.wf(),
            x + self.max_elem_count_spec() * self.column_width_spec() <= u32::MAX,
        ensures
            c.wf(),
            c.x_spec() == x,
            c.right_x_spec() == x + self.max_elem_count_spec() * self.column_width_spec(),
            c.y_spec() == self.y_spec(),
            c.max_elem_count_spec() == self.max_elem_count_spec(),
            c.max_height_spec() == self.max_height_spec(),
            c.column_width_spec() == self.column_width_spec(),
            c.bottom_y_spec() == self.bottom_y_spec(),
            c.data_view() == self.data_view(),
    {
        let mut c = self;
        c.x = x;
        proof {
            crate::chart::lemma_u32_product(c.max_elem_count, c.column_width);
        }
        c.right_x = x + ((c.max_elem_count as u64 * c.column_width as u64) as u32);
        c
    }

    pub fn y(self, y: u32) -> (c: Chart)
        requires
            self.wf(),
        ensures
            c.wf(),
            c.y_spec() == y,
            c.bottom_y_spec() == if y + self.max_height_spec() < 599 {
                y + self.max_height_spec()
            } else {
                599int
            },
            c.x_spec() == self.x_spec(),
            c.max_elem_count_spec() == self.max_elem_count_spec(),
            c.max_height_spec() == self.max_height_spec(),
            c.column_width_spec() == self.column_width_spec(),
            c.right_x_spec() == self.right_x_spec(),
            c.data_view() == self.data_view(),
    {
        let mut c = self;
        c.y = y;
        let sum = y as u64 + c.max_height as u64;
        c.bottom_y = if sum < 599 {
            sum as u32
        } else {
            599
        };
        c
    }

    pub fn max_elem_count(self, max_elem_count: u32) -> (c: Chart)
        requires
            self.wf(),
            self.x_spec() + max_elem_count * self.column_width_spec() <= u32::MAX,
        ensures
            c.wf(),
            c.max_elem_count_spec() == max_elem_count,
            c.right_x_spec() == self.x_spec() + max_elem_count * self.column_width_spec(),
            c.x_spec() == self.x_spec(),
            c.y_spec() == self.y_spec(),
            c.max_height_spec() == self.max_height_spec(),
            c.column_width_spec() == self.column_width_spec(),
            c.bottom_y_spec() == self.bottom_y_spec(),
            c.data_view() == self.data_view(),
    {
        let mut c = self;
        c.max_elem_count = max_elem_count;
        proof {
            crate::chart::lemma_u32_product(c.max_elem_count, c.column_width);
        }
        c.right_x = c.x + ((c.max_elem_count as u64 * c.column_width as u64) as u32);
        c
    }

    pub fn max_height(self, max_height: u32) -> (c: Chart)
        requires
            self.wf(),
        ensures
            c.wf(),
            c.max_height_spec() == max_height,
            c.bottom_y_spec() == if self.y_spec() + max_height < 599 {
                self.y_spec() + max_height
            } else {
                599int
            },
            c.x_spec() == self.x_spec(),
            c.y_spec() == self.y_spec(),
            c.max_elem_count_spec() == self.max_elem_count_spec(),
            c.column_width_spec() == self.column_width_spec(),
            c.right_x_spec() == self.right_x_spec(),
            c.data_view() == self.data_view(),
    {
        let mut c = self;
        c.max_height = max_height;
        let sum = c.y as u64 + max_height as u64;
        c.bottom_y = if sum < 599 {
            sum as u32
        } else {
            599
        };
        c
    }

    pub fn column_width(self, column_width: u32) -> (c: Chart)
        requires
            self.wf(),
            self.x_spec() + self.max_elem_count_spec() * column_width <= u32::MAX,
        ensures
            c.wf(),
            c.column_width_spec() == column_width,
            c.right_x_spec() == self.x_spec() + self.max_elem_count_spec() * column_width,
            c.x_spec() == self.x_spec(),
            c.y_spec() == self.y_spec(),
            c.max_elem_count_spec() == self.max_elem_count_spec(),
            c.max_height_spec() == self.max_height_spec(),
            c.bottom_y_spec() == self.bottom_y_spec(),
            c.data_view() == self.data_view(),
    {
        let mut c = self;
        c.column_width = column_width;
        proof {
            crate::chart::lemma_u32_product(c.max_elem_count, c.column_width);
        }
        c.right_x = c.x + ((c.max_elem_count as u64 * c.column_width as u64) as u32);
        c
    }

    /// Push a sample to the front; at the literal length 100 the back (the
    /// oldest sample) is dropped, so the FIFO never exceeds 99 entries.
    pub fn add_data(&mut self, data: u32)
        requires
            old(self).wf(),
        ensures
            final(self).wf(),
            ({
                let pushed = seq![data] + old(self).data_view();
                final(self).data_view() == if pushed.len() >= 100 {
                    pushed.drop_last()
                } else {
                    pushed
                }
            }),
            final(self).data_view().len() <= 99,
            final(self).data_view()[0] == data,
            final(self).x_spec() == old(self).x_spec(),
            final(self).y_spec() == old(self).y_spec(),
            final(self).max_elem_count_spec() == old(self).max_elem_count_spec(),
            final(self).max_height_spec() == old(self).max_height_spec(),
            final(self).column_width_spec() == old(self).column_width_spec(),
            final(self).right_x_spec() == old(self).right_x_spec(),
            final(self).bottom_y_spec() == old(self).bottom_y_spec(),
    {
        let ghost d0 = self.data@;
        self.data.insert(0, data);
        proof {
            assert(self.data@ =~= seq![data] + d0);
        }
        if self.data.len() >= 100 {
            let ghost d1 = self.data@;
            self.data.pop();
            proof {
                assert(self.data@ =~= d1.drop_last());
            }
        }
    }

    /// Append one vertical gradient bar of the given clipped height.
    fn draw_gradient_bar(&self, cmds: &mut Vec<DrawCmd>, x: i64, value: u32)
        requires
            self.wf(),
            value <= self.max_height_spec(),
        ensures
            final(cmds)@ == old(cmds)@ + gradient_bar_cmds(
                x as int,
                value as int,
                self.bottom_y_spec() as int,
                self.max_height_spec() as int,
            ),
    {
        let ghost base = cmds@;
        let mh = self.max_height;
        let bottom_y = self.bottom_y;
        let mut k: u32 = 0;
        proof {
            assert(cmds@ =~= base + Seq::new(
                0,
                |kk: int| gradient_pixel(x as int, bottom_y as int, mh as int, kk),
            ));
        }
        while k < value
            invariant
                k <= value,
                value <= mh,
                cmds@ == base + Seq::new(
                    k as nat,
                    |kk: int| gradient_pixel(x as int, bottom_y as int, mh as int, kk),
                ),
            decreases value - k,
        {
            let num: u64 = 42 * ((mh - k) as u64) + 200 * (k as u64);
            let level = num / (mh as u64);
            proof {
                assert(level == gradient_level(k as int, mh as int) && 42 <= level <= 200)
                    by (nonlinear_arith)
                    requires
                        0 <= k < mh,
                        num == 42 * (mh - k) + 200 * k,
                        level == num as int / mh as int,
                ;
            }
            let shade = level as u8;
            cmds.push(
                DrawCmd::Point {
                    x,
                    y: bottom_y as i64 - k as i64,
                    color: Color { r: shade, g: shade, b: shade },
                },
            );
            proof {
                assert(cmds@ =~= base + Seq::new(
                    (k + 1) as nat,
                    |kk: int| gradient_pixel(x as int, bottom_y as int, mh as int, kk),
                ));
            }
            k = k + 1;
        }
        cmds.push(
            DrawCmd::Point { x, y: bottom_y as i64 - value as i64, color: Color::rgb(217, 137, 50) },
        );
        cmds.push(
            DrawCmd::Point {
                x,
                y: bottom_y as i64 - value as i64 - 1,
                color: Color::rgb(217, 137, 50),
            },
        );
        proof {
            assert(cmds@ =~= base + gradient_bar_cmds(
                x as int,
                value as int,
                bottom_y as int,
                mh as int,
            ));
        }
    }

    /// Append every sample's gradient columns, newest first.
    fn draw_bars(&self, cmds: &mut Vec<DrawCmd>)
        requires
            self.wf(),
        ensures
            final(cmds)@ == old(cmds)@ + bars_cmds(
                self.data_view(),
                self.right_x_spec() as int,
                self.bottom_y_spec() as int,
                self.max_height_spec() as int,
                self.column_width_spec() as int,
                0,
            ),
    {
        let ghost base = cmds@;
        let ghost data = self.data@;
        let ghost rx = self.right_x as int;
        let ghost by_ = self.bottom_y as int;
        let ghost mh_g = self.max_height as int;
        let ghost cw_g = self.column_width as int;
        let n = self.data.len();
        let cw = self.column_width;
        let mh = self.max_height;
        let right_x = self.right_x;
        let mut i: usize = 0;
        while i < n
            invariant
                self.wf(),
                n == self.data@.len(),
                n <= 99,
                0 <= i <= n,
                data == self.data@,
                rx == self.right_x as int,
                by_ == self.bottom_y as int,
                mh_g == self.max_height as int,
                cw_g == self.column_width as int,
                cw == self.column_width,
                mh == self.max_height,
                right_x == self.right_x,
                base + bars_cmds(data, rx, by_, mh_g, cw_g, 0) == cmds@ + bars_cmds(
                    data,
                    rx,
                    by_,
                    mh_g,
                    cw_g,
                    i as int,
                ),
            decreases n - i,
        {
            let cur_raw = self.data[i];
            let cur: u32 = if cur_raw > mh {
                mh
            } else {
                cur_raw
            };
            let last: u32 = if i == 0 {
                0
            } else {
                let prev = self.data[i - 1];
                if prev > mh {
                    mh
                } else {
                    prev
                }
            };
            let ghost cols = columns_cmds(rx, by_, mh_g, cw_g, i as int, last as int, cur as int, 0);
            let ghost inner_base = cmds@;
            let mut j: u32 = 0;
            while j < cw
                invariant
                    self.wf(),
                    0 <= j <= cw,
                    i < n,
                    n <= 99,
                    n == self.data@.len(),
                    cw == self.column_width,
                    mh == self.max_height,
                    right_x == self.right_x,
                    rx == self.right_x as int,
                    by_ == self.bottom_y as int,
                    mh_g == self.max_height as int,
                    cw_g == self.column_width as int,
                    last <= mh,
                    cur <= mh,
                    inner_base + columns_cmds(rx, by_, mh_g, cw_g, i as int, last as int, cur as int, 0)
                        == cmds@ + columns_cmds(
                        rx,
                        by_,
                        mh_g,
                        cw_g,
                        i as int,
                        last as int,
                        cur as int,
                        j as int,
                    ),
                decreases cw - j,
            {
                proof {
                    assert((i as int) * (cw as int) + (j as int) < 0x10000000000int)
                        by (nonlinear_arith)
                        requires
                            0 <= i < 99,
                            0 <= j <= cw,
                            cw <= u32::MAX,
                    ;
                }
                let offset: i64 = (i as i64) * (cw as i64) + (j as i64);
                let x1: i64 = if (right_x as i64) - offset < 0 {
                    0
                } else {
                    (right_x as i64) - offset
                };
                proof {
                    assert((last as int) * ((cw - j) as int) <= u64::MAX && (cur as int) * (
                    j as int) <= u64::MAX) by (nonlinear_arith)
                        requires
                            last <= u32::MAX,
                            cur <= u32::MAX,
                            0 <= j <= cw,
                            cw <= u32::MAX,
                    ;
                }
                let num: u128 = (last as u128) * ((cw - j) as u128) + (cur as u128) * (j as u128);
                let value_wide = num / (cw as u128);
                proof {
                    assert(value_wide == column_value(last as int, cur as int, j as int, cw as int)
                        && value_wide <= mh) by (nonlinear_arith)
                        requires
                            0 <= j < cw,
                            last <= mh,
                            cur <= mh,
                            num == last * (cw - j) + cur * j,
                            value_wide == num as int / cw as int,
                    ;
                }
                let value = value_wide as u32;
                let ghost before_bar = cmds@;
                self.draw_gradient_bar(cmds, x1, value);
                proof {
                    let tail = columns_cmds(
                        rx,
                        by_,
                        mh_g,
                        cw_g,
                        i as int,
                        last as int,
                        cur as int,
                        j as int + 1,
                    );
                    let bar = gradient_bar_cmds(
                        column_x(rx, i as int, cw_g, j as int),
                        column_value(last as int, cur as int, j as int, cw_g),
                        by_,
                        mh_g,
                    );
                    assert(x1 as int == column_x(rx, i as int, cw_g, j as int));
                    assert(cmds@ =~= before_bar + bar);
                    assert(before_bar + (bar + tail) =~= (before_bar + bar) + tail);
                }
                j = j + 1;
            }
            proof {
                let tail = bars_cmds(data, rx, by_, mh_g, cw_g, i as int + 1);
                assert(columns_cmds(rx, by_, mh_g, cw_g, i as int, last as int, cur as int, cw_g)
                    =~= Seq::<DrawCmd>::empty());
                assert(cmds@ =~= inner_base + cols);
                assert(inner_base + (cols + tail) =~= (inner_base + cols) + tail);
            }
            i = i + 1;
        }
        proof {
            assert(bars_cmds(data, rx, by_, mh_g, cw_g, n as int) =~= Seq::<DrawCmd>::empty());
            assert(cmds@ + Seq::<DrawCmd>::empty() =~= cmds@);
            assert(base + bars_cmds(data, rx, by_, mh_g, cw_g, 0) =~= cmds@);
        }
    }

    /// Append the half-height reference line and its "50" label.
    fn draw_center_line(&self, cmds: &mut Vec<DrawCmd>)
        requires
            self.wf(),
        ensures
            final(cmds)@ == old(cmds)@ + center_line_cmds(
                self.x_spec() as int,
                self.y_spec() as int,
                self.max_height_spec() as int,
                self.right_x_spec() as int,
            ),
    {
        let ghost base = cmds@;
        let y1 = self.y as i64 + (self.max_height / 2) as i64;
        cmds.push(
            DrawCmd::Line {
                x1: self.x as i64,
                y1,
                x2: self.right_x as i64,
                y2: y1,
                color: Color::rgb(255, 102, 0),
            },
        );
        cmds.push(
            DrawCmd::Text {
                x: self.right_x as i64 - 16,
                y: y1,
                color: Color::rgb(255, 102, 0),
                value: 50,
            },
        );
        proof {
            assert(cmds@ =~= base + center_line_cmds(
                self.x as int,
                self.y as int,
                self.max_height as int,
                self.right_x as int,
            ));
        }
    }

    /// Append the full-height reference line and its "100" label.
    fn draw_top_line(&self, cmds: &mut Vec<DrawCmd>)
        requires
            self.wf(),
        ensures
            final(cmds)@ == old(cmds)@ + top_line_cmds(
                self.x_spec() as int,
                self.y_spec() as int,
                self.right_x_spec() as int,
            ),
    {
        let ghost base = cmds@;
        cmds.push(
            DrawCmd::Line {
                x1: self.x as i64,
                y1: self.y as i64,
                x2: self.right_x as i64,
                y2: self.y as i64,
                color: Color::rgb(0, 255, 0),
            },
        );
        cmds.push(
            DrawCmd::Text {
                x: self.right_x as i64 - 24,
                y: self.y as i64,
                color: Color::rgb(0, 255, 0),
                value: 100,
            },
        );
        proof {
            assert(cmds@ =~= base + top_line_cmds(
                self.x as int,
                self.y as int,
                self.right_x as int,
            ));
        }
    }

    /// Everything one frame draws, in order.  The result is a pure function
    /// of the FIFO and the configuration: no other state enters it.
    pub fn draw(&self) -> (cmds: Vec<DrawCmd>)
        requires
            self.wf(),
        ensures
            cmds@ == chart_cmds(
                self.data_view(),
                self.x_spec() as int,
                self.y_spec() as int,
                self.max_height_spec() as int,
                self.column_width_spec() as int,
                self.right_x_spec() as int,
                self.bottom_y_spec() as int,
            ),
    {
        let mut cmds: Vec<DrawCmd> = Vec::new();
        self.draw_bars(&mut cmds);
        self.draw_center_line(&mut cmds);
        self.draw_top_line(&mut cmds);
        let ghost before_label = cmds@;
        let current_fps = if self.data.len() > 0 {
            self.data[0]
        } else {
            0
        };
        let clipped: u32 = if current_fps > self.max_height {
            self.max_height
        } else {
            current_fps
        };
        let y_pos = self.bottom_y as i64 - clipped as i64;
        if y_pos + 7 < 600 {
            cmds.push(
                DrawCmd::Text {
                    x: self.right_x as i64,
                    y: self.bottom_y as i64 - current_fps as i64,
                    color: Color::rgb(255, 255, 255),
                    value: current_fps,
                },
            );
        }
        proof {
            assert(cmds@ =~= before_label + label_cmds(
                self.data@,
                self.right_x as int,
                self.bottom_y as int,
                self.max_height as int,
            ));
            assert(cmds@ =~= chart_cmds(
                self.data@,
                self.x as int,
                self.y as int,
                self.max_height as int,
                self.column_width as int,
                self.right_x as int,
                self.bottom_y as int,
            ));
        }
        cmds
    }

    // -----------------------------------------------------------------------
    // Read access.
    // -----------------------------------------------------------------------

    pub fn len(&self) -> (n: usize)
        ensures
            n == self.data_view().len(),
    {
        self.data.len()
    }

    pub fn sample_at(&self, i: usize) -> (v: u32)
        requires
            i < self.data_view().len(),
        ensures
            v == self.data_view()[i as int],
    {
        self.data[i]
    }

    pub fn right_x(&self) -> (v: u32)
        ensures
            v == self.right_x_spec(),
    {
        self.right_x
    }

    pub fn bottom_y(&self) -> (v: u32)
        ensures
            v == self.bottom_y_spec(),
    {
        self.bottom_y
    }
}

/// A product of two `u32` values fits in a `u64`.
proof fn lemma_u32_product(a: u32, b: u32)
    ensures
        a as int * b as int <= u64::MAX,
{
    assert(a as int * b as int <= u64::MAX) by (nonlinear_arith)
        requires
            a <= u32::MAX,
            b <= u32::MAX,
    ;
}

} // verus!
