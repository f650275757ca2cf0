//! Plain raster images: what the library reads of a decoded picture.
//!
//! The engine hands pictures over as plain pixel rows; the library stores
//! them row-major and reads single pixels.  Colors are opaque 24-bit RGB
//! triples compared bit-exactly.

use vstd::prelude::*;

use crate::heightmap::grid_index;

verus! {

/// An opaque 24-bit RGB color; equality is bit-exact.
#[derive(Clone, Copy, Debug, PartialEq, Eq, Structural)]
pub struct Color {
    pub r: u8,
    pub g: u8,
    pub b: u8,
}

impl Color {
    pub fn rgb(r: u8, g: u8, b: u8) -> (c: Color)
        ensures
            c == (Color { r, g, b }),
    {
        Color { r, g, b }
    }

    pub fn white() -> (c: Color)
        ensures
            c == (Color { r: 255, g: 255, b: 255 }),
    {
        Color { r: 255, g: 255, b: 255 }
    }

    pub fn black() -> (c: Color)
        ensures
            c == (Color { r: 0, g: 0, b: 0 }),
    {
        Color { r: 0, g: 0, b: 0 }
    }
}

/// A row-major raster of colors.
pub struct Image {
    pub width: usize,
    pub height: usize,
    pub pixels: Vec<Color>,
}

impl Image {
    /// The raster covers exactly `width * height` pixels.
    pub open spec fn wf(&self) -> bool {
        self.pixels@.len() == self.width * self.height
    }

    /// The pixel at `(x, y)`.
    pub open spec fn pixel(&self, x: int, y: int) -> Color {
        self.pixels@[grid_index(x, y, self.width as int)]
    }

    pub fn new(width: usize, height: usize, pixels: Vec<Color>) -> (img: Image)
        requires
            pixels@.len() == width * height,
        ensures
            img.wf(),
            img.width == width,
            img.height == height,
            img.pixels@ == pixels@,
    {
        Image { width, height, pixels }
    }

    pub fn get_pixel(&self, x: usize, y: usize) -> (c: Color)
        requires
            self.wf(),
            x < self.width,
            y < self.height,
        ensures
            c == self.pixel(x as int, y as int),
    {
        proof {
            assert(0 <= grid_index(x as int, y as int, self.width as int)
                < self.width * self.height) by (nonlinear_arith)
                requires
                    0 <= x < self.width,
                    0 <= y < self.height,
            ;
        }
        let _len = self.pixels.len();
        let index = y * self.width + x;
        self.pixels[index]
    }
}

} // verus!
