use vstd::prelude::*;

verus! {

/// A single-channel height map: one intensity byte per cell, stored row by
/// row (the cell at column `x` of row `y` sits at index `y * width + x`).
pub struct LumaGrid {
    pub width: u32,
    pub height: u32,
    pub pixels: Vec<u8>,
}

impl LumaGrid {
    /// The buffer holds exactly one byte per cell.
    pub open spec fn wf(&self) -> bool {
        self.pixels.len() == self.width * self.height
    }

    /// The intensity of the cell at column `x`, row `y`.
    pub open spec fn cell(&self, x: int, y: int) -> u8 {
        self.pixels@[y * self.width + x]
    }

    /// Builds a grid from its dimensions and its cells in row order; `None`
    /// when the buffer does not hold exactly `width * height` bytes.
    pub fn new(width: u32, height: u32, pixels: Vec<u8>) -> (r: Option<LumaGrid>)
        ensures
            r is Some <==> pixels.len() == width * height,
            r matches Some(g) ==> g.wf() && g.width == width && g.height == height
                && g.pixels@ == pixels@,
    {
        proof {
            assert(width * height <= u64::MAX) by (nonlinear_arith)
                requires
                    width <= u32::MAX,
                    height <= u32::MAX,
            ;
        }
        let n: u64 = width as u64 * height as u64;
        if pixels.len() as u64 == n {
            Some(LumaGrid { width, height, pixels })
        } else {
            None
        }
    }

    pub fn width(&self) -> (r: u32)
        ensures
            r == self.width,
    {
        self.width
    }

    pub fn height(&self) -> (r: u32)
        ensures
            r == self.height,
    {
        self.height
    }

    /// The intensity of the cell at column `x`, row `y`.
    pub fn get_pixel(&self, x: u32, y: u32) -> (r: u8)
        requires
            self.wf(),
            x < self.width,
            y < self.height,
        ensures
            r == self.cell(x as int, y as int),
    {
        proof {
            let w = self.width as int;
            let h = self.height as int;
            assert(y * w + x < h * w) by (nonlinear_arith)
                requires
                    0 <= x < w,
                    0 <= y < h,
            ;
        }
        self.pixels[y as usize * self.width as usize + x as usize]
    }
}

} // verus!
