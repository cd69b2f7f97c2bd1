use vstd::prelude::*;
use crate::grid::LumaGrid;

verus! {

/// The eight intensities around one cell, named by compass direction
/// (north is the row above, west the column to the left).
#[derive(Clone, Copy, Debug, PartialEq, Eq, Structural)]
pub struct AdjPixels {
    pub nw: u8,
    pub n: u8,
    pub ne: u8,
    pub w: u8,
    pub e: u8,
    pub sw: u8,
    pub s: u8,
    pub se: u8,
}

/// A coordinate moved off an axis of length `len` is pulled back to its
/// nearest end.
pub open spec fn clamp_axis(c: int, len: int) -> int {
    if c < 0 {
        0
    } else if c >= len {
        len - 1
    } else {
        c
    }
}

/// The cell of `g` at offset `(dx, dy)` from `(x, y)`, each axis clamped.
pub open spec fn neighbor(g: &LumaGrid, x: int, y: int, dx: int, dy: int) -> u8 {
    g.cell(clamp_axis(x + dx, g.width as int), clamp_axis(y + dy, g.height as int))
}

/// The neighbourhood of the cell at `(x, y)`.
pub open spec fn neighborhood(g: &LumaGrid, x: int, y: int) -> AdjPixels {
    AdjPixels {
        nw: neighbor(g, x, y, -1, -1),
        n: neighbor(g, x, y, 0, -1),
        ne: neighbor(g, x, y, 1, -1),
        w: neighbor(g, x, y, -1, 0),
        e: neighbor(g, x, y, 1, 0),
        sw: neighbor(g, x, y, -1, 1),
        s: neighbor(g, x, y, 0, 1),
        se: neighbor(g, x, y, 1, 1),
    }
}

/// One step from `c` along an axis of length `len`, backwards or forwards,
/// staying on the axis.
fn clamped_step(c: u32, forward: bool, len: u32) -> (r: u32)
    requires
        c < len,
    ensures
        r == clamp_axis(if forward { c + 1 } else { c - 1 }, len as int),
{
    if forward {
        if c >= len - 1 {
            len - 1
        } else {
            c + 1
        }
    } else {
        if c == 0 {
            0
        } else {
            c - 1
        }
    }
}

/// The intensity at column `x`, row `y`; the row comes first, as in a
/// compass name.
fn fetch_pixel(y: u32, x: u32, img: &LumaGrid) -> (r: u8)
    requires
        img.wf(),
        x < img.width,
        y < img.height,
    ensures
        r == img.cell(x as int, y as int),
{
    img.get_pixel(x, y)
}

impl AdjPixels {
    /// Gathers the neighbourhood of the cell at `(x, y)`; at the border a
    /// missing neighbour is replaced by the nearest cell of the grid.
    pub fn new(x: u32, y: u32, img: &LumaGrid) -> (r: AdjPixels)
        requires
            img.wf(),
            x < img.width,
            y < img.height,
        ensures
            r == neighborhood(img, x as int, y as int),
    {
        let n = clamped_step(y, false, img.height());
        let s = clamped_step(y, true, img.height());
        let w = clamped_step(x, false, img.width());
        let e = clamped_step(x, true, img.width());
        AdjPixels {
            nw: fetch_pixel(n, w, img),
            n: fetch_pixel(n, x, img),
            ne: fetch_pixel(n, e, img),
            w: fetch_pixel(y, w, img),
            e: fetch_pixel(y, e, img),
            sw: fetch_pixel(s, w, img),
            s: fetch_pixel(s, x, img),
            se: fetch_pixel(s, e, img),
        }
    }
}

/// The neighbourhood of every cell of `img`, in row order: entry `i` belongs
/// to column `i % width` of row `i / width`.
pub fn neighborhoods(img: &LumaGrid) -> (r: Vec<AdjPixels>)
    requires
        img.wf(),
    ensures
        r.len() == img.width * img.height,
        forall|i: int|
            0 <= i < r.len() ==> #[trigger] r[i] == neighborhood(
                img,
                i % img.width as int,
                i / img.width as int,
            ),
{
    let width = img.width();
    let height = img.height();
    let mut r: Vec<AdjPixels> = Vec::new();
    let mut y: u32 = 0;
    while y < height
        invariant
            img.wf(),
            width == img.width,
            height == img.height,
            y <= height,
            r.len() == y * width,
            forall|i: int|
                0 <= i < r.len() ==> #[trigger] r[i] == neighborhood(
                    img,
                    i % width as int,
                    i / width as int,
                ),
        decreases height - y,
    {
        let mut x: u32 = 0;
        while x < width
            invariant
                img.wf(),
                width == img.width,
                height == img.height,
                y < height,
                x <= width,
                r.len() == y * width + x,
                forall|i: int|
                    0 <= i < r.len() ==> #[trigger] r[i] == neighborhood(
                        img,
                        i % width as int,
                        i / width as int,
                    ),
            decreases width - x,
        {
            let p = AdjPixels::new(x, y, img);
            proof {
                vstd::arithmetic::div_mod::lemma_fundamental_div_mod_converse(
                    r.len() as int,
                    width as int,
                    y as int,
                    x as int,
                );
            }
            r.push(p);
            x = x + 1;
        }
        proof {
            assert((y + 1) * width == y * width + width) by (nonlinear_arith);
        }
        y = y + 1;
    }
    proof {
        vstd::arithmetic::mul::lemma_mul_is_commutative(width as int, height as int);
    }
    r
}

/// Every neighbour of the only cell of a one-by-one grid is that cell.
pub proof fn lemma_single_cell_neighborhood(g: &LumaGrid)
    requires
        g.wf(),
        g.width == 1,
        g.height == 1,
    ensures
        neighborhood(g, 0, 0) == (AdjPixels {
            nw: g.cell(0, 0),
            n: g.cell(0, 0),
            ne: g.cell(0, 0),
            w: g.cell(0, 0),
            e: g.cell(0, 0),
            sw: g.cell(0, 0),
            s: g.cell(0, 0),
            se: g.cell(0, 0),
        }),
{
}

/// The neighbourhoods depend on the grid's dimensions and cells alone: two
/// grids that hold the same cells have the same neighbourhood at every cell.
pub proof fn lemma_neighborhoods_deterministic(a: &LumaGrid, b: &LumaGrid, x: int, y: int)
    requires
        a.wf(),
        b.wf(),
        a.width == b.width,
        a.height == b.height,
        a.pixels@ == b.pixels@,
    ensures
        neighborhood(a, x, y) == neighborhood(b, x, y),
{
}

} // verus!
