use vstd::prelude::*;
use crate::grid::LumaGrid;
use crate::sampler::{neighborhood, AdjPixels};

verus! {

/// The horizontal Sobel estimate, in units of 1/255:
/// `-((SE - SW) + 2 (E - W) + (NE - NW))`.
pub open spec fn sobel_x(p: AdjPixels) -> int {
    -((p.se - p.sw) + 2 * (p.e - p.w) + (p.ne - p.nw))
}

/// The vertical Sobel estimate, in units of 1/255:
/// `-((NW - SW) + 2 (N - S) + (NE - SE))`.
pub open spec fn sobel_y(p: AdjPixels) -> int {
    -((p.nw - p.sw) + 2 * (p.n - p.s) + (p.ne - p.se))
}

/// The vertical component as a normal map stores it: DirectX maps point the
/// y axis the other way.
pub open spec fn oriented_y(p: AdjPixels, directx: bool) -> int {
    if directx {
        -sobel_y(p)
    } else {
        sobel_y(p)
    }
}

impl AdjPixels {
    /// The gradient along the x axis, in units of 1/255; it becomes the red
    /// channel.
    pub fn x_normals(&self) -> (r: i32)
        ensures
            r == sobel_x(*self),
    {
        let se = self.se as i32;
        let sw = self.sw as i32;
        let e = self.e as i32;
        let w = self.w as i32;
        let ne = self.ne as i32;
        let nw = self.nw as i32;
        -((se - sw) + 2 * (e - w) + (ne - nw))
    }

    /// The gradient along the y axis, in units of 1/255; it becomes the green
    /// channel.
    pub fn y_normals(&self) -> (r: i32)
        ensures
            r == sobel_y(*self),
    {
        let nw = self.nw as i32;
        let sw = self.sw as i32;
        let n = self.n as i32;
        let s = self.s as i32;
        let ne = self.ne as i32;
        let se = self.se as i32;
        -((nw - sw) + 2 * (n - s) + (ne - se))
    }

    /// The x and y components of the unnormalised surface normal, in units of
    /// 1/255, with the y component negated for DirectX maps.
    pub fn gradient(&self, directx: bool) -> (r: (i32, i32))
        ensures
            r.0 == sobel_x(*self),
            r.1 == oriented_y(*self, directx),
    {
        let gx = self.x_normals();
        let gy = self.y_normals();
        if directx {
            (gx, -gy)
        } else {
            (gx, gy)
        }
    }
}

/// Switching between the OpenGL and DirectX conventions negates the y
/// component.
pub proof fn lemma_handedness_negates_y(p: AdjPixels)
    ensures
        oriented_y(p, true) == -oriented_y(p, false),
{
}

/// On a grid whose cells all hold the same intensity, both gradient
/// components vanish at every cell.
pub proof fn lemma_flat_grid_has_no_gradient(g: &LumaGrid, v: u8, x: int, y: int)
    requires
        g.wf(),
        0 <= x < g.width,
        0 <= y < g.height,
        forall|cx: int, cy: int|
            0 <= cx < g.width && 0 <= cy < g.height ==> #[trigger] g.cell(cx, cy) == v,
    ensures
        sobel_x(neighborhood(g, x, y)) == 0,
        sobel_y(neighborhood(g, x, y)) == 0,
{
}

} // verus!
