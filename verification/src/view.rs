//! The viewport: zoom scale and pan offset, and the two coordinate transforms
//! between pixels on the screen and cells of the lattice.
//!
//! Division rounds toward zero, as machine division does, in both transforms
//! and in every edit. So the cell under the corner pixel of a cell is that
//! cell; and the pixels less than a cell's width left of or above the pan
//! offset are, like those right of and below it, over the cell at the offset.

use crate::lattice::Cell;
use vstd::prelude::*;

verus! {

/// Smallest zoom scale, in pixels per cell edge.
pub const MIN_SCALE: i32 = 1;

/// Largest zoom scale, in pixels per cell edge.
pub const MAX_SCALE: i32 = 8;

/// The scale nearest to `z` among the admissible ones.
pub open spec fn clamp_scale(z: int) -> int {
    if z < MIN_SCALE {
        MIN_SCALE as int
    } else if z > MAX_SCALE {
        MAX_SCALE as int
    } else {
        z
    }
}

/// The quotient of `a` by a positive `b`, rounded toward zero.
pub open spec fn trunc_div(a: int, b: int) -> int {
    if a >= 0 {
        a / b
    } else {
        -((-a) / b)
    }
}

/// The cell under the pixel `p`, at the given scale and pan offset.
pub open spec fn world_of_screen(scale: int, translate: (int, int), p: (int, int)) -> Cell {
    (trunc_div(p.0 - translate.0, scale), trunc_div(p.1 - translate.1, scale))
}

/// The pixel at the corner of the cell `w`, at the given scale and pan offset.
pub open spec fn screen_of_world(scale: int, translate: (int, int), w: Cell) -> (int, int) {
    (w.0 * scale + translate.0, w.1 * scale + translate.1)
}

/// Whether both coordinates of the pixel `p` are `i32` values.
pub open spec fn on_canvas(p: (int, int)) -> bool {
    i32::MIN <= p.0 <= i32::MAX && i32::MIN <= p.1 <= i32::MAX
}

/// A multiple of the scale, divided by the scale, gives the factor back.
proof fn lemma_trunc_div_of_multiple(w: int, scale: int)
    requires
        scale >= 1,
    ensures
        trunc_div(w * scale, scale) == w,
{
    if w >= 0 {
        assert(w * scale >= 0) by (nonlinear_arith)
            requires
                w >= 0,
                scale >= 1,
        ;
        vstd::arithmetic::div_mod::lemma_div_by_multiple(w, scale);
    } else {
        assert(-(w * scale) == (-w) * scale && w * scale < 0) by (nonlinear_arith)
            requires
                w < 0,
                scale >= 1,
        ;
        vstd::arithmetic::div_mod::lemma_div_by_multiple(-w, scale);
    }
}

/// Round trip: the cell under the corner pixel of a cell is that cell, at
/// every admissible scale and every pan offset.
pub proof fn lemma_round_trip(scale: int, translate: (int, int), w: Cell)
    requires
        MIN_SCALE <= scale <= MAX_SCALE,
    ensures
        world_of_screen(scale, translate, screen_of_world(scale, translate, w)) == w,
{
    lemma_trunc_div_of_multiple(w.0, scale);
    lemma_trunc_div_of_multiple(w.1, scale);
}

/// Different cells have different corner pixels.
pub proof fn lemma_corners_differ(scale: int, translate: (int, int), a: Cell, b: Cell)
    requires
        scale >= 1,
        a != b,
    ensures
        screen_of_world(scale, translate, a) != screen_of_world(scale, translate, b),
{
    if a.0 != b.0 {
        assert(a.0 * scale != b.0 * scale) by (nonlinear_arith)
            requires
                a.0 != b.0,
                scale >= 1,
        ;
    } else {
        assert(a.1 * scale != b.1 * scale) by (nonlinear_arith)
            requires
                a.1 != b.1,
                scale >= 1,
        ;
    }
}

/// A zoom scale: the edge of a cell in pixels, always an admissible one.
#[derive(Clone, Copy, Debug)]
pub struct Scale {
    pixels: i32,
}

impl View for Scale {
    type V = int;

    closed spec fn view(&self) -> int {
        self.pixels as int
    }
}

impl Scale {
    /// Whether the scale is an admissible one, as every `Scale` is.
    #[verifier::type_invariant]
    pub open spec fn admissible(self) -> bool {
        MIN_SCALE <= self@ <= MAX_SCALE
    }

    /// The admissible scale nearest to `z`.
    pub fn clamped(z: i64) -> (scale: Scale)
        ensures
            scale@ == clamp_scale(z as int),
    {
        if z < 1 {
            Scale { pixels: MIN_SCALE }
        } else if z > 8 {
            Scale { pixels: MAX_SCALE }
        } else {
            Scale { pixels: z as i32 }
        }
    }

    /// The edge of a cell in pixels.
    pub fn pixels(&self) -> (pixels: i32)
        ensures
            pixels == self@,
            MIN_SCALE <= pixels <= MAX_SCALE,
    {
        proof {
            use_type_invariant(self);
        }
        self.pixels
    }
}

/// The cell under the pixel `p`, in wide integers: every pixel has one,
/// though not every one lies in the lattice.
pub fn cell_under(scale: Scale, translate: (i32, i32), p: (i32, i32)) -> (w: (i64, i64))
    ensures
        (w.0 as int, w.1 as int) == world_of_screen(
            scale@,
            (translate.0 as int, translate.1 as int),
            (p.0 as int, p.1 as int),
        ),
{
    let s: i64 = scale.pixels() as i64;
    ((p.0 as i64 - translate.0 as i64) / s, (p.1 as i64 - translate.1 as i64) / s)
}

/// The corner pixel of the cell `w`, in wide integers: every cell has one,
/// though not every one is on the canvas.
pub fn corner_of(scale: Scale, translate: (i32, i32), w: (i32, i32)) -> (p: (i64, i64))
    ensures
        (p.0 as int, p.1 as int) == screen_of_world(
            scale@,
            (translate.0 as int, translate.1 as int),
            (w.0 as int, w.1 as int),
        ),
{
    let s: i64 = scale.pixels() as i64;
    assert(-0x4_0000_0000 <= w.0 * s <= 0x4_0000_0000 && -0x4_0000_0000 <= w.1 * s
        <= 0x4_0000_0000) by (nonlinear_arith)
        requires
            1 <= s <= 8,
            -0x8000_0000 <= w.0 <= 0x7fff_ffff,
            -0x8000_0000 <= w.1 <= 0x7fff_ffff,
    ;
    (w.0 as i64 * s + translate.0 as i64, w.1 as i64 * s + translate.1 as i64)
}

} // verus!
