use vstd::prelude::*;

verus! {

/// The drawable area of the indicator, in whole pixels.
#[derive(Clone, Copy, Debug, PartialEq, Eq, Structural)]
pub struct Size {
    pub width: u32,
    pub height: u32,
}

/// An axis-aligned rectangle on the pixel grid, given by its top left
/// corner and its extent. A bar that is taller than the area it is centred
/// in starts above that area, so `y` may be negative.
#[derive(Clone, Copy, Debug, PartialEq, Eq, Structural)]
pub struct Rect {
    pub x: u64,
    pub y: i64,
    pub width: u64,
    pub height: u64,
}

/// A colour with eight bits for each of red, green, blue and opacity.
#[derive(Clone, Copy, Debug, PartialEq, Eq, Structural)]
pub struct Color {
    pub r: u8,
    pub g: u8,
    pub b: u8,
    pub a: u8,
}

/// One rectangle to fill with one colour.
#[derive(Clone, Copy, Debug, PartialEq, Eq, Structural)]
pub struct Fill {
    pub rect: Rect,
    pub color: Color,
}

/// `extent * part / whole`, rounded down to the pixel grid.
pub open spec fn scaled(extent: int, part: int, whole: int) -> int {
    (extent * part) / whole
}

/// Where something of size `inner` starts when it is centred in `outer`:
/// half of what is left over, rounded down to the pixel grid.
pub open spec fn centered(outer: int, inner: int) -> int {
    (outer - inner) / 2
}

/// A centred span leaves the same room on both sides, but for at most one
/// pixel more at its end; one that fits starts and ends inside.
pub proof fn lemma_centered_balanced(outer: int, inner: int)
    ensures
        2 * centered(outer, inner) <= outer - inner <= 2 * centered(outer, inner) + 1,
        0 <= inner <= outer ==> 0 <= centered(outer, inner) && centered(outer, inner) + inner
            <= outer,
{
}

/// What tells `scaled` apart from every other integer: it is the
/// largest one that is not above the exact quotient.
pub proof fn lemma_scaled_floor(extent: int, part: int, whole: int)
    requires
        0 < whole,
    ensures
        whole * scaled(extent, part, whole) <= extent * part,
        extent * part < whole * (scaled(extent, part, whole) + 1),
{
    let p: int = extent * part;
    vstd::arithmetic::div_mod::lemma_fundamental_div_mod(p, whole);
    vstd::arithmetic::div_mod::lemma_mod_bound(p, whole);
    assert(whole * (p / whole + 1) == whole * (p / whole) + whole) by (nonlinear_arith);
}

/// Scaling by a part of a whole gives nothing negative and stays within
/// the extent; the whole gives the extent itself, and no part gives zero.
pub proof fn lemma_scaled_bounds(extent: int, part: int, whole: int)
    requires
        0 <= extent,
        0 <= part,
        0 < whole,
    ensures
        0 <= scaled(extent, part, whole) <= extent * part,
        part <= whole ==> scaled(extent, part, whole) <= extent,
        part == whole ==> scaled(extent, part, whole) == extent,
        part == 0 ==> scaled(extent, part, whole) == 0,
{
    let p: int = extent * part;
    assert(0 <= p) by (nonlinear_arith)
        requires
            p == extent * part,
            0 <= extent,
            0 <= part,
    ;
    vstd::arithmetic::div_mod::lemma_fundamental_div_mod(p, whole);
    vstd::arithmetic::div_mod::lemma_mod_bound(p, whole);
    let q: int = p / whole;
    assert(0 <= q <= p) by (nonlinear_arith)
        requires
            0 < whole,
            0 <= p,
            p == whole * q + p % whole,
            0 <= p % whole < whole,
    ;
    if part <= whole {
        assert(p <= extent * whole) by (nonlinear_arith)
            requires
                p == extent * part,
                0 <= extent,
                part <= whole,
        ;
        assert(q <= extent) by (nonlinear_arith)
            requires
                0 < whole,
                p <= extent * whole,
                p == whole * q + p % whole,
                0 <= p % whole,
        ;
    }
    if part == whole {
        assert(q >= extent) by (nonlinear_arith)
            requires
                0 < whole,
                p == extent * whole,
                p == whole * q + p % whole,
                p % whole < whole,
        ;
    }
    if part == 0 {
        assert(p == 0) by (nonlinear_arith)
            requires
                p == extent * part,
                part == 0,
        ;
    }
}

impl Size {
    /// Whether the point lies inside the area: the left and top edges
    /// belong to it, the right and bottom edges do not.
    pub open spec fn covers(self, x: int, y: int) -> bool {
        0 <= x < self.width && 0 <= y < self.height
    }

    /// Whether the point `(x, y)` lies inside the area.
    pub fn contains(&self, x: i32, y: i32) -> (inside: bool)
        ensures
            inside == self.covers(x as int, y as int),
    {
        0 <= x && (x as i64) < (self.width as i64) && 0 <= y && (y as i64) < (self.height as i64)
    }
}

impl Color {
    /// A colour from its four channels.
    pub fn rgba8(r: u8, g: u8, b: u8, a: u8) -> (c: Color)
        ensures
            c == (Color { r, g, b, a }),
    {
        Color { r, g, b, a }
    }

    /// The same colour with another opacity.
    pub fn with_alpha(self, a: u8) -> (c: Color)
        ensures
            c == (Color { a, ..self }),
    {
        Color { r: self.r, g: self.g, b: self.b, a }
    }
}

/// `extent * part / whole` rounded down, computed without overflow.
pub fn scale(extent: u32, part: u32, whole: u32) -> (r: u64)
    requires
        whole > 0,
    ensures
        r == scaled(extent as int, part as int, whole as int),
{
    proof {
        assert(0 <= extent * part <= 0xffff_ffff * 0xffff_ffff) by (nonlinear_arith)
            requires
                0 <= extent <= 0xffff_ffff,
                0 <= part <= 0xffff_ffff,
        ;
    }
    (extent as u64) * (part as u64) / (whole as u64)
}

/// Where a span of `inner` pixels starts when centred in `outer` pixels.
pub fn center(outer: u32, inner: u32) -> (offset: i64)
    ensures
        offset == centered(outer as int, inner as int),
{
    let outer: i64 = outer as i64;
    let inner: i64 = inner as i64;
    if outer >= inner {
        (outer - inner) / 2
    } else {
        -((inner - outer + 1) / 2)
    }
}

} // verus!
