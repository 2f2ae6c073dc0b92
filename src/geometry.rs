//! Plain-value geometry shared by the command model and replay.
//!
//! Every number a script hands over is carried as a count of thousandths
//! (a "unit"), so that positions, sizes, colour channels and text scales
//! stay exact integers from the script down to the renderer.
use vstd::prelude::*;

verus! {

/// How many units make one whole script number (one pixel, or one full channel).
pub const UNITS_PER_ONE: i32 = 1000;

/// A position or offset, in units.
#[derive(Clone, Copy, Debug, PartialEq, Eq, Structural)]
pub struct Vec2 {
    pub x: i32,
    pub y: i32,
}

/// A rectangle given by its top-left corner and its width and height, in units.
/// A negative width or height makes a degenerate (empty) rectangle.
#[derive(Clone, Copy, Debug, PartialEq, Eq, Structural)]
pub struct Rect {
    pub x: i32,
    pub y: i32,
    pub w: i32,
    pub h: i32,
}

/// An absolute position on the surface, in units.
#[derive(Clone, Copy, Debug, PartialEq, Eq, Structural)]
pub struct Point {
    pub x: i64,
    pub y: i64,
}

/// Absolute rectangle corners on the surface, in units.
#[derive(Clone, Copy, Debug, PartialEq, Eq, Structural)]
pub struct Bounds {
    pub left: i64,
    pub top: i64,
    pub right: i64,
    pub bottom: i64,
}

/// A surface size in whole pixels.
#[derive(Clone, Copy, Debug, PartialEq, Eq, Structural)]
pub struct Size {
    pub w: u32,
    pub h: u32,
}

/// A colour with red, green, blue and alpha channels in units (1000 is full).
#[derive(Clone, Copy, Debug, PartialEq, Eq, Structural)]
pub struct Color {
    pub r: i32,
    pub g: i32,
    pub b: i32,
    pub a: i32,
}

impl Color {
    pub open spec fn spec_white() -> Color {
        Color { r: 1000, g: 1000, b: 1000, a: 1000 }
    }

    pub open spec fn spec_black() -> Color {
        Color { r: 0, g: 0, b: 0, a: 1000 }
    }

    /// Opaque white.
    #[verifier::when_used_as_spec(spec_white)]
    pub fn white() -> (c: Color)
        ensures
            c == Color::spec_white(),
    {
        Color { r: UNITS_PER_ONE, g: UNITS_PER_ONE, b: UNITS_PER_ONE, a: UNITS_PER_ONE }
    }

    /// Opaque black.
    #[verifier::when_used_as_spec(spec_black)]
    pub fn black() -> (c: Color)
        ensures
            c == Color::spec_black(),
    {
        Color { r: 0, g: 0, b: 0, a: UNITS_PER_ONE }
    }
}

impl Rect {
    /// The rectangle with top-left corner `(x, y)` and the given width and height.
    pub fn from_corner_size(x: i32, y: i32, w: i32, h: i32) -> (r: Rect)
        ensures
            r == (Rect { x, y, w, h }),
    {
        Rect { x, y, w, h }
    }

}

/// The white tint of the given alpha.
pub fn white_with_alpha(a: i32) -> (c: Color)
    ensures
        c == (Color { r: 1000, g: 1000, b: 1000, a }),
{
    Color { r: UNITS_PER_ONE, g: UNITS_PER_ONE, b: UNITS_PER_ONE, a }
}

/// The whole pixels in a script number, as an unsigned surface dimension:
/// the fraction is dropped and negative numbers become zero.
pub open spec fn spec_pixels_of(units: i32) -> u32 {
    if units < 0 {
        0
    } else {
        (units / 1000) as u32
    }
}

#[verifier::when_used_as_spec(spec_pixels_of)]
pub fn pixels_of(units: i32) -> (r: u32)
    ensures
        r == spec_pixels_of(units),
{
    if units < 0 {
        0
    } else {
        (units / UNITS_PER_ONE) as u32
    }
}

} // verus!
