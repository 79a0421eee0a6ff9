//! Integer geometry in physical pixels.

use vstd::prelude::*;

verus! {

/// A width and a height.
#[derive(Clone, Copy, Debug, PartialEq, Eq, Structural)]
pub struct Size {
    pub w: i32,
    pub h: i32,
}

/// A position.
#[derive(Clone, Copy, Debug, PartialEq, Eq, Structural)]
pub struct Point {
    pub x: i32,
    pub y: i32,
}

/// A position and a size.
#[derive(Clone, Copy, Debug, PartialEq, Eq, Structural)]
pub struct Rectangle {
    pub loc: Point,
    pub size: Size,
}

/// How an output's content is turned and mirrored on its way to the screen.
#[derive(Clone, Copy, Debug, PartialEq, Eq, Structural)]
pub enum Transform {
    Normal,
    Rotated90,
    Rotated180,
    Rotated270,
    Flipped,
    Flipped90,
    Flipped180,
    Flipped270,
}

impl Transform {
    /// Whether the transform swaps width and height.
    pub open spec fn swaps_axes(self) -> bool {
        self is Rotated90 || self is Rotated270 || self is Flipped90 || self is Flipped270
    }

    /// The size of `size` once transformed.
    pub open spec fn transformed(self, size: Size) -> Size {
        if self.swaps_axes() {
            Size { w: size.h, h: size.w }
        } else {
            size
        }
    }

    /// The size of an area once this transform has been applied to it.
    pub fn transform_size(&self, size: Size) -> (transformed: Size)
        ensures
            transformed == self.transformed(size),
    {
        match *self {
            Transform::Rotated90
            | Transform::Rotated270
            | Transform::Flipped90
            | Transform::Flipped270 => Size { w: size.h, h: size.w },
            _ => size,
        }
    }
}

} // verus!
