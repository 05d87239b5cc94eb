//! Shared value types of the reconciliation core: rectangles, colours and the
//! small closed enums that classify borders, workspaces and stackbars.

use vstd::prelude::*;

verus! {

/// A window rectangle in screen coordinates.
#[derive(Debug, Clone, Copy, PartialEq, Eq, Structural)]
pub struct Rect {
    pub left: i32,
    pub top: i32,
    pub right: i32,
    pub bottom: i32,
}

impl Default for Rect {
    fn default() -> (r: Self)
        ensures
            r.left == 0 && r.top == 0 && r.right == 0 && r.bottom == 0,
    {
        Rect { left: 0, top: 0, right: 0, bottom: 0 }
    }
}

/// How a border is painted.
#[derive(Debug, Clone, Copy, PartialEq, Eq, Structural)]
pub enum BorderStyle {
    System,
    Rounded,
    Square,
}

/// Which mechanism draws focus indicators: dedicated overlay windows, or a
/// native accent colour set directly on the tracked window.
#[derive(Debug, Clone, Copy, PartialEq, Eq, Structural)]
pub enum BorderImplementation {
    Komorebi,
    Windows,
}

/// Which layer of a workspace currently has the user's attention.
#[derive(Debug, Clone, Copy, PartialEq, Eq, Structural)]
pub enum WorkspaceLayer {
    Tiling,
    Floating,
}

/// When a stackbar is drawn for a container.
#[derive(Debug, Clone, Copy, PartialEq, Eq, Structural)]
pub enum StackbarMode {
    Always,
    Never,
    OnStack,
}

/// What a stackbar tab displays.
#[derive(Debug, Clone, Copy, PartialEq, Eq, Structural)]
pub enum StackbarLabel {
    Process,
    Title,
}

/// Relative z-order placement of a window.
#[derive(Debug, Clone, Copy, PartialEq, Eq, Structural)]
pub enum ZOrder {
    Top,
    NoTopMost,
    Bottom,
    TopMost,
}

impl ZOrder {
    /// The native insert-after value that stands for this placement.
    pub fn order_value(self) -> (r: isize)
        ensures
            self is Top ==> r == 0,
            self is NoTopMost ==> r == -2,
            self is Bottom ==> r == 1,
            self is TopMost ==> r == -1,
    {
        match self {
            ZOrder::Top => 0,
            ZOrder::NoTopMost => -2,
            ZOrder::Bottom => 1,
            ZOrder::TopMost => -1,
        }
    }
}

/// An RGB colour with one byte per channel.
#[derive(Debug, Clone, Copy, PartialEq, Eq, Structural)]
pub struct Rgb {
    pub r: u32,
    pub g: u32,
    pub b: u32,
}

/// The packed form of an RGB colour: red in the low byte, then green, then
/// blue, as native colour references expect.
pub open spec fn spec_rgb_u32(r: int, g: int, b: int) -> int {
    r + g * 256 + b * 65536
}

impl Rgb {
    pub fn new(r: u32, g: u32, b: u32) -> (c: Self)
        requires
            r < 256,
            g < 256,
            b < 256,
        ensures
            c.r == r && c.g == g && c.b == b,
    {
        Rgb { r, g, b }
    }

    /// Packs the channels into one colour value.
    pub fn to_u32(self) -> (v: u32)
        requires
            self.r < 256,
            self.g < 256,
            self.b < 256,
        ensures
            v == spec_rgb_u32(self.r as int, self.g as int, self.b as int),
    {
        self.r + self.g * 256 + self.b * 65536
    }
}

/// A configured colour; the core only deals in plain RGB values.
#[derive(Debug, Clone, Copy, PartialEq, Eq, Structural)]
pub enum Colour {
    Rgb(Rgb),
}

impl Colour {
    /// Packs the colour into one native colour value.
    pub fn to_u32(self) -> (v: u32)
        requires
            self matches Colour::Rgb(c) ==> c.r < 256 && c.g < 256 && c.b < 256,
        ensures
            self matches Colour::Rgb(c) ==> v == spec_rgb_u32(c.r as int, c.g as int, c.b as int),
    {
        match self {
            Colour::Rgb(rgb) => rgb.to_u32(),
        }
    }
}

} // verus!
