//! Where a bar stands on its output.

use vstd::prelude::*;

verus! {

/// The width of a bar, in points.
pub const BAR_WIDTH: u32 = 40;

/// The edges of the output that a bar is tied to.
#[derive(Clone, Copy, Debug, PartialEq, Eq, Structural)]
pub struct Edges {
    pub top: bool,
    pub bottom: bool,
    pub left: bool,
    pub right: bool,
}

/// What a bar's layer surface asks of the compositor.
pub struct LayerOptions {
    pub namespace: &'static str,
    pub anchor: Edges,
    /// The size in points. Zero leaves a dimension to the compositor.
    pub size: (u32, u32),
    /// The points at the anchored edge that other windows stay clear of.
    pub exclusive_zone: i32,
    /// Whether the bar can be given the keyboard.
    pub keyboard_on_demand: bool,
}

impl LayerOptions {
    /// The bar takes up its output's whole height on the edges that it is tied
    /// to, and keeps as much space clear as it takes.
    pub open spec fn is_full_height_bar(self) -> bool {
        &&& self.anchor.top
        &&& self.anchor.bottom
        &&& self.size == (BAR_WIDTH, 0u32)
        &&& self.exclusive_zone == BAR_WIDTH
    }

    /// A bar along the left edge.
    pub fn left_bar() -> (options: Self)
        ensures
            options.is_full_height_bar(),
            options.anchor.left,
            !options.anchor.right,
            options.keyboard_on_demand,
            options.namespace@ == "desktop_things"@,
    {
        LayerOptions {
            namespace: "desktop_things",
            anchor: Edges { top: true, bottom: true, left: true, right: false },
            size: (BAR_WIDTH, 0),
            exclusive_zone: BAR_WIDTH as i32,
            keyboard_on_demand: true,
        }
    }

    /// A bar along the right edge.
    pub fn right_bar() -> (options: Self)
        ensures
            options.is_full_height_bar(),
            options.anchor.right,
            !options.anchor.left,
            !options.keyboard_on_demand,
            options.namespace@ == "desktop-things"@,
    {
        LayerOptions {
            namespace: "desktop-things",
            anchor: Edges { top: true, bottom: true, left: false, right: true },
            size: (BAR_WIDTH, 0),
            exclusive_zone: BAR_WIDTH as i32,
            keyboard_on_demand: false,
        }
    }
}

} // verus!
