//! The pointer and the two buttons of the menus.

use vstd::prelude::*;

verus! {

/// An upright rectangle on the screen, in pixels.
#[derive(Clone, Copy, Debug, PartialEq, Eq, Structural)]
pub struct Rect {
    pub x: i32,
    pub y: i32,
    pub width: i32,
    pub height: i32,
}

impl Rect {
    /// Whether the pixel lies in the rectangle: its left and upper edge
    /// belong to it, its right and lower edge do not.
    pub open spec fn contains(self, x: int, y: int) -> bool {
        &&& self.x <= x < self.x + self.width
        &&& self.y <= y < self.y + self.height
    }

    /// Tells whether the pixel lies in the rectangle.
    pub fn contains_point(&self, x: i32, y: i32) -> (inside: bool)
        ensures
            inside == self.contains(x as int, y as int),
    {
        let right: i64 = self.x as i64 + self.width as i64;
        let bottom: i64 = self.y as i64 + self.height as i64;
        self.x <= x && (x as i64) < right && self.y <= y && (y as i64) < bottom
    }
}

/// The pointer in one frame.
#[derive(Clone, Copy, Debug, PartialEq, Eq, Structural)]
pub struct Pointer {
    /// The pixel it points at.
    pub x: i32,
    pub y: i32,
    /// Whether its button is held down.
    pub pressed: bool,
}

/// Where the play button is on the screen.
pub open spec fn play_button_area() -> Rect {
    Rect { x: 100, y: 310, width: 162, height: 90 }
}

/// Where the quit button is on the screen.
pub open spec fn quit_button_area() -> Rect {
    Rect { x: 378, y: 310, width: 162, height: 90 }
}

/// Where the play button is on the screen.
pub fn play_button() -> (r: Rect)
    ensures
        r == play_button_area(),
{
    Rect { x: 100, y: 310, width: 162, height: 90 }
}

/// Where the quit button is on the screen.
pub fn quit_button() -> (r: Rect)
    ensures
        r == quit_button_area(),
{
    Rect { x: 378, y: 310, width: 162, height: 90 }
}

/// Whether the pointer clicks the button: its button is held down while
/// it points into the rectangle. A button held down clicks in every frame.
pub open spec fn clicks(pointer: Pointer, button: Rect) -> bool {
    pointer.pressed && button.contains(pointer.x as int, pointer.y as int)
}

/// Tells whether the pointer clicks the button.
pub fn is_clicked(pointer: Pointer, button: Rect) -> (clicked: bool)
    ensures
        clicked == clicks(pointer, button),
{
    pointer.pressed && button.contains_point(pointer.x, pointer.y)
}

} // verus!
