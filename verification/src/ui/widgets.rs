//! Widgets that dialogs are built from.

pub mod button;

use vstd::prelude::*;

verus! {

/// Whether the point lies in the rectangle with the given top left corner
/// and size. The right and the bottom edge lie outside.
pub open spec fn in_rect(px: int, py: int, x: int, y: int, width: int, height: int) -> bool {
    x <= px < x + width && y <= py < y + height
}

/// Computes `in_rect`.
pub fn point_in_rect(px: i32, py: i32, x: i32, y: i32, width: u32, height: u32) -> (inside: bool)
    ensures
        inside == in_rect(px as int, py as int, x as int, y as int, width as int, height as int),
{
    let right: i64 = x as i64 + width as i64;
    let bottom: i64 = y as i64 + height as i64;
    px >= x && (px as i64) < right && py >= y && (py as i64) < bottom
}

} // verus!
