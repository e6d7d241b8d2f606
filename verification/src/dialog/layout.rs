//! Layout metrics of the classic dialogs: button size and spacing, and the
//! insets from the frame.
use vstd::prelude::*;
use crate::view::geometry::Point;

verus! {

/// The standard button: 10 columns by 2 rows (the second row is its shadow).
pub fn std_button() -> (p: Point)
    ensures
        p == (Point { x: 10, y: 2 }),
{
    Point { x: 10, y: 2 }
}

/// Cells between adjacent buttons in a button row.
pub const BUTTON_GAP: i32 = 2;
/// Content inset from the left frame.
pub const MARGIN_LEFT: i32 = 3;
/// Content inset from the right frame.
pub const MARGIN_RIGHT: i32 = 2;
/// Content inset from the top frame.
pub const MARGIN_TOP: i32 = 2;
/// The button row's top edge lies this far above the dialog's bottom.
pub const BUTTON_ROW_FROM_BOTTOM: i32 = 3;

/// How a row of buttons is placed.
#[derive(Clone, Copy, Debug, PartialEq, Eq, Structural)]
pub enum ButtonRowAlign {
    /// Centred (the message-box convention).
    Center,
    /// Grouped to the right, ending `MARGIN_RIGHT` from the frame.
    Right,
}

} // verus!
