use vstd::prelude::*;

use crate::style::Style;

verus! {

/// What the driving strategy asks for after one loop cycle.
#[derive(Debug, Clone, Copy, PartialEq, Eq, Structural)]
pub enum Event {
    /// Redraw with the current layout.
    Draw,
    /// Recompute the layout, then redraw.
    RecalculateUI,
    /// Do nothing this cycle.
    Sleep,
    /// Leave the run loop and tear down.
    Exit,
}

/// One step of a rendered frame, for the hosting application to replay onto
/// its terminal: position the cursor, print a styled run, or clear the
/// screen.
#[derive(Debug)]
pub enum DrawCommand {
    ClearAll,
    MoveTo(u16, u16),
    Print { text: String, style: Style },
}

} // verus!
