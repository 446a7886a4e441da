use vstd::prelude::*;

verus! {

/// The recoverable failures of the orchestrator. Structural violations —
/// an empty window list, every window hidden, a layout scan that finds no
/// room, a selection scan that finds no candidate — surface as values here
/// before a frame is committed, rather than aborting mid-frame.
#[derive(Debug, Clone, Copy, PartialEq, Eq, Structural)]
pub enum UiError {
    /// The window list is empty.
    NoWindows,
    /// Every window is hidden.
    AllWindowsHidden,
    /// No visible window is selectable.
    NoSelectableWindow,
    /// The layout solver found no admissible placement.
    LayoutInfeasible,
}

} // verus!
