use vstd::prelude::*;

use crate::content::StyledContent;
use crate::error::UiError;
use crate::input::KeyCode;
use crate::input::KeyModifiers;
use crate::rect::Rect;
use crate::style::Style;
use crate::AppState;
use crate::AppStateView;

verus! {

/// The order in which a `Fill` window derives its two dimensions from the
/// nearest obstructions.
#[derive(Debug, Clone, Copy, PartialEq, Eq, Structural)]
pub enum FillMode {
    /// Width first, then height using that width.
    FillHFirst,
    /// Height first, then width using that height.
    FillVFirst,
    /// Both orders, keeping whichever yields the larger area.
    MaxArea,
}

/// How a window is sized: explicitly, or by growing towards the nearest
/// already-placed obstruction.
#[derive(Debug, Clone, Copy, PartialEq, Eq, Structural)]
pub enum WindowMode {
    Bounds { width: u16, height: u16 },
    FillH { height: u16 },
    FillV { width: u16 },
    Fill(FillMode),
}

/// Where a window's origin comes from: a fixed point, or a scan over
/// unclaimed terminal cells.
#[derive(Debug, Clone, Copy, PartialEq, Eq, Structural)]
pub enum WindowRoot {
    Point { x: u16, y: u16 },
    Floating(WindowAlignment),
}

/// Which end of the terminal a floating origin scan starts from.
#[derive(Debug, Clone, Copy, PartialEq, Eq, Structural)]
pub enum WindowAlignment {
    Top,
    Bottom,
}

/// A pane's declarative placement request: origin strategy, sizing mode, and
/// whether the pane can take input focus. Set at pane construction and never
/// changed afterwards.
#[derive(Debug, Clone, Copy, PartialEq, Eq, Structural)]
pub struct WindowInfo {
    pub root: WindowRoot,
    pub mode: WindowMode,
    pub selectable: bool,
}

impl WindowInfo {
    /// The baseline request: floating at the top, filling width first, not
    /// selectable.
    pub fn new() -> (r: WindowInfo)
        ensures
            r == (WindowInfo {
                root: WindowRoot::Floating(WindowAlignment::Top),
                mode: WindowMode::Fill(FillMode::FillHFirst),
                selectable: false,
            }),
    {
        WindowInfo {
            root: WindowRoot::Floating(WindowAlignment::Top),
            mode: WindowMode::Fill(FillMode::FillHFirst),
            selectable: false,
        }
    }

    /// Same request anchored at a fixed origin.
    pub fn origin(self, x: u16, y: u16) -> (r: WindowInfo)
        ensures
            r == (WindowInfo { root: WindowRoot::Point { x, y }, ..self }),
    {
        WindowInfo { root: WindowRoot::Point { x, y }, ..self }
    }

    /// Same request with an explicit size.
    pub fn bounds(self, width: u16, height: u16) -> (r: WindowInfo)
        ensures
            r == (WindowInfo { mode: WindowMode::Bounds { width, height }, ..self }),
    {
        WindowInfo { mode: WindowMode::Bounds { width, height }, ..self }
    }

    /// Same request floating with the given alignment.
    pub fn align(self, alignment: WindowAlignment) -> (r: WindowInfo)
        ensures
            r == (WindowInfo { root: WindowRoot::Floating(alignment), ..self }),
    {
        WindowInfo { root: WindowRoot::Floating(alignment), ..self }
    }

    /// Same request filling the available width at a fixed height.
    pub fn fill_horizontal(self, height: u16) -> (r: WindowInfo)
        ensures
            r == (WindowInfo { mode: WindowMode::FillH { height }, ..self }),
    {
        WindowInfo { mode: WindowMode::FillH { height }, ..self }
    }

    /// Same request filling the available height at a fixed width.
    pub fn fill_vertical(self, width: u16) -> (r: WindowInfo)
        ensures
            r == (WindowInfo { mode: WindowMode::FillV { width }, ..self }),
    {
        WindowInfo { mode: WindowMode::FillV { width }, ..self }
    }

    /// Same request filling both dimensions, width first.
    pub fn fill(self) -> (r: WindowInfo)
        ensures
            r == (WindowInfo { mode: WindowMode::Fill(FillMode::FillHFirst), ..self }),
    {
        WindowInfo { mode: WindowMode::Fill(FillMode::FillHFirst), ..self }
    }

    /// Same request, able to take input focus.
    pub fn selectable(self) -> (r: WindowInfo)
        ensures
            r == (WindowInfo { selectable: true, ..self }),
    {
        WindowInfo { selectable: true, ..self }
    }
}

/// The capability every concrete pane offers the orchestrator. A pane's
/// placement request never changes after construction; its bounds are
/// written only by the layout solver through `set_bounds`; `lines` is
/// recomputed fresh on every draw and may yield more or fewer rows than the
/// pane's height — the renderer clips the excess and leaves the shortfall
/// blank.
pub trait Window: Sized {
    /// The pane's placement request as currently reported (a pane may force
    /// `selectable` on top of what it stores).
    spec fn spec_info(&self) -> WindowInfo;

    /// The rectangle the layout solver last assigned.
    spec fn spec_bounds(&self) -> Rect;

    fn info(&self) -> (r: WindowInfo)
        ensures
            r == self.spec_info(),
    ;

    fn lines(&self) -> (r: Vec<StyledContent>)
        ensures
            forall|i: int| 0 <= i < r@.len() ==> (#[trigger] r@[i]).wf(),
    ;

    fn get_bounds(&self) -> (r: Rect)
        ensures
            r == self.spec_bounds(),
    ;

    fn set_bounds(&mut self, new_bounds: Rect)
        ensures
            final(self).spec_bounds() == new_bounds,
            final(self).spec_info() == old(self).spec_info(),
    ;

    /// The pane's title row; empty where the pane has none.
    fn title(&self) -> (r: String);

    /// The style the title is drawn with; the default where the pane has no
    /// preference.
    fn title_style(&self) -> (r: Option<Style>);

    /// What one input delivery does: how the pane's value after, the shared
    /// state after (by view) and the outcome relate to the pane and state
    /// before. Each pane defines this; `handle_input` is held to it.
    spec fn spec_after_input(
        pre: Self,
        state: AppStateView,
        code: KeyCode,
        modifiers: KeyModifiers,
        post: Self,
        state_after: AppStateView,
        outcome: Result<(), UiError>,
    ) -> bool;

    /// What one state broadcast does: how the pane's value after relates to
    /// its value before and the broadcast state (by view). Each pane defines
    /// this; `update_state` is held to it.
    spec fn spec_after_update(pre: Self, state: AppStateView, post: Self) -> bool;

    /// One input event, delivered only while this pane is selected. The
    /// shared state is checked out by value to the pane and checked back in
    /// by the orchestrator. The pane's placement request and bounds survive,
    /// and the delivery does to pane and state exactly what the pane's
    /// `spec_after_input` says.
    fn handle_input(&mut self, state: &mut AppState, code: KeyCode, modifiers: KeyModifiers) -> (r:
        Result<(), UiError>)
        ensures
            final(self).spec_info() == old(self).spec_info(),
            final(self).spec_bounds() == old(self).spec_bounds(),
            Self::spec_after_input(
                *old(self),
                old(state)@,
                code,
                modifiers,
                *final(self),
                final(state)@,
                r,
            ),
    ;

    /// The per-cycle state broadcast, received by every pane whether
    /// selected or not. The pane's placement request and bounds survive, and
    /// the broadcast does to the pane exactly what its `spec_after_update`
    /// says.
    fn update_state(&mut self, new_state: &AppState)
        ensures
            final(self).spec_info() == old(self).spec_info(),
            final(self).spec_bounds() == old(self).spec_bounds(),
            Self::spec_after_update(*old(self), new_state@, *final(self)),
    ;
}

} // verus!
