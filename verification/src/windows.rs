use vstd::prelude::*;

mod buffer;
mod empty;
mod linenumbers;
mod tabs;

pub use buffer::spec_moved_cursor;
pub use buffer::Buffer;
pub use empty::Empty;
pub use linenumbers::spec_gutter_label;
pub use linenumbers::LineNumbers;
pub use tabs::spec_tab_tail;
pub use tabs::Tabs;

use crate::content::StyledContent;
use crate::error::UiError;
use crate::input::KeyCode;
use crate::input::KeyModifiers;
use crate::rect::Rect;
use crate::style::Style;
use crate::window::Window;
use crate::window::WindowInfo;
use crate::AppState;
use crate::AppStateView;

verus! {

/// The closed set of pane variants the orchestrator composes, dispatched by
/// pattern match.
#[derive(Debug)]
pub enum WindowKind {
    Empty(Empty),
    LineNumbers(LineNumbers),
    Tabs(Tabs),
    Buffer(Buffer),
}

impl Window for WindowKind {
    open spec fn spec_info(&self) -> WindowInfo {
        match self {
            WindowKind::Empty(w) => w.spec_info(),
            WindowKind::LineNumbers(w) => w.spec_info(),
            WindowKind::Tabs(w) => w.spec_info(),
            WindowKind::Buffer(w) => w.spec_info(),
        }
    }

    open spec fn spec_bounds(&self) -> Rect {
        match self {
            WindowKind::Empty(w) => w.spec_bounds(),
            WindowKind::LineNumbers(w) => w.spec_bounds(),
            WindowKind::Tabs(w) => w.spec_bounds(),
            WindowKind::Buffer(w) => w.spec_bounds(),
        }
    }

    /// Dispatches the broadcast relation to the variant's own: the variant
    /// survives and its payload follows its pane's rule.
    open spec fn spec_after_update(pre: Self, state: AppStateView, post: Self) -> bool {
        match pre {
            WindowKind::Empty(a) => post matches WindowKind::Empty(b) && Empty::spec_after_update(
                a,
                state,
                b,
            ),
            WindowKind::LineNumbers(a) => post matches WindowKind::LineNumbers(b)
                && LineNumbers::spec_after_update(a, state, b),
            WindowKind::Tabs(a) => post matches WindowKind::Tabs(b) && Tabs::spec_after_update(
                a,
                state,
                b,
            ),
            WindowKind::Buffer(a) => post matches WindowKind::Buffer(b)
                && Buffer::spec_after_update(a, state, b),
        }
    }

    /// Dispatches the input relation to the variant's own: the variant
    /// survives and its payload and the state follow its pane's rule.
    open spec fn spec_after_input(
        pre: Self,
        state: AppStateView,
        code: KeyCode,
        modifiers: KeyModifiers,
        post: Self,
        state_after: AppStateView,
        outcome: Result<(), UiError>,
    ) -> bool {
        match pre {
            WindowKind::Empty(a) => post matches WindowKind::Empty(b) && Empty::spec_after_input(
                a,
                state,
                code,
                modifiers,
                b,
                state_after,
                outcome,
            ),
            WindowKind::LineNumbers(a) => post matches WindowKind::LineNumbers(b)
                && LineNumbers::spec_after_input(a, state, code, modifiers, b, state_after, outcome),
            WindowKind::Tabs(a) => post matches WindowKind::Tabs(b) && Tabs::spec_after_input(
                a,
                state,
                code,
                modifiers,
                b,
                state_after,
                outcome,
            ),
            WindowKind::Buffer(a) => post matches WindowKind::Buffer(b) && Buffer::spec_after_input(
                a,
                state,
                code,
                modifiers,
                b,
                state_after,
                outcome,
            ),
        }
    }

    fn info(&self) -> (r: WindowInfo) {
        match self {
            WindowKind::Empty(w) => w.info(),
            WindowKind::LineNumbers(w) => w.info(),
            WindowKind::Tabs(w) => w.info(),
            WindowKind::Buffer(w) => w.info(),
        }
    }

    fn lines(&self) -> (r: Vec<StyledContent>) {
        match self {
            WindowKind::Empty(w) => w.lines(),
            WindowKind::LineNumbers(w) => w.lines(),
            WindowKind::Tabs(w) => w.lines(),
            WindowKind::Buffer(w) => w.lines(),
        }
    }

    fn get_bounds(&self) -> (r: Rect) {
        match self {
            WindowKind::Empty(w) => w.get_bounds(),
            WindowKind::LineNumbers(w) => w.get_bounds(),
            WindowKind::Tabs(w) => w.get_bounds(),
            WindowKind::Buffer(w) => w.get_bounds(),
        }
    }

    fn set_bounds(&mut self, new_bounds: Rect) {
        match self {
            WindowKind::Empty(w) => w.set_bounds(new_bounds),
            WindowKind::LineNumbers(w) => w.set_bounds(new_bounds),
            WindowKind::Tabs(w) => w.set_bounds(new_bounds),
            WindowKind::Buffer(w) => w.set_bounds(new_bounds),
        }
    }

    fn title(&self) -> (r: String) {
        match self {
            WindowKind::Empty(w) => w.title(),
            WindowKind::LineNumbers(w) => w.title(),
            WindowKind::Tabs(w) => w.title(),
            WindowKind::Buffer(w) => w.title(),
        }
    }

    fn title_style(&self) -> (r: Option<Style>) {
        match self {
            WindowKind::Empty(w) => w.title_style(),
            WindowKind::LineNumbers(w) => w.title_style(),
            WindowKind::Tabs(w) => w.title_style(),
            WindowKind::Buffer(w) => w.title_style(),
        }
    }

    fn handle_input(&mut self, state: &mut AppState, code: KeyCode, modifiers: KeyModifiers) -> (r:
        Result<(), UiError>) {
        match self {
            WindowKind::Empty(w) => w.handle_input(state, code, modifiers),
            WindowKind::LineNumbers(w) => w.handle_input(state, code, modifiers),
            WindowKind::Tabs(w) => w.handle_input(state, code, modifiers),
            WindowKind::Buffer(w) => w.handle_input(state, code, modifiers),
        }
    }

    fn update_state(&mut self, new_state: &AppState) {
        match self {
            WindowKind::Empty(w) => w.update_state(new_state),
            WindowKind::LineNumbers(w) => w.update_state(new_state),
            WindowKind::Tabs(w) => w.update_state(new_state),
            WindowKind::Buffer(w) => w.update_state(new_state),
        }
    }
}

} // verus!
