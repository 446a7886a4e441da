use vstd::prelude::*;

use crate::content::StyledContent;
use crate::error::UiError;
use crate::input::KeyCode;
use crate::input::KeyModifiers;
use crate::rect::Rect;
use crate::style::Color;
use crate::style::Style;
use crate::window::Window;
use crate::window::WindowInfo;
use crate::AppState;
use crate::AppStateView;

verus! {

/// A placeholder pane: a titled, empty frame reserving its place in the
/// layout.
#[derive(Debug)]
pub struct Empty {
    title: String,
    info: WindowInfo,
    bounds: Option<Rect>,
}

impl Empty {
    /// The pane's title text.
    pub closed spec fn spec_title(&self) -> Seq<char> {
        self.title@
    }

    pub fn new(info: WindowInfo, title: String) -> (r: Empty)
        ensures
            r.spec_info() == info,
            r.spec_bounds() == Rect::spec_default(),
            r.spec_title() == title@,
    {
        Empty { info, title, bounds: None }
    }
}

impl Window for Empty {
    closed spec fn spec_info(&self) -> WindowInfo {
        self.info
    }

    closed spec fn spec_bounds(&self) -> Rect {
        match self.bounds {
            Some(r) => r,
            None => Rect::spec_default(),
        }
    }

    /// The broadcast leaves this pane unchanged.
    closed spec fn spec_after_update(pre: Self, state: AppStateView, post: Self) -> bool {
        post == pre
    }

    /// Input is a no-op for this pane: nothing changes and it succeeds.
    closed spec fn spec_after_input(
        pre: Self,
        state: AppStateView,
        code: KeyCode,
        modifiers: KeyModifiers,
        post: Self,
        state_after: AppStateView,
        outcome: Result<(), UiError>,
    ) -> bool {
        &&& post == pre
        &&& state_after == state
        &&& outcome is Ok
    }

    fn info(&self) -> (r: WindowInfo) {
        self.info
    }

    fn lines(&self) -> (r: Vec<StyledContent>) {
        Vec::new()
    }

    fn get_bounds(&self) -> (r: Rect) {
        match self.bounds {
            Some(r) => r,
            None => Rect::new(0, 0, 0, 0),
        }
    }

    fn set_bounds(&mut self, new_bounds: Rect) {
        self.bounds = Some(new_bounds);
    }

    fn title(&self) -> (r: String) {
        self.title.clone()
    }

    fn title_style(&self) -> (r: Option<Style>) {
        Some(Style::default().with(Color::Blue).bold())
    }

    fn handle_input(&mut self, state: &mut AppState, code: KeyCode, modifiers: KeyModifiers) -> (r:
        Result<(), UiError>) {
        Ok(())
    }

    fn update_state(&mut self, new_state: &AppState) {
    }
}

} // verus!
