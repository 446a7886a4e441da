use vstd::prelude::*;
use vstd::string::StringExecFns;

use crate::content::StyledChunk;
use crate::content::StyledContent;
use crate::decimal::decimal_string;
use crate::decimal::spec_decimal;
use crate::error::UiError;
use crate::input::KeyCode;
use crate::input::KeyModifiers;
use crate::rect::Rect;
use crate::style::Color;
use crate::style::Style;
use crate::window::Window;
use crate::window::WindowInfo;
use crate::AppState;
use crate::AppStateView;

verus! {

/// A numeral padded on the left with spaces to at least three columns,
/// followed by a line break: the gutter label for one row.
pub open spec fn spec_gutter_label(n: nat) -> Seq<char> {
    let digits = spec_decimal(n);
    let padded = if digits.len() >= 3 {
        digits
    } else if digits.len() == 2 {
        seq![' '] + digits
    } else {
        seq![' ', ' '] + digits
    };
    padded + seq!['\n']
}

/// The gutter label for one row, as a string.
fn gutter_label(n: u16) -> (r: String)
    ensures
        r@ == spec_gutter_label(n as nat),
{
    proof {
        reveal_strlit(" ");
        reveal_strlit("  ");
        reveal_strlit("\n");
    }

    let digits = decimal_string(n);
    let len = digits.as_str().unicode_len();

    let padded = if len >= 3 {
        digits
    } else if len == 2 {
        let mut s = String::from_str(" ");
        s.append(digits.as_str());
        s
    } else {
        let mut s = String::from_str("  ");
        s.append(digits.as_str());
        s
    };

    let mut r = padded;
    r.append("\n");

    proof {
        assert(r@ =~= spec_gutter_label(n as nat));
    }

    r
}

/// A line-number gutter: one grey label per content row of the pane.
#[derive(Debug)]
pub struct LineNumbers {
    info: WindowInfo,
    bounds: Option<Rect>,
}

impl LineNumbers {
    pub fn new(info: WindowInfo) -> (r: LineNumbers)
        ensures
            r.spec_info() == info,
            r.spec_bounds() == Rect::spec_default(),
    {
        LineNumbers { info, bounds: None }
    }
}

impl LineNumbers {
    /// One grey label per row `1 ..`, one fewer than the pane's height: the
    /// row the title occupies gets none.
    pub fn gutter_rows(&self) -> (r: Vec<StyledContent>)
        ensures
            r@.len() == (if self.spec_bounds().height >= 1 {
                self.spec_bounds().height - 1
            } else {
                0
            }),
            forall|t: int|
                0 <= t < r@.len() ==> (#[trigger] r@[t]).wf() && r@[t].text()
                    == spec_gutter_label((t + 1) as nat) && r@[t].runs() == seq![
                    StyledChunk {
                        start: 0usize,
                        end: spec_gutter_label((t + 1) as nat).len() as usize,
                        style: (Style { fg: Some(Color::Grey), bg: None, bold: false }),
                    },
                ],
    {
        let height = match self.bounds {
            Some(b) => b.height,
            None => 0,
        };

        let mut lines: Vec<StyledContent> = Vec::new();
        let mut i: u16 = 1;

        while i < height
            invariant
                1 <= i <= height || (i == 1 && height == 0),
                lines@.len() == i - 1,
                forall|t: int|
                    0 <= t < lines@.len() ==> (#[trigger] lines@[t]).wf() && lines@[t].text()
                        == spec_gutter_label((t + 1) as nat) && lines@[t].runs() == seq![
                        StyledChunk {
                            start: 0usize,
                            end: spec_gutter_label((t + 1) as nat).len() as usize,
                            style: (Style { fg: Some(Color::Grey), bg: None, bold: false }),
                        },
                    ],
            decreases height - i,
        {
            let label = gutter_label(i);
            lines.push(StyledContent::from_styled(label, Style::default().with(Color::Grey)));

            i = i + 1;
        }

        lines
    }
}

impl Window for LineNumbers {
    closed spec fn spec_info(&self) -> WindowInfo {
        self.info
    }

    closed spec fn spec_bounds(&self) -> Rect {
        match self.bounds {
            Some(r) => r,
            None => Rect::spec_default(),
        }
    }

    /// The broadcast leaves this pane unchanged.
    closed spec fn spec_after_update(pre: Self, state: AppStateView, post: Self) -> bool {
        post == pre
    }

    /// Input is a no-op for this pane: nothing changes and it succeeds.
    closed spec fn spec_after_input(
        pre: Self,
        state: AppStateView,
        code: KeyCode,
        modifiers: KeyModifiers,
        post: Self,
        state_after: AppStateView,
        outcome: Result<(), UiError>,
    ) -> bool {
        &&& post == pre
        &&& state_after == state
        &&& outcome is Ok
    }

    fn info(&self) -> (r: WindowInfo) {
        self.info
    }

    fn lines(&self) -> (r: Vec<StyledContent>) {
        self.gutter_rows()
    }

    fn get_bounds(&self) -> (r: Rect) {
        match self.bounds {
            Some(r) => r,
            None => Rect::new(0, 0, 0, 0),
        }
    }

    fn set_bounds(&mut self, new_bounds: Rect) {
        self.bounds = Some(new_bounds);
    }

    fn title(&self) -> (r: String) {
        String::new()
    }

    fn title_style(&self) -> (r: Option<Style>) {
        None
    }

    fn handle_input(&mut self, state: &mut AppState, code: KeyCode, modifiers: KeyModifiers) -> (r:
        Result<(), UiError>) {
        Ok(())
    }

    fn update_state(&mut self, new_state: &AppState) {
    }
}

} // verus!
