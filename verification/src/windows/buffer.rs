use vstd::prelude::*;

use crate::content::StyledChunk;
use crate::content::StyledContent;
use crate::error::UiError;
use crate::input::KeyCode;
use crate::input::KeyModifiers;
use crate::rect::Rect;
use crate::style::Color;
use crate::style::Style;
use crate::window::Window;
use crate::window::WindowInfo;
use crate::AppState;
use crate::AppStateView;

verus! {

/// Where the buffer pane's cursor lands after one movement key: one cell in
/// the key's direction, clamped to `[0, width - 2]` horizontally and
/// `[0, height - 2]` vertically (or to zero where the pane is too small for
/// that margin). Keys that are no movement leave it in place.
pub open spec fn spec_moved_cursor(
    pos: (u16, u16),
    width: u16,
    height: u16,
    code: KeyCode,
) -> (u16, u16) {
    let x = pos.0;
    let y = pos.1;
    let max_x = if width >= 2 {
        (width - 2) as u16
    } else {
        0u16
    };
    let max_y = if height >= 2 {
        (height - 2) as u16
    } else {
        0u16
    };
    match code {
        KeyCode::Char(c) => {
            if c == 'h' {
                (if x > 0 {
                    (x - 1) as u16
                } else {
                    0u16
                }, y)
            } else if c == 'j' {
                (x, if y < max_y {
                    (y + 1) as u16
                } else {
                    max_y
                })
            } else if c == 'k' {
                (x, if y > 0 {
                    (y - 1) as u16
                } else {
                    0u16
                })
            } else if c == 'l' {
                (if x < max_x {
                    (x + 1) as u16
                } else {
                    max_x
                }, y)
            } else {
                (x, y)
            }
        },
        KeyCode::Left => (
            if x > 0 {
                (x - 1) as u16
            } else {
                0u16
            },
            y,
        ),
        KeyCode::Down => (
            x,
            if y < max_y {
                (y + 1) as u16
            } else {
                max_y
            },
        ),
        KeyCode::Up => (
            x,
            if y > 0 {
                (y - 1) as u16
            } else {
                0u16
            },
        ),
        KeyCode::Right => (
            if x < max_x {
                (x + 1) as u16
            } else {
                max_x
            },
            y,
        ),
        _ => (x, y),
    }
}

/// A text-viewing pane: a file's rows, a cursor moved with the h/j/k/l or
/// arrow keys, and the file's path as its title. The hosting application
/// reads the file and hands the rows in as plain strings.
#[derive(Debug)]
pub struct Buffer {
    info: WindowInfo,
    bounds: Option<Rect>,
    filepath: String,
    cursor_position: (u16, u16),
    content: Vec<String>,
}

impl Buffer {
    /// The pane's rows of text.
    pub closed spec fn spec_content(&self) -> Seq<String> {
        self.content@
    }

    /// The pane's cursor, relative to its content area.
    pub closed spec fn spec_cursor(&self) -> (u16, u16) {
        self.cursor_position
    }

    /// The path shown as the pane's title.
    pub closed spec fn spec_filepath(&self) -> Seq<char> {
        self.filepath@
    }

    pub fn new_empty_buffer(info: WindowInfo) -> (r: Buffer)
        ensures
            r.spec_info() == (WindowInfo { selectable: true, ..info }),
            r.spec_bounds() == Rect::spec_default(),
            r.spec_content() == Seq::<String>::empty(),
            r.spec_cursor() == (0u16, 0u16),
            r.spec_filepath() == Seq::<char>::empty(),
    {
        Buffer {
            info,
            bounds: None,
            filepath: String::new(),
            cursor_position: (0, 0),
            content: Vec::new(),
        }
    }

    /// A pane already holding a file's rows, titled with its path.
    pub fn with_content(info: WindowInfo, filepath: String, content: Vec<String>) -> (r: Buffer)
        ensures
            r.spec_info() == (WindowInfo { selectable: true, ..info }),
            r.spec_bounds() == Rect::spec_default(),
            r.spec_content() == content@,
            r.spec_cursor() == (0u16, 0u16),
            r.spec_filepath() == filepath@,
    {
        Buffer { info, bounds: None, filepath, cursor_position: (0, 0), content }
    }

    /// Replaces the pane's rows and title, as after opening another file.
    pub fn set_content(&mut self, filepath: String, content: Vec<String>)
        ensures
            final(self).spec_info() == old(self).spec_info(),
            final(self).spec_bounds() == old(self).spec_bounds(),
            final(self).spec_content() == content@,
            final(self).spec_filepath() == filepath@,
            final(self).spec_cursor() == old(self).spec_cursor(),
    {
        self.filepath = filepath;
        self.content = content;
    }

    /// One default-styled row per row of content.
    pub fn content_rows(&self) -> (r: Vec<StyledContent>)
        ensures
            r@.len() == self.spec_content().len(),
            forall|i: int|
                0 <= i < r@.len() ==> (#[trigger] r@[i]).wf() && r@[i].text()
                    == self.spec_content()[i]@ && (r@[i].text().len() == 0 ==> r@[i].runs()
                    == Seq::<StyledChunk>::empty()) && (r@[i].text().len() > 0 ==> r@[i].runs()
                    == seq![
                    StyledChunk {
                        start: 0usize,
                        end: r@[i].text().len() as usize,
                        style: Style::spec_default(),
                    },
                ]),
    {
        let mut rows: Vec<StyledContent> = Vec::new();
        let mut i: usize = 0;

        while i < self.content.len()
            invariant
                i <= self.content@.len(),
                rows@.len() == i,
                forall|t: int|
                    0 <= t < i ==> (#[trigger] rows@[t]).wf() && rows@[t].text()
                        == self.content@[t]@ && (rows@[t].text().len() == 0 ==> rows@[t].runs()
                        == Seq::<StyledChunk>::empty()) && (rows@[t].text().len() > 0
                        ==> rows@[t].runs() == seq![
                        StyledChunk {
                            start: 0usize,
                            end: rows@[t].text().len() as usize,
                            style: Style::spec_default(),
                        },
                    ]),
            decreases self.content@.len() - i,
        {
            rows.push(StyledContent::from(self.content[i].clone()));

            i = i + 1;
        }

        rows
    }

    /// The cursor after one movement key, clamped to the pane's content
    /// area.
    pub fn moved_cursor(&self, code: KeyCode) -> (r: (u16, u16))
        ensures
            r == spec_moved_cursor(
                self.spec_cursor(),
                self.spec_bounds().width,
                self.spec_bounds().height,
                code,
            ),
    {
        let bounds = match self.bounds {
            Some(b) => b,
            None => Rect::new(0, 0, 0, 0),
        };
        let (x, y) = self.cursor_position;
        let max_x = if bounds.width >= 2 {
            bounds.width - 2
        } else {
            0
        };
        let max_y = if bounds.height >= 2 {
            bounds.height - 2
        } else {
            0
        };

        match code {
            KeyCode::Char(c) => {
                if c == 'h' {
                    (if x > 0 { x - 1 } else { 0 }, y)
                } else if c == 'j' {
                    (x, if y < max_y { y + 1 } else { max_y })
                } else if c == 'k' {
                    (x, if y > 0 { y - 1 } else { 0 })
                } else if c == 'l' {
                    (if x < max_x { x + 1 } else { max_x }, y)
                } else {
                    (x, y)
                }
            },
            KeyCode::Left => (if x > 0 { x - 1 } else { 0 }, y),
            KeyCode::Down => (x, if y < max_y { y + 1 } else { max_y }),
            KeyCode::Up => (x, if y > 0 { y - 1 } else { 0 }),
            KeyCode::Right => (if x < max_x { x + 1 } else { max_x }, y),
            _ => (x, y),
        }
    }
}

impl Window for Buffer {
    /// The broadcast makes the pane follow the state's cursor position;
    /// everything else survives.
    closed spec fn spec_after_update(pre: Self, state: AppStateView, post: Self) -> bool {
        post == (Buffer { cursor_position: state.cursor_position, ..pre })
    }

    /// One input moves nothing in the pane itself; it publishes the moved
    /// cursor into the shared state and succeeds.
    closed spec fn spec_after_input(
        pre: Self,
        state: AppStateView,
        code: KeyCode,
        modifiers: KeyModifiers,
        post: Self,
        state_after: AppStateView,
        outcome: Result<(), UiError>,
    ) -> bool {
        &&& post == pre
        &&& state_after == (AppStateView {
            cursor_position: spec_moved_cursor(
                pre.cursor_position,
                pre.spec_bounds().width,
                pre.spec_bounds().height,
                code,
            ),
            ..state
        })
        &&& outcome is Ok
    }

    closed spec fn spec_info(&self) -> WindowInfo {
        WindowInfo { selectable: true, ..self.info }
    }

    closed spec fn spec_bounds(&self) -> Rect {
        match self.bounds {
            Some(r) => r,
            None => Rect::spec_default(),
        }
    }

    /// A buffer pane always reports itself selectable, whatever its stored
    /// request says.
    fn info(&self) -> (r: WindowInfo) {
        WindowInfo { selectable: true, ..self.info }
    }

    fn lines(&self) -> (r: Vec<StyledContent>) {
        self.content_rows()
    }

    fn get_bounds(&self) -> (r: Rect) {
        match self.bounds {
            Some(r) => r,
            None => Rect::new(0, 0, 0, 0),
        }
    }

    fn set_bounds(&mut self, new_bounds: Rect) {
        self.bounds = Some(new_bounds);
    }

    fn title(&self) -> (r: String) {
        self.filepath.clone()
    }

    fn title_style(&self) -> (r: Option<Style>) {
        Some(Style::default().with(Color::Blue).bold())
    }

    /// Moves the pane's cursor one cell per movement key, clamped to the
    /// pane's content area, and publishes the new position into the shared
    /// state.
    fn handle_input(&mut self, state: &mut AppState, code: KeyCode, modifiers: KeyModifiers) -> (r:
        Result<(), UiError>) {
        state.cursor_position = self.moved_cursor(code);

        proof {
            assert(state@ =~= (AppStateView {
                cursor_position: spec_moved_cursor(
                    old(self).spec_cursor(),
                    old(self).spec_bounds().width,
                    old(self).spec_bounds().height,
                    code,
                ),
                ..old(state)@
            }));
        }

        Ok(())
    }

    /// Follows the cursor position the shared state carries.
    fn update_state(&mut self, new_state: &AppState) {
        self.cursor_position = new_state.cursor_position;

        proof {
            assert(*self == (Buffer { cursor_position: new_state@.cursor_position, ..*old(self) }));
        }
    }
}

} // verus!
