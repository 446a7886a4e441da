use vstd::prelude::*;

mod border;
mod buffercontents;
mod content;
mod decimal;
mod error;
mod event;
mod input;
mod layout;
mod rect;
mod style;
mod textrope;
mod ui;
mod window;
mod windows;

pub use border::Border;
pub use border::border_glyph;
pub use border::BorderDirection;
pub use border::BorderStyle;
pub use buffercontents::BufferContents;
pub use buffercontents::Direction;
pub use buffercontents::leading_ws_count;
pub use buffercontents::line_len_of;
pub use buffercontents::spec_moved_col;
pub use buffercontents::spec_moved_line;
pub use buffercontents::trailing_ws_count;
pub use content::StyledChunk;
pub use content::StyledContent;
pub use decimal::decimal_string;
pub use decimal::spec_decimal;
pub use error::UiError;
pub use event::DrawCommand;
pub use event::Event;
pub use input::KeyCode;
pub use input::KeyModifiers;
pub use layout::cell_covered;
pub use layout::covers;
pub use layout::fill_height_ok;
pub use layout::fill_width_ok;
pub use layout::first_free_bottom;
pub use layout::first_free_top;
pub use layout::get_window_dimensions;
pub use layout::height_obstacle;
pub use layout::info_fits;
pub use layout::layout_solves;
pub use layout::lemma_fill_height_disjoint;
pub use layout::lemma_fill_width_disjoint;
pub use layout::origin_ok;
pub use layout::placed_ok;
pub use layout::placement_blocked;
pub use layout::sized_ok;
pub use layout::spec_fill_height;
pub use layout::spec_fill_width;
pub use layout::width_obstacle;
pub use rect::Rect;
pub use style::Color;
pub use style::Style;
pub use textrope::count_breaks_up_to;
pub use textrope::is_line_break_at;
pub use textrope::is_line_start;
pub use textrope::line_count;
pub use textrope::rope_chars;
pub use textrope::spec_line_start;
pub use textrope::spec_line_text;
pub use ui::CursorUpdateMode;
pub use ui::UI;
pub use window::FillMode;
pub use window::Window;
pub use window::WindowAlignment;
pub use window::WindowInfo;
pub use window::WindowMode;
pub use window::WindowRoot;
pub use windows::Buffer;
pub use windows::Empty;
pub use windows::LineNumbers;
pub use windows::spec_gutter_label;
pub use windows::spec_moved_cursor;
pub use windows::spec_tab_tail;
pub use windows::Tabs;
pub use windows::WindowKind;

verus! {

/// Number of spaces a tab key inserts.
pub const TAB_LENGTH: usize = 4;

/// The character counts as part of a word for word-wise cursor motions.
pub open spec fn spec_is_word_char(c: char) -> bool {
    ||| 'a' as u32 <= c as u32 <= 'z' as u32
    ||| 'A' as u32 <= c as u32 <= 'Z' as u32
    ||| '0' as u32 <= c as u32 <= '9' as u32
    ||| c == '_'
    ||| c == '-'
}

/// The character ends a word: anything but an ASCII letter, a digit,
/// an underscore or a hyphen.
pub fn is_word_boundary(c: &char) -> (r: bool)
    ensures
        r == !spec_is_word_char(*c),
{
    let u = *c as u32;

    !((u >= 'a' as u32 && u <= 'z' as u32) || (u >= 'A' as u32 && u <= 'Z' as u32) || (u >= '0'
        as u32 && u <= '9' as u32) || u == '_' as u32 || u == '-' as u32)
}

/// The mathematical value of an `AppState`: the same fields, with the file
/// list as a sequence. Contracts that relate panes to a broadcast state
/// speak of this view, so that a state and its clone count as the same.
#[verifier::ext_equal]
pub struct AppStateView {
    pub sidebar_toggle: bool,
    pub cursor_position: (u16, u16),
    pub open_files: Seq<String>,
    pub selected_file: int,
}

/// The application state every pane sees. The orchestrator checks it out by
/// value into the selected pane's input handler and broadcasts it read-only
/// to every pane afterwards.
pub struct AppState {
    pub sidebar_toggle: bool,
    pub cursor_position: (u16, u16),
    pub open_files: Vec<String>,
    pub selected_file: usize,
}

impl View for AppState {
    type V = AppStateView;

    open spec fn view(&self) -> AppStateView {
        AppStateView {
            sidebar_toggle: self.sidebar_toggle,
            cursor_position: self.cursor_position,
            open_files: self.open_files@,
            selected_file: self.selected_file as int,
        }
    }
}

impl AppState {
    pub fn new() -> (r: AppState)
        ensures
            r.sidebar_toggle == false,
            r.cursor_position == (0u16, 0u16),
            r.open_files@ == Seq::<String>::empty(),
            r.selected_file == 0,
    {
        AppState {
            sidebar_toggle: false,
            cursor_position: (0, 0),
            open_files: Vec::new(),
            selected_file: 0,
        }
    }
}

impl Clone for AppState {
    fn clone(&self) -> (r: AppState)
        ensures
            r.sidebar_toggle == self.sidebar_toggle,
            r.cursor_position == self.cursor_position,
            r.open_files@ == self.open_files@,
            r.selected_file == self.selected_file,
            r@ == self@,
    {
        let mut open_files: Vec<String> = Vec::new();
        let mut i: usize = 0;

        while i < self.open_files.len()
            invariant
                i <= self.open_files@.len(),
                open_files@ == self.open_files@.take(i as int),
            decreases self.open_files@.len() - i,
        {
            open_files.push(self.open_files[i].clone());

            proof {
                assert(open_files@ =~= self.open_files@.take(i + 1));
            }

            i = i + 1;
        }

        proof {
            assert(open_files@ =~= self.open_files@);
        }

        let r = AppState {
            sidebar_toggle: self.sidebar_toggle,
            cursor_position: self.cursor_position,
            open_files,
            selected_file: self.selected_file,
        };

        proof {
            assert(r@ =~= self@);
        }

        r
    }
}

impl Default for AppState {
    fn default() -> (r: AppState)
        ensures
            r.sidebar_toggle == false,
            r.cursor_position == (0u16, 0u16),
            r.open_files@ == Seq::<String>::empty(),
            r.selected_file == 0,
    {
        AppState::new()
    }
}

} // verus!
