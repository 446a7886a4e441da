use vstd::prelude::*;
use vstd::string::StringExecFns;

use crate::content::StyledChunk;
use crate::content::StyledContent;
use crate::error::UiError;
use crate::input::KeyCode;
use crate::input::KeyModifiers;
use crate::rect::Rect;
use crate::style::Color;
use crate::style::Style;
use crate::window::Window;
use crate::window::WindowInfo;
use crate::AppState;
use crate::AppStateView;

verus! {

/// The names from index `k` on, each followed by the tab separator.
pub open spec fn spec_tab_tail(files: Seq<String>, k: int) -> Seq<char>
    decreases files.len() - k,
{
    if k < 0 || k >= files.len() {
        Seq::empty()
    } else {
        files[k]@ + seq![' ', '/', '/'] + spec_tab_tail(files, k + 1)
    }
}

/// The tab strip: shows which of the open files is selected, and the rest
/// after it. It follows the shared state's file list on every broadcast.
#[derive(Debug)]
pub struct Tabs {
    info: WindowInfo,
    bounds: Option<Rect>,
    open_files: Vec<String>,
    selected_file: usize,
}

impl Tabs {
    pub fn new(info: WindowInfo) -> (r: Tabs)
        ensures
            r.spec_info() == info,
            r.spec_bounds() == Rect::spec_default(),
            r.spec_open_files() == Seq::<String>::empty(),
            r.spec_selected_file() == 0,
    {
        Tabs { info, bounds: None, open_files: Vec::new(), selected_file: 0 }
    }

    /// The file names the strip currently shows.
    pub closed spec fn spec_open_files(&self) -> Seq<String> {
        self.open_files@
    }

    /// The index of the file shown as selected.
    pub closed spec fn spec_selected_file(&self) -> int {
        self.selected_file as int
    }

    /// The two rows of the strip: the selected file's name, marked and
    /// highlighted, then the names after it joined by the separator.
    pub fn tab_rows(&self) -> (r: Vec<StyledContent>)
        ensures
            r@.len() == 2,
            r@[0].wf() && r@[1].wf(),
            r@[0].text() == seq![' '] + (if 0 <= self.spec_selected_file()
                < self.spec_open_files().len() {
                self.spec_open_files()[self.spec_selected_file()]@
            } else {
                Seq::<char>::empty()
            }),
            r@[1].text() == spec_tab_tail(self.spec_open_files(), self.spec_selected_file() + 1),
            r@[0].runs() == seq![
                StyledChunk {
                    start: 0usize,
                    end: r@[0].text().len() as usize,
                    style: (Style { fg: Some(Color::Blue), bg: None, bold: false }),
                },
            ],
            r@[1].text().len() == 0 ==> r@[1].runs() == Seq::<StyledChunk>::empty(),
            r@[1].text().len() > 0 ==> r@[1].runs() == seq![
                StyledChunk {
                    start: 0usize,
                    end: r@[1].text().len() as usize,
                    style: Style::spec_default(),
                },
            ],
    {
        proof {
            reveal_strlit(" ");
            reveal_strlit(" //");
        }

        let mut selected = String::from_str(" ");

        if self.selected_file < self.open_files.len() {
            selected.append(self.open_files[self.selected_file].as_str());
        }

        let n = self.open_files.len();
        let mut after = String::new();
        let mut k = n;

        while k > 0 && k - 1 > self.selected_file
            invariant
                k <= n,
                k == n || k as int >= self.spec_selected_file() + 1,
                n == self.open_files@.len(),
                after@ == spec_tab_tail(self.open_files@, k as int),
            decreases k,
        {
            k = k - 1;

            let mut piece = self.open_files[k].clone();
            piece.append(" //");
            let joined = piece.concat(after.as_str());
            after = joined;

            proof {
                reveal_strlit(" //");
                assert(after@ =~= spec_tab_tail(self.open_files@, k as int));
            }
        }

        proof {
            reveal_strlit(" ");
            assert(seq![' '] + Seq::<char>::empty() =~= seq![' ']);
        }

        let mut r: Vec<StyledContent> = Vec::new();
        r.push(StyledContent::from_styled(selected, Style::default().with(Color::Blue)));
        r.push(StyledContent::from(after));

        r
    }
}

impl Window for Tabs {
    /// The broadcast makes the strip follow the state's open-file list and
    /// selection; its placement and bounds survive.
    closed spec fn spec_after_update(pre: Self, state: AppStateView, post: Self) -> bool {
        &&& post.info == pre.info
        &&& post.bounds == pre.bounds
        &&& post.open_files@ == state.open_files
        &&& post.selected_file as int == state.selected_file
    }

    /// Input is a no-op for this pane: nothing changes and it succeeds.
    closed spec fn spec_after_input(
        pre: Self,
        state: AppStateView,
        code: KeyCode,
        modifiers: KeyModifiers,
        post: Self,
        state_after: AppStateView,
        outcome: Result<(), UiError>,
    ) -> bool {
        &&& post == pre
        &&& state_after == state
        &&& outcome is Ok
    }

    closed spec fn spec_info(&self) -> WindowInfo {
        self.info
    }

    closed spec fn spec_bounds(&self) -> Rect {
        match self.bounds {
            Some(r) => r,
            None => Rect::spec_default(),
        }
    }

    fn info(&self) -> (r: WindowInfo) {
        self.info
    }

    fn lines(&self) -> (r: Vec<StyledContent>) {
        self.tab_rows()
    }

    fn get_bounds(&self) -> (r: Rect) {
        match self.bounds {
            Some(r) => r,
            None => Rect::new(0, 0, 0, 0),
        }
    }

    fn set_bounds(&mut self, new_bounds: Rect) {
        self.bounds = Some(new_bounds);
    }

    fn title(&self) -> (r: String) {
        String::new()
    }

    fn title_style(&self) -> (r: Option<Style>) {
        None
    }

    fn handle_input(&mut self, state: &mut AppState, code: KeyCode, modifiers: KeyModifiers) -> (r:
        Result<(), UiError>) {
        Ok(())
    }

    /// Follows the shared state's open-file list and selection.
    fn update_state(&mut self, new_state: &AppState) {
        let mut open_files: Vec<String> = Vec::new();
        let mut i: usize = 0;

        while i < new_state.open_files.len()
            invariant
                i <= new_state.open_files@.len(),
                open_files@ == new_state.open_files@.take(i as int),
            decreases new_state.open_files@.len() - i,
        {
            open_files.push(new_state.open_files[i].clone());

            proof {
                assert(open_files@ =~= new_state.open_files@.take(i + 1));
            }

            i = i + 1;
        }

        proof {
            assert(open_files@ =~= new_state.open_files@);
        }

        self.open_files = open_files;
        self.selected_file = new_state.selected_file;
    }
}

} // verus!
