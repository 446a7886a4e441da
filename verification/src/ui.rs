use vstd::prelude::*;
use vstd::string::StrSliceExecFns;
use vstd::string::StringExecFns;

use crate::AppState;
use crate::AppStateView;
use crate::border::Border;
use crate::border::border_glyph;
use crate::border::BorderStyle;
use crate::border::has_point;
use crate::border::lemma_has_point_append;
use crate::border::point_direction;
use crate::border::spec_border_glyph;
use crate::content::concat_chunks;
use crate::content::lemma_concat_chunks_push;
use crate::content::lemma_concat_covers;
use crate::content::StyledChunk;
use crate::content::StyledContent;
use crate::error::UiError;
use crate::event::DrawCommand;
use crate::input::KeyCode;
use crate::input::KeyModifiers;
use crate::layout::get_window_dimensions;
use crate::layout::info_fits;
use crate::layout::layout_solves;
use crate::layout::placed_ok;
use crate::layout::placement_blocked;
use crate::rect::Rect;
use crate::style::Color;
use crate::style::Style;
use crate::window::Window;

verus! {

/// How `update_cursor_position` interprets the position it is given.
pub enum CursorUpdateMode {
    /// As absolute terminal coordinates.
    Absolute,
    /// As coordinates within the selected window's content area.
    RelativeToSelected,
}

/// The indices of the windows at `k` and beyond that are not hidden, in
/// order.
pub open spec fn visible_from(hidden: Seq<bool>, k: int) -> Seq<int>
    decreases hidden.len() - k,
{
    if k < 0 || k >= hidden.len() {
        Seq::empty()
    } else if !hidden[k] {
        seq![k] + visible_from(hidden, k + 1)
    } else {
        visible_from(hidden, k + 1)
    }
}

/// The texts of the print steps among the commands, concatenated in order.
pub open spec fn print_concat(cmds: Seq<DrawCommand>) -> Seq<char>
    decreases cmds.len(),
{
    if cmds.len() == 0 {
        Seq::empty()
    } else {
        (match cmds[0] {
            DrawCommand::Print { text, style } => text@,
            _ => Seq::empty(),
        }) + print_concat(cmds.drop_first())
    }
}

/// The row text the renderer shows for a pane row: the row itself, cut to
/// the pane's width where it is longer.
pub open spec fn clipped_row(text: Seq<char>, width: int) -> Seq<char> {
    if text.len() > width {
        text.take(width)
    } else {
        text
    }
}

/// The print concatenation distributes over appending one command.
proof fn lemma_print_concat_push(cmds: Seq<DrawCommand>, cmd: DrawCommand)
    ensures
        print_concat(cmds.push(cmd)) == print_concat(cmds) + (match cmd {
            DrawCommand::Print { text, style } => text@,
            _ => Seq::empty(),
        }),
    decreases cmds.len(),
{
    if cmds.len() == 0 {
        assert(cmds.push(cmd).drop_first() =~= cmds);
        assert(cmds.push(cmd)[0] == cmd);
        assert(print_concat(cmds.push(cmd)) =~= print_concat(cmds) + (match cmd {
            DrawCommand::Print { text, style } => text@,
            _ => Seq::empty(),
        }));
    } else {
        lemma_print_concat_push(cmds.drop_first(), cmd);
        assert(cmds.push(cmd).drop_first() =~= cmds.drop_first().push(cmd));
        assert(cmds.push(cmd)[0] == cmds[0]);

        let a = (match cmds[0] {
            DrawCommand::Print { text, style } => text@,
            _ => Seq::empty(),
        });
        let b = print_concat(cmds.drop_first());
        let t = (match cmd {
            DrawCommand::Print { text, style } => text@,
            _ => Seq::empty(),
        });
        assert(print_concat(cmds.push(cmd)) == a + (b + t));
        assert(print_concat(cmds) == a + b);
        assert(a + (b + t) =~= (a + b) + t);
    }
}

/// One rendered pane row: a cursor move to the row's first content cell,
/// then only prints, whose texts concatenate to the row's text cut to the
/// pane's width.
pub open spec fn one_row_ok(seg: Seq<DrawCommand>, rect: Rect, text: Seq<char>, i: int) -> bool {
    &&& seg.len() >= 1
    &&& rect.x + 1 <= u16::MAX
    &&& rect.y + i + 1 <= u16::MAX
    &&& seg[0] == DrawCommand::MoveTo(((rect.x + 1) as u16), ((rect.y + i + 1) as u16))
    &&& forall|j: int| 0 < j < seg.len() ==> (#[trigger] seg[j]) is Print
    &&& print_concat(seg.subrange(1, seg.len() as int)) == clipped_row(text, rect.width as int)
}

/// The concatenation of a list of command segments, in order.
pub open spec fn concat_parts(parts: Seq<Seq<DrawCommand>>) -> Seq<DrawCommand>
    decreases parts.len(),
{
    if parts.len() == 0 {
        Seq::empty()
    } else {
        concat_parts(parts.drop_last()) + parts.last()
    }
}

/// Each part renders one row of the given texts, in order from the pane's
/// first content row.
pub open spec fn rows_ok(parts: Seq<Seq<DrawCommand>>, rect: Rect, texts: Seq<Seq<char>>) -> bool {
    &&& parts.len() == texts.len()
    &&& forall|i: int| 0 <= i < parts.len() ==> one_row_ok(#[trigger] parts[i], rect, texts[i], i)
}

/// One pane's whole content segment: row segments for some list of row
/// texts, never more rows than the pane is high.
pub open spec fn window_rows_ok(cmds: Seq<DrawCommand>, rect: Rect) -> bool {
    exists|parts: Seq<Seq<DrawCommand>>, texts: Seq<Seq<char>>|
        {
            &&& cmds == concat_parts(parts)
            &&& texts.len() <= rect.height
            &&& #[trigger] rows_ok(parts, rect, texts)
        }
}

/// The content part of a frame: one pane segment per visible pane, in list
/// order, each clipped to that pane's rectangle.
pub open spec fn content_ok(cmds: Seq<DrawCommand>, rects: Seq<Rect>) -> bool {
    exists|parts: Seq<Seq<DrawCommand>>|
        {
            &&& cmds == #[trigger] concat_parts(parts)
            &&& parts.len() == rects.len()
            &&& forall|k: int| 0 <= k < rects.len() ==> window_rows_ok(#[trigger] parts[k], rects[k])
        }
}

/// The border part of a frame: for every border point in order, a cursor
/// move to it and a print of the one glyph its class selects, in the light
/// set, coloured black.
pub open spec fn border_segment_ok(cmds: Seq<DrawCommand>, b: Border) -> bool {
    &&& cmds.len() == 2 * b.points_seq().len()
    &&& forall|k: int|
        0 <= k < b.points_seq().len() ==> {
            &&& cmds[2 * k] == DrawCommand::MoveTo(b.points_seq()[k].0, b.points_seq()[k].1)
            &&& (#[trigger] cmds[2 * k + 1]) matches DrawCommand::Print { text, style }
                && text@.len() == 1 && text@[0] == spec_border_glyph(
                BorderStyle::Light,
                point_direction(b.points_seq(), b.points_seq()[k]),
            ) && style == (Style { fg: Some(Color::Black), bg: None, bold: false })
        }
}

/// One pane's title: a cursor move to the row above its content and one
/// print, cut to two columns less than the pane's width where the pane
/// affords that margin; or nothing.
pub open spec fn one_title_ok(seg: Seq<DrawCommand>, rect: Rect) -> bool {
    ||| seg == Seq::<DrawCommand>::empty()
    ||| {
        &&& seg.len() == 2
        &&& rect.x + 1 <= u16::MAX
        &&& seg[0] == DrawCommand::MoveTo(((rect.x + 1) as u16), rect.y)
        &&& seg[1] matches DrawCommand::Print { text, style } && (rect.width >= 2 ==> text@.len()
            <= rect.width - 2)
    }
}

/// The title part of a frame: one title segment per visible pane, in list
/// order.
pub open spec fn titles_ok(cmds: Seq<DrawCommand>, rects: Seq<Rect>) -> bool {
    exists|parts: Seq<Seq<DrawCommand>>|
        {
            &&& cmds == #[trigger] concat_parts(parts)
            &&& parts.len() == rects.len()
            &&& forall|k: int| 0 <= k < rects.len() ==> one_title_ok(#[trigger] parts[k], rects[k])
        }
}

/// Appends the draw steps of one pane row at `(x, y)`: one cursor move,
/// then one print per style run of the row cut to the pane's width. The
/// printed texts concatenate to exactly the clipped row.
fn push_row_commands(line: &StyledContent, x: u16, y: u16, width: u16, out: &mut Vec<DrawCommand>)
    requires
        line.wf(),
    ensures
        final(out)@.len() > old(out)@.len(),
        final(out)@.take(old(out)@.len() as int) == old(out)@,
        final(out)@[old(out)@.len() as int] == DrawCommand::MoveTo(x, y),
        forall|i: int|
            old(out)@.len() < i < final(out)@.len() ==> (#[trigger] final(out)@[i]) is Print,
        print_concat(final(out)@.subrange(old(out)@.len() as int + 1, final(out)@.len() as int))
            == clipped_row(line.text(), width as int),
{
    let ghost base = out@.len() as int;
    let len = line.len();

    let clipped = if len > width as usize {
        line.slice(0, width as usize)
    } else {
        line.clone()
    };

    proof {
        if len > width as usize {
            assert(clipped.text() =~= clipped_row(line.text(), width as int));
        } else {
            assert(clipped.text() =~= clipped_row(line.text(), width as int));
        }
    }

    out.push(DrawCommand::MoveTo(x, y));

    let pieces = clipped.iter_chunks();
    let ghost pieces_view = pieces@;
    let mut k: usize = 0;

    proof {
        assert(out@.subrange(base + 1, out@.len() as int) =~= Seq::<DrawCommand>::empty());
        assert(clipped.runs().take(0) =~= Seq::<StyledChunk>::empty());
    }

    while k < pieces.len()
        invariant
            k <= pieces@.len(),
            pieces@ == pieces_view,
            clipped.wf(),
            pieces@.len() == clipped.runs().len(),
            forall|i: int|
                0 <= i < pieces@.len() ==> (#[trigger] pieces@[i]).0@ == clipped.text().subrange(
                    clipped.runs()[i].start as int,
                    clipped.runs()[i].end as int,
                ),
            base == old(out)@.len(),
            out@.len() == base + 1 + k,
            out@.take(base) == old(out)@,
            out@[base] == DrawCommand::MoveTo(x, y),
            forall|i: int| base < i < out@.len() ==> (#[trigger] out@[i]) is Print,
            print_concat(out@.subrange(base + 1, out@.len() as int)) == concat_chunks(
                clipped.runs().take(k as int),
                clipped.text(),
            ),
        decreases pieces@.len() - k,
    {
        let ghost tail_before = out@.subrange(base + 1, out@.len() as int);

        let text = pieces[k].0.clone();
        let style = pieces[k].1;
        out.push(DrawCommand::Print { text, style });

        proof {
            assert(out@.take(base) =~= old(out)@);
            assert(out@.subrange(base + 1, out@.len() as int) =~= tail_before.push(
                DrawCommand::Print { text, style },
            ));
            lemma_print_concat_push(tail_before, DrawCommand::Print { text, style });
            lemma_concat_chunks_push(
                clipped.runs().take(k as int),
                clipped.runs()[k as int],
                clipped.text(),
            );
            assert(clipped.runs().take(k + 1) =~= clipped.runs().take(k as int).push(
                clipped.runs()[k as int],
            ));
        }

        k = k + 1;
    }

    proof {
        assert(clipped.runs().take(pieces@.len() as int) =~= clipped.runs());
        lemma_concat_covers(clipped.runs(), clipped.text(), 0, clipped.text().len() as int);
        assert(clipped.text().subrange(0, clipped.text().len() as int) =~= clipped.text());
    }
}

/// Appends the draw steps of the border: for every border point, one
/// cursor move and one print of the box-drawing glyph its class selects,
/// in the light set, coloured black as the engine draws frames.
fn push_border_commands(border: &Border, out: &mut Vec<DrawCommand>)
    requires
        border.wf(),
    ensures
        final(out)@.len() == old(out)@.len() + 2 * border.points_seq().len(),
        final(out)@.take(old(out)@.len() as int) == old(out)@,
        forall|k: int|
            0 <= k < border.points_seq().len() ==> {
                &&& final(out)@[old(out)@.len() + 2 * k] == DrawCommand::MoveTo(
                    border.points_seq()[k].0,
                    border.points_seq()[k].1,
                )
                &&& (#[trigger] final(out)@[old(out)@.len() + 2 * k + 1]) matches DrawCommand::Print {
                    text,
                    style,
                } && text@.len() == 1 && text@[0] == spec_border_glyph(
                    BorderStyle::Light,
                    point_direction(border.points_seq(), border.points_seq()[k]),
                ) && style == (Style { fg: Some(Color::Black), bg: None, bold: false })
            },
{
    let entries = border.entries();
    let ghost base = out@.len() as int;
    let mut k: usize = 0;

    while k < entries.len()
        invariant
            k <= entries@.len(),
            base == old(out)@.len(),
            border.wf(),
            entries@.len() == border.points_seq().len(),
            forall|i: int|
                0 <= i < entries@.len() ==> (#[trigger] entries@[i]).0
                    == border.points_seq()[i] && entries@[i].1 == border.directions_seq()[i],
            out@.len() == base + 2 * k,
            out@.take(base) == old(out)@,
            forall|t: int|
                0 <= t < k ==> {
                    &&& out@[base + 2 * t] == DrawCommand::MoveTo(
                        border.points_seq()[t].0,
                        border.points_seq()[t].1,
                    )
                    &&& (#[trigger] out@[base + 2 * t + 1]) matches DrawCommand::Print {
                        text,
                        style,
                    } && text@.len() == 1 && text@[0] == spec_border_glyph(
                        BorderStyle::Light,
                        point_direction(border.points_seq(), border.points_seq()[t]),
                    ) && style == (Style { fg: Some(Color::Black), bg: None, bold: false })
                },
        decreases entries@.len() - k,
    {
        let (point, dir) = entries[k];
        let glyph = border_glyph(BorderStyle::Light, dir);

        out.push(DrawCommand::MoveTo(point.0, point.1));
        out.push(DrawCommand::Print {
            text: glyph.to_owned(),
            style: Style::default().with(Color::Black),
        });

        proof {
            assert(out@.take(base) =~= old(out)@);
        }

        k = k + 1;
    }
}

/// The orchestrator: owns the ordered window list, the selection, the
/// visibility set, and the cached layout, and drives the per-frame draw
/// pipeline. Window identity is the list index, fixed for the whole run;
/// visibility toggles, windows are never removed.
pub struct UI<W: Window> {
    state: AppState,
    cursor_position: (u16, u16),
    windows: Vec<W>,
    selected: usize,
    hidden: Vec<bool>,
    window_bounds: Option<Vec<Rect>>,
    border: Option<Border>,
    recalculate: bool,
}

impl<W: Window> UI<W> {
    /// The shared application state.
    pub closed spec fn spec_state(self) -> AppState {
        self.state
    }

    /// The cursor's absolute terminal position.
    pub closed spec fn spec_cursor(self) -> (u16, u16) {
        self.cursor_position
    }

    /// The ordered window list.
    pub closed spec fn spec_windows(self) -> Seq<W> {
        self.windows@
    }

    /// The selected window's index.
    pub closed spec fn spec_selected(self) -> int {
        self.selected as int
    }

    /// Which windows are hidden, by index.
    pub closed spec fn spec_hidden(self) -> Seq<bool> {
        self.hidden@
    }

    /// The cached layout, if one has been computed since the last
    /// invalidation.
    pub closed spec fn spec_window_bounds(self) -> Option<Seq<Rect>> {
        match self.window_bounds {
            Some(v) => Some(v@),
            None => None,
        }
    }

    /// The cached border, if one has been computed since the last
    /// invalidation.
    pub closed spec fn spec_border(self) -> Option<Border> {
        self.border
    }

    /// The caches must be rebuilt before the next draw.
    pub closed spec fn spec_needs_recalculate(self) -> bool {
        self.recalculate
    }

    /// The structural invariant: one visibility flag per window, and the
    /// selection in range while any window exists.
    pub open spec fn wf(self) -> bool {
        &&& self.spec_hidden().len() == self.spec_windows().len()
        &&& (self.spec_windows().len() > 0 ==> 0 <= self.spec_selected()
            < self.spec_windows().len())
        &&& (self.spec_border() matches Some(b) ==> b.wf())
        &&& (self.spec_needs_recalculate() || (self.spec_window_bounds() matches Some(rects)
            ==> rects.len() == visible_from(self.spec_hidden(), 0).len()))
    }

    /// The window at index `i` could take the selection: it exists, is
    /// visible, and reports itself selectable.
    pub open spec fn spec_qualifies(self, i: int) -> bool {
        &&& 0 <= i < self.spec_windows().len()
        &&& !self.spec_hidden()[i]
        &&& self.spec_windows()[i].spec_info().selectable
    }

    /// The selection invariant: the selected index points at a visible,
    /// selectable window.
    pub open spec fn selection_ok(self) -> bool {
        self.spec_qualifies(self.spec_selected())
    }

    /// Nothing but possibly the selection differs between the two states.
    pub open spec fn only_selection_changed(pre: UI<W>, post: UI<W>) -> bool {
        &&& post.spec_windows() == pre.spec_windows()
        &&& post.spec_hidden() == pre.spec_hidden()
        &&& post.spec_window_bounds() == pre.spec_window_bounds()
        &&& post.spec_border() == pre.spec_border()
        &&& post.spec_needs_recalculate() == pre.spec_needs_recalculate()
        &&& post.spec_state() == pre.spec_state()
        &&& post.spec_cursor() == pre.spec_cursor()
    }

    /// Nothing but possibly the cursor position differs between the two
    /// states.
    pub open spec fn only_cursor_changed(pre: UI<W>, post: UI<W>) -> bool {
        &&& post.spec_windows() == pre.spec_windows()
        &&& post.spec_hidden() == pre.spec_hidden()
        &&& post.spec_window_bounds() == pre.spec_window_bounds()
        &&& post.spec_border() == pre.spec_border()
        &&& post.spec_needs_recalculate() == pre.spec_needs_recalculate()
        &&& post.spec_state() == pre.spec_state()
        &&& post.spec_selected() == pre.spec_selected()
    }

    /// The shared application state, for reading.
    pub fn state(&self) -> (r: &AppState)
        ensures
            *r == self.spec_state(),
    {
        &self.state
    }

    /// Replaces the shared application state.
    pub fn set_state(&mut self, state: AppState)
        ensures
            final(self).spec_state() == state,
            UI::only_selection_changed(*old(self), *final(self)) || final(self).spec_state()
                != old(self).spec_state(),
            final(self).spec_windows() == old(self).spec_windows(),
            final(self).spec_hidden() == old(self).spec_hidden(),
            final(self).spec_selected() == old(self).spec_selected(),
            final(self).spec_window_bounds() == old(self).spec_window_bounds(),
            final(self).spec_border() == old(self).spec_border(),
            final(self).spec_needs_recalculate() == old(self).spec_needs_recalculate(),
            final(self).spec_cursor() == old(self).spec_cursor(),
    {
        self.state = state;
    }

    /// The cursor's absolute terminal position.
    pub fn cursor_position(&self) -> (r: (u16, u16))
        ensures
            r == self.spec_cursor(),
    {
        self.cursor_position
    }

    /// A fresh orchestrator: nothing hidden, the first window selected, and
    /// a layout computation pending.
    pub fn new(windows: Vec<W>, state: AppState) -> (r: UI<W>)
        ensures
            r.wf(),
            r.spec_windows() == windows@,
            r.spec_selected() == 0,
            forall|i: int| 0 <= i < r.spec_hidden().len() ==> !(#[trigger] r.spec_hidden()[i]),
            r.spec_window_bounds() is None,
            r.spec_border() is None,
            r.spec_needs_recalculate(),
            r.spec_state() == state,
            r.spec_cursor() == (0u16, 0u16),
    {
        let n = windows.len();
        let mut hidden: Vec<bool> = Vec::new();
        let mut i: usize = 0;

        while i < n
            invariant
                i <= n,
                hidden@.len() == i,
                forall|t: int| 0 <= t < i ==> !(#[trigger] hidden@[t]),
            decreases n - i,
        {
            hidden.push(false);

            i = i + 1;
        }

        UI {
            state,
            cursor_position: (0, 0),
            windows,
            selected: 0,
            hidden,
            window_bounds: None,
            border: None,
            recalculate: true,
        }
    }

    /// How many windows the orchestrator owns, visible or not.
    pub fn window_count(&self) -> (r: usize)
        ensures
            r == self.spec_windows().len(),
    {
        self.windows.len()
    }

    /// The selected window.
    pub fn selected(&self) -> (r: &W)
        requires
            self.wf(),
            self.spec_windows().len() > 0,
        ensures
            *r == self.spec_windows()[self.spec_selected()],
    {
        &self.windows[self.selected]
    }

    /// The visible windows, in list order: one reference per entry of
    /// `visible_from`.
    pub fn windows(&self) -> (r: Vec<&W>)
        requires
            self.wf(),
        ensures
            r@.len() == visible_from(self.spec_hidden(), 0).len(),
            forall|k: int|
                0 <= k < r@.len() ==> *(#[trigger] r@[k]) == self.spec_windows()[visible_from(
                    self.spec_hidden(),
                    0,
                )[k]],
    {
        let n = self.windows.len();
        let mut r: Vec<&W> = Vec::new();
        let mut i: usize = 0;

        while i < n
            invariant
                i <= n,
                n == self.spec_windows().len(),
                n == self.spec_hidden().len(),
                r@.len() <= i,
                r@.len() <= visible_from(self.spec_hidden(), 0).len(),
                visible_from(self.spec_hidden(), 0).skip(r@.len() as int) == visible_from(
                    self.spec_hidden(),
                    i as int,
                ),
                forall|k: int|
                    0 <= k < r@.len() ==> *(#[trigger] r@[k]) == self.spec_windows()[visible_from(
                        self.spec_hidden(),
                        0,
                    )[k]],
            decreases n - i,
        {
            if !self.hidden[i] {
                proof {
                    assert(visible_from(self.spec_hidden(), i as int) == seq![i as int]
                        + visible_from(self.spec_hidden(), i + 1));
                    assert(visible_from(self.spec_hidden(), 0).skip(r@.len() as int)[0]
                        == i as int);
                    assert(r@.len() < visible_from(self.spec_hidden(), 0).len());
                }

                r.push(&self.windows[i]);

                proof {
                    assert(visible_from(self.spec_hidden(), 0).skip(r@.len() as int)
                        =~= visible_from(self.spec_hidden(), 0).skip(r@.len() - 1).drop_first());
                    assert(visible_from(self.spec_hidden(), 0).skip(r@.len() as int)
                        =~= visible_from(self.spec_hidden(), i + 1));
                    assert(visible_from(self.spec_hidden(), 0)[r@.len() - 1] == i as int);
                }
            } else {
                proof {
                    assert(visible_from(self.spec_hidden(), i as int) == visible_from(
                        self.spec_hidden(),
                        i + 1,
                    ));
                }
            }

            i = i + 1;
        }

        proof {
            assert(visible_from(self.spec_hidden(), n as int) == Seq::<int>::empty());
            assert(visible_from(self.spec_hidden(), 0).skip(r@.len() as int).len() == 0);
        }

        r
    }

    /// The window at the given index, visible or not.
    pub fn window_at(&self, index: usize) -> (r: &W)
        requires
            index < self.spec_windows().len(),
        ensures
            *r == self.spec_windows()[index as int],
    {
        &self.windows[index]
    }

    /// The selected window's index.
    pub fn selected_index(&self) -> (r: usize)
        ensures
            r == self.spec_selected(),
    {
        self.selected
    }

    /// Moves the selection to the given index, unconditionally.
    pub fn select_window(&mut self, index: usize)
        requires
            index < old(self).spec_windows().len(),
        ensures
            final(self).spec_selected() == index,
            UI::only_selection_changed(*old(self), *final(self)),
    {
        self.selected = index;
    }

    /// The window at the given index is hidden.
    pub fn is_hidden(&self, index: usize) -> (r: bool)
        requires
            index < self.spec_hidden().len(),
        ensures
            r == self.spec_hidden()[index as int],
    {
        self.hidden[index]
    }

    /// Advances the selection forward circularly from the current index,
    /// skipping hidden and unselectable windows; the current window itself
    /// is reconsidered last. Fails, leaving the selection in place, exactly
    /// when no window exists, all are hidden, or no visible window is
    /// selectable.
    pub fn select_next_window(&mut self) -> (r: Result<(), UiError>)
        requires
            old(self).wf(),
        ensures
            final(self).wf(),
            UI::only_selection_changed(*old(self), *final(self)),
            r is Ok ==> final(self).selection_ok(),
            r is Ok && final(self).spec_selected() > old(self).spec_selected() ==> (forall|j: int|
                old(self).spec_selected() < j < final(self).spec_selected()
                    ==> !old(self).spec_qualifies(j)),
            r is Ok && final(self).spec_selected() <= old(self).spec_selected() ==> (forall|j: int|
                old(self).spec_selected() < j < old(self).spec_windows().len()
                    ==> !old(self).spec_qualifies(j)) && (forall|j: int|
                0 <= j < final(self).spec_selected() ==> !old(self).spec_qualifies(j)),
            match r {
                Ok(()) => true,
                Err(e) => {
                    &&& final(self).spec_selected() == old(self).spec_selected()
                    &&& (e == UiError::NoWindows <==> old(self).spec_windows().len() == 0)
                    &&& (e == UiError::AllWindowsHidden <==> old(self).spec_windows().len() > 0
                        && (forall|j: int|
                        0 <= j < old(self).spec_hidden().len() ==> old(self).spec_hidden()[j]))
                    &&& (e == UiError::NoSelectableWindow ==> forall|j: int|
                        !old(self).spec_qualifies(j))
                    &&& (e == UiError::NoWindows || e == UiError::AllWindowsHidden || e
                        == UiError::NoSelectableWindow)
                },
            },
    {
        let n = self.windows.len();

        if n == 0 {
            return Err(UiError::NoWindows);
        }

        let mut all_hidden = true;
        let mut k: usize = 0;

        while k < n
            invariant
                k <= n,
                n == self.spec_hidden().len(),
                all_hidden == (forall|t: int| 0 <= t < k ==> self.spec_hidden()[t]),
            decreases n - k,
        {
            if !self.hidden[k] {
                all_hidden = false;
            }

            k = k + 1;
        }

        if all_hidden {
            return Err(UiError::AllWindowsHidden);
        }

        let s = self.selected;
        let mut i = s + 1;

        while i < n
            invariant
                s + 1 <= i <= n,
                s < n,
                old(self).wf(),
                s == old(self).spec_selected(),
                n == self.spec_windows().len(),
                n == self.spec_hidden().len(),
                self == old(self),
                forall|j: int| s < j < i ==> !self.spec_qualifies(j),
            decreases n - i,
        {
            if !self.hidden[i] && (&self.windows[i]).info().selectable {
                self.selected = i;

                proof {
                    assert(self.spec_qualifies(i as int));
                    assert(self.selection_ok());
                    assert(self.spec_selected() == i as int);
                    assert(old(self).spec_selected() == s as int);
                    assert(forall|j: int|
                        old(self).spec_selected() < j < self.spec_selected() ==> !old(self).spec_qualifies(j));
                }

                return Ok(());
            }

            i = i + 1;
        }

        let mut j: usize = 0;

        while j <= s
            invariant
                j <= s + 1,
                s < n,
                old(self).wf(),
                s == old(self).spec_selected(),
                n == self.spec_windows().len(),
                n == self.spec_hidden().len(),
                self == old(self),
                forall|t: int| s < t < n ==> !self.spec_qualifies(t),
                forall|t: int| 0 <= t < j ==> !self.spec_qualifies(t),
            decreases s + 1 - j,
        {
            if !self.hidden[j] && (&self.windows[j]).info().selectable {
                self.selected = j;

                return Ok(());
            }

            j = j + 1;
        }

        Err(UiError::NoSelectableWindow)
    }

    /// Hides the window at the given index; if it was selected, the
    /// selection is advanced first. Fails, changing nothing, exactly when
    /// hiding the selected window would leave no window to select.
    pub fn hide_window(&mut self, index: usize) -> (r: Result<(), UiError>)
        requires
            old(self).wf(),
            index < old(self).spec_windows().len(),
        ensures
            final(self).wf(),
            final(self).spec_windows() == old(self).spec_windows(),
            final(self).spec_state() == old(self).spec_state(),
            final(self).spec_cursor() == old(self).spec_cursor(),
            final(self).spec_window_bounds() == old(self).spec_window_bounds(),
            final(self).spec_border() == old(self).spec_border(),
            match r {
                Ok(()) => {
                    &&& final(self).spec_hidden() == old(self).spec_hidden().update(
                        index as int,
                        true,
                    )
                    &&& final(self).spec_needs_recalculate()
                    &&& (index != old(self).spec_selected() ==> final(self).spec_selected() == old(self).spec_selected())
                    &&& (old(self).selection_ok() ==> final(self).selection_ok())
                },
                Err(e) => {
                    &&& final(self).spec_hidden() == old(self).spec_hidden()
                    &&& final(self).spec_selected() == old(self).spec_selected()
                    &&& final(self).spec_needs_recalculate() == old(self).spec_needs_recalculate()
                    &&& index == old(self).spec_selected()
                    &&& (e == UiError::AllWindowsHidden || e == UiError::NoSelectableWindow)
                    &&& forall|j: int| j != index ==> !old(self).spec_qualifies(j)
                },
            },
    {
        let was_selected = index == self.selected;
        let was_hidden = self.hidden[index];
        let was_pending = self.recalculate;

        self.hidden[index] = true;
        self.recalculate = true;

        if was_selected {
            let ghost mid = *self;
            let advanced = self.select_next_window();


            match advanced {
                Ok(()) => {
                },
                Err(e) => {
                    proof {
                        if e == UiError::NoWindows {
                            assert(false);
                        }
                        assert forall|j: int| j != index implies !old(self).spec_qualifies(j) by {
                            if 0 <= j < mid.spec_windows().len() {
                                assert(mid.spec_hidden()[j] == old(self).spec_hidden()[j]);
                                if e == UiError::AllWindowsHidden {
                                    assert(mid.spec_hidden()[j]);
                                } else {
                                    assert(!mid.spec_qualifies(j));
                                }
                            }
                        }
                    }

                    self.hidden[index] = was_hidden;
                    self.recalculate = was_pending;

                    proof {
                        assert(self.spec_hidden() =~= old(self).spec_hidden());
                    }

                    return Err(e);
                },
            }
        }

        self.recalculate = true;

        Ok(())
    }

    /// Shows the window at the given index again.
    pub fn show_window(&mut self, index: usize)
        requires
            old(self).wf(),
            index < old(self).spec_windows().len(),
        ensures
            final(self).wf(),
            final(self).spec_windows() == old(self).spec_windows(),
            final(self).spec_selected() == old(self).spec_selected(),
            final(self).spec_hidden() == old(self).spec_hidden().update(index as int, false),
            final(self).spec_needs_recalculate(),
            final(self).spec_state() == old(self).spec_state(),
            final(self).spec_cursor() == old(self).spec_cursor(),
            final(self).spec_window_bounds() == old(self).spec_window_bounds(),
            final(self).spec_border() == old(self).spec_border(),
            old(self).selection_ok() ==> final(self).selection_ok(),
    {
        self.hidden[index] = false;
        self.recalculate = true;
    }

    /// Broadcasts the shared state to every visible window, once per cycle:
    /// each visible pane's new value is exactly what one `update_state` with
    /// the current shared state leaves, per its own `spec_after_update`;
    /// hidden panes are untouched, as is everything else.
    pub fn update_windows_state(&mut self)
        requires
            old(self).wf(),
        ensures
            final(self).wf(),
            final(self).spec_windows().len() == old(self).spec_windows().len(),
            forall|i: int|
                0 <= i < final(self).spec_windows().len() ==> (#[trigger] final(self).spec_windows()[i]).spec_info() == old(self).spec_windows()[i].spec_info()
                    && final(self).spec_windows()[i].spec_bounds() == old(self).spec_windows()[i].spec_bounds(),
            forall|i: int|
                0 <= i < old(self).spec_windows().len() && !old(self).spec_hidden()[i]
                    ==> #[trigger] W::spec_after_update(
                    old(self).spec_windows()[i],
                    old(self).spec_state()@,
                    final(self).spec_windows()[i],
                ),
            forall|i: int|
                0 <= i < old(self).spec_windows().len() && old(self).spec_hidden()[i]
                    ==> #[trigger] final(self).spec_windows()[i] == old(self).spec_windows()[i],
            final(self).spec_hidden() == old(self).spec_hidden(),
            final(self).spec_selected() == old(self).spec_selected(),
            final(self).spec_window_bounds() == old(self).spec_window_bounds(),
            final(self).spec_border() == old(self).spec_border(),
            final(self).spec_needs_recalculate() == old(self).spec_needs_recalculate(),
            final(self).spec_state() == old(self).spec_state(),
            final(self).spec_cursor() == old(self).spec_cursor(),
    {
        let st = self.state.clone();
        let n = self.windows.len();
        let mut i: usize = 0;

        while i < n
            invariant
                i <= n,
                n == self.spec_windows().len(),
                self.spec_windows().len() == old(self).spec_windows().len(),
                self.spec_hidden() == old(self).spec_hidden(),
                self.spec_hidden().len() == old(self).spec_windows().len(),
                self.spec_selected() == old(self).spec_selected(),
                self.spec_window_bounds() == old(self).spec_window_bounds(),
                self.spec_border() == old(self).spec_border(),
                self.spec_needs_recalculate() == old(self).spec_needs_recalculate(),
                self.spec_state() == old(self).spec_state(),
                self.spec_cursor() == old(self).spec_cursor(),
                st@ == old(self).spec_state()@,
                forall|t: int|
                    0 <= t < n ==> (#[trigger] self.spec_windows()[t]).spec_info() == old(self).spec_windows()[t].spec_info() && self.spec_windows()[t].spec_bounds() == old(self).spec_windows()[t].spec_bounds(),
                forall|t: int|
                    0 <= t < i && !old(self).spec_hidden()[t] ==> #[trigger] W::spec_after_update(
                        old(self).spec_windows()[t],
                        old(self).spec_state()@,
                        self.spec_windows()[t],
                    ),
                forall|t: int|
                    (i <= t < n || (0 <= t < i && old(self).spec_hidden()[t]))
                        ==> #[trigger] self.spec_windows()[t] == old(self).spec_windows()[t],
            decreases n - i,
        {
            if !self.hidden[i] {
                self.windows[i].update_state(&st);
            }

            i = i + 1;
        }
    }

    /// Delivers one input event to the selected window only, checking the
    /// shared state out to it by value and, on success, back in: the
    /// selected pane's new value, the new shared state and the outcome are
    /// exactly what one `handle_input` on the old values leaves, per the
    /// pane's own `spec_after_input`. On failure the checked-out state is
    /// discarded and the error propagated.
    pub fn pass_input_to_selected(&mut self, code: KeyCode, modifiers: KeyModifiers) -> (r: Result<
        (),
        UiError,
    >)
        requires
            old(self).wf(),
            old(self).spec_windows().len() > 0,
        ensures
            r is Ok ==> W::spec_after_input(
                old(self).spec_windows()[old(self).spec_selected()],
                old(self).spec_state()@,
                code,
                modifiers,
                final(self).spec_windows()[old(self).spec_selected()],
                final(self).spec_state()@,
                r,
            ),
            r is Err ==> exists|discarded: AppStateView|
                #[trigger] W::spec_after_input(
                    old(self).spec_windows()[old(self).spec_selected()],
                    old(self).spec_state()@,
                    code,
                    modifiers,
                    final(self).spec_windows()[old(self).spec_selected()],
                    discarded,
                    r,
                ),
            final(self).wf(),
            final(self).spec_windows().len() == old(self).spec_windows().len(),
            forall|i: int|
                0 <= i < final(self).spec_windows().len() ==> (#[trigger] final(self).spec_windows()[i]).spec_info() == old(self).spec_windows()[i].spec_info()
                    && final(self).spec_windows()[i].spec_bounds() == old(self).spec_windows()[i].spec_bounds(),
            forall|i: int|
                0 <= i < final(self).spec_windows().len() && i != old(self).spec_selected()
                    ==> #[trigger] final(self).spec_windows()[i] == old(self).spec_windows()[i],
            final(self).spec_hidden() == old(self).spec_hidden(),
            final(self).spec_selected() == old(self).spec_selected(),
            final(self).spec_window_bounds() == old(self).spec_window_bounds(),
            final(self).spec_border() == old(self).spec_border(),
            final(self).spec_needs_recalculate() == old(self).spec_needs_recalculate(),
            r is Err ==> final(self).spec_state() == old(self).spec_state(),
    {
        let mut st = self.state.clone();
        let sel = self.selected;
        let r = self.windows[sel].handle_input(&mut st, code, modifiers);

        proof {
            assert(W::spec_after_input(
                old(self).spec_windows()[sel as int],
                old(self).spec_state()@,
                code,
                modifiers,
                self.spec_windows()[sel as int],
                st@,
                r,
            ));
        }

        match r {
            Ok(()) => {
                self.state = st;
            },
            Err(e) => {
            },
        }

        r
    }

    /// Repositions the cursor: either to absolute terminal coordinates, or
    /// relative to the selected window's content area (one cell in from its
    /// origin).
    pub fn update_cursor_position(&mut self, position: (u16, u16), mode: CursorUpdateMode)
        requires
            old(self).wf(),
            (mode is RelativeToSelected) ==> {
                let b = old(self).spec_windows()[old(self).spec_selected()].spec_bounds();
                &&& old(self).spec_windows().len() > 0
                &&& b.x + position.0 + 1 <= u16::MAX
                &&& b.y + position.1 + 1 <= u16::MAX
            },
        ensures
            UI::only_cursor_changed(*old(self), *final(self)),
            final(self).spec_cursor() == match mode {
                CursorUpdateMode::Absolute => position,
                CursorUpdateMode::RelativeToSelected => {
                    let b = old(self).spec_windows()[old(self).spec_selected()].spec_bounds();
                    (((b.x + position.0 + 1) as u16), ((b.y + position.1 + 1) as u16))
                },
            },
    {
        let (x, y) = position;

        match mode {
            CursorUpdateMode::Absolute => {
                self.cursor_position = position;
            },
            CursorUpdateMode::RelativeToSelected => {
                let sel = self.selected;
                let b = (&self.windows[sel]).get_bounds();

                self.cursor_position = (b.x + x + 1, b.y + y + 1);
            },
        }
    }

    /// Rebuilds the layout and border caches wholesale: every visible
    /// window, in list order, is assigned the rectangle the greedy solver
    /// gives it over the rectangles placed before it; the border map is
    /// rebuilt over the union of all their perimeter points. Fails, leaving
    /// the orchestrator untouched, exactly when some window's placement is
    /// blocked.
    #[verifier::rlimit(100)]
    #[verifier::spinoff_prover]
    pub fn recalculate_ui(&mut self, term_size: (u16, u16)) -> (r: Result<(), UiError>)
        requires
            old(self).wf(),
            term_size.1 >= 1,
            forall|i: int|
                0 <= i < old(self).spec_windows().len() && !old(self).spec_hidden()[i]
                    ==> info_fits((#[trigger] old(self).spec_windows()[i]).spec_info(), term_size),
        ensures
            final(self).wf(),
            final(self).spec_windows().len() == old(self).spec_windows().len(),
            final(self).spec_hidden() == old(self).spec_hidden(),
            final(self).spec_selected() == old(self).spec_selected(),
            final(self).spec_state() == old(self).spec_state(),
            final(self).spec_cursor() == old(self).spec_cursor(),
            forall|i: int|
                0 <= i < final(self).spec_windows().len() ==> (#[trigger] final(self).spec_windows()[i]).spec_info() == old(self).spec_windows()[i].spec_info(),
            old(self).selection_ok() ==> final(self).selection_ok(),
            match r {
                Ok(()) => ({
                    let vis = visible_from(old(self).spec_hidden(), 0);
                    let infos = Seq::new(
                        vis.len(),
                        |k: int| old(self).spec_windows()[vis[k]].spec_info(),
                    );
                    &&& !final(self).spec_needs_recalculate()
                    &&& final(self).spec_window_bounds() matches Some(rects) && {
                        &&& layout_solves(infos, term_size, rects)
                        &&& forall|k: int|
                            0 <= k < vis.len() ==> (#[trigger] final(self).spec_windows()[vis[k]]).spec_bounds() == rects[k]
                        &&& forall|i: int|
                            0 <= i < old(self).spec_hidden().len() && old(self).spec_hidden()[i]
                                ==> final(self).spec_windows()[i] == old(self).spec_windows()[i]
                        &&& final(self).spec_border() matches Some(b) && b.wf() && forall|p: (
                            u16,
                            u16,
                        )|
                            has_point(b.points_seq(), p.0 as int, p.1 as int) <==> exists|k: int|
                                0 <= k < rects.len() && (#[trigger] rects[k]).spec_border_point(
                                    p.0,
                                    p.1,
                                )
                    }
                }),
                Err(e) => {
                    &&& e == UiError::LayoutInfeasible
                    &&& final(self).spec_windows() == old(self).spec_windows()
                    &&& final(self).spec_window_bounds() == old(self).spec_window_bounds()
                    &&& final(self).spec_border() == old(self).spec_border()
                    &&& final(self).spec_needs_recalculate() == old(self).spec_needs_recalculate()
                    &&& ({
                        let vis = visible_from(old(self).spec_hidden(), 0);
                        let infos = Seq::new(
                            vis.len(),
                            |k: int| old(self).spec_windows()[vis[k]].spec_info(),
                        );
                        exists|k: int, placed: Seq<Rect>|
                            {
                                &&& 0 <= k < infos.len()
                                &&& placed.len() == k
                                &&& #[trigger] layout_solves(infos.take(k), term_size, placed)
                                &&& placement_blocked(infos[k], placed, term_size)
                            }
                    })
                },
            },
    {
        let n = self.windows.len();
        let mut used: Vec<Rect> = Vec::new();
        let mut border = Border::new();
        let mut vis: Vec<usize> = Vec::new();
        let mut i: usize = 0;

        proof {
            assert(vis@.map_values(|u: usize| u as int) =~= Seq::<int>::empty());
            assert(vis@.map_values(|u: usize| u as int) + visible_from(self.spec_hidden(), 0)
                =~= visible_from(self.spec_hidden(), 0));
        }

        while i < n
            invariant
                i <= n,
                n == self.spec_windows().len(),
                n == self.spec_hidden().len(),
                term_size.1 >= 1,
                self == old(self),
                old(self).wf(),
                forall|i2: int|
                    0 <= i2 < n && !self.spec_hidden()[i2] ==> info_fits(
                        (#[trigger] self.spec_windows()[i2]).spec_info(),
                        term_size,
                    ),
                used@.len() == vis@.len(),
                vis@.map_values(|u: usize| u as int) + visible_from(self.spec_hidden(), i as int)
                    == visible_from(self.spec_hidden(), 0),
                forall|t: int| 0 <= t < vis@.len() ==> (#[trigger] vis@[t]) < i && !self.spec_hidden()[vis@[t] as int],
                forall|t1: int, t2: int| 0 <= t1 < t2 < vis@.len() ==> vis@[t1] < vis@[t2],
                forall|k: int|
                    0 <= k < used@.len() ==> placed_ok(
                        self.spec_windows()[vis@[k] as int].spec_info(),
                        used@.take(k),
                        term_size,
                        #[trigger] used@[k],
                    ),
                forall|p: (u16, u16)|
                    has_point(border.points_seq(), p.0 as int, p.1 as int) <==> exists|k: int|
                        0 <= k < used@.len() && (#[trigger] used@[k]).spec_border_point(p.0, p.1),
            decreases n - i,
        {
            if !self.hidden[i] {
                let info = (&self.windows[i]).info();

                match get_window_dimensions(info, &used, term_size) {
                    Ok(bounds) => {
                        let ghost used_before = used@;
                        let ghost vis_before = vis@;
                        let ghost border_points_before = border.points_seq();
                        let pts = bounds.border_points();
                        used.push(bounds);
                        vis.push(i);
                        border.append(pts);

                        proof {
                            let n_new = used@.len();
                            assert(used@[n_new - 1] == bounds);
                            assert(vis@[n_new - 1] == i);
                            assert(used@.take(n_new - 1) =~= used_before);

                            assert forall|k: int| 0 <= k < used@.len() implies placed_ok(
                                self.spec_windows()[vis@[k] as int].spec_info(),
                                used@.take(k),
                                term_size,
                                #[trigger] used@[k],
                            ) by {
                                if k < n_new - 1 {
                                    assert(used@[k] == used_before[k]);
                                    assert(vis@[k] == vis_before[k]);
                                    assert(used@.take(k) =~= used_before.take(k));
                                    assert(placed_ok(
                                        self.spec_windows()[vis_before[k] as int].spec_info(),
                                        used_before.take(k),
                                        term_size,
                                        used_before[k],
                                    ));
                                }
                            }

                            assert forall|p: (u16, u16)| has_point(
                                border.points_seq(),
                                p.0 as int,
                                p.1 as int,
                            ) <==> exists|k: int|
                                0 <= k < used@.len() && (#[trigger] used@[k]).spec_border_point(
                                    p.0,
                                    p.1,
                                ) by {
                                lemma_has_point_append(
                                    border_points_before,
                                    pts@,
                                    p.0 as int,
                                    p.1 as int,
                                );

                                if has_point(border_points_before, p.0 as int, p.1 as int) {
                                    let k = choose|k: int|
                                        0 <= k < used_before.len() && (
                                        #[trigger] used_before[k]).spec_border_point(p.0, p.1);
                                    assert(used@[k].spec_border_point(p.0, p.1));
                                }
                                if has_point(pts@, p.0 as int, p.1 as int) {
                                    let t = choose|t: int|
                                        0 <= t < pts@.len() && (#[trigger] pts@[t]).0 == p.0
                                            && pts@[t].1 == p.1;
                                    assert(pts@[t] == p);
                                    assert(pts@.contains(p));
                                    assert(used@[n_new - 1].spec_border_point(p.0, p.1));
                                }
                                if exists|k: int|
                                    0 <= k < used@.len() && (
                                    #[trigger] used@[k]).spec_border_point(p.0, p.1) {
                                    let k = choose|k: int|
                                        0 <= k < used@.len() && (
                                        #[trigger] used@[k]).spec_border_point(p.0, p.1);
                                    if k < n_new - 1 {
                                        assert(used_before[k].spec_border_point(p.0, p.1));
                                        assert(has_point(
                                            border_points_before,
                                            p.0 as int,
                                            p.1 as int,
                                        ));
                                    } else {
                                        assert(bounds.spec_border_point(p.0, p.1));
                                        assert(pts@.contains(p));
                                        let t = choose|t: int|
                                            0 <= t < pts@.len() && pts@[t] == p;
                                        assert(pts@[t].0 == p.0 && pts@[t].1 == p.1);
                                        assert(has_point(pts@, p.0 as int, p.1 as int));
                                    }
                                }
                            }

                            assert(visible_from(self.spec_hidden(), i as int) == seq![i as int]
                                + visible_from(self.spec_hidden(), i + 1));
                            assert(vis@.map_values(|u: usize| u as int) =~= vis_before.map_values(
                                |u: usize| u as int,
                            ).push(i as int));
                            assert(vis@.map_values(|u: usize| u as int) + visible_from(
                                self.spec_hidden(),
                                i + 1,
                            ) =~= visible_from(self.spec_hidden(), 0));
                        }
                    },
                    Err(e) => {
                        proof {
                            let vis_spec = visible_from(old(self).spec_hidden(), 0);
                            let infos = Seq::new(
                                vis_spec.len(),
                                |k: int| old(self).spec_windows()[vis_spec[k]].spec_info(),
                            );
                            let k = vis@.len() as int;

                            assert(visible_from(self.spec_hidden(), i as int) == seq![i as int]
                                + visible_from(self.spec_hidden(), i + 1));
                            assert(vis_spec.take(k) =~= vis@.map_values(|u: usize| u as int));
                            assert(vis_spec[k] == i);
                            assert(infos[k] == self.spec_windows()[i as int].spec_info());
                            assert(infos.take(k).len() == k);
                            assert forall|k2: int| 0 <= k2 < k implies placed_ok(
                                infos.take(k)[k2],
                                used@.take(k2),
                                term_size,
                                #[trigger] used@[k2],
                            ) by {
                                assert(vis_spec.take(k)[k2] == vis@[k2] as int);
                                assert(infos.take(k)[k2] == self.spec_windows()[vis@[k2] as int].spec_info());
                            }
                            assert(layout_solves(infos.take(k), term_size, used@));
                            assert(placement_blocked(infos[k], used@, term_size));
                        }

                        return Err(e);
                    },
                }
            } else {
                proof {
                    assert(visible_from(self.spec_hidden(), i as int) == visible_from(
                        self.spec_hidden(),
                        i + 1,
                    ));
                }
            }

            i = i + 1;
        }

        let vis_len = vis.len();
        let mut k: usize = 0;

        while k < vis_len
            invariant
                k <= vis_len,
                vis_len == vis@.len(),
                used@.len() == vis@.len(),
                n == self.spec_windows().len(),
                forall|t: int|
                    0 <= t < vis@.len() ==> (#[trigger] vis@[t]) < n && !self.spec_hidden()[vis@[t] as int],
                forall|t1: int, t2: int| 0 <= t1 < t2 < vis@.len() ==> vis@[t1] < vis@[t2],
                self.spec_hidden() == old(self).spec_hidden(),
                self.spec_selected() == old(self).spec_selected(),
                self.spec_state() == old(self).spec_state(),
                self.spec_cursor() == old(self).spec_cursor(),
                self.spec_window_bounds() == old(self).spec_window_bounds(),
                self.spec_border() == old(self).spec_border(),
                self.spec_needs_recalculate() == old(self).spec_needs_recalculate(),
                forall|i2: int|
                    0 <= i2 < n ==> (#[trigger] self.spec_windows()[i2]).spec_info() == old(self).spec_windows()[i2].spec_info(),
                old(self).wf(),
                forall|k2: int|
                    0 <= k2 < used@.len() ==> placed_ok(
                        self.spec_windows()[vis@[k2] as int].spec_info(),
                        used@.take(k2),
                        term_size,
                        #[trigger] used@[k2],
                    ),
                forall|t: int|
                    0 <= t < k ==> (#[trigger] self.spec_windows()[vis@[t] as int]).spec_bounds()
                        == used@[t],
                forall|i2: int|
                    0 <= i2 < n && (forall|t: int| 0 <= t < vis@.len() ==> (#[trigger] vis@[t]) as int != i2)
                        ==> self.spec_windows()[i2] == old(self).spec_windows()[i2],
            decreases vis_len - k,
        {
            let wi = vis[k];
            self.windows[wi].set_bounds(used[k]);

            k = k + 1;
        }

        proof {
            assert(visible_from(self.spec_hidden(), n as int) == Seq::<int>::empty());
            assert(vis@.map_values(|u: usize| u as int) + visible_from(self.spec_hidden(), n as int)
                =~= vis@.map_values(|u: usize| u as int));
            assert(vis@.map_values(|u: usize| u as int) == visible_from(self.spec_hidden(), 0));
        }

        border.recalculate_directions();

        self.window_bounds = Some(used);
        self.border = Some(border);
        self.recalculate = false;

        proof {
            let vis_spec = visible_from(old(self).spec_hidden(), 0);
            let infos = Seq::new(
                vis_spec.len(),
                |k: int| old(self).spec_windows()[vis_spec[k]].spec_info(),
            );

            assert(vis_spec == vis@.map_values(|u: usize| u as int));
            assert(infos.len() == used@.len());
            assert forall|k2: int| 0 <= k2 < infos.len() implies placed_ok(
                infos[k2],
                used@.take(k2),
                term_size,
                #[trigger] used@[k2],
            ) by {
                assert(vis_spec[k2] == vis@[k2] as int);
                assert(infos[k2] == old(self).spec_windows()[vis@[k2] as int].spec_info());
                assert(placed_ok(
                    self.spec_windows()[vis@[k2] as int].spec_info(),
                    used@.take(k2),
                    term_size,
                    used@[k2],
                ));
            }
            assert(layout_solves(infos, term_size, used@));

            assert forall|i2: int|
                0 <= i2 < old(self).spec_hidden().len() && old(self).spec_hidden()[i2] implies #[trigger] self.spec_windows()[i2]
                == old(self).spec_windows()[i2] by {
                assert forall|t: int| 0 <= t < vis@.len() implies (#[trigger] vis@[t]) as int
                    != i2 by {
                    assert(!self.spec_hidden()[vis@[t] as int]);
                }
            }

            assert forall|k2: int| 0 <= k2 < vis_spec.len() implies (
            #[trigger] self.spec_windows()[vis_spec[k2]]).spec_bounds() == used@[k2] by {
                assert(vis_spec[k2] == vis@[k2] as int);
            }
        }

        Ok(())
    }

    /// Renders one frame: recomputes the layout and border first where a
    /// visibility or size change invalidated them, then emits a screen
    /// clear; per visible pane, in list order, its rows clipped to its
    /// rectangle; the border glyphs; and per visible pane a title cut to two
    /// columns less than its width, one row above its content. The frame
    /// decomposes into exactly those four parts. Fails, changing no caches,
    /// exactly when a rebuild was due and some placement is blocked.
    #[verifier::rlimit(100)]
    #[verifier::spinoff_prover]
    pub fn draw(&mut self, term_size: (u16, u16)) -> (r: Result<Vec<DrawCommand>, UiError>)
        requires
            old(self).wf(),
            term_size.1 >= 1,
            forall|i: int|
                0 <= i < old(self).spec_windows().len() && !old(self).spec_hidden()[i]
                    ==> info_fits((#[trigger] old(self).spec_windows()[i]).spec_info(), term_size),
        ensures
            final(self).wf(),
            final(self).spec_windows().len() == old(self).spec_windows().len(),
            final(self).spec_hidden() == old(self).spec_hidden(),
            final(self).spec_selected() == old(self).spec_selected(),
            final(self).spec_state() == old(self).spec_state(),
            final(self).spec_cursor() == old(self).spec_cursor(),
            forall|i: int|
                0 <= i < final(self).spec_windows().len() ==> (#[trigger] final(self).spec_windows()[i]).spec_info() == old(self).spec_windows()[i].spec_info(),
            old(self).selection_ok() ==> final(self).selection_ok(),
            match r {
                Ok(cmds) => {
                    &&& !final(self).spec_needs_recalculate()
                    &&& cmds@.len() >= 1
                    &&& cmds@[0] == DrawCommand::ClearAll
                    &&& final(self).spec_window_bounds() matches Some(rects) && (final(self).spec_border() matches Some(bord)
                        && exists|cp: Seq<DrawCommand>, bp: Seq<DrawCommand>, tp: Seq<DrawCommand>|
                        {
                            &&& cmds@ == seq![DrawCommand::ClearAll] + cp + bp + tp
                            &&& #[trigger] content_ok(cp, rects)
                            &&& #[trigger] border_segment_ok(bp, bord)
                            &&& #[trigger] titles_ok(tp, rects)
                        })
                },
                Err(e) => {
                    &&& e == UiError::LayoutInfeasible
                    &&& ({
                        let vis = visible_from(old(self).spec_hidden(), 0);
                        let infos = Seq::new(
                            vis.len(),
                            |k: int| old(self).spec_windows()[vis[k]].spec_info(),
                        );
                        exists|k: int, placed: Seq<Rect>|
                            {
                                &&& 0 <= k < infos.len()
                                &&& placed.len() == k
                                &&& #[trigger] layout_solves(infos.take(k), term_size, placed)
                                &&& placement_blocked(infos[k], placed, term_size)
                            }
                    })
                },
            },
    {
        let n = self.windows.len();

        let needs = self.recalculate || match &self.window_bounds {
            Some(b) => false,
            None => true,
        } || match &self.border {
            Some(b) => false,
            None => true,
        };

        if needs {
            match self.recalculate_ui(term_size) {
                Ok(()) => {
                },
                Err(e) => {
                    return Err(e);
                },
            }
        }

        let ghost snap = *self;

        let mut bounds: Vec<Rect> = Vec::new();

        match &self.window_bounds {
            Some(b) => {
                let mut t: usize = 0;

                while t < b.len()
                    invariant
                        t <= b@.len(),
                        bounds@ == b@.take(t as int),
                    decreases b@.len() - t,
                {
                    bounds.push(b[t]);

                    proof {
                        assert(bounds@ =~= b@.take(t + 1));
                    }

                    t = t + 1;
                }

                proof {
                    assert(bounds@ =~= b@);
                }
            },
            None => {
                proof {
                    assert(false);
                }
            },
        }

        let ghost rects = bounds@;

        proof {
            assert(!self.spec_needs_recalculate());
            assert(self.spec_window_bounds() == Some(rects));
            assert(rects.len() == visible_from(self.spec_hidden(), 0).len());
        }

        let mut cmds: Vec<DrawCommand> = Vec::new();
        cmds.push(DrawCommand::ClearAll);

        // the panes' rows, clipped to their rectangles
        let mut i: usize = 0;
        let mut vi: usize = 0;
        let ghost mut segs: Seq<Seq<DrawCommand>> = Seq::empty();

        proof {
            assert(cmds@.subrange(1, 1) =~= Seq::<DrawCommand>::empty());
            assert(cmds@.subrange(1, cmds@.len() as int) =~= concat_parts(segs));
        }

        while i < n
            invariant
                i <= n,
                vi <= i,
                *self == snap,
                snap.wf(),
                n == self.spec_windows().len(),
                n == self.spec_hidden().len(),
                bounds@ == rects,
                rects.len() == visible_from(self.spec_hidden(), 0).len(),
                vi + visible_from(self.spec_hidden(), i as int).len() == visible_from(
                    self.spec_hidden(),
                    0,
                ).len(),
                cmds@.len() >= 1,
                cmds@[0] == DrawCommand::ClearAll,
                segs.len() == vi,
                cmds@.subrange(1, cmds@.len() as int) == concat_parts(segs),
                forall|k: int|
                    0 <= k < vi ==> window_rows_ok(#[trigger] segs[k], rects[k]),
            decreases n - i,
        {
            if !self.hidden[i] {
                proof {
                    assert(visible_from(self.spec_hidden(), i as int) == seq![i as int]
                        + visible_from(self.spec_hidden(), i + 1));
                    assert(vi < rects.len());
                }

                let bound = bounds[vi];
                let ghost win_start = cmds@.len() as int;
                let ghost content_before = cmds@.subrange(1, win_start);

                if bound.x < u16::MAX {
                    let lines = (&self.windows[i]).lines();
                    let mut rnum: usize = 0;
                    let ghost mut rparts: Seq<Seq<DrawCommand>> = Seq::empty();
                    let ghost mut rtexts: Seq<Seq<char>> = Seq::empty();

                    proof {
                        assert(cmds@.subrange(win_start, cmds@.len() as int)
                            =~= Seq::<DrawCommand>::empty());
                        assert(cmds@.subrange(win_start, cmds@.len() as int) =~= concat_parts(
                            rparts,
                        ));
                    }

                    while rnum < lines.len() && rnum < bound.height as usize && (bound.y as u32
                        + rnum as u32 + 1 <= 65535)
                        invariant
                            rnum <= lines@.len(),
                            rnum <= bound.height,
                            bound.x < u16::MAX,
                            forall|t: int| 0 <= t < lines@.len() ==> (#[trigger] lines@[t]).wf(),
                            rparts.len() == rnum,
                            rtexts.len() == rnum,
                            1 <= win_start <= cmds@.len(),
                            cmds@[0] == DrawCommand::ClearAll,
                            cmds@.subrange(1, win_start) == content_before,
                            cmds@.subrange(win_start, cmds@.len() as int) == concat_parts(rparts),
                            rows_ok(rparts, bound, rtexts),
                        decreases lines@.len() - rnum,
                    {
                        let row = (rnum + 1) as u32 + bound.y as u32;
                        let ghost all_before = cmds@;

                        push_row_commands(
                            &lines[rnum],
                            bound.x + 1,
                            row as u16,
                            bound.width,
                            &mut cmds,
                        );

                        proof {
                            let rowseg = cmds@.subrange(
                                all_before.len() as int,
                                cmds@.len() as int,
                            );
                            assert(cmds@.take(all_before.len() as int) == all_before);
                            assert(cmds@.subrange(1, win_start) =~= all_before.subrange(
                                1,
                                win_start,
                            ));
                            assert(one_row_ok(rowseg, bound, lines@[rnum as int].text(), rnum as int))
                                by {
                                assert(rowseg[0] == DrawCommand::MoveTo(
                                    ((bound.x + 1) as u16),
                                    (row as u16),
                                ));
                                assert(rowseg.subrange(1, rowseg.len() as int) =~= cmds@.subrange(
                                    all_before.len() as int + 1,
                                    cmds@.len() as int,
                                ));
                            }

                            let rparts2 = rparts.push(rowseg);
                            let rtexts2 = rtexts.push(lines@[rnum as int].text());
                            assert(rparts2.drop_last() =~= rparts);
                            assert(rtexts2.drop_last() =~= rtexts);
                            assert(concat_parts(rparts2) == concat_parts(rparts) + rowseg);
                            assert(cmds@.subrange(win_start, cmds@.len() as int) =~= concat_parts(
                                rparts,
                            ) + rowseg);
                            assert forall|t2: int| 0 <= t2 < rparts2.len() implies one_row_ok(
                                #[trigger] rparts2[t2],
                                bound,
                                rtexts2[t2],
                                t2,
                            ) by {
                                if t2 < rparts.len() {
                                    assert(rparts2[t2] == rparts[t2]);
                                    assert(rtexts2[t2] == rtexts[t2]);
                                }
                            }
                            rparts = rparts2;
                            rtexts = rtexts2;
                        }

                        rnum = rnum + 1;
                    }

                    proof {
                        assert(rows_ok(rparts, bound, rtexts));
                        assert(window_rows_ok(
                            cmds@.subrange(win_start, cmds@.len() as int),
                            bound,
                        ));
                    }
                } else {
                    proof {
                        assert(cmds@.subrange(win_start, cmds@.len() as int)
                            =~= Seq::<DrawCommand>::empty());
                        assert(cmds@.subrange(win_start, cmds@.len() as int) =~= concat_parts(
                            Seq::<Seq<DrawCommand>>::empty(),
                        ));
                        assert(rows_ok(
                            Seq::<Seq<DrawCommand>>::empty(),
                            bound,
                            Seq::<Seq<char>>::empty(),
                        ));
                        assert(window_rows_ok(
                            cmds@.subrange(win_start, cmds@.len() as int),
                            bound,
                        ));
                    }
                }

                proof {
                    let winseg = cmds@.subrange(win_start, cmds@.len() as int);
                    let segs2 = segs.push(winseg);
                    assert(segs2.drop_last() =~= segs);
                    assert(concat_parts(segs2) == concat_parts(segs) + winseg);
                    assert(cmds@.subrange(1, cmds@.len() as int) =~= content_before + winseg);
                    assert(cmds@.subrange(1, cmds@.len() as int) == concat_parts(segs2));
                    assert forall|k: int| 0 <= k < segs2.len() implies window_rows_ok(
                        #[trigger] segs2[k],
                        rects[k],
                    ) by {
                        if k < segs.len() {
                            assert(segs2[k] == segs[k]);
                        }
                    }
                    segs = segs2;
                }

                vi = vi + 1;
            } else {
                proof {
                    assert(visible_from(self.spec_hidden(), i as int) == visible_from(
                        self.spec_hidden(),
                        i + 1,
                    ));
                }
            }

            i = i + 1;
        }

        let ghost content_end = cmds@.len() as int;
        let ghost content_part = cmds@.subrange(1, content_end);

        proof {
            assert(visible_from(self.spec_hidden(), n as int) == Seq::<int>::empty());
            assert(segs.len() == rects.len());
            assert(content_ok(content_part, rects));
        }

        // the border glyphs
        match &self.border {
            Some(b) => {
                let ghost cmds_before = cmds@;
                push_border_commands(b, &mut cmds);

                proof {
                    assert(cmds@.take(cmds_before.len() as int) == cmds_before);
                    assert(cmds@[0] == cmds_before[0]);
                    assert(cmds@.subrange(1, content_end) =~= content_part);
                    let bp = cmds@.subrange(content_end, cmds@.len() as int);
                    assert(bp.len() == 2 * b.points_seq().len());
                    assert forall|k: int| 0 <= k < b.points_seq().len() implies {
                        &&& bp[2 * k] == DrawCommand::MoveTo(
                            b.points_seq()[k].0,
                            b.points_seq()[k].1,
                        )
                        &&& (#[trigger] bp[2 * k + 1]) matches DrawCommand::Print { text, style }
                            && text@.len() == 1 && text@[0] == spec_border_glyph(
                            BorderStyle::Light,
                            point_direction(b.points_seq(), b.points_seq()[k]),
                        ) && style == (Style { fg: Some(Color::Black), bg: None, bold: false })
                    } by {
                        assert(bp[2 * k] == cmds@[content_end + 2 * k]);
                        assert(bp[2 * k + 1] == cmds@[content_end + 2 * k + 1]);
                    }
                    assert(border_segment_ok(bp, *b));
                }
            },
            None => {
                proof {
                    assert(false);
                }
            },
        }

        let ghost border_end = cmds@.len() as int;
        let ghost border_part = cmds@.subrange(content_end, border_end);

        // the titles, one row above each pane's content
        let mut i2: usize = 0;
        let mut vi2: usize = 0;
        let ghost mut tsegs: Seq<Seq<DrawCommand>> = Seq::empty();

        proof {
            assert(cmds@.subrange(border_end, cmds@.len() as int)
                =~= Seq::<DrawCommand>::empty());
            assert(cmds@.subrange(border_end, cmds@.len() as int) =~= concat_parts(tsegs));
        }

        while i2 < n
            invariant
                i2 <= n,
                vi2 <= i2,
                *self == snap,
                snap.wf(),
                n == self.spec_windows().len(),
                n == self.spec_hidden().len(),
                bounds@ == rects,
                rects.len() == visible_from(self.spec_hidden(), 0).len(),
                vi2 + visible_from(self.spec_hidden(), i2 as int).len() == visible_from(
                    self.spec_hidden(),
                    0,
                ).len(),
                1 <= content_end <= border_end <= cmds@.len(),
                cmds@[0] == DrawCommand::ClearAll,
                cmds@.subrange(1, content_end) == content_part,
                cmds@.subrange(content_end, border_end) == border_part,
                tsegs.len() == vi2,
                cmds@.subrange(border_end, cmds@.len() as int) == concat_parts(tsegs),
                forall|k: int| 0 <= k < vi2 ==> one_title_ok(#[trigger] tsegs[k], rects[k]),
            decreases n - i2,
        {
            if !self.hidden[i2] {
                proof {
                    assert(visible_from(self.spec_hidden(), i2 as int) == seq![i2 as int]
                        + visible_from(self.spec_hidden(), i2 + 1));
                    assert(vi2 < rects.len());
                }

                let bound = bounds[vi2];
                let ghost all_before = cmds@;

                let title = (&self.windows[i2]).title();
                let tstyle = match (&self.windows[i2]).title_style() {
                    Some(st) => st,
                    None => Style::default(),
                };

                let tl = title.as_str().unicode_len();
                let shown = if bound.width >= 2 && tl > (bound.width - 2) as usize {
                    title.as_str().substring_char(0, (bound.width - 2) as usize).to_owned()
                } else {
                    title
                };

                if bound.x < u16::MAX {
                    let ghost shown_view = shown@;
                    cmds.push(DrawCommand::MoveTo(bound.x + 1, bound.y));
                    cmds.push(DrawCommand::Print { text: shown, style: tstyle });

                    proof {
                        let seg = cmds@.subrange(all_before.len() as int, cmds@.len() as int);
                        assert(cmds@.take(all_before.len() as int) =~= all_before);
                        assert(cmds@.subrange(1, content_end) =~= all_before.subrange(
                            1,
                            content_end,
                        ));
                        assert(cmds@.subrange(content_end, border_end) =~= all_before.subrange(
                            content_end,
                            border_end,
                        ));
                        assert(seg.len() == 2);
                        assert(seg[0] == DrawCommand::MoveTo(((bound.x + 1) as u16), bound.y));
                        assert(bound.width >= 2 ==> shown_view.len() <= bound.width - 2);
                        assert(one_title_ok(seg, bound));

                        let tsegs2 = tsegs.push(seg);
                        assert(tsegs2.drop_last() =~= tsegs);
                        assert(concat_parts(tsegs2) == concat_parts(tsegs) + seg);
                        assert(cmds@.subrange(border_end, cmds@.len() as int) =~= concat_parts(
                            tsegs,
                        ) + seg);
                        assert forall|k: int| 0 <= k < tsegs2.len() implies one_title_ok(
                            #[trigger] tsegs2[k],
                            rects[k],
                        ) by {
                            if k < tsegs.len() {
                                assert(tsegs2[k] == tsegs[k]);
                            }
                        }
                        tsegs = tsegs2;
                    }
                } else {
                    proof {
                        let seg = Seq::<DrawCommand>::empty();
                        assert(one_title_ok(seg, bound));

                        let tsegs2 = tsegs.push(seg);
                        assert(tsegs2.drop_last() =~= tsegs);
                        assert(concat_parts(tsegs2) == concat_parts(tsegs) + seg);
                        assert(cmds@.subrange(border_end, cmds@.len() as int) =~= concat_parts(
                            tsegs,
                        ) + seg);
                        assert forall|k: int| 0 <= k < tsegs2.len() implies one_title_ok(
                            #[trigger] tsegs2[k],
                            rects[k],
                        ) by {
                            if k < tsegs.len() {
                                assert(tsegs2[k] == tsegs[k]);
                            }
                        }
                        tsegs = tsegs2;
                    }
                }

                vi2 = vi2 + 1;
            } else {
                proof {
                    assert(visible_from(self.spec_hidden(), i2 as int) == visible_from(
                        self.spec_hidden(),
                        i2 + 1,
                    ));
                }
            }

            i2 = i2 + 1;
        }

        proof {
            let title_part = cmds@.subrange(border_end, cmds@.len() as int);
            assert(visible_from(self.spec_hidden(), n as int) == Seq::<int>::empty());
            assert(tsegs.len() == rects.len());
            assert(titles_ok(title_part, rects));
            assert(border_segment_ok(border_part, snap.spec_border()->Some_0));
            assert(content_ok(content_part, rects));
            assert(cmds@ =~= seq![DrawCommand::ClearAll] + content_part + border_part
                + title_part);
        }

        Ok(cmds)
    }

    /// Parks the cursor at the selected window's content origin.
    pub fn move_cursor_to_window_origin(&mut self)
        requires
            old(self).wf(),
            old(self).spec_windows().len() > 0,
            old(self).spec_windows()[old(self).spec_selected()].spec_bounds().x + 1 <= u16::MAX,
            old(self).spec_windows()[old(self).spec_selected()].spec_bounds().y + 1 <= u16::MAX,
        ensures
            UI::only_cursor_changed(*old(self), *final(self)),
            final(self).spec_cursor() == {
                let b = old(self).spec_windows()[old(self).spec_selected()].spec_bounds();
                (((b.x + 1) as u16), ((b.y + 1) as u16))
            },
    {
        self.update_cursor_position((0, 0), CursorUpdateMode::RelativeToSelected);
    }
}

} // verus!
