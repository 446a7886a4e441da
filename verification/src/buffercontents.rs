use vstd::prelude::*;
use vstd::string::StrSliceExecFns;

use crate::textrope::count_breaks_up_to;
use crate::textrope::is_line_start;
use crate::textrope::lemma_count_breaks_monotone;
use crate::textrope::lemma_line_start_exists;
use crate::textrope::lemma_line_start_unique;
use crate::textrope::line_count;
use crate::textrope::rope_chars;
use crate::textrope::rope_from_str;
use crate::textrope::rope_insert_char;
use crate::textrope::rope_insert_str;
use crate::textrope::rope_len_chars;
use crate::textrope::rope_len_lines;
use crate::textrope::rope_line_string;
use crate::textrope::rope_line_to_char;
use crate::textrope::rope_new;
use crate::textrope::rope_remove;
use crate::textrope::rope_slice_string;
use crate::textrope::rope_to_string;
use crate::textrope::rope_try_line_to_char;
use crate::textrope::spec_line_start;
use crate::textrope::spec_line_text;

verus! {

/// Which way a cursor motion goes.
#[derive(Debug, Clone, Copy, PartialEq, Eq, Structural)]
pub enum Direction {
    Left,
    Down,
    Up,
    Right,
}

impl Direction {
    /// The vertical direction of a scroll by `n` lines: down for positive,
    /// up otherwise.
    pub fn from_num_lines(n: isize) -> (r: Direction)
        ensures
            r == (if n > 0 {
                Direction::Down
            } else {
                Direction::Up
            }),
    {
        if n > 0 {
            Direction::Down
        } else {
            Direction::Up
        }
    }
}

/// The character length of line `k`, its terminating break included.
pub open spec fn line_len_of(s: Seq<char>, k: int) -> int {
    spec_line_start(s, k + 1) - spec_line_start(s, k)
}

/// The line the cursor lands on after one motion, before the column is
/// settled: the raw move, clamped into `[0, line_count]`. A leftward move
/// past the line start retreats one line; a rightward move past the line
/// end advances one.
pub open spec fn spec_moved_line(s: Seq<char>, line: int, col: int, d: Direction, n: int) -> int {
    let nl1 = match d {
        Direction::Left => if col - n < 0 {
            line - 1
        } else {
            line
        },
        Direction::Down => line + n,
        Direction::Up => line - n,
        Direction::Right => if col + n > line_len_of(s, line) - 1 {
            line + 1
        } else {
            line
        },
    };
    let lc = line_count(s) as int;
    if nl1 < 0 {
        0
    } else if nl1 > lc {
        lc
    } else {
        nl1
    }
}

/// The column the cursor lands on after one motion, given the line it
/// settled on: a wrapped column is re-anchored from the landed line's end,
/// then clamped into the landed line.
pub open spec fn spec_moved_col(s: Seq<char>, line: int, col: int, d: Direction, n: int) -> int {
    let nc1 = match d {
        Direction::Left => col - n,
        Direction::Down => col,
        Direction::Up => col,
        Direction::Right => if col + n > line_len_of(s, line) - 1 {
            line_len_of(s, line) - (col + n)
        } else {
            col + n
        },
    };
    let nl2 = spec_moved_line(s, line, col, d, n);
    let ll = line_len_of(s, nl2);
    let nc2 = if nc1 < 0 {
        ll - nc1 - 2
    } else {
        nc1
    };
    let maxc = (if ll > 1 {
        ll
    } else {
        1
    }) - 1;
    if nc2 < 0 {
        0
    } else if nc2 > maxc {
        maxc
    } else {
        nc2
    }
}

/// How many whitespace characters the text starts with.
pub open spec fn leading_ws_count(t: Seq<char>) -> nat
    decreases t.len(),
{
    if t.len() == 0 || !is_unicode_whitespace(t[0]) {
        0
    } else {
        1 + leading_ws_count(t.drop_first())
    }
}

/// How many whitespace characters the text ends with.
pub open spec fn trailing_ws_count(t: Seq<char>) -> nat
    decreases t.len(),
{
    if t.len() == 0 || !is_unicode_whitespace(t.last()) {
        0
    } else {
        1 + trailing_ws_count(t.drop_last())
    }
}

/// Whether the character counts as Unicode whitespace.
pub uninterp spec fn is_unicode_whitespace(c: char) -> bool;

pub assume_specification[ char::is_whitespace ](c: char) -> (r: bool)
    ensures
        r == is_unicode_whitespace(c),
;

/// A prefix of whitespace ending at the first non-whitespace character is
/// exactly the leading whitespace.
proof fn lemma_leading_ws(t: Seq<char>, k: int)
    requires
        0 <= k <= t.len(),
        forall|j: int| 0 <= j < k ==> is_unicode_whitespace(#[trigger] t[j]),
        k == t.len() || !is_unicode_whitespace(t[k]),
    ensures
        leading_ws_count(t) == k,
    decreases t.len(),
{
    if k == 0 {
    } else {
        assert(is_unicode_whitespace(t[0]));
        lemma_leading_ws(t.drop_first(), k - 1);
    }
}

/// A suffix of whitespace starting after the last non-whitespace character
/// is exactly the trailing whitespace.
proof fn lemma_trailing_ws(t: Seq<char>, k: int)
    requires
        0 <= k <= t.len(),
        forall|j: int| t.len() - k <= j < t.len() ==> is_unicode_whitespace(#[trigger] t[j]),
        k == t.len() || !is_unicode_whitespace(t[t.len() - k - 1]),
    ensures
        trailing_ws_count(t) == k,
    decreases t.len(),
{
    if k == 0 {
    } else {
        assert(is_unicode_whitespace(t.last()));
        assert(t.drop_last() =~= t.subrange(0, t.len() - 1));
        lemma_trailing_ws(t.drop_last(), k - 1);
    }
}

/// Line starts never decrease with the line index.
pub proof fn lemma_line_starts_ordered(s: Seq<char>, l1: int, l2: int)
    requires
        0 <= l1 <= l2 <= line_count(s),
        is_line_start(s, l1, spec_line_start(s, l1)),
        is_line_start(s, l2, spec_line_start(s, l2)),
    ensures
        spec_line_start(s, l1) <= spec_line_start(s, l2),
{
    let a = spec_line_start(s, l1);
    let b = spec_line_start(s, l2);

    if b < a {
        if l2 == line_count(s) {
            assert(b == s.len());
            assert(a <= s.len());
        } else {
            lemma_count_breaks_monotone(s, b, a);
            assert(count_breaks_up_to(s, a) <= count_breaks_up_to(s, s.len() as int)) by {
                lemma_count_breaks_monotone(s, a, s.len() as int);
            }
        }
    }
}

/// The rope-backed text buffer behind a buffer pane: the text, the cursor's
/// line and column, and how far the view is scrolled.
#[derive(Debug)]
pub struct BufferContents {
    pub rope: ropey::Rope,
    pub line: usize,
    pub col: usize,
    pub scroll_offset: usize,
}

impl BufferContents {
    /// The buffer's text, as a character sequence.
    pub open spec fn text(self) -> Seq<char> {
        rope_chars(self.rope)
    }

    pub fn new() -> (r: BufferContents)
        ensures
            r.text() == Seq::<char>::empty(),
            r.line == 0,
            r.col == 0,
            r.scroll_offset == 0,
    {
        BufferContents { rope: rope_new(), line: 0, col: 0, scroll_offset: 0 }
    }

    /// A buffer already holding the given text, with the cursor and scroll
    /// at the top. The hosting application reads a file into a string and
    /// hands it here.
    pub fn from_text(text: &str) -> (r: BufferContents)
        ensures
            r.text() == text@,
            r.line == 0,
            r.col == 0,
            r.scroll_offset == 0,
    {
        BufferContents { rope: rope_from_str(text), line: 0, col: 0, scroll_offset: 0 }
    }

    /// The whole text as one string.
    pub fn join_lines(&self) -> (r: String)
        ensures
            r@ == self.text(),
    {
        rope_to_string(&self.rope)
    }

    /// The number of lines in the buffer.
    pub fn len(&self) -> (r: usize)
        ensures
            r == line_count(self.text()),
    {
        rope_len_lines(&self.rope)
    }

    /// The cursor's position as a character index into the text.
    pub fn char_idx(&self) -> (r: usize)
        requires
            self.line <= line_count(self.text()),
            spec_line_start(self.text(), self.line as int) + self.col <= usize::MAX,
        ensures
            r == spec_line_start(self.text(), self.line as int) + self.col,
    {
        proof {
            lemma_line_start_exists(self.text(), self.line as int);
        }

        let pos = rope_line_to_char(&self.rope, self.line);

        proof {
            lemma_line_start_unique(
                self.text(),
                self.line as int,
                pos as int,
                spec_line_start(self.text(), self.line as int),
            );
        }

        pos + self.col
    }

    /// The character length of the cursor's line, its line break included.
    pub fn current_line_len(&self) -> (r: usize)
        requires
            self.line < line_count(self.text()),
        ensures
            r == line_len_of(self.text(), self.line as int),
    {
        proof {
            lemma_line_start_exists(self.text(), self.line as int);
            lemma_line_start_exists(self.text(), self.line as int + 1);
            lemma_line_starts_ordered(self.text(), self.line as int, self.line as int + 1);
        }

        let text = rope_line_string(&self.rope, self.line);

        text.as_str().unicode_len()
    }

    /// The cursor's line, its line break included, as a string.
    pub fn current_line_str(&self) -> (r: String)
        requires
            self.line < line_count(self.text()),
        ensures
            r@ == spec_line_text(self.text(), self.line as int),
    {
        rope_line_string(&self.rope, self.line)
    }

    /// The cursor's position within the pane: its column, and its line
    /// relative to the scroll.
    pub fn drawn_cursor(&self) -> (r: (usize, usize))
        requires
            self.scroll_offset <= self.line,
        ensures
            r == (self.col, (self.line - self.scroll_offset) as usize),
    {
        (self.col, self.line - self.scroll_offset)
    }

    /// Jumps to the buffer's first line and column, scrolled to the top.
    pub fn move_to_top(&mut self)
        ensures
            final(self).text() == old(self).text(),
            final(self).line == 0,
            final(self).col == 0,
            final(self).scroll_offset == 0,
    {
        self.line = 0;
        self.scroll_offset = 0;
        self.col = 0;
    }

    /// Jumps to the buffer's last line, scrolled so the pane's height ends
    /// there.
    pub fn move_to_bottom(&mut self, height: u16)
        requires
            height as int <= line_count(old(self).text()),
        ensures
            final(self).text() == old(self).text(),
            final(self).line == line_count(old(self).text()) - 1,
            final(self).scroll_offset == line_count(old(self).text()) - height,
            final(self).col == 0,
    {
        let len = self.len();
        self.line = len - 1;
        self.scroll_offset = len - height as usize;
        self.col = 0;
    }

    /// Moves the cursor `n` steps in the given direction: horizontal moves
    /// wrap around line ends, the line is clamped into the buffer, and the
    /// column into the landed line.
    pub fn move_cursor(&mut self, d: Direction, n: usize)
        requires
            (d is Right) ==> old(self).line < line_count(old(self).text()),
            spec_moved_line(old(self).text(), old(self).line as int, old(self).col as int, d, n as int)
                < line_count(old(self).text()),
        ensures
            final(self).text() == old(self).text(),
            final(self).scroll_offset == old(self).scroll_offset,
            final(self).line == spec_moved_line(
                old(self).text(),
                old(self).line as int,
                old(self).col as int,
                d,
                n as int,
            ),
            final(self).col == spec_moved_col(
                old(self).text(),
                old(self).line as int,
                old(self).col as int,
                d,
                n as int,
            ),
    {
        let mut new_line: i128 = self.line as i128;
        let mut new_col: i128 = self.col as i128;

        match d {
            Direction::Left => {
                new_col = new_col - n as i128;
                if new_col < 0 {
                    new_line = new_line - 1;
                }
            },
            Direction::Down => {
                new_line = new_line + n as i128;
            },
            Direction::Up => {
                new_line = new_line - n as i128;
            },
            Direction::Right => {
                let ll0 = self.current_line_len();
                new_col = new_col + n as i128;
                if new_col > ll0 as i128 - 1 {
                    new_col = ll0 as i128 - new_col;
                    new_line = new_line + 1;
                }
            },
        }

        let len = self.len();
        let clamped: i128 = if new_line < 0 {
            0
        } else if new_line > len as i128 {
            len as i128
        } else {
            new_line
        };

        self.line = clamped as usize;

        let ll = self.current_line_len();

        if new_col < 0 {
            new_col = ll as i128 - new_col - 2;
        }

        let maxc: i128 = (if ll > 1 {
            ll as i128
        } else {
            1
        }) - 1;
        let final_col: i128 = if new_col < 0 {
            0
        } else if new_col > maxc {
            maxc
        } else {
            new_col
        };

        self.col = final_col as usize;
    }

    /// Scrolls the view by `lines`, clamped to the buffer, and carries the
    /// cursor along by the same distance.
    pub fn scroll(&mut self, lines: isize)
        requires
            old(self).scroll_offset + lines <= usize::MAX,
            ({
                let n = if lines < 0 {
                    -(lines as int)
                } else {
                    lines as int
                };
                let d = if lines > 0 {
                    Direction::Down
                } else {
                    Direction::Up
                };
                &&& spec_moved_line(old(self).text(), old(self).line as int, old(self).col as int, d, n)
                    < line_count(old(self).text())
            }),
        ensures
            final(self).text() == old(self).text(),
            final(self).scroll_offset == ({
                let ns = old(self).scroll_offset + lines;
                let lc = line_count(old(self).text()) as int;
                if ns < 0 {
                    0
                } else if ns - 1 > lc {
                    lc - 1
                } else {
                    ns
                }
            }),
            ({
                let n = if lines < 0 {
                    -(lines as int)
                } else {
                    lines as int
                };
                let d = if lines > 0 {
                    Direction::Down
                } else {
                    Direction::Up
                };
                &&& final(self).line == spec_moved_line(
                    old(self).text(),
                    old(self).line as int,
                    old(self).col as int,
                    d,
                    n,
                )
                &&& final(self).col == spec_moved_col(
                    old(self).text(),
                    old(self).line as int,
                    old(self).col as int,
                    d,
                    n,
                )
            }),
    {
        let new_scroll: i128 = self.scroll_offset as i128 + lines as i128;
        let len = self.len();

        if new_scroll < 0 {
            self.scroll_offset = 0;
        } else if new_scroll - 1 > len as i128 {
            self.scroll_offset = len - 1;
        } else {
            self.scroll_offset = new_scroll as usize;
        }

        let n: usize = if lines < 0 {
            (-(lines as i128)) as usize
        } else {
            lines as usize
        };

        self.move_cursor(Direction::from_num_lines(lines), n);
    }

    /// Places the cursor on the first character of its line that is not
    /// whitespace.
    pub fn move_cursor_line_start(&mut self)
        requires
            old(self).line < line_count(old(self).text()),
        ensures
            final(self).text() == old(self).text(),
            final(self).line == old(self).line,
            final(self).scroll_offset == old(self).scroll_offset,
            final(self).col == leading_ws_count(
                spec_line_text(old(self).text(), old(self).line as int),
            ),
    {
        let text = self.current_line_str();
        let n = text.as_str().unicode_len();
        let mut k: usize = 0;

        while k < n && text.as_str().get_char(k).is_whitespace()
            invariant
                k <= n,
                n == text@.len(),
                forall|j: int| 0 <= j < k ==> is_unicode_whitespace(#[trigger] text@[j]),
            decreases n - k,
        {
            k = k + 1;
        }

        proof {
            lemma_leading_ws(text@, k as int);
        }

        self.col = k;
    }

    /// Places the cursor right after the last character of its line that is
    /// not whitespace.
    pub fn move_cursor_line_end(&mut self)
        requires
            old(self).line < line_count(old(self).text()),
        ensures
            final(self).text() == old(self).text(),
            final(self).line == old(self).line,
            final(self).scroll_offset == old(self).scroll_offset,
            final(self).col == spec_line_text(old(self).text(), old(self).line as int).len()
                - trailing_ws_count(spec_line_text(old(self).text(), old(self).line as int)),
    {
        let text = self.current_line_str();
        let n = text.as_str().unicode_len();
        let mut k: usize = n;

        while k > 0 && text.as_str().get_char(k - 1).is_whitespace()
            invariant
                k <= n,
                n == text@.len(),
                forall|j: int| k <= j < n ==> is_unicode_whitespace(#[trigger] text@[j]),
            decreases k,
        {
            k = k - 1;
        }

        proof {
            lemma_trailing_ws(text@, n - k);
        }

        self.col = k;
    }

    /// The rows the pane shows: the text from the scrolled-to line to the
    /// pane's height past it, or to the end where the buffer is shorter.
    pub fn get_rendered_lines(&self, height: u16) -> (r: String)
        requires
            self.scroll_offset <= line_count(self.text()),
            self.scroll_offset + height + 1 <= usize::MAX,
        ensures
            r@ == self.text().subrange(
                spec_line_start(self.text(), self.scroll_offset as int),
                if self.scroll_offset + height + 1 <= line_count(self.text()) {
                    spec_line_start(self.text(), self.scroll_offset + height + 1)
                } else {
                    self.text().len() as int
                },
            ),
    {
        proof {
            lemma_line_start_exists(self.text(), self.scroll_offset as int);
        }

        let start_opt = rope_try_line_to_char(&self.rope, self.scroll_offset);

        match start_opt {
            Some(start) => {
                proof {
                    lemma_line_start_unique(
                        self.text(),
                        self.scroll_offset as int,
                        start as int,
                        spec_line_start(self.text(), self.scroll_offset as int),
                    );
                }

                let end_line = height as usize + 1 + self.scroll_offset;
                let end_opt = rope_try_line_to_char(&self.rope, end_line);

                match end_opt {
                    Some(end) => {
                        proof {
                            lemma_line_start_exists(self.text(), end_line as int);
                            lemma_line_start_unique(
                                self.text(),
                                end_line as int,
                                end as int,
                                spec_line_start(self.text(), end_line as int),
                            );
                            lemma_line_starts_ordered(
                                self.text(),
                                self.scroll_offset as int,
                                end_line as int,
                            );
                        }

                        rope_slice_string(&self.rope, start, end)
                    },
                    None => {
                        let n = rope_len_chars(&self.rope);

                        rope_slice_string(&self.rope, start, n)
                    },
                }
            },
            None => {
                proof {
                    assert(false);
                }

                String::new()
            },
        }
    }

    /// Inserts one character at the cursor.
    pub fn insert_character(&mut self, c: char)
        requires
            old(self).text().len() <= usize::MAX,
            old(self).line <= line_count(old(self).text()),
            spec_line_start(old(self).text(), old(self).line as int) + old(self).col <= old(
                self,
            ).text().len(),
        ensures
            final(self).text() == ({
                let i = spec_line_start(old(self).text(), old(self).line as int) + old(self).col;
                old(self).text().subrange(0, i) + seq![c] + old(self).text().subrange(
                    i,
                    old(self).text().len() as int,
                )
            }),
            final(self).line == old(self).line,
            final(self).col == old(self).col,
            final(self).scroll_offset == old(self).scroll_offset,
    {
        let idx = self.char_idx();

        rope_insert_char(&mut self.rope, idx, c);
    }

    /// Inserts text at the cursor.
    pub fn insert_str(&mut self, s: &str)
        requires
            old(self).text().len() <= usize::MAX,
            old(self).line <= line_count(old(self).text()),
            spec_line_start(old(self).text(), old(self).line as int) + old(self).col <= old(
                self,
            ).text().len(),
        ensures
            final(self).text() == ({
                let i = spec_line_start(old(self).text(), old(self).line as int) + old(self).col;
                old(self).text().subrange(0, i) + s@ + old(self).text().subrange(
                    i,
                    old(self).text().len() as int,
                )
            }),
            final(self).line == old(self).line,
            final(self).col == old(self).col,
            final(self).scroll_offset == old(self).scroll_offset,
    {
        let idx = self.char_idx();

        rope_insert_str(&mut self.rope, idx, s);
    }

    /// Removes the character before the cursor.
    pub fn backspace_key_handler(&mut self)
        requires
            old(self).text().len() <= usize::MAX,
            old(self).line <= line_count(old(self).text()),
            1 <= spec_line_start(old(self).text(), old(self).line as int) + old(self).col <= old(
                self,
            ).text().len(),
        ensures
            final(self).text() == ({
                let i = spec_line_start(old(self).text(), old(self).line as int) + old(self).col;
                old(self).text().subrange(0, i - 1) + old(self).text().subrange(
                    i,
                    old(self).text().len() as int,
                )
            }),
            final(self).line == old(self).line,
            final(self).col == old(self).col,
            final(self).scroll_offset == old(self).scroll_offset,
    {
        let idx = self.char_idx();

        rope_remove(&mut self.rope, idx - 1, idx);
    }

    /// Removes the character under the cursor.
    pub fn delete_key_handler(&mut self)
        requires
            old(self).text().len() <= usize::MAX,
            old(self).line <= line_count(old(self).text()),
            spec_line_start(old(self).text(), old(self).line as int) + old(self).col + 1 <= old(
                self,
            ).text().len(),
        ensures
            final(self).text() == ({
                let i = spec_line_start(old(self).text(), old(self).line as int) + old(self).col;
                old(self).text().subrange(0, i) + old(self).text().subrange(
                    i + 1,
                    old(self).text().len() as int,
                )
            }),
            final(self).line == old(self).line,
            final(self).col == old(self).col,
            final(self).scroll_offset == old(self).scroll_offset,
    {
        let idx = self.char_idx();

        rope_remove(&mut self.rope, idx, idx + 1);
    }
}

} // verus!
