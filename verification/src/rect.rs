use vstd::prelude::*;

verus! {

/// An axis-aligned rectangle of terminal cells, the unit of window geometry.
#[derive(Debug, Clone, Copy, PartialEq, Eq, Structural)]
pub struct Rect {
    pub x: u16,
    pub y: u16,
    pub width: u16,
    pub height: u16,
}

impl Rect {
    /// The all-zero rectangle.
    pub open spec fn spec_default() -> Rect {
        Rect { x: 0u16, y: 0u16, width: 0u16, height: 0u16 }
    }

    /// The point lies inside the rectangle. The left and top edges are
    /// inclusive, the right edge is exclusive, and the bottom edge is
    /// inclusive; this asymmetry is deliberate and the layout solver and
    /// `border_points` depend on it.
    pub open spec fn spec_contains(self, px: u16, py: u16) -> bool {
        &&& px >= self.x
        &&& (px as int) < self.x + self.width
        &&& py >= self.y
        &&& (py as int) <= self.y + self.height
    }

    /// The point lies on the perimeter emitted by `border_points`: the two
    /// rows `y` and `y + height` over the half-open column range, and the two
    /// columns `x` and `x + width` over the closed row range.
    pub open spec fn spec_border_point(self, px: u16, py: u16) -> bool {
        ||| {
            &&& (py == self.y || py == self.y + self.height)
            &&& px >= self.x
            &&& (px as int) < self.x + self.width
        }
        ||| {
            &&& (px == self.x || px == self.x + self.width)
            &&& py >= self.y
            &&& (py as int) <= self.y + self.height
        }
    }

    pub fn new(x: u16, y: u16, width: u16, height: u16) -> (r: Rect)
        ensures
            r == (Rect { x, y, width, height }),
    {
        Rect { x, y, width, height }
    }

    /// The area measure used by the `MaxArea` fill mode ranking. It is
    /// deliberately `(width - x) * (height - y)`, not `width * height`.
    pub fn area(&self) -> (r: u16)
        requires
            self.x <= self.width,
            self.y <= self.height,
            (self.width - self.x) * (self.height - self.y) <= u16::MAX,
        ensures
            r == (self.width - self.x) * (self.height - self.y),
    {
        (self.width - self.x) * (self.height - self.y)
    }

    pub fn contains(&self, point: (u16, u16)) -> (r: bool)
        requires
            self.x + self.width <= u16::MAX,
            self.y + self.height <= u16::MAX,
        ensures
            r == self.spec_contains(point.0, point.1),
    {
        let (x, y) = point;

        x >= self.x && x < self.x + self.width && y >= self.y && y <= self.y + self.height
    }

    /// The cells of the top and bottom rows over the first `k` columns, in
    /// emission order: for each column, the top cell then the bottom cell.
    pub open spec fn spec_row_points(self, k: int) -> Seq<(u16, u16)>
        decreases k,
    {
        if k <= 0 {
            Seq::empty()
        } else {
            self.spec_row_points(k - 1) + seq![
                (((self.x + k - 1) as u16), self.y),
                (((self.x + k - 1) as u16), ((self.y + self.height) as u16)),
            ]
        }
    }

    /// The cells of the left and right columns over the first `k` rows, in
    /// emission order: for each row, the left cell then the right cell.
    pub open spec fn spec_column_points(self, k: int) -> Seq<(u16, u16)>
        decreases k,
    {
        if k <= 0 {
            Seq::empty()
        } else {
            self.spec_column_points(k - 1) + seq![
                (self.x, ((self.y + k - 1) as u16)),
                (((self.x + self.width) as u16), ((self.y + k - 1) as u16)),
            ]
        }
    }

    /// The exact sequence `border_points` emits: the two horizontal runs over
    /// the half-open column range `[x, x + width)`, then the two vertical runs
    /// over the closed row range `[y, y + height]`. The two top corners are
    /// emitted by both phases, so they appear twice.
    pub open spec fn spec_border_points(self) -> Seq<(u16, u16)> {
        self.spec_row_points(self.width as int) + self.spec_column_points(self.height + 1)
    }

    /// Every perimeter cell of the rectangle, exactly the sequence
    /// `spec_border_points` lays down; membership is characterised by
    /// `spec_border_point`. The two horizontal runs are half-open and the two
    /// vertical runs are closed, mirroring the inclusivity of `contains`.
    pub fn border_points(&self) -> (r: Vec<(u16, u16)>)
        requires
            self.x + self.width <= u16::MAX,
            self.y + self.height <= u16::MAX,
        ensures
            r@ == self.spec_border_points(),
            r@.len() == 2 * self.width + 2 * (self.height + 1),
            forall|p: (u16, u16)| r@.contains(p) <==> self.spec_border_point(p.0, p.1),
    {
        broadcast use vstd::seq_lib::lemma_seq_contains_after_push;

        let mut border_points: Vec<(u16, u16)> = Vec::new();

        let mut x = self.x;
        while x < self.width + self.x
            invariant
                self.x + self.width <= u16::MAX,
                self.y + self.height <= u16::MAX,
                self.x <= x <= self.x + self.width,
                border_points@ == self.spec_row_points(x - self.x),
                forall|p: (u16, u16)|
                    border_points@.contains(p) <==> {
                        &&& (p.1 == self.y || p.1 == self.y + self.height)
                        &&& p.0 >= self.x
                        &&& p.0 < x
                    },
            decreases self.width + self.x - x,
        {
            let ghost prev = border_points@;
            let top: (u16, u16) = (x, self.y);
            let bottom: (u16, u16) = (x, self.y + self.height);
            border_points.push(top);
            border_points.push(bottom);

            proof {
                assert(border_points@ == prev.push(top).push(bottom));
                assert(border_points@ =~= self.spec_row_points(x - self.x + 1));
                assert forall|p: (u16, u16)| #[trigger] border_points@.contains(p) implies {
                    &&& (p.1 == self.y || p.1 == self.y + self.height)
                    &&& p.0 >= self.x
                    &&& p.0 < x + 1
                } by {
                    if p != top && p != bottom {
                        assert(prev.contains(p));
                    }
                }
                assert forall|p: (u16, u16)|
                    {
                        &&& (p.1 == self.y || p.1 == self.y + self.height)
                        &&& p.0 >= self.x
                        &&& p.0 < x + 1
                    } implies #[trigger] border_points@.contains(p) by {
                    if p.0 < x {
                        assert(prev.contains(p));
                        let idx = choose|j: int| 0 <= j < prev.len() && prev[j] == p;
                        assert(border_points@[idx] == p);
                    } else {
                        assert(p == top || p == bottom);
                        assert(border_points@[border_points@.len() - 2] == top);
                        assert(border_points@[border_points@.len() - 1] == bottom);
                    }
                }
            }

            x = x + 1;
        }

        let mut i: u32 = 0;
        while i <= self.height as u32
            invariant
                self.x + self.width <= u16::MAX,
                self.y + self.height <= u16::MAX,
                i <= self.height as u32 + 1,
                border_points@ == self.spec_row_points(self.width as int) + self.spec_column_points(
                    i as int,
                ),
                forall|p: (u16, u16)|
                    border_points@.contains(p) <==> {
                        ||| {
                            &&& (p.1 == self.y || p.1 == self.y + self.height)
                            &&& p.0 >= self.x
                            &&& (p.0 as int) < self.x + self.width
                        }
                        ||| {
                            &&& (p.0 == self.x || p.0 == self.x + self.width)
                            &&& p.1 >= self.y
                            &&& (p.1 as int) < self.y + i
                        }
                    },
            decreases self.height as int + 1 - i,
        {
            let y = self.y + (i as u16);

            let ghost prev = border_points@;
            let left: (u16, u16) = (self.x, y);
            let right: (u16, u16) = (self.width + self.x, y);
            border_points.push(left);
            border_points.push(right);

            proof {
                assert(border_points@ == prev.push(left).push(right));
                assert(border_points@ =~= self.spec_row_points(self.width as int)
                    + self.spec_column_points(i + 1));
                assert forall|p: (u16, u16)| #[trigger] border_points@.contains(p) implies {
                    ||| {
                        &&& (p.1 == self.y || p.1 == self.y + self.height)
                        &&& p.0 >= self.x
                        &&& (p.0 as int) < self.x + self.width
                    }
                    ||| {
                        &&& (p.0 == self.x || p.0 == self.x + self.width)
                        &&& p.1 >= self.y
                        &&& (p.1 as int) < self.y + i + 1
                    }
                } by {
                    if p != left && p != right {
                        assert(prev.contains(p));
                    }
                }
                assert forall|p: (u16, u16)|
                    {
                        ||| {
                            &&& (p.1 == self.y || p.1 == self.y + self.height)
                            &&& p.0 >= self.x
                            &&& (p.0 as int) < self.x + self.width
                        }
                        ||| {
                            &&& (p.0 == self.x || p.0 == self.x + self.width)
                            &&& p.1 >= self.y
                            &&& (p.1 as int) < self.y + i + 1
                        }
                    } implies #[trigger] border_points@.contains(p) by {
                    if prev.contains(p) {
                        let idx = choose|j: int| 0 <= j < prev.len() && prev[j] == p;
                        assert(border_points@[idx] == p);
                    } else {
                        assert(p == left || p == right);
                        assert(border_points@[border_points@.len() - 2] == left);
                        assert(border_points@[border_points@.len() - 1] == right);
                    }
                }
            }

            i = i + 1;
        }

        proof {
            assert(border_points@ =~= self.spec_border_points());
            lemma_row_points_len(*self, self.width as int);
            lemma_column_points_len(*self, self.height + 1);
        }

        border_points
    }
}

impl Default for Rect {
    /// The all-zero rectangle, used by panes before the solver has
    /// assigned them real bounds.
    fn default() -> (r: Rect)
        ensures
            r == Rect::spec_default(),
    {
        Rect { x: 0, y: 0, width: 0, height: 0 }
    }
}

/// The row phase emits two cells per column.
proof fn lemma_row_points_len(r: Rect, k: int)
    requires
        k >= 0,
    ensures
        r.spec_row_points(k).len() == 2 * k,
    decreases k,
{
    if k > 0 {
        lemma_row_points_len(r, k - 1);
    }
}

/// The column phase emits two cells per row.
proof fn lemma_column_points_len(r: Rect, k: int)
    requires
        k >= 0,
    ensures
        r.spec_column_points(k).len() == 2 * k,
    decreases k,
{
    if k > 0 {
        lemma_column_points_len(r, k - 1);
    }
}

} // verus!
